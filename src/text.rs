//! Text positions, ranges and edits on document contents.
use vstd::prelude::*;

verus! {

/// A position in a document: a zero-based line and a zero-based column,
/// counted in the units of the negotiated position encoding.
#[derive(Clone, Copy, Debug, PartialEq, Eq, Structural)]
pub struct Position {
    pub line: u32,
    pub character: u32,
}

/// A range between two positions of a document.
#[derive(Clone, Copy, Debug, PartialEq, Eq, Structural)]
pub struct Range {
    pub start: Position,
    pub end: Position,
}

/// How the client counts columns.
#[derive(Clone, Copy, Debug, PartialEq, Eq, Structural)]
pub enum PositionEncoding {
    /// Columns count UTF-8 bytes.
    Utf8,
    /// Columns count UTF-16 code units.
    Utf16,
}

/// A change of a document's contents: a range and its replacement, or,
/// without a range, the whole new text.
#[derive(Debug)]
pub struct ContentChange {
    pub range: Option<Range>,
    pub text: Vec<char>,
}

/// A change as a value.
pub type ChangeView = (Option<Range>, Seq<char>);

impl View for ContentChange {
    type V = ChangeView;

    open spec fn view(&self) -> ChangeView {
        (self.range, self.text@)
    }
}

/// The number of bytes of `c` in UTF-8.
pub open spec fn utf8_len(c: char) -> nat {
    let u = c as u32;
    if u < 0x80 {
        1
    } else if u < 0x800 {
        2
    } else if u < 0x10000 {
        3
    } else {
        4
    }
}

/// The number of column units that `c` takes in the encoding `enc`.
pub open spec fn unit_len(c: char, enc: PositionEncoding) -> nat {
    match enc {
        PositionEncoding::Utf8 => utf8_len(c),
        PositionEncoding::Utf16 => if (c as u32) < 0x10000 {
            1
        } else {
            2
        },
    }
}

/// Whether `c` ends a line: `'\n'`, or `'\r'` alone or before `'\n'`.
pub open spec fn is_line_break(c: char) -> bool {
    c == '\n' || c == '\r'
}

/// The index of the first character of the line that lies `line` line
/// breaks after index `from`; a line break is `"\n"`, `"\r\n"` or `"\r"`.
pub open spec fn line_start(text: Seq<char>, from: int, line: nat) -> Option<int>
    decreases line, text.len() - from,
{
    if line == 0 {
        Some(from)
    } else if from < 0 || from >= text.len() {
        None
    } else if text[from] == '\r' && from + 1 < text.len() && text[from + 1] == '\n' {
        line_start(text, from + 2, (line - 1) as nat)
    } else if is_line_break(text[from]) {
        line_start(text, from + 1, (line - 1) as nat)
    } else {
        line_start(text, from + 1, line)
    }
}

/// The index reached by walking `units` column units from index `from`
/// without leaving the line, if the walk ends on a character boundary.
pub open spec fn column_index(
    text: Seq<char>,
    from: int,
    units: nat,
    enc: PositionEncoding,
) -> Option<int>
    decreases text.len() - from,
{
    if units == 0 {
        Some(from)
    } else if from < 0 || from >= text.len() || is_line_break(text[from]) {
        None
    } else if unit_len(text[from], enc) > units {
        None
    } else {
        column_index(text, from + 1, (units - unit_len(text[from], enc)) as nat, enc)
    }
}

/// The character index of `pos` in `text`, if `pos` lies in it.
pub open spec fn offset_of(text: Seq<char>, pos: Position, enc: PositionEncoding) -> Option<int> {
    match line_start(text, 0, pos.line as nat) {
        Some(s) => column_index(text, s, pos.character as nat, enc),
        None => None,
    }
}

/// `text` with the characters from `start` up to `end` replaced by `with`.
pub open spec fn splice(text: Seq<char>, start: int, end: int, with: Seq<char>) -> Seq<char> {
    text.subrange(0, start) + with + text.subrange(end, text.len() as int)
}

/// The text after one change, or `None` when its range does not lie in the
/// text or ends before it starts.
pub open spec fn apply_change(text: Seq<char>, change: ChangeView, enc: PositionEncoding) -> Option<
    Seq<char>,
> {
    match change.0 {
        None => Some(change.1),
        Some(r) => match (offset_of(text, r.start, enc), offset_of(text, r.end, enc)) {
            (Some(a), Some(b)) => if a <= b {
                Some(splice(text, a, b, change.1))
            } else {
                None
            },
            _ => None,
        },
    }
}

/// The text after applying `changes` in order, each to the result of the
/// ones before it.
pub open spec fn apply_changes(
    text: Seq<char>,
    changes: Seq<ChangeView>,
    enc: PositionEncoding,
) -> Option<Seq<char>>
    decreases changes.len(),
{
    if changes.len() == 0 {
        Some(text)
    } else {
        match apply_changes(text, changes.drop_last(), enc) {
            Some(t) => apply_change(t, changes.last(), enc),
            None => None,
        }
    }
}

pub open spec fn changes_view(changes: Seq<ContentChange>) -> Seq<ChangeView> {
    changes.map_values(|c: ContentChange| c@)
}

/// The number of column units that `c` takes in the encoding `enc`.
pub fn unit_len_of(c: char, enc: PositionEncoding) -> (r: u32)
    ensures
        r as nat == unit_len(c, enc),
{
    let u = c as u32;
    match enc {
        PositionEncoding::Utf8 => if u < 0x80 {
            1
        } else if u < 0x800 {
            2
        } else if u < 0x10000 {
            3
        } else {
            4
        },
        PositionEncoding::Utf16 => if u < 0x10000 {
            1
        } else {
            2
        },
    }
}

/// The character index of `pos` in `text`; `None` when the line does not
/// exist, the column runs past the end of its line, or it falls inside a
/// character.
pub fn offset_at(text: &Vec<char>, pos: Position, enc: PositionEncoding) -> (r: Option<usize>)
    ensures
        match r {
            Some(i) => offset_of(text@, pos, enc) == Some(i as int),
            None => offset_of(text@, pos, enc) is None,
        },
{
    let mut from: usize = 0;
    let mut line: u32 = pos.line;
    while line > 0 && from < text.len()
        invariant
            from <= text.len(),
            line_start(text@, 0, pos.line as nat) == line_start(text@, from as int, line as nat),
        decreases line, text.len() - from,
    {
        if text[from] == '\r' && from + 1 < text.len() && text[from + 1] == '\n' {
            line = line - 1;
            from = from + 2;
        } else if text[from] == '\n' || text[from] == '\r' {
            line = line - 1;
            from = from + 1;
        } else {
            from = from + 1;
        }
    }
    if line > 0 {
        return None;
    }
    let mut units: u32 = pos.character;
    while units > 0 && from < text.len() && text[from] != '\n' && text[from] != '\r'
        invariant
            from <= text.len(),
            offset_of(text@, pos, enc) == column_index(text@, from as int, units as nat, enc),
        decreases text.len() - from,
    {
        let u = unit_len_of(text[from], enc);
        if u > units {
            return None;
        }
        units = units - u;
        from = from + 1;
    }
    if units > 0 {
        None
    } else {
        Some(from)
    }
}

/// `text` with the characters from `start` up to `end` replaced by `with`.
pub fn splice_chars(text: &Vec<char>, start: usize, end: usize, with: &Vec<char>) -> (r: Vec<char>)
    requires
        start <= end <= text.len(),
    ensures
        r@ == splice(text@, start as int, end as int, with@),
{
    let mut r: Vec<char> = Vec::new();
    let mut i: usize = 0;
    while i < start
        invariant
            i <= start <= end <= text.len(),
            r@ == text@.subrange(0, i as int),
        decreases start - i,
    {
        r.push(text[i]);
        assert(text@.subrange(0, i + 1) =~= text@.subrange(0, i as int).push(text@[i as int]));
        i = i + 1;
    }
    let mut j: usize = 0;
    while j < with.len()
        invariant
            j <= with.len(),
            r@ == text@.subrange(0, start as int) + with@.subrange(0, j as int),
        decreases with.len() - j,
    {
        r.push(with[j]);
        assert(with@.subrange(0, j + 1) =~= with@.subrange(0, j as int).push(with@[j as int]));
        j = j + 1;
    }
    assert(with@.subrange(0, with.len() as int) =~= with@);
    let mut k: usize = end;
    while k < text.len()
        invariant
            end <= k <= text.len(),
            r@ == text@.subrange(0, start as int) + with@ + text@.subrange(end as int, k as int),
        decreases text.len() - k,
    {
        r.push(text[k]);
        assert(text@.subrange(end as int, k + 1) =~= text@.subrange(end as int, k as int).push(
            text@[k as int],
        ));
        k = k + 1;
    }
    r
}

/// The text after one change; `None` when its range does not lie in the
/// text or ends before it starts.
pub fn apply_content_change(text: &Vec<char>, change: &ContentChange, enc: PositionEncoding) -> (r:
    Option<Vec<char>>)
    ensures
        match r {
            Some(t) => apply_change(text@, change@, enc) == Some(t@),
            None => apply_change(text@, change@, enc) is None,
        },
{
    match change.range {
        None => {
            let t = change.text.clone();
            assert(t@ =~= change.text@);
            Some(t)
        },
        Some(range) => {
            let a = offset_at(text, range.start, enc);
            let b = offset_at(text, range.end, enc);
            match (a, b) {
                (Some(a), Some(b)) => {
                    if a <= b {
                        proof {
                            column_index_in_text(text@, range.start, enc);
                            column_index_in_text(text@, range.end, enc);
                        }
                        Some(splice_chars(text, a, b, &change.text))
                    } else {
                        None
                    }
                },
                _ => None,
            }
        },
    }
}

/// A position's index never lies past the end of the text.
proof fn column_index_in_text(text: Seq<char>, pos: Position, enc: PositionEncoding)
    ensures
        offset_of(text, pos, enc) matches Some(i) ==> 0 <= i <= text.len(),
{
    lemma_line_start_bounds(text, 0, pos.line as nat);
    if let Some(s) = line_start(text, 0, pos.line as nat) {
        lemma_column_index_bounds(text, s, pos.character as nat, enc);
    }
}

proof fn lemma_line_start_bounds(text: Seq<char>, from: int, line: nat)
    requires
        0 <= from <= text.len(),
    ensures
        line_start(text, from, line) matches Some(s) ==> 0 <= s <= text.len(),
    decreases line, text.len() - from,
{
    if line > 0 && from < text.len() {
        if text[from] == '\r' && from + 1 < text.len() && text[from + 1] == '\n' {
            lemma_line_start_bounds(text, from + 2, (line - 1) as nat);
        } else if is_line_break(text[from]) {
            lemma_line_start_bounds(text, from + 1, (line - 1) as nat);
        } else {
            lemma_line_start_bounds(text, from + 1, line);
        }
    }
}

proof fn lemma_column_index_bounds(text: Seq<char>, from: int, units: nat, enc: PositionEncoding)
    requires
        0 <= from <= text.len(),
    ensures
        column_index(text, from, units, enc) matches Some(s) ==> 0 <= s <= text.len(),
    decreases text.len() - from,
{
    if units > 0 && from < text.len() && !is_line_break(text[from]) && unit_len(text[from], enc)
        <= units {
        lemma_column_index_bounds(text, from + 1, (units - unit_len(text[from], enc)) as nat, enc);
    }
}

/// The text after applying `changes` in order; `None` when one of them
/// does not apply to the text that the ones before it left.
pub fn apply_content_changes(
    text: &Vec<char>,
    changes: &Vec<ContentChange>,
    enc: PositionEncoding,
) -> (r: Option<Vec<char>>)
    ensures
        match r {
            Some(t) => apply_changes(text@, changes_view(changes@), enc) == Some(t@),
            None => apply_changes(text@, changes_view(changes@), enc) is None,
        },
{
    let mut cur = text.clone();
    assert(cur@ =~= text@);
    let mut i: usize = 0;
    while i < changes.len()
        invariant
            i <= changes.len(),
            apply_changes(text@, changes_view(changes@.subrange(0, i as int)), enc) == Some(cur@),
        decreases changes.len() - i,
    {
        assert(changes_view(changes@.subrange(0, i + 1)).drop_last() =~= changes_view(
            changes@.subrange(0, i as int),
        ));
        assert(changes_view(changes@.subrange(0, i + 1)).last() == changes@[i as int]@);
        match apply_content_change(&cur, &changes[i], enc) {
            Some(t) => {
                cur = t;
            },
            None => {
                proof {
                    assert(changes_view(changes@).subrange(0, i + 1) =~= changes_view(
                        changes@.subrange(0, i + 1),
                    ));
                    lemma_apply_changes_stuck(text@, changes_view(changes@), (i + 1) as int, enc);
                }
                return None;
            },
        }
        i = i + 1;
    }
    assert(changes@.subrange(0, changes.len() as int) =~= changes@);
    Some(cur)
}

/// Once a prefix of the changes fails to apply, so do all of them.
proof fn lemma_apply_changes_stuck(
    text: Seq<char>,
    changes: Seq<ChangeView>,
    k: int,
    enc: PositionEncoding,
)
    requires
        0 <= k <= changes.len(),
        apply_changes(text, changes.subrange(0, k), enc) is None,
    ensures
        apply_changes(text, changes, enc) is None,
    decreases changes.len() - k,
{
    if k < changes.len() {
        assert(changes.subrange(0, k + 1).drop_last() =~= changes.subrange(0, k));
        lemma_apply_changes_stuck(text, changes, k + 1, enc);
    } else {
        assert(changes.subrange(0, k) =~= changes);
    }
}

/// Replacing a text, without a range, by the text itself leaves it as it
/// was.
pub proof fn lemma_full_replace_idempotent(text: Seq<char>, enc: PositionEncoding)
    ensures
        apply_changes(text, seq![(None::<Range>, text)], enc) == Some(text),
{
    let changes = seq![(None::<Range>, text)];
    assert(changes.drop_last() =~= Seq::<ChangeView>::empty());
    assert(apply_changes(text, changes.drop_last(), enc) == Some(text));
}

} // verus!
