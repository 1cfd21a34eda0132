//! The diagnostics aggregator.
//!
//! Every compile session reports its diagnostics under a group name
//! (`"primary"`, `"main"` or a task label). The aggregator keeps, for every
//! file, what each group last reported on it, and which files each group
//! touched in its last event. From that it decides what the client is sent:
//! while any dedicated group is active, the primary group's diagnostics are
//! withheld everywhere, and they are republished once it is alone again.
use vstd::prelude::*;

use crate::text::Range;

verus! {

/// How serious a diagnostic is.
#[derive(Clone, Copy, Debug, PartialEq, Eq, Structural)]
pub enum DiagnosticSeverity {
    Error,
    Warning,
    Information,
    Hint,
}

/// One diagnostic of a file, as the client is shown it.
#[derive(Debug)]
pub struct Diagnostic {
    pub range: Range,
    pub severity: Option<DiagnosticSeverity>,
    pub message: String,
    /// The diagnostic's other fields (code, code description, source,
    /// related information, tags, data) as the JSON text the client reads.
    /// The aggregator never looks into it; it is carried through unchanged.
    pub extra: String,
}

impl Clone for Diagnostic {
    fn clone(&self) -> (r: Self)
        ensures
            r == *self,
    {
        Diagnostic {
            range: self.range,
            severity: self.severity,
            message: self.message.clone(),
            extra: self.extra.clone(),
        }
    }
}

/// The diagnostics of one file: what a group reports on it, or what the
/// client is to be shown for it.
#[derive(Debug)]
pub struct FileDiagnostics {
    pub uri: String,
    pub diagnostics: Vec<Diagnostic>,
}

/// A file with its diagnostics, as a value.
pub type FileDiagView = (Seq<char>, Seq<Diagnostic>);

impl View for FileDiagnostics {
    type V = FileDiagView;

    open spec fn view(&self) -> FileDiagView {
        (self.uri@, self.diagnostics@)
    }
}

/// What one group last reported on one file.
struct FileReport {
    uri: String,
    group: String,
    diagnostics: Vec<Diagnostic>,
}

/// A stored report as a value: the file, the group, the diagnostics.
pub type ReportView = (Seq<char>, Seq<char>, Seq<Diagnostic>);

/// A group with the files of its last event, as a value.
pub type AffectView = (Seq<char>, Seq<Seq<char>>);

/// The files that one group reported on in its last event.
struct GroupFiles {
    group: String,
    files: Vec<String>,
}

/// The aggregator's state as a value.
pub struct AggregatorState {
    /// For each (file, group) pair with a stored report, the diagnostics,
    /// in the order in which the pairs were first stored.
    pub reports: Seq<ReportView>,
    /// For each group that has reported, the files of its last event.
    pub affect: Seq<AffectView>,
    /// Whether the primary group was last published as the sole group.
    pub published_primary: bool,
}

/// The name of the always-present primary group.
pub open spec fn primary_group() -> Seq<char> {
    "primary"@
}

pub open spec fn is_primary(g: Seq<char>) -> bool {
    g == primary_group()
}

/// No group other than the primary one has reported (vacuously so when
/// nothing has).
pub open spec fn primary_is_sole_group(affect: Seq<AffectView>) -> bool {
    forall|i: int| 0 <= i < affect.len() ==> is_primary(#[trigger] affect[i].0)
}

/// Whether a stored report contributes to what is shown for `file`: it is on
/// that file, it is not of the group `skip`, and it is not of the primary
/// group unless `with_primary` holds.
pub open spec fn counted(
    r: ReportView,
    file: Seq<char>,
    skip: Option<Seq<char>>,
    with_primary: bool,
) -> bool {
    &&& r.0 == file
    &&& skip != Some(r.1)
    &&& (with_primary || !is_primary(r.1))
}

/// The diagnostics shown for `file`: those of every counted report, in
/// storage order.
pub open spec fn shown(
    reports: Seq<ReportView>,
    file: Seq<char>,
    skip: Option<Seq<char>>,
    with_primary: bool,
) -> Seq<Diagnostic>
    decreases reports.len(),
{
    if reports.len() == 0 {
        Seq::empty()
    } else {
        let rest = shown(reports.drop_last(), file, skip, with_primary);
        if counted(reports.last(), file, skip, with_primary) {
            rest + reports.last().2
        } else {
            rest
        }
    }
}

pub open spec fn reports_unique(reports: Seq<ReportView>) -> bool {
    forall|i: int, j: int|
        0 <= i < j < reports.len() ==> !(#[trigger] reports[i].0 == #[trigger] reports[j].0
            && reports[i].1 == reports[j].1)
}

pub open spec fn groups_unique(affect: Seq<AffectView>) -> bool {
    forall|i: int, j: int|
        0 <= i < j < affect.len() ==> #[trigger] affect[i].0 != #[trigger] affect[j].0
}

pub open spec fn has_report(reports: Seq<ReportView>, f: Seq<char>, g: Seq<char>) -> bool {
    exists|i: int| 0 <= i < reports.len() && reports[i].0 == f && reports[i].1 == g
}

pub open spec fn report_index(reports: Seq<ReportView>, f: Seq<char>, g: Seq<char>) -> int {
    choose|i: int| 0 <= i < reports.len() && reports[i].0 == f && reports[i].1 == g
}

/// Stores `d` as group `g`'s report on file `f`, in place if there is one.
pub open spec fn set_report(
    reports: Seq<ReportView>,
    f: Seq<char>,
    g: Seq<char>,
    d: Seq<Diagnostic>,
) -> Seq<ReportView> {
    if has_report(reports, f, g) {
        reports.update(report_index(reports, f, g), (f, g, d))
    } else {
        reports.push((f, g, d))
    }
}

/// Drops group `g`'s report on file `f`, if there is one.
pub open spec fn remove_report(reports: Seq<ReportView>, f: Seq<char>, g: Seq<char>) -> Seq<
    ReportView,
> {
    if has_report(reports, f, g) {
        reports.remove(report_index(reports, f, g))
    } else {
        reports
    }
}

/// Drops group `g`'s reports on each of `files`.
pub open spec fn clear_reports(reports: Seq<ReportView>, files: Seq<Seq<char>>, g: Seq<char>) -> Seq<
    ReportView,
>
    decreases files.len(),
{
    if files.len() == 0 {
        reports
    } else {
        remove_report(clear_reports(reports, files.drop_last(), g), files.last(), g)
    }
}

/// Stores each entry of `next` as group `g`'s report on its file.
pub open spec fn store_reports(reports: Seq<ReportView>, next: Seq<FileDiagView>, g: Seq<char>) -> Seq<
    ReportView,
>
    decreases next.len(),
{
    if next.len() == 0 {
        reports
    } else {
        set_report(store_reports(reports, next.drop_last(), g), next.last().0, g, next.last().1)
    }
}

pub open spec fn has_group(affect: Seq<AffectView>, g: Seq<char>) -> bool {
    exists|i: int| 0 <= i < affect.len() && affect[i].0 == g
}

pub open spec fn group_index(affect: Seq<AffectView>, g: Seq<char>) -> int {
    choose|i: int| 0 <= i < affect.len() && affect[i].0 == g
}

/// The files of group `g`'s last event; none if it has no entry.
pub open spec fn affected(affect: Seq<AffectView>, g: Seq<char>) -> Seq<Seq<char>> {
    if has_group(affect, g) {
        affect[group_index(affect, g)].1
    } else {
        Seq::empty()
    }
}

pub open spec fn set_affected(affect: Seq<AffectView>, g: Seq<char>, files: Seq<Seq<char>>) -> Seq<
    AffectView,
> {
    if has_group(affect, g) {
        affect.update(group_index(affect, g), (g, files))
    } else {
        affect.push((g, files))
    }
}

pub open spec fn remove_affected(affect: Seq<AffectView>, g: Seq<char>) -> Seq<AffectView> {
    if has_group(affect, g) {
        affect.remove(group_index(affect, g))
    } else {
        affect
    }
}

/// The files that a report names, in its order.
pub open spec fn next_files(next: Seq<FileDiagView>) -> Seq<Seq<char>> {
    next.map_values(|e: FileDiagView| e.0)
}

/// The files of `prev` that are not among `keys`, in the order of `prev`.
pub open spec fn files_not_in(prev: Seq<Seq<char>>, keys: Seq<Seq<char>>) -> Seq<Seq<char>>
    decreases prev.len(),
{
    if prev.len() == 0 {
        Seq::empty()
    } else {
        let rest = files_not_in(prev.drop_last(), keys);
        if keys.contains(prev.last()) {
            rest
        } else {
            rest.push(prev.last())
        }
    }
}

/// The files whose diagnostics an event withdraws: those of the group's
/// previous event that the new one no longer names (all of them when the
/// group now has nothing to report).
pub open spec fn clear_list(prev: Seq<Seq<char>>, next: Option<Seq<FileDiagView>>) -> Seq<
    Seq<char>,
> {
    match next {
        Some(n) => files_not_in(prev, next_files(n)),
        None => prev,
    }
}

pub open spec fn update_list(next: Option<Seq<FileDiagView>>) -> Seq<FileDiagView> {
    match next {
        Some(n) => n,
        None => Seq::empty(),
    }
}

/// The state after group `g` reports `next`.
pub open spec fn after_event(
    s: AggregatorState,
    g: Seq<char>,
    next: Option<Seq<FileDiagView>>,
) -> AggregatorState {
    let clear = clear_list(affected(s.affect, g), next);
    let reports = store_reports(clear_reports(s.reports, clear, g), update_list(next), g);
    let affect = match next {
        Some(n) => set_affected(s.affect, g, next_files(n)),
        None => remove_affected(s.affect, g),
    };
    AggregatorState { reports, affect, published_primary: primary_is_sole_group(affect) }
}

/// What the client is sent directly for group `g`'s event: each withdrawn
/// file with the other groups' diagnostics, then each reported file with
/// the other groups' diagnostics followed by the new ones. Nothing is sent
/// for a primary event while a dedicated group is active.
pub open spec fn direct_publishes(
    s: AggregatorState,
    g: Seq<char>,
    next: Option<Seq<FileDiagView>>,
) -> Seq<FileDiagView> {
    let with_primary = is_primary(g) && primary_is_sole_group(s.affect);
    let clear = clear_list(affected(s.affect, g), next);
    if is_primary(g) && !with_primary {
        Seq::empty()
    } else {
        clear.map_values(|f: Seq<char>| (f, shown(s.reports, f, Some(g), with_primary)))
            + update_list(next).map_values(
            |e: FileDiagView| (e.0, shown(s.reports, e.0, Some(g), with_primary) + e.1),
        )
    }
}

/// What the client is sent when the primary group's standing changes with
/// an event: every file of the primary group's last event, with all stored
/// diagnostics, the primary group's included only when it is sole again.
pub open spec fn flush_publishes(s: AggregatorState, t: AggregatorState) -> Seq<FileDiagView> {
    if t.published_primary != s.published_primary {
        affected(t.affect, primary_group()).map_values(
            |f: Seq<char>| (f, shown(t.reports, f, None, t.published_primary)),
        )
    } else {
        Seq::empty()
    }
}

/// Everything the client is sent for group `g`'s event, in order.
pub open spec fn event_publishes(
    s: AggregatorState,
    g: Seq<char>,
    next: Option<Seq<FileDiagView>>,
) -> Seq<FileDiagView> {
    direct_publishes(s, g, next) + flush_publishes(s, after_event(s, g, next))
}

pub open spec fn file_diags_view(v: Seq<FileDiagnostics>) -> Seq<FileDiagView> {
    v.map_values(|e: FileDiagnostics| e@)
}

pub open spec fn option_file_diags_view(v: Option<Vec<FileDiagnostics>>) -> Option<
    Seq<FileDiagView>,
> {
    match v {
        Some(n) => Some(file_diags_view(n@)),
        None => None,
    }
}

pub open spec fn opt_name(v: Option<&String>) -> Option<Seq<char>> {
    match v {
        Some(s) => Some(s@),
        None => None,
    }
}

impl FileReport {
    spec fn view_of(&self) -> ReportView {
        (self.uri@, self.group@, self.diagnostics@)
    }
}

impl GroupFiles {
    spec fn view_of(&self) -> AffectView {
        (self.group@, self.files@.map_values(|f: String| f@))
    }
}

spec fn reports_view(v: Seq<FileReport>) -> Seq<ReportView> {
    v.map_values(|r: FileReport| r.view_of())
}

spec fn affect_view(v: Seq<GroupFiles>) -> Seq<AffectView> {
    v.map_values(|a: GroupFiles| a.view_of())
}

spec fn names_view(v: Seq<String>) -> Seq<Seq<char>> {
    v.map_values(|f: String| f@)
}

/// The single consumer of diagnostics events from every session.
///
/// Its maps are keyed by names (`String`s). vstd specifies the contents of
/// a std hash map only for keys whose hashing and equality it knows, and it
/// says nothing of them for `String` keys. So each map is kept as a vector
/// with one entry per key, which the invariant `wf` states.
pub struct CompileClusterActor {
    reports: Vec<FileReport>,
    affect_map: Vec<GroupFiles>,
    published_primary: bool,
}

impl View for CompileClusterActor {
    type V = AggregatorState;

    closed spec fn view(&self) -> AggregatorState {
        AggregatorState {
            reports: reports_view(self.reports@),
            affect: affect_view(self.affect_map@),
            published_primary: self.published_primary,
        }
    }
}

/// A copy of a name.
fn copy_name(s: &String) -> (r: String)
    ensures
        r@ == s@,
{
    s.clone()
}

/// The primary group's name.
pub fn primary_group_name() -> (r: String)
    ensures
        r@ == primary_group(),
{
    "primary".to_owned()
}

/// Appends a copy of every diagnostic of `src` to `out`.
fn append_copies(out: &mut Vec<Diagnostic>, src: &Vec<Diagnostic>)
    ensures
        final(out)@ == old(out)@ + src@,
{
    let ghost start = out@;
    let mut i: usize = 0;
    while i < src.len()
        invariant
            i <= src.len(),
            out@ == start + src@.subrange(0, i as int),
        decreases src.len() - i,
    {
        out.push(src[i].clone());
        assert(src@.subrange(0, i + 1) =~= src@.subrange(0, i as int).push(src@[i as int]));
        i += 1;
    }
    assert(src@.subrange(0, src.len() as int) =~= src@);
}

/// A copy of a list of diagnostics.
fn copy_diagnostics(src: &Vec<Diagnostic>) -> (r: Vec<Diagnostic>)
    ensures
        r@ == src@,
{
    let mut r: Vec<Diagnostic> = Vec::new();
    append_copies(&mut r, src);
    assert(r@ =~= src@);
    r
}

/// A copy of a list of names.
fn copy_names(src: &Vec<String>) -> (r: Vec<String>)
    ensures
        names_view(r@) == names_view(src@),
{
    let mut r: Vec<String> = Vec::new();
    let mut i: usize = 0;
    while i < src.len()
        invariant
            i <= src.len(),
            names_view(r@) == names_view(src@.subrange(0, i as int)),
        decreases src.len() - i,
    {
        let ghost before = r@;
        r.push(copy_name(&src[i]));
        assert(src@.subrange(0, i + 1) =~= src@.subrange(0, i as int).push(src@[i as int]));
        assert(names_view(r@) =~= names_view(before).push(src@[i as int]@));
        assert(names_view(src@.subrange(0, i + 1)) =~= names_view(src@.subrange(0, i as int)).push(
            src@[i as int]@,
        ));
        i += 1;
    }
    assert(src@.subrange(0, src.len() as int) =~= src@);
    r
}

/// Whether `name` is one of `names`.
fn contains_name(names: &Vec<String>, name: &String) -> (r: bool)
    ensures
        r == names_view(names@).contains(name@),
{
    let mut i: usize = 0;
    while i < names.len()
        invariant
            i <= names.len(),
            forall|j: int| 0 <= j < i ==> names@[j]@ != name@,
        decreases names.len() - i,
    {
        if names[i] == *name {
            assert(names_view(names@)[i as int] == name@);
            return true;
        }
        i += 1;
    }
    proof {
        if names_view(names@).contains(name@) {
            let j = choose|j: int| 0 <= j < names_view(names@).len() && names_view(names@)[j] == name@;
            assert(names@[j]@ == name@);
        }
    }
    false
}

/// The files that a report names.
fn next_files_exec(next: &Vec<FileDiagnostics>) -> (r: Vec<String>)
    ensures
        names_view(r@) == next_files(file_diags_view(next@)),
{
    let mut r: Vec<String> = Vec::new();
    let mut i: usize = 0;
    while i < next.len()
        invariant
            i <= next.len(),
            names_view(r@) == next_files(file_diags_view(next@.subrange(0, i as int))),
        decreases next.len() - i,
    {
        let ghost before = r@;
        r.push(copy_name(&next[i].uri));
        assert(next@.subrange(0, i + 1) =~= next@.subrange(0, i as int).push(next@[i as int]));
        assert(names_view(r@) =~= names_view(before).push(next@[i as int].uri@));
        assert(next_files(file_diags_view(next@.subrange(0, i + 1))) =~= next_files(
            file_diags_view(next@.subrange(0, i as int)),
        ).push(next@[i as int].uri@));
        i += 1;
    }
    assert(next@.subrange(0, next.len() as int) =~= next@);
    r
}

/// The files of `prev` that `keys` does not name.
fn files_not_in_exec(prev: &Vec<String>, keys: &Vec<String>) -> (r: Vec<String>)
    ensures
        names_view(r@) == files_not_in(names_view(prev@), names_view(keys@)),
{
    let mut r: Vec<String> = Vec::new();
    let mut i: usize = 0;
    while i < prev.len()
        invariant
            i <= prev.len(),
            names_view(r@) == files_not_in(
                names_view(prev@.subrange(0, i as int)),
                names_view(keys@),
            ),
        decreases prev.len() - i,
    {
        assert(names_view(prev@.subrange(0, i + 1)).drop_last() =~= names_view(
            prev@.subrange(0, i as int),
        ));
        if !contains_name(keys, &prev[i]) {
            r.push(copy_name(&prev[i]));
            assert(names_view(r@) =~= files_not_in(
                names_view(prev@.subrange(0, i as int)),
                names_view(keys@),
            ).push(prev@[i as int]@));
        }
        i += 1;
    }
    assert(prev@.subrange(0, prev.len() as int) =~= prev@);
    r
}

impl CompileClusterActor {
    /// One stored report per (file, group) pair and one affect entry per
    /// group.
    pub open spec fn uniq(&self) -> bool {
        &&& reports_unique(self@.reports)
        &&& groups_unique(self@.affect)
    }

    /// The aggregator's invariant: see `state_wf`.
    pub open spec fn wf(&self) -> bool {
        state_wf(self@)
    }

    /// An aggregator that has received nothing yet. Nothing but the primary
    /// group has reported, so the primary group counts as sole.
    pub fn new() -> (r: Self)
        ensures
            r.wf(),
            r@.reports.len() == 0,
            r@.affect.len() == 0,
            r@.published_primary,
    {
        let r = CompileClusterActor {
            reports: Vec::new(),
            affect_map: Vec::new(),
            published_primary: true,
        };
        assert(r@.reports =~= Seq::empty());
        assert(r@.affect =~= Seq::empty());
        r
    }

    /// Whether no group other than the primary one has an affect entry.
    fn primary_is_sole(&self) -> (r: bool)
        ensures
            r == primary_is_sole_group(self@.affect),
    {
        let primary = primary_group_name();
        let mut i: usize = 0;
        while i < self.affect_map.len()
            invariant
                i <= self.affect_map.len(),
                primary@ == primary_group(),
                forall|j: int| 0 <= j < i ==> is_primary(#[trigger] self@.affect[j].0),
            decreases self.affect_map.len() - i,
        {
            if self.affect_map[i].group != primary {
                assert(!is_primary(self@.affect[i as int].0));
                return false;
            }
            i += 1;
        }
        true
    }

    /// The position of group `g`'s affect entry.
    fn find_group(&self, g: &String) -> (r: Option<usize>)
        requires
            self.uniq(),
        ensures
            r.is_some() == has_group(self@.affect, g@),
            r.is_some() ==> r.unwrap() == group_index(self@.affect, g@),
    {
        let mut i: usize = 0;
        while i < self.affect_map.len()
            invariant
                i <= self.affect_map.len(),
                self.uniq(),
                forall|j: int| 0 <= j < i ==> self@.affect[j].0 != g@,
            decreases self.affect_map.len() - i,
        {
            if self.affect_map[i].group == *g {
                assert(self@.affect[i as int].0 == g@);
                let ghost k = group_index(self@.affect, g@);
                assert(groups_unique(self@.affect));
                assert(k == i) by {
                    if k < i {
                        assert(self@.affect[k].0 != self@.affect[i as int].0);
                    } else if k > i {
                        assert(self@.affect[i as int].0 != self@.affect[k].0);
                    }
                }
                return Some(i);
            }
            i += 1;
        }
        None
    }

    /// A copy of the files of group `g`'s last event.
    fn affected_of(&self, g: &String) -> (r: Vec<String>)
        requires
            self.uniq(),
        ensures
            names_view(r@) == affected(self@.affect, g@),
    {
        match self.find_group(g) {
            Some(i) => copy_names(&self.affect_map[i].files),
            None => Vec::new(),
        }
    }
}


impl CompileClusterActor {
    /// The diagnostics shown for `file`: those of every stored report on it
    /// whose group is not `skip`, the primary group's only if `with_primary`.
    fn shown_exec(&self, file: &String, skip: Option<&String>, with_primary: bool) -> (r: Vec<
        Diagnostic,
    >)
        ensures
            r@ == shown(self@.reports, file@, opt_name(skip), with_primary),
    {
        let primary = primary_group_name();
        let mut out: Vec<Diagnostic> = Vec::new();
        let mut i: usize = 0;
        while i < self.reports.len()
            invariant
                i <= self.reports.len(),
                primary@ == primary_group(),
                out@ == shown(
                    self@.reports.subrange(0, i as int),
                    file@,
                    opt_name(skip),
                    with_primary,
                ),
            decreases self.reports.len() - i,
        {
            let r = &self.reports[i];
            let skipped = match skip {
                Some(s) => r.group == *s,
                None => false,
            };
            let counts = r.uri == *file && !skipped && (with_primary || r.group != primary);
            assert(self@.reports.subrange(0, i + 1).drop_last() =~= self@.reports.subrange(
                0,
                i as int,
            ));
            assert(self@.reports[i as int] == r.view_of());
            if counts {
                append_copies(&mut out, &r.diagnostics);
            }
            i += 1;
        }
        assert(self@.reports.subrange(0, self.reports.len() as int) =~= self@.reports);
        out
    }

    /// The position of group `g`'s report on file `f`.
    fn find_report(&self, f: &String, g: &String) -> (r: Option<usize>)
        requires
            self.uniq(),
        ensures
            r.is_some() == has_report(self@.reports, f@, g@),
            r.is_some() ==> r.unwrap() == report_index(self@.reports, f@, g@),
    {
        let mut i: usize = 0;
        while i < self.reports.len()
            invariant
                i <= self.reports.len(),
                self.uniq(),
                forall|j: int|
                    0 <= j < i ==> !(self@.reports[j].0 == f@ && self@.reports[j].1 == g@),
            decreases self.reports.len() - i,
        {
            if self.reports[i].uri == *f && self.reports[i].group == *g {
                let ghost k = report_index(self@.reports, f@, g@);
                assert(self@.reports[i as int].0 == f@ && self@.reports[i as int].1 == g@);
                assert(k == i) by {
                    if k < i {
                        assert(!(self@.reports[k].0 == self@.reports[i as int].0
                            && self@.reports[k].1 == self@.reports[i as int].1));
                    } else if k > i {
                        assert(!(self@.reports[i as int].0 == self@.reports[k].0
                            && self@.reports[i as int].1 == self@.reports[k].1));
                    }
                }
                return Some(i);
            }
            i += 1;
        }
        None
    }

    /// Stores `d` as group `g`'s report on file `f`.
    fn store_report(&mut self, f: String, g: String, d: Vec<Diagnostic>)
        requires
            old(self).uniq(),
        ensures
            final(self).uniq(),
            final(self)@ == (AggregatorState {
                reports: set_report(old(self)@.reports, f@, g@, d@),
                ..old(self)@
            }),
    {
        let ghost old_reports = self@.reports;
        let ghost fv = f@;
        let ghost gv = g@;
        let ghost dv = d@;
        match self.find_report(&f, &g) {
            Some(i) => {
                self.reports.set(i, FileReport { uri: f, group: g, diagnostics: d });
                assert(self@.reports =~= old_reports.update(i as int, (fv, gv, dv)));
            },
            None => {
                self.reports.push(FileReport { uri: f, group: g, diagnostics: d });
                assert(self@.reports =~= old_reports.push((fv, gv, dv)));
            },
        }
        assert(reports_unique(self@.reports));
    }

    /// Drops group `g`'s report on file `f`, if there is one.
    fn drop_report(&mut self, f: &String, g: &String)
        requires
            old(self).uniq(),
        ensures
            final(self).uniq(),
            final(self)@ == (AggregatorState {
                reports: remove_report(old(self)@.reports, f@, g@),
                ..old(self)@
            }),
    {
        let ghost old_reports = self@.reports;
        match self.find_report(f, g) {
            Some(i) => {
                self.reports.remove(i);
                assert(self@.reports =~= old_reports.remove(i as int));
                assert forall|a: int, b: int| 0 <= a < b < self@.reports.len() implies !(
                #[trigger] self@.reports[a].0 == #[trigger] self@.reports[b].0
                    && self@.reports[a].1 == self@.reports[b].1) by {
                    let a0 = if a < i { a } else { a + 1 };
                    let b0 = if b < i { b } else { b + 1 };
                    assert(self@.reports[a] == old_reports[a0]);
                    assert(self@.reports[b] == old_reports[b0]);
                }
            },
            None => {},
        }
    }

    /// Records `files` as the files of group `g`'s last event.
    fn store_affected(&mut self, g: String, files: Vec<String>)
        requires
            old(self).uniq(),
        ensures
            final(self).uniq(),
            final(self)@ == (AggregatorState {
                affect: set_affected(old(self)@.affect, g@, names_view(files@)),
                ..old(self)@
            }),
    {
        let ghost old_affect = self@.affect;
        let ghost gv = g@;
        let ghost fv = names_view(files@);
        match self.find_group(&g) {
            Some(i) => {
                self.affect_map.set(i, GroupFiles { group: g, files });
                assert(self@.affect =~= old_affect.update(i as int, (gv, fv)));
            },
            None => {
                self.affect_map.push(GroupFiles { group: g, files });
                assert(self@.affect =~= old_affect.push((gv, fv)));
            },
        }
        assert(groups_unique(self@.affect));
    }

    /// Forgets group `g`'s affect entry, if there is one.
    fn drop_affected(&mut self, g: &String)
        requires
            old(self).uniq(),
        ensures
            final(self).uniq(),
            final(self)@ == (AggregatorState {
                affect: remove_affected(old(self)@.affect, g@),
                ..old(self)@
            }),
    {
        let ghost old_affect = self@.affect;
        match self.find_group(g) {
            Some(i) => {
                self.affect_map.remove(i);
                assert(self@.affect =~= old_affect.remove(i as int));
                assert forall|a: int, b: int| 0 <= a < b < self@.affect.len() implies #[trigger] self@.affect[a].0
                    != #[trigger] self@.affect[b].0 by {
                    let a0 = if a < i { a } else { a + 1 };
                    let b0 = if b < i { b } else { b + 1 };
                    assert(self@.affect[a] == old_affect[a0]);
                    assert(self@.affect[b] == old_affect[b0]);
                }
            },
            None => {},
        }
    }
}


impl CompileClusterActor {
    /// Takes one event: group `group` now reports `next`, where `None` means
    /// that it has nothing to report (which withdraws all it reported
    /// before). Returns what the client is to be sent, in order: see
    /// `event_publishes`.
    pub fn publish(&mut self, group: String, next: Option<Vec<FileDiagnostics>>) -> (r: Vec<
        FileDiagnostics,
    >)
        requires
            old(self).wf(),
        ensures
            final(self).wf(),
            final(self)@ == after_event(old(self)@, group@, option_file_diags_view(next)),
            file_diags_view(r@) == event_publishes(
                old(self)@,
                group@,
                option_file_diags_view(next),
            ),
    {
        let ghost s0 = self@;
        let ghost g = group@;
        let ghost nv = option_file_diags_view(next);
        let primary = primary_group_name();
        let is_primary = group == primary;
        let sole = self.primary_is_sole();
        let with_primary = is_primary && sole;
        let prev = self.affected_of(&group);
        let clear: Vec<String> = match &next {
            Some(n) => {
                let keys = next_files_exec(n);
                files_not_in_exec(&prev, &keys)
            },
            None => prev,
        };
        let ghost cv = names_view(clear@);
        assert(cv == clear_list(affected(s0.affect, g), nv));
        let ghost uv = update_list(nv);

        // What the client is sent directly.
        let mut out: Vec<FileDiagnostics> = Vec::new();
        let ghost clear_part = cv.map_values(|f: Seq<char>| (f, shown(s0.reports, f, Some(g), with_primary)));
        let ghost update_part = uv.map_values(
            |e: FileDiagView| (e.0, shown(s0.reports, e.0, Some(g), with_primary) + e.1),
        );
        if !is_primary || with_primary {
            let mut i: usize = 0;
            while i < clear.len()
                invariant
                    self@ == s0,
                    i <= clear.len(),
                    cv == names_view(clear@),
                    clear_part == cv.map_values(
                        |f: Seq<char>| (f, shown(s0.reports, f, Some(g), with_primary)),
                    ),
                    g == group@,
                    file_diags_view(out@) == clear_part.subrange(0, i as int),
                decreases clear.len() - i,
            {
                let diags = self.shown_exec(&clear[i], Some(&group), with_primary);
                let ghost before = out@;
                out.push(FileDiagnostics { uri: copy_name(&clear[i]), diagnostics: diags });
                assert(file_diags_view(out@) =~= file_diags_view(before).push(out@[i as int]@));
                assert(cv[i as int] == clear@[i as int]@);
                assert(clear_part.subrange(0, i + 1) =~= clear_part.subrange(0, i as int).push(
                    clear_part[i as int],
                ));
                i += 1;
            }
            assert(clear_part.subrange(0, clear.len() as int) =~= clear_part);
            match &next {
                Some(n) => {
                    let mut j: usize = 0;
                    while j < n.len()
                        invariant
                            self@ == s0,
                            j <= n.len(),
                            nv == Some(file_diags_view(n@)),
                            uv == update_list(nv),
                            update_part == uv.map_values(
                                |e: FileDiagView|
                                    (e.0, shown(s0.reports, e.0, Some(g), with_primary) + e.1),
                            ),
                            g == group@,
                            file_diags_view(out@) == clear_part + update_part.subrange(0, j as int),
                        decreases n.len() - j,
                    {
                        let mut diags = self.shown_exec(&n[j].uri, Some(&group), with_primary);
                        append_copies(&mut diags, &n[j].diagnostics);
                        let ghost before = out@;
                        out.push(FileDiagnostics { uri: copy_name(&n[j].uri), diagnostics: diags });
                        assert(file_diags_view(out@) =~= file_diags_view(before).push(
                            out@[before.len() as int]@,
                        ));
                        assert(uv[j as int] == n@[j as int]@);
                        assert(update_part.subrange(0, j + 1) =~= update_part.subrange(
                            0,
                            j as int,
                        ).push(update_part[j as int]));
                        assert(file_diags_view(out@) =~= clear_part + update_part.subrange(
                            0,
                            j + 1,
                        ));
                        j += 1;
                    }
                    assert(update_part.subrange(0, n.len() as int) =~= update_part);
                },
                None => {
                    assert(update_part =~= Seq::empty());
                    assert(file_diags_view(out@) =~= clear_part + update_part);
                },
            }
        } else {
            assert(file_diags_view(out@) =~= Seq::empty());
        }
        let ghost direct = file_diags_view(out@);
        assert(direct == direct_publishes(s0, g, nv));

        // Book-keeping, done whether or not anything was sent.
        let mut i: usize = 0;
        while i < clear.len()
            invariant
                self.uniq(),
                i <= clear.len(),
                cv == names_view(clear@),
                g == group@,
                self@ == (AggregatorState {
                    reports: clear_reports(s0.reports, cv.subrange(0, i as int), g),
                    ..s0
                }),
            decreases clear.len() - i,
        {
            self.drop_report(&clear[i], &group);
            assert(cv.subrange(0, i + 1).drop_last() =~= cv.subrange(0, i as int));
            i += 1;
        }
        assert(cv.subrange(0, clear.len() as int) =~= cv);
        let ghost cleared = clear_reports(s0.reports, cv, g);
        match &next {
            Some(n) => {
                let mut j: usize = 0;
                while j < n.len()
                    invariant
                        self.uniq(),
                        j <= n.len(),
                        nv == Some(file_diags_view(n@)),
                        g == group@,
                        self@ == (AggregatorState {
                            reports: store_reports(
                                cleared,
                                file_diags_view(n@).subrange(0, j as int),
                                g,
                            ),
                            ..s0
                        }),
                    decreases n.len() - j,
                {
                    self.store_report(
                        copy_name(&n[j].uri),
                        copy_name(&group),
                        copy_diagnostics(&n[j].diagnostics),
                    );
                    assert(file_diags_view(n@).subrange(0, j + 1).drop_last()
                        =~= file_diags_view(n@).subrange(0, j as int));
                    j += 1;
                }
                assert(file_diags_view(n@).subrange(0, n.len() as int) =~= file_diags_view(n@));
                let files = next_files_exec(n);
                self.store_affected(copy_name(&group), files);
            },
            None => {
                self.drop_affected(&group);
            },
        }
        let ghost t = after_event(s0, g, nv);
        assert(self@.reports == t.reports);
        assert(self@.affect == t.affect);

        // The primary group's standing may have changed.
        let again = self.primary_is_sole();
        if again != self.published_primary {
            let files = self.affected_of(&primary);
            let ghost fv = names_view(files@);
            let ghost flush = fv.map_values(|f: Seq<char>| (f, shown(t.reports, f, None, again)));
            let mut k: usize = 0;
            while k < files.len()
                invariant
                    k <= files.len(),
                    fv == names_view(files@),
                    flush == fv.map_values(|f: Seq<char>| (f, shown(t.reports, f, None, again))),
                    self@.reports == t.reports,
                    file_diags_view(out@) == direct + flush.subrange(0, k as int),
                decreases files.len() - k,
            {
                let diags = self.shown_exec(&files[k], None, again);
                let ghost before = out@;
                out.push(FileDiagnostics { uri: copy_name(&files[k]), diagnostics: diags });
                assert(file_diags_view(out@) =~= file_diags_view(before).push(
                    out@[before.len() as int]@,
                ));
                assert(fv[k as int] == files@[k as int]@);
                assert(flush.subrange(0, k + 1) =~= flush.subrange(0, k as int).push(
                    flush[k as int],
                ));
                assert(file_diags_view(out@) =~= direct + flush.subrange(0, k + 1));
                k += 1;
            }
            assert(flush.subrange(0, files.len() as int) =~= flush);
        } else {
            assert(file_diags_view(out@) =~= direct + Seq::empty());
        }
        self.published_primary = again;
        proof {
            lemma_reports_match_affect(s0, g, nv);
        }
        out
    }
}


/// When every stored report on `file` is group `g`'s own, nothing is shown
/// for it once `g` is left out.
proof fn lemma_shown_only_own(
    reports: Seq<ReportView>,
    file: Seq<char>,
    g: Seq<char>,
    with_primary: bool,
)
    requires
        forall|i: int| 0 <= i < reports.len() && reports[i].0 == file ==> reports[i].1 == g,
    ensures
        shown(reports, file, Some(g), with_primary) == Seq::<Diagnostic>::empty(),
    decreases reports.len(),
{
    if reports.len() > 0 {
        let d = reports.drop_last();
        assert forall|i: int| 0 <= i < d.len() && d[i].0 == file implies d[i].1 == g by {
            assert(d[i] == reports[i]);
        }
        lemma_shown_only_own(d, file, g, with_primary);
    }
}

/// A group that stands in the affect map after replacing or dropping the
/// entry of another group.
proof fn lemma_other_group_stays(affect: Seq<AffectView>, g: Seq<char>, h: Seq<char>, files: Seq<
    Seq<char>,
>)
    requires
        g != h,
        has_group(affect, h),
    ensures
        has_group(set_affected(affect, g, files), h),
        has_group(remove_affected(affect, g), h),
{
    let i = choose|i: int| 0 <= i < affect.len() && affect[i].0 == h;
    if has_group(affect, g) {
        let k = group_index(affect, g);
        assert(set_affected(affect, g, files)[i].0 == h);
        let j = if i < k { i } else { i - 1 };
        assert(remove_affected(affect, g)[j].0 == h);
    } else {
        assert(set_affected(affect, g, files)[i].0 == h);
        assert(remove_affected(affect, g)[i].0 == h);
    }
}

/// Withdrawal clears: when group `g` had reported on `file` in its last
/// event and no other group has a stored report on that file, an event in
/// which `g` has nothing to report sends `file` an empty list, and leaves
/// `file` out of `g`'s affect entry. This holds unless `g` is the primary
/// group while a dedicated group is active, in which case nothing is sent.
pub proof fn lemma_withdrawal_clears(s: AggregatorState, g: Seq<char>, file: Seq<char>)
    requires
        state_wf(s),
        affected(s.affect, g).contains(file),
        forall|h: Seq<char>| h != g ==> !#[trigger] has_report(s.reports, file, h),
        !is_primary(g) || primary_is_sole_group(s.affect),
    ensures
        event_publishes(s, g, None).contains((file, Seq::<Diagnostic>::empty())),
        !has_group(after_event(s, g, None).affect, g),
        !affected(after_event(s, g, None).affect, g).contains(file),
        !has_report(after_event(s, g, None).reports, file, g),
        state_wf(after_event(s, g, None)),
{
    lemma_state_wf_preserved(s, g, None);
    assert forall|i: int|
        0 <= i < s.reports.len() && s.reports[i].0 == file implies s.reports[i].1 == g by {
        assert(has_report(s.reports, file, s.reports[i].1));
    }
    let prev0 = affected(s.affect, g);
    lemma_clear_reports(s.reports, prev0, g);
    assert(store_reports(clear_reports(s.reports, prev0, g), Seq::empty(), g) == clear_reports(
        s.reports,
        prev0,
        g,
    ));
    let with_primary = is_primary(g) && primary_is_sole_group(s.affect);
    let prev = affected(s.affect, g);
    let k = choose|k: int| 0 <= k < prev.len() && prev[k] == file;
    lemma_shown_only_own(s.reports, file, g, with_primary);
    let direct = direct_publishes(s, g, None);
    assert(direct[k] == (file, Seq::<Diagnostic>::empty()));
    let all = event_publishes(s, g, None);
    assert(all[k] == direct[k]);
    let gi = group_index(s.affect, g);
    let after = remove_affected(s.affect, g);
    assert(after == after_event(s, g, None).affect);
    if has_group(after, g) {
        let j = choose|j: int| 0 <= j < after.len() && after[j].0 == g;
        let j0 = if j < gi { j } else { j + 1 };
        assert(after[j] == s.affect[j0]);
        if j0 < gi {
            assert(s.affect[j0].0 != s.affect[gi].0);
        } else {
            assert(s.affect[gi].0 != s.affect[j0].0);
        }
    }
}

/// The aggregator's invariant holds after every event.
pub proof fn lemma_state_wf_preserved(s: AggregatorState, g: Seq<char>, next: Option<
    Seq<FileDiagView>,
>)
    requires
        state_wf(s),
    ensures
        state_wf(after_event(s, g, next)),
{
    let clear = clear_list(affected(s.affect, g), next);
    lemma_clear_reports(s.reports, clear, g);
    lemma_store_reports(clear_reports(s.reports, clear, g), update_list(next), g);
    let files = match next {
        Some(n) => next_files(n),
        None => Seq::empty(),
    };
    lemma_affected_after(s.affect, g, files, g);
    lemma_reports_match_affect(s, g, next);
}

/// When no dedicated group is active, nothing but the primary group has a
/// stored report.
proof fn lemma_sole_reports(s: AggregatorState, f: Seq<char>, h: Seq<char>)
    requires
        state_wf(s),
        primary_is_sole_group(s.affect),
        has_report(s.reports, f, h),
    ensures
        is_primary(h),
{
    assert(affected(s.affect, h).contains(f));
    let i = group_index(s.affect, h);
    assert(is_primary(s.affect[i].0));
}

/// Publishing while the primary group is sole: a primary event sends each
/// withdrawn file an empty list and each reported file exactly its new
/// diagnostics, and nothing more, since no other group shares the files.
pub proof fn lemma_primary_sole_published(s: AggregatorState, next: Seq<FileDiagView>)
    requires
        state_wf(s),
        primary_is_sole_group(s.affect),
    ensures
        event_publishes(s, primary_group(), Some(next)) == clear_list(
            affected(s.affect, primary_group()),
            Some(next),
        ).map_values(|f: Seq<char>| (f, Seq::<Diagnostic>::empty())) + next,
        after_event(s, primary_group(), Some(next)).published_primary,
{
    let g = primary_group();
    assert forall|f: Seq<char>| #[trigger] shown(s.reports, f, Some(g), true) == Seq::<
        Diagnostic,
    >::empty() by {
        assert forall|i: int| 0 <= i < s.reports.len() && s.reports[i].0 == f implies s.reports[i].1
            == g by {
            assert(has_report(s.reports, f, s.reports[i].1));
            lemma_sole_reports(s, f, s.reports[i].1);
        }
        lemma_shown_only_own(s.reports, f, g, true);
    }
    let t = after_event(s, g, Some(next));
    lemma_affected_after(s.affect, g, next_files(next), g);
    let affect = set_affected(s.affect, g, next_files(next));
    assert forall|i: int| 0 <= i < affect.len() implies is_primary(#[trigger] affect[i].0) by {
        if has_group(s.affect, g) {
            if i != group_index(s.affect, g) {
                assert(affect[i] == s.affect[i]);
            }
        } else if i < s.affect.len() {
            assert(affect[i] == s.affect[i]);
        }
    }
    assert(t.published_primary);
    let clear = clear_list(affected(s.affect, g), Some(next));
    assert(clear.map_values(|f: Seq<char>| (f, shown(s.reports, f, Some(g), true))) =~= clear.map_values(
        |f: Seq<char>| (f, Seq::<Diagnostic>::empty()),
    ));
    let upd = next.map_values(
        |e: FileDiagView| (e.0, shown(s.reports, e.0, Some(g), true) + e.1),
    );
    assert forall|k: int| 0 <= k < next.len() implies #[trigger] upd[k] == next[k] by {
        assert(shown(s.reports, next[k].0, Some(g), true) == Seq::<Diagnostic>::empty());
        assert(Seq::<Diagnostic>::empty() + next[k].1 =~= next[k].1);
    }
    assert(upd =~= next);
    assert(flush_publishes(s, t) =~= Seq::empty());
    assert(event_publishes(s, g, Some(next)) =~= clear.map_values(
        |f: Seq<char>| (f, Seq::<Diagnostic>::empty()),
    ) + next);
}

/// Suppression: once the primary group has been published as not sole and
/// a dedicated group is still active, an event of the primary group sends
/// the client nothing, and the primary group stays withheld.
pub proof fn lemma_primary_withheld(s: AggregatorState, next: Option<Seq<FileDiagView>>)
    requires
        !s.published_primary,
        exists|i: int| 0 <= i < s.affect.len() && !is_primary(s.affect[i].0),
    ensures
        event_publishes(s, primary_group(), next) == Seq::<FileDiagView>::empty(),
        !after_event(s, primary_group(), next).published_primary,
{
    let i = choose|i: int| 0 <= i < s.affect.len() && !is_primary(s.affect[i].0);
    let h = s.affect[i].0;
    assert(!primary_is_sole_group(s.affect));
    assert(has_group(s.affect, h));
    let files = match next {
        Some(n) => next_files(n),
        None => Seq::empty(),
    };
    lemma_other_group_stays(s.affect, primary_group(), h, files);
    let t = after_event(s, primary_group(), next);
    let j = choose|j: int| 0 <= j < t.affect.len() && t.affect[j].0 == h;
    assert(!is_primary(t.affect[j].0));
    assert(!primary_is_sole_group(t.affect));
    assert(direct_publishes(s, primary_group(), next) =~= Seq::empty());
    assert(event_publishes(s, primary_group(), next) =~= Seq::empty());
}

/// Retroactive republish: when a dedicated group reports while the primary
/// group was published as sole, every file of the primary group's last
/// event is sent again with the stored diagnostics of the other groups
/// only, and the primary group is withheld from then on.
pub proof fn lemma_dedicated_event_flushes(
    s: AggregatorState,
    g: Seq<char>,
    next: Seq<FileDiagView>,
)
    requires
        !is_primary(g),
        s.published_primary,
    ensures
        !after_event(s, g, Some(next)).published_primary,
        flush_publishes(s, after_event(s, g, Some(next))) == affected(
            after_event(s, g, Some(next)).affect,
            primary_group(),
        ).map_values(
            |f: Seq<char>| (f, shown(after_event(s, g, Some(next)).reports, f, None, false)),
        ),
{
    let t = after_event(s, g, Some(next));
    let affect = set_affected(s.affect, g, next_files(next));
    assert(t.affect == affect);
    if has_group(s.affect, g) {
        assert(affect[group_index(s.affect, g)].0 == g);
    } else {
        assert(affect[affect.len() - 1].0 == g);
    }
    assert(!primary_is_sole_group(affect));
}

/// Restoration: when a group withdraws and only the primary group is left,
/// while the primary group was withheld, every file of the primary group's
/// last event is sent again with its diagnostics included.
pub proof fn lemma_primary_restored(s: AggregatorState, g: Seq<char>)
    requires
        !s.published_primary,
        primary_is_sole_group(remove_affected(s.affect, g)),
    ensures
        after_event(s, g, None).published_primary,
        flush_publishes(s, after_event(s, g, None)) == affected(
            after_event(s, g, None).affect,
            primary_group(),
        ).map_values(|f: Seq<char>| (f, shown(after_event(s, g, None).reports, f, None, true))),
{
}

/// The aggregator's invariant: one stored report per (file, group) pair,
/// one affect entry per group, stored reports that agree with the affect
/// map, and a published standing of the primary group that is its current
/// one.
pub open spec fn state_wf(s: AggregatorState) -> bool {
    &&& reports_unique(s.reports)
    &&& groups_unique(s.affect)
    &&& reports_match_affect(s)
    &&& s.published_primary == primary_is_sole_group(s.affect)
}

/// The stored reports agree with the affect map: group `g` has a report on
/// file `f` exactly when `f` was among the files of `g`'s last event.
pub open spec fn reports_match_affect(s: AggregatorState) -> bool {
    forall|f: Seq<char>, g: Seq<char>|
        #[trigger] has_report(s.reports, f, g) <==> affected(s.affect, g).contains(f)
}

proof fn lemma_remove_report(
    r: Seq<ReportView>,
    f: Seq<char>,
    g: Seq<char>,
)
    requires
        reports_unique(r),
    ensures
        reports_unique(remove_report(r, f, g)),
        forall|f2: Seq<char>, h: Seq<char>|
            #[trigger] has_report(remove_report(r, f, g), f2, h) <==> (has_report(r, f2, h) && !(
            f2 == f && h == g)),
{
    if has_report(r, f, g) {
        let k = report_index(r, f, g);
        let r2 = r.remove(k);
        assert(r2 == remove_report(r, f, g));
        assert forall|a: int, b: int| 0 <= a < b < r2.len() implies !(#[trigger] r2[a].0
            == #[trigger] r2[b].0 && r2[a].1 == r2[b].1) by {
            let a0 = if a < k { a } else { a + 1 };
            let b0 = if b < k { b } else { b + 1 };
            assert(r2[a] == r[a0]);
            assert(r2[b] == r[b0]);
        }
        assert forall|f2: Seq<char>, h: Seq<char>|
            #[trigger] has_report(r2, f2, h) <==> (has_report(r, f2, h) && !(f2 == f && h
                == g)) by {
            if has_report(r2, f2, h) {
                let j = choose|j: int| 0 <= j < r2.len() && r2[j].0 == f2 && r2[j].1 == h;
                let j0 = if j < k { j } else { j + 1 };
                assert(r2[j] == r[j0]);
                if f2 == f && h == g {
                    if j0 < k {
                        assert(!(r[j0].0 == r[k].0 && r[j0].1 == r[k].1));
                    } else {
                        assert(!(r[k].0 == r[j0].0 && r[k].1 == r[j0].1));
                    }
                }
            }
            if has_report(r, f2, h) && !(f2 == f && h == g) {
                let j = choose|j: int| 0 <= j < r.len() && r[j].0 == f2 && r[j].1 == h;
                let j2 = if j < k { j } else { j - 1 };
                assert(r2[j2] == r[j]);
            }
        }
    }
}

proof fn lemma_set_report(
    r: Seq<ReportView>,
    f: Seq<char>,
    g: Seq<char>,
    d: Seq<Diagnostic>,
)
    requires
        reports_unique(r),
    ensures
        reports_unique(set_report(r, f, g, d)),
        forall|f2: Seq<char>, h: Seq<char>|
            #[trigger] has_report(set_report(r, f, g, d), f2, h) <==> (has_report(r, f2, h) || (
            f2 == f && h == g)),
{
    let r2 = set_report(r, f, g, d);
    if has_report(r, f, g) {
        let k = report_index(r, f, g);
        assert(r2[k].0 == f && r2[k].1 == g);
        assert forall|f2: Seq<char>, h: Seq<char>|
            #[trigger] has_report(r2, f2, h) <==> (has_report(r, f2, h) || (f2 == f && h == g)) by {
            if has_report(r2, f2, h) {
                let j = choose|j: int| 0 <= j < r2.len() && r2[j].0 == f2 && r2[j].1 == h;
                if j != k {
                    assert(r2[j] == r[j]);
                }
            }
            if has_report(r, f2, h) {
                let j = choose|j: int| 0 <= j < r.len() && r[j].0 == f2 && r[j].1 == h;
                if j != k {
                    assert(r2[j] == r[j]);
                }
            }
        }
    } else {
        assert(r2[r.len() as int].0 == f && r2[r.len() as int].1 == g);
        assert forall|f2: Seq<char>, h: Seq<char>|
            #[trigger] has_report(r2, f2, h) <==> (has_report(r, f2, h) || (f2 == f && h == g)) by {
            if has_report(r2, f2, h) {
                let j = choose|j: int| 0 <= j < r2.len() && r2[j].0 == f2 && r2[j].1 == h;
                if j < r.len() {
                    assert(r2[j] == r[j]);
                }
            }
            if has_report(r, f2, h) {
                let j = choose|j: int| 0 <= j < r.len() && r[j].0 == f2 && r[j].1 == h;
                assert(r2[j] == r[j]);
            }
        }
    }
}

proof fn lemma_clear_reports(r: Seq<ReportView>, files: Seq<Seq<char>>, g: Seq<char>)
    requires
        reports_unique(r),
    ensures
        reports_unique(clear_reports(r, files, g)),
        forall|f2: Seq<char>, h: Seq<char>|
            #[trigger] has_report(clear_reports(r, files, g), f2, h) <==> (has_report(r, f2, h)
                && !(h == g && files.contains(f2))),
    decreases files.len(),
{
    if files.len() > 0 {
        let rest = files.drop_last();
        lemma_clear_reports(r, rest, g);
        let mid = clear_reports(r, rest, g);
        lemma_remove_report(mid, files.last(), g);
        assert forall|f2: Seq<char>, h: Seq<char>|
            #[trigger] has_report(clear_reports(r, files, g), f2, h) <==> (has_report(r, f2, h)
                && !(h == g && files.contains(f2))) by {
            assert(has_report(mid, f2, h) <==> (has_report(r, f2, h) && !(h == g
                && rest.contains(f2))));
            if files.contains(f2) && f2 != files.last() {
                let j = choose|j: int| 0 <= j < files.len() && files[j] == f2;
                assert(rest[j] == f2);
            }
            if rest.contains(f2) {
                let j = choose|j: int| 0 <= j < rest.len() && rest[j] == f2;
                assert(files[j] == f2);
            }
            assert(files[files.len() - 1] == files.last());
        }
    }
}

proof fn lemma_store_reports(r: Seq<ReportView>, next: Seq<FileDiagView>, g: Seq<char>)
    requires
        reports_unique(r),
    ensures
        reports_unique(store_reports(r, next, g)),
        forall|f2: Seq<char>, h: Seq<char>|
            #[trigger] has_report(store_reports(r, next, g), f2, h) <==> (has_report(r, f2, h) || (h
                == g && next_files(next).contains(f2))),
    decreases next.len(),
{
    if next.len() > 0 {
        let rest = next.drop_last();
        lemma_store_reports(r, rest, g);
        let mid = store_reports(r, rest, g);
        lemma_set_report(mid, next.last().0, g, next.last().1);
        assert(next_files(rest) =~= next_files(next).drop_last());
        assert forall|f2: Seq<char>, h: Seq<char>|
            #[trigger] has_report(store_reports(r, next, g), f2, h) <==> (has_report(r, f2, h) || (h
                == g && next_files(next).contains(f2))) by {
            let nf = next_files(next);
            assert(nf[nf.len() - 1] == next.last().0);
            if nf.contains(f2) && f2 != next.last().0 {
                let j = choose|j: int| 0 <= j < nf.len() && nf[j] == f2;
                assert(next_files(rest)[j] == f2);
            }
            if next_files(rest).contains(f2) {
                let j = choose|j: int| 0 <= j < next_files(rest).len() && next_files(rest)[j] == f2;
                assert(nf[j] == f2);
            }
        }
    }
}

proof fn lemma_files_not_in(prev: Seq<Seq<char>>, keys: Seq<Seq<char>>)
    ensures
        forall|f: Seq<char>|
            #[trigger] files_not_in(prev, keys).contains(f) <==> (prev.contains(f)
                && !keys.contains(f)),
    decreases prev.len(),
{
    if prev.len() > 0 {
        let rest = prev.drop_last();
        lemma_files_not_in(rest, keys);
        assert forall|f: Seq<char>|
            #[trigger] files_not_in(prev, keys).contains(f) <==> (prev.contains(f)
                && !keys.contains(f)) by {
            let fr = files_not_in(rest, keys);
            if !keys.contains(prev.last()) {
                let fp = fr.push(prev.last());
                assert(fp[fr.len() as int] == prev.last());
                if fp.contains(f) && f != prev.last() {
                    let j = choose|j: int| 0 <= j < fp.len() && fp[j] == f;
                    assert(fr[j] == f);
                }
                if fr.contains(f) {
                    let j = choose|j: int| 0 <= j < fr.len() && fr[j] == f;
                    assert(fp[j] == f);
                }
            }
            if prev.contains(f) && f != prev.last() {
                let j = choose|j: int| 0 <= j < prev.len() && prev[j] == f;
                assert(rest[j] == f);
            }
            if rest.contains(f) {
                let j = choose|j: int| 0 <= j < rest.len() && rest[j] == f;
                assert(prev[j] == f);
            }
            assert(prev[prev.len() - 1] == prev.last());
        }
    }
}

proof fn lemma_affected_after(a: Seq<AffectView>, g: Seq<char>, files: Seq<Seq<char>>, h: Seq<char>)
    requires
        groups_unique(a),
    ensures
        groups_unique(set_affected(a, g, files)),
        groups_unique(remove_affected(a, g)),
        affected(set_affected(a, g, files), h) == if h == g {
            files
        } else {
            affected(a, h)
        },
        affected(remove_affected(a, g), h) == if h == g {
            Seq::<Seq<char>>::empty()
        } else {
            affected(a, h)
        },
{
    let s1 = set_affected(a, g, files);
    let s2 = remove_affected(a, g);
    if has_group(a, g) {
        let k = group_index(a, g);
        assert(s1[k].0 == g);
        assert forall|x: int, y: int| 0 <= x < y < s2.len() implies #[trigger] s2[x].0
            != #[trigger] s2[y].0 by {
            let x0 = if x < k { x } else { x + 1 };
            let y0 = if y < k { y } else { y + 1 };
            assert(s2[x] == a[x0]);
            assert(s2[y] == a[y0]);
        }
    } else {
        assert(s1[a.len() as int].0 == g);
    }
    // The entry of `h` in the new map is the one it had, or the new one.
    if h == g {
        let i1 = group_index(s1, g);
        if has_group(a, g) {
            let k = group_index(a, g);
            if i1 != k {
                assert(s1[i1] == a[i1]);
                if i1 < k {
                    assert(a[i1].0 != a[k].0);
                } else {
                    assert(a[k].0 != a[i1].0);
                }
            }
        } else {
            if i1 < a.len() {
                assert(s1[i1] == a[i1]);
            }
        }
        if has_group(s2, g) {
            let k = group_index(a, g);
            let j = choose|j: int| 0 <= j < s2.len() && s2[j].0 == g;
            let j0 = if j < k { j } else { j + 1 };
            assert(s2[j] == a[j0]);
            if j0 < k {
                assert(a[j0].0 != a[k].0);
            } else {
                assert(a[k].0 != a[j0].0);
            }
        }
    } else if has_group(a, h) {
        let ih = group_index(a, h);
        assert(s1[ih] == a[ih]);
        let i1 = group_index(s1, h);
        if i1 != ih {
            if i1 < a.len() {
                assert(s1[i1] == a[i1]);
                if i1 < ih {
                    assert(a[i1].0 != a[ih].0);
                } else {
                    assert(a[ih].0 != a[i1].0);
                }
            }
        }
        if has_group(a, g) {
            let k = group_index(a, g);
            let j = if ih < k { ih } else { ih - 1 };
            assert(s2[j] == a[ih]);
            let i2 = group_index(s2, h);
            let i20 = if i2 < k { i2 } else { i2 + 1 };
            assert(s2[i2] == a[i20]);
            if i20 != ih {
                if i20 < ih {
                    assert(a[i20].0 != a[ih].0);
                } else {
                    assert(a[ih].0 != a[i20].0);
                }
            }
        }
    } else {
        if has_group(s1, h) {
            let j = choose|j: int| 0 <= j < s1.len() && s1[j].0 == h;
            if j < a.len() && !(has_group(a, g) && j == group_index(a, g)) {
                assert(s1[j] == a[j]);
            }
        }
        if has_group(s2, h) {
            let k = group_index(a, g);
            let j = choose|j: int| 0 <= j < s2.len() && s2[j].0 == h;
            let j0 = if j < k { j } else { j + 1 };
            assert(s2[j] == a[j0]);
        }
    }
}

/// The stored reports keep agreeing with the affect map across every
/// event.
pub proof fn lemma_reports_match_affect(
    s: AggregatorState,
    g: Seq<char>,
    next: Option<Seq<FileDiagView>>,
)
    requires
        reports_unique(s.reports),
        groups_unique(s.affect),
        reports_match_affect(s),
    ensures
        reports_match_affect(after_event(s, g, next)),
{
    let t = after_event(s, g, next);
    let prev = affected(s.affect, g);
    let clear = clear_list(prev, next);
    lemma_clear_reports(s.reports, clear, g);
    lemma_store_reports(clear_reports(s.reports, clear, g), update_list(next), g);
    if let Some(n) = next {
        lemma_files_not_in(prev, next_files(n));
    } else {
        assert(next_files(update_list(next)) =~= Seq::<Seq<char>>::empty());
    }
    assert forall|f: Seq<char>, h: Seq<char>|
        #[trigger] has_report(t.reports, f, h) <==> affected(t.affect, h).contains(f) by {
        let files = match next {
            Some(n) => next_files(n),
            None => Seq::empty(),
        };
        lemma_affected_after(s.affect, g, files, h);
        assert(has_report(s.reports, f, h) <==> affected(s.affect, h).contains(f));
    }
}

/// Nothing is shown for `file` when no report on it is counted.
proof fn lemma_shown_nothing(
    reports: Seq<ReportView>,
    file: Seq<char>,
    skip: Option<Seq<char>>,
    with_primary: bool,
)
    requires
        forall|i: int|
            0 <= i < reports.len() && reports[i].0 == file ==> !counted(
                reports[i],
                file,
                skip,
                with_primary,
            ),
    ensures
        shown(reports, file, skip, with_primary) == Seq::<Diagnostic>::empty(),
    decreases reports.len(),
{
    if reports.len() > 0 {
        let d = reports.drop_last();
        assert forall|i: int| 0 <= i < d.len() && d[i].0 == file implies !counted(
            d[i],
            file,
            skip,
            with_primary,
        ) by {
            assert(d[i] == reports[i]);
        }
        lemma_shown_nothing(d, file, skip, with_primary);
        assert(reports[reports.len() - 1] == reports.last());
    }
}

/// What is shown for `file` is one report's diagnostics when that report is
/// the only counted one on it.
proof fn lemma_shown_single(
    reports: Seq<ReportView>,
    file: Seq<char>,
    skip: Option<Seq<char>>,
    with_primary: bool,
    k: int,
)
    requires
        0 <= k < reports.len(),
        reports[k].0 == file,
        counted(reports[k], file, skip, with_primary),
        forall|i: int|
            0 <= i < reports.len() && reports[i].0 == file && i != k ==> !counted(
                reports[i],
                file,
                skip,
                with_primary,
            ),
    ensures
        shown(reports, file, skip, with_primary) == reports[k].2,
    decreases reports.len(),
{
    let d = reports.drop_last();
    assert(reports[reports.len() - 1] == reports.last());
    if k == reports.len() - 1 {
        assert forall|i: int| 0 <= i < d.len() && d[i].0 == file implies !counted(
            d[i],
            file,
            skip,
            with_primary,
        ) by {
            assert(d[i] == reports[i]);
        }
        lemma_shown_nothing(d, file, skip, with_primary);
        assert(Seq::<Diagnostic>::empty() + reports[k].2 =~= reports[k].2);
    } else {
        assert forall|i: int| 0 <= i < d.len() && d[i].0 == file && i != k implies !counted(
            d[i],
            file,
            skip,
            with_primary,
        ) by {
            assert(d[i] == reports[i]);
        }
        assert(d[k] == reports[k]);
        lemma_shown_single(d, file, skip, with_primary, k);
    }
}

/// Clearing group `g`'s reports keeps every report of another group.
proof fn lemma_clear_keeps(r: Seq<ReportView>, files: Seq<Seq<char>>, g: Seq<char>, x: ReportView)
    requires
        r.contains(x),
        x.1 != g,
    ensures
        clear_reports(r, files, g).contains(x),
    decreases files.len(),
{
    if files.len() > 0 {
        lemma_clear_keeps(r, files.drop_last(), g, x);
        let m = clear_reports(r, files.drop_last(), g);
        let f = files.last();
        if has_report(m, f, g) {
            let k = report_index(m, f, g);
            let j = choose|j: int| 0 <= j < m.len() && m[j] == x;
            assert(j != k);
            let j2 = if j < k { j } else { j - 1 };
            assert(m.remove(k)[j2] == x);
        }
    }
}

/// Server-wide suppression: when a dedicated group first reports while the
/// primary group was sole, every file of the primary group's last event
/// that the dedicated group does not name is sent an empty list.
pub proof fn lemma_dedicated_event_clears_primary_files(
    s: AggregatorState,
    g: Seq<char>,
    next: Seq<FileDiagView>,
    file: Seq<char>,
)
    requires
        state_wf(s),
        s.published_primary,
        !is_primary(g),
        affected(s.affect, primary_group()).contains(file),
        !next_files(next).contains(file),
    ensures
        event_publishes(s, g, Some(next)).contains((file, Seq::<Diagnostic>::empty())),
        !after_event(s, g, Some(next)).published_primary,
{
    let t = after_event(s, g, Some(next));
    lemma_state_wf_preserved(s, g, Some(next));
    lemma_dedicated_event_flushes(s, g, next);
    lemma_affected_after(s.affect, g, next_files(next), primary_group());
    let fp = affected(t.affect, primary_group());
    assert(fp == affected(s.affect, primary_group()));
    let k = choose|k: int| 0 <= k < fp.len() && fp[k] == file;
    // Every report on `file` after the event is the primary group's.
    assert forall|i: int| 0 <= i < t.reports.len() && t.reports[i].0 == file implies !counted(
        t.reports[i],
        file,
        None,
        false,
    ) by {
        let h = t.reports[i].1;
        assert(has_report(t.reports, file, h));
        assert(affected(t.affect, h).contains(file));
        lemma_affected_after(s.affect, g, next_files(next), h);
        if h != g {
            assert(affected(s.affect, h).contains(file));
            let gi = group_index(s.affect, h);
            assert(is_primary(s.affect[gi].0));
        }
    }
    lemma_shown_nothing(t.reports, file, None, false);
    let flush = flush_publishes(s, t);
    assert(flush[k] == (file, Seq::<Diagnostic>::empty()));
    let direct = direct_publishes(s, g, Some(next));
    let all = event_publishes(s, g, Some(next));
    assert(all[direct.len() + k] == flush[k]);
}

/// Restoration with content: when the one dedicated group withdraws, each
/// file of the primary group's last event is sent again with exactly the
/// primary group's stored diagnostics on it.
pub proof fn lemma_primary_restored_content(
    s: AggregatorState,
    g: Seq<char>,
    file: Seq<char>,
    d: Seq<Diagnostic>,
)
    requires
        state_wf(s),
        !is_primary(g),
        has_group(s.affect, g),
        forall|i: int| 0 <= i < s.affect.len() ==> #[trigger] s.affect[i].0 == g || is_primary(
            s.affect[i].0,
        ),
        affected(s.affect, primary_group()).contains(file),
        s.reports.contains((file, primary_group(), d)),
    ensures
        after_event(s, g, None).published_primary,
        event_publishes(s, g, None).contains((file, d)),
{
    let t = after_event(s, g, None);
    lemma_state_wf_preserved(s, g, None);
    let p = primary_group();
    let gi = group_index(s.affect, g);
    assert(!is_primary(s.affect[gi].0));
    assert(!s.published_primary);
    lemma_affected_after(s.affect, g, Seq::empty(), p);
    let a2 = remove_affected(s.affect, g);
    assert forall|i: int| 0 <= i < a2.len() implies is_primary(#[trigger] a2[i].0) by {
        let i0 = if i < gi { i } else { i + 1 };
        assert(a2[i] == s.affect[i0]);
        if i0 < gi {
            assert(s.affect[i0].0 != s.affect[gi].0);
        } else {
            assert(s.affect[gi].0 != s.affect[i0].0);
        }
    }
    assert(t.published_primary);
    let clear = clear_list(affected(s.affect, g), None);
    assert(t.reports == clear_reports(s.reports, clear, g));
    lemma_clear_keeps(s.reports, clear, g, (file, p, d));
    let k = choose|k: int| 0 <= k < t.reports.len() && t.reports[k] == (file, p, d);
    assert forall|i: int|
        0 <= i < t.reports.len() && t.reports[i].0 == file && i != k implies !counted(
        t.reports[i],
        file,
        None,
        true,
    ) by {
        let h = t.reports[i].1;
        assert(has_report(t.reports, file, h));
        assert(affected(t.affect, h).contains(file));
        lemma_affected_after(s.affect, g, Seq::empty(), h);
        if h != p {
            if h == g {
            } else {
                assert(affected(s.affect, h).contains(file));
                let hi = group_index(s.affect, h);
                assert(s.affect[hi].0 == g || is_primary(s.affect[hi].0));
            }
        }
        if i < k {
            assert(!(t.reports[i].0 == t.reports[k].0 && t.reports[i].1 == t.reports[k].1));
        } else {
            assert(!(t.reports[k].0 == t.reports[i].0 && t.reports[k].1 == t.reports[i].1));
        }
    }
    lemma_shown_single(t.reports, file, None, true, k);
    let fp = affected(t.affect, p);
    let j = choose|j: int| 0 <= j < fp.len() && fp[j] == file;
    let flush = flush_publishes(s, t);
    assert(flush[j] == (file, d));
    let direct = direct_publishes(s, g, None);
    let all = event_publishes(s, g, None);
    assert(all[direct.len() + j] == flush[j]);
}

} // verus!
