//! The file overlay: what the editor holds of each open document, which
//! takes the place of the file on disk for every compile session.
use vstd::prelude::*;

use crate::error::Error;
use crate::text::{
    apply_changes, apply_content_changes, changes_view, ContentChange, PositionEncoding,
};

verus! {

/// One record of a change-set: a path, its modification time, and its new
/// contents, or `None` when the file left the overlay.
#[derive(Debug)]
pub struct FileChange {
    pub path: String,
    pub mtime: u64,
    pub content: Option<Vec<char>>,
}

/// A record as a value.
pub type FileChangeView = (Seq<char>, u64, Option<Seq<char>>);

impl View for FileChange {
    type V = FileChangeView;

    open spec fn view(&self) -> FileChangeView {
        (
            self.path@,
            self.mtime,
            match self.content {
                Some(c) => Some(c@),
                None => None,
            },
        )
    }
}

/// An ordered batch of records, handed unmodified to every session.
#[derive(Debug)]
pub struct ChangeSet {
    pub changes: Vec<FileChange>,
}

impl View for ChangeSet {
    type V = Seq<FileChangeView>;

    open spec fn view(&self) -> Seq<FileChangeView> {
        self.changes@.map_values(|c: FileChange| c@)
    }
}

impl ChangeSet {
    /// A change-set without records; it makes a session re-evaluate its
    /// dependencies.
    pub fn empty() -> (r: ChangeSet)
        ensures
            r@ == Seq::<FileChangeView>::empty(),
    {
        let r = ChangeSet { changes: Vec::new() };
        assert(r@ =~= Seq::<FileChangeView>::empty());
        r
    }

    /// A copy of this change-set.
    pub fn copy(&self) -> (r: ChangeSet)
        ensures
            r@ == self@,
    {
        let mut changes: Vec<FileChange> = Vec::new();
        let mut i: usize = 0;
        while i < self.changes.len()
            invariant
                i <= self.changes.len(),
                changes@.map_values(|c: FileChange| c@) == self@.subrange(0, i as int),
            decreases self.changes.len() - i,
        {
            let c = &self.changes[i];
            let content = match &c.content {
                Some(t) => {
                    let t2 = t.clone();
                    assert(t2@ =~= t@);
                    Some(t2)
                },
                None => None,
            };
            let ghost before = changes@;
            changes.push(FileChange { path: c.path.clone(), mtime: c.mtime, content });
            assert(changes@.map_values(|c: FileChange| c@) =~= before.map_values(
                |c: FileChange| c@,
            ).push(c@));
            assert(self@.subrange(0, i + 1) =~= self@.subrange(0, i as int).push(self@[i as int]));
            i = i + 1;
        }
        assert(self@.subrange(0, self.changes.len() as int) =~= self@);
        ChangeSet { changes }
    }
}

/// An overlay entry as a value: the path, its modification time, its text.
pub type MemoryFileView = (Seq<char>, u64, Seq<char>);

/// The overlay as a value.
pub struct OverlayState {
    /// One entry per path, in the order in which the paths were opened.
    pub files: Seq<MemoryFileView>,
    /// The logical clock that stamps each mutation.
    pub clock: u64,
}

/// The clock after one more mutation; it stops at its largest value.
pub open spec fn tick(clock: u64) -> u64 {
    if clock < u64::MAX {
        (clock + 1) as u64
    } else {
        clock
    }
}

pub open spec fn paths_unique(files: Seq<MemoryFileView>) -> bool {
    forall|i: int, j: int| 0 <= i < j < files.len() ==> #[trigger] files[i].0 != #[trigger] files[j].0
}

pub open spec fn has_file(files: Seq<MemoryFileView>, p: Seq<char>) -> bool {
    exists|i: int| 0 <= i < files.len() && files[i].0 == p
}

pub open spec fn file_index(files: Seq<MemoryFileView>, p: Seq<char>) -> int {
    choose|i: int| 0 <= i < files.len() && files[i].0 == p
}

/// The text that the overlay holds for `p`.
pub open spec fn file_content(files: Seq<MemoryFileView>, p: Seq<char>) -> Option<Seq<char>> {
    if has_file(files, p) {
        Some(files[file_index(files, p)].2)
    } else {
        None
    }
}

/// The entries after `p` is given the time `t` and the text `c`.
pub open spec fn put_file(files: Seq<MemoryFileView>, p: Seq<char>, t: u64, c: Seq<char>) -> Seq<
    MemoryFileView,
> {
    if has_file(files, p) {
        files.update(file_index(files, p), (p, t, c))
    } else {
        files.push((p, t, c))
    }
}

/// The entries after `p` leaves the overlay.
pub open spec fn drop_file(files: Seq<MemoryFileView>, p: Seq<char>) -> Seq<MemoryFileView> {
    if has_file(files, p) {
        files.remove(file_index(files, p))
    } else {
        files
    }
}

/// An overlay entry: a path, its modification time and its text.
#[derive(Debug)]
pub struct MemoryFileMeta {
    path: String,
    mtime: u64,
    content: Vec<char>,
}

impl MemoryFileMeta {
    spec fn view_of(&self) -> MemoryFileView {
        (self.path@, self.mtime, self.content@)
    }
}

spec fn files_view(v: Seq<MemoryFileMeta>) -> Seq<MemoryFileView> {
    v.map_values(|f: MemoryFileMeta| f.view_of())
}

/// The in-memory map from path to the editor's current text.
///
/// It is keyed by paths (`String`s). vstd specifies the contents of a std
/// hash map only for keys whose hashing and equality it knows, and it says
/// nothing of them for `String` keys. So the map is kept as a vector with
/// one entry per path, which the invariant `wf` states.
pub struct Overlay {
    files: Vec<MemoryFileMeta>,
    clock: u64,
}

impl View for Overlay {
    type V = OverlayState;

    closed spec fn view(&self) -> OverlayState {
        OverlayState { files: files_view(self.files@), clock: self.clock }
    }
}

impl Overlay {
    /// The overlay's invariant: one entry per path.
    pub open spec fn wf(&self) -> bool {
        paths_unique(self@.files)
    }

    /// A fresh time from the overlay's clock, for a record that does not
    /// come from an edit.
    pub fn next_time(&mut self) -> (t: u64)
        requires
            old(self).wf(),
        ensures
            final(self).wf(),
            t == tick(old(self)@.clock),
            final(self)@ == (OverlayState { clock: t, ..old(self)@ }),
    {
        self.advance_clock()
    }

    /// An empty overlay.
    pub fn new() -> (r: Overlay)
        ensures
            r.wf(),
            r@.files.len() == 0,
            r@.clock == 0,
    {
        let r = Overlay { files: Vec::new(), clock: 0 };
        assert(r@.files =~= Seq::<MemoryFileView>::empty());
        r
    }

    fn find(&self, p: &String) -> (r: Option<usize>)
        requires
            self.wf(),
        ensures
            r.is_some() == has_file(self@.files, p@),
            r.is_some() ==> r.unwrap() == file_index(self@.files, p@),
    {
        let mut i: usize = 0;
        while i < self.files.len()
            invariant
                i <= self.files.len(),
                self.wf(),
                forall|j: int| 0 <= j < i ==> self@.files[j].0 != p@,
            decreases self.files.len() - i,
        {
            if self.files[i].path == *p {
                let ghost k = file_index(self@.files, p@);
                assert(self@.files[i as int].0 == p@);
                assert(k == i) by {
                    if k < i {
                        assert(self@.files[k].0 != self@.files[i as int].0);
                    } else if k > i {
                        assert(self@.files[i as int].0 != self@.files[k].0);
                    }
                }
                return Some(i);
            }
            i += 1;
        }
        None
    }

    fn advance_clock(&mut self) -> (t: u64)
        ensures
            t == tick(old(self)@.clock),
            final(self)@ == (OverlayState { clock: t, ..old(self)@ }),
            final(self).files == old(self).files,
    {
        if self.clock < u64::MAX {
            self.clock = self.clock + 1;
        }
        self.clock
    }

    fn put(&mut self, p: String, t: u64, c: Vec<char>)
        requires
            old(self).wf(),
        ensures
            final(self).wf(),
            final(self)@ == (OverlayState {
                files: put_file(old(self)@.files, p@, t, c@),
                ..old(self)@
            }),
    {
        let ghost old_files = self@.files;
        let ghost pv = p@;
        let ghost cv = c@;
        match self.find(&p) {
            Some(i) => {
                self.files.set(i, MemoryFileMeta { path: p, mtime: t, content: c });
                assert(self@.files =~= old_files.update(i as int, (pv, t, cv)));
            },
            None => {
                self.files.push(MemoryFileMeta { path: p, mtime: t, content: c });
                assert(self@.files =~= old_files.push((pv, t, cv)));
            },
        }
        assert(paths_unique(self@.files));
    }

    /// The text that the overlay holds for `path`.
    pub fn content(&self, path: &String) -> (r: Result<&Vec<char>, Error>)
        requires
            self.wf(),
        ensures
            match r {
                Ok(c) => file_content(self@.files, path@) == Some(c@),
                Err(e) => e == Error::FileMissing && file_content(self@.files, path@) is None,
            },
    {
        match self.find(path) {
            Some(i) => Ok(&self.files[i].content),
            None => Err(Error::FileMissing),
        }
    }

    /// Document opened: the overlay holds `text` for `path` from now on,
    /// with a fresh time. Returns the insert record to hand to the sessions.
    pub fn open(&mut self, path: String, text: Vec<char>) -> (r: ChangeSet)
        requires
            old(self).wf(),
        ensures
            final(self).wf(),
            final(self)@.clock == tick(old(self)@.clock),
            final(self)@.files == put_file(old(self)@.files, path@, final(self)@.clock, text@),
            r@ == seq![(path@, final(self)@.clock, Some(text@))],
    {
        let t = self.advance_clock();
        let record = FileChange { path: path.clone(), mtime: t, content: Some(text.clone()) };
        assert(record@ == (path@, t, Some(text@))) by {
            assert(record.content.unwrap()@ =~= text@);
        }
        self.put(path, t, text);
        let mut changes: Vec<FileChange> = Vec::new();
        changes.push(record);
        let r = ChangeSet { changes };
        assert(r@ =~= seq![record@]);
        r
    }

    /// Document changed: applies `changes` in order to the text held for
    /// `path`, stamps it once with a fresh time, and returns one update
    /// record with the final text. Fails with `FileMissing` when the overlay
    /// does not hold `path`, and with `InvalidRange` when a change does not
    /// apply; the overlay is then left as it was.
    pub fn edit(&mut self, path: &String, changes: &Vec<ContentChange>, enc: PositionEncoding) -> (r:
        Result<ChangeSet, Error>)
        requires
            old(self).wf(),
        ensures
            final(self).wf(),
            match file_content(old(self)@.files, path@) {
                None => r == Err::<ChangeSet, Error>(Error::FileMissing) && final(self)@ == old(
                    self,
                )@,
                Some(before) => match apply_changes(before, changes_view(changes@), enc) {
                    None => r == Err::<ChangeSet, Error>(Error::InvalidRange) && final(self)@
                        == old(self)@,
                    Some(after) => {
                        &&& final(self)@.clock == tick(old(self)@.clock)
                        &&& final(self)@.files == put_file(
                            old(self)@.files,
                            path@,
                            final(self)@.clock,
                            after,
                        )
                        &&& r matches Ok(cs) && cs@ == seq![
                            (path@, final(self)@.clock, Some(after)),
                        ]
                    },
                },
            },
    {
        let i = match self.find(path) {
            Some(i) => i,
            None => return Err(Error::FileMissing),
        };
        let next = match apply_content_changes(&self.files[i].content, changes, enc) {
            Some(n) => n,
            None => return Err(Error::InvalidRange),
        };
        let t = self.advance_clock();
        let record = FileChange { path: path.clone(), mtime: t, content: Some(next.clone()) };
        assert(record@ == (path@, t, Some(next@))) by {
            assert(record.content.unwrap()@ =~= next@);
        }
        self.put(path.clone(), t, next);
        let mut records: Vec<FileChange> = Vec::new();
        records.push(record);
        let r = ChangeSet { changes: records };
        assert(r@ =~= seq![record@]);
        Ok(r)
    }

    /// Document closed: the overlay forgets `path`. Returns the removal
    /// record to hand to the sessions.
    pub fn close(&mut self, path: String) -> (r: ChangeSet)
        requires
            old(self).wf(),
        ensures
            final(self).wf(),
            final(self)@.clock == tick(old(self)@.clock),
            final(self)@.files == drop_file(old(self)@.files, path@),
            r@ == seq![(path@, final(self)@.clock, None::<Seq<char>>)],
    {
        let t = self.advance_clock();
        let ghost old_files = self@.files;
        match self.find(&path) {
            Some(i) => {
                self.files.remove(i);
                assert(self@.files =~= old_files.remove(i as int));
                assert forall|a: int, b: int| 0 <= a < b < self@.files.len() implies #[trigger] self@.files[a].0
                    != #[trigger] self@.files[b].0 by {
                    let a0 = if a < i { a } else { a + 1 };
                    let b0 = if b < i { b } else { b + 1 };
                    assert(self@.files[a] == old_files[a0]);
                    assert(self@.files[b] == old_files[b0]);
                }
            },
            None => {},
        }
        let record = FileChange { path, mtime: t, content: None };
        let mut records: Vec<FileChange> = Vec::new();
        records.push(record);
        let r = ChangeSet { changes: records };
        assert(r@ =~= seq![record@]);
        r
    }

    /// Every entry of the overlay as an insert record, in order: what a
    /// newly created session starts from.
    pub fn snapshot(&self) -> (r: ChangeSet)
        ensures
            r@ == self@.files.map_values(
                |f: MemoryFileView| (f.0, f.1, Some(f.2)),
            ),
    {
        let mut records: Vec<FileChange> = Vec::new();
        let mut i: usize = 0;
        while i < self.files.len()
            invariant
                i <= self.files.len(),
                records@.map_values(|c: FileChange| c@) == self@.files.subrange(
                    0,
                    i as int,
                ).map_values(|f: MemoryFileView| (f.0, f.1, Some(f.2))),
            decreases self.files.len() - i,
        {
            let f = &self.files[i];
            let content = f.content.clone();
            assert(content@ =~= f.content@);
            let ghost before = records@;
            records.push(FileChange { path: f.path.clone(), mtime: f.mtime, content: Some(content) });
            assert(records@.map_values(|c: FileChange| c@) =~= before.map_values(
                |c: FileChange| c@,
            ).push(records@[i as int]@));
            assert(self@.files.subrange(0, i + 1) =~= self@.files.subrange(0, i as int).push(
                self@.files[i as int],
            ));
            assert(self@.files.subrange(0, i + 1).map_values(
                |f: MemoryFileView| (f.0, f.1, Some(f.2)),
            ) =~= self@.files.subrange(0, i as int).map_values(
                |f: MemoryFileView| (f.0, f.1, Some(f.2)),
            ).push((f.path@, f.mtime, Some(f.content@))));
            i = i + 1;
        }
        assert(self@.files.subrange(0, self.files.len() as int) =~= self@.files);
        ChangeSet { changes: records }
    }
}


/// Overlay idempotence: replacing, without a range, the whole text of an
/// open file by that same text leaves the text as it was, and the update
/// record carries it unchanged.
pub proof fn lemma_overlay_idempotence(
    files: Seq<MemoryFileView>,
    p: Seq<char>,
    t: u64,
    enc: crate::text::PositionEncoding,
)
    requires
        paths_unique(files),
        has_file(files, p),
    ensures
        ({
            let before = file_content(files, p).unwrap();
            &&& apply_changes(before, seq![(None::<crate::text::Range>, before)], enc) == Some(
                before,
            )
            &&& file_content(put_file(files, p, t, before), p) == Some(before)
        }),
{
    let before = file_content(files, p).unwrap();
    crate::text::lemma_full_replace_idempotent(before, enc);
    let k = file_index(files, p);
    let after = put_file(files, p, t, before);
    assert(after[k].0 == p);
    let k2 = file_index(after, p);
    if k2 != k {
        if k2 < k {
            assert(files[k2].0 != files[k].0);
        } else {
            assert(files[k].0 != files[k2].0);
        }
    }
}
} // verus!
