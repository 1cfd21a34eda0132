//! Compile sessions and their entry files.
//!
//! A session's compiler state is owned by one execution context and is
//! reached only by "stealing": running a step there and waiting for its
//! result. The controller side, here, keeps the session's entry and the
//! change-sets not yet handed over, and switches the entry in two halves
//! around the steal, rolling back when the steal fails.
use vstd::prelude::*;

use crate::error::Error;
use crate::overlay::{ChangeSet, FileChange, FileChangeView};
use crate::path::{
    detached_entry, detached_entry_path, in_root, is_absolute, is_absolute_path, path_in_root,
};

verus! {

/// The compiler-side entry of a session: its workspace root and the file it
/// compiles. It lives in the session's own execution context.
#[derive(Debug)]
pub struct CompilerEntry {
    pub root: String,
    pub entry_file: String,
}

impl CompilerEntry {
    /// A compiler that starts on the empty virtual document.
    pub fn new(root: String) -> (r: CompilerEntry)
        ensures
            r.root@ == root@,
            r.entry_file@ == detached_entry(root@),
    {
        let entry_file = detached_entry_path(&root);
        CompilerEntry { root, entry_file }
    }

    /// The compiler's half of an entry switch: the entry becomes `path`
    /// when it lies inside the workspace root; otherwise it is left as it
    /// was and `false` comes back.
    pub fn switch_to(&mut self, path: &String) -> (switched: bool)
        ensures
            switched == in_root(path@, old(self).root@),
            final(self).root == old(self).root,
            switched ==> final(self).entry_file@ == path@,
            !switched ==> final(self).entry_file == old(self).entry_file,
    {
        if path_in_root(path, &self.root) {
            self.entry_file = path.clone();
            true
        } else {
            false
        }
    }

    /// The diagnostics event that a compile reports: the diagnostics, or,
    /// while the compiler is on the empty virtual document, `None`, for a
    /// disabled session has nothing to report.
    pub fn diagnostics_event<D>(&self, diagnostics: D) -> (r: Option<D>)
        ensures
            self.entry_file@ == detached_entry(self.root@) ==> r is None,
            self.entry_file@ != detached_entry(self.root@) ==> r == Some(diagnostics),
    {
        let detached = detached_entry_path(&self.root);
        if self.entry_file == detached {
            None
        } else {
            Some(diagnostics)
        }
    }

    /// Disabling: the compiler is pointed at the empty virtual document, so
    /// that it always has something to compile.
    pub fn disable(&mut self)
        ensures
            final(self).root == old(self).root,
            final(self).entry_file@ == detached_entry(old(self).root@),
    {
        self.entry_file = detached_entry_path(&self.root);
    }
}

/// The entry after the first half of a switch to `path`.
pub open spec fn entry_after_begin(cur: Option<Seq<char>>, path: Seq<char>) -> Option<Seq<char>> {
    if is_absolute(path) {
        Some(path)
    } else {
        cur
    }
}

/// The entry after a switch from `prev` to `next` found its steal failed:
/// `prev` comes back unless a later switch has replaced `next` meanwhile.
pub open spec fn entry_after_failed_steal(
    cur: Option<Seq<char>>,
    prev: Option<Seq<char>>,
    next: Seq<char>,
) -> Option<Seq<char>> {
    if cur == Some(next) {
        prev
    } else {
        cur
    }
}

pub open spec fn opt_path(p: Option<String>) -> Option<Seq<char>> {
    match p {
        Some(s) => Some(s@),
        None => None,
    }
}

/// What the first half of an entry switch decided.
#[derive(Debug)]
pub enum EntryChange {
    /// The entry already was the requested path: nothing to do.
    Unchanged,
    /// The entry was moved from `prev` to `next`; the compiler still has
    /// to follow.
    Switched { prev: Option<String>, next: String },
}

/// A session's controller state as a value.
pub struct SessionState {
    pub group: Seq<char>,
    pub entry: Option<Seq<char>>,
    /// The change-sets received and not yet handed to the compiler, oldest
    /// first.
    pub pending: Seq<Seq<FileChangeView>>,
}

/// The change-sets as values.
pub open spec fn change_sets_view(v: Seq<ChangeSet>) -> Seq<Seq<FileChangeView>> {
    v.map_values(|c: ChangeSet| c@)
}

/// One compile session, as the frontend sees it.
#[derive(Debug)]
pub struct CompileNode {
    group: String,
    entry: Option<String>,
    pending: Vec<ChangeSet>,
}

impl View for CompileNode {
    type V = SessionState;

    closed spec fn view(&self) -> SessionState {
        SessionState {
            group: self.group@,
            entry: opt_path(self.entry),
            pending: change_sets_view(self.pending@),
        }
    }
}

impl CompileNode {
    /// A session of group `group` whose compiler starts from `snapshot`,
    /// with `entry` as its entry.
    pub fn new(group: String, entry: Option<String>, snapshot: ChangeSet) -> (r: CompileNode)
        ensures
            r@.group == group@,
            r@.entry == opt_path(entry),
            r@.pending == seq![snapshot@],
    {
        let mut pending: Vec<ChangeSet> = Vec::new();
        pending.push(snapshot);
        let r = CompileNode { group, entry, pending };
        assert(r@.pending =~= seq![snapshot@]);
        r
    }

    /// The group name under which the session reports diagnostics.
    pub fn group(&self) -> (r: &String)
        ensures
            r@ == self@.group,
    {
        &self.group
    }

    /// The session's current entry.
    pub fn entry(&self) -> (r: &Option<String>)
        ensures
            opt_path(*r) == self@.entry,
    {
        &self.entry
    }

    /// Queues an overlay change-set for the compiler, after the ones already
    /// queued.
    pub fn add_memory_changes(&mut self, changes: ChangeSet)
        ensures
            final(self)@ == (SessionState {
                pending: old(self)@.pending.push(changes@),
                ..old(self)@
            }),
    {
        let ghost before = self.pending@;
        self.pending.push(changes);
        assert(change_sets_view(self.pending@) =~= change_sets_view(before).push(changes@));
    }

    /// Disabling: the entry becomes the empty virtual document `sentinel`
    /// rather than `None`, and a record that gives `sentinel` empty contents
    /// at time `mtime` is queued, so that the compiler always has something
    /// to compile.
    pub fn disable(&mut self, sentinel: String, mtime: u64)
        ensures
            final(self)@ == (SessionState {
                entry: Some(sentinel@),
                pending: old(self)@.pending.push(seq![(sentinel@, mtime, Some(Seq::<char>::empty()))]),
                ..old(self)@
            }),
    {
        let record = FileChange { path: sentinel.clone(), mtime, content: Some(Vec::new()) };
        let mut changes: Vec<FileChange> = Vec::new();
        changes.push(record);
        let cs = ChangeSet { changes };
        assert(cs@ =~= seq![(sentinel@, mtime, Some(Seq::<char>::empty()))]) by {
            assert(record@.2 == Some(Seq::<char>::empty())) by {
                assert(record.content.unwrap()@ =~= Seq::<char>::empty());
            }
        }
        self.entry = Some(sentinel);
        self.add_memory_changes(cs);
    }

    /// Hands over the queued change-sets, oldest first.
    pub fn take_memory_changes(&mut self) -> (r: Vec<ChangeSet>)
        ensures
            change_sets_view(r@) == old(self)@.pending,
            final(self)@ == (SessionState { pending: Seq::empty(), ..old(self)@ }),
    {
        let mut r: Vec<ChangeSet> = Vec::new();
        std::mem::swap(&mut r, &mut self.pending);
        assert(change_sets_view(self.pending@) =~= Seq::empty());
        r
    }

    /// First half of an entry switch. A path that is not absolute is
    /// rejected with `InvalidEntry` and changes nothing. The same path as
    /// now is a no-op. Otherwise the entry becomes `path` at once, and the
    /// previous one is kept in the result so that a failed steal can roll
    /// back.
    pub fn begin_change_entry(&mut self, path: String) -> (r: Result<EntryChange, Error>)
        ensures
            final(self)@ == (SessionState {
                entry: entry_after_begin(old(self)@.entry, path@),
                ..old(self)@
            }),
            !is_absolute(path@) ==> r == Err::<EntryChange, Error>(Error::InvalidEntry),
            is_absolute(path@) && old(self)@.entry == Some(path@) ==> r matches Ok(
                EntryChange::Unchanged,
            ),
            is_absolute(path@) && old(self)@.entry != Some(path@) ==> (r matches Ok(
                EntryChange::Switched { prev, next },
            ) && opt_path(prev) == old(self)@.entry && next@ == path@),
    {
        if !is_absolute_path(&path) {
            return Err(Error::InvalidEntry);
        }
        let same = match &self.entry {
            Some(e) => *e == path,
            None => false,
        };
        if same {
            return Ok(EntryChange::Unchanged);
        }
        let prev = self.entry.take();
        self.entry = Some(path.clone());
        Ok(EntryChange::Switched { prev, next: path })
    }

    /// Second half of an entry switch, once the steal has run (`stolen`) or
    /// failed. After a failed steal the entry goes back to the previous one,
    /// unless a later switch has replaced it meanwhile, and the result is
    /// `ChannelClosed`. After a successful one an empty change-set is queued
    /// so that the compiler re-evaluates its dependencies, and the result
    /// tells whether the entry changed.
    pub fn finish_change_entry(&mut self, change: EntryChange, stolen: bool) -> (r: Result<
        bool,
        Error,
    >)
        ensures
            match change {
                EntryChange::Unchanged => r == Ok::<bool, Error>(false) && final(self)@ == old(
                    self,
                )@,
                EntryChange::Switched { prev, next } => if stolen {
                    &&& r == Ok::<bool, Error>(true)
                    &&& final(self)@ == (SessionState {
                        pending: old(self)@.pending.push(Seq::empty()),
                        ..old(self)@
                    })
                } else {
                    &&& r == Err::<bool, Error>(Error::ChannelClosed)
                    &&& final(self)@ == (SessionState {
                        entry: entry_after_failed_steal(old(self)@.entry, opt_path(prev), next@),
                        ..old(self)@
                    })
                },
            },
    {
        match change {
            EntryChange::Unchanged => Ok(false),
            EntryChange::Switched { prev, next } => {
                if stolen {
                    self.add_memory_changes(ChangeSet::empty());
                    Ok(true)
                } else {
                    let still_next = match &self.entry {
                        Some(e) => *e == next,
                        None => false,
                    };
                    if still_next {
                        self.entry = prev;
                    }
                    Err(Error::ChannelClosed)
                }
            },
        }
    }
}

/// Entry atomicity: a switch to `p` whose steal fails leaves the entry as
/// it was before the call, or, when a switch to another path `other` has
/// completed meanwhile, at `other`.
pub proof fn lemma_entry_atomicity(e0: Option<Seq<char>>, p: Seq<char>, other: Option<Seq<char>>)
    requires
        is_absolute(p),
        e0 != Some(p),
        other matches Some(q) ==> is_absolute(q) && q != p,
    ensures
        ({
            let e1 = entry_after_begin(e0, p);
            let e2 = match other {
                Some(q) => entry_after_begin(e1, q),
                None => e1,
            };
            entry_after_failed_steal(e2, e0, p) == match other {
                Some(q) => Some(q),
                None => e0,
            }
        }),
{
}

} // verus!
