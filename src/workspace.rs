//! The session registry: the overlay, the always-present primary session,
//! the pinned "main" session and the task sessions, together with the
//! focus and pinning state that decides which entry each session compiles
//! and which session answers a query.
use vstd::prelude::*;

use crate::error::Error;
use crate::overlay::{
    drop_file, put_file, tick, file_content, ChangeSet, FileChangeView, Overlay, OverlayState,
};
use crate::path::{detached_entry, detached_entry_path, is_absolute};
use crate::session::{
    entry_after_begin, entry_after_failed_steal, opt_path, CompileNode, EntryChange,
    SessionState,
};
use crate::text::{apply_changes, changes_view, ContentChange, PositionEncoding};

verus! {

/// Which of the registry's sessions an operation is for.
#[derive(Clone, Copy, Debug, PartialEq, Eq, Structural)]
pub enum SessionId {
    Primary,
    Main,
}

/// A request to move a session's entry: to `Some(path)`, or, with `None`,
/// to disable the session.
#[derive(Debug)]
pub struct EntryRequest {
    pub session: SessionId,
    pub entry: Option<String>,
}

/// The editor activity that may move the focus implicitly.
#[derive(Clone, Copy, Debug, PartialEq, Eq, Structural)]
pub enum Activity {
    /// A document was opened.
    Open,
    FoldingRange,
    Hover,
    SemanticTokens,
}

/// What a query needs, which decides where it is answered.
#[derive(Clone, Copy, Debug, PartialEq, Eq, Structural)]
pub enum QueryKind {
    /// Reads the overlay's text only (folding, selection ranges, symbols,
    /// semantic tokens).
    SourceOnly,
    /// Needs the compiled document and the world (hover, completion,
    /// definition, rename).
    State,
    /// Needs the world only (inlay hints, code lens, references).
    World,
    /// Export or cache commands, which bypass the query path.
    Command,
}

/// Where a query is answered.
#[derive(Debug)]
pub enum QueryRoute {
    /// From the overlay's text, without a steal.
    Overlay,
    /// By a steal into `session`, after the entry request `refocus`, if
    /// any, has been carried out.
    Session { session: SessionId, refocus: Option<EntryRequest> },
    /// By the command entry points.
    Command,
}

/// What pinning decided.
#[derive(Debug)]
pub struct PinPlan {
    /// The main session was created, with the pinned path as its entry.
    pub created_main: bool,
    /// Entry requests to carry out, in order.
    pub requests: Vec<EntryRequest>,
}

/// The registry as a value.
pub struct ClusterState {
    pub overlay: OverlayState,
    pub primary: SessionState,
    pub main: Option<SessionState>,
    pub tasks: Seq<SessionState>,
    pub pinning: bool,
    pub focusing: Option<Seq<char>>,
    pub ever_focusing_by_activities: bool,
    pub ever_manual_focusing: bool,
    pub default_entry: Option<Seq<char>>,
    /// The workspace root.
    pub root: Seq<char>,
}

/// A session after `cs` is queued for it.
pub open spec fn with_pending(s: SessionState, cs: Seq<FileChangeView>) -> SessionState {
    SessionState { pending: s.pending.push(cs), ..s }
}

/// The registry after `cs` is handed to every session.
pub open spec fn broadcast(w: ClusterState, cs: Seq<FileChangeView>) -> ClusterState {
    ClusterState {
        primary: with_pending(w.primary, cs),
        main: match w.main {
            Some(m) => Some(with_pending(m, cs)),
            None => None,
        },
        tasks: w.tasks.map_values(|s: SessionState| with_pending(s, cs)),
        ..w
    }
}

pub open spec fn sessions_view(v: Seq<CompileNode>) -> Seq<SessionState> {
    v.map_values(|s: CompileNode| s@)
}

/// An entry request as a value.
pub open spec fn request_view(r: EntryRequest) -> (SessionId, Option<Seq<char>>) {
    (r.session, opt_path(r.entry))
}

/// Edit ordering: two change-sets handed out one after the other reach
/// every session in that order, after what it had queued before.
pub proof fn lemma_edit_order(
    w: ClusterState,
    cs1: Seq<FileChangeView>,
    cs2: Seq<FileChangeView>,
)
    ensures
        broadcast(broadcast(w, cs1), cs2).primary.pending == w.primary.pending + seq![cs1, cs2],
        w.main matches Some(m) ==> broadcast(broadcast(w, cs1), cs2).main matches Some(m2)
            && m2.pending == m.pending + seq![cs1, cs2],
        forall|i: int|
            0 <= i < w.tasks.len() ==> (#[trigger] broadcast(broadcast(w, cs1), cs2).tasks[i]).pending
                == w.tasks[i].pending + seq![cs1, cs2],
{
    assert(w.primary.pending.push(cs1).push(cs2) =~= w.primary.pending + seq![cs1, cs2]);
    if let Some(m) = w.main {
        assert(m.pending.push(cs1).push(cs2) =~= m.pending + seq![cs1, cs2]);
    }
    assert forall|i: int| 0 <= i < w.tasks.len() implies (#[trigger] broadcast(
        broadcast(w, cs1),
        cs2,
    ).tasks[i]).pending == w.tasks[i].pending + seq![cs1, cs2] by {
        assert(w.tasks[i].pending.push(cs1).push(cs2) =~= w.tasks[i].pending + seq![cs1, cs2]);
    }
}

/// The registry of sessions.
pub struct CompileCluster {
    overlay: Overlay,
    primary: CompileNode,
    main: Option<CompileNode>,
    tasks: Vec<CompileNode>,
    pinning: bool,
    focusing: Option<String>,
    ever_focusing_by_activities: bool,
    ever_manual_focusing: bool,
    default_entry: Option<String>,
    root: String,
}

impl View for CompileCluster {
    type V = ClusterState;

    closed spec fn view(&self) -> ClusterState {
        ClusterState {
            overlay: self.overlay@,
            primary: self.primary@,
            main: match self.main {
                Some(m) => Some(m@),
                None => None,
            },
            tasks: sessions_view(self.tasks@),
            pinning: self.pinning,
            focusing: opt_path(self.focusing),
            ever_focusing_by_activities: self.ever_focusing_by_activities,
            ever_manual_focusing: self.ever_manual_focusing,
            default_entry: opt_path(self.default_entry),
            root: self.root@,
        }
    }
}

fn copy_path(p: &Option<String>) -> (r: Option<String>)
    ensures
        opt_path(r) == opt_path(*p),
{
    match p {
        Some(s) => Some(s.clone()),
        None => None,
    }
}

/// Queues a copy of `cs` for each of `tasks`.
fn broadcast_tasks(tasks: &mut Vec<CompileNode>, cs: &ChangeSet)
    ensures
        sessions_view(final(tasks)@) == sessions_view(old(tasks)@).map_values(
            |s: SessionState| with_pending(s, cs@),
        ),
{
    let ghost t0 = sessions_view(tasks@);
    let mut i: usize = 0;
    while i < tasks.len()
        invariant
            i <= tasks.len(),
            tasks.len() == t0.len(),
            forall|j: int|
                0 <= j < i ==> #[trigger] sessions_view(tasks@)[j] == with_pending(t0[j], cs@),
            forall|j: int| i <= j < tasks.len() ==> #[trigger] sessions_view(tasks@)[j] == t0[j],
        decreases tasks.len() - i,
    {
        let ghost before = tasks@;
        let mut s = tasks.remove(i);
        assert(sessions_view(before)[i as int] == t0[i as int]);
        assert(s@ == t0[i as int]);
        s.add_memory_changes(cs.copy());
        tasks.insert(i, s);
        assert(tasks@ =~= before.update(i as int, s));
        assert(sessions_view(tasks@) =~= sessions_view(before).update(
            i as int,
            with_pending(t0[i as int], cs@),
        ));
        i = i + 1;
    }
    assert(sessions_view(tasks@) =~= t0.map_values(|s: SessionState| with_pending(s, cs@)));
}

impl CompileCluster {
    /// The registry's invariant: the overlay's.
    pub open spec fn wf(&self) -> bool {
        crate::overlay::paths_unique(self@.overlay.files)
    }

    /// A registry of the workspace `root` with an empty overlay and only
    /// the primary session, whose entry is `default_entry`, the workspace's
    /// configured entry, if any.
    pub fn new(root: String, default_entry: Option<String>) -> (r: CompileCluster)
        ensures
            r.wf(),
            r@.root == root@,
            r@.overlay.files.len() == 0,
            r@.primary.group == crate::diagnostics::primary_group(),
            r@.primary.entry == opt_path(default_entry),
            r@.main is None,
            r@.tasks.len() == 0,
            !r@.pinning,
            r@.focusing is None,
            !r@.ever_focusing_by_activities,
            !r@.ever_manual_focusing,
            r@.default_entry == opt_path(default_entry),
    {
        let primary = CompileNode::new(
            crate::diagnostics::primary_group_name(),
            copy_path(&default_entry),
            ChangeSet::empty(),
        );
        let r = CompileCluster {
            overlay: Overlay::new(),
            primary,
            main: None,
            tasks: Vec::new(),
            pinning: false,
            focusing: None,
            ever_focusing_by_activities: false,
            ever_manual_focusing: false,
            default_entry,
            root,
        };
        assert(r@.tasks =~= Seq::<SessionState>::empty());
        r
    }

    pub fn overlay(&self) -> (r: &Overlay)
        ensures
            r@ == self@.overlay,
            self.wf() ==> r.wf(),
    {
        &self.overlay
    }

    pub fn primary(&self) -> (r: &CompileNode)
        ensures
            r@ == self@.primary,
    {
        &self.primary
    }

    pub fn main(&self) -> (r: &Option<CompileNode>)
        ensures
            match *r {
                Some(m) => self@.main == Some(m@),
                None => self@.main is None,
            },
    {
        &self.main
    }

    /// Hands `cs` to every session, the primary one first.
    fn update_source(&mut self, cs: ChangeSet)
        ensures
            final(self)@ == broadcast(old(self)@, cs@),
            final(self).overlay == old(self).overlay,
    {
        let ghost w0 = self@;
        self.primary.add_memory_changes(cs.copy());
        match &mut self.main {
            Some(m) => {
                m.add_memory_changes(cs.copy());
            },
            None => {},
        }
        broadcast_tasks(&mut self.tasks, &cs);
    }
}


/// The name of the pinned session's group.
pub open spec fn main_group() -> Seq<char> {
    "main"@
}

/// The session that `id` names, if it exists.
pub open spec fn session_of(w: ClusterState, id: SessionId) -> Option<SessionState> {
    match id {
        SessionId::Primary => Some(w.primary),
        SessionId::Main => w.main,
    }
}

/// The registry with the session that `id` names replaced by `s`.
pub open spec fn with_session(w: ClusterState, id: SessionId, s: SessionState) -> ClusterState {
    match id {
        SessionId::Primary => ClusterState { primary: s, ..w },
        SessionId::Main => ClusterState { main: Some(s), ..w },
    }
}

/// The registry with its overlay replaced by `o`.
pub open spec fn with_overlay(w: ClusterState, o: OverlayState) -> ClusterState {
    ClusterState { overlay: o, ..w }
}

/// The entry that the primary session falls back to when unpinned: the
/// workspace's configured entry, else the last focused file.
pub open spec fn fallback_entry(w: ClusterState) -> Option<Seq<char>> {
    match w.default_entry {
        Some(e) => Some(e),
        None => w.focusing,
    }
}

/// Whether focus changes are held back from the primary session: while a
/// file is pinned, or when the workspace has a configured entry.
pub open spec fn focus_held(w: ClusterState) -> bool {
    w.pinning || w.default_entry is Some
}

pub open spec fn requests_view(v: Seq<EntryRequest>) -> Seq<(SessionId, Option<Seq<char>>)> {
    v.map_values(|r: EntryRequest| request_view(r))
}

/// The requests of an unpin: disable the main session if it exists, then,
/// when a file was pinned, move the primary session to its fallback.
pub open spec fn unpin_requests(w: ClusterState) -> Seq<(SessionId, Option<Seq<char>>)> {
    (if w.main is Some {
        seq![(SessionId::Main, None::<Seq<char>>)]
    } else {
        Seq::empty()
    }) + (if w.pinning && fallback_entry(w) is Some {
        seq![(SessionId::Primary, fallback_entry(w))]
    } else {
        Seq::empty()
    })
}

impl CompileCluster {
    /// Document opened: the overlay takes `text` for `path`, and every
    /// session is handed the insert record.
    pub fn create_source(&mut self, path: String, text: Vec<char>)
        requires
            old(self).wf(),
        ensures
            final(self).wf(),
            final(self)@.overlay.clock == tick(old(self)@.overlay.clock),
            final(self)@ == broadcast(
                with_overlay(
                    old(self)@,
                    OverlayState {
                        files: put_file(
                            old(self)@.overlay.files,
                            path@,
                            final(self)@.overlay.clock,
                            text@,
                        ),
                        clock: final(self)@.overlay.clock,
                    },
                ),
                seq![(path@, final(self)@.overlay.clock, Some(text@))],
            ),
    {
        let cs = self.overlay.open(path, text);
        self.update_source(cs);
    }

    /// Document closed: the overlay forgets `path`, and every session is
    /// handed the removal record.
    pub fn remove_source(&mut self, path: String)
        requires
            old(self).wf(),
        ensures
            final(self).wf(),
            final(self)@.overlay.clock == tick(old(self)@.overlay.clock),
            final(self)@ == broadcast(
                with_overlay(
                    old(self)@,
                    OverlayState {
                        files: drop_file(old(self)@.overlay.files, path@),
                        clock: final(self)@.overlay.clock,
                    },
                ),
                seq![(path@, final(self)@.overlay.clock, None::<Seq<char>>)],
            ),
    {
        let cs = self.overlay.close(path);
        self.update_source(cs);
    }

    /// Document changed: the overlay applies `changes` to the text of
    /// `path`, and every session is handed one update record with the final
    /// text. `FileMissing` when the overlay does not hold `path`,
    /// `InvalidRange` when a change does not apply; nothing changes then.
    pub fn edit_source(&mut self, path: &String, changes: &Vec<ContentChange>, enc: PositionEncoding) -> (r:
        Result<(), Error>)
        requires
            old(self).wf(),
        ensures
            final(self).wf(),
            match file_content(old(self)@.overlay.files, path@) {
                None => r == Err::<(), Error>(Error::FileMissing) && final(self)@ == old(self)@,
                Some(before) => match apply_changes(before, changes_view(changes@), enc) {
                    None => r == Err::<(), Error>(Error::InvalidRange) && final(self)@ == old(
                        self,
                    )@,
                    Some(after) => {
                        &&& r == Ok::<(), Error>(())
                        &&& final(self)@.overlay.clock == tick(old(self)@.overlay.clock)
                        &&& final(self)@ == broadcast(
                            with_overlay(
                                old(self)@,
                                OverlayState {
                                    files: put_file(
                                        old(self)@.overlay.files,
                                        path@,
                                        final(self)@.overlay.clock,
                                        after,
                                    ),
                                    clock: final(self)@.overlay.clock,
                                },
                            ),
                            seq![(path@, final(self)@.overlay.clock, Some(after))],
                        )
                    },
                },
            },
    {
        let cs = self.overlay.edit(path, changes, enc)?;
        self.update_source(cs);
        Ok(())
    }

    /// Hands over the change-sets queued for session `id`, oldest first;
    /// none when it does not exist.
    pub fn take_memory_changes(&mut self, id: SessionId) -> (r: Vec<ChangeSet>)
        requires
            old(self).wf(),
        ensures
            final(self).wf(),
            match session_of(old(self)@, id) {
                Some(s) => crate::session::change_sets_view(r@) == s.pending && final(self)@
                    == with_session(old(self)@, id, SessionState { pending: Seq::empty(), ..s }),
                None => r@.len() == 0 && final(self)@ == old(self)@,
            },
    {
        match id {
            SessionId::Primary => self.primary.take_memory_changes(),
            SessionId::Main => match &mut self.main {
                Some(m) => m.take_memory_changes(),
                None => Vec::new(),
            },
        }
    }

    /// Hands over the change-sets queued for the first task session of
    /// group `group`, oldest first; none when there is no such session.
    pub fn take_task_memory_changes(&mut self, group: &String) -> (r: Vec<ChangeSet>)
        requires
            old(self).wf(),
        ensures
            final(self).wf(),
            (forall|i: int| 0 <= i < old(self)@.tasks.len() ==> old(self)@.tasks[i].group != group@)
                ==> r@.len() == 0 && final(self)@ == old(self)@,
            forall|i: int|
                0 <= i < old(self)@.tasks.len() && old(self)@.tasks[i].group == group@ && (forall|
                    j: int,
                | 0 <= j < i ==> old(self)@.tasks[j].group != group@) ==> crate::session::change_sets_view(r@)
                    == old(self)@.tasks[i].pending && final(self)@ == (ClusterState {
                    tasks: old(self)@.tasks.update(
                        i,
                        SessionState { pending: Seq::empty(), ..old(self)@.tasks[i] },
                    ),
                    ..old(self)@
                }),
    {
        let ghost w0 = self@;
        let mut i: usize = 0;
        while i < self.tasks.len()
            invariant
                i <= self.tasks.len(),
                self@ == w0,
                w0 == old(self)@,
                self.wf(),
                forall|j: int| 0 <= j < i ==> w0.tasks[j].group != group@,
            decreases self.tasks.len() - i,
        {
            assert(w0.tasks[i as int] == self.tasks@[i as int]@);
            if *self.tasks[i].group() == *group {
                let ghost before = self.tasks@;
                let mut t = self.tasks.remove(i);
                let r = t.take_memory_changes();
                let ghost tv = t@;
                self.tasks.insert(i, t);
                assert(self.tasks@ =~= before.update(i as int, t));
                assert(sessions_view(self.tasks@) =~= w0.tasks.update(i as int, tv));
                assert forall|k: int|
                    0 <= k < w0.tasks.len() && w0.tasks[k].group == group@ && (forall|j: int|
                        0 <= j < k ==> w0.tasks[j].group != group@) implies k == i by {
                    if k < i {
                    } else if k > i {
                        assert(w0.tasks[i as int].group == group@);
                    }
                }
                return r;
            }
            i += 1;
        }
        Vec::new()
    }

    /// First half of switching session `id` to `path` (see
    /// `CompileNode::begin_change_entry`); `ChannelClosed` when the
    /// session does not exist.
    pub fn begin_change_entry(&mut self, id: SessionId, path: String) -> (r: Result<
        EntryChange,
        Error,
    >)
        requires
            old(self).wf(),
        ensures
            final(self).wf(),
            match session_of(old(self)@, id) {
                None => r == Err::<EntryChange, Error>(Error::ChannelClosed) && final(self)@ == old(
                    self,
                )@,
                Some(s) => {
                    &&& final(self)@ == with_session(
                        old(self)@,
                        id,
                        SessionState { entry: entry_after_begin(s.entry, path@), ..s },
                    )
                    &&& (!is_absolute(path@) ==> r == Err::<EntryChange, Error>(
                        Error::InvalidEntry,
                    ))
                    &&& (is_absolute(path@) && s.entry == Some(path@) ==> r matches Ok(
                        EntryChange::Unchanged,
                    ))
                    &&& (is_absolute(path@) && s.entry != Some(path@) ==> (r matches Ok(
                        EntryChange::Switched { prev, next },
                    ) && opt_path(prev) == s.entry && next@ == path@))
                },
            },
    {
        match id {
            SessionId::Primary => self.primary.begin_change_entry(path),
            SessionId::Main => match &mut self.main {
                Some(m) => m.begin_change_entry(path),
                None => Err(Error::ChannelClosed),
            },
        }
    }

    /// Second half of switching session `id` (see
    /// `CompileNode::finish_change_entry`); `ChannelClosed` when the
    /// session no longer exists.
    pub fn finish_change_entry(&mut self, id: SessionId, change: EntryChange, stolen: bool) -> (r:
        Result<bool, Error>)
        requires
            old(self).wf(),
        ensures
            final(self).wf(),
            match session_of(old(self)@, id) {
                None => r == Err::<bool, Error>(Error::ChannelClosed) && final(self)@ == old(
                    self,
                )@,
                Some(s) => match change {
                    EntryChange::Unchanged => r == Ok::<bool, Error>(false) && final(self)@
                        == old(self)@,
                    EntryChange::Switched { prev, next } => if stolen {
                        &&& r == Ok::<bool, Error>(true)
                        &&& final(self)@ == with_session(
                            old(self)@,
                            id,
                            SessionState { pending: s.pending.push(Seq::empty()), ..s },
                        )
                    } else {
                        &&& r == Err::<bool, Error>(Error::ChannelClosed)
                        &&& final(self)@ == with_session(
                            old(self)@,
                            id,
                            SessionState {
                                entry: entry_after_failed_steal(s.entry, opt_path(prev), next@),
                                ..s
                            },
                        )
                    },
                },
            },
    {
        match id {
            SessionId::Primary => self.primary.finish_change_entry(change, stolen),
            SessionId::Main => match &mut self.main {
                Some(m) => m.finish_change_entry(change, stolen),
                None => Err(Error::ChannelClosed),
            },
        }
    }

    /// Disables session `id`: its entry becomes the empty virtual document
    /// under the workspace root, and it is handed a record, stamped with a
    /// fresh time, that gives that document empty contents. `ChannelClosed`
    /// when the session does not exist.
    pub fn disable(&mut self, id: SessionId) -> (r: Result<(), Error>)
        requires
            old(self).wf(),
        ensures
            final(self).wf(),
            match session_of(old(self)@, id) {
                None => r == Err::<(), Error>(Error::ChannelClosed) && final(self)@ == old(self)@,
                Some(s) => {
                    let t = tick(old(self)@.overlay.clock);
                    let sentinel = detached_entry(old(self)@.root);
                    &&& r == Ok::<(), Error>(())
                    &&& final(self)@ == with_session(
                        with_overlay(old(self)@, OverlayState { clock: t, ..old(self)@.overlay }),
                        id,
                        SessionState {
                            entry: Some(sentinel),
                            pending: s.pending.push(
                                seq![(sentinel, t, Some(Seq::<char>::empty()))],
                            ),
                            ..s
                        },
                    )
                },
            },
    {
        if id == SessionId::Main && self.main.is_none() {
            return Err(Error::ChannelClosed);
        }
        let t = self.overlay.next_time();
        let sentinel = detached_entry_path(&self.root);
        match id {
            SessionId::Primary => self.primary.disable(sentinel, t),
            SessionId::Main => match &mut self.main {
                Some(m) => m.disable(sentinel, t),
                None => {},
            },
        }
        Ok(())
    }

    /// Pins `entry` (with `Some`) or unpins (with `None`). Pinning creates
    /// the main session on the pinned path, or re-targets the existing one.
    /// Unpinning disables the main session, without destroying it, and, if
    /// a file was pinned, moves the primary session back to the configured
    /// entry or the last focused file. A pinned path that is not absolute is
    /// rejected with `InvalidEntry`, changing nothing.
    pub fn pin_main(&mut self, entry: Option<String>) -> (r: Result<PinPlan, Error>)
        requires
            old(self).wf(),
        ensures
            final(self).wf(),
            match entry {
                Some(p) => if !is_absolute(p@) {
                    r == Err::<PinPlan, Error>(Error::InvalidEntry) && final(self)@ == old(self)@
                } else {
                    r matches Ok(plan) && match old(self)@.main {
                        Some(_) => {
                            &&& !plan.created_main
                            &&& requests_view(plan.requests@) == seq![
                                (SessionId::Main, Some(p@)),
                            ]
                            &&& final(self)@ == (ClusterState { pinning: true, ..old(self)@ })
                        },
                        None => {
                            &&& plan.created_main
                            &&& plan.requests@.len() == 0
                            &&& final(self)@.main matches Some(m) && m.group == main_group()
                                && m.entry == Some(p@) && m.pending == seq![
                                old(self)@.overlay.files.map_values(
                                    |f: crate::overlay::MemoryFileView| (f.0, f.1, Some(f.2)),
                                ),
                            ]
                            &&& final(self)@ == (ClusterState {
                                pinning: true,
                                main: final(self)@.main,
                                ..old(self)@
                            })
                        },
                    }
                },
                None => r matches Ok(plan) && !plan.created_main && requests_view(
                    plan.requests@,
                ) == unpin_requests(old(self)@) && final(self)@ == (ClusterState {
                    pinning: false,
                    ..old(self)@
                }),
            },
    {
        match entry {
            Some(p) => {
                if !crate::path::is_absolute_path(&p) {
                    return Err(Error::InvalidEntry);
                }
                let ghost pv = p@;
                let mut requests: Vec<EntryRequest> = Vec::new();
                let created_main = self.main.is_none();
                if created_main {
                    let snapshot = self.overlay.snapshot();
                    self.main = Some(CompileNode::new("main".to_owned(), Some(p), snapshot));
                } else {
                    requests.push(EntryRequest { session: SessionId::Main, entry: Some(p) });
                    assert(requests_view(requests@) =~= seq![(SessionId::Main, Some(pv))]);
                }
                self.pinning = true;
                Ok(PinPlan { created_main, requests })
            },
            None => {
                let ghost w0 = self@;
                let mut requests: Vec<EntryRequest> = Vec::new();
                if self.main.is_some() {
                    requests.push(EntryRequest { session: SessionId::Main, entry: None });
                }
                let ghost first = requests_view(requests@);
                if self.pinning {
                    let fallback = match &self.default_entry {
                        Some(e) => Some(e.clone()),
                        None => copy_path(&self.focusing),
                    };
                    if fallback.is_some() {
                        requests.push(EntryRequest { session: SessionId::Primary, entry: fallback });
                        assert(requests_view(requests@) =~= first.push(
                            (SessionId::Primary, fallback_entry(w0)),
                        ));
                    }
                }
                assert(requests_view(requests@) =~= unpin_requests(w0));
                self.pinning = false;
                Ok(PinPlan { created_main: false, requests })
            },
        }
    }

    /// Focus moves to `entry`. While focus is held back (see `focus_held`)
    /// the file is only remembered as the last focused one; otherwise the
    /// primary session is asked to follow.
    pub fn focus_entry(&mut self, entry: Option<String>) -> (r: Option<EntryRequest>)
        ensures
            focus_held(old(self)@) ==> (r is None) && final(self)@ == (ClusterState {
                focusing: opt_path(entry),
                ..old(self)@
            }),
            !focus_held(old(self)@) ==> (r matches Some(q) && request_view(q) == (
                SessionId::Primary,
                opt_path(entry),
            )) && final(self)@ == old(self)@,
    {
        if self.pinning || self.default_entry.is_some() {
            self.focusing = entry;
            return None;
        }
        Some(EntryRequest { session: SessionId::Primary, entry })
    }

    /// An explicit focus request from the client. From then on editor
    /// activity no longer moves the focus.
    pub fn focus_document(&mut self, entry: Option<String>) -> (r: Option<EntryRequest>)
        ensures
            final(self)@.ever_manual_focusing,
            focus_held(old(self)@) ==> (r is None) && final(self)@ == (ClusterState {
                focusing: opt_path(entry),
                ever_manual_focusing: true,
                ..old(self)@
            }),
            !focus_held(old(self)@) ==> (r matches Some(q) && request_view(q) == (
                SessionId::Primary,
                opt_path(entry),
            )) && final(self)@ == (ClusterState { ever_manual_focusing: true, ..old(self)@ }),
    {
        self.ever_manual_focusing = true;
        self.focus_entry(entry)
    }

    /// Focus implied by editor activity on `entry`. It is ignored once the
    /// client has focused explicitly, and an opened document is ignored
    /// once folding, hover or semantic-token activity has moved the focus.
    pub fn implicit_focus_entry(&mut self, entry: Option<String>, activity: Activity) -> (r: Option<
        EntryRequest,
    >)
        ensures
            ({
                let w0 = old(self)@;
                let w1 = if activity == Activity::Open {
                    w0
                } else {
                    ClusterState { ever_focusing_by_activities: true, ..w0 }
                };
                if w0.ever_manual_focusing || (activity == Activity::Open
                    && w0.ever_focusing_by_activities) {
                    (r is None) && final(self)@ == w0
                } else if focus_held(w1) {
                    (r is None) && final(self)@ == (ClusterState {
                        focusing: opt_path(entry),
                        ..w1
                    })
                } else {
                    (r matches Some(q) && request_view(q) == (SessionId::Primary, opt_path(entry)))
                        && final(self)@ == w1
                }
            }),
    {
        if self.ever_manual_focusing {
            return None;
        }
        match activity {
            Activity::Open => {
                if self.ever_focusing_by_activities {
                    return None;
                }
            },
            _ => {
                self.ever_focusing_by_activities = true;
            },
        }
        self.focus_entry(entry)
    }

    /// The entry request that makes the primary session follow `path`
    /// before a query on it: none while a file is pinned or when the
    /// workspace has a configured entry.
    pub fn update_entry(&self, path: &String) -> (r: Option<EntryRequest>)
        ensures
            focus_held(self@) ==> r is None,
            !focus_held(self@) ==> (r matches Some(q) && request_view(q) == (
                SessionId::Primary,
                Some(path@),
            )),
    {
        if self.pinning || self.default_entry.is_some() {
            None
        } else {
            Some(EntryRequest { session: SessionId::Primary, entry: Some(path.clone()) })
        }
    }

    /// The entry request that activates `entry` in the primary session, or,
    /// with `None`, disables it.
    pub fn activate_doc(&self, entry: Option<String>) -> (r: EntryRequest)
        ensures
            request_view(r) == (SessionId::Primary, opt_path(entry)),
    {
        EntryRequest { session: SessionId::Primary, entry }
    }

    /// Where a query of kind `kind` on `path` is answered. Source-only
    /// queries read the overlay and commands bypass the query path. The
    /// others go to the main session whenever it exists (also once it is
    /// disabled by an unpin), else to the primary session, which first
    /// follows `path`: its entry must match the queried file.
    pub fn query(&self, kind: QueryKind, path: &String) -> (r: QueryRoute)
        ensures
            kind == QueryKind::SourceOnly ==> r is Overlay,
            kind == QueryKind::Command ==> r is Command,
            (kind == QueryKind::State || kind == QueryKind::World) ==> if self@.main is Some {
                r matches QueryRoute::Session { session, refocus } && session == SessionId::Main
                    && refocus is None
            } else {
                r matches QueryRoute::Session { session, refocus } && session
                    == SessionId::Primary && (refocus matches Some(q) && request_view(q) == (
                    SessionId::Primary,
                    Some(path@),
                ))
            },
    {
        match kind {
            QueryKind::SourceOnly => QueryRoute::Overlay,
            QueryKind::Command => QueryRoute::Command,
            _ => {
                if self.main.is_some() {
                    QueryRoute::Session { session: SessionId::Main, refocus: None }
                } else {
                    let refocus = EntryRequest { session: SessionId::Primary, entry: Some(path.clone()) };
                    QueryRoute::Session { session: SessionId::Primary, refocus: Some(refocus) }
                }
            },
        }
    }

    /// The text that a source-only query on `path` reads.
    pub fn source(&self, path: &String) -> (r: Result<&Vec<char>, Error>)
        requires
            self.wf(),
        ensures
            match r {
                Ok(c) => file_content(self@.overlay.files, path@) == Some(c@),
                Err(e) => e == Error::FileMissing && file_content(self@.overlay.files, path@) is None,
            },
    {
        self.overlay.content(path)
    }
}

/// The queries that the server answers.
#[derive(Clone, Copy, Debug, PartialEq, Eq, Structural)]
pub enum QueryMethod {
    SemanticTokensFull,
    SemanticTokensDelta,
    FoldingRange,
    SelectionRange,
    DocumentSymbol,
    Hover,
    Completion,
    GotoDefinition,
    PrepareRename,
    Rename,
    DocumentMetrics,
    GotoDeclaration,
    SignatureHelp,
    InlayHint,
    CodeLens,
    CodeAction,
    DocumentColor,
    References,
    Symbol,
    OnSaveExport,
}

/// What each query needs.
pub open spec fn method_kind(m: QueryMethod) -> QueryKind {
    match m {
        QueryMethod::SemanticTokensFull | QueryMethod::SemanticTokensDelta
        | QueryMethod::FoldingRange | QueryMethod::SelectionRange
        | QueryMethod::DocumentSymbol => QueryKind::SourceOnly,
        QueryMethod::Hover | QueryMethod::Completion | QueryMethod::GotoDefinition
        | QueryMethod::PrepareRename | QueryMethod::Rename
        | QueryMethod::DocumentMetrics => QueryKind::State,
        QueryMethod::OnSaveExport => QueryKind::Command,
        _ => QueryKind::World,
    }
}

impl QueryMethod {
    /// What this query needs: see `method_kind`.
    pub fn kind(self) -> (r: QueryKind)
        ensures
            r == method_kind(self),
    {
        match self {
            QueryMethod::SemanticTokensFull | QueryMethod::SemanticTokensDelta
            | QueryMethod::FoldingRange | QueryMethod::SelectionRange
            | QueryMethod::DocumentSymbol => QueryKind::SourceOnly,
            QueryMethod::Hover | QueryMethod::Completion | QueryMethod::GotoDefinition
            | QueryMethod::PrepareRename | QueryMethod::Rename
            | QueryMethod::DocumentMetrics => QueryKind::State,
            QueryMethod::OnSaveExport => QueryKind::Command,
            _ => QueryKind::World,
        }
    }
}

impl CompileCluster {
    /// Registers a task session of group `group` on `entry`, starting from
    /// the overlay's current contents; it is handed every later change-set.
    pub fn add_task(&mut self, group: String, entry: Option<String>)
        requires
            old(self).wf(),
        ensures
            final(self).wf(),
            final(self)@ == (ClusterState {
                tasks: old(self)@.tasks.push(
                    SessionState {
                        group: group@,
                        entry: opt_path(entry),
                        pending: seq![
                            old(self)@.overlay.files.map_values(
                                |f: crate::overlay::MemoryFileView| (f.0, f.1, Some(f.2)),
                            ),
                        ],
                    },
                ),
                ..old(self)@
            }),
    {
        let snapshot = self.overlay.snapshot();
        let session = CompileNode::new(group, entry, snapshot);
        let ghost before = self.tasks@;
        self.tasks.push(session);
        assert(sessions_view(self.tasks@) =~= sessions_view(before).push(session@));
    }

    /// Tears down the first task session of group `group`; `false` when
    /// there is none.
    pub fn remove_task(&mut self, group: &String) -> (r: bool)
        requires
            old(self).wf(),
        ensures
            final(self).wf(),
            r <==> exists|i: int| 0 <= i < old(self)@.tasks.len() && old(self)@.tasks[i].group == group@,
            !r ==> final(self)@ == old(self)@,
            r ==> exists|i: int|
                0 <= i < old(self)@.tasks.len() && old(self)@.tasks[i].group == group@ && (forall|
                    j: int,
                | 0 <= j < i ==> old(self)@.tasks[j].group != group@) && final(self)@ == (
                ClusterState { tasks: old(self)@.tasks.remove(i), ..old(self)@ }),
    {
        let ghost w0 = self@;
        let mut i: usize = 0;
        while i < self.tasks.len()
            invariant
                i <= self.tasks.len(),
                self@ == w0,
                w0 == old(self)@,
                self.wf(),
                forall|j: int| 0 <= j < i ==> w0.tasks[j].group != group@,
            decreases self.tasks.len() - i,
        {
            assert(w0.tasks[i as int] == self.tasks@[i as int]@);
            if *self.tasks[i].group() == *group {
                let ghost before = self.tasks@;
                assert(w0.tasks[i as int].group == group@);
                self.tasks.remove(i);
                assert(sessions_view(self.tasks@) =~= sessions_view(before).remove(i as int));
                assert(self@ == (ClusterState { tasks: w0.tasks.remove(i as int), ..w0 }));
                assert(w0 == old(self)@);
                assert(0 <= i < old(self)@.tasks.len() && old(self)@.tasks[i as int].group
                    == group@);
                return true;
            }
            i += 1;
        }
        false
    }
}
} // verus!
