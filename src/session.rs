use vstd::prelude::*;

use crate::error::InstallerError;
use crate::metadata::{linked_record, linked_record_of, metadata_file_name, metadata_name_of};
use crate::plan::{install_order, installs, is_dispatch_order};
use crate::record::{opt_str_view, InstalledRecord, InstalledView};
use crate::transaction::{strings_view, OpView, Transaction};

verus! {

/// Where an installation stands.
#[derive(Clone, Copy, Debug, PartialEq, Eq, Structural)]
pub enum Phase {
    /// Packages that leave or are replaced are being unlinked.
    Removing,
    /// Every removal is done; directories left empty are being removed.
    Cleaning,
    /// Fetched packages are being linked and their records written.
    Installing,
    /// Every package is in place; the post-link steps run.
    PostProcessing,
    /// The installation succeeded.
    Done,
    /// The installation failed.
    Failed,
}

/// What the surrounding runtime reports back to the session.
pub enum Event {
    /// The package of the operation at this position was unlinked.
    Unlinked(usize),
    /// The package of the operation at this position is in the cache, extracted
    /// into the given directory.
    Fetched(usize, String),
    /// The package of the operation at this position was linked; these are the
    /// paths that linking created, relative to the prefix.
    Linked(usize, Vec<String>),
    /// The metadata record of the operation at this position was written.
    RecordWritten(usize),
    /// Empty directories have been removed.
    CleanupDone,
    /// The post-link steps have run.
    PostProcessed,
    /// Some piece of work failed.
    Failed(InstallerError),
}

/// What the session asks the surrounding runtime to do.
pub enum Action {
    /// Unlink the record that the operation at this position removes, and
    /// delete its metadata record, which has this file name.
    Unlink(usize, String),
    /// Fetch the package that the operation at this position installs.
    Fetch(usize),
    /// Remove the directories that the removals left empty.
    RemoveEmptyDirectories,
    /// Link the package of the operation at this position from this directory.
    Link(usize, String),
    /// Write this record under this file name in the prefix's metadata directory.
    WriteRecord(usize, String, InstalledRecord),
    /// Run the post-link steps.
    PostProcess,
    /// Report success.
    Finish,
    /// Report this failure.
    Fail(InstallerError),
}

/// The mathematical value of an [`Action`].
pub enum ActionView {
    Unlink(usize, Seq<char>),
    Fetch(usize),
    RemoveEmptyDirectories,
    Link(usize, Seq<char>),
    WriteRecord(usize, Seq<char>, InstalledView),
    PostProcess,
    Finish,
    Fail(InstallerError),
}

impl View for Action {
    type V = ActionView;

    open spec fn view(&self) -> ActionView {
        match self {
            Action::Unlink(i, n) => ActionView::Unlink(*i, n@),
            Action::Fetch(i) => ActionView::Fetch(*i),
            Action::RemoveEmptyDirectories => ActionView::RemoveEmptyDirectories,
            Action::Link(i, d) => ActionView::Link(*i, d@),
            Action::WriteRecord(i, n, r) => ActionView::WriteRecord(*i, n@, r@),
            Action::PostProcess => ActionView::PostProcess,
            Action::Finish => ActionView::Finish,
            Action::Fail(e) => ActionView::Fail(*e),
        }
    }
}

pub open spec fn actions_view(a: Seq<Action>) -> Seq<ActionView> {
    a.map_values(|x: Action| x@)
}

/// Whether the operation at position `i` removes a record.
pub open spec fn removes(ops: Seq<OpView>, i: int) -> bool {
    0 <= i < ops.len() && ops[i].remove is Some
}

/// The positions of the removing operations, in order.
pub open spec fn removal_list(ops: Seq<OpView>) -> Seq<usize>
    decreases ops.len(),
{
    if ops.len() == 0 {
        Seq::empty()
    } else if ops.last().remove is Some {
        removal_list(ops.drop_last()).push((ops.len() - 1) as usize)
    } else {
        removal_list(ops.drop_last())
    }
}

pub open spec fn unlink_actions(ops: Seq<OpView>, list: Seq<usize>) -> Seq<ActionView> {
    list.map_values(|i: usize| ActionView::Unlink(i, metadata_name_of(ops[i as int].remove->0.record)))
}

pub open spec fn fetch_actions(list: Seq<usize>) -> Seq<ActionView> {
    list.map_values(|i: usize| ActionView::Fetch(i))
}

/// A `Link` for each operation of `order` whose package is already fetched,
/// in the order of `order`.
pub open spec fn link_actions(order: Seq<usize>, fetched: Seq<Option<Seq<char>>>) -> Seq<ActionView>
    decreases order.len(),
{
    if order.len() == 0 {
        Seq::empty()
    } else {
        let rest = link_actions(order.drop_last(), fetched);
        let i = order.last();
        match fetched[i as int] {
            Some(d) => rest.push(ActionView::Link(i, d)),
            None => rest,
        }
    }
}

/// The state of one installation, driven by events from the runtime that
/// performs the work.
pub struct InstallSession {
    /// The transaction being applied.
    pub transaction: Transaction,
    /// The installing operations in the order their packages are fetched.
    pub order: Vec<usize>,
    pub phase: Phase,
    /// Per operation: whether its record has been unlinked.
    pub unlinked: Vec<bool>,
    /// Per operation: the directory its package was extracted to, once fetched.
    pub fetched: Vec<Option<String>>,
    /// Per operation: whether its package has been linked.
    pub linked: Vec<bool>,
    /// Per operation: whether its metadata record has been written.
    pub written: Vec<bool>,
}

impl InstallSession {
    pub open spec fn ops(&self) -> Seq<OpView> {
        self.transaction@
    }

    pub open spec fn fetched_view(&self) -> Seq<Option<Seq<char>>> {
        self.fetched@.map_values(|d: Option<String>| opt_str_view(d))
    }

    /// Every removal has been unlinked.
    pub open spec fn removals_done(&self) -> bool {
        forall|i: int| removes(self.ops(), i) ==> self.unlinked@[i]
    }

    /// Every installed package has its metadata record written.
    pub open spec fn installs_done(&self) -> bool {
        forall|i: int| installs(self.ops(), i) ==> self.written@[i]
    }

    pub open spec fn wf(&self) -> bool {
        let n = self.ops().len();
        &&& self.unlinked@.len() == n
        &&& self.fetched@.len() == n
        &&& self.linked@.len() == n
        &&& self.written@.len() == n
        &&& is_dispatch_order(self.ops(), self.order@)
        &&& forall|i: int| 0 <= i < n && #[trigger] self.unlinked@[i] ==> removes(self.ops(), i)
        &&& forall|i: int| 0 <= i < n && (#[trigger] self.fetched@[i]) is Some ==> installs(self.ops(), i)
        &&& forall|i: int| 0 <= i < n && #[trigger] self.linked@[i] ==> self.fetched@[i] is Some
        &&& forall|i: int| 0 <= i < n && #[trigger] self.written@[i] ==> self.linked@[i]
        &&& (self.phase == Phase::Removing || self.phase == Phase::Cleaning) ==> forall|i: int|
            0 <= i < n ==> !#[trigger] self.linked@[i]
        &&& (self.phase == Phase::Cleaning || self.phase == Phase::Installing
            || self.phase == Phase::PostProcessing || self.phase == Phase::Done) ==> self.removals_done()
        &&& (self.phase == Phase::PostProcessing || self.phase == Phase::Done) ==> self.installs_done()
    }

    /// Everything but the phase is as in `pre`.
    pub open spec fn same_progress(&self, pre: &InstallSession) -> bool {
        &&& self.transaction@ == pre.transaction@
        &&& self.order@ == pre.order@
        &&& self.unlinked@ == pre.unlinked@
        &&& self.fetched_view() == pre.fetched_view()
        &&& self.linked@ == pre.linked@
        &&& self.written@ == pre.written@
    }
}


/// The transaction and the dispatch order are as in `pre`.
pub open spec fn same_plan(post: InstallSession, pre: InstallSession) -> bool {
    post.transaction@ == pre.transaction@ && post.order@ == pre.order@
}

/// Nothing changed.
pub open spec fn unchanged(post: InstallSession, pre: InstallSession) -> bool {
    post.phase == pre.phase && post.same_progress(&pre)
}

/// What one event does to a session, and which actions it asks for. Events
/// that do not fit the state of the session change nothing and ask for nothing.
pub open spec fn stepped(pre: InstallSession, e: Event, post: InstallSession, acts: Seq<ActionView>) -> bool {
    let ops = pre.ops();
    let n = ops.len();
    if pre.phase == Phase::Done || pre.phase == Phase::Failed {
        unchanged(post, pre) && acts.len() == 0
    } else {
        match e {
            Event::Failed(err) => {
                &&& post.phase == Phase::Failed
                &&& post.same_progress(&pre)
                &&& acts == seq![ActionView::Fail(err)]
            },
            Event::Unlinked(i) => if pre.phase == Phase::Removing && removes(ops, i as int)
                && !pre.unlinked@[i as int] {
                &&& same_plan(post, pre)
                &&& post.unlinked@ == pre.unlinked@.update(i as int, true)
                &&& post.fetched_view() == pre.fetched_view()
                &&& post.linked@ == pre.linked@
                &&& post.written@ == pre.written@
                &&& if post.removals_done() {
                    post.phase == Phase::Cleaning && acts == seq![ActionView::RemoveEmptyDirectories]
                } else {
                    post.phase == Phase::Removing && acts.len() == 0
                }
            } else {
                unchanged(post, pre) && acts.len() == 0
            },
            Event::Fetched(i, dir) => if (pre.phase == Phase::Removing || pre.phase == Phase::Cleaning
                || pre.phase == Phase::Installing) && installs(ops, i as int)
                && pre.fetched@[i as int] is None {
                &&& same_plan(post, pre)
                &&& post.phase == pre.phase
                &&& post.unlinked@ == pre.unlinked@
                &&& post.fetched_view() == pre.fetched_view().update(i as int, Some(dir@))
                &&& post.linked@ == pre.linked@
                &&& post.written@ == pre.written@
                &&& acts == if pre.phase == Phase::Installing {
                    seq![ActionView::Link(i, dir@)]
                } else {
                    Seq::empty()
                }
            } else {
                unchanged(post, pre) && acts.len() == 0
            },
            Event::CleanupDone => if pre.phase == Phase::Cleaning {
                &&& post.same_progress(&pre)
                &&& if pre.installs_done() {
                    post.phase == Phase::PostProcessing && acts == link_actions(pre.order@, pre.fetched_view()).push(ActionView::PostProcess)
                } else {
                    post.phase == Phase::Installing && acts == link_actions(pre.order@, pre.fetched_view())
                }
            } else {
                unchanged(post, pre) && acts.len() == 0
            },
            Event::Linked(i, paths) => if pre.phase == Phase::Installing && i < n
                && pre.fetched@[i as int] is Some && !pre.linked@[i as int] {
                &&& same_plan(post, pre)
                &&& post.phase == pre.phase
                &&& post.unlinked@ == pre.unlinked@
                &&& post.fetched_view() == pre.fetched_view()
                &&& post.linked@ == pre.linked@.update(i as int, true)
                &&& post.written@ == pre.written@
                &&& acts == seq![ActionView::WriteRecord(
                    i,
                    metadata_name_of(ops[i as int].install->0),
                    linked_record_of(ops[i as int].install->0, strings_view(paths@), pre.fetched_view()[i as int]->0),
                )]
            } else {
                unchanged(post, pre) && acts.len() == 0
            },
            Event::RecordWritten(i) => if pre.phase == Phase::Installing && i < n && pre.linked@[i as int]
                && !pre.written@[i as int] {
                &&& same_plan(post, pre)
                &&& post.unlinked@ == pre.unlinked@
                &&& post.fetched_view() == pre.fetched_view()
                &&& post.linked@ == pre.linked@
                &&& post.written@ == pre.written@.update(i as int, true)
                &&& if post.installs_done() {
                    post.phase == Phase::PostProcessing && acts == seq![ActionView::PostProcess]
                } else {
                    post.phase == Phase::Installing && acts.len() == 0
                }
            } else {
                unchanged(post, pre) && acts.len() == 0
            },
            Event::PostProcessed => if pre.phase == Phase::PostProcessing {
                &&& post.phase == Phase::Done
                &&& post.same_progress(&pre)
                &&& acts == seq![ActionView::Finish]
            } else {
                unchanged(post, pre) && acts.len() == 0
            },
        }
    }
}

proof fn lemma_removal_list(ops: Seq<OpView>)
    requires
        ops.len() <= usize::MAX,
    ensures
        removal_list(ops).len() == 0 ==> forall|i: int| !removes(ops, i),
        forall|k: int| 0 <= k < removal_list(ops).len() ==> removes(ops, #[trigger] removal_list(ops)[k] as int),
    decreases ops.len(),
{
    if ops.len() > 0 {
        let rest = ops.drop_last();
        lemma_removal_list(rest);
        assert forall|i: int| 0 <= i < rest.len() implies rest[i] == ops[i] by {}
        assert forall|i: int| removes(rest, i) implies removes(ops, i) by {
            assert(rest[i] == ops[i]);
        }
        if ops.last().remove is Some {
            let l = removal_list(rest).push((ops.len() - 1) as usize);
            assert forall|k: int| 0 <= k < l.len() implies removes(ops, #[trigger] l[k] as int) by {
                if k < l.len() - 1 {
                    assert(l[k] == removal_list(rest)[k]);
                }
            }
        } else {
            assert forall|i: int| !removes(rest, i) && 0 <= i < ops.len() - 1 implies !removes(ops, i) by {
                assert(rest[i] == ops[i]);
            }
        }
    }
}

proof fn lemma_removal_list_complete(ops: Seq<OpView>, i: int)
    requires
        ops.len() <= usize::MAX,
        removes(ops, i),
    ensures
        exists|k: int| 0 <= k < removal_list(ops).len() && removal_list(ops)[k] == i as usize,
    decreases ops.len(),
{
    let rest = ops.drop_last();
    if i == ops.len() - 1 {
        assert(ops.last() == ops[i]);
        let l = removal_list(ops);
        assert(l == removal_list(rest).push(i as usize));
        assert(l[l.len() - 1] == i as usize);
    } else {
        assert(rest[i] == ops[i]);
        lemma_removal_list_complete(rest, i);
        let k = choose|k: int| 0 <= k < removal_list(rest).len() && removal_list(rest)[k] == i as usize;
        if ops.last().remove is Some {
            assert(removal_list(ops) == removal_list(rest).push((ops.len() - 1) as usize));
            assert(removal_list(ops)[k] == removal_list(rest)[k]);
        } else {
            assert(removal_list(ops) == removal_list(rest));
        }
    }
}

/// Every operation that removes a record is dispatched for unlinking when the
/// installation starts, and its action names the metadata record of the
/// removed package, which is deleted with it.
pub proof fn law_every_removal_is_unlinked(ops: Seq<OpView>, i: int)
    requires
        ops.len() <= usize::MAX,
        removes(ops, i),
    ensures
        unlink_actions(ops, removal_list(ops)).contains(
            ActionView::Unlink(i as usize, metadata_name_of(ops[i].remove->0.record)),
        ),
{
    lemma_removal_list_complete(ops, i);
    let l = removal_list(ops);
    let k = choose|k: int| 0 <= k < l.len() && l[k] == i as usize;
    assert(unlink_actions(ops, l)[k] == ActionView::Unlink(i as usize, metadata_name_of(ops[i].remove->0.record)));
}

impl InstallSession {
    fn all_removals_done(&self) -> (r: bool)
        requires
            self.wf(),
        ensures
            r == self.removals_done(),
    {
        let n = self.transaction.operations.len();
        let mut i: usize = 0;
        while i < n
            invariant
                self.wf(),
                n == self.ops().len(),
                i <= n,
                forall|k: int| 0 <= k < i && removes(self.ops(), k) ==> self.unlinked@[k],
            decreases n - i,
        {
            assert(self.ops()[i as int] == self.transaction.operations@[i as int]@);
            if self.transaction.operations[i].remove.is_some() && !self.unlinked[i] {
                assert(removes(self.ops(), i as int));
                return false;
            }
            i = i + 1;
        }
        true
    }

    fn all_installs_done(&self) -> (r: bool)
        requires
            self.wf(),
        ensures
            r == self.installs_done(),
    {
        let n = self.transaction.operations.len();
        let mut i: usize = 0;
        while i < n
            invariant
                self.wf(),
                n == self.ops().len(),
                i <= n,
                forall|k: int| 0 <= k < i && installs(self.ops(), k) ==> self.written@[k],
            decreases n - i,
        {
            assert(self.ops()[i as int] == self.transaction.operations@[i as int]@);
            if self.transaction.operations[i].install.is_some() && !self.written[i] {
                assert(installs(self.ops(), i as int));
                return false;
            }
            i = i + 1;
        }
        true
    }

    fn pending_links(&self) -> (r: Vec<Action>)
        requires
            self.wf(),
        ensures
            actions_view(r@) == link_actions(self.order@, self.fetched_view()),
    {
        let ghost fv = self.fetched_view();
        let mut r: Vec<Action> = Vec::new();
        let mut k: usize = 0;
        while k < self.order.len()
            invariant
                self.wf(),
                fv == self.fetched_view(),
                k <= self.order@.len(),
                actions_view(r@) == link_actions(self.order@.take(k as int), fv),
            decreases self.order@.len() - k,
        {
            let i = self.order[k];
            assert(installs(self.ops(), self.order@[k as int] as int));
            assert(self.order@.take(k + 1).drop_last() =~= self.order@.take(k as int));
            assert(self.order@.take(k + 1).last() == i);
            match &self.fetched[i] {
                Some(dir) => {
                    let ghost before = actions_view(r@);
                    r.push(Action::Link(i, dir.clone()));
                    assert(actions_view(r@) =~= before.push(ActionView::Link(i, fv[i as int]->0)));
                },
                None => {},
            }
            k = k + 1;
        }
        assert(self.order@.take(self.order@.len() as int) =~= self.order@);
        r
    }
}

fn all_false(n: usize) -> (r: Vec<bool>)
    ensures
        r@.len() == n,
        forall|i: int| 0 <= i < n ==> !r@[i],
{
    let mut r: Vec<bool> = Vec::new();
    let mut j: usize = 0;
    while j < n
        invariant
            j <= n,
            r@.len() == j,
            forall|i: int| 0 <= i < j ==> !r@[i],
        decreases n - j,
    {
        r.push(false);
        j = j + 1;
    }
    r
}

fn all_none(n: usize) -> (r: Vec<Option<String>>)
    ensures
        r@.len() == n,
        forall|i: int| 0 <= i < n ==> r@[i] is None,
{
    let mut r: Vec<Option<String>> = Vec::new();
    let mut j: usize = 0;
    while j < n
        invariant
            j <= n,
            r@.len() == j,
            forall|i: int| 0 <= i < j ==> r@[i] is None,
        decreases n - j,
    {
        r.push(None);
        j = j + 1;
    }
    r
}

impl InstallSession {
    /// Begins applying a transaction. A transaction without operations is
    /// finished at once and asks for nothing else. Otherwise every removal is
    /// dispatched, in order, followed by the cleanup of empty directories when
    /// there is nothing to remove, and every fetch, in dispatch order.
    pub fn start(transaction: Transaction) -> (r: (InstallSession, Vec<Action>))
        ensures
            r.0.wf(),
            r.0.transaction@ == transaction@,
            forall|i: int| 0 <= i < transaction@.len() ==> !r.0.unlinked@[i] && r.0.fetched@[i] is None
                && !r.0.linked@[i] && !r.0.written@[i],
            transaction@.len() == 0 ==> r.0.phase == Phase::Done && actions_view(r.1@) == seq![ActionView::Finish],
            transaction@.len() > 0 ==> {
                let rl = removal_list(transaction@);
                &&& r.0.phase == (if rl.len() > 0 { Phase::Removing } else { Phase::Cleaning })
                &&& actions_view(r.1@) == unlink_actions(transaction@, rl) + (if rl.len() == 0 {
                    seq![ActionView::RemoveEmptyDirectories]
                } else {
                    Seq::<ActionView>::empty()
                }) + fetch_actions(r.0.order@)
            },
    {
        let ghost ops = transaction@;
        let n = transaction.operations.len();
        let order = install_order(&transaction);
        let mut acts: Vec<Action> = Vec::new();
        if n == 0 {
            let unlinked = all_false(n);
            let fetched = all_none(n);
            let linked = all_false(n);
            let written = all_false(n);
            acts.push(Action::Finish);
            let s = InstallSession { transaction, order, phase: Phase::Done, unlinked, fetched, linked, written };
            assert(actions_view(acts@) =~= seq![ActionView::Finish]);
            return (s, acts);
        }
        let mut i: usize = 0;
        while i < n
            invariant
                ops == transaction@,
                n == ops.len(),
                i <= n,
                actions_view(acts@) == unlink_actions(ops, removal_list(ops.take(i as int))),
            decreases n - i,
        {
            assert(ops.take(i + 1).drop_last() =~= ops.take(i as int));
            assert(ops.take(i + 1).last() == ops[i as int]);
            assert(ops[i as int] == transaction.operations@[i as int]@);
            let ghost before = actions_view(acts@);
            match &transaction.operations[i].remove {
                Some(rec) => {
                    let name = metadata_file_name(&rec.record);
                    let ghost u = ActionView::Unlink(i, metadata_name_of(ops[i as int].remove->0.record));
                    acts.push(Action::Unlink(i, name));
                    assert(ops.take(i + 1).len() == i + 1);
                    assert(removal_list(ops.take(i + 1)) == removal_list(ops.take(i as int)).push(i));
                    assert(actions_view(acts@) =~= before.push(u));
                    assert(unlink_actions(ops, removal_list(ops.take(i as int)).push(i)) =~= before.push(u));
                },
                None => {
                    assert(actions_view(acts@) =~= unlink_actions(ops, removal_list(ops.take(i + 1))));
                },
            }
            i = i + 1;
        }
        assert(ops.take(n as int) =~= ops);
        let ghost rl = removal_list(ops);
        proof {
            lemma_removal_list(ops);
        }
        assert(actions_view(acts@).len() == acts@.len());
        let has_removals = acts.len() > 0;
        if !has_removals {
            acts.push(Action::RemoveEmptyDirectories);
        }
        let ghost head = actions_view(acts@);
        assert(head =~= unlink_actions(ops, rl) + (if rl.len() == 0 {
            seq![ActionView::RemoveEmptyDirectories]
        } else {
            Seq::<ActionView>::empty()
        }));
        let mut k: usize = 0;
        while k < order.len()
            invariant
                ops == transaction@,
                n == ops.len(),
                is_dispatch_order(ops, order@),
                k <= order@.len(),
                actions_view(acts@) == head + fetch_actions(order@.take(k as int)),
            decreases order@.len() - k,
        {
            let ghost before = actions_view(acts@);
            acts.push(Action::Fetch(order[k]));
            assert(order@.take(k + 1) =~= order@.take(k as int).push(order@[k as int]));
            assert(fetch_actions(order@.take(k + 1)) =~= fetch_actions(order@.take(k as int)).push(ActionView::Fetch(order@[k as int])));
            assert(actions_view(acts@) =~= before.push(ActionView::Fetch(order@[k as int])));
            assert(actions_view(acts@) =~= head + fetch_actions(order@.take(k + 1)));
            k = k + 1;
        }
        assert(order@.take(order@.len() as int) =~= order@);
        let phase = if has_removals { Phase::Removing } else { Phase::Cleaning };
        let unlinked = all_false(n);
        let fetched = all_none(n);
        let linked = all_false(n);
        let written = all_false(n);
        let s = InstallSession { transaction, order, phase, unlinked, fetched, linked, written };
        assert(s.ops() == ops);
        assert(has_removals == (rl.len() > 0));
        (s, acts)
    }

    /// Takes in one event and returns the actions that it calls for.
    pub fn step(&mut self, e: Event) -> (acts: Vec<Action>)
        requires
            old(self).wf(),
        ensures
            final(self).wf(),
            stepped(*old(self), e, *final(self), actions_view(acts@)),
    {
        let mut acts: Vec<Action> = Vec::new();
        if self.phase == Phase::Done || self.phase == Phase::Failed {
            return acts;
        }
        let ghost pre = *self;
        let ghost ev = e;
        let n = self.transaction.operations.len();
        match e {
            Event::Failed(err) => {
                self.phase = Phase::Failed;
                acts.push(Action::Fail(err));
                assert(actions_view(acts@) =~= seq![ActionView::Fail(err)]);
            },
            Event::Unlinked(i) => {
                if self.phase == Phase::Removing && i < n && self.transaction.operations[i].remove.is_some()
                    && !self.unlinked[i] {
                    assert(self.ops()[i as int] == self.transaction.operations@[i as int]@);
                    self.unlinked.set(i, true);
                    assert(self.unlinked@ == pre.unlinked@.update(i as int, true));
                    assert(removes(self.ops(), i as int));
                    assert(forall|k: int| 0 <= k < n && #[trigger] self.unlinked@[k] ==> removes(self.ops(), k));
                    assert(self.wf());
                    if self.all_removals_done() {
                        self.phase = Phase::Cleaning;
                        acts.push(Action::RemoveEmptyDirectories);
                        assert(actions_view(acts@) =~= seq![ActionView::RemoveEmptyDirectories]);
                    }
                } else {
                    proof {
                        if i < n {
                            assert(self.ops()[i as int] == self.transaction.operations@[i as int]@);
                        }
                    }
                }
            },
            Event::Fetched(i, dir) => {
                if (self.phase == Phase::Removing || self.phase == Phase::Cleaning || self.phase == Phase::Installing)
                    && i < n && self.transaction.operations[i].install.is_some() && self.fetched[i].is_none() {
                    assert(self.ops()[i as int] == self.transaction.operations@[i as int]@);
                    let link_dir = dir.clone();
                    self.fetched.set(i, Some(dir));
                    assert(self.fetched_view() =~= pre.fetched_view().update(i as int, Some(link_dir@)));
                    assert(link_dir@ == dir@);
                    assert(installs(pre.ops(), i as int));
                    if self.phase == Phase::Installing {
                        acts.push(Action::Link(i, link_dir));
                        assert(actions_view(acts@) =~= seq![ActionView::Link(i, dir@)]);
                    } else {
                        assert(actions_view(acts@) =~= Seq::<ActionView>::empty());
                    }
                } else {
                    proof {
                        if i < n {
                            assert(self.ops()[i as int] == self.transaction.operations@[i as int]@);
                        }
                    }
                }
            },
            Event::CleanupDone => {
                if self.phase == Phase::Cleaning {
                    acts = self.pending_links();
                    if self.all_installs_done() {
                        self.phase = Phase::PostProcessing;
                        let ghost links = actions_view(acts@);
                        acts.push(Action::PostProcess);
                        assert(actions_view(acts@) =~= links.push(ActionView::PostProcess));
                    } else {
                        self.phase = Phase::Installing;
                    }
                }
            },
            Event::Linked(i, paths) => {
                if self.phase == Phase::Installing && i < n && self.fetched[i].is_some() && !self.linked[i] {
                    assert(self.ops()[i as int] == self.transaction.operations@[i as int]@);
                    let dir = match &self.fetched[i] {
                        Some(d) => d.clone(),
                        None => String::new(),
                    };
                    match &self.transaction.operations[i].install {
                        Some(rec) => {
                            let name = metadata_file_name(rec);
                            let record = linked_record(rec, paths, dir);
                            acts.push(Action::WriteRecord(i, name, record));
                        },
                        None => {},
                    }
                    self.linked.set(i, true);
                    assert(actions_view(acts@) =~= seq![ActionView::WriteRecord(
                        i,
                        metadata_name_of(pre.ops()[i as int].install->0),
                        linked_record_of(pre.ops()[i as int].install->0, strings_view(paths@), pre.fetched_view()[i as int]->0),
                    )]);
                }
            },
            Event::RecordWritten(i) => {
                if self.phase == Phase::Installing && i < n && self.linked[i] && !self.written[i] {
                    self.written.set(i, true);
                    if self.all_installs_done() {
                        self.phase = Phase::PostProcessing;
                        acts.push(Action::PostProcess);
                        assert(actions_view(acts@) =~= seq![ActionView::PostProcess]);
                    }
                }
            },
            Event::PostProcessed => {
                if self.phase == Phase::PostProcessing {
                    self.phase = Phase::Done;
                    acts.push(Action::Finish);
                    assert(actions_view(acts@) =~= seq![ActionView::Finish]);
                }
            },
        }
        assert(actions_view(acts@).len() == acts@.len());
        assert(self.wf());
        assert(stepped(pre, ev, *self, actions_view(acts@)));
        acts
    }
}

/// How a path claimed by more than one package was resolved.
pub struct ClobberedPath {
    /// The path, relative to the prefix.
    pub path: String,
    /// The name of the package whose file remains at the path.
    pub winner: String,
    /// The names of the other packages that ship a file at the path.
    pub losers: Vec<String>,
}

/// Whether pre- or post-link scripts ran, and which packages they failed for.
pub struct LinkScriptOutcome {
    pub failed_packages: Vec<String>,
}

/// What a successful installation returns.
pub struct InstallationResult {
    /// The transaction that was applied.
    pub transaction: Transaction,
    /// The outcome of the pre-link scripts, `None` where none ran.
    pub pre_link_script_result: Option<LinkScriptOutcome>,
    /// The outcome of the post-link scripts, `None` where none ran.
    pub post_link_script_result: Option<LinkScriptOutcome>,
    /// The paths that more than one package claimed.
    pub clobbered_paths: Vec<ClobberedPath>,
}

impl InstallSession {
    /// The result of a finished installation. A transaction without
    /// operations ran nothing: its result holds no script outcome and no
    /// clobbered path, whatever is handed in.
    pub fn into_result(
        self,
        pre_link_script_result: Option<LinkScriptOutcome>,
        post_link_script_result: Option<LinkScriptOutcome>,
        clobbered_paths: Vec<ClobberedPath>,
    ) -> (r: InstallationResult)
        requires
            self.phase == Phase::Done,
        ensures
            r.transaction@ == self.transaction@,
            self.transaction@.len() == 0 ==> r.pre_link_script_result is None && r.post_link_script_result is None
                && r.clobbered_paths@.len() == 0,
            self.transaction@.len() > 0 ==> r.pre_link_script_result == pre_link_script_result
                && r.post_link_script_result == post_link_script_result && r.clobbered_paths == clobbered_paths,
    {
        if self.transaction.operations.len() == 0 {
            InstallationResult {
                transaction: self.transaction,
                pre_link_script_result: None,
                post_link_script_result: None,
                clobbered_paths: Vec::new(),
            }
        } else {
            InstallationResult {
                transaction: self.transaction,
                pre_link_script_result,
                post_link_script_result,
                clobbered_paths,
            }
        }
    }
}

/// A failure reported while the installation runs ends it with that failure,
/// and keeps what already happened: nothing is rolled back.
pub proof fn law_failure_ends_installation(pre: InstallSession, err: InstallerError, post: InstallSession, acts: Seq<ActionView>)
    requires
        pre.wf(),
        pre.phase != Phase::Done,
        pre.phase != Phase::Failed,
        stepped(pre, Event::Failed(err), post, acts),
    ensures
        post.phase == Phase::Failed,
        acts == seq![ActionView::Fail(err)],
        post.same_progress(&pre),
{
}

/// A failed installation stays failed: no later event asks for any action.
pub proof fn law_failed_stays_failed(pre: InstallSession, e: Event, post: InstallSession, acts: Seq<ActionView>)
    requires
        pre.phase == Phase::Failed,
        stepped(pre, e, post, acts),
    ensures
        post.phase == Phase::Failed,
        acts.len() == 0,
{
}

/// An installation reports success only once every removed record has been
/// unlinked and every installed package has its metadata record written.
pub proof fn law_finish_means_complete(pre: InstallSession, e: Event, post: InstallSession, acts: Seq<ActionView>)
    requires
        pre.wf(),
        post.wf(),
        stepped(pre, e, post, acts),
        acts.contains(ActionView::Finish),
    ensures
        post.phase == Phase::Done,
        forall|i: int| removes(post.ops(), i) ==> post.unlinked@[i],
        forall|i: int| installs(post.ops(), i) ==> post.written@[i],
{
    let k = choose|k: int| 0 <= k < acts.len() && acts[k] == ActionView::Finish;
    if pre.phase != Phase::Done && pre.phase != Phase::Failed {
        match e {
            Event::Unlinked(i) => {},
            Event::Fetched(i, d) => {},
            Event::CleanupDone => {
                if pre.phase == Phase::Cleaning {
                    let links = link_actions(pre.order@, pre.fetched_view());
                    lemma_link_actions_are_links(pre.order@, pre.fetched_view());
                    if !pre.installs_done() {
                        assert(acts[k] is Link);
                    }
                }
            },
            _ => {},
        }
    }
}

/// Once a package is linked, the record written for it is named
/// `{name}-{version}-{build}.json` and lists exactly the paths that linking
/// reported.
pub proof fn law_record_lists_linked_paths(pre: InstallSession, i: usize, paths: Vec<String>, post: InstallSession, acts: Seq<ActionView>)
    requires
        pre.wf(),
        stepped(pre, Event::Linked(i, paths), post, acts),
        acts.len() > 0,
    ensures
        installs(pre.ops(), i as int),
        acts.len() == 1,
        acts[0] matches ActionView::WriteRecord(j, name, record) && j == i
            && name == metadata_name_of(pre.ops()[i as int].install->0)
            && record.record == pre.ops()[i as int].install->0
            && record.files == strings_view(paths@),
        post.linked@[i as int],
{
}

proof fn lemma_link_actions_are_links(order: Seq<usize>, fetched: Seq<Option<Seq<char>>>)
    ensures
        forall|k: int| 0 <= k < link_actions(order, fetched).len() ==> (#[trigger] link_actions(order, fetched)[k]) is Link,
    decreases order.len(),
{
    if order.len() > 0 {
        lemma_link_actions_are_links(order.drop_last(), fetched);
    }
}

} // verus!
