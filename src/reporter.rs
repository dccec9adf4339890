use vstd::prelude::*;

use crate::transaction::{OpView, Operation};

verus! {

/// A progress event for an observer of the installation. Events that start
/// something carry the position of the operation they belong to.
#[derive(Clone, Copy, Debug, PartialEq, Eq, Structural)]
pub enum Report {
    TransactionStart,
    OperationStart(usize),
    UnlinkStart(usize),
    UnlinkComplete(usize),
    PopulateCacheStart(usize),
    PopulateCacheComplete(usize),
    LinkStart(usize),
    LinkComplete(usize),
    OperationComplete(usize),
    TransactionComplete,
}

/// The events before the removal of operation `i`: the operation starts here,
/// as the removal is its first step.
pub open spec fn before_unlink_spec(i: usize) -> Seq<Report> {
    seq![Report::OperationStart(i), Report::UnlinkStart(i)]
}

/// The events after the removal of operation `i`; the operation completes
/// here unless it also installs a record.
pub open spec fn after_unlink_spec(op: OpView, i: usize) -> Seq<Report> {
    if op.install is Some {
        seq![Report::UnlinkComplete(i)]
    } else {
        seq![Report::UnlinkComplete(i), Report::OperationComplete(i)]
    }
}

/// The events before fetching for operation `i`; the operation starts here
/// unless its removal already started it.
pub open spec fn before_fetch_spec(op: OpView, i: usize) -> Seq<Report> {
    if op.remove is Some {
        seq![Report::PopulateCacheStart(i)]
    } else {
        seq![Report::OperationStart(i), Report::PopulateCacheStart(i)]
    }
}

pub fn before_unlink(i: usize) -> (r: Vec<Report>)
    ensures
        r@ == before_unlink_spec(i),
{
    let mut r: Vec<Report> = Vec::new();
    r.push(Report::OperationStart(i));
    r.push(Report::UnlinkStart(i));
    assert(r@ =~= before_unlink_spec(i));
    r
}

pub fn after_unlink(op: &Operation, i: usize) -> (r: Vec<Report>)
    ensures
        r@ == after_unlink_spec(op@, i),
{
    let mut r: Vec<Report> = Vec::new();
    r.push(Report::UnlinkComplete(i));
    if op.install.is_none() {
        r.push(Report::OperationComplete(i));
    }
    assert(r@ =~= after_unlink_spec(op@, i));
    r
}

pub fn before_fetch(op: &Operation, i: usize) -> (r: Vec<Report>)
    ensures
        r@ == before_fetch_spec(op@, i),
{
    let mut r: Vec<Report> = Vec::new();
    if op.remove.is_none() {
        r.push(Report::OperationStart(i));
    }
    r.push(Report::PopulateCacheStart(i));
    assert(r@ =~= before_fetch_spec(op@, i));
    r
}

/// The events after the record of operation `i` is written: linking and the
/// operation complete.
pub fn after_write(i: usize) -> (r: Vec<Report>)
    ensures
        r@ == seq![Report::LinkComplete(i), Report::OperationComplete(i)],
{
    let mut r: Vec<Report> = Vec::new();
    r.push(Report::LinkComplete(i));
    r.push(Report::OperationComplete(i));
    assert(r@ =~= seq![Report::LinkComplete(i), Report::OperationComplete(i)]);
    r
}

/// Each operation starts exactly once: by its removal when it has one, and
/// otherwise when its package is fetched.
pub proof fn law_operation_starts_once(op: OpView, i: usize)
    requires
        op.remove is Some || op.install is Some,
    ensures
        ({
            let starts = (if op.remove is Some { before_unlink_spec(i) } else { Seq::empty() })
                + (if op.install is Some { before_fetch_spec(op, i) } else { Seq::empty() });
            starts.filter(|e: Report| e == Report::OperationStart(i)).len() == 1
        }),
{
    let a = if op.remove is Some { before_unlink_spec(i) } else { Seq::<Report>::empty() };
    let b = if op.install is Some { before_fetch_spec(op, i) } else { Seq::<Report>::empty() };
    let f = |e: Report| e == Report::OperationStart(i);
    reveal(Seq::filter);
    assert((a + b).filter(f) =~= seq![Report::OperationStart(i)]) by {
        reveal_with_fuel(Seq::filter, 4);
    }
}

} // verus!
