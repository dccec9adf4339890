use vstd::prelude::*;

use itertools::Itertools;

use crate::record::{size_key, InstalledRecord, InstalledView};
use crate::transaction::{installed_view, strings_view, OpView, Transaction};

verus! {

/// Whether the operation at position `i` installs a record.
pub open spec fn installs(ops: Seq<OpView>, i: int) -> bool {
    0 <= i < ops.len() && ops[i].install is Some
}

/// The size by which the operation at position `i` is scheduled.
pub open spec fn op_size(ops: Seq<OpView>, i: int) -> u64 {
    size_key(ops[i].install->0)
}

/// Whether operation `x` is dispatched before operation `y`: larger packages
/// first, and among equal sizes the later operation first.
pub open spec fn dispatched_before(ops: Seq<OpView>, x: int, y: int) -> bool {
    op_size(ops, x) > op_size(ops, y) || (op_size(ops, x) == op_size(ops, y) && x > y)
}

/// `order` lists every installing operation exactly once, in dispatch order.
pub open spec fn is_dispatch_order(ops: Seq<OpView>, order: Seq<usize>) -> bool {
    &&& order.no_duplicates()
    &&& forall|k: int| 0 <= k < order.len() ==> installs(ops, #[trigger] order[k] as int)
    &&& forall|i: int| installs(ops, i) ==> order.contains(i as usize)
    &&& forall|a: int, b: int|
        0 <= a < b < order.len() ==> dispatched_before(ops, #[trigger] order[a] as int, #[trigger] order[b] as int)
}

/// Relies on itertools::Itertools::sorted_by_key, which collects the items and
/// sorts them with slice::sort_by_key, a stable sort: the result holds the same
/// items, sizes never decrease, and items of equal size keep their order.
#[verifier::external_body]
fn sort_by_size(items: Vec<(u64, usize)>) -> (r: Vec<(u64, usize)>)
    requires
        forall|a: int, b: int| 0 <= a < b < items@.len() ==> items@[a].1 < items@[b].1,
    ensures
        r@.len() == items@.len(),
        r@.no_duplicates(),
        forall|x: (u64, usize)| r@.contains(x) <==> items@.contains(x),
        forall|a: int, b: int| 0 <= a < b < r@.len() ==> r@[a].0 <= r@[b].0,
        forall|a: int, b: int| 0 <= a < b < r@.len() && r@[a].0 == r@[b].0 ==> r@[a].1 < r@[b].1,
{
    items.into_iter().sorted_by_key(|item| item.0).collect()
}

/// The positions of the operations that install a record, in the order in
/// which their packages are fetched: by declared size, largest first, so that
/// the longest downloads start earliest.
pub fn install_order(transaction: &Transaction) -> (r: Vec<usize>)
    ensures
        is_dispatch_order(transaction@, r@),
{
    let ghost ops = transaction@;
    let mut items: Vec<(u64, usize)> = Vec::new();
    let mut i: usize = 0;
    while i < transaction.operations.len()
        invariant
            ops == transaction@,
            i <= ops.len(),
            forall|a: int, b: int| 0 <= a < b < items@.len() ==> items@[a].1 < items@[b].1,
            forall|k: int| 0 <= k < items@.len() ==> items@[k].1 < i,
            forall|k: int| 0 <= k < items@.len() ==> installs(ops, #[trigger] items@[k].1 as int)
                && items@[k].0 == op_size(ops, items@[k].1 as int),
            forall|j: int| 0 <= j < i && installs(ops, j) ==> items@.contains((op_size(ops, j), j as usize)),
        decreases ops.len() - i,
    {
        assert(ops[i as int] == transaction.operations@[i as int]@);
        match &transaction.operations[i].install {
            Some(rec) => {
                let ghost before = items@;
                items.push((rec.size_or_zero(), i));
                assert forall|j: int| 0 <= j < i + 1 && installs(ops, j) implies items@.contains((op_size(ops, j), j as usize)) by {
                    if j < i {
                        let w = choose|w: int| 0 <= w < before.len() && before[w] == (op_size(ops, j), j as usize);
                        assert(items@[w] == before[w]);
                    } else {
                        assert(items@[items@.len() - 1] == (op_size(ops, j), j as usize));
                    }
                }
            },
            None => {},
        }
        i = i + 1;
    }
    let sorted = sort_by_size(items);
    let ghost n = sorted@.len();
    let mut order: Vec<usize> = Vec::new();
    let mut k: usize = sorted.len();
    while k > 0
        invariant
            n == sorted@.len(),
            k <= n,
            order@.len() == n - k,
            forall|m: int| 0 <= m < order@.len() ==> order@[m] == sorted@[n - 1 - m].1,
        decreases k,
    {
        order.push(sorted[k - 1].1);
        k = k - 1;
    }
    proof {
        assert forall|m: int| 0 <= m < n implies installs(ops, sorted@[m].1 as int)
            && sorted@[m].0 == op_size(ops, sorted@[m].1 as int) by {
            assert(sorted@.contains(sorted@[m]));
            let w = choose|w: int| 0 <= w < items@.len() && items@[w] == sorted@[m];
        }
        assert forall|a: int, b: int| 0 <= a < n && 0 <= b < n && a != b implies sorted@[a].1 != sorted@[b].1 by {
            assert(sorted@.contains(sorted@[a]));
            assert(sorted@.contains(sorted@[b]));
            let wa = choose|w: int| 0 <= w < items@.len() && items@[w] == sorted@[a];
            let wb = choose|w: int| 0 <= w < items@.len() && items@[w] == sorted@[b];
            if sorted@[a].1 == sorted@[b].1 {
                if wa < wb {
                } else if wb < wa {
                } else {
                    assert(sorted@[a] == sorted@[b]);
                }
            }
        }
        assert forall|x: int, y: int| 0 <= x < y < order@.len() implies order@[x] != order@[y] by {
            assert(order@[x] == sorted@[n - 1 - x].1);
            assert(order@[y] == sorted@[n - 1 - y].1);
        }
        assert forall|x: int| 0 <= x < order@.len() implies installs(ops, #[trigger] order@[x] as int) by {
            assert(order@[x] == sorted@[n - 1 - x].1);
        }
        assert forall|j: int| installs(ops, j) implies order@.contains(j as usize) by {
            assert(items@.contains((op_size(ops, j), j as usize)));
            assert(sorted@.contains((op_size(ops, j), j as usize)));
            let m = choose|m: int| 0 <= m < n && sorted@[m] == (op_size(ops, j), j as usize);
            assert(order@[n - 1 - m] == j as usize);
        }
        assert forall|a: int, b: int| 0 <= a < b < order@.len() implies dispatched_before(ops, #[trigger] order@[a] as int, #[trigger] order@[b] as int) by {
            let sa = n - 1 - a;
            let sb = n - 1 - b;
            assert(order@[a] == sorted@[sa].1);
            assert(order@[b] == sorted@[sb].1);
            assert(sorted@[sb].0 <= sorted@[sa].0);
        }
    }
    order
}

/// Whether some operation removes the installed record `c`.
pub open spec fn removed_by(ops: Seq<OpView>, c: InstalledView) -> bool {
    exists|i: int| 0 <= i < ops.len() && ops[i].remove == Some(c)
}

/// The installed records that no operation removes, in their order.
pub open spec fn remaining_records(current: Seq<InstalledView>, ops: Seq<OpView>) -> Seq<InstalledView> {
    current.filter(|c: InstalledView| !removed_by(ops, c))
}

fn is_removed(transaction: &Transaction, c: &InstalledRecord) -> (r: bool)
    ensures
        r == removed_by(transaction@, c@),
{
    let ghost ops = transaction@;
    let mut i: usize = 0;
    while i < transaction.operations.len()
        invariant
            ops == transaction@,
            i <= ops.len(),
            forall|k: int| 0 <= k < i ==> ops[k].remove != Some(c@),
        decreases ops.len() - i,
    {
        assert(ops[i as int] == transaction.operations@[i as int]@);
        match &transaction.operations[i].remove {
            Some(rec) => {
                if rec.same_as(c) {
                    return true;
                }
            },
            None => {},
        }
        i = i + 1;
    }
    false
}

/// The installed records that the transaction leaves in place. They are
/// computed before any removal runs, and tell which directories may be left
/// empty once the removals are done.
pub fn remaining(current: &Vec<InstalledRecord>, transaction: &Transaction) -> (r: Vec<InstalledRecord>)
    ensures
        installed_view(r@) == remaining_records(installed_view(current@), transaction@),
{
    let ghost cv = installed_view(current@);
    let ghost pred = |c: InstalledView| !removed_by(transaction@, c);
    let mut out: Vec<InstalledRecord> = Vec::new();
    let mut i: usize = 0;
    while i < current.len()
        invariant
            cv == installed_view(current@),
            pred == (|c: InstalledView| !removed_by(transaction@, c)),
            i <= cv.len(),
            installed_view(out@) == cv.take(i as int).filter(pred),
        decreases cv.len() - i,
    {
        assert(cv.take(i + 1) =~= cv.take(i as int).push(cv[i as int]));
        proof { cv.take(i as int).lemma_filter_push(cv[i as int], pred); }
        assert(cv[i as int] == current@[i as int]@);
        if !is_removed(transaction, &current[i]) {
            let ghost before = installed_view(out@);
            out.push(current[i].duplicate());
            assert(installed_view(out@) =~= before.push(cv[i as int]));
        }
        i = i + 1;
    }
    assert(cv.take(cv.len() as int) =~= cv);
    out
}

/// Of two operations that install packages of different declared sizes, the
/// larger one is dispatched for fetching first.
pub proof fn law_larger_fetched_first(ops: Seq<OpView>, order: Seq<usize>, a: int, b: int)
    requires
        is_dispatch_order(ops, order),
        0 <= a < order.len(),
        0 <= b < order.len(),
        op_size(ops, order[a] as int) > op_size(ops, order[b] as int),
    ensures
        a < b,
{
    if b < a {
        assert(dispatched_before(ops, order[b] as int, order[a] as int));
    }
}

} // verus!
