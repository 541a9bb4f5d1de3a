//! Laws of the reference-counting protocol, stated over the cell maps that
//! the operations of [`crate::rc`] promise.
use vstd::prelude::*;
use crate::rc::{MyBox, allocated, duplicated, released};

verus! {

/// One operation on a handle of a cell.
pub enum RcOp {
    Duplicate,
    Release,
}

/// The cells after `op` is applied to a handle of the cell at `addr`.
pub open spec fn applied<T>(cells: Map<nat, MyBox<T>>, addr: nat, op: RcOp) -> Map<
    nat,
    MyBox<T>,
> {
    match op {
        RcOp::Duplicate => duplicated(cells, addr),
        RcOp::Release => released(cells, addr),
    }
}

/// The cells after the operations `ops`, first to last.
pub open spec fn applied_all<T>(cells: Map<nat, MyBox<T>>, addr: nat, ops: Seq<RcOp>) -> Map<
    nat,
    MyBox<T>,
>
    decreases ops.len(),
{
    if ops.len() == 0 {
        cells
    } else {
        applied(applied_all(cells, addr, ops.drop_last()), addr, ops.last())
    }
}

/// The handles outstanding after `ops`, counting the first one made by
/// allocation: one, plus the duplicates, less the releases.
pub open spec fn outstanding(ops: Seq<RcOp>) -> int
    decreases ops.len(),
{
    if ops.len() == 0 {
        1
    } else {
        outstanding(ops.drop_last()) + match ops.last() {
            RcOp::Duplicate => 1int,
            RcOp::Release => -1int,
        }
    }
}

/// Each operation of `ops` acts on a handle that is still outstanding, and
/// no duplicate takes the count past what a `usize` holds.
pub open spec fn acts_on_live_handles(ops: Seq<RcOp>) -> bool {
    forall|k: int|
        0 <= k < ops.len() ==> {
            &&& outstanding(#[trigger] ops.take(k)) >= 1
            &&& ops[k] is Duplicate ==> outstanding(ops.take(k)) < usize::MAX
        }
}

/// The cells after `k` releases of handles of the cell at `addr`.
pub open spec fn released_times<T>(cells: Map<nat, MyBox<T>>, addr: nat, k: nat) -> Map<
    nat,
    MyBox<T>,
>
    decreases k,
{
    if k == 0 {
        cells
    } else {
        released(released_times(cells, addr, (k - 1) as nat), addr)
    }
}

/// Allocating `value` and then reading through the new handle gives
/// `value` back, with a count of one.
pub proof fn lemma_allocate_then_deref<T>(cells: Map<nat, MyBox<T>>, addr: nat, value: T)
    ensures
        allocated(cells, addr, value).contains_key(addr),
        allocated(cells, addr, value)[addr].value == value,
        allocated(cells, addr, value)[addr].ref_count == 1,
{
}

/// Duplicating a handle and releasing the duplicate leaves the cells as they
/// were: the original handle still reads the same value.
pub proof fn lemma_duplicate_then_release<T>(cells: Map<nat, MyBox<T>>, addr: nat)
    requires
        cells.contains_key(addr),
        cells[addr].ref_count >= 1,
        cells[addr].ref_count < usize::MAX,
    ensures
        released(duplicated(cells, addr), addr) == cells,
        released(duplicated(cells, addr), addr).contains_key(addr),
        released(duplicated(cells, addr), addr)[addr].value == cells[addr].value,
{
    assert(released(duplicated(cells, addr), addr) =~= cells);
}

/// Of `n` handles to a cell, releasing any but the last leaves the cell live
/// with one owner fewer; releasing the last destroys it and nothing else.
pub proof fn lemma_release_each_handle<T>(cells: Map<nat, MyBox<T>>, addr: nat, n: nat)
    requires
        cells.contains_key(addr),
        cells[addr].ref_count == n,
        n >= 1,
    ensures
        forall|k: nat|
            k < n ==> {
                &&& (#[trigger] released_times(cells, addr, k)).contains_key(addr)
                &&& released_times(cells, addr, k)[addr].ref_count == n - k
                &&& released_times(cells, addr, k)[addr].value == cells[addr].value
                &&& released_times(cells, addr, k).remove(addr) == cells.remove(addr)
            },
        released_times(cells, addr, n) == cells.remove(addr),
{
    lemma_release_prefix(cells, addr, n, n);
    assert forall|k: nat| k < n implies {
        &&& (#[trigger] released_times(cells, addr, k)).contains_key(addr)
        &&& released_times(cells, addr, k)[addr].ref_count == n - k
        &&& released_times(cells, addr, k)[addr].value == cells[addr].value
        &&& released_times(cells, addr, k).remove(addr) == cells.remove(addr)
    } by {
        lemma_release_prefix(cells, addr, n, k);
    }
}

proof fn lemma_release_prefix<T>(cells: Map<nat, MyBox<T>>, addr: nat, n: nat, k: nat)
    requires
        cells.contains_key(addr),
        cells[addr].ref_count == n,
        1 <= n,
        k <= n,
    ensures
        k < n ==> {
            &&& released_times(cells, addr, k).contains_key(addr)
            &&& released_times(cells, addr, k)[addr].ref_count == n - k
            &&& released_times(cells, addr, k)[addr].value == cells[addr].value
            &&& released_times(cells, addr, k).remove(addr) == cells.remove(addr)
        },
        k == n ==> released_times(cells, addr, k) == cells.remove(addr),
    decreases k,
{
    if k > 0 {
        lemma_release_prefix(cells, addr, n, (k - 1) as nat);
        let prev = released_times(cells, addr, (k - 1) as nat);
        if k < n {
            assert(released_times(cells, addr, k).remove(addr) =~= prev.remove(addr));
        } else {
            assert(released_times(cells, addr, k) =~= prev.remove(addr));
            assert(prev.remove(addr) =~= cells.remove(addr));
        }
    } else {
        assert(cells.remove(addr) =~= cells.remove(addr));
    }
}

/// For any operations on the handles of one newly allocated cell, each acting
/// on a handle that is still outstanding: after every prefix of them, the cell
/// is live exactly while handles are outstanding, its count is their number,
/// its value is unchanged, and no other cell is touched. The cell is live
/// before every operation, so it is destroyed at most once, by the final
/// release, and it is destroyed exactly when no handle is left.
pub proof fn lemma_destroyed_exactly_when_last_released<T>(
    cells: Map<nat, MyBox<T>>,
    addr: nat,
    value: T,
    ops: Seq<RcOp>,
)
    requires
        !cells.contains_key(addr),
        acts_on_live_handles(ops),
    ensures
        forall|k: int|
            0 <= k <= ops.len() ==> {
                let s = applied_all(allocated(cells, addr, value), addr, #[trigger] ops.take(k));
                &&& outstanding(ops.take(k)) >= 0
                &&& s.contains_key(addr) <==> outstanding(ops.take(k)) >= 1
                &&& s.contains_key(addr) ==> s[addr].ref_count == outstanding(ops.take(k))
                &&& s.contains_key(addr) ==> s[addr].value == value
                &&& s.remove(addr) == cells
            },
        forall|k: int|
            0 <= k < ops.len() ==> applied_all(
                allocated(cells, addr, value),
                addr,
                #[trigger] ops.take(k),
            ).contains_key(addr),
        !applied_all(allocated(cells, addr, value), addr, ops).contains_key(addr) <==> outstanding(
            ops,
        ) == 0,
{
    assert forall|k: int| 0 <= k <= ops.len() implies {
        let s = applied_all(allocated(cells, addr, value), addr, #[trigger] ops.take(k));
        &&& outstanding(ops.take(k)) >= 0
        &&& s.contains_key(addr) <==> outstanding(ops.take(k)) >= 1
        &&& s.contains_key(addr) ==> s[addr].ref_count == outstanding(ops.take(k))
        &&& s.contains_key(addr) ==> s[addr].value == value
        &&& s.remove(addr) == cells
    } by {
        let p = ops.take(k);
        assert forall|j: int| 0 <= j < p.len() implies {
            &&& outstanding(#[trigger] p.take(j)) >= 1
            &&& p[j] is Duplicate ==> outstanding(p.take(j)) < usize::MAX
        } by {
            assert(p.take(j) =~= ops.take(j));
        }
        lemma_ops_from_allocation(cells, addr, value, p);
    }
    assert(ops.take(ops.len() as int) =~= ops);
    assert forall|k: int| 0 <= k < ops.len() implies applied_all(
        allocated(cells, addr, value),
        addr,
        #[trigger] ops.take(k),
    ).contains_key(addr) by {}
}

proof fn lemma_ops_from_allocation<T>(
    cells: Map<nat, MyBox<T>>,
    addr: nat,
    value: T,
    ops: Seq<RcOp>,
)
    requires
        !cells.contains_key(addr),
        acts_on_live_handles(ops),
    ensures
        ({
            let s = applied_all(allocated(cells, addr, value), addr, ops);
            &&& outstanding(ops) >= 0
            &&& s.contains_key(addr) <==> outstanding(ops) >= 1
            &&& s.contains_key(addr) ==> s[addr].ref_count == outstanding(ops)
            &&& s.contains_key(addr) ==> s[addr].value == value
            &&& s.remove(addr) == cells
        }),
    decreases ops.len(),
{
    let start = allocated(cells, addr, value);
    if ops.len() == 0 {
        assert(start.remove(addr) =~= cells);
    } else {
        let init = ops.drop_last();
        assert forall|j: int| 0 <= j < init.len() implies {
            &&& outstanding(#[trigger] init.take(j)) >= 1
            &&& init[j] is Duplicate ==> outstanding(init.take(j)) < usize::MAX
        } by {
            assert(init.take(j) =~= ops.take(j));
        }
        lemma_ops_from_allocation(cells, addr, value, init);
        assert(ops.take(ops.len() - 1) =~= init);
        let prev = applied_all(start, addr, init);
        let s = applied_all(start, addr, ops);
        assert(prev.contains_key(addr));
        if s.contains_key(addr) {
            assert(s.remove(addr) =~= prev.remove(addr));
        } else {
            assert(s =~= prev.remove(addr));
        }
    }
}

} // verus!
