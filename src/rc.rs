//! Reference-counted cells and the handles that share them.
//!
//! An [`RcHeap`] holds cells, each a payload with the number of handles
//! that refer to it. A [`MyRc`] is one such handle. Allocating makes a cell
//! with one owner, duplicating a handle adds an owner, and releasing a handle
//! removes one: the release that removes the last owner destroys the cell and
//! drops its payload. A handle is neither `Copy` nor `Clone`, and releasing it
//! consumes it, so a released handle cannot be used again.
use vstd::prelude::*;
use core::marker::PhantomData;

verus! {

/// One cell: the payload and the number of live handles to it.
pub struct MyBox<T> {
    pub value: T,
    pub ref_count: usize,
}

/// The cells after a new cell holding `value` is placed at `addr`.
pub open spec fn allocated<T>(cells: Map<nat, MyBox<T>>, addr: nat, value: T) -> Map<
    nat,
    MyBox<T>,
> {
    cells.insert(addr, MyBox { value, ref_count: 1 })
}

/// The cells after one more handle to the cell at `addr` is made.
pub open spec fn duplicated<T>(cells: Map<nat, MyBox<T>>, addr: nat) -> Map<nat, MyBox<T>> {
    cells.insert(
        addr,
        MyBox { value: cells[addr].value, ref_count: (cells[addr].ref_count + 1) as usize },
    )
}

/// The cells after one handle to the cell at `addr` is released: the last
/// handle takes the cell away, any other one lowers its count.
pub open spec fn released<T>(cells: Map<nat, MyBox<T>>, addr: nat) -> Map<nat, MyBox<T>> {
    if cells[addr].ref_count <= 1 {
        cells.remove(addr)
    } else {
        cells.insert(
            addr,
            MyBox { value: cells[addr].value, ref_count: (cells[addr].ref_count - 1) as usize },
        )
    }
}

/// The store of cells. A slot is `None` once its cell has been destroyed;
/// such slots are listed in `free` and taken again by later allocations.
pub struct RcHeap<T> {
    cells: Vec<Option<MyBox<T>>>,
    free: Vec<usize>,
}

impl<T> View for RcHeap<T> {
    type V = Map<nat, MyBox<T>>;

    /// The live cells, by address.
    closed spec fn view(&self) -> Map<nat, MyBox<T>> {
        Map::new(
            |a: nat| a < self.cells@.len() && self.cells@[a as int] is Some,
            |a: nat| self.cells@[a as int]->0,
        )
    }
}

impl<T> RcHeap<T> {
    /// Free slots are empty, in range and listed once; live cells have an owner.
    pub closed spec fn wf(&self) -> bool {
        &&& forall|i: int|
            0 <= i < self.free@.len() ==> {
                &&& #[trigger] self.free@[i] < self.cells@.len()
                &&& self.cells@[self.free@[i] as int] is None
            }
        &&& forall|i: int, j: int|
            0 <= i < j < self.free@.len() ==> #[trigger] self.free@[i] != #[trigger] self.free@[j]
        &&& forall|a: int|
            0 <= a < self.cells@.len() && #[trigger] self.cells@[a] is Some ==> self.cells@[a]->0.ref_count
                >= 1
    }

    /// A heap with no cell.
    pub fn new() -> (r: RcHeap<T>)
        ensures
            r.wf(),
            r@ == Map::<nat, MyBox<T>>::empty(),
    {
        let r = RcHeap { cells: Vec::new(), free: Vec::new() };
        assert(r@ =~= Map::<nat, MyBox<T>>::empty());
        r
    }
}

/// A handle to one cell of an [`RcHeap`].
pub struct MyRc<T> {
    addr: usize,
    marker: PhantomData<T>,
}

impl<T> MyRc<T> {
    /// The address of the cell this handle refers to.
    pub closed spec fn addr(&self) -> nat {
        self.addr as nat
    }

    /// Allocates a cell holding `value` with a count of one, and returns the
    /// first handle to it.
    pub fn new(value: T, heap: &mut RcHeap<T>) -> (r: MyRc<T>)
        requires
            old(heap).wf(),
        ensures
            final(heap).wf(),
            !old(heap)@.contains_key(r.addr()),
            final(heap)@ == allocated(old(heap)@, r.addr(), value),
    {
        let ghost v = value;
        let ghost before = heap@;
        let cell = MyBox { value, ref_count: 1 };
        let addr: usize;
        match heap.free.pop() {
            Some(a) => {
                assert(heap.free@.len() + 1 == old(heap).free@.len());
                assert(old(heap).free@[heap.free@.len() as int] == a);
                heap.cells.set(a, Some(cell));
                addr = a;
            },
            None => {
                addr = heap.cells.len();
                heap.cells.push(Some(cell));
            },
        }
        assert(heap@ =~= allocated(before, addr as nat, v));
        MyRc { addr, marker: PhantomData }
    }
    /// Duplicates this handle: the cell gains one owner, and the new handle
    /// refers to the same cell.
    pub fn clone(&self, heap: &mut RcHeap<T>) -> (r: MyRc<T>)
        requires
            old(heap).wf(),
            old(heap)@.contains_key(self.addr()),
            old(heap)@[self.addr()].ref_count < usize::MAX,
        ensures
            final(heap).wf(),
            r.addr() == self.addr(),
            final(heap)@ == duplicated(old(heap)@, self.addr()),
    {
        let ghost before = heap@;
        match &mut heap.cells[self.addr] {
            Some(cell) => {
                cell.ref_count = cell.ref_count + 1;
            },
            None => {},
        }
        assert(heap@ =~= duplicated(before, self.addr()));
        MyRc { addr: self.addr, marker: PhantomData }
    }

    /// Releases this handle. The last handle of a cell destroys it, which
    /// drops the payload and frees the slot; any other one only lowers the
    /// count. Returns whether the cell was destroyed.
    pub fn drop(self, heap: &mut RcHeap<T>) -> (destroyed: bool)
        requires
            old(heap).wf(),
            old(heap)@.contains_key(self.addr()),
        ensures
            final(heap).wf(),
            destroyed == (old(heap)@[self.addr()].ref_count == 1),
            final(heap)@ == released(old(heap)@, self.addr()),
    {
        let ghost before = heap@;
        let addr = self.addr;
        let last = match &heap.cells[addr] {
            Some(cell) => cell.ref_count == 1,
            None => false,
        };
        if last {
            heap.cells.set(addr, None);
            heap.free.push(addr);
            assert(heap@ =~= released(before, addr as nat));
        } else {
            match &mut heap.cells[addr] {
                Some(cell) => {
                    cell.ref_count = cell.ref_count - 1;
                },
                None => {},
            }
            assert(heap@ =~= released(before, addr as nat));
        }
        last
    }

    /// Reads the payload of the cell this handle refers to.
    pub fn deref<'a>(&self, heap: &'a RcHeap<T>) -> (r: &'a T)
        requires
            heap@.contains_key(self.addr()),
        ensures
            *r == heap@[self.addr()].value,
    {
        match &heap.cells[self.addr] {
            Some(cell) => &cell.value,
            None => unreached(),
        }
    }

    /// The number of live handles to the cell this handle refers to.
    pub fn strong_count(&self, heap: &RcHeap<T>) -> (r: usize)
        requires
            heap@.contains_key(self.addr()),
        ensures
            r == heap@[self.addr()].ref_count,
    {
        match &heap.cells[self.addr] {
            Some(cell) => cell.ref_count,
            None => unreached(),
        }
    }
}

} // verus!
