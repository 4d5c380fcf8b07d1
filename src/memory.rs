use core::marker::PhantomData;
use vstd::arithmetic::div_mod::lemma_fundamental_div_mod;
use vstd::layout::size_of;
use vstd::prelude::*;

verus! {

/// The distance in bytes between two neighbouring elements of type `T`.
pub open spec fn stride<T>() -> int {
    size_of::<T>() as int
}

/// A typed address: where a value of type `A` is taken to live.
pub struct Ptr<A> {
    addr: u64,
    target: PhantomData<A>,
}

impl<A> View for Ptr<A> {
    type V = u64;

    closed spec fn view(&self) -> u64 {
        self.addr
    }
}

impl<A> Ptr<A> {
    /// The address, as an integer.
    pub fn addr(&self) -> (r: u64)
        ensures
            r == self@,
    {
        self.addr
    }
}

/// A contiguous run of cells of type `T`, laid out one stride apart from
/// the address `start` on.
pub struct Block<T> {
    start: u64,
    cells: Vec<T>,
}

impl<T> Block<T> {
    /// The address of the first cell.
    pub closed spec fn start_addr(&self) -> u64 {
        self.start
    }

    /// The cells, first to last.
    pub closed spec fn cells(&self) -> Seq<T> {
        self.cells@
    }

    /// The whole block lies inside the 64-bit address space.
    pub open spec fn wf(&self) -> bool {
        self.start_addr() + self.cells().len() * stride::<T>() <= u64::MAX + 1
    }

    /// `addr` is the address of one of the cells.
    pub open spec fn holds(&self, addr: int) -> bool {
        if stride::<T>() == 0 {
            self.cells().len() > 0 && addr == self.start_addr()
        } else {
            self.start_addr() <= addr && (addr - self.start_addr()) % stride::<T>() == 0
                && (addr - self.start_addr()) / stride::<T>() < self.cells().len()
        }
    }

    /// The position of the cell that lives at `addr`.
    pub open spec fn cell_index(&self, addr: int) -> int {
        if stride::<T>() == 0 {
            0
        } else {
            (addr - self.start_addr()) / stride::<T>()
        }
    }

    /// Each cell's address, mapped to the value the cell holds.
    pub open spec fn memory(&self) -> Map<int, T> {
        Map::new(|a: int| self.holds(a), |a: int| self.cells()[self.cell_index(a)])
    }

    /// Every address of a well-formed block fits in a `u64`.
    pub proof fn lemma_addr_fits(&self, addr: int)
        requires
            self.wf(),
            self.holds(addr),
        ensures
            0 <= self.cell_index(addr) < self.cells().len(),
            addr == self.start_addr() + self.cell_index(addr) * stride::<T>(),
            addr <= u64::MAX,
    {
        let s = stride::<T>();
        if s != 0 {
            let d = addr - self.start_addr();
            lemma_fundamental_div_mod(d, s);
            let k = d / s;
            let n = self.cells().len() as int;
            assert(k * s + s <= n * s) by (nonlinear_arith)
                requires
                    0 <= k < n,
                    s > 0,
            ;
            assert(d == k * s) by (nonlinear_arith)
                requires
                    d == s * k + 0,
            ;
        }
    }

    /// Two addresses of a block that name the same cell are equal.
    pub proof fn lemma_cell_unique(&self, a: int, b: int)
        requires
            self.holds(a),
            self.holds(b),
            self.cell_index(a) == self.cell_index(b),
        ensures
            a == b,
    {
        let s = stride::<T>();
        if s != 0 {
            lemma_fundamental_div_mod(a - self.start_addr(), s);
            lemma_fundamental_div_mod(b - self.start_addr(), s);
        }
    }

    /// Places `cells` at the address `start`.
    pub fn new(start: u64, cells: Vec<T>) -> (r: Block<T>)
        requires
            start + cells@.len() * stride::<T>() <= u64::MAX + 1,
        ensures
            r.wf(),
            r.start_addr() == start,
            r.cells() == cells@,
    {
        Block { start, cells }
    }

    /// The address of the first cell, typed as a pointer to it.
    pub fn as_ptr(&self) -> (r: Ptr<T>)
        ensures
            r@ == self.start_addr(),
    {
        Ptr { addr: self.start, target: PhantomData }
    }

    /// The number of cells.
    pub fn len(&self) -> (r: usize)
        ensures
            r == self.cells().len(),
    {
        self.cells.len()
    }

    /// Reads the cell that lives at the raw address `addr`.
    pub fn read_at(&self, addr: u64) -> (r: &T)
        requires
            self.wf(),
            self.memory().dom().contains(addr as int),
        ensures
            *r == self.memory()[addr as int],
    {
        let k = self.slot(addr);
        &self.cells[k]
    }

    /// Writes `value` into the cell that lives at the raw address `addr`.
    pub fn write_at(&mut self, addr: u64, value: T)
        requires
            old(self).wf(),
            old(self).memory().dom().contains(addr as int),
        ensures
            final(self).wf(),
            final(self).start_addr() == old(self).start_addr(),
            final(self).cells().len() == old(self).cells().len(),
            final(self).memory() == old(self).memory().insert(addr as int, value),
    {
        let k = self.slot(addr);
        self.cells.set(k, value);
        proof {
            let m0 = old(self).memory();
            let m1 = self.memory();
            assert forall|a: int| #[trigger] m1.dom().contains(a) && a != addr implies m1[a]
                == m0[a] by {
                if self.cell_index(a) == k as int {
                    self.lemma_cell_unique(a, addr as int);
                }
            }
            assert(m1 =~= m0.insert(addr as int, value));
        }
    }

    /// The position of the cell at `addr`.
    fn slot(&self, addr: u64) -> (k: usize)
        requires
            self.wf(),
            self.holds(addr as int),
        ensures
            k == self.cell_index(addr as int),
            k < self.cells().len(),
    {
        proof {
            self.lemma_addr_fits(addr as int);
        }
        let s = core::mem::size_of::<T>() as u64;
        if s == 0 {
            0
        } else {
            let q = (addr - self.start) / s;
            assert(q == self.cell_index(addr as int));
            assert(q < self.cells.len());
            q as usize
        }
    }
}

} // verus!
