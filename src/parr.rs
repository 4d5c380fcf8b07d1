use crate::memory::{stride, Block, Ptr};
use core::cmp::Ordering;
use core::marker::PhantomData;
use vstd::prelude::*;
use vstd::std_specs::cmp::{PartialEqSpec, PartialOrdSpec};

verus! {

/// The pointer array: a base address read as the first element of an array
/// of `T`.
///
/// It holds the address alone: no length, no ownership of the memory it names.
/// Copying it copies the address. Two views are equal, and ordered, as their
/// base addresses are.
#[derive(Eq, Ord)]
pub struct Parr<T> {
    base: u64,
    elem: PhantomData<T>,
}

impl<T> View for Parr<T> {
    type V = u64;

    closed spec fn view(&self) -> u64 {
        self.base
    }
}

impl<T> Parr<T> {
    /// The view whose base address is `addr`.
    pub closed spec fn at(addr: u64) -> Parr<T> {
        Parr { base: addr, elem: PhantomData }
    }

    /// The address of the element at `index`.
    pub open spec fn addr_of(&self, index: int) -> int {
        self@ + index * stride::<T>()
    }

    /// Creates a view whose base address is `base`.
    pub fn new(base: u64) -> (r: Parr<T>)
        ensures
            r == Parr::<T>::at(base),
            r@ == base,
    {
        Parr { base, elem: PhantomData }
    }

    /// Creates a view whose base is the address `ptr` points at, read as the
    /// first element of an array of `T` whatever `A` is.
    pub fn from_ptr<A>(ptr: Ptr<A>) -> (r: Parr<T>)
        ensures
            r == Parr::<T>::at(ptr@),
            r@ == ptr@,
    {
        Parr { base: ptr.addr(), elem: PhantomData }
    }

    /// Creates a view onto the first cell of `value`. The cells are not
    /// copied and their number is not kept.
    pub fn from_slice(value: &Block<T>) -> (r: Parr<T>)
        ensures
            r == Parr::<T>::at(value.start_addr()),
            r@ == value.start_addr(),
    {
        Parr { base: value.as_ptr().addr(), elem: PhantomData }
    }

    /// The base address.
    pub fn base(&self) -> (r: u64)
        ensures
            r == self@,
    {
        self.base
    }

    /// The address of the element at `index`, where that element is a cell
    /// of a well-formed block.
    fn element_addr(&self, block: &Block<T>, index: usize) -> (r: u64)
        requires
            block.wf(),
            block.memory().dom().contains(self.addr_of(index as int)),
        ensures
            r == self.addr_of(index as int),
    {
        proof {
            block.lemma_addr_fits(self.addr_of(index as int));
            assert(0 <= index as int * stride::<T>()) by (nonlinear_arith)
                requires
                    index >= 0,
                    stride::<T>() >= 0,
            ;
        }
        let s = core::mem::size_of::<T>() as u64;
        self.base + (index as u64) * s
    }

    /// Reads the element at `index`: the cell of `block` at
    /// `base + index * size_of::<T>()`.
    pub fn get<'a>(&self, block: &'a Block<T>, index: usize) -> (r: &'a T)
        requires
            block.wf(),
            block.memory().dom().contains(self.addr_of(index as int)),
        ensures
            *r == block.memory()[self.addr_of(index as int)],
    {
        let addr = self.element_addr(block, index);
        block.read_at(addr)
    }

    /// Writes `value` as the element at `index`: into the cell of `block` at
    /// `base + index * size_of::<T>()`.
    pub fn set(&self, block: &mut Block<T>, index: usize, value: T)
        requires
            old(block).wf(),
            old(block).memory().dom().contains(self.addr_of(index as int)),
        ensures
            final(block).wf(),
            final(block).start_addr() == old(block).start_addr(),
            final(block).cells().len() == old(block).cells().len(),
            final(block).memory() == old(block).memory().insert(self.addr_of(index as int), value),
    {
        let addr = self.element_addr(block, index);
        block.write_at(addr, value);
    }
}

impl<'a, T> From<&'a Block<T>> for Parr<T> {
    /// The view onto the first cell of `value`, as [`Parr::from_slice`] makes it.
    fn from(value: &'a Block<T>) -> (r: Parr<T>)
        ensures
            r == Parr::<T>::at(value.start_addr()),
    {
        Parr::from_slice(value)
    }
}

impl<'a, T> vstd::std_specs::convert::FromSpecImpl<&'a Block<T>> for Parr<T> {
    open spec fn obeys_from_spec() -> bool {
        true
    }

    open spec fn from_spec(value: &'a Block<T>) -> Parr<T> {
        Parr::<T>::at(value.start_addr())
    }
}

impl<T> Clone for Parr<T> {
    fn clone(&self) -> (r: Parr<T>)
        ensures
            r == *self,
    {
        Parr { base: self.base, elem: PhantomData }
    }
}

impl<T> Copy for Parr<T> {

}

impl<T> PartialEq for Parr<T> {
    fn eq(&self, other: &Parr<T>) -> (r: bool)
        ensures
            r == (self@ == other@),
    {
        self.base == other.base
    }
}

impl<T> vstd::std_specs::cmp::PartialEqSpecImpl for Parr<T> {
    open spec fn obeys_eq_spec() -> bool {
        true
    }

    open spec fn eq_spec(&self, other: &Parr<T>) -> bool {
        self@ == other@
    }
}

impl<T> PartialOrd for Parr<T> {
    fn partial_cmp(&self, other: &Parr<T>) -> (r: Option<Ordering>)
        ensures
            r == Some(address_order(self@, other@)),
    {
        if self.base < other.base {
            Some(Ordering::Less)
        } else if self.base > other.base {
            Some(Ordering::Greater)
        } else {
            Some(Ordering::Equal)
        }
    }
}

impl<T> vstd::std_specs::cmp::PartialOrdSpecImpl for Parr<T> {
    open spec fn obeys_partial_cmp_spec() -> bool {
        true
    }

    open spec fn partial_cmp_spec(&self, other: &Parr<T>) -> Option<Ordering> {
        Some(address_order(self@, other@))
    }
}

/// A view made from the address `addr` gives back exactly `addr` as its base.
pub proof fn lemma_base_of_new<T>(addr: u64)
    ensures
        Parr::<T>::at(addr)@ == addr,
{
}

/// Reading an element right after writing it gives back the value written,
/// and leaves every other cell of the block as it was.
pub proof fn lemma_read_after_write<T>(arr: Parr<T>, block: Block<T>, index: int, value: T)
    requires
        block.wf(),
        block.memory().dom().contains(arr.addr_of(index)),
    ensures
        block.memory().insert(arr.addr_of(index), value).dom() == block.memory().dom(),
        block.memory().insert(arr.addr_of(index), value)[arr.addr_of(index)] == value,
        forall|a: int|
            #![trigger block.memory().insert(arr.addr_of(index), value)[a]]
            block.memory().dom().contains(a) && a != arr.addr_of(index) ==> block.memory().insert(
                arr.addr_of(index),
                value,
            )[a] == block.memory()[a],
{
    assert(block.memory().insert(arr.addr_of(index), value).dom() =~= block.memory().dom());
}

/// A write made through the raw address `base + index * size_of::<T>()`
/// is what indexing the view at `index` then reads.
pub proof fn lemma_raw_write_visible<T>(arr: Parr<T>, block: Block<T>, index: int, value: T)
    requires
        block.wf(),
        block.memory().dom().contains(arr@ + index * stride::<T>()),
    ensures
        block.memory().insert(arr@ + index * stride::<T>(), value).dom().contains(
            arr.addr_of(index),
        ),
        block.memory().insert(arr@ + index * stride::<T>(), value)[arr.addr_of(index)] == value,
{
}

/// Views compare as their base addresses: two are equal exactly when they
/// were made from the same address, and they are ordered as the addresses
/// are as numbers.
pub proof fn lemma_compare_by_address<T>(a: u64, b: u64)
    ensures
        (Parr::<T>::at(a) == Parr::<T>::at(b)) == (a == b),
        Parr::<T>::at(a).eq_spec(&Parr::<T>::at(b)) == (a == b),
        Parr::<T>::at(a).partial_cmp_spec(&Parr::<T>::at(b)) == Some(address_order(a, b)),
        a < b <==> address_order(a, b) == Ordering::Less,
        a > b <==> address_order(a, b) == Ordering::Greater,
{
    if Parr::<T>::at(a) == Parr::<T>::at(b) {
        assert(Parr::<T>::at(a)@ == Parr::<T>::at(b)@);
    }
}

/// How two addresses compare as numbers.
pub open spec fn address_order(a: u64, b: u64) -> Ordering {
    if a < b {
        Ordering::Less
    } else if a > b {
        Ordering::Greater
    } else {
        Ordering::Equal
    }
}

} // verus!
