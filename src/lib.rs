//! Non-owning, indexed views over contiguous memory.
//!
//! Memory is modelled explicitly: a [`Block`] is a run of cells of one type
//! that lives at a known address, and its view maps each cell's address to the
//! value held there. A [`Parr`] is a single address, read as the base of an
//! array of elements; indexing it reaches the cell at
//! `base + index * size_of::<T>()` of a block. Nothing about a view is checked
//! when it is made: what indexing needs is stated by the contracts of the
//! access functions.

mod memory;
mod parr;

pub use memory::{stride, Block, Ptr};
pub use parr::{
    address_order, lemma_base_of_new, lemma_compare_by_address, lemma_raw_write_visible,
    lemma_read_after_write, Parr,
};
