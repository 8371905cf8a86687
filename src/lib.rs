//! An object pool: a growable array of slots that hands out stable integer
//! indices, with constant-time insertion and removal through a free list
//! threaded through the unoccupied slots.

mod entry;
mod slab;
mod slot;
mod store;

pub use entry::Entry;
pub use slab::{
    lemma_len_counts_lookups, lemma_lifo_reuse, lemma_remove_keeps_others, lemma_round_trip,
    occupied, Slab,
};
