use vstd::prelude::*;

mod bitvec;
mod laws;
mod store;

pub use bitvec::{bit_get, render, BitVec, Bits, Error, Stores};
pub use store::BitStore;
pub use laws::{
    alternating, lemma_alternating_round_trip, lemma_capacity_whole_blocks, lemma_pop_undoes_push,
    lemma_push_all_appends, lemma_push_then_get, lemma_set_then_get, push_all,
};
