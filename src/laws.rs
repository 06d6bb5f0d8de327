use vstd::prelude::*;
use vstd::arithmetic::div_mod::lemma_mod_multiples_basic;

use crate::bitvec::{bit_get, BitVec};
use crate::store::BitStore;

verus! {

/// The content after pushing each value of `vals`, in order, onto `s`.
pub open spec fn push_all(s: Seq<bool>, vals: Seq<bool>) -> Seq<bool>
    decreases vals.len(),
{
    if vals.len() == 0 {
        s
    } else {
        push_all(s, vals.drop_last()).push(vals.last())
    }
}

/// The booleans `i % 2 == 0` for `i` in `0..n`.
pub open spec fn alternating(n: nat) -> Seq<bool> {
    Seq::new(n, |i: int| i % 2 == 0)
}

/// Pushing the values one by one appends them.
pub proof fn lemma_push_all_appends(s: Seq<bool>, vals: Seq<bool>)
    ensures
        push_all(s, vals) == s + vals,
    decreases vals.len(),
{
    if vals.len() == 0 {
        assert(s + vals =~= s);
    } else {
        lemma_push_all_appends(s, vals.drop_last());
        assert(s + vals =~= (s + vals.drop_last()).push(vals.last()));
    }
}

/// Reading the last index right after a push gives the pushed value.
pub proof fn lemma_push_then_get<B: BitStore>(b: BitVec<B>, val: bool)
    ensures
        bit_get(b@.push(val), b@.len() as int) == Some(val),
{
}

/// A pop right after a push returns the pushed value and leaves the content,
/// and so the length, as it was before the push.
pub proof fn lemma_pop_undoes_push<B: BitStore>(b: BitVec<B>, val: bool)
    ensures
        b@.push(val).len() > 0,
        b@.push(val).last() == val,
        b@.push(val).drop_last() == b@,
        b@.push(val).drop_last().len() == b@.len(),
{
    assert(b@.push(val).drop_last() =~= b@);
}

/// Reading an index below the length right after setting it gives the value
/// that was set.
pub proof fn lemma_set_then_get<B: BitStore>(b: BitVec<B>, i: int, val: bool)
    requires
        0 <= i < b@.len(),
    ensures
        bit_get(b@.update(i, val), i) == Some(val),
{
}

/// The capacity is always a whole number of blocks.
pub proof fn lemma_capacity_whole_blocks<B: BitStore>(b: BitVec<B>)
    requires
        b.wf(),
    ensures
        b.spec_capacity() % B::spec_bits() == 0,
{
    lemma_mod_multiples_basic(b.blocks().len() as int, B::spec_bits() as int);
}

/// Pushing `i % 2 == 0` for each `i` in `0..n` onto an empty vector, then
/// reading indices `0..n`, gives back that pattern.
pub proof fn lemma_alternating_round_trip(n: nat)
    ensures
        push_all(Seq::empty(), alternating(n)).len() == n,
        forall|i: int|
            0 <= i < n ==> #[trigger] bit_get(push_all(Seq::empty(), alternating(n)), i) == Some(
                i % 2 == 0,
            ),
{
    lemma_push_all_appends(Seq::empty(), alternating(n));
    assert(Seq::<bool>::empty() + alternating(n) =~= alternating(n));
}

} // verus!
