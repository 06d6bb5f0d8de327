use vstd::prelude::*;
use vstd::arithmetic::div_mod::{lemma_fundamental_div_mod, lemma_mod_pos_bound};

use crate::store::BitStore;

verus! {

/// Reported by `BitVec::set` when the index is not below the length.
#[derive(Debug, PartialEq, Eq, Structural)]
pub enum Error {
    OutOfBounds,
}

/// What reading index `i` of the bit sequence `s` gives: the bit when `i` is
/// inside the sequence, nothing otherwise.
pub open spec fn bit_get(s: Seq<bool>, i: int) -> Option<bool> {
    if 0 <= i < s.len() {
        Some(s[i])
    } else {
        None
    }
}

/// Bit `i` lies in block `i / w`: it lies below `n` whole blocks exactly when
/// its block index is below `n`.
proof fn lemma_block_index(i: int, w: int, n: int)
    requires
        0 <= i,
        0 < w,
        0 <= n,
    ensures
        i < n * w <==> i / w < n,
        0 <= i / w,
        0 <= i % w < w,
{
    lemma_fundamental_div_mod(i, w);
    lemma_mod_pos_bound(i, w);
    let q = i / w;
    let r = i % w;
    assert(0 <= q) by (nonlinear_arith)
        requires
            i == w * q + r,
            0 <= r < w,
            0 <= i,
            0 < w,
    ;
    assert(i < n * w <==> q < n) by (nonlinear_arith)
        requires
            i == w * q + r,
            0 <= r < w,
            0 < w,
    ;
}

/// Two bit indices with the same block and the same offset are equal.
proof fn lemma_same_address(i: int, j: int, w: int)
    requires
        0 < w,
        i / w == j / w,
        i % w == j % w,
    ensures
        i == j,
{
    lemma_fundamental_div_mod(i, w);
    lemma_fundamental_div_mod(j, w);
}

/// A growable sequence of booleans packed one per bit into blocks of type `B`.
///
/// Bit `i` is bit `i % w` of block `i / w`, where `w` is the block width. The
/// first `len()` bits are the sequence; the bits from there up to
/// `capacity()` are allocated but carry no meaning.
#[derive(Debug)]
pub struct BitVec<B> {
    store: Vec<B>,
    len: usize,
}

impl<B: BitStore> View for BitVec<B> {
    type V = Seq<bool>;

    /// The logical content: the first `len()` bits.
    open spec fn view(&self) -> Seq<bool> {
        Seq::new(self.spec_len(), |i: int| self.bit_at(i))
    }
}

impl<B: BitStore> BitVec<B> {
    /// The allocated blocks, in storage order.
    pub closed spec fn blocks(&self) -> Seq<B> {
        self.store@
    }

    /// Number of bits in use.
    pub closed spec fn spec_len(&self) -> nat {
        self.len as nat
    }

    /// Number of addressable bits across all blocks.
    pub open spec fn spec_capacity(&self) -> nat {
        self.blocks().len() * B::spec_bits()
    }

    /// Bit `i` as stored, whether or not it is below the length.
    pub open spec fn bit_at(&self, i: int) -> bool {
        self.blocks()[i / B::spec_bits() as int].spec_bit((i % B::spec_bits() as int) as nat)
    }

    /// Every addressable bit, below the length or not.
    pub open spec fn all_bits(&self) -> Seq<bool> {
        Seq::new(self.spec_capacity(), |i: int| self.bit_at(i))
    }

    /// At least one block is allocated, the capacity fits in `usize`, and the
    /// length does not exceed the capacity.
    pub open spec fn wf(&self) -> bool {
        &&& 1 <= B::spec_bits() <= 128
        &&& self.blocks().len() >= 1
        &&& self.spec_capacity() <= usize::MAX
        &&& self.spec_len() <= self.spec_capacity()
    }

    /// An empty vector with two zeroed blocks.
    pub fn new() -> (r: BitVec<B>)
        ensures
            r.wf(),
            r@ == Seq::<bool>::empty(),
            r.blocks().len() == 2,
            forall|i: int| 0 <= i < r.spec_capacity() ==> !#[trigger] r.all_bits()[i],
    {
        let w = B::bits();
        let z = B::zero();
        let mut store: Vec<B> = Vec::new();
        store.push(z);
        store.push(z);
        let r = BitVec { store, len: 0 };
        assert forall|i: int| 0 <= i < r.spec_capacity() implies !#[trigger] r.all_bits()[i] by {
            lemma_block_index(i, w as int, 2);
        }
        assert(r@ =~= Seq::<bool>::empty());
        r
    }

    /// Number of addressable bits.
    pub fn capacity(&self) -> (r: usize)
        requires
            self.wf(),
        ensures
            r == self.spec_capacity(),
    {
        self.store.len() * B::bits()
    }

    /// Number of bits in use.
    pub fn len(&self) -> (r: usize)
        ensures
            r == self@.len(),
    {
        self.len
    }

    /// Whether no bit is in use.
    pub fn is_empty(&self) -> (r: bool)
        ensures
            r == (self@.len() == 0),
    {
        self.len == 0
    }

    /// A copy of block `index`, if it is allocated.
    fn store_as_copy(&self, index: usize) -> (r: Option<B>)
        ensures
            self.blocks().len() <= usize::MAX,
            r == if index < self.blocks().len() {
                Some(self.blocks()[index as int])
            } else {
                None::<B>
            },
    {
        if index < self.store.len() {
            Some(self.store[index])
        } else {
            None
        }
    }

    /// Index of the block that holds bit `index`.
    fn lookup_store(&self, index: usize) -> (r: usize)
        requires
            self.wf(),
            index < self.spec_capacity(),
        ensures
            r == index as int / B::spec_bits() as int,
            r < self.blocks().len(),
    {
        proof {
            lemma_block_index(index as int, B::spec_bits() as int, self.blocks().len() as int);
        }
        index / B::bits()
    }

    /// Position of bit `index` inside its block.
    fn index_offset(&self, index: usize) -> (r: usize)
        requires
            self.wf(),
        ensures
            r == index as int % B::spec_bits() as int,
            r < B::spec_bits(),
    {
        index % B::bits()
    }

    /// Reads any bit below the capacity, in use or not.
    pub fn get_unchecked(&self, index: usize) -> (r: bool)
        requires
            self.wf(),
            index < self.spec_capacity(),
        ensures
            r == self.all_bits()[index as int],
    {
        let s = self.lookup_store(index);
        let k = self.index_offset(index);
        self.store[s].test_bit(k)
    }

    /// The bit at `index` if it is below the length, else `None`.
    pub fn get(&self, index: usize) -> (r: Option<bool>)
        requires
            self.wf(),
        ensures
            r == bit_get(self@, index as int),
    {
        if index < self.len {
            Some(self.get_unchecked(index))
        } else {
            None
        }
    }

    /// Writes any bit below the capacity; the length stays as it is.
    pub fn set_unchecked(&mut self, index: usize, element: bool)
        requires
            old(self).wf(),
            index < old(self).spec_capacity(),
        ensures
            final(self).wf(),
            final(self).blocks().len() == old(self).blocks().len(),
            final(self).spec_len() == old(self).spec_len(),
            final(self).all_bits() == old(self).all_bits().update(index as int, element),
            final(self)@ == if index < old(self)@.len() {
                old(self)@.update(index as int, element)
            } else {
                old(self)@
            },
    {
        let s = self.lookup_store(index);
        let k = self.index_offset(index);
        let b = self.store[s].with_bit(k, element);
        self.store.set(s, b);
        proof {
            let w = B::spec_bits() as int;
            assert forall|j: int| 0 <= j < self.spec_capacity() && j != index implies self.bit_at(j)
                == old(self).bit_at(j) by {
                lemma_block_index(j, w, self.blocks().len() as int);
                if j / w == s as int {
                    if j % w == k as int {
                        lemma_same_address(j, index as int, w);
                    }
                }
            }
            assert(self.bit_at(index as int) == element);
            assert(self.all_bits() =~= old(self).all_bits().update(index as int, element));
            assert(self@ =~= if index < old(self)@.len() {
                old(self)@.update(index as int, element)
            } else {
                old(self)@
            });
        }
    }

    /// Adds `k` zeroed blocks at the end.
    fn add_blocks(&mut self, k: usize)
        requires
            old(self).wf(),
            (old(self).blocks().len() + k) * B::spec_bits() <= usize::MAX,
        ensures
            final(self).blocks().len() == old(self).blocks().len() + k,
            final(self).spec_len() == old(self).spec_len(),
            forall|j: int| 0 <= j < old(self).blocks().len() ==> #[trigger] final(self).blocks()[j]
                == old(self).blocks()[j],
            forall|j: int, b: nat|
                old(self).blocks().len() <= j < final(self).blocks().len()
                    ==> !#[trigger] final(self).blocks()[j].spec_bit(b),
    {
        let z = B::zero();
        proof {
            let n0 = self.blocks().len();
            let w = B::spec_bits();
            assert(n0 + k <= usize::MAX) by (nonlinear_arith)
                requires
                    (n0 + k) * w <= usize::MAX,
                    1 <= w,
            ;
        }
        let mut added: usize = 0;
        while added < k
            invariant
                old(self).wf(),
                old(self).blocks().len() + k <= usize::MAX,
                added <= k,
                self.spec_len() == old(self).spec_len(),
                self.blocks().len() == old(self).blocks().len() + added,
                forall|j: int| 0 <= j < old(self).blocks().len() ==> #[trigger] self.blocks()[j]
                    == old(self).blocks()[j],
                forall|j: int|
                    old(self).blocks().len() <= j < self.blocks().len() ==> #[trigger] self.blocks()[j]
                        == z,
                forall|b: nat| !#[trigger] z.spec_bit(b),
            decreases k - added,
        {
            self.store.push(z);
            added = added + 1;
        }
    }

    /// Grows or shrinks the allocation by `change` whole blocks, keeping the
    /// bits of the blocks that remain. New blocks are zeroed. A length beyond
    /// the new capacity is cut down to it.
    fn resize(&mut self, change: isize)
        requires
            old(self).wf(),
            old(self).blocks().len() + change >= 1,
            (old(self).blocks().len() + change) * B::spec_bits() <= usize::MAX,
        ensures
            final(self).wf(),
            final(self).blocks().len() == old(self).blocks().len() + change,
            final(self).spec_len() == if old(self).spec_len() <= final(self).spec_capacity() {
                old(self).spec_len()
            } else {
                final(self).spec_capacity()
            },
            forall|i: int|
                0 <= i < final(self).spec_capacity() ==> #[trigger] final(self).all_bits()[i] == (
                i < old(self).spec_capacity() && old(self).all_bits()[i]),
    {
        let ghost before = *self;
        let n = self.store.len();
        if change >= 0 {
            self.add_blocks(change as usize);
        } else {
            let drop: usize = (0isize - (change + 1)) as usize + 1;
            self.store.truncate(n - drop);
        }
        let cap = self.store.len() * B::bits();
        if self.len > cap {
            self.len = cap;
        }
        proof {
            let w = B::spec_bits() as int;
            assert forall|i: int| 0 <= i < self.spec_capacity() implies #[trigger] self.all_bits()[i]
                == (i < before.spec_capacity() && before.all_bits()[i]) by {
                lemma_block_index(i, w, self.blocks().len() as int);
                lemma_block_index(i, w, before.blocks().len() as int);
            }
        }
    }

    /// Doubles the number of blocks; the length stays as it is.
    pub fn grow(&mut self)
        requires
            old(self).wf(),
            2 * old(self).spec_capacity() <= usize::MAX,
        ensures
            final(self).wf(),
            final(self).blocks().len() == 2 * old(self).blocks().len(),
            final(self).spec_capacity() == 2 * old(self).spec_capacity(),
            final(self)@ == old(self)@,
            forall|i: int|
                0 <= i < final(self).spec_capacity() ==> #[trigger] final(self).all_bits()[i] == (
                i < old(self).spec_capacity() && old(self).all_bits()[i]),
    {
        let ghost before = *self;
        proof {
            let n = self.blocks().len();
            let w = B::spec_bits();
            assert(2 * n * w <= usize::MAX ==> n <= isize::MAX) by (nonlinear_arith)
                requires
                    1 <= w,
                    usize::MAX == 2 * isize::MAX + 1,
            ;
            assert((n + n) * w == 2 * (n * w)) by (nonlinear_arith);
        }
        self.resize(self.store.len() as isize);
        proof {
            assert(self.spec_capacity() == 2 * before.spec_capacity()) by (nonlinear_arith)
                requires
                    self.blocks().len() == 2 * before.blocks().len(),
            ;
            assert forall|i: int| 0 <= i < self@.len() implies #[trigger] self@[i] == before@[i] by {
                assert(self.all_bits()[i] == before.all_bits()[i]);
            }
            assert(self@ =~= before@);
        }
    }

    /// Removes `n` blocks from the end (a negative `n` adds blocks). A length
    /// beyond the new capacity is cut down to it.
    pub fn shrink_blocks_by(&mut self, n: isize)
        requires
            old(self).wf(),
            n > isize::MIN,
            old(self).blocks().len() - n >= 1,
            (old(self).blocks().len() - n) * B::spec_bits() <= usize::MAX,
        ensures
            final(self).wf(),
            final(self).blocks().len() == old(self).blocks().len() - n,
            final(self)@.len() == if old(self)@.len() <= final(self).spec_capacity() {
                old(self)@.len()
            } else {
                final(self).spec_capacity()
            },
            final(self)@ == old(self)@.take(final(self)@.len() as int),
            forall|i: int|
                0 <= i < final(self).spec_capacity() ==> #[trigger] final(self).all_bits()[i] == (
                i < old(self).spec_capacity() && old(self).all_bits()[i]),
    {
        let ghost before = *self;
        self.resize(0isize - n);
        proof {
            assert forall|i: int| 0 <= i < self@.len() implies #[trigger] self@[i] == before@[i] by {
                assert(self.all_bits()[i] == before.all_bits()[i]);
            }
            assert(self@ =~= before@.take(self@.len() as int));
        }
    }

    /// Appends `val`, first doubling the blocks when every bit is in use.
    pub fn push(&mut self, val: bool)
        requires
            old(self).wf(),
            old(self)@.len() < old(self).spec_capacity() || 2 * old(self).spec_capacity()
                <= usize::MAX,
        ensures
            final(self).wf(),
            final(self)@ == old(self)@.push(val),
            final(self).blocks().len() == if old(self)@.len() < old(self).spec_capacity() {
                old(self).blocks().len()
            } else {
                2 * old(self).blocks().len()
            },
            final(self).spec_capacity() == if old(self)@.len() < old(self).spec_capacity() {
                old(self).spec_capacity()
            } else {
                2 * old(self).spec_capacity()
            },
            forall|i: int|
                0 <= i < final(self).spec_capacity() && i != old(self)@.len() ==> #[trigger] final(
                self).all_bits()[i] == (i < old(self).spec_capacity() && old(self).all_bits()[i]),
    {
        let ghost before = *self;
        proof {
            let n = self.blocks().len();
            let w = B::spec_bits();
            assert(n * w >= 1) by (nonlinear_arith)
                requires
                    n >= 1,
                    w >= 1,
            ;
        }
        if self.len >= self.capacity() {
            self.grow();
        }
        let ghost grown = *self;
        self.len = self.len + 1;
        let index = self.len - 1;
        proof {
            assert(self@ =~= grown@.push(self.bit_at(index as int)));
        }
        let r = self.set(index, val);
        proof {
            assert(r is Ok);
            assert(self@ =~= before@.push(val));
            assert forall|i: int|
                0 <= i < self.spec_capacity() && i != before@.len() implies #[trigger] self.all_bits()[i]
                == (i < before.spec_capacity() && before.all_bits()[i]) by {
                assert(self.all_bits()[i] == grown.all_bits()[i]);
            }
        }
    }

    /// Removes the last bit and returns it, or `None` when empty. The blocks
    /// stay as they are.
    pub fn pop(&mut self) -> (r: Option<bool>)
        requires
            old(self).wf(),
        ensures
            final(self).wf(),
            final(self).blocks() == old(self).blocks(),
            old(self)@.len() == 0 ==> r is None && final(self)@ == old(self)@,
            old(self)@.len() > 0 ==> r == Some(old(self)@.last()) && final(self)@
                == old(self)@.drop_last(),
    {
        if !self.is_empty() {
            let ghost before = *self;
            self.len = self.len - 1;
            let b = self.get_unchecked(self.len);
            proof {
                assert(self@ =~= before@.drop_last());
            }
            Some(b)
        } else {
            None
        }
    }

    /// Writes the bit at `index` if it is below the length; otherwise reports
    /// `OutOfBounds` and changes nothing.
    pub fn set(&mut self, index: usize, element: bool) -> (r: Result<(), Error>)
        requires
            old(self).wf(),
        ensures
            final(self).wf(),
            r is Ok <==> index < old(self)@.len(),
            r is Err ==> r == Err::<(), Error>(Error::OutOfBounds) && *final(self) == *old(self),
            r is Ok ==> {
                &&& final(self)@ == old(self)@.update(index as int, element)
                &&& final(self).all_bits() == old(self).all_bits().update(index as int, element)
                &&& final(self).blocks().len() == old(self).blocks().len()
            },
    {
        if index < self.len {
            self.set_unchecked(index, element);
            Ok(())
        } else {
            Err(Error::OutOfBounds)
        }
    }
    /// A traversal of the raw blocks, from the first.
    pub fn iter_stores(&self) -> (r: Stores<'_, B>)
        ensures
            r.source() == *self,
            r.position() == 0,
    {
        Stores { bitvec: self, index: 0 }
    }

    /// A traversal of the bits in use, from index 0.
    pub fn iter_bits(&self) -> (r: Bits<'_, B>)
        ensures
            r.source() == *self,
            r.position() == 0,
    {
        Bits { bitvec: self, index: 0 }
    }

    /// The bits in use, in index order, as `'1'` and `'0'`.
    pub fn to_string(&self) -> (r: String)
        requires
            self.wf(),
        ensures
            r@ == render(self@),
    {
        let mut out = String::new();
        let mut bits = self.iter_bits();
        loop
            invariant
                self.wf(),
                bits.source() == *self,
                bits.position() <= self@.len(),
                out@ == render(self@.take(bits.position() as int)),
            ensures
                out@ == render(self@),
            decreases self@.len() - bits.position(),
        {
            let ghost k = bits.position();
            match bits.next() {
                Some(b) => {
                    push_char(&mut out, if b { '1' } else { '0' });
                    proof {
                        assert(self@.take(k as int + 1) =~= self@.take(k as int).push(b));
                        assert(render(self@.take(k as int + 1)) =~= render(self@.take(k as int)).push(
                            if b { '1' } else { '0' }));
                    }
                },
                None => {
                    assert(self@.take(k as int) =~= self@);
                    break;
                },
            }
        }
        out
    }
}

/// The text of a bit sequence: `'1'` for each set bit and `'0'` for each
/// clear one, in order, with nothing between them.
pub open spec fn render(s: Seq<bool>) -> Seq<char> {
    Seq::new(s.len(), |i: int| if s[i] { '1' } else { '0' })
}

/// Relies on `String::push`: the character is appended at the end.
#[verifier::external_body]
fn push_char(s: &mut String, c: char)
    ensures
        final(s)@ == old(s)@.push(c),
{
    s.push(c)
}

/// A forward traversal over the raw blocks of a `BitVec`.
pub struct Stores<'a, B> {
    bitvec: &'a BitVec<B>,
    index: usize,
}

impl<'a, B: BitStore> Stores<'a, B> {
    /// The vector being traversed.
    pub closed spec fn source(&self) -> BitVec<B> {
        *self.bitvec
    }

    /// Index of the next block to hand out.
    pub closed spec fn position(&self) -> nat {
        self.index as nat
    }

    /// The next block, or `None` once every block has been handed out.
    pub fn next(&mut self) -> (r: Option<B>)
        ensures
            final(self).source() == old(self).source(),
            old(self).position() < old(self).source().blocks().len() ==> {
                &&& r == Some(old(self).source().blocks()[old(self).position() as int])
                &&& final(self).position() == old(self).position() + 1
            },
            old(self).position() >= old(self).source().blocks().len() ==> {
                &&& r is None
                &&& final(self).position() == old(self).position()
            },
    {
        let b = self.bitvec.store_as_copy(self.index);
        if b.is_some() {
            self.index = self.index + 1;
        }
        b
    }
}

/// A forward traversal over the bits in use of a `BitVec`.
pub struct Bits<'a, B> {
    bitvec: &'a BitVec<B>,
    index: usize,
}

impl<'a, B: BitStore> Bits<'a, B> {
    /// The vector being traversed.
    pub closed spec fn source(&self) -> BitVec<B> {
        *self.bitvec
    }

    /// Index of the next bit to hand out.
    pub closed spec fn position(&self) -> nat {
        self.index as nat
    }

    /// The next bit, or `None` once every bit in use has been handed out.
    pub fn next(&mut self) -> (r: Option<bool>)
        requires
            old(self).source().wf(),
        ensures
            final(self).source() == old(self).source(),
            r == bit_get(old(self).source()@, old(self).position() as int),
            final(self).position() == if r is Some {
                old(self).position() + 1
            } else {
                old(self).position()
            },
    {
        let b = self.bitvec.get(self.index);
        if b.is_some() {
            self.index = self.index + 1;
        }
        b
    }
}

} // verus!
