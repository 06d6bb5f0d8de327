use vstd::prelude::*;

verus! {

/// A fixed-width unsigned integer used as one block of packed bits.
///
/// `spec_bit(i)` is bit `i` of the block, counting from the least
/// significant bit; positions at or past the width are never set.
pub trait BitStore: Sized + Copy {
    /// Width of a block, in bits.
    spec fn spec_bits() -> nat;

    /// Bit `i` of the block.
    spec fn spec_bit(self, i: nat) -> bool;

    fn bits() -> (r: usize)
        ensures
            r == Self::spec_bits(),
            1 <= r <= 128,
    ;

    /// The block with no bit set.
    fn zero() -> (r: Self)
        ensures
            forall|i: nat| !(#[trigger] r.spec_bit(i)),
    ;

    /// The block with only bit 0 set.
    fn one() -> (r: Self)
        ensures
            forall|i: nat| #[trigger] r.spec_bit(i) == (i == 0),
    ;

    /// Reads bit `i`.
    fn test_bit(self, i: usize) -> (r: bool)
        requires
            i < Self::spec_bits(),
        ensures
            r == self.spec_bit(i as nat),
    ;

    /// The block with bit `i` set to `v` and every other bit kept.
    fn with_bit(self, i: usize, v: bool) -> (r: Self)
        requires
            i < Self::spec_bits(),
        ensures
            forall|j: nat| #[trigger] r.spec_bit(j) == if j == i { v } else { self.spec_bit(j) },
    ;
}

impl BitStore for u8 {
    open spec fn spec_bits() -> nat {
        8
    }

    open spec fn spec_bit(self, i: nat) -> bool {
        i < 8 && (self >> (i as u8)) & 1u8 == 1u8
    }

    fn bits() -> (r: usize) {
        8
    }

    fn zero() -> (r: u8) {
        assert forall|i: u8| i < 8 implies !((0u8 >> i) & 1u8 == 1u8) by {
            assert(i < 8 ==> !((0u8 >> i) & 1u8 == 1u8)) by (bit_vector);
        }
        0
    }

    fn one() -> (r: u8) {
        assert forall|i: u8| i < 8 implies ((1u8 >> i) & 1u8 == 1u8) == (i == 0) by {
            assert(i < 8 ==> (((1u8 >> i) & 1u8 == 1u8) == (i == 0))) by (bit_vector);
        }
        1
    }

    fn test_bit(self, i: usize) -> (r: bool) {
        let k = i as u8;
        let r = self & (1u8 << k) != 0;
        assert(k < 8 ==> (self & (1u8 << k) != 0) == ((self >> k) & 1u8 == 1u8)) by (bit_vector);
        r
    }

    fn with_bit(self, i: usize, v: bool) -> (r: u8) {
        let k = i as u8;
        let r = if v { self | (1u8 << k) } else { self & !(1u8 << k) };
        assert forall|j: u8| j < 8 implies ((r >> j) & 1u8 == 1u8) == if j == k { v } else {
            (self >> j) & 1u8 == 1u8
        } by {
            if v {
                assert(k < 8 && j < 8 && r == self | (1u8 << k) ==> (((r >> j) & 1u8 == 1u8)
                    == if j == k { true } else { (self >> j) & 1u8 == 1u8 })) by (bit_vector);
            } else {
                assert(k < 8 && j < 8 && r == self & !(1u8 << k) ==> (((r >> j) & 1u8 == 1u8)
                    == if j == k { false } else { (self >> j) & 1u8 == 1u8 })) by (bit_vector);
            }
        }
        r
    }
}

impl BitStore for u16 {
    open spec fn spec_bits() -> nat {
        16
    }

    open spec fn spec_bit(self, i: nat) -> bool {
        i < 16 && (self >> (i as u16)) & 1u16 == 1u16
    }

    fn bits() -> (r: usize) {
        16
    }

    fn zero() -> (r: u16) {
        assert forall|i: u16| i < 16 implies !((0u16 >> i) & 1u16 == 1u16) by {
            assert(i < 16 ==> !((0u16 >> i) & 1u16 == 1u16)) by (bit_vector);
        }
        0
    }

    fn one() -> (r: u16) {
        assert forall|i: u16| i < 16 implies ((1u16 >> i) & 1u16 == 1u16) == (i == 0) by {
            assert(i < 16 ==> (((1u16 >> i) & 1u16 == 1u16) == (i == 0))) by (bit_vector);
        }
        1
    }

    fn test_bit(self, i: usize) -> (r: bool) {
        let k = i as u16;
        let r = self & (1u16 << k) != 0;
        assert(k < 16 ==> (self & (1u16 << k) != 0) == ((self >> k) & 1u16 == 1u16)) by (bit_vector);
        r
    }

    fn with_bit(self, i: usize, v: bool) -> (r: u16) {
        let k = i as u16;
        let r = if v { self | (1u16 << k) } else { self & !(1u16 << k) };
        assert forall|j: u16| j < 16 implies ((r >> j) & 1u16 == 1u16) == if j == k { v } else {
            (self >> j) & 1u16 == 1u16
        } by {
            if v {
                assert(k < 16 && j < 16 && r == self | (1u16 << k) ==> (((r >> j) & 1u16 == 1u16)
                    == if j == k { true } else { (self >> j) & 1u16 == 1u16 })) by (bit_vector);
            } else {
                assert(k < 16 && j < 16 && r == self & !(1u16 << k) ==> (((r >> j) & 1u16 == 1u16)
                    == if j == k { false } else { (self >> j) & 1u16 == 1u16 })) by (bit_vector);
            }
        }
        r
    }
}

impl BitStore for u32 {
    open spec fn spec_bits() -> nat {
        32
    }

    open spec fn spec_bit(self, i: nat) -> bool {
        i < 32 && (self >> (i as u32)) & 1u32 == 1u32
    }

    fn bits() -> (r: usize) {
        32
    }

    fn zero() -> (r: u32) {
        assert forall|i: u32| i < 32 implies !((0u32 >> i) & 1u32 == 1u32) by {
            assert(i < 32 ==> !((0u32 >> i) & 1u32 == 1u32)) by (bit_vector);
        }
        0
    }

    fn one() -> (r: u32) {
        assert forall|i: u32| i < 32 implies ((1u32 >> i) & 1u32 == 1u32) == (i == 0) by {
            assert(i < 32 ==> (((1u32 >> i) & 1u32 == 1u32) == (i == 0))) by (bit_vector);
        }
        1
    }

    fn test_bit(self, i: usize) -> (r: bool) {
        let k = i as u32;
        let r = self & (1u32 << k) != 0;
        assert(k < 32 ==> (self & (1u32 << k) != 0) == ((self >> k) & 1u32 == 1u32)) by (bit_vector);
        r
    }

    fn with_bit(self, i: usize, v: bool) -> (r: u32) {
        let k = i as u32;
        let r = if v { self | (1u32 << k) } else { self & !(1u32 << k) };
        assert forall|j: u32| j < 32 implies ((r >> j) & 1u32 == 1u32) == if j == k { v } else {
            (self >> j) & 1u32 == 1u32
        } by {
            if v {
                assert(k < 32 && j < 32 && r == self | (1u32 << k) ==> (((r >> j) & 1u32 == 1u32)
                    == if j == k { true } else { (self >> j) & 1u32 == 1u32 })) by (bit_vector);
            } else {
                assert(k < 32 && j < 32 && r == self & !(1u32 << k) ==> (((r >> j) & 1u32 == 1u32)
                    == if j == k { false } else { (self >> j) & 1u32 == 1u32 })) by (bit_vector);
            }
        }
        r
    }
}

impl BitStore for u64 {
    open spec fn spec_bits() -> nat {
        64
    }

    open spec fn spec_bit(self, i: nat) -> bool {
        i < 64 && (self >> (i as u64)) & 1u64 == 1u64
    }

    fn bits() -> (r: usize) {
        64
    }

    fn zero() -> (r: u64) {
        assert forall|i: u64| i < 64 implies !((0u64 >> i) & 1u64 == 1u64) by {
            assert(i < 64 ==> !((0u64 >> i) & 1u64 == 1u64)) by (bit_vector);
        }
        0
    }

    fn one() -> (r: u64) {
        assert forall|i: u64| i < 64 implies ((1u64 >> i) & 1u64 == 1u64) == (i == 0) by {
            assert(i < 64 ==> (((1u64 >> i) & 1u64 == 1u64) == (i == 0))) by (bit_vector);
        }
        1
    }

    fn test_bit(self, i: usize) -> (r: bool) {
        let k = i as u64;
        let r = self & (1u64 << k) != 0;
        assert(k < 64 ==> (self & (1u64 << k) != 0) == ((self >> k) & 1u64 == 1u64)) by (bit_vector);
        r
    }

    fn with_bit(self, i: usize, v: bool) -> (r: u64) {
        let k = i as u64;
        let r = if v { self | (1u64 << k) } else { self & !(1u64 << k) };
        assert forall|j: u64| j < 64 implies ((r >> j) & 1u64 == 1u64) == if j == k { v } else {
            (self >> j) & 1u64 == 1u64
        } by {
            if v {
                assert(k < 64 && j < 64 && r == self | (1u64 << k) ==> (((r >> j) & 1u64 == 1u64)
                    == if j == k { true } else { (self >> j) & 1u64 == 1u64 })) by (bit_vector);
            } else {
                assert(k < 64 && j < 64 && r == self & !(1u64 << k) ==> (((r >> j) & 1u64 == 1u64)
                    == if j == k { false } else { (self >> j) & 1u64 == 1u64 })) by (bit_vector);
            }
        }
        r
    }
}

impl BitStore for u128 {
    open spec fn spec_bits() -> nat {
        128
    }

    open spec fn spec_bit(self, i: nat) -> bool {
        i < 128 && (self >> (i as u128)) & 1u128 == 1u128
    }

    fn bits() -> (r: usize) {
        128
    }

    fn zero() -> (r: u128) {
        assert forall|i: u128| i < 128 implies !((0u128 >> i) & 1u128 == 1u128) by {
            assert(i < 128 ==> !((0u128 >> i) & 1u128 == 1u128)) by (bit_vector);
        }
        0
    }

    fn one() -> (r: u128) {
        assert forall|i: u128| i < 128 implies ((1u128 >> i) & 1u128 == 1u128) == (i == 0) by {
            assert(i < 128 ==> (((1u128 >> i) & 1u128 == 1u128) == (i == 0))) by (bit_vector);
        }
        1
    }

    fn test_bit(self, i: usize) -> (r: bool) {
        let k = i as u128;
        let r = self & (1u128 << k) != 0;
        assert(k < 128 ==> (self & (1u128 << k) != 0) == ((self >> k) & 1u128 == 1u128)) by (bit_vector);
        r
    }

    fn with_bit(self, i: usize, v: bool) -> (r: u128) {
        let k = i as u128;
        let r = if v { self | (1u128 << k) } else { self & !(1u128 << k) };
        assert forall|j: u128| j < 128 implies ((r >> j) & 1u128 == 1u128) == if j == k { v } else {
            (self >> j) & 1u128 == 1u128
        } by {
            if v {
                assert(k < 128 && j < 128 && r == self | (1u128 << k) ==> (((r >> j) & 1u128 == 1u128)
                    == if j == k { true } else { (self >> j) & 1u128 == 1u128 })) by (bit_vector);
            } else {
                assert(k < 128 && j < 128 && r == self & !(1u128 << k) ==> (((r >> j) & 1u128 == 1u128)
                    == if j == k { false } else { (self >> j) & 1u128 == 1u128 })) by (bit_vector);
            }
        }
        r
    }
}

} // verus!
