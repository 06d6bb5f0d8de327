use cevtib::{BitVec, Error};

#[test]
fn fresh_capacity_reads_false_everywhere() {
    let b = BitVec::<u8>::new();
    assert_eq!(16, b.capacity());
    for i in 0..16 {
        assert_eq!(false, b.get_unchecked(i));
    }
    let w = BitVec::<u128>::new();
    assert_eq!(256, w.capacity());
    for i in 0..256 {
        assert_eq!(false, w.get_unchecked(i));
    }
}

#[test]
fn push_then_get_last_returns_pushed() {
    let mut b = BitVec::<u16>::new();
    let pattern = [true, false, false, true, true, false, true];
    for round in 0..20 {
        let v = pattern[round % pattern.len()];
        b.push(v);
        assert_eq!(Some(v), b.get(b.len() - 1));
    }
    assert_eq!(20, b.len());
}

#[test]
fn pop_after_push_restores_length() {
    let mut b = BitVec::<u32>::new();
    for i in 0..5 {
        b.push(i % 3 == 0);
    }
    for v in [true, false] {
        let before = b.len();
        b.push(v);
        assert_eq!(Some(v), b.pop());
        assert_eq!(before, b.len());
    }
}

#[test]
fn pop_on_empty_gives_none() {
    let mut b = BitVec::<u8>::new();
    assert!(b.is_empty());
    assert_eq!(None, b.pop());
    assert_eq!(0, b.len());
    assert_eq!(16, b.capacity());
}

#[test]
fn set_then_get_within_length() {
    let mut b = BitVec::<u8>::new();
    for _ in 0..12 {
        b.push(false);
    }
    assert_eq!(Ok(()), b.set(9, true));
    assert_eq!(Some(true), b.get(9));
    assert_eq!(Some(false), b.get(8));
    assert_eq!(Ok(()), b.set(9, false));
    assert_eq!(Some(false), b.get(9));
}

#[test]
fn set_past_length_is_out_of_bounds() {
    let mut b = BitVec::<u64>::new();
    b.push(true);
    b.push(true);
    assert_eq!(Err(Error::OutOfBounds), b.set(2, false));
    assert_eq!(Err(Error::OutOfBounds), b.set(127, true));
    assert_eq!(Err(Error::OutOfBounds), b.set(usize::MAX, true));
    assert_eq!(2, b.len());
    assert_eq!(Some(true), b.get(1));
    assert_eq!(None, b.get(2));
}

#[test]
fn capacity_is_whole_blocks() {
    let mut b = BitVec::<u32>::new();
    for i in 0..200 {
        b.push(i % 5 == 1);
        assert_eq!(0, b.capacity() % 32);
    }
    assert_eq!(256, b.capacity());
    b.shrink_blocks_by(1);
    assert_eq!(224, b.capacity());
    assert_eq!(200, b.len());
    b.shrink_blocks_by(-3);
    assert_eq!(320, b.capacity());
}

#[test]
fn alternating_round_trip() {
    let mut b = BitVec::<u8>::new();
    let n = 45;
    for i in 0..n {
        b.push(i % 2 == 0);
    }
    assert_eq!(n, b.len());
    for i in 0..n {
        assert_eq!(Some(i % 2 == 0), b.get(i));
    }
    assert_eq!(None, b.get(n));
}

#[test]
fn push_at_full_capacity_doubles() {
    let mut b = BitVec::<u8>::new();
    for _ in 0..16 {
        b.push(true);
    }
    assert_eq!(16, b.len());
    assert_eq!(16, b.capacity());
    b.push(false);
    assert_eq!(32, b.capacity());
    assert_eq!(17, b.len());
    assert_eq!(Some(false), b.get(16));
    assert_eq!(Some(true), b.get(15));
}

#[test]
fn shrink_below_length_clamps() {
    let mut b = BitVec::<u8>::new();
    for i in 0..30 {
        b.push(i % 4 == 0);
    }
    assert_eq!(32, b.capacity());
    b.shrink_blocks_by(3);
    assert_eq!(8, b.capacity());
    assert_eq!(8, b.len());
    for i in 0..8 {
        assert_eq!(Some(i % 4 == 0), b.get(i));
    }
    assert_eq!(None, b.get(8));
}

#[test]
fn alternating_ten_renders() {
    let mut b = BitVec::<u64>::new();
    for i in 0..10 {
        b.push(i % 2 == 0);
    }
    assert_eq!(Some(true), b.get(2));
    assert_eq!(Some(false), b.get(3));
    assert_eq!("1010101010", b.to_string());
}

#[test]
fn growth_past_two_blocks_of_64() {
    let mut b = BitVec::<u64>::new();
    assert_eq!(128, b.capacity());
    for k in 0..139 {
        b.push(true);
        if k == 127 {
            assert_eq!(128, b.capacity());
        }
        if k == 128 {
            assert_eq!(256, b.capacity());
        }
    }
    assert_eq!(256, b.capacity());
    assert_eq!(139, b.len());
    assert_eq!(None, b.get(139));
    assert_eq!(Some(true), b.get(138));
}

#[test]
fn empty_renders_as_empty_text() {
    let b = BitVec::<u16>::new();
    assert_eq!("", b.to_string());
    let mut iter = b.iter_bits();
    assert_eq!(None, iter.next());
}

#[test]
fn block_traversal_yields_raw_blocks() {
    let mut b = BitVec::<u8>::new();
    for i in 0..10 {
        b.push(i == 0 || i == 3 || i == 9);
    }
    let mut stores = b.iter_stores();
    assert_eq!(Some(0b0000_1001u8), stores.next());
    assert_eq!(Some(0b0000_0010u8), stores.next());
    assert_eq!(None, stores.next());
    assert_eq!(None, stores.next());
}

#[test]
fn set_unchecked_beyond_length_keeps_length() {
    let mut b = BitVec::<u16>::new();
    b.push(false);
    b.set_unchecked(20, true);
    assert_eq!(1, b.len());
    assert_eq!(true, b.get_unchecked(20));
    assert_eq!(None, b.get(20));
    b.set_unchecked(20, false);
    assert_eq!(false, b.get_unchecked(20));
}
