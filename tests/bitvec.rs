use cevtib::BitVec;

fn bv() -> BitVec<u64> {
    BitVec::<u64>::new()
}

#[test]
fn bitvec_alloc() {
    bv();
}

#[test]
fn bitvec_initial_cap() {
    assert_eq!(128, bv().capacity());
}

#[test]
fn bitvec_get_unchecked() {
    let b = bv();

    assert_eq!(false, b.get_unchecked(0));
    assert_eq!(false, b.get_unchecked(63));
}

#[test]
fn bitvec_set_unchecked() {
    let mut b = bv();

    b.set_unchecked(63, true);
    b.set_unchecked(33, true);
    b.set_unchecked(31, true);

    b.set_unchecked(32, true);
    b.set_unchecked(32, false);

    assert_eq!(false, b.get_unchecked(0));

    assert_eq!(true, b.get_unchecked(63));
    assert_eq!(true, b.get_unchecked(33));
    assert_eq!(true, b.get_unchecked(31));

    assert_eq!(false, b.get_unchecked(32));
}

#[test]
fn bitvec_set() {
    let mut b = bv();
    b.push(true);
    let r1 = b.set(0, false);
    let r2 = b.set(63, true);
    assert!(r1.is_ok());
    assert!(r2.is_err());
}

#[test]
fn bitvec_grow() {
    let mut b = bv();
    let num_indices = 139;

    for _ in 0..num_indices {
        b.push(true);
    }

    for i in 0..num_indices {
        let val = b.get(i);
        assert_eq!(Some(true), val);
    }

    assert_eq!(256, b.capacity());
    assert_eq!(139, b.len());

    b.grow();

    assert_eq!(512, b.capacity());
    assert_eq!(139, b.len());
    assert_eq!(None, b.get(139));
    assert_eq!(Some(true), b.get(138));
}

#[test]
fn bitvec_shrink() {
    let mut b = bv();
    let num_indices = 139;

    for _ in 0..num_indices {
        b.push(true);
    }

    for i in 0..num_indices {
        let val = b.get(i);
        assert_eq!(Some(true), val);
    }

    assert_eq!(256, b.capacity());
    assert_eq!(139, b.len());

    // a false bit in the middle comes back as false when popped
    let false_index = 128;
    let _ = b.set(false_index, false);

    let remove_indices = 100;

    for i in 0..remove_indices {
        let val = b.pop();

        if num_indices - i - 1 == false_index {
            assert_eq!(Some(false), val);
        } else {
            assert_eq!(Some(true), val);
        }
    }

    b.shrink_blocks_by(2);

    assert_eq!(128, b.capacity());
    assert_eq!(num_indices - remove_indices, b.len());
}

#[test]
fn bitvec_iterator() {
    let mut b = bv();

    for i in 0..10 {
        b.push(i % 2 == 0);
    }

    let mut iter = b.iter_bits();
    for i in 0..10 {
        assert_eq!(Some(i % 2 == 0), iter.next());
    }

    assert_eq!(None, iter.next());
}

#[test]
fn bitvec_display() {
    let mut b = bv();

    for _ in 0..4 {
        b.push(true);
    }

    b.push(false);
    b.push(false);
    b.push(true);

    assert_eq!("1111001", b.to_string());
}
