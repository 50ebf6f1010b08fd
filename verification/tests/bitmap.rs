use shyper_vm::bitmap::FlexBitmap;

#[test]
fn new_bitmap_is_clear() {
    let b = FlexBitmap::new(130);
    assert_eq!(b.bit_len(), 130);
    assert_eq!(b.vec_len(), 3);
    assert_eq!(b.sum(), 0);
    assert_eq!(b.slice(), &[0u64, 0, 0][..]);
}

#[test]
fn word_count_rounds_up() {
    assert_eq!(FlexBitmap::new(0).vec_len(), 0);
    assert_eq!(FlexBitmap::new(1).vec_len(), 1);
    assert_eq!(FlexBitmap::new(64).vec_len(), 1);
    assert_eq!(FlexBitmap::new(65).vec_len(), 2);
}

#[test]
fn set_then_get() {
    let mut b = FlexBitmap::new(100);
    b.set(0, true);
    b.set(63, true);
    b.set(64, true);
    b.set(99, true);
    assert_eq!(b.get(0), 1);
    assert_eq!(b.get(1), 0);
    assert_eq!(b.get(63), 1);
    assert_eq!(b.get(64), 1);
    assert_eq!(b.get(98), 0);
    assert_eq!(b.get(99), 1);
    assert_eq!(b.sum(), 4);
    assert_eq!(b.slice(), &[0x8000_0000_0000_0001u64, 0x8_0000_0001][..]);
    b.set(63, false);
    assert_eq!(b.get(63), 0);
    assert_eq!(b.sum(), 3);
}

#[test]
fn dirty_sets_exactly_len_bits() {
    let mut b = FlexBitmap::new(70);
    b.init_dirty();
    assert_eq!(b.sum(), 70);
    assert_eq!(b.slice(), &[u64::MAX, 0x3f][..]);
    for i in 0..70 {
        assert_eq!(b.get(i), 1);
    }
    b.clear();
    assert_eq!(b.sum(), 0);
    assert_eq!(b.slice(), &[0u64, 0][..]);
}

#[test]
fn dirty_full_words() {
    let mut b = FlexBitmap::new(128);
    b.init_dirty();
    assert_eq!(b.sum(), 128);
    assert_eq!(b.slice(), &[u64::MAX, u64::MAX][..]);
}
