use rhai_core::BloomFilterU64;

#[test]
fn new_filter_is_empty() {
    let f = BloomFilterU64::new();
    assert!(f.is_empty());
    assert!(f.is_absent(0));
    assert!(f.is_absent(u64::MAX));
}

#[test]
fn mark_uses_low_byte() {
    let mut f = BloomFilterU64::new();
    f.mark(0x1234_5678_9abc_de42);
    assert!(!f.is_empty());
    assert!(!f.is_absent(0x42));
    assert!(!f.is_absent(0xff42));
    assert!(f.is_absent(0x43));
    f.mark(255);
    assert!(!f.is_absent(0xffff));
}

#[test]
fn clear_empties() {
    let mut f = BloomFilterU64::new();
    f.mark(7);
    f.mark(200);
    f.clear();
    assert!(f.is_empty());
    assert!(f.is_absent(7));
}

#[test]
fn union_of_filters() {
    let mut a = BloomFilterU64::new();
    let mut b = BloomFilterU64::new();
    a.mark(1);
    b.mark(130);
    let c = a.add(&b);
    assert!(!c.is_absent(1) && !c.is_absent(130) && c.is_absent(2));
    a.add_assign(&b);
    assert!(!a.is_absent(130));
}

#[test]
fn default_filter_is_empty() {
    let f = BloomFilterU64::default();
    assert!(f.is_empty());
}
