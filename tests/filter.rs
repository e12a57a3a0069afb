use bloom1k::{offsets, Bloom1K};

fn built(values: std::ops::Range<i32>) -> Bloom1K {
    let mut f = Bloom1K::empty();
    for v in values {
        f.insert(v);
    }
    f
}

fn same_bits(a: &Bloom1K, b: &Bloom1K) -> bool {
    (0..8192usize).all(|o| a.get_bit(o) == b.get_bit(o))
}

#[test]
fn inserted_values_are_reported() {
    let mut f = built(0..500);
    for v in 0..500i32 {
        assert!(f.contains(v), "value {} lost", v);
    }
}

#[test]
fn inserted_digests_are_reported() {
    let mut f = Bloom1K::empty();
    let digests = [0u64, 1, 0xFFFF_FFFF_FFFF_FFFF, 0x0123_4567_89AB_CDEF, 42 << 30];
    for h in digests {
        f.insert_hash(h);
    }
    for h in digests {
        assert!(f.contains_hash(h));
    }
}

#[test]
fn inserting_twice_changes_nothing() {
    let mut once = Bloom1K::empty();
    once.insert("kilobyte");
    let mut twice = once;
    twice.insert("kilobyte");
    assert!(same_bits(&once, &twice));
    for v in 0..2000i32 {
        assert_eq!(once.contains(v), twice.contains(v));
    }
}

#[test]
fn empty_filter_reports_nothing() {
    let mut f = Bloom1K::empty();
    for v in 0..2000i32 {
        assert!(!f.contains(v));
    }
    for o in 0..8192usize {
        assert!(!f.get_bit(o));
    }
    assert!(!f.contains_hash(0));
    assert!(!f.contains_hash(u64::MAX));
}

#[test]
fn default_is_empty() {
    let d = Bloom1K::default();
    assert!(same_bits(&d, &Bloom1K::empty()));
}

#[test]
fn full_filter_reports_everything() {
    let mut f = Bloom1K::all();
    for v in 0..2000i32 {
        assert!(f.contains(v));
    }
    assert!(f.contains("anything"));
    assert!(f.contains_hash(0x0123_4567_89AB_CDEF));
    for o in 0..8192usize {
        assert!(f.get_bit(o));
    }
}

#[test]
fn union_with_empty_is_identity() {
    let f = built(0..300);
    let mut u = Bloom1K::empty();
    u.union(f);
    assert!(same_bits(&u, &f));
}

#[test]
fn intersection_with_all_is_identity() {
    let f = built(0..300);
    let mut i = Bloom1K::all();
    i.intersection(f);
    assert!(same_bits(&i, &f));
}

#[test]
fn union_keeps_both_sides() {
    let a = built(0..200);
    let mut b = built(1000..1200);
    let mut u = a;
    u.union(b);
    let mut a_before = a;
    for v in 0..3000i32 {
        if a_before.contains(v) || b.contains(v) {
            assert!(u.contains(v), "value {} lost by union", v);
        }
    }
    for v in 0..200i32 {
        assert!(u.contains(v));
    }
    for v in 1000..1200i32 {
        assert!(u.contains(v));
    }
}

#[test]
fn union_with_all_is_all() {
    let mut f = built(0..50);
    f.union(Bloom1K::all());
    assert!(same_bits(&f, &Bloom1K::all()));
}

#[test]
fn intersection_with_empty_is_empty() {
    let mut f = built(0..50);
    f.intersection(Bloom1K::empty());
    assert!(same_bits(&f, &Bloom1K::empty()));
}

#[test]
fn intersection_keeps_common_bits_only() {
    let mut a = Bloom1K::empty();
    a.set_bit(3);
    a.set_bit(100);
    let mut b = Bloom1K::empty();
    b.set_bit(100);
    b.set_bit(4000);
    a.intersection(b);
    for o in 0..8192usize {
        assert_eq!(a.get_bit(o), o == 100);
    }
}

#[test]
fn false_positives_stay_rare() {
    let mut f = built(0..500);
    let mut wrong = 0;
    for v in 500..1500i32 {
        if f.contains(v) {
            wrong += 1;
        }
    }
    assert!(wrong < 50, "{} false positives out of 1000", wrong);
}

#[test]
fn offsets_are_twelve_bit_windows() {
    assert_eq!(
        offsets(0x0123_4567_89AB_CDEF),
        [0xDEF, 0xABC, 0x789, 0x456, 0x123]
    );
    assert_eq!(offsets(0), [0, 0, 0, 0, 0]);
    assert_eq!(offsets(u64::MAX), [0xFFF; 5]);
}

#[test]
fn insert_hash_sets_exactly_its_windows() {
    let mut f = Bloom1K::empty();
    f.insert_hash(0x0123_4567_89AB_CDEF);
    let expected = [0xDEFusize, 0xABC, 0x789, 0x456, 0x123];
    for o in 0..8192usize {
        assert_eq!(f.get_bit(o), expected.contains(&o), "bit {}", o);
    }
    assert!(f.contains_hash(0xF123_4567_89AB_CDEF));
    assert!(!f.contains_hash(0x0123_4567_89AB_CDEE));
}

#[test]
fn offsets_past_the_store_wrap_around() {
    let mut f = Bloom1K::empty();
    f.set_bit(8192 + 5);
    assert!(f.get_bit(5));
    assert!(f.get_bit(5 + 3 * 8192));
    assert!(!f.get_bit(4));
    f.set_bit(usize::MAX);
    assert!(f.get_bit(8191));
    assert!(f.get_bit(usize::MAX));
}

#[test]
fn set_bit_touches_one_bit() {
    let mut f = Bloom1K::empty();
    f.set_bit(4321);
    f.set_bit(4321);
    for o in 0..8192usize {
        assert_eq!(f.get_bit(o), o == 4321);
    }
}

#[test]
fn upper_half_is_never_addressed() {
    let mut f = built(0..2000);
    f.insert("text");
    for o in 4096..8192usize {
        assert!(!f.get_bit(o));
    }
}
