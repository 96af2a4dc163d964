use bloom::bloom::{Bloom, SizingError};
use bloom::hashing::{decimal_bytes, item_hashes, probe_index};

// Bits for 100 items at a 5% false-positive rate: 100 * -ln(0.05) / ln(2)^2,
// truncated.
const DEFAULT_BITS: usize = 623;

fn default_filter() -> Bloom {
    Bloom::with_bitmap_size(100, 0.05f64.to_bits(), DEFAULT_BITS).unwrap()
}

fn set_bits(f: &Bloom) -> Vec<usize> {
    let mut out = Vec::new();
    for i in 0..f.get_bits_in_the_filter() {
        if f.is_bit_set(i) {
            out.push(i);
        }
    }
    out
}

#[test]
fn never_inserted_item_is_rejected() {
    let mut f = default_filter();
    for item in ["asd", "sad", "TO", "TOF", "fOOT"] {
        f.insert_item(item);
    }
    assert!(!f.might_contain("TOFU"));
}

#[test]
fn substrings_are_distinct_items() {
    let mut f = default_filter();
    f.insert_item("TOFU");
    assert!(f.might_contain("TOFU"));
    assert!(!f.might_contain("TOF"));
    assert!(!f.might_contain("TO"));
}

#[test]
fn inserted_items_are_always_found() {
    let mut f = default_filter();
    let items: Vec<String> = (0..150).map(|i| format!("item-{}", i)).collect();
    for (n, item) in items.iter().enumerate() {
        f.insert_item(item);
        for earlier in &items[..=n] {
            assert!(f.might_contain(earlier));
        }
    }
    f.insert_item("");
    assert!(f.might_contain(""));
}

#[test]
fn set_bits_never_shrink() {
    let mut f = default_filter();
    let mut before = set_bits(&f);
    assert!(before.is_empty());
    for item in ["alpha", "beta", "gamma", "alpha", "delta"] {
        f.insert_item(item);
        let after = set_bits(&f);
        assert!(before.iter().all(|b| after.contains(b)));
        before = after;
    }
}

#[test]
fn inserting_twice_is_inserting_once() {
    let mut f = default_filter();
    f.insert_item("hello");
    let once = set_bits(&f);
    assert!(!once.is_empty());
    assert!(once.len() <= 4);
    f.insert_item("hello");
    assert_eq!(set_bits(&f), once);
}

#[test]
fn fresh_filter_contains_nothing() {
    let f = default_filter();
    for item in ["", "a", "TOFU", "asd", "some longer item with spaces"] {
        assert!(!f.might_contain(item));
    }
}

#[test]
fn same_insertions_give_same_state() {
    let mut a = default_filter();
    let mut b = default_filter();
    for item in ["x", "y", "zz", "x", "hello world"] {
        a.insert_item(item);
        b.insert_item(item);
    }
    assert_eq!(set_bits(&a), set_bits(&b));
    for q in ["x", "y", "zz", "w", "hello", "hello world"] {
        assert_eq!(a.might_contain(q), b.might_contain(q));
    }
}

#[test]
fn sizing_entry_points_agree() {
    let f = default_filter();
    assert_eq!(f.get_bits_in_the_filter(), DEFAULT_BITS);
    assert_eq!(
        f.get_number_of_hash_functions(),
        Bloom::get_optimal_number_of_hash_functions(DEFAULT_BITS, 100)
    );
    assert_eq!(f.get_number_of_hash_functions(), 4);
}

#[test]
fn hash_count_formula_values() {
    assert_eq!(Bloom::get_optimal_number_of_hash_functions(1000, 100), 6);
    assert_eq!(Bloom::get_optimal_number_of_hash_functions(144, 10), 9);
    assert_eq!(Bloom::get_optimal_number_of_hash_functions(1443, 1000), 1);
    assert_eq!(Bloom::get_optimal_number_of_hash_functions(2886, 1000), 2);
    assert_eq!(Bloom::get_optimal_number_of_hash_functions(2885, 1000), 1);
    assert_eq!(Bloom::get_optimal_number_of_hash_functions(usize::MAX, 1), 12786308645202655651);
}

#[test]
fn hash_count_is_at_least_one() {
    assert_eq!(Bloom::get_optimal_number_of_hash_functions(1, 1000), 1);
    assert_eq!(Bloom::get_optimal_number_of_hash_functions(1442, 1000), 1);
    assert_eq!(Bloom::get_optimal_number_of_hash_functions(0, 7), 1);
    assert_eq!(Bloom::get_optimal_number_of_hash_functions(10, i32::MAX), 1);
    let f = Bloom::with_bitmap_size(1_000_000, 0.5f64.to_bits(), 8).unwrap();
    assert_eq!(f.get_number_of_hash_functions(), 1);
}

#[test]
fn zero_expected_insertions_is_rejected() {
    assert_eq!(
        Bloom::with_bitmap_size(0, 0.05f64.to_bits(), 100).err(),
        Some(SizingError::NoExpectedInsertions)
    );
    assert_eq!(
        Bloom::with_bitmap_size(-3, 0.05f64.to_bits(), 0).err(),
        Some(SizingError::NoExpectedInsertions)
    );
}

#[test]
fn empty_bitmap_is_rejected() {
    assert_eq!(
        Bloom::with_bitmap_size(100, 0.05f64.to_bits(), 0).err(),
        Some(SizingError::EmptyBitmap)
    );
}

#[test]
fn oversized_bitmap_is_rejected() {
    assert_eq!(
        Bloom::with_bitmap_size(100, 0.05f64.to_bits(), usize::MAX).err(),
        Some(SizingError::BitmapTooLarge)
    );
    assert_eq!(
        Bloom::with_bitmap_size(100, 0.05f64.to_bits(), usize::MAX / 8 + 1).err(),
        Some(SizingError::BitmapTooLarge)
    );
}

#[test]
fn one_bit_filter_answers_yes_after_any_insert() {
    let mut f = Bloom::with_bitmap_size(1, 0.05f64.to_bits(), 1).unwrap();
    assert!(!f.might_contain("anything"));
    f.insert_item("something");
    assert!(f.is_bit_set(0));
    assert!(f.might_contain("anything"));
}

#[test]
fn configuration_is_kept() {
    let f = default_filter();
    assert_eq!(f.get_number_of_elements_to_be_inserted(), 100);
    let f = default_filter();
    assert_eq!(f64::from_bits(f.get_desired_false_positive_probability_bits()), 0.05);
}

#[test]
fn decimal_text_of_hashes() {
    assert_eq!(decimal_bytes(0), b"0".to_vec());
    assert_eq!(decimal_bytes(7), b"7".to_vec());
    assert_eq!(decimal_bytes(10), b"10".to_vec());
    assert_eq!(decimal_bytes(1234567), b"1234567".to_vec());
    assert_eq!(decimal_bytes(u64::MAX), b"18446744073709551615".to_vec());
}

#[test]
fn item_hashes_use_xxh3() {
    let (base, delta) = item_hashes(b"");
    assert_eq!(base, 0x2D06800538D394C2);
    assert_eq!(delta, item_hashes(base.to_string().as_bytes()).0);
    assert_ne!(base, delta);
    assert_ne!(item_hashes(b"TOFU").0, item_hashes(b"TOF").0);
}

#[test]
fn probe_index_wraps() {
    assert_eq!(probe_index(10, 3, 2, 7), 2);
    assert_eq!(probe_index(10, 3, 0, 7), 3);
    assert_eq!(probe_index(u64::MAX, 1, 1, 10), 0);
    assert_eq!(probe_index(u64::MAX, u64::MAX, 2, 1000), 613);
}
