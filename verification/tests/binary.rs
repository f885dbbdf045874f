use std::cmp::Ordering;
use teatree::primitives::binary::Binary;

fn bits(s: &str) -> Binary {
    Binary::new(&s.chars().map(|c| c == '1').collect())
}

#[test]
fn binary_new_and_len() {
    assert_eq!(bits("").len(), 0);
    assert_eq!(bits("10110").len(), 5);
    assert_eq!(bits("10110").to_string(), "10110");
}

#[test]
fn binary_max_is_all_ones() {
    assert_eq!(Binary::max(0).to_string(), "");
    assert_eq!(Binary::max(5).to_string(), "11111");
}

#[test]
fn binary_default_is_eight_ones() {
    assert_eq!(Binary::default().to_string(), "11111111");
    assert!(Binary::default() == Binary::max(8));
}

#[test]
fn binary_index() {
    let b = bits("0100");
    assert!(!*b.index(0));
    assert!(*b.index(1));
    assert!(!*b.index(3));
}

#[test]
fn binary_same_prefix() {
    assert_eq!(bits("1110010").get_same_prefix().to_string(), "111");
    assert_eq!(bits("0001").get_same_prefix().to_string(), "000");
    assert_eq!(bits("1").get_same_prefix().to_string(), "1");
    assert_eq!(bits("0000").get_same_prefix().to_string(), "0000");
    assert_eq!(bits("10").get_same_prefix().to_string(), "1");
}

#[test]
fn binary_range() {
    let b = bits("10110");
    assert_eq!(b.range(1, 4).to_string(), "011");
    assert_eq!(b.range(0, 5).to_string(), "10110");
    assert_eq!(b.range(2, 100).to_string(), "110");
    assert_eq!(b.range(3, 3).to_string(), "");
    assert_eq!(b.range(4, 2).to_string(), "");
    assert_eq!(b.range(5, 9).to_string(), "");
    assert_eq!(b.range(9, 12).to_string(), "");
}

#[test]
fn binary_xor() {
    assert_eq!(bits("1100").xor(&bits("1010")).to_string(), "0110");
    assert_eq!(bits("11").xor(&bits("0110")).to_string(), "10");
    assert_eq!(bits("").xor(&bits("1")).to_string(), "");
    assert_eq!(bits("1011").xor(&bits("1011")).to_string(), "0000");
}

#[test]
fn binary_equality() {
    assert!(bits("101") == bits("101"));
    assert!(bits("101") != bits("100"));
    assert!(bits("101") != bits("1010"));
    assert!(bits("") == bits(""));
}

#[test]
fn binary_order_is_lexicographic() {
    assert_eq!(bits("0").partial_cmp(&bits("1")), Some(Ordering::Less));
    assert_eq!(bits("10").partial_cmp(&bits("01")), Some(Ordering::Greater));
    assert_eq!(bits("10").partial_cmp(&bits("10")), Some(Ordering::Equal));
    assert_eq!(bits("1").partial_cmp(&bits("10")), Some(Ordering::Less));
    assert_eq!(bits("11").partial_cmp(&bits("1")), Some(Ordering::Greater));
    assert_eq!(bits("").partial_cmp(&bits("0")), Some(Ordering::Less));
    assert!(bits("011") < bits("1"));
}

#[test]
fn binary_order_agrees_with_the_total_order() {
    let all = ["", "0", "1", "00", "01", "10", "11", "010", "110"];
    for a in all.iter() {
        for b in all.iter() {
            assert_eq!(bits(a).partial_cmp(&bits(b)), Some(bits(a).cmp(&bits(b))));
            assert_eq!(bits(a) == bits(b), bits(a).cmp(&bits(b)) == Ordering::Equal);
        }
    }
}
