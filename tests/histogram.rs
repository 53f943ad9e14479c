use reuse_histogram::{convert_value_to_index, Bucket, Histogram, HistogramError};
use std::collections::HashMap;

#[test]
fn test_clone() {
    let b1 = Bucket(0, 0);
    let b2 = b1.clone();
    assert_eq!(b1.0, b2.0);
    assert_eq!(b1.1, b2.1);
}

#[test]
fn test_value_to_index() {
    let b1 = Bucket(512, 8);
    let b2 = Bucket(513, 8);
    assert_eq!(convert_value_to_index(b1.0, b1.1), convert_value_to_index(b2.0, b2.1));
}

#[test]
fn test_hash() {
    let b1 = Bucket(512, 8);
    let b2 = Bucket(513, 8);

    let mut histogram: HashMap<Bucket, usize> = HashMap::new();
    histogram.insert(b1.clone(), 1);

    if histogram.contains_key(&b2) {
        let temp = histogram.get(&b2).unwrap().clone();
        histogram.insert(b2, temp + 1);
    }

    assert_eq!(*histogram.get(&b1).unwrap(), 2);
}

fn check_insertion() {
    let mut h1 = Histogram::new(8, 513).unwrap();
    h1.insert(512, 2);
    assert_eq!(h1.get(513), 2);

    let mut h2 = Histogram::new(8, 512).unwrap();
    h2.insert(512, 1);
    h2.insert(513, 2);
    assert_eq!(h2.get(512), 1);
    assert_eq!(h2.get(513), 0);
}

fn check_values() {
    let sublog_bits = 1;
    let mut h1 = Histogram::new(sublog_bits, 8).unwrap();
    for i in 1..=7 {
        let temp = h1.get(i);
        h1.insert(i, temp + 1);
    }

    let values = h1.get_values();
    for i in 1..=7 {
        let mut exponent = (63 - (i as u64).leading_zeros()) as i64 - sublog_bits as i64;
        if exponent < 0 {
            exponent = 0;
        }
        assert_eq!(
            values[convert_value_to_index(i, sublog_bits) as usize],
            u64::pow(2, exponent as u32)
        );
    }
}

#[test]
fn histogram_test_histogram_insertion() {
    check_insertion();
}

#[test]
fn histogram_test_histogram_values() {
    check_values();
}

#[test]
fn main_test_histogram_insertion() {
    check_insertion();
}

#[test]
fn main_test_histogram_values() {
    check_values();
}
