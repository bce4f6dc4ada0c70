use keystream::report::{analyze, count_ascii_occurrences, key_report, BYTE_VALUES};
use std::collections::HashMap;

#[test]
fn counts_of_no_bytes() {
    assert_eq!(count_ascii_occurrences(&[]), HashMap::new());
}

#[test]
fn counts_of_some_bytes() {
    let counts = count_ascii_occurrences(&[1, 2, 1, 255, 1, 2, 0]);
    let mut expected = HashMap::new();
    expected.insert(0u8, 1usize);
    expected.insert(1, 3);
    expected.insert(2, 2);
    expected.insert(255, 1);
    assert_eq!(counts, expected);
    assert_eq!(counts.get(&3), None);
}

#[test]
fn counts_add_up_to_length() {
    let data: Vec<u8> = (0..1000).map(|i| (i * i % 251) as u8).collect();
    let counts = count_ascii_occurrences(&data);
    assert_eq!(counts.values().sum::<usize>(), 1000);
    for (byte, count) in counts.iter() {
        assert_eq!(*count, data.iter().filter(|other| *other == byte).count());
    }
}

#[test]
fn figures_of_counts() {
    let mut counts = HashMap::new();
    counts.insert(0u8, 4usize);
    counts.insert(9, 1);
    counts.insert(255, 7);
    let report = analyze(&counts, 12);
    assert_eq!(report.per_byte.len(), BYTE_VALUES);
    assert_eq!(report.per_byte[0], 4);
    assert_eq!(report.per_byte[9], 1);
    assert_eq!(report.per_byte[255], 7);
    assert_eq!(report.per_byte[1], 0);
    assert_eq!(report.per_byte.iter().sum::<usize>(), 12);
    assert_eq!(report.unique, 3);
    assert_eq!(report.actual, 12);
    assert_eq!(report.expected, 12);
    assert!(report.matches_expected());
    assert!(!report.all_present());
    assert!(!analyze(&counts, 13).matches_expected());
}

#[test]
fn figures_of_data_with_every_byte_value() {
    let data: Vec<u8> = (0..512).map(|i| (i % 256) as u8).collect();
    let report = key_report(&data, 500);
    assert_eq!(report.unique, 256);
    assert_eq!(report.actual, 512);
    assert_eq!(report.expected, 500);
    assert!(report.per_byte.iter().all(|count| *count == 2));
    assert!(report.all_present());
    assert!(!report.matches_expected());
}

#[test]
fn figures_of_no_data() {
    let report = key_report(&[], 0);
    assert_eq!(report.unique, 0);
    assert_eq!(report.actual, 0);
    assert_eq!(report.per_byte, vec![0usize; 256]);
    assert!(report.matches_expected());
    assert!(!report.all_present());
}
