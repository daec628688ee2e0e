use fas_rs::extension::{set_ignore_policy, set_policy_freq_offset, ExtensionError};
use std::collections::HashMap;
use std::sync::atomic::{AtomicBool, AtomicIsize, Ordering};
use std::sync::Arc;

#[test]
fn an_offset_reaches_its_cluster() {
    let little = Arc::new(AtomicIsize::new(0));
    let big = Arc::new(AtomicIsize::new(0));
    let mut offsets = HashMap::new();
    offsets.insert(0, little.clone());
    offsets.insert(4, big.clone());
    assert_eq!(set_policy_freq_offset(&offsets, 4, -200_000), Ok(()));
    assert_eq!(big.load(Ordering::Acquire), -200_000);
    assert_eq!(little.load(Ordering::Acquire), 0);
    assert_eq!(set_policy_freq_offset(&offsets, 0, 7), Ok(()));
    assert_eq!(little.load(Ordering::Acquire), 7);
}

#[test]
fn an_offset_for_no_cluster_is_refused() {
    let cell = Arc::new(AtomicIsize::new(3));
    let mut offsets = HashMap::new();
    offsets.insert(0, cell.clone());
    assert_eq!(set_policy_freq_offset(&offsets, 7, 1), Err(ExtensionError::PolicyNotFound));
    assert_eq!(cell.load(Ordering::Acquire), 3);
    assert_eq!(
        set_policy_freq_offset(&HashMap::new(), 0, 1),
        Err(ExtensionError::PolicyNotFound)
    );
}

#[test]
fn a_cluster_is_taken_out_and_put_back() {
    let cell = Arc::new(AtomicBool::new(false));
    let mut ignored = HashMap::new();
    ignored.insert(4, cell.clone());
    assert_eq!(set_ignore_policy(&ignored, 4, true), Ok(()));
    assert!(cell.load(Ordering::Acquire));
    assert_eq!(set_ignore_policy(&ignored, 4, false), Ok(()));
    assert!(!cell.load(Ordering::Acquire));
    assert_eq!(set_ignore_policy(&ignored, 0, true), Err(ExtensionError::PolicyNotFound));
    assert!(!cell.load(Ordering::Acquire));
}

#[test]
fn the_error_says_what_is_missing() {
    assert_eq!(ExtensionError::PolicyNotFound.message(), "Policy Not Found!");
}
