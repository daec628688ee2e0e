//! Tunables that policies outside the control loop may set per cluster.
//!
//! Each cluster, named by the number of its policy, has a frequency offset
//! and a flag that takes it out of the control loop. Both are shared with the
//! cluster's own threads, which read them whenever they like.

use std::collections::HashMap;
use std::sync::atomic::AtomicBool;
use std::sync::atomic::AtomicIsize;
use std::sync::atomic::Ordering;
use std::sync::Arc;
use vstd::prelude::*;

verus! {

/// A tunable could not be set.
#[derive(Clone, Copy, PartialEq, Eq, Structural, Debug)]
pub enum ExtensionError {
    /// No cluster has the policy number that was given.
    PolicyNotFound,
}

impl ExtensionError {
    /// The error in words.
    pub fn message(&self) -> (text: &'static str)
        ensures
            text@ == "Policy Not Found!"@,
    {
        "Policy Not Found!"
    }
}

/// Sets the frequency offset of the cluster `policy`. Fails where `offsets`
/// knows no such cluster.
pub fn set_policy_freq_offset(
    offsets: &HashMap<i32, Arc<AtomicIsize>>,
    policy: i32,
    offset: isize,
) -> (done: Result<(), ExtensionError>)
    ensures
        done is Ok <==> offsets@.contains_key(policy),
        done matches Err(e) ==> e == ExtensionError::PolicyNotFound,
{
    broadcast use vstd::std_specs::hash::group_hash_axioms;

    match offsets.get(&policy) {
        Some(cell) => {
            cell.store(offset, Ordering::Release);
            Ok(())
        },
        None => Err(ExtensionError::PolicyNotFound),
    }
}

/// Takes the cluster `policy` out of the control loop, or puts it back.
/// Fails where `ignored` knows no such cluster.
pub fn set_ignore_policy(
    ignored: &HashMap<i32, Arc<AtomicBool>>,
    policy: i32,
    val: bool,
) -> (done: Result<(), ExtensionError>)
    ensures
        done is Ok <==> ignored@.contains_key(policy),
        done matches Err(e) ==> e == ExtensionError::PolicyNotFound,
{
    broadcast use vstd::std_specs::hash::group_hash_axioms;

    match ignored.get(&policy) {
        Some(cell) => {
            cell.store(val, Ordering::Release);
            Ok(())
        },
        None => Err(ExtensionError::PolicyNotFound),
    }
}

} // verus!
