//! Cycle counts that several threads read and write without locking.
//!
//! A cluster publishes three such values: the headroom it aims for, the
//! ceiling on that headroom, and the frequency it committed last. Other
//! threads may store into them at any moment, so a value that was loaded says
//! nothing about the next load.

use atomic::Atomic;
use atomic::Ordering;
use cpu_cycles_reader::Cycles;
use std::sync::Arc;
use vstd::prelude::*;

verus! {

#[verifier::external_type_specification]
#[verifier::external_body]
pub struct ExCycles(Cycles);

#[verifier::external_type_specification]
#[verifier::external_body]
#[verifier::reject_recursive_types(T)]
pub struct ExAtomic<T>(Atomic<T>);

/// Allocates a shared cell that starts at `hz` cycles per second
/// (`Cycles::from_hz`, `Atomic::new`). Nothing is claimed of the cell: it is
/// shared from the moment it exists.
#[verifier::external_body]
pub(crate) fn shared_cycles(hz: i64) -> (cell: Arc<Atomic<Cycles>>) {
    Arc::new(Atomic::new(Cycles::from_hz(hz)))
}

/// Loads the cell with acquire ordering (`Atomic::load`) and hands back the
/// count in cycles per second (`Cycles::as_hz`). Another thread may have
/// stored any value, so nothing is claimed of the result.
#[verifier::external_body]
pub(crate) fn load_hz(cell: &Arc<Atomic<Cycles>>) -> (hz: i64) {
    cell.load(Ordering::Acquire).as_hz()
}

/// Stores `hz` cycles per second into the cell with release ordering
/// (`Cycles::from_hz`, `Atomic::store`).
#[verifier::external_body]
pub(crate) fn store_hz(cell: &Arc<Atomic<Cycles>>, hz: i64) {
    cell.store(Cycles::from_hz(hz), Ordering::Release)
}

/// Converts kilohertz to hertz with `Cycles::from_khz`, which multiplies by
/// one thousand, and reads the product back with `Cycles::as_hz`. The
/// multiplication must fit in 64 bits.
#[verifier::external_body]
pub(crate) fn khz_to_hz(khz: i64) -> (hz: i64)
    requires
        i64::MIN <= khz * 1000 <= i64::MAX,
    ensures
        hz == khz * 1000,
{
    Cycles::from_khz(khz).as_hz()
}

} // verus!
