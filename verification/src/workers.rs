//! How many stripes a generation step is divided into.

use vstd::prelude::*;

verus! {

/// `num_cpus::get()`: the number of logical CPUs available to this process.
/// Its documentation promises a value of at least one, and nothing more is
/// claimed here: the value differs from machine to machine.
#[verifier::external_body]
pub(crate) fn worker_count() -> (n: usize)
    ensures
        n >= 1,
{
    num_cpus::get()
}

} // verus!
