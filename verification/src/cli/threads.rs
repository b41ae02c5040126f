//! How many images are worked on at the same time.

use vstd::prelude::*;

verus! {

/// What a `--threads` argument asks for: one where it is absent or zero.
pub open spec fn requested_threads(threads: Option<u16>) -> usize {
    match threads {
        Some(count) if count > 0 => count as usize,
        _ => 1,
    }
}

/// What a machine can run of a request: at least one, at most its own
/// parallelism.
pub open spec fn clamped(requested: usize, machine: usize) -> usize {
    if requested < 1 {
        1
    } else if requested > machine {
        machine
    } else {
        requested
    }
}

/// The concurrency asked for through `--threads`, before any clamping.
///
/// The number divides the memory budget, so it is never zero.
pub fn requested(threads: Option<u16>) -> (count: usize)
    ensures
        count == requested_threads(threads),
        count >= 1,
{
    match threads {
        Some(count) => {
            if count > 0 {
                count as usize
            } else {
                1
            }
        },
        None => 1,
    }
}

/// A requested concurrency reduced to what the machine can run.
///
/// Asking for more workers than there are CPUs buys no parallelism, but it
/// shrinks the memory that each image may use. `machine` is the parallelism
/// that the machine reports.
pub fn clamp(requested: usize, machine: usize) -> (count: usize)
    requires
        machine >= 1,
    ensures
        count == clamped(requested, machine),
        1 <= count <= machine,
{
    if requested < 1 {
        1
    } else if requested > machine {
        machine
    } else {
        requested
    }
}

/// A request that the machine can honour survives, the machine's own
/// parallelism among them; a larger one falls back to the machine.
pub proof fn law_only_what_the_machine_lacks_is_taken_away(requested: usize, machine: usize)
    requires
        machine >= 1,
    ensures
        1 <= requested <= machine ==> clamped(requested, machine) == requested,
        requested > machine ==> clamped(requested, machine) == machine,
        clamped(machine, machine) == machine,
        clamped(clamped(requested, machine), machine) == clamped(requested, machine),
{
}

/// A larger request on a larger machine never runs fewer workers.
pub proof fn law_more_is_never_less(a: usize, b: usize, small: usize, large: usize)
    requires
        a <= b,
        1 <= small <= large,
    ensures
        clamped(a, small) <= clamped(b, large),
{
}

} // verus!
