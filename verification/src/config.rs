//! Settings of a search: how many workers, and whether misses are reported.

use vstd::prelude::*;
use vstd::string::StringSliceAdditionalSpecFns;

verus! {

/// The number of workers asked for where the caller names none.
pub const DEFAULT_THREADS: usize = 4;

/// The size of the worker pool: the number asked for, or the default, but
/// never more than the machine has hardware threads.
pub open spec fn clamped(requested: Option<usize>, hardware: usize) -> usize {
    let wanted = match requested {
        Some(n) => n,
        None => DEFAULT_THREADS,
    };
    if hardware < wanted {
        hardware
    } else {
        wanted
    }
}

/// The size of the worker pool on a machine with `hardware` hardware
/// threads. Asking for more than the machine has is no error.
pub fn worker_count(requested: Option<usize>, hardware: usize) -> (n: usize)
    ensures
        n == clamped(requested, hardware),
        n <= hardware,
        requested matches Some(wanted) && wanted > hardware ==> n == hardware,
{
    let wanted: usize = match requested {
        Some(n) => n,
        None => DEFAULT_THREADS,
    };
    if hardware < wanted {
        hardware
    } else {
        wanted
    }
}

/// The number of hardware threads of this machine, from `num_cpus::get`,
/// which counts the logical cores that the process may use and never
/// returns less than one. The number differs from machine to machine, so
/// the contract says no more than that.
#[verifier::external_body]
pub(crate) fn hardware_threads() -> (n: usize)
    ensures
        n >= 1,
{
    num_cpus::get()
}

/// The size of the worker pool on this machine.
pub fn pool_size(requested: Option<usize>) -> (n: usize)
    ensures
        exists|hardware: usize| hardware >= 1 && n == #[trigger] clamped(requested, hardware),
        n <= match requested {
            Some(wanted) => wanted,
            None => DEFAULT_THREADS,
        },
        requested != Some(0usize) ==> n >= 1,
{
    let hardware = hardware_threads();
    worker_count(requested, hardware)
}

/// Whether `text` switches a flag on: it does where it begins with the
/// letter t, in either case.
pub open spec fn switches_on(text: Seq<u8>) -> bool {
    text.len() > 0 && (text[0] == 0x74 || text[0] == 0x54)
}

/// Reads a flag such as `true` or `T`. Anything that does not begin with
/// the letter t leaves the flag off, the empty text too.
pub fn parse_flag(arg: &str) -> (on: bool)
    ensures
        on == switches_on(arg.spec_bytes()),
{
    let bytes = arg.as_bytes();
    bytes.len() > 0 && (bytes[0] == 0x74 || bytes[0] == 0x54)
}

} // verus!
