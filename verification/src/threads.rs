//! How many threads the index writer gets.

use vstd::prelude::*;

verus! {

/// The most writer threads used, and the count used when the machine's
/// parallelism is unknown.
pub const MAX_WRITER_THREADS: usize = 4;

/// The writer's thread count: the machine's available parallelism (4 when
/// unknown), at most 4.
pub fn writer_threads(available: Option<usize>) -> (r: usize)
    ensures
        r == match available {
            Some(n) => if n < MAX_WRITER_THREADS {
                n
            } else {
                MAX_WRITER_THREADS
            },
            None => MAX_WRITER_THREADS,
        },
{
    let n = match available {
        Some(n) => n,
        None => MAX_WRITER_THREADS,
    };
    if n < MAX_WRITER_THREADS {
        n
    } else {
        MAX_WRITER_THREADS
    }
}

} // verus!
