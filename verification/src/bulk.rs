//! The chunked-commit policy of bulk writes: a bulk operation commits
//! after every fifty rows, so a failure loses only the open chunk.  These
//! functions state the policy arithmetically; the store's bulk operations
//! follow it row by row.

use vstd::prelude::*;
use crate::repo::CHUNK_ROWS;

verus! {

/// How many row-carrying transactions a bulk insert of `n` rows commits.
pub fn chunk_commit_count(n: usize) -> (r: usize)
    ensures
        r == n / CHUNK_ROWS + (if n % CHUNK_ROWS == 0 {
            0int
        } else {
            1int
        }),
{
    if n % CHUNK_ROWS == 0 {
        n / CHUNK_ROWS
    } else {
        n / CHUNK_ROWS + 1
    }
}

/// The number of rows the chunk that position `i` falls into carries.
pub fn chunk_size_at(n: usize, i: usize) -> (r: usize)
    requires
        i * CHUNK_ROWS < n,
    ensures
        r == (if (i + 1) * CHUNK_ROWS <= n {
            CHUNK_ROWS as int
        } else {
            n - i * CHUNK_ROWS
        }),
        1 <= r <= CHUNK_ROWS,
{
    proof {
        assert((i + 1) * CHUNK_ROWS == i * CHUNK_ROWS + CHUNK_ROWS) by (nonlinear_arith);
    }
    if n / CHUNK_ROWS > i {
        proof {
            assert(n / CHUNK_ROWS > i ==> (i + 1) * CHUNK_ROWS <= n) by (nonlinear_arith);
        }
        CHUNK_ROWS
    } else {
        proof {
            assert(n / CHUNK_ROWS <= i ==> n < (i + 1) * CHUNK_ROWS) by (nonlinear_arith);
        }
        n - i * CHUNK_ROWS
    }
}

/// The rows durably applied when a bulk write fails after `inserted`
/// rows went in: every full chunk of fifty stays committed, the open
/// chunk rolls back.
pub fn committed_before_failure(inserted: usize) -> (r: usize)
    ensures
        r == inserted / CHUNK_ROWS * CHUNK_ROWS,
        r <= inserted,
{
    proof {
        assert(inserted / CHUNK_ROWS * CHUNK_ROWS <= inserted) by (nonlinear_arith);
    }
    inserted / CHUNK_ROWS * CHUNK_ROWS
}

} // verus!
