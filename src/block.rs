//! Block range arithmetic: where a block of the source stream lies in the
//! ring buffer that holds the source window.

use vstd::prelude::*;
use vstd::arithmetic::div_mod::{lemma_fundamental_div_mod, lemma_small_mod};

verus! {

/// Number of blocks of `block_size` bytes that `len` bytes fill, the last
/// one possibly partly.
pub open spec fn ceil_div(len: int, block_size: int) -> int {
    (len + block_size - 1) / block_size
}

/// Length of block `n` once `total` bytes of the stream have been read: the
/// part of `[n * block_size, (n + 1) * block_size)` that lies below `total`.
pub open spec fn block_len(block_size: int, total: int, n: int) -> int {
    let rest = total - n * block_size;
    if rest <= 0 {
        0
    } else if rest < block_size {
        rest
    } else {
        block_size
    }
}

/// First byte of the ring-buffer slot that holds block `n`.
pub open spec fn slot_start(block_size: int, block_count: int, n: int) -> int {
    (n % block_count) * block_size
}

/// The byte range `[start, end)` of block `block_number` in a ring buffer of
/// `block_count` slots of `block_size` bytes, once `total_bytes_read` bytes
/// of the stream have been read: the block's slot, clipped to the bytes read.
pub fn block_range(block_size: usize, block_count: usize, block_number: u64, total_bytes_read: u64) -> (r: (usize, usize))
    requires
        block_size > 0,
        block_count > 0,
        block_size * block_count <= usize::MAX,
        block_number * block_size <= total_bytes_read,
    ensures
        r.0 == slot_start(block_size as int, block_count as int, block_number as int),
        r.1 == r.0 + block_len(block_size as int, total_bytes_read as int, block_number as int),
        r.1 <= block_size * block_count,
{
    let slot = (block_number % (block_count as u64)) as usize;
    proof {
        assert(slot < block_count);
        assert(slot * block_size + block_size <= block_size * block_count) by (nonlinear_arith)
            requires
                slot < block_count,
                block_size > 0,
        ;
    }
    let start = slot * block_size;
    let first = block_number * (block_size as u64);
    let rest = total_bytes_read - first;
    let len: usize = if rest < block_size as u64 {
        rest as usize
    } else {
        block_size
    };
    assert(start + len <= block_size * block_count);
    (start, start + len)
}

/// Blocks fewer than `block_count` apart lie in slots that do not overlap.
pub proof fn lemma_slots_apart(block_size: int, block_count: int, a: int, b: int)
    requires
        block_size > 0,
        block_count > 0,
        0 <= a < b,
        b - a < block_count,
    ensures
        slot_start(block_size, block_count, a) + block_size <= slot_start(block_size, block_count, b)
            || slot_start(block_size, block_count, b) + block_size <= slot_start(block_size, block_count, a),
{
    let ka = a % block_count;
    let kb = b % block_count;
    lemma_fundamental_div_mod(a, block_count);
    lemma_fundamental_div_mod(b, block_count);
    let qa = a / block_count;
    let qb = b / block_count;
    assert(ka != kb) by {
        if ka == kb {
            assert(b - a == block_count * (qb - qa)) by (nonlinear_arith)
                requires
                    a == block_count * qa + ka,
                    b == block_count * qb + kb,
                    ka == kb,
            ;
            assert(false) by (nonlinear_arith)
                requires
                    b - a == block_count * (qb - qa),
                    0 < b - a < block_count,
            ;
        }
    }
    if ka < kb {
        assert(ka * block_size + block_size <= kb * block_size) by (nonlinear_arith)
            requires
                ka < kb,
                block_size > 0,
        ;
    } else {
        assert(kb * block_size + block_size <= ka * block_size) by (nonlinear_arith)
            requires
                kb < ka,
                block_size > 0,
        ;
    }
}

/// A block below `block_count` stands in the slot of its own number.
pub proof fn lemma_slot_of_small(block_size: int, block_count: int, n: int)
    requires
        block_size > 0,
        0 <= n < block_count,
    ensures
        slot_start(block_size, block_count, n) == n * block_size,
{
    lemma_small_mod(n as nat, block_count as nat);
}

/// A slot ends inside the buffer.
pub proof fn lemma_slot_in_buffer(block_size: int, block_count: int, n: int)
    requires
        block_size > 0,
        block_count > 0,
    ensures
        0 <= slot_start(block_size, block_count, n),
        slot_start(block_size, block_count, n) + block_size <= block_size * block_count,
{
    let k = n % block_count;
    assert(0 <= k < block_count);
    assert(0 <= k * block_size && k * block_size + block_size <= block_size * block_count) by (nonlinear_arith)
        requires
            0 <= k < block_count,
            block_size > 0,
    ;
}

} // verus!
