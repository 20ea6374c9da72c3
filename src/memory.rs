//! The arithmetic around the engine's one-shot form, which encodes or
//! decodes a whole buffer in one call.

use vstd::prelude::*;

verus! {

/// Room given to the output of a one-shot call: twice the input and the
/// source together.
pub open spec fn capacity_for(input_len: int, source_len: int) -> int {
    (input_len + source_len) * 2
}

/// The output room for a one-shot call, when it fits in the engine's 32-bit
/// sizes. Inputs too large for that cannot be handed to the engine.
pub fn output_capacity(input_len: usize, source_len: usize) -> (r: Option<u32>)
    ensures
        match r {
            Some(c) => c == capacity_for(input_len as int, source_len as int),
            None => capacity_for(input_len as int, source_len as int) > u32::MAX,
        },
{
    let limit: usize = 0x7FFF_FFFF;
    if input_len > limit || source_len > limit - input_len {
        return None;
    }
    let sum = input_len + source_len;
    Some((sum * 2) as u32)
}

/// The length of the output of a one-shot call that returned `code` and
/// reported `produced` bytes in a buffer of `capacity` bytes: the call
/// succeeded only with code 0, and never writes past its buffer.
pub fn output_len(code: i32, produced: u32, capacity: u32) -> (r: Option<usize>)
    ensures
        r == if code == 0 && produced <= capacity {
            Some(produced as usize)
        } else {
            None::<usize>
        },
{
    if code == 0 && produced <= capacity {
        Some(produced as usize)
    } else {
        None
    }
}

} // verus!
