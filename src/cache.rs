//! The source window cache: a ring buffer of the most recently read blocks of
//! the source stream, which serves the codec engine's block requests.
//!
//! Block `n` covers bytes `[n * block_size, (n + 1) * block_size)` of the
//! source stream and is stored in slot `n % block_count` of the buffer. A new
//! block overwrites the block read `block_count` fetches before it, so the
//! buffer never holds more than `block_size * block_count` bytes.

use vstd::prelude::*;
use vstd::arithmetic::div_mod::lemma_fundamental_div_mod_converse;
use vstd::set_lib::{lemma_int_range, set_int_range};
use crate::block::{block_len, block_range, ceil_div, slot_start, lemma_slots_apart, lemma_slot_of_small, lemma_slot_in_buffer};

verus! {

/// What a cache stands for: the shape of its buffer, every byte read from
/// the source so far, the fetch frontier and whether the source is known to
/// have ended.
pub struct CacheModel {
    pub block_size: nat,
    pub block_count: nat,
    pub stream: Seq<u8>,
    pub next_block: nat,
    pub eof_known: bool,
}

impl CacheModel {
    /// Bytes read from the source so far.
    pub open spec fn total(self) -> nat {
        self.stream.len()
    }

    /// The oldest block still held: the cache keeps the last `block_count`
    /// blocks fetched.
    pub open spec fn oldest(self) -> nat {
        if self.next_block >= self.block_count {
            (self.next_block - self.block_count) as nat
        } else {
            0
        }
    }

    /// The bytes of block `n` of the source stream, as far as they were read.
    pub open spec fn block_bytes(self, n: int) -> Seq<u8> {
        let start = n * self.block_size;
        self.stream.subrange(start, start + block_len(self.block_size as int, self.total() as int, n))
    }

    /// The blocks the cache holds, by block number.
    pub open spec fn blocks(self) -> Map<int, Seq<u8>> {
        Map::new(|n: int| self.oldest() <= n < self.next_block, |n: int| self.block_bytes(n))
    }

    /// The block handed out for a request of block `n`: `n` itself, or the
    /// last block when `n` lies beyond the end of a source whose end is known.
    pub open spec fn served_block(self, n: int) -> int {
        if n < self.next_block {
            n
        } else {
            self.next_block - 1
        }
    }

    /// The highest block number the engine is told of: the last block once
    /// the end of the source is known, else the block served.
    pub open spec fn max_block_number(self, n: int) -> int {
        if self.eof_known {
            self.next_block - 1
        } else {
            self.served_block(n)
        }
    }

    /// The length of the block at `max_block_number`.
    pub open spec fn last_block_length(self, n: int) -> int {
        if self.eof_known {
            self.total() - (self.next_block - 1) * self.block_size
        } else {
            block_len(self.block_size as int, self.total() as int, self.served_block(n))
        }
    }

    /// How the counters of a cache relate: blocks are read in order, every
    /// block but the last is full, and a short block means the source ended.
    pub open spec fn inv(self) -> bool {
        &&& self.block_size > 0
        &&& self.block_count > 0
        &&& self.next_block == 0 ==> self.total() == 0 && !self.eof_known
        &&& self.next_block > 0 ==> self.total() <= self.next_block * self.block_size
        &&& self.next_block > 1 ==> (self.next_block - 1) * self.block_size < self.total()
        &&& self.total() < self.next_block * self.block_size ==> self.eof_known
        &&& self.eof_known ==> self.next_block > 0
    }
}

/// A block handed to the codec engine, with what the engine needs to know
/// about the end of the source.
pub struct BlockView {
    pub block_number: u64,
    pub data: Vec<u8>,
    pub eof_known: bool,
    pub max_block_number: u64,
    pub last_block_length: usize,
}

/// Why a block request could not be served.
#[derive(Debug, Clone, Copy, PartialEq, Eq)]
pub enum CacheError {
    /// The block was evicted already: it lies below the oldest block held.
    InvariantViolation { requested: u64, oldest: u64 },
    /// The block has not been read yet: more of the source must be fetched.
    NotFetched { requested: u64, next: u64 },
}

/// A ring buffer of `block_count` slots of `block_size` bytes over the
/// source stream.
pub struct SourceWindowCache {
    block_size: usize,
    block_count: usize,
    buffer: Vec<u8>,
    next_block_number: u64,
    total_bytes_read: u64,
    eof_known: bool,
    stream: Ghost<Seq<u8>>,
}

impl View for SourceWindowCache {
    type V = CacheModel;

    closed spec fn view(&self) -> CacheModel {
        CacheModel {
            block_size: self.block_size as nat,
            block_count: self.block_count as nat,
            stream: self.stream@,
            next_block: self.next_block_number as nat,
            eof_known: self.eof_known,
        }
    }
}

/// Writes `data` into `buf` from position `start` on, growing `buf` where
/// `data` runs past its end.
fn write_at(buf: &mut Vec<u8>, start: usize, data: &[u8])
    requires
        start <= old(buf)@.len(),
        start + data@.len() <= usize::MAX,
    ensures
        final(buf)@.len() == if start + data@.len() > old(buf)@.len() {
            start + data@.len()
        } else {
            old(buf)@.len() as int
        },
        final(buf)@.subrange(start as int, start + data@.len()) == data@,
        forall|j: int| 0 <= j < old(buf)@.len() && !(start <= j < start + data@.len()) ==> final(buf)@[j] == old(buf)@[j],
{
    let ghost before = buf@;
    let mut i: usize = 0;
    while i < data.len()
        invariant
            i <= data@.len(),
            start <= before.len(),
            start + data@.len() <= usize::MAX,
            buf@.len() == if start + i > before.len() {
                start + i
            } else {
                before.len() as int
            },
            forall|j: int| 0 <= j < i ==> buf@[start + j] == data@[j],
            forall|j: int| 0 <= j < before.len() && !(start <= j < start + i) ==> buf@[j] == before[j],
        decreases data@.len() - i,
    {
        if start + i < buf.len() {
            buf.set(start + i, data[i]);
        } else {
            buf.push(data[i]);
        }
        i = i + 1;
    }
    assert(buf@.subrange(start as int, start + data@.len()) =~= data@);
}

impl SourceWindowCache {
    spec fn slot_start(&self, n: int) -> int {
        slot_start(self.block_size as int, self.block_count as int, n)
    }

    /// Block `n` stands in its slot of `buf`.
    spec fn slot_holds(&self, buf: Seq<u8>, n: int) -> bool {
        let start = self.slot_start(n);
        let len = block_len(self.block_size as int, self.total_bytes_read as int, n);
        &&& start + len <= buf.len()
        &&& buf.subrange(start, start + len) == self@.block_bytes(n)
    }

    /// Bytes of memory the buffer holds.
    pub closed spec fn buffered(&self) -> nat {
        self.buffer.len() as nat
    }

    /// The cache is well formed.
    pub closed spec fn wf(&self) -> bool {
        &&& self@.inv()
        &&& self.block_size * self.block_count <= usize::MAX
        &&& self.total_bytes_read == self.stream@.len()
        &&& self.buffer.len() == if self.total_bytes_read <= self.block_size * self.block_count {
            self.total_bytes_read as int
        } else {
            self.block_size * self.block_count
        }
        &&& forall|n: int| self@.oldest() <= n < self.next_block_number ==> #[trigger] self.slot_holds(self.buffer@, n)
    }

    /// An empty cache of `block_count` slots of `block_size` bytes.
    pub fn new(block_size: usize, block_count: usize) -> (r: Self)
        requires
            block_size > 0,
            block_count > 0,
            block_size * block_count <= usize::MAX,
        ensures
            r.wf(),
            r@.block_size == block_size,
            r@.block_count == block_count,
            r@.stream.len() == 0,
            r@.next_block == 0,
            !r@.eof_known,
    {
        let r = SourceWindowCache {
            block_size,
            block_count,
            buffer: Vec::new(),
            next_block_number: 0,
            total_bytes_read: 0,
            eof_known: false,
            stream: Ghost(Seq::empty()),
        };
        assert(0 <= block_size * block_count) by (nonlinear_arith)
            requires
                block_size > 0,
                block_count > 0,
        ;
        assert(r@.inv());
        r
    }

    pub fn block_size(&self) -> (r: usize)
        ensures
            r == self@.block_size,
    {
        self.block_size
    }

    pub fn block_count(&self) -> (r: usize)
        ensures
            r == self@.block_count,
    {
        self.block_count
    }

    /// The number of the next block to be fetched.
    pub fn next_block_number(&self) -> (r: u64)
        ensures
            r == self@.next_block,
    {
        self.next_block_number
    }

    /// Bytes read from the source so far.
    pub fn total_bytes_read(&self) -> (r: u64)
        requires
            self.wf(),
        ensures
            r == self@.total(),
    {
        self.total_bytes_read
    }

    /// Whether the end of the source has been seen.
    pub fn eof_known(&self) -> (r: bool)
        ensures
            r == self@.eof_known,
    {
        self.eof_known
    }

    /// The oldest block the cache still holds.
    pub fn oldest_block_number(&self) -> (r: u64)
        ensures
            r == self@.oldest(),
    {
        if self.next_block_number >= self.block_count as u64 {
            self.next_block_number - self.block_count as u64
        } else {
            0
        }
    }

    /// Records `data`, the next bytes read from the source, as block
    /// `next_block_number`. Its slot held the block fetched `block_count`
    /// fetches before, which leaves the cache. A read shorter than a block
    /// means that the source has ended. An empty read after the first block
    /// records no block: the block before it was full, and was the last.
    pub fn fetch_next(&mut self, data: &[u8])
        requires
            old(self).wf(),
            !old(self)@.eof_known,
            data@.len() <= old(self)@.block_size,
            old(self)@.total() + data@.len() <= u64::MAX,
        ensures
            final(self).wf(),
            final(self)@.block_size == old(self)@.block_size,
            final(self)@.block_count == old(self)@.block_count,
            final(self)@.stream == old(self)@.stream + data@,
            final(self)@.eof_known == (data@.len() < old(self)@.block_size),
            final(self)@.next_block == if data@.len() == 0 && old(self)@.next_block > 0 {
                old(self)@.next_block
            } else {
                old(self)@.next_block + 1
            },
            data@.len() == 0 && old(self)@.next_block > 0 ==> final(self)@.blocks() == old(self)@.blocks(),
            data@.len() > 0 || old(self)@.next_block == 0 ==> final(self)@.blocks() == if old(self)@.next_block >= old(self)@.block_count {
                old(self)@.blocks().remove(old(self)@.oldest() as int)
            } else {
                old(self)@.blocks()
            }.insert(old(self)@.next_block as int, data@),
    {
        let ghost pre = self@;
        let ghost old_buf = self.buffer@;
        let ghost old_total = self.total_bytes_read as int;
        let ghost next = self.next_block_number as int;
        let bs = self.block_size;
        let bc = self.block_count;
        let len = data.len();
        proof {
            assert(old_total == next * bs);
        }
        if len == 0 && self.next_block_number > 0 {
            self.eof_known = true;
            proof {
                assert(self.stream@ + data@ =~= self.stream@);
                assert forall|n: int| self@.oldest() <= n < self.next_block_number implies #[trigger] self.slot_holds(self.buffer@, n) by {
                    assert(old(self).slot_holds(old_buf, n));
                }
                assert(self@.blocks() =~= pre.blocks());
            }
            return;
        }
        proof {
            lemma_slot_in_buffer(bs as int, bc as int, next);
        }
        let slot = (self.next_block_number % (bc as u64)) as usize;
        let start = slot * bs;
        proof {
            assert(start == slot_start(bs as int, bc as int, next));
            if self.buffer.len() < bs * bc {
                assert(next < bc) by (nonlinear_arith)
                    requires
                        next * bs == old_total,
                        old_total < bs * bc,
                        bs > 0,
                ;
                lemma_slot_of_small(bs as int, bc as int, next);
            }
            assert(next < u64::MAX) by (nonlinear_arith)
                requires
                    next * bs == old_total,
                    old_total + len <= u64::MAX,
                    len > 0 || next == 0,
                    bs > 0,
            ;
        }
        write_at(&mut self.buffer, start, data);
        self.stream = Ghost(self.stream@ + data@);
        self.total_bytes_read = self.total_bytes_read + len as u64;
        self.next_block_number = self.next_block_number + 1;
        if len < bs {
            self.eof_known = true;
        }
        proof {
            let total = self.total_bytes_read as int;
            assert(total <= (next + 1) * bs) by (nonlinear_arith)
                requires
                    total == next * bs + len,
                    len <= bs,
            ;
            assert(next * bs <= bs * bc ==> total <= bs * bc || old_buf.len() == bs * bc) by (nonlinear_arith)
                requires
                    total == next * bs + len,
                    len <= bs,
                    old_buf.len() < bs * bc ==> next < bc,
                    old_buf.len() <= bs * bc,
            ;
            assert(block_len(bs as int, total, next) == len);
            assert(self@.block_bytes(next) =~= data@);
            assert(self.slot_holds(self.buffer@, next));
            assert forall|n: int| self@.oldest() <= n < self.next_block_number implies #[trigger] self.slot_holds(self.buffer@, n) by {
                if n < next {
                    assert(old(self).slot_holds(old_buf, n));
                    assert(n * bs + bs <= next * bs) by (nonlinear_arith)
                        requires
                            n + 1 <= next,
                            bs > 0,
                    ;
                    assert(block_len(bs as int, total, n) == bs);
                    assert(block_len(bs as int, old_total, n) == bs);
                    lemma_slots_apart(bs as int, bc as int, n, next);
                    let s = self.slot_start(n);
                    assert(self.buffer@.subrange(s, s + bs) =~= old_buf.subrange(s, s + bs));
                    assert(self@.block_bytes(n) =~= pre.block_bytes(n));
                }
            }
            let removed = if pre.next_block >= pre.block_count {
                pre.blocks().remove(pre.oldest() as int)
            } else {
                pre.blocks()
            };
            assert forall|n: int| #[trigger] removed.contains_key(n) && n < next implies self@.block_bytes(n) == pre.block_bytes(n) by {
                assert(n * bs + bs <= next * bs) by (nonlinear_arith)
                    requires
                        n + 1 <= next,
                        bs > 0,
                ;
                assert(self@.block_bytes(n) =~= pre.block_bytes(n));
            }
            let target = removed.insert(next, data@);
            assert forall|n: int| #[trigger] self@.blocks().contains_key(n) <==> target.contains_key(n) by {}
            assert forall|n: int| #[trigger] self@.blocks().contains_key(n) implies self@.blocks()[n] == target[n] by {
                if n < next {
                    assert(removed.contains_key(n));
                }
            }
            assert(self@.blocks() =~= target);
            assert((next + 1) * bs == next * bs + bs) by (nonlinear_arith);
            assert(((next + 1) - 1) * bs == next * bs);
            assert(self@.inv());
        }
    }

    /// Serves the engine's request for block `n`: the block itself, or the
    /// last block when `n` lies past the end of a source whose end is known.
    /// A block below the oldest one held was evicted, which the engine's
    /// window never asks for; a block not read yet asks for more fetches.
    pub fn get_block(&self, n: u64) -> (r: Result<BlockView, CacheError>)
        requires
            self.wf(),
        ensures
            match r {
                Err(CacheError::InvariantViolation { requested, oldest }) => {
                    &&& n < self@.oldest()
                    &&& requested == n
                    &&& oldest == self@.oldest()
                },
                Err(CacheError::NotFetched { requested, next }) => {
                    &&& self@.oldest() <= n
                    &&& n >= self@.next_block
                    &&& !self@.eof_known
                    &&& requested == n
                    &&& next == self@.next_block
                },
                Ok(v) => {
                    &&& self@.oldest() <= n
                    &&& n < self@.next_block || self@.eof_known
                    &&& v.block_number == self@.served_block(n as int)
                    &&& self@.blocks().contains_key(v.block_number as int)
                    &&& v.data@ == self@.blocks()[v.block_number as int]
                    &&& v.eof_known == self@.eof_known
                    &&& v.max_block_number == self@.max_block_number(n as int)
                    &&& v.last_block_length == self@.last_block_length(n as int)
                },
            },
    {
        let oldest = self.oldest_block_number();
        if n < oldest {
            return Err(CacheError::InvariantViolation { requested: n, oldest });
        }
        if n >= self.next_block_number && !self.eof_known {
            return Err(CacheError::NotFetched { requested: n, next: self.next_block_number });
        }
        let bs = self.block_size;
        let next = self.next_block_number;
        let total = self.total_bytes_read;
        let b = if n < next {
            n
        } else {
            next - 1
        };
        proof {
            assert(next > 0);
            if next == 1 {
                assert((next - 1) * bs == 0) by (nonlinear_arith)
                    requires
                        next == 1,
                ;
            }
            assert((next - 1) * bs <= total);
            assert(b * bs <= (next - 1) * bs) by (nonlinear_arith)
                requires
                    b <= next - 1,
                    bs > 0,
            ;
            assert(self.slot_holds(self.buffer@, b as int));
        }
        let (start, end) = block_range(bs, self.block_count, b, total);
        let mut data: Vec<u8> = Vec::new();
        let mut i: usize = start;
        while i < end
            invariant
                start <= i <= end,
                end <= self.buffer@.len(),
                data@ == self.buffer@.subrange(start as int, i as int),
            decreases end - i,
        {
            data.push(self.buffer[i]);
            i = i + 1;
            proof {
                assert(data@ =~= self.buffer@.subrange(start as int, i as int));
            }
        }
        let (max_block_number, last_block_length) = if self.eof_known {
            proof {
                assert(total <= next * bs);
                assert(next * bs == (next - 1) * bs + bs) by (nonlinear_arith)
                    requires
                        next > 0,
            ;
            }
            let last = total - (next - 1) * (bs as u64);
            (next - 1, last as usize)
        } else {
            (b, end - start)
        };
        Ok(BlockView { block_number: b, data, eof_known: self.eof_known, max_block_number, last_block_length })
    }

    /// Bytes of memory the buffer holds.
    pub fn buffered_len(&self) -> (r: usize)
        ensures
            r == self.buffered(),
    {
        self.buffer.len()
    }

    /// The number of blocks the cache holds.
    pub fn held_blocks(&self) -> (r: u64)
        requires
            self.wf(),
        ensures
            r == self@.blocks().dom().len(),
    {
        proof {
            lemma_blocks_domain(self);
        }
        self.next_block_number - self.oldest_block_number()
    }

    /// Whether block `n` can only be served after more of the source is read.
    pub fn needs_fetch(&self, n: u64) -> (r: bool)
        ensures
            r == (n >= self@.next_block && !self@.eof_known),
    {
        n >= self.next_block_number && !self.eof_known
    }
}

/// The blocks held are the numbers from the oldest up to the fetch frontier.
proof fn lemma_blocks_domain(c: &SourceWindowCache)
    requires
        c.wf(),
    ensures
        c@.blocks().dom() == set_int_range(c@.oldest() as int, c@.next_block as int),
        c@.blocks().dom().finite(),
        c@.blocks().dom().len() == c@.next_block - c@.oldest(),
{
    assert(c@.blocks().dom() =~= set_int_range(c@.oldest() as int, c@.next_block as int));
    lemma_int_range(c@.oldest() as int, c@.next_block as int);
}

/// Every block held is at most `block_size` bytes long, and only the last
/// block fetched may be shorter, once the end of the source is known.
pub proof fn lemma_short_block_is_last(c: &SourceWindowCache, n: int)
    requires
        c.wf(),
        c@.blocks().contains_key(n),
    ensures
        c@.blocks()[n].len() <= c@.block_size,
        c@.blocks()[n].len() < c@.block_size ==> n == c@.next_block - 1 && c@.eof_known,
{
    let bs = c@.block_size as int;
    let total = c@.total() as int;
    let next = c@.next_block as int;
    assert(0 <= n * bs) by (nonlinear_arith)
        requires
            n >= 0,
            bs > 0,
    ;
    if n < next - 1 {
        assert(n * bs + bs <= (next - 1) * bs) by (nonlinear_arith)
            requires
                n + 1 <= next - 1,
                bs > 0,
        ;
        assert(block_len(bs, total, n) == bs);
    } else {
        assert(n * bs + bs == next * bs) by (nonlinear_arith)
            requires
                n == next - 1,
        ;
        if next == 1 {
            assert((next - 1) * bs == 0) by (nonlinear_arith)
                requires
                    next == 1,
            ;
        }
        assert(n * bs <= total);
    }
}

/// However long the source, a cache holds at most `block_count` blocks, in
/// at most `block_size * block_count` bytes of buffer.
pub proof fn lemma_window_bound(c: &SourceWindowCache)
    requires
        c.wf(),
    ensures
        c@.blocks().dom().finite(),
        c@.blocks().dom().len() <= c@.block_count,
        c.buffered() <= c@.block_size * c@.block_count,
{
    lemma_blocks_domain(c);
}

/// Once the end of a source of `L > 0` bytes is known, the engine is told
/// that the last block is `ceil(L / block_size) - 1`, and that its length is
/// what the blocks before it leave of the `L` bytes.
pub proof fn lemma_eof_accounting(c: &SourceWindowCache, n: int)
    requires
        c.wf(),
        c@.eof_known,
        c@.total() > 0,
    ensures
        c@.max_block_number(n) == ceil_div(c@.total() as int, c@.block_size as int) - 1,
        c@.last_block_length(n) == c@.total() - c@.max_block_number(n) * c@.block_size,
        0 < c@.last_block_length(n) <= c@.block_size,
{
    let m = c@.next_block - 1;
    let bs = c@.block_size as int;
    let total = c@.total() as int;
    if m == 0 {
        assert(m * bs == 0) by (nonlinear_arith)
            requires
                m == 0,
        ;
    }
    assert(m * bs < total);
    assert(total <= m * bs + bs) by (nonlinear_arith)
        requires
            total <= (m + 1) * bs,
    ;
    assert(total + bs - 1 == (m + 1) * bs + (total - 1 - m * bs)) by (nonlinear_arith);
    lemma_fundamental_div_mod_converse(total + bs - 1, bs, m + 1, total - 1 - m * bs);
}

} // verus!
