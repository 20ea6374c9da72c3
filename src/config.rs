//! The codec engine's configuration: window size, source window shape and
//! compression level.

use vstd::prelude::*;
use vstd::arithmetic::div_mod::lemma_fundamental_div_mod_converse;
use crate::cache::SourceWindowCache;

verus! {

/// Bytes of input the engine takes between window boundaries, by default.
pub const DEFAULT_WINDOW_SIZE: u32 = 0x80_0000;

/// Bytes of the source window, by default.
pub const DEFAULT_SOURCE_WINDOW: usize = 0x400_0000;

/// Size of the engine's small-match history, by default.
pub const DEFAULT_SPREV_SIZE: u32 = 0x4_0000;

/// Blocks the source window is split into.
pub const SOURCE_BLOCK_COUNT: usize = 32;

/// Position of the compression level among the engine's flag bits.
pub const COMPLEVEL_SHIFT: i32 = 20;

/// The flag bits that hold the compression level.
pub const COMPLEVEL_MASK: i32 = 0xF0_0000;

/// The highest compression level.
pub const MAX_LEVEL: i32 = 9;

/// The compression level that `flags` hold.
pub open spec fn level_of(flags: i32) -> i32 {
    (flags & COMPLEVEL_MASK) >> COMPLEVEL_SHIFT
}

/// `level` brought into the range the engine takes.
pub open spec fn clamp_level(level: i32) -> i32 {
    if level < 0 {
        0
    } else if level > MAX_LEVEL {
        MAX_LEVEL
    } else {
        level
    }
}

/// Configuration of one encode or decode pass.
pub struct Xd3Config {
    window_size: u32,
    sprev_size: u32,
    flags: i32,
    source_window: usize,
    source_block_count: usize,
}

impl Xd3Config {
    pub closed spec fn spec_window_size(&self) -> u32 {
        self.window_size
    }

    pub closed spec fn spec_sprev_size(&self) -> u32 {
        self.sprev_size
    }

    pub closed spec fn spec_flags(&self) -> i32 {
        self.flags
    }

    pub closed spec fn spec_source_window(&self) -> usize {
        self.source_window
    }

    pub closed spec fn spec_source_block_count(&self) -> usize {
        self.source_block_count
    }

    /// Bytes in each block of the source window.
    pub open spec fn spec_source_block_size(&self) -> int {
        self.spec_source_window() as int / self.spec_source_block_count() as int
    }

    /// The source window can be split into blocks that fit in memory.
    pub open spec fn wf(&self) -> bool {
        &&& self.spec_window_size() > 0
        &&& self.spec_source_block_count() > 0
        &&& self.spec_source_block_size() > 0
        &&& self.spec_source_block_size() * self.spec_source_block_count() <= usize::MAX
    }

    /// The default configuration: an 8 MiB input window, a 64 MiB source
    /// window in 32 blocks, and no flags set.
    pub fn new() -> (r: Self)
        ensures
            r.wf(),
            r.spec_window_size() == DEFAULT_WINDOW_SIZE,
            r.spec_sprev_size() == DEFAULT_SPREV_SIZE,
            r.spec_flags() == 0,
            r.spec_source_window() == DEFAULT_SOURCE_WINDOW,
            r.spec_source_block_count() == SOURCE_BLOCK_COUNT,
    {
        let r = Xd3Config {
            window_size: DEFAULT_WINDOW_SIZE,
            sprev_size: DEFAULT_SPREV_SIZE,
            flags: 0,
            source_window: DEFAULT_SOURCE_WINDOW,
            source_block_count: SOURCE_BLOCK_COUNT,
        };
        proof {
            lemma_fundamental_div_mod_converse(0x400_0000int, 32int, 0x20_0000int, 0int);
        }
        assert(r.spec_source_block_size() == 0x20_0000);
        r
    }

    pub fn window_size(&self) -> (r: u32)
        ensures
            r == self.spec_window_size(),
    {
        self.window_size
    }

    pub fn sprev_size(&self) -> (r: u32)
        ensures
            r == self.spec_sprev_size(),
    {
        self.sprev_size
    }

    pub fn flags(&self) -> (r: i32)
        ensures
            r == self.spec_flags(),
    {
        self.flags
    }

    pub fn source_window(&self) -> (r: usize)
        ensures
            r == self.spec_source_window(),
    {
        self.source_window
    }

    pub fn source_block_count(&self) -> (r: usize)
        ensures
            r == self.spec_source_block_count(),
    {
        self.source_block_count
    }

    /// Bytes in each block of the source window.
    pub fn source_block_size(&self) -> (r: usize)
        requires
            self.wf(),
        ensures
            r == self.spec_source_block_size(),
    {
        self.source_window / self.source_block_count
    }

    /// The compression level the flags hold.
    pub fn level(&self) -> (r: i32)
        ensures
            r == level_of(self.spec_flags()),
    {
        (self.flags & COMPLEVEL_MASK) >> COMPLEVEL_SHIFT
    }

    /// Sets the compression level, brought into `0..=9`, and keeps the other
    /// flag bits.
    pub fn set_level(&mut self, level: i32)
        ensures
            level_of(final(self).spec_flags()) == clamp_level(level),
            final(self).spec_flags() & !COMPLEVEL_MASK == old(self).spec_flags() & !COMPLEVEL_MASK,
            final(self).spec_window_size() == old(self).spec_window_size(),
            final(self).spec_sprev_size() == old(self).spec_sprev_size(),
            final(self).spec_source_window() == old(self).spec_source_window(),
            final(self).spec_source_block_count() == old(self).spec_source_block_count(),
    {
        let mut level = level;
        if level < 0 {
            level = 0;
        }
        if level > MAX_LEVEL {
            level = MAX_LEVEL;
        }
        let old_flags = self.flags;
        let flags = (old_flags & !COMPLEVEL_MASK) | (level << COMPLEVEL_SHIFT);
        assert(((flags & 0xF0_0000i32) >> 20i32 == level) && (flags & !0xF0_0000i32 == old_flags & !0xF0_0000i32)) by (bit_vector)
            requires
                0 <= level <= 9,
                flags == (old_flags & !0xF0_0000i32) | (level << 20i32),
        ;
        self.flags = flags;
    }

    /// An empty source window cache of the configured shape.
    pub fn source_cache(&self) -> (r: SourceWindowCache)
        requires
            self.wf(),
        ensures
            r.wf(),
            r@.block_size == self.spec_source_block_size(),
            r@.block_count == self.spec_source_block_count(),
            r@.stream.len() == 0,
            r@.next_block == 0,
            !r@.eof_known,
    {
        SourceWindowCache::new(self.source_block_size(), self.source_block_count)
    }
}

} // verus!
