use vstd::prelude::*;

verus! {

/// Size of one cache line; every region of the channel starts on such a boundary.
pub const CACHE_LINE_SIZE: usize = 64;

/// Sentinel at offset 0 of every channel region ("VNOM").
pub const VENOM_MAGIC: u32 = 0x564E4F4D;

/// Layout version stamped into, and expected from, every channel region.
pub const VENOM_VERSION: u32 = 2;

/// Bytes taken by the channel header, padding included.
pub const CHANNEL_HEADER_SIZE: usize = 64;

/// Bytes taken by the SeqLock header: the sequence on its own line, then the
/// redundant payload capacity, padded to a line.
pub const SEQLOCK_HEADER_SIZE: usize = 128;

/// Bytes taken by the command queue header: write index and read index on a
/// line each, then the slot count, padded to a line.
pub const MPSC_HEADER_SIZE: usize = 192;

/// Largest command payload, in bytes.
pub const MAX_CMD_SIZE: usize = 4096;

/// Bytes taken by one command slot: a line of metadata, then the payload.
pub const COMMAND_SLOT_SIZE: usize = 4160;

/// Largest number of command slots a channel may have.
pub const MAX_SLOTS: usize = 64;

/// Payload capacity of a channel created with the default configuration.
pub const DEFAULT_DATA_SIZE: usize = 65536;

/// Command slots of a channel created with the default configuration.
pub const DEFAULT_CMD_SLOTS: usize = 32;

/// Advisory client cap of a channel created with the default configuration.
pub const DEFAULT_MAX_CLIENTS: usize = 16;

/// Rounds `size` up to the next multiple of the cache line size.
pub open spec fn spec_align_up(size: int) -> int {
    ((size + 63) / 64) * 64
}

/// A rounded size is a multiple of the line, at least the size, and less than
/// a line above it.
pub proof fn lemma_align_up_bounds(size: int)
    requires
        0 <= size,
    ensures
        size <= spec_align_up(size) < size + 64,
        spec_align_up(size) % 64 == 0,
{
    vstd::arithmetic::div_mod::lemma_fundamental_div_mod(size + 63, 64);
    vstd::arithmetic::div_mod::lemma_mod_pos_bound(size + 63, 64);
    vstd::arithmetic::div_mod::lemma_mod_multiples_basic((size + 63) / 64, 64);
}

/// Rounds `size` up to the next multiple of the cache line size.
pub fn align_up(size: usize) -> (r: usize)
    requires
        size + 63 <= usize::MAX,
    ensures
        r == spec_align_up(size as int),
        r >= size,
        r < size + 64,
        r % 64 == 0,
{
    proof {
        lemma_align_up_bounds(size as int);
    }
    ((size + 63) / 64) * 64
}

} // verus!
