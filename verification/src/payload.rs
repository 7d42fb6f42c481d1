//! Payload generation: the bytes that follow the headers of a test frame,
//! in one of three patterns.

use vstd::prelude::*;
use vstd::wrapping::u32_specs;

verus! {

/// Payload pattern types.
#[derive(Debug, Clone, Copy, PartialEq, Eq)]
pub enum PayloadPattern {
    /// Byte `i` is `i` modulo 256.
    Sequential,
    /// An eight-byte pattern, repeated.
    Repeating,
    /// Bytes drawn from a fixed linear congruential generator.
    Random,
}

/// The name of a payload pattern.
pub open spec fn pattern_name(p: PayloadPattern) -> Seq<char> {
    match p {
        PayloadPattern::Sequential => seq!['s', 'e', 'q', 'u', 'e', 'n', 't', 'i', 'a', 'l'],
        PayloadPattern::Repeating => seq!['r', 'e', 'p', 'e', 'a', 't', 'i', 'n', 'g'],
        PayloadPattern::Random => seq!['r', 'a', 'n', 'd', 'o', 'm'],
    }
}

impl PayloadPattern {
    /// The pattern's name, in lower case.
    pub fn to_string(&self) -> (r: String)
        ensures
            r@ == pattern_name(*self),
    {
        let s = match self {
            PayloadPattern::Sequential => "sequential",
            PayloadPattern::Repeating => "repeating",
            PayloadPattern::Random => "random",
        };
        proof {
            reveal_strlit("sequential");
            reveal_strlit("repeating");
            reveal_strlit("random");
        }
        s.to_owned()
    }
}

/// Number of header bytes that precede the payload of a frame.
pub const PAYLOAD_HEADER_BYTES: u32 = 42;

/// The eight bytes that the repeating pattern cycles through.
pub const REPEATING_BYTES: [u8; 8] = [0xAA, 0x55, 0xFF, 0x00, 0x12, 0x34, 0x56, 0x78];

/// The repeating pattern as a sequence.
pub open spec fn repeating_bytes() -> Seq<u8> {
    seq![0xAAu8, 0x55u8, 0xFFu8, 0x00u8, 0x12u8, 0x34u8, 0x56u8, 0x78u8]
}

/// The seed the random pattern starts from.
pub const RANDOM_SEED: u32 = 0x1234;

/// One step of the generator of the random pattern:
/// `seed * 1103515245 + 12345`, wrapping at 32 bits.
pub open spec fn lcg_next(seed: u32) -> u32 {
    u32_specs::wrapping_add(u32_specs::wrapping_mul(seed, 1103515245), 12345)
}

/// The generator's state after `k` steps from `RANDOM_SEED`.
pub open spec fn lcg_state(k: nat) -> u32
    decreases k,
{
    if k == 0 {
        RANDOM_SEED
    } else {
        lcg_next(lcg_state((k - 1) as nat))
    }
}

/// The payload byte at index `i` for a pattern. The random pattern's byte
/// `i` is bits 16..24 of the generator's state after `i + 1` steps.
pub open spec fn payload_byte(pattern: PayloadPattern, i: nat) -> u8 {
    match pattern {
        PayloadPattern::Sequential => (i % 256) as u8,
        PayloadPattern::Repeating => repeating_bytes()[(i % 8) as int],
        PayloadPattern::Random => ((lcg_state(i + 1) / 0x10000) % 256) as u8,
    }
}

/// Generates the payload of a frame of `frame_size` bytes: the
/// `frame_size - 42` bytes that follow the headers, in the given pattern.
pub fn generate_payload(frame_size: u32, pattern: PayloadPattern) -> (buf: Vec<u8>)
    requires
        frame_size >= PAYLOAD_HEADER_BYTES,
    ensures
        buf@.len() == frame_size - PAYLOAD_HEADER_BYTES,
        forall|i: int| 0 <= i < buf@.len() ==> #[trigger] buf@[i] == payload_byte(pattern, i as nat),
{
    let payload_len = (frame_size - PAYLOAD_HEADER_BYTES) as usize;
    let mut buf: Vec<u8> = Vec::new();
    match pattern {
        PayloadPattern::Sequential => {
            let mut i: usize = 0;
            while i < payload_len
                invariant
                    i <= payload_len,
                    buf@.len() == i,
                    forall|j: int| 0 <= j < i ==> #[trigger] buf@[j] == payload_byte(pattern, j as nat),
                    pattern == PayloadPattern::Sequential,
                decreases payload_len - i,
            {
                buf.push((i % 256) as u8);
                i = i + 1;
            }
        },
        PayloadPattern::Repeating => {
            let pattern_data = REPEATING_BYTES;
            assert(pattern_data@ =~= repeating_bytes());
            let mut i: usize = 0;
            while i < payload_len
                invariant
                    i <= payload_len,
                    buf@.len() == i,
                    pattern_data@ == repeating_bytes(),
                    forall|j: int| 0 <= j < i ==> #[trigger] buf@[j] == payload_byte(pattern, j as nat),
                    pattern == PayloadPattern::Repeating,
                decreases payload_len - i,
            {
                buf.push(pattern_data[i % 8]);
                i = i + 1;
            }
        },
        PayloadPattern::Random => {
            let mut seed: u32 = RANDOM_SEED;
            let mut i: usize = 0;
            while i < payload_len
                invariant
                    i <= payload_len,
                    buf@.len() == i,
                    seed == lcg_state(i as nat),
                    forall|j: int| 0 <= j < i ==> #[trigger] buf@[j] == payload_byte(pattern, j as nat),
                    pattern == PayloadPattern::Random,
                decreases payload_len - i,
            {
                seed = seed.wrapping_mul(1103515245).wrapping_add(12345);
                assert(seed == lcg_state((i + 1) as nat));
                let s = seed;
                assert((s >> 16) & 0xFF == (s / 0x10000) % 256) by (bit_vector);
                buf.push(((seed >> 16) & 0xFF) as u8);
                i = i + 1;
            }
        },
    }
    buf
}

} // verus!
