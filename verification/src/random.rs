//! The injected randomness capability, and the derivation of a 32-bit draw
//! from the raw entropy it yields.
//!
//! Within one operation the host's randomness is a deterministic function of
//! the seed (fresh entropy arrives only between blocks), so the capability is
//! modelled as a pure mapping from seed to bytes; rejection sampling retries
//! by varying the seed.

use vstd::prelude::*;

verus! {

/// The randomness capability: at least four bytes of entropy for any seed,
/// deterministically within one operation.
pub trait RandomSource {
    /// The bytes this source yields for a seed.
    spec fn spec_random(&self, seed: u32) -> Seq<u8>;

    /// Produce the entropy for `seed`: always enough to decode a 32-bit
    /// value.
    fn random(&self, seed: u32) -> (r: Vec<u8>)
        ensures
            r@ == self.spec_random(seed),
            r@.len() >= 4,
    ;
}

/// The 32-bit value read little-endian from the first four bytes, or zero
/// when fewer than four bytes are given.
pub open spec fn u32_from_le(s: Seq<u8>) -> u32 {
    if s.len() >= 4 {
        (s[0] + 256 * (s[1] + 256 * (s[2] + 256 * s[3]))) as u32
    } else {
        0
    }
}

/// The draw a source yields for a seed.
pub open spec fn spec_draw<R: RandomSource>(rng: &R, seed: u32) -> u32 {
    u32_from_le(rng.spec_random(seed))
}

/// Generate a random number from a given seed: the 32-bit value decoded from
/// the source's entropy.
pub fn generate_random_number<R: RandomSource>(rng: &R, seed: u32) -> (r: u32)
    ensures
        r == spec_draw(rng, seed),
{
    let bytes = rng.random(seed);
    let b0 = bytes[0] as u32;
    let b1 = bytes[1] as u32;
    let b2 = bytes[2] as u32;
    let b3 = bytes[3] as u32;
    b0 + 256 * (b1 + 256 * (b2 + 256 * b3))
}

/// The four little-endian bytes of a 32-bit value.
pub open spec fn le_bytes_of(w: u32) -> Seq<u8> {
    seq![
        (w % 256) as u8,
        ((w / 256) % 256) as u8,
        ((w / 65536) % 256) as u8,
        ((w / 16777216) % 256) as u8,
    ]
}

/// Reading back the little-endian bytes of a value yields the value.
pub proof fn lemma_le_bytes_round_trip(w: u32)
    ensures
        u32_from_le(le_bytes_of(w)) == w,
{
    let s = le_bytes_of(w);
    assert(w % 256 + 256 * ((w / 256) % 256 + 256 * ((w / 65536) % 256 + 256 * ((w / 16777216)
        % 256))) == w) by (bit_vector);
    assert(s[0] == (w % 256) as u8);
    assert(s[1] == ((w / 256) % 256) as u8);
    assert(s[2] == ((w / 65536) % 256) as u8);
    assert(s[3] == ((w / 16777216) % 256) as u8);
}

/// A deterministic randomness source over a fixed table of 32-bit words: the
/// draw for a seed is the word at `seed` modulo the table length (zero when
/// the table is empty).
pub struct FixedRandom {
    /// The table of draws.
    pub words: Vec<u32>,
}

impl FixedRandom {
    /// The word this source yields for a seed.
    pub open spec fn spec_word(&self, seed: u32) -> u32 {
        if self.words@.len() == 0 {
            0
        } else {
            self.words@[seed as int % self.words@.len() as int]
        }
    }
}

impl RandomSource for FixedRandom {
    open spec fn spec_random(&self, seed: u32) -> Seq<u8> {
        le_bytes_of(self.spec_word(seed))
    }

    fn random(&self, seed: u32) -> (r: Vec<u8>) {
        let w = if self.words.len() == 0 {
            0
        } else {
            self.words[(seed as usize) % self.words.len()]
        };
        let mut bytes: Vec<u8> = Vec::new();
        bytes.push((w % 256) as u8);
        bytes.push(((w / 256) % 256) as u8);
        bytes.push(((w / 65536) % 256) as u8);
        bytes.push(((w / 16777216) % 256) as u8);
        proof {
            assert(bytes@ =~= le_bytes_of(self.spec_word(seed)));
        }
        bytes
    }
}

/// The draw of a fixed source is the stored word.
pub proof fn lemma_fixed_random_draw(rng: &FixedRandom, seed: u32)
    ensures
        spec_draw(rng, seed) == rng.spec_word(seed),
{
    lemma_le_bytes_round_trip(rng.spec_word(seed));
}

} // verus!
