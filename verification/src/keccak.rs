//! The `Keccak` hash functions: a sponge state engine configured with the
//! rate of the chosen security level and the Keccak delimiter `0x01`.

use vstd::prelude::*;

use crate::state::{keccak_bytes, KeccakState};

verus! {

/// The Keccak domain-separation delimiter.
pub open spec fn keccak_delim() -> u8 {
    0x01
}

/// The sponge rate, in bytes, of the security level `bits`:
/// the 200-byte state less twice the digest size.
pub open spec fn bits_to_rate_spec(bits: int) -> int {
    200 - bits / 4
}

/// Rate of a security level, in bytes.
pub fn bits_to_rate(bits: usize) -> (rate: usize)
    requires
        bits == 224 || bits == 256 || bits == 384 || bits == 512,
    ensures
        rate as int == bits_to_rate_spec(bits as int),
        1 <= rate <= 200,
{
    200 - bits / 4
}

/// A `Keccak` hasher: absorb bytes with `update`, then `finalize` once.
pub struct Keccak {
    state: KeccakState,
}

impl Keccak {
    /// A well-formed hasher: a well-formed engine with the Keccak delimiter
    /// and the rate of one of the four security levels.
    pub closed spec fn wf(self) -> bool {
        &&& self.state.wf()
        &&& self.state.delim_spec() == keccak_delim()
        &&& (self.state.rate_spec() == 144 || self.state.rate_spec() == 136
            || self.state.rate_spec() == 104 || self.state.rate_spec() == 72)
    }

    /// Every byte absorbed so far, in order.
    pub closed spec fn input_spec(self) -> Seq<u8> {
        self.state.input_spec()
    }

    /// The configured rate, in bytes.
    pub closed spec fn rate_spec(self) -> int {
        self.state.rate_spec()
    }

    /// Creates a new [`Keccak`] hasher with a security level of 224 bits.
    pub fn v224() -> (k: Keccak)
        ensures
            k.wf(),
            k.rate_spec() == 144,
            k.input_spec() == Seq::<u8>::empty(),
    {
        Keccak::new(224)
    }

    /// Creates a new [`Keccak`] hasher with a security level of 256 bits.
    pub fn v256() -> (k: Keccak)
        ensures
            k.wf(),
            k.rate_spec() == 136,
            k.input_spec() == Seq::<u8>::empty(),
    {
        Keccak::new(256)
    }

    /// Creates a new [`Keccak`] hasher with a security level of 384 bits.
    pub fn v384() -> (k: Keccak)
        ensures
            k.wf(),
            k.rate_spec() == 104,
            k.input_spec() == Seq::<u8>::empty(),
    {
        Keccak::new(384)
    }

    /// Creates a new [`Keccak`] hasher with a security level of 512 bits.
    pub fn v512() -> (k: Keccak)
        ensures
            k.wf(),
            k.rate_spec() == 72,
            k.input_spec() == Seq::<u8>::empty(),
    {
        Keccak::new(512)
    }

    /// A hasher of the given security level.
    fn new(bits: usize) -> (k: Keccak)
        requires
            bits == 224 || bits == 256 || bits == 384 || bits == 512,
        ensures
            k.wf(),
            k.rate_spec() == bits_to_rate_spec(bits as int),
            k.input_spec() == Seq::<u8>::empty(),
    {
        let rate: usize = bits_to_rate(bits);
        Keccak { state: KeccakState::new(rate, 0x01) }
    }

    /// Absorb additional input. Can be called multiple times.
    pub fn update(&mut self, input: &[u8])
        requires
            old(self).wf(),
        ensures
            final(self).wf(),
            final(self).rate_spec() == old(self).rate_spec(),
            final(self).input_spec() == old(self).input_spec() + input@,
    {
        self.state.update(input);
    }

    /// Pad and squeeze the state into `output`, filling its whole current
    /// length. Consumes the hasher.
    pub fn finalize(self, output: &mut Vec<u8>)
        requires
            self.wf(),
        ensures
            final(output)@.len() == old(output)@.len(),
            final(output)@ == keccak_bytes(
                self.input_spec(),
                self.rate_spec(),
                keccak_delim(),
                old(output)@.len(),
            ),
    {
        self.state.finalize(output);
    }
}

} // verus!
