//! The adaptive strategy selector: it buffers raw input up to a threshold
//! and decides once, irreversibly, between handing the whole input to an
//! external accelerated digest primitive and falling back to the ordinary
//! byte-by-byte sponge.

use vstd::prelude::*;

use crate::state::{keccak_bytes, KeccakState};

verus! {

/// Bytes the selector accepts into its raw buffer before it commits to the
/// sponge path.
pub const THRESHOLD: usize = 100000;

/// The two phases of the selector. The raw buffer and the live engine never
/// exist at once: committing consumes the buffer.
enum Mode {
    Buffering { raw: Vec<u8>, rate: usize, delim: u8 },
    Committed { state: KeccakState },
}

/// What the selector hands back when it never committed: the whole raw input
/// and the delimiter, ready for the accelerated digest primitive.
pub struct DigestRequest {
    /// Every byte the selector absorbed, in order.
    pub data: Vec<u8>,
    /// The domain-separation delimiter of the hash.
    pub delim: u8,
}

/// A hasher that buffers raw input until the threshold is crossed and only
/// then switches, once and for all, to the byte-by-byte sponge.
pub struct AdaptiveKeccak {
    mode: Mode,
}

/// Append a byte slice to a vector.
fn append_bytes(dst: &mut Vec<u8>, src: &[u8])
    ensures
        final(dst)@ == old(dst)@ + src@,
{
    let mut i: usize = 0;
    proof {
        assert(old(dst)@ + src@.take(0) =~= old(dst)@);
    }
    while i < src.len()
        invariant
            i <= src@.len(),
            dst@ == old(dst)@ + src@.take(i as int),
        decreases src@.len() - i,
    {
        dst.push(src[i]);
        proof {
            assert(old(dst)@ + src@.take(i + 1) =~= (old(dst)@ + src@.take(i as int)).push(
                src@[i as int],
            ));
        }
        i += 1;
    }
    proof {
        assert(old(dst)@ + src@.take(src@.len() as int) =~= old(dst)@ + src@);
    }
}

impl AdaptiveKeccak {
    /// The committed flag is monotonic and records exactly whether the input
    /// so far has outgrown the threshold; before committing, the raw buffer
    /// never exceeds the threshold and the engine has seen nothing.
    pub closed spec fn wf(self) -> bool {
        match self.mode {
            Mode::Buffering { raw, rate, delim } => 1 <= rate <= 200 && raw@.len()
                <= THRESHOLD,
            Mode::Committed { state } => state.wf() && state.input_spec().len() > THRESHOLD,
        }
    }

    /// Whether the selector has committed to the sponge path.
    pub closed spec fn is_committed(self) -> bool {
        self.mode is Committed
    }

    /// Every byte absorbed so far, in order, whichever phase holds it.
    pub closed spec fn input_spec(self) -> Seq<u8> {
        match self.mode {
            Mode::Buffering { raw, .. } => raw@,
            Mode::Committed { state } => state.input_spec(),
        }
    }

    /// The configured rate, in bytes.
    pub closed spec fn rate_spec(self) -> int {
        match self.mode {
            Mode::Buffering { rate, .. } => rate as int,
            Mode::Committed { state } => state.rate_spec(),
        }
    }

    /// The configured domain-separation delimiter.
    pub closed spec fn delim_spec(self) -> u8 {
        match self.mode {
            Mode::Buffering { delim, .. } => delim,
            Mode::Committed { state } => state.delim_spec(),
        }
    }

    /// A fresh selector, still buffering, with an empty raw buffer.
    pub fn new(rate: usize, delim: u8) -> (s: AdaptiveKeccak)
        requires
            1 <= rate <= 200,
        ensures
            s.wf(),
            !s.is_committed(),
            s.input_spec() == Seq::<u8>::empty(),
            s.rate_spec() == rate as int,
            s.delim_spec() == delim,
    {
        AdaptiveKeccak { mode: Mode::Buffering { raw: Vec::new(), rate, delim } }
    }

    /// Absorb input. While the raw buffer together with the new bytes stays
    /// within the threshold, the bytes are buffered; the first call that
    /// would exceed it flushes the buffer into the sponge, commits, and from
    /// then on every byte goes straight to the sponge.
    pub fn update(&mut self, input: &[u8])
        requires
            old(self).wf(),
        ensures
            final(self).wf(),
            final(self).rate_spec() == old(self).rate_spec(),
            final(self).delim_spec() == old(self).delim_spec(),
            final(self).input_spec() == old(self).input_spec() + input@,
            final(self).is_committed() == (old(self).input_spec().len() + input@.len()
                > THRESHOLD),
    {
        match &mut self.mode {
            Mode::Buffering { raw, rate, delim } => {
                if input.len() > THRESHOLD - raw.len() {
                    let mut state = KeccakState::new(*rate, *delim);
                    state.update(raw.as_slice());
                    state.update(input);
                    proof {
                        assert((Seq::<u8>::empty() + raw@) + input@ =~= raw@ + input@);
                    }
                    self.mode = Mode::Committed { state };
                } else {
                    append_bytes(raw, input);
                }
            },
            Mode::Committed { state } => {
                state.update(input);
            },
        }
    }

    /// Whether the selector has committed to the sponge path.
    pub fn committed(&self) -> (b: bool)
        ensures
            b == self.is_committed(),
    {
        match &self.mode {
            Mode::Buffering { .. } => false,
            Mode::Committed { .. } => true,
        }
    }

    /// Finish the hash. On the committed path the sponge pads and squeezes
    /// into `output`, filling its whole current length — bit-identical, by
    /// construction, to what the plain engine yields on the same input. On
    /// the buffered path nothing is written: the caller receives the whole
    /// raw input and the delimiter for the accelerated digest primitive.
    /// Consumes the selector either way.
    pub fn finalize(self, output: &mut Vec<u8>) -> (r: Option<DigestRequest>)
        requires
            self.wf(),
        ensures
            self.is_committed() ==> (r is None && final(output)@.len() == old(output)@.len()
                && final(output)@ == keccak_bytes(
                self.input_spec(),
                self.rate_spec(),
                self.delim_spec(),
                old(output)@.len(),
            )),
            !self.is_committed() ==> (r matches Some(req) && req.data@ == self.input_spec()
                && req.delim == self.delim_spec() && final(output)@ == old(output)@),
    {
        match self.mode {
            Mode::Committed { state } => {
                state.finalize(output);
                None
            },
            Mode::Buffering { raw, delim, .. } => Some(DigestRequest { data: raw, delim }),
        }
    }
}

} // verus!
