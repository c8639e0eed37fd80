//! The generic sponge state engine: a 1600-bit permutation state absorbed
//! into byte by byte at a configured rate, finished with multi-rate padding
//! and squeezed out block by block.

use vstd::prelude::*;

use crate::permutation::{keccak_f, permute};

verus! {

/// The all-zero state a sponge starts from.
pub open spec fn zero_lanes() -> Seq<u64> {
    Seq::new(25, |i: int| 0u64)
}

/// The state with byte `b` XORed in at byte position `pos` (lanes are read as
/// eight little-endian bytes each).
pub open spec fn xor_byte(l: Seq<u64>, pos: int, b: u8) -> Seq<u64>
    recommends
        l.len() == 25,
        0 <= pos < 200,
{
    l.update(pos / 8, l[pos / 8] ^ ((b as u64) << ((8 * (pos % 8)) as u64)))
}

/// One absorbed byte: XOR it at the cursor, and when the cursor reaches the
/// rate, run the permutation and reset the cursor.
pub open spec fn absorb_one(l: Seq<u64>, off: int, b: u8, rate: int) -> (Seq<u64>, int)
    recommends
        l.len() == 25,
        1 <= rate <= 200,
        0 <= off < rate,
{
    let l2 = xor_byte(l, off, b);
    if off + 1 == rate {
        (keccak_f(l2), 0)
    } else {
        (l2, off + 1)
    }
}

/// The state and cursor after absorbing `input`, byte by byte.
pub open spec fn absorb(l: Seq<u64>, off: int, input: Seq<u8>, rate: int) -> (Seq<u64>, int)
    recommends
        l.len() == 25,
        1 <= rate <= 200,
        0 <= off < rate,
    decreases input.len(),
{
    if input.len() == 0 {
        (l, off)
    } else {
        let s = absorb_one(l, off, input[0], rate);
        absorb(s.0, s.1, input.skip(1), rate)
    }
}

/// Byte `j` of the state, lanes read little-endian.
pub open spec fn lane_byte(l: Seq<u64>, j: int) -> u8
    recommends
        l.len() == 25,
        0 <= j < 200,
{
    ((l[j / 8] >> ((8 * (j % 8)) as u64)) & 0xff) as u8
}

/// The 200 bytes of the state.
pub open spec fn state_bytes(l: Seq<u64>) -> Seq<u8>
    recommends
        l.len() == 25,
{
    Seq::new(200, |j: int| lane_byte(l, j))
}

/// `n` bytes squeezed out of the state: up to `rate` bytes per block, with a
/// permutation between blocks whenever more output is requested.
pub open spec fn squeeze(l: Seq<u64>, n: nat, rate: int) -> Seq<u8>
    recommends
        l.len() == 25,
        1 <= rate <= 200,
    decreases n,
{
    if rate < 1 {
        Seq::empty()
    } else if n <= rate {
        state_bytes(l).take(n as int)
    } else {
        state_bytes(l).take(rate) + squeeze(keccak_f(l), (n - rate) as nat, rate)
    }
}

/// Multi-rate padding and the final permutation: the delimiter lands on the
/// cursor, `0x80` on the last byte of the block (both on the same byte when
/// the two positions coincide).
pub open spec fn pad_state(l: Seq<u64>, off: int, rate: int, delim: u8) -> Seq<u64>
    recommends
        l.len() == 25,
        1 <= rate <= 200,
        0 <= off < rate,
{
    keccak_f(xor_byte(xor_byte(l, off, delim), rate - 1, 0x80))
}

/// The whole hash as a function of the absorbed input: absorb from the zero
/// state, pad, and squeeze `outlen` bytes.
pub open spec fn keccak_bytes(input: Seq<u8>, rate: int, delim: u8, outlen: nat) -> Seq<u8>
    recommends
        1 <= rate <= 200,
{
    let s = absorb(zero_lanes(), 0, input, rate);
    squeeze(pad_state(s.0, s.1, rate, delim), outlen, rate)
}

/// Absorption is associative over concatenation: feeding `a` then `b` leaves
/// the sponge exactly where feeding `a + b` at once leaves it.
pub proof fn lemma_absorb_concat(l: Seq<u64>, off: int, a: Seq<u8>, b: Seq<u8>, rate: int)
    ensures
        absorb(l, off, a + b, rate) == absorb(
            absorb(l, off, a, rate).0,
            absorb(l, off, a, rate).1,
            b,
            rate,
        ),
    decreases a.len(),
{
    if a.len() == 0 {
        assert(a + b =~= b);
    } else {
        assert((a + b)[0] == a[0]);
        assert((a + b).skip(1) =~= a.skip(1) + b);
        let s = absorb_one(l, off, a[0], rate);
        lemma_absorb_concat(s.0, s.1, a.skip(1), b, rate);
    }
}

/// Absorbing one more byte after a sequence is one `absorb_one` step on the
/// state the sequence leaves.
pub proof fn lemma_absorb_push(l: Seq<u64>, off: int, a: Seq<u8>, b: u8, rate: int)
    ensures
        absorb(l, off, a.push(b), rate) == absorb_one(
            absorb(l, off, a, rate).0,
            absorb(l, off, a, rate).1,
            b,
            rate,
        ),
{
    let single = seq![b];
    assert(a.push(b) =~= a + single);
    lemma_absorb_concat(l, off, a, single, rate);
    let s = absorb(l, off, a, rate);
    let t = absorb_one(s.0, s.1, b, rate);
    assert(single[0] == b);
    assert(absorb(s.0, s.1, single, rate) == absorb(t.0, t.1, single.skip(1), rate));
    assert(single.skip(1) =~= Seq::<u8>::empty());
    assert(absorb(t.0, t.1, Seq::<u8>::empty(), rate) == (t.0, t.1));
    assert(t == (t.0, t.1));
}

/// The squeeze produces exactly as many bytes as were asked for.
pub proof fn lemma_squeeze_len(l: Seq<u64>, n: nat, rate: int)
    requires
        1 <= rate <= 200,
    ensures
        squeeze(l, n, rate).len() == n,
    decreases n,
{
    if n > rate {
        lemma_squeeze_len(keccak_f(l), (n - rate) as nat, rate);
    }
}

/// Squeeze continuation is consistent: a longer request begins with exactly
/// the bytes a shorter request yields.
pub proof fn lemma_squeeze_prefix(l: Seq<u64>, n1: nat, n2: nat, rate: int)
    requires
        n1 <= n2,
        1 <= rate <= 200,
    ensures
        squeeze(l, n1, rate) == squeeze(l, n2, rate).take(n1 as int),
    decreases n1,
{
    lemma_squeeze_len(l, n1, rate);
    lemma_squeeze_len(l, n2, rate);
    if n2 <= rate {
        assert(squeeze(l, n1, rate) =~= squeeze(l, n2, rate).take(n1 as int));
    } else if n1 <= rate {
        assert(squeeze(l, n1, rate) =~= squeeze(l, n2, rate).take(n1 as int));
    } else {
        lemma_squeeze_prefix(keccak_f(l), (n1 - rate) as nat, (n2 - rate) as nat, rate);
        assert(squeeze(l, n1, rate) =~= squeeze(l, n2, rate).take(n1 as int));
    }
}

/// A digest of any requested length begins with the digest of any shorter
/// requested length, over the same input, rate and delimiter.
pub proof fn lemma_digest_prefix(input: Seq<u8>, rate: int, delim: u8, n1: nat, n2: nat)
    requires
        n1 <= n2,
        1 <= rate <= 200,
    ensures
        keccak_bytes(input, rate, delim, n1) == keccak_bytes(input, rate, delim, n2).take(
            n1 as int,
        ),
{
    let s = absorb(zero_lanes(), 0, input, rate);
    lemma_squeeze_prefix(pad_state(s.0, s.1, rate, delim), n1, n2, rate);
}

/// XOR a byte into the state at byte position `pos`.
fn xor_byte_into(lanes: &mut [u64; 25], pos: usize, b: u8)
    requires
        pos < 200,
    ensures
        final(lanes)@ == xor_byte(old(lanes)@, pos as int, b),
{
    let w: usize = pos / 8;
    let sh: u64 = (8 * (pos % 8)) as u64;
    lanes[w] = lanes[w] ^ ((b as u64) << sh);
}

/// Read byte `j` of the state.
fn state_byte_at(lanes: &[u64; 25], j: usize) -> (b: u8)
    requires
        j < 200,
    ensures
        b == lane_byte(lanes@, j as int),
{
    let w: usize = j / 8;
    let sh: u64 = (8 * (j % 8)) as u64;
    let x: u64 = lanes[w] >> sh;
    proof {
        assert(x & 0xff < 256) by (bit_vector);
    }
    (x & 0xff) as u8
}

/// The sponge state engine: a permutation state, a cursor into the current
/// block, the configured rate, and the domain-separation delimiter.
pub struct KeccakState {
    lanes: [u64; 25],
    offset: usize,
    rate: usize,
    delim: u8,
    history: Ghost<Seq<u8>>,
}

impl KeccakState {
    /// The engine is exactly the sponge that its absorbed history describes.
    pub closed spec fn wf(self) -> bool {
        &&& 1 <= self.rate <= 200
        &&& self.offset < self.rate
        &&& self.lanes@ == absorb(zero_lanes(), 0, self.history@, self.rate as int).0
        &&& self.offset as int == absorb(zero_lanes(), 0, self.history@, self.rate as int).1
    }

    /// Every byte absorbed so far, in order.
    pub closed spec fn input_spec(self) -> Seq<u8> {
        self.history@
    }

    /// The configured rate, in bytes.
    pub closed spec fn rate_spec(self) -> int {
        self.rate as int
    }

    /// The configured domain-separation delimiter.
    pub closed spec fn delim_spec(self) -> u8 {
        self.delim
    }

    /// A fresh engine over the all-zero state.
    pub fn new(rate: usize, delim: u8) -> (s: KeccakState)
        requires
            1 <= rate <= 200,
        ensures
            s.wf(),
            s.input_spec() == Seq::<u8>::empty(),
            s.rate_spec() == rate as int,
            s.delim_spec() == delim,
    {
        let lanes: [u64; 25] = [0u64; 25];
        proof {
            assert(lanes@ =~= zero_lanes());
        }
        KeccakState { lanes, offset: 0, rate, delim, history: Ghost(Seq::empty()) }
    }

    /// Absorb a byte slice: XOR it in at the cursor, permuting each time the
    /// cursor reaches the rate. Callable any number of times, with any input.
    pub fn update(&mut self, input: &[u8])
        requires
            old(self).wf(),
        ensures
            final(self).wf(),
            final(self).rate_spec() == old(self).rate_spec(),
            final(self).delim_spec() == old(self).delim_spec(),
            final(self).input_spec() == old(self).input_spec() + input@,
    {
        let ghost l0 = self.lanes@;
        let ghost off0 = self.offset as int;
        let ghost r = self.rate as int;
        let mut i: usize = 0;
        while i < input.len()
            invariant
                i <= input@.len(),
                self.rate == old(self).rate,
                self.delim == old(self).delim,
                self.history == old(self).history,
                1 <= self.rate <= 200,
                self.offset < self.rate,
                r == self.rate as int,
                self.lanes@ == absorb(l0, off0, input@.take(i as int), r).0,
                self.offset as int == absorb(l0, off0, input@.take(i as int), r).1,
            decreases input@.len() - i,
        {
            let ghost pre_lanes = self.lanes@;
            let ghost pre_off = self.offset as int;
            xor_byte_into(&mut self.lanes, self.offset, input[i]);
            self.offset += 1;
            if self.offset == self.rate {
                permute(&mut self.lanes);
                self.offset = 0;
            }
            proof {
                assert((self.lanes@, self.offset as int) == absorb_one(
                    pre_lanes,
                    pre_off,
                    input@[i as int],
                    r,
                ));
                lemma_absorb_push(l0, off0, input@.take(i as int), input@[i as int], r);
                assert(input@.take(i + 1) =~= input@.take(i as int).push(input@[i as int]));
            }
            i += 1;
        }
        proof {
            assert(input@.take(input@.len() as int) =~= input@);
        }
        let ghost h = self.history@ + input@;
        self.history = Ghost(h);
        proof {
            lemma_absorb_concat(zero_lanes(), 0, old(self).history@, input@, r);
        }
    }

    /// Pad, permute, and squeeze the digest into `output`, filling its whole
    /// current length. Consumes the engine: no instance survives its finalize.
    pub fn finalize(self, output: &mut Vec<u8>)
        requires
            self.wf(),
        ensures
            final(output)@.len() == old(output)@.len(),
            final(output)@ == keccak_bytes(
                self.input_spec(),
                self.rate_spec(),
                self.delim_spec(),
                old(output)@.len(),
            ),
    {
        let KeccakState { mut lanes, offset, rate, delim, history } = self;
        xor_byte_into(&mut lanes, offset, delim);
        xor_byte_into(&mut lanes, rate - 1, 0x80);
        permute(&mut lanes);
        let ghost padded = lanes@;
        proof {
            assert(padded == pad_state(
                absorb(zero_lanes(), 0, history@, rate as int).0,
                absorb(zero_lanes(), 0, history@, rate as int).1,
                rate as int,
                delim,
            ));
        }
        let n: usize = output.len();
        let mut out: Vec<u8> = Vec::new();
        let mut produced: usize = 0;
        while produced < n
            invariant
                produced <= n,
                out@.len() == produced,
                1 <= rate <= 200,
                squeeze(padded, n as nat, rate as int) == out@ + squeeze(
                    lanes@,
                    (n - produced) as nat,
                    rate as int,
                ),
            decreases n - produced,
        {
            let ghost block_start = lanes@;
            let ghost out_start = out@;
            let ghost m = (n - produced) as nat;
            let chunk: usize = if n - produced < rate {
                n - produced
            } else {
                rate
            };
            let mut k: usize = 0;
            while k < chunk
                invariant
                    k <= chunk,
                    chunk <= rate <= 200,
                    lanes@ == block_start,
                    out@ =~= out_start + state_bytes(block_start).take(k as int),
                decreases chunk - k,
            {
                let b: u8 = state_byte_at(&lanes, k);
                out.push(b);
                proof {
                    assert(state_bytes(block_start).take(k + 1) =~= state_bytes(
                        block_start,
                    ).take(k as int).push(state_bytes(block_start)[k as int]));
                }
                k += 1;
            }
            produced += chunk;
            if produced < n {
                permute(&mut lanes);
            }
            proof {
                if m <= rate {
                    assert(squeeze(block_start, m, rate as int) == state_bytes(
                        block_start,
                    ).take(m as int));
                    assert(out@ =~= out_start + squeeze(block_start, m, rate as int));
                    assert(squeeze(lanes@, (n - produced) as nat, rate as int) =~= Seq::<
                        u8,
                    >::empty());
                    assert(squeeze(padded, n as nat, rate as int) =~= out@ + squeeze(
                        lanes@,
                        (n - produced) as nat,
                        rate as int,
                    ));
                } else {
                    assert(squeeze(block_start, m, rate as int) == state_bytes(
                        block_start,
                    ).take(rate as int) + squeeze(keccak_f(block_start), (m - rate) as nat,
                        rate as int,
                    ));
                    assert(squeeze(padded, n as nat, rate as int) =~= out@ + squeeze(
                        lanes@,
                        (n - produced) as nat,
                        rate as int,
                    ));
                }
            }
        }
        proof {
            assert(squeeze(lanes@, 0, rate as int) =~= Seq::<u8>::empty());
            assert(out@ =~= squeeze(padded, n as nat, rate as int));
        }
        *output = out;
    }
}

} // verus!
