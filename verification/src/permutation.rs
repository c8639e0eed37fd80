//! The fixed-width permutation at the heart of the sponge: 24 rounds of
//! theta, rho, pi, chi and iota over a state of 25 sixty-four-bit lanes.

use vstd::prelude::*;

verus! {

/// Left rotation of a 64-bit lane by `n` bits.
pub open spec fn rotl_spec(v: u64, n: u64) -> u64
    recommends
        n < 64,
{
    if n == 0 {
        v
    } else {
        (v << n) | (v >> ((64 - n) as u64))
    }
}

/// Parity of column `x`: the XOR of the five lanes above one another.
pub open spec fn column(a: Seq<u64>, x: int) -> u64
    recommends
        a.len() == 25,
        0 <= x < 5,
{
    a[x] ^ a[x + 5] ^ a[x + 10] ^ a[x + 15] ^ a[x + 20]
}

/// The theta step: each lane is XORed with the parity of the column to its
/// left and the rotated parity of the column to its right.
pub open spec fn theta(a: Seq<u64>) -> Seq<u64>
    recommends
        a.len() == 25,
{
    Seq::new(
        25,
        |i: int|
            a[i] ^ column(a, (i % 5 + 4) % 5) ^ rotl_spec(column(a, (i % 5 + 1) % 5), 1),
    )
}

/// The lane that the combined rho and pi steps move onto position `j`.
pub open spec fn pi_src(j: int) -> int {
    if j == 0 {
        0
    } else if j == 1 {
        6
    } else if j == 2 {
        12
    } else if j == 3 {
        18
    } else if j == 4 {
        24
    } else if j == 5 {
        3
    } else if j == 6 {
        9
    } else if j == 7 {
        10
    } else if j == 8 {
        16
    } else if j == 9 {
        22
    } else if j == 10 {
        1
    } else if j == 11 {
        7
    } else if j == 12 {
        13
    } else if j == 13 {
        19
    } else if j == 14 {
        20
    } else if j == 15 {
        4
    } else if j == 16 {
        5
    } else if j == 17 {
        11
    } else if j == 18 {
        17
    } else if j == 19 {
        23
    } else if j == 20 {
        2
    } else if j == 21 {
        8
    } else if j == 22 {
        14
    } else if j == 23 {
        15
    } else {
        21
    }
}

/// The rho rotation applied to the lane that lands on position `j`.
pub open spec fn rho_rot(j: int) -> u64 {
    if j == 0 {
        0
    } else if j == 1 {
        44
    } else if j == 2 {
        43
    } else if j == 3 {
        21
    } else if j == 4 {
        14
    } else if j == 5 {
        28
    } else if j == 6 {
        20
    } else if j == 7 {
        3
    } else if j == 8 {
        45
    } else if j == 9 {
        61
    } else if j == 10 {
        1
    } else if j == 11 {
        6
    } else if j == 12 {
        25
    } else if j == 13 {
        8
    } else if j == 14 {
        18
    } else if j == 15 {
        27
    } else if j == 16 {
        36
    } else if j == 17 {
        10
    } else if j == 18 {
        15
    } else if j == 19 {
        56
    } else if j == 20 {
        62
    } else if j == 21 {
        55
    } else if j == 22 {
        39
    } else if j == 23 {
        41
    } else {
        2
    }
}

/// The combined rho and pi steps: lanes move to fixed new positions and are
/// rotated by fixed amounts; no bit is otherwise altered.
pub open spec fn rho_pi(a: Seq<u64>) -> Seq<u64>
    recommends
        a.len() == 25,
{
    Seq::new(25, |j: int| rotl_spec(a[pi_src(j)], rho_rot(j)))
}

/// The chi step, the only non-linear one: each lane is XORed with the AND of
/// the complement of its right neighbour in the row and the lane after that.
pub open spec fn chi(a: Seq<u64>) -> Seq<u64>
    recommends
        a.len() == 25,
{
    Seq::new(
        25,
        |i: int| a[i] ^ (!a[i - i % 5 + (i % 5 + 1) % 5] & a[i - i % 5 + (i % 5 + 2) % 5]),
    )
}

/// The round constant XORed into lane 0 by the iota step of round `r`.
pub open spec fn round_constant(r: int) -> u64 {
    if r == 0 {
        0x0000000000000001
    } else if r == 1 {
        0x0000000000008082
    } else if r == 2 {
        0x800000000000808a
    } else if r == 3 {
        0x8000000080008000
    } else if r == 4 {
        0x000000000000808b
    } else if r == 5 {
        0x0000000080000001
    } else if r == 6 {
        0x8000000080008081
    } else if r == 7 {
        0x8000000000008009
    } else if r == 8 {
        0x000000000000008a
    } else if r == 9 {
        0x0000000000000088
    } else if r == 10 {
        0x0000000080008009
    } else if r == 11 {
        0x000000008000000a
    } else if r == 12 {
        0x000000008000808b
    } else if r == 13 {
        0x800000000000008b
    } else if r == 14 {
        0x8000000000008089
    } else if r == 15 {
        0x8000000000008003
    } else if r == 16 {
        0x8000000000008002
    } else if r == 17 {
        0x8000000000000080
    } else if r == 18 {
        0x000000000000800a
    } else if r == 19 {
        0x800000008000000a
    } else if r == 20 {
        0x8000000080008081
    } else if r == 21 {
        0x8000000000008080
    } else if r == 22 {
        0x0000000080000001
    } else {
        0x8000000080008008
    }
}

/// The iota step: the round constant is folded into lane 0.
pub open spec fn iota(a: Seq<u64>, rc: u64) -> Seq<u64>
    recommends
        a.len() == 25,
{
    a.update(0, a[0] ^ rc)
}

/// One full round: theta, rho, pi, chi and iota, in that order.
pub open spec fn round_spec(a: Seq<u64>, rc: u64) -> Seq<u64>
    recommends
        a.len() == 25,
{
    iota(chi(rho_pi(theta(a))), rc)
}

/// The state after the first `n` rounds.
pub open spec fn rounds_spec(a: Seq<u64>, n: nat) -> Seq<u64>
    decreases n,
{
    if n == 0 {
        a
    } else {
        round_spec(rounds_spec(a, (n - 1) as nat), round_constant(n - 1))
    }
}

/// The full permutation: 24 rounds.
pub open spec fn keccak_f(a: Seq<u64>) -> Seq<u64> {
    rounds_spec(a, 24)
}

/// Left rotation of a lane.
fn rotl(v: u64, n: u64) -> (r: u64)
    requires
        n < 64,
    ensures
        r == rotl_spec(v, n),
{
    if n == 0 {
        v
    } else {
        (v << n) | (v >> (64 - n))
    }
}

/// The source position table of the combined rho and pi steps.
fn pi_src_at(j: usize) -> (s: usize)
    requires
        j < 25,
    ensures
        s < 25,
        s as int == pi_src(j as int),
{
    match j {
        0 => 0,
        1 => 6,
        2 => 12,
        3 => 18,
        4 => 24,
        5 => 3,
        6 => 9,
        7 => 10,
        8 => 16,
        9 => 22,
        10 => 1,
        11 => 7,
        12 => 13,
        13 => 19,
        14 => 20,
        15 => 4,
        16 => 5,
        17 => 11,
        18 => 17,
        19 => 23,
        20 => 2,
        21 => 8,
        22 => 14,
        23 => 15,
        _ => 21,
    }
}

/// The rotation table of the combined rho and pi steps.
fn rho_rot_at(j: usize) -> (n: u64)
    requires
        j < 25,
    ensures
        n < 64,
        n == rho_rot(j as int),
{
    match j {
        0 => 0,
        1 => 44,
        2 => 43,
        3 => 21,
        4 => 14,
        5 => 28,
        6 => 20,
        7 => 3,
        8 => 45,
        9 => 61,
        10 => 1,
        11 => 6,
        12 => 25,
        13 => 8,
        14 => 18,
        15 => 27,
        16 => 36,
        17 => 10,
        18 => 15,
        19 => 56,
        20 => 62,
        21 => 55,
        22 => 39,
        23 => 41,
        _ => 2,
    }
}

/// The round constant table.
fn round_constant_at(r: usize) -> (c: u64)
    requires
        r < 24,
    ensures
        c == round_constant(r as int),
{
    match r {
        0 => 0x0000000000000001,
        1 => 0x0000000000008082,
        2 => 0x800000000000808a,
        3 => 0x8000000080008000,
        4 => 0x000000000000808b,
        5 => 0x0000000080000001,
        6 => 0x8000000080008081,
        7 => 0x8000000000008009,
        8 => 0x000000000000008a,
        9 => 0x0000000000000088,
        10 => 0x0000000080008009,
        11 => 0x000000008000000a,
        12 => 0x000000008000808b,
        13 => 0x800000000000008b,
        14 => 0x8000000000008089,
        15 => 0x8000000000008003,
        16 => 0x8000000000008002,
        17 => 0x8000000000000080,
        18 => 0x000000000000800a,
        19 => 0x800000008000000a,
        20 => 0x8000000080008081,
        21 => 0x8000000000008080,
        22 => 0x0000000080000001,
        _ => 0x8000000080008008,
    }
}

/// One round of the permutation, in place.
fn round(a: &mut [u64; 25], rc: u64)
    ensures
        final(a)@ == round_spec(old(a)@, rc),
{
    let ghost s0 = a@;
    // theta: column parities
    let mut c: [u64; 5] = [0u64; 5];
    let mut x: usize = 0;
    while x < 5
        invariant
            x <= 5,
            a@ == s0,
            forall|k: int| 0 <= k < x ==> c@[k] == column(s0, k),
        decreases 5 - x,
    {
        c[x] = a[x] ^ a[x + 5] ^ a[x + 10] ^ a[x + 15] ^ a[x + 20];
        x += 1;
    }
    // theta: fold the parities into every lane
    let mut t: [u64; 25] = [0u64; 25];
    let mut i: usize = 0;
    while i < 25
        invariant
            i <= 25,
            a@ == s0,
            forall|k: int| 0 <= k < 5 ==> c@[k] == column(s0, k),
            forall|k: int| 0 <= k < i ==> t@[k] == theta(s0)[k],
        decreases 25 - i,
    {
        let y: usize = i % 5;
        t[i] = a[i] ^ c[(y + 4) % 5] ^ rotl(c[(y + 1) % 5], 1);
        i += 1;
    }
    proof {
        assert(t@ =~= theta(s0));
    }
    // rho and pi: move and rotate the lanes
    let mut b: [u64; 25] = [0u64; 25];
    let mut j: usize = 0;
    while j < 25
        invariant
            j <= 25,
            t@ == theta(s0),
            forall|k: int| 0 <= k < j ==> b@[k] == rho_pi(theta(s0))[k],
        decreases 25 - j,
    {
        b[j] = rotl(t[pi_src_at(j)], rho_rot_at(j));
        j += 1;
    }
    proof {
        assert(b@ =~= rho_pi(theta(s0)));
    }
    // chi and iota
    let mut i: usize = 0;
    while i < 25
        invariant
            i <= 25,
            b@ == rho_pi(theta(s0)),
            forall|k: int| 0 <= k < i ==> a@[k] == round_spec(s0, rc)[k],
        decreases 25 - i,
    {
        let y: usize = i % 5;
        let base: usize = i - y;
        let v: u64 = b[i] ^ (!b[base + (y + 1) % 5] & b[base + (y + 2) % 5]);
        if i == 0 {
            a[i] = v ^ rc;
        } else {
            a[i] = v;
        }
        i += 1;
    }
    proof {
        assert(a@ =~= round_spec(s0, rc));
    }
}

/// The full permutation, in place: it transforms the 1600-bit state and has
/// no other effect.
pub fn permute(a: &mut [u64; 25])
    ensures
        final(a)@ == keccak_f(old(a)@),
{
    let ghost s0 = a@;
    let mut r: usize = 0;
    while r < 24
        invariant
            r <= 24,
            a@ == rounds_spec(s0, r as nat),
        decreases 24 - r,
    {
        let rc: u64 = round_constant_at(r);
        round(a, rc);
        r += 1;
    }
}

} // verus!
