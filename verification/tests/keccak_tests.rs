use tiny_keccak::permutation::permute;
use tiny_keccak::{AdaptiveKeccak, Keccak};

fn to_hex(bytes: &[u8]) -> String {
    let mut s = String::new();
    for b in bytes {
        s.push_str(&format!("{:02x}", b));
    }
    s
}

fn v256_digest(input: &[u8]) -> String {
    let mut k = Keccak::v256();
    k.update(input);
    let mut out = vec![0u8; 32];
    k.finalize(&mut out);
    to_hex(&out)
}

#[test]
fn empty_input_v256() {
    assert_eq!(
        v256_digest(b""),
        "c5d2460186f7233c927e7db2dcc703c0e500b653ca82273b7bfad8045d85a470"
    );
}

#[test]
fn hello_v256() {
    assert_eq!(
        v256_digest(b"hello"),
        "1c8aff950685c2ed4bc3174f3472287b56d9517b9c948127319a09a7a36deac8"
    );
}

#[test]
fn hello_v512() {
    let mut k = Keccak::v512();
    k.update(b"hello");
    let mut out = vec![0u8; 64];
    k.finalize(&mut out);
    assert_eq!(
        to_hex(&out),
        "52fa80662e64c128f8389c9ea6c73d4c02368004bf4463491900d11aaadca39d\
         47de1b01361f207c512cfa79f0f92c3395c67ff7928e3f5ce3e3c852b392f976"
            .replace(char::is_whitespace, "")
    );
}

#[test]
fn abc_v224() {
    let mut k = Keccak::v224();
    k.update(b"abc");
    let mut out = vec![0u8; 28];
    k.finalize(&mut out);
    assert_eq!(
        to_hex(&out),
        "c30411768506ebe1c2871b1ee2e87d38df342317300a9b97a95ec6a8"
    );
}

#[test]
fn abc_v384() {
    let mut k = Keccak::v384();
    k.update(b"abc");
    let mut out = vec![0u8; 48];
    k.finalize(&mut out);
    assert_eq!(
        to_hex(&out),
        "f7df1165f033337be098e7d288ad6a2f74409d7a60b49c36642218de161b1f99f8c681e4afaf31a34db29fb763e3c28e"
    );
}

#[test]
fn split_updates_match_single_update() {
    let mut split = Keccak::v256();
    split.update(b"he");
    split.update(b"llo");
    let mut split_out = vec![0u8; 32];
    split.finalize(&mut split_out);

    let mut whole = Keccak::v256();
    whole.update(b"hello");
    let mut whole_out = vec![0u8; 32];
    whole.finalize(&mut whole_out);

    assert_eq!(split_out, whole_out);
}

#[test]
fn split_at_block_boundary_matches_single_update() {
    // 300 bytes split exactly at the 136-byte rate of the 256-bit level
    let data = vec![0x61u8; 300];

    let mut split = Keccak::v256();
    split.update(&data[..136]);
    split.update(&data[136..]);
    let mut split_out = vec![0u8; 32];
    split.finalize(&mut split_out);

    let mut whole = Keccak::v256();
    whole.update(&data);
    let mut whole_out = vec![0u8; 32];
    whole.finalize(&mut whole_out);

    assert_eq!(split_out, whole_out);
}

#[test]
fn permutation_zero_state_is_not_a_fixed_point() {
    let mut state = [0u64; 25];
    permute(&mut state);
    assert_ne!(state, [0u64; 25]);
    assert_eq!(state[0], 0xf1258f7940e1dde7);
    assert_eq!(state[1], 0x84d5ccf933c0478a);
}

#[test]
fn permutation_is_not_an_involution_at_zero() {
    let mut once = [0u64; 25];
    permute(&mut once);
    let mut twice = once;
    permute(&mut twice);
    assert_ne!(once, twice);
}

#[test]
fn longer_output_extends_shorter_output() {
    // 150 bytes is more than the 136-byte rate, so squeezing continues
    // past one block; the shorter requests must be prefixes of it.
    let mut long = Keccak::v256();
    long.update(b"abc");
    let mut long_out = vec![0u8; 150];
    long.finalize(&mut long_out);

    let mut short = Keccak::v256();
    short.update(b"abc");
    let mut short_out = vec![0u8; 16];
    short.finalize(&mut short_out);

    let mut rate_sized = Keccak::v256();
    rate_sized.update(b"abc");
    let mut rate_out = vec![0u8; 136];
    rate_sized.finalize(&mut rate_out);

    assert_eq!(&long_out[..16], &short_out[..]);
    assert_eq!(&long_out[..136], &rate_out[..]);
    assert_eq!(to_hex(&short_out), "4e03657aea45a94fc7d47ba826c8d667");
    assert_eq!(
        to_hex(&long_out),
        "4e03657aea45a94fc7d47ba826c8d667c0d1e6e33a64a036ec44f58fa12d6c45\
         812c38ac1e15a2bb6f607d9fe9a52dfc15c481b4d951a12cfe3523ab24e5f204\
         cdf89d2a07a02a58fcaea7e53986d12b8447d8e845b9c884aab18b55c1608e72\
         6660007b904bdf1dc05f2501c28b9a2a8b2b4af4509bdd934a81ec860cc02e16\
         1ea19ef61a1087425ad65bc7a2f99deaac123444bc41"
            .replace(char::is_whitespace, "")
    );
}

#[test]
fn padding_is_applied_at_the_block_boundary() {
    // A full rate-sized block and one byte less must give different digests.
    let full = v256_digest(&vec![0x61u8; 136]);
    let short = v256_digest(&vec![0x61u8; 135]);
    assert_ne!(full, short);
    assert_eq!(
        full,
        "a6c4d403279fe3e0af03729caada8374b5ca54d8065329a3ebcaeb4b60aa386e"
    );
    assert_eq!(
        short,
        "34367dc248bbd832f4e3e69dfaac2f92638bd0bbd18f2912ba4ef454919cf446"
    );
}

#[test]
fn adaptive_below_threshold_hands_back_the_raw_input() {
    let mut h = AdaptiveKeccak::new(136, 0x01);
    h.update(b"hello ");
    h.update(b"world");
    assert!(!h.committed());
    let mut out = vec![0u8; 32];
    let req = h.finalize(&mut out).expect("buffered path must delegate");
    assert_eq!(req.data, b"hello world");
    assert_eq!(req.delim, 0x01);
    assert_eq!(out, vec![0u8; 32]);
}

#[test]
fn adaptive_at_threshold_stays_buffered() {
    let mut h = AdaptiveKeccak::new(136, 0x01);
    h.update(&vec![0x62u8; 100000]);
    assert!(!h.committed());
    let mut out = vec![0u8; 32];
    let req = h.finalize(&mut out).expect("buffered path must delegate");
    assert_eq!(req.data.len(), 100000);
}

#[test]
fn adaptive_above_threshold_matches_the_plain_engine() {
    let data = vec![0x62u8; 100001];

    let mut h = AdaptiveKeccak::new(136, 0x01);
    h.update(&data[..60000]);
    assert!(!h.committed());
    h.update(&data[60000..]);
    assert!(h.committed());
    let mut adaptive_out = vec![0u8; 32];
    assert!(h.finalize(&mut adaptive_out).is_none());

    assert_eq!(v256_digest(&data), to_hex(&adaptive_out));
    assert_eq!(
        to_hex(&adaptive_out),
        "be3598eba7c38f02e9d627f16dc8d091ea26d3a3bf243f9082dc8fd06469fdfa"
    );
}

#[test]
fn adaptive_commitment_is_irreversible() {
    let mut h = AdaptiveKeccak::new(136, 0x01);
    h.update(&vec![0x62u8; 100001]);
    assert!(h.committed());
    h.update(b"");
    assert!(h.committed());
    h.update(b"more");
    assert!(h.committed());
}

#[test]
fn empty_updates_do_not_change_the_digest() {
    let mut k = Keccak::v256();
    k.update(b"");
    k.update(b"hello");
    k.update(b"");
    let mut out = vec![0u8; 32];
    k.finalize(&mut out);
    assert_eq!(
        to_hex(&out),
        "1c8aff950685c2ed4bc3174f3472287b56d9517b9c948127319a09a7a36deac8"
    );
}
