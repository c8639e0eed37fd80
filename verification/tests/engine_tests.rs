use tiny_keccak::{Keccak, KeccakState};

fn to_hex(bytes: &[u8]) -> String {
    let mut s = String::new();
    for b in bytes {
        s.push_str(&format!("{:02x}", b));
    }
    s
}

#[test]
fn engine_with_the_v512_rate_matches_v512() {
    let mut engine = KeccakState::new(72, 0x01);
    engine.update(b"hello");
    let mut engine_out = vec![0u8; 64];
    engine.finalize(&mut engine_out);

    let mut hasher = Keccak::v512();
    hasher.update(b"hello");
    let mut hasher_out = vec![0u8; 64];
    hasher.finalize(&mut hasher_out);

    assert_eq!(engine_out, hasher_out);
}

#[test]
fn engine_absorbing_exactly_one_block_permutes_once() {
    // 136 bytes of input at rate 136: the state right after the boundary
    // equals the state after a fresh block, so a further update must agree
    // with the one-shot digest of the concatenation.
    let mut two_calls = KeccakState::new(136, 0x01);
    two_calls.update(&[0x61u8; 136]);
    two_calls.update(b"tail");
    let mut two_out = vec![0u8; 32];
    two_calls.finalize(&mut two_out);

    let mut one_call = KeccakState::new(136, 0x01);
    let mut whole = vec![0x61u8; 136];
    whole.extend_from_slice(b"tail");
    one_call.update(&whole);
    let mut one_out = vec![0u8; 32];
    one_call.finalize(&mut one_out);

    assert_eq!(to_hex(&two_out), to_hex(&one_out));
}
