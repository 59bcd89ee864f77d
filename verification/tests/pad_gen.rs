use mlxor::pad::generate;
use mlxor::xor::transform;

#[test]
fn generate_returns_exactly_size_bytes() {
    assert_eq!(generate(16).len(), 16);
    assert_eq!(generate(1).len(), 1);
    assert_eq!(generate(1000).len(), 1000);
}

#[test]
fn generate_zero_is_empty() {
    assert_eq!(generate(0).len(), 0);
}

#[test]
fn successive_pads_differ() {
    // 32 random bytes collide with probability 2^-256: if this fails, the
    // generator is not drawing fresh randomness (or is handing the zeroed
    // buffer back unchanged, in which case both pads would be equal).
    let a = generate(32);
    let b = generate(32);
    assert_ne!(a, b);
}

#[test]
fn generated_pad_round_trips() {
    let pad = generate(16);
    assert_eq!(pad.len(), 16);
    let input: Vec<u8> = b"attack at dawn!".to_vec();
    let obfuscated = transform(&input, &pad);
    assert_eq!(obfuscated.len(), input.len());
    assert_eq!(transform(&obfuscated, &pad), input);
}
