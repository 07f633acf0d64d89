use feistel::Round;
use feistel::{Array, ArrayExt, ArrayNetwork, HashRound, Network, Symmetric, SymmetricExt, XorArray};

fn key() -> Vec<u8> {
    (0..32).map(|i| i as u8).collect()
}

fn rounds_from_key(key: &[u8]) -> Vec<HashRound> {
    key.chunks_exact(4).map(|chunk| HashRound { chunk: chunk.to_vec() }).collect()
}

#[test]
fn symmetric() {
    let key = key();
    let network: Symmetric<HashRound, XorArray<u8>> = rounds_from_key(&key).feistel_symmetric();
    let block = vec![0u8; 64];
    let (left, right) = block.split_at(32);
    let original = (XorArray(left.to_vec()), XorArray(right.to_vec()));
    let encrypted = network.clone().encrypt(original.clone());
    assert_ne!(original, encrypted);
    let decrypted = network.decrypt(encrypted);
    assert_eq!(original, decrypted);
}

#[test]
fn array_symmetric() {
    let key = key();
    let network: Array<HashRound, u8> = rounds_from_key(&key).feistel_array(32, 32);
    let original = XorArray(vec![0u8; 64]);
    let encrypted = network.clone().array_encrypt(original.clone());
    assert_ne!(original, encrypted);
    let decrypted = network.array_decrypt(encrypted);
    assert_eq!(original, decrypted);
}

#[test]
fn array_asymmetric() {
    let key = key();
    let network: Array<HashRound, u8> = rounds_from_key(&key).feistel_array(32, 16);
    let original = XorArray(vec![0u8; 48]);
    let encrypted = network.clone().array_encrypt(original.clone());
    assert_ne!(original, encrypted);
    let decrypted = network.array_decrypt(encrypted);
    assert_eq!(original, decrypted);
}

#[test]
fn hash_round_is_a_real_digest() {
    // The round's output is a 32-byte digest, not its 36-byte input, and it
    // is a function of the input alone.
    let half = XorArray(vec![0u8; 32]);
    let round = HashRound { chunk: vec![0, 1, 2, 3] };
    let out = round.run(&half);
    assert_eq!(out.0.len(), 32);
    assert_ne!(out, half);
    let again = HashRound { chunk: vec![0, 1, 2, 3] }.run(&XorArray(vec![0u8; 32]));
    assert_eq!(out, again);
}
