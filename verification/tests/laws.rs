use feistel::{
    Array, ArrayNetwork, HashRound, MulAddRound, Network, Reverse, SubSwapNet, Symmetric,
    XorArray, Xor,
};

#[test]
fn zero_rounds_is_identity() {
    let network: Symmetric<HashRound, XorArray<u8>> = Symmetric::new(Vec::new());
    let original = (XorArray(vec![1u8, 2, 3]), XorArray(vec![4u8, 5, 6]));
    assert_eq!(network.encrypt(original.clone()), original);
    let network: Symmetric<HashRound, XorArray<u8>> = Symmetric::new(Vec::new());
    assert_eq!(network.decrypt(original.clone()), original);

    let network = SubSwapNet(Vec::new());
    assert_eq!(network.clone().encrypt((426u64, 216u64)), (426, 216));
    assert_eq!(network.decrypt((426u64, 216u64)), (426, 216));
}

#[test]
fn zero_rounds_array_identity() {
    let network: Array<HashRound, u8> = Array::new(Vec::new(), 2, 3);
    let original = XorArray(vec![9u8, 8, 7, 6, 5]);
    assert_eq!(network.clone().array_encrypt(original.clone()), original);
    assert_eq!(network.array_decrypt(original.clone()), original);
}

#[test]
fn reverse_adapter_decrypts() {
    let network = SubSwapNet(vec![MulAddRound { k: 2 }, MulAddRound { k: 3 }]);
    let original = (7u64, 11u64);
    let encrypted = network.clone().encrypt(original);
    assert_eq!(Reverse(network.clone()).encrypt(encrypted), original);
    assert_eq!(Reverse(network.clone()).decrypt(original), encrypted);
    assert_eq!(network.decrypt(encrypted), original);
}

#[test]
fn xor_array_cancellation() {
    let a = XorArray(vec![0x0fu8, 0xf0, 0x55]);
    let b = XorArray(vec![1u8, 2, 3]);
    let folded = a.clone().xor(b.clone());
    assert_eq!(folded, XorArray(vec![0x0eu8, 0xf2, 0x56]));
    assert_eq!(a.clone().xor(folded), b);
}

#[test]
fn xor_array_length_mismatch_keeps_right_operand() {
    let a = XorArray(vec![0xffu8; 4]);
    let b = XorArray(vec![1u8, 2, 3]);
    assert_eq!(a.xor(b.clone()), b);
}

#[test]
fn single_round_symmetric_round_trip() {
    let network = SubSwapNet(vec![MulAddRound { k: 5 }]);
    let original = (1u64, 2u64);
    let encrypted = network.clone().encrypt(original);
    // One round: left becomes (5 * 2 + 991) ^ 1, right is untouched.
    assert_eq!(encrypted, (1001u64 ^ 1, 2));
    assert_eq!(network.decrypt(encrypted), original);
}
