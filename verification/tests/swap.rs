use feistel::Round;
use feistel::{MulAddRound, Network, SubSwapNet, SymmetricNetwork};

#[test]
fn weird_symmetric() {
    let network = SubSwapNet(vec![
        MulAddRound { k: 2 },
        MulAddRound { k: 3 },
        MulAddRound { k: 5 },
        MulAddRound { k: 7 },
    ]);
    let original = (426u64, 216u64);
    let encrypted = network.clone().encrypt(original);
    assert_ne!(original, encrypted);
    let decrypted = network.decrypt(encrypted);
    assert_eq!(original, decrypted);
}

#[test]
fn swap_exact_values() {
    // 23 - 426 and 101 - 216 under unsigned wraparound.
    let swapped = SubSwapNet::swap((426u64, 216u64));
    assert_eq!(swapped, (18446744073709551213u64, 18446744073709551501u64));
}

#[test]
fn swap_involution_values() {
    for block in [(0u64, 0u64), (23, 101), (426, 216), (u64::MAX, 1)] {
        assert_eq!(SubSwapNet::swap(SubSwapNet::swap(block)), block);
    }
}

#[test]
fn mul_add_round_exact_value() {
    // 2 * 216 + 991 = 1423, far below the wraparound threshold.
    let round = MulAddRound { k: 2 };
    assert_eq!(round.run(&216u64), 1423u64);
    // Wraparound: k * right + 991 mod 2^64.
    let round = MulAddRound { k: 2 };
    assert_eq!(round.run(&u64::MAX), u64::MAX.wrapping_mul(2).wrapping_add(991));
}
