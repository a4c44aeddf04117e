use vm_circuit::u256::{ToNibbles, U256};

#[test]
fn test_to_nibbles() {
    let mut expected = [0u8; 64];
    expected[0] = 1;
    assert_eq!(U256::one().to_nibbles(), expected);

    let mut expected = [0u8; 64];
    let head = [0u8, 0xF, 0, 0xE, 0, 0xF, 0, 0xF];
    expected[..8].copy_from_slice(&head);
    assert_eq!(U256::from_u128(0xF0F0E0F0u32 as u128).to_nibbles(), expected);

    let mut expected = [0u8; 64];
    for n in expected.iter_mut().take(16) {
        *n = 0xF;
    }
    assert_eq!(U256::from_u128(u64::MAX as u128).to_nibbles(), expected);
}

#[test]
fn nibbles_of_high_half() {
    let x = U256::new(0, 0xAB);
    let n = x.to_nibbles();
    assert_eq!(n[32], 0xB);
    assert_eq!(n[33], 0xA);
    assert!(n[..32].iter().all(|&d| d == 0));
}
