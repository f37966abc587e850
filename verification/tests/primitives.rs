//! Addresses and words, and their big-endian encodings.

use alloy_primitives::{Address as EngineAddress, B256, U256};
use block_access_list::primitives::{
    address_from_be_bytes, address_to_be_bytes, same_address, same_word,
    word_from_be_bytes, word_to_be_bytes, Address, Word, ZERO,
};

fn counting(len: usize) -> Vec<u8> {
    (1..=len as u8).collect()
}

#[test]
fn word_from_bytes_reads_most_significant_first() {
    let mut bytes = [0u8; 32];
    bytes[31] = 0x2a;
    assert_eq!(word_from_be_bytes(&bytes), (0, 42));
    bytes[15] = 1;
    assert_eq!(word_from_be_bytes(&bytes), (1, 42));
    bytes[0] = 0x80;
    assert_eq!(word_from_be_bytes(&bytes), ((1u128 << 127) + 1, 42));
    bytes[16] = 0xff;
    assert_eq!(word_from_be_bytes(&bytes), ((1u128 << 127) + 1, (0xffu128 << 120) + 42));
}

#[test]
fn word_to_bytes_writes_most_significant_first() {
    let bytes = word_to_be_bytes((0x0102, 0x0304));
    let mut expected = [0u8; 32];
    expected[14] = 1;
    expected[15] = 2;
    expected[30] = 3;
    expected[31] = 4;
    assert_eq!(bytes, expected);
    assert_eq!(word_to_be_bytes(ZERO), [0u8; 32]);
    assert_eq!(word_to_be_bytes((u128::MAX, u128::MAX)), [0xffu8; 32]);
}

#[test]
fn word_bytes_round_trip() {
    let bytes: [u8; 32] = counting(32).try_into().unwrap();
    let word = word_from_be_bytes(&bytes);
    assert_eq!(word, (0x0102030405060708090a0b0c0d0e0f10, 0x1112131415161718191a1b1c1d1e1f20));
    assert_eq!(word_to_be_bytes(word), bytes);
    for word in [ZERO, (0, 1), (1, 0), (u128::MAX, 0), (0, u128::MAX), (u128::MAX, u128::MAX)] {
        assert_eq!(word_from_be_bytes(&word_to_be_bytes(word)), word);
    }
}

#[test]
fn address_bytes_round_trip() {
    let bytes: [u8; 20] = counting(20).try_into().unwrap();
    let address = address_from_be_bytes(&bytes);
    assert_eq!(address, (0x01020304, 0x05060708090a0b0c0d0e0f1011121314));
    assert_eq!(address_to_be_bytes(address), bytes);
    for address in [(0, 0), (0, 1), (1, 0), (u32::MAX, u128::MAX)] {
        assert_eq!(address_from_be_bytes(&address_to_be_bytes(address)), address);
    }
    assert_eq!(address_to_be_bytes((0, 0)), [0u8; 20]);
    assert_eq!(address_to_be_bytes((u32::MAX, u128::MAX)), [0xffu8; 20]);
}

#[test]
fn words_agree_with_the_engine_numbers() {
    let forty_two = U256::from(42u64);
    assert_eq!(word_from_be_bytes(&forty_two.to_be_bytes::<32>()), (0, 42));
    assert_eq!(U256::from_be_bytes(word_to_be_bytes((0, 42))), forty_two);

    let big: U256 = (U256::from(7u64) << 128usize) + U256::from(9u64);
    assert_eq!(word_from_be_bytes(&big.to_be_bytes::<32>()), (7, 9));
    assert_eq!(U256::from_be_bytes(word_to_be_bytes((7, 9))), big);
    assert_eq!(U256::from_be_bytes(word_to_be_bytes((u128::MAX, u128::MAX))), U256::MAX);

    let key = B256::from(big.to_be_bytes::<32>());
    assert_eq!(word_from_be_bytes(&key.0), (7, 9));
    assert_eq!(B256::from(word_to_be_bytes((7, 9))), key);
}

#[test]
fn addresses_agree_with_the_engine_addresses() {
    let text = "bd770416a3345f91e4b34576cb804a576fa48eb1";
    let engine = EngineAddress::from_slice(&alloy_primitives::hex::decode(text).unwrap());
    let address = address_from_be_bytes(&engine.into_array());
    assert_eq!(address, (0xbd770416, 0xa3345f91e4b34576cb804a576fa48eb1));
    assert_eq!(EngineAddress::from(address_to_be_bytes(address)), engine);
    assert_eq!(address_from_be_bytes(&EngineAddress::ZERO.into_array()), (0, 0));
}

#[test]
fn order_is_the_order_of_the_bytes() {
    let words: [Word; 6] = [(0, 0), (0, 1), (0, u128::MAX), (1, 0), (1, 1), (u128::MAX, 0)];
    for pair in words.windows(2) {
        assert!(pair[0] < pair[1]);
        assert!(word_to_be_bytes(pair[0]) < word_to_be_bytes(pair[1]));
        assert!(
            U256::from_be_bytes(word_to_be_bytes(pair[0]))
                < U256::from_be_bytes(word_to_be_bytes(pair[1]))
        );
    }
    let addresses: [Address; 4] = [(0, 0), (0, 5), (1, 0), (u32::MAX, 0)];
    for pair in addresses.windows(2) {
        assert!(pair[0] < pair[1]);
        assert!(
            EngineAddress::from(address_to_be_bytes(pair[0]))
                < EngineAddress::from(address_to_be_bytes(pair[1]))
        );
    }
}

#[test]
fn equality_compares_both_halves() {
    assert!(same_word((1, 2), (1, 2)));
    assert!(!same_word((1, 2), (1, 3)));
    assert!(!same_word((1, 2), (2, 2)));
    assert!(same_address((1, 2), (1, 2)));
    assert!(!same_address((1, 2), (1, 3)));
    assert!(!same_address((1, 2), (0, 2)));
    assert_eq!(ZERO, (0, 0));
}
