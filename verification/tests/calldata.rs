use screening::address::Address;
use screening::calldata::{
    APPROVE, ERC1155_SAFE_BATCH_TRANSFER_FROM, ERC1155_SAFE_TRANSFER_FROM, SAFE_TRANSFER_FROM,
    SAFE_TRANSFER_FROM_DATA, TRANSFER, TRANSFER_FROM,
};
use screening::{decode_address_word, extract_addresses, extract_calldata_addresses};
use screening::ScreenableTransaction;

/// A distinct, arbitrary-looking address for each seed.
fn addr(seed: u8) -> Address {
    let mut bytes = [0u8; 20];
    for (i, b) in bytes.iter_mut().enumerate() {
        *b = seed.wrapping_mul(31).wrapping_add((i as u8).wrapping_mul(17)) ^ 0x5a;
    }
    Address(bytes)
}

/// Helper: build ABI-encoded calldata with selector + address words.
fn encode_call(selector: u32, addresses: &[Address], extra_words: usize) -> Vec<u8> {
    let mut data = Vec::with_capacity(4 + (addresses.len() + extra_words) * 32);
    data.extend_from_slice(&selector.to_be_bytes());
    for a in addresses {
        // Left-pad address to 32 bytes
        data.extend_from_slice(&[0u8; 12]);
        data.extend_from_slice(&a.0);
    }
    // Extra zero words (e.g., uint256 params)
    for _ in 0..extra_words {
        data.extend_from_slice(&[0u8; 32]);
    }
    data
}

fn encode_u256_word(val: u64) -> [u8; 32] {
    let mut word = [0u8; 32];
    word[24..].copy_from_slice(&val.to_be_bytes());
    word
}

#[test]
fn erc20_transfer_extracts_to() {
    let to = addr(1);
    let input = encode_call(TRANSFER, &[to], 1); // transfer(to, amount)
    let mut addrs = Vec::new();
    extract_calldata_addresses(&input, &mut addrs);
    assert_eq!(addrs, vec![to]);
}

#[test]
fn erc20_approve_extracts_spender() {
    let spender = addr(2);
    let input = encode_call(APPROVE, &[spender], 1); // approve(spender, amount)
    let mut addrs = Vec::new();
    extract_calldata_addresses(&input, &mut addrs);
    assert_eq!(addrs, vec![spender]);
}

#[test]
fn erc20_transfer_from_extracts_both() {
    let from = addr(3);
    let to = addr(4);
    let input = encode_call(TRANSFER_FROM, &[from, to], 1); // transferFrom(from, to, amount)
    let mut addrs = Vec::new();
    extract_calldata_addresses(&input, &mut addrs);
    assert_eq!(addrs, vec![from, to]);
}

#[test]
fn erc721_safe_transfer_from_extracts_both() {
    let from = addr(5);
    let to = addr(6);
    let input = encode_call(SAFE_TRANSFER_FROM, &[from, to], 1);
    let mut addrs = Vec::new();
    extract_calldata_addresses(&input, &mut addrs);
    assert_eq!(addrs, vec![from, to]);
}

#[test]
fn erc721_safe_transfer_from_with_data_extracts_both() {
    let from = addr(7);
    let to = addr(8);
    // safeTransferFrom(from, to, tokenId, data) — addresses are still at words 0,1
    let input = encode_call(SAFE_TRANSFER_FROM_DATA, &[from, to], 2);
    let mut addrs = Vec::new();
    extract_calldata_addresses(&input, &mut addrs);
    assert_eq!(addrs, vec![from, to]);
}

#[test]
fn erc1155_safe_transfer_from_extracts_both() {
    let from = addr(9);
    let to = addr(10);
    let input = encode_call(ERC1155_SAFE_TRANSFER_FROM, &[from, to], 3);
    let mut addrs = Vec::new();
    extract_calldata_addresses(&input, &mut addrs);
    assert_eq!(addrs, vec![from, to]);
}

#[test]
fn erc1155_safe_batch_transfer_from_extracts_both() {
    let from = addr(11);
    let to = addr(12);
    let input = encode_call(ERC1155_SAFE_BATCH_TRANSFER_FROM, &[from, to], 3);
    let mut addrs = Vec::new();
    extract_calldata_addresses(&input, &mut addrs);
    assert_eq!(addrs, vec![from, to]);
}

#[test]
fn unknown_selector_extracts_nothing() {
    let input = vec![0xde, 0xad, 0xbe, 0xef, 0x00, 0x01, 0x02, 0x03];
    let mut addrs = Vec::new();
    extract_calldata_addresses(&input, &mut addrs);
    assert!(addrs.is_empty());
}

#[test]
fn empty_input_extracts_nothing() {
    let input: Vec<u8> = Vec::new();
    let mut addrs = Vec::new();
    extract_calldata_addresses(&input, &mut addrs);
    assert!(addrs.is_empty());
}

#[test]
fn truncated_calldata_extracts_nothing() {
    // Valid selector but not enough data for address word
    let input = vec![0xa9, 0x05, 0x9c, 0xbb, 0x00, 0x01];
    let mut addrs = Vec::new();
    extract_calldata_addresses(&input, &mut addrs);
    assert!(addrs.is_empty());
}

#[test]
fn malformed_address_word_rejected() {
    // Address word with non-zero upper 12 bytes
    let mut data = vec![0xa9, 0x05, 0x9c, 0xbb]; // transfer selector
    data.extend_from_slice(&[0xff; 12]); // non-zero padding
    data.extend_from_slice(&addr(13).0);
    data.extend_from_slice(&encode_u256_word(1000));

    let mut addrs = Vec::new();
    extract_calldata_addresses(&data, &mut addrs);
    assert!(addrs.is_empty());
}

#[test]
fn transfer_from_with_one_truncated_address() {
    // transferFrom but only 1 address word (not enough for second)
    let from = addr(14);
    let mut data = Vec::new();
    data.extend_from_slice(&TRANSFER_FROM.to_be_bytes());
    data.extend_from_slice(&[0u8; 12]);
    data.extend_from_slice(&from.0);
    // Missing second address word

    let mut addrs = Vec::new();
    extract_calldata_addresses(&data, &mut addrs);
    // Should extract the first address but not the second
    assert_eq!(addrs, vec![from]);
}

#[test]
fn selectors_match_their_signature_bytes() {
    assert_eq!(TRANSFER.to_be_bytes(), [0xa9, 0x05, 0x9c, 0xbb]);
    assert_eq!(APPROVE.to_be_bytes(), [0x09, 0x5e, 0xa7, 0xb3]);
    assert_eq!(TRANSFER_FROM.to_be_bytes(), [0x23, 0xb8, 0x72, 0xdd]);
    assert_eq!(SAFE_TRANSFER_FROM.to_be_bytes(), [0x42, 0x84, 0x2e, 0x0e]);
    assert_eq!(SAFE_TRANSFER_FROM_DATA.to_be_bytes(), [0xb8, 0x8d, 0x4f, 0xde]);
    assert_eq!(ERC1155_SAFE_TRANSFER_FROM.to_be_bytes(), [0xf2, 0x42, 0x43, 0x2a]);
    assert_eq!(ERC1155_SAFE_BATCH_TRANSFER_FROM.to_be_bytes(), [0x2e, 0xb2, 0xc2, 0xd6]);
}

#[test]
fn existing_entries_are_kept_when_appending() {
    let first = addr(20);
    let to = addr(21);
    let mut addrs = vec![first];
    extract_calldata_addresses(&encode_call(TRANSFER, &[to], 1), &mut addrs);
    assert_eq!(addrs, vec![first, to]);
}

#[test]
fn transfer_ignores_words_after_the_first() {
    let to = addr(22);
    let other = addr(23);
    let input = encode_call(TRANSFER, &[to, other], 0);
    let mut addrs = Vec::new();
    extract_calldata_addresses(&input, &mut addrs);
    assert_eq!(addrs, vec![to]);
}

#[test]
fn transfer_from_skips_a_malformed_first_word() {
    let to = addr(24);
    let mut data = TRANSFER_FROM.to_be_bytes().to_vec();
    data.extend_from_slice(&[0x01; 32]);
    data.extend_from_slice(&[0u8; 12]);
    data.extend_from_slice(&to.0);
    let mut addrs = Vec::new();
    extract_calldata_addresses(&data, &mut addrs);
    assert_eq!(addrs, vec![to]);
}

#[test]
fn decode_word_reads_lower_twenty_bytes() {
    let a = addr(25);
    let mut data = vec![0u8; 32];
    data.extend_from_slice(&[0u8; 12]);
    data.extend_from_slice(&a.0);
    assert_eq!(decode_address_word(&data, 1), Some(a));
    assert_eq!(decode_address_word(&data, 0), Some(Address([0u8; 20])));
    assert_eq!(decode_address_word(&data, 2), None);
}

#[test]
fn decode_word_rejects_one_nonzero_padding_byte() {
    let mut data = vec![0u8; 32];
    data[11] = 1;
    assert_eq!(decode_address_word(&data, 0), None);
    data[11] = 0;
    data[12] = 1;
    let mut expected = [0u8; 20];
    expected[0] = 1;
    assert_eq!(decode_address_word(&data, 0), Some(Address(expected)));
}

#[test]
fn decode_word_with_huge_index_is_none() {
    let data = vec![0u8; 64];
    assert_eq!(decode_address_word(&data, usize::MAX), None);
    assert_eq!(decode_address_word(&data, usize::MAX / 32), None);
}

#[test]
fn extract_addresses_sorts_and_deduplicates() {
    let sender = Address([0x30; 20]);
    let to = Address([0x10; 20]);
    let auth = Address([0x20; 20]);
    let access = Address([0x10; 20]);
    let token_to = Address([0x05; 20]);
    let tx = ScreenableTransaction {
        sender,
        to: Some(to),
        authorization_list: Some(vec![auth, sender]),
        access_list: Some(vec![access]),
        input: encode_call(TRANSFER, &[token_to], 1),
    };
    assert_eq!(extract_addresses(&tx), vec![token_to, to, auth, sender]);
}

#[test]
fn extract_addresses_of_plain_transfer_is_sender_and_recipient() {
    let sender = Address([0xff; 20]);
    let mut to_bytes = [0xff; 20];
    to_bytes[19] = 0xfe;
    let to = Address(to_bytes);
    let tx = ScreenableTransaction {
        sender,
        to: Some(to),
        authorization_list: None,
        access_list: None,
        input: Vec::new(),
    };
    assert_eq!(extract_addresses(&tx), vec![to, sender]);
}

#[test]
fn extract_addresses_of_contract_creation_is_sender_only() {
    let sender = addr(40);
    let tx = ScreenableTransaction {
        sender,
        to: None,
        authorization_list: Some(Vec::new()),
        access_list: None,
        input: vec![0xa9, 0x05, 0x9c],
    };
    assert_eq!(extract_addresses(&tx), vec![sender]);
}

#[test]
fn address_order_is_byte_wise() {
    let mut low = [0u8; 20];
    low[0] = 1;
    let mut high = [0u8; 20];
    high[19] = 0xff;
    let a = Address(low);
    let b = Address(high);
    assert!(!a.precedes(&b));
    assert!(b.precedes(&a));
    assert!(!a.precedes(&a));
    assert!(a.same_as(&a));
    assert!(!a.same_as(&b));
    assert_eq!(Address::from_slice(&low), a);
}
