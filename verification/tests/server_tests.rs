use ethrex_rlp::encode::RLPEncode;
use ethproofs_client::blocks::{
    block_wait, parent_number, parent_state_root, ParentStateRoot, find_parent_header, network_for_chain_id, BlockWait, ParentHeader, PublicNetwork,
    DEFAULT_BLOCK_MODULUS,
};

#[test]
fn aligned_block_is_ready() {
    assert_eq!(block_wait(200, 100), BlockWait::Ready);
    assert_eq!(block_wait(0, 7), BlockWait::Ready);
    assert_eq!(block_wait(12345, DEFAULT_BLOCK_MODULUS), BlockWait::Ready);
}

#[test]
fn unaligned_block_waits_for_next_multiple() {
    assert_eq!(block_wait(201, 100), BlockWait::Wait { next: 300, seconds: 99 * 12 });
    assert_eq!(block_wait(299, 100), BlockWait::Wait { next: 300, seconds: 12 });
    let b = 21_000_003u64;
    let m = 10u64;
    let next = b.next_multiple_of(m);
    assert_eq!(block_wait(b, m), BlockWait::Wait { next, seconds: (next - b) * 12 });
}

#[test]
fn chain_ids_map_to_networks() {
    assert_eq!(network_for_chain_id(1), Some(PublicNetwork::Mainnet));
    assert_eq!(network_for_chain_id(17000), Some(PublicNetwork::Holesky));
    assert_eq!(network_for_chain_id(560048), Some(PublicNetwork::Hoodi));
    assert_eq!(network_for_chain_id(11155111), Some(PublicNetwork::Sepolia));
    assert_eq!(network_for_chain_id(5), None);
}

#[test]
fn parent_header_is_the_first_match() {
    let numbers = vec![Some(7), Some(9), Some(9)];
    assert_eq!(find_parent_header(&numbers, 10), ParentHeader::Found(1));
    assert_eq!(find_parent_header(&numbers, 8), ParentHeader::Found(0));
    assert_eq!(find_parent_header(&numbers, 5), ParentHeader::Missing);
    assert_eq!(find_parent_header(&vec![], 5), ParentHeader::Missing);
}

#[test]
fn undecodable_header_stops_the_search() {
    let numbers = vec![Some(3), None, Some(9)];
    assert_eq!(find_parent_header(&numbers, 10), ParentHeader::Undecodable(1));
    assert_eq!(find_parent_header(&numbers, 4), ParentHeader::Found(0));
}

fn encoded_header(number: u64, root_byte: u8) -> Vec<u8> {
    let header = ethrex_common::types::BlockHeader {
        number,
        state_root: ethrex_common::H256([root_byte; 32]),
        ..Default::default()
    };
    header.encode_to_vec()
}

#[test]
fn parent_state_root_from_witness_headers() {
    let headers = vec![encoded_header(7, 1), encoded_header(9, 2), encoded_header(9, 3)];
    match parent_state_root(&headers, 10) {
        ParentStateRoot::Found(root) => assert_eq!(root, [2u8; 32]),
        _ => panic!("expected the parent"),
    }
    assert!(matches!(parent_state_root(&headers, 5), ParentStateRoot::Missing));
}

#[test]
fn undecodable_witness_header_stops_the_search() {
    let headers = vec![encoded_header(7, 1), vec![0xff, 0x00], encoded_header(9, 2)];
    assert!(matches!(parent_state_root(&headers, 10), ParentStateRoot::Undecodable(1)));
    match parent_state_root(&headers, 8) {
        ParentStateRoot::Found(root) => assert_eq!(root, [1u8; 32]),
        _ => panic!("expected the parent"),
    }
    let mut trailing = encoded_header(9, 2);
    trailing.push(0);
    assert!(matches!(parent_state_root(&vec![trailing], 10), ParentStateRoot::Undecodable(0)));
}

#[test]
fn parent_number_wraps_below_zero() {
    assert_eq!(parent_number(10), 9);
    assert_eq!(parent_number(1), 0);
    assert_eq!(parent_number(0), u64::MAX);
}

#[test]
fn parent_of_block_zero_is_looked_up_as_the_last_number() {
    let headers = vec![encoded_header(u64::MAX, 4)];
    match parent_state_root(&headers, 0) {
        ParentStateRoot::Found(root) => assert_eq!(root, [4u8; 32]),
        _ => panic!("expected the wrapped parent"),
    }
}
