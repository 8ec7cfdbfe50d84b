use verifiable_api::keyed_map::KeyedMap;
use verifiable_api::primitives::{BlockId, BlockNumberOrTag, FixedBytes, B256, U256};

fn hash(byte: u8) -> B256 {
    FixedBytes([byte; 32])
}

fn keys(map: &KeyedMap<32, u8>) -> Vec<B256> {
    (0..map.len()).map(|i| map.key_at(i)).collect()
}

#[test]
fn empty_map_has_nothing() {
    let map: KeyedMap<32, u8> = KeyedMap::new();
    assert_eq!(map.len(), 0);
    assert_eq!(map.get(&hash(1)), None);
    assert!(!map.contains_key(&hash(1)));
}

#[test]
fn insert_keeps_first_positions() {
    let mut map: KeyedMap<32, u8> = KeyedMap::new();
    assert_eq!(map.insert(hash(3), 30), None);
    assert_eq!(map.insert(hash(1), 10), None);
    assert_eq!(map.insert(hash(3), 31), Some(30));
    assert_eq!(map.insert(hash(2), 20), None);
    assert_eq!(keys(&map), vec![hash(3), hash(1), hash(2)]);
    assert_eq!(map.get(&hash(3)), Some(&31));
    assert_eq!(*map.value_at(1), 10);
    assert!(map.contains_key(&hash(2)));
    assert!(!map.contains_key(&hash(4)));
}

#[test]
fn remove_keeps_order_of_the_rest() {
    let mut map: KeyedMap<32, u8> = KeyedMap::new();
    map.insert(hash(3), 30);
    map.insert(hash(1), 10);
    map.insert(hash(2), 20);
    assert_eq!(map.remove(&hash(1)), Some(10));
    assert_eq!(map.remove(&hash(1)), None);
    assert_eq!(keys(&map), vec![hash(3), hash(2)]);
    assert_eq!(map.get(&hash(1)), None);
    assert_eq!(map.get(&hash(2)), Some(&20));
}

#[test]
fn fixed_bytes_compare_by_content() {
    let mut bytes = [7u8; 32];
    assert!(FixedBytes(bytes) == hash(7));
    bytes[31] = 8;
    assert!(FixedBytes(bytes) != hash(7));
    bytes[31] = 7;
    bytes[0] = 8;
    assert!(FixedBytes(bytes) != hash(7));
    assert_eq!(B256::zero(), hash(0));
}

#[test]
fn slot_number_keeps_the_bytes_of_the_hash() {
    let mut bytes = [0u8; 32];
    bytes[30] = 1;
    bytes[31] = 2;
    let number = U256::from_hash(FixedBytes(bytes));
    let outside = alloy::primitives::U256::from_be_bytes(number.be_bytes.0);
    assert_eq!(outside, alloy::primitives::U256::from(258));
}

#[test]
fn block_names() {
    assert_eq!(BlockId::number(7), BlockId::Number(BlockNumberOrTag::Number(7)));
    assert_eq!(
        BlockId::hash(hash(5)),
        BlockId::Hash { block_hash: hash(5), require_canonical: None }
    );
}
