use frame_logic::key_map::{KeyMap, H256, U256};

#[test]
fn key_map_insert_get_remove() {
    let mut m: KeyMap<H256, u32> = KeyMap::new();
    assert_eq!(m.len(), 0);
    m.insert(H256([1; 32]), 10);
    m.insert(H256([2; 32]), 20);
    m.insert(H256([1; 32]), 11);
    assert_eq!(m.len(), 2);
    assert_eq!(m.get(&H256([1; 32])), Some(&11));
    assert_eq!(m.get(&H256([3; 32])), None);
    let mut values = m.values();
    values.sort();
    assert_eq!(values, vec![11, 20]);
    assert_eq!(m.remove(&H256([1; 32])), Some(11));
    assert_eq!(m.remove(&H256([1; 32])), None);
    assert_eq!(m.len(), 1);
    assert_eq!(m.get(&H256([2; 32])), Some(&20));
}

#[test]
fn key_map_keys_differ_by_one_limb() {
    let mut m: KeyMap<U256, u8> = KeyMap::new();
    m.insert(U256([1, 0, 0, 0]), 1);
    m.insert(U256([1, 0, 0, 1]), 2);
    assert_eq!(m.len(), 2);
    assert_eq!(m.get(&U256([1, 0, 0, 1])), Some(&2));
}
