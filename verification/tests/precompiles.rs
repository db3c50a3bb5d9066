use frame_logic::precompiles::{
    precompile_call_result, AddressCollision, AddressMatcher, Precompiles,
};

fn fixed(first: u8) -> AddressMatcher {
    let mut a = [0u8; 20];
    a[0] = first;
    a[19] = 1;
    AddressMatcher::Fixed(a)
}

#[test]
fn cmp_prefix_compares_the_common_prefix() {
    assert!(AddressMatcher::cmp_prefix(&[1, 2], &[1, 2, 3]));
    assert!(AddressMatcher::cmp_prefix(&[1, 2, 3], &[1, 2]));
    assert!(!AddressMatcher::cmp_prefix(&[1, 2], &[1, 3]));
    assert!(AddressMatcher::cmp_prefix(&[], &[1]));
}

#[test]
fn matches_fixed_and_prefix() {
    let mut addr = [0u8; 20];
    addr[0] = 7;
    addr[19] = 1;
    assert!(fixed(7).matches(&addr));
    assert!(!fixed(8).matches(&addr));
    let mut prefix = [0u8; 8];
    prefix[0] = 7;
    assert!(AddressMatcher::Prefix(prefix).matches(&addr));
    prefix[7] = 1;
    assert!(!AddressMatcher::Prefix(prefix).matches(&addr));
}

#[test]
fn check_collision_accepts_a_collision_free_list() {
    AddressMatcher::check_collision(&[]);
    AddressMatcher::check_collision(&[fixed(1), fixed(2), fixed(3)]);
    let mut p = [0u8; 8];
    p[0] = 4;
    AddressMatcher::check_collision(&[fixed(1), AddressMatcher::Prefix(p), fixed(3)]);
}

#[test]
fn find_collision_finds_the_first_pair() {
    assert_eq!(AddressMatcher::find_collision(&[]), Ok(()));
    assert_eq!(AddressMatcher::find_collision(&[fixed(1), fixed(2), fixed(3)]), Ok(()));
    let mut p = [0u8; 8];
    p[0] = 2;
    let list = [fixed(1), fixed(2), AddressMatcher::Prefix(p), fixed(1)];
    assert_eq!(AddressMatcher::find_collision(&list), Err(AddressCollision { first: 0, second: 3 }));
    let list = [fixed(9), fixed(2), AddressMatcher::Prefix(p), fixed(1)];
    assert_eq!(AddressMatcher::find_collision(&list), Err(AddressCollision { first: 1, second: 2 }));
    let list = [AddressMatcher::Prefix(p), AddressMatcher::Prefix(p)];
    assert_eq!(AddressMatcher::find_collision(&list), Err(AddressCollision { first: 0, second: 1 }));
}

#[test]
fn fixed_address_inside_a_prefix_collides_either_way() {
    let fixed7 = AddressMatcher::Fixed([7u8; 20]);
    let prefix7 = AddressMatcher::Prefix([7u8; 8]);
    assert!(fixed7.matches(&[7u8; 20]) && prefix7.matches(&[7u8; 20]));
    assert_eq!(
        AddressMatcher::find_collision(&[fixed7, prefix7]),
        Err(AddressCollision { first: 0, second: 1 })
    );
    assert_eq!(
        AddressMatcher::find_collision(&[prefix7, fixed7]),
        Err(AddressCollision { first: 0, second: 1 })
    );
    let set = Precompiles::new(vec![fixed(1), prefix7, fixed7]);
    assert_eq!(set.find_collision(), Err(AddressCollision { first: 1, second: 2 }));
}

#[test]
fn precompile_set_dispatch() {
    let set = Precompiles::new(vec![fixed(1), fixed(2)]);
    set.check_collision();
    assert_eq!(set.find_collision(), Ok(()));
    let mut addr = [0u8; 20];
    addr[0] = 2;
    addr[19] = 1;
    assert!(set.matches(&addr));
    // Any claimed address is dispatched to the first member of the set.
    assert_eq!(set.call(&addr, |i| i + 100), Some(100));
    addr[0] = 3;
    assert!(!set.matches(&addr));
    assert_eq!(set.call(&addr, |i| i + 100), None);
    let empty = Precompiles::new(vec![]);
    assert_eq!(empty.call(&addr, |i| i), None);
}

#[test]
fn undecodable_input_reverts_with_a_generic_panic() {
    let r = precompile_call_result(None);
    let mut expected = vec![0x4e, 0x48, 0x7b, 0x71];
    expected.extend([0u8; 32]);
    assert_eq!(r, Err(expected));
    assert_eq!(precompile_call_result(Some(Ok(vec![1, 2]))), Ok(vec![1, 2]));
    assert_eq!(precompile_call_result(Some(Err(vec![3]))), Err(vec![3]));
}
