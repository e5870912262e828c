use contracts::address::ContractAddress;
use contracts::str_map::StrMap;

#[test]
fn str_map_insert_replaces_in_place() {
    let mut m: StrMap<i128> = StrMap::new();
    m.insert("b".to_string(), 1);
    m.insert("a".to_string(), 2);
    m.insert("b".to_string(), 3);
    assert_eq!(m.get(&"b".to_string()), Some(&3));
    assert_eq!(m.get(&"a".to_string()), Some(&2));
    assert_eq!(m.get(&"c".to_string()), None);
    assert_eq!(m.key_list(), vec!["b".to_string(), "a".to_string()]);
}

#[test]
fn str_map_replace_hands_back_previous() {
    let mut m: StrMap<i128> = StrMap::new();
    m.insert("k".to_string(), 5);
    let previous = m.replace(&"k".to_string(), 9);
    assert_eq!(previous, 5);
    assert_eq!(m.get(&"k".to_string()), Some(&9));
    assert_eq!(m.key_list(), vec!["k".to_string()]);
}

#[test]
fn addresses_compare_by_all_parts() {
    let a = ContractAddress { name: "token".to_string(), height: 0, tx_index: 0 };
    let b = ContractAddress { name: "token".to_string(), height: 0, tx_index: 1 };
    let c = ContractAddress { name: "other".to_string(), height: 0, tx_index: 0 };
    assert!(a.same_as(&a.clone()));
    assert!(!a.same_as(&b));
    assert!(!a.same_as(&c));
}
