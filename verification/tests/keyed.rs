use pmp_iq::keyed::KeyedList;

#[test]
fn reads_give_back_the_last_write_and_keys_stay_ordered() {
    let mut m: KeyedList<u32> = KeyedList::new();
    assert!(m.is_empty());
    m.insert("beta".into(), 2);
    m.insert("alpha".into(), 1);
    m.insert("gamma".into(), 3);
    m.insert("beta".into(), 20);
    assert_eq!(m.len(), 3);
    assert_eq!(m.get("beta"), Some(&20));
    assert_eq!(m.get("alpha"), Some(&1));
    assert_eq!(m.get("delta"), None);
    let keys: Vec<&str> = (0..m.len()).map(|i| m.entry(i).0.as_str()).collect();
    assert_eq!(keys, vec!["alpha", "beta", "gamma"]);
}

#[test]
fn keys_order_by_code_point() {
    let mut m: KeyedList<()> = KeyedList::new();
    for k in ["b", "B", "ä", "a", "ab", ""] {
        m.insert(k.to_string(), ());
    }
    let keys: Vec<&str> = (0..m.len()).map(|i| m.entry(i).0.as_str()).collect();
    assert_eq!(keys, vec!["", "B", "a", "ab", "b", "ä"]);
}
