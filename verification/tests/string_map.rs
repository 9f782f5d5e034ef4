use containers::StringMap;

fn test_key_value(map: &mut StringMap<u32>, key: &str, value: u32) {
    assert!(map.contains_key(key));
    assert_eq!(*map.get(key).unwrap(), value);
    *map.get_mut(key).unwrap() = value + 1;
    assert_eq!(*map.get(key).unwrap(), value + 1);
    *map.get_mut(key).unwrap() = value;
    assert_eq!(*map.get(key).unwrap(), value);
}

#[test]
fn test_map() {
    let mut map = StringMap::<u32>::new();

    map.insert("test".to_string(), 10);
    test_key_value(&mut map, "test", 10);

    map.insert("test2".to_string(), 20);
    test_key_value(&mut map, "test", 10);
    test_key_value(&mut map, "test2", 20);

    map.insert("atest".to_string(), 30);
    test_key_value(&mut map, "test", 10);
    test_key_value(&mut map, "test2", 20);
    test_key_value(&mut map, "atest", 30);

    let prev = map.insert("test".to_string(), 5);
    assert_eq!(prev, Some(10));
    test_key_value(&mut map, "test", 5);
    test_key_value(&mut map, "test2", 20);
    test_key_value(&mut map, "atest", 30);

    map.insert("btest".to_string(), 100);
    test_key_value(&mut map, "test", 5);
    test_key_value(&mut map, "test2", 20);
    test_key_value(&mut map, "atest", 30);
    test_key_value(&mut map, "btest", 100);

    assert_eq!(map.get("prout"), None);
    assert_eq!(map.get("tes"), None);
    assert_eq!(map.get("tesp"), None);
    assert_eq!(map.get("test "), None);

    assert_eq!(map.keys(), &vec!["atest", "btest", "test", "test2"]);
    assert_eq!(map.values(), &vec![30, 100, 5, 20]);
    assert_eq!(
        map.items(),
        vec![("atest", &30), ("btest", &100), ("test", &5), ("test2", &20)]
    );

    assert_eq!(map.remove("test"), Some(5));
    assert_eq!(map.keys(), &vec!["atest", "btest", "test2"]);
    assert_eq!(map.values(), &vec![30, 100, 20]);
    assert_eq!(
        map.items(),
        vec![("atest", &30), ("btest", &100), ("test2", &20)]
    );
}

#[test]
fn string_map_key_idx_brackets() {
    let mut map = StringMap::<u32>::new();
    map.insert("bb".to_string(), 1);
    map.insert("dd".to_string(), 2);
    assert_eq!(map.key_idx("bb"), Ok(0));
    assert_eq!(map.key_idx("dd"), Ok(1));
    assert_eq!(map.key_idx("aa"), Err(0));
    assert_eq!(map.key_idx("cc"), Err(1));
    assert_eq!(map.key_idx("ee"), Err(2));
    assert_eq!(map.len(), 2);
}

#[test]
fn string_map_remove_absent() {
    let mut map = StringMap::<u32>::new();
    map.insert("only".to_string(), 7);
    assert_eq!(map.remove("missing"), None);
    assert_eq!(map.len(), 1);
    assert_eq!(map.remove("only"), Some(7));
    assert_eq!(map.remove("only"), None);
    assert_eq!(map.len(), 0);
}
