use lobby::name_map::NameMap;

fn text(s: &str) -> String {
    s.to_string()
}

#[test]
fn names_stay_in_the_order_in_which_they_came() {
    let mut map: NameMap<u32> = NameMap::new();
    assert!(map.is_empty());
    map.insert(text("b"), 1);
    map.insert(text("a"), 2);
    map.insert(text("c"), 3);
    map.insert(text("a"), 4);
    assert_eq!(map.keys(), vec!["b", "a", "c"]);
    assert_eq!(map.values(), vec![&1, &4, &3]);
    assert_eq!(map.get(&text("a")), Some(&4));
    assert_eq!(map.get(&text("d")), None);
    assert!(map.contains_key(&text("c")));
}

#[test]
fn a_removed_name_is_gone_and_the_rest_stays() {
    let mut map: NameMap<u32> = NameMap::new();
    map.insert(text("a"), 1);
    map.insert(text("b"), 2);
    map.insert(text("c"), 3);
    assert_eq!(map.remove(&text("b")), Some(2));
    assert_eq!(map.remove(&text("b")), None);
    assert!(!map.contains_key(&text("b")));
    assert_eq!(map.keys(), vec!["a", "c"]);
    assert_eq!(map.values(), vec![&1, &3]);
}

#[test]
fn a_value_is_changed_in_place() {
    let mut map: NameMap<u32> = NameMap::new();
    map.insert(text("a"), 1);
    map.insert(text("b"), 2);
    if let Some(value) = map.get_mut(&text("a")) {
        *value = 9;
    }
    assert!(map.get_mut(&text("z")).is_none());
    assert_eq!(map.keys(), vec!["a", "b"]);
    assert_eq!(map.values(), vec![&9, &2]);
}
