use notes::string_map::StringMap;

#[test]
fn new_map_is_empty() {
    let map: StringMap<u32> = StringMap::new();
    assert_eq!(map.len(), 0);
    assert_eq!(map.get("a"), None);
    assert!(!map.contains_key("a"));
}

#[test]
fn insert_puts_and_replaces() {
    let mut map = StringMap::new();
    assert_eq!(map.insert(String::from("a"), 1), None);
    assert_eq!(map.insert(String::from("b"), 2), None);
    assert_eq!(map.insert(String::from("a"), 3), Some(1));
    assert_eq!(map.len(), 2);
    assert_eq!(map.get("a"), Some(&3));
    assert_eq!(map.get("b"), Some(&2));
    assert_eq!(map.get("c"), None);
    assert_eq!(map.key_at(0), "a");
    assert_eq!(map.key_at(1), "b");
    assert_eq!(map.value_at(0), &3);
    assert_eq!(map.value_at(1), &2);
}

#[test]
fn find_or_insert_keeps_what_is_there() {
    let mut map = StringMap::new();
    assert_eq!(map.find_or_insert(String::from("a"), 1), 0);
    assert_eq!(map.find_or_insert(String::from("b"), 2), 1);
    assert_eq!(map.find_or_insert(String::from("a"), 3), 0);
    assert_eq!(map.len(), 2);
    assert_eq!(map.get("a"), Some(&1));
    assert_eq!(map.get("b"), Some(&2));
}

#[test]
fn remove_takes_the_key_out() {
    let mut map = StringMap::new();
    map.insert(String::from("a"), 1);
    map.insert(String::from("b"), 2);
    map.insert(String::from("c"), 3);
    assert_eq!(map.remove("b"), Some(2));
    assert_eq!(map.remove("b"), None);
    assert_eq!(map.remove("x"), None);
    assert_eq!(map.len(), 2);
    assert!(!map.contains_key("b"));
    assert_eq!(map.key_at(0), "a");
    assert_eq!(map.key_at(1), "c");
    assert_eq!(map.get("c"), Some(&3));
}

#[test]
fn keys_are_compared_character_by_character() {
    let mut map = StringMap::new();
    map.insert(String::from("key"), 1);
    map.insert(String::from("Key"), 2);
    map.insert(String::from("key "), 3);
    map.insert(String::new(), 4);
    assert_eq!(map.len(), 4);
    assert_eq!(map.get("key"), Some(&1));
    assert_eq!(map.get("Key"), Some(&2));
    assert_eq!(map.get("key "), Some(&3));
    assert_eq!(map.get(""), Some(&4));
    assert_eq!(map.get("ke"), None);
}

#[test]
fn get_mut_changes_a_value_in_place() {
    let mut map = StringMap::new();
    map.insert(String::from("a"), 1);
    map.insert(String::from("b"), 2);
    *map.get_mut("a").unwrap() += 10;
    assert!(map.get_mut("c").is_none());
    assert_eq!(map.get("a"), Some(&11));
    assert_eq!(map.get("b"), Some(&2));
    assert_eq!(map.len(), 2);
}
