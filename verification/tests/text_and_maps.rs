use ishi::api::types::{next_page, state_id_for};
use ishi::ordered_map::OrderedMap;
use ishi::text::{copy_strings, sort_strings, trim_str};

#[test]
fn sort_strings_orders_by_code_point() {
    let v = vec!["b".to_string(), "B".to_string(), "a".to_string(), "ab".to_string(), "a".to_string()];
    assert_eq!(sort_strings(v), vec!["B", "a", "a", "ab", "b"]);
    assert_eq!(sort_strings(vec![]), Vec::<String>::new());
}

#[test]
fn copies_and_trims() {
    let v = vec!["x".to_string(), "y".to_string()];
    assert_eq!(copy_strings(&v), v);
    assert_eq!(trim_str("\t a b \n"), "a b");
}

#[test]
fn ordered_map_insert_get_remove() {
    let mut m: OrderedMap<u32> = OrderedMap::new();
    m.insert("b", 2);
    m.insert("a", 1);
    m.insert("b", 3);
    assert_eq!(m.len(), 2);
    assert_eq!(m.get("b"), Some(&3));
    assert_eq!(m.key_at(0), "a");
    assert_eq!(m.remove("a"), Some(1));
    assert!(!m.contains_key("a"));
    assert_eq!(m.remove("zz"), None);
    m.clear();
    assert!(m.is_empty());
}

#[test]
fn state_id_for_takes_the_first_state_of_that_name() {
    let states = vec![
        (Some("Todo".to_string()), Some("s1".to_string())),
        (None, Some("s2".to_string())),
        (Some("Done".to_string()), None),
        (Some("Done".to_string()), Some("s4".to_string())),
    ];
    assert_eq!(state_id_for(&states, "Todo"), Some("s1".to_string()));
    assert_eq!(state_id_for(&states, "Done"), None);
    assert_eq!(state_id_for(&states, "Missing"), None);
}

#[test]
fn next_page_follows_the_page_info() {
    assert_eq!(next_page(Some(true), Some("c1".to_string())), Some(Some("c1".to_string())));
    assert_eq!(next_page(Some(true), None), Some(None));
    assert_eq!(next_page(Some(false), Some("c1".to_string())), None);
    assert_eq!(next_page(None, None), None);
}
