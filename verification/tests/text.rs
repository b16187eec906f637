use vimcord::editing::{char_before_at, drain_between, insert_at, remove_before, slice_between};
use vimcord::events::sort_newest_first;
use vimcord::keyed::{map_contains, map_insert, map_insert_if_absent, set_contains, set_insert};
use vimcord::model::{Message, User};
use vimcord::text::{byte_length, char_index, chars_of, decimal_chars, parse_u64};

fn cs(s: &str) -> Vec<char> {
    s.chars().collect()
}

#[test]
fn numbers_parse_as_u64() {
    assert_eq!(parse_u64(&cs("1234")), Some(1234));
    assert_eq!(parse_u64(&cs("+7")), Some(7));
    assert_eq!(parse_u64(&cs("")), None);
    assert_eq!(parse_u64(&cs("+")), None);
    assert_eq!(parse_u64(&cs("12a")), None);
    assert_eq!(parse_u64(&cs("18446744073709551615")), Some(u64::MAX));
    assert_eq!(parse_u64(&cs("18446744073709551616")), None);
}

#[test]
fn decimal_text() {
    let s: String = decimal_chars(0).into_iter().collect();
    assert_eq!(s, "0");
    let s: String = decimal_chars(9075).into_iter().collect();
    assert_eq!(s, "9075");
}

#[test]
fn byte_offsets() {
    let s = cs("aé😄b");
    assert_eq!(byte_length(&s), 8);
    assert_eq!(char_index(&s, 0), Some(0));
    assert_eq!(char_index(&s, 1), Some(1));
    assert_eq!(char_index(&s, 2), None);
    assert_eq!(char_index(&s, 3), Some(2));
    assert_eq!(char_index(&s, 7), Some(3));
    assert_eq!(char_index(&s, 8), Some(4));
    assert_eq!(char_index(&s, 9), None);
    assert_eq!(chars_of("aé"), vec!['a', 'é']);
}

#[test]
fn editing_at_byte_offsets() {
    let mut s = cs("aé😄b");
    assert_eq!(char_before_at(&s, 3), Some('é'));
    assert_eq!(char_before_at(&s, 0), None);
    insert_at(&mut s, 3, 'x');
    assert_eq!(s.iter().collect::<String>(), "aéx😄b");
    remove_before(&mut s, 3);
    assert_eq!(s.iter().collect::<String>(), "ax😄b");
    assert_eq!(slice_between(&s, 1, 6).iter().collect::<String>(), "x😄");
    drain_between(&mut s, 1, 6);
    assert_eq!(s.iter().collect::<String>(), "ab");
}

#[test]
fn keyed_collections() {
    let mut m: Vec<(String, String)> = vec![];
    map_insert(&mut m, "a".to_string(), "1".to_string());
    map_insert(&mut m, "a".to_string(), "2".to_string());
    map_insert_if_absent(&mut m, "a".to_string(), "3".to_string());
    map_insert_if_absent(&mut m, "b".to_string(), "4".to_string());
    assert!(map_contains(&m, &"a".to_string()));
    assert!(!map_contains(&m, &"c".to_string()));
    assert!(m.iter().any(|(k, v)| k == "a" && v == "2"));
    assert!(m.iter().any(|(k, v)| k == "b" && v == "4"));
    assert!(!m.iter().any(|(_, v)| v == "3"));
    let mut s: Vec<String> = vec![];
    set_insert(&mut s, "x".to_string());
    set_insert(&mut s, "x".to_string());
    assert!(set_contains(&s, &"x".to_string()));
    assert!(!set_contains(&s, &"y".to_string()));
}

fn msg(id: &str, content: &str) -> Message {
    Message {
        id: id.to_string(),
        channel_id: "c".to_string(),
        author: User { id: "u".to_string(), username: "u".to_string(), global_name: None },
        content: Some(content.to_string()),
        timestamp: "t".to_string(),
        mentions: vec![],
    }
}

#[test]
fn sorting_is_newest_first_and_stable() {
    let out = sort_newest_first(vec![msg("2", "a"), msg("10", "b"), msg("x", "c"), msg("2", "d"), msg("0", "e")]);
    let seen: Vec<(&str, &str)> = out
        .iter()
        .map(|m| (m.id.as_str(), m.content.as_deref().unwrap()))
        .collect();
    assert_eq!(seen, vec![("10", "b"), ("2", "a"), ("2", "d"), ("x", "c"), ("0", "e")]);
}
