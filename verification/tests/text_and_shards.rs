use simeis::json::get_json_key;
use simeis::shard::{shard_of_hash, ShardDataKey};
use simeis::text::{eq_ignore_ascii_case, get_player_key, split_on};

fn chars(s: &str) -> Vec<char> {
    s.chars().collect()
}

#[test]
fn ascii_case_is_ignored() {
    assert!(eq_ignore_ascii_case("HeLLo", "hello"));
    assert!(!eq_ignore_ascii_case("hello", "hell"));
    assert!(!eq_ignore_ascii_case("héllo", "hÉllo"));
    assert!(eq_ignore_ascii_case("", ""));
}

#[test]
fn split_keeps_empty_pieces() {
    let pieces = split_on(&chars("a..b."), '.');
    assert_eq!(pieces, vec![chars("a"), vec![], chars("b"), vec![]]);
    assert_eq!(split_on(&chars(""), '.'), vec![Vec::<char>::new()]);
    assert_eq!(split_on(&chars("abc"), '.'), vec![chars("abc")]);
}

#[test]
fn player_key_is_read_from_query() {
    assert_eq!(get_player_key("a=1&key=XYZ&b=2"), Some("XYZ".to_string()));
    assert_eq!(get_player_key("key=abc=def"), Some("abc".to_string()));
    assert_eq!(get_player_key("key="), Some(String::new()));
    assert_eq!(get_player_key("key=one&key=two"), Some("one".to_string()));
    assert_eq!(get_player_key("akey=1&keys=2"), None);
    assert_eq!(get_player_key(""), None);
}

#[test]
fn json_key_follows_dotted_path() {
    let data: serde_json::Value =
        serde_json::from_str(r#"{"a": {"b": {"c": 3}, "x": [1]}, "top": "t"}"#).unwrap();
    assert_eq!(get_json_key(&data, "top"), Some(serde_json::Value::String("t".to_string())));
    assert_eq!(get_json_key(&data, "a.b.c"), Some(serde_json::Value::from(3)));
    assert_eq!(
        get_json_key(&data, "a.b"),
        Some(serde_json::from_str::<serde_json::Value>(r#"{"c": 3}"#).unwrap())
    );
    assert_eq!(get_json_key(&data, "a.x.y"), None);
    assert_eq!(get_json_key(&data, "a.missing"), None);
    assert_eq!(get_json_key(&data, "nothing"), None);
    let not_object: serde_json::Value = serde_json::from_str("[1, 2]").unwrap();
    assert_eq!(get_json_key(&not_object, "a"), None);
}

#[test]
fn u16_keys_shard_by_range() {
    assert_eq!(0u16.get_shard_idx(4), 0);
    assert_eq!(16382u16.get_shard_idx(4), 0);
    assert_eq!(16383u16.get_shard_idx(4), 1);
    assert_eq!(65531u16.get_shard_idx(4), 3);
    assert_eq!(65532u16.get_shard_idx(4), 4);
    assert_eq!(65534u16.get_shard_idx(2), 2);
    assert_eq!(u16::MAX.get_shard_idx(2), 2);
    assert_eq!(100u16.get_shard_idx(u16::MAX as usize), 100);
}

#[test]
fn u64_keys_shard_by_range() {
    assert_eq!(0u64.get_shard_idx(8), 0);
    assert_eq!(u64::MAX.get_shard_idx(1), 1);
    assert_eq!((u64::MAX / 2).get_shard_idx(2), 1);
    assert_eq!((u64::MAX / 2 - 1).get_shard_idx(2), 0);
}

#[test]
fn hashed_keys_shard_by_hash_range() {
    assert_eq!(shard_of_hash(0, 16), 0);
    assert_eq!(shard_of_hash(u64::MAX, 16), 16);
    let s = "player".to_string();
    assert_eq!(s.get_shard_idx(16), s.get_shard_idx(16));
    assert!(s.get_shard_idx(16) <= 16);
    let key = [3u8; 128];
    assert!(key.get_shard_idx(4) <= 4);
}

#[test]
fn split_then_join_gives_back_the_text() {
    for text in ["", "a", "a.b", ".a..b.", "...", "no separator"] {
        let pieces = split_on(&chars(text), '.');
        let joined: Vec<String> = pieces.iter().map(|p| p.iter().collect()).collect();
        assert_eq!(joined.join("."), text);
        assert!(pieces.iter().all(|p| !p.contains(&'.')));
    }
}

#[test]
fn smaller_u16_keys_never_land_in_later_shards() {
    for totcap in [1usize, 2, 3, 7, 1000, 65535] {
        let mut last = 0;
        for key in (0u16..=u16::MAX).step_by(97) {
            let idx = key.get_shard_idx(totcap);
            assert!(idx >= last);
            last = idx;
        }
    }
}
