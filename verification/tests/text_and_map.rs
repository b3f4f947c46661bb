use tagaton::str_map::{str_lt, StrMap};
use tagaton::text::{escape_sql_quotes, join, str_eq};

#[test]
fn join_matches_std_join() {
    let parts = vec!["a".to_string(), "bc".to_string(), "".to_string(), "d".to_string()];
    assert_eq!(join(&parts, " AND "), parts.join(" AND "));
    assert_eq!(join(&vec![], ", "), "");
    assert_eq!(join(&vec!["only".to_string()], ", "), "only");
}

#[test]
fn escape_doubles_quotes() {
    assert_eq!(escape_sql_quotes("it's"), "it''s");
    assert_eq!(escape_sql_quotes("''"), "''''");
    assert_eq!(escape_sql_quotes("plain"), "plain");
    assert_eq!(escape_sql_quotes(""), "");
    let s = "a'b'c é'";
    assert_eq!(escape_sql_quotes(s), s.replace("'", "''"));
}

#[test]
fn escaped_text_reads_back() {
    // reading a quoted SQL literal collapses each doubled quote
    let s = "O'Brien said 'hi'";
    let e = escape_sql_quotes(s);
    assert_eq!(e.replace("''", "'"), s);
}

#[test]
fn str_eq_compares_characters() {
    assert!(str_eq("abc", "abc"));
    assert!(!str_eq("abc", "abd"));
    assert!(!str_eq("abc", "ab"));
}

#[test]
fn str_lt_is_string_order() {
    let words = ["", "a", "ab", "b", "remote_addr", "referer", "tag_type", "Z", "é", "url_from", "unique_tag"];
    for x in words.iter() {
        for y in words.iter() {
            assert_eq!(str_lt(x, y), x < y, "{} < {}", x, y);
        }
    }
}

#[test]
fn map_keeps_keys_ascending() {
    let mut m: StrMap<u32> = StrMap::new();
    m.insert("tag_type".to_string(), 1);
    m.insert("remote_addr".to_string(), 2);
    m.insert("url_from".to_string(), 3);
    m.insert("referer".to_string(), 4);
    m.insert("remote_addr".to_string(), 5);
    assert_eq!(m.len(), 4);
    let keys: Vec<&str> = (0..m.len()).map(|i| m.key_at(i).as_str()).collect();
    assert_eq!(keys, vec!["referer", "remote_addr", "tag_type", "url_from"]);
    assert_eq!(m.get("remote_addr"), Some(&5));
    assert_eq!(m.get("referer"), Some(&4));
    assert_eq!(m.get("missing"), None);
    assert_eq!(*m.value_at(2), 1);
}

#[test]
fn read_after_write() {
    let mut m: StrMap<String> = StrMap::new();
    m.insert("k".to_string(), "v1".to_string());
    m.insert("other".to_string(), "x".to_string());
    m.insert("k".to_string(), "v2".to_string());
    assert_eq!(m.get("k").map(|s| s.as_str()), Some("v2"));
    assert_eq!(m.get("other").map(|s| s.as_str()), Some("x"));
}
