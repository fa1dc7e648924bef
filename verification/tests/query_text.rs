use key_value_azure::error::{log_error, ConnectionError};
use key_value_azure::pair::{partition_key_for, Pair};
use key_value_azure::query::{
    append_quoted, append_store_id_condition, get_in_query, get_keys_query, get_query,
    DocumentQuery, KeyFilter,
};

fn keys(names: &[&str]) -> Vec<String> {
    names.iter().map(|k| k.to_string()).collect()
}

#[test]
fn store_condition_is_appended_with_where() {
    let mut query = String::from("SELECT * FROM c");
    append_store_id_condition(&mut query, Some("default"), false);
    assert_eq!(query, "SELECT * FROM c WHERE c.store_id='default'");
}

#[test]
fn store_condition_is_appended_with_and() {
    let mut query = String::from("SELECT * FROM c WHERE c.id='k'");
    append_store_id_condition(&mut query, Some("default"), true);
    assert_eq!(query, "SELECT * FROM c WHERE c.id='k' AND c.store_id='default'");
}

#[test]
fn store_condition_without_store_id_changes_nothing() {
    let mut query = String::from("SELECT * FROM c");
    append_store_id_condition(&mut query, None, false);
    assert_eq!(query, "SELECT * FROM c");
    append_store_id_condition(&mut query, None, true);
    assert_eq!(query, "SELECT * FROM c");
}

#[test]
fn store_condition_with_empty_store_id() {
    let mut query = String::new();
    append_store_id_condition(&mut query, Some(""), true);
    assert_eq!(query, " AND c.store_id=''");
}

#[test]
fn point_query_text() {
    assert_eq!(get_query("key", None), "SELECT * FROM c WHERE c.id='key'");
    assert_eq!(
        get_query("key", Some("default")),
        "SELECT * FROM c WHERE c.id='key' AND c.store_id='default'"
    );
    assert_eq!(get_query("", None), "SELECT * FROM c WHERE c.id=''");
}

#[test]
fn scan_query_text() {
    assert_eq!(get_keys_query(None), "SELECT * FROM c");
    assert_eq!(get_keys_query(Some("s1")), "SELECT * FROM c WHERE c.store_id='s1'");
}

#[test]
fn in_query_text() {
    assert_eq!(get_in_query(&keys(&[]), None), "SELECT * FROM c WHERE c.id IN ()");
    assert_eq!(get_in_query(&keys(&["a"]), None), "SELECT * FROM c WHERE c.id IN ('a')");
    assert_eq!(
        get_in_query(&keys(&["a", "b", "c"]), None),
        "SELECT * FROM c WHERE c.id IN ('a', 'b', 'c')"
    );
    assert_eq!(
        get_in_query(&keys(&["k1", "k2"]), Some("default")),
        "SELECT * FROM c WHERE c.id IN ('k1', 'k2') AND c.store_id='default'"
    );
}

#[test]
fn values_without_quote_or_backslash_stand_as_they_are() {
    let mut text = String::new();
    append_quoted(&mut text, "key");
    assert_eq!(text, "'key'");
    append_quoted(&mut text, "");
    assert_eq!(text, "'key'''");
    assert_eq!(get_query("héllo", None), "SELECT * FROM c WHERE c.id='héllo'");
    assert_eq!(get_query("a\"b, c) AND", None), "SELECT * FROM c WHERE c.id='a\"b, c) AND'");
}

#[test]
fn quotes_and_backslashes_are_escaped() {
    let mut text = String::from("x=");
    append_quoted(&mut text, "'");
    assert_eq!(text, "x='\\''");
    assert_eq!(get_query("a'b", None), "SELECT * FROM c WHERE c.id='a\\'b'");
    assert_eq!(get_query("a\\", None), "SELECT * FROM c WHERE c.id='a\\\\'");
    assert_eq!(get_query("\\'", None), "SELECT * FROM c WHERE c.id='\\\\\\''");
    assert_eq!(
        get_query("x' OR '1'='1", None),
        "SELECT * FROM c WHERE c.id='x\\' OR \\'1\\'=\\'1'"
    );
    assert_eq!(
        get_query("k", Some("s' OR 'a'='a")),
        "SELECT * FROM c WHERE c.id='k' AND c.store_id='s\\' OR \\'a\\'=\\'a'"
    );
    assert_eq!(get_keys_query(Some("it's")), "SELECT * FROM c WHERE c.store_id='it\\'s'");
    assert_eq!(
        get_in_query(&keys(&["a'", "b"]), None),
        "SELECT * FROM c WHERE c.id IN ('a\\'', 'b')"
    );
}

#[test]
fn no_quote_in_a_literal_stands_without_a_backslash() {
    for key in ["x' OR '1'='1", "'", "''", "\\'", "a\\\\'b", "\\", "plain"] {
        let mut literal = String::new();
        append_quoted(&mut literal, key);
        let inner: Vec<char> = literal[1..literal.len() - 1].chars().collect();
        let mut i = 0;
        while i < inner.len() {
            assert_ne!(inner[i], '\'');
            if inner[i] == '\\' {
                i += 1;
                assert!(i < inner.len());
            }
            i += 1;
        }
    }
}

#[test]
fn different_keys_have_different_texts() {
    assert_ne!(get_in_query(&keys(&["a', 'b"]), None), get_in_query(&keys(&["a", "b"]), None));
    assert_ne!(get_query("a\\", Some("b")), get_query("a", Some("\\b")));
    assert_ne!(get_query("a'", None), get_query("a\\'", None));
    assert_ne!(
        get_query("k' AND c.store_id='s", None),
        get_query("k", Some("s"))
    );
}

#[test]
fn query_renders_its_text() {
    let point = DocumentQuery {
        keys: KeyFilter::Is("key".to_string()),
        store_id: Some("default".to_string()),
        cross_partition: false,
        max_item_count: Some(1),
    };
    assert_eq!(point.text(), "SELECT * FROM c WHERE c.id='key' AND c.store_id='default'");
    let list = DocumentQuery {
        keys: KeyFilter::In(keys(&["a", "b"])),
        store_id: None,
        cross_partition: true,
        max_item_count: None,
    };
    assert_eq!(list.text(), "SELECT * FROM c WHERE c.id IN ('a', 'b')");
    let scan = DocumentQuery {
        keys: KeyFilter::Every,
        store_id: Some("s".to_string()),
        cross_partition: true,
        max_item_count: None,
    };
    assert_eq!(scan.text(), "SELECT * FROM c WHERE c.store_id='s'");
}

#[test]
fn partition_key_is_store_id_or_key() {
    let alone = Pair { id: "key".to_string(), value: vec![1, 2], store_id: None };
    assert_eq!(alone.partition_key(), "key");
    let shared =
        Pair { id: "key".to_string(), value: vec![1, 2], store_id: Some("default".to_string()) };
    assert_eq!(shared.partition_key(), "default");
    assert_eq!(partition_key_for("key", &None), "key");
    assert_eq!(partition_key_for("key", &Some("default".to_string())), "default");
    assert_eq!(partition_key_for("", &Some("".to_string())), "");
}

#[test]
fn pair_clone_keeps_every_field() {
    let pair =
        Pair { id: "key".to_string(), value: vec![0, 255, 7], store_id: Some("s".to_string()) };
    assert_eq!(pair.clone(), pair);
    let bare = Pair { id: "key".to_string(), value: vec![], store_id: None };
    assert_eq!(bare.clone(), bare);
}

#[test]
fn log_error_keeps_the_detail_for_the_log_only() {
    let reported = log_error("HttpResponse { status: 429 }");
    assert_eq!(reported.log, "key-value error: HttpResponse { status: 429 }");
    assert_eq!(reported.error.message, "{err:?}");
    let other = log_error("");
    assert_eq!(other.log, "key-value error: ");
    assert_eq!(other.error, reported.error);
}

#[test]
fn connection_error_message() {
    assert_eq!(ConnectionError::InvalidCredential.message(), "invalid credential");
}
