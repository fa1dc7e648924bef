use key_value_azure::error::{ConnectionError, Failure};
use key_value_azure::pair::Pair;
use key_value_azure::protocol::{count_leading_pages, Reply, Request, Step};
use key_value_azure::query::{DocumentQuery, KeyFilter};
use key_value_azure::store::{
    AzureCosmosKeyValueRuntimeConfig, AzureKeyValueStore, KeyValueAzureCosmos,
};

/// A collection in memory, which answers the adapter's requests.
struct Memory {
    documents: Vec<Pair>,
    pending: Vec<Vec<Pair>>,
    page_size: usize,
    requests: Vec<Request>,
    fail_at: Option<usize>,
    vanish_before_removal: bool,
}

impl Memory {
    fn new() -> Memory {
        Memory {
            documents: vec![],
            pending: vec![],
            page_size: 2,
            requests: vec![],
            fail_at: None,
            vanish_before_removal: false,
        }
    }

    fn selects(query: &DocumentQuery, document: &Pair) -> bool {
        let key = match &query.keys {
            KeyFilter::Every => true,
            KeyFilter::Is(key) => &document.id == key,
            KeyFilter::In(keys) => keys.contains(&document.id),
        };
        let store = match &query.store_id {
            Some(_) => document.store_id == query.store_id,
            None => true,
        };
        key && store
    }

    fn next_page(&mut self) -> Reply {
        if self.pending.is_empty() {
            Reply::Done
        } else {
            Reply::Page(self.pending.remove(0))
        }
    }

    fn perform(&mut self, request: Request) -> Reply {
        let failing = self.fail_at == Some(self.requests.len());
        let reply = if failing {
            Reply::Failed("Throttled".to_string())
        } else {
            match &request {
                Request::Query(query) => {
                    let size = match query.max_item_count {
                        Some(n) => n as usize,
                        None => self.page_size,
                    };
                    let found: Vec<Pair> = self
                        .documents
                        .iter()
                        .filter(|d| Memory::selects(query, d))
                        .cloned()
                        .collect();
                    self.pending = found.chunks(size).map(|c| c.to_vec()).collect();
                    self.next_page()
                }
                Request::NextPage => self.next_page(),
                Request::Upsert(pair) => {
                    let key = (pair.partition_key(), pair.id.clone());
                    self.documents.retain(|d| (d.partition_key(), d.id.clone()) != key);
                    self.documents.push(pair.clone());
                    Reply::Done
                }
                Request::Delete { id, partition_key } => {
                    let at = |d: &Pair| &d.partition_key() == partition_key && &d.id == id;
                    if self.vanish_before_removal {
                        self.documents.retain(|d| !at(d));
                    }
                    if self.documents.iter().any(at) {
                        self.documents.retain(|d| !at(d));
                        Reply::Done
                    } else {
                        Reply::NotFound("HttpError { status: NotFound }".to_string())
                    }
                }
            }
        };
        self.requests.push(request);
        reply
    }

    fn run<T>(&mut self, operation: impl Fn(&[Reply]) -> Step<T>) -> Result<T, Failure> {
        let mut replies: Vec<Reply> = vec![];
        loop {
            match operation(&replies) {
                Step::Perform(request) => replies.push(self.perform(request)),
                Step::Finished(output) => return Ok(output),
                Step::Failed(reported) => return Err(reported),
            }
        }
    }
}

fn adapter(store_id: Option<&str>) -> KeyValueAzureCosmos {
    let config = AzureCosmosKeyValueRuntimeConfig {
        key: "cHJpbWFyeSBrZXk=".to_string(),
        account: "account".to_string(),
        database: "database".to_string(),
        container: "container".to_string(),
    };
    KeyValueAzureCosmos::new(Some("cosmos".to_string()), store_id.map(|s| s.to_string()), config)
        .unwrap()
}

fn pair(id: &str, value: &[u8], store_id: Option<&str>) -> Pair {
    Pair { id: id.to_string(), value: value.to_vec(), store_id: store_id.map(|s| s.to_string()) }
}

fn names(keys: &[&str]) -> Vec<String> {
    keys.iter().map(|k| k.to_string()).collect()
}

fn point_query(key: &str, store_id: Option<&str>) -> Request {
    Request::Query(DocumentQuery {
        keys: KeyFilter::Is(key.to_string()),
        store_id: store_id.map(|s| s.to_string()),
        cross_partition: false,
        max_item_count: Some(1),
    })
}

fn failed(detail: &str) -> Failure {
    key_value_azure::error::log_error(detail)
}

#[test]
fn new_keeps_identity_and_place() {
    let kv = adapter(Some("default"));
    assert_eq!(kv.app_id(), &Some("cosmos".to_string()));
    assert_eq!(kv.store_id(), &Some("default".to_string()));
    assert_eq!(kv.account(), "account");
    assert_eq!(kv.database(), "database");
    assert_eq!(kv.container(), "container");
    let alone = adapter(None);
    assert_eq!(alone.store_id(), &None);
}

#[test]
fn new_builds_a_primary_key_credential() {
    let kv = adapter(None);
    assert_eq!(format!("{:?}", kv.token()), "AuthorizationToken::Master(***hidden***)");
}

#[test]
fn new_takes_any_key() {
    let config = AzureCosmosKeyValueRuntimeConfig {
        key: "not base64 !".to_string(),
        account: "a".to_string(),
        database: "d".to_string(),
        container: "c".to_string(),
    };
    assert!(KeyValueAzureCosmos::new(None, None, config).is_ok());
}

#[test]
fn no_credential_no_adapter() {
    let refused = azure_core::Error::message(azure_core::error::ErrorKind::Credential, "malformed");
    let made = KeyValueAzureCosmos::with_credential(
        None,
        Some("s".to_string()),
        "a".to_string(),
        "d".to_string(),
        "c".to_string(),
        Err(refused),
    );
    assert!(matches!(made, Err(ConnectionError::InvalidCredential)));
}

#[test]
fn with_credential_builds_the_adapter() {
    let credential =
        azure_data_cosmos::prelude::AuthorizationToken::primary_key("a2V5".to_string());
    let made = KeyValueAzureCosmos::with_credential(
        Some("app".to_string()),
        Some("s".to_string()),
        "a".to_string(),
        "d".to_string(),
        "c".to_string(),
        credential,
    );
    let kv = made.ok().unwrap();
    assert_eq!(kv.app_id(), &Some("app".to_string()));
    assert_eq!(kv.store_id(), &Some("s".to_string()));
    assert_eq!(kv.account(), "a");
    assert_eq!(kv.database(), "d");
    assert_eq!(kv.container(), "c");
}

#[test]
fn store_maker_keeps_app_id() {
    assert_eq!(AzureKeyValueStore::new(Some("app".to_string())).app_id(), &Some("app".to_string()));
    assert_eq!(AzureKeyValueStore::new(None).app_id(), &None);
}

#[test]
fn get_pair_asks_for_one_key_in_one_partition() {
    assert_eq!(
        adapter(Some("default")).get_pair("key", &[]),
        Step::Perform(point_query("key", Some("default")))
    );
    assert_eq!(adapter(None).get_pair("key", &[]), Step::Perform(point_query("key", None)));
}

#[test]
fn get_pair_takes_the_first_document_of_the_first_page() {
    let kv = adapter(Some("s"));
    let first = pair("key", b"one", Some("s"));
    let second = pair("key", b"two", Some("s"));
    let replies = [Reply::Page(vec![first.clone(), second])];
    assert_eq!(kv.get_pair("key", &replies), Step::Finished(Some(first.clone())));
    let later = [Reply::Page(vec![first.clone()]), Reply::Page(vec![pair("x", b"y", None)])];
    assert_eq!(kv.get_pair("key", &later), Step::Finished(Some(first)));
}

#[test]
fn get_pair_finds_nothing_without_a_document() {
    let kv = adapter(None);
    assert_eq!(kv.get_pair("key", &[Reply::Done]), Step::Finished(None));
    assert_eq!(kv.get_pair("key", &[Reply::Page(vec![])]), Step::Finished(None));
}

#[test]
fn get_pair_reports_a_failure() {
    let kv = adapter(None);
    let step = kv.get_pair("key", &[Reply::Failed("Io".to_string())]);
    assert_eq!(step, Step::Failed(failed("Io")));
    match step {
        Step::Failed(reported) => {
            assert_eq!(reported.log, "key-value error: Io");
            assert_eq!(reported.error.message, "{err:?}");
        }
        _ => panic!("a failure was expected"),
    }
}

#[test]
fn get_returns_the_value() {
    let kv = adapter(Some("s"));
    assert_eq!(kv.get("key", &[]), Step::Perform(point_query("key", Some("s"))));
    let replies = [Reply::Page(vec![pair("key", b"value", Some("s"))])];
    assert_eq!(kv.get("key", &replies), Step::Finished(Some(b"value".to_vec())));
    assert_eq!(kv.get("key", &[Reply::Done]), Step::Finished(None));
    assert_eq!(kv.get("key", &[Reply::Failed("x".to_string())]), Step::Failed(failed("x")));
}

#[test]
fn key_exists_tells_whether_a_document_came() {
    let kv = adapter(None);
    assert_eq!(kv.key_exists("key", &[]), Step::Perform(point_query("key", None)));
    let replies = [Reply::Page(vec![pair("key", b"", None)])];
    assert_eq!(kv.key_exists("key", &replies), Step::Finished(true));
    assert_eq!(kv.key_exists("key", &[Reply::Page(vec![])]), Step::Finished(false));
    assert_eq!(kv.key_exists("key", &[Reply::Done]), Step::Finished(false));
    assert_eq!(kv.key_exists("key", &[Reply::Failed("x".to_string())]), Step::Failed(failed("x")));
}

#[test]
fn set_writes_one_document_with_the_store_id() {
    let shared = adapter(Some("default"));
    assert_eq!(
        shared.set("key", b"value", &[]),
        Step::Perform(Request::Upsert(pair("key", b"value", Some("default"))))
    );
    let alone = adapter(None);
    assert_eq!(alone.set("key", b"", &[]), Step::Perform(Request::Upsert(pair("key", b"", None))));
    assert_eq!(alone.set("key", b"value", &[Reply::Done]), Step::Finished(()));
    assert_eq!(alone.set("key", b"value", &[Reply::Page(vec![])]), Step::Finished(()));
    assert_eq!(
        alone.set("key", b"value", &[Reply::Failed("Forbidden".to_string())]),
        Step::Failed(failed("Forbidden"))
    );
}

#[test]
fn delete_looks_up_then_removes() {
    let kv = adapter(Some("default"));
    assert_eq!(kv.delete("key", &[]), Step::Perform(point_query("key", Some("default"))));
    let found = Reply::Page(vec![pair("key", b"value", Some("default"))]);
    assert_eq!(
        kv.delete("key", &[found.clone_reply()]),
        Step::Perform(Request::Delete {
            id: "key".to_string(),
            partition_key: "default".to_string()
        })
    );
    assert_eq!(kv.delete("key", &[found.clone_reply(), Reply::Done]), Step::Finished(()));
    assert_eq!(
        kv.delete("key", &[found, Reply::Failed("Throttled".to_string())]),
        Step::Failed(failed("Throttled"))
    );
}

#[test]
fn delete_tolerates_a_removal_that_finds_nothing() {
    let kv = adapter(Some("default"));
    let found = Reply::Page(vec![pair("key", b"value", Some("default"))]);
    assert_eq!(
        kv.delete("key", &[found, Reply::NotFound("HttpError { status: NotFound }".to_string())]),
        Step::Finished(())
    );
    let mut store = Memory::new();
    store.run(|replies| kv.set("key", b"value", replies)).unwrap();
    store.run(|replies| kv.set("other", b"kept", replies)).unwrap();
    store.vanish_before_removal = true;
    assert_eq!(store.run(|replies| kv.delete("key", replies)), Ok(()));
    assert!(matches!(store.requests.last(), Some(Request::Delete { .. })));
    assert_eq!(store.run(|replies| kv.get("key", replies)), Ok(None));
    assert_eq!(store.run(|replies| kv.get("other", replies)), Ok(Some(b"kept".to_vec())));
}

#[test]
fn not_found_is_a_failure_of_every_other_request() {
    let kv = adapter(None);
    let gone = || Reply::NotFound("no collection".to_string());
    let keys = names(&["a"]);
    assert_eq!(kv.get_pair("a", &[gone()]), Step::Failed(failed("no collection")));
    assert_eq!(kv.get("a", &[gone()]), Step::Failed(failed("no collection")));
    assert_eq!(kv.key_exists("a", &[gone()]), Step::Failed(failed("no collection")));
    assert_eq!(kv.delete("a", &[gone()]), Step::Failed(failed("no collection")));
    assert_eq!(kv.set("a", b"1", &[gone()]), Step::Failed(failed("no collection")));
    assert_eq!(kv.get_many(&keys, &[gone()]), Step::Failed(failed("no collection")));
    assert_eq!(
        kv.get_keys(&[Reply::Page(vec![]), gone()]),
        Step::Failed(failed("no collection"))
    );
    assert_eq!(
        kv.set_many(&[("a".to_string(), vec![1])], &[gone()]),
        Step::Failed(failed("no collection"))
    );
    assert_eq!(kv.delete_many(&keys, &[gone()]), Step::Failed(failed("no collection")));
}

#[test]
fn delete_many_goes_on_after_a_removal_that_finds_nothing() {
    let kv = adapter(None);
    let keys = names(&["a", "b"]);
    let found = Reply::Page(vec![pair("a", b"1", None)]);
    assert_eq!(
        kv.delete_many(&keys, &[found, Reply::NotFound("gone".to_string())]),
        Step::Perform(point_query("b", None))
    );
}

trait CloneReply {
    fn clone_reply(&self) -> Reply;
}

impl CloneReply for Reply {
    fn clone_reply(&self) -> Reply {
        match self {
            Reply::Page(documents) => Reply::Page(documents.clone()),
            Reply::Done => Reply::Done,
            Reply::NotFound(detail) => Reply::NotFound(detail.clone()),
            Reply::Failed(detail) => Reply::Failed(detail.clone()),
        }
    }
}

#[test]
fn delete_removes_from_the_partition_of_the_key_without_store_id() {
    let kv = adapter(None);
    let found = Reply::Page(vec![pair("key", b"value", None)]);
    assert_eq!(
        kv.delete("key", &[found]),
        Step::Perform(Request::Delete { id: "key".to_string(), partition_key: "key".to_string() })
    );
}

#[test]
fn delete_of_an_absent_key_ends_after_the_lookup() {
    let kv = adapter(None);
    assert_eq!(kv.delete("key", &[Reply::Done]), Step::Finished(()));
    assert_eq!(kv.delete("key", &[Reply::Page(vec![])]), Step::Finished(()));
    assert_eq!(kv.delete("key", &[Reply::Failed("x".to_string())]), Step::Failed(failed("x")));
}

#[test]
fn get_many_asks_for_the_keys_over_all_partitions() {
    let kv = adapter(Some("s"));
    assert_eq!(
        kv.get_many(&names(&["k1", "k2"]), &[]),
        Step::Perform(Request::Query(DocumentQuery {
            keys: KeyFilter::In(names(&["k1", "k2"])),
            store_id: Some("s".to_string()),
            cross_partition: true,
            max_item_count: None,
        }))
    );
}

#[test]
fn get_many_reads_page_after_page() {
    let kv = adapter(None);
    let keys = names(&["a", "b", "c"]);
    let first = Reply::Page(vec![pair("b", b"2", None), pair("a", b"1", None)]);
    let empty = Reply::Page(vec![]);
    let last = Reply::Page(vec![pair("c", b"3", None)]);
    assert_eq!(kv.get_many(&keys, &[first.clone_reply()]), Step::Perform(Request::NextPage));
    assert_eq!(
        kv.get_many(&keys, &[first.clone_reply(), empty.clone_reply(), last.clone_reply()]),
        Step::Perform(Request::NextPage)
    );
    assert_eq!(
        kv.get_many(&keys, &[first, empty, last, Reply::Done]),
        Step::Finished(vec![
            ("b".to_string(), Some(b"2".to_vec())),
            ("a".to_string(), Some(b"1".to_vec())),
            ("c".to_string(), Some(b"3".to_vec())),
        ])
    );
    assert_eq!(kv.get_many(&keys, &[Reply::Done]), Step::Finished(vec![]));
}

#[test]
fn get_many_ends_at_the_first_failure() {
    let kv = adapter(None);
    let keys = names(&["a"]);
    let page = Reply::Page(vec![pair("a", b"1", None)]);
    assert_eq!(
        kv.get_many(&keys, &[page.clone_reply(), Reply::Failed("Timeout".to_string())]),
        Step::Failed(failed("Timeout"))
    );
    assert_eq!(
        kv.get_many(&keys, &[Reply::Failed("Timeout".to_string()), page, Reply::Done]),
        Step::Failed(failed("Timeout"))
    );
}

#[test]
fn get_keys_asks_for_every_document() {
    assert_eq!(
        adapter(Some("s")).get_keys(&[]),
        Step::Perform(Request::Query(DocumentQuery {
            keys: KeyFilter::Every,
            store_id: Some("s".to_string()),
            cross_partition: true,
            max_item_count: None,
        }))
    );
    assert_eq!(
        adapter(None).get_keys(&[]),
        Step::Perform(Request::Query(DocumentQuery {
            keys: KeyFilter::Every,
            store_id: None,
            cross_partition: true,
            max_item_count: None,
        }))
    );
}

#[test]
fn get_keys_reads_page_after_page() {
    let kv = adapter(None);
    let first = Reply::Page(vec![pair("b", b"2", None), pair("a", b"1", None)]);
    let last = Reply::Page(vec![pair("c", b"3", None)]);
    assert_eq!(kv.get_keys(&[first.clone_reply()]), Step::Perform(Request::NextPage));
    assert_eq!(
        kv.get_keys(&[first.clone_reply(), last.clone_reply(), Reply::Done]),
        Step::Finished(names(&["b", "a", "c"]))
    );
    assert_eq!(
        kv.get_keys(&[first, Reply::Failed("Gone".to_string()), last]),
        Step::Failed(failed("Gone"))
    );
    assert_eq!(kv.get_keys(&[Reply::Done]), Step::Finished(vec![]));
}

#[test]
fn leading_pages_are_counted() {
    let page = Reply::Page(vec![]);
    assert_eq!(count_leading_pages(&[]), 0);
    assert_eq!(count_leading_pages(&[Reply::Done]), 0);
    assert_eq!(count_leading_pages(&[page.clone_reply(), page.clone_reply()]), 2);
    assert_eq!(
        count_leading_pages(&[page.clone_reply(), Reply::Failed("x".to_string()), page]),
        1
    );
}

#[test]
fn set_many_writes_in_order() {
    let kv = adapter(Some("s"));
    let pairs = vec![("a".to_string(), b"1".to_vec()), ("b".to_string(), b"2".to_vec())];
    assert_eq!(
        kv.set_many(&pairs, &[]),
        Step::Perform(Request::Upsert(pair("a", b"1", Some("s"))))
    );
    assert_eq!(
        kv.set_many(&pairs, &[Reply::Done]),
        Step::Perform(Request::Upsert(pair("b", b"2", Some("s"))))
    );
    assert_eq!(kv.set_many(&pairs, &[Reply::Done, Reply::Done]), Step::Finished(()));
    assert_eq!(kv.set_many(&[], &[]), Step::Finished(()));
}

#[test]
fn set_many_stops_at_the_first_failure() {
    let kv = adapter(None);
    let pairs = vec![
        ("a".to_string(), b"1".to_vec()),
        ("b".to_string(), b"2".to_vec()),
        ("c".to_string(), b"3".to_vec()),
    ];
    assert_eq!(
        kv.set_many(&pairs, &[Reply::Done, Reply::Failed("Throttled".to_string())]),
        Step::Failed(failed("Throttled"))
    );
    let mut store = Memory::new();
    store.fail_at = Some(1);
    let outcome = store.run(|replies| kv.set_many(&pairs, replies));
    assert_eq!(outcome, Err(failed("Throttled")));
    assert_eq!(store.documents, vec![pair("a", b"1", None)]);
    assert_eq!(store.requests.len(), 2);
}

#[test]
fn delete_many_removes_in_order() {
    let kv = adapter(Some("s"));
    let keys = names(&["a", "b"]);
    let found = Reply::Page(vec![pair("a", b"1", Some("s"))]);
    assert_eq!(kv.delete_many(&keys, &[]), Step::Perform(point_query("a", Some("s"))));
    assert_eq!(
        kv.delete_many(&keys, &[found.clone_reply()]),
        Step::Perform(Request::Delete { id: "a".to_string(), partition_key: "s".to_string() })
    );
    assert_eq!(
        kv.delete_many(&keys, &[found.clone_reply(), Reply::Done]),
        Step::Perform(point_query("b", Some("s")))
    );
    assert_eq!(kv.delete_many(&keys, &[found, Reply::Done, Reply::Done]), Step::Finished(()));
    assert_eq!(kv.delete_many(&keys, &[Reply::Done]), Step::Perform(point_query("b", Some("s"))));
    assert_eq!(kv.delete_many(&keys, &[Reply::Done, Reply::Page(vec![])]), Step::Finished(()));
    assert_eq!(kv.delete_many(&[], &[]), Step::Finished(()));
}

#[test]
fn delete_many_stops_at_the_first_failure() {
    let kv = adapter(None);
    let keys = names(&["a", "b", "c"]);
    let mut store = Memory::new();
    for key in ["a", "b", "c"] {
        store.run(|replies| kv.set(key, b"v", replies)).unwrap();
    }
    store.requests.clear();
    store.fail_at = Some(2);
    let outcome = store.run(|replies| kv.delete_many(&keys, replies));
    assert_eq!(outcome, Err(failed("Throttled")));
    assert_eq!(store.documents, vec![pair("b", b"v", None), pair("c", b"v", None)]);
    assert_eq!(store.requests.len(), 3);
}

#[test]
fn round_trip() {
    for store_id in [None, Some("default")] {
        let kv = adapter(store_id);
        let mut store = Memory::new();
        for (key, value) in [("key", &b"value"[..]), ("", &b""[..]), ("k'q", &[0u8, 255, 39][..])] {
            store.run(|replies| kv.set(key, value, replies)).unwrap();
            assert_eq!(store.run(|replies| kv.get(key, replies)), Ok(Some(value.to_vec())));
            assert_eq!(store.run(|replies| kv.key_exists(key, replies)), Ok(true));
        }
    }
}

#[test]
fn upsert_overwrites() {
    let kv = adapter(Some("default"));
    let mut store = Memory::new();
    store.run(|replies| kv.set("key", b"first value", replies)).unwrap();
    store.run(|replies| kv.set("key", b"2", replies)).unwrap();
    assert_eq!(store.run(|replies| kv.get("key", replies)), Ok(Some(b"2".to_vec())));
    assert_eq!(store.documents, vec![pair("key", b"2", Some("default"))]);
}

#[test]
fn delete_is_idempotent() {
    let kv = adapter(None);
    let mut store = Memory::new();
    store.run(|replies| kv.set("other", b"v", replies)).unwrap();
    assert_eq!(store.run(|replies| kv.delete("key", replies)), Ok(()));
    assert_eq!(store.run(|replies| kv.delete("key", replies)), Ok(()));
    assert_eq!(store.documents, vec![pair("other", b"v", None)]);
    assert!(store.requests.iter().all(|r| !matches!(r, Request::Delete { .. })));
    store.run(|replies| kv.set("key", b"v", replies)).unwrap();
    assert_eq!(store.run(|replies| kv.delete("key", replies)), Ok(()));
    assert_eq!(store.run(|replies| kv.delete("key", replies)), Ok(()));
    assert_eq!(store.documents, vec![pair("other", b"v", None)]);
}

#[test]
fn tenants_are_isolated() {
    let one = adapter(Some("s1"));
    let two = adapter(Some("s2"));
    let mut store = Memory::new();
    store.run(|replies| one.set("k", b"of one", replies)).unwrap();
    assert_eq!(store.run(|replies| two.get("k", replies)), Ok(None));
    assert_eq!(store.run(|replies| two.get_keys(replies)), Ok(vec![]));
    store.run(|replies| two.set("k", b"of two", replies)).unwrap();
    assert_eq!(store.run(|replies| one.get("k", replies)), Ok(Some(b"of one".to_vec())));
    assert_eq!(store.run(|replies| two.get("k", replies)), Ok(Some(b"of two".to_vec())));
    store.run(|replies| two.delete("k", replies)).unwrap();
    assert_eq!(store.run(|replies| one.get("k", replies)), Ok(Some(b"of one".to_vec())));
}

#[test]
fn get_many_omits_absent_keys() {
    let kv = adapter(Some("default"));
    let mut store = Memory::new();
    store.run(|replies| kv.set("k1", b"v1", replies)).unwrap();
    let found = store.run(|replies| kv.get_many(&names(&["k1", "k2"]), replies)).unwrap();
    assert_eq!(found, vec![("k1".to_string(), Some(b"v1".to_vec()))]);
}

#[test]
fn get_keys_is_complete() {
    let kv = adapter(Some("default"));
    let other = adapter(Some("other"));
    let mut store = Memory::new();
    for key in ["a", "b", "c"] {
        store.run(|replies| kv.set(key, key.as_bytes(), replies)).unwrap();
    }
    store.run(|replies| other.set("z", b"", replies)).unwrap();
    let mut keys = store.run(|replies| kv.get_keys(replies)).unwrap();
    keys.sort();
    assert_eq!(keys, names(&["a", "b", "c"]));
}

#[test]
fn example_scenario() {
    let config = AzureCosmosKeyValueRuntimeConfig {
        key: "a2V5".to_string(),
        account: "account".to_string(),
        database: "database".to_string(),
        container: "container".to_string(),
    };
    let kv = KeyValueAzureCosmos::new(None, None, config).unwrap();
    let mut store = Memory::new();
    assert_eq!(store.run(|replies| kv.set("key", b"value", replies)), Ok(()));
    assert_eq!(store.run(|replies| kv.get("key", replies)), Ok(Some(b"value".to_vec())));
    assert_eq!(store.run(|replies| kv.get("missing", replies)), Ok(None));
    assert_eq!(store.run(|replies| kv.delete("key", replies)), Ok(()));
    assert_eq!(store.run(|replies| kv.get("key", replies)), Ok(None));
}
