//! The adapter: a key-value store in one collection of a document database.

use crate::credential::{credential_of, primary_key};
use crate::error::{failure, log_error, ConnectionError};
use crate::pair::{partition_key_for, partition_key_of, Pair, PairView};
use crate::protocol::{
    read_stream, stream, Reply, ReplyView, Request, RequestView, Step, StepView,
};
use crate::query::{DocumentQuery, DocumentQueryView, KeyFilter, KeyFilterView};
use crate::views::{lemma_bytes_deep_view, lemma_push_deep_view};
use azure_data_cosmos::prelude::AuthorizationToken;
use vstd::prelude::*;
use vstd::slice::{slice_subrange, slice_to_vec};

verus! {

/// The maker of key-value stores for one application.
///
/// With an application id, the stores of the application share one container,
/// each under its own partition key; without one, each store has a container
/// to itself, whose partition key is the key.
pub struct AzureKeyValueStore {
    app_id: Option<String>,
}

impl View for AzureKeyValueStore {
    type V = Option<Seq<char>>;

    closed spec fn view(&self) -> Option<Seq<char>> {
        self.app_id.deep_view()
    }
}

impl AzureKeyValueStore {
    /// The maker for the application `app_id`.
    pub fn new(app_id: Option<String>) -> (store: Self)
        ensures
            store@ == app_id.deep_view(),
    {
        Self { app_id }
    }

    /// The application id.
    pub fn app_id(&self) -> (app_id: &Option<String>)
        ensures
            app_id.deep_view() == self@,
    {
        &self.app_id
    }
}

/// Where the collection is, and the key of the account.
pub struct AzureCosmosKeyValueRuntimeConfig {
    /// The primary key of the database account.
    pub key: String,
    /// The name of the database account.
    pub account: String,
    /// The database.
    pub database: String,
    /// The container that holds the documents. Its partition key is `/id`.
    pub container: String,
}

/// What a [`KeyValueAzureCosmos`] stands for in specifications.
pub struct AdapterView {
    pub app_id: Option<Seq<char>>,
    pub store_id: Option<Seq<char>>,
    pub account: Seq<char>,
    pub database: Seq<char>,
    pub container: Seq<char>,
}

/// A key-value store in one collection.
///
/// Without a store id the collection holds this store alone: a document's
/// partition key is its key, and queries are not confined. With a store id the
/// collection may hold many stores: every document written carries the store
/// id, which is its partition key, and every query is confined to it.
///
/// The adapter keeps the place of the collection and the credential, and no
/// connection. Each operation takes the replies that the database has given to
/// it so far, none at first, and returns the request to perform next, or what
/// the operation returns, as [`crate::protocol`] describes.
pub struct KeyValueAzureCosmos {
    token: AuthorizationToken,
    account: String,
    database: String,
    container: String,
    app_id: Option<String>,
    store_id: Option<String>,
}

impl View for KeyValueAzureCosmos {
    type V = AdapterView;

    closed spec fn view(&self) -> AdapterView {
        AdapterView {
            app_id: self.app_id.deep_view(),
            store_id: self.store_id.deep_view(),
            account: self.account@,
            database: self.database@,
            container: self.container@,
        }
    }
}

/// What the reply to a write makes of the operation that asked for it: the
/// failure if the write failed, else the end of the operation.
pub open spec fn written(reply: ReplyView) -> StepView<()> {
    match reply.error() {
        Some(detail) => StepView::Failed(failure(detail)),
        None => StepView::Finished(()),
    }
}

/// What the reply to a removal makes of the operation that asked for it. A
/// removal that finds no document has nothing left to do: another writer has
/// removed the document since it was looked up, and the operation ends as if
/// the removal had been made. Any other failure ends it as a failure.
pub open spec fn removed(reply: ReplyView) -> StepView<()> {
    match reply {
        ReplyView::Failed(detail) => StepView::Failed(failure(detail)),
        _ => StepView::Finished(()),
    }
}

/// Whether the reply to the query for one key hands over a document.
pub open spec fn found(reply: ReplyView) -> bool {
    reply matches ReplyView::Page(documents) && documents.len() > 0
}

/// For each document its key and its value, in the same order.
pub open spec fn entries(documents: Seq<PairView>) -> Seq<(Seq<char>, Option<Seq<u8>>)> {
    documents.map_values(|d: PairView| (d.id, Some(d.value)))
}

/// The key of each document, in the same order.
pub open spec fn ids(documents: Seq<PairView>) -> Seq<Seq<char>> {
    documents.map_values(|d: PairView| d.id)
}

impl AdapterView {
    /// The document that holds `value` under `key` in this store.
    pub open spec fn document(self, key: Seq<char>, value: Seq<u8>) -> PairView {
        PairView { id: key, value, store_id: self.store_id }
    }

    /// The partition key of the document with the key `key` in this store.
    pub open spec fn partition_key(self, key: Seq<char>) -> Seq<char> {
        partition_key_of(key, self.store_id)
    }

    /// The query for the document with the key `key`: one partition, one
    /// document to a page.
    pub open spec fn point_query(self, key: Seq<char>) -> DocumentQueryView {
        DocumentQueryView {
            keys: KeyFilterView::Is(key),
            store_id: self.store_id,
            cross_partition: false,
            max_item_count: Some(1i32),
        }
    }

    /// What [`KeyValueAzureCosmos::get_pair`] returns.
    pub open spec fn get_pair(self, key: Seq<char>, replies: Seq<ReplyView>) -> StepView<
        Option<PairView>,
    > {
        if replies.len() == 0 {
            StepView::Perform(RequestView::Query(self.point_query(key)))
        } else {
            match replies[0] {
                ReplyView::Page(documents) => StepView::Finished(
                    if documents.len() > 0 {
                        Some(documents[0])
                    } else {
                        None
                    },
                ),
                ReplyView::Done => StepView::Finished(None),
                ReplyView::NotFound(detail) => StepView::Failed(failure(detail)),
                ReplyView::Failed(detail) => StepView::Failed(failure(detail)),
            }
        }
    }

    /// What [`KeyValueAzureCosmos::get`] returns.
    pub open spec fn get(self, key: Seq<char>, replies: Seq<ReplyView>) -> StepView<
        Option<Seq<u8>>,
    > {
        self.get_pair(key, replies).map(
            |pair: Option<PairView>|
                match pair {
                    Some(p) => Some(p.value),
                    None => None,
                },
        )
    }

    /// What [`KeyValueAzureCosmos::key_exists`] returns.
    pub open spec fn key_exists(self, key: Seq<char>, replies: Seq<ReplyView>) -> StepView<bool> {
        self.get_pair(key, replies).map(|pair: Option<PairView>| pair is Some)
    }

    /// What [`KeyValueAzureCosmos::set`] returns.
    pub open spec fn set(self, key: Seq<char>, value: Seq<u8>, replies: Seq<ReplyView>) -> StepView<
        (),
    > {
        if replies.len() == 0 {
            StepView::Perform(RequestView::Upsert(self.document(key, value)))
        } else {
            written(replies[0])
        }
    }

    /// What [`KeyValueAzureCosmos::delete`] returns.
    pub open spec fn delete(self, key: Seq<char>, replies: Seq<ReplyView>) -> StepView<()> {
        match self.key_exists(key, replies) {
            StepView::Perform(request) => StepView::Perform(request),
            StepView::Failed(reported) => StepView::Failed(reported),
            StepView::Finished(present) => if !present {
                StepView::Finished(())
            } else if replies.len() < 2 {
                StepView::Perform(
                    RequestView::Delete { id: key, partition_key: self.partition_key(key) },
                )
            } else {
                removed(replies[1])
            },
        }
    }

    /// The query for the documents whose key is one of `keys`, over all
    /// partitions.
    pub open spec fn list_query(self, keys: Seq<Seq<char>>) -> DocumentQueryView {
        DocumentQueryView {
            keys: KeyFilterView::In(keys),
            store_id: self.store_id,
            cross_partition: true,
            max_item_count: None,
        }
    }

    /// The query for every document, over all partitions.
    pub open spec fn scan_query(self) -> DocumentQueryView {
        DocumentQueryView {
            keys: KeyFilterView::Every,
            store_id: self.store_id,
            cross_partition: true,
            max_item_count: None,
        }
    }

    /// What [`KeyValueAzureCosmos::get_many`] returns.
    pub open spec fn get_many(self, keys: Seq<Seq<char>>, replies: Seq<ReplyView>) -> StepView<
        Seq<(Seq<char>, Option<Seq<u8>>)>,
    > {
        if replies.len() == 0 {
            StepView::Perform(RequestView::Query(self.list_query(keys)))
        } else {
            stream(replies).map(|documents: Seq<PairView>| entries(documents))
        }
    }

    /// What [`KeyValueAzureCosmos::get_keys`] returns.
    pub open spec fn get_keys(self, replies: Seq<ReplyView>) -> StepView<Seq<Seq<char>>> {
        if replies.len() == 0 {
            StepView::Perform(RequestView::Query(self.scan_query()))
        } else {
            stream(replies).map(|documents: Seq<PairView>| ids(documents))
        }
    }

    /// What [`KeyValueAzureCosmos::set_many`] returns.
    pub open spec fn set_many(
        self,
        key_values: Seq<(Seq<char>, Seq<u8>)>,
        replies: Seq<ReplyView>,
    ) -> StepView<()>
        decreases key_values.len(),
    {
        if key_values.len() == 0 {
            StepView::Finished(())
        } else {
            match self.set(key_values[0].0, key_values[0].1, replies) {
                StepView::Finished(_) => self.set_many(key_values.skip(1), replies.skip(1)),
                step => step,
            }
        }
    }

    /// What [`KeyValueAzureCosmos::delete_many`] returns.
    pub open spec fn delete_many(self, keys: Seq<Seq<char>>, replies: Seq<ReplyView>) -> StepView<
        (),
    >
        decreases keys.len(),
    {
        if keys.len() == 0 {
            StepView::Finished(())
        } else {
            match self.delete(keys[0], replies) {
                StepView::Finished(_) => self.delete_many(
                    keys.skip(1),
                    replies.skip(
                        if found(replies[0]) {
                            2
                        } else {
                            1
                        },
                    ),
                ),
                step => step,
            }
        }
    }
}

impl KeyValueAzureCosmos {
    /// The credential that the adapter holds.
    pub closed spec fn credential(&self) -> AuthorizationToken {
        self.token
    }

    /// Builds the adapter for the collection that `config` names, with the
    /// credential that the account key makes.
    pub fn new(
        app_id: Option<String>,
        store_id: Option<String>,
        config: AzureCosmosKeyValueRuntimeConfig,
    ) -> (made: Result<Self, ConnectionError>)
        ensures
            made matches Ok(kv) && kv.credential() == credential_of(config.key@) && kv@ == (
            AdapterView {
                app_id: app_id.deep_view(),
                store_id: store_id.deep_view(),
                account: config.account@,
                database: config.database@,
                container: config.container@,
            }),
    {
        let credential = primary_key(config.key);
        Self::with_credential(
            app_id,
            store_id,
            config.account,
            config.database,
            config.container,
            credential,
        )
    }

    /// Builds the adapter from what the building of the credential returned:
    /// without a credential there is no adapter.
    pub fn with_credential(
        app_id: Option<String>,
        store_id: Option<String>,
        account: String,
        database: String,
        container: String,
        credential: Result<AuthorizationToken, azure_core::Error>,
    ) -> (made: Result<Self, ConnectionError>)
        ensures
            credential matches Ok(token) ==> (made matches Ok(kv) && kv.credential() == token
                && kv@ == (AdapterView {
                app_id: app_id.deep_view(),
                store_id: store_id.deep_view(),
                account: account@,
                database: database@,
                container: container@,
            })),
            credential is Err ==> made == Err::<Self, ConnectionError>(
                ConnectionError::InvalidCredential,
            ),
    {
        match credential {
            Ok(token) => Ok(
                KeyValueAzureCosmos { token, account, database, container, app_id, store_id },
            ),
            Err(_) => Err(ConnectionError::InvalidCredential),
        }
    }

    /// The credential of the account.
    pub fn token(&self) -> (token: &AuthorizationToken)
        ensures
            *token == self.credential(),
    {
        &self.token
    }

    /// The name of the database account.
    pub fn account(&self) -> (account: &str)
        ensures
            account@ == self@.account,
    {
        self.account.as_str()
    }

    /// The database.
    pub fn database(&self) -> (database: &str)
        ensures
            database@ == self@.database,
    {
        self.database.as_str()
    }

    /// The container that holds the documents.
    pub fn container(&self) -> (container: &str)
        ensures
            container@ == self@.container,
    {
        self.container.as_str()
    }

    /// The application id, if the adapter was given one.
    pub fn app_id(&self) -> (app_id: &Option<String>)
        ensures
            app_id.deep_view() == self@.app_id,
    {
        &self.app_id
    }

    /// The store id, if the collection is shared.
    pub fn store_id(&self) -> (store_id: &Option<String>)
        ensures
            store_id.deep_view() == self@.store_id,
    {
        &self.store_id
    }

    fn copy_store_id(&self) -> (copy: Option<String>)
        ensures
            copy.deep_view() == self@.store_id,
    {
        match &self.store_id {
            Some(s) => Some(s.clone()),
            None => None,
        }
    }

    /// Looks up the document with the key `key`: asks for it with a query for
    /// that key alone, and takes the first document of the first page. Where
    /// the query has no page, or an empty one, there is no such document.
    pub fn get_pair(&self, key: &str, replies: &[Reply]) -> (step: Step<Option<Pair>>)
        ensures
            step@ == self@.get_pair(key@, replies.deep_view()),
    {
        if replies.len() == 0 {
            return Step::Perform(
                Request::Query(
                    DocumentQuery {
                        keys: KeyFilter::Is(key.to_owned()),
                        store_id: self.copy_store_id(),
                        cross_partition: false,
                        max_item_count: Some(1),
                    },
                ),
            );
        }
        match &replies[0] {
            Reply::Page(documents) => {
                if documents.len() > 0 {
                    Step::Finished(Some(documents[0].clone()))
                } else {
                    Step::Finished(None)
                }
            },
            Reply::Done => Step::Finished(None),
            Reply::NotFound(detail) => Step::Failed(log_error(detail.as_str())),
            Reply::Failed(detail) => Step::Failed(log_error(detail.as_str())),
        }
    }

    /// The value under `key`, if there is one.
    pub fn get(&self, key: &str, replies: &[Reply]) -> (step: Step<Option<Vec<u8>>>)
        ensures
            step@ == self@.get(key@, replies.deep_view()),
    {
        match self.get_pair(key, replies) {
            Step::Perform(request) => Step::Perform(request),
            Step::Finished(pair) => Step::Finished(
                match pair {
                    Some(p) => {
                        assert(p.value.deep_view() =~= p.value@);
                        Some(p.value)
                    },
                    None => None,
                },
            ),
            Step::Failed(reported) => Step::Failed(reported),
        }
    }

    /// Whether there is a value under `key`.
    pub fn key_exists(&self, key: &str, replies: &[Reply]) -> (step: Step<bool>)
        ensures
            step@ == self@.key_exists(key@, replies.deep_view()),
    {
        match self.get_pair(key, replies) {
            Step::Perform(request) => Step::Perform(request),
            Step::Finished(pair) => Step::Finished(pair.is_some()),
            Step::Failed(reported) => Step::Failed(reported),
        }
    }

    /// Puts `value` under `key`: writes one document, which replaces the one
    /// that the key had.
    pub fn set(&self, key: &str, value: &[u8], replies: &[Reply]) -> (step: Step<()>)
        ensures
            step@ == self@.set(key@, value@, replies.deep_view()),
    {
        if replies.len() == 0 {
            let pair = Pair {
                id: key.to_owned(),
                value: slice_to_vec(value),
                store_id: self.copy_store_id(),
            };
            return Step::Perform(Request::Upsert(pair));
        }
        match replies[0].error() {
            Some(detail) => Step::Failed(log_error(detail)),
            None => Step::Finished(()),
        }
    }

    /// Removes `key` and its value: looks the key up, and asks for the removal
    /// of its document only if there is one. Between the lookup and the
    /// removal another writer may remove the document; a removal that finds no
    /// document therefore ends the operation well, not as a failure.
    pub fn delete(&self, key: &str, replies: &[Reply]) -> (step: Step<()>)
        ensures
            step@ == self@.delete(key@, replies.deep_view()),
    {
        match self.key_exists(key, replies) {
            Step::Perform(request) => Step::Perform(request),
            Step::Failed(reported) => Step::Failed(reported),
            Step::Finished(present) => {
                if !present {
                    Step::Finished(())
                } else if replies.len() < 2 {
                    let partition_key = partition_key_for(key, &self.store_id);
                    Step::Perform(Request::Delete { id: key.to_owned(), partition_key })
                } else {
                    match &replies[1] {
                        Reply::Failed(detail) => Step::Failed(log_error(detail.as_str())),
                        _ => Step::Finished(()),
                    }
                }
            },
        }
    }

    /// The values under `keys`: one entry for each key that has a value, in
    /// the order in which the store hands the documents over. A key without a
    /// value has no entry.
    pub fn get_many(&self, keys: &[String], replies: &[Reply]) -> (step: Step<
        Vec<(String, Option<Vec<u8>>)>,
    >)
        ensures
            step@ == self@.get_many(keys.deep_view(), replies.deep_view()),
    {
        if replies.len() == 0 {
            let mut wanted: Vec<String> = Vec::new();
            let mut i: usize = 0;
            while i < keys.len()
                invariant
                    i <= keys.len(),
                    wanted.deep_view() == keys.deep_view().take(i as int),
                decreases keys.len() - i,
            {
                let ghost before = wanted;
                let key = keys[i].clone();
                wanted.push(key);
                proof {
                    lemma_push_deep_view(before, wanted, key);
                }
                assert(wanted.deep_view() =~= keys.deep_view().take(i + 1));
                i = i + 1;
            }
            assert(keys.deep_view().take(i as int) =~= keys.deep_view());
            return Step::Perform(
                Request::Query(
                    DocumentQuery {
                        keys: KeyFilter::In(wanted),
                        store_id: self.copy_store_id(),
                        cross_partition: true,
                        max_item_count: None,
                    },
                ),
            );
        }
        match read_stream(replies) {
            Step::Perform(request) => Step::Perform(request),
            Step::Failed(reported) => Step::Failed(reported),
            Step::Finished(documents) => {
                let ghost all = documents.deep_view();
                let mut found_entries: Vec<(String, Option<Vec<u8>>)> = Vec::new();
                let mut i: usize = 0;
                assert(found_entries.deep_view() =~= entries(all.take(0)));
                while i < documents.len()
                    invariant
                        i <= documents.len(),
                        all == documents.deep_view(),
                        found_entries.deep_view() == entries(all.take(i as int)),
                    decreases documents.len() - i,
                {
                    let ghost collected = found_entries;
                    let document = documents[i];
                    let entry = (document.id.clone(), Some(document.value.clone()));
                    found_entries.push(entry);
                    proof {
                        lemma_bytes_deep_view(entry.1.unwrap());
                        lemma_push_deep_view(collected, found_entries, entry);
                        assert(all.take(i + 1) =~= all.take(i as int).push(all[i as int]));
                        assert(found_entries.deep_view() =~= entries(all.take(i + 1)));
                    }
                    i = i + 1;
                }
                assert(all.take(i as int) =~= all);
                Step::Finished(found_entries)
            },
        }
    }

    /// Every key of the store, in the order in which the store hands the
    /// documents over.
    pub fn get_keys(&self, replies: &[Reply]) -> (step: Step<Vec<String>>)
        ensures
            step@ == self@.get_keys(replies.deep_view()),
    {
        if replies.len() == 0 {
            return Step::Perform(
                Request::Query(
                    DocumentQuery {
                        keys: KeyFilter::Every,
                        store_id: self.copy_store_id(),
                        cross_partition: true,
                        max_item_count: None,
                    },
                ),
            );
        }
        match read_stream(replies) {
            Step::Perform(request) => Step::Perform(request),
            Step::Failed(reported) => Step::Failed(reported),
            Step::Finished(documents) => {
                let ghost all = documents.deep_view();
                let mut keys: Vec<String> = Vec::new();
                let mut i: usize = 0;
                assert(keys.deep_view() =~= ids(all.take(0)));
                while i < documents.len()
                    invariant
                        i <= documents.len(),
                        all == documents.deep_view(),
                        keys.deep_view() == ids(all.take(i as int)),
                    decreases documents.len() - i,
                {
                    let ghost collected = keys;
                    let key = documents[i].id.clone();
                    keys.push(key);
                    proof {
                        lemma_push_deep_view(collected, keys, key);
                        assert(all.take(i + 1) =~= all.take(i as int).push(all[i as int]));
                        assert(keys.deep_view() =~= ids(all.take(i + 1)));
                    }
                    i = i + 1;
                }
                assert(all.take(i as int) =~= all);
                Step::Finished(keys)
            },
        }
    }

    /// Puts each value under its key, one write after the other, in the order
    /// given. The first write that fails ends the operation: the writes before
    /// it stay, those after it are not made.
    pub fn set_many(&self, key_values: &[(String, Vec<u8>)], replies: &[Reply]) -> (step: Step<()>)
        ensures
            step@ == self@.set_many(key_values.deep_view(), replies.deep_view()),
    {
        let ghost pairs = key_values.deep_view();
        let ghost all = replies.deep_view();
        let mut i: usize = 0;
        assert(pairs.skip(0) =~= pairs && all.skip(0) =~= all);
        while i < key_values.len()
            invariant
                i <= key_values.len(),
                i <= replies.len(),
                pairs == key_values.deep_view(),
                all == replies.deep_view(),
                self@.set_many(pairs, all) == self@.set_many(
                    pairs.skip(i as int),
                    all.skip(i as int),
                ),
            decreases key_values.len() - i,
        {
            let rest = slice_subrange(replies, i, replies.len());
            assert(rest.deep_view() =~= all.skip(i as int));
            let key_value = &key_values[i];
            assert(key_value.1.deep_view() =~= key_value.1@);
            match self.set(key_value.0.as_str(), key_value.1.as_slice(), rest) {
                Step::Finished(_) => {},
                Step::Perform(request) => {
                    return Step::Perform(request);
                },
                Step::Failed(reported) => {
                    return Step::Failed(reported);
                },
            }
            assert(pairs.skip(i as int).skip(1) =~= pairs.skip(i + 1));
            assert(all.skip(i as int).skip(1) =~= all.skip(i + 1));
            i = i + 1;
        }
        Step::Finished(())
    }

    /// Removes each key, one after the other, in the order given, as
    /// [`KeyValueAzureCosmos::delete`] does. The first request that fails ends
    /// the operation: the keys before it are removed, those after it are not
    /// looked at.
    pub fn delete_many(&self, keys: &[String], replies: &[Reply]) -> (step: Step<()>)
        ensures
            step@ == self@.delete_many(keys.deep_view(), replies.deep_view()),
    {
        let ghost wanted = keys.deep_view();
        let ghost all = replies.deep_view();
        let mut i: usize = 0;
        let mut used: usize = 0;
        assert(wanted.skip(0) =~= wanted && all.skip(0) =~= all);
        while i < keys.len()
            invariant
                i <= keys.len(),
                used <= replies.len(),
                wanted == keys.deep_view(),
                all == replies.deep_view(),
                self@.delete_many(wanted, all) == self@.delete_many(
                    wanted.skip(i as int),
                    all.skip(used as int),
                ),
            decreases keys.len() - i,
        {
            let rest = slice_subrange(replies, used, replies.len());
            assert(rest.deep_view() =~= all.skip(used as int));
            match self.delete(keys[i].as_str(), rest) {
                Step::Finished(_) => {},
                Step::Perform(request) => {
                    return Step::Perform(request);
                },
                Step::Failed(reported) => {
                    return Step::Failed(reported);
                },
            }
            let removed = match &replies[used] {
                Reply::Page(documents) => documents.len() > 0,
                _ => false,
            };
            assert(removed == found(all.skip(used as int)[0]));
            assert(wanted.skip(i as int).skip(1) =~= wanted.skip(i + 1));
            if removed {
                assert(all.skip(used as int).skip(2) =~= all.skip(used + 2));
                used = used + 2;
            } else {
                assert(all.skip(used as int).skip(1) =~= all.skip(used + 1));
                used = used + 1;
            }
            i = i + 1;
        }
        Step::Finished(())
    }
}

} // verus!
