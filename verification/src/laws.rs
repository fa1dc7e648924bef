//! The laws of the adapter.
//!
//! Each law is proved of every collection that answers as
//! [`Collection`] says, and of every adapter that the collection serves. The
//! store of an adapter then behaves as a map from keys to values does.
//!
//! The collection of these laws answers the query that it is asked. A
//! database is sent the text of the query, and the text tells the query,
//! whatever the keys hold ([`crate::quoting::law_text_tells_query`]). The laws
//! hold of a database that reads the text as its query language defines it.

use crate::collection::{place, Collection};
use crate::error::failure;
use crate::pair::PairView;
use crate::protocol::{documents_of, leading_pages, ReplyView, RequestView, StepView};
use crate::store::{entries, found, ids, AdapterView};
use vstd::prelude::*;

verus! {

/// A document of the collection that the adapter's queries select is a
/// document of the adapter's store: it carries the adapter's store id, it is at
/// the place where the adapter looks for its key, and its value is the value
/// of its key.
pub proof fn lemma_selected_is_stored(kv: AdapterView, c: Collection, document: PairView)
    requires
        c.serves(kv),
        c.holds(document),
        kv.store_id is Some ==> document.store_id == kv.store_id,
    ensures
        document.store_id == kv.store_id,
        place(document) == (kv.partition_key(document.id), document.id),
        c.value_of(kv, document.id) == Some(document.value),
{
    assert(c.documents.dom().contains(place(document)));
}

/// A key that has a value in the adapter's store has a document in the
/// collection, which the query for that key selects and no other document
/// with it.
pub proof fn lemma_stored_is_selected(kv: AdapterView, c: Collection, key: Seq<char>)
    requires
        c.serves(kv),
        c.value_of(kv, key) is Some,
    ensures
        ({
            let document = c.documents[(kv.partition_key(key), key)];
            &&& c.holds(document)
            &&& document.id == key
            &&& document.store_id == kv.store_id
            &&& Some(document.value) == c.value_of(kv, key)
            &&& c.selected(kv.point_query(key)) == set![document]
        }),
{
    let p = (kv.partition_key(key), key);
    let document = c.documents[p];
    assert(c.documents.dom().contains(p));
    assert(place(document) == p);
    assert forall|other: PairView|
        c.selected(kv.point_query(key)).contains(other) implies other == document by {
        lemma_selected_is_stored(kv, c, other);
    }
    assert(c.selected(kv.point_query(key)).contains(document));
    assert(c.selected(kv.point_query(key)) =~= set![document]);
}

/// A key without a value in the adapter's store has no document that the
/// query for that key selects.
pub proof fn lemma_absent_is_not_selected(kv: AdapterView, c: Collection, key: Seq<char>)
    requires
        c.serves(kv),
        c.value_of(kv, key) is None,
    ensures
        c.selected(kv.point_query(key)) == Set::<PairView>::empty(),
{
    assert forall|other: PairView| !c.selected(kv.point_query(key)).contains(other) by {
        if c.selected(kv.point_query(key)).contains(other) {
            lemma_selected_is_stored(kv, c, other);
        }
    }
    assert(c.selected(kv.point_query(key)) =~= Set::<PairView>::empty());
}

/// A write by the adapter leaves the collection one that serves the adapter;
/// the key written has the value written, and every other key of the store has
/// the value that it had.
pub proof fn law_set(
    kv: AdapterView,
    c: Collection,
    key: Seq<char>,
    value: Seq<u8>,
    write: RequestView,
)
    requires
        c.serves(kv),
        kv.set(key, value, Seq::empty()) == StepView::<()>::Perform(write),
    ensures
        c.apply(write).serves(kv),
        c.apply(write).value_of(kv, key) == Some(value),
        forall|other: Seq<char>|
            other != key ==> #[trigger] c.apply(write).value_of(kv, other) == c.value_of(
                kv,
                other,
            ),
        c.apply(write).keys_of(kv) == c.keys_of(kv).insert(key),
{
    let after = c.apply(write);
    let document = kv.document(key, value);
    assert(after == c.upsert(document));
    assert(place(document) == (kv.partition_key(key), key));
    assert forall|p: (Seq<char>, Seq<char>)| #[trigger]
        after.documents.dom().contains(p) implies place(after.documents[p]) == p by {
        if p != place(document) {
            assert(c.documents.dom().contains(p));
        }
    }
    if kv.store_id is None {
        assert forall|p: (Seq<char>, Seq<char>)| #[trigger]
            after.documents.dom().contains(p) implies after.documents[p].store_id is None by {
            if p != place(document) {
                assert(c.documents.dom().contains(p));
            }
        }
    }
    assert forall|other: Seq<char>| other != key implies #[trigger] after.value_of(kv, other)
        == c.value_of(kv, other) by {
        assert((kv.partition_key(other), other) != place(document));
    }
    assert(after.keys_of(kv) =~= c.keys_of(kv).insert(key)) by {
        assert forall|k: Seq<char>|
            after.keys_of(kv).contains(k) <==> c.keys_of(kv).insert(key).contains(k) by {
            if k != key {
                assert(after.value_of(kv, k) == c.value_of(kv, k));
            }
        }
    }
}

/// What `get` returns is the value that the store has under the key, and
/// nothing where it has none.
pub proof fn law_get(
    kv: AdapterView,
    c: Collection,
    key: Seq<char>,
    read: RequestView,
    reply: ReplyView,
)
    requires
        c.serves(kv),
        kv.get(key, Seq::empty()) == StepView::<Option<Seq<u8>>>::Perform(read),
        c.answers(read, reply),
    ensures
        kv.get(key, seq![reply]) == StepView::Finished(c.value_of(kv, key)),
        kv.key_exists(key, seq![reply]) == StepView::Finished(c.value_of(kv, key) is Some),
{
    let query = kv.point_query(key);
    assert(read == RequestView::Query(query));
    if c.value_of(kv, key) is Some {
        lemma_stored_is_selected(kv, c, key);
        let document = c.documents[(kv.partition_key(key), key)];
        assert(c.selected(query).contains(document));
        match reply {
            ReplyView::Page(documents) => {
                assert(documents.len() > 0);
                assert(c.selected(query).contains(documents[0]));
            },
            _ => {},
        }
    } else {
        lemma_absent_is_not_selected(kv, c, key);
        match reply {
            ReplyView::Page(documents) => {
                if documents.len() > 0 {
                    assert(c.selected(query).contains(documents[0]));
                }
            },
            _ => {},
        }
    }
}

/// Round trip: after `set` has put a value under a key, `get` returns that
/// value.
pub proof fn law_set_then_get(
    kv: AdapterView,
    c: Collection,
    key: Seq<char>,
    value: Seq<u8>,
    write: RequestView,
    read: RequestView,
    reply: ReplyView,
)
    requires
        c.serves(kv),
        kv.set(key, value, Seq::empty()) == StepView::<()>::Perform(write),
        kv.get(key, Seq::empty()) == StepView::<Option<Seq<u8>>>::Perform(read),
        c.apply(write).answers(read, reply),
    ensures
        kv.get(key, seq![reply]) == StepView::Finished(Some(value)),
{
    law_set(kv, c, key, value, write);
    law_get(kv, c.apply(write), key, read, reply);
}

/// Overwrite: after two calls of `set` for one key, `get` returns the second
/// value, whatever the first was.
pub proof fn law_set_twice_then_get(
    kv: AdapterView,
    c: Collection,
    key: Seq<char>,
    first: Seq<u8>,
    second: Seq<u8>,
    first_write: RequestView,
    second_write: RequestView,
    read: RequestView,
    reply: ReplyView,
)
    requires
        c.serves(kv),
        kv.set(key, first, Seq::empty()) == StepView::<()>::Perform(first_write),
        kv.set(key, second, Seq::empty()) == StepView::<()>::Perform(second_write),
        kv.get(key, Seq::empty()) == StepView::<Option<Seq<u8>>>::Perform(read),
        c.apply(first_write).apply(second_write).answers(read, reply),
    ensures
        kv.get(key, seq![reply]) == StepView::Finished(Some(second)),
{
    law_set(kv, c, key, first, first_write);
    law_set_then_get(kv, c.apply(first_write), key, second, second_write, read, reply);
}

/// `delete` of a key that has no value ends after the lookup, without a
/// write: the collection stays as it was. A second `delete` therefore finds
/// what the first found, and ends in the same way.
pub proof fn law_delete_absent(
    kv: AdapterView,
    c: Collection,
    key: Seq<char>,
    read: RequestView,
    first: ReplyView,
    second: ReplyView,
)
    requires
        c.serves(kv),
        c.value_of(kv, key) is None,
        kv.delete(key, Seq::empty()) == StepView::<()>::Perform(read),
        c.answers(read, first),
        c.apply(read).answers(read, second),
    ensures
        kv.delete(key, seq![first]) == StepView::Finished(()),
        c.apply(read) == c,
        kv.delete(key, seq![second]) == StepView::Finished(()),
{
    law_get(kv, c, key, read, first);
    law_get(kv, c, key, read, second);
}

/// `delete` of a key that has a value asks for the removal of its document,
/// and ends when the removal was made. The key then has no value, and every
/// other key of the store has the value that it had.
pub proof fn law_delete_present(
    kv: AdapterView,
    c: Collection,
    key: Seq<char>,
    read: RequestView,
    found: ReplyView,
    removal: RequestView,
    removed: ReplyView,
)
    requires
        c.serves(kv),
        c.value_of(kv, key) is Some,
        kv.delete(key, Seq::empty()) == StepView::<()>::Perform(read),
        c.answers(read, found),
        kv.delete(key, seq![found]) == StepView::<()>::Perform(removal),
        c.answers(removal, removed),
    ensures
        kv.delete(key, seq![found, removed]) == StepView::Finished(()),
        c.apply(removal).serves(kv),
        c.apply(removal).value_of(kv, key) is None,
        forall|other: Seq<char>|
            other != key ==> #[trigger] c.apply(removal).value_of(kv, other) == c.value_of(
                kv,
                other,
            ),
        c.apply(removal).keys_of(kv) == c.keys_of(kv).remove(key),
{
    law_get(kv, c, key, read, found);
    let after = c.apply(removal);
    assert(removal == RequestView::Delete { id: key, partition_key: kv.partition_key(key) });
    assert(after == c.remove(key, kv.partition_key(key)));
    assert forall|p: (Seq<char>, Seq<char>)| #[trigger]
        after.documents.dom().contains(p) implies place(after.documents[p]) == p by {
        assert(c.documents.dom().contains(p));
    }
    if kv.store_id is None {
        assert forall|p: (Seq<char>, Seq<char>)| #[trigger]
            after.documents.dom().contains(p) implies after.documents[p].store_id is None by {
            assert(c.documents.dom().contains(p));
        }
    }
    assert(after.keys_of(kv) =~= c.keys_of(kv).remove(key));
}

/// A removal that comes too late: `delete` has found the key, and before the
/// removal is performed another writer has removed the document. The removal
/// then finds nothing. `delete` ends well all the same, the key has no value,
/// and every other key of the store has the value that it had.
pub proof fn law_delete_raced(
    kv: AdapterView,
    c: Collection,
    later: Collection,
    key: Seq<char>,
    read: RequestView,
    found: ReplyView,
    removal: RequestView,
    reply: ReplyView,
)
    requires
        c.serves(kv),
        c.value_of(kv, key) is Some,
        kv.delete(key, Seq::empty()) == StepView::<()>::Perform(read),
        c.answers(read, found),
        kv.delete(key, seq![found]) == StepView::<()>::Perform(removal),
        later.serves(kv),
        later.value_of(kv, key) is None,
        later.answers(removal, reply),
    ensures
        kv.delete(key, seq![found, reply]) == StepView::Finished(()),
        later.apply(removal).serves(kv),
        later.apply(removal).value_of(kv, key) is None,
        forall|other: Seq<char>|
            other != key ==> #[trigger] later.apply(removal).value_of(kv, other)
                == later.value_of(kv, other),
{
    law_get(kv, c, key, read, found);
    let after = later.apply(removal);
    assert(removal == RequestView::Delete { id: key, partition_key: kv.partition_key(key) });
    assert(after == later.remove(key, kv.partition_key(key)));
    assert forall|p: (Seq<char>, Seq<char>)| #[trigger]
        after.documents.dom().contains(p) implies place(after.documents[p]) == p by {
        assert(later.documents.dom().contains(p));
    }
    if kv.store_id is None {
        assert forall|p: (Seq<char>, Seq<char>)| #[trigger]
            after.documents.dom().contains(p) implies after.documents[p].store_id is None by {
            assert(later.documents.dom().contains(p));
        }
    }
}

/// The law of `delete`, whatever the store held: a `delete` that is answered
/// ends well, and a `get` after it finds nothing under the key.
pub proof fn law_delete_then_get(
    kv: AdapterView,
    c: Collection,
    key: Seq<char>,
    replies: Seq<ReplyView>,
    after: Collection,
    read: RequestView,
    reply: ReplyView,
)
    requires
        c.serves(kv),
        kv.get(key, Seq::empty()) == StepView::<Option<Seq<u8>>>::Perform(read),
        replies.len() >= 1,
        c.answers(read, replies[0]),
        c.value_of(kv, key) is None ==> replies.len() == 1 && after == c,
        c.value_of(kv, key) is Some ==> replies.len() == 2 && replies[1] is Done && after
            == c.remove(key, kv.partition_key(key)),
        after.answers(read, reply),
    ensures
        kv.delete(key, replies) == StepView::Finished(()),
        kv.get(key, seq![reply]) == StepView::Finished(None::<Seq<u8>>),
{
    law_get(kv, c, key, read, replies[0]);
    if c.value_of(kv, key) is Some {
        let removal = RequestView::Delete { id: key, partition_key: kv.partition_key(key) };
        assert(seq![replies[0]] =~= replies.take(1));
        assert(kv.delete(key, seq![replies[0]]) == StepView::<()>::Perform(removal));
        assert(seq![replies[0], replies[1]] =~= replies);
        law_delete_present(kv, c, key, read, replies[0], removal, replies[1]);
    } else {
        assert(seq![replies[0]] =~= replies);
    }
    law_get(kv, after, key, read, reply);
}

/// Isolation: a write by an adapter with one store id changes nothing of the
/// store of an adapter with another store id. What `get` returns there for
/// any key is what the store held before the write.
pub proof fn law_tenant_isolation(
    writer: AdapterView,
    reader: AdapterView,
    c: Collection,
    key: Seq<char>,
    value: Seq<u8>,
    write: RequestView,
    wanted: Seq<char>,
    read: RequestView,
    reply: ReplyView,
)
    requires
        c.wf(),
        writer.store_id is Some,
        reader.store_id is Some,
        writer.store_id != reader.store_id,
        writer.set(key, value, Seq::empty()) == StepView::<()>::Perform(write),
        reader.get(wanted, Seq::empty()) == StepView::<Option<Seq<u8>>>::Perform(read),
        c.apply(write).answers(read, reply),
    ensures
        c.apply(write).value_of(reader, wanted) == c.value_of(reader, wanted),
        reader.get(wanted, seq![reply]) == StepView::Finished(c.value_of(reader, wanted)),
{
    law_set(writer, c, key, value, write);
    let after = c.apply(write);
    assert(after.serves(reader));
    assert(place(writer.document(key, value)) != (reader.partition_key(wanted), wanted));
    law_get(reader, after, wanted, read, reply);
}

/// What `get_many` returns: one entry for each of the keys asked for that has
/// a value, with that value, and no entry for a key without one.
pub proof fn law_get_many(
    kv: AdapterView,
    c: Collection,
    keys: Seq<Seq<char>>,
    read: RequestView,
    replies: Seq<ReplyView>,
) -> (found: Seq<(Seq<char>, Option<Seq<u8>>)>)
    requires
        c.serves(kv),
        kv.get_many(keys, Seq::empty()) == StepView::<Seq<(Seq<char>, Option<Seq<u8>>)>>::Perform(
            read,
        ),
        c.answers_in_full(read, replies),
    ensures
        kv.get_many(keys, replies) == StepView::Finished(found),
        forall|entry: (Seq<char>, Option<Seq<u8>>)|
            found.contains(entry) <==> keys.contains(entry.0) && entry.1 is Some && entry.1
                == c.value_of(kv, entry.0),
        forall|i: int, j: int| 0 <= i < j < found.len() ==> found[i].0 != found[j].0,
{
    let query = kv.list_query(keys);
    let n = leading_pages(replies);
    let documents = documents_of(replies, n);
    let found = entries(documents);
    assert(read == RequestView::Query(query));
    assert forall|i: int| 0 <= i < documents.len() implies c.holds(#[trigger] documents[i])
        && keys.contains(documents[i].id) && c.value_of(kv, documents[i].id) == Some(
        documents[i].value,
    ) && place(documents[i]) == (kv.partition_key(documents[i].id), documents[i].id) by {
        assert(documents.to_set().contains(documents[i]));
        assert(c.selected(query).contains(documents[i]));
        lemma_selected_is_stored(kv, c, documents[i]);
    }
    assert forall|entry: (Seq<char>, Option<Seq<u8>>)|
        found.contains(entry) <==> keys.contains(entry.0) && entry.1 is Some && entry.1
            == c.value_of(kv, entry.0) by {
        if found.contains(entry) {
            let i = choose|i: int| 0 <= i < found.len() && found[i] == entry;
            assert(entry == (documents[i].id, Some(documents[i].value)));
        }
        if keys.contains(entry.0) && entry.1 is Some && entry.1 == c.value_of(kv, entry.0) {
            lemma_stored_is_selected(kv, c, entry.0);
            let document = c.documents[(kv.partition_key(entry.0), entry.0)];
            assert(c.selected(query).contains(document));
            assert(documents.to_set().contains(document));
            let i = choose|i: int| 0 <= i < documents.len() && documents[i] == document;
            assert(found[i] == entry);
        }
    }
    assert forall|i: int, j: int| 0 <= i < j < found.len() implies found[i].0 != found[j].0 by {
        if found[i].0 == found[j].0 {
            assert(place(documents[i]) == place(documents[j]));
            assert(documents[i] == documents[j]);
        }
    }
    found
}

/// `get_many` leaves out the keys that have no value: of two keys of which
/// only the first has one, the result holds the first with its value, and
/// nothing else.
pub proof fn law_get_many_omits_absent(
    kv: AdapterView,
    c: Collection,
    present: Seq<char>,
    absent: Seq<char>,
    read: RequestView,
    replies: Seq<ReplyView>,
)
    requires
        c.serves(kv),
        c.value_of(kv, present) is Some,
        c.value_of(kv, absent) is None,
        kv.get_many(seq![present, absent], Seq::empty()) == StepView::<
            Seq<(Seq<char>, Option<Seq<u8>>)>,
        >::Perform(read),
        c.answers_in_full(read, replies),
    ensures
        kv.get_many(seq![present, absent], replies) == StepView::Finished(
            seq![(present, c.value_of(kv, present))],
        ),
{
    let keys = seq![present, absent];
    let found = law_get_many(kv, c, keys, read, replies);
    let entry = (present, c.value_of(kv, present));
    assert(keys[0] == present);
    assert(keys.contains(present));
    assert(found.contains(entry));
    assert forall|i: int| 0 <= i < found.len() implies found[i] == entry by {
        assert(found.contains(found[i]));
        assert(keys.contains(found[i].0));
    }
    if found.len() > 1 {
        assert(found[0].0 != found[1].0);
    }
    assert(found =~= seq![entry]);
}

/// Completeness: what `get_keys` returns is every key of the store, once.
pub proof fn law_get_keys(
    kv: AdapterView,
    c: Collection,
    read: RequestView,
    replies: Seq<ReplyView>,
) -> (keys: Seq<Seq<char>>)
    requires
        c.serves(kv),
        kv.get_keys(Seq::empty()) == StepView::<Seq<Seq<char>>>::Perform(read),
        c.answers_in_full(read, replies),
    ensures
        kv.get_keys(replies) == StepView::Finished(keys),
        keys.to_set() == c.keys_of(kv),
        keys.no_duplicates(),
{
    let query = kv.scan_query();
    let n = leading_pages(replies);
    let documents = documents_of(replies, n);
    let keys = ids(documents);
    assert(read == RequestView::Query(query));
    assert forall|i: int| 0 <= i < documents.len() implies c.holds(#[trigger] documents[i])
        && c.value_of(kv, documents[i].id) is Some && place(documents[i]) == (
        kv.partition_key(documents[i].id),
        documents[i].id,
    ) by {
        assert(documents.to_set().contains(documents[i]));
        assert(c.selected(query).contains(documents[i]));
        lemma_selected_is_stored(kv, c, documents[i]);
    }
    assert forall|key: Seq<char>| keys.to_set().contains(key) <==> c.keys_of(kv).contains(
        key,
    ) by {
        if keys.to_set().contains(key) {
            let i = choose|i: int| 0 <= i < keys.len() && keys[i] == key;
            assert(key == documents[i].id);
        }
        if c.keys_of(kv).contains(key) {
            lemma_stored_is_selected(kv, c, key);
            let document = c.documents[(kv.partition_key(key), key)];
            assert(c.selected(query).contains(document));
            assert(documents.to_set().contains(document));
            let i = choose|i: int| 0 <= i < documents.len() && documents[i] == document;
            assert(keys[i] == key);
        }
    }
    assert(keys.to_set() =~= c.keys_of(kv));
    assert forall|i: int, j: int|
        0 <= i < keys.len() && 0 <= j < keys.len() && i != j implies keys[i] != keys[j] by {
        if keys[i] == keys[j] {
            assert(place(documents[i]) == place(documents[j]));
            assert(documents[i] == documents[j]);
        }
    }
    keys
}

/// After three keys were set in a store that had none, `get_keys` returns
/// those three keys, in some order.
pub proof fn law_get_keys_after_sets(
    kv: AdapterView,
    a: (Seq<char>, Seq<u8>),
    b: (Seq<char>, Seq<u8>),
    c: (Seq<char>, Seq<u8>),
    writes: (RequestView, RequestView, RequestView),
    read: RequestView,
    replies: Seq<ReplyView>,
) -> (keys: Seq<Seq<char>>)
    requires
        kv.set(a.0, a.1, Seq::empty()) == StepView::<()>::Perform(writes.0),
        kv.set(b.0, b.1, Seq::empty()) == StepView::<()>::Perform(writes.1),
        kv.set(c.0, c.1, Seq::empty()) == StepView::<()>::Perform(writes.2),
        kv.get_keys(Seq::empty()) == StepView::<Seq<Seq<char>>>::Perform(read),
        Collection::empty().apply(writes.0).apply(writes.1).apply(writes.2).answers_in_full(
            read,
            replies,
        ),
    ensures
        kv.get_keys(replies) == StepView::Finished(keys),
        keys.to_set() == set![a.0, b.0, c.0],
{
    let none = Collection::empty();
    assert(none.keys_of(kv) =~= Set::<Seq<char>>::empty());
    law_set(kv, none, a.0, a.1, writes.0);
    law_set(kv, none.apply(writes.0), b.0, b.1, writes.1);
    law_set(kv, none.apply(writes.0).apply(writes.1), c.0, c.1, writes.2);
    let after = none.apply(writes.0).apply(writes.1).apply(writes.2);
    let keys = law_get_keys(kv, after, read, replies);
    assert(keys.to_set() =~= set![a.0, b.0, c.0]);
    keys
}

/// `set_many` writes the pairs in their order, each after the write before it
/// was made. After `n` writes were made it ends if there is no further pair;
/// else it asks for the write of the next pair, or, if the reply to that write
/// is a failure, it ends with the failure, and no later pair is written.
pub proof fn law_set_many(
    kv: AdapterView,
    key_values: Seq<(Seq<char>, Seq<u8>)>,
    replies: Seq<ReplyView>,
    n: int,
)
    requires
        0 <= n <= key_values.len(),
        n <= replies.len(),
        forall|i: int| 0 <= i < n ==> (#[trigger] replies[i]).error() is None,
        n < key_values.len() && n < replies.len() ==> replies[n].error() is Some,
    ensures
        kv.set_many(key_values, replies) == (if n == key_values.len() {
            StepView::Finished(())
        } else if n == replies.len() {
            StepView::Perform(RequestView::Upsert(kv.document(key_values[n].0, key_values[n].1)))
        } else {
            StepView::Failed(failure(replies[n].error()->0))
        }),
    decreases n,
{
    if n > 0 {
        assert(replies[0].error() is None);
        assert forall|i: int| 0 <= i < n - 1 implies (#[trigger] replies.skip(1)[i]).error()
            is None by {
            assert(replies.skip(1)[i] == replies[i + 1]);
        }
        law_set_many(kv, key_values.skip(1), replies.skip(1), n - 1);
    }
}

/// `delete_many` removes every key of the list: when each of its lookups and
/// removals was answered it ends well, no key of the list has a value, and
/// every other key of the store has the value that it had.
pub proof fn law_delete_many(
    kv: AdapterView,
    c: Collection,
    keys: Seq<Seq<char>>,
    replies: Seq<ReplyView>,
)
    requires
        c.serves(kv),
        c.answers_removals(kv, keys, replies),
    ensures
        kv.delete_many(keys, replies) == StepView::Finished(()),
        c.without_all(kv, keys).serves(kv),
        forall|key: Seq<char>|
            keys.contains(key) ==> #[trigger] c.without_all(kv, keys).value_of(kv, key) is None,
        forall|key: Seq<char>|
            !keys.contains(key) ==> #[trigger] c.without_all(kv, keys).value_of(kv, key)
                == c.value_of(kv, key),
    decreases keys.len(),
{
    if keys.len() > 0 {
        let first = keys[0];
        let rest = keys.skip(1);
        let next = c.without(kv, first);
        lemma_delete_one(kv, c, first, replies);
        let used: int = if c.value_of(kv, first) is Some {
            2
        } else {
            1
        };
        law_delete_many(kv, next, rest, replies.skip(used));
        let after = c.without_all(kv, keys);
        assert(after == next.without_all(kv, rest));
        assert forall|key: Seq<char>| keys.contains(key) implies #[trigger] after.value_of(kv, key)
            is None by {
            let i = choose|i: int| 0 <= i < keys.len() && keys[i] == key;
            if i > 0 {
                assert(rest[i - 1] == key);
            } else if !rest.contains(key) {
                assert(after.value_of(kv, key) == next.value_of(kv, key));
            }
        }
        assert forall|key: Seq<char>| !keys.contains(key) implies #[trigger] after.value_of(
            kv,
            key,
        ) == c.value_of(kv, key) by {
            if rest.contains(key) {
                let i = choose|i: int| 0 <= i < rest.len() && rest[i] == key;
                assert(keys[i + 1] == key);
            }
            assert(key != first);
        }
    }
}

/// The first `delete` of a `delete_many` whose requests are answered: it ends
/// well, with one reply where the key had no value and with two where it had
/// one, and leaves the collection without the key.
proof fn lemma_delete_one(
    kv: AdapterView,
    c: Collection,
    key: Seq<char>,
    replies: Seq<ReplyView>,
)
    requires
        c.serves(kv),
        replies.len() >= 1,
        c.answers(RequestView::Query(kv.point_query(key)), replies[0]),
        c.value_of(kv, key) is Some ==> replies.len() >= 2 && c.answers(
            RequestView::Delete { id: key, partition_key: kv.partition_key(key) },
            replies[1],
        ),
    ensures
        kv.delete(key, replies) == StepView::Finished(()),
        found(replies[0]) == (c.value_of(kv, key) is Some),
        c.without(kv, key).serves(kv),
        c.without(kv, key).value_of(kv, key) is None,
        forall|other: Seq<char>|
            other != key ==> #[trigger] c.without(kv, key).value_of(kv, other) == c.value_of(
                kv,
                other,
            ),
{
    let read = RequestView::Query(kv.point_query(key));
    law_get(kv, c, key, read, replies[0]);
    if c.value_of(kv, key) is Some {
        let removal = RequestView::Delete { id: key, partition_key: kv.partition_key(key) };
        law_delete_present(kv, c, key, read, replies[0], removal, replies[1]);
    }
}

/// `delete_many` goes through the keys in their order and stops at the first
/// `delete` that does not end well. When the keys before `keys[n]` were
/// removed, with the first `m` replies, the operation stands where the
/// `delete` of `keys[n]` stands with the replies that follow: it asks for what
/// that `delete` asks for, and fails as that `delete` fails, and then no later
/// key is looked at.
pub proof fn law_delete_many_stops(
    kv: AdapterView,
    c: Collection,
    keys: Seq<Seq<char>>,
    replies: Seq<ReplyView>,
    n: int,
    m: int,
)
    requires
        c.serves(kv),
        0 <= n < keys.len(),
        0 <= m <= replies.len(),
        c.answers_removals(kv, keys.take(n), replies.take(m)),
        !(kv.delete(keys[n], replies.skip(m)) is Finished),
    ensures
        kv.delete_many(keys, replies) == kv.delete(keys[n], replies.skip(m)),
    decreases n,
{
    if n == 0 {
        assert(replies.take(m).len() == 0);
        assert(replies.skip(0) =~= replies);
    } else {
        let first = keys[0];
        let done = keys.take(n);
        let answered = replies.take(m);
        assert(done[0] == first);
        assert(answered.len() >= 1);
        assert(answered[0] == replies[0]);
        let used: int = if c.value_of(kv, first) is Some {
            2
        } else {
            1
        };
        if c.value_of(kv, first) is Some {
            assert(answered[1] == replies[1]);
        }
        lemma_delete_one(kv, c, first, replies);
        assert(done.skip(1) =~= keys.skip(1).take(n - 1));
        assert(answered.skip(used) =~= replies.skip(used).take(m - used));
        assert(replies.skip(used).skip(m - used) =~= replies.skip(m));
        assert(keys.skip(1)[n - 1] == keys[n]);
        law_delete_many_stops(
            kv,
            c.without(kv, first),
            keys.skip(1),
            replies.skip(used),
            n - 1,
            m - used,
        );
    }
}

} // verus!
