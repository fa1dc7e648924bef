//! A collection of the document store, as the adapter's laws see it.
//!
//! Nothing here runs. The collection is a map from the place of a document,
//! which is its partition key and its key, to the document. A write puts a
//! document at its place, a removal empties a place, and a query is answered
//! with the documents that it selects. The laws of the adapter are proved of
//! every store that answers in this way.

use crate::pair::PairView;
use crate::protocol::{documents_of, leading_pages, ReplyView, RequestView};
use crate::query::DocumentQueryView;
use crate::store::AdapterView;
use vstd::prelude::*;

verus! {

/// The documents of a collection, each at its place.
pub struct Collection {
    pub documents: Map<(Seq<char>, Seq<char>), PairView>,
}

/// The place of a document: its partition key and its key.
pub open spec fn place(document: PairView) -> (Seq<char>, Seq<char>) {
    (document.partition_key(), document.id)
}

impl Collection {
    /// The collection without documents.
    pub open spec fn empty() -> Collection {
        Collection { documents: Map::empty() }
    }

    /// Every document is at its own place.
    pub open spec fn wf(self) -> bool {
        forall|p: (Seq<char>, Seq<char>)| #[trigger]
            self.documents.dom().contains(p) ==> place(self.documents[p]) == p
    }

    /// Whether the collection holds this document.
    pub open spec fn holds(self, document: PairView) -> bool {
        self.documents.dom().contains(place(document)) && self.documents[place(document)]
            == document
    }

    /// The collection after the document was written.
    pub open spec fn upsert(self, document: PairView) -> Collection {
        Collection { documents: self.documents.insert(place(document), document) }
    }

    /// The collection after the removal of the document with this key from
    /// this partition.
    pub open spec fn remove(self, id: Seq<char>, partition_key: Seq<char>) -> Collection {
        Collection { documents: self.documents.remove((partition_key, id)) }
    }

    /// The collection after the request was performed.
    pub open spec fn apply(self, request: RequestView) -> Collection {
        match request {
            RequestView::Upsert(document) => self.upsert(document),
            RequestView::Delete { id, partition_key } => self.remove(id, partition_key),
            _ => self,
        }
    }

    /// The documents that the query selects.
    pub open spec fn selected(self, query: DocumentQueryView) -> Set<PairView> {
        Set::new(|document: PairView| self.holds(document) && query.selects(document))
    }

    /// Whether `reply` is an answer of this collection to `request`. A query
    /// is answered with a page of documents that it selects, which is empty
    /// only if it selects none, or with no page at all if it selects none. A
    /// write is answered when it was made. A removal is answered when it was
    /// made, or, where there is no document at the place, with the reply that
    /// there is none. Any other failure is no answer.
    pub open spec fn answers(self, request: RequestView, reply: ReplyView) -> bool {
        match request {
            RequestView::Query(query) => match reply {
                ReplyView::Page(documents) => {
                    &&& forall|i: int|
                        0 <= i < documents.len() ==> self.selected(query).contains(
                            #[trigger] documents[i],
                        )
                    &&& documents.len() == 0 ==> self.selected(query) == Set::<PairView>::empty()
                },
                ReplyView::Done => self.selected(query) == Set::<PairView>::empty(),
                _ => false,
            },
            RequestView::NextPage => false,
            RequestView::Upsert(_) => reply is Done,
            RequestView::Delete { id, partition_key } => if self.documents.dom().contains(
                (partition_key, id),
            ) {
                reply is Done
            } else {
                reply is NotFound
            },
        }
    }

    /// Whether `replies` are the whole answer of this collection to a query
    /// that is read to its end: pages, then the end, and in the pages each
    /// document that the query selects, once.
    pub open spec fn answers_in_full(self, request: RequestView, replies: Seq<ReplyView>) -> bool {
        let n = leading_pages(replies);
        &&& request matches RequestView::Query(query)
        &&& n + 1 == replies.len()
        &&& replies[n as int] is Done
        &&& documents_of(replies, n).no_duplicates()
        &&& documents_of(replies, n).to_set() == self.selected(query)
    }

    /// Whether the collection is one that the adapter can work on: an adapter
    /// without a store id has the collection to itself, so no document in it
    /// carries a store id.
    pub open spec fn serves(self, kv: AdapterView) -> bool {
        &&& self.wf()
        &&& kv.store_id is None ==> forall|p: (Seq<char>, Seq<char>)| #[trigger]
            self.documents.dom().contains(p) ==> self.documents[p].store_id is None
    }

    /// The value that the adapter's store has under `key`, if it has one.
    pub open spec fn value_of(self, kv: AdapterView, key: Seq<char>) -> Option<Seq<u8>> {
        let p = (kv.partition_key(key), key);
        if self.documents.dom().contains(p) && self.documents[p].store_id == kv.store_id {
            Some(self.documents[p].value)
        } else {
            None
        }
    }

    /// The keys that the adapter's store has.
    pub open spec fn keys_of(self, kv: AdapterView) -> Set<Seq<char>> {
        Set::new(|key: Seq<char>| self.value_of(kv, key) is Some)
    }

    /// The collection after the adapter has removed `key`: without the
    /// document of the key, if the key has a value, else as it is.
    pub open spec fn without(self, kv: AdapterView, key: Seq<char>) -> Collection {
        if self.value_of(kv, key) is Some {
            self.remove(key, kv.partition_key(key))
        } else {
            self
        }
    }

    /// The collection after the adapter has removed `keys`, one after the
    /// other.
    pub open spec fn without_all(self, kv: AdapterView, keys: Seq<Seq<char>>) -> Collection
        decreases keys.len(),
    {
        if keys.len() == 0 {
            self
        } else {
            self.without(kv, keys[0]).without_all(kv, keys.skip(1))
        }
    }

    /// Whether `replies` are the answers of this collection to the requests
    /// by which the adapter removes `keys`, one after the other: for each key
    /// the answer to its lookup, and, where the key has a value, the answer to
    /// the removal of its document.
    pub open spec fn answers_removals(
        self,
        kv: AdapterView,
        keys: Seq<Seq<char>>,
        replies: Seq<ReplyView>,
    ) -> bool
        decreases keys.len(),
    {
        if keys.len() == 0 {
            replies.len() == 0
        } else {
            let read = RequestView::Query(kv.point_query(keys[0]));
            let removal = RequestView::Delete {
                id: keys[0],
                partition_key: kv.partition_key(keys[0]),
            };
            if self.value_of(kv, keys[0]) is Some {
                &&& replies.len() >= 2
                &&& self.answers(read, replies[0])
                &&& self.answers(removal, replies[1])
                &&& self.without(kv, keys[0]).answers_removals(
                    kv,
                    keys.skip(1),
                    replies.skip(2),
                )
            } else {
                &&& replies.len() >= 1
                &&& self.answers(read, replies[0])
                &&& self.answers_removals(kv, keys.skip(1), replies.skip(1))
            }
        }
    }
}

} // verus!
