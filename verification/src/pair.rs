//! The document that holds one key-value entry.

use vstd::prelude::*;

verus! {

/// What a [`Pair`] stands for in specifications.
pub struct PairView {
    pub id: Seq<char>,
    pub value: Seq<u8>,
    pub store_id: Option<Seq<char>>,
}

/// The value by which the database places the document with the key `id` of
/// the store `store_id`: the store id where there is one, the key otherwise.
pub open spec fn partition_key_of(id: Seq<char>, store_id: Option<Seq<char>>) -> Seq<char> {
    match store_id {
        Some(s) => s,
        None => id,
    }
}

/// The partition key of the document with the key `id` of the store
/// `store_id`.
pub fn partition_key_for(id: &str, store_id: &Option<String>) -> (key: String)
    ensures
        key@ == partition_key_of(id@, store_id.deep_view()),
{
    match store_id {
        Some(s) => s.clone(),
        None => id.to_owned(),
    }
}

impl PairView {
    /// The partition key of the document.
    pub open spec fn partition_key(self) -> Seq<char> {
        partition_key_of(self.id, self.store_id)
    }
}

/// One stored document: the key, its value, and the store that owns it. A
/// document of a collection that holds one store only carries no store id.
#[derive(Debug, PartialEq, Eq)]
pub struct Pair {
    pub id: String,
    pub value: Vec<u8>,
    pub store_id: Option<String>,
}

impl View for Pair {
    type V = PairView;

    open spec fn view(&self) -> PairView {
        PairView { id: self.id@, value: self.value@, store_id: self.store_id.deep_view() }
    }
}

impl DeepView for Pair {
    type V = PairView;

    open spec fn deep_view(&self) -> PairView {
        self@
    }
}

impl Pair {
    /// The partition key of this document.
    pub fn partition_key(&self) -> (key: String)
        ensures
            key@ == self@.partition_key(),
    {
        partition_key_for(self.id.as_str(), &self.store_id)
    }
}

impl Clone for Pair {
    fn clone(&self) -> (copy: Self)
        ensures
            copy@ == self@,
    {
        let store_id = match &self.store_id {
            Some(s) => Some(s.clone()),
            None => None,
        };
        Pair { id: self.id.clone(), value: self.value.clone(), store_id }
    }
}

} // verus!
