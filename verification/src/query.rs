//! The queries that the adapter sends, and their text.
//!
//! A key or a store id is written into the query text as a string literal:
//! between single quotes, with a backslash before each single quote and each
//! backslash that it holds ([`escaped`]). A value without these two characters
//! stands between the quotes as it is. Nothing is bound as a parameter.
//!
//! With the escapes, a value can neither end its literal nor add to the
//! query, and the text tells the query
//! ([`crate::quoting::law_text_tells_query`]). One question stays open: what
//! is owed for keys that hold a quote or a backslash. They reach the database
//! in escaped form only, so an entry with such a key is found again only if
//! the database undoes the escapes as its query language says it does.

use crate::pair::PairView;
use vstd::prelude::*;

verus! {

/// Which keys a query asks for.
#[derive(Debug, PartialEq, Eq)]
pub enum KeyFilter {
    /// Every key.
    Every,
    /// This key.
    Is(String),
    /// Any of these keys.
    In(Vec<String>),
}

/// What a [`KeyFilter`] stands for in specifications.
pub enum KeyFilterView {
    Every,
    Is(Seq<char>),
    In(Seq<Seq<char>>),
}

impl View for KeyFilter {
    type V = KeyFilterView;

    open spec fn view(&self) -> KeyFilterView {
        match self {
            KeyFilter::Every => KeyFilterView::Every,
            KeyFilter::Is(key) => KeyFilterView::Is(key@),
            KeyFilter::In(keys) => KeyFilterView::In(keys.deep_view()),
        }
    }
}

impl KeyFilterView {
    /// Whether the filter lets a document with this key through.
    pub open spec fn admits(self, id: Seq<char>) -> bool {
        match self {
            KeyFilterView::Every => true,
            KeyFilterView::Is(key) => id == key,
            KeyFilterView::In(keys) => keys.contains(id),
        }
    }
}

/// A query for documents of the collection.
#[derive(Debug, PartialEq, Eq)]
pub struct DocumentQuery {
    /// The keys asked for.
    pub keys: KeyFilter,
    /// The store to which the query is confined, if any.
    pub store_id: Option<String>,
    /// Whether the query may run over more than one partition.
    pub cross_partition: bool,
    /// The most documents that a page of results may hold, if there is a limit.
    pub max_item_count: Option<i32>,
}

/// What a [`DocumentQuery`] stands for in specifications.
pub struct DocumentQueryView {
    pub keys: KeyFilterView,
    pub store_id: Option<Seq<char>>,
    pub cross_partition: bool,
    pub max_item_count: Option<i32>,
}

impl View for DocumentQuery {
    type V = DocumentQueryView;

    open spec fn view(&self) -> DocumentQueryView {
        DocumentQueryView {
            keys: self.keys@,
            store_id: self.store_id.deep_view(),
            cross_partition: self.cross_partition,
            max_item_count: self.max_item_count,
        }
    }
}

/// Whether the character is written with a backslash before it: the single
/// quote, which would end the literal, and the backslash itself.
pub open spec fn needs_escape(c: char) -> bool {
    c == '\'' || c == '\\'
}

/// The character as it stands in a string literal.
pub open spec fn escaped_char(c: char) -> Seq<char> {
    if needs_escape(c) {
        seq!['\\', c]
    } else {
        seq![c]
    }
}

/// The value as it stands in a string literal: each of its characters, with a
/// backslash before each single quote and each backslash.
pub open spec fn escaped(value: Seq<char>) -> Seq<char>
    decreases value.len(),
{
    if value.len() == 0 {
        Seq::empty()
    } else {
        escaped_char(value[0]) + escaped(value.skip(1))
    }
}

/// The value as a string literal: escaped, between single quotes.
pub open spec fn quoted(value: Seq<char>) -> Seq<char> {
    "'"@ + escaped(value) + "'"@
}

/// A value that has grown by one character has grown, in a literal, by that
/// character as it stands in a literal.
pub proof fn lemma_escaped_push(value: Seq<char>, c: char)
    ensures
        escaped(value.push(c)) == escaped(value) + escaped_char(c),
    decreases value.len(),
{
    if value.len() == 0 {
        let one = value.push(c);
        assert(one[0] == c);
        assert(one.skip(1) =~= Seq::<char>::empty());
        assert(escaped(one.skip(1)) =~= Seq::<char>::empty());
        assert(escaped(value) =~= Seq::<char>::empty());
        assert(escaped(one) =~= escaped(value) + escaped_char(c));
    } else {
        lemma_escaped_push(value.skip(1), c);
        assert(value.push(c).skip(1) =~= value.skip(1).push(c));
        assert(escaped(value.push(c)) =~= escaped(value) + escaped_char(c));
    }
}

/// `String::push` appends the character to the end of the string, as its
/// documentation says.
pub assume_specification[ String::push ](text: &mut String, ch: char)
    ensures
        final(text)@ == old(text)@.push(ch),
;

/// Appends `value` to `query` as a string literal.
pub fn append_quoted(query: &mut String, value: &str)
    ensures
        final(query)@ == old(query)@ + quoted(value@),
{
    let ghost before = query@;
    query.append("'");
    for c in it: value.chars()
        invariant
            it.seq() == value@,
            query@ == before + "'"@ + escaped(value@.take(it.index() as int)),
    {
        proof {
            lemma_escaped_push(value@.take(it.index() as int), c);
            assert(value@.take(it.index() + 1) =~= value@.take(it.index() as int).push(c));
        }
        if c == '\'' || c == '\\' {
            query.push('\\');
        }
        query.push(c);
    }
    assert(value@.take(value@.len() as int) =~= value@);
    query.append("'");
}

/// The condition that confines a query to one store: nothing without a store
/// id, else ` WHERE c.store_id='..'`, or ` AND c.store_id='..'` where the query
/// has a condition already, with the store id as a string literal.
pub open spec fn store_condition(
    store_id: Option<Seq<char>>,
    condition_already_exists: bool,
) -> Seq<char> {
    match store_id {
        Some(s) => (if condition_already_exists {
            " AND"@
        } else {
            " WHERE"@
        }) + " c.store_id="@ + quoted(s),
        None => Seq::empty(),
    }
}

/// The keys of an `IN` list: each as a string literal, a comma and a space
/// between two of them.
pub open spec fn in_clause(keys: Seq<Seq<char>>) -> Seq<char>
    decreases keys.len(),
{
    if keys.len() == 0 {
        Seq::empty()
    } else if keys.len() == 1 {
        quoted(keys[0])
    } else {
        in_clause(keys.drop_last()) + ", "@ + quoted(keys.last())
    }
}

/// The text of the query for one key.
pub open spec fn point_query_text(key: Seq<char>, store_id: Option<Seq<char>>) -> Seq<char> {
    "SELECT * FROM c WHERE c.id="@ + quoted(key) + store_condition(store_id, true)
}

/// The text of the query for every key.
pub open spec fn scan_query_text(store_id: Option<Seq<char>>) -> Seq<char> {
    "SELECT * FROM c"@ + store_condition(store_id, false)
}

/// The text of the query for a list of keys.
pub open spec fn in_query_text(keys: Seq<Seq<char>>, store_id: Option<Seq<char>>) -> Seq<char> {
    "SELECT * FROM c WHERE c.id IN ("@ + in_clause(keys) + ")"@ + store_condition(store_id, true)
}

impl DocumentQueryView {
    /// Whether the query asks for this document: its key passes the filter,
    /// and it carries the store id where the query is confined to one.
    pub open spec fn selects(self, document: PairView) -> bool {
        &&& self.keys.admits(document.id)
        &&& self.store_id is Some ==> document.store_id == self.store_id
    }

    /// The text of the query.
    pub open spec fn text(self) -> Seq<char> {
        match self.keys {
            KeyFilterView::Every => scan_query_text(self.store_id),
            KeyFilterView::Is(key) => point_query_text(key, self.store_id),
            KeyFilterView::In(keys) => in_query_text(keys, self.store_id),
        }
    }
}

/// Appends to `query` the condition that confines it to the store `store_id`.
/// Without a store id the query stays as it is.
pub fn append_store_id_condition(
    query: &mut String,
    store_id: Option<&str>,
    condition_already_exists: bool,
)
    ensures
        final(query)@ == old(query)@ + store_condition(
            store_id.deep_view(),
            condition_already_exists,
        ),
{
    if let Some(s) = store_id {
        if condition_already_exists {
            query.append(" AND");
        } else {
            query.append(" WHERE");
        }
        query.append(" c.store_id=");
        append_quoted(query, s);
    }
}

/// The text of the query for the document with the key `key`.
pub fn get_query(key: &str, store_id: Option<&str>) -> (query: String)
    ensures
        query@ == point_query_text(key@, store_id.deep_view()),
{
    let mut query = "SELECT * FROM c WHERE c.id=".to_owned();
    append_quoted(&mut query, key);
    append_store_id_condition(&mut query, store_id, true);
    query
}

/// The text of the query for every document.
pub fn get_keys_query(store_id: Option<&str>) -> (query: String)
    ensures
        query@ == scan_query_text(store_id.deep_view()),
{
    let mut query = "SELECT * FROM c".to_owned();
    append_store_id_condition(&mut query, store_id, false);
    query
}

/// The text of the query for the documents whose key is one of `keys`.
pub fn get_in_query(keys: &Vec<String>, store_id: Option<&str>) -> (query: String)
    ensures
        query@ == in_query_text(keys.deep_view(), store_id.deep_view()),
{
    let mut in_clause_text = String::new();
    let mut i: usize = 0;
    while i < keys.len()
        invariant
            i <= keys.len(),
            in_clause_text@ == in_clause(keys.deep_view().take(i as int)),
        decreases keys.len() - i,
    {
        if i > 0 {
            in_clause_text.append(", ");
        }
        append_quoted(&mut in_clause_text, keys[i].as_str());
        proof {
            let all = keys.deep_view();
            assert(all.take(i + 1).drop_last() == all.take(i as int));
            assert(all.take(i + 1).last() == keys[i as int]@);
        }
        i = i + 1;
    }
    proof {
        assert(keys.deep_view().take(i as int) == keys.deep_view());
    }
    let mut query = "SELECT * FROM c WHERE c.id IN (".to_owned();
    query.append(in_clause_text.as_str());
    query.append(")");
    append_store_id_condition(&mut query, store_id, true);
    query
}

impl DocumentQuery {
    /// The text of the query, as the database takes it.
    pub fn text(&self) -> (text: String)
        ensures
            text@ == self@.text(),
    {
        let store_id = match &self.store_id {
            Some(s) => Some(s.as_str()),
            None => None,
        };
        match &self.keys {
            KeyFilter::Every => get_keys_query(store_id),
            KeyFilter::Is(key) => get_query(key.as_str(), store_id),
            KeyFilter::In(keys) => get_in_query(keys, store_id),
        }
    }
}

} // verus!
