//! What the text of a query tells.
//!
//! Keys and store ids stand in the text as string literals. Whatever they
//! hold, the text can be read in one way only: two queries with the same text
//! ask for the same keys of the same store.

use crate::query::{
    escaped, escaped_char, in_clause, needs_escape, point_query_text, quoted, scan_query_text,
    store_condition, DocumentQueryView, KeyFilterView,
};
use vstd::prelude::*;

verus! {

/// Two texts that begin in the same way and are equal end in the same way.
pub proof fn lemma_same_prefix(prefix: Seq<char>, a: Seq<char>, b: Seq<char>)
    requires
        prefix + a == prefix + b,
    ensures
        a == b,
{
    assert(a =~= (prefix + a).skip(prefix.len() as int));
    assert(b =~= (prefix + b).skip(prefix.len() as int));
}

/// A value without a single quote and without a backslash stands in a
/// literal as it is.
pub proof fn lemma_escaped_plain(value: Seq<char>)
    requires
        forall|i: int| 0 <= i < value.len() ==> !needs_escape(#[trigger] value[i]),
    ensures
        escaped(value) == value,
    decreases value.len(),
{
    if value.len() > 0 {
        assert forall|i: int| 0 <= i < value.skip(1).len() implies !needs_escape(
            #[trigger] value.skip(1)[i],
        ) by {
            assert(value.skip(1)[i] == value[i + 1]);
        }
        lemma_escaped_plain(value.skip(1));
        assert(escaped(value) =~= value);
    }
}

/// The query for a key without a single quote and without a backslash, in a
/// store whose id has neither, reads `SELECT * FROM c WHERE c.id='<key>'`,
/// followed by ` AND c.store_id='<store id>'` where there is a store id, with
/// the key and the store id as they are.
pub proof fn law_plain_point_query(key: Seq<char>, store_id: Option<Seq<char>>)
    requires
        forall|i: int| 0 <= i < key.len() ==> !needs_escape(#[trigger] key[i]),
        store_id matches Some(s) ==> forall|i: int|
            0 <= i < s.len() ==> !needs_escape(#[trigger] s[i]),
    ensures
        point_query_text(key, store_id) == "SELECT * FROM c WHERE c.id="@ + "'"@ + key + "'"@ + (
        match store_id {
            Some(s) => " AND c.store_id="@ + "'"@ + s + "'"@,
            None => Seq::empty(),
        }),
{
    lemma_escaped_plain(key);
    match store_id {
        Some(s) => {
            lemma_escaped_plain(s);
            reveal_strlit(" AND");
            reveal_strlit(" c.store_id=");
            reveal_strlit(" AND c.store_id=");
            assert(" AND"@ + " c.store_id="@ =~= " AND c.store_id="@);
            assert(store_condition(store_id, true) =~= " AND c.store_id="@ + "'"@ + s + "'"@);
        },
        None => {},
    }
    assert(point_query_text(key, store_id) =~= "SELECT * FROM c WHERE c.id="@ + "'"@ + key
        + "'"@ + store_condition(store_id, true));
}

/// An escaped value ends at the first single quote that has no backslash
/// before it: if two texts that each begin with an escaped value and the
/// quote that closes it are equal, the values are equal, and so is what
/// follows the quotes.
pub proof fn lemma_escaped_ends(x: Seq<char>, u: Seq<char>, y: Seq<char>, v: Seq<char>)
    requires
        escaped(x) + "'"@ + u == escaped(y) + "'"@ + v,
    ensures
        x == y,
        u == v,
    decreases x.len(),
{
    reveal_strlit("'");
    let s = escaped(x) + "'"@ + u;
    let t = escaped(y) + "'"@ + v;
    if x.len() == 0 || y.len() == 0 {
        if x.len() > 0 {
            assert(s[0] == escaped_char(x[0])[0]);
            assert(t[0] == '\'');
        } else if y.len() > 0 {
            assert(t[0] == escaped_char(y[0])[0]);
            assert(s[0] == '\'');
        } else {
            assert(x =~= y);
            assert(u =~= s.skip(1));
            assert(v =~= t.skip(1));
        }
    } else {
        let rest_s = escaped(x.skip(1)) + "'"@ + u;
        let rest_t = escaped(y.skip(1)) + "'"@ + v;
        assert(s =~= escaped_char(x[0]) + rest_s);
        assert(t =~= escaped_char(y[0]) + rest_t);
        assert(s[0] == escaped_char(x[0])[0]);
        assert(t[0] == escaped_char(y[0])[0]);
        if needs_escape(x[0]) {
            assert(needs_escape(y[0]));
            assert(s[1] == x[0]);
            assert(t[1] == y[0]);
            assert(rest_s =~= s.skip(2));
            assert(rest_t =~= t.skip(2));
        } else {
            assert(!needs_escape(y[0]));
            assert(rest_s =~= s.skip(1));
            assert(rest_t =~= t.skip(1));
        }
        lemma_escaped_ends(x.skip(1), u, y.skip(1), v);
        assert(x =~= seq![x[0]] + x.skip(1));
        assert(y =~= seq![y[0]] + y.skip(1));
    }
}

/// A string literal tells its value: if two texts that each begin with a
/// literal are equal, the values are equal, and so is what follows the
/// literals.
pub proof fn lemma_quoted_ends(x: Seq<char>, u: Seq<char>, y: Seq<char>, v: Seq<char>)
    requires
        quoted(x) + u == quoted(y) + v,
    ensures
        x == y,
        u == v,
{
    let rest_x = escaped(x) + "'"@ + u;
    let rest_y = escaped(y) + "'"@ + v;
    assert(quoted(x) + u =~= "'"@ + rest_x);
    assert(quoted(y) + v =~= "'"@ + rest_y);
    lemma_same_prefix("'"@, rest_x, rest_y);
    lemma_escaped_ends(x, u, y, v);
}

/// The condition on the store id tells the store id.
pub proof fn lemma_store_condition_tells(
    a: Option<Seq<char>>,
    b: Option<Seq<char>>,
    condition_already_exists: bool,
)
    requires
        store_condition(a, condition_already_exists) == store_condition(
            b,
            condition_already_exists,
        ),
    ensures
        a == b,
{
    reveal_strlit("'");
    reveal_strlit(" AND");
    reveal_strlit(" WHERE");
    reveal_strlit(" c.store_id=");
    match (a, b) {
        (Some(s), Some(t)) => {
            let prefix = (if condition_already_exists {
                " AND"@
            } else {
                " WHERE"@
            }) + " c.store_id="@;
            lemma_same_prefix(prefix, quoted(s), quoted(t));
            assert(quoted(s) + Seq::<char>::empty() =~= quoted(s));
            assert(quoted(t) + Seq::<char>::empty() =~= quoted(t));
            lemma_quoted_ends(s, Seq::empty(), t, Seq::empty());
        },
        (Some(s), None) => {
            assert(store_condition(a, condition_already_exists).len() > 0);
        },
        (None, Some(t)) => {
            assert(store_condition(b, condition_already_exists).len() > 0);
        },
        (None, None) => {},
    }
}

/// What follows the first key of an `IN` list.
pub open spec fn after_first(keys: Seq<Seq<char>>) -> Seq<char> {
    if keys.len() <= 1 {
        Seq::empty()
    } else {
        ", "@ + in_clause(keys.skip(1))
    }
}

/// An `IN` list is its first key between quotes, then the rest of the list.
pub proof fn lemma_in_clause_first(keys: Seq<Seq<char>>)
    requires
        keys.len() >= 1,
    ensures
        in_clause(keys) == quoted(keys[0]) + after_first(keys),
    decreases keys.len(),
{
    if keys.len() == 1 {
        assert(in_clause(keys) =~= quoted(keys[0]) + after_first(keys));
    } else {
        let front = keys.drop_last();
        let rest = keys.skip(1);
        lemma_in_clause_first(front);
        assert(front[0] == keys[0]);
        assert(rest.last() == keys.last());
        if keys.len() == 2 {
            assert(rest[0] == keys.last());
            assert(in_clause(rest) == quoted(keys.last()));
            assert(after_first(front) =~= Seq::<char>::empty());
        } else {
            assert(rest.drop_last() =~= front.skip(1));
            assert(in_clause(rest) == in_clause(front.skip(1)) + ", "@ + quoted(keys.last()));
        }
        assert(in_clause(keys) =~= quoted(keys[0]) + after_first(keys));
    }
}

/// An `IN` list tells its keys: if two lists, each closed by a bracket, begin
/// two equal texts, the lists are equal, and so is what follows them.
pub proof fn lemma_in_clause_tells(
    a: Seq<Seq<char>>,
    u: Seq<char>,
    b: Seq<Seq<char>>,
    v: Seq<char>,
)
    requires
        in_clause(a) + ")"@ + u == in_clause(b) + ")"@ + v,
    ensures
        a == b,
        u == v,
    decreases a.len(),
{
    reveal_strlit("'");
    reveal_strlit(")");
    reveal_strlit(", ");
    let s = in_clause(a) + ")"@ + u;
    let t = in_clause(b) + ")"@ + v;
    if a.len() == 0 && b.len() == 0 {
        assert(a =~= b);
        assert(u =~= s.skip(1));
        assert(v =~= t.skip(1));
    } else if a.len() == 0 {
        lemma_in_clause_first(b);
        assert(s[0] == ')');
        assert(t[0] == '\'');
    } else if b.len() == 0 {
        lemma_in_clause_first(a);
        assert(t[0] == ')');
        assert(s[0] == '\'');
    } else {
        lemma_in_clause_first(a);
        lemma_in_clause_first(b);
        let rest_a = after_first(a) + ")"@ + u;
        let rest_b = after_first(b) + ")"@ + v;
        assert(s =~= quoted(a[0]) + rest_a);
        assert(t =~= quoted(b[0]) + rest_b);
        lemma_quoted_ends(a[0], rest_a, b[0], rest_b);
        if a.len() == 1 && b.len() == 1 {
            assert(a =~= b);
            assert(u =~= rest_a.skip(1));
            assert(v =~= rest_b.skip(1));
        } else if a.len() == 1 {
            assert(rest_a[0] == ')');
            assert(rest_b[0] == ',');
        } else if b.len() == 1 {
            assert(rest_b[0] == ')');
            assert(rest_a[0] == ',');
        } else {
            let tail_a = in_clause(a.skip(1)) + ")"@ + u;
            let tail_b = in_clause(b.skip(1)) + ")"@ + v;
            assert(rest_a =~= ", "@ + tail_a);
            assert(rest_b =~= ", "@ + tail_b);
            lemma_same_prefix(", "@, tail_a, tail_b);
            lemma_in_clause_tells(a.skip(1), u, b.skip(1), v);
            assert(a =~= seq![a[0]] + a.skip(1));
            assert(b =~= seq![b[0]] + b.skip(1));
        }
    }
}

/// The text of a query tells the query: two queries whose texts are equal ask
/// for the same keys of the same store, whatever the keys and the store ids
/// hold.
pub proof fn law_text_tells_query(a: DocumentQueryView, b: DocumentQueryView)
    requires
        a.text() == b.text(),
    ensures
        a.keys == b.keys,
        a.store_id == b.store_id,
{
    reveal_strlit("'");
    reveal_strlit(")");
    reveal_strlit(" AND");
    reveal_strlit(" WHERE");
    reveal_strlit(" c.store_id=");
    reveal_strlit("SELECT * FROM c");
    reveal_strlit("SELECT * FROM c WHERE c.id=");
    reveal_strlit("SELECT * FROM c WHERE c.id IN (");
    let every = "SELECT * FROM c"@;
    let point = "SELECT * FROM c WHERE c.id="@;
    let list = "SELECT * FROM c WHERE c.id IN ("@;
    match (a.keys, b.keys) {
        (KeyFilterView::Every, KeyFilterView::Every) => {
            lemma_same_prefix(
                every,
                store_condition(a.store_id, false),
                store_condition(b.store_id, false),
            );
            lemma_store_condition_tells(a.store_id, b.store_id, false);
        },
        (KeyFilterView::Is(x), KeyFilterView::Is(y)) => {
            let u = store_condition(a.store_id, true);
            let v = store_condition(b.store_id, true);
            assert(a.text() =~= point + (quoted(x) + u));
            assert(b.text() =~= point + (quoted(y) + v));
            lemma_same_prefix(point, quoted(x) + u, quoted(y) + v);
            lemma_quoted_ends(x, u, y, v);
            lemma_store_condition_tells(a.store_id, b.store_id, true);
        },
        (KeyFilterView::In(x), KeyFilterView::In(y)) => {
            let u = store_condition(a.store_id, true);
            let v = store_condition(b.store_id, true);
            assert(a.text() =~= list + (in_clause(x) + ")"@ + u));
            assert(b.text() =~= list + (in_clause(y) + ")"@ + v));
            lemma_same_prefix(list, in_clause(x) + ")"@ + u, in_clause(y) + ")"@ + v);
            lemma_in_clause_tells(x, u, y, v);
            lemma_store_condition_tells(a.store_id, b.store_id, true);
        },
        (KeyFilterView::Every, KeyFilterView::Is(y)) => {
            lemma_every_differs(a.store_id, b.text());
            assert(b.text()[24] == 'i');
        },
        (KeyFilterView::Every, KeyFilterView::In(y)) => {
            lemma_every_differs(a.store_id, b.text());
            assert(b.text()[24] == 'i');
        },
        (KeyFilterView::Is(x), KeyFilterView::Every) => {
            lemma_every_differs(b.store_id, a.text());
            assert(a.text()[24] == 'i');
        },
        (KeyFilterView::In(x), KeyFilterView::Every) => {
            lemma_every_differs(b.store_id, a.text());
            assert(a.text()[24] == 'i');
        },
        (KeyFilterView::Is(x), KeyFilterView::In(y)) => {
            assert(a.text()[26] == '=');
            assert(b.text()[26] == ' ');
        },
        (KeyFilterView::In(x), KeyFilterView::Is(y)) => {
            assert(b.text()[26] == '=');
            assert(a.text()[26] == ' ');
        },
    }
}

/// The text of the query for every key is either short, or names the store
/// id where another query names the key.
proof fn lemma_every_differs(store_id: Option<Seq<char>>, other: Seq<char>)
    requires
        scan_query_text(store_id) == other,
    ensures
        other.len() == 15 || (other.len() > 24 && other[24] == 's'),
{
    reveal_strlit("'");
    reveal_strlit(" WHERE");
    reveal_strlit(" c.store_id=");
    reveal_strlit("SELECT * FROM c");
    match store_id {
        Some(s) => {
            let text = "SELECT * FROM c"@ + (" WHERE"@ + " c.store_id="@ + quoted(s));
            assert(text =~= scan_query_text(store_id));
            assert(text[24] == " c.store_id="@[3]);
        },
        None => {
            assert(scan_query_text(store_id) =~= "SELECT * FROM c"@);
        },
    }
}

} // verus!
