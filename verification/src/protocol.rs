//! What the adapter asks of the document store, and what the store answers.
//!
//! The adapter holds no connection. An operation is a function of the replies
//! that the store has given so far: it says which request to perform next, or
//! what the operation returns. Whoever holds the connection calls the
//! operation with no replies, performs the request that comes back, adds the
//! store's reply to the list and calls again, until the operation ends.

use crate::error::{failure, log_error, Failure, FailureText};
use crate::pair::{Pair, PairView};
use crate::query::{DocumentQuery, DocumentQueryView};
use crate::views::lemma_push_deep_view;
use vstd::prelude::*;

verus! {

/// One request to the document store.
#[derive(Debug, PartialEq, Eq)]
pub enum Request {
    /// Run the query and hand over its first page of results.
    Query(DocumentQuery),
    /// Hand over the next page of the query that is running.
    NextPage,
    /// Write the document: create it, or replace the one with its key and
    /// partition key.
    Upsert(Pair),
    /// Remove the document with this key from this partition.
    Delete { id: String, partition_key: String },
}

/// What a [`Request`] stands for in specifications.
pub enum RequestView {
    Query(DocumentQueryView),
    NextPage,
    Upsert(PairView),
    Delete { id: Seq<char>, partition_key: Seq<char> },
}

impl View for Request {
    type V = RequestView;

    open spec fn view(&self) -> RequestView {
        match self {
            Request::Query(query) => RequestView::Query(query@),
            Request::NextPage => RequestView::NextPage,
            Request::Upsert(pair) => RequestView::Upsert(pair@),
            Request::Delete { id, partition_key } => RequestView::Delete {
                id: id@,
                partition_key: partition_key@,
            },
        }
    }
}

/// The store's answer to one request.
#[derive(Debug, PartialEq, Eq)]
pub enum Reply {
    /// A page of results of a query.
    Page(Vec<Pair>),
    /// The request was carried out and there is nothing to hand over: a write
    /// was made, or a query has no further page.
    Done,
    /// The request failed because the store holds no document, or nothing
    /// else, of the kind that the request names; the text is the debug form of
    /// the store's error.
    NotFound(String),
    /// The request failed in another way; the text is the debug form of the
    /// store's error.
    Failed(String),
}

/// What a [`Reply`] stands for in specifications.
pub enum ReplyView {
    Page(Seq<PairView>),
    Done,
    NotFound(Seq<char>),
    Failed(Seq<char>),
}

impl View for Reply {
    type V = ReplyView;

    open spec fn view(&self) -> ReplyView {
        match self {
            Reply::Page(documents) => ReplyView::Page(documents.deep_view()),
            Reply::Done => ReplyView::Done,
            Reply::NotFound(detail) => ReplyView::NotFound(detail@),
            Reply::Failed(detail) => ReplyView::Failed(detail@),
        }
    }
}

impl DeepView for Reply {
    type V = ReplyView;

    open spec fn deep_view(&self) -> ReplyView {
        self@
    }
}

impl ReplyView {
    /// The debug form of the store's error, where the reply is an error.
    pub open spec fn error(self) -> Option<Seq<char>> {
        match self {
            ReplyView::NotFound(detail) => Some(detail),
            ReplyView::Failed(detail) => Some(detail),
            _ => None,
        }
    }

    /// The documents that the reply hands over.
    pub open spec fn documents(self) -> Seq<PairView> {
        match self {
            ReplyView::Page(documents) => documents,
            _ => Seq::empty(),
        }
    }
}

impl Reply {
    /// The debug form of the store's error, where the reply is an error.
    pub fn error(&self) -> (detail: Option<&str>)
        ensures
            detail.deep_view() == self@.error(),
    {
        match self {
            Reply::NotFound(detail) => Some(detail.as_str()),
            Reply::Failed(detail) => Some(detail.as_str()),
            _ => None,
        }
    }
}

/// Where an operation stands after the replies it was given.
#[derive(Debug, PartialEq, Eq)]
pub enum Step<T> {
    /// The store is to perform this request next.
    Perform(Request),
    /// The operation has ended and returns this.
    Finished(T),
    /// The operation has ended because a request failed.
    Failed(Failure),
}

/// What a [`Step`] stands for in specifications.
pub enum StepView<V> {
    Perform(RequestView),
    Finished(V),
    Failed(FailureText),
}

impl<T: DeepView> View for Step<T> {
    type V = StepView<T::V>;

    open spec fn view(&self) -> StepView<T::V> {
        match self {
            Step::Perform(request) => StepView::Perform(request@),
            Step::Finished(output) => StepView::Finished(output.deep_view()),
            Step::Failed(reported) => StepView::Failed(reported@),
        }
    }
}

impl<V> StepView<V> {
    /// The same step, with `f` applied to what a finished operation returns.
    pub open spec fn map<W>(self, f: spec_fn(V) -> W) -> StepView<W> {
        match self {
            StepView::Perform(request) => StepView::Perform(request),
            StepView::Finished(output) => StepView::Finished(f(output)),
            StepView::Failed(reported) => StepView::Failed(reported),
        }
    }
}

/// How many replies stand before the first that is no page.
pub open spec fn leading_pages(replies: Seq<ReplyView>) -> nat
    decreases replies.len(),
{
    if replies.len() == 0 || !(replies[0] is Page) {
        0
    } else {
        1 + leading_pages(replies.skip(1))
    }
}

/// The documents of the first `n` replies, in the order in which they came.
pub open spec fn documents_of(replies: Seq<ReplyView>, n: nat) -> Seq<PairView>
    decreases n,
{
    if n == 0 {
        Seq::empty()
    } else {
        documents_of(replies, (n - 1) as nat) + replies[n - 1].documents()
    }
}

/// Where the reading of a query's results stands after `replies`, of which the
/// first answered the query itself: while only pages have come, the next page
/// is asked for; the first reply that is no page ends the reading, with all
/// documents that came before it, or with its failure.
pub open spec fn stream(replies: Seq<ReplyView>) -> StepView<Seq<PairView>> {
    let n = leading_pages(replies);
    if n >= replies.len() {
        StepView::Perform(RequestView::NextPage)
    } else {
        match replies[n as int].error() {
            Some(detail) => StepView::Failed(failure(detail)),
            None => StepView::Finished(documents_of(replies, n)),
        }
    }
}

/// If the first `n` replies are pages and the next one is not, or there is no
/// next one, then `n` is the number of leading pages.
pub proof fn lemma_leading_pages(replies: Seq<ReplyView>, n: nat)
    requires
        n <= replies.len(),
        forall|i: int| 0 <= i < n ==> replies[i] is Page,
        n < replies.len() ==> !(replies[n as int] is Page),
    ensures
        leading_pages(replies) == n,
    decreases n,
{
    if n > 0 {
        lemma_leading_pages(replies.skip(1), (n - 1) as nat);
    }
}

/// The number of pages at the head of `replies`.
pub fn count_leading_pages(replies: &[Reply]) -> (n: usize)
    ensures
        n == leading_pages(replies.deep_view()),
        n <= replies.len(),
{
    let mut n: usize = 0;
    while n < replies.len() && matches!(replies[n], Reply::Page(_))
        invariant
            n <= replies.len(),
            forall|i: int| 0 <= i < n ==> replies.deep_view()[i] is Page,
        decreases replies.len() - n,
    {
        n = n + 1;
    }
    proof {
        lemma_leading_pages(replies.deep_view(), n as nat);
    }
    n
}

/// Reads the results of a query from `replies`, of which the first answered
/// the query itself: asks for the next page while only pages have come, and
/// ends at the first reply that is no page, with the documents of the pages
/// before it, or with its failure.
pub fn read_stream<'a>(replies: &'a [Reply]) -> (step: Step<Vec<&'a Pair>>)
    ensures
        step@ == stream(replies.deep_view()),
{
    let n = count_leading_pages(replies);
    if n >= replies.len() {
        return Step::Perform(Request::NextPage);
    }
    if let Some(detail) = replies[n].error() {
        return Step::Failed(log_error(detail));
    }
    let ghost all = replies.deep_view();
    let mut documents: Vec<&'a Pair> = Vec::new();
    let mut j: usize = 0;
    assert(documents.deep_view() =~= documents_of(all, 0));
    while j < n
        invariant
            j <= n <= replies.len(),
            all == replies.deep_view(),
            documents.deep_view() == documents_of(all, j as nat),
        decreases n - j,
    {
        if let Reply::Page(page) = &replies[j] {
            let ghost before = documents_of(all, j as nat);
            let ghost handed = page.deep_view();
            let mut k: usize = 0;
            assert(before + handed.take(0) =~= before);
            while k < page.len()
                invariant
                    k <= page.len(),
                    handed == page.deep_view(),
                    documents.deep_view() == before + handed.take(k as int),
                decreases page.len() - k,
            {
                let ghost collected = documents;
                let document = &page[k];
                documents.push(document);
                proof {
                    lemma_push_deep_view(collected, documents, document);
                    assert(before + handed.take(k + 1) =~= (before + handed.take(k as int)).push(
                        handed[k as int],
                    ));
                }
                k = k + 1;
            }
            assert(handed.take(k as int) =~= handed);
            assert(all[j as int].documents() == handed);
        } else {
            assert(all[j as int].documents() =~= Seq::<PairView>::empty());
            assert(documents_of(all, (j + 1) as nat) =~= documents_of(all, j as nat));
        }
        j = j + 1;
    }
    Step::Finished(documents)
}

} // verus!
