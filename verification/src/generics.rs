//! Generic building blocks: a first-in, first-out queue, the lesser of two
//! values, and a request builder whose type records whether a header was
//! added.
use vstd::prelude::*;
use std::cmp::Ordering;
use vstd::std_specs::cmp::PartialOrdSpec;
use std::collections::VecDeque;
use std::marker::PhantomData;
use crate::text::{decimal, push_decimal};
use vstd::string::StringExecFns;

verus! {

/// A first-in, first-out queue.
pub struct Queue<T> {
    items: VecDeque<T>,
}

impl<T> View for Queue<T> {
    type V = Seq<T>;

    closed spec fn view(&self) -> Seq<T> {
        self.items@
    }
}

impl<T> Queue<T> {
    /// An empty queue.
    pub fn new() -> (queue: Self)
        ensures
            queue@ == Seq::<T>::empty(),
    {
        Queue { items: VecDeque::new() }
    }

    /// Adds `item` at the back.
    pub fn enqueue(&mut self, item: T)
        ensures
            final(self)@ == old(self)@.push(item),
    {
        self.items.push_back(item);
    }

    /// Takes the item at the front, if there is one.
    pub fn dequeue(&mut self) -> (item: Option<T>)
        ensures
            old(self)@.len() == 0 ==> item is None && final(self)@ == old(self)@,
            old(self)@.len() > 0 ==> item == Some(old(self)@[0]) && final(self)@ == old(self)@.skip(1),
    {
        let item = self.items.pop_front();
        assert(old(self)@.len() > 0 ==> self@ =~= old(self)@.skip(1));
        item
    }

    /// Whether the queue holds nothing.
    pub fn is_empty(&self) -> (empty: bool)
        ensures
            empty == (self@.len() == 0),
    {
        self.items.len() == 0
    }

    /// The number of items held.
    pub fn len(&self) -> (count: usize)
        ensures
            count == self@.len(),
    {
        self.items.len()
    }
}

/// Items leave a queue in the order in which they entered it: after a run
/// of items was added to an empty queue, the first to leave is the first
/// that was added.
pub proof fn lemma_queue_is_first_in_first_out<T>(items: Seq<T>, next: T)
    requires
        items.len() > 0,
    ensures
        items.push(next)[0] == items[0],
        items.push(next).skip(1) == items.skip(1).push(next),
{
    assert(items.push(next).skip(1) =~= items.skip(1).push(next));
}

/// `a` comes strictly before `b` in the order of their type.
pub open spec fn precedes<T: PartialOrd>(a: T, b: T) -> bool {
    a.partial_cmp_spec(&b) == Some(Ordering::Less)
}

/// The lesser of two values by `<`: the first where it is less than the
/// second, otherwise the second.  What `<` means is known for the types
/// whose order is specified.
pub fn min<T>(a: T, b: T) -> (lesser: T) where T: PartialOrd
    ensures
        lesser == a || lesser == b,
        T::obeys_partial_cmp_spec() ==> lesser == (if precedes(a, b) {
            a
        } else {
            b
        }),
{
    if a < b {
        a
    } else {
        b
    }
}

/// Marks a builder to which no header was added yet.
pub struct NoHeaders;

/// Marks a builder to which at least one header was added.
pub struct WithHeaders;

/// Builds a request step by step.  Only a builder with a header can send.
pub struct RequestBuilder<State> {
    url: String,
    headers: Vec<(String, String)>,
    _state: PhantomData<State>,
}

/// A request: where it goes, and its headers in the order they were added.
pub struct Request {
    pub url: String,
    pub headers: Vec<(String, String)>,
}

/// What a request or a builder holds.
pub struct RequestModel {
    pub url: Seq<char>,
    pub headers: Seq<(Seq<char>, Seq<char>)>,
}

/// The characters of each name and value of a list of headers.
pub open spec fn header_texts(headers: Seq<(String, String)>) -> Seq<(Seq<char>, Seq<char>)> {
    headers.map_values(|h: (String, String)| (h.0@, h.1@))
}

impl<State> View for RequestBuilder<State> {
    type V = RequestModel;

    closed spec fn view(&self) -> RequestModel {
        RequestModel { url: self.url@, headers: header_texts(self.headers@) }
    }
}

impl View for Request {
    type V = RequestModel;

    open spec fn view(&self) -> RequestModel {
        RequestModel { url: self.url@, headers: header_texts(self.headers@) }
    }
}

impl RequestBuilder<NoHeaders> {
    /// A builder for a request to `url`, without headers.
    pub fn new(url: String) -> (builder: Self)
        ensures
            builder@ == (RequestModel { url: url@, headers: Seq::empty() }),
    {
        let builder = RequestBuilder { url, headers: Vec::new(), _state: PhantomData };
        assert(builder@.headers =~= Seq::empty());
        builder
    }

    /// Adds the first header.
    pub fn add_header(self, key: String, value: String) -> (builder: RequestBuilder<WithHeaders>)
        ensures
            builder@ == (RequestModel { url: self@.url, headers: self@.headers.push((key@, value@)) }),
    {
        let mut headers = self.headers;
        headers.push((key, value));
        let builder = RequestBuilder { url: self.url, headers, _state: PhantomData };
        assert(builder@.headers =~= self@.headers.push((key@, value@)));
        builder
    }
}

impl RequestBuilder<WithHeaders> {
    /// Adds one more header.
    pub fn add_header(self, key: String, value: String) -> (builder: Self)
        ensures
            builder@ == (RequestModel { url: self@.url, headers: self@.headers.push((key@, value@)) }),
    {
        let mut headers = self.headers;
        headers.push((key, value));
        let builder = RequestBuilder { url: self.url, headers, _state: PhantomData };
        assert(builder@.headers =~= self@.headers.push((key@, value@)));
        builder
    }

    /// The request that was built.
    pub fn send(self) -> (request: Request)
        ensures
            request@ == self@,
    {
        Request { url: self.url, headers: self.headers }
    }
}

/// The report of a request that was carried out.
pub open spec fn execution_report(request: RequestModel) -> Seq<char> {
    "Sent request to "@ + request.url + " with "@ + decimal(request.headers.len()) + " headers"@
}

impl Request {
    /// Carries the request out and reports where it went and how many
    /// headers it had.
    pub fn execute(&self) -> (report: String)
        ensures
            report@ == execution_report(self@),
    {
        let mut report = "Sent request to ".to_string();
        report.append(self.url.as_str());
        report.append(" with ");
        push_decimal(&mut report, self.headers.len() as u64);
        report.append(" headers");
        report
    }
}

} // verus!
