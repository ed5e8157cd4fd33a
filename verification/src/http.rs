//! What the pipeline sees of a request and of a response.

use crate::config::Config;
use vstd::prelude::*;

verus! {

/// A request method.
#[derive(Clone, Copy, Debug, PartialEq, Eq, Structural)]
pub enum Method {
    Options,
    Get,
    Post,
    Put,
    Delete,
    Head,
    Trace,
    Connect,
    Patch,
}

impl Method {
    /// The method as it is written in a request line and in a header.
    pub open spec fn text(self) -> Seq<char> {
        match self {
            Method::Options => "OPTIONS"@,
            Method::Get => "GET"@,
            Method::Post => "POST"@,
            Method::Put => "PUT"@,
            Method::Delete => "DELETE"@,
            Method::Head => "HEAD"@,
            Method::Trace => "TRACE"@,
            Method::Connect => "CONNECT"@,
            Method::Patch => "PATCH"@,
        }
    }

    pub fn as_str(&self) -> (res: &'static str)
        ensures
            res@ == self.text(),
    {
        match self {
            Method::Options => "OPTIONS",
            Method::Get => "GET",
            Method::Post => "POST",
            Method::Put => "PUT",
            Method::Delete => "DELETE",
            Method::Head => "HEAD",
            Method::Trace => "TRACE",
            Method::Connect => "CONNECT",
            Method::Patch => "PATCH",
        }
    }
}

/// What travels with a request through the pipeline.
#[derive(Debug, PartialEq, Eq)]
pub struct State {
    /// The value of the request's `Origin` header, where it has one.
    pub origin: Option<String>,
    /// The configuration context, once the pipeline has attached it.
    pub config: Option<Config>,
}

pub struct StateView {
    pub origin: Option<Seq<char>>,
    pub config_file: Option<Seq<char>>,
}

impl View for State {
    type V = StateView;

    open spec fn view(&self) -> StateView {
        StateView {
            origin: match self.origin {
                Some(o) => Some(o@),
                None => None,
            },
            config_file: match self.config {
                Some(c) => Some(c@),
                None => None,
            },
        }
    }
}

impl State {
    /// The state of a request that has just come in.
    pub fn new(origin: Option<String>) -> (res: State)
        ensures
            res@.origin == (match origin {
                Some(o) => Some(o@),
                None => None,
            }),
            res@.config_file is None,
    {
        State { origin: origin, config: None }
    }
}

pub const STATUS_OK: u16 = 200;

pub const STATUS_INTERNAL_SERVER_ERROR: u16 = 500;

/// The media type of every body that a handler writes.
pub const APPLICATION_JSON: &'static str = "application/json";

/// The media type of every body that a handler writes, as text.
pub open spec fn application_json() -> Seq<char> {
    APPLICATION_JSON@
}

/// A response: status, media type, body, and the headers added on the way out.
/// The names of headers are written in lower case and compared as written.
#[derive(Debug, PartialEq, Eq)]
pub struct Response {
    pub status: u16,
    pub mime: String,
    pub body: String,
    pub headers: Vec<(String, String)>,
}

pub struct ResponseView {
    pub status: u16,
    pub mime: Seq<char>,
    pub body: Seq<char>,
    pub headers: Seq<(Seq<char>, Seq<char>)>,
}

/// The headers, each as a pair of texts.
pub open spec fn headers_view(headers: Seq<(String, String)>) -> Seq<(Seq<char>, Seq<char>)> {
    Seq::new(headers.len(), |i: int| (headers[i].0@, headers[i].1@))
}

impl View for Response {
    type V = ResponseView;

    open spec fn view(&self) -> ResponseView {
        ResponseView {
            status: self.status,
            mime: self.mime@,
            body: self.body@,
            headers: headers_view(self.headers@),
        }
    }
}

/// The headers without those of the given name.
pub open spec fn without(headers: Seq<(Seq<char>, Seq<char>)>, name: Seq<char>) -> Seq<
    (Seq<char>, Seq<char>),
>
    decreases headers.len(),
{
    if headers.len() == 0 {
        headers
    } else if headers.last().0 == name {
        without(headers.drop_last(), name)
    } else {
        without(headers.drop_last(), name).push(headers.last())
    }
}

/// The headers after a header is inserted: what was there under its name is
/// gone, and the new value stands at the end.
pub open spec fn inserted(
    headers: Seq<(Seq<char>, Seq<char>)>,
    name: Seq<char>,
    value: Seq<char>,
) -> Seq<(Seq<char>, Seq<char>)> {
    without(headers, name).push((name, value))
}

/// The value of the first header of the given name.
pub open spec fn lookup(headers: Seq<(Seq<char>, Seq<char>)>, name: Seq<char>) -> Option<
    Seq<char>,
>
    decreases headers.len(),
{
    if headers.len() == 0 {
        None
    } else if headers[0].0 == name {
        Some(headers[0].1)
    } else {
        lookup(headers.subrange(1, headers.len() as int), name)
    }
}

/// How many headers have the given name.
pub open spec fn count(headers: Seq<(Seq<char>, Seq<char>)>, name: Seq<char>) -> nat
    decreases headers.len(),
{
    if headers.len() == 0 {
        0
    } else if headers.last().0 == name {
        count(headers.drop_last(), name) + 1
    } else {
        count(headers.drop_last(), name)
    }
}

impl Response {
    /// A response without headers.
    pub fn new(status: u16, mime: &str, body: String) -> (res: Response)
        ensures
            res@ == (ResponseView {
                status: status,
                mime: mime@,
                body: body@,
                headers: Seq::empty(),
            }),
    {
        let res = Response {
            status: status,
            mime: String::from_str(mime),
            body: body,
            headers: Vec::new(),
        };
        proof {
            assert(res@.headers =~= Seq::empty());
        }
        res
    }

    /// The value of the first header of the given name.
    pub fn header(&self, name: &str) -> (res: Option<&str>)
        ensures
            match res {
                Some(v) => lookup(self@.headers, name@) == Some(v@),
                None => lookup(self@.headers, name@) is None,
            },
    {
        let wanted = String::from_str(name);
        let ghost all = self@.headers;
        proof {
            assert(all.subrange(0, all.len() as int) =~= all);
        }
        let mut i: usize = 0;
        while i < self.headers.len()
            invariant
                i <= self.headers.len(),
                all == self@.headers,
                wanted@ == name@,
                lookup(all, name@) == lookup(all.subrange(i as int, all.len() as int), name@),
            decreases self.headers.len() - i,
        {
            let ghost rest = all.subrange(i as int, all.len() as int);
            proof {
                assert(rest[0] == (self.headers[i as int].0@, self.headers[i as int].1@));
                assert(rest.subrange(1, rest.len() as int) =~= all.subrange(
                    i + 1,
                    all.len() as int,
                ));
            }
            if self.headers[i].0 == wanted {
                return Some(self.headers[i].1.as_str());
            }
            i += 1;
        }
        None
    }

    /// Inserts a header: it replaces every header of that name.
    pub fn insert_header(&mut self, name: &str, value: String)
        ensures
            final(self)@ == (ResponseView {
                headers: inserted(old(self)@.headers, name@, value@),
                ..old(self)@
            }),
    {
        let wanted = String::from_str(name);
        let ghost all = self@.headers;
        let mut kept: Vec<(String, String)> = Vec::new();
        let mut i: usize = 0;
        while i < self.headers.len()
            invariant
                i <= self.headers.len(),
                *self == *old(self),
                all == self@.headers,
                wanted@ == name@,
                headers_view(kept@) == without(all.take(i as int), name@),
            decreases self.headers.len() - i,
        {
            proof {
                let next = all.take(i + 1);
                assert(next.drop_last() =~= all.take(i as int));
                assert(next.last() == (self.headers[i as int].0@, self.headers[i as int].1@));
            }
            if !(self.headers[i].0 == wanted) {
                let ghost before = headers_view(kept@);
                kept.push((self.headers[i].0.clone(), self.headers[i].1.clone()));
                proof {
                    assert(headers_view(kept@) =~= before.push(
                        (self.headers[i as int].0@, self.headers[i as int].1@),
                    ));
                }
            }
            i += 1;
        }
        let ghost before = headers_view(kept@);
        kept.push((wanted, value));
        proof {
            assert(all.take(i as int) =~= all);
            assert(headers_view(kept@) =~= before.push((name@, value@)));
        }
        self.headers = kept;
    }
}

/// After a header is inserted, it is the only one of its name, and a lookup of
/// that name finds its value.
pub proof fn lemma_inserted_found(
    headers: Seq<(Seq<char>, Seq<char>)>,
    name: Seq<char>,
    value: Seq<char>,
)
    ensures
        lookup(inserted(headers, name, value), name) == Some(value),
        count(inserted(headers, name, value), name) == 1,
{
    lemma_without_absent(headers, name);
    lemma_lookup_push(without(headers, name), (name, value), name);
    assert(inserted(headers, name, value).drop_last() =~= without(headers, name));
}

/// Inserting a header leaves the headers of every other name as they were.
pub proof fn lemma_inserted_others(
    headers: Seq<(Seq<char>, Seq<char>)>,
    name: Seq<char>,
    value: Seq<char>,
    other: Seq<char>,
)
    requires
        other != name,
    ensures
        lookup(inserted(headers, name, value), other) == lookup(headers, other),
        count(inserted(headers, name, value), other) == count(headers, other),
{
    lemma_without_others(headers, name, other);
    lemma_lookup_push(without(headers, name), (name, value), other);
    assert(inserted(headers, name, value).drop_last() =~= without(headers, name));
}

proof fn lemma_lookup_push(
    headers: Seq<(Seq<char>, Seq<char>)>,
    last: (Seq<char>, Seq<char>),
    name: Seq<char>,
)
    ensures
        lookup(headers.push(last), name) == (match lookup(headers, name) {
            Some(v) => Some(v),
            None => if last.0 == name {
                Some(last.1)
            } else {
                None
            },
        }),
    decreases headers.len(),
{
    let all = headers.push(last);
    if headers.len() == 0 {
        assert(all.subrange(1, all.len() as int) =~= Seq::empty());
        assert(lookup(all.subrange(1, all.len() as int), name) is None);
    } else {
        assert(all[0] == headers[0]);
        let rest = headers.subrange(1, headers.len() as int);
        assert(all.subrange(1, all.len() as int) =~= rest.push(last));
        lemma_lookup_push(rest, last, name);
    }
}

proof fn lemma_lookup_absent(headers: Seq<(Seq<char>, Seq<char>)>, name: Seq<char>)
    ensures
        count(headers, name) == 0 <==> lookup(headers, name) is None,
    decreases headers.len(),
{
    if headers.len() > 0 {
        let front = headers.drop_last();
        lemma_lookup_absent(front, name);
        assert(headers =~= front.push(headers.last()));
        lemma_lookup_push(front, headers.last(), name);
    }
}

proof fn lemma_without_absent(headers: Seq<(Seq<char>, Seq<char>)>, name: Seq<char>)
    ensures
        count(without(headers, name), name) == 0,
        lookup(without(headers, name), name) is None,
    decreases headers.len(),
{
    if headers.len() > 0 {
        lemma_without_absent(headers.drop_last(), name);
        if headers.last().0 != name {
            let w = without(headers.drop_last(), name);
            assert(w.push(headers.last()).drop_last() =~= w);
        }
    }
    lemma_lookup_absent(without(headers, name), name);
}

proof fn lemma_without_others(
    headers: Seq<(Seq<char>, Seq<char>)>,
    name: Seq<char>,
    other: Seq<char>,
)
    requires
        other != name,
    ensures
        lookup(without(headers, name), other) == lookup(headers, other),
        count(without(headers, name), other) == count(headers, other),
    decreases headers.len(),
{
    if headers.len() > 0 {
        let front = headers.drop_last();
        lemma_without_others(front, name, other);
        assert(headers =~= front.push(headers.last()));
        lemma_lookup_push(front, headers.last(), other);
        if headers.last().0 != name {
            let w = without(front, name);
            lemma_lookup_push(w, headers.last(), other);
            assert(w.push(headers.last()).drop_last() =~= w);
        }
    }
}

} // verus!
