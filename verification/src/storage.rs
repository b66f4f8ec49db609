//! The response envelope: the headers and the body of one HTTP response, as it
//! is cached and replayed.

use vstd::prelude::*;
use vstd::slice::slice_to_vec;

verus! {

/// A header as a pair of plain values: its name and its raw value.
pub type HeaderView = (Seq<char>, Seq<u8>);

/// One header of a response: its name, in the case in which it was received,
/// and its raw value.
#[derive(Clone, Debug, PartialEq, Eq)]
pub struct Header {
    pub name: String,
    pub value: Vec<u8>,
}

impl View for Header {
    type V = HeaderView;

    open spec fn view(&self) -> HeaderView {
        (self.name@, self.value@)
    }
}

impl Header {
    /// A header of the given name and value.
    pub fn new(name: &str, value: &[u8]) -> (header: Header)
        ensures
            header@ == (name@, value@),
    {
        Header { name: name.to_owned(), value: slice_to_vec(value) }
    }

    /// A copy of this header.
    pub fn duplicate(&self) -> (copy: Header)
        ensures
            copy@ == self@,
    {
        Header { name: self.name.clone(), value: slice_to_vec(self.value.as_slice()) }
    }
}

/// The headers `headers` as pairs of plain values, in order.
pub open spec fn header_views(headers: Seq<Header>) -> Seq<HeaderView> {
    Seq::new(headers.len(), |i: int| headers[i]@)
}

/// The value of the first header of `headers` that is named `name`.
pub open spec fn first_value(headers: Seq<HeaderView>, name: Seq<char>) -> Option<Seq<u8>>
    decreases headers.len(),
{
    if headers.len() == 0 {
        None
    } else if headers[0].0 == name {
        Some(headers[0].1)
    } else {
        first_value(headers.skip(1), name)
    }
}

/// No two headers of `headers` have the same name.
pub open spec fn distinct_names(headers: Seq<HeaderView>) -> bool {
    forall|i: int, j: int|
        0 <= i < j < headers.len() ==> (#[trigger] headers[i]).0 != (#[trigger] headers[j]).0
}

/// A copy of `headers`.
pub fn duplicate_headers(headers: &Vec<Header>) -> (copy: Vec<Header>)
    ensures
        header_views(copy@) == header_views(headers@),
{
    let mut copy: Vec<Header> = Vec::new();
    let mut i: usize = 0;
    while i < headers.len()
        invariant
            i <= headers.len(),
            copy@.len() == i,
            forall|k: int| 0 <= k < i ==> (#[trigger] copy@[k])@ == headers@[k]@,
        decreases headers.len() - i,
    {
        copy.push(headers[i].duplicate());
        i = i + 1;
    }
    assert(header_views(copy@) =~= header_views(headers@));
    copy
}

/// The value of the first header of `headers` that is named `name`.
pub fn find_header<'a>(headers: &'a Vec<Header>, name: &str) -> (found: Option<&'a Vec<u8>>)
    ensures
        match found {
            Some(value) => first_value(header_views(headers@), name@) == Some(value@),
            None => first_value(header_views(headers@), name@) is None,
        },
{
    let wanted = name.to_owned();
    let ghost all = header_views(headers@);
    let mut i: usize = 0;
    assert(all.skip(0) == all);
    while i < headers.len()
        invariant
            i <= headers.len(),
            all == header_views(headers@),
            wanted@ == name@,
            first_value(all, name@) == first_value(all.skip(i as int), name@),
        decreases headers.len() - i,
    {
        assert(all.skip(i as int)[0] == headers@[i as int]@);
        if headers[i].name == wanted {
            return Some(&headers[i].value);
        }
        assert(all.skip(i as int).skip(1) == all.skip(i + 1));
        i = i + 1;
    }
    None
}

/// A response envelope as plain values.
pub struct EnvelopeView {
    pub headers: Seq<HeaderView>,
    pub body: Seq<u8>,
}

/// A response envelope: the unit of caching and replay. Its headers stand for
/// a mapping from name to value: in an envelope that the engine makes no name
/// occurs twice ([`ApiStorage::wf`]). An envelope is not changed once it is
/// made: each caller gets a copy.
#[derive(Clone, Debug, PartialEq, Eq)]
pub struct ApiStorage {
    pub headers: Vec<Header>,
    pub body: Vec<u8>,
}

impl View for ApiStorage {
    type V = EnvelopeView;

    open spec fn view(&self) -> EnvelopeView {
        EnvelopeView { headers: header_views(self.headers@), body: self.body@ }
    }
}

impl ApiStorage {
    /// The envelope is well formed: no header name occurs twice.
    pub open spec fn wf(&self) -> bool {
        distinct_names(self@.headers)
    }

    /// A copy of this envelope.
    pub fn duplicate(&self) -> (copy: ApiStorage)
        ensures
            copy@ == self@,
    {
        ApiStorage {
            headers: duplicate_headers(&self.headers),
            body: slice_to_vec(self.body.as_slice()),
        }
    }

    /// The value of the header named `name`, if the envelope has one.
    pub fn header(&self, name: &str) -> (found: Option<&Vec<u8>>)
        ensures
            match found {
                Some(value) => first_value(self@.headers, name@) == Some(value@),
                None => first_value(self@.headers, name@) is None,
            },
    {
        find_header(&self.headers, name)
    }
}

} // verus!
