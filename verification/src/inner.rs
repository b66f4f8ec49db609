//! What one fetch produces: the upstream response is captured, its body and
//! headers are rewritten into the envelope that is served, and the engine
//! decides whether the envelope is to be stored.

use crate::error::FetchError;
use crate::json::{
    json_parsed, json_printed, law_rewrite_without_occurrence, mentions, parse_value, print_value,
    rewrite_model, rewrite_value,
};
use crate::record::{base64_fits, name_of_record, record_name};
use crate::storage::{
    distinct_names, find_header, first_value, header_views, ApiStorage, EnvelopeView, Header,
    HeaderView,
};
use crate::text::{
    bytes_occur_in, chars_occur_at, chars_occur_in, chars_of, decimal, decimal_digits, occurs_at,
    occurs_in,
};
use vstd::prelude::*;
use vstd::slice::slice_to_vec;
use vstd::utf8::encode_utf8;

verus! {

/// A response of the upstream registry, as it was received: the status code,
/// all headers in the order in which they came, and the whole body.
#[derive(Clone, Debug, PartialEq, Eq)]
pub struct UpstreamResponse {
    pub status: u16,
    pub headers: Vec<Header>,
    pub body: Vec<u8>,
}

/// What is captured of an upstream response at fetch time. `headers` are the
/// upstream headers without those that negotiate content and those that carry
/// cookies. The three content headers that may be served are captured apart.
#[derive(Clone, Debug, PartialEq, Eq)]
pub struct FetchOutcome {
    pub status: u16,
    pub headers: Vec<Header>,
    pub content_type: Option<Vec<u8>>,
    pub content_disposition: Option<Vec<u8>>,
    pub content_transfer_encoding: Option<Vec<u8>>,
    pub body: Vec<u8>,
}

/// The settings of the engine.
#[derive(Clone, Debug, PartialEq, Eq)]
pub struct ApiInner {
    /// The base URL of the upstream registry.
    pub registry_uri: String,
    /// The public base URL of this proxy, which takes the place of the
    /// upstream base URL in what is served.
    pub resulting_registry_uri: String,
    /// The directory of the cache store.
    pub cache: String,
}

/// The result of one load, shared by all callers that wait for it.
#[derive(Debug, PartialEq, Eq)]
pub struct ApiInnerResult {
    /// The envelope to serve, or the failure.
    pub result: Result<ApiStorage, FetchError>,
    /// The status with which the upstream answered, where it answered. An
    /// answer without a success status is served with its envelope and is
    /// not stored.
    pub status: Option<u16>,
    /// The name of the record under which the envelope is to be stored, if it
    /// is to be stored.
    pub record: Option<String>,
}

/// The bytes of an optional header value.
pub open spec fn value_view(value: Option<Vec<u8>>) -> Option<Seq<u8>> {
    match value {
        Some(bytes) => Some(bytes@),
        None => None,
    }
}

/// The result of a load as plain values.
pub open spec fn result_view(result: Result<ApiStorage, FetchError>) -> Result<
    EnvelopeView,
    FetchError,
> {
    match result {
        Ok(envelope) => Ok(envelope@),
        Err(error) => Err(error),
    }
}

/// The text of an optional string.
pub open spec fn text_view(text: Option<String>) -> Option<Seq<char>> {
    match text {
        Some(text) => Some(text@),
        None => None,
    }
}

/// A header of this name is left out of what is captured: the name begins
/// with `content-`, or `cookie` occurs in it.
pub open spec fn is_dropped(name: Seq<char>) -> bool {
    occurs_at(name, "content-"@, 0) || occurs_in(name, "cookie"@)
}

/// Those of `headers` that are captured, in order.
pub open spec fn kept(headers: Seq<HeaderView>) -> Seq<HeaderView>
    decreases headers.len(),
{
    if headers.len() == 0 {
        Seq::empty()
    } else if is_dropped(headers.last().0) {
        kept(headers.drop_last())
    } else {
        kept(headers.drop_last()).push(headers.last())
    }
}

/// The status is an HTTP success status.
pub open spec fn is_success(status: u16) -> bool {
    200 <= status <= 299
}

/// The content type says that the body is JSON: `json` occurs in it.
pub open spec fn claims_json(content_type: Option<Seq<u8>>) -> bool {
    content_type matches Some(value) && occurs_in(value, encode_utf8("json"@))
}

/// The header of the given name, where it has a value.
pub open spec fn optional_header(name: Seq<char>, value: Option<Seq<u8>>) -> Seq<HeaderView> {
    match value {
        Some(value) => seq![(name, value)],
        None => Seq::empty(),
    }
}

/// The headers of an envelope: the three content headers that are present,
/// and the length of the body. No other header is served.
pub open spec fn selected(
    content_type: Option<Seq<u8>>,
    content_disposition: Option<Seq<u8>>,
    content_transfer_encoding: Option<Seq<u8>>,
    body_len: nat,
) -> Seq<HeaderView> {
    optional_header("content-type"@, content_type) + optional_header(
        "content-disposition"@,
        content_disposition,
    ) + optional_header("content-transfer-encoding"@, content_transfer_encoding) + seq![
        ("content-length"@, decimal_digits(body_len)),
    ]
}

/// The headers of the envelope that is made from a response with the headers
/// `headers` and a body of `body_len` bytes.
pub open spec fn selected_from(headers: Seq<HeaderView>, body_len: nat) -> Seq<HeaderView> {
    selected(
        first_value(headers, "content-type"@),
        first_value(headers, "content-disposition"@),
        first_value(headers, "content-transfer-encoding"@),
        body_len,
    )
}

/// The JSON document `data` with `from` replaced by `to` in every string
/// value, printed again, or `None` where `data` cannot be read as JSON or the
/// rewritten document cannot be printed.
pub open spec fn rewritten_document(from: Seq<char>, to: Seq<char>, data: Seq<u8>) -> Option<
    Seq<u8>,
> {
    match json_parsed(data) {
        Some(model) => json_printed(rewrite_model(model, from, to)),
        None => None,
    }
}

/// The body that is served for a captured response: the rewritten document
/// where the content type claims JSON, and else the body as it came.
pub open spec fn served_body(
    from: Seq<char>,
    to: Seq<char>,
    content_type: Option<Seq<u8>>,
    body: Seq<u8>,
) -> Option<Seq<u8>> {
    if claims_json(content_type) {
        rewritten_document(from, to, body)
    } else {
        Some(body)
    }
}

/// What is captured of `response`.
pub open spec fn captured(response: UpstreamResponse, outcome: FetchOutcome) -> bool {
    &&& outcome.status == response.status
    &&& header_views(outcome.headers@) == kept(header_views(response.headers@))
    &&& value_view(outcome.content_type) == first_value(
        header_views(response.headers@),
        "content-type"@,
    )
    &&& value_view(outcome.content_disposition) == first_value(
        header_views(response.headers@),
        "content-disposition"@,
    )
    &&& value_view(outcome.content_transfer_encoding) == first_value(
        header_views(response.headers@),
        "content-transfer-encoding"@,
    )
    &&& outcome.body@ == response.body@
}

/// The envelope that is served for a captured response, or the error with
/// which the fetch fails.
pub open spec fn envelope_of(from: Seq<char>, to: Seq<char>, outcome: FetchOutcome) -> Result<
    EnvelopeView,
    FetchError,
> {
    match served_body(from, to, value_view(outcome.content_type), outcome.body@) {
        Some(body) => Ok(
            EnvelopeView {
                headers: selected(
                    value_view(outcome.content_type),
                    value_view(outcome.content_disposition),
                    value_view(outcome.content_transfer_encoding),
                    body.len(),
                ),
                body,
            },
        ),
        None => Err(FetchError::UpstreamParse),
    }
}

/// The envelope that is served for the upstream response `response`, or the
/// error with which the fetch fails.
pub open spec fn envelope_of_response(
    from: Seq<char>,
    to: Seq<char>,
    response: UpstreamResponse,
) -> Result<EnvelopeView, FetchError> {
    let headers = header_views(response.headers@);
    match served_body(from, to, first_value(headers, "content-type"@), response.body@) {
        Some(body) => Ok(EnvelopeView { headers: selected_from(headers, body.len()), body }),
        None => Err(FetchError::UpstreamParse),
    }
}

/// What a load of `uri` results in, given what the upstream answered:
/// `None` stands for a request that could not be completed.
pub open spec fn load_result(
    from: Seq<char>,
    to: Seq<char>,
    response: Option<UpstreamResponse>,
) -> Result<EnvelopeView, FetchError> {
    match response {
        Some(response) => envelope_of_response(from, to, response),
        None => Err(FetchError::Network),
    }
}

/// The status with which the upstream answered, where it answered.
pub open spec fn load_status(response: Option<UpstreamResponse>) -> Option<u16> {
    match response {
        Some(response) => Some(response.status),
        None => None,
    }
}

/// The name of the record in which the result of a load of `uri` is stored,
/// or `None` where nothing is stored: an envelope is stored only where the
/// upstream answered with a success status and the fetch did not fail.
pub open spec fn load_record(
    from: Seq<char>,
    to: Seq<char>,
    uri: Seq<char>,
    response: Option<UpstreamResponse>,
) -> Option<Seq<char>> {
    match response {
        Some(response) => if is_success(response.status) && envelope_of_response(
            from,
            to,
            response,
        ) is Ok && base64_fits(encode_utf8(uri).len()) {
            Some(record_name(uri))
        } else {
            None
        },
        None => None,
    }
}

/// The URL that `reqwest::Url` makes of the base URL `base` once its path is
/// set to `path`, as text, or `None` where `base` is no URL.
pub uninterp spec fn url_with_path(base: Seq<char>, path: Seq<char>) -> Option<Seq<char>>;

/// The longest base URL, in bytes, that is resolved.
pub const BASE_LIMIT: usize = 65536;

/// The longest path, in bytes, that is resolved.
pub const PATH_LIMIT: usize = 16777216;

/// The URL of `path` at the registry with the base URL `base`, or `None`
/// where `base` is no URL or one of the two is too long to be resolved.
pub open spec fn upstream_url(base: Seq<char>, path: Seq<char>) -> Option<Seq<char>> {
    if encode_utf8(base).len() <= BASE_LIMIT && encode_utf8(path).len() <= PATH_LIMIT {
        url_with_path(base, path)
    } else {
        None
    }
}

/// Calls `reqwest::Url::parse` on `base` and `set_path` with `path` on the
/// URL, and gives the URL as text. The result is named by [`url_with_path`].
/// The URL crate panics where a URL is longer than `u32::MAX` bytes; a path
/// grows at most threefold when it is set, so the limits rule that out.
#[verifier::external_body]
fn resolve(base: &str, path: &str) -> (url: Option<String>)
    requires
        encode_utf8(base@).len() <= BASE_LIMIT,
        encode_utf8(path@).len() <= PATH_LIMIT,
    ensures
        text_view(url) == url_with_path(base@, path@),
{
    let mut url = reqwest::Url::parse(base).ok()?;
    url.set_path(path);
    Some(String::from(url))
}

/// The result that the callers get once the store was told to create the
/// record: where the store failed to write, its failure takes the place of
/// the result. That the record exists already is no failure, and where no
/// record was named the store was not asked.
pub open spec fn settled(
    result: Result<EnvelopeView, FetchError>,
    record: Option<Seq<char>>,
    written: Result<(), FetchError>,
) -> Result<EnvelopeView, FetchError> {
    match (record, written) {
        (Some(_), Err(error)) => if error == FetchError::AlreadyExists {
            result
        } else {
            Err(error)
        },
        _ => result,
    }
}

/// A JSON body in whose string values the upstream base URL does not occur
/// is served as the same document, printed anew.
pub proof fn law_document_without_occurrence(from: Seq<char>, to: Seq<char>, data: Seq<u8>)
    requires
        json_parsed(data) matches Some(model) && !mentions(model, from),
    ensures
        rewritten_document(from, to, data) == json_printed(json_parsed(data)->0),
{
    law_rewrite_without_occurrence(json_parsed(data)->0, from, to);
}

/// The store as plain values: each record name with the envelope that is
/// stored under it.
pub type StoreView = Map<Seq<char>, EnvelopeView>;

/// The store after it was told to create the record that a load names for
/// its result: a record is created where one is named and none exists under
/// the name.
pub open spec fn store_after(
    store: StoreView,
    result: Result<EnvelopeView, FetchError>,
    record: Option<Seq<char>>,
) -> StoreView {
    match (result, record) {
        (Ok(envelope), Some(name)) => if store.contains_key(name) {
            store
        } else {
            store.insert(name, envelope)
        },
        _ => store,
    }
}

/// No failure is stored: where the request could not be completed, where the
/// upstream answered without a success status, or where the fetch failed,
/// the store stays as it is.
pub proof fn law_failures_are_not_stored(
    store: StoreView,
    from: Seq<char>,
    to: Seq<char>,
    uri: Seq<char>,
    response: Option<UpstreamResponse>,
)
    requires
        response is None || !is_success(response->0.status) || load_result(from, to, response)
            is Err,
    ensures
        load_record(from, to, uri, response) is None,
        store_after(store, load_result(from, to, response), load_record(from, to, uri, response))
            == store,
{
}

/// A record is made once and not changed: whatever a load results in, every
/// record of the store stays as it is.
pub proof fn law_records_are_kept(
    store: StoreView,
    result: Result<EnvelopeView, FetchError>,
    record: Option<Seq<char>>,
    name: Seq<char>,
)
    requires
        store.contains_key(name),
    ensures
        store_after(store, result, record).contains_key(name),
        store_after(store, result, record)[name] == store[name],
{
}

/// What is captured holds no header that negotiates content and none that
/// carries a cookie, and no more headers than the upstream sent.
pub proof fn law_captured_headers_are_clean(headers: Seq<HeaderView>)
    ensures
        kept(headers).len() <= headers.len(),
        forall|i: int|
            0 <= i < kept(headers).len() ==> !is_dropped((#[trigger] kept(headers)[i]).0),
    decreases headers.len(),
{
    if headers.len() > 0 {
        law_captured_headers_are_clean(headers.drop_last());
    }
}

/// The three content headers come out of the headers of an envelope as they
/// went in.
pub proof fn lemma_selected_values(
    content_type: Option<Seq<u8>>,
    content_disposition: Option<Seq<u8>>,
    content_transfer_encoding: Option<Seq<u8>>,
    body_len: nat,
)
    ensures
        first_value(
            selected(content_type, content_disposition, content_transfer_encoding, body_len),
            "content-type"@,
        ) == content_type,
        first_value(
            selected(content_type, content_disposition, content_transfer_encoding, body_len),
            "content-disposition"@,
        ) == content_disposition,
        first_value(
            selected(content_type, content_disposition, content_transfer_encoding, body_len),
            "content-transfer-encoding"@,
        ) == content_transfer_encoding,
        first_value(
            selected(content_type, content_disposition, content_transfer_encoding, body_len),
            "content-length"@,
        ) == Some(decimal_digits(body_len)),
{
    reveal_strlit("content-type");
    reveal_strlit("content-disposition");
    reveal_strlit("content-transfer-encoding");
    reveal_strlit("content-length");
    reveal_with_fuel(first_value, 5);
    let headers = selected(
        content_type,
        content_disposition,
        content_transfer_encoding,
        body_len,
    );
    assert("content-type"@.len() == 12 && "content-disposition"@.len() == 19
        && "content-transfer-encoding"@.len() == 25 && "content-length"@.len() == 14);
    assert(headers.len() >= 1);
    assert(headers.skip(1).len() == headers.len() - 1);
    if headers.len() > 1 {
        assert(headers.skip(1).skip(1).len() == headers.len() - 2);
        assert(headers.skip(1)[0] == headers[1]);
    }
    if headers.len() > 2 {
        assert(headers.skip(1).skip(1).skip(1).len() == headers.len() - 3);
        assert(headers.skip(1).skip(1)[0] == headers[2]);
    }
    if headers.len() > 3 {
        assert(headers.skip(1).skip(1).skip(1)[0] == headers[3]);
        assert(headers.skip(1).skip(1).skip(1).skip(1).len() == 0);
    }
}

/// The selection of headers is idempotent: the headers that are selected
/// from the headers of an envelope are the headers of that envelope.
pub proof fn law_selection_is_idempotent(headers: Seq<HeaderView>, body_len: nat)
    ensures
        selected_from(selected_from(headers, body_len), body_len) == selected_from(
            headers,
            body_len,
        ),
{
    lemma_selected_values(
        first_value(headers, "content-type"@),
        first_value(headers, "content-disposition"@),
        first_value(headers, "content-transfer-encoding"@),
        body_len,
    );
}

/// The headers of an envelope are an allowlist: each is one of the three
/// content headers or the content length, and none occurs twice.
pub proof fn lemma_selected_is_an_allowlist(
    content_type: Option<Seq<u8>>,
    content_disposition: Option<Seq<u8>>,
    content_transfer_encoding: Option<Seq<u8>>,
    body_len: nat,
)
    ensures
        distinct_names(
            selected(content_type, content_disposition, content_transfer_encoding, body_len),
        ),
        forall|i: int|
            0 <= i < selected(
                content_type,
                content_disposition,
                content_transfer_encoding,
                body_len,
            ).len() ==> {
                let name = (#[trigger] selected(
                    content_type,
                    content_disposition,
                    content_transfer_encoding,
                    body_len,
                )[i]).0;
                name == "content-type"@ || name == "content-disposition"@ || name
                    == "content-transfer-encoding"@ || name == "content-length"@
            },
{
    reveal_strlit("content-type");
    reveal_strlit("content-disposition");
    reveal_strlit("content-transfer-encoding");
    reveal_strlit("content-length");
    assert("content-type"@.len() == 12 && "content-disposition"@.len() == 19
        && "content-transfer-encoding"@.len() == 25 && "content-length"@.len() == 14);
}

/// No header of the upstream but the three content headers is served, with
/// the content length, and none of them twice, whatever the upstream sent.
pub proof fn law_selection_is_an_allowlist(headers: Seq<HeaderView>, body_len: nat)
    ensures
        distinct_names(selected_from(headers, body_len)),
        forall|i: int|
            0 <= i < selected_from(headers, body_len).len() ==> {
                let name = (#[trigger] selected_from(headers, body_len)[i]).0;
                name == "content-type"@ || name == "content-disposition"@ || name
                    == "content-transfer-encoding"@ || name == "content-length"@
            },
{
    lemma_selected_is_an_allowlist(
        first_value(headers, "content-type"@),
        first_value(headers, "content-disposition"@),
        first_value(headers, "content-transfer-encoding"@),
        body_len,
    );
}

/// A copy of an optional header value.
fn duplicate_value(value: Option<&Vec<u8>>) -> (copy: Option<Vec<u8>>)
    ensures
        value_view(copy) == match value {
            Some(bytes) => Some(bytes@),
            None => None,
        },
{
    match value {
        Some(bytes) => Some(slice_to_vec(bytes.as_slice())),
        None => None,
    }
}

/// Whether a header of the name `name` is left out of what is captured.
pub fn drops_header(name: &str) -> (dropped: bool)
    ensures
        dropped == is_dropped(name@),
{
    let chars = chars_of(name);
    let prefix = chars_of("content-");
    let cookie = chars_of("cookie");
    chars_occur_at(&chars, &prefix, 0) || chars_occur_in(&chars, &cookie)
}

/// Whether a status code is an HTTP success status.
pub fn status_is_success(status: u16) -> (success: bool)
    ensures
        success == is_success(status),
{
    200 <= status && status <= 299
}

/// Whether a content type says that the body is JSON.
pub fn content_is_json(content_type: &Option<Vec<u8>>) -> (json: bool)
    ensures
        json == claims_json(value_view(*content_type)),
{
    match content_type {
        Some(value) => bytes_occur_in(value.as_slice(), "json".as_bytes()),
        None => false,
    }
}

impl FetchOutcome {
    /// Captures an upstream response: the status and the body as they came,
    /// the three content headers that may be served, and of the other headers
    /// those that neither negotiate content nor carry cookies.
    pub fn capture(response: UpstreamResponse) -> (outcome: FetchOutcome)
        ensures
            captured(response, outcome),
    {
        let content_type = duplicate_value(find_header(&response.headers, "content-type"));
        let content_disposition = duplicate_value(
            find_header(&response.headers, "content-disposition"),
        );
        let content_transfer_encoding = duplicate_value(
            find_header(&response.headers, "content-transfer-encoding"),
        );
        let ghost all = header_views(response.headers@);
        let ghost before = response.headers@;
        let mut headers: Vec<Header> = Vec::new();
        assert(header_views(headers@) =~= kept(all.take(0)));
        for header in it: response.headers
            invariant
                it.seq() == before,
                all == header_views(before),
                header_views(headers@) == kept(all.take(it.index() as int)),
        {
            assert(all.take(it.index() + 1).drop_last() == all.take(it.index() as int));
            assert(all.take(it.index() + 1).last() == header@);
            let ghost so_far = header_views(headers@);
            if !drops_header(header.name.as_str()) {
                headers.push(header);
                assert(header_views(headers@) =~= so_far.push(header@));
            }
        }
        assert(all.take(before.len() as int) == all);
        FetchOutcome {
            status: response.status,
            headers,
            content_type,
            content_disposition,
            content_transfer_encoding,
            body: response.body,
        }
    }

    /// The headers of the envelope that is served with a body of `body_len`
    /// bytes: the content headers that were captured, and the content length.
    pub fn select_headers(&self, body_len: usize) -> (headers: Vec<Header>)
        ensures
            header_views(headers@) == selected(
                value_view(self.content_type),
                value_view(self.content_disposition),
                value_view(self.content_transfer_encoding),
                body_len as nat,
            ),
            distinct_names(header_views(headers@)),
    {
        proof {
            lemma_selected_is_an_allowlist(
                value_view(self.content_type),
                value_view(self.content_disposition),
                value_view(self.content_transfer_encoding),
                body_len as nat,
            );
        }
        let mut headers: Vec<Header> = Vec::new();
        match &self.content_type {
            Some(value) => headers.push(Header::new("content-type", value.as_slice())),
            None => {},
        }
        match &self.content_disposition {
            Some(value) => headers.push(Header::new("content-disposition", value.as_slice())),
            None => {},
        }
        match &self.content_transfer_encoding {
            Some(value) => headers.push(
                Header::new("content-transfer-encoding", value.as_slice()),
            ),
            None => {},
        }
        let length = decimal(body_len);
        headers.push(Header::new("content-length", length.as_slice()));
        assert(header_views(headers@) =~= selected(
            value_view(self.content_type),
            value_view(self.content_disposition),
            value_view(self.content_transfer_encoding),
            body_len as nat,
        ));
        headers
    }
}

impl ApiInner {
    /// The JSON document `data` with the upstream base URL `registry_uri`
    /// replaced by `resulting_registry_uri` in every string value. Fails where
    /// `data` cannot be read as JSON.
    pub fn modified(registry_uri: &str, resulting_registry_uri: &str, data: &[u8]) -> (out:
        Result<Vec<u8>, FetchError>)
        ensures
            match out {
                Ok(bytes) => rewritten_document(registry_uri@, resulting_registry_uri@, data@)
                    == Some(bytes@),
                Err(error) => error == FetchError::UpstreamParse && rewritten_document(
                    registry_uri@,
                    resulting_registry_uri@,
                    data@,
                ) is None,
            },
    {
        match parse_value(data) {
            Ok(value) => {
                let rewritten = rewrite_value(value, registry_uri, resulting_registry_uri);
                match print_value(&rewritten) {
                    Ok(bytes) => Ok(bytes),
                    Err(_) => Err(FetchError::UpstreamParse),
                }
            },
            Err(_) => Err(FetchError::UpstreamParse),
        }
    }

    /// Makes the envelope that is served for a captured response: the body is
    /// rewritten where the content type claims JSON, and the headers are made
    /// anew from the content headers and the length of the body.
    pub fn rewrite(&self, outcome: FetchOutcome) -> (out: Result<ApiStorage, FetchError>)
        ensures
            result_view(out) == envelope_of(
                self.registry_uri@,
                self.resulting_registry_uri@,
                outcome,
            ),
            out matches Ok(envelope) ==> envelope.wf(),
    {
        if content_is_json(&outcome.content_type) {
            match Self::modified(
                self.registry_uri.as_str(),
                self.resulting_registry_uri.as_str(),
                outcome.body.as_slice(),
            ) {
                Ok(body) => {
                    let headers = outcome.select_headers(body.len());
                    Ok(ApiStorage { headers, body })
                },
                Err(error) => Err(error),
            }
        } else {
            let headers = outcome.select_headers(outcome.body.len());
            Ok(ApiStorage { headers, body: outcome.body })
        }
    }

    /// The settings of the engine, taken from the settings of the proxy, with
    /// the cache store in the directory `cache`.
    pub fn from_config(config: &crate::config::Config, cache: &str) -> (inner: ApiInner)
        ensures
            inner.registry_uri@ == config.registry_url@,
            inner.resulting_registry_uri@ == config.self_url@,
            inner.cache@ == cache@,
    {
        ApiInner {
            registry_uri: config.registry_url.clone(),
            resulting_registry_uri: config.self_url.clone(),
            cache: cache.to_owned(),
        }
    }

    /// The URL at which the upstream registry serves the identifier `uri`, or
    /// `None` where the base URL of the registry is no URL, or where it or
    /// the identifier is too long to be resolved.
    pub fn upstream_url(&self, uri: &str) -> (url: Option<String>)
        ensures
            text_view(url) == upstream_url(self.registry_uri@, uri@),
    {
        if self.registry_uri.as_str().as_bytes().len() <= BASE_LIMIT && uri.as_bytes().len()
            <= PATH_LIMIT {
            resolve(self.registry_uri.as_str(), uri)
        } else {
            None
        }
    }

    /// Whether an envelope for `uri`, made from a response with the status
    /// `status`, is to be stored, and under which name: only an answer with a
    /// success status is stored.
    pub fn try_cache(&self, status: u16, uri: &str) -> (record: Option<String>)
        ensures
            text_view(record) == if is_success(status) && base64_fits(
                encode_utf8(uri@).len(),
            ) {
                Some(record_name(uri@))
            } else {
                None
            },
    {
        if status_is_success(status) {
            name_of_record(uri)
        } else {
            None
        }
    }

    /// Runs the part of a load of `uri` that follows the fetch. `response` is
    /// what the upstream answered, or `None` where the request could not be
    /// completed. The result is the envelope for all callers or the failure,
    /// with the name of the record to create for it, if any.
    pub fn do_load(&self, uri: &str, response: Option<UpstreamResponse>) -> (out: ApiInnerResult)
        ensures
            result_view(out.result) == load_result(
                self.registry_uri@,
                self.resulting_registry_uri@,
                response,
            ),
            out.result matches Ok(envelope) ==> envelope.wf(),
            out.status == load_status(response),
            text_view(out.record) == load_record(
                self.registry_uri@,
                self.resulting_registry_uri@,
                uri@,
                response,
            ),
    {
        match response {
            Some(response) => {
                let status = response.status;
                let outcome = FetchOutcome::capture(response);
                match self.rewrite(outcome) {
                    Ok(envelope) => {
                        let record = self.try_cache(status, uri);
                        ApiInnerResult { result: Ok(envelope), status: Some(status), record }
                    },
                    Err(error) => ApiInnerResult {
                        result: Err(error),
                        status: Some(status),
                        record: None,
                    },
                }
            },
            None => ApiInnerResult { result: Err(FetchError::Network), status: None, record: None },
        }
    }
}

impl ApiInnerResult {
    /// The result once the store was told to create the record that the
    /// result names, and answered `written`.
    pub fn settle(self, written: Result<(), FetchError>) -> (out: ApiInnerResult)
        ensures
            result_view(out.result) == settled(
                result_view(self.result),
                text_view(self.record),
                written,
            ),
            out.status == self.status,
            text_view(out.record) == text_view(self.record),
    {
        match written {
            Ok(_) => self,
            Err(error) => {
                if self.record.is_some() && error != FetchError::AlreadyExists {
                    ApiInnerResult { result: Err(error), status: self.status, record: self.record }
                } else {
                    self
                }
            },
        }
    }

    /// Hands the shared result to one caller: every caller gets the same
    /// envelope, or the same failure.
    pub fn call(&self) -> (out: Result<ApiStorage, FetchError>)
        ensures
            result_view(out) == result_view(self.result),
    {
        match &self.result {
            Ok(envelope) => Ok(envelope.duplicate()),
            Err(error) => Err(*error),
        }
    }
}

} // verus!
