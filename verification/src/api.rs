//! The coalescing engine: for each identifier at most one fetch is under way,
//! and every caller that asks for the identifier meanwhile waits for that one.
//!
//! The engine decides and does not do I/O. Its caller looks into the store,
//! fetches and writes, and tells the engine what came of it:
//! a request names the record to look up ([`Api::get_package_metadata`],
//! [`Api::get_file`], [`Api::get_dist_tags`]), [`Api::load`] answers what was
//! found with the next step, [`ApiInner::do_load`] makes the result of a
//! fetch, and [`Api::complete`] ends the operation.

use crate::identifier::{
    dist_tags_identifier, dist_tags_uri, file_identifier, file_uri, metadata_identifier,
    metadata_uri,
};
use crate::error::FetchError;
use crate::inner::{text_view, result_view, settled, ApiInner, ApiInnerResult};
use crate::record::{
    base64_fits, list_packages, listed, name_of_record, plain_only, record_name, string_views,
};
use crate::storage::ApiStorage;
use vstd::prelude::*;
use vstd::utf8::encode_utf8;

verus! {

/// An operation under way as plain values: its identifier and the callers
/// that wait for it, first the one that started it.
pub type OperationView = (Seq<char>, Seq<u64>);

/// A fetch under way: the identifier that is fetched and the callers that
/// wait for the result, first the one that started it.
#[derive(Clone, Debug, PartialEq, Eq)]
pub struct Operation {
    pub uri: String,
    pub callers: Vec<u64>,
}

impl View for Operation {
    type V = OperationView;

    open spec fn view(&self) -> OperationView {
        (self.uri@, self.callers@)
    }
}

/// The record to look up for a request.
#[derive(Clone, Debug, PartialEq, Eq)]
pub struct Lookup {
    /// The identifier of what is asked for.
    pub uri: String,
    /// The name of its record in the store; `None` where the identifier is
    /// too long to have one, and then the store holds nothing for it.
    pub record: Option<String>,
}

/// What a caller does next for its load.
#[derive(Clone, Debug, PartialEq, Eq)]
pub enum LoadStep {
    /// The store holds the envelope: serve it.
    Serve(ApiStorage),
    /// Nothing is stored and no fetch is under way: fetch from the upstream,
    /// then complete the operation.
    Fetch,
    /// A fetch is under way: wait for its result.
    Wait,
    /// The store failed to read the record: the load fails.
    Fail(FetchError),
}

/// The end of an operation: the shared result, and the callers that get it.
#[derive(Debug, PartialEq, Eq)]
pub struct Completion {
    pub outcome: ApiInnerResult,
    pub callers: Vec<u64>,
}

/// The engine: the operations under way and the settings. There is one
/// engine, which all callers share.
#[derive(Debug)]
pub struct Api {
    running_requests: Vec<Operation>,
    api_inner: ApiInner,
}

/// The name of the record of `uri`, where it can have one.
pub open spec fn named(uri: Seq<char>) -> Option<Seq<char>> {
    if base64_fits(encode_utf8(uri).len()) {
        Some(record_name(uri))
    } else {
        None
    }
}

/// The operations `operations` as plain values, in order.
pub open spec fn operation_views(operations: Seq<Operation>) -> Seq<OperationView> {
    Seq::new(operations.len(), |i: int| operations[i]@)
}

/// The place of the first operation for `uri` among `running`, or the length
/// of `running` where there is none.
pub open spec fn position(running: Seq<OperationView>, uri: Seq<char>) -> int
    decreases running.len(),
{
    if running.len() == 0 {
        0
    } else if running[0].0 == uri {
        0
    } else {
        1 + position(running.skip(1), uri)
    }
}

/// An operation for `uri` is under way.
pub open spec fn in_flight(running: Seq<OperationView>, uri: Seq<char>) -> bool {
    position(running, uri) < running.len()
}

/// No two operations are for the same identifier.
pub open spec fn distinct_uris(running: Seq<OperationView>) -> bool {
    forall|i: int, j: int|
        0 <= i < j < running.len() ==> (#[trigger] running[i]).0 != (#[trigger] running[j]).0
}

/// The callers that wait for `uri`; none where no operation is under way.
pub open spec fn callers_of(running: Seq<OperationView>, uri: Seq<char>) -> Seq<u64> {
    if in_flight(running, uri) {
        running[position(running, uri)].1
    } else {
        Seq::empty()
    }
}

/// The operations after `caller` has asked for `uri` and the store held
/// nothing: the caller joins the operation for `uri`, or starts one.
pub open spec fn attached(running: Seq<OperationView>, uri: Seq<char>, caller: u64) -> Seq<
    OperationView,
> {
    if in_flight(running, uri) {
        let at = position(running, uri);
        running.update(at, (uri, running[at].1.push(caller)))
    } else {
        running.push((uri, seq![caller]))
    }
}

/// The operations after one load of `uri` by `caller`, given what the store
/// answered: only where the store holds no record does the caller join or
/// start an operation.
pub open spec fn after_load(
    running: Seq<OperationView>,
    uri: Seq<char>,
    caller: u64,
    cached: Result<ApiStorage, FetchError>,
) -> Seq<OperationView> {
    if cached == Err::<ApiStorage, FetchError>(FetchError::NotFound) {
        attached(running, uri, caller)
    } else {
        running
    }
}

/// `callers` without the first occurrence of `caller`.
pub open spec fn without_first(callers: Seq<u64>, caller: u64) -> Seq<u64>
    decreases callers.len(),
{
    if callers.len() == 0 {
        callers
    } else if callers[0] == caller {
        callers.skip(1)
    } else {
        seq![callers[0]] + without_first(callers.skip(1), caller)
    }
}

/// The operations after `caller` has given up waiting for `uri`: the
/// operation stays, with or without other callers.
pub open spec fn detached(running: Seq<OperationView>, uri: Seq<char>, caller: u64) -> Seq<
    OperationView,
> {
    if in_flight(running, uri) {
        let at = position(running, uri);
        running.update(at, (uri, without_first(running[at].1, caller)))
    } else {
        running
    }
}

/// The operations without the one for `uri`.
pub open spec fn removed(running: Seq<OperationView>, uri: Seq<char>) -> Seq<OperationView> {
    if in_flight(running, uri) {
        running.remove(position(running, uri))
    } else {
        running
    }
}

/// The place that [`position`] gives lies in `running` or just behind it; no
/// operation before it is for `uri`, and the one at it is.
pub proof fn lemma_position(running: Seq<OperationView>, uri: Seq<char>)
    ensures
        0 <= position(running, uri) <= running.len(),
        forall|k: int| 0 <= k < position(running, uri) ==> (#[trigger] running[k]).0 != uri,
        in_flight(running, uri) ==> running[position(running, uri)].0 == uri,
    decreases running.len(),
{
    if running.len() > 0 && running[0].0 != uri {
        let rest = running.skip(1);
        lemma_position(rest, uri);
        assert forall|k: int| 0 <= k < position(running, uri) implies (#[trigger] running[k]).0
            != uri by {
            if k > 0 {
                assert(rest[k - 1] == running[k]);
            }
        }
    }
}

/// Where some operation is for `uri`, one is under way for it.
pub proof fn lemma_in_flight(running: Seq<OperationView>, uri: Seq<char>, at: int)
    requires
        0 <= at < running.len(),
        running[at].0 == uri,
    ensures
        in_flight(running, uri),
        position(running, uri) <= at,
{
    lemma_position(running, uri);
}

/// Joining or starting an operation keeps the identifiers distinct and puts
/// the identifier in flight; ending one keeps them distinct and takes the
/// identifier out of flight.
pub proof fn lemma_steps_keep_distinct(running: Seq<OperationView>, uri: Seq<char>, caller: u64)
    requires
        distinct_uris(running),
    ensures
        distinct_uris(attached(running, uri, caller)),
        in_flight(attached(running, uri, caller), uri),
        distinct_uris(removed(running, uri)),
        !in_flight(removed(running, uri), uri),
{
    lemma_position(running, uri);
    let at = position(running, uri);
    let joined = attached(running, uri, caller);
    if in_flight(running, uri) {
        lemma_in_flight(joined, uri, at);
    } else {
        lemma_in_flight(joined, uri, running.len() as int);
    }
    lemma_position(removed(running, uri), uri);
}

/// A place is the one that [`position`] gives where no operation before it is
/// for `uri`, and it is the end or the operation at it is for `uri`.
pub proof fn lemma_position_is(running: Seq<OperationView>, uri: Seq<char>, at: int)
    requires
        0 <= at <= running.len(),
        forall|k: int| 0 <= k < at ==> (#[trigger] running[k]).0 != uri,
        at < running.len() ==> running[at].0 == uri,
    ensures
        position(running, uri) == at,
{
    lemma_position(running, uri);
}

/// Giving up keeps the identifiers as they are: they stay distinct, and what
/// is in flight stays in flight.
pub proof fn lemma_detached(running: Seq<OperationView>, uri: Seq<char>, caller: u64)
    ensures
        distinct_uris(running) ==> distinct_uris(detached(running, uri, caller)),
        detached(running, uri, caller).len() == running.len(),
        forall|other: Seq<char>|
            #[trigger] position(detached(running, uri, caller), other) == position(
                running,
                other,
            ),
{
    lemma_position(running, uri);
    let left = detached(running, uri, caller);
    assert forall|other: Seq<char>| position(left, other) == position(running, other) by {
        lemma_position(running, other);
        lemma_position_is(left, other, position(running, other));
    }
}

/// Without its first occurrence of `caller`, `callers` is as before up to
/// that place and from behind it.
pub proof fn lemma_without_first(callers: Seq<u64>, caller: u64, at: int)
    requires
        0 <= at <= callers.len(),
        forall|k: int| 0 <= k < at ==> callers[k] != caller,
        at < callers.len() ==> callers[at] == caller,
    ensures
        without_first(callers, caller) == if at < callers.len() {
            callers.remove(at)
        } else {
            callers
        },
    decreases callers.len(),
{
    if callers.len() > 0 && callers[0] != caller {
        lemma_without_first(callers.skip(1), caller, at - 1);
    }
}

/// Takes the first occurrence of `caller` out of `callers`.
fn drop_caller(callers: &mut Vec<u64>, caller: u64)
    ensures
        final(callers)@ == without_first(old(callers)@, caller),
{
    let mut at: usize = 0;
    while at < callers.len() && callers[at] != caller
        invariant
            at <= callers.len(),
            forall|k: int| 0 <= k < at ==> callers@[k] != caller,
        decreases callers.len() - at,
    {
        at = at + 1;
    }
    proof {
        lemma_without_first(callers@, caller, at as int);
    }
    if at < callers.len() {
        callers.remove(at);
    }
}

impl Api {
    /// The operations under way, in the order in which they were started.
    pub closed spec fn running(&self) -> Seq<OperationView> {
        operation_views(self.running_requests@)
    }

    /// The settings of the engine.
    pub closed spec fn inner(&self) -> ApiInner {
        self.api_inner
    }

    /// An engine with the given settings and no operation under way.
    pub fn new(api_inner: ApiInner) -> (api: Api)
        ensures
            api.running() == Seq::<OperationView>::empty(),
            distinct_uris(api.running()),
            api.inner() == api_inner,
    {
        Api { running_requests: Vec::new(), api_inner }
    }

    /// The settings of the engine.
    pub fn api_inner(&self) -> (inner: &ApiInner)
        ensures
            *inner == self.inner(),
    {
        &self.api_inner
    }

    /// The place of the operation for `uri`, or the number of operations
    /// where none is under way for it.
    fn find(&self, uri: &str) -> (at: usize)
        ensures
            at == position(self.running(), uri@),
            at <= self.running().len(),
            self.running().len() == self.running_requests@.len(),
    {
        let wanted = uri.to_owned();
        let ghost all = self.running();
        let mut at: usize = 0;
        assert(all.skip(0) == all);
        while at < self.running_requests.len()
            invariant
                at <= self.running_requests.len(),
                all == operation_views(self.running_requests@),
                wanted@ == uri@,
                position(all, uri@) == at + position(all.skip(at as int), uri@),
            decreases self.running_requests.len() - at,
        {
            if self.running_requests[at].uri == wanted {
                return at;
            }
            assert(all.skip(at as int).skip(1) == all.skip(at + 1));
            at = at + 1;
        }
        at
    }

    /// Whether an operation for `uri` is under way.
    pub fn is_running(&self, uri: &str) -> (running: bool)
        ensures
            running == in_flight(self.running(), uri@),
    {
        self.find(uri) < self.running_requests.len()
    }

    /// The record to look up for the metadata of the package `package_name`.
    pub fn get_package_metadata(&self, package_name: &str) -> (lookup: Lookup)
        ensures
            lookup.uri@ == metadata_uri(package_name@),
            text_view(lookup.record) == named(lookup.uri@),
    {
        let uri = metadata_identifier(package_name);
        let record = name_of_record(uri.as_str());
        Lookup { uri, record }
    }

    /// The record to look up for the file `file_name` of the package
    /// `package_name`. A scoped package is named as one name, `@scope/name`.
    pub fn get_file(&self, package_name: &str, file_name: &str) -> (lookup: Lookup)
        ensures
            lookup.uri@ == file_uri(package_name@, file_name@),
            text_view(lookup.record) == named(lookup.uri@),
    {
        let uri = file_identifier(package_name, file_name);
        let record = name_of_record(uri.as_str());
        Lookup { uri, record }
    }

    /// The record to look up for the dist-tags of the package `package_name`.
    pub fn get_dist_tags(&self, package_name: &str) -> (lookup: Lookup)
        ensures
            lookup.uri@ == dist_tags_uri(package_name@),
            text_view(lookup.record) == named(lookup.uri@),
    {
        let uri = dist_tags_identifier(package_name);
        let record = name_of_record(uri.as_str());
        Lookup { uri, record }
    }

    /// The identifiers of the cached package metadata, given the names of the
    /// records of the store.
    pub fn get_cached_packages(&self, names: &Vec<String>) -> (uris: Vec<String>)
        ensures
            string_views(uris@) == plain_only(listed(string_views(names@))),
    {
        list_packages(names)
    }

    /// The name of the record to delete for the metadata of the package
    /// `package_name`, or `None` where the package can have no record.
    pub fn delete_cached_file(&self, package_name: &str) -> (record: Option<String>)
        ensures
            text_view(record) == named(metadata_uri(package_name@)),
    {
        let uri = metadata_identifier(package_name);
        name_of_record(uri.as_str())
    }

    /// One load of `uri` by `caller`, given what the store answered when it
    /// was asked for the record. A stored envelope is served, and no operation
    /// is touched. Where the store holds no record, the caller joins the
    /// operation for `uri` and waits, or, where none is under way, starts it
    /// and is to fetch: the test and the start are one step. Any other
    /// failure of the store fails the load.
    pub fn load(&mut self, uri: &str, caller: u64, cached: Result<ApiStorage, FetchError>) -> (step:
        LoadStep)
        ensures
            final(self).inner() == old(self).inner(),
            distinct_uris(old(self).running()) ==> distinct_uris(final(self).running()),
            final(self).running() == after_load(old(self).running(), uri@, caller, cached),
            match cached {
                Ok(envelope) => step == LoadStep::Serve(envelope),
                Err(error) => if error != FetchError::NotFound {
                    step == LoadStep::Fail(error)
                } else if in_flight(old(self).running(), uri@) {
                    step is Wait
                } else {
                    step is Fetch
                },
            },
    {
        match cached {
            Ok(envelope) => LoadStep::Serve(envelope),
            Err(error) => {
                if error != FetchError::NotFound {
                    return LoadStep::Fail(error);
                }
                let ghost before = self.running();
                proof {
                    if distinct_uris(before) {
                        lemma_steps_keep_distinct(before, uri@, caller);
                    }
                    lemma_position(before, uri@);
                }
                let at = self.find(uri);
                if at < self.running_requests.len() {
                    let mut operation = self.running_requests.remove(at);
                    operation.callers.push(caller);
                    self.running_requests.insert(at, operation);
                    assert(self.running() =~= attached(before, uri@, caller));
                    LoadStep::Wait
                } else {
                    let mut callers: Vec<u64> = Vec::new();
                    callers.push(caller);
                    self.running_requests.push(Operation { uri: uri.to_owned(), callers });
                    assert(self.running() =~= attached(before, uri@, caller));
                    LoadStep::Fetch
                }
            },
        }
    }

    /// The caller `caller` gives up its load of `uri`. It no longer waits, and
    /// the operation goes on for the others: it is ended by
    /// [`Api::complete`] alone.
    pub fn abandon(&mut self, uri: &str, caller: u64)
        ensures
            final(self).inner() == old(self).inner(),
            final(self).running() == detached(old(self).running(), uri@, caller),
            distinct_uris(old(self).running()) ==> distinct_uris(final(self).running()),
            in_flight(final(self).running(), uri@) == in_flight(old(self).running(), uri@),
    {
        let ghost before = self.running();
        proof {
            lemma_position(before, uri@);
            lemma_detached(before, uri@, caller);
        }
        let at = self.find(uri);
        if at < self.running_requests.len() {
            let mut operation = self.running_requests.remove(at);
            drop_caller(&mut operation.callers, caller);
            self.running_requests.insert(at, operation);
        }
    }

    /// Ends the operation for `uri`. `outcome` is what the fetch resulted in
    /// ([`ApiInner::do_load`]), and `written` what the store answered when it
    /// was told to create the record that `outcome` names; it is not looked at
    /// where no record is named. The operation is taken out, whatever the
    /// result is, and all callers that waited get the one result.
    pub fn complete(
        &mut self,
        uri: &str,
        outcome: ApiInnerResult,
        written: Result<(), FetchError>,
    ) -> (done: Completion)
        ensures
            final(self).inner() == old(self).inner(),
            final(self).running() == removed(old(self).running(), uri@),
            distinct_uris(old(self).running()) ==> distinct_uris(final(self).running())
                && !in_flight(final(self).running(), uri@),
            done.callers@ == callers_of(old(self).running(), uri@),
            result_view(done.outcome.result) == settled(
                result_view(outcome.result),
                text_view(outcome.record),
                written,
            ),
            done.outcome.status == outcome.status,
            text_view(done.outcome.record) == text_view(outcome.record),
    {
        let ghost before = self.running();
        proof {
            if distinct_uris(before) {
                lemma_steps_keep_distinct(before, uri@, 0);
            }
            lemma_position(before, uri@);
        }
        let at = self.find(uri);
        let callers = if at < self.running_requests.len() {
            let operation = self.running_requests.remove(at);
            assert(operation_views(self.running_requests@) =~= before.remove(at as int));
            operation.callers
        } else {
            Vec::new()
        };
        Completion { outcome: outcome.settle(written), callers }
    }
}

/// One step of the engine that touches the operations.
pub enum Event {
    /// A caller asks for an identifier of which the store holds no record.
    Load(Seq<char>, u64),
    /// A caller gives up its load of an identifier.
    Abandon(Seq<char>, u64),
    /// The operation for an identifier ends.
    Complete(Seq<char>),
}

/// The operations after one step.
pub open spec fn after(running: Seq<OperationView>, event: Event) -> Seq<OperationView> {
    match event {
        Event::Load(uri, caller) => attached(running, uri, caller),
        Event::Abandon(uri, caller) => detached(running, uri, caller),
        Event::Complete(uri) => removed(running, uri),
    }
}

/// The operations after the steps `events`, taken in order.
pub open spec fn after_all(running: Seq<OperationView>, events: Seq<Event>) -> Seq<OperationView>
    decreases events.len(),
{
    if events.len() == 0 {
        running
    } else {
        after(after_all(running, events.drop_last()), events.last())
    }
}

/// The number of fetches of `uri` that the steps `events` start: a load
/// starts one where no operation for `uri` is under way.
pub open spec fn fetches(running: Seq<OperationView>, events: Seq<Event>, uri: Seq<char>) -> nat
    decreases events.len(),
{
    if events.len() == 0 {
        0
    } else {
        let before = after_all(running, events.drop_last());
        let started: nat = if events.last() matches Event::Load(asked, _) && asked == uri
            && !in_flight(before, uri) {
            1
        } else {
            0
        };
        fetches(running, events.drop_last(), uri) + started
    }
}

/// Some step of `events` is a load of `uri`.
pub open spec fn asked(events: Seq<Event>, uri: Seq<char>) -> bool
    decreases events.len(),
{
    if events.len() == 0 {
        false
    } else {
        asked(events.drop_last(), uri) || (events.last() matches Event::Load(wanted, _) && wanted
            == uri)
    }
}

/// Some step of `events` ends the operation for `uri`.
pub open spec fn ended(events: Seq<Event>, uri: Seq<char>) -> bool
    decreases events.len(),
{
    if events.len() == 0 {
        false
    } else {
        ended(events.drop_last(), uri) || events.last() == Event::Complete(uri)
    }
}

/// The loads of `uri` by the callers `callers`, one after the other.
pub open spec fn loads(uri: Seq<char>, callers: Seq<u64>) -> Seq<Event> {
    Seq::new(callers.len(), |i: int| Event::Load(uri, callers[i]))
}

/// A load of another identifier leaves the operation for `uri` as it is.
pub proof fn lemma_load_of_other(
    running: Seq<OperationView>,
    uri: Seq<char>,
    other: Seq<char>,
    caller: u64,
)
    requires
        uri != other,
    ensures
        in_flight(attached(running, other, caller), uri) == in_flight(running, uri),
        callers_of(attached(running, other, caller), uri) == callers_of(running, uri),
{
    lemma_position(running, uri);
    lemma_position(running, other);
    let at = position(running, uri);
    let joined = attached(running, other, caller);
    if in_flight(running, other) || at < running.len() {
        lemma_position_is(joined, uri, at);
    } else {
        lemma_position_is(joined, uri, joined.len() as int);
    }
}

/// The end of the operation for another identifier leaves the operation for
/// `uri` as it is.
pub proof fn lemma_end_of_other(running: Seq<OperationView>, uri: Seq<char>, other: Seq<char>)
    requires
        uri != other,
    ensures
        in_flight(removed(running, other), uri) == in_flight(running, uri),
        callers_of(removed(running, other), uri) == callers_of(running, uri),
{
    lemma_position(running, uri);
    lemma_position(running, other);
    if in_flight(running, other) {
        let gone = position(running, other);
        let at = position(running, uri);
        let left = removed(running, other);
        let place = if at < gone {
            at
        } else {
            at - 1
        };
        lemma_position_is(left, uri, place);
    }
}

/// A stored envelope is served without a fetch: whatever is under way, a load
/// that finds the envelope in the store starts no operation and joins none.
pub proof fn law_cache_hit_starts_no_fetch(
    running: Seq<OperationView>,
    uri: Seq<char>,
    caller: u64,
    envelope: ApiStorage,
)
    ensures
        after_load(running, uri, caller, Ok(envelope)) == running,
{
}

/// Single flight: while the operation for an identifier is not ended, at most
/// one fetch of it is started, however many callers ask for it and whatever
/// happens to other identifiers meanwhile. Exactly one is started where some
/// caller asks, and the operation is then under way.
pub proof fn law_single_flight(running: Seq<OperationView>, events: Seq<Event>, uri: Seq<char>)
    requires
        distinct_uris(running),
        !in_flight(running, uri),
        !ended(events, uri),
    ensures
        distinct_uris(after_all(running, events)),
        in_flight(after_all(running, events), uri) == asked(events, uri),
        fetches(running, events, uri) == if asked(events, uri) {
            1nat
        } else {
            0nat
        },
    decreases events.len(),
{
    if events.len() > 0 {
        let earlier = events.drop_last();
        law_single_flight(running, earlier, uri);
        let before = after_all(running, earlier);
        match events.last() {
            Event::Load(other, caller) => {
                lemma_steps_keep_distinct(before, other, caller);
                if other != uri {
                    lemma_load_of_other(before, uri, other, caller);
                }
            },
            Event::Abandon(other, caller) => {
                lemma_detached(before, other, caller);
            },
            Event::Complete(other) => {
                lemma_steps_keep_distinct(before, other, 0);
                lemma_end_of_other(before, uri, other);
            },
        }
    }
}

/// All callers that asked for an identifier while it was fetched wait for the
/// one operation, in the order in which they asked, and when it ends the
/// operations are as they were before the first of them asked.
pub proof fn law_callers_share_operation(
    running: Seq<OperationView>,
    uri: Seq<char>,
    callers: Seq<u64>,
)
    requires
        !in_flight(running, uri),
        callers.len() > 0,
    ensures
        after_all(running, loads(uri, callers)) == running.push((uri, callers)),
        callers_of(after_all(running, loads(uri, callers)), uri) == callers,
        removed(after_all(running, loads(uri, callers)), uri) == running,
    decreases callers.len(),
{
    lemma_position(running, uri);
    let events = loads(uri, callers);
    let first = callers.drop_last();
    assert(events.drop_last() =~= loads(uri, first));
    let joined = running.push((uri, callers));
    lemma_position_is(joined, uri, running.len() as int);
    if first.len() == 0 {
        assert(after_all(running, loads(uri, first)) == running);
        assert(seq![callers.last()] =~= callers);
    } else {
        law_callers_share_operation(running, uri, first);
        lemma_position_is(running.push((uri, first)), uri, running.len() as int);
        assert(first.push(callers.last()) =~= callers);
    }
    assert(joined.remove(running.len() as int) =~= running);
}

} // verus!
