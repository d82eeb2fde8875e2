//! The request layer: what is asked of the remote API, and when a failed
//! request is tried again.
//!
//! Nothing here touches the network. A request is described by its address
//! and query parameters, and the retry loop is a state machine: the caller
//! sends the request, reports how the attempt went, and is told whether to
//! stop or to wait and send it again.

use crate::api::models::ApiError;
use crate::text::{decimal, decimal_string};
use std::ops::Range;
use vstd::prelude::*;

verus! {

/// `backoff::SystemClock`, the clock of the back-off policy, made known to
/// the verifier as an opaque type.
#[verifier::external_type_specification]
#[verifier::external_body]
pub struct ExSystemClock(backoff::SystemClock);

/// `backoff::exponential::ExponentialBackoff`, the back-off policy, made
/// known to the verifier as an opaque type.
#[verifier::external_type_specification]
#[verifier::external_body]
#[verifier::reject_recursive_types(C)]
pub struct ExExponentialBackoff<C>(backoff::exponential::ExponentialBackoff<C>);

/// `ExponentialBackoff::default`: a fresh exponential back-off policy with
/// the defaults of the `backoff` crate, its clock started now.
#[verifier::external_body]
fn backoff_start() -> backoff::ExponentialBackoff {
    backoff::ExponentialBackoff::default()
}

/// `Backoff::next_backoff` of `ExponentialBackoff`: how long to wait before
/// the next attempt, or `None` once the policy's time is used up. The answer
/// depends on the clock and on a random number, so nothing is stated of it.
#[verifier::external_body]
fn backoff_next(policy: &mut backoff::ExponentialBackoff) -> Option<(u64, u32)> {
    backoff::backoff::Backoff::next_backoff(policy).map(|wait| (wait.as_secs(), wait.subsec_nanos()))
}

/// How to reach the remote API.
#[derive(Debug, Clone)]
pub struct ApiClient {
    pub api_key: Option<String>,
    pub user_id: Option<String>,
    pub endpoint: String,
}

/// A read-only request: an address and the query parameters to send with it,
/// in order.
#[derive(Debug, Clone, PartialEq, Eq)]
pub struct Request {
    pub url: String,
    pub query: Vec<(String, String)>,
}

/// A length of time to wait.
#[derive(Debug, Clone, Copy, PartialEq, Eq, Structural)]
pub struct Delay {
    pub secs: u64,
    pub nanos: u32,
}

/// What to do after an attempt.
#[derive(Debug)]
pub enum Retry<T> {
    /// The request is over, with a page or with the failure of the last
    /// attempt.
    Done(Result<T, ApiError>),
    /// Wait this long, then send the request again.
    Wait(Delay),
}

/// A request together with the back-off policy that governs its retries.
pub struct RetryingRequest {
    request: Request,
    policy: backoff::ExponentialBackoff,
}

/// The search expression that selects the posts of a window.
pub open spec fn window_filter(start: u64, end: u64) -> Seq<char> {
    "id:>="@ + decimal(start as nat) + " id:<"@ + decimal(end as nat)
}

/// The credential parameters: the API key and the user identifier, each only
/// where it is configured.
pub open spec fn credentials(api_key: Option<String>, user_id: Option<String>) -> Seq<
    (Seq<char>, Seq<char>),
> {
    let key = match api_key {
        Some(key) => seq![("api_key"@, key@)],
        None => Seq::empty(),
    };
    let user = match user_id {
        Some(user) => seq![("user_id"@, user@)],
        None => Seq::empty(),
    };
    key + user
}

/// What happens after an attempt, given what the back-off policy allows: a
/// page ends the request; a failure is followed by another attempt after the
/// wait that the policy grants, and is handed on once the policy grants none.
pub open spec fn retry_outcome<T>(outcome: Result<T, ApiError>, next: Option<Delay>) -> Retry<T> {
    match outcome {
        Ok(page) => Retry::Done(Ok(page)),
        Err(error) => match next {
            Some(wait) => Retry::Wait(wait),
            None => Retry::Done(Err(error)),
        },
    }
}

/// Decides what follows an attempt, given what the back-off policy allows.
pub fn retry_decision<T>(outcome: Result<T, ApiError>, next: Option<Delay>) -> (step: Retry<T>)
    ensures
        step == retry_outcome(outcome, next),
{
    match outcome {
        Ok(page) => Retry::Done(Ok(page)),
        Err(error) => match next {
            Some(wait) => Retry::Wait(wait),
            None => Retry::Done(Err(error)),
        },
    }
}

fn push_pair(query: &mut Vec<(String, String)>, key: &str, value: String)
    ensures
        final(query).deep_view() == old(query).deep_view().push((key@, value@)),
{
    query.push((String::from_str(key), value));
    assert(query.deep_view() =~= old(query).deep_view().push((key@, value@)));
}

impl ApiClient {
    /// A client for the given endpoint, with the credentials that are
    /// configured.
    pub fn new(endpoint: String, api_key: Option<String>, user_id: Option<String>) -> (client:
        ApiClient)
        ensures
            client.endpoint == endpoint,
            client.api_key == api_key,
            client.user_id == user_id,
    {
        ApiClient { api_key, user_id, endpoint }
    }

    /// The parameters of a request for the posts of the window from `start`
    /// up to but not including `end`.
    pub open spec fn post_query(self, start: u64, end: u64) -> Seq<(Seq<char>, Seq<char>)> {
        seq![
            ("page"@, "dapi"@),
            ("s"@, "post"@),
            ("q"@, "index"@),
            ("json"@, "1"@),
            ("limit"@, "100"@),
        ] + credentials(self.api_key, self.user_id) + seq![("tags"@, window_filter(start, end))]
    }

    /// The parameters of a request for the page of tags that follows
    /// `after_id`.
    pub open spec fn tag_query(self, after_id: u64) -> Seq<(Seq<char>, Seq<char>)> {
        seq![
            ("page"@, "dapi"@),
            ("s"@, "tag"@),
            ("q"@, "index"@),
            ("json"@, "1"@),
            ("limit"@, "100"@),
            ("order"@, "asc"@),
            ("orderby"@, "id"@),
            ("after_id"@, decimal(after_id as nat)),
        ] + credentials(self.api_key, self.user_id)
    }

    /// Adds the API key and the user identifier to the parameters of a
    /// request, each only where it is configured.
    pub fn add_credentials(&self, query: &mut Vec<(String, String)>)
        ensures
            final(query).deep_view() == old(query).deep_view() + credentials(
                self.api_key,
                self.user_id,
            ),
    {
        match &self.api_key {
            Some(api_key) => {
                push_pair(query, "api_key", api_key.clone());
            },
            None => {},
        }
        match &self.user_id {
            Some(user_id) => {
                push_pair(query, "user_id", user_id.clone());
            },
            None => {},
        }
        assert(query.deep_view() =~= old(query).deep_view() + credentials(
            self.api_key,
            self.user_id,
        ));
    }

    /// The request for the posts of a window of ids.
    pub fn query_posts(&self, id: &Range<u64>) -> (request: Request)
        ensures
            request.url@ == self.endpoint@,
            request.query.deep_view() == self.post_query(id.start, id.end),
    {
        let mut query: Vec<(String, String)> = Vec::new();
        assert(query.deep_view() =~= Seq::empty());
        push_pair(&mut query, "page", String::from_str("dapi"));
        push_pair(&mut query, "s", String::from_str("post"));
        push_pair(&mut query, "q", String::from_str("index"));
        push_pair(&mut query, "json", String::from_str("1"));
        push_pair(&mut query, "limit", String::from_str("100"));
        self.add_credentials(&mut query);
        let filter = String::from_str("id:>=").concat(decimal_string(id.start).as_str()).concat(
            " id:<",
        ).concat(decimal_string(id.end).as_str());
        push_pair(&mut query, "tags", filter);
        assert(query.deep_view() =~= self.post_query(id.start, id.end));
        Request { url: self.endpoint.clone(), query }
    }

    /// The request for the page of tags that follows a cursor.
    pub fn query_tags(&self, after_id: u64) -> (request: Request)
        ensures
            request.url@ == self.endpoint@,
            request.query.deep_view() == self.tag_query(after_id),
    {
        let mut query: Vec<(String, String)> = Vec::new();
        assert(query.deep_view() =~= Seq::empty());
        push_pair(&mut query, "page", String::from_str("dapi"));
        push_pair(&mut query, "s", String::from_str("tag"));
        push_pair(&mut query, "q", String::from_str("index"));
        push_pair(&mut query, "json", String::from_str("1"));
        push_pair(&mut query, "limit", String::from_str("100"));
        push_pair(&mut query, "order", String::from_str("asc"));
        push_pair(&mut query, "orderby", String::from_str("id"));
        push_pair(&mut query, "after_id", decimal_string(after_id));
        self.add_credentials(&mut query);
        assert(query.deep_view() =~= self.tag_query(after_id));
        Request { url: self.endpoint.clone(), query }
    }

    /// The request for the posts of a window, to be retried with exponential
    /// back-off until it succeeds or the policy gives up.
    pub fn query_posts_backoff(&self, id: Range<u64>) -> (call: RetryingRequest)
        ensures
            call.request().url@ == self.endpoint@,
            call.request().query.deep_view() == self.post_query(id.start, id.end),
    {
        RetryingRequest { request: self.query_posts(&id), policy: backoff_start() }
    }

    /// The request for a page of tags, to be retried with exponential
    /// back-off until it succeeds or the policy gives up.
    pub fn query_tags_backoff(&self, after_id: u64) -> (call: RetryingRequest)
        ensures
            call.request().url@ == self.endpoint@,
            call.request().query.deep_view() == self.tag_query(after_id),
    {
        RetryingRequest { request: self.query_tags(after_id), policy: backoff_start() }
    }
}

impl RetryingRequest {
    /// The request to send, at the first attempt and at every later one.
    pub closed spec fn request(&self) -> Request {
        self.request
    }

    /// The request to send, at the first attempt and at every later one.
    pub fn to_send(&self) -> (request: &Request)
        ensures
            *request == self.request(),
    {
        &self.request
    }

    /// Takes note of how an attempt went and says what follows. A page ends
    /// the request. After a failure the back-off policy is asked: the
    /// request is either to be sent again after a wait, or it ends with the
    /// failure of this attempt.
    pub fn after_attempt<T>(&mut self, outcome: Result<T, ApiError>) -> (step: Retry<T>)
        ensures
            final(self).request() == old(self).request(),
            match outcome {
                Ok(page) => step == Retry::Done(Ok::<T, ApiError>(page)),
                Err(error) => step is Wait || step == Retry::Done(Err::<T, ApiError>(error)),
            },
    {
        match outcome {
            Ok(page) => retry_decision(Ok(page), None),
            Err(error) => {
                let next = match backoff_next(&mut self.policy) {
                    Some((secs, nanos)) => Some(Delay { secs, nanos }),
                    None => None,
                };
                retry_decision(Err(error), next)
            },
        }
    }
}

} // verus!
