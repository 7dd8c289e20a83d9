//! Fetch layer: what the `gh` CLI is asked to run, when to wait and retry, and
//! what its JSON answers say.

use vstd::prelude::*;
use crate::clock::{nanos_between, Instant, Moment};
use crate::error::{error_text, is_api, Error};
use crate::fetch::rate_limit::{
    budget_in, is_pause, opt_moment, wait_of, Budget, Pause, RateLimitTracker,
};
use crate::json::{elements_at, field, get, string_or, text_or, Json};
use crate::text::{contains, copy, has_text, join, join2, join3, joined, lower, lowercase, texts};

pub mod issues;
pub mod pull_requests;
pub mod rate_limit;
pub mod user_search;

verus! {

/// Maximum retry attempts for retryable errors.
pub const RETRY_ATTEMPTS: u32 = 7;

/// Search requests are spaced this far apart: thirty a minute.
pub const SEARCH_SPACING_SECONDS: u32 = 2;

// ---------------------------------------------------------------- arguments

/// The arguments of a GraphQL call for the first `n` variables.
pub open spec fn graphql_call(
    query: Seq<char>,
    variables: Seq<(Seq<char>, Seq<char>)>,
    n: int,
) -> Seq<Seq<char>>
    decreases n,
{
    if n <= 0 {
        seq!["api"@, "graphql"@, "-f"@, "query="@ + query]
    } else {
        graphql_call(query, variables, n - 1).push("-F"@).push(
            variables[n - 1].0 + "="@ + variables[n - 1].1,
        )
    }
}

/// The views of a list of variables.
pub open spec fn variables_view(variables: Seq<(String, String)>) -> Seq<(Seq<char>, Seq<char>)> {
    Seq::new(variables.len(), |i: int| (variables[i].0@, variables[i].1@))
}

/// The `gh` arguments of a GraphQL query with string variables.
pub fn graphql_arguments(query: &str, variables: &Vec<(String, String)>) -> (arguments: Vec<String>)
    ensures
        texts(arguments@) == graphql_call(
            query@,
            variables_view(variables@),
            variables@.len() as int,
        ),
{
    let mut arguments: Vec<String> = Vec::new();
    arguments.push(copy("api"));
    arguments.push(copy("graphql"));
    arguments.push(copy("-f"));
    arguments.push(join2("query=", query));
    let mut i: usize = 0;
    let ghost views = variables_view(variables@);
    assert(texts(arguments@) =~= graphql_call(query@, views, 0));
    while i < variables.len()
        invariant
            i <= variables.len(),
            views == variables_view(variables@),
            texts(arguments@) == graphql_call(query@, views, i as int),
        decreases variables.len() - i,
    {
        let ghost before = texts(arguments@);
        let assignment = join3(variables[i].0.as_str(), "=", variables[i].1.as_str());
        arguments.push(copy("-F"));
        arguments.push(assignment);
        assert(texts(arguments@) =~= before.push("-F"@).push(assignment@));
        i = i + 1;
    }
    arguments
}

/// The `gh` arguments of a REST call.
pub fn rest_arguments(path: &str) -> (arguments: Vec<String>)
    ensures
        texts(arguments@) == seq!["api"@, path@],
{
    let mut arguments: Vec<String> = Vec::new();
    arguments.push(copy("api"));
    arguments.push(copy(path));
    assert(texts(arguments@) =~= seq!["api"@, path@]);
    arguments
}

/// The `gh` arguments of the check that it is installed and authenticated.
pub fn preflight_arguments() -> (arguments: Vec<String>)
    ensures
        texts(arguments@) == seq!["auth"@, "status"@],
{
    let mut arguments: Vec<String> = Vec::new();
    arguments.push(copy("auth"));
    arguments.push(copy("status"));
    assert(texts(arguments@) =~= seq!["auth"@, "status"@]);
    arguments
}

/// What a failed preflight is reported with, in front of the failure.
pub const PREFLIGHT_ADVICE: &'static str = "`gh auth status` failed — install the GitHub CLI and run `gh auth login` (set GH_HOST for GitHub Enterprise): ";

/// The error that a failed preflight ends in.
pub fn preflight_failure(error: &Error) -> (failure: Error)
    ensures
        failure matches Error::GhUnavailable(detail) && detail@ == PREFLIGHT_ADVICE@ + error_text(
            *error,
        ),
{
    Error::GhUnavailable(join2(PREFLIGHT_ADVICE, &error.message()))
}

// ---------------------------------------------------------------- retries

/// The message of a failed command speaks of a throttle or of a transient
/// failure.
pub open spec fn speaks_of_trouble(lowered: Seq<char>) -> bool {
    ||| has_text(lowered, "secondary rate limit"@)
    ||| has_text(lowered, "rate limit"@)
    ||| has_text(lowered, "http 403"@)
    ||| has_text(lowered, "http 429"@)
    ||| has_text(lowered, "http 5"@)
    ||| has_text(lowered, "timeout"@)
    ||| has_text(lowered, "connection"@)
}

/// The error is worth retrying.
pub open spec fn worth_retrying(error: Error) -> bool {
    error matches Error::GhCommand { exit_code, stderr } && speaks_of_trouble(lowercase(stderr@))
}

/// Does the lower-case message speak of a throttle or of a transient failure?
pub fn is_trouble(lowered: &str) -> (yes: bool)
    ensures
        yes == speaks_of_trouble(lowered@),
{
    contains(lowered, "secondary rate limit") || contains(lowered, "rate limit") || contains(
        lowered,
        "http 403",
    ) || contains(lowered, "http 429") || contains(lowered, "http 5") || contains(
        lowered,
        "timeout",
    ) || contains(lowered, "connection")
}

/// Classify whether an error is worth retrying (throttles, transient failures).
pub fn is_retryable(error: &Error) -> (yes: bool)
    ensures
        yes == worth_retrying(*error),
{
    match error {
        Error::GhCommand { exit_code: _, stderr } => {
            let lowered = lower(stderr.as_str());
            is_trouble(&lowered)
        },
        _ => false,
    }
}

/// The exponential backoff in seconds after the given number of failures.
pub open spec fn backoff(failures: int) -> int {
    if failures <= 1 {
        2
    } else if failures == 2 {
        4
    } else if failures == 3 {
        8
    } else if failures == 4 {
        16
    } else if failures == 5 {
        32
    } else {
        64
    }
}

/// What follows a failed call, given how many calls have failed so far: the
/// seconds to sleep before the next one, or nothing where the failure stands.
pub open spec fn retry_of(failures: int, retryable: bool) -> Option<int> {
    if failures >= RETRY_ATTEMPTS || !retryable {
        None
    } else {
        Some(backoff(failures))
    }
}

/// Decide on a retry, given whether the failure is worth one.
pub fn next_retry(failures: u32, retryable: bool) -> (seconds: Option<u64>)
    requires
        failures >= 1,
    ensures
        match retry_of(failures as int, retryable) {
            Some(wait) => seconds == Some(wait as u64),
            None => seconds is None,
        },
{
    if failures >= RETRY_ATTEMPTS || !retryable {
        return None;
    }
    Some(
        if failures <= 1 {
            2
        } else if failures == 2 {
            4
        } else if failures == 3 {
            8
        } else if failures == 4 {
            16
        } else if failures == 5 {
            32
        } else {
            64
        },
    )
}

/// Decide what follows a failed call.
pub fn after_failure(failures: u32, error: &Error) -> (seconds: Option<u64>)
    requires
        failures >= 1,
    ensures
        match retry_of(failures as int, worth_retrying(*error)) {
            Some(wait) => seconds == Some(wait as u64),
            None => seconds is None,
        },
{
    next_retry(failures, is_retryable(error))
}

/// Retrying ends: a failure that is not worth it is never retried, each wait is
/// at least as long as the one before, and the last attempt is never repeated.
pub proof fn law_retries_end(failures: int, retryable: bool)
    requires
        failures >= 1,
    ensures
        !retryable ==> retry_of(failures, retryable) is None,
        failures >= RETRY_ATTEMPTS ==> retry_of(failures, retryable) is None,
        retryable && failures < RETRY_ATTEMPTS ==> retry_of(failures, retryable) is Some,
        backoff(failures) <= backoff(failures + 1),
        2 <= backoff(failures) <= 64,
{
}

// ---------------------------------------------------------------- responses

/// The message of one GraphQL error.
pub open spec fn api_message(error: Json) -> Seq<char> {
    text_or(error, "message"@, "unknown GraphQL error"@)
}

/// The messages of a list of GraphQL errors.
pub open spec fn api_messages(errors: Seq<Json>) -> Seq<Seq<char>> {
    Seq::new(errors.len(), |i: int| api_message(errors[i]))
}

/// The `data` of a GraphQL response, or the error that the response reports.
pub open spec fn response_data(response: Json) -> Result<Json, Seq<char>> {
    if elements_at(response, "errors"@).len() > 0 {
        Err(joined(api_messages(elements_at(response, "errors"@)), "; "@))
    } else {
        match field(response, "data"@) {
            Some(data) => Ok(data),
            None => Err("response has no data field"@),
        }
    }
}

/// Extract the `data` value of a GraphQL response.
pub fn decode_graphql<'a>(response: &'a Json) -> (outcome: Result<&'a Json, Error>)
    ensures
        match response_data(*response) {
            Ok(data) => outcome is Ok && *outcome->Ok_0 == data,
            Err(message) => outcome is Err && is_api(outcome->Err_0, message),
        },
{
    if let Some(errors) = crate::json::elements(response, "errors") {
        if errors.len() > 0 {
            let mut messages: Vec<String> = Vec::new();
            let mut i: usize = 0;
            while i < errors.len()
                invariant
                    i <= errors.len(),
                    texts(messages@) == api_messages(errors@.take(i as int)),
                decreases errors.len() - i,
            {
                let ghost before = texts(messages@);
                let message = string_or(&errors[i], "message", "unknown GraphQL error");
                messages.push(message);
                assert(texts(messages@) =~= before.push(message@));
                assert(api_messages(errors@.take(i + 1)) =~= api_messages(
                    errors@.take(i as int),
                ).push(api_message(errors@[i as int])));
                i = i + 1;
            }
            assert(errors@.take(errors@.len() as int) =~= errors@);
            return Err(Error::GitHubApi(join(&messages, "; ")));
        }
    }
    match get(response, "data") {
        Some(data) => Ok(data),
        None => Err(Error::GitHubApi(copy("response has no data field"))),
    }
}

// ---------------------------------------------------------------- client

/// The pacing state of a client for the GitHub API via the `gh` CLI.
#[derive(Debug)]
pub struct GhClient {
    /// Primary rate limit: wait until reset before issuing a call.
    pub rate_limit: RateLimitTracker,
    /// Optional pacing delay between requests (bulk-sync politeness).
    pub inter_request_delay: Option<Pause>,
    /// When false, never wait.
    pub sleeping_enabled: bool,
    /// When the last search request was issued.
    pub last_search: Option<Instant>,
}

/// The waits before a call, in order: the politeness delay, then the primary
/// rate limit.
pub open spec fn waits(client: GhClient, now: Moment, pauses: Seq<Pause>) -> bool {
    let polite = client.inter_request_delay is Some;
    let limit = wait_of(client.rate_limit@, now);
    if !client.sleeping_enabled {
        pauses.len() == 0
    } else {
        &&& pauses.len() == (if polite {
            1int
        } else {
            0
        }) + (if limit is Some {
            1int
        } else {
            0
        })
        &&& polite ==> pauses[0] == client.inter_request_delay->Some_0
        &&& limit matches Some(nanos) ==> is_pause(pauses.last(), nanos)
    }
}

/// The nanoseconds that still have to pass before the next search request.
pub open spec fn search_wait(last_search: Option<Moment>, now: Moment) -> int {
    match last_search {
        Some(last) => {
            let left = SEARCH_SPACING_SECONDS * 1_000_000_000 - nanos_between(now, last);
            if left > 0 && nanos_between(now, last) >= 0 {
                left
            } else {
                0
            }
        },
        None => 0,
    }
}

impl GhClient {
    /// A client that has made no call yet.
    pub fn new() -> (client: GhClient)
        ensures
            client.rate_limit@ == (Budget { last_cost: None, remaining: None, reset_at: None }),
            client.inter_request_delay is None,
            client.sleeping_enabled,
            client.last_search is None,
    {
        GhClient {
            rate_limit: RateLimitTracker::new(),
            inter_request_delay: None,
            sleeping_enabled: true,
            last_search: None,
        }
    }

    /// Disable waiting.
    pub fn without_sleeping(self) -> (client: GhClient)
        ensures
            client == (GhClient { sleeping_enabled: false, ..self }),
    {
        GhClient {
            rate_limit: self.rate_limit,
            inter_request_delay: self.inter_request_delay,
            sleeping_enabled: false,
            last_search: self.last_search,
        }
    }

    /// Set an inter-request pacing delay.
    pub fn with_inter_request_delay(self, delay: Pause) -> (client: GhClient)
        ensures
            client == (GhClient { inter_request_delay: Some(delay), ..self }),
    {
        GhClient {
            rate_limit: self.rate_limit,
            inter_request_delay: Some(delay),
            sleeping_enabled: self.sleeping_enabled,
            last_search: self.last_search,
        }
    }

    /// How long to wait before the next call.
    pub fn pauses_before(&self, now: &Instant) -> (pauses: Vec<Pause>)
        ensures
            waits(*self, now@, pauses@),
    {
        let mut pauses: Vec<Pause> = Vec::new();
        if !self.sleeping_enabled {
            return pauses;
        }
        if let Some(delay) = self.inter_request_delay {
            pauses.push(delay);
        }
        if let Some(wait) = self.rate_limit.wait_needed(now) {
            pauses.push(wait);
        }
        pauses
    }

    /// Take note of a search request at `now` and say how long it has to wait
    /// for its turn.
    pub fn search_pause(&mut self, now: &Instant) -> (pause: Option<Pause>)
        ensures
            final(self).last_search == Some(*now),
            final(self).rate_limit@ == old(self).rate_limit@,
            final(self).inter_request_delay == old(self).inter_request_delay,
            final(self).sleeping_enabled == old(self).sleeping_enabled,
            match pause {
                Some(pause) => old(self).sleeping_enabled && search_wait(
                    opt_moment(old(self).last_search),
                    now@,
                ) > 0 && is_pause(pause, search_wait(opt_moment(old(self).last_search), now@)),
                None => !old(self).sleeping_enabled || search_wait(
                    opt_moment(old(self).last_search),
                    now@,
                ) == 0,
            },
    {
        let mut pause: Option<Pause> = None;
        if self.sleeping_enabled {
            if let Some(last) = self.last_search {
                if let Some(passed) = now.pause_since(&last) {
                    let spacing: u64 = SEARCH_SPACING_SECONDS as u64 * 1_000_000_000;
                    if passed.seconds < SEARCH_SPACING_SECONDS as u64 {
                        let left: u64 = spacing - (passed.seconds * 1_000_000_000
                            + passed.nanos as u64);
                        pause = Some(
                            Pause {
                                seconds: left / 1_000_000_000,
                                nanos: (left % 1_000_000_000) as u32,
                            },
                        );
                    }
                }
            }
        }
        self.last_search = Some(*now);
        pause
    }

    /// Take a GraphQL response: its `data`, with the rate limit it reports
    /// taken note of.
    pub fn accept<'a>(&mut self, response: &'a Json) -> (outcome: Result<&'a Json, Error>)
        ensures
            match response_data(*response) {
                Ok(data) => {
                    &&& outcome is Ok
                    &&& *outcome->Ok_0 == data
                    &&& final(self).rate_limit@ == (match field(data, "rateLimit"@) {
                        Some(block) => budget_in(block),
                        None => old(self).rate_limit@,
                    })
                },
                Err(message) => {
                    &&& outcome is Err
                    &&& is_api(outcome->Err_0, message)
                    &&& final(self).rate_limit@ == old(self).rate_limit@
                },
            },
            final(self).inter_request_delay == old(self).inter_request_delay,
            final(self).sleeping_enabled == old(self).sleeping_enabled,
            final(self).last_search == old(self).last_search,
    {
        let data = match decode_graphql(response) {
            Ok(data) => data,
            Err(error) => return Err(error),
        };
        if let Some(block) = get(data, "rateLimit") {
            self.rate_limit.observe(block);
        }
        Ok(data)
    }
}

impl Default for GhClient {
    fn default() -> (client: GhClient)
        ensures
            client.sleeping_enabled,
            client.inter_request_delay is None,
            client.last_search is None,
            client.rate_limit@ == (Budget { last_cost: None, remaining: None, reset_at: None }),
    {
        GhClient::new()
    }
}

/// Two searches are two seconds apart: what has passed since the last one and what is
/// waited make up two seconds at least, and nothing is waited beyond that.
pub proof fn law_searches_are_two_seconds_apart(last: Moment, now: Moment)
    requires
        nanos_between(now, last) >= 0,
    ensures
        nanos_between(now, last) + search_wait(Some(last), now) >= 2_000_000_000,
        search_wait(Some(last), now) >= 0,
        search_wait(Some(last), now) > 0 ==> nanos_between(now, last) + search_wait(Some(last), now)
            == 2_000_000_000,
        search_wait(None, now) == 0,
{
}

/// A call is tried seven times, and each wait is twice the one before.
pub proof fn law_each_wait_is_twice_the_one_before(failures: int)
    requires
        1 <= failures,
    ensures
        retry_of(failures, true) is Some <==> failures < 7,
        backoff(1) == 2,
        failures < 6 ==> backoff(failures + 1) == 2 * backoff(failures),
{
}

} // verus!
