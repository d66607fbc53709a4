//! The decisions of the TypeSafe System One client.
//!
//! One endpoint does the work: `POST /v1/systemone` takes a state plus a map
//! of typed questions and returns one answer per question. This module holds
//! what the client decides: the request and its local validation, the client
//! settings, how one HTTP outcome is judged, and what follows each attempt.
//! The network round-trips themselves are the caller's.

use vstd::prelude::*;

use crate::error::{status_error, TypeSafeError};
use crate::json::{detail_of, extract_detail, json_of};
use crate::ordered::{inserted, inserted_all, keys_of, Entries, OrderedMap};
use crate::question::{question_problem, Entry, Question};
use crate::retry::{default_statuses, delay_allowed, jitter_fits_at, parse_retry_after, RetryPolicy};
use crate::text::{chars_of, parsed_u64, string_of, trim, trimmed, truncate, truncated};
use crate::time::{nanos_per_second, Duration};

verus! {

/// Environment variable holding the API key.
pub const API_KEY_ENV: &'static str = "TYPESAFE_API_KEY";

/// Environment variable overriding the API base URL.
pub const BASE_URL_ENV: &'static str = "TYPESAFE_BASE_URL";

/// Default API base URL.
pub const DEFAULT_BASE_URL: &'static str = "https://api.typesafe.ai";

/// Default model alias. Moves when TypeSafe ships a new stable release; pin a
/// versioned id such as `jev-1.13.0` if confidence thresholds are tuned to one.
pub const DEFAULT_MODEL: &'static str = "jev-latest";

/// Default per-attempt request timeout, in seconds.
pub const DEFAULT_TIMEOUT_SECS: u64 = 30;

/// Whether `s` starts with `p`.
pub open spec fn has_prefix(s: Seq<char>, p: Seq<char>) -> bool {
    p.len() <= s.len() && s.take(p.len() as int) == p
}

/// `s` without its trailing slashes.
pub open spec fn strip_trailing_slashes(s: Seq<char>) -> Seq<char>
    decreases s.len(),
{
    if s.len() > 0 && s.last() == '/' {
        strip_trailing_slashes(s.drop_last())
    } else {
        s
    }
}

/// Whether `s` starts with `prefix`.
pub fn starts_with(s: &str, prefix: &str) -> (b: bool)
    ensures
        b == has_prefix(s@, prefix@),
{
    let v = chars_of(s);
    let p = chars_of(prefix);
    if p.len() > v.len() {
        return false;
    }
    let n = p.len();
    for i in 0..n
        invariant
            n == p@.len(),
            n <= v@.len(),
            v@ == s@,
            p@ == prefix@,
            forall|j: int| 0 <= j < i ==> v@[j] == p@[j],
    {
        if v[i] != p[i] {
            proof {
                assert(s@.take(n as int)[i as int] != prefix@[i as int]);
            }
            return false;
        }
    }
    proof {
        assert(s@.take(n as int) =~= prefix@);
    }
    true
}

/// `s` without its trailing slashes.
pub fn trim_trailing_slashes(s: &str) -> (r: String)
    ensures
        r@ == strip_trailing_slashes(s@),
{
    let v = chars_of(s);
    let mut end = v.len();
    assert(v@.take(end as int) =~= v@);
    while end > 0 && v[end - 1] == '/'
        invariant
            end <= v@.len(),
            v@ == s@,
            strip_trailing_slashes(s@) == strip_trailing_slashes(v@.take(end as int)),
        decreases end,
    {
        proof {
            assert(v@.take(end as int).drop_last() =~= v@.take(end - 1));
        }
        end = end - 1;
    }
    let mut kept: Vec<char> = Vec::new();
    for i in 0..end
        invariant
            end <= v@.len(),
            kept@ == v@.take(i as int),
    {
        kept.push(v[i]);
        proof {
            assert(kept@ =~= v@.take(i + 1));
        }
    }
    string_of(kept.as_slice())
}

/// One evaluation request: a state, a model, and the questions to ask about
/// it.
#[derive(Clone, Debug)]
pub struct Request {
    state: Entry,
    model: Option<String>,
    questions: OrderedMap<Question>,
}

/// The first question of `qs` with a local problem is at position `i`.
pub open spec fn is_first_invalid(qs: Entries<Question>, i: int) -> bool {
    &&& 0 <= i < qs.len()
    &&& question_problem(qs[i].1) is Some
    &&& forall|j: int| 0 <= j < i ==> question_problem(qs[j].1) is None
}

/// What validating a request with questions `qs` gives: `EmptyRequest` when
/// there are none, `InvalidQuestion` naming the first question with a local
/// problem and that problem, and success otherwise.
pub open spec fn validation_result(qs: Entries<Question>, r: Result<(), TypeSafeError>) -> bool {
    if qs.len() == 0 {
        r matches Err(TypeSafeError::EmptyRequest)
    } else if exists|i: int| is_first_invalid(qs, i) {
        r matches Err(TypeSafeError::InvalidQuestion { id, reason }) && exists|i: int|
            is_first_invalid(qs, i) && id@ == qs[i].0 && reason@ == question_problem(qs[i].1)->Some_0
    } else {
        r is Ok
    }
}

impl Request {
    /// The state the questions are about.
    pub closed spec fn state_of(&self) -> Entry {
        self.state
    }

    /// The model the request names, if any.
    pub closed spec fn model_of(&self) -> Option<Seq<char>> {
        match self.model {
            Some(m) => Some(m@),
            None => None,
        }
    }

    /// The questions by id, in the order they were first asked.
    pub closed spec fn questions_of(&self) -> Entries<Question> {
        self.questions@
    }

    /// Start a request for one state, with no questions and no model.
    pub fn new(state: Entry) -> (r: Self)
        ensures
            r.state_of() == state,
            r.model_of() is None,
            r.questions_of() == Seq::<(Seq<char>, Question)>::empty(),
    {
        Request { state, model: None, questions: OrderedMap::new() }
    }

    /// Add a question under an id of your choosing. The id is not sent to the
    /// model; it is how you find the answer in the response. Asking again
    /// under an id replaces that question in place.
    pub fn ask(self, id: &str, question: Question) -> (r: Self)
        ensures
            r.state_of() == self.state_of(),
            r.model_of() == self.model_of(),
            r.questions_of() == inserted(self.questions_of(), id@, question),
    {
        let mut r = self;
        r.questions.insert(id, question);
        r
    }

    /// Add several questions at once, in order.
    pub fn ask_all(self, questions: Vec<(&str, Question)>) -> (r: Self)
        ensures
            r.state_of() == self.state_of(),
            r.model_of() == self.model_of(),
            r.questions_of() == inserted_all(
                self.questions_of(),
                questions@.map_values(|q: (&str, Question)| (q.0@, q.1)),
            ),
    {
        let ghost all = questions@.map_values(|q: (&str, Question)| (q.0@, q.1));
        let ghost start = self.questions_of();
        let mut r = self;
        for q in it: questions.into_iter()
            invariant
                all == it.seq().map_values(|q: (&str, Question)| (q.0@, q.1)),
                r.questions_of() == inserted_all(start, all.take(it.index() as int)),
                r.state_of() == self.state_of(),
                r.model_of() == self.model_of(),
        {
            let (id, question) = q;
            proof {
                assert(all.take(it.index() as int + 1).drop_last() =~= all.take(it.index() as int));
            }
            r.questions.insert(id, question);
        }
        proof {
            assert(all.take(all.len() as int) =~= all);
        }
        r
    }

    /// Override the client's default model for this request.
    pub fn model(self, model: &str) -> (r: Self)
        ensures
            r.state_of() == self.state_of(),
            r.model_of() == Some(model@),
            r.questions_of() == self.questions_of(),
    {
        let mut r = self;
        r.model = Some(String::from_str(model));
        r
    }

    /// The question ids, in order.
    pub fn question_ids(&self) -> (ids: Vec<&str>)
        ensures
            ids@.map_values(|k: &str| k@) == keys_of(self.questions_of()),
    {
        self.questions.keys()
    }

    /// The number of questions.
    pub fn len(&self) -> (n: usize)
        ensures
            n == self.questions_of().len(),
    {
        self.questions.len()
    }

    /// Whether the request has no questions.
    pub fn is_empty(&self) -> (b: bool)
        ensures
            b == (self.questions_of().len() == 0),
    {
        self.questions.is_empty()
    }

    /// The state the questions are about.
    pub fn state(&self) -> (s: &Entry)
        ensures
            *s == self.state_of(),
    {
        &self.state
    }

    /// The questions by id.
    pub fn questions(&self) -> (q: &OrderedMap<Question>)
        ensures
            q@ == self.questions_of(),
    {
        &self.questions
    }

    /// The model this request names, if any.
    pub fn requested_model(&self) -> (m: Option<&str>)
        ensures
            match self.model_of() {
                Some(name) => m matches Some(s) && s@ == name,
                None => m is None,
            },
    {
        match &self.model {
            Some(m) => Some(m.as_str()),
            None => None,
        }
    }

    /// Catch locally what would otherwise come back as a 422.
    pub fn validate(&self) -> (r: Result<(), TypeSafeError>)
        ensures
            validation_result(self.questions_of(), r),
    {
        if self.questions.is_empty() {
            return Err(TypeSafeError::EmptyRequest);
        }
        let entries = self.questions.iter();
        let n = entries.len();
        let ghost qs = self.questions_of();
        for i in 0..n
            invariant
                n == entries@.len(),
                n == qs.len(),
                qs == self.questions_of(),
                qs.len() > 0,
                forall|j: int|
                    #![trigger entries@[j]]
                    0 <= j < entries@.len() ==> entries@[j].0@ == qs[j].0 && *entries@[j].1
                        == qs[j].1,
                forall|j: int| 0 <= j < i ==> question_problem(#[trigger] qs[j].1) is None,
        {
            let (id, question) = entries[i];
            match question.validate() {
                Ok(()) => {},
                Err(reason) => {
                    proof {
                        assert(is_first_invalid(qs, i as int));
                    }
                    return Err(TypeSafeError::InvalidQuestion { id: String::from_str(id), reason });
                },
            }
        }
        proof {
            assert forall|i: int| !is_first_invalid(qs, i) by {
                if is_first_invalid(qs, i) {
                    assert(question_problem(qs[i].1) is None);
                }
            }
        }
        Ok(())
    }
}

/// Metadata for a model the account can use.
#[derive(Clone, Debug)]
pub struct ModelCard {
    pub name: String,
    pub description: String,
    pub release_date: String,
}

/// The model list envelopes the models endpoint has been seen to use: a bare
/// array, or one wrapped under `data` or `models`.
#[derive(Debug)]
pub enum ModelList {
    Bare(Vec<ModelCard>),
    Wrapped { data: Vec<ModelCard> },
    Named { models: Vec<ModelCard> },
}

impl ModelList {
    /// The model cards, whatever the envelope.
    pub fn into_vec(self) -> (v: Vec<ModelCard>)
        ensures
            v == match self {
                ModelList::Bare(v) => v,
                ModelList::Wrapped { data } => data,
                ModelList::Named { models } => models,
            },
    {
        match self {
            ModelList::Bare(v) => v,
            ModelList::Wrapped { data } => data,
            ModelList::Named { models } => models,
        }
    }
}

/// How to reach TypeSafe.
#[derive(Clone)]
pub struct ClientConfig {
    /// API key. Falls back to `TYPESAFE_API_KEY` when absent or blank.
    pub api_key: Option<String>,
    /// Base URL. Falls back to `TYPESAFE_BASE_URL`, then [`DEFAULT_BASE_URL`].
    pub base_url: Option<String>,
    /// Model used when a request does not name one.
    pub default_model: String,
    /// Per-attempt timeout. Retries each get their own.
    pub timeout: Duration,
    pub retry: RetryPolicy,
}

impl Default for ClientConfig {
    fn default() -> (c: Self)
        ensures
            c.api_key is None,
            c.base_url is None,
            c.default_model@ == DEFAULT_MODEL@,
            c.timeout@ == DEFAULT_TIMEOUT_SECS * nanos_per_second(),
            c.retry.max_retries == 2,
            c.retry.backoff_jitter == 250_000,
            c.retry.backoff_initial@ == 500_000_000,
            c.retry.backoff_max@ == 5_000_000_000,
            c.retry.retry_statuses@ == default_statuses(),
            c.retry.respect_retry_after,
            c.retry.retry_on_connection_error,
            c.retry.retry_on_timeout,
    {
        ClientConfig {
            api_key: None,
            base_url: None,
            default_model: String::from_str(DEFAULT_MODEL),
            timeout: Duration::from_secs(DEFAULT_TIMEOUT_SECS),
            retry: RetryPolicy::default(),
        }
    }
}

/// The first of two options that is present.
pub open spec fn either<T>(first: Option<T>, fallback: Option<T>) -> Option<T> {
    match first {
        Some(v) => Some(v),
        None => fallback,
    }
}

/// A key trimmed, or none when it is absent or blank.
pub open spec fn usable_key(key: Option<String>) -> Option<Seq<char>> {
    match key {
        Some(k) => if trimmed(k@).len() > 0 {
            Some(trimmed(k@))
        } else {
            None
        },
        None => None,
    }
}

/// The API key a client uses: the configured one trimmed, or, when that is
/// absent or blank, the environment's trimmed; none when both are absent or
/// blank.
pub open spec fn resolved_key(configured: Option<String>, from_env: Option<String>) -> Option<
    Seq<char>,
> {
    either(usable_key(configured), usable_key(from_env))
}

/// The base URL a client uses: the configured one, else the environment's,
/// else the default, without trailing slashes.
pub open spec fn resolved_base_url(configured: Option<String>, from_env: Option<String>) -> Seq<
    char,
> {
    strip_trailing_slashes(
        match either(configured, from_env) {
            Some(u) => u@,
            None => DEFAULT_BASE_URL@,
        },
    )
}

/// Whether a base URL names the HTTP or HTTPS scheme.
pub open spec fn web_url(u: Seq<char>) -> bool {
    has_prefix(u, "http://"@) || has_prefix(u, "https://"@)
}

/// A key trimmed, or none when it is absent or blank.
fn usable(key: Option<String>) -> (r: Option<String>)
    ensures
        match usable_key(key) {
            Some(k) => r matches Some(s) && s@ == k,
            None => r is None,
        },
{
    match key {
        Some(k) => {
            let t = trim(k.as_str());
            if t.as_str().unicode_len() == 0 {
                None
            } else {
                Some(t)
            }
        },
        None => None,
    }
}

/// The settings of a TypeSafe client. The API key is never part of any
/// output of this type but [`Client::api_key`].
#[derive(Clone)]
pub struct Client {
    api_key: String,
    base_url: String,
    default_model: String,
    timeout: Duration,
    retry: RetryPolicy,
}

/// The URL and model one evaluation goes to.
#[derive(Debug)]
pub struct Call {
    pub url: String,
    pub model: String,
}

/// The outcome of one HTTP attempt, as the transport saw it.
#[derive(Debug)]
pub enum Outcome {
    /// The attempt ran out of time.
    TimedOut,
    /// The server could not be reached; the transport's message.
    Unreachable(String),
    /// The server answered with `status`, the `retry-after` header's text if
    /// it sent a readable one, and the body or the error reading it.
    Answered { status: u16, retry_after: Option<String>, body: Result<String, String> },
}

/// What one attempt came to.
#[derive(Debug)]
pub enum Attempt<T> {
    /// A successful response.
    Done(T),
    /// A failure worth another attempt, with the server's delay if it sent one.
    Retry(TypeSafeError, Option<Duration>),
    /// A failure that ends the call.
    Fail(TypeSafeError),
}

/// What the caller does next.
#[derive(Debug)]
pub enum Step<T> {
    /// The call is over with this result.
    Finished(Result<T, TypeSafeError>),
    /// Wait `delay`, then make the next attempt, the `retries`-th retry.
    Wait { retries: u32, delay: Duration },
}

/// Whether a call goes on after an attempt that came to `attempt`, when
/// `retries` retries were already made under a limit of `max`.
pub open spec fn keeps_going<T>(max: u32, retries: nat, attempt: Attempt<T>) -> bool {
    attempt is Retry && retries < max
}

/// The result a call ends with when it stops at an attempt that came to
/// `attempt`.
pub open spec fn result_of<T>(attempt: Attempt<T>) -> Result<T, TypeSafeError> {
    match attempt {
        Attempt::Done(v) => Ok(v),
        Attempt::Retry(e, _) => Err(e),
        Attempt::Fail(e) => Err(e),
    }
}

/// How many attempts a call makes under a limit of `max` retries when its
/// attempts come to `outcomes` in turn, counting from the attempt at index
/// `k`, made after `k` retries.
pub open spec fn attempts_made<T>(max: u32, outcomes: Seq<Attempt<T>>, k: nat) -> nat
    decreases outcomes.len() - k,
{
    if k >= outcomes.len() {
        k
    } else if keeps_going(max, k, outcomes[k as int]) {
        attempts_made(max, outcomes, k + 1)
    } else {
        k + 1
    }
}

/// The delay a `retry-after` header's text asks for: whole seconds only.
pub open spec fn header_delay(header: Option<String>) -> Option<nat> {
    match header {
        Some(h) => match parsed_u64(trimmed(h@)) {
            Some(secs) => Some((secs * nanos_per_second()) as nat),
            None => None,
        },
        None => None,
    }
}

/// Whether a status is a success (2xx).
pub open spec fn is_success(status: u16) -> bool {
    200 <= status < 300
}

/// Only a 2xx status is a success: a 3xx, like any status outside
/// `200..300`, is judged as the error for its status, and a redirect is an
/// unexpected status.
pub proof fn lemma_success_is_2xx(status: u16, retry_after: Option<Duration>, detail: Option<String>)
    ensures
        is_success(status) <==> (200 <= status && status < 300),
        300 <= status < 400 ==> status_error(status, retry_after, detail) == (
        TypeSafeError::UnexpectedStatus { status, detail }),
{
}

impl Client {
    /// The API key.
    pub closed spec fn key_of(&self) -> Seq<char> {
        self.api_key@
    }

    /// The base URL, without trailing slashes.
    pub closed spec fn base_url_of(&self) -> Seq<char> {
        self.base_url@
    }

    /// The model used when a request names none.
    pub closed spec fn default_model_of(&self) -> Seq<char> {
        self.default_model@
    }

    /// The per-attempt timeout.
    pub closed spec fn timeout_of(&self) -> Duration {
        self.timeout
    }

    /// The retry policy.
    pub closed spec fn retry_of(&self) -> RetryPolicy {
        self.retry
    }

    /// Build the client settings, taking the key and base URL from the
    /// environment values when the config leaves them unset.
    pub fn new(config: ClientConfig, env_api_key: Option<String>, env_base_url: Option<String>) -> (r:
        Result<Self, TypeSafeError>)
        ensures
            match resolved_key(config.api_key, env_api_key) {
                None => r matches Err(TypeSafeError::MissingApiKey),
                Some(key) => {
                    let base = resolved_base_url(config.base_url, env_base_url);
                    if web_url(base) {
                        r matches Ok(c) && c.key_of() == key && c.base_url_of() == base
                            && c.default_model_of() == config.default_model@ && c.timeout_of()
                            == config.timeout && c.retry_of() == config.retry
                    } else {
                        r matches Err(TypeSafeError::InvalidBaseUrl(u)) && u@ == base
                    }
                },
            },
    {
        let api_key = match usable(config.api_key) {
            Some(k) => k,
            None => match usable(env_api_key) {
                Some(k) => k,
                None => {
                    return Err(TypeSafeError::MissingApiKey);
                },
            },
        };
        let chosen_base = match config.base_url {
            Some(u) => u,
            None => match env_base_url {
                Some(u) => u,
                None => String::from_str(DEFAULT_BASE_URL),
            },
        };
        let base_url = trim_trailing_slashes(chosen_base.as_str());
        if !starts_with(base_url.as_str(), "http://") && !starts_with(base_url.as_str(), "https://") {
            return Err(TypeSafeError::InvalidBaseUrl(base_url));
        }
        Ok(
            Client {
                api_key,
                base_url,
                default_model: config.default_model,
                timeout: config.timeout,
                retry: config.retry,
            },
        )
    }

    /// The base URL, without trailing slashes.
    pub fn base_url(&self) -> (u: &str)
        ensures
            u@ == self.base_url_of(),
    {
        self.base_url.as_str()
    }

    /// The model used when a request names none.
    pub fn default_model(&self) -> (m: &str)
        ensures
            m@ == self.default_model_of(),
    {
        self.default_model.as_str()
    }

    /// The API key, for the `Authorization` header.
    pub fn api_key(&self) -> (k: &str)
        ensures
            k@ == self.key_of(),
    {
        self.api_key.as_str()
    }

    /// The per-attempt timeout.
    pub fn timeout(&self) -> (t: Duration)
        ensures
            t == self.timeout_of(),
    {
        self.timeout
    }

    /// The retry policy.
    pub fn retry_policy(&self) -> (p: &RetryPolicy)
        ensures
            *p == self.retry_of(),
    {
        &self.retry
    }

    /// Where and with which model to evaluate `request`, once it passes local
    /// validation; the validation error otherwise.
    pub fn prepare(&self, request: &Request) -> (r: Result<Call, TypeSafeError>)
        ensures
            match r {
                Err(e) => validation_result(request.questions_of(), Err(e)),
                Ok(call) => {
                    &&& validation_result(request.questions_of(), Ok(()))
                    &&& call.url@ == self.base_url_of() + "/v1/systemone"@
                    &&& call.model@ == match request.model_of() {
                        Some(m) => m,
                        None => self.default_model_of(),
                    }
                },
            },
    {
        match request.validate() {
            Err(e) => Err(e),
            Ok(()) => {
                let model = match request.requested_model() {
                    Some(m) => String::from_str(m),
                    None => self.default_model.clone(),
                };
                let url = self.base_url.clone().concat("/v1/systemone");
                Ok(Call { url, model })
            },
        }
    }

    /// The URL of the model list.
    pub fn models_url(&self) -> (u: String)
        ensures
            u@ == self.base_url_of() + "/v1/models"@,
    {
        self.base_url.clone().concat("/v1/models")
    }

    /// Judge one HTTP outcome: a timeout or connection failure is retried
    /// when the policy says so, a 2xx body is done, and any other status
    /// becomes its error, retried when the policy lists the status.
    pub fn assess(&self, outcome: Outcome) -> (a: Attempt<String>)
        ensures
            match outcome {
                Outcome::TimedOut => if self.retry_of().retry_on_timeout {
                    a == Attempt::<String>::Retry(TypeSafeError::Timeout(self.timeout_of()), None)
                } else {
                    a == Attempt::<String>::Fail(TypeSafeError::Timeout(self.timeout_of()))
                },
                Outcome::Unreachable(m) => if self.retry_of().retry_on_connection_error {
                    a == Attempt::<String>::Retry(TypeSafeError::Connection(m), None)
                } else {
                    a == Attempt::<String>::Fail(TypeSafeError::Connection(m))
                },
                Outcome::Answered { status, retry_after, body } => match body {
                    Err(m) => a == Attempt::<String>::Fail(TypeSafeError::Decode(m)),
                    Ok(text) => if is_success(status) {
                        a == Attempt::<String>::Done(text)
                    } else {
                        let delay = header_delay(retry_after);
                        let detail = detail_of(text@, json_of(text@));
                        if self.retry_of().retry_statuses@.contains(status) {
                            a matches Attempt::Retry(e, d) && same_delay(d, delay) && status_shape(
                                e,
                                status,
                                d,
                                detail,
                            )
                        } else {
                            a matches Attempt::Fail(e) && exists|d: Option<Duration>|
                                same_delay(d, delay) && #[trigger] status_shape(e, status, d, detail)
                        }
                    },
                },
            },
    {
        match outcome {
            Outcome::TimedOut => {
                let err = TypeSafeError::Timeout(self.timeout);
                if self.retry.retry_on_timeout {
                    Attempt::Retry(err, None)
                } else {
                    Attempt::Fail(err)
                }
            },
            Outcome::Unreachable(m) => {
                let err = TypeSafeError::Connection(m);
                if self.retry.retry_on_connection_error {
                    Attempt::Retry(err, None)
                } else {
                    Attempt::Fail(err)
                }
            },
            Outcome::Answered { status, retry_after, body } => {
                let delay = match &retry_after {
                    Some(h) => parse_retry_after(h.as_str()),
                    None => None,
                };
                let text = match body {
                    Ok(b) => b,
                    Err(m) => {
                        return Attempt::Fail(TypeSafeError::Decode(m));
                    },
                };
                if 200 <= status && status < 300 {
                    return Attempt::Done(text);
                }
                let detail = extract_detail(text.as_str());
                let err = TypeSafeError::from_status(status, delay, detail);
                proof {
                    let ghost shown = detail_of(text@, json_of(text@));
                    assert(match detail {
                        Some(t) => shown == Some(t@),
                        None => shown is None,
                    });
                    assert(status_shape(err, status, delay, shown));
                    assert(same_delay(delay, header_delay(retry_after)));
                }
                if self.retry.retries_status(status) {
                    Attempt::Retry(err, delay)
                } else {
                    Attempt::Fail(err)
                }
            },
        }
    }

    /// Decide what follows an attempt, given how many retries were already
    /// made: a success or a final failure ends the call, and a retryable
    /// failure waits for the next attempt while retries remain.
    pub fn next_step<T>(&self, retries: u32, attempt: Attempt<T>) -> (s: Step<T>)
        requires
            match attempt {
                Attempt::Retry(_, after) => retries < self.retry_of().max_retries && !(
                self.retry_of().respect_retry_after && after is Some) ==> jitter_fits_at(
                    self.retry_of(),
                    (retries + 1) as u32,
                ),
                _ => true,
            },
        ensures
            match attempt {
                Attempt::Done(v) => s == Step::Finished(Ok::<T, TypeSafeError>(v)),
                Attempt::Fail(e) => s == Step::<T>::Finished(Err(e)),
                Attempt::Retry(e, after) => if retries >= self.retry_of().max_retries {
                    s == Step::<T>::Finished(Err(e))
                } else {
                    s matches Step::Wait { retries: next, delay } && next == retries + 1
                        && delay_allowed(self.retry_of(), next, after, delay)
                },
            },
            (s is Wait) <==> keeps_going(self.retry_of().max_retries, retries as nat, attempt),
            s matches Step::Finished(r) ==> r == result_of(attempt),
    {
        match attempt {
            Attempt::Done(v) => Step::Finished(Ok(v)),
            Attempt::Fail(e) => Step::Finished(Err(e)),
            Attempt::Retry(e, after) => {
                if retries >= self.retry.max_retries {
                    Step::Finished(Err(e))
                } else {
                    let next = retries + 1;
                    Step::Wait { retries: next, delay: self.retry.delay_for(next, after) }
                }
            },
        }
    }
}

/// A call whose attempts come to `outcomes` in turn, stepped by
/// [`Client::next_step`] from no retries, makes attempts until the first
/// that succeeds or fails for good, and never more than `max + 1`; every
/// attempt before the last was retryable. At the last one `next_step` does
/// not wait, so the call ends with its [`result_of`].
pub proof fn lemma_attempts_of_a_call<T>(max: u32, outcomes: Seq<Attempt<T>>)
    requires
        outcomes.len() > max,
    ensures
        ({
            let n = attempts_made(max, outcomes, 0);
            &&& 1 <= n <= max + 1
            &&& forall|k: int| 0 <= k < n - 1 ==> #[trigger] outcomes[k] is Retry
            &&& forall|k: int| 0 <= k < n - 1 ==> keeps_going(max, k as nat, #[trigger] outcomes[k])
            &&& n == max + 1 || !(outcomes[n - 1] is Retry)
            &&& !keeps_going(max, (n - 1) as nat, outcomes[n - 1])
        }),
{
    lemma_attempts_from(max, outcomes, 0);
}

proof fn lemma_attempts_from<T>(max: u32, outcomes: Seq<Attempt<T>>, k: nat)
    requires
        k <= max,
        outcomes.len() > max,
    ensures
        ({
            let n = attempts_made(max, outcomes, k);
            &&& k + 1 <= n <= max + 1
            &&& forall|i: int| k <= i < n - 1 ==> keeps_going(max, i as nat, #[trigger] outcomes[i])
            &&& !keeps_going(max, (n - 1) as nat, outcomes[n - 1])
        }),
    decreases max - k,
{
    if keeps_going(max, k, outcomes[k as int]) {
        lemma_attempts_from(max, outcomes, k + 1);
    }
}

/// `d` is the span `delay` names, or absent when `delay` is.
pub open spec fn same_delay(d: Option<Duration>, delay: Option<nat>) -> bool {
    match d {
        Some(x) => delay == Some(x@),
        None => delay is None,
    }
}

/// A base URL with its trailing slashes stripped never ends in a slash.
pub proof fn lemma_stripped_has_no_trailing_slash(s: Seq<char>)
    ensures
        strip_trailing_slashes(s).len() == 0 || strip_trailing_slashes(s).last() != '/',
        has_prefix(s, strip_trailing_slashes(s)),
    decreases s.len(),
{
    if s.len() > 0 && s.last() == '/' {
        lemma_stripped_has_no_trailing_slash(s.drop_last());
        let t = strip_trailing_slashes(s.drop_last());
        assert(s.take(t.len() as int) =~= s.drop_last().take(t.len() as int));
    } else {
        assert(s.take(s.len() as int) =~= s);
    }
}

/// Every client that `Client::new` builds has a base URL that names the
/// HTTP or HTTPS scheme and does not end in a slash, and a key that is not
/// blank.
pub proof fn lemma_built_client_settings(
    config: ClientConfig,
    env_api_key: Option<String>,
    env_base_url: Option<String>,
)
    requires
        resolved_key(config.api_key, env_api_key) is Some,
        web_url(resolved_base_url(config.base_url, env_base_url)),
    ensures
        ({
            let u = resolved_base_url(config.base_url, env_base_url);
            u.len() > 0 && u.last() != '/'
        }),
        resolved_key(config.api_key, env_api_key)->Some_0.len() > 0,
{
    let raw = match either(config.base_url, env_base_url) {
        Some(u) => u@,
        None => DEFAULT_BASE_URL@,
    };
    lemma_stripped_has_no_trailing_slash(raw);
    let u = resolved_base_url(config.base_url, env_base_url);
    if has_prefix(u, "http://"@) {
        reveal_strlit("http://");
    } else {
        reveal_strlit("https://");
    }
}

/// `e` is the error of HTTP status `status` with delay `d` and a detail
/// whose text is `detail`.
pub open spec fn status_shape(
    e: TypeSafeError,
    status: u16,
    d: Option<Duration>,
    detail: Option<Seq<char>>,
) -> bool {
    exists|s: Option<String>|
        (match s {
            Some(t) => detail == Some(t@),
            None => detail is None,
        }) && e == status_error(status, d, s)
}

/// The error for a success body that would not decode: the decoder's
/// message, then the body trimmed and cut to 200 characters.
pub fn decode_failure(message: &str, body: &str) -> (e: TypeSafeError)
    ensures
        e matches TypeSafeError::Decode(m) && m@ == message@ + " (body: "@ + truncated(body@, 200)
            + ")"@,
{
    let cut = truncate(body, 200);
    TypeSafeError::Decode(String::from_str(message).concat(" (body: ").concat(cut.as_str()).concat(")"))
}

} // verus!
