//! What the HTTP surface needs of the library: errors with their status
//! codes, paging defaults, and a limit on requests per client.

use crate::text::{push_text, same_text};
use std::time::{Duration, Instant};
use vstd::prelude::*;

verus! {

/// What a request can fail with, each kind with its message.
#[derive(Debug)]
pub enum AppError {
    DatabaseError(String),
    NotFound(String),
    ValidationError(String),
    BadRequest(String),
    Unauthorized(String),
    InternalError(String),
    LlmError(String),
}

/// The body of an error response.
#[derive(Debug, Clone)]
pub struct ErrorResponse {
    pub error: String,
    pub message: String,
    pub status: u16,
    pub details: Option<String>,
}

impl AppError {
    /// The message that the error carries.
    pub open spec fn message(&self) -> Seq<char> {
        match self {
            AppError::DatabaseError(m) => m@,
            AppError::NotFound(m) => m@,
            AppError::ValidationError(m) => m@,
            AppError::BadRequest(m) => m@,
            AppError::Unauthorized(m) => m@,
            AppError::InternalError(m) => m@,
            AppError::LlmError(m) => m@,
        }
    }

    /// The words that introduce an error of this kind.
    pub open spec fn label(&self) -> Seq<char> {
        match self {
            AppError::DatabaseError(_) => "Database error: "@,
            AppError::NotFound(_) => "Not found: "@,
            AppError::ValidationError(_) => "Validation error: "@,
            AppError::BadRequest(_) => "Bad request: "@,
            AppError::Unauthorized(_) => "Unauthorized: "@,
            AppError::InternalError(_) => "Internal error: "@,
            AppError::LlmError(_) => "LLM error: "@,
        }
    }

    /// The HTTP status that answers an error of this kind.
    pub open spec fn status(&self) -> u16 {
        match self {
            AppError::DatabaseError(_) => 500,
            AppError::NotFound(_) => 404,
            AppError::ValidationError(_) => 400,
            AppError::BadRequest(_) => 400,
            AppError::Unauthorized(_) => 401,
            AppError::InternalError(_) => 500,
            AppError::LlmError(_) => 503,
        }
    }

    /// The name of the kind in a response.
    pub open spec fn kind(&self) -> Seq<char> {
        match self {
            AppError::DatabaseError(_) => "database_error"@,
            AppError::NotFound(_) => "not_found"@,
            AppError::ValidationError(_) => "validation_error"@,
            AppError::BadRequest(_) => "bad_request"@,
            AppError::Unauthorized(_) => "unauthorized"@,
            AppError::InternalError(_) => "internal_error"@,
            AppError::LlmError(_) => "llm_error"@,
        }
    }

    fn label_text(&self) -> (r: &'static str)
        ensures
            r@ == self.label(),
    {
        match self {
            AppError::DatabaseError(_) => "Database error: ",
            AppError::NotFound(_) => "Not found: ",
            AppError::ValidationError(_) => "Validation error: ",
            AppError::BadRequest(_) => "Bad request: ",
            AppError::Unauthorized(_) => "Unauthorized: ",
            AppError::InternalError(_) => "Internal error: ",
            AppError::LlmError(_) => "LLM error: ",
        }
    }

    fn message_text(&self) -> (r: &String)
        ensures
            r@ == self.message(),
    {
        match self {
            AppError::DatabaseError(m) => m,
            AppError::NotFound(m) => m,
            AppError::ValidationError(m) => m,
            AppError::BadRequest(m) => m,
            AppError::Unauthorized(m) => m,
            AppError::InternalError(m) => m,
            AppError::LlmError(m) => m,
        }
    }

    /// The error as one line: its kind, then its message.
    pub fn to_string(&self) -> (r: String)
        ensures
            r@ == self.label() + self.message(),
    {
        let mut r = String::new();
        push_text(&mut r, self.label_text());
        push_text(&mut r, self.message_text().as_str());
        assert(r@ =~= self.label() + self.message());
        r
    }

    /// The HTTP status that answers the error.
    pub fn status_code(&self) -> (r: u16)
        ensures
            r == self.status(),
    {
        match self {
            AppError::DatabaseError(_) => 500,
            AppError::NotFound(_) => 404,
            AppError::ValidationError(_) => 400,
            AppError::BadRequest(_) => 400,
            AppError::Unauthorized(_) => 401,
            AppError::InternalError(_) => 500,
            AppError::LlmError(_) => 503,
        }
    }

    /// The name of the kind in a response.
    pub fn error_type(&self) -> (r: &'static str)
        ensures
            r@ == self.kind(),
    {
        match self {
            AppError::DatabaseError(_) => "database_error",
            AppError::NotFound(_) => "not_found",
            AppError::ValidationError(_) => "validation_error",
            AppError::BadRequest(_) => "bad_request",
            AppError::Unauthorized(_) => "unauthorized",
            AppError::InternalError(_) => "internal_error",
            AppError::LlmError(_) => "llm_error",
        }
    }

    /// The body of the response that answers the error.
    pub fn to_response(&self) -> (r: ErrorResponse)
        ensures
            r.error@ == self.kind(),
            r.message@ == self.label() + self.message(),
            r.status == self.status(),
            r.details is None,
    {
        ErrorResponse {
            error: self.error_type().to_owned(),
            message: self.to_string(),
            status: self.status_code(),
            details: None,
        }
    }
}

/// The page that a listing shows where none is asked for.
pub fn default_page() -> (r: usize)
    ensures
        r == 1,
{
    1
}

/// The number of items on a page where none is asked for.
pub fn default_per_page() -> (r: usize)
    ensures
        r == 10,
{
    10
}

/// `std::time::Instant`, a moment on the monotonic clock, of which
/// nothing is known but that it can be handed on.
#[verifier::external_type_specification]
#[verifier::external_body]
pub struct ExInstant(Instant);

/// `Instant::now`: this moment on the monotonic clock.
#[verifier::external_body]
fn monotonic_now() -> (now: Instant) {
    Instant::now()
}

/// `Instant::elapsed`: the time that has passed since `origin`, whatever
/// the clock says.
#[verifier::external_body]
fn elapsed_since(origin: &Instant) -> (elapsed: Duration) {
    origin.elapsed()
}

/// `Duration::as_nanos`: the length of `d` in nanoseconds.
#[verifier::external_body]
fn nanos_of(d: &Duration) -> (nanos: u128) {
    d.as_nanos()
}

/// The requests of one client that still count.
pub struct ClientWindow {
    pub ip: String,
    pub times: Vec<u128>,
}

/// Admits each client up to a number of requests within a window of
/// time. Times are nanoseconds since the limiter was made.
pub struct RateLimiter {
    started: Instant,
    requests: Vec<ClientWindow>,
    max_requests: usize,
    window: u128,
}

/// The times on record for the client `ip`: those of the first entry
/// under that address, none where there is no entry.
pub open spec fn times_of(entries: Seq<ClientWindow>, ip: Seq<char>) -> Seq<u128>
    decreases entries.len(),
{
    if entries.len() == 0 {
        seq![]
    } else if entries[0].ip@ == ip {
        entries[0].times@
    } else {
        times_of(entries.drop_first(), ip)
    }
}

/// How long before `now` the time `t` lies; nothing where it does not
/// lie before.
pub open spec fn age(now: u128, t: u128) -> int {
    if now >= t {
        now - t
    } else {
        0
    }
}

/// The times of `times` that lie less than `window` before `now`, in
/// order.
pub open spec fn recent(times: Seq<u128>, now: u128, window: u128) -> Seq<u128>
    decreases times.len(),
{
    if times.len() == 0 {
        times
    } else if age(now, times.last()) < window {
        recent(times.drop_last(), now, window).push(times.last())
    } else {
        recent(times.drop_last(), now, window)
    }
}

proof fn lemma_times_of_first(entries: Seq<ClientWindow>, ip: Seq<char>, idx: int)
    requires
        0 <= idx < entries.len(),
        entries[idx].ip@ == ip,
        forall|j: int| 0 <= j < idx ==> (#[trigger] entries[j]).ip@ != ip,
    ensures
        times_of(entries, ip) == entries[idx].times@,
    decreases idx,
{
    if idx > 0 {
        let rest = entries.drop_first();
        assert forall|j: int| 0 <= j < idx - 1 implies (#[trigger] rest[j]).ip@ != ip by {
            assert(rest[j] == entries[j + 1]);
        }
        lemma_times_of_first(rest, ip, idx - 1);
    }
}

proof fn lemma_times_of_absent(entries: Seq<ClientWindow>, ip: Seq<char>)
    requires
        forall|j: int| 0 <= j < entries.len() ==> (#[trigger] entries[j]).ip@ != ip,
    ensures
        times_of(entries, ip) == Seq::<u128>::empty(),
    decreases entries.len(),
{
    if entries.len() > 0 {
        let rest = entries.drop_first();
        assert forall|j: int| 0 <= j < rest.len() implies (#[trigger] rest[j]).ip@ != ip by {
            assert(rest[j] == entries[j + 1]);
        }
        lemma_times_of_absent(rest, ip);
    }
}

proof fn lemma_times_of_other(
    entries: Seq<ClientWindow>,
    idx: int,
    entry: ClientWindow,
    other: Seq<char>,
)
    requires
        0 <= idx < entries.len(),
        entry.ip@ == entries[idx].ip@,
        other != entry.ip@,
    ensures
        times_of(entries.update(idx, entry), other) == times_of(entries, other),
    decreases idx,
{
    let changed = entries.update(idx, entry);
    if idx > 0 {
        assert(changed.drop_first() =~= entries.drop_first().update(idx - 1, entry));
        lemma_times_of_other(entries.drop_first(), idx - 1, entry, other);
    } else {
        assert(changed.drop_first() =~= entries.drop_first());
    }
}

proof fn lemma_times_of_pushed(entries: Seq<ClientWindow>, entry: ClientWindow, other: Seq<char>)
    requires
        other != entry.ip@,
    ensures
        times_of(entries.push(entry), other) == times_of(entries, other),
    decreases entries.len(),
{
    let grown = entries.push(entry);
    if entries.len() > 0 {
        assert(grown[0] == entries[0]);
        assert(grown.drop_first() =~= entries.drop_first().push(entry));
        lemma_times_of_pushed(entries.drop_first(), entry, other);
    } else {
        assert(grown[0] == entry);
        assert(grown.drop_first() =~= Seq::<ClientWindow>::empty());
        assert(times_of(grown.drop_first(), other) =~= Seq::<u128>::empty());
    }
}

impl RateLimiter {
    /// The times on record for the client `ip`.
    pub closed spec fn requests_of(&self, ip: Seq<char>) -> Seq<u128> {
        times_of(self.requests@, ip)
    }

    /// The number of requests that a client may make within the window.
    pub closed spec fn limit(&self) -> usize {
        self.max_requests
    }

    /// The length of the window, in nanoseconds.
    pub closed spec fn window_nanos(&self) -> u128 {
        self.window
    }

    /// What a request of the client `ip` at the time `now` does: the
    /// times that left the window are forgotten; the request is admitted
    /// where fewer than the limit remain, and then goes on record; the
    /// records of other clients stay as they are.
    pub open spec fn admitted_at(
        &self,
        after: RateLimiter,
        ip: Seq<char>,
        now: u128,
        admitted: bool,
    ) -> bool {
        let kept = recent(self.requests_of(ip), now, self.window_nanos());
        &&& admitted == (kept.len() < self.limit())
        &&& after.requests_of(ip) == (if admitted {
            kept.push(now)
        } else {
            kept
        })
        &&& forall|other: Seq<char>|
            other != ip ==> #[trigger] after.requests_of(other) == self.requests_of(other)
        &&& after.limit() == self.limit()
        &&& after.window_nanos() == self.window_nanos()
    }

    /// A limiter that admits `max_requests` requests of a client within
    /// a window of `window_nanos` nanoseconds, and has seen no request
    /// yet.
    pub fn new(max_requests: usize, window_nanos: u128) -> (r: RateLimiter)
        ensures
            r.limit() == max_requests,
            r.window_nanos() == window_nanos,
            forall|ip: Seq<char>| (#[trigger] r.requests_of(ip)).len() == 0,
    {
        RateLimiter {
            started: monotonic_now(),
            requests: Vec::new(),
            max_requests,
            window: window_nanos,
        }
    }

    /// Whether a request of the client `ip` at the time `now` is
    /// admitted.
    pub fn check_rate_limit_at(&mut self, ip: &str, now: u128) -> (admitted: bool)
        ensures
            old(self).admitted_at(*final(self), ip@, now, admitted),
    {
        let n = self.requests.len();
        let mut idx: usize = 0;
        while idx < n && !same_text(self.requests[idx].ip.as_str(), ip)
            invariant
                idx <= n == self.requests.len(),
                forall|j: int| 0 <= j < idx ==> (#[trigger] self.requests@[j]).ip@ != ip@,
            decreases n - idx,
        {
            idx += 1;
        }
        let ghost before = self.requests@;
        let found = idx < n;
        let entry = if found {
            proof {
                lemma_times_of_first(before, ip@, idx as int);
            }
            self.requests.remove(idx)
        } else {
            proof {
                lemma_times_of_absent(before, ip@);
            }
            ClientWindow { ip: ip.to_owned(), times: Vec::new() }
        };
        let mut kept: Vec<u128> = Vec::new();
        let mut i: usize = 0;
        while i < entry.times.len()
            invariant
                i <= entry.times.len(),
                kept@ == recent(entry.times@.take(i as int), now, self.window),
            decreases entry.times.len() - i,
        {
            proof {
                assert(entry.times@.take(i + 1).drop_last() =~= entry.times@.take(i as int));
            }
            let t = entry.times[i];
            let elapsed = if now >= t {
                now - t
            } else {
                0
            };
            if elapsed < self.window {
                kept.push(t);
            }
            i += 1;
        }
        assert(entry.times@.take(entry.times.len() as int) =~= entry.times@);
        let admitted = kept.len() < self.max_requests;
        if admitted {
            kept.push(now);
        }
        let renewed = ClientWindow { ip: entry.ip, times: kept };
        if found {
            self.requests.insert(idx, renewed);
            proof {
                assert(self.requests@ =~= before.update(idx as int, renewed));
                lemma_times_of_first(self.requests@, ip@, idx as int);
                assert forall|other: Seq<char>| other != ip@ implies times_of(
                    self.requests@,
                    other,
                ) == times_of(before, other) by {
                    lemma_times_of_other(before, idx as int, renewed, other);
                }
            }
        } else {
            self.requests.push(renewed);
            proof {
                lemma_times_of_first(self.requests@, ip@, n as int);
                assert forall|other: Seq<char>| other != ip@ implies times_of(
                    self.requests@,
                    other,
                ) == times_of(before, other) by {
                    lemma_times_of_pushed(before, renewed, other);
                }
            }
        }
        admitted
    }

    /// Whether a request of the client `ip` at this moment is admitted.
    pub fn check_rate_limit(&mut self, ip: &str) -> (admitted: bool)
        ensures
            exists|now: u128| #[trigger] old(self).admitted_at(*final(self), ip@, now, admitted),
    {
        let elapsed = elapsed_since(&self.started);
        let now = nanos_of(&elapsed);
        self.check_rate_limit_at(ip, now)
    }
}

} // verus!
