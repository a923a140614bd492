//! The decisions of the HTTP layer: error statuses, bearer-token checks,
//! provider lookup, and the replay-then-live event stream of a session.
use vstd::prelude::*;

use crate::error::RuntimeError;
use crate::provider::ProviderKind;
use crate::provider_registry::{has_kind, ProviderRegistry};
use crate::text::{decimal, parse_i64, parse_i64_spec, signed_decimal, str_eq};

verus! {

pub const STATUS_BAD_REQUEST: u16 = 400;

pub const STATUS_UNAUTHORIZED: u16 = 401;

pub const STATUS_NOT_FOUND: u16 = 404;

pub const STATUS_INTERNAL_SERVER_ERROR: u16 = 500;

/// An error answered to an HTTP client: a status code and a message.
#[derive(Debug)]
pub struct ApiError {
    pub status: u16,
    pub message: String,
}

impl ApiError {
    pub fn bad_request(message: String) -> (e: Self)
        ensures
            e.status == STATUS_BAD_REQUEST,
            e.message == message,
    {
        ApiError { status: STATUS_BAD_REQUEST, message }
    }

    /// The answer to a request without the expected bearer token.
    pub fn unauthorized() -> (e: Self)
        ensures
            e.status == STATUS_UNAUTHORIZED,
            e.message@ == "missing or invalid bearer token"@,
    {
        ApiError { status: STATUS_UNAUTHORIZED, message: "missing or invalid bearer token".to_string() }
    }

    pub fn not_found(message: String) -> (e: Self)
        ensures
            e.status == STATUS_NOT_FOUND,
            e.message == message,
    {
        ApiError { status: STATUS_NOT_FOUND, message }
    }
}

/// The status an error is answered with: a missing thing is not found, a
/// request the runtime cannot honour is a bad request, and a failure of the
/// runtime itself is an internal error.
pub open spec fn error_status(e: RuntimeError) -> u16 {
    match e {
        RuntimeError::NotFound(_) | RuntimeError::ProviderNotRegistered(_) => STATUS_NOT_FOUND,
        RuntimeError::Configuration(_)
        | RuntimeError::InvalidState(_)
        | RuntimeError::ProtocolViolation(_)
        | RuntimeError::Unsupported(_) => STATUS_BAD_REQUEST,
        RuntimeError::ProviderAlreadyRegistered(_)
        | RuntimeError::Bootstrap(_)
        | RuntimeError::Io(_) => STATUS_INTERNAL_SERVER_ERROR,
    }
}

pub open spec fn error_text(e: RuntimeError) -> String {
    match e {
        RuntimeError::Configuration(m) => m,
        RuntimeError::ProviderAlreadyRegistered(m) => m,
        RuntimeError::ProviderNotRegistered(m) => m,
        RuntimeError::Bootstrap(m) => m,
        RuntimeError::Io(m) => m,
        RuntimeError::NotFound(m) => m,
        RuntimeError::InvalidState(m) => m,
        RuntimeError::ProtocolViolation(m) => m,
        RuntimeError::Unsupported(m) => m,
    }
}

impl From<RuntimeError> for ApiError {
    /// The answer to a runtime error: its status and the error's own text.
    fn from(value: RuntimeError) -> (e: Self) {
        match value {
            RuntimeError::NotFound(message) | RuntimeError::ProviderNotRegistered(message) => {
                Self::not_found(message)
            },
            RuntimeError::Configuration(message)
            | RuntimeError::InvalidState(message)
            | RuntimeError::ProtocolViolation(message)
            | RuntimeError::Unsupported(message) => Self::bad_request(message),
            RuntimeError::ProviderAlreadyRegistered(message)
            | RuntimeError::Bootstrap(message)
            | RuntimeError::Io(message) => ApiError {
                status: STATUS_INTERNAL_SERVER_ERROR,
                message,
            },
        }
    }
}

impl vstd::std_specs::convert::FromSpecImpl<RuntimeError> for ApiError {
    open spec fn obeys_from_spec() -> bool {
        true
    }

    open spec fn from_spec(v: RuntimeError) -> ApiError {
        ApiError { status: error_status(v), message: error_text(v) }
    }
}

/// Reads a provider kind from a request path.
pub fn parse_provider_kind(value: &str) -> (r: Result<ProviderKind, ApiError>)
    ensures
        ProviderKind::from_name(value@) matches Some(k) ==> r == Ok::<ProviderKind, ApiError>(k),
        ProviderKind::from_name(value@) is None ==> (r matches Err(e) && e.status
            == STATUS_BAD_REQUEST && e.message@ == "unknown provider "@ + value@),
{
    match ProviderKind::from_str(value) {
        Some(k) => Ok(k),
        None => {
            let mut m = "unknown provider ".to_string();
            m.append(value);
            Err(ApiError::bad_request(m))
        },
    }
}

/// The provider a request path names: a bad request for an unknown name,
/// not found for a kind that has no provider.
pub fn resolve_provider<P: Clone>(registry: &ProviderRegistry<P>, name: &str) -> (r: Result<
    (ProviderKind, P),
    ApiError,
>)
    ensures
        ProviderKind::from_name(name@) is None ==> (r matches Err(e) && e.status
            == STATUS_BAD_REQUEST && e.message@ == "unknown provider "@ + name@),
        ProviderKind::from_name(name@) matches Some(k) ==> (!has_kind(registry.entries(), k) ==> (
        r matches Err(e) && e.status == STATUS_NOT_FOUND && e.message@ == "provider "@ + k.name())),
        ProviderKind::from_name(name@) matches Some(k) ==> (has_kind(registry.entries(), k) ==> (
        r matches Ok((kind, p)) && kind == k && exists|i: int|
            0 <= i < registry.entries().len() && #[trigger] registry.entries()[i].0 == k && cloned(
                registry.entries()[i].1,
                p,
            ))),
{
    let kind = parse_provider_kind(name)?;
    match registry.get(kind) {
        Some(p) => Ok((kind, p)),
        None => {
            let mut m = "provider ".to_string();
            m.append(kind.as_str());
            Err(ApiError::not_found(m))
        },
    }
}

/// Whether a request's `Authorization` header carries the expected bearer
/// token: exactly `Bearer <token>`.
pub fn bearer_token_accepted(authorization: Option<&str>, expected_token: &str) -> (ok: bool)
    ensures
        ok == (authorization matches Some(h) && h@ == "Bearer "@ + expected_token@),
{
    match authorization {
        None => false,
        Some(h) => {
            let mut expected = "Bearer ".to_string();
            expected.append(expected_token);
            str_eq(h, expected.as_str())
        },
    }
}

pub open spec fn min_usize(a: usize, b: usize) -> usize {
    if a < b {
        a
    } else {
        b
    }
}

/// The number of events a replay request returns at most: 500 unless the
/// request says otherwise, and never more than 10000.
pub fn replay_limit(limit: Option<usize>) -> (n: usize)
    ensures
        n == min_usize(
            match limit {
                Some(l) => l,
                None => 500,
            },
            10_000,
        ),
{
    let l = match limit {
        Some(l) => l,
        None => 500,
    };
    if l < 10_000 {
        l
    } else {
        10_000
    }
}

/// The `Last-Event-ID` a client sent: absent, or a non-negative integer;
/// any other value (text that is not an integer, or a negative one) is a
/// bad request, answered with 400.
pub fn parse_last_event_id(header: Option<&str>) -> (r: Result<Option<i64>, ApiError>)
    ensures
        header is None ==> r matches Ok(None),
        header matches Some(h) ==> match parse_i64_spec(h@) {
            Some(v) => if v >= 0 {
                r == Ok::<Option<i64>, ApiError>(Some(v))
            } else {
                r matches Err(e) && e.status == STATUS_BAD_REQUEST && e.message@
                    == "Last-Event-ID must be a non-negative integer: "@ + h@
            },
            None => r matches Err(e) && e.status == STATUS_BAD_REQUEST && e.message@
                == "Last-Event-ID must be a non-negative integer: "@ + h@,
        },
{
    match header {
        None => Ok(None),
        Some(h) => {
            match parse_i64(h) {
                Some(v) => {
                    if v >= 0 {
                        return Ok(Some(v));
                    }
                },
                None => {},
            }
            let mut m = "Last-Event-ID must be a non-negative integer: ".to_string();
            m.append(h);
            Err(ApiError::bad_request(m))
        },
    }
}

/// A client that resumes with the id of the last event it received, the
/// event's sequence number written in decimal (`i64_to_string`), resumes
/// right after that event.
pub proof fn lemma_event_id_resumes_after_event(seq: i64)
    requires
        seq >= 0,
    ensures
        parse_i64_spec(signed_decimal(seq as int)) == Some(seq),
{
    crate::text::lemma_decimal_reads_back(seq as nat);
    let d = decimal(seq as nat);
    assert(d[0] != '+' && d[0] != '-');
}

/// Where a stream resumes: after the `after_seq` the request names, or else
/// after the last event the client saw.
pub fn stream_cursor(after_seq: Option<i64>, last_event_id: Option<i64>) -> (c: Option<i64>)
    ensures
        c == (if after_seq is Some {
            after_seq
        } else {
            last_event_id
        }),
{
    match after_seq {
        Some(a) => Some(a),
        None => last_event_id,
    }
}

/// The size of the replay pages of a stream: 2000 unless the request says
/// otherwise, and between 1 and 10000.
pub open spec fn stream_page_size(limit: Option<usize>) -> usize {
    let l = match limit {
        Some(l) => l,
        None => 2000,
    };
    if l < 1 {
        1
    } else if l > 10_000 {
        10_000
    } else {
        l
    }
}

/// Reads the backlog of a session page by page before a stream goes live.
#[derive(Debug)]
pub struct ReplayPager {
    cursor: Option<i64>,
    after: Option<i64>,
    page_size: usize,
    finished: bool,
}

impl ReplayPager {
    /// The cursor the stream resumes from.
    pub closed spec fn cursor(&self) -> Option<i64> {
        self.cursor
    }

    /// The position after which the next page starts: the last event read
    /// so far, or the cursor before any event has been read.
    pub closed spec fn after(&self) -> Option<i64> {
        self.after
    }

    pub closed spec fn page_size(&self) -> usize {
        self.page_size
    }

    pub closed spec fn finished(&self) -> bool {
        self.finished
    }

    pub fn new(cursor: Option<i64>, limit: Option<usize>) -> (p: Self)
        ensures
            p.cursor() == cursor,
            p.after() == cursor,
            p.page_size() == stream_page_size(limit),
            p.page_size() >= 1,
            !p.finished(),
    {
        let l = match limit {
            Some(l) => l,
            None => 2000,
        };
        let size = if l < 1 {
            1
        } else if l > 10_000 {
            10_000
        } else {
            l
        };
        ReplayPager { cursor, after: cursor, page_size: size, finished: false }
    }

    /// The page to read next, as the position after which it starts and its
    /// size; `None` once the backlog has been read.
    pub fn next_page(&self) -> (r: Option<(Option<i64>, usize)>)
        ensures
            self.finished() ==> r is None,
            !self.finished() ==> r == Some((self.after(), self.page_size())),
    {
        if self.finished {
            None
        } else {
            Some((self.after, self.page_size))
        }
    }

    /// Takes note of a page of `page_len` events whose last event has
    /// sequence number `last_seq`: an empty page, or one shorter than the
    /// page size, ends the backlog; the next page starts after the last
    /// event read.
    pub fn accept_page(&mut self, page_len: usize, last_seq: Option<i64>)
        requires
            page_len == 0 <==> last_seq is None,
        ensures
            final(self).cursor() == old(self).cursor(),
            final(self).page_size() == old(self).page_size(),
            page_len == 0 ==> final(self).finished() && final(self).after() == old(self).after(),
            page_len > 0 ==> final(self).after() == last_seq && final(self).finished() == (page_len
                < old(self).page_size()),
    {
        if page_len == 0 {
            self.finished = true;
            return;
        }
        self.after = last_seq;
        self.finished = page_len < self.page_size;
    }

    /// The highest sequence number the replay has covered: the last event
    /// read, or the cursor, or 0.
    pub fn high_watermark(&self) -> (w: i64)
        ensures
            w == (match self.after() {
                Some(a) => a,
                None => match self.cursor() {
                    Some(c) => c,
                    None => 0,
                },
            }),
    {
        match self.after {
            Some(a) => a,
            None => match self.cursor {
                Some(c) => c,
                None => 0,
            },
        }
    }
}

/// Whether a live event goes to a session's stream: it must belong to the
/// session and come after everything the replay covered.
pub fn forward_live_event(
    event_session_id: Option<&str>,
    event_seq: i64,
    session_id: &str,
    high_watermark: i64,
) -> (ok: bool)
    ensures
        ok == ((event_session_id matches Some(s) && s@ == session_id@) && event_seq
            > high_watermark),
{
    match event_session_id {
        Some(s) => str_eq(s, session_id) && event_seq > high_watermark,
        None => false,
    }
}

/// Whether sequence numbers strictly increase.
pub open spec fn strictly_increasing(events: Seq<i64>) -> bool {
    forall|i: int, j: int| 0 <= i < j < events.len() ==> #[trigger] events[i] < #[trigger] events[j]
}

/// The number of events at or before `after` (all events come after `None`).
pub open spec fn events_up_to(events: Seq<i64>, after: Option<i64>) -> nat
    decreases events.len(),
{
    match after {
        None => 0,
        Some(a) => if events.len() == 0 || events[0] > a {
            0
        } else {
            1 + events_up_to(events.drop_first(), after)
        },
    }
}

/// The page a store holding `events` serves: the first `size` events after
/// `after`, in order.
pub open spec fn served_page(events: Seq<i64>, after: Option<i64>, size: nat) -> Seq<i64> {
    let k = events_up_to(events, after);
    let end: int = if k + size < events.len() {
        (k + size) as int
    } else {
        events.len() as int
    };
    events.subrange(k as int, end)
}

proof fn lemma_events_up_to(events: Seq<i64>, a: i64, k: int)
    requires
        strictly_increasing(events),
        0 <= k <= events.len(),
        forall|j: int| 0 <= j < k ==> events[j] <= a,
        k == events.len() || events[k] > a,
    ensures
        events_up_to(events, Some(a)) == k,
    decreases k,
{
    if k > 0 {
        assert(strictly_increasing(events.drop_first()));
        lemma_events_up_to(events.drop_first(), a, k - 1);
    }
}

/// Replaying a session's backlog page by page reads every event after the
/// cursor exactly once, in order. While the replay has read the events
/// `events[first..read]` after the cursor, the next page it asks for is the
/// next `size` events; when that page is empty or shorter than `size`, the
/// backlog is exhausted.
pub proof fn lemma_replay_pages_cover_backlog(
    events: Seq<i64>,
    cursor: Option<i64>,
    size: nat,
    read: int,
)
    requires
        strictly_increasing(events),
        size >= 1,
        events_up_to(events, cursor) <= read <= events.len(),
    ensures
        ({
            let first = events_up_to(events, cursor) as int;
            let after = if read == first {
                cursor
            } else {
                Some(events[read - 1])
            };
            let page = served_page(events, after, size);
            &&& page == events.subrange(
                read,
                if read + size < events.len() {
                    read + size
                } else {
                    events.len() as int
                },
            )
            &&& (page.len() == 0 || page.len() < size) ==> read + page.len() == events.len()
            &&& page.len() > 0 ==> page.last() == events[read + page.len() - 1]
        }),
{
    let first = events_up_to(events, cursor) as int;
    lemma_events_up_to_bound(events, cursor);
    if read != first {
        let a = events[read - 1];
        assert forall|j: int| 0 <= j < read implies events[j] <= a by {
            if j < read - 1 {
                assert(events[j] < events[read - 1]);
            }
        }
        if read < events.len() {
            assert(events[read] > a);
        }
        lemma_events_up_to(events, a, read);
    }
}

proof fn lemma_events_up_to_bound(events: Seq<i64>, after: Option<i64>)
    ensures
        events_up_to(events, after) <= events.len(),
    decreases events.len(),
{
    if events.len() > 0 {
        lemma_events_up_to_bound(events.drop_first(), after);
    }
}

/// The hand-off from replay to live delivery neither repeats nor loses an
/// event: once the replay has read every event after the cursor, each of
/// them is at or below the high watermark and so is not forwarded again,
/// while any event with a higher sequence number than every replayed one
/// (and than the cursor) is forwarded.
pub proof fn lemma_handoff_neither_repeats_nor_loses(
    events: Seq<i64>,
    cursor: Option<i64>,
    later_seq: i64,
)
    requires
        strictly_increasing(events),
        forall|i: int| 0 <= i < events.len() ==> #[trigger] events[i] >= 1,
    ensures
        ({
            let first = events_up_to(events, cursor) as int;
            let watermark: i64 = if first < events.len() {
                events.last()
            } else {
                match cursor {
                    Some(c) => c,
                    None => 0,
                }
            };
            &&& forall|i: int| first <= i < events.len() ==> #[trigger] events[i] <= watermark
            &&& (events.len() > 0 ==> later_seq > events.last()) && (cursor matches Some(c)
                ==> later_seq > c) && later_seq >= 1 ==> later_seq > watermark
        }),
{
    let first = events_up_to(events, cursor) as int;
    lemma_events_up_to_bound(events, cursor);
    if first < events.len() {
        assert forall|i: int| first <= i < events.len() implies #[trigger] events[i]
            <= events.last() by {
            if i < events.len() - 1 {
                assert(events[i] < events[events.len() - 1]);
            }
        }
    }
}

} // verus!
