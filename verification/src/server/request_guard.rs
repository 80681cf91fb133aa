//! The guard around every request: an id, one line in the log, and an answer even when
//! the handler fails.

use vstd::prelude::*;

use crate::clock::{span_text, Duration};
use crate::digits::{hexadecimal, pad_with_zeros, render_hex, zero_padded};
use crate::error::ErrorResponse;
use crate::server::address::{hex_digit_value, hex_value};
use crate::server::auth::str_view;
use crate::text::chars_of;

verus! {

/// Header that carries a request's id, in both directions.
pub const REQUEST_ID_HEADER: &'static str = "x-request-id";

/// Error type of the answer to a request whose handler panicked.
pub const HANDLER_PANIC: &'static str = "handler_panic";

/// Error type of the answer to a request whose handler ran past its deadline.
pub const REQUEST_TIMEOUT: &'static str = "request_timeout";

/// The longest id that is taken over from a caller.
pub const MAX_REQUEST_ID_LEN: usize = 128;

/// What is logged in place of the route of a request that matched none.
pub const UNMATCHED_ROUTE: &'static str = "<unmatched>";

// ---------------------------------------------------------------------------
// Request ids
// ---------------------------------------------------------------------------

/// The id under which a request is logged.
#[derive(Debug, Clone)]
pub struct RequestId {
    id: String,
}

impl View for RequestId {
    type V = Seq<char>;

    closed spec fn view(&self) -> Seq<char> {
        self.id@
    }
}

/// Whether a character may stand in a request id.
pub open spec fn id_char(c: char) -> bool {
    ('a' <= c <= 'z') || ('A' <= c <= 'Z') || ('0' <= c <= '9') || c == '-' || c == '_' || c == '.'
        || c == ':'
}

/// Whether an id may be taken over as it is: not empty, not too long, and made of
/// characters that can neither break nor forge a log line.
pub open spec fn usable_id(id: Seq<char>) -> bool {
    1 <= id.len() <= MAX_REQUEST_ID_LEN && forall|i: int|
        0 <= i < id.len() ==> id_char(#[trigger] id[i])
}

/// Whether an id may be taken over as it is.
pub fn is_usable_request_id(id: &str) -> (usable: bool)
    ensures
        usable == usable_id(id@),
{
    let text = chars_of(id);
    if text.len() == 0 || text.len() > MAX_REQUEST_ID_LEN {
        return false;
    }
    let mut i: usize = 0;
    while i < text.len()
        invariant
            i <= text.len(),
            text@ == id@,
            forall|k: int| 0 <= k < i ==> id_char(#[trigger] id@[k]),
        decreases text.len() - i,
    {
        let c = text[i];
        let fits = ('a' <= c && c <= 'z') || ('A' <= c && c <= 'Z') || ('0' <= c && c <= '9') || c
            == '-' || c == '_' || c == '.' || c == ':';
        if !fits {
            assert(!id_char(id@[i as int]));
            return false;
        }
        i += 1;
    }
    true
}

/// A fresh id: the number of this instance, and the number of the request.
pub open spec fn minted(instance: u64, sequence: u64) -> Seq<char> {
    zero_padded(hexadecimal(instance as nat), 16) + "-"@ + hexadecimal(sequence as nat)
}

/// The id of a request: the caller's when it can be taken over, a fresh one otherwise.
pub open spec fn request_id(header: Option<Seq<char>>, instance: u64, sequence: u64) -> Seq<char> {
    match header {
        Some(id) if usable_id(id) => id,
        _ => minted(instance, sequence),
    }
}

impl RequestId {
    /// A fresh id, from the number of this instance and the number of the request.
    pub fn mint(instance: u64, sequence: u64) -> (id: Self)
        ensures
            id@ == minted(instance, sequence),
    {
        let prefix = pad_with_zeros(render_hex(instance).as_str(), 16);
        RequestId { id: prefix.concat("-").concat(render_hex(sequence).as_str()) }
    }

    /// The id of a request, from the header that the caller sent as far as it is
    /// readable text.
    pub fn from_header(header: Option<&str>, instance: u64, sequence: u64) -> (id: Self)
        ensures
            id@ == request_id(str_view(header), instance, sequence),
    {
        match header {
            Some(header) => if is_usable_request_id(header) {
                RequestId { id: header.to_owned() }
            } else {
                RequestId::mint(instance, sequence)
            },
            None => RequestId::mint(instance, sequence),
        }
    }

    /// The id as it is written.
    pub fn as_str(&self) -> (id: &str)
        ensures
            id@ == self@,
    {
        self.id.as_str()
    }

    /// A copy of the id.
    pub fn dup(&self) -> (copy: Self)
        ensures
            copy@ == self@,
    {
        RequestId { id: self.id.clone() }
    }
}

spec fn pow16(k: nat) -> nat
    decreases k,
{
    if k == 0 {
        1
    } else {
        16 * pow16((k - 1) as nat)
    }
}

proof fn lemma_hexadecimal(n: nat, k: nat)
    requires
        k >= 1,
        n < pow16(k),
    ensures
        1 <= hexadecimal(n).len() <= k,
        forall|i: int| 0 <= i < hexadecimal(n).len() ==> id_char(#[trigger] hexadecimal(n)[i]),
    decreases n,
{
    if n >= 16 {
        assert(k >= 2) by {
            if k == 1 {
                assert(pow16(1) == 16 * pow16(0));
            }
        }
        assert(pow16(k) == 16 * pow16((k - 1) as nat));
        lemma_hexadecimal(n / 16, (k - 1) as nat);
    }
}

proof fn lemma_u64_is_sixteen_digits(n: u64)
    ensures
        (n as nat) < pow16(16),
{
    reveal_with_fuel(pow16, 17);
    assert(pow16(16) == 0x1_0000_0000_0000_0000);
}

/// Every id under which a request is logged, taken over or fresh, is one that can
/// neither break nor forge a log line.
pub proof fn every_request_id_is_usable(header: Option<Seq<char>>, instance: u64, sequence: u64)
    ensures
        usable_id(request_id(header, instance, sequence)),
        usable_id(minted(instance, sequence)),
{
    let a = hexadecimal(instance as nat);
    let b = hexadecimal(sequence as nat);
    lemma_u64_is_sixteen_digits(instance);
    lemma_u64_is_sixteen_digits(sequence);
    lemma_hexadecimal(instance as nat, 16);
    lemma_hexadecimal(sequence as nat, 16);
    reveal_strlit("-");
    let padded = zero_padded(a, 16);
    assert(padded.len() == 16);
    assert forall|i: int| 0 <= i < padded.len() implies id_char(#[trigger] padded[i]) by {
        if i >= 16 - a.len() {
            assert(padded[i] == a[i - (16 - a.len())]);
        }
    }
    let id = minted(instance, sequence);
    assert(id.len() == 17 + b.len());
    assert forall|i: int| 0 <= i < id.len() implies id_char(#[trigger] id[i]) by {
        if i < 16 {
            assert(id[i] == padded[i]);
        } else if i == 16 {
            assert(id[i] == '-');
        } else {
            assert(id[i] == b[i - 17]);
        }
    }
}

/// Hexadecimal digits denote the number that they were made of, with zeros in front or
/// without.
proof fn lemma_hexadecimal_reads_back(n: nat, width: nat)
    ensures
        hex_value(hexadecimal(n)) == n,
        hex_value(zero_padded(hexadecimal(n), width)) == n,
    decreases n, 1int,
{
    let digits = hexadecimal(n);
    if n < 16 {
        assert(digits.drop_last() =~= Seq::<char>::empty());
        assert(hex_digit_value(digits.last()) == n);
        assert(hex_value(digits.drop_last()) == 0);
    } else {
        lemma_hexadecimal_reads_back(n / 16, 0);
        assert(digits.drop_last() =~= hexadecimal(n / 16));
        assert(hex_digit_value(digits.last()) == n % 16);
    }
    if digits.len() < width {
        lemma_zeros_in_front((width - digits.len()) as nat, digits);
    }
}

proof fn lemma_zeros_in_front(k: nat, s: Seq<char>)
    ensures
        hex_value(Seq::new(k, |i: int| '0') + s) == hex_value(s),
    decreases s.len(), k,
{
    let zeros = Seq::new(k, |i: int| '0');
    if s.len() > 0 {
        lemma_zeros_in_front(k, s.drop_last());
        assert((zeros + s).drop_last() =~= zeros + s.drop_last());
        assert((zeros + s).last() == s.last());
    } else if k > 0 {
        lemma_zeros_in_front((k - 1) as nat, s);
        let fewer = Seq::new((k - 1) as nat, |i: int| '0');
        assert((zeros + s).drop_last() =~= fewer + s);
        assert((zeros + s).last() == '0');
    } else {
        assert(zeros + s =~= s);
    }
}

/// No fresh id is given out twice: two that are equal were made of the same numbers.
pub proof fn fresh_ids_differ(instance: u64, sequence: u64, other: u64, other_sequence: u64)
    requires
        minted(instance, sequence) == minted(other, other_sequence),
    ensures
        instance == other,
        sequence == other_sequence,
{
    lemma_u64_is_sixteen_digits(instance);
    lemma_u64_is_sixteen_digits(other);
    lemma_hexadecimal(instance as nat, 16);
    lemma_hexadecimal(other as nat, 16);
    lemma_hexadecimal_reads_back(instance as nat, 16);
    lemma_hexadecimal_reads_back(other as nat, 16);
    lemma_hexadecimal_reads_back(sequence as nat, 16);
    lemma_hexadecimal_reads_back(other_sequence as nat, 16);
    reveal_strlit("-");
    let a = zero_padded(hexadecimal(instance as nat), 16);
    let b = zero_padded(hexadecimal(other as nat), 16);
    let id = minted(instance, sequence);
    assert(a.len() == 16 && b.len() == 16);
    assert(id.take(16) =~= a);
    assert(id.take(16) =~= b);
    assert(id.skip(17) =~= hexadecimal(sequence as nat));
    assert(id.skip(17) =~= hexadecimal(other_sequence as nat));
}

// ---------------------------------------------------------------------------
// One request
// ---------------------------------------------------------------------------

/// The route of a request as it is logged: the template that it matched. The concrete
/// path is never logged.
pub fn route_template(matched: Option<&str>) -> (route: String)
    ensures
        route@ == match matched {
            Some(template) => template@,
            None => UNMATCHED_ROUTE@,
        },
{
    match matched {
        Some(template) => template.to_owned(),
        None => UNMATCHED_ROUTE.to_owned(),
    }
}

/// The milliseconds that a request took, as they are logged.
pub fn elapsed_ms(elapsed: Duration) -> (ms: u64)
    ensures
        ms == if elapsed@ / 1_000_000 > u64::MAX {
            u64::MAX as nat
        } else {
            elapsed@ / 1_000_000
        },
{
    elapsed.millis_saturating()
}

/// What a handler panicked with.
#[derive(Debug)]
pub enum PanicPayload {
    /// A text.
    Text(String),
    /// Anything else.
    Other,
}

/// What a panic says.
pub open spec fn panic_text(payload: PanicPayload) -> Seq<char> {
    match payload {
        PanicPayload::Text(text) => text@,
        PanicPayload::Other => "panic payload is not a string"@,
    }
}

/// What a panic says.
pub fn panic_message(payload: &PanicPayload) -> (message: &str)
    ensures
        message@ == panic_text(*payload),
{
    match payload {
        PanicPayload::Text(text) => text.as_str(),
        PanicPayload::Other => "panic payload is not a string",
    }
}

/// What came of a handler.
#[derive(Debug)]
pub enum HandlerOutcome {
    /// It answered with this status.
    Answered(u16),
    /// It panicked.
    Panicked(PanicPayload),
}

/// One line in the log.
#[derive(Debug)]
pub struct LogLine {
    /// What happened.
    pub kind: LogKind,
    /// The request's id.
    pub request_id: String,
    /// The request's method.
    pub method: String,
    /// The route that the request matched.
    pub path: String,
}

/// What a line in the log says happened.
#[derive(Debug)]
pub enum LogKind {
    /// A response was produced.
    Completed {
        /// Its status.
        status: u16,
        /// How long it took, in milliseconds.
        latency_ms: u64,
    },
    /// The handler panicked.
    Panicked {
        /// What it said.
        message: String,
    },
    /// No response was produced.
    Dropped {
        /// How long the request was in flight, in milliseconds.
        elapsed_ms: u64,
    },
    /// The handler ran past its deadline.
    TimedOut {
        /// The deadline, in milliseconds.
        deadline_ms: u64,
    },
}

/// An answer in place of the handler's.
#[derive(Debug)]
pub struct FailureResponse {
    /// Status code.
    pub status: u16,
    /// Body.
    pub body: ErrorResponse,
}

fn failure_response(status: u16, error_type: &str, message: &str) -> (failure: FailureResponse)
    ensures
        failure.status == status,
        failure.body.error.error_type@ == error_type@,
        failure.body.error.message@ == message@,
{
    FailureResponse { status, body: ErrorResponse::new(error_type, message) }
}

/// A request between its arrival and its response.
#[derive(Debug)]
pub struct InFlight {
    request_id: RequestId,
    method: String,
    path: String,
}

/// What is known of a request in flight.
pub struct FlightView {
    /// Its id.
    pub request_id: Seq<char>,
    /// Its method.
    pub method: Seq<char>,
    /// The route that it matched.
    pub path: Seq<char>,
}

impl View for InFlight {
    type V = FlightView;

    closed spec fn view(&self) -> FlightView {
        FlightView { request_id: self.request_id@, method: self.method@, path: self.path@ }
    }
}

impl LogLine {
    /// Whether the line is about a request.
    pub open spec fn is_about(self, flight: FlightView) -> bool {
        self.request_id@ == flight.request_id && self.method@ == flight.method && self.path@
            == flight.path
    }
}

/// What a guarded request ends in.
#[derive(Debug)]
pub struct Guarded {
    /// The answer in place of the handler's, if it gave none.
    pub failure: Option<FailureResponse>,
    /// The id to return to the caller.
    pub request_id: String,
    /// What is logged, in order.
    pub log: Vec<LogLine>,
}

/// The message of the answer to a request whose handler panicked.
pub open spec fn panic_answer(request_id: Seq<char>) -> Seq<char> {
    "The request handler failed. The service logged the failure under request id "@ + request_id
        + "."@
}

impl InFlight {
    /// A request that arrived.
    pub fn start(request_id: RequestId, method: &str, path: String) -> (flight: Self)
        ensures
            flight@ == (FlightView { request_id: request_id@, method: method@, path: path@ }),
    {
        InFlight { request_id, method: method.to_owned(), path }
    }

    fn line(&self, kind: LogKind) -> (line: LogLine)
        ensures
            line.is_about(self@),
            line.kind == kind,
    {
        LogLine {
            kind,
            request_id: self.request_id.as_str().to_owned(),
            method: self.method.clone(),
            path: self.path.clone(),
        }
    }

    /// The request's id.
    pub fn id(&self) -> (id: &RequestId)
        ensures
            id@ == self@.request_id,
    {
        &self.request_id
    }

    /// What the request ends in. A response is logged once, with its status; a panic is
    /// logged before it, and answered with 500.
    pub fn finish(self, outcome: HandlerOutcome, elapsed: Duration) -> (end: Guarded)
        ensures
            end.request_id@ == self@.request_id,
            forall|i: int| 0 <= i < end.log@.len() ==> (#[trigger] end.log@[i]).is_about(self@),
            match outcome {
                HandlerOutcome::Answered(answered) => ({
                    &&& end.failure is None
                    &&& end.log@.len() == 1
                    &&& end.log@[0].kind matches LogKind::Completed { status, latency_ms }
                        && status == answered && latency_ms == if elapsed@ / 1_000_000 > u64::MAX {
                        u64::MAX as nat
                    } else {
                        elapsed@ / 1_000_000
                    }
                }),
                HandlerOutcome::Panicked(payload) => ({
                    &&& end.failure matches Some(failure) && failure.status == 500
                        && failure.body.error.error_type@ == HANDLER_PANIC@
                        && failure.body.error.message@ == panic_answer(self@.request_id)
                    &&& end.log@.len() == 2
                    &&& end.log@[0].kind matches LogKind::Panicked { message } && message@
                        == panic_text(payload)
                    &&& end.log@[1].kind matches LogKind::Completed { status, latency_ms }
                        && status == 500 && latency_ms == if elapsed@ / 1_000_000 > u64::MAX {
                        u64::MAX as nat
                    } else {
                        elapsed@ / 1_000_000
                    }
                }),
            },
    {
        let latency_ms: u64 = elapsed_ms(elapsed);
        let mut log: Vec<LogLine> = Vec::new();
        let id = self.request_id.as_str().to_owned();
        match outcome {
            HandlerOutcome::Answered(status) => {
                log.push(self.line(LogKind::Completed { status, latency_ms }));
                Guarded { failure: None, request_id: id, log }
            },
            HandlerOutcome::Panicked(payload) => {
                let said = panic_message(&payload).to_owned();
                log.push(self.line(LogKind::Panicked { message: said }));
                log.push(self.line(LogKind::Completed { status: 500, latency_ms }));
                let message =
                    "The request handler failed. The service logged the failure under request id ".to_owned().concat(
                id.as_str()).concat(".");
                Guarded {
                    failure: Some(failure_response(500, HANDLER_PANIC, message.as_str())),
                    request_id: id,
                    log,
                }
            },
        }
    }

    /// What is logged of a request that ended without a response: its connection closed,
    /// or the server stopped.
    pub fn abandon(self, elapsed: Duration) -> (line: LogLine)
        ensures
            line.is_about(self@),
            line.kind matches LogKind::Dropped { elapsed_ms } && elapsed_ms == if elapsed@
                / 1_000_000 > u64::MAX {
                u64::MAX as nat
            } else {
                elapsed@ / 1_000_000
            },
    {
        let elapsed: u64 = elapsed_ms(elapsed);
        self.line(LogKind::Dropped { elapsed_ms: elapsed })
    }
}

/// Takes a request in: its id, from the caller's header or fresh, and what is logged of
/// it.
pub fn guard_request(
    header: Option<&str>,
    instance: u64,
    sequence: u64,
    method: &str,
    matched: Option<&str>,
) -> (flight: InFlight)
    ensures
        flight@ == (FlightView {
            request_id: request_id(str_view(header), instance, sequence),
            method: method@,
            path: match matched {
                Some(template) => template@,
                None => UNMATCHED_ROUTE@,
            },
        }),
        usable_id(flight@.request_id),
{
    proof {
        every_request_id_is_usable(str_view(header), instance, sequence);
    }
    InFlight::start(
        RequestId::from_header(header, instance, sequence),
        method,
        route_template(matched),
    )
}

/// The answer to a request whose handler ran past its deadline, and what is logged of
/// it. A request without an id is logged as unassigned.
pub fn deadline_passed(
    deadline: Duration,
    id: Option<&RequestId>,
    method: &str,
    matched: Option<&str>,
) -> (end: (FailureResponse, LogLine))
    ensures
        end.0.status == 504,
        end.0.body.error.error_type@ == REQUEST_TIMEOUT@,
        end.0.body.error.message@ == "The request did not complete within "@ + span_text(
            (deadline@ / 1_000_000_000) as u64,
            (deadline@ % 1_000_000_000) as u32,
        ) + "."@,
        end.1.is_about(
            FlightView {
                request_id: match id {
                    Some(id) => id@,
                    None => "unassigned"@,
                },
                method: method@,
                path: match matched {
                    Some(template) => template@,
                    None => UNMATCHED_ROUTE@,
                },
            },
        ),
        end.1.kind matches LogKind::TimedOut { deadline_ms } && deadline_ms == if deadline@
            / 1_000_000 > u64::MAX {
            u64::MAX as nat
        } else {
            deadline@ / 1_000_000
        },
{
    let message = "The request did not complete within ".to_owned().concat(
        deadline.describe().as_str(),
    ).concat(".");
    let line = LogLine {
        kind: LogKind::TimedOut { deadline_ms: deadline.millis_saturating() },
        request_id: match id {
            Some(id) => id.as_str().to_owned(),
            None => "unassigned".to_owned(),
        },
        method: method.to_owned(),
        path: route_template(matched),
    };
    (failure_response(504, REQUEST_TIMEOUT, message.as_str()), line)
}

} // verus!
