//! What one probe of an endpoint reports.

use vstd::prelude::*;

verus! {

/// How many results may wait between the probes and the consumer.
pub const RESULT_BUFFER_SIZE: usize = 100;

/// The message recorded for a probe that ran out of time.
pub open spec fn timeout_message() -> Seq<char> {
    "request timed out"@
}

/// How a single probe ended.
#[derive(Debug, PartialEq, Eq)]
pub enum CheckStatus {
    /// A response arrived in time; `text` is the reason phrase of its status line.
    Success { code: u16, text: String },
    /// No response arrived: the transport failed or the time ran out.
    Error { message: String },
}

/// The mathematical value of a [`CheckStatus`].
pub enum CheckStatusView {
    Success { code: u16, text: Seq<char> },
    Error { message: Seq<char> },
}

impl View for CheckStatus {
    type V = CheckStatusView;

    open spec fn view(&self) -> CheckStatusView {
        match self {
            CheckStatus::Success { code, text } => CheckStatusView::Success {
                code: *code,
                text: text@,
            },
            CheckStatus::Error { message } => CheckStatusView::Error { message: message@ },
        }
    }
}

impl CheckStatusView {
    /// Whether the probe counts as a failure.
    pub open spec fn is_error(self) -> bool {
        self is Error
    }
}

impl Clone for CheckStatus {
    fn clone(&self) -> (r: Self)
        ensures
            r@ == self@,
    {
        match self {
            CheckStatus::Success { code, text } => CheckStatus::Success {
                code: *code,
                text: text.clone(),
            },
            CheckStatus::Error { message } => CheckStatus::Error { message: message.clone() },
        }
    }
}

impl CheckStatus {
    /// Whether the probe counts as a failure.
    pub fn is_error(&self) -> (b: bool)
        ensures
            b == self@.is_error(),
    {
        match self {
            CheckStatus::Success { .. } => false,
            CheckStatus::Error { .. } => true,
        }
    }

    /// Classifies the raw end of a probe. Every response that arrived in time is a
    /// success, whatever its status code; a transport failure and an expired timeout
    /// are errors.
    pub fn from_probe(outcome: ProbeOutcome) -> (r: CheckStatus)
        ensures
            r@ == outcome@.classify(),
    {
        match outcome {
            ProbeOutcome::Response { code, reason } => CheckStatus::Success { code, text: reason },
            ProbeOutcome::TransportError { cause } => CheckStatus::Error { message: cause },
            ProbeOutcome::TimedOut => CheckStatus::Error {
                message: "request timed out".to_owned(),
            },
        }
    }
}

/// The raw end of one request, before it is classified.
#[derive(Debug, PartialEq, Eq)]
pub enum ProbeOutcome {
    /// A response with this status code and reason phrase arrived before the timeout.
    Response { code: u16, reason: String },
    /// The request failed below the protocol: no connection, a reset, a bad name.
    TransportError { cause: String },
    /// The timeout expired first.
    TimedOut,
}

/// The mathematical value of a [`ProbeOutcome`].
pub enum ProbeOutcomeView {
    Response { code: u16, reason: Seq<char> },
    TransportError { cause: Seq<char> },
    TimedOut,
}

impl View for ProbeOutcome {
    type V = ProbeOutcomeView;

    open spec fn view(&self) -> ProbeOutcomeView {
        match self {
            ProbeOutcome::Response { code, reason } => ProbeOutcomeView::Response {
                code: *code,
                reason: reason@,
            },
            ProbeOutcome::TransportError { cause } => ProbeOutcomeView::TransportError {
                cause: cause@,
            },
            ProbeOutcome::TimedOut => ProbeOutcomeView::TimedOut,
        }
    }
}

impl ProbeOutcomeView {
    /// The status that a probe with this end is recorded with.
    pub open spec fn classify(self) -> CheckStatusView {
        match self {
            ProbeOutcomeView::Response { code, reason } => CheckStatusView::Success {
                code,
                text: reason,
            },
            ProbeOutcomeView::TransportError { cause } => CheckStatusView::Error { message: cause },
            ProbeOutcomeView::TimedOut => CheckStatusView::Error { message: timeout_message() },
        }
    }
}

/// The report of one probe: which endpoint, how it ended, how long it took and when
/// it was observed.
#[derive(Debug, PartialEq, Eq)]
pub struct CheckResult {
    /// The name of the endpoint that was probed.
    pub name: String,
    pub status: CheckStatus,
    /// Wall-clock time from the start of the request to its end, in milliseconds.
    pub latency_ms: u64,
    /// When the probe ended, in milliseconds since the Unix epoch.
    pub observed_at: u64,
}

/// The mathematical value of a [`CheckResult`].
pub struct CheckResultView {
    pub name: Seq<char>,
    pub status: CheckStatusView,
    pub latency_ms: u64,
    pub observed_at: u64,
}

impl View for CheckResult {
    type V = CheckResultView;

    open spec fn view(&self) -> CheckResultView {
        CheckResultView {
            name: self.name@,
            status: self.status@,
            latency_ms: self.latency_ms,
            observed_at: self.observed_at,
        }
    }
}

impl Clone for CheckResult {
    fn clone(&self) -> (r: Self)
        ensures
            r@ == self@,
    {
        CheckResult {
            name: self.name.clone(),
            status: self.status.clone(),
            latency_ms: self.latency_ms,
            observed_at: self.observed_at,
        }
    }
}

impl CheckResult {
    /// Builds the report of a probe from its raw end.
    pub fn from_probe(name: String, outcome: ProbeOutcome, latency_ms: u64, observed_at: u64) -> (r:
        CheckResult)
        ensures
            r@ == (CheckResultView {
                name: name@,
                status: outcome@.classify(),
                latency_ms,
                observed_at,
            }),
    {
        CheckResult { name, status: CheckStatus::from_probe(outcome), latency_ms, observed_at }
    }
}

} // verus!
