//! The error type shared by the library, with its messages.

use vstd::prelude::*;

use crate::text::{decimal, push_decimal, push_str};

verus! {

#[verifier::external_type_specification]
#[verifier::external_body]
pub struct ExIoError(std::io::Error);

#[verifier::external_type_specification]
#[verifier::external_body]
pub struct ExDecodeError(prost::DecodeError);

#[verifier::external_type_specification]
#[verifier::external_body]
pub struct ExEncodeError(prost::EncodeError);

/// Everything that can go wrong in wattch.
#[derive(Debug)]
pub enum WattchError {
    FrameTooLarge { size: usize, max: usize },
    TruncatedPayload { expected: usize, actual: usize },
    BadRequest(String),
    SourceNotFound(u32),
    SourceUnavailable(u32),
    StreamAlreadyRunning,
    StreamNotRunning,
    IntervalTooLow { interval_ns: u64, min_interval_ns: u64 },
    Internal(String),
    Io(std::io::Error),
    Decode(prost::DecodeError),
    Encode(prost::EncodeError),
}

impl WattchError {
    /// The human-readable message of every variant that does not wrap an
    /// outside error.
    pub open spec fn spec_message(&self) -> Seq<char> {
        match self {
            WattchError::FrameTooLarge { size, max } => "frame payload too large: "@ + decimal(
                *size as nat,
            ) + " bytes (max "@ + decimal(*max as nat) + " bytes)"@,
            WattchError::TruncatedPayload { expected, actual } => "truncated frame payload: expected "@
                + decimal(*expected as nat) + " bytes, got "@ + decimal(*actual as nat)
                + " bytes"@,
            WattchError::BadRequest(m) => "bad request: "@ + m@,
            WattchError::SourceNotFound(id) => "source not found: "@ + decimal(*id as nat),
            WattchError::SourceUnavailable(id) => "source unavailable: "@ + decimal(*id as nat),
            WattchError::StreamAlreadyRunning => "stream already running"@,
            WattchError::StreamNotRunning => "stream not running"@,
            WattchError::IntervalTooLow { interval_ns, min_interval_ns } =>
                "sampling interval too low: "@ + decimal(*interval_ns as nat) + " ns (minimum "@
                + decimal(*min_interval_ns as nat) + " ns)"@,
            WattchError::Internal(m) => "internal error: "@ + m@,
            _ => Seq::empty(),
        }
    }

    /// Whether this error wraps an outside error, whose message is that
    /// error's own.
    pub open spec fn wraps_outside_error(&self) -> bool {
        self is Io || self is Decode || self is Encode
    }

    /// Renders the error as text; a wrapped outside error renders as its
    /// own `Display` text.
    pub fn to_string(&self) -> (r: String)
        ensures
            !self.wraps_outside_error() ==> r@ == self.spec_message(),
            self matches WattchError::Io(e) ==> vstd::string::to_string_from_display_ensures::<std::io::Error>(
                &e,
                r,
            ),
            self matches WattchError::Decode(e) ==> vstd::string::to_string_from_display_ensures::<
                prost::DecodeError,
            >(&e, r),
            self matches WattchError::Encode(e) ==> vstd::string::to_string_from_display_ensures::<
                prost::EncodeError,
            >(&e, r),
    {
        let mut s = String::new();
        match self {
            WattchError::FrameTooLarge { size, max } => {
                push_str(&mut s, "frame payload too large: ");
                push_decimal(&mut s, *size as u64);
                push_str(&mut s, " bytes (max ");
                push_decimal(&mut s, *max as u64);
                push_str(&mut s, " bytes)");
            },
            WattchError::TruncatedPayload { expected, actual } => {
                push_str(&mut s, "truncated frame payload: expected ");
                push_decimal(&mut s, *expected as u64);
                push_str(&mut s, " bytes, got ");
                push_decimal(&mut s, *actual as u64);
                push_str(&mut s, " bytes");
            },
            WattchError::BadRequest(m) => {
                push_str(&mut s, "bad request: ");
                push_str(&mut s, m.as_str());
            },
            WattchError::SourceNotFound(id) => {
                push_str(&mut s, "source not found: ");
                push_decimal(&mut s, *id as u64);
            },
            WattchError::SourceUnavailable(id) => {
                push_str(&mut s, "source unavailable: ");
                push_decimal(&mut s, *id as u64);
            },
            WattchError::StreamAlreadyRunning => {
                push_str(&mut s, "stream already running");
            },
            WattchError::StreamNotRunning => {
                push_str(&mut s, "stream not running");
            },
            WattchError::IntervalTooLow { interval_ns, min_interval_ns } => {
                push_str(&mut s, "sampling interval too low: ");
                push_decimal(&mut s, *interval_ns);
                push_str(&mut s, " ns (minimum ");
                push_decimal(&mut s, *min_interval_ns);
                push_str(&mut s, " ns)");
            },
            WattchError::Internal(m) => {
                push_str(&mut s, "internal error: ");
                push_str(&mut s, m.as_str());
            },
            WattchError::Io(e) => {
                s = e.to_string();
            },
            WattchError::Decode(e) => {
                s = e.to_string();
            },
            WattchError::Encode(e) => {
                s = e.to_string();
            },
        }
        s
    }
}

} // verus!
