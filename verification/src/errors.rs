//! The errors of fetching a manifest, downloading segments and joining
//! them into tracks.

use vstd::prelude::*;
use crate::mpd::InvalidMpd;
use crate::text::{decimal_digits, zero_padded_decimal};

verus! {

/// `reqwest::Error`, carried through unread.
#[verifier::external_type_specification]
#[verifier::external_body]
pub struct ExReqwestError(reqwest::Error);

/// `std::io::Error`, carried through unread.
#[verifier::external_type_specification]
#[verifier::external_body]
pub struct ExIoError(std::io::Error);

/// What `reqwest::Error::is_timeout` answers for an error: whether the
/// error's chain of sources holds a timeout. It reads the error alone.
pub uninterp spec fn reqwest_is_timeout(err: reqwest::Error) -> bool;

/// The text that `reqwest::Error`'s `Display` writes for an error: the kind
/// of failure and, where the error has one, the URL. It reads the error alone.
pub uninterp spec fn reqwest_error_text(err: reqwest::Error) -> Seq<char>;

/// Calls `reqwest::Error::is_timeout`; the contract claims only that the
/// answer is the one `reqwest_is_timeout` names for this error.
#[verifier::external_body]
fn request_timed_out(err: &reqwest::Error) -> (b: bool)
    ensures
        b == reqwest_is_timeout(*err),
{
    err.is_timeout()
}

/// Why the download of a segment failed.
#[derive(Debug)]
pub enum SegmentDownloadError {
    /// The request timed out after `dur_sec` seconds; retrying may help.
    /// `err` is the client's error, where the client reported one.
    Timeout { dur_sec: usize, err: Option<reqwest::Error> },
    /// The request failed otherwise.
    RequestError { err: reqwest::Error },
    /// The segment could not be saved.
    SaveError { err: std::io::Error },
}

/// Calls the `Display` impl of `reqwest::Error` (through `to_string`); the
/// contract claims only that the text is the one `reqwest_error_text` names
/// for this error.
#[verifier::external_body]
fn request_error_text(err: &reqwest::Error) -> (t: String)
    ensures
        t@ == reqwest_error_text(*err),
{
    err.to_string()
}

/// Calls the `Display` impl of `std::io::Error` (through `to_string`).
/// Nothing is claimed of the text.
#[verifier::external_body]
fn io_error_text(err: &std::io::Error) -> String {
    err.to_string()
}

/// `p` is a prefix of `s`.
pub open spec fn starts_with(s: Seq<char>, p: Seq<char>) -> bool {
    s.len() >= p.len() && s.take(p.len() as int) == p
}

/// The start of the message of a timeout after `dur_sec` seconds.
pub open spec fn timeout_text(dur_sec: nat) -> Seq<char> {
    "Timed out ("@ + decimal_digits(dur_sec) + " seconds elapsed)"@
}

impl SegmentDownloadError {
    /// The message for the user: what failed, then the inner error's text.
    pub fn message(&self) -> (m: String)
        ensures
            self matches SegmentDownloadError::Timeout { dur_sec, err: None } ==> m@ == timeout_text(
                dur_sec as nat,
            ),
            self matches SegmentDownloadError::Timeout { dur_sec, err: Some(e) } ==> m@
                == timeout_text(dur_sec as nat) + ": "@ + reqwest_error_text(*e),
            self matches SegmentDownloadError::RequestError { err } ==> m@ == "Request error: "@
                + reqwest_error_text(*err),
            self is SaveError ==> starts_with(m@, "Error upon saving the fragment to a file: "@),
    {
        match self {
            SegmentDownloadError::Timeout { dur_sec, err } => {
                let mut m = String::from_str("Timed out (");
                let secs = zero_padded_decimal(*dur_sec, 0);
                m.append(secs.as_str());
                m.append(" seconds elapsed)");
                assert(m@ == timeout_text(*dur_sec as nat));
                match err {
                    Some(e) => {
                        m.append(": ");
                        let text = request_error_text(e);
                        with_cause(m.as_str(), text.as_str())
                    },
                    None => m,
                }
            },
            SegmentDownloadError::RequestError { err } => {
                let text = request_error_text(err);
                with_cause("Request error: ", text.as_str())
            },
            SegmentDownloadError::SaveError { err } => {
                with_cause(
                    "Error upon saving the fragment to a file: ",
                    io_error_text(err).as_str(),
                )
            },
        }
    }
}

/// A message made of its opening words followed by the text of its cause.
pub fn with_cause(head: &str, cause: &str) -> (m: String)
    ensures
        m@ == head@ + cause@,
        starts_with(m@, head@),
{
    let mut m = String::from_str(head);
    m.append(cause);
    assert(m@.take(head@.len() as int) =~= head@);
    m
}

/// The segment error for a failed request: a timeout of `dur_sec` seconds
/// where the client reports one, a request error otherwise.
pub fn request_error(
    err: reqwest::Error,
    dur_sec: usize,
    timed_out: bool,
) -> (e: SegmentDownloadError)
    ensures
        timed_out ==> (e == (SegmentDownloadError::Timeout { dur_sec, err: Some(err) })),
        !timed_out ==> (e == (SegmentDownloadError::RequestError { err })),
{
    if timed_out {
        SegmentDownloadError::Timeout { dur_sec, err: Some(err) }
    } else {
        SegmentDownloadError::RequestError { err }
    }
}

/// The segment error for a failed request, a timeout where the client says
/// the request timed out.
pub fn reqwest_err_into_sde(err: reqwest::Error, dur_sec: usize) -> (e: SegmentDownloadError)
    ensures
        reqwest_is_timeout(err) ==> (e == (SegmentDownloadError::Timeout {
            dur_sec,
            err: Some(err),
        })),
        !reqwest_is_timeout(err) ==> (e == (SegmentDownloadError::RequestError { err })),
{
    let timed_out = request_timed_out(&err);
    request_error(err, dur_sec, timed_out)
}

impl From<std::io::Error> for SegmentDownloadError {
    fn from(err: std::io::Error) -> (e: Self) {
        SegmentDownloadError::SaveError { err }
    }
}

impl vstd::std_specs::convert::FromSpecImpl<std::io::Error> for SegmentDownloadError {
    open spec fn obeys_from_spec() -> bool {
        true
    }

    open spec fn from_spec(err: std::io::Error) -> Self {
        SegmentDownloadError::SaveError { err }
    }
}

/// Why the segments of a track could not be joined.
#[derive(Debug)]
pub enum ProcessingError {
    ConcatError { err: std::io::Error },
}

impl From<std::io::Error> for ProcessingError {
    fn from(err: std::io::Error) -> (e: Self) {
        ProcessingError::ConcatError { err }
    }
}

impl vstd::std_specs::convert::FromSpecImpl<std::io::Error> for ProcessingError {
    open spec fn obeys_from_spec() -> bool {
        true
    }

    open spec fn from_spec(err: std::io::Error) -> Self {
        ProcessingError::ConcatError { err }
    }
}

/// Why the manifest could not be had.
#[derive(Debug)]
pub enum ManifestError {
    InvalidUrl { err: url::ParseError },
    CannotAccess { err: reqwest::Error },
    InvalidManifest { err: InvalidMpd },
}

impl From<reqwest::Error> for ManifestError {
    fn from(err: reqwest::Error) -> (e: Self) {
        ManifestError::CannotAccess { err }
    }
}

impl vstd::std_specs::convert::FromSpecImpl<reqwest::Error> for ManifestError {
    open spec fn obeys_from_spec() -> bool {
        true
    }

    open spec fn from_spec(err: reqwest::Error) -> Self {
        ManifestError::CannotAccess { err }
    }
}

impl From<InvalidMpd> for ManifestError {
    fn from(err: InvalidMpd) -> (e: Self) {
        ManifestError::InvalidManifest { err }
    }
}

impl vstd::std_specs::convert::FromSpecImpl<InvalidMpd> for ManifestError {
    open spec fn obeys_from_spec() -> bool {
        true
    }

    open spec fn from_spec(err: InvalidMpd) -> Self {
        ManifestError::InvalidManifest { err }
    }
}

} // verus!
