//! How the answer to a request is shown.

use crate::multipart::{is_success, is_success_status};
use vstd::prelude::*;

verus! {

/// How loud an answer is reported.
#[derive(Debug, Clone, Copy, PartialEq, Eq, Structural)]
pub enum ReportLevel {
    /// The status is one of success.
    Info,
    /// The status is any other.
    Warn,
}

/// What is shown of the body of an answer.
#[derive(Debug, Clone, Copy, PartialEq, Eq, Structural)]
pub enum ReportBody {
    /// A note that the body holds no text.
    NoText,
    /// A note that the listing holds no entry.
    NoEntries,
    /// The rows of the listing, as a table.
    Table,
    /// The body as it came.
    Raw,
}

/// How an answer is reported.
#[derive(Debug, Clone, Copy, PartialEq, Eq, Structural)]
pub struct ResponseReport {
    pub level: ReportLevel,
    pub body: ReportBody,
}

/// Decides whether an operation of a single request has succeeded: it has
/// where the status of the answer is one of success, and has failed with that
/// status otherwise.
pub fn single_shot_outcome(status: u16) -> (r: Result<(), u16>)
    ensures
        r is Ok <==> is_success_status(status),
        r matches Err(s) ==> s == status,
{
    if is_success(status) {
        Ok(())
    } else {
        Err(status)
    }
}

/// `text` without the white space at its two ends, as `str::trim` gives it.
pub uninterp spec fn trimmed_text(text: Seq<char>) -> Seq<char>;

/// Calls `str::trim`.
///
/// Trusted: the result is the text named `trimmed_text`.
#[verifier::external_body]
pub(crate) fn trim(text: &str) -> (r: &str)
    ensures
        r@ == trimmed_text(text@),
{
    text.trim()
}

/// The report of an answer with status `status` and `rows` listed entries
/// where the answer is a listing, whose body is blank or not.
pub open spec fn report_of(status: u16, rows: Option<usize>, blank: bool) -> ResponseReport {
    ResponseReport {
        level: if is_success_status(status) {
            ReportLevel::Info
        } else {
            ReportLevel::Warn
        },
        body: if blank {
            ReportBody::NoText
        } else {
            match rows {
                Some(n) => if n == 0 {
                    ReportBody::NoEntries
                } else {
                    ReportBody::Table
                },
                None => ReportBody::Raw,
            }
        },
    }
}

/// Decides how an answer is reported, given whether its body is blank.
///
/// A blank body is reported as empty, whatever was read from it; else a
/// listing is shown as a table, or as empty where it has no entry; any other
/// body is shown as it came. A status of success is reported as information,
/// any other as a warning.
pub fn response_report(status: u16, parsed: Option<usize>, blank: bool) -> (r: ResponseReport)
    ensures
        r == report_of(status, parsed, blank),
{
    let level = if is_success(status) {
        ReportLevel::Info
    } else {
        ReportLevel::Warn
    };
    let body = if blank {
        ReportBody::NoText
    } else {
        match parsed {
            Some(n) => if n == 0 {
                ReportBody::NoEntries
            } else {
                ReportBody::Table
            },
            None => ReportBody::Raw,
        }
    };
    ResponseReport { level, body }
}

/// Decides how an answer is reported: its body is blank where nothing is left
/// of it without the white space at its ends.
pub fn log_api_response(status: u16, parsed: Option<usize>, raw_body: &str) -> (r: ResponseReport)
    ensures
        r == report_of(status, parsed, trimmed_text(raw_body@).len() == 0),
{
    response_report(status, parsed, trim(raw_body).is_empty())
}

} // verus!
