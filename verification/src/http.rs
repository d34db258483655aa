//! The verdicts on the HTTP status of a response: the launcher goes on only
//! after a success, and otherwise reports the status as `reqwest` shows it.

use vstd::prelude::*;
use crate::launcher::Launcher;

verus! {

/// A status in the range 200-299, which `reqwest::StatusCode::is_success`
/// accepts.
pub open spec fn is_success_code(code: u16) -> bool {
    200 <= code && code < 300
}

/// A number that `reqwest::StatusCode::from_u16` accepts as a status.
pub open spec fn is_status_code(code: u16) -> bool {
    100 <= code && code <= 999
}

/// The text that `reqwest::StatusCode`'s `Display` gives for a status.
pub uninterp spec fn status_display(code: u16) -> Seq<char>;

/// The message when a download is answered with a failure status.
pub open spec fn download_failed_message(code: u16, url: Seq<char>) -> Seq<char> {
    "HTTP "@ + status_display(code) + ": "@ + url
}

/// The message when the GitHub API answers with a failure status.
pub open spec fn api_failed_message(code: u16) -> Seq<char> {
    "GitHub API error: "@ + status_display(code)
}

/// The message when the updater's download is answered with a failure
/// status.
pub open spec fn replacement_failed_message(code: u16) -> Seq<char> {
    "HTTP "@ + status_display(code)
}

/// The text of an HTTP status, made by `reqwest::StatusCode::from_u16` and
/// `reqwest::StatusCode`'s `Display` (its number and reason phrase). The
/// contract names the text and claims nothing of its form.
#[verifier::external_body]
fn status_text(code: u16) -> (text: String)
    requires
        is_status_code(code),
    ensures
        text@ == status_display(code),
{
    match reqwest::StatusCode::from_u16(code) {
        Ok(status) => format!("{}", status),
        Err(error) => format!("{}", error),
    }
}

/// Whether a status is a success, as `reqwest::StatusCode::is_success`.
pub fn is_success(code: u16) -> (ok: bool)
    ensures
        ok == is_success_code(code),
{
    200 <= code && code < 300
}

impl Launcher {
    /// The verdict on the status of a library or asset download.
    pub fn download_status_verdict(code: u16, url: &str) -> (r: Result<(), String>)
        requires
            is_status_code(code),
        ensures
            match r {
                Ok(()) => is_success_code(code),
                Err(e) => !is_success_code(code) && e@ == download_failed_message(code, url@),
            },
    {
        if is_success(code) {
            return Ok(());
        }
        let mut e = String::from_str("HTTP ");
        let status = status_text(code);
        e.append(status.as_str());
        e.append(": ");
        e.append(url);
        Err(e)
    }

    /// The verdict on the status of a GitHub API response.
    pub fn api_status_verdict(code: u16) -> (r: Result<(), String>)
        requires
            is_status_code(code),
        ensures
            match r {
                Ok(()) => is_success_code(code),
                Err(e) => !is_success_code(code) && e@ == api_failed_message(code),
            },
    {
        if is_success(code) {
            return Ok(());
        }
        let mut e = String::from_str("GitHub API error: ");
        let status = status_text(code);
        e.append(status.as_str());
        Err(e)
    }
}

/// The verdict on the status of the updater's download of the new launcher.
pub fn replacement_status_verdict(code: u16) -> (r: Result<(), String>)
    requires
        is_status_code(code),
    ensures
        match r {
            Ok(()) => is_success_code(code),
            Err(e) => !is_success_code(code) && e@ == replacement_failed_message(code),
        },
{
    if is_success(code) {
        return Ok(());
    }
    let mut e = String::from_str("HTTP ");
    let status = status_text(code);
    e.append(status.as_str());
    Err(e)
}

} // verus!
