//! Trusted declarations: the contracts this library assumes of items from
//! outside crates, and of std functions that vstd gives no specification.

use vstd::prelude::*;
use vstd::utf8::{encode_utf8, valid_utf8};

verus! {

// ---------------------------------------------------------------------------
// std
// ---------------------------------------------------------------------------

/// Relies on `String::from_utf8`: it succeeds exactly on valid UTF-8 input,
/// and the returned string holds those very bytes, so its character sequence
/// is the one whose UTF-8 encoding is the input.
#[verifier::external_body]
pub(crate) fn string_from_utf8(bytes: Vec<u8>) -> (r: Option<String>)
    ensures
        r is Some <==> valid_utf8(bytes@),
        r matches Some(s) ==> encode_utf8(s@) == bytes@,
{
    String::from_utf8(bytes).ok()
}

// ---------------------------------------------------------------------------
// regex
// ---------------------------------------------------------------------------

#[verifier::external_type_specification]
#[verifier::external_body]
pub struct ExRegex(regex::Regex);

#[verifier::external_type_specification]
#[verifier::external_body]
pub struct ExRegexError(regex::Error);

/// The pattern string a compiled regular expression was built from.
pub uninterp spec fn regex_pattern(re: regex::Regex) -> Seq<char>;

/// Whether `regex::Regex::new` accepts a pattern: it is a well-formed
/// expression whose compiled form fits the default size limit.
pub uninterp spec fn regex_ok(pattern: Seq<char>) -> bool;

/// Whether the pattern matches anywhere in the text.
pub uninterp spec fn regex_match(pattern: Seq<char>, text: Seq<char>) -> bool;

/// Relies on `regex::Regex::new`: it compiles exactly the patterns it
/// accepts, and the compiled regex keeps the pattern it was built from
/// (which `Regex::as_str` returns).
#[verifier::external_body]
pub(crate) fn regex_new(pattern: &str) -> (r: Result<regex::Regex, regex::Error>)
    ensures
        r is Ok <==> regex_ok(pattern@),
        r matches Ok(re) ==> regex_pattern(re) == pattern@,
{
    regex::Regex::new(pattern)
}

/// Relies on `regex::Regex::is_match`: true if and only if there is a match
/// for the regex anywhere in the haystack — a function of the pattern and
/// the haystack alone.
#[verifier::external_body]
pub(crate) fn regex_is_match(re: &regex::Regex, text: &str) -> (r: bool)
    ensures
        r == regex_match(regex_pattern(*re), text@),
{
    re.is_match(text)
}

/// Relies on `regex::Regex`'s `Clone` impl: the clone shares the same
/// compiled pattern.
#[verifier::external_body]
pub(crate) fn regex_clone(re: &regex::Regex) -> (r: regex::Regex)
    ensures
        regex_pattern(r) == regex_pattern(*re),
{
    re.clone()
}

// ---------------------------------------------------------------------------
// tokio bounded mpsc channels
// ---------------------------------------------------------------------------

#[verifier::external_type_specification]
#[verifier::external_body]
#[verifier::reject_recursive_types(T)]
pub struct ExSender<T>(tokio::sync::mpsc::Sender<T>);

#[verifier::external_type_specification]
#[verifier::external_body]
#[verifier::reject_recursive_types(T)]
pub struct ExReceiver<T>(tokio::sync::mpsc::Receiver<T>);

/// What one non-blocking delivery attempt on a bounded channel did; the
/// failing cases hand the undelivered value back.
pub enum TrySendOutcome<T> {
    /// The value is in the channel's queue.
    Sent,
    /// The queue already holds `capacity` values; nothing was sent.
    Full(T),
    /// The receiver half was dropped or closed; nothing was sent.
    Closed(T),
}

/// Relies on `tokio::sync::mpsc::channel`: it returns the two halves of a
/// bounded channel, and panics when the buffer is zero or above the maximum
/// permit count (`usize::MAX / 8`), so those buffers are excluded.
#[verifier::external_body]
pub(crate) fn chan_new<T>(buffer: usize) -> (r: (
    tokio::sync::mpsc::Sender<T>,
    tokio::sync::mpsc::Receiver<T>,
))
    requires
        0 < buffer <= usize::MAX / 8,
{
    tokio::sync::mpsc::channel(buffer)
}

/// Relies on `tokio::sync::mpsc::Sender::try_send`: a non-blocking send that
/// fails with `Full` when the channel already holds `buffer` messages and
/// with `Closed` when the receiver half is gone, returning the unsent value
/// inside the error either way.
#[verifier::external_body]
pub(crate) fn chan_try_send<T>(tx: &tokio::sync::mpsc::Sender<T>, value: T) -> (r: TrySendOutcome<
    T,
>)
    ensures
        r matches TrySendOutcome::Full(v) ==> v == value,
        r matches TrySendOutcome::Closed(v) ==> v == value,
{
    match tx.try_send(value) {
        Ok(()) => TrySendOutcome::Sent,
        Err(tokio::sync::mpsc::error::TrySendError::Full(v)) => TrySendOutcome::Full(v),
        Err(tokio::sync::mpsc::error::TrySendError::Closed(v)) => TrySendOutcome::Closed(v),
    }
}

/// Relies on `tokio::sync::mpsc::Sender::is_closed`: true once the receiver
/// half has been dropped or closed. The result reflects shared channel state
/// that another task owns, so nothing ties it to the sender value.
#[verifier::external_body]
pub(crate) fn chan_is_closed<T>(tx: &tokio::sync::mpsc::Sender<T>) -> bool {
    tx.is_closed()
}

// ---------------------------------------------------------------------------
// std::sync::Arc
// ---------------------------------------------------------------------------

/// Relies on `std::sync::Arc`'s `Clone` impl: the clone is a handle to the
/// same allocation, so it carries the very same value.
#[verifier::external_body]
pub(crate) fn arc_share<T>(arc: &std::sync::Arc<T>) -> (r: std::sync::Arc<T>)
    ensures
        r == *arc,
{
    std::sync::Arc::clone(arc)
}

// ---------------------------------------------------------------------------
// chrono
// ---------------------------------------------------------------------------

/// Relies on `chrono::Utc::now` (converted with `DateTime::timestamp_micros`):
/// the current wall-clock instant as microseconds since the Unix epoch.
/// Nothing can be promised of the clock's reading.
#[verifier::external_body]
pub(crate) fn now_micros() -> i64 {
    chrono::Utc::now().timestamp_micros()
}

} // verus!
