//! Decisions of the C boundary: status codes, the worker-thread
//! setting, and the record that reports a payload lost in transit.

use vstd::prelude::*;
use vstd::string::*;

use crate::error::{PluginErrorRecord, details_view};

verus! {

/// Success.
pub const RC_OK: i32 = 0;
/// A handle was null or invalid.
pub const RC_INVALID_HANDLE: i32 = -1;
/// An argument was invalid (null pointer, negative length, bad UTF-8,
/// or a call out of order).
pub const RC_INVALID_INPUT: i32 = -2;
/// A payload or extensions could not be decoded.
pub const RC_PARSE_ERROR: i32 = -3;
/// The pipeline or the manager failed.
pub const RC_PIPELINE_ERROR: i32 = -4;
/// The result could not be encoded.
pub const RC_SERIALIZE_ERROR: i32 = -5;
/// The call ran past its wall-clock bound.
pub const RC_TIMEOUT: i32 = -6;
/// A plugin panicked; the panic was caught at the boundary.
pub const RC_PANIC: i32 = -7;

/// Payload type id of the generic (name/value) payload.
pub const PAYLOAD_GENERIC: u8 = 0;
/// Payload type id of a CMF message payload.
pub const PAYLOAD_CMF_MESSAGE: u8 = 1;

/// How a guarded run of the pipeline ended.
pub enum SafeRun<T> {
    Done(T),
    Timeout,
    Panicked,
}

impl<T> SafeRun<T> {
    /// The status code for this outcome.
    pub fn rc(&self) -> (c: i32)
        ensures
            c == match self {
                SafeRun::Done(_) => RC_OK,
                SafeRun::Timeout => RC_TIMEOUT,
                SafeRun::Panicked => RC_PANIC,
            },
    {
        match self {
            SafeRun::Done(_) => RC_OK,
            SafeRun::Timeout => RC_TIMEOUT,
            SafeRun::Panicked => RC_PANIC,
        }
    }
}

/// Whether every character is an ASCII digit, and there is one.
pub open spec fn all_digits(s: Seq<char>) -> bool {
    s.len() > 0 && forall|i: int| 0 <= i < s.len() ==> '0' <= #[trigger] s[i] && s[i] <= '9'
}

/// The number that a string of digits spells in base ten.
pub open spec fn digits_value(s: Seq<char>) -> nat
    decreases s.len(),
{
    if s.len() == 0 {
        0
    } else {
        digits_value(s.drop_last()) * 10 + ((s.last() as nat) - ('0' as nat)) as nat
    }
}

/// What `str::parse::<usize>` gives: an optional `+` then one or more
/// digits, whose value fits in a `usize`; anything else is an error.
pub open spec fn parsed_usize(s: Seq<char>) -> Option<nat> {
    let d = if s.len() > 0 && s[0] == '+' { s.drop_first() } else { s };
    if all_digits(d) && digits_value(d) <= usize::MAX {
        Some(digits_value(d))
    } else {
        None
    }
}

/// `str::parse::<usize>`, with a failed parse as `None`. Its
/// documentation (`usize::from_str_radix`, base ten) accepts an
/// optional `+` followed by digits only, and fails on an empty digit
/// string, on any other character, and on a value past `usize::MAX`.
#[verifier::external_body]
fn parse_usize(s: &str) -> (r: Option<usize>)
    ensures
        match parsed_usize(s@) {
            Some(n) => r matches Some(x) && x as nat == n,
            None => r is None,
        },
{
    s.parse::<usize>().ok()
}

/// The worker-thread count asked for by the text of a setting: a
/// positive integer, or nothing (unparseable, zero or negative text
/// leaves the runtime's default).
pub fn worker_threads_setting(raw: &str) -> (r: Option<usize>)
    ensures
        match parsed_usize(raw@) {
            Some(n) => if n > 0 { r matches Some(x) && x as nat == n } else { r is None },
            None => r is None,
        },
{
    match parse_usize(raw) {
        Some(n) => if n > 0 { Some(n) } else { None },
        None => None,
    }
}

/// The worker-thread count of an explicit runtime request: only a
/// positive count is taken.
pub fn requested_workers(worker_threads: i32) -> (r: Option<usize>)
    ensures
        worker_threads > 0 <==> r is Some,
        r matches Some(n) ==> n as int == worker_threads as int,
{
    if worker_threads <= 0 {
        None
    } else {
        Some(worker_threads as usize)
    }
}

/// The error record that reports a modified payload dropped because it
/// could not be encoded across the boundary.
pub fn payload_dropped_record(cause: &str) -> (r: PluginErrorRecord)
    ensures
        r.plugin_name@ == "<ffi>"@,
        r.message@ == "modified payload could not be serialized across FFI: "@ + cause@,
        r.code matches Some(c) && c@ == "ffi_serialize_error"@,
        details_view(r.details@).len() == 0,
        r.proto_error_code is None,
{
    let mut message = String::from_str("modified payload could not be serialized across FFI: ");
    message.append(cause);
    let r = PluginErrorRecord {
        plugin_name: String::from_str("<ffi>"),
        message,
        code: Some(String::from_str("ffi_serialize_error")),
        details: Vec::new(),
        proto_error_code: None,
    };
    assert(r.details@.len() == 0);
    r
}

} // verus!
