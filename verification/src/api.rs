//! API error messages, the device authorization flow, and the clock.

use vstd::prelude::*;
use crate::text::{append, opt_seq, owned, str_eq};

verus! {

/// The error body the API returns.
pub struct ApiError {
    pub error: Option<String>,
    pub error_description: Option<String>,
    pub message: Option<String>,
}

/// The message of an API error: its description, else its message, else its
/// code, else a generic one.
pub open spec fn api_error_text(e: ApiError) -> Seq<char> {
    match e.error_description {
        Some(d) => d@,
        None => match e.message {
            Some(m) => m@,
            None => match e.error {
                Some(c) => c@,
                None => "API request failed"@,
            },
        },
    }
}

pub fn api_error(error: ApiError) -> (r: String)
    ensures
        r@ == api_error_text(error),
{
    match error.error_description {
        Some(d) => d,
        None => match error.message {
            Some(m) => m,
            None => match error.error {
                Some(c) => c,
                None => owned("API request failed"),
            },
        },
    }
}

/// The error that stands in for an unreadable error body: `HTTP <status>`.
pub fn http_status_error(status_text: &str) -> (r: ApiError)
    ensures
        opt_seq(r.error) == Some("HTTP "@ + status_text@),
        r.error_description is None,
        r.message is None,
{
    let mut code = owned("HTTP ");
    append(&mut code, status_text);
    ApiError { error: Some(code), error_description: None, message: None }
}

/// Seconds between device-token polls: the server's interval (5 by default),
/// at least one.
pub fn device_poll_interval(interval: Option<u64>) -> (r: u64)
    ensures
        r == match interval {
            Some(i) => if i < 1 {
                1
            } else {
                i
            },
            None => 5,
        },
{
    match interval {
        Some(i) => if i < 1 {
            1
        } else {
            i
        },
        None => 5,
    }
}

/// Seconds until the device code expires: the server's value, 1800 by default.
pub fn device_code_lifetime(expires_in: Option<u64>) -> (r: u64)
    ensures
        r == match expires_in {
            Some(e) => e,
            None => 1800,
        },
{
    match expires_in {
        Some(e) => e,
        None => 1800,
    }
}

/// The page to open for approval: the complete URL when the server gives one.
pub fn browser_url<'a>(complete: Option<&'a str>, uri: &'a str) -> (r: &'a str)
    ensures
        r@ == match complete {
            Some(c) => c@,
            None => uri@,
        },
{
    match complete {
        Some(c) => c,
        None => uri,
    }
}

/// What a refused device-token poll means.
pub enum DeviceStep {
    /// Not approved yet: poll again.
    Pending,
    /// Poll again, five seconds more slowly.
    SlowDown,
    /// Stop with this message.
    Fail(String),
}

pub open spec fn device_step_ok(e: ApiError, r: DeviceStep) -> bool {
    match opt_seq(e.error) {
        Some(code) => if code == "authorization_pending"@ {
            r is Pending
        } else if code == "slow_down"@ {
            r is SlowDown
        } else if code == "access_denied"@ {
            r matches DeviceStep::Fail(m) && m@ == "device authorization was denied"@
        } else if code == "expired_token"@ {
            r matches DeviceStep::Fail(m) && m@ == "device code expired; run `co login` again"@
        } else {
            r matches DeviceStep::Fail(m) && m@ == api_error_text(e)
        },
        None => r matches DeviceStep::Fail(m) && m@ == api_error_text(e),
    }
}

/// Interprets the error of a device-token poll.
pub fn device_poll_step(error: ApiError) -> (r: DeviceStep)
    ensures
        device_step_ok(error, r),
{
    let code = match &error.error {
        Some(c) => Some(c.as_str()),
        None => None,
    };
    match code {
        Some(c) => {
            if str_eq(c, "authorization_pending") {
                DeviceStep::Pending
            } else if str_eq(c, "slow_down") {
                DeviceStep::SlowDown
            } else if str_eq(c, "access_denied") {
                DeviceStep::Fail(owned("device authorization was denied"))
            } else if str_eq(c, "expired_token") {
                DeviceStep::Fail(owned("device code expired; run `co login` again"))
            } else {
                DeviceStep::Fail(api_error(error))
            }
        },
        None => DeviceStep::Fail(api_error(error)),
    }
}

/// A 2xx status.
pub open spec fn is_success(status: u16) -> bool {
    200 <= status <= 299
}

/// The warning `logout` prints when the server did not confirm revocation:
/// none when it answered with success or 401.
pub fn sign_out_warning(status: Option<u16>) -> (r: Option<&'static str>)
    ensures
        match status {
            None => r matches Some(w) && w@
                == "co: warning: unable to reach the server; removing the local session"@,
            Some(s) => if !is_success(s) && s != 401 {
                r matches Some(w) && w@ == "co: warning: server did not confirm session revocation"@
            } else {
                r is None
            },
        },
{
    match status {
        None => Some("co: warning: unable to reach the server; removing the local session"),
        Some(s) => if !(200 <= s && s <= 299) && s != 401 {
            Some("co: warning: server did not confirm session revocation")
        } else {
            None
        },
    }
}

/// What `whoami` shows: the username (else the name), the name and the email,
/// with `unknown` for what is missing.
pub fn account_summary(username: Option<&str>, name: Option<&str>, email: Option<&str>) -> (r: (
    String,
    String,
    String,
))
    ensures
        r.1@ == match name {
            Some(n) => n@,
            None => "unknown"@,
        },
        r.2@ == match email {
            Some(e) => e@,
            None => "unknown"@,
        },
        r.0@ == match username {
            Some(u) => u@,
            None => r.1@,
        },
{
    let shown_name = match name {
        Some(n) => owned(n),
        None => owned("unknown"),
    };
    let shown_email = match email {
        Some(e) => owned(e),
        None => owned("unknown"),
    };
    let title = match username {
        Some(u) => owned(u),
        None => shown_name.clone(),
    };
    (title, shown_name, shown_email)
}

/// The system clock's time.
#[verifier::external_type_specification]
#[verifier::external_body]
pub struct ExSystemTime(std::time::SystemTime);

/// `std::time::SystemTime::now`: the current time by the system clock.
/// Nothing is stated of it: it depends on the moment of the call.
#[verifier::external_body]
fn system_time_now() -> (r: std::time::SystemTime) {
    std::time::SystemTime::now()
}

/// `SystemTime::duration_since` taken from `UNIX_EPOCH`: the time since the
/// epoch, or `None` when `time` is earlier. The value is not stated.
#[verifier::external_body]
fn since_unix_epoch(time: &std::time::SystemTime) -> (r: Option<std::time::Duration>) {
    time.duration_since(std::time::UNIX_EPOCH).ok()
}

/// `Duration::as_secs`: the whole seconds of a duration.
pub assume_specification[ std::time::Duration::as_secs ](d: &std::time::Duration) -> u64;

/// `Duration::subsec_nanos`: the fractional part of a duration in
/// nanoseconds, which its documentation gives as less than one billion.
pub assume_specification[ std::time::Duration::subsec_nanos ](d: &std::time::Duration) -> (r: u32)
    ensures
        r < 1_000_000_000,
;

/// Seconds and nanoseconds since the Unix epoch by the system clock, or
/// `None` when the clock is set before the epoch.
fn clock_since_epoch() -> (r: Option<(u64, u32)>)
    ensures
        r matches Some((_, nanos)) ==> nanos < 1_000_000_000,
{
    let now = system_time_now();
    match since_unix_epoch(&now) {
        Some(d) => Some((d.as_secs(), d.subsec_nanos())),
        None => None,
    }
}

pub open spec fn clock_error() -> Seq<char> {
    "system clock is before Unix epoch"@
}

/// What a clock reading means: the time since the epoch, or the error for a
/// clock set before the epoch.
pub fn time_since_epoch(reading: Option<(u64, u32)>) -> (r: Result<(u64, u32), String>)
    ensures
        match reading {
            Some(t) => r == Ok::<(u64, u32), String>(t),
            None => r matches Err(e) && e@ == clock_error(),
        },
{
    match reading {
        Some(t) => Ok(t),
        None => Err(owned("system clock is before Unix epoch")),
    }
}

/// The whole seconds of a clock reading, or the error for a clock set before
/// the epoch.
pub fn whole_seconds(reading: Option<(u64, u32)>) -> (r: Result<u64, String>)
    ensures
        match reading {
            Some((secs, _)) => r == Ok::<u64, String>(secs),
            None => r matches Err(e) && e@ == clock_error(),
        },
{
    match reading {
        Some((secs, _)) => Ok(secs),
        None => Err(owned("system clock is before Unix epoch")),
    }
}

/// The current time in whole seconds since the Unix epoch. Which time that
/// is, and whether the clock is before the epoch, the clock decides: the
/// reading goes through `whole_seconds`.
pub fn unix_now() -> (r: Result<u64, String>)
    ensures
        r matches Err(e) ==> e@ == clock_error(),
{
    whole_seconds(clock_since_epoch())
}

/// The current time since the Unix epoch, with its nanoseconds. The clock
/// decides the value; the reading goes through `time_since_epoch`.
pub fn unix_now_precise() -> (r: Result<(u64, u32), String>)
    ensures
        match r {
            Ok((_, nanos)) => nanos < 1_000_000_000,
            Err(e) => e@ == clock_error(),
        },
{
    time_since_epoch(clock_since_epoch())
}

/// Nanoseconds since the epoch from seconds and their fraction.
pub fn epoch_nanos(secs: u64, nanos: u32) -> (r: u128)
    ensures
        r == secs * 1_000_000_000 + nanos,
{
    assert(secs * 1_000_000_000 <= u64::MAX * 1_000_000_000) by (nonlinear_arith)
        requires
            secs <= u64::MAX,
    ;
    (secs as u128) * 1_000_000_000 + (nanos as u128)
}

} // verus!
