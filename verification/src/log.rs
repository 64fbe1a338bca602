//! The log file.

use vstd::prelude::*;
use vstd::string::*;

use crate::clock::LocalTime;
use crate::config::join_path;
use crate::text::decimal_text;

verus! {

/// A log that is longer than this is put aside.
pub const MAX_BYTES: u64 = 524_288;

/// What takes so many milliseconds is slow.
pub const SLOW_MS: u64 = 250;

/// The log file.
pub fn path(data_directory: &str, separator: char) -> (r: String)
    ensures
        r@ == crate::config::joined(data_directory@, "snipd.log"@, separator),
{
    join_path(data_directory, "snipd.log", separator)
}

/// Whether a log of this length is put aside before it is written to. Where there
/// is none, or none that can be looked at, nothing is.
pub fn must_rotate(len: Option<u64>) -> (r: bool)
    ensures
        r == (len matches Some(n) && n > MAX_BYTES),
        r <==> len is Some && len->0 > 512 * 1024,
{
    match len {
        Some(n) => n > MAX_BYTES,
        None => false,
    }
}

/// The line for a message at a moment.
pub open spec fn line_at(at: &LocalTime, message: Seq<char>) -> Seq<char> {
    crate::clock::strftime_text(
        "%Y-%m-%d %H:%M:%S%.3f"@,
        at.spec_secs(),
        at.spec_nanos(),
        at.spec_offset(),
    )->0 + " "@ + message
}

/// Writes the line for a message at a moment.
pub fn line(at: &LocalTime, message: &str) -> (r: String)
    ensures
        r@ == line_at(at, message@),
        r@ == crate::clock::strftime_text(
            "%Y-%m-%d %H:%M:%S%.3f"@,
            at.spec_secs(),
            at.spec_nanos(),
            at.spec_offset(),
        )->0 + " "@ + message@,
{
    proof {
        reveal_strlit("%Y-%m-%d %H:%M:%S%.3f");
        reveal_with_fuel(crate::clock::plain_from, 14);
    }
    let mut out: String = match at.format("%Y-%m-%d %H:%M:%S%.3f") {
        Some(stamp) => stamp,
        None => String::new(),
    };
    out.append(" ");
    out.append(message);
    out
}

/// Whether `said` is what is said of something that took so many milliseconds. Only
/// what is slow is worth a line.
pub open spec fn is_said(what: Seq<char>, millis: u64, said: Option<String>) -> bool {
    match said {
        Some(message) => {
            &&& millis >= SLOW_MS
            &&& message@ == "[slow] "@ + what + " took "@ + crate::text::decimal(millis as nat)
                + "ms"@
        },
        None => millis < SLOW_MS,
    }
}

/// Runs a step once and hands on what it gives, with what is said of it where it was
/// slow.
///
/// `elapsed` tells how many milliseconds have passed since the start.
pub fn timed<T, B: FnOnce() -> T, E: FnOnce() -> u64>(what: &str, body: B, elapsed: E) -> (r: (
    T,
    Option<String>,
))
    requires
        body.requires(()),
        elapsed.requires(()),
    ensures
        body.ensures((), r.0),
        exists|millis: u64| #[trigger] elapsed.ensures((), millis) && is_said(what@, millis, r.1),
{
    let value: T = body();
    let millis: u64 = elapsed();
    let said: Option<String> = slow_line(what, millis);
    assert(elapsed.ensures((), millis) && is_said(what@, millis, said));
    (value, said)
}

/// What is said of something that took so many milliseconds.
pub fn slow_line(what: &str, millis: u64) -> (r: Option<String>)
    ensures
        is_said(what@, millis, r),
        r is Some <==> millis >= 250,
        r is Some ==> r->0@ == "[slow] "@ + what@ + " took "@ + crate::text::decimal(
            millis as nat,
        ) + "ms"@,
{
    if millis < SLOW_MS {
        return None;
    }
    let mut message: String = "[slow] ".to_owned();
    message.append(what);
    message.append(" took ");
    message.append(decimal_text(millis).as_str());
    message.append("ms");
    Some(message)
}

/// What is said at the start.
pub fn startup(version: &str, autostart: bool) -> (r: String)
    ensures
        r@ == "--- snipd "@ + version@ + " starting (autostart="@ + (if autostart {
            "true"@
        } else {
            "false"@
        }) + ") ---"@,
{
    let mut message: String = "--- snipd ".to_owned();
    message.append(version);
    message.append(" starting (autostart=");
    message.append(
        if autostart {
            "true"
        } else {
            "false"
        },
    );
    message.append(") ---");
    message
}

/// Something is said of what took a quarter of a second or more, with how long it
/// took, and of nothing else. A line starts with its moment.
pub proof fn only_slow_steps_are_told(
    what: Seq<char>,
    millis: u64,
    said: Option<String>,
    at: &LocalTime,
    message: Seq<char>,
)
    ensures
        is_said(what, millis, said) ==> (said is Some <==> millis >= 250),
        is_said(what, millis, said) && said is Some ==> said->0@ == "[slow] "@ + what + " took "@
            + crate::text::decimal(millis as nat) + "ms"@,
        line_at(at, message) == crate::clock::strftime_text(
            "%Y-%m-%d %H:%M:%S%.3f"@,
            at.spec_secs(),
            at.spec_nanos(),
            at.spec_offset(),
        )->0 + " "@ + message,
{
}

} // verus!
