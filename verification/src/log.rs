//! The debug log: whether it is on, and the lines it appends to `App.log`.
use vstd::prelude::*;

use crate::text::{decimal, decimal_string, digit_char, push_char};

verus! {

/// Whether debug logging is on.
#[derive(Clone, Copy, Debug, PartialEq, Eq, Structural)]
pub struct LogState {
    pub debug_enabled: bool,
}

impl LogState {
    pub fn new() -> (r: LogState)
        ensures
            !r.debug_enabled,
    {
        LogState { debug_enabled: false }
    }
}

pub fn set_debug_enabled(state: &mut LogState, enabled: bool)
    ensures
        final(state).debug_enabled == enabled,
{
    state.debug_enabled = enabled;
}

/// `millis` with three digits, zero-padded (`{:03}`).
pub open spec fn three_digits(millis: nat) -> Seq<char> {
    if millis >= 100 {
        decimal(millis)
    } else if millis >= 10 {
        seq!['0'] + decimal(millis)
    } else {
        seq!['0', '0'] + decimal(millis)
    }
}

/// `secs.millis`, or `unknown` when the clock is before the epoch.
pub open spec fn timestamp_spec(since_epoch: Option<(u64, u32)>) -> Seq<char> {
    match since_epoch {
        Some((secs, millis)) => decimal(secs as nat) + seq!['.'] + three_digits(millis as nat),
        None => seq!['u', 'n', 'k', 'n', 'o', 'w', 'n'],
    }
}

/// The time stamp of a log line from the time since the Unix epoch (seconds
/// and milliseconds), `None` when the clock reads earlier than the epoch.
pub fn timestamp(since_epoch: Option<(u64, u32)>) -> (r: String)
    requires
        since_epoch matches Some((_, millis)) ==> millis < 1000,
    ensures
        r@ == timestamp_spec(since_epoch),
{
    match since_epoch {
        None => {
            proof {
                reveal_strlit("unknown");
            }
            String::from_str("unknown")
        },
        Some((secs, millis)) => {
            let mut s = decimal_string(secs);
            push_char(&mut s, '.');
            if millis < 100 {
                push_char(&mut s, '0');
            }
            if millis < 10 {
                push_char(&mut s, '0');
            }
            let m = decimal_string(millis as u64);
            s.append(m.as_str());
            proof {
                if millis < 10 {
                    assert(decimal(millis as nat).len() == 1);
                }
            }
            assert(s@ =~= timestamp_spec(since_epoch));
            s
        },
    }
}

/// `[time] message` and a line break.
pub open spec fn log_line_spec(time: Seq<char>, msg: Seq<char>) -> Seq<char> {
    seq!['['] + time + seq![']', ' '] + msg + seq!['\n']
}

/// The line appended to `App.log` for a message, when debug logging is on.
pub fn log_line(state: &LogState, time: &str, msg: &str) -> (r: Option<String>)
    ensures
        !state.debug_enabled ==> r is None,
        state.debug_enabled ==> (r matches Some(line) && line@ == log_line_spec(time@, msg@)),
{
    if !state.debug_enabled {
        return None;
    }
    let mut s = String::new();
    push_char(&mut s, '[');
    s.append(time);
    push_char(&mut s, ']');
    push_char(&mut s, ' ');
    s.append(msg);
    push_char(&mut s, '\n');
    assert(s@ =~= log_line_spec(time@, msg@));
    Some(s)
}

} // verus!
