//! Decimal formatting of durations: the cumulative CPU time column and
//! the uptime line.

use vstd::prelude::*;
use vstd::string::StringExecFns;

verus! {

/// The digit character for a value below ten.
pub open spec fn digit_char(d: nat) -> char {
    if d == 0 {
        '0'
    } else if d == 1 {
        '1'
    } else if d == 2 {
        '2'
    } else if d == 3 {
        '3'
    } else if d == 4 {
        '4'
    } else if d == 5 {
        '5'
    } else if d == 6 {
        '6'
    } else if d == 7 {
        '7'
    } else if d == 8 {
        '8'
    } else {
        '9'
    }
}

/// The decimal digits of `n`, most significant first.
pub open spec fn dec_str(n: nat) -> Seq<char>
    decreases n,
{
    if n < 10 {
        seq![digit_char(n)]
    } else {
        dec_str(n / 10).push(digit_char(n % 10))
    }
}

/// `n` zero-padded to at least two digits.
pub open spec fn pad2_str(n: nat) -> Seq<char> {
    if n < 10 {
        seq!['0'] + dec_str(n)
    } else {
        dec_str(n)
    }
}

/// The digit character of a value below ten, as a one-character string.
fn digit_str(d: u64) -> (s: &'static str)
    requires
        d < 10,
    ensures
        s@ == seq![digit_char(d as nat)],
{
    proof {
        reveal_strlit("0");
        reveal_strlit("1");
        reveal_strlit("2");
        reveal_strlit("3");
        reveal_strlit("4");
        reveal_strlit("5");
        reveal_strlit("6");
        reveal_strlit("7");
        reveal_strlit("8");
        reveal_strlit("9");
    }
    match d {
        0 => "0",
        1 => "1",
        2 => "2",
        3 => "3",
        4 => "4",
        5 => "5",
        6 => "6",
        7 => "7",
        8 => "8",
        _ => "9",
    }
}

/// Writes `n` in decimal.
pub fn u64_to_string(n: u64) -> (s: String)
    ensures
        s@ == dec_str(n as nat),
    decreases n,
{
    if n < 10 {
        let mut s = String::new();
        s.append(digit_str(n));
        s
    } else {
        let mut s = u64_to_string(n / 10);
        s.append(digit_str(n % 10));
        proof {
            assert(dec_str(n as nat / 10) + seq![digit_char(n as nat % 10)] =~= dec_str(
                n as nat / 10,
            ).push(digit_char(n as nat % 10)));
        }
        s
    }
}

/// Writes `n` in decimal, zero-padded to at least two digits.
pub fn u64_to_padded(n: u64) -> (s: String)
    ensures
        s@ == pad2_str(n as nat),
{
    if n < 10 {
        proof {
            reveal_strlit("0");
        }
        let mut s = String::from_str("0");
        assert(s@ =~= seq!['0']);
        s.append(digit_str(n));
        s
    } else {
        u64_to_string(n)
    }
}

/// The CPU time column: day counts over 99 as a bare day figure,
/// shorter day counts as days and hours, anything below a day as
/// hours, minutes and seconds.
pub open spec fn format_time_spec(secs: nat) -> Seq<char> {
    let mins = secs / 60;
    let hours = mins / 60;
    let days = hours / 24;
    if days > 99 {
        dec_str(days) + "d"@
    } else if days > 0 {
        pad2_str(days) + "d"@ + pad2_str(hours % 24) + "h"@
    } else {
        pad2_str(hours) + ":"@ + pad2_str(mins % 60) + ":"@ + pad2_str(secs % 60)
    }
}

/// Formats a cumulative CPU time given in seconds.
pub fn format_time(secs: u64) -> (s: String)
    ensures
        s@ == format_time_spec(secs as nat),
{
    let mins = secs / 60;
    let hours = mins / 60;
    let days = hours / 24;
    if days > 99 {
        let mut s = u64_to_string(days);
        s.append("d");
        s
    } else if days > 0 {
        let mut s = u64_to_padded(days);
        s.append("d");
        s.append(u64_to_padded(hours % 24).as_str());
        s.append("h");
        s
    } else {
        let mut s = u64_to_padded(hours);
        s.append(":");
        s.append(u64_to_padded(mins % 60).as_str());
        s.append(":");
        s.append(u64_to_padded(secs % 60).as_str());
        s
    }
}

/// The uptime line: whole days, then hours and minutes zero-padded.
pub open spec fn format_uptime_spec(secs: nat) -> Seq<char> {
    dec_str(secs / 86400) + " days, "@ + pad2_str((secs % 86400) / 3600) + ":"@ + pad2_str(
        (secs % 3600) / 60,
    )
}

/// Formats an uptime given in seconds.
pub fn format_uptime(secs: u64) -> (s: String)
    ensures
        s@ == format_uptime_spec(secs as nat),
{
    let days = secs / 86400;
    let hours = (secs % 86400) / 3600;
    let mins = (secs % 3600) / 60;
    let mut s = u64_to_string(days);
    s.append(" days, ");
    s.append(u64_to_padded(hours).as_str());
    s.append(":");
    s.append(u64_to_padded(mins).as_str());
    s
}

} // verus!
