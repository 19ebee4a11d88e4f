//! Timestamps: the trusted RFC 3339 parsing boundary, verified decimal
//! rendering, and the relative "time ago" labels shown beside each row.

use vstd::prelude::*;
use vstd::string::StringExecFns;

verus! {

/// The Unix time, in seconds, denoted by an RFC 3339 timestamp string, or
/// nothing when the string is not a valid timestamp; named here because the
/// full grammar takes pages to state.
pub uninterp spec fn rfc3339_epoch(s: Seq<char>) -> Option<i64>;

/// Relies on chrono::DateTime::parse_from_rfc3339 and DateTime::timestamp:
/// parses an RFC 3339 timestamp and yields its Unix time in seconds; the
/// result depends on the text alone.
#[verifier::external_body]
pub fn parse_rfc3339_seconds(s: &str) -> (r: Option<i64>)
    ensures
        r == rfc3339_epoch(s@),
{
    chrono::DateTime::parse_from_rfc3339(s).ok().map(|dt| dt.timestamp())
}

/// The character for a single decimal digit.
pub open spec fn digit_char(d: int) -> char
    recommends
        0 <= d < 10,
{
    ((d + 48) as u8) as char
}

/// The decimal representation of a natural number, most significant digit
/// first, with no leading zeros (except for the number zero itself).
pub open spec fn dec_rep(n: nat) -> Seq<char>
    decreases n,
{
    if n < 10 {
        seq![digit_char(n as int)]
    } else {
        dec_rep(n / 10).push(digit_char((n % 10) as int))
    }
}

fn digit_exec(d: u64) -> (c: char)
    requires
        d < 10,
    ensures
        c == digit_char(d as int),
{
    (48u8 + d as u8) as char
}

/// The decimal rendering of a number.
pub fn u64_to_dec(n: u64) -> (r: String)
    ensures
        r@ == dec_rep(n as nat),
    decreases n,
{
    if n < 10 {
        let mut s = String::new();
        s.push(digit_exec(n));
        proof {
            assert(s@ =~= seq![digit_char(n as int)]);
        }
        s
    } else {
        let mut s = u64_to_dec(n / 10);
        s.push(digit_exec(n % 10));
        s
    }
}

/// Subtraction of two machine integers, saturated to the representable range.
pub open spec fn sat_sub_i64(a: int, b: int) -> int {
    let d = a - b;
    if d < i64::MIN as int {
        i64::MIN as int
    } else if d > i64::MAX as int {
        i64::MAX as int
    } else {
        d
    }
}

/// The relative-age label for an event at Unix time `ts`, seen from `now`:
/// seconds under a minute, then minutes, hours, and days, with the unit in
/// the singular exactly when the count is one; a negative age reads as zero
/// seconds.
pub open spec fn ago_label(now: int, ts: int) -> Seq<char> {
    let secs = sat_sub_i64(now, ts);
    if secs < 60 {
        let n = if secs < 0 {
            0
        } else {
            secs
        };
        dec_rep(n as nat) + if n == 1 {
            " second ago"@
        } else {
            " seconds ago"@
        }
    } else if secs < 3600 {
        let m = secs / 60;
        dec_rep(m as nat) + if m == 1 {
            " minute ago"@
        } else {
            " minutes ago"@
        }
    } else if secs < 86400 {
        let h = secs / 3600;
        dec_rep(h as nat) + if h == 1 {
            " hour ago"@
        } else {
            " hours ago"@
        }
    } else {
        let d = secs / 86400;
        dec_rep(d as nat) + if d == 1 {
            " day ago"@
        } else {
            " days ago"@
        }
    }
}

/// Renders how long ago `ts` lies before `now`, both in Unix seconds.
pub fn human_time_ago(now: i64, ts: i64) -> (r: String)
    ensures
        r@ == ago_label(now as int, ts as int),
{
    let secs: i64 = match now.checked_sub(ts) {
        Some(d) => d,
        None => {
            if ts < 0 {
                i64::MAX
            } else {
                i64::MIN
            }
        },
    };
    proof {
        assert(secs as int == sat_sub_i64(now as int, ts as int));
    }
    if secs < 60 {
        let n: u64 = if secs < 0 {
            0
        } else {
            secs as u64
        };
        let s = u64_to_dec(n);
        if n == 1 {
            s.concat(" second ago")
        } else {
            s.concat(" seconds ago")
        }
    } else if secs < 3600 {
        let m: u64 = (secs as u64) / 60;
        let s = u64_to_dec(m);
        if m == 1 {
            s.concat(" minute ago")
        } else {
            s.concat(" minutes ago")
        }
    } else if secs < 86400 {
        let h: u64 = (secs as u64) / 3600;
        let s = u64_to_dec(h);
        if h == 1 {
            s.concat(" hour ago")
        } else {
            s.concat(" hours ago")
        }
    } else {
        let d: u64 = (secs as u64) / 86400;
        let s = u64_to_dec(d);
        if d == 1 {
            s.concat(" day ago")
        } else {
            s.concat(" days ago")
        }
    }
}

} // verus!
