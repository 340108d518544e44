//! The `--since` window grammar shared by the time-windowed commands:
//! `<N>d`, `<N>h`, `<N>m`, `<N>s`, or `all` for an unlimited window.

use vstd::prelude::*;
use std::time::Duration;
use crate::text::push_str;

verus! {

/// Decimal value of a run of ASCII digits.
pub open spec fn digits_value(d: Seq<char>) -> int
    decreases d.len(),
{
    if d.len() == 0 {
        0
    } else {
        digits_value(d.drop_last()) * 10 + (d.last() as int - '0' as int)
    }
}

pub open spec fn all_ascii_digits(d: Seq<char>) -> bool {
    forall|k: int| 0 <= k < d.len() ==> '0' <= #[trigger] d[k] <= '9'
}

/// The digits of a `u64` literal: the text without its optional leading `+`.
pub open spec fn u64_digits(s: Seq<char>) -> Seq<char> {
    if s.len() > 0 && s[0] == '+' {
        s.drop_first()
    } else {
        s
    }
}

/// `s` is accepted by `u64::from_str`: an optional `+`, then one or more
/// ASCII digits, whose value fits in a `u64`.
pub open spec fn valid_u64_text(s: Seq<char>) -> bool {
    let d = u64_digits(s);
    &&& d.len() > 0
    &&& all_ascii_digits(d)
    &&& digits_value(d) <= u64::MAX
}

/// The message of the error `u64::from_str` reports for the text `s`.
pub uninterp spec fn spec_parse_u64_error(s: Seq<char>) -> Seq<char>;

/// `u64::from_str` (`str::parse::<u64>`): the value of an optional `+`
/// followed by one or more ASCII digits, when it fits in a `u64`; any other
/// text (empty, a sign alone, whitespace, other characters, overflow) is an
/// error, returned as the error's message, which [`spec_parse_u64_error`]
/// names.
#[verifier::external_body]
fn parse_u64(s: &str) -> (r: Result<u64, String>)
    ensures
        r is Ok <==> valid_u64_text(s@),
        r matches Ok(n) ==> n == digits_value(u64_digits(s@)),
        r matches Err(e) ==> e@ == spec_parse_u64_error(s@),
{
    s.parse::<u64>().map_err(|e| e.to_string())
}

/// What `Duration::new(secs, nanos)` returns.
pub uninterp spec fn spec_duration_new(secs: u64, nanos: u32) -> Duration;

/// `Duration::new`: `secs` seconds plus `nanos` nanoseconds. It panics only
/// when the nanoseconds carry past `u64::MAX` seconds, which `requires`
/// excludes.
#[verifier::external_body]
fn duration_new(secs: u64, nanos: u32) -> (d: Duration)
    requires
        nanos < 1_000_000_000,
    ensures
        d == spec_duration_new(secs, nanos),
{
    Duration::new(secs, nanos)
}

/// Seconds per unit for a `--since` suffix.
pub open spec fn unit_secs(c: char) -> Option<u64> {
    if c == 's' {
        Some(1)
    } else if c == 'm' {
        Some(60)
    } else if c == 'h' {
        Some(3600)
    } else if c == 'd' {
        Some(86400)
    } else {
        None
    }
}

/// The window `s` denotes, as (seconds, nanoseconds), or the error message.
///
/// - `all` is the largest duration: `u64::MAX` seconds and 999 999 999 ns;
/// - `<N><unit>` is `N` times the unit's seconds, saturating at `u64::MAX`;
/// - a missing or unknown unit, or an `N` that `u64::from_str` rejects,
///   is an error.
pub open spec fn since_spec(s: Seq<char>) -> Result<(u64, u32), Seq<char>> {
    if s == "all"@ {
        Ok((u64::MAX, 999_999_999u32))
    } else if s.len() == 0 || unit_secs(s.last()) is None {
        Err("unrecognized --since: "@ + s + "; use <N>d/h/m/s or 'all'"@)
    } else {
        let n_str = s.drop_last();
        let unit = unit_secs(s.last())->0;
        if !valid_u64_text(n_str) {
            Err("not a number: "@ + n_str + " ("@ + spec_parse_u64_error(n_str) + ")"@)
        } else {
            let total = digits_value(u64_digits(n_str)) * unit;
            Ok((if total > u64::MAX { u64::MAX } else { total as u64 }, 0u32))
        }
    }
}

fn unit_of(c: char) -> (r: Option<u64>)
    ensures
        r == unit_secs(c),
{
    if c == 's' {
        Some(1)
    } else if c == 'm' {
        Some(60)
    } else if c == 'h' {
        Some(3600)
    } else if c == 'd' {
        Some(86400)
    } else {
        None
    }
}

/// The window of a `--since` value as (seconds, nanoseconds); see
/// [`since_spec`] for the grammar and the error messages.
pub fn parse_since_window(s: &str) -> (r: Result<(u64, u32), String>)
    ensures
        match r {
            Ok(w) => since_spec(s@) == Ok::<(u64, u32), Seq<char>>(w),
            Err(e) => since_spec(s@) == Err::<(u64, u32), Seq<char>>(e@),
        },
{
    proof {
        reveal_strlit("all");
        reveal_strlit("unrecognized --since: ");
        reveal_strlit("; use <N>d/h/m/s or 'all'");
        reveal_strlit("not a number: ");
        reveal_strlit(" (");
        reveal_strlit(")");
    }
    let cs = crate::text::chars_of(s);
    let all = "all";
    if cs.len() == 3 && cs[0] == 'a' && cs[1] == 'l' && cs[2] == 'l' {
        assert(s@ =~= all@);
        return Ok((u64::MAX, 999_999_999));
    }
    assert(s@ != all@) by {
        if s@ == all@ {
            assert(cs@[0] == 'a' && cs@[1] == 'l' && cs@[2] == 'l');
        }
    }
    let n = cs.len();
    let unit = if n == 0 {
        None
    } else {
        unit_of(cs[n - 1])
    };
    match unit {
        None => {
            let mut msg = String::new();
            push_str(&mut msg, "unrecognized --since: ");
            push_str(&mut msg, s);
            push_str(&mut msg, "; use <N>d/h/m/s or 'all'");
            Err(msg)
        },
        Some(u) => {
            let n_str = crate::text::prefix_string(cs.as_slice(), n - 1);
            assert(n_str@ =~= s@.drop_last());
            match parse_u64(n_str.as_str()) {
                Err(e) => {
                    let mut msg = String::new();
                    push_str(&mut msg, "not a number: ");
                    push_str(&mut msg, n_str.as_str());
                    push_str(&mut msg, " (");
                    push_str(&mut msg, e.as_str());
                    push_str(&mut msg, ")");
                    Err(msg)
                },
                Ok(v) => {
                    let secs = match v.checked_mul(u) {
                        Some(x) => x,
                        None => u64::MAX,
                    };
                    Ok((secs, 0))
                },
            }
        },
    }
}

/// Parses a `--since` value into a duration: `<N>d` / `<N>h` / `<N>m` /
/// `<N>s` give `N` days / hours / minutes / seconds (saturating at
/// `u64::MAX` seconds rather than overflowing), `all` gives
/// `Duration::MAX`. A missing or unknown unit, or an `N` that is not a
/// `u64`, is an error with a message for the user.
pub fn parse_since(s: &str) -> (r: Result<Duration, String>)
    ensures
        match since_spec(s@) {
            Ok(w) => r == Ok::<Duration, String>(spec_duration_new(w.0, w.1)),
            Err(m) => r matches Err(e) && e@ == m,
        },
{
    match parse_since_window(s) {
        Ok((secs, nanos)) => Ok(duration_new(secs, nanos)),
        Err(e) => Err(e),
    }
}

} // verus!
