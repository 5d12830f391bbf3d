//! Human-readable durations for the config file: a whole number of seconds is
//! written `<n>s`, anything else `<n>ms`, and both forms parse back to
//! milliseconds. Rendering then parsing gives back the same value.
use vstd::prelude::*;

use crate::numerals::dec_parsable;
use crate::numerals::dec_str;
use crate::numerals::dec_val;
use crate::numerals::is_digit;
use crate::numerals::lemma_dec_str_wf;
use crate::numerals::lemma_dec_val_dec_str;
use crate::numerals::parse_u64;
use crate::numerals::u64_to_string;

verus! {

/// Rendering of a duration of `ms` milliseconds.
pub open spec fn duration_str(ms: nat) -> Seq<char> {
    if ms % 1000 == 0 {
        dec_str(ms / 1000) + seq!['s']
    } else {
        dec_str(ms) + seq!['m', 's']
    }
}

/// A string that `parse_duration` accepts.
pub open spec fn duration_parsable(s: Seq<char>) -> bool {
    if s.len() >= 2 && s[s.len() - 2] == 'm' && s[s.len() - 1] == 's' {
        dec_parsable(s.take(s.len() - 2))
    } else if s.len() >= 1 && s[s.len() - 1] == 's' {
        dec_parsable(s.take(s.len() - 1)) && dec_val(s.take(s.len() - 1)) * 1000 <= u64::MAX
    } else {
        false
    }
}

/// Milliseconds denoted by a parsable duration string.
pub open spec fn duration_val(s: Seq<char>) -> int {
    if s.len() >= 2 && s[s.len() - 2] == 'm' && s[s.len() - 1] == 's' {
        dec_val(s.take(s.len() - 2))
    } else {
        dec_val(s.take(s.len() - 1)) * 1000
    }
}

pub proof fn lemma_duration_round_trip(ms: nat)
    requires
        ms <= u64::MAX,
    ensures
        duration_parsable(duration_str(ms)),
        duration_val(duration_str(ms)) == ms,
{
    if ms % 1000 == 0 {
        let q = ms / 1000;
        lemma_dec_str_wf(q);
        lemma_dec_val_dec_str(q);
        let s = dec_str(q) + seq!['s'];
        assert(s[s.len() - 1] == 's');
        if s.len() >= 2 {
            assert(s[s.len() - 2] == dec_str(q)[dec_str(q).len() - 1]);
            assert(is_digit(s[s.len() - 2]));
            assert(s[s.len() - 2] != 'm');
        }
        assert(s.take(s.len() - 1) =~= dec_str(q));
        assert(q * 1000 == ms) by (nonlinear_arith)
            requires
                ms % 1000 == 0,
                q == ms / 1000,
        {}
    } else {
        lemma_dec_str_wf(ms);
        lemma_dec_val_dec_str(ms);
        let d = dec_str(ms);
        let s = d + seq!['m', 's'];
        assert(s.len() == d.len() + 2);
        assert(s[s.len() - 2] == 'm');
        assert(s[s.len() - 1] == 's');
        assert(s.take(s.len() - 2) =~= d);
    }
}

pub proof fn lemma_duration_val_nonneg(s: Seq<char>)
    requires
        duration_parsable(s),
    ensures
        duration_val(s) >= 0,
{
    if s.len() >= 2 && s[s.len() - 2] == 'm' && s[s.len() - 1] == 's' {
        crate::numerals::lemma_dec_val_nonneg(s.take(s.len() - 2));
    } else {
        crate::numerals::lemma_dec_val_nonneg(s.take(s.len() - 1));
    }
}

/// Renders `ms` milliseconds in the config file's duration notation.
pub fn render_duration(ms: u64) -> (r: String)
    ensures
        r@ == duration_str(ms as nat),
{
    if ms % 1000 == 0 {
        let mut out = u64_to_string(ms / 1000);
        out.append("s");
        proof {
            reveal_strlit("s");
            assert(out@ =~= duration_str(ms as nat));
        }
        out
    } else {
        let mut out = u64_to_string(ms);
        out.append("ms");
        proof {
            reveal_strlit("ms");
            assert("ms"@ =~= seq!['m', 's']);
            assert(out@ =~= duration_str(ms as nat));
        }
        out
    }
}

/// Parses the duration notation back to milliseconds; `Some` exactly on
/// parsable strings whose value fits in a `u64` of milliseconds.
pub fn parse_duration(s: &str) -> (r: Option<u64>)
    ensures
        duration_parsable(s@) ==> r == Some((duration_val(s@)) as u64),
        !duration_parsable(s@) ==> r is None,
{
    let n = s.unicode_len();
    if n >= 2 && s.get_char(n - 2) == 'm' && s.get_char(n - 1) == 's' {
        let digits = s.substring_char(0, n - 2);
        proof {
            assert(digits@ =~= s@.take(s@.len() - 2));
            if dec_parsable(digits@) {
                crate::numerals::lemma_dec_val_nonneg(digits@);
            }
        }
        parse_u64(digits)
    } else if n >= 1 && s.get_char(n - 1) == 's' {
        let digits = s.substring_char(0, n - 1);
        proof {
            assert(digits@ =~= s@.take(s@.len() - 1));
            if dec_parsable(digits@) {
                crate::numerals::lemma_dec_val_nonneg(digits@);
            }
        }
        match parse_u64(digits) {
            None => None,
            Some(m) => {
                if m <= u64::MAX / 1000 {
                    proof {
                        assert((m as int) * 1000 <= u64::MAX) by (nonlinear_arith)
                            requires
                                m as int <= (u64::MAX as int) / 1000,
                        {}
                    }
                    Some(m * 1000)
                } else {
                    proof {
                        assert((m as int) * 1000 > u64::MAX) by (nonlinear_arith)
                            requires
                                m as int > (u64::MAX as int) / 1000,
                        {}
                    }
                    None
                }
            },
        }
    } else {
        None
    }
}

} // verus!
