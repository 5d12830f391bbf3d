//! Decimal numerals: rendering integers as strings and parsing them back,
//! with round-trip and injectivity lemmas. Client identifiers, durations and
//! the config file codec are all built on these.
use vstd::prelude::*;

verus! {

pub open spec fn digit_char(d: int) -> char {
    if d == 0 {
        '0'
    } else if d == 1 {
        '1'
    } else if d == 2 {
        '2'
    } else if d == 3 {
        '3'
    } else if d == 4 {
        '4'
    } else if d == 5 {
        '5'
    } else if d == 6 {
        '6'
    } else if d == 7 {
        '7'
    } else if d == 8 {
        '8'
    } else {
        '9'
    }
}

pub open spec fn is_digit(c: char) -> bool {
    ('0' as int) <= (c as int) && (c as int) <= ('9' as int)
}

pub open spec fn digit_val(c: char) -> int {
    (c as int) - ('0' as int)
}

/// Decimal numeral of a natural number, most significant digit first.
pub open spec fn dec_str(n: nat) -> Seq<char>
    decreases n,
{
    if n < 10 {
        seq![digit_char(n as int)]
    } else {
        dec_str(n / 10) + seq![digit_char((n % 10) as int)]
    }
}

/// Value of a digit string (most significant digit first).
pub open spec fn dec_val(s: Seq<char>) -> int
    decreases s.len(),
{
    if s.len() == 0 {
        0
    } else {
        dec_val(s.drop_last()) * 10 + digit_val(s.last())
    }
}

pub open spec fn all_digits(s: Seq<char>) -> bool {
    forall|i: int| 0 <= i < s.len() ==> is_digit(s[i])
}

/// A string that `parse_u64` accepts.
pub open spec fn dec_parsable(s: Seq<char>) -> bool {
    s.len() > 0 && all_digits(s) && dec_val(s) <= u64::MAX
}

pub proof fn lemma_digit_char_val(d: int)
    requires
        0 <= d < 10,
    ensures
        is_digit(digit_char(d)),
        digit_val(digit_char(d)) == d,
{
}

pub proof fn lemma_dec_str_wf(n: nat)
    ensures
        dec_str(n).len() >= 1,
        all_digits(dec_str(n)),
        n > 0 ==> dec_str(n)[0] != '0',
        n >= 10 ==> dec_str(n).len() >= 2,
    decreases n,
{
    if n < 10 {
        lemma_digit_char_val(n as int);
    } else {
        lemma_dec_str_wf(n / 10);
        lemma_digit_char_val((n % 10) as int);
        let s = dec_str(n);
        let a = dec_str(n / 10);
        assert(s == a + seq![digit_char((n % 10) as int)]);
        assert(s[0] == a[0]);
        assert forall|i: int| 0 <= i < s.len() implies is_digit(s[i]) by {
            if i < a.len() {
                assert(s[i] == a[i]);
            } else {
                assert(s[i] == digit_char((n % 10) as int));
            }
        }
    }
}

pub proof fn lemma_dec_val_dec_str(n: nat)
    ensures
        dec_val(dec_str(n)) == n,
    decreases n,
{
    if n < 10 {
        lemma_digit_char_val(n as int);
        let s = dec_str(n);
        assert(s == seq![digit_char(n as int)]);
        assert(s.len() == 1);
        assert(s.last() == digit_char(n as int));
        assert(s.drop_last() =~= Seq::<char>::empty());
        assert(dec_val(Seq::<char>::empty()) == 0);
        assert(dec_val(s) == dec_val(s.drop_last()) * 10 + digit_val(s.last()));
    } else {
        lemma_dec_val_dec_str(n / 10);
        lemma_digit_char_val((n % 10) as int);
        let a = dec_str(n / 10);
        let s = a + seq![digit_char((n % 10) as int)];
        assert(dec_str(n) == s);
        assert(s.drop_last() =~= a);
        assert(s.last() == digit_char((n % 10) as int));
        assert(dec_val(s) == dec_val(a) * 10 + digit_val(s.last()));
        assert(dec_val(s) == (n / 10) * 10 + (n % 10));
        assert(n / 10 * 10 + n % 10 == n) by (nonlinear_arith);
    }
}

pub proof fn lemma_dec_val_nonneg(s: Seq<char>)
    requires
        all_digits(s),
    ensures
        dec_val(s) >= 0,
    decreases s.len(),
{
    if s.len() > 0 {
        assert(all_digits(s.drop_last())) by {
            assert(forall|i: int|
                0 <= i < s.drop_last().len() ==> s.drop_last()[i] == s[i]);
        }
        lemma_dec_val_nonneg(s.drop_last());
    }
}

/// Appending digits never decreases the value of the numeral read so far.
pub proof fn lemma_dec_val_take_mono(s: Seq<char>, i: int, j: int)
    requires
        all_digits(s),
        0 <= i <= j <= s.len(),
    ensures
        dec_val(s.take(i)) <= dec_val(s.take(j)),
    decreases j - i,
{
    if i < j {
        lemma_dec_val_take_mono(s, i, j - 1);
        let t = s.take(j);
        assert(t.drop_last() =~= s.take(j - 1));
        assert(all_digits(t)) by {
            assert(forall|k: int| 0 <= k < t.len() ==> t[k] == s[k]);
        }
        assert(all_digits(s.take(j - 1))) by {
            assert(forall|k: int| 0 <= k < j - 1 ==> s.take(j - 1)[k] == s[k]);
        }
        lemma_dec_val_nonneg(s.take(j - 1));
        assert(dec_val(t) == dec_val(s.take(j - 1)) * 10 + digit_val(t.last()));
        assert(digit_val(t.last()) >= 0);
    }
}

/// Appends the single decimal digit `d` to `out`.
fn append_digit(out: &mut String, d: u64)
    requires
        d < 10,
    ensures
        final(out)@ == old(out)@ + seq![digit_char(d as int)],
{
    if d == 0 {
        out.append("0");
        proof {
            reveal_strlit("0");
            assert("0"@ =~= seq![digit_char(0)]);
        }
    } else if d == 1 {
        out.append("1");
        proof {
            reveal_strlit("1");
            assert("1"@ =~= seq![digit_char(1)]);
        }
    } else if d == 2 {
        out.append("2");
        proof {
            reveal_strlit("2");
            assert("2"@ =~= seq![digit_char(2)]);
        }
    } else if d == 3 {
        out.append("3");
        proof {
            reveal_strlit("3");
            assert("3"@ =~= seq![digit_char(3)]);
        }
    } else if d == 4 {
        out.append("4");
        proof {
            reveal_strlit("4");
            assert("4"@ =~= seq![digit_char(4)]);
        }
    } else if d == 5 {
        out.append("5");
        proof {
            reveal_strlit("5");
            assert("5"@ =~= seq![digit_char(5)]);
        }
    } else if d == 6 {
        out.append("6");
        proof {
            reveal_strlit("6");
            assert("6"@ =~= seq![digit_char(6)]);
        }
    } else if d == 7 {
        out.append("7");
        proof {
            reveal_strlit("7");
            assert("7"@ =~= seq![digit_char(7)]);
        }
    } else if d == 8 {
        out.append("8");
        proof {
            reveal_strlit("8");
            assert("8"@ =~= seq![digit_char(8)]);
        }
    } else {
        out.append("9");
        proof {
            reveal_strlit("9");
            assert("9"@ =~= seq![digit_char(9)]);
        }
    }
}

/// Appends the decimal numeral of `n` to `out`.
pub fn append_u64(out: &mut String, n: u64)
    ensures
        final(out)@ == old(out)@ + dec_str(n as nat),
    decreases n,
{
    if n < 10 {
        append_digit(out, n);
    } else {
        append_u64(out, n / 10);
        append_digit(out, n % 10);
        proof {
            assert(old(out)@ + dec_str((n / 10) as nat) + seq![
                digit_char((n % 10) as int),
            ] =~= old(out)@ + (dec_str((n / 10) as nat) + seq![
                digit_char((n % 10) as int),
            ]));
        }
    }
}

pub fn u64_to_string(n: u64) -> (r: String)
    ensures
        r@ == dec_str(n as nat),
{
    let mut out = String::new();
    append_u64(&mut out, n);
    proof {
        assert(out@ =~= dec_str(n as nat));
    }
    out
}

/// Parses a decimal numeral; `Some` exactly on nonempty digit strings whose
/// value fits in a `u64`.
pub fn parse_u64(s: &str) -> (r: Option<u64>)
    ensures
        dec_parsable(s@) ==> r == Some((dec_val(s@)) as u64),
        !dec_parsable(s@) ==> r is None,
{
    let n = s.unicode_len();
    if n == 0 {
        return None;
    }
    let mut val: u64 = 0;
    let mut i: usize = 0;
    while i < n
        invariant
            0 < n == s@.len(),
            0 <= i <= n,
            all_digits(s@.take(i as int)),
            val as int == dec_val(s@.take(i as int)),
        decreases n - i,
    {
        let c = s.get_char(i);
        if c < '0' || c > '9' {
            proof {
                assert(!is_digit(s@[i as int]));
            }
            return None;
        }
        let d: u64 = (c as u32 - 48) as u64;
        proof {
            lemma_dec_val_nonneg(s@.take(i as int));
        }
        if val > (u64::MAX - d) / 10 {
            proof {
                let t = s@.take(i + 1);
                assert(t.drop_last() =~= s@.take(i as int));
                assert(t.last() == s@[i as int]);
                assert(all_digits(t)) by {
                    assert(forall|k: int| 0 <= k < t.len() ==> t[k] == s@[k]);
                }
                assert(dec_val(t) == (val as int) * 10 + d);
                assert((val as int) * 10 > u64::MAX - d) by (nonlinear_arith)
                    requires
                        val as int > (u64::MAX - d) / 10,
                        0 <= d < 10,
                {}
                if dec_parsable(s@) {
                    lemma_dec_val_take_mono(s@, i + 1, s@.len() as int);
                    assert(s@.take(s@.len() as int) =~= s@);
                }
            }
            return None;
        }
        proof {
            assert((val as int) * 10 + d <= u64::MAX) by (nonlinear_arith)
                requires
                    val as int <= (u64::MAX - d) / 10,
                    0 <= d < 10,
            {}
            let t = s@.take(i + 1);
            assert(t.drop_last() =~= s@.take(i as int));
            assert(t.last() == s@[i as int]);
            assert(all_digits(t)) by {
                assert(forall|k: int| 0 <= k < t.len() ==> t[k] == s@[k]);
            }
        }
        val = val * 10 + d;
        i = i + 1;
    }
    proof {
        assert(s@.take(n as int) =~= s@);
    }
    Some(val)
}

/// Decimal numeral of an integer, with a leading minus sign when negative.
pub open spec fn int_str(n: int) -> Seq<char> {
    if n < 0 {
        seq!['-'] + dec_str((-n) as nat)
    } else {
        dec_str(n as nat)
    }
}

/// A string that `parse_i64_in` accepts, ignoring the range bounds.
pub open spec fn int_parsable(s: Seq<char>) -> bool {
    if s.len() >= 1 && s[0] == '-' {
        dec_parsable(s.drop_first())
    } else {
        dec_parsable(s)
    }
}

pub open spec fn int_val(s: Seq<char>) -> int {
    if s.len() >= 1 && s[0] == '-' {
        -dec_val(s.drop_first())
    } else {
        dec_val(s)
    }
}

pub proof fn lemma_int_str_round_trip(n: int)
    requires
        -(u64::MAX as int) <= n <= u64::MAX as int,
    ensures
        int_parsable(int_str(n)),
        int_val(int_str(n)) == n,
{
    if n < 0 {
        let m = (-n) as nat;
        lemma_dec_str_wf(m);
        lemma_dec_val_dec_str(m);
        let s = seq!['-'] + dec_str(m);
        assert(s[0] == '-');
        assert(s.drop_first() =~= dec_str(m));
    } else {
        lemma_dec_str_wf(n as nat);
        lemma_dec_val_dec_str(n as nat);
        assert(is_digit(int_str(n)[0]));
        assert(int_str(n)[0] != '-');
    }
}

pub proof fn lemma_int_str_injective(a: int, b: int)
    requires
        -(u64::MAX as int) <= a <= u64::MAX as int,
        -(u64::MAX as int) <= b <= u64::MAX as int,
        int_str(a) == int_str(b),
    ensures
        a == b,
{
    lemma_int_str_round_trip(a);
    lemma_int_str_round_trip(b);
}

/// Appends the decimal numeral of `n`, sign included, to `out`.
pub fn append_i64(out: &mut String, n: i64)
    ensures
        final(out)@ == old(out)@ + int_str(n as int),
{
    if n < 0 {
        out.append("-");
        proof {
            reveal_strlit("-");
            assert("-"@ =~= seq!['-']);
        }
        let m: u64 = if n == i64::MIN {
            9223372036854775808u64
        } else {
            (-n) as u64
        };
        append_u64(out, m);
        proof {
            assert(old(out)@ + seq!['-'] + dec_str(m as nat) =~= old(out)@ + (seq!['-']
                + dec_str(m as nat)));
        }
    } else {
        append_u64(out, n as u64);
    }
}

pub fn i64_to_string(n: i64) -> (r: String)
    ensures
        r@ == int_str(n as int),
{
    let mut out = String::new();
    append_i64(&mut out, n);
    proof {
        assert(out@ =~= int_str(n as int));
    }
    out
}

/// Parses a signed decimal numeral and checks it lies in `[lo, hi]`.
pub fn parse_i64_in(s: &str, lo: i64, hi: i64) -> (r: Option<i64>)
    ensures
        (int_parsable(s@) && lo <= int_val(s@) <= hi) ==> r == Some((int_val(s@)) as i64),
        !(int_parsable(s@) && lo <= int_val(s@) <= hi) ==> r is None,
{
    let n = s.unicode_len();
    if n == 0 {
        return None;
    }
    let c0 = s.get_char(0);
    if c0 == '-' {
        let rest = s.substring_char(1, n);
        proof {
            assert(rest@ =~= s@.drop_first());
        }
        match parse_u64(rest) {
            None => None,
            Some(m) => {
                let v: i128 = -(m as i128);
                proof {
                    lemma_dec_val_nonneg(rest@);
                    assert(v as int == int_val(s@));
                }
                if (lo as i128) <= v && v <= (hi as i128) {
                    Some(v as i64)
                } else {
                    None
                }
            },
        }
    } else {
        match parse_u64(s) {
            None => None,
            Some(m) => {
                proof {
                    lemma_dec_val_nonneg(s@);
                    assert(m as int == int_val(s@));
                }
                if (lo as i128) <= (m as i128) && (m as i128) <= (hi as i128) {
                    Some(m as i64)
                } else {
                    None
                }
            },
        }
    }
}

} // verus!
