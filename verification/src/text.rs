//! Line-oriented text utilities: finding the first newline, splitting off a
//! line, stripping a known prefix, and character-wise string equality. The
//! config file codec is built on these.
use vstd::prelude::*;

verus! {

pub open spec fn no_nl(s: Seq<char>) -> bool {
    forall|i: int| 0 <= i < s.len() ==> s[i] != '\n'
}

/// Index of the first newline in `s`, or a negative value if there is none.
pub open spec fn first_nl(s: Seq<char>) -> int
    decreases s.len(),
{
    if s.len() == 0 {
        -1
    } else if s[0] == '\n' {
        0
    } else {
        let r = first_nl(s.drop_first());
        if r < 0 {
            -1
        } else {
            1 + r
        }
    }
}

pub proof fn lemma_first_nl(s: Seq<char>)
    ensures
        first_nl(s) < 0 ==> no_nl(s),
        first_nl(s) >= 0 ==> 0 <= first_nl(s) < s.len() && s[first_nl(s)] == '\n' && (forall|j: int|
            0 <= j < first_nl(s) ==> s[j] != '\n'),
    decreases s.len(),
{
    if s.len() == 0 {
    } else if s[0] == '\n' {
    } else {
        let t = s.drop_first();
        lemma_first_nl(t);
        assert(forall|i: int| 0 <= i < t.len() ==> t[i] == s[i + 1]);
        if first_nl(t) < 0 {
            assert forall|i: int| 0 <= i < s.len() implies s[i] != '\n' by {
                if i > 0 {
                    assert(s[i] == t[i - 1]);
                }
            }
        } else {
            assert(s[first_nl(s)] == t[first_nl(t)]);
            assert forall|j: int| 0 <= j < first_nl(s) implies s[j] != '\n' by {
                if j > 0 {
                    assert(s[j] == t[j - 1]);
                }
            }
        }
    }
}

/// A newline at `i` with none before it pins down `first_nl`.
pub proof fn lemma_first_nl_at(s: Seq<char>, i: int)
    requires
        0 <= i < s.len(),
        s[i] == '\n',
        forall|j: int| 0 <= j < i ==> s[j] != '\n',
    ensures
        first_nl(s) == i,
    decreases i,
{
    if i == 0 {
    } else {
        let t = s.drop_first();
        assert(forall|k: int| 0 <= k < t.len() ==> t[k] == s[k + 1]);
        assert(t[i - 1] == '\n');
        assert forall|j: int| 0 <= j < i - 1 implies t[j] != '\n' by {
            assert(t[j] == s[j + 1]);
        }
        lemma_first_nl_at(t, i - 1);
    }
}

/// With no newline in `a`, the first newline of `a + b` is the first of `b`.
pub proof fn lemma_first_nl_concat(a: Seq<char>, b: Seq<char>)
    requires
        no_nl(a),
    ensures
        first_nl(b) < 0 ==> first_nl(a + b) < 0,
        first_nl(b) >= 0 ==> first_nl(a + b) == a.len() + first_nl(b),
{
    lemma_first_nl(b);
    lemma_first_nl(a + b);
    if first_nl(b) < 0 {
        if first_nl(a + b) >= 0 {
            let i = first_nl(a + b);
            assert((a + b)[i] == '\n');
            if i < a.len() {
                assert((a + b)[i] == a[i]);
            } else {
                assert((a + b)[i] == b[i - a.len()]);
            }
        }
    } else {
        let i = a.len() + first_nl(b);
        assert((a + b)[i] == b[first_nl(b)]);
        assert forall|j: int| 0 <= j < i implies (a + b)[j] != '\n' by {
            if j < a.len() {
                assert((a + b)[j] == a[j]);
            } else {
                assert((a + b)[j] == b[j - a.len()]);
            }
        }
        lemma_first_nl_at(a + b, i);
    }
}

/// Splits `s` at its first newline: the line's body, then everything after.
pub open spec fn take_line(s: Seq<char>) -> Option<(Seq<char>, Seq<char>)> {
    if first_nl(s) >= 0 {
        Some((s.take(first_nl(s)), s.skip(first_nl(s) + 1)))
    } else {
        None
    }
}

pub proof fn lemma_take_line_concat(v: Seq<char>, rest: Seq<char>)
    requires
        no_nl(v),
    ensures
        take_line(v + seq!['\n'] + rest) == Some((v, rest)),
{
    let tail = seq!['\n'] + rest;
    assert(tail[0] == '\n');
    assert(first_nl(tail) == 0);
    lemma_first_nl_concat(v, tail);
    let s = v + tail;
    assert(v + seq!['\n'] + rest =~= s);
    assert(first_nl(s) == v.len());
    assert(s.take(v.len() as int) =~= v);
    assert(s.skip((v.len() + 1) as int) =~= rest);
}

/// The remainder of `s` after the prefix `p`, if `s` starts with `p`.
pub open spec fn strip_prefix(s: Seq<char>, p: Seq<char>) -> Option<Seq<char>> {
    if p.len() <= s.len() && s.take(p.len() as int) == p {
        Some(s.skip(p.len() as int))
    } else {
        None
    }
}

pub proof fn lemma_strip_prefix_concat(p: Seq<char>, r: Seq<char>)
    ensures
        strip_prefix(p + r, p) == Some(r),
{
    assert((p + r).take(p.len() as int) =~= p);
    assert((p + r).skip(p.len() as int) =~= r);
}

/// Character-wise equality of two strings.
pub fn str_eq(a: &str, b: &str) -> (r: bool)
    ensures
        r == (a@ == b@),
{
    let na = a.unicode_len();
    let nb = b.unicode_len();
    if na != nb {
        return false;
    }
    let mut i: usize = 0;
    while i < na
        invariant
            na == a@.len(),
            na == b@.len(),
            0 <= i <= na,
            forall|j: int| 0 <= j < i ==> a@[j] == b@[j],
        decreases na - i,
    {
        if a.get_char(i) != b.get_char(i) {
            return false;
        }
        i = i + 1;
    }
    proof {
        assert(a@ =~= b@);
    }
    true
}

/// Splits off the first line of `s`, when `s` contains a newline.
pub fn take_line_exec(s: &str) -> (r: Option<(String, String)>)
    ensures
        (r is Some) <==> first_nl(s@) >= 0,
        (match r {
            Some(q) => q.0@ == s@.take(first_nl(s@)) && q.1@ == s@.skip(first_nl(s@) + 1),
            None => true,
        }),
{
    let n = s.unicode_len();
    let mut i: usize = 0;
    while i < n
        invariant
            n == s@.len(),
            0 <= i <= n,
            forall|j: int| 0 <= j < i ==> s@[j] != '\n',
        decreases n - i,
    {
        if s.get_char(i) == '\n' {
            proof {
                lemma_first_nl_at(s@, i as int);
            }
            let v = s.substring_char(0, i);
            let rest = s.substring_char(i + 1, n);
            proof {
                assert(v@ =~= s@.take(i as int));
                assert(rest@ =~= s@.skip(i + 1));
            }
            return Some((String::from_str(v), String::from_str(rest)));
        }
        i = i + 1;
    }
    proof {
        lemma_first_nl(s@);
        if first_nl(s@) >= 0 {
            assert(s@[first_nl(s@)] == '\n');
        }
    }
    None
}

/// Strips the prefix `p` from `s`, when `s` starts with it.
pub fn strip_prefix_exec(s: &str, p: &str) -> (r: Option<String>)
    ensures
        (r is Some) <==> strip_prefix(s@, p@) is Some,
        (match r {
            Some(q) => strip_prefix(s@, p@) == Some(q@),
            None => true,
        }),
{
    let ns = s.unicode_len();
    let np = p.unicode_len();
    if np > ns {
        return None;
    }
    let mut i: usize = 0;
    while i < np
        invariant
            ns == s@.len(),
            np == p@.len(),
            np <= ns,
            0 <= i <= np,
            forall|j: int| 0 <= j < i ==> s@[j] == p@[j],
        decreases np - i,
    {
        if s.get_char(i) != p.get_char(i) {
            proof {
                assert(s@.take(np as int)[i as int] != p@[i as int]);
            }
            return None;
        }
        i = i + 1;
    }
    proof {
        assert(s@.take(np as int) =~= p@);
    }
    let rest = s.substring_char(np, ns);
    proof {
        assert(rest@ =~= s@.skip(np as int));
    }
    Some(String::from_str(rest))
}

} // verus!
