//! Verified text utilities.
//!
//! Splitting on a separator, removing spaces, normalizing line endings,
//! suffix tests and decimal parsing: the character-level operations the rest
//! of the library builds on, each specified against a spec function over
//! `Seq<char>`.

use vstd::prelude::*;
use vstd::string::StrSliceExecFns;
use vstd::string::StringExecFns;

verus! {

/// The two strings hold the same characters.
pub fn str_eq(a: &str, b: &str) -> (r: bool)
    ensures
        r == (a@ == b@),
{
    let na = a.unicode_len();
    let nb = b.unicode_len();
    if na != nb {
        return false;
    }
    let mut i: usize = 0;
    while i < na
        invariant
            na == a@.len(),
            na == b@.len(),
            i <= na,
            forall|j: int| 0 <= j < i ==> a@[j] == b@[j],
        decreases na - i,
    {
        if a.get_char(i) != b.get_char(i) {
            return false;
        }
        i = i + 1;
    }
    proof {
        assert(a@ =~= b@);
    }
    true
}

/// The pieces of `s` between occurrences of `sep`; one more piece than there
/// are separators, so never empty.
pub open spec fn spec_split(s: Seq<char>, sep: char) -> Seq<Seq<char>>
    decreases s.len(),
{
    if s.len() == 0 {
        seq![Seq::<char>::empty()]
    } else {
        let rest = spec_split(s.drop_last(), sep);
        if s.last() == sep {
            rest.push(Seq::<char>::empty())
        } else {
            rest.update(rest.len() - 1, rest.last().push(s.last()))
        }
    }
}

pub proof fn lemma_split_len(s: Seq<char>, sep: char)
    ensures
        spec_split(s, sep).len() >= 1,
    decreases s.len(),
{
    if s.len() > 0 {
        lemma_split_len(s.drop_last(), sep);
    }
}

/// Split `s` at every occurrence of `sep`.
pub fn split_char(s: &str, sep: char) -> (r: Vec<String>)
    ensures
        r.deep_view() == spec_split(s@, sep),
{
    let n = s.unicode_len();
    let mut r: Vec<String> = Vec::new();
    let mut start: usize = 0;
    let mut i: usize = 0;
    proof {
        assert(s@.take(0) =~= Seq::<char>::empty());
        assert(s@.subrange(0, 0) =~= Seq::<char>::empty());
        assert(r.deep_view().push(s@.subrange(0, 0)) =~~= seq![Seq::<char>::empty()]);
    }
    while i < n
        invariant
            n == s@.len(),
            start <= i <= n,
            spec_split(s@.take(i as int), sep) == r.deep_view().push(
                s@.subrange(start as int, i as int),
            ),
        decreases n - i,
    {
        let ghost prev = s@.take(i as int);
        let c = s.get_char(i);
        proof {
            assert(s@.take(i + 1).drop_last() =~= prev);
            assert(s@.take(i + 1).last() == c);
            lemma_split_len(prev, sep);
        }
        if c == sep {
            let ghost dv0 = r.deep_view();
            let piece = s.substring_char(start, i).to_owned();
            r.push(piece);
            proof {
                assert(r.deep_view() =~~= dv0.push(s@.subrange(start as int, i as int)));
                assert(r.deep_view() == spec_split(prev, sep));
                assert(spec_split(s@.take(i + 1), sep) =~~= r.deep_view().push(
                    s@.subrange(i + 1, i + 1),
                ));
            }
            start = i + 1;
        } else {
            proof {
                let d = r.deep_view().push(s@.subrange(start as int, i as int));
                assert(d.last() == s@.subrange(start as int, i as int));
                assert(s@.subrange(start as int, i as int).push(c) =~= s@.subrange(
                    start as int,
                    i + 1,
                ));
                assert(d.update(d.len() - 1, d.last().push(c)) =~~= r.deep_view().push(
                    s@.subrange(start as int, i + 1),
                ));
            }
        }
        i = i + 1;
    }
    let ghost dv0 = r.deep_view();
    let piece = s.substring_char(start, n).to_owned();
    r.push(piece);
    proof {
        assert(s@.take(n as int) =~= s@);
        assert(r.deep_view() =~~= dv0.push(s@.subrange(start as int, n as int)));
    }
    r
}

/// `s` with every space removed.
pub open spec fn spec_remove_spaces(s: Seq<char>) -> Seq<char>
    decreases s.len(),
{
    if s.len() == 0 {
        Seq::<char>::empty()
    } else {
        let p = spec_remove_spaces(s.drop_last());
        if s.last() == ' ' {
            p
        } else {
            p.push(s.last())
        }
    }
}

/// Remove every space from `s`.
pub fn remove_spaces(s: &str) -> (r: String)
    ensures
        r@ == spec_remove_spaces(s@),
{
    let n = s.unicode_len();
    let mut out = String::new();
    let mut start: usize = 0;
    let mut i: usize = 0;
    while i < n
        invariant
            n == s@.len(),
            start <= i <= n,
            spec_remove_spaces(s@.take(i as int)) == out@ + s@.subrange(
                start as int,
                i as int,
            ),
        decreases n - i,
    {
        let ghost prev = s@.take(i as int);
        let c = s.get_char(i);
        proof {
            assert(s@.take(i + 1).drop_last() =~= prev);
            assert(s@.take(i + 1).last() == c);
        }
        if c == ' ' {
            let run = s.substring_char(start, i);
            out.append(run);
            proof {
                assert(out@ + s@.subrange(i + 1, i + 1) =~= out@);
                assert(spec_remove_spaces(s@.take(i + 1)) == out@ + s@.subrange(i + 1, i + 1));
            }
            start = i + 1;
        } else {
            proof {
                assert(out@ + s@.subrange(start as int, i + 1) =~= (out@ + s@.subrange(
                    start as int,
                    i as int,
                )).push(c));
            }
        }
        i = i + 1;
    }
    let run = s.substring_char(start, n);
    out.append(run);
    proof {
        assert(s@.take(n as int) =~= s@);
    }
    out
}

/// `s` with every `"\r\n"` pair replaced by `'\n'`.
pub open spec fn spec_replace_crlf(s: Seq<char>) -> Seq<char>
    decreases s.len(),
{
    if s.len() >= 2 && s[0] == '\r' && s[1] == '\n' {
        seq!['\n'] + spec_replace_crlf(s.skip(2))
    } else if s.len() >= 1 {
        seq![s[0]] + spec_replace_crlf(s.skip(1))
    } else {
        Seq::<char>::empty()
    }
}

/// A text with no `"\r\n"` pair inside it, and none formed at its boundary
/// with what follows, passes through `spec_replace_crlf` unchanged.
proof fn lemma_replace_crlf_concat(t: Seq<char>, rest: Seq<char>)
    requires
        forall|j: int| 0 <= j < t.len() - 1 ==> !((#[trigger] t[j]) == '\r' && t[j + 1] == '\n'),
        t.len() > 0 && rest.len() > 0 ==> !(t.last() == '\r' && rest[0] == '\n'),
    ensures
        spec_replace_crlf(t + rest) == t + spec_replace_crlf(rest),
    decreases t.len(),
{
    if t.len() == 0 {
        assert(t + rest =~= rest);
        assert(t + spec_replace_crlf(rest) =~= spec_replace_crlf(rest));
    } else {
        let u = t + rest;
        let t1 = t.drop_first();
        assert(u[0] == t[0]);
        if u.len() >= 2 {
            assert(u[1] == (if t.len() >= 2 { t[1] } else { rest[0] }));
        }
        assert(!(u.len() >= 2 && u[0] == '\r' && u[1] == '\n'));
        assert(u.skip(1) =~= t1 + rest);
        lemma_replace_crlf_concat(t1, rest);
        assert(seq![t[0]] + (t1 + spec_replace_crlf(rest)) =~= t + spec_replace_crlf(rest));
    }
}

/// Replace every `"\r\n"` in `s` by `"\n"`.
pub fn replace_crlf(s: &str) -> (r: String)
    ensures
        r@ == spec_replace_crlf(s@),
{
    let n = s.unicode_len();
    let mut out = String::new();
    let mut start: usize = 0;
    let mut i: usize = 0;
    proof {
        assert(s@.skip(0) =~= s@);
        assert(out@ + spec_replace_crlf(s@) =~= spec_replace_crlf(s@));
    }
    while i < n
        invariant
            n == s@.len(),
            start <= i <= n,
            spec_replace_crlf(s@) == out@ + spec_replace_crlf(s@.skip(start as int)),
            forall|j: int|
                start <= j < i && j + 1 < n ==> !((#[trigger] s@[j]) == '\r' && s@[j + 1]
                    == '\n'),
        decreases n - i,
    {
        let c = s.get_char(i);
        if c == '\r' && i + 1 < n && s.get_char(i + 1) == '\n' {
            let ghost out0 = out@;
            let run = s.substring_char(start, i);
            out.append(run);
            out.append("\n");
            proof {
                let t = s@.subrange(start as int, i as int);
                let tail = s@.skip(i as int);
                assert(s@.skip(start as int) =~= t + tail);
                assert(forall|j: int|
                    0 <= j < t.len() - 1 ==> (#[trigger] t[j]) == s@[start + j] && t[j + 1]
                        == s@[start + j + 1]);
                lemma_replace_crlf_concat(t, tail);
                assert(tail[0] == '\r' && tail[1] == '\n');
                assert(spec_replace_crlf(tail) == seq!['\n'] + spec_replace_crlf(tail.skip(2)));
                assert(tail.skip(2) =~= s@.skip(i + 2));
                reveal_strlit("\n");
                assert("\n"@ =~= seq!['\n']);
                assert(out@ =~= out0 + t + seq!['\n']);
                assert(out@ + spec_replace_crlf(s@.skip(i + 2)) =~= out0 + (t + (seq!['\n']
                    + spec_replace_crlf(s@.skip(i + 2)))));
                assert(out@ + spec_replace_crlf(s@.skip(i + 2)) == spec_replace_crlf(s@));
            }
            i = i + 2;
            start = i;
        } else {
            i = i + 1;
        }
    }
    let ghost out0 = out@;
    let run = s.substring_char(start, n);
    out.append(run);
    proof {
        let t = s@.subrange(start as int, n as int);
        assert(s@.skip(start as int) =~= t + Seq::<char>::empty());
        assert(forall|j: int|
            0 <= j < t.len() - 1 ==> (#[trigger] t[j]) == s@[start + j] && t[j + 1] == s@[start
                + j + 1]);
        lemma_replace_crlf_concat(t, Seq::<char>::empty());
        assert(spec_replace_crlf(Seq::<char>::empty()) =~= Seq::<char>::empty());
        assert(t + spec_replace_crlf(Seq::<char>::empty()) =~= t);
        assert(out@ =~= out0 + t);
    }
    out
}

/// `s` ends with `suffix`.
pub open spec fn spec_ends_with(s: Seq<char>, suffix: Seq<char>) -> bool {
    s.len() >= suffix.len() && s.skip(s.len() - suffix.len()) == suffix
}

/// Whether `s` ends with `suffix`.
pub fn str_ends_with(s: &str, suffix: &str) -> (r: bool)
    ensures
        r == spec_ends_with(s@, suffix@),
{
    let n = s.unicode_len();
    let m = suffix.unicode_len();
    if m > n {
        return false;
    }
    let mut i: usize = 0;
    while i < m
        invariant
            n == s@.len(),
            m == suffix@.len(),
            m <= n,
            i <= m,
            forall|j: int| 0 <= j < i ==> s@[n - m + j] == suffix@[j],
        decreases m - i,
    {
        if s.get_char(n - m + i) != suffix.get_char(i) {
            proof {
                assert(s@.skip(n as int - m as int)[i as int] != suffix@[i as int]);
            }
            return false;
        }
        i = i + 1;
    }
    proof {
        assert(s@.skip(n as int - m as int) =~= suffix@);
    }
    true
}

/// `c` is a decimal digit.
pub open spec fn is_digit(c: char) -> bool {
    '0' <= c && c <= '9'
}

/// The value of a sequence of decimal digits, most significant first.
pub open spec fn digits_val(s: Seq<char>) -> int
    decreases s.len(),
{
    if s.len() == 0 {
        0
    } else {
        digits_val(s.drop_last()) * 10 + (s.last() as int - '0' as int)
    }
}

proof fn lemma_digits_val_nonneg(s: Seq<char>)
    requires
        forall|j: int| 0 <= j < s.len() ==> is_digit(s[j]),
    ensures
        digits_val(s) >= 0,
    decreases s.len(),
{
    if s.len() > 0 {
        lemma_digits_val_nonneg(s.drop_last());
    }
}

/// Every character of `s` is a decimal digit.
pub open spec fn all_digits(s: Seq<char>) -> bool {
    forall|j: int| 0 <= j < s.len() ==> is_digit(#[trigger] s[j])
}

/// The digits of a numeral: `s` without its leading sign, if it has one.
pub open spec fn spec_numeral_mag(s: Seq<char>) -> Seq<char> {
    if s.len() > 0 && (s[0] == '-' || s[0] == '+') {
        s.drop_first()
    } else {
        s
    }
}

/// The value a decimal numeral (optional sign, one or more digits) denotes,
/// where it fits in an `i16`; `None` otherwise.  This is the grammar
/// `str::parse::<i16>` accepts.
pub open spec fn spec_parse_i16(s: Seq<char>) -> Option<i16> {
    let neg = s.len() > 0 && s[0] == '-';
    let mag = spec_numeral_mag(s);
    if mag.len() == 0 || !all_digits(mag) {
        None
    } else {
        let v = if neg {
            -digits_val(mag)
        } else {
            digits_val(mag)
        };
        if -32768 <= v <= 32767 {
            Some(v as i16)
        } else {
            None
        }
    }
}

/// Parse a decimal numeral into an `i16`, exactly as `str::parse` would.
pub fn parse_i16(s: &str) -> (r: Option<i16>)
    ensures
        r == spec_parse_i16(s@),
{
    let n = s.unicode_len();
    let mut i: usize = 0;
    let mut neg = false;
    if n > 0 {
        let c0 = s.get_char(0);
        if c0 == '-' {
            neg = true;
            i = 1;
        } else if c0 == '+' {
            i = 1;
        }
    }
    let ghost mag = spec_numeral_mag(s@);
    proof {
        assert(neg == (s@.len() > 0 && s@[0] == '-'));
        assert(mag.len() == n - i);
        assert(forall|j: int| 0 <= j < mag.len() ==> #[trigger] mag[j] == s@[j + i]);
    }
    if i >= n {
        // an empty string, or a sign with no digits after it
        return None;
    }
    let ghost off = i as int;
    let mut acc: i32 = 0;
    let mut over = false;
    while i < n
        invariant
            n == s@.len(),
            mag == spec_numeral_mag(s@),
            mag.len() == n - off,
            mag.len() > 0,
            0 <= off <= i <= n,
            forall|j: int| 0 <= j < mag.len() ==> #[trigger] mag[j] == s@[j + off],
            forall|j: int| 0 <= j < i - off ==> is_digit(#[trigger] mag[j]),
            !over ==> 0 <= acc <= 32768 && acc == digits_val(mag.take(i - off)),
            over ==> digits_val(mag.take(i - off)) > 32768,
        decreases n - i,
    {
        let c = s.get_char(i);
        let ghost k = i - off;
        proof {
            assert(mag[k] == s@[i as int]);
            assert(mag.take(k + 1).drop_last() =~= mag.take(k));
            assert(mag.take(k + 1).last() == mag[k]);
        }
        if c < '0' || c > '9' {
            proof {
                assert(0 <= k < mag.len() && !is_digit(mag[k]));
                assert(!all_digits(mag));
            }
            return None;
        }
        let d: i32 = (c as u32 as i32) - ('0' as u32 as i32);
        proof {
            assert(is_digit(mag[k]));
            assert(d == mag[k] as int - '0' as int);
        }
        if over {
            proof {
                lemma_digits_val_nonneg(mag.take(k));
                assert(digits_val(mag.take(k + 1)) > 32768);
            }
        } else {
            if acc > 3276 || (acc == 3276 && d > 8) {
                over = true;
                proof {
                    assert(digits_val(mag.take(k + 1)) > 32768);
                }
            } else {
                acc = acc * 10 + d;
            }
        }
        i = i + 1;
    }
    proof {
        assert(mag.take(mag.len() as int) =~= mag);
    }
    if over {
        return None;
    }
    if neg {
        if acc == 32768 {
            Some(i16::MIN)
        } else {
            Some(0i16 - (acc as i16))
        }
    } else {
        if acc > 32767 {
            None
        } else {
            Some(acc as i16)
        }
    }
}

} // verus!
