use vstd::prelude::*;

verus! {

/// Character-wise equality of two strings.
pub fn same_text(a: &str, b: &str) -> (r: bool)
    ensures
        r == (a@ == b@),
{
    let n = a.unicode_len();
    if n != b.unicode_len() {
        return false;
    }
    let mut i: usize = 0;
    while i < n
        invariant
            n == a@.len(),
            n == b@.len(),
            0 <= i <= n,
            a@.subrange(0, i as int) == b@.subrange(0, i as int),
        decreases n - i,
    {
        if a.get_char(i) != b.get_char(i) {
            return false;
        }
        assert(a@.subrange(0, i + 1) =~= a@.subrange(0, i as int).push(a@[i as int]));
        assert(b@.subrange(0, i + 1) =~= b@.subrange(0, i as int).push(b@[i as int]));
        i = i + 1;
    }
    assert(a@ =~= a@.subrange(0, n as int));
    assert(b@ =~= b@.subrange(0, n as int));
    true
}


/// `pat` occurs in `s` at position `i`.
pub open spec fn occurs_at(s: Seq<char>, pat: Seq<char>, i: int) -> bool {
    0 <= i && i + pat.len() <= s.len() && s.subrange(i, i + pat.len()) == pat
}

/// The pieces of `s[start..]` when the current piece began at `start` and the
/// search for `pat` has reached `i`; occurrences are taken left to right and
/// never overlap.
pub open spec fn split_from(s: Seq<char>, pat: Seq<char>, start: int, i: int) -> Seq<Seq<char>>
    decreases s.len() - i,
{
    if pat.len() == 0 || i < start || i + pat.len() > s.len() {
        seq![s.subrange(start, s.len() as int)]
    } else if occurs_at(s, pat, i) {
        seq![s.subrange(start, i)] + split_from(s, pat, i + pat.len(), i + pat.len())
    } else {
        split_from(s, pat, start, i + 1)
    }
}

/// `s` cut at each occurrence of `pat`, as `str::split` does.
pub open spec fn split_spec(s: Seq<char>, pat: Seq<char>) -> Seq<Seq<char>> {
    split_from(s, pat, 0, 0)
}

/// The views of a vector of strings.
pub open spec fn views(v: Seq<String>) -> Seq<Seq<char>> {
    v.map_values(|x: String| x@)
}

/// The separator, once or doubled.
pub open spec fn pattern(sep: char, doubled: bool) -> Seq<char> {
    if doubled {
        seq![sep, sep]
    } else {
        seq![sep]
    }
}

/// Splits `s` at each occurrence of `sep` (or of `sep` twice in a row).
pub fn split_text(s: &str, sep: char, doubled: bool) -> (r: Vec<String>)
    ensures
        views(r@) == split_spec(s@, pattern(sep, doubled)),
{
    let ghost pat = pattern(sep, doubled);
    let n = s.unicode_len();
    let plen: usize = if doubled { 2 } else { 1 };
    let mut out: Vec<String> = Vec::new();
    let mut start: usize = 0;
    let mut i: usize = 0;
    while plen <= n - i
        invariant
            n == s@.len(),
            plen == pat.len(),
            pat == pattern(sep, doubled),
            0 <= start <= i <= n,
            views(out@) + split_from(s@, pat, start as int, i as int) == split_spec(s@, pat),
        decreases n - i,
    {
        let hit = s.get_char(i) == sep && (!doubled || s.get_char(i + 1) == sep);
        assert(hit == occurs_at(s@, pat, i as int)) by {
            let sub = s@.subrange(i as int, i + plen);
            if hit {
                assert(sub =~= pat);
            }
            if occurs_at(s@, pat, i as int) {
                assert(sub[0] == pat[0]);
                if doubled {
                    assert(sub[1] == pat[1]);
                }
            }
        }
        if hit {
            let piece = String::from_str(s.substring_char(start, i));
            let ghost before = out@;
            out.push(piece);
            assert(views(out@) =~= views(before) + seq![s@.subrange(start as int, i as int)]);
            i = i + plen;
            start = i;
        } else {
            i = i + 1;
        }
    }
    let last = String::from_str(s.substring_char(start, n));
    let ghost before = out@;
    out.push(last);
    assert(views(out@) =~= views(before) + seq![s@.subrange(start as int, n as int)]);
    out
}

/// Numeric value of an ASCII decimal digit.
pub open spec fn digit_value(c: char) -> nat {
    (c as u32 - '0' as u32) as nat
}

/// An ASCII decimal digit.
pub open spec fn is_digit(c: char) -> bool {
    '0' <= c && c <= '9'
}

/// The number written by a string of decimal digits.
pub open spec fn digits_value(d: Seq<char>) -> nat
    decreases d.len(),
{
    if d.len() == 0 {
        0
    } else {
        digits_value(d.drop_last()) * 10 + digit_value(d.last())
    }
}

/// The digits of a number token: the token without one leading `+`.
pub open spec fn unsigned_digits(s: Seq<char>) -> Seq<char> {
    if s.len() > 0 && s[0] == '+' {
        s.drop_first()
    } else {
        s
    }
}

/// Every character is a decimal digit.
pub open spec fn all_digits(d: Seq<char>) -> bool {
    forall|i: int| 0 <= i < d.len() ==> is_digit(#[trigger] d[i])
}

/// What `u64::from_str` accepts: an optional `+`, then one or more decimal
/// digits whose value fits in `u64`.
pub open spec fn parse_u64_spec(s: Seq<char>) -> Option<u64> {
    let d = unsigned_digits(s);
    if d.len() > 0 && all_digits(d) && digits_value(d) <= u64::MAX {
        Some(digits_value(d) as u64)
    } else {
        None
    }
}

/// Reads an unsigned decimal integer, as `u64::from_str` does.
pub fn parse_u64(s: &str) -> (r: Option<u64>)
    ensures
        r == parse_u64_spec(s@),
{
    let n = s.unicode_len();
    let first: usize = if n > 0 && s.get_char(0) == '+' { 1 } else { 0 };
    let ghost d = unsigned_digits(s@);
    assert(d =~= s@.subrange(first as int, n as int));
    if first == n {
        return None;
    }
    let mut acc: u64 = 0;
    let mut overflow = false;
    let mut i: usize = first;
    while i < n
        invariant
            n == s@.len(),
            first <= i <= n,
            d == s@.subrange(first as int, n as int),
            d == unsigned_digits(s@),
            forall|j: int| first <= j < i ==> is_digit(#[trigger] s@[j]),
            !overflow ==> acc == digits_value(s@.subrange(first as int, i as int)),
            overflow ==> digits_value(s@.subrange(first as int, i as int)) > u64::MAX,
        decreases n - i,
    {
        let c = s.get_char(i);
        if !('0' <= c && c <= '9') {
            assert(d[i - first] == c);
            assert(!is_digit(d[i - first]));
            return None;
        }
        let dv = (c as u32 - '0' as u32) as u64;
        let ghost prev = s@.subrange(first as int, i as int);
        let ghost next = s@.subrange(first as int, i + 1);
        assert(next.drop_last() =~= prev);
        assert(digits_value(next) == digits_value(prev) * 10 + dv);
        if !overflow {
            if acc > (u64::MAX - dv) / 10 {
                overflow = true;
                assert(digits_value(next) > u64::MAX) by (nonlinear_arith)
                    requires
                        acc > (u64::MAX - dv) / 10,
                        digits_value(next) == acc * 10 + dv,
                        dv <= 9,
                ;
            } else {
                assert(acc * 10 + dv <= u64::MAX) by (nonlinear_arith)
                    requires
                        acc <= (u64::MAX - dv) / 10,
                        dv <= 9,
                ;
                acc = acc * 10 + dv;
            }
        } else {
            assert(digits_value(next) > u64::MAX) by (nonlinear_arith)
                requires
                    digits_value(prev) > u64::MAX,
                    digits_value(next) == digits_value(prev) * 10 + dv,
            ;
        }
        i = i + 1;
    }
    assert(all_digits(d)) by {
        assert forall|j: int| 0 <= j < d.len() implies is_digit(#[trigger] d[j]) by {
            assert(d[j] == s@[first + j]);
        }
    }
    if overflow {
        None
    } else {
        Some(acc)
    }
}

} // verus!
