//! Verified utilities over character sequences: substring search, trimming,
//! whitespace splitting and decimal parsing, each an executable function
//! proved against a direct specification.

use vstd::prelude::*;

verus! {

/// The whitespace characters this library recognises: the ASCII blanks that
/// occur in the power tool's output.
pub open spec fn is_ws(c: char) -> bool {
    c == ' ' || c == '\t' || c == '\n' || c == '\r'
}

/// Whether `pat` occurs in `s` starting at index `j`.
pub open spec fn match_at(s: Seq<char>, pat: Seq<char>, j: int) -> bool {
    0 <= j && j + pat.len() <= s.len() && s.subrange(j, j + pat.len() as int) == pat
}

/// The least index `j >= i` at which `pat` occurs in `s`, if any.
pub open spec fn find_from(s: Seq<char>, pat: Seq<char>, i: int) -> Option<int>
    decreases s.len() + 1 - i,
{
    if i < 0 || i + pat.len() > s.len() {
        None
    } else if match_at(s, pat, i) {
        Some(i)
    } else {
        find_from(s, pat, i + 1)
    }
}

/// A found index lies at a match, and no earlier index from `i` on matches;
/// a miss means no index from `i` on matches.
pub proof fn lemma_find_from(s: Seq<char>, pat: Seq<char>, i: int)
    requires
        0 <= i,
    ensures
        match find_from(s, pat, i) {
            Some(j) => i <= j && match_at(s, pat, j) && forall|k: int|
                i <= k < j ==> !match_at(s, pat, k),
            None => forall|k: int| i <= k ==> !match_at(s, pat, k),
        },
    decreases s.len() + 1 - i,
{
    if i + pat.len() > s.len() {
    } else if match_at(s, pat, i) {
    } else {
        lemma_find_from(s, pat, i + 1);
    }
}

/// Whether `pat` occurs anywhere in `s`.
pub open spec fn contains_seq(s: Seq<char>, pat: Seq<char>) -> bool {
    find_from(s, pat, 0) is Some
}

/// Whether `pat` is a prefix of `s`.
pub open spec fn starts_with(s: Seq<char>, pat: Seq<char>) -> bool {
    pat.len() <= s.len() && s.subrange(0, pat.len() as int) == pat
}

/// Compares `s[i..i+pat.len()]` with `pat`.
fn match_at_exec(s: &str, pat: &str, i: usize) -> (r: bool)
    requires
        i + pat@.len() <= s@.len(),
        s@.len() <= usize::MAX,
    ensures
        r == match_at(s@, pat@, i as int),
{
    let plen = pat.unicode_len();
    let mut k: usize = 0;
    while k < plen
        invariant
            0 <= k <= plen,
            plen == pat@.len(),
            i + plen <= s@.len(),
            s@.len() <= usize::MAX,
            forall|m: int| 0 <= m < k ==> s@[i + m] == pat@[m],
        decreases plen - k,
    {
        if s.get_char(i + k) != pat.get_char(k) {
            assert(s@.subrange(i as int, i + plen as int)[k as int] != pat@[k as int]);
            return false;
        }
        k += 1;
    }
    assert(s@.subrange(i as int, i + plen as int) =~= pat@);
    true
}

/// The least index at or after `from` where `pat` occurs in `s`, if any.
pub fn find_sub_from(s: &str, pat: &str, from: usize) -> (r: Option<usize>)
    requires
        from <= s@.len(),
    ensures
        match r {
            Some(j) => Some(j as int) == find_from(s@, pat@, from as int),
            None => find_from(s@, pat@, from as int) is None,
        },
{
    let n = s.unicode_len();
    let plen = pat.unicode_len();
    if plen > n - from {
        return None;
    }
    if plen == 0 {
        assert(s@.subrange(from as int, from as int) =~= pat@);
        return Some(from);
    }
    let mut i: usize = from;
    while i <= n - plen
        invariant
            from <= i,
            n == s@.len(),
            plen == pat@.len(),
            1 <= plen <= n,
            i <= n - plen + 1,
            find_from(s@, pat@, from as int) == find_from(s@, pat@, i as int),
        decreases n - i,
    {
        if match_at_exec(s, pat, i) {
            return Some(i);
        }
        assert(find_from(s@, pat@, i as int) == find_from(s@, pat@, i + 1));
        i += 1;
    }
    assert(find_from(s@, pat@, i as int) is None);
    None
}

/// Whether `pat` occurs anywhere in `s`.
pub fn contains_sub(s: &str, pat: &str) -> (r: bool)
    ensures
        r == contains_seq(s@, pat@),
{
    find_sub_from(s, pat, 0).is_some()
}

/// `true` exactly for the characters `is_ws` names.
pub fn is_ws_exec(c: char) -> (r: bool)
    ensures
        r == is_ws(c),
{
    c == ' ' || c == '\t' || c == '\n' || c == '\r'
}

/// The least index `j >= i` with a whitespace character, else `s.len()`.
pub open spec fn seek_ws(s: Seq<char>, i: int) -> int
    decreases s.len() + 1 - i,
{
    if i < 0 || i >= s.len() {
        s.len() as int
    } else if is_ws(s[i]) {
        i
    } else {
        seek_ws(s, i + 1)
    }
}

/// The least index `j >= i` with a non-whitespace character, else `s.len()`.
pub open spec fn seek_non_ws(s: Seq<char>, i: int) -> int
    decreases s.len() + 1 - i,
{
    if i < 0 || i >= s.len() {
        s.len() as int
    } else if !is_ws(s[i]) {
        i
    } else {
        seek_non_ws(s, i + 1)
    }
}

/// The least index `j >= i` holding the character `c`, else `s.len()`.
pub open spec fn seek_char(s: Seq<char>, c: char, i: int) -> int
    decreases s.len() + 1 - i,
{
    if i < 0 || i >= s.len() {
        s.len() as int
    } else if s[i] == c {
        i
    } else {
        seek_char(s, c, i + 1)
    }
}

/// `seek_char` stays between its starting index and the length.
pub proof fn lemma_seek_char_bounds(s: Seq<char>, c: char, i: int)
    requires
        0 <= i <= s.len(),
    ensures
        i <= seek_char(s, c, i) <= s.len(),
    decreases s.len() + 1 - i,
{
    if i < s.len() && s[i] != c {
        lemma_seek_char_bounds(s, c, i + 1);
    }
}

/// Computes `seek_ws` for `s` at `from`.
pub fn seek_ws_exec(s: &str, from: usize) -> (r: usize)
    requires
        from <= s@.len(),
    ensures
        r as int == seek_ws(s@, from as int),
        from <= r <= s@.len(),
{
    let n = s.unicode_len();
    let mut i: usize = from;
    while i < n
        invariant
            from <= i <= n,
            n == s@.len(),
            seek_ws(s@, from as int) == seek_ws(s@, i as int),
        decreases n - i,
    {
        if is_ws_exec(s.get_char(i)) {
            return i;
        }
        assert(seek_ws(s@, i as int) == seek_ws(s@, i + 1));
        i += 1;
    }
    n
}

/// Computes `seek_non_ws` for `s` at `from`.
pub fn seek_non_ws_exec(s: &str, from: usize) -> (r: usize)
    requires
        from <= s@.len(),
    ensures
        r as int == seek_non_ws(s@, from as int),
        from <= r <= s@.len(),
{
    let n = s.unicode_len();
    let mut i: usize = from;
    while i < n
        invariant
            from <= i <= n,
            n == s@.len(),
            seek_non_ws(s@, from as int) == seek_non_ws(s@, i as int),
        decreases n - i,
    {
        if !is_ws_exec(s.get_char(i)) {
            return i;
        }
        assert(seek_non_ws(s@, i as int) == seek_non_ws(s@, i + 1));
        i += 1;
    }
    n
}

/// Computes `seek_char` for `s` and `c` at `from`.
pub fn seek_char_exec(s: &str, c: char, from: usize) -> (r: usize)
    requires
        from <= s@.len(),
    ensures
        r as int == seek_char(s@, c, from as int),
        from <= r <= s@.len(),
{
    let n = s.unicode_len();
    let mut i: usize = from;
    while i < n
        invariant
            from <= i <= n,
            n == s@.len(),
            seek_char(s@, c, from as int) == seek_char(s@, c, i as int),
        decreases n - i,
    {
        if s.get_char(i) == c {
            return i;
        }
        assert(seek_char(s@, c, i as int) == seek_char(s@, c, i + 1));
        i += 1;
    }
    n
}

/// One past the last non-whitespace character of `s`; 0 if there is none.
pub open spec fn trim_end_idx(s: Seq<char>) -> int
    decreases s.len(),
{
    if s.len() == 0 {
        0
    } else if !is_ws(s.last()) {
        s.len() as int
    } else {
        trim_end_idx(s.drop_last())
    }
}

/// `s` without leading and trailing whitespace.
pub open spec fn trim_of(s: Seq<char>) -> Seq<char> {
    let a = seek_non_ws(s, 0);
    let b = trim_end_idx(s);
    if a <= b {
        s.subrange(a, b)
    } else {
        Seq::empty()
    }
}

/// The bounds of the trimmed middle of `s`: `s[r.0..r.1]` is `trim_of(s@)`.
pub fn trim_range(s: &str) -> (r: (usize, usize))
    ensures
        r.0 <= r.1 <= s@.len(),
        s@.subrange(r.0 as int, r.1 as int) == trim_of(s@),
{
    let n = s.unicode_len();
    let a = seek_non_ws_exec(s, 0);
    let mut j: usize = 0;
    let mut b: usize = 0;
    while j < n
        invariant
            0 <= j <= n,
            b <= j,
            n == s@.len(),
            b as int == trim_end_idx(s@.take(j as int)),
        decreases n - j,
    {
        assert(s@.take(j + 1).drop_last() =~= s@.take(j as int));
        if !is_ws_exec(s.get_char(j)) {
            b = j + 1;
        }
        j += 1;
    }
    assert(s@.take(n as int) =~= s@);
    if a <= b {
        (a, b)
    } else {
        assert(s@.subrange(0, 0) =~= trim_of(s@));
        (0, 0)
    }
}

/// Whether a whitespace-separated second word exists in `t`.
pub open spec fn has_second_token(t: Seq<char>) -> bool {
    seek_non_ws(t, seek_ws(t, 0)) < t.len()
}

/// The second whitespace-separated word of `t`.
pub open spec fn second_token(t: Seq<char>) -> Seq<char> {
    let a2 = seek_non_ws(t, seek_ws(t, 0));
    t.subrange(a2, seek_ws(t, a2))
}

/// Whether `c` is a decimal digit.
pub open spec fn is_digit(c: char) -> bool {
    48 <= c as u32 <= 57
}

/// Whether every character of `s` is a decimal digit.
pub open spec fn all_digits(s: Seq<char>) -> bool {
    forall|i: int| 0 <= i < s.len() ==> is_digit(s[i])
}

/// The value of `s` read as decimal digits.
pub open spec fn digits_val(s: Seq<char>) -> int
    decreases s.len(),
{
    if s.len() == 0 {
        0
    } else {
        digits_val(s.drop_last()) * 10 + (s.last() as u32 - 48)
    }
}

/// A digit string's value is never negative.
pub proof fn lemma_digits_val_nonneg(s: Seq<char>)
    requires
        all_digits(s),
    ensures
        digits_val(s) >= 0,
    decreases s.len(),
{
    if s.len() > 0 {
        assert(all_digits(s.drop_last()));
        lemma_digits_val_nonneg(s.drop_last());
    }
}

/// A digit string's value is at least the value of any of its prefixes.
pub proof fn lemma_digits_val_prefix(s: Seq<char>, k: int)
    requires
        all_digits(s),
        0 <= k <= s.len(),
    ensures
        digits_val(s.take(k)) <= digits_val(s),
    decreases s.len() - k,
{
    if k < s.len() {
        assert(s.take(k + 1).drop_last() =~= s.take(k));
        assert(all_digits(s.take(k)));
        lemma_digits_val_nonneg(s.take(k));
        assert(digits_val(s.take(k)) <= digits_val(s.take(k + 1)));
        lemma_digits_val_prefix(s, k + 1);
    } else {
        assert(s.take(k) =~= s);
    }
}

/// The unsigned value of `s`: an optional leading `+`, then one or more
/// decimal digits, the whole fitting in a `u32`; anything else is `None`.
pub open spec fn parse_u32_of(s: Seq<char>) -> Option<u32> {
    let body = if s.len() > 0 && s[0] == '+' {
        s.skip(1)
    } else {
        s
    };
    if body.len() > 0 && all_digits(body) && digits_val(body) <= u32::MAX {
        Some(digits_val(body) as u32)
    } else {
        None
    }
}

/// Reads `s` as an unsigned decimal number.
pub fn parse_u32_exec(s: &str) -> (r: Option<u32>)
    ensures
        r == parse_u32_of(s@),
{
    let n = s.unicode_len();
    let start: usize = if n > 0 && s.get_char(0) == '+' {
        1
    } else {
        0
    };
    let ghost body = if s@.len() > 0 && s@[0] == '+' {
        s@.skip(1)
    } else {
        s@
    };
    assert(body =~= s@.subrange(start as int, n as int));
    if start == n {
        return None;
    }
    let mut acc: u64 = 0;
    let mut i: usize = start;
    while i < n
        invariant
            start <= i <= n,
            n == s@.len(),
            start == 0 || start == 1,
            start < n,
            body == s@.subrange(start as int, n as int),
            body == (if s@.len() > 0 && s@[0] == '+' {
                s@.skip(1)
            } else {
                s@
            }),
            acc == digits_val(s@.subrange(start as int, i as int)),
            all_digits(s@.subrange(start as int, i as int)),
            acc <= u32::MAX,
        decreases n - i,
    {
        let c = s.get_char(i);
        let cv = c as u32;
        assert(s@.subrange(start as int, i + 1).drop_last() =~= s@.subrange(
            start as int,
            i as int,
        ));
        if cv < 48 || cv > 57 {
            assert(!is_digit(body[i - start]));
            return None;
        }
        let d: u64 = (cv - 48) as u64;
        acc = acc * 10 + d;
        i += 1;
        if acc > 0xffff_ffff {
            proof {
                if all_digits(body) {
                    lemma_digits_val_prefix(body, i - start);
                    assert(body.take(i - start) =~= s@.subrange(start as int, i as int));
                }
            }
            return None;
        }
    }
    assert(body =~= s@.subrange(start as int, n as int));
    Some(acc as u32)
}

/// Whether `pat` is a prefix of `s[i..]`.
pub fn starts_with_at(s: &str, pat: &str, i: usize) -> (r: bool)
    requires
        i <= s@.len(),
    ensures
        r == starts_with(s@.skip(i as int), pat@),
{
    let n = s.unicode_len();
    let plen = pat.unicode_len();
    if plen > n - i {
        return false;
    }
    let m = match_at_exec(s, pat, i);
    assert(m == starts_with(s@.skip(i as int), pat@)) by {
        assert(s@.skip(i as int).subrange(0, plen as int) =~= s@.subrange(
            i as int,
            i + plen as int,
        ));
    }
    m
}

} // verus!
