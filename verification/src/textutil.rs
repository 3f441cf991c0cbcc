//! Character-level string utilities: equality, substring search, trimming,
//! and decimal parsing. Everything is stated over `Seq<char>` views.

use vstd::prelude::*;
use vstd::string::StrSliceExecFns;

verus! {

/// Characters treated as whitespace when trimming.
pub open spec fn is_space(c: char) -> bool {
    c == ' ' || c == '\t' || c == '\r' || c == '\n'
}

/// `s` with leading whitespace removed.
pub open spec fn spec_trim_start(s: Seq<char>) -> Seq<char>
    decreases s.len(),
{
    if s.len() == 0 {
        s
    } else if is_space(s[0]) {
        spec_trim_start(s.skip(1))
    } else {
        s
    }
}

/// `s` with trailing whitespace removed.
pub open spec fn spec_trim_end(s: Seq<char>) -> Seq<char>
    decreases s.len(),
{
    if s.len() == 0 {
        s
    } else if is_space(s.last()) {
        spec_trim_end(s.take(s.len() - 1))
    } else {
        s
    }
}

/// `s` with leading and trailing whitespace removed.
pub open spec fn spec_trim(s: Seq<char>) -> Seq<char> {
    spec_trim_end(spec_trim_start(s))
}

proof fn lemma_trim_start_skip(s: Seq<char>, i: int)
    requires
        0 <= i <= s.len(),
        forall|k: int| 0 <= k < i ==> is_space(s[k]),
        i == s.len() || !is_space(s[i]),
    ensures
        spec_trim_start(s) == s.skip(i),
    decreases i,
{
    if i == 0 {
        assert(spec_trim_start(s) =~= s.skip(0)) by {
            if s.len() > 0 && is_space(s[0]) {
                assert(false);
            }
            assert(s.skip(0) =~= s);
        }
    } else {
        assert(is_space(s[0]));
        lemma_trim_start_skip(s.skip(1), i - 1);
        assert(s.skip(1).skip(i - 1) =~= s.skip(i));
    }
}

proof fn lemma_trim_end_take(s: Seq<char>, j: int)
    requires
        0 <= j <= s.len(),
        forall|k: int| j <= k < s.len() ==> is_space(s[k]),
        j == 0 || !is_space(s[j - 1]),
    ensures
        spec_trim_end(s) == s.take(j),
    decreases s.len() - j,
{
    if j == s.len() {
        assert(spec_trim_end(s) =~= s.take(j)) by {
            if s.len() > 0 && is_space(s.last()) {
                assert(false);
            }
            assert(s.take(s.len() as int) =~= s);
        }
    } else {
        assert(is_space(s.last()));
        lemma_trim_end_take(s.take(s.len() - 1), j);
        assert(s.take(s.len() - 1).take(j) =~= s.take(j));
    }
}

/// Removes leading and trailing whitespace.
pub fn trim_chars(s: &str) -> (r: String)
    ensures
        r@ == spec_trim(s@),
{
    let len = s.unicode_len();
    let mut i: usize = 0;
    while i < len && is_space_exec(s.get_char(i))
        invariant
            0 <= i <= len,
            len == s@.len(),
            forall|k: int| 0 <= k < i ==> is_space(s@[k]),
        decreases len - i,
    {
        i = i + 1;
    }
    proof {
        lemma_trim_start_skip(s@, i as int);
    }
    let mut j: usize = len;
    while j > i && is_space_exec(s.get_char(j - 1))
        invariant
            i <= j <= len,
            len == s@.len(),
            forall|k: int| 0 <= k < i ==> is_space(s@[k]),
            i == len || !is_space(s@[i as int]),
            forall|k: int| j <= k < len ==> is_space(s@[k]),
        decreases j,
    {
        j = j - 1;
    }
    let sub = s.substring_char(i, j);
    proof {
        let t = s@.skip(i as int);
        lemma_trim_end_take(t, j - i);
        assert(t.take(j - i) =~= s@.subrange(i as int, j as int));
        if j > i {
            assert(t[j - i - 1] == s@[j as int - 1]);
        }
    }
    sub.to_owned()
}

/// Executable test for [`is_space`].
pub fn is_space_exec(c: char) -> (r: bool)
    ensures
        r == is_space(c),
{
    c == ' ' || c == '\t' || c == '\r' || c == '\n'
}

/// Whether the two strings hold the same characters.
pub fn str_eq(a: &str, b: &str) -> (r: bool)
    ensures
        r == (a@ == b@),
{
    let alen = a.unicode_len();
    let blen = b.unicode_len();
    if alen != blen {
        return false;
    }
    let mut i: usize = 0;
    while i < alen
        invariant
            0 <= i <= alen,
            alen == a@.len(),
            alen == b@.len(),
            forall|k: int| 0 <= k < i ==> a@[k] == b@[k],
        decreases alen - i,
    {
        if a.get_char(i) != b.get_char(i) {
            return false;
        }
        i = i + 1;
    }
    proof {
        assert(a@ =~= b@);
    }
    true
}

/// `needle` occurs in `hay` starting at position `i`.
pub open spec fn contains_at(hay: Seq<char>, needle: Seq<char>, i: int) -> bool {
    &&& 0 <= i
    &&& i + needle.len() <= hay.len()
    &&& hay.subrange(i, i + needle.len()) == needle
}

/// `needle` occurs somewhere in `hay`.
pub open spec fn spec_contains(hay: Seq<char>, needle: Seq<char>) -> bool {
    exists|i: int| contains_at(hay, needle, i)
}

/// Whether `needle` occurs in `hay` starting at `i`.
fn matches_at(hay: &str, needle: &str, i: usize) -> (r: bool)
    requires
        i + needle@.len() <= hay@.len(),
    ensures
        r == contains_at(hay@, needle@, i as int),
{
    let nlen = needle.unicode_len();
    let hlen = hay.unicode_len();
    let mut k: usize = 0;
    while k < nlen
        invariant
            0 <= k <= nlen,
            nlen == needle@.len(),
            hlen == hay@.len(),
            i + nlen <= hlen,
            forall|m: int| 0 <= m < k ==> hay@[i + m] == needle@[m],
        decreases nlen - k,
    {
        if hay.get_char(i + k) != needle.get_char(k) {
            proof {
                let sub = hay@.subrange(i as int, i + needle@.len());
                assert(sub[k as int] == hay@[i + k]);
            }
            return false;
        }
        k = k + 1;
    }
    proof {
        assert(hay@.subrange(i as int, i + needle@.len()) =~= needle@);
    }
    true
}

/// Whether `needle` occurs anywhere in `hay`.
pub fn str_contains(hay: &str, needle: &str) -> (r: bool)
    ensures
        r == spec_contains(hay@, needle@),
{
    let hlen = hay.unicode_len();
    let nlen = needle.unicode_len();
    if nlen > hlen {
        proof {
            assert(forall|i: int| !contains_at(hay@, needle@, i));
        }
        return false;
    }
    if nlen == 0 {
        proof {
            assert(hay@.subrange(0, 0) =~= needle@);
            assert(contains_at(hay@, needle@, 0));
        }
        return true;
    }
    let mut i: usize = 0;
    while i <= hlen - nlen
        invariant
            0 <= i <= hlen - nlen + 1,
            1 <= nlen <= hlen,
            hlen == hay@.len(),
            nlen == needle@.len(),
            forall|k: int| 0 <= k < i ==> !contains_at(hay@, needle@, k),
        decreases hlen - nlen + 1 - i,
    {
        if matches_at(hay, needle, i) {
            return true;
        }
        i = i + 1;
    }
    proof {
        assert(forall|k: int| k >= i ==> !contains_at(hay@, needle@, k));
    }
    false
}

/// The last position at which `needle` occurs in `hay`, if any.
pub fn rfind_sub(hay: &str, needle: &str) -> (r: Option<usize>)
    ensures
        match r {
            Some(i) => contains_at(hay@, needle@, i as int) && forall|k: int|
                k > i ==> !contains_at(hay@, needle@, k),
            None => !spec_contains(hay@, needle@),
        },
{
    let hlen = hay.unicode_len();
    let nlen = needle.unicode_len();
    if nlen > hlen {
        proof {
            assert(forall|i: int| !contains_at(hay@, needle@, i));
        }
        return None;
    }
    if nlen == 0 {
        proof {
            assert(hay@.subrange(hlen as int, hlen as int) =~= needle@);
            assert(contains_at(hay@, needle@, hlen as int));
        }
        return Some(hlen);
    }
    let mut i: usize = hlen - nlen + 1;
    while i > 0
        invariant
            0 <= i <= hlen - nlen + 1,
            1 <= nlen <= hlen,
            hlen == hay@.len(),
            nlen == needle@.len(),
            forall|k: int| k >= i ==> !contains_at(hay@, needle@, k),
        decreases i,
    {
        i = i - 1;
        if matches_at(hay, needle, i) {
            return Some(i);
        }
    }
    proof {
        assert(forall|k: int| !contains_at(hay@, needle@, k));
    }
    None
}

/// The first position of character `c` in `hay`, if any.
pub fn find_char(hay: &str, c: char) -> (r: Option<usize>)
    ensures
        match r {
            Some(i) => 0 <= i < hay@.len() && hay@[i as int] == c && forall|k: int|
                0 <= k < i ==> hay@[k] != c,
            None => forall|k: int| 0 <= k < hay@.len() ==> hay@[k] != c,
        },
{
    let hlen = hay.unicode_len();
    let mut i: usize = 0;
    while i < hlen
        invariant
            0 <= i <= hlen,
            hlen == hay@.len(),
            forall|k: int| 0 <= k < i ==> hay@[k] != c,
        decreases hlen - i,
    {
        if hay.get_char(i) == c {
            return Some(i);
        }
        i = i + 1;
    }
    None
}

/// The largest position at or below `j` where `needle` occurs in `hay`.
pub open spec fn rfind_from(hay: Seq<char>, needle: Seq<char>, j: int) -> Option<int>
    decreases j + 1,
    when j >= -1
{
    if j < 0 {
        None
    } else if contains_at(hay, needle, j) {
        Some(j)
    } else {
        rfind_from(hay, needle, j - 1)
    }
}

/// The last occurrence of `needle` in `hay`, if any.
pub open spec fn spec_rfind(hay: Seq<char>, needle: Seq<char>) -> Option<int> {
    if needle.len() > hay.len() {
        None
    } else {
        rfind_from(hay, needle, hay.len() - needle.len())
    }
}

/// Ties [`rfind_sub`]'s contract to [`spec_rfind`]: a last occurrence.
pub proof fn lemma_rfind_from_some(hay: Seq<char>, needle: Seq<char>, i: int, j: int)
    requires
        contains_at(hay, needle, i),
        forall|k: int| k > i ==> !contains_at(hay, needle, k),
        i <= j,
    ensures
        rfind_from(hay, needle, j) == Some(i),
    decreases j - i,
{
    if j > i {
        lemma_rfind_from_some(hay, needle, i, j - 1);
    }
}

/// Ties [`rfind_sub`]'s contract to [`spec_rfind`]: no occurrence.
pub proof fn lemma_rfind_from_none(hay: Seq<char>, needle: Seq<char>, j: int)
    requires
        !spec_contains(hay, needle),
        j >= -1,
    ensures
        rfind_from(hay, needle, j) == None::<int>,
    decreases j + 1,
{
    if j >= 0 {
        assert(!contains_at(hay, needle, j));
        lemma_rfind_from_none(hay, needle, j - 1);
    }
}

/// The first position of `c` in `hay` at or after `i`.
pub open spec fn find_char_from(hay: Seq<char>, c: char, i: int) -> Option<int>
    decreases hay.len() - i,
    when 0 <= i <= hay.len()
{
    if i == hay.len() {
        None
    } else if hay[i] == c {
        Some(i)
    } else {
        find_char_from(hay, c, i + 1)
    }
}

/// The first position of `c` in `hay`, if any.
pub open spec fn spec_find_char(hay: Seq<char>, c: char) -> Option<int> {
    find_char_from(hay, c, 0)
}

/// Ties [`find_char`]'s contract to [`spec_find_char`]: a first position.
pub proof fn lemma_find_char_some(hay: Seq<char>, c: char, i: int, j: int)
    requires
        0 <= j <= i < hay.len(),
        hay[i] == c,
        forall|k: int| 0 <= k < i ==> hay[k] != c,
    ensures
        find_char_from(hay, c, j) == Some(i),
    decreases i - j,
{
    if j < i {
        lemma_find_char_some(hay, c, i, j + 1);
    }
}

/// Ties [`find_char`]'s contract to [`spec_find_char`]: no position.
pub proof fn lemma_find_char_none(hay: Seq<char>, c: char, j: int)
    requires
        0 <= j <= hay.len(),
        forall|k: int| 0 <= k < hay.len() ==> hay[k] != c,
    ensures
        find_char_from(hay, c, j) == None::<int>,
    decreases hay.len() - j,
{
    if j < hay.len() {
        lemma_find_char_none(hay, c, j + 1);
    }
}

/// `c` is a decimal digit.
pub open spec fn is_digit(c: char) -> bool {
    '0' <= c && c <= '9'
}

/// Every character of `s` is a decimal digit.
pub open spec fn all_digits(s: Seq<char>) -> bool {
    forall|i: int| 0 <= i < s.len() ==> is_digit(s[i])
}

/// The numeric value of a digit character.
pub open spec fn digit_val(c: char) -> nat {
    (c as nat - '0' as nat) as nat
}

/// The value of a digit string read in decimal.
pub open spec fn spec_dec_val(s: Seq<char>) -> nat
    decreases s.len(),
{
    if s.len() == 0 {
        0
    } else {
        spec_dec_val(s.take(s.len() - 1)) * 10 + digit_val(s.last())
    }
}

/// Longer digit-string prefixes never decrease in value.
proof fn lemma_dec_val_prefix_le(s: Seq<char>, i: int, j: int)
    requires
        0 <= i <= j <= s.len(),
    ensures
        spec_dec_val(s.take(i)) <= spec_dec_val(s.take(j)),
    decreases j - i,
{
    if i < j {
        lemma_dec_val_prefix_le(s, i, j - 1);
        assert(s.take(j).take(j - 1) =~= s.take(j - 1));
        assert(spec_dec_val(s.take(j)) == spec_dec_val(s.take(j - 1)) * 10 + digit_val(
            s.take(j).last(),
        ));
    } else {
        assert(s.take(i) =~= s.take(j));
    }
}

/// Executable test for [`is_digit`].
pub fn is_digit_exec(c: char) -> (r: bool)
    ensures
        r == is_digit(c),
{
    '0' <= c && c <= '9'
}

/// The numeric value of a digit character.
fn digit_val_exec(c: char) -> (v: u64)
    requires
        is_digit(c),
    ensures
        v == digit_val(c),
        v < 10,
{
    (c as u64) - ('0' as u64)
}

/// Parses a non-empty all-digit string as a `u64`; `None` when the string
/// is empty, holds a non-digit, or its value exceeds `u64::MAX`.
pub fn parse_u64_digits(s: &str) -> (r: Option<u64>)
    ensures
        match r {
            Some(v) => s@.len() > 0 && all_digits(s@) && v == spec_dec_val(s@),
            None => s@.len() == 0 || !all_digits(s@) || spec_dec_val(s@) > u64::MAX,
        },
{
    let len = s.unicode_len();
    if len == 0 {
        return None;
    }
    let mut acc: u64 = 0;
    let mut i: usize = 0;
    while i < len
        invariant
            0 <= i <= len,
            len == s@.len(),
            forall|k: int| 0 <= k < i ==> is_digit(s@[k]),
            acc == spec_dec_val(s@.take(i as int)),
        decreases len - i,
    {
        let c = s.get_char(i);
        if !is_digit_exec(c) {
            return None;
        }
        let d = digit_val_exec(c);
        if acc > (u64::MAX - d) / 10 {
            proof {
                assert(spec_dec_val(s@.take(i + 1)) == acc * 10 + d) by {
                    assert(s@.take(i + 1).take(i as int) =~= s@.take(i as int));
                    assert(s@.take(i + 1).last() == s@[i as int]);
                }
                assert(acc * 10 + d > u64::MAX) by (nonlinear_arith)
                    requires
                        acc > (u64::MAX - d) / 10,
                        d < 10,
                {}
                lemma_dec_val_prefix_le(s@, i + 1, s@.len() as int);
                assert(s@.take(s@.len() as int) =~= s@);
            }
            return None;
        }
        proof {
            assert(acc * 10 + d <= u64::MAX) by (nonlinear_arith)
                requires
                    acc <= (u64::MAX - d) / 10,
                    d < 10,
            {}
            assert(s@.take(i + 1).take(i as int) =~= s@.take(i as int));
            assert(s@.take(i + 1).last() == s@[i as int]);
        }
        acc = acc * 10 + d;
        i = i + 1;
    }
    proof {
        assert(s@.take(len as int) =~= s@);
    }
    Some(acc)
}

/// Parses a non-empty all-digit string as a `u32`; `None` when the string
/// is empty, holds a non-digit, or its value exceeds `u32::MAX`.
pub fn parse_u32_digits(s: &str) -> (r: Option<u32>)
    ensures
        match r {
            Some(v) => s@.len() > 0 && all_digits(s@) && v == spec_dec_val(s@),
            None => s@.len() == 0 || !all_digits(s@) || spec_dec_val(s@) > u32::MAX,
        },
{
    match parse_u64_digits(s) {
        Some(v) => if v <= u32::MAX as u64 {
            Some(v as u32)
        } else {
            None
        },
        None => None,
    }
}

} // verus!
