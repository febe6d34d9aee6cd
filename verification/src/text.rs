//! Character-level helpers on strings: conversion between `str` and
//! character vectors, and decimal rendering of integers.

use vstd::prelude::*;

verus! {

broadcast use vstd::string::group_string_axioms;

/// `String::push` appends one character.
pub assume_specification[ String::push ](s: &mut String, ch: char)
    ensures
        final(s)@ == old(s)@.push(ch),
;

/// The characters of `s`, in order.
pub fn chars_of(s: &str) -> (r: Vec<char>)
    ensures
        r@ == s@,
{
    let mut r: Vec<char> = Vec::new();
    for c in it: s.chars()
        invariant
            it.seq() == s@,
            r@ == it.seq().take(it.index() as int),
    {
        r.push(c);
    }
    r
}

/// The string made of the characters `cs`, in order.
pub fn string_from_chars(cs: &[char]) -> (s: String)
    ensures
        s@ == cs@,
{
    let mut s = String::new();
    let n = cs.len();
    for i in 0..n
        invariant
            n == cs@.len(),
            s@ == cs@.take(i as int),
    {
        s.push(cs[i]);
        assert(cs@.take(i + 1) == cs@.take(i as int).push(cs@[i as int]));
    }
    assert(cs@.take(n as int) == cs@);
    s
}


/// The character of the decimal digit `d` (`0 <= d < 10`).
pub open spec fn digit_char(d: nat) -> char {
    (d + 48) as char
}

/// Whether `c` is one of the ASCII digits `0` to `9`.
pub open spec fn is_digit(c: char) -> bool {
    '0' <= c && c <= '9'
}

/// The decimal rendering of `n`: no sign, no leading zeros, `"0"` for zero.
pub open spec fn decimal(n: nat) -> Seq<char>
    decreases n,
{
    if n < 10 {
        seq![digit_char(n)]
    } else {
        decimal(n / 10).push(digit_char(n % 10))
    }
}

/// The decimal rendering of a signed integer: a `-` before the magnitude of
/// a negative number.
pub open spec fn signed_decimal(n: int) -> Seq<char> {
    if n < 0 {
        seq!['-'] + decimal((-n) as nat)
    } else {
        decimal(n as nat)
    }
}

/// The value of a string of decimal digits (zero for the empty string).
pub open spec fn digits_value(s: Seq<char>) -> nat
    decreases s.len(),
{
    if s.len() == 0 {
        0
    } else {
        digits_value(s.drop_last()) * 10 + ((s.last() as int - 48) as nat)
    }
}

/// Whether every character of `s` is a decimal digit.
pub open spec fn all_digits(s: Seq<char>) -> bool {
    forall|i: int| 0 <= i < s.len() ==> is_digit(#[trigger] s[i])
}

/// What `str::parse::<u16>` gives: an optional `+`, then one or more
/// decimal digits whose value fits in a `u16`; nothing else is accepted.
pub open spec fn parse_u16_spec(s: Seq<char>) -> Option<u16> {
    let d = if s.len() > 0 && s[0] == '+' {
        s.skip(1)
    } else {
        s
    };
    if d.len() > 0 && all_digits(d) && digits_value(d) <= u16::MAX {
        Some(digits_value(d) as u16)
    } else {
        None
    }
}

fn push_decimal(n: u64, out: &mut Vec<char>)
    ensures
        final(out)@ == old(out)@ + decimal(n as nat),
    decreases n,
{
    if n >= 10 {
        push_decimal(n / 10, out);
    }
    let d: u8 = (n % 10) as u8;
    out.push((48u8 + d) as char);
    assert(decimal(n as nat) == if n < 10 {
        seq![digit_char(n as nat)]
    } else {
        decimal((n / 10) as nat).push(digit_char((n % 10) as nat))
    });
}

/// Renders `n` in decimal.
pub fn u64_to_decimal(n: u64) -> (s: String)
    ensures
        s@ == decimal(n as nat),
{
    let mut cs: Vec<char> = Vec::new();
    push_decimal(n, &mut cs);
    assert(cs@ == decimal(n as nat));
    string_from_chars(cs.as_slice())
}

/// Renders `n` in decimal, with a leading `-` when it is negative.
pub fn i64_to_decimal(n: i64) -> (s: String)
    ensures
        s@ == signed_decimal(n as int),
{
    let mut cs: Vec<char> = Vec::new();
    if n < 0 {
        cs.push('-');
        let magnitude: u64 = if n == i64::MIN {
            9223372036854775808u64
        } else {
            (-n) as u64
        };
        push_decimal(magnitude, &mut cs);
    } else {
        push_decimal(n as u64, &mut cs);
    }
    string_from_chars(cs.as_slice())
}

proof fn lemma_digits_value_prefix(s: Seq<char>, k: int)
    requires
        0 <= k <= s.len(),
    ensures
        digits_value(s.take(k)) <= digits_value(s),
    decreases s.len(),
{
    if k < s.len() {
        assert(s.drop_last().take(k) == s.take(k));
        lemma_digits_value_prefix(s.drop_last(), k);
    } else {
        assert(s.take(k) == s);
    }
}

/// Parses a `u16` as `str::parse::<u16>` does.
pub fn parse_u16(s: &str) -> (r: Option<u16>)
    ensures
        r == parse_u16_spec(s@),
{
    let cs = chars_of(s);
    let n = cs.len();
    let mut i: usize = 0;
    if n > 0 && cs[0] == '+' {
        i = 1;
    }
    let start = i;
    let ghost d = if s@.len() > 0 && s@[0] == '+' { s@.skip(1) } else { s@ };
    assert(d == cs@.skip(start as int));
    if start == n {
        return None;
    }
    let mut acc: u32 = 0;
    while i < n
        invariant
            start <= i <= n,
            n == cs@.len(),
            start < n,
            cs@ == s@,
            d == (if s@.len() > 0 && s@[0] == '+' { s@.skip(1) } else { s@ }),
            d == cs@.skip(start as int),
            acc <= u16::MAX,
            acc == digits_value(d.take(i - start)),
            all_digits(d.take(i - start)),
        decreases n - i,
    {
        let c = cs[i];
        if !('0' <= c && c <= '9') {
            assert(d[i - start] == c);
            return None;
        }
        let ghost t = d.take(i + 1 - start);
        assert(t.drop_last() == d.take(i - start));
        assert(t.last() == c);
        let next: u32 = acc * 10 + ((c as u32) - 48);
        assert(next == digits_value(t));
        if next > 65535 {
            proof {
                lemma_digits_value_prefix(d, i + 1 - start);
            }
            return None;
        }
        acc = next;
        i = i + 1;
    }
    assert(d.take(n - start) == d);
    Some(acc as u16)
}

/// Whether `a` and `b` hold the same characters.
pub fn str_equal(a: &str, b: &str) -> (r: bool)
    ensures
        r == (a@ == b@),
{
    let x = chars_of(a);
    let y = chars_of(b);
    if x.len() != y.len() {
        return false;
    }
    let n = x.len();
    for i in 0..n
        invariant
            n == x@.len(),
            n == y@.len(),
            x@ == a@,
            y@ == b@,
            forall|j: int| 0 <= j < i ==> x@[j] == y@[j],
    {
        if x[i] != y[i] {
            assert(a@[i as int] != b@[i as int]);
            return false;
        }
    }
    assert(x@ =~= y@);
    true
}

/// The concatenation of `a` and `b`.
pub fn concat(a: &str, b: &str) -> (r: String)
    ensures
        r@ == a@ + b@,
{
    let mut r = String::from_str(a);
    r.append(b);
    r
}

/// The character sequences held by a sequence of character vectors.
pub open spec fn char_views(v: Seq<Vec<char>>) -> Seq<Seq<char>> {
    v.map_values(|x: Vec<char>| x@)
}

/// The pieces of `s` found so far, left to right, when it is split at
/// every `sep`: the finished pieces and the piece still open.
pub open spec fn split_fold(s: Seq<char>, sep: char) -> (Seq<Seq<char>>, Seq<char>)
    decreases s.len(),
{
    if s.len() == 0 {
        (Seq::empty(), Seq::empty())
    } else {
        let (done, cur) = split_fold(s.drop_last(), sep);
        if s.last() == sep {
            (done.push(cur), Seq::empty())
        } else {
            (done, cur.push(s.last()))
        }
    }
}

/// The pieces of `s` between the occurrences of `sep`, as `str::split`
/// gives them: always at least one piece, empty pieces included.
pub open spec fn split_char(s: Seq<char>, sep: char) -> Seq<Seq<char>> {
    split_fold(s, sep).0.push(split_fold(s, sep).1)
}

/// The characters that `char::is_whitespace` accepts (Unicode `White_Space`).
pub open spec fn is_whitespace(c: char) -> bool {
    c == '\t' || c == '\n' || c == '\u{0B}' || c == '\u{0C}' || c == '\r' || c == ' ' || c
        == '\u{85}' || c == '\u{A0}' || c == '\u{1680}' || ('\u{2000}' <= c && c <= '\u{200A}')
        || c == '\u{2028}' || c == '\u{2029}' || c == '\u{202F}' || c == '\u{205F}' || c
        == '\u{3000}'
}

/// The words of `s` found so far, left to right: the finished words and
/// the word still open.
pub open spec fn words_fold(s: Seq<char>) -> (Seq<Seq<char>>, Seq<char>)
    decreases s.len(),
{
    if s.len() == 0 {
        (Seq::empty(), Seq::empty())
    } else {
        let (done, cur) = words_fold(s.drop_last());
        if is_whitespace(s.last()) {
            if cur.len() > 0 {
                (done.push(cur), Seq::empty())
            } else {
                (done, cur)
            }
        } else {
            (done, cur.push(s.last()))
        }
    }
}

/// The non-empty runs of non-whitespace characters of `s`, as
/// `str::split_whitespace` gives them.
pub open spec fn words(s: Seq<char>) -> Seq<Seq<char>> {
    let (done, cur) = words_fold(s);
    if cur.len() > 0 {
        done.push(cur)
    } else {
        done
    }
}

/// The position of the first `c` in `s`.
pub open spec fn first_index(s: Seq<char>, c: char) -> Option<int>
    decreases s.len(),
{
    if s.len() == 0 {
        None
    } else {
        match first_index(s.drop_last(), c) {
            Some(i) => Some(i),
            None => if s.last() == c {
                Some(s.len() - 1)
            } else {
                None
            },
        }
    }
}

/// Whether `c` is a whitespace character (`char::is_whitespace`).
pub fn is_whitespace_char(c: char) -> (r: bool)
    ensures
        r == is_whitespace(c),
{
    c == '\t' || c == '\n' || c == '\u{0B}' || c == '\u{0C}' || c == '\r' || c == ' ' || c
        == '\u{85}' || c == '\u{A0}' || c == '\u{1680}' || ('\u{2000}' <= c && c <= '\u{200A}')
        || c == '\u{2028}' || c == '\u{2029}' || c == '\u{202F}' || c == '\u{205F}' || c
        == '\u{3000}'
}

/// Splits `s` at every `sep` (`str::split` with a character).
pub fn split_chars(s: &[char], sep: char) -> (r: Vec<Vec<char>>)
    ensures
        char_views(r@) == split_char(s@, sep),
{
    let mut done: Vec<Vec<char>> = Vec::new();
    let mut cur: Vec<char> = Vec::new();
    let n = s.len();
    for i in 0..n
        invariant
            n == s@.len(),
            (char_views(done@), cur@) == split_fold(s@.take(i as int), sep),
    {
        assert(s@.take(i + 1).drop_last() =~= s@.take(i as int));
        if s[i] == sep {
            let ghost old_done = char_views(done@);
            let piece = cur;
            done.push(piece);
            cur = Vec::new();
            assert(char_views(done@) =~= old_done.push(piece@));
        } else {
            cur.push(s[i]);
        }
    }
    assert(s@.take(n as int) =~= s@);
    let ghost last_done = char_views(done@);
    let last = cur;
    done.push(last);
    assert(char_views(done@) =~= last_done.push(last@));
    done
}

/// The non-empty runs of non-whitespace characters of `s`
/// (`str::split_whitespace`).
pub fn split_words(s: &[char]) -> (r: Vec<Vec<char>>)
    ensures
        char_views(r@) == words(s@),
{
    let mut done: Vec<Vec<char>> = Vec::new();
    let mut cur: Vec<char> = Vec::new();
    let n = s.len();
    for i in 0..n
        invariant
            n == s@.len(),
            (char_views(done@), cur@) == words_fold(s@.take(i as int)),
    {
        assert(s@.take(i + 1).drop_last() =~= s@.take(i as int));
        if is_whitespace_char(s[i]) {
            if cur.len() > 0 {
                let ghost old_done = char_views(done@);
                let piece = cur;
                done.push(piece);
                cur = Vec::new();
                assert(char_views(done@) =~= old_done.push(piece@));
            }
        } else {
            cur.push(s[i]);
        }
    }
    assert(s@.take(n as int) =~= s@);
    if cur.len() > 0 {
        let ghost last_done = char_views(done@);
        let last = cur;
        done.push(last);
        assert(char_views(done@) =~= last_done.push(last@));
    }
    done
}

/// The position of the first `c` in `s`.
pub fn find_char(s: &[char], c: char) -> (r: Option<usize>)
    ensures
        match r {
            Some(i) => i < s@.len() && s@[i as int] == c && first_index(s@, c) == Some(i as int),
            None => first_index(s@, c) is None,
        },
{
    let n = s.len();
    for i in 0..n
        invariant
            n == s@.len(),
            first_index(s@.take(i as int), c) is None,
    {
        assert(s@.take(i + 1).drop_last() =~= s@.take(i as int));
        if s[i] == c {
            proof {
                lemma_first_index_prefix(s@, i + 1, c);
            }
            return Some(i);
        }
    }
    assert(s@.take(n as int) =~= s@);
    None
}

/// The first occurrence of `c` in a prefix of `s` is its first occurrence
/// in `s`.
proof fn lemma_first_index_prefix(s: Seq<char>, k: int, c: char)
    requires
        0 <= k <= s.len(),
        first_index(s.take(k), c) is Some,
    ensures
        first_index(s, c) == first_index(s.take(k), c),
    decreases s.len(),
{
    if k < s.len() {
        assert(s.drop_last().take(k) =~= s.take(k));
        lemma_first_index_prefix(s.drop_last(), k, c);
    } else {
        assert(s.take(k) =~= s);
    }
}

/// Whether the characters `cs` spell `s`.
pub fn chars_equal_str(cs: &[char], s: &str) -> (r: bool)
    ensures
        r == (cs@ == s@),
{
    let t = string_from_chars(cs);
    str_equal(t.as_str(), s)
}

/// The characters of `s` from position `start` on.
pub fn chars_from(s: &[char], start: usize) -> (r: Vec<char>)
    requires
        start <= s@.len(),
    ensures
        r@ == s@.skip(start as int),
{
    let mut r: Vec<char> = Vec::new();
    let n = s.len();
    for i in start..n
        invariant
            n == s@.len(),
            start <= i <= n,
            r@ == s@.subrange(start as int, i as int),
    {
        r.push(s[i]);
        assert(s@.subrange(start as int, i + 1) =~= s@.subrange(start as int, i as int).push(
            s@[i as int],
        ));
    }
    assert(s@.subrange(start as int, n as int) =~= s@.skip(start as int));
    r
}

/// The first `end` characters of `s`.
pub fn chars_until(s: &[char], end: usize) -> (r: Vec<char>)
    requires
        end <= s@.len(),
    ensures
        r@ == s@.take(end as int),
{
    let mut r: Vec<char> = Vec::new();
    for i in 0..end
        invariant
            end <= s@.len(),
            r@ == s@.take(i as int),
    {
        r.push(s[i]);
        assert(s@.take(i + 1) =~= s@.take(i as int).push(s@[i as int]));
    }
    r
}

/// A string without `sep` is one open piece.
pub proof fn lemma_split_fold_without_sep(x: Seq<char>, sep: char)
    requires
        !x.contains(sep),
    ensures
        split_fold(x, sep) == (Seq::<Seq<char>>::empty(), x),
    decreases x.len(),
{
    if x.len() > 0 {
        assert(!x.drop_last().contains(sep)) by {
            if x.drop_last().contains(sep) {
                let j = choose|j: int| 0 <= j < x.drop_last().len() && x.drop_last()[j] == sep;
                assert(x[j] == sep);
            }
        }
        lemma_split_fold_without_sep(x.drop_last(), sep);
        assert(x[x.len() - 1] != sep);
        assert(x.drop_last().push(x.last()) =~= x);
    }
}

/// Splitting at `sep` what follows a `sep` starts afresh: the pieces of
/// `x` come first, then those of `y`.
pub proof fn lemma_split_fold_after_sep(x: Seq<char>, y: Seq<char>, sep: char)
    ensures
        split_fold(x.push(sep) + y, sep) == (split_char(x, sep) + split_fold(y, sep).0, split_fold(
            y,
            sep,
        ).1),
    decreases y.len(),
{
    if y.len() == 0 {
        assert(x.push(sep) + y =~= x.push(sep));
        assert(x.push(sep).drop_last() =~= x);
        assert(split_char(x, sep) + Seq::<Seq<char>>::empty() =~= split_char(x, sep));
    } else {
        lemma_split_fold_after_sep(x, y.drop_last(), sep);
        assert((x.push(sep) + y).drop_last() =~= x.push(sep) + y.drop_last());
        assert((x.push(sep) + y).last() == y.last());
        let (d, c) = split_fold(y.drop_last(), sep);
        assert(split_char(x, sep) + d.push(c) =~= (split_char(x, sep) + d).push(c));
    }
}

/// The position of the first occurrence of the non-empty `pat` in `s`,
/// found by looking at `s` from its start.
pub open spec fn find_str(s: Seq<char>, pat: Seq<char>) -> Option<int>
    decreases s.len(),
{
    if s.len() < pat.len() || pat.len() == 0 {
        None
    } else {
        match find_str(s.drop_last(), pat) {
            Some(i) => Some(i),
            None => if s.subrange(s.len() - pat.len(), s.len() as int) == pat {
                Some(s.len() - pat.len())
            } else {
                None
            },
        }
    }
}

proof fn lemma_find_str_prefix(s: Seq<char>, k: int, pat: Seq<char>)
    requires
        0 <= k <= s.len(),
        find_str(s.take(k), pat) is Some,
    ensures
        find_str(s, pat) == find_str(s.take(k), pat),
    decreases s.len(),
{
    if k < s.len() {
        assert(s.drop_last().take(k) =~= s.take(k));
        lemma_find_str_prefix(s.drop_last(), k, pat);
        assert(find_str(s.drop_last(), pat) is Some);
        assert(s.len() >= pat.len()) by {
            if s.len() < pat.len() {
                assert(s.drop_last().len() < pat.len());
            }
        }
    } else {
        assert(s.take(k) =~= s);
    }
}

fn window_equals(s: &[char], start: usize, pat: &[char]) -> (r: bool)
    requires
        start + pat@.len() <= s@.len(),
    ensures
        r == (s@.subrange(start as int, start + pat@.len()) == pat@),
{
    let m = pat.len();
    let n = s.len();
    for j in 0..m
        invariant
            m == pat@.len(),
            n == s@.len(),
            start + m <= n,
            forall|t: int| 0 <= t < j ==> s@[start + t] == pat@[t],
    {
        if s[start + j] != pat[j] {
            assert(s@.subrange(start as int, start + m)[j as int] != pat@[j as int]);
            return false;
        }
    }
    assert(s@.subrange(start as int, start + m) =~= pat@);
    true
}

/// The position of the first occurrence of `pat` (not empty) in `s`.
pub fn find_chars(s: &[char], pat: &[char]) -> (r: Option<usize>)
    requires
        pat@.len() > 0,
    ensures
        match r {
            Some(i) => i + pat@.len() <= s@.len() && find_str(s@, pat@) == Some(i as int),
            None => find_str(s@, pat@) is None,
        },
{
    let n = s.len();
    let m = pat.len();
    for i in 0..n
        invariant
            n == s@.len(),
            m == pat@.len(),
            m > 0,
            find_str(s@.take(i as int), pat@) is None,
    {
        let ghost t = s@.take(i + 1);
        assert(t.drop_last() =~= s@.take(i as int));
        if i + 1 >= m {
            let start = i + 1 - m;
            assert(t.subrange(t.len() - m, t.len() as int) =~= s@.subrange(start as int, start + m));
            if window_equals(s, start, pat) {
                proof {
                    lemma_find_str_prefix(s@, i + 1, pat@);
                }
                return Some(start);
            }
        }
    }
    assert(s@.take(n as int) =~= s@);
    None
}

/// `s` without its leading and trailing `"` characters
/// (`str::trim_matches('"')`).
pub open spec fn trim_quotes(s: Seq<char>) -> Seq<char>
    decreases s.len(),
{
    if s.len() > 0 && s[0] == '"' {
        trim_quotes(s.skip(1))
    } else if s.len() > 0 && s.last() == '"' {
        trim_quotes(s.drop_last())
    } else {
        s
    }
}

/// Removes the leading and trailing `"` characters of `s`.
pub fn trim_quote_chars(s: &[char]) -> (r: Vec<char>)
    ensures
        r@ == trim_quotes(s@),
{
    let n = s.len();
    let mut start: usize = 0;
    let mut end: usize = n;
    assert(s@.subrange(0, n as int) =~= s@);
    while start < end && s[start] == '"'
        invariant
            start <= end == n == s@.len(),
            trim_quotes(s@) == trim_quotes(s@.subrange(start as int, end as int)),
        decreases end - start,
    {
        assert(s@.subrange(start as int, end as int).skip(1) =~= s@.subrange(start + 1, end as int));
        start = start + 1;
    }
    while start < end && s[end - 1] == '"'
        invariant
            start <= end <= n == s@.len(),
            start < end ==> s@[start as int] != '"',
            trim_quotes(s@) == trim_quotes(s@.subrange(start as int, end as int)),
        decreases end - start,
    {
        let ghost sub = s@.subrange(start as int, end as int);
        assert(sub[0] == s@[start as int]);
        assert(sub.drop_last() =~= s@.subrange(start as int, end - 1));
        end = end - 1;
    }
    let ghost sub = s@.subrange(start as int, end as int);
    assert(start < end ==> sub[0] == s@[start as int] && sub.last() == s@[end - 1]);
    let mut r: Vec<char> = Vec::new();
    for i in start..end
        invariant
            start <= end <= n == s@.len(),
            r@ == s@.subrange(start as int, i as int),
    {
        r.push(s[i]);
        assert(s@.subrange(start as int, i + 1) =~= s@.subrange(start as int, i as int).push(
            s@[i as int],
        ));
    }
    r
}

/// A string without whitespace is one open word.
pub proof fn lemma_words_fold_without_whitespace(x: Seq<char>)
    requires
        forall|i: int| 0 <= i < x.len() ==> !is_whitespace(#[trigger] x[i]),
    ensures
        words_fold(x) == (Seq::<Seq<char>>::empty(), x),
    decreases x.len(),
{
    if x.len() > 0 {
        assert(forall|i: int| 0 <= i < x.drop_last().len() ==> x.drop_last()[i] == x[i]);
        lemma_words_fold_without_whitespace(x.drop_last());
        assert(x.drop_last().push(x.last()) =~= x);
    }
}

/// After a whitespace character the words start afresh: the words of `x`
/// come first, then those of `y`.
pub proof fn lemma_words_fold_after_whitespace(x: Seq<char>, w: char, y: Seq<char>)
    requires
        is_whitespace(w),
    ensures
        words_fold(x.push(w) + y) == (words(x) + words_fold(y).0, words_fold(y).1),
    decreases y.len(),
{
    if y.len() == 0 {
        assert(x.push(w) + y =~= x.push(w));
        assert(x.push(w).drop_last() =~= x);
        assert(words(x) + Seq::<Seq<char>>::empty() =~= words(x));
    } else {
        lemma_words_fold_after_whitespace(x, w, y.drop_last());
        assert((x.push(w) + y).drop_last() =~= x.push(w) + y.drop_last());
        assert((x.push(w) + y).last() == y.last());
        let (d, c) = words_fold(y.drop_last());
        assert(words(x) + d.push(c) =~= (words(x) + d).push(c));
    }
}

/// The first `c` after a prefix without `c`.
pub proof fn lemma_first_index_after(a: Seq<char>, c: char, b: Seq<char>)
    requires
        !a.contains(c),
    ensures
        first_index(a.push(c) + b, c) == Some(a.len() as int),
    decreases b.len(),
{
    if b.len() == 0 {
        assert(a.push(c) + b =~= a.push(c));
        lemma_first_index_none(a, c);
        assert(a.push(c).drop_last() =~= a);
    } else {
        lemma_first_index_after(a, c, b.drop_last());
        assert((a.push(c) + b).drop_last() =~= a.push(c) + b.drop_last());
    }
}

/// A string without `c` has no first `c`.
pub proof fn lemma_first_index_none(a: Seq<char>, c: char)
    requires
        !a.contains(c),
    ensures
        first_index(a, c) is None,
    decreases a.len(),
{
    if a.len() > 0 {
        assert(!a.drop_last().contains(c)) by {
            if a.drop_last().contains(c) {
                let j = choose|j: int| 0 <= j < a.drop_last().len() && a.drop_last()[j] == c;
                assert(a[j] == c);
            }
        }
        lemma_first_index_none(a.drop_last(), c);
        assert(a[a.len() - 1] != c);
    }
}

/// A position that `find_str` gives is one where `pat` occurs.
pub proof fn lemma_find_str_occurs(s: Seq<char>, pat: Seq<char>)
    ensures
        find_str(s, pat) matches Some(i) ==> 0 <= i && i + pat.len() <= s.len() && s.subrange(
            i,
            i + pat.len(),
        ) == pat,
    decreases s.len(),
{
    if s.len() >= pat.len() && pat.len() > 0 {
        lemma_find_str_occurs(s.drop_last(), pat);
        if let Some(i) = find_str(s.drop_last(), pat) {
            assert(s.drop_last().subrange(i, i + pat.len()) =~= s.subrange(i, i + pat.len()));
        }
    }
}

proof fn lemma_find_str_none_before(s: Seq<char>, pat: Seq<char>, start: int, k: int)
    requires
        pat.len() > 0,
        0 <= start,
        0 <= k <= s.len(),
        k <= start + pat.len() - 1,
        forall|i: int| 0 <= i < start && i < s.len() ==> s[i] != pat[0],
    ensures
        find_str(s.take(k), pat) is None,
    decreases k,
{
    if k >= pat.len() {
        lemma_find_str_none_before(s, pat, start, k - 1);
        assert(s.take(k).drop_last() =~= s.take(k - 1));
        let w = s.take(k).subrange(k - pat.len(), k as int);
        assert(w[0] == s[k - pat.len()]);
    }
}

/// In `a + pat + b`, where no character of `a` starts `pat`, the first
/// occurrence of `pat` is the one right after `a`.
pub proof fn lemma_find_str_after(a: Seq<char>, pat: Seq<char>, b: Seq<char>)
    requires
        pat.len() > 0,
        forall|i: int| 0 <= i < a.len() ==> a[i] != pat[0],
    ensures
        find_str(a + pat + b, pat) == Some(a.len() as int),
{
    let s = a + pat + b;
    let k: int = (a.len() + pat.len()) as int;
    assert forall|i: int| 0 <= i < a.len() && i < s.len() implies s[i] != pat[0] by {
        assert(s[i] == a[i]);
    }
    lemma_find_str_none_before(s, pat, a.len() as int, k - 1);
    assert(s.take(k).drop_last() =~= s.take(k - 1));
    assert(s.take(k).subrange(a.len() as int, k) =~= pat);
    lemma_find_str_prefix(s, k, pat);
}

/// A string without the last character of `pat` holds no `pat`.
pub proof fn lemma_find_str_missing_char(s: Seq<char>, pat: Seq<char>)
    requires
        pat.len() > 0,
        !s.contains(pat.last()),
    ensures
        find_str(s, pat) is None,
{
    lemma_find_str_occurs(s, pat);
    if let Some(i) = find_str(s, pat) {
        assert(s.subrange(i, i + pat.len())[pat.len() - 1] == s[i + pat.len() - 1]);
        assert(s[i + pat.len() - 1] == pat.last());
    }
}

/// Text without `"` is left as it is by `trim_quotes`, and so is its
/// content when it stands between two `"`.
pub proof fn lemma_trim_quotes_of_plain(name: Seq<char>)
    requires
        !name.contains('"'),
    ensures
        trim_quotes(name) == name,
        trim_quotes(seq!['"'] + name + seq!['"']) == name,
{
    if name.len() > 0 {
        assert(name[0] != '"');
        assert(name[name.len() - 1] != '"');
    }
    let q = seq!['"'] + name + seq!['"'];
    assert(q[0] == '"');
    assert(q.skip(1) =~= name.push('"'));
    assert(name.push('"').last() == '"');
    assert(name.push('"').drop_last() =~= name);
    assert(trim_quotes(name) == name);
    let t = name.push('"');
    if name.len() > 0 {
        assert(t[0] == name[0]);
        assert(trim_quotes(t) == trim_quotes(t.drop_last()));
    } else {
        assert(t.skip(1) =~= Seq::<char>::empty());
        assert(trim_quotes(t) == trim_quotes(t.skip(1)));
    }
    assert(trim_quotes(q) == trim_quotes(q.skip(1)));
}

} // verus!
