//! Character sequences: conversion from and to strings, character classes,
//! substring search, runs of a class at either end, trimming and splitting.
//!
//! Every position in this module counts characters, not bytes.

use vstd::prelude::*;
use vstd::slice::slice_to_vec;

verus! {

/// Whether `c` belongs to the Unicode general categories for numbers
/// (Nd, Nl and No), as the standard library decides it.
pub uninterp spec fn unicode_numeric(c: char) -> bool;

/// `char::is_numeric` of the standard library. Its answer depends on the
/// character alone and is taken from the Unicode tables that the standard
/// library carries; the contract only gives that answer its name,
/// `unicode_numeric`.
pub assume_specification[ char::is_numeric ](c: char) -> (r: bool)
    ensures
        r == unicode_numeric(c),
;

/// `String::push` of the standard library appends one character to the end of
/// the string and leaves the characters before it as they were.
pub assume_specification[ String::push ](s: &mut String, c: char)
    ensures
        final(s)@ == old(s)@.push(c),
;

/// The classes of characters that the scanners in this crate skip over.
#[derive(Clone, Copy, Debug, PartialEq, Eq)]
pub enum CharClass {
    /// Characters with the Unicode property `White_Space`.
    Space,
    /// The colon.
    Colon,
    /// What may stand in the text of an integer: numeric characters, the
    /// space and the minus sign.
    IntegerText,
    /// What may stand in the text of a real number: numeric characters, the
    /// point, both signs and the letter `e`.
    RealText,
}

/// The code points with the Unicode property `White_Space`.
pub open spec fn is_space(c: char) -> bool {
    let n = c as u32;
    ||| 0x09 <= n <= 0x0D
    ||| n == 0x20
    ||| n == 0x85
    ||| n == 0xA0
    ||| n == 0x1680
    ||| 0x2000 <= n <= 0x200A
    ||| n == 0x2028
    ||| n == 0x2029
    ||| n == 0x202F
    ||| n == 0x205F
    ||| n == 0x3000
}

/// Decides `is_space`.
pub fn is_whitespace(c: char) -> (r: bool)
    ensures
        r == is_space(c),
{
    let n: u32 = c as u32;
    (0x09 <= n && n <= 0x0D) || n == 0x20 || n == 0x85 || n == 0xA0 || n == 0x1680 || (0x2000 <= n
        && n <= 0x200A) || n == 0x2028 || n == 0x2029 || n == 0x202F || n == 0x205F || n == 0x3000
}

impl CharClass {
    /// Membership of `c` in the class.
    pub open spec fn holds(self, c: char) -> bool {
        match self {
            CharClass::Space => is_space(c),
            CharClass::Colon => c == ':',
            CharClass::IntegerText => unicode_numeric(c) || c == ' ' || c == '-',
            CharClass::RealText => unicode_numeric(c) || c == '.' || c == '-' || c == 'e' || c
                == '+',
        }
    }

    /// Decides membership of `c` in the class.
    pub fn contains(self, c: char) -> (r: bool)
        ensures
            r == self.holds(c),
    {
        match self {
            CharClass::Space => is_whitespace(c),
            CharClass::Colon => c == ':',
            CharClass::IntegerText => c.is_numeric() || c == ' ' || c == '-',
            CharClass::RealText => c.is_numeric() || c == '.' || c == '-' || c == 'e' || c == '+',
        }
    }
}

/// Decodes a string slice into the vector of its characters.
pub fn chars_of(s: &str) -> (v: Vec<char>)
    ensures
        v@ == s@,
{
    let mut v: Vec<char> = Vec::new();
    for c in it: s.chars()
        invariant
            v@ == it.seq().take(it.index() as int),
            it.seq() == s@,
    {
        v.push(c);
    }
    v
}

/// Builds the string that holds the characters of `chars`, in their order.
pub fn string_of(chars: &[char]) -> (s: String)
    ensures
        s@ == chars@,
{
    let mut s = String::new();
    let mut i: usize = 0;
    while i < chars.len()
        invariant
            i <= chars.len(),
            s@ == chars@.take(i as int),
        decreases chars.len() - i,
    {
        s.push(chars[i]);
        i += 1;
    }
    s
}

/// Whether two slices hold the same characters.
pub fn same_text(a: &[char], b: &[char]) -> (r: bool)
    ensures
        r == (a@ == b@),
{
    if a.len() != b.len() {
        return false;
    }
    let mut i: usize = 0;
    while i < a.len()
        invariant
            i <= a.len(),
            a.len() == b.len(),
            a@.take(i as int) == b@.take(i as int),
        decreases a.len() - i,
    {
        if a[i] != b[i] {
            return false;
        }
        i += 1;
    }
    assert(a@ =~= a@.take(a.len() as int));
    assert(b@ =~= b@.take(b.len() as int));
    true
}

/// Whether `pat` stands in `s` at position `i`.
pub open spec fn occurs_at(s: Seq<char>, pat: Seq<char>, i: int) -> bool {
    &&& 0 <= i
    &&& i + pat.len() <= s.len()
    &&& s.subrange(i, i + pat.len()) == pat
}

/// Whether `pat` stands anywhere in `s`.
pub open spec fn occurs(s: Seq<char>, pat: Seq<char>) -> bool {
    exists|i: int| occurs_at(s, pat, i)
}

/// Whether `i` is the leftmost position at which `pat` stands in `s`.
pub open spec fn is_first_occurrence(s: Seq<char>, pat: Seq<char>, i: int) -> bool {
    &&& occurs_at(s, pat, i)
    &&& forall|j: int| j < i ==> !occurs_at(s, pat, j)
}

/// Whether `i` is the rightmost position at which `pat` stands in `s`.
pub open spec fn is_last_occurrence(s: Seq<char>, pat: Seq<char>, i: int) -> bool {
    &&& occurs_at(s, pat, i)
    &&& forall|j: int| i < j ==> !occurs_at(s, pat, j)
}

/// The leftmost position at which `pat` stands in `s`, if there is one.
pub open spec fn first_occurrence(s: Seq<char>, pat: Seq<char>) -> Option<int> {
    if occurs(s, pat) {
        Some(choose|i: int| is_first_occurrence(s, pat, i))
    } else {
        None
    }
}

/// The rightmost position at which `pat` stands in `s`, if there is one.
pub open spec fn last_occurrence(s: Seq<char>, pat: Seq<char>) -> Option<int> {
    if occurs(s, pat) {
        Some(choose|i: int| is_last_occurrence(s, pat, i))
    } else {
        None
    }
}

/// What `first_occurrence` returns is a leftmost occurrence, and it returns
/// nothing only where `pat` stands nowhere in `s`.
pub proof fn lemma_first_occurrence(s: Seq<char>, pat: Seq<char>)
    ensures
        match first_occurrence(s, pat) {
            Some(i) => is_first_occurrence(s, pat, i),
            None => forall|j: int| !occurs_at(s, pat, j),
        },
{
    if occurs(s, pat) {
        let w = choose|i: int| occurs_at(s, pat, i);
        lemma_least_occurrence(s, pat, w);
    }
}

/// Below any occurrence there is a leftmost one.
proof fn lemma_least_occurrence(s: Seq<char>, pat: Seq<char>, w: int)
    requires
        occurs_at(s, pat, w),
    ensures
        exists|i: int| is_first_occurrence(s, pat, i),
    decreases w,
{
    if exists|j: int| j < w && occurs_at(s, pat, j) {
        let j = choose|j: int| j < w && occurs_at(s, pat, j);
        lemma_least_occurrence(s, pat, j);
    } else {
        assert(is_first_occurrence(s, pat, w));
    }
}

/// Whether `pat` stands in `s` at position `i`.
pub fn matches_at(s: &[char], pat: &[char], i: usize) -> (r: bool)
    ensures
        r == occurs_at(s@, pat@, i as int),
{
    if pat.len() > s.len() || i > s.len() - pat.len() {
        return false;
    }
    let mut k: usize = 0;
    while k < pat.len()
        invariant
            k <= pat.len(),
            i + pat.len() <= s.len(),
            forall|j: int| 0 <= j < k ==> s@[i + j] == pat@[j],
        decreases pat.len() - k,
    {
        if s[i + k] != pat[k] {
            return false;
        }
        k += 1;
    }
    assert(s@.subrange(i as int, i + pat.len()) =~= pat@);
    true
}

/// The leftmost position at which `pat` stands in `s`.
pub fn find(s: &[char], pat: &[char]) -> (r: Option<usize>)
    ensures
        match r {
            Some(i) => is_first_occurrence(s@, pat@, i as int) && i + pat.len() <= s.len(),
            None => !occurs(s@, pat@),
        },
        match r {
            Some(i) => first_occurrence(s@, pat@) == Some(i as int),
            None => first_occurrence(s@, pat@) is None,
        },
{
    if pat.len() > s.len() {
        return None;
    }
    let last: usize = s.len() - pat.len();
    let mut i: usize = 0;
    loop
        invariant
            i <= last,
            last == s.len() - pat.len(),
            forall|j: int| j < i ==> !occurs_at(s@, pat@, j),
        decreases last - i,
    {
        if matches_at(s, pat, i) {
            return Some(i);
        }
        if i == last {
            return None;
        }
        i += 1;
    }
}

/// The rightmost position at which `pat` stands in `s`.
pub fn rfind(s: &[char], pat: &[char]) -> (r: Option<usize>)
    ensures
        match r {
            Some(i) => is_last_occurrence(s@, pat@, i as int) && i + pat.len() <= s.len(),
            None => !occurs(s@, pat@),
        },
        match r {
            Some(i) => last_occurrence(s@, pat@) == Some(i as int),
            None => last_occurrence(s@, pat@) is None,
        },
{
    if pat.len() > s.len() {
        return None;
    }
    let mut i: usize = s.len() - pat.len();
    loop
        invariant
            i <= s.len() - pat.len(),
            pat.len() <= s.len(),
            forall|j: int| i < j ==> !occurs_at(s@, pat@, j),
        decreases i,
    {
        if matches_at(s, pat, i) {
            return Some(i);
        }
        if i == 0 {
            return None;
        }
        i -= 1;
    }
}

/// Whether `pat` stands anywhere in `s`.
pub fn contains(s: &[char], pat: &[char]) -> (r: bool)
    ensures
        r == occurs(s@, pat@),
{
    find(s, pat).is_some()
}

/// The length of the longest prefix of `s` made of characters of `class`.
pub open spec fn leading(s: Seq<char>, class: CharClass) -> nat
    decreases s.len(),
{
    if s.len() > 0 && class.holds(s[0]) {
        1 + leading(s.skip(1), class)
    } else {
        0
    }
}

/// The length of the longest suffix of `s` made of characters of `class`.
pub open spec fn trailing(s: Seq<char>, class: CharClass) -> nat
    decreases s.len(),
{
    if s.len() > 0 && class.holds(s.last()) {
        1 + trailing(s.drop_last(), class)
    } else {
        0
    }
}

/// `leading(s, class)` is the one length `n` such that the first `n`
/// characters of `s` belong to `class` and the next one, if any, does not.
pub proof fn lemma_leading(s: Seq<char>, class: CharClass)
    ensures
        leading(s, class) <= s.len(),
        forall|i: int| 0 <= i < leading(s, class) ==> class.holds(#[trigger] s[i]),
        leading(s, class) < s.len() ==> !class.holds(s[leading(s, class) as int]),
    decreases s.len(),
{
    if s.len() > 0 && class.holds(s[0]) {
        let t = s.skip(1);
        lemma_leading(t, class);
        assert forall|i: int| 0 <= i < leading(s, class) implies class.holds(#[trigger] s[i]) by {
            if i > 0 {
                assert(s[i] == t[i - 1]);
            }
        }
    }
}

/// `trailing(s, class)` is the one length `n` such that the last `n`
/// characters of `s` belong to `class` and the one before them, if any, does
/// not.
pub proof fn lemma_trailing(s: Seq<char>, class: CharClass)
    ensures
        trailing(s, class) <= s.len(),
        forall|i: int| s.len() - trailing(s, class) <= i < s.len() ==> class.holds(#[trigger] s[i]),
        trailing(s, class) < s.len() ==> !class.holds(s[s.len() - trailing(s, class) - 1]),
    decreases s.len(),
{
    if s.len() > 0 && class.holds(s.last()) {
        let t = s.drop_last();
        lemma_trailing(t, class);
        assert forall|i: int| s.len() - trailing(s, class) <= i < s.len() implies class.holds(
            #[trigger] s[i],
        ) by {
            if i < s.len() - 1 {
                assert(s[i] == t[i]);
            }
        }
    }
}

/// `s` without its longest prefix in `class`.
pub open spec fn without_leading(s: Seq<char>, class: CharClass) -> Seq<char> {
    s.skip(leading(s, class) as int)
}

/// `s` without its longest suffix in `class`.
pub open spec fn without_trailing(s: Seq<char>, class: CharClass) -> Seq<char> {
    s.take(s.len() - trailing(s, class))
}

/// The longest prefix of `s` in `class`.
pub open spec fn prefix_in(s: Seq<char>, class: CharClass) -> Seq<char> {
    s.take(leading(s, class) as int)
}

/// `s` without the white space at its start.
pub open spec fn trimmed_start(s: Seq<char>) -> Seq<char> {
    without_leading(s, CharClass::Space)
}

/// `s` without the white space at its start and at its end.
pub open spec fn trimmed(s: Seq<char>) -> Seq<char> {
    without_trailing(without_leading(s, CharClass::Space), CharClass::Space)
}

/// Counts the characters of `class` at the start of `s`.
pub fn leading_run(s: &[char], class: CharClass) -> (n: usize)
    ensures
        n == leading(s@, class),
        n <= s.len(),
        forall|i: int| 0 <= i < n ==> class.holds(#[trigger] s@[i]),
        n < s.len() ==> !class.holds(s@[n as int]),
{
    let mut n: usize = 0;
    proof {
        lemma_leading(s@, class);
    }
    assert(s@.skip(0) =~= s@);
    while n < s.len() && class.contains(s[n])
        invariant
            n <= s.len(),
            leading(s@, class) == n + leading(s@.skip(n as int), class),
        decreases s.len() - n,
    {
        assert(s@.skip(n as int).skip(1) =~= s@.skip(n + 1));
        n += 1;
    }
    n
}

/// Counts the characters of `class` at the end of `s`.
pub fn trailing_run(s: &[char], class: CharClass) -> (n: usize)
    ensures
        n == trailing(s@, class),
        n <= s.len(),
        forall|i: int| s.len() - n <= i < s.len() ==> class.holds(#[trigger] s@[i]),
        n < s.len() ==> !class.holds(s@[s.len() - n - 1]),
{
    let mut n: usize = 0;
    proof {
        lemma_trailing(s@, class);
    }
    assert(s@.take(s.len() as int) =~= s@);
    while n < s.len() && class.contains(s[s.len() - 1 - n])
        invariant
            n <= s.len(),
            trailing(s@, class) == n + trailing(s@.take(s.len() - n), class),
        decreases s.len() - n,
    {
        assert(s@.take(s.len() - n).drop_last() =~= s@.take(s.len() - n - 1));
        n += 1;
    }
    n
}

/// Drops the longest prefix of `s` whose characters belong to `class`.
pub fn skip_leading<'a>(s: &'a [char], class: CharClass) -> (r: &'a [char])
    ensures
        r@ == without_leading(s@, class),
{
    let n = leading_run(s, class);
    &s[n..s.len()]
}

/// Drops the longest suffix of `s` whose characters belong to `class`.
pub fn skip_trailing<'a>(s: &'a [char], class: CharClass) -> (r: &'a [char])
    ensures
        r@ == without_trailing(s@, class),
{
    let n = trailing_run(s, class);
    &s[0..s.len() - n]
}

/// Keeps the longest prefix of `s` whose characters belong to `class`.
pub fn take_leading<'a>(s: &'a [char], class: CharClass) -> (r: &'a [char])
    ensures
        r@ == prefix_in(s@, class),
{
    let n = leading_run(s, class);
    &s[0..n]
}

/// Drops the white space at the start of `s`.
pub fn trim_start<'a>(s: &'a [char]) -> (r: &'a [char])
    ensures
        r@ == trimmed_start(s@),
{
    skip_leading(s, CharClass::Space)
}

/// Drops the white space at both ends of `s`.
pub fn trim<'a>(s: &'a [char]) -> (r: &'a [char])
    ensures
        r@ == trimmed(s@),
{
    skip_trailing(skip_leading(s, CharClass::Space), CharClass::Space)
}

/// The pieces that remain of `s` when every occurrence of `pat`, taken from
/// the left and without overlap, is cut out. An empty `pat` cuts nothing.
pub open spec fn pieces(s: Seq<char>, pat: Seq<char>) -> Seq<Seq<char>>
    decreases s.len(),
    via pieces_decreases
{
    match first_occurrence(s, pat) {
        Some(i) if pat.len() > 0 => seq![s.take(i)] + pieces(s.skip(i + pat.len()), pat),
        _ => seq![s],
    }
}

#[via_fn]
proof fn pieces_decreases(s: Seq<char>, pat: Seq<char>) {
    lemma_first_occurrence(s, pat);
}

/// The texts that a sequence of vectors holds.
pub open spec fn texts(parts: Seq<Vec<char>>) -> Seq<Seq<char>> {
    parts.map_values(|part: Vec<char>| part@)
}

/// Splits `s` at every occurrence of `pat`.
pub fn split(s: &[char], pat: &[char]) -> (parts: Vec<Vec<char>>)
    ensures
        texts(parts@) == pieces(s@, pat@),
{
    let mut parts: Vec<Vec<char>> = Vec::new();
    let mut rest: &[char] = s;
    loop
        invariant
            texts(parts@) + pieces(rest@, pat@) == pieces(s@, pat@),
        decreases rest.len(),
    {
        let found = if pat.len() > 0 {
            find(rest, pat)
        } else {
            None
        };
        match found {
            Some(i) => {
                parts.push(slice_to_vec(&rest[0..i]));
                rest = &rest[i + pat.len()..rest.len()];
            },
            None => {
                parts.push(slice_to_vec(rest));
                return parts;
            },
        }
    }
}

} // verus!
