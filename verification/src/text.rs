//! Character-level building blocks: conversion between strings and character
//! vectors, lexicographic comparison, substring search and decimal digits.

use vstd::prelude::*;
use vstd::string::*;

verus! {

/// `String::push` of the standard library appends one character to the end of
/// the string and leaves the characters before it as they were.
pub assume_specification[ String::push ](s: &mut String, ch: char)
    ensures
        final(s)@ == old(s)@.push(ch),
;

/// The characters of `s`, in order.
pub fn chars_of(s: &str) -> (v: Vec<char>)
    ensures
        v@ == s@,
{
    let mut v: Vec<char> = Vec::new();
    for c in it: s.chars()
        invariant
            v@ == it.seq().take(it.index() as int),
            it.seq() == s@,
    {
        v.push(c);
    }
    v
}

/// Appends `v[from..to]` to `s`.
pub fn push_chars(s: &mut String, v: &Vec<char>, from: usize, to: usize)
    requires
        from <= to <= v.len(),
    ensures
        final(s)@ == old(s)@ + v@.subrange(from as int, to as int),
{
    let mut i: usize = from;
    while i < to
        invariant
            from <= i <= to <= v.len(),
            s@ == old(s)@ + v@.subrange(from as int, i as int),
        decreases to - i,
    {
        s.push(v[i]);
        i += 1;
    }
}

/// The string made of `v[from..to]`.
pub fn string_of_range(v: &Vec<char>, from: usize, to: usize) -> (s: String)
    requires
        from <= to <= v.len(),
    ensures
        s@ == v@.subrange(from as int, to as int),
{
    let mut s = String::new();
    push_chars(&mut s, v, from, to);
    s
}

/// The string made of the characters of `v`.
pub fn string_of(v: &Vec<char>) -> (s: String)
    ensures
        s@ == v@,
{
    string_of_range(v, 0, v.len())
}

/// Where one value stands relative to another in an order.
#[derive(Clone, Copy, Debug, PartialEq, Eq, Structural)]
pub enum Rank {
    Before,
    Same,
    After,
}

impl Rank {
    /// The rank seen from the other side.
    pub open spec fn flip(self) -> Rank {
        match self {
            Rank::Before => Rank::After,
            Rank::Same => Rank::Same,
            Rank::After => Rank::Before,
        }
    }

    /// `self` unless it is `Same`, in which case `next` decides.
    pub open spec fn or_else(self, next: Rank) -> Rank {
        if self == Rank::Same {
            next
        } else {
            self
        }
    }
}

/// Rank of two lengths or numbers.
pub open spec fn rank_of_ints(a: int, b: int) -> Rank {
    if a < b {
        Rank::Before
    } else if a == b {
        Rank::Same
    } else {
        Rank::After
    }
}

/// Lexicographic rank of `a` against `b`, reading both from index `i` on:
/// the first position where they differ decides; if there is none, the
/// shorter text comes first.
pub open spec fn text_rank_from(a: Seq<char>, b: Seq<char>, i: int) -> Rank
    decreases a.len() - i,
{
    if i < 0 || i >= a.len() || i >= b.len() {
        rank_of_ints(a.len() as int, b.len() as int)
    } else if a[i] != b[i] {
        rank_of_ints(a[i] as int, b[i] as int)
    } else {
        text_rank_from(a, b, i + 1)
    }
}

/// Lexicographic rank of `a` against `b`, character by character.
pub open spec fn text_rank(a: Seq<char>, b: Seq<char>) -> Rank {
    text_rank_from(a, b, 0)
}

/// Swapping the two texts flips the rank from any index on.
proof fn lemma_text_rank_from_flip(a: Seq<char>, b: Seq<char>, i: int)
    ensures
        text_rank_from(b, a, i) == text_rank_from(a, b, i).flip(),
    decreases a.len() - i,
{
    if !(i < 0 || i >= a.len() || i >= b.len()) && a[i] == b[i] {
        lemma_text_rank_from_flip(a, b, i + 1);
    }
}

/// Two texts rank the same from an index on exactly when they are equally
/// long and agree from there on.
proof fn lemma_text_rank_from_same(a: Seq<char>, b: Seq<char>, i: int)
    requires
        0 <= i,
    ensures
        text_rank_from(a, b, i) == Rank::Same <==> (a.len() == b.len() && forall|j: int|
            i <= j < a.len() ==> a[j] == b[j]),
    decreases a.len() - i,
{
    if !(i >= a.len() || i >= b.len()) && a[i] == b[i] {
        lemma_text_rank_from_same(a, b, i + 1);
    }
}

/// "Not after" is transitive from any index on.
proof fn lemma_text_rank_from_trans(a: Seq<char>, b: Seq<char>, c: Seq<char>, i: int)
    requires
        0 <= i,
        text_rank_from(a, b, i) != Rank::After,
        text_rank_from(b, c, i) != Rank::After,
    ensures
        text_rank_from(a, c, i) != Rank::After,
        text_rank_from(a, c, i) == Rank::Same ==> text_rank_from(a, b, i) == Rank::Same
            && text_rank_from(b, c, i) == Rank::Same,
    decreases a.len() - i,
{
    if i < a.len() && i < b.len() && i < c.len() && a[i] == b[i] && b[i] == c[i] {
        lemma_text_rank_from_trans(a, b, c, i + 1);
    }
}

/// Swapping the two texts flips the rank.
pub proof fn lemma_text_rank_flip(a: Seq<char>, b: Seq<char>)
    ensures
        text_rank(b, a) == text_rank(a, b).flip(),
{
    lemma_text_rank_from_flip(a, b, 0);
}

/// Two texts rank the same exactly when they are equal.
pub proof fn lemma_text_rank_same(a: Seq<char>, b: Seq<char>)
    ensures
        text_rank(a, b) == Rank::Same <==> a == b,
{
    lemma_text_rank_from_same(a, b, 0);
    if text_rank(a, b) == Rank::Same {
        assert(a =~= b);
    }
}

/// "Not after" is transitive, and the ends rank the same only if all three do.
pub proof fn lemma_text_rank_trans(a: Seq<char>, b: Seq<char>, c: Seq<char>)
    requires
        text_rank(a, b) != Rank::After,
        text_rank(b, c) != Rank::After,
    ensures
        text_rank(a, c) != Rank::After,
        text_rank(a, c) == Rank::Same ==> text_rank(a, b) == Rank::Same && text_rank(b, c)
            == Rank::Same,
{
    lemma_text_rank_from_trans(a, b, c, 0);
}

/// Ranks two character vectors lexicographically.
pub fn rank_chars(a: &Vec<char>, b: &Vec<char>) -> (r: Rank)
    ensures
        r == text_rank(a@, b@),
{
    let mut i: usize = 0;
    while i < a.len() && i < b.len()
        invariant
            i <= a.len(),
            i <= b.len(),
            text_rank_from(a@, b@, i as int) == text_rank(a@, b@),
        decreases a.len() - i,
    {
        if a[i] < b[i] {
            return Rank::Before;
        }
        if a[i] > b[i] {
            return Rank::After;
        }
        i += 1;
    }
    if a.len() < b.len() {
        Rank::Before
    } else if a.len() == b.len() {
        Rank::Same
    } else {
        Rank::After
    }
}

/// Ranks two strings lexicographically by their characters.
pub fn rank_text(a: &str, b: &str) -> (r: Rank)
    ensures
        r == text_rank(a@, b@),
{
    let av = chars_of(a);
    let bv = chars_of(b);
    rank_chars(&av, &bv)
}

/// Whether `needle` occurs in `hay` starting at index `at`.
pub open spec fn occurs_at(hay: Seq<char>, needle: Seq<char>, at: int) -> bool {
    0 <= at && at + needle.len() <= hay.len() && hay.subrange(at, at + needle.len()) == needle
}

/// Whether `needle` occurs somewhere in `hay` as a run of consecutive characters.
pub open spec fn text_contains(hay: Seq<char>, needle: Seq<char>) -> bool {
    exists|at: int| occurs_at(hay, needle, at)
}

/// Tests whether `needle` occurs in `hay` at index `at`.
fn occurs_at_index(hay: &Vec<char>, needle: &Vec<char>, at: usize) -> (b: bool)
    requires
        at + needle.len() <= hay.len(),
    ensures
        b == occurs_at(hay@, needle@, at as int),
{
    let mut j: usize = 0;
    while j < needle.len()
        invariant
            j <= needle.len(),
            at + needle.len() <= hay.len(),
            forall|k: int| 0 <= k < j ==> hay@[at + k] == needle@[k],
        decreases needle.len() - j,
    {
        if hay[at + j] != needle[j] {
            assert(hay@.subrange(at as int, at + needle.len())[j as int] == hay@[at + j]);
            return false;
        }
        j += 1;
    }
    assert(hay@.subrange(at as int, at + needle.len()) =~= needle@);
    true
}

/// Tests whether `needle` occurs in `hay`.
pub fn contains_chars(hay: &Vec<char>, needle: &Vec<char>) -> (b: bool)
    ensures
        b == text_contains(hay@, needle@),
{
    if needle.len() > hay.len() {
        return false;
    }
    let last: usize = hay.len() - needle.len();
    let mut at: usize = 0;
    while at < last
        invariant
            needle.len() <= hay.len(),
            last == hay.len() - needle.len(),
            at <= last,
            forall|k: int| 0 <= k < at ==> !occurs_at(hay@, needle@, k),
        decreases last - at,
    {
        if occurs_at_index(hay, needle, at) {
            return true;
        }
        at += 1;
    }
    occurs_at_index(hay, needle, last)
}

/// Tests whether `needle` occurs in `hay`.
pub fn contains_text(hay: &str, needle: &str) -> (b: bool)
    ensures
        b == text_contains(hay@, needle@),
{
    let h = chars_of(hay);
    let n = chars_of(needle);
    contains_chars(&h, &n)
}


/// Whether `c` is a decimal digit.
pub open spec fn is_digit(c: char) -> bool {
    '0' <= c && c <= '9'
}

/// The number that the decimal digit `c` stands for.
pub open spec fn digit_value(c: char) -> nat
    recommends
        is_digit(c),
{
    (c as int - '0' as int) as nat
}

/// The decimal digit that stands for `d`.
pub open spec fn digit_char(d: nat) -> char
    recommends
        d < 10,
{
    ('0' as int + d) as char
}

/// The decimal digits of `n`, most significant first, without leading zeros.
pub open spec fn decimal(n: nat) -> Seq<char>
    decreases n,
{
    if n < 10 {
        seq![digit_char(n)]
    } else {
        decimal(n / 10).push(digit_char(n % 10))
    }
}

/// The number that a run of decimal digits stands for.
pub open spec fn number_of(digits: Seq<char>) -> nat
    decreases digits.len(),
{
    if digits.len() == 0 {
        0
    } else {
        10 * number_of(digits.drop_last()) + digit_value(digits.last())
    }
}

/// Reading the digits of a number gives the number back; a number of four or
/// more digits is at least 1000.
pub proof fn lemma_number_of_decimal(n: nat)
    ensures
        number_of(decimal(n)) == n,
        decimal(n).len() >= 1,
        n >= 1000 ==> decimal(n).len() >= 4,
        forall|i: int| 0 <= i < decimal(n).len() ==> is_digit(#[trigger] decimal(n)[i]),
    decreases n,
{
    if n < 10 {
        assert(decimal(n).drop_last() =~= Seq::<char>::empty());
        assert(number_of(decimal(n)) == n) by {
            reveal_with_fuel(number_of, 2);
        }
    } else {
        lemma_number_of_decimal(n / 10);
        assert(decimal(n).drop_last() =~= decimal(n / 10));
        if n >= 1000 {
            if n / 10 < 1000 {
                lemma_number_of_decimal(n / 100);
                assert(decimal(n / 10).drop_last() =~= decimal(n / 100));
                assert(decimal(n / 100).drop_last() =~= decimal(n / 1000));
                lemma_number_of_decimal(n / 1000);
                assert(n / 10 >= 100);
                assert(n / 10 / 10 == n / 100);
                assert(n / 100 / 10 == n / 1000);
            }
        }
    }
}

/// The value of a decimal digit, or `None` for any other character.
pub fn digit_of(c: char) -> (r: Option<u32>)
    ensures
        r == (if is_digit(c) {
            Some(digit_value(c) as u32)
        } else {
            None
        }),
{
    if c >= '0' && c <= '9' {
        Some(c as u32 - '0' as u32)
    } else {
        None
    }
}

/// The decimal digit for `d`.
pub fn char_of_digit(d: u32) -> (c: char)
    requires
        d < 10,
    ensures
        c == digit_char(d as nat),
{
    if d == 0 {
        '0'
    } else if d == 1 {
        '1'
    } else if d == 2 {
        '2'
    } else if d == 3 {
        '3'
    } else if d == 4 {
        '4'
    } else if d == 5 {
        '5'
    } else if d == 6 {
        '6'
    } else if d == 7 {
        '7'
    } else if d == 8 {
        '8'
    } else {
        '9'
    }
}

/// Appends the decimal digits of `n` to `s`.
pub fn push_decimal(s: &mut String, n: u32)
    ensures
        final(s)@ == old(s)@ + decimal(n as nat),
    decreases n,
{
    if n >= 10 {
        push_decimal(s, n / 10);
    }
    s.push(char_of_digit(n % 10));
    assert(final(s)@ =~= old(s)@ + decimal(n as nat));
}

/// The texts that a list of strings holds.
pub open spec fn texts(v: Seq<String>) -> Seq<Seq<char>> {
    v.map_values(|s: String| s@)
}

/// Lexicographic rank of two lists of texts, reading both from index `i` on:
/// the first position where the texts differ decides; if there is none, the
/// shorter list comes first.
pub open spec fn list_rank_from(a: Seq<Seq<char>>, b: Seq<Seq<char>>, i: int) -> Rank
    decreases a.len() - i,
{
    if i < 0 || i >= a.len() || i >= b.len() {
        rank_of_ints(a.len() as int, b.len() as int)
    } else if text_rank(a[i], b[i]) != Rank::Same {
        text_rank(a[i], b[i])
    } else {
        list_rank_from(a, b, i + 1)
    }
}

/// Lexicographic rank of two lists of texts.
pub open spec fn list_rank(a: Seq<Seq<char>>, b: Seq<Seq<char>>) -> Rank {
    list_rank_from(a, b, 0)
}

/// Swapping the two lists flips the rank from any index on.
proof fn lemma_list_rank_from_flip(a: Seq<Seq<char>>, b: Seq<Seq<char>>, i: int)
    ensures
        list_rank_from(b, a, i) == list_rank_from(a, b, i).flip(),
    decreases a.len() - i,
{
    if !(i < 0 || i >= a.len() || i >= b.len()) {
        lemma_text_rank_flip(a[i], b[i]);
        if text_rank(a[i], b[i]) == Rank::Same {
            lemma_list_rank_from_flip(a, b, i + 1);
        }
    }
}

/// Two lists rank the same from an index on exactly when they are equally
/// long and agree from there on.
proof fn lemma_list_rank_from_same(a: Seq<Seq<char>>, b: Seq<Seq<char>>, i: int)
    requires
        0 <= i,
    ensures
        list_rank_from(a, b, i) == Rank::Same <==> (a.len() == b.len() && forall|j: int|
            i <= j < a.len() ==> a[j] == b[j]),
    decreases a.len() - i,
{
    if !(i >= a.len() || i >= b.len()) {
        lemma_text_rank_same(a[i], b[i]);
        if text_rank(a[i], b[i]) == Rank::Same {
            lemma_list_rank_from_same(a, b, i + 1);
        }
    }
}

/// "Not after" is transitive on lists from any index on.
proof fn lemma_list_rank_from_trans(
    a: Seq<Seq<char>>,
    b: Seq<Seq<char>>,
    c: Seq<Seq<char>>,
    i: int,
)
    requires
        0 <= i,
        list_rank_from(a, b, i) != Rank::After,
        list_rank_from(b, c, i) != Rank::After,
    ensures
        list_rank_from(a, c, i) != Rank::After,
        list_rank_from(a, c, i) == Rank::Same ==> list_rank_from(a, b, i) == Rank::Same
            && list_rank_from(b, c, i) == Rank::Same,
    decreases a.len() - i,
{
    if i < a.len() && i < b.len() && i < c.len() {
        lemma_text_rank_trans(a[i], b[i], c[i]);
        if text_rank(a[i], b[i]) == Rank::Same && text_rank(b[i], c[i]) == Rank::Same {
            lemma_list_rank_from_trans(a, b, c, i + 1);
        }
    }
}

/// Swapping the two lists flips the rank.
pub proof fn lemma_list_rank_flip(a: Seq<Seq<char>>, b: Seq<Seq<char>>)
    ensures
        list_rank(b, a) == list_rank(a, b).flip(),
{
    lemma_list_rank_from_flip(a, b, 0);
}

/// Two lists rank the same exactly when they are equal.
pub proof fn lemma_list_rank_same(a: Seq<Seq<char>>, b: Seq<Seq<char>>)
    ensures
        list_rank(a, b) == Rank::Same <==> a == b,
{
    lemma_list_rank_from_same(a, b, 0);
    if list_rank(a, b) == Rank::Same {
        assert(a =~= b);
    }
}

/// "Not after" is transitive on lists, and the ends rank the same only if
/// all three do.
pub proof fn lemma_list_rank_trans(a: Seq<Seq<char>>, b: Seq<Seq<char>>, c: Seq<Seq<char>>)
    requires
        list_rank(a, b) != Rank::After,
        list_rank(b, c) != Rank::After,
    ensures
        list_rank(a, c) != Rank::After,
        list_rank(a, c) == Rank::Same ==> list_rank(a, b) == Rank::Same && list_rank(b, c)
            == Rank::Same,
{
    lemma_list_rank_from_trans(a, b, c, 0);
}

/// Ranks two lists of strings lexicographically.
pub fn rank_list(a: &Vec<String>, b: &Vec<String>) -> (r: Rank)
    ensures
        r == list_rank(texts(a@), texts(b@)),
{
    let mut i: usize = 0;
    while i < a.len() && i < b.len()
        invariant
            i <= a.len(),
            i <= b.len(),
            list_rank_from(texts(a@), texts(b@), i as int) == list_rank(texts(a@), texts(b@)),
        decreases a.len() - i,
    {
        let r = rank_text(a[i].as_str(), b[i].as_str());
        match r {
            Rank::Same => {},
            _ => {
                return r;
            },
        }
        i += 1;
    }
    if a.len() < b.len() {
        Rank::Before
    } else if a.len() == b.len() {
        Rank::Same
    } else {
        Rank::After
    }
}

/// Ranks two numbers.
pub fn rank_numbers(a: u32, b: u32) -> (r: Rank)
    ensures
        r == rank_of_ints(a as int, b as int),
{
    if a < b {
        Rank::Before
    } else if a == b {
        Rank::Same
    } else {
        Rank::After
    }
}

/// A copy of a list of strings.
pub fn copy_texts(v: &Vec<String>) -> (r: Vec<String>)
    ensures
        r@ == v@,
{
    let mut r: Vec<String> = Vec::new();
    let mut i: usize = 0;
    while i < v.len()
        invariant
            i <= v.len(),
            r@ == v@.take(i as int),
        decreases v.len() - i,
    {
        r.push(v[i].clone());
        i += 1;
    }
    assert(v@.take(v.len() as int) =~= v@);
    r
}

/// Whether the list holds the text.
pub fn list_contains(list: &Vec<String>, s: &str) -> (r: bool)
    ensures
        r == texts(list@).contains(s@),
{
    let mut i: usize = 0;
    while i < list.len()
        invariant
            i <= list.len(),
            forall|k: int| 0 <= k < i ==> texts(list@)[k] != s@,
        decreases list.len() - i,
    {
        assert(texts(list@)[i as int] == list@[i as int]@);
        if rank_text(list[i].as_str(), s) == Rank::Same {
            proof {
                lemma_text_rank_same(list@[i as int]@, s@);
            }
            return true;
        }
        proof {
            lemma_text_rank_same(list@[i as int]@, s@);
        }
        i += 1;
    }
    false
}

} // verus!
