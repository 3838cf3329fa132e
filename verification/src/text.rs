//! Character sequences: searching, trimming, splitting, and decimal and
//! hexadecimal numbers, over the characters of a string.

use vstd::prelude::*;
use vstd::slice::slice_subrange;
use vstd::string::StringExecFns;
use vstd::string::StringSliceAdditionalSpecFns;
use vstd::utf8::{encode_utf8, is_ascii_chars, valid_utf8};

verus! {

// ---------------------------------------------------------------------------
// Searching
// ---------------------------------------------------------------------------

/// `needle` stands in `hay` at position `i`.
pub open spec fn occurs_at(hay: Seq<char>, needle: Seq<char>, i: int) -> bool {
    &&& 0 <= i
    &&& i + needle.len() <= hay.len()
    &&& hay.subrange(i, i + needle.len()) == needle
}

/// `needle` stands somewhere in `hay`.
pub open spec fn contains(hay: Seq<char>, needle: Seq<char>) -> bool {
    exists|i: int| #[trigger] occurs_at(hay, needle, i)
}

/// `hay` begins with `needle`.
pub open spec fn starts_with(hay: Seq<char>, needle: Seq<char>) -> bool {
    occurs_at(hay, needle, 0)
}

/// One of `needles` stands somewhere in `hay`.
pub open spec fn contains_any(hay: Seq<char>, needles: Seq<Seq<char>>) -> bool {
    exists|k: int| 0 <= k < needles.len() && contains(hay, #[trigger] needles[k])
}

/// The characters of each string of a list.
pub open spec fn views(list: Seq<&str>) -> Seq<Seq<char>> {
    list.map_values(|s: &str| s@)
}

/// The characters of `s`, in order.
pub fn chars_of(s: &str) -> (r: Vec<char>)
    ensures
        r@ == s@,
{
    let mut v: Vec<char> = Vec::new();
    for c in it: s.chars()
        invariant
            v@ == it.seq().take(it.index()),
            it.seq() == s@,
    {
        v.push(c);
    }
    v
}

/// Whether two strings have the same characters.
pub fn same(a: &str, b: &str) -> (r: bool)
    ensures
        r == (a@ == b@),
{
    let x = chars_of(a);
    let y = chars_of(b);
    same_chars(x.as_slice(), y.as_slice())
}

/// Whether two slices hold the same characters.
pub fn same_chars(a: &[char], b: &[char]) -> (r: bool)
    ensures
        r == (a@ == b@),
{
    if a.len() != b.len() {
        return false;
    }
    let mut i: usize = 0;
    while i < a.len()
        invariant
            i <= a.len(),
            a.len() == b.len(),
            forall|j: int| 0 <= j < i ==> a@[j] == b@[j],
        decreases a.len() - i,
    {
        if a[i] != b[i] {
            return false;
        }
        i = i + 1;
    }
    assert(a@ =~= b@);
    true
}

/// Whether `needle` stands in `hay` at position `at`.
pub fn occurs(hay: &[char], needle: &[char], at: usize) -> (r: bool)
    ensures
        r == occurs_at(hay@, needle@, at as int),
{
    if needle.len() > hay.len() || at > hay.len() - needle.len() {
        return false;
    }
    let mut i: usize = 0;
    while i < needle.len()
        invariant
            i <= needle.len(),
            at + needle.len() <= hay.len(),
            forall|j: int| 0 <= j < i ==> hay@[at + j] == needle@[j],
        decreases needle.len() - i,
    {
        if hay[at + i] != needle[i] {
            assert(hay@.subrange(at as int, at + needle@.len())[i as int] != needle@[i as int]);
            return false;
        }
        i = i + 1;
    }
    assert(hay@.subrange(at as int, at + needle@.len()) =~= needle@);
    true
}

/// The first position at which `needle` stands in `hay`.
pub fn find(hay: &[char], needle: &[char]) -> (r: Option<usize>)
    ensures
        match r {
            Some(i) => occurs_at(hay@, needle@, i as int) && forall|j: int|
                0 <= j < i ==> !#[trigger] occurs_at(hay@, needle@, j),
            None => !contains(hay@, needle@),
        },
{
    let mut i: usize = 0;
    while i < hay.len()
        invariant
            i <= hay.len(),
            forall|j: int| 0 <= j < i ==> !#[trigger] occurs_at(hay@, needle@, j),
        decreases hay.len() - i,
    {
        if occurs(hay, needle, i) {
            return Some(i);
        }
        i = i + 1;
    }
    if occurs(hay, needle, i) {
        return Some(i);
    }
    None
}

/// Whether one of `needles` stands somewhere in `hay`.
pub fn has_any(hay: &[char], needles: &[&str]) -> (r: bool)
    ensures
        r == contains_any(hay@, views(needles@)),
{
    let mut k: usize = 0;
    while k < needles.len()
        invariant
            k <= needles.len(),
            forall|j: int| 0 <= j < k ==> !contains(hay@, #[trigger] views(needles@)[j]),
        decreases needles.len() - k,
    {
        let needle = chars_of(needles[k]);
        assert(views(needles@)[k as int] == needle@);
        if find(hay, needle.as_slice()).is_some() {
            return true;
        }
        k = k + 1;
    }
    false
}

/// Whether `s` is one of the strings of `list`.
pub fn is_one_of(s: &str, list: &[&str]) -> (r: bool)
    ensures
        r == views(list@).contains(s@),
{
    let mut k: usize = 0;
    while k < list.len()
        invariant
            k <= list.len(),
            forall|j: int| 0 <= j < k ==> s@ != #[trigger] views(list@)[j],
        decreases list.len() - k,
    {
        assert(views(list@)[k as int] == list@[k as int]@);
        if same(s, list[k]) {
            return true;
        }
        k = k + 1;
    }
    false
}

// ---------------------------------------------------------------------------
// Trimming
// ---------------------------------------------------------------------------

/// The characters with the Unicode property White_Space.
pub open spec fn is_space(c: char) -> bool {
    ||| '\u{9}' <= c <= '\u{d}'
    ||| c == ' '
    ||| c == '\u{85}'
    ||| c == '\u{a0}'
    ||| c == '\u{1680}'
    ||| '\u{2000}' <= c <= '\u{200a}'
    ||| c == '\u{2028}'
    ||| c == '\u{2029}'
    ||| c == '\u{202f}'
    ||| c == '\u{205f}'
    ||| c == '\u{3000}'
}

/// `s` without its leading white space.
pub open spec fn trim_start(s: Seq<char>) -> Seq<char>
    decreases s.len(),
{
    if s.len() > 0 && is_space(s[0]) {
        trim_start(s.skip(1))
    } else {
        s
    }
}

/// `s` without its trailing white space.
pub open spec fn trim_end(s: Seq<char>) -> Seq<char>
    decreases s.len(),
{
    if s.len() > 0 && is_space(s.last()) {
        trim_end(s.drop_last())
    } else {
        s
    }
}

/// `s` without white space at either end.
pub open spec fn trim(s: Seq<char>) -> Seq<char> {
    trim_end(trim_start(s))
}

pub(crate) fn space(c: char) -> (r: bool)
    ensures
        r == is_space(c),
{
    ('\u{9}' <= c && c <= '\u{d}') || c == ' ' || c == '\u{85}' || c == '\u{a0}' || c == '\u{1680}'
        || ('\u{2000}' <= c && c <= '\u{200a}') || c == '\u{2028}' || c == '\u{2029}'
        || c == '\u{202f}' || c == '\u{205f}' || c == '\u{3000}'
}

/// `s` without white space at either end.
pub fn trimmed(s: &[char]) -> (r: &[char])
    ensures
        r@ == trim(s@),
{
    let mut lo: usize = 0;
    assert(s@.skip(0) =~= s@);
    while lo < s.len() && space(s[lo])
        invariant
            lo <= s.len(),
            trim_start(s@) == trim_start(s@.skip(lo as int)),
        decreases s.len() - lo,
    {
        assert(s@.skip(lo as int).skip(1) =~= s@.skip(lo + 1));
        lo = lo + 1;
    }
    assert(trim_start(s@) == s@.skip(lo as int));
    let mut hi: usize = s.len();
    assert(s@.subrange(lo as int, hi as int) =~= s@.skip(lo as int));
    while hi > lo && space(s[hi - 1])
        invariant
            lo <= hi <= s.len(),
            trim(s@) == trim_end(s@.subrange(lo as int, hi as int)),
        decreases hi,
    {
        assert(s@.subrange(lo as int, hi as int).drop_last() =~= s@.subrange(lo as int, hi - 1));
        hi = hi - 1;
    }
    slice_subrange(s, lo, hi)
}

// ---------------------------------------------------------------------------
// Splitting
// ---------------------------------------------------------------------------

/// The position of the first `sep` in `s`, or the length of `s`.
pub open spec fn cut<T>(s: Seq<T>, sep: T) -> nat
    decreases s.len(),
{
    if s.len() == 0 || s[0] == sep {
        0
    } else {
        1 + cut(s.skip(1), sep)
    }
}

/// The pieces of `s` between the occurrences of `sep`.
pub open spec fn split<T>(s: Seq<T>, sep: T) -> Seq<Seq<T>>
    decreases s.len(),
{
    if cut(s, sep) >= s.len() {
        seq![s]
    } else {
        seq![s.take(cut(s, sep) as int)] + split(s.skip(cut(s, sep) as int + 1), sep)
    }
}

/// `cut` finds the first separator.
pub proof fn lemma_cut<T>(s: Seq<T>, sep: T)
    ensures
        cut(s, sep) <= s.len(),
        forall|i: int| 0 <= i < cut(s, sep) ==> s[i] != sep,
        cut(s, sep) < s.len() ==> s[cut(s, sep) as int] == sep,
    decreases s.len(),
{
    if s.len() > 0 && s[0] != sep {
        lemma_cut(s.skip(1), sep);
        assert forall|i: int| 0 <= i < cut(s, sep) implies s[i] != sep by {
            if i > 0 {
                assert(s[i] == s.skip(1)[i - 1]);
            }
        }
    }
}

/// What the first separator is determines `cut`.
pub proof fn lemma_cut_at<T>(s: Seq<T>, sep: T, i: int)
    requires
        0 <= i <= s.len(),
        forall|j: int| 0 <= j < i ==> s[j] != sep,
        i < s.len() ==> s[i] == sep,
    ensures
        cut(s, sep) == i,
    decreases s.len(),
{
    if i > 0 {
        assert forall|j: int| 0 <= j < i - 1 implies s.skip(1)[j] != sep by {
            assert(s.skip(1)[j] == s[j + 1]);
        }
        lemma_cut_at(s.skip(1), sep, i - 1);
    }
}

/// The contents of each slice of a list.
pub open spec fn slice_views<T>(list: Seq<&[T]>) -> Seq<Seq<T>> {
    list.map_values(|s: &[T]| s@)
}

/// The pieces of `s` between the occurrences of `sep`.
pub fn split_chars<'a>(s: &'a [char], sep: char) -> (r: Vec<&'a [char]>)
    ensures
        slice_views(r@) == split(s@, sep),
{
    let mut out: Vec<&'a [char]> = Vec::new();
    let mut start: usize = 0;
    let mut i: usize = 0;
    assert(s@.skip(0) =~= s@);
    assert(slice_views(out@) + split(s@.skip(0), sep) =~= split(s@, sep));
    while i < s.len()
        invariant
            start <= i <= s.len(),
            forall|j: int| start <= j < i ==> s@[j] != sep,
            slice_views(out@) + split(s@.skip(start as int), sep) == split(s@, sep),
        decreases s.len() - i,
    {
        if s[i] == sep {
            let piece = slice_subrange(s, start, i);
            proof {
                let rest = s@.skip(start as int);
                lemma_cut_at(rest, sep, i - start);
                assert(rest.take(i - start) =~= piece@);
                assert(rest.skip(i - start + 1) =~= s@.skip(i + 1));
                assert(slice_views(out@.push(piece)) =~= slice_views(out@).push(piece@));
                assert(slice_views(out@).push(piece@) + split(s@.skip(i + 1), sep)
                    =~= slice_views(out@) + (seq![piece@] + split(s@.skip(i + 1), sep)));
            }
            out.push(piece);
            start = i + 1;
        }
        i = i + 1;
    }
    let piece = slice_subrange(s, start, i);
    proof {
        let rest = s@.skip(start as int);
        lemma_cut_at(rest, sep, rest.len() as int);
        assert(rest =~= piece@);
        assert(slice_views(out@.push(piece)) =~= slice_views(out@) + seq![piece@]);
    }
    out.push(piece);
    out
}

/// The pieces of `s` between its NUL bytes.
pub fn split_nul<'a>(s: &'a [u8]) -> (r: Vec<&'a [u8]>)
    ensures
        slice_views(r@) == split(s@, 0u8),
{
    let mut out: Vec<&'a [u8]> = Vec::new();
    let mut start: usize = 0;
    let mut i: usize = 0;
    assert(s@.skip(0) =~= s@);
    assert(slice_views(out@) + split(s@.skip(0), 0u8) =~= split(s@, 0u8));
    while i < s.len()
        invariant
            start <= i <= s.len(),
            forall|j: int| start <= j < i ==> s@[j] != 0u8,
            slice_views(out@) + split(s@.skip(start as int), 0u8) == split(s@, 0u8),
        decreases s.len() - i,
    {
        if s[i] == 0 {
            let piece = slice_subrange(s, start, i);
            proof {
                let rest = s@.skip(start as int);
                lemma_cut_at(rest, 0u8, i - start);
                assert(rest.take(i - start) =~= piece@);
                assert(rest.skip(i - start + 1) =~= s@.skip(i + 1));
                assert(slice_views(out@.push(piece)) =~= slice_views(out@).push(piece@));
                assert(slice_views(out@).push(piece@) + split(s@.skip(i + 1), 0u8)
                    =~= slice_views(out@) + (seq![piece@] + split(s@.skip(i + 1), 0u8)));
            }
            out.push(piece);
            start = i + 1;
        }
        i = i + 1;
    }
    let piece = slice_subrange(s, start, i);
    proof {
        let rest = s@.skip(start as int);
        lemma_cut_at(rest, 0u8, rest.len() as int);
        assert(rest =~= piece@);
        assert(slice_views(out@.push(piece)) =~= slice_views(out@) + seq![piece@]);
    }
    out.push(piece);
    out
}

/// The length of the run of characters other than white space that `s` begins with.
pub open spec fn word_len(s: Seq<char>) -> nat
    decreases s.len(),
{
    if s.len() == 0 || is_space(s[0]) {
        0
    } else {
        1 + word_len(s.skip(1))
    }
}

/// The runs of characters other than white space in `s`.
pub open spec fn words(s: Seq<char>) -> Seq<Seq<char>>
    decreases s.len(),
{
    if s.len() == 0 {
        Seq::empty()
    } else if is_space(s[0]) {
        words(s.skip(1))
    } else {
        proof {
            lemma_word_fits(s);
        }
        seq![s.take(word_len(s) as int)] + words(s.skip(word_len(s) as int))
    }
}

/// A word is no longer than the text that it begins.
pub proof fn lemma_word_fits(s: Seq<char>)
    ensures
        word_len(s) <= s.len(),
    decreases s.len(),
{
    if s.len() > 0 && !is_space(s[0]) {
        lemma_word_fits(s.skip(1));
    }
}

proof fn lemma_word_len(s: Seq<char>, k: int)
    requires
        0 <= k <= s.len(),
        forall|j: int| 0 <= j < k ==> !is_space(#[trigger] s[j]),
        k < s.len() ==> is_space(s[k]),
    ensures
        word_len(s) == k,
    decreases s.len(),
{
    if k > 0 {
        assert(!is_space(s[0]));
        assert forall|j: int| 0 <= j < k - 1 implies !is_space(#[trigger] s.skip(1)[j]) by {
            assert(s.skip(1)[j] == s[j + 1]);
        }
        lemma_word_len(s.skip(1), k - 1);
    }
}

/// The runs of characters other than white space in `s`.
pub fn split_words<'a>(s: &'a [char]) -> (r: Vec<&'a [char]>)
    ensures
        slice_views(r@) == words(s@),
{
    let mut out: Vec<&'a [char]> = Vec::new();
    let mut i: usize = 0;
    assert(s@.skip(0) =~= s@);
    assert(slice_views(out@) + words(s@.skip(0)) =~= words(s@));
    while i < s.len()
        invariant
            i <= s.len(),
            slice_views(out@) + words(s@.skip(i as int)) == words(s@),
        decreases s.len() - i,
    {
        let ghost rest = s@.skip(i as int);
        if space(s[i]) {
            assert(rest.skip(1) =~= s@.skip(i + 1));
            i = i + 1;
        } else {
            let start: usize = i;
            i = i + 1;
            while i < s.len() && !space(s[i])
                invariant
                    start < i <= s.len(),
                    forall|j: int| start <= j < i ==> !is_space(#[trigger] s@[j]),
                decreases s.len() - i,
            {
                i = i + 1;
            }
            let word = slice_subrange(s, start, i);
            proof {
                lemma_word_len(rest, i - start);
                assert(rest.take(i - start) =~= word@);
                assert(rest.skip(i - start) =~= s@.skip(i as int));
                assert(slice_views(out@.push(word)) =~= slice_views(out@).push(word@));
                assert(slice_views(out@).push(word@) + words(s@.skip(i as int)) =~= slice_views(
                    out@,
                ) + (seq![word@] + words(s@.skip(i as int))));
            }
            out.push(word);
        }
    }
    assert(s@.skip(i as int) =~= Seq::empty());
    assert(slice_views(out@) + words(s@.skip(i as int)) =~= slice_views(out@));
    out
}

// ---------------------------------------------------------------------------
// Decimal and hexadecimal numbers
// ---------------------------------------------------------------------------

/// `c` is one of the ten ASCII digits.
pub open spec fn is_digit(c: char) -> bool {
    '0' <= c <= '9'
}

/// The number that a digit stands for.
pub open spec fn digit_value(c: char) -> nat
    recommends
        is_digit(c),
{
    (c as u32 - '0' as u32) as nat
}

/// All characters of `s` are digits.
pub open spec fn all_digits(s: Seq<char>) -> bool {
    forall|i: int| 0 <= i < s.len() ==> is_digit(#[trigger] s[i])
}

/// The number that a run of digits stands for.
pub open spec fn decimal_value(s: Seq<char>) -> nat
    decreases s.len(),
{
    if s.len() == 0 {
        0
    } else {
        10 * decimal_value(s.drop_last()) + digit_value(s.last())
    }
}

/// `s` without one leading plus sign.
pub open spec fn without_plus(s: Seq<char>) -> Seq<char> {
    if s.len() > 0 && s[0] == '+' {
        s.skip(1)
    } else {
        s
    }
}

/// The unsigned number of at most `max` that `s` spells: digits, at least one,
/// behind an optional plus sign.
pub open spec fn unsigned_value(s: Seq<char>, max: nat) -> Option<nat> {
    let t = without_plus(s);
    if t.len() > 0 && all_digits(t) && decimal_value(t) <= max {
        Some(decimal_value(t))
    } else {
        None
    }
}

proof fn lemma_decimal_value_grows(s: Seq<char>, k: int)
    requires
        0 <= k <= s.len(),
    ensures
        decimal_value(s.take(k)) <= decimal_value(s),
    decreases s.len() - k,
{
    if k < s.len() {
        lemma_decimal_value_grows(s, k + 1);
        assert(s.take(k + 1).drop_last() =~= s.take(k));
    } else {
        assert(s.take(k) =~= s);
    }
}

/// The unsigned number of at most `max` that `s` spells.
pub fn parse_unsigned(s: &[char], max: u64) -> (r: Option<u64>)
    ensures
        match r {
            Some(v) => unsigned_value(s@, max as nat) == Some(v as nat),
            None => unsigned_value(s@, max as nat) is None,
        },
{
    let from: usize = if s.len() > 0 && s[0] == '+' { 1 } else { 0 };
    let ghost t = without_plus(s@);
    assert(t =~= s@.skip(from as int));
    if from == s.len() {
        return None;
    }
    let mut v: u64 = 0;
    let mut i: usize = from;
    assert(t.take(0) =~= Seq::<char>::empty());
    while i < s.len()
        invariant
            from <= i <= s.len(),
            t == s@.skip(from as int),
            t == without_plus(s@),
            v == decimal_value(t.take(i - from)),
            v <= max,
            forall|j: int| 0 <= j < i - from ==> is_digit(#[trigger] t[j]),
        decreases s.len() - i,
    {
        let c = s[i];
        assert(c == t[i - from]);
        if !('0' <= c && c <= '9') {
            return None;
        }
        let d: u64 = (c as u32 - '0' as u32) as u64;
        proof {
            lemma_decimal_value_grows(t, i - from + 1);
            assert(t.take(i - from + 1).drop_last() =~= t.take(i - from));
        }
        if v > (u64::MAX - d) / 10 {
            return None;
        }
        v = v * 10 + d;
        if v > max {
            return None;
        }
        i = i + 1;
    }
    assert(t.take(i - from) =~= t);
    Some(v)
}

/// The character of a digit of at most 15.
pub open spec fn digit_char(d: int) -> char {
    seq!['0', '1', '2', '3', '4', '5', '6', '7', '8', '9', 'a', 'b', 'c', 'd', 'e', 'f'][d]
}

/// The digits of `n` in base `base`, without leading zeros.
pub open spec fn digits(n: nat, base: nat) -> Seq<char>
    decreases n,
{
    if n < base || base < 2 {
        seq![digit_char(n as int)]
    } else {
        proof {
            assert(n / base < n) by (nonlinear_arith)
                requires
                    n >= base,
                    base >= 2,
            ;
        }
        digits(n / base, base).push(digit_char((n % base) as int))
    }
}

/// The decimal digits of `n`.
pub open spec fn decimal(n: nat) -> Seq<char> {
    digits(n, 10)
}

/// A number that is written out in decimal reads back as itself.
pub proof fn numbers_read_back(n: nat, max: nat)
    requires
        n <= max,
    ensures
        unsigned_value(decimal(n), max) == Some(n),
{
    lemma_digits_value(n);
    let s = decimal(n);
    assert(is_digit(s[0]));
}

proof fn lemma_digits_value(n: nat)
    ensures
        digits(n, 10).len() > 0,
        all_digits(digits(n, 10)),
        decimal_value(digits(n, 10)) == n,
    decreases n,
{
    let s = digits(n, 10);
    if n < 10 {
        lemma_digit_value(n as int);
        assert(s.last() == digit_char(n as int));
        assert(s.drop_last().len() == 0);
        assert(decimal_value(s.drop_last()) == 0);
        assert(decimal_value(s) == 10 * decimal_value(s.drop_last()) + digit_value(s.last()));
    } else {
        let rest = digits(n / 10, 10);
        lemma_digits_value(n / 10);
        lemma_digit_value((n % 10) as int);
        assert(s.drop_last() =~= rest);
        assert(s.last() == digit_char((n % 10) as int));
        assert forall|i: int| 0 <= i < s.len() implies is_digit(#[trigger] s[i]) by {
            if i < rest.len() {
                assert(s[i] == rest[i]);
            }
        }
    }
}

proof fn lemma_digit_value(d: int)
    requires
        0 <= d < 10,
    ensures
        is_digit(digit_char(d)),
        digit_value(digit_char(d)) == d,
{
    assert(d == 0 || d == 1 || d == 2 || d == 3 || d == 4 || d == 5 || d == 6 || d == 7 || d == 8 || d
        == 9);
}

fn digit_text(d: u64) -> (r: &'static str)
    requires
        d < 16,
    ensures
        r@ == seq![digit_char(d as int)],
{
    proof {
        reveal_strlit("0");
        reveal_strlit("1");
        reveal_strlit("2");
        reveal_strlit("3");
        reveal_strlit("4");
        reveal_strlit("5");
        reveal_strlit("6");
        reveal_strlit("7");
        reveal_strlit("8");
        reveal_strlit("9");
        reveal_strlit("a");
        reveal_strlit("b");
        reveal_strlit("c");
        reveal_strlit("d");
        reveal_strlit("e");
        reveal_strlit("f");
    }
    let r: &'static str = match d {
        0 => "0",
        1 => "1",
        2 => "2",
        3 => "3",
        4 => "4",
        5 => "5",
        6 => "6",
        7 => "7",
        8 => "8",
        9 => "9",
        10 => "a",
        11 => "b",
        12 => "c",
        13 => "d",
        14 => "e",
        _ => "f",
    };
    assert(r@ =~= seq![digit_char(d as int)]);
    r
}

fn push_digits(out: &mut String, n: u64, base: u64)
    requires
        2 <= base <= 16,
    ensures
        final(out)@ == old(out)@ + digits(n as nat, base as nat),
    decreases n,
{
    let ghost before = out@;
    if n >= base {
        proof {
            assert(n / base < n) by (nonlinear_arith)
                requires
                    n >= base,
                    base >= 2,
            ;
        }
        push_digits(out, n / base, base);
    }
    proof {
        assert(n % base < base) by (nonlinear_arith)
            requires
                base >= 2,
        ;
        if n < base {
            assert(n % base == n) by (nonlinear_arith)
                requires
                    0 <= n < base,
            ;
        }
    }
    let ghost middle = out@;
    out.append(digit_text(n % base));
    assert(out@ =~= middle.push(digit_char((n % base) as int)));
    assert(out@ =~= before + digits(n as nat, base as nat));
}

/// Appends the decimal digits of `n`.
pub fn push_decimal(out: &mut String, n: u64)
    ensures
        final(out)@ == old(out)@ + decimal(n as nat),
{
    push_digits(out, n, 10);
}

/// Appends the hexadecimal digits of `n`.
pub fn push_hex(out: &mut String, n: u64)
    ensures
        final(out)@ == old(out)@ + digits(n as nat, 16),
{
    push_digits(out, n, 16);
}

/// The decimal digits of `n`, behind a minus sign if it is negative.
pub open spec fn signed(n: int) -> Seq<char> {
    if n < 0 {
        "-"@ + decimal((-n) as nat)
    } else {
        decimal(n as nat)
    }
}

/// Appends the decimal digits of `n`, behind a minus sign if it is negative.
pub fn push_signed(out: &mut String, n: i64)
    ensures
        final(out)@ == old(out)@ + signed(n as int),
{
    let ghost before = out@;
    if n < 0 {
        out.append("-");
        let size: u64 = if n == i64::MIN { 0x8000_0000_0000_0000 } else { (-n) as u64 };
        push_decimal(out, size);
        assert(out@ =~= before + signed(n as int));
    } else {
        push_decimal(out, n as u64);
    }
}

/// So many blanks.
pub open spec fn blanks(n: int) -> Seq<char> {
    Seq::new(
        (if n > 0 {
            n
        } else {
            0
        }) as nat,
        |i: int| ' ',
    )
}

/// `s` with blanks behind it up to a width.
pub open spec fn left_aligned(s: Seq<char>, width: int) -> Seq<char> {
    s + blanks(width - s.len())
}

/// `s` with blanks in front of it up to a width.
pub open spec fn right_aligned(s: Seq<char>, width: int) -> Seq<char> {
    blanks(width - s.len()) + s
}

fn push_blanks(out: &mut String, n: usize)
    ensures
        final(out)@ == old(out)@ + blanks(n as int),
{
    let mut i: usize = 0;
    assert(out@ =~= old(out)@ + blanks(0));
    while i < n
        invariant
            i <= n,
            out@ == old(out)@ + blanks(i as int),
        decreases n - i,
    {
        out.push(' ');
        i = i + 1;
        assert(out@ =~= old(out)@ + blanks(i as int));
    }
}

/// Appends `s` with blanks behind it up to a width.
pub fn push_left(out: &mut String, s: &str, width: usize)
    ensures
        final(out)@ == old(out)@ + left_aligned(s@, width as int),
{
    let ghost before = out@;
    let len: usize = chars_of(s).len();
    out.append(s);
    push_blanks(out, width.saturating_sub(len));
    assert(out@ =~= before + left_aligned(s@, width as int));
}

/// Appends `s` with blanks in front of it up to a width.
pub fn push_right(out: &mut String, s: &str, width: usize)
    ensures
        final(out)@ == old(out)@ + right_aligned(s@, width as int),
{
    let ghost before = out@;
    let len: usize = chars_of(s).len();
    push_blanks(out, width.saturating_sub(len));
    out.append(s);
    assert(out@ =~= before + right_aligned(s@, width as int));
}

/// The decimal digits of `n` as a text.
pub fn decimal_text(n: u64) -> (r: String)
    ensures
        r@ == decimal(n as nat),
{
    let mut out: String = String::new();
    push_decimal(&mut out, n);
    assert(out@ =~= decimal(n as nat));
    out
}

/// Thousandths written with a decimal point and three digits behind it.
pub open spec fn thousandths(n: nat) -> Seq<char> {
    decimal(n / 1000) + "."@ + seq![
        digit_char((n / 100 % 10) as int),
        digit_char((n / 10 % 10) as int),
        digit_char((n % 10) as int),
    ]
}

/// Thousandths written with a decimal point and three digits behind it.
pub fn thousandths_text(n: u64) -> (r: String)
    ensures
        r@ == thousandths(n as nat),
{
    let mut out: String = decimal_text(n / 1000);
    out.append(".");
    out.append(digit_text(n / 100 % 10));
    out.append(digit_text(n / 10 % 10));
    out.append(digit_text(n % 10));
    assert(out@ =~= thousandths(n as nat));
    out
}

/// `num` of `den`, rounded to the nearest number, and to the even one where two are as
/// near.
pub open spec fn nearest_even(num: int, den: int) -> int {
    let q = num / den;
    let twice = 2 * (num % den);
    if twice > den || (twice == den && q % 2 == 1) {
        q + 1
    } else {
        q
    }
}

pub(crate) fn rounded_even(num: u128, den: u64) -> (r: u64)
    requires
        den > 0,
        num < u64::MAX * den,
    ensures
        r == nearest_even(num as int, den as int),
{
    let q: u128 = num / den as u128;
    let twice: u128 = 2 * (num % den as u128);
    proof {
        let (n, d) = (num as int, den as int);
        assert(n / d < u64::MAX) by (nonlinear_arith)
            requires
                0 <= n < u64::MAX * d,
                d > 0,
        ;
    }
    if twice > den as u128 || (twice == den as u128 && q % 2 == 1) {
        (q + 1) as u64
    } else {
        q as u64
    }
}

/// The last `places` decimal digits of `n`, with leading zeros.
pub open spec fn last_digits(n: nat, places: nat) -> Seq<char>
    decreases places,
{
    if places == 0 {
        Seq::empty()
    } else {
        last_digits(n / 10, (places - 1) as nat).push(digit_char((n % 10) as int))
    }
}

/// `n` without its last `places` decimal digits.
pub open spec fn front_digits(n: nat, places: nat) -> nat
    decreases places,
{
    if places == 0 {
        n
    } else {
        front_digits(n / 10, (places - 1) as nat)
    }
}

/// `n` written with a decimal point before its last `places` digits.
pub open spec fn fixed_point(n: nat, places: nat) -> Seq<char> {
    decimal(front_digits(n, places)) + "."@ + last_digits(n, places)
}

fn push_last_digits(out: &mut String, n: u64, places: u32)
    ensures
        final(out)@ == old(out)@ + last_digits(n as nat, places as nat),
    decreases places,
{
    let ghost before = out@;
    if places > 0 {
        push_last_digits(out, n / 10, places - 1);
        out.append(digit_text(n % 10));
    }
    assert(out@ =~= before + last_digits(n as nat, places as nat));
}

/// Writes `n` with a decimal point before its last `places` digits.
pub fn fixed_point_text(n: u64, places: u32) -> (r: String)
    ensures
        r@ == fixed_point(n as nat, places as nat),
{
    let mut front: u64 = n;
    let mut left: u32 = places;
    while left > 0
        invariant
            left <= places,
            front_digits(front as nat, left as nat) == front_digits(n as nat, places as nat),
        decreases left,
    {
        front = front / 10;
        left = left - 1;
    }
    let mut out: String = decimal_text(front);
    out.append(".");
    push_last_digits(&mut out, n, places);
    out
}

/// The text without its last `n` characters.
pub fn shortened(s: &str, n: usize) -> (r: String)
    requires
        n <= s@.len(),
    ensures
        r@ == s@.take(s@.len() - n),
{
    let chars = chars_of(s);
    let part = slice_subrange(chars.as_slice(), 0, chars.len() - n);
    assert(part@ =~= s@.take(s@.len() - n));
    text_of(part)
}

/// The text with the given characters.
pub fn text_of(s: &[char]) -> (r: String)
    ensures
        r@ == s@,
{
    let mut out: String = String::new();
    let mut i: usize = 0;
    assert(out@ =~= s@.take(0));
    while i < s.len()
        invariant
            i <= s.len(),
            out@ == s@.take(i as int),
        decreases s.len() - i,
    {
        assert(s@.take(i + 1) =~= s@.take(i as int).push(s@[i as int]));
        out.push(s[i]);
        i = i + 1;
    }
    assert(s@.take(i as int) =~= s@);
    out
}

// ---------------------------------------------------------------------------
// Functions of std
// ---------------------------------------------------------------------------

/// `String::push` appends one character.
pub assume_specification[ String::push ](s: &mut String, c: char)
    ensures
        final(s)@ == old(s)@.push(c),
;

/// An ASCII capital as its small letter, any other character as it is.
pub open spec fn ascii_lower(c: char) -> char {
    if 'A' <= c <= 'Z' {
        (c as u8 + 32) as u8 as char
    } else {
        c
    }
}

/// What `str::to_lowercase` makes of a text.
pub uninterp spec fn lowercase(s: Seq<char>) -> Seq<char>;

/// Calls `str::to_lowercase`. Its result is a function of the text alone; on
/// ASCII text it replaces each capital by its small letter. What Unicode
/// prescribes for other characters is not spelled out.
#[verifier::external_body]
pub(crate) fn to_lower(s: &str) -> (r: String)
    ensures
        r@ == lowercase(s@),
        is_ascii_chars(s@) ==> r@ == s@.map_values(|c: char| ascii_lower(c)),
{
    s.to_lowercase()
}

/// Calls `std::str::from_utf8`: bytes are text exactly if they are valid UTF-8,
/// and the text has those bytes.
#[verifier::external_body]
pub(crate) fn utf8_text(v: &[u8]) -> (r: Option<&str>)
    ensures
        r is Some <==> valid_utf8(v@),
        r matches Some(s) ==> s.spec_bytes() == v@,
{
    std::str::from_utf8(v).ok()
}

/// The text that `String::from_utf8_lossy` makes of bytes.
pub uninterp spec fn lossy(v: Seq<u8>) -> Seq<char>;

/// Calls `String::from_utf8_lossy`. Its result is a function of the bytes alone;
/// valid UTF-8 becomes the text with those bytes. Where replacement characters
/// stand for other bytes is not spelled out.
#[verifier::external_body]
pub(crate) fn lossy_text(v: &[u8]) -> (r: String)
    ensures
        r@ == lossy(v@),
        valid_utf8(v@) ==> encode_utf8(r@) == v@,
{
    String::from_utf8_lossy(v).into_owned()
}

/// A text is split at its separators and nowhere else: what stands before the first one is
/// the first piece, and what stands behind it is split by itself.
pub proof fn splitting_undoes_joining<T>(first: Seq<T>, rest: Seq<T>, sep: T)
    requires
        forall|i: int| 0 <= i < first.len() ==> first[i] != sep,
    ensures
        split(first, sep) =~= seq![first],
        split(first + seq![sep] + rest, sep) =~= seq![first] + split(rest, sep),
{
    lemma_cut_at(first, sep, first.len() as int);
    let all = first + seq![sep] + rest;
    lemma_cut_at(all, sep, first.len() as int);
    assert(all.take(first.len() as int) =~= first);
    assert(all.skip(first.len() as int + 1) =~= rest);
}

/// Trimming takes white space from both ends, all of it and nothing else.
pub proof fn trimming_leaves_the_middle(before: Seq<char>, middle: Seq<char>, after: Seq<char>)
    requires
        forall|i: int| 0 <= i < before.len() ==> is_space(before[i]),
        forall|i: int| 0 <= i < after.len() ==> is_space(after[i]),
        middle.len() > 0,
        !is_space(middle.first()),
        !is_space(middle.last()),
    ensures
        trim(before + middle + after) =~= middle,
{
    lemma_trim_start(before, middle + after);
    assert(before + middle + after =~= before + (middle + after));
    lemma_trim_end(middle, after);
}

proof fn lemma_trim_start(before: Seq<char>, rest: Seq<char>)
    requires
        forall|i: int| 0 <= i < before.len() ==> is_space(before[i]),
        rest.len() > 0,
        !is_space(rest.first()),
    ensures
        trim_start(before + rest) =~= rest,
    decreases before.len(),
{
    if before.len() == 0 {
        assert(before + rest =~= rest);
    } else {
        assert((before + rest).skip(1) =~= before.skip(1) + rest);
        lemma_trim_start(before.skip(1), rest);
    }
}

proof fn lemma_trim_end(start: Seq<char>, after: Seq<char>)
    requires
        forall|i: int| 0 <= i < after.len() ==> is_space(after[i]),
        start.len() > 0,
        !is_space(start.last()),
    ensures
        trim_end(start + after) =~= start,
    decreases after.len(),
{
    if after.len() == 0 {
        assert(start + after =~= start);
    } else {
        assert((start + after).drop_last() =~= start + after.drop_last());
        lemma_trim_end(start, after.drop_last());
    }
}

/// White space divides words: what stands on both sides of it is read by itself.
pub proof fn spaces_divide_words(word: Seq<char>, space: char, rest: Seq<char>)
    requires
        is_space(space),
        forall|i: int| 0 <= i < word.len() ==> !is_space(#[trigger] word[i]),
    ensures
        words(word + seq![space] + rest) =~= if word.len() == 0 {
            words(rest)
        } else {
            seq![word] + words(rest)
        },
{
    let all = word + seq![space] + rest;
    if word.len() == 0 {
        assert(all.skip(1) =~= rest);
    } else {
        let n = word.len() as int;
        assert forall|j: int| 0 <= j < n implies !is_space(#[trigger] all[j]) by {
            assert(all[j] == word[j]);
        }
        lemma_word_len(all, n);
        assert(all.take(n) =~= word);
        let tail = all.skip(n);
        assert(tail[0] == space);
        assert(tail.skip(1) =~= rest);
        assert(words(tail) == words(rest));
        assert(all[0] == word[0]);
    }
}

/// Rounding goes to the nearest whole number, and to the even one of two that are as near.
pub proof fn rounding_goes_to_the_nearest(num: int, den: int)
    requires
        den > 0,
    ensures
        ({
            let off = 2 * (nearest_even(num, den) * den - num);
            &&& -den <= off <= den
            &&& off == den || off == -den ==> nearest_even(num, den) % 2 == 0
        }),
{
    let q = num / den;
    vstd::arithmetic::div_mod::lemma_fundamental_div_mod(num, den);
    vstd::arithmetic::div_mod::lemma_mod_bound(num, den);
    assert(den * q == q * den) by (nonlinear_arith);
    assert((q + 1) * den == q * den + den) by (nonlinear_arith);
}

/// One more digit behind the point is one more digit at the end; without digits behind it the
/// point stands last.
pub proof fn points_stand_before_their_places(n: nat, d: nat, places: nat)
    requires
        d < 10,
    ensures
        fixed_point(10 * n + d, places + 1) =~= fixed_point(n, places).push(digit_char(d as int)),
        fixed_point(n, 0) =~= decimal(n) + "."@,
{
    assert((10 * n + d) / 10 == n && (10 * n + d) % 10 == d);
}

} // verus!
