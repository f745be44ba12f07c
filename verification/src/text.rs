//! Small tools for text as bytes: blanks, searches and decimal numbers.

use vstd::prelude::*;

verus! {

/// Whether `b` is a blank of one byte: space, tab, line feed, vertical
/// tab, form feed or carriage return.
pub open spec fn spec_is_blank(b: u8) -> bool {
    b == 32 || (9 <= b <= 13)
}

pub fn is_blank(b: u8) -> (blank: bool)
    ensures
        blank == spec_is_blank(b),
{
    b == 32 || (9 <= b && b <= 13)
}

/// Whether the two bytes are a blank: the next-line character (U+0085) or
/// the no-break space (U+00A0).
pub open spec fn spec_is_blank2(b0: u8, b1: u8) -> bool {
    b0 == 0xC2 && (b1 == 0x85 || b1 == 0xA0)
}

/// Whether the three bytes are a blank: the Ogham space mark (U+1680), one
/// of the spaces U+2000 to U+200A, the line or paragraph separator
/// (U+2028, U+2029), the narrow no-break space (U+202F), the medium
/// mathematical space (U+205F) or the ideographic space (U+3000).
pub open spec fn spec_is_blank3(b0: u8, b1: u8, b2: u8) -> bool {
    ||| b0 == 0xE1 && b1 == 0x9A && b2 == 0x80
    ||| b0 == 0xE2 && b1 == 0x80 && (0x80 <= b2 <= 0x8A || b2 == 0xA8 || b2 == 0xA9 || b2 == 0xAF)
    ||| b0 == 0xE2 && b1 == 0x81 && b2 == 0x9F
    ||| b0 == 0xE3 && b1 == 0x80 && b2 == 0x80
}

fn is_blank2(b0: u8, b1: u8) -> (blank: bool)
    ensures
        blank == spec_is_blank2(b0, b1),
{
    b0 == 0xC2 && (b1 == 0x85 || b1 == 0xA0)
}

fn is_blank3(b0: u8, b1: u8, b2: u8) -> (blank: bool)
    ensures
        blank == spec_is_blank3(b0, b1, b2),
{
    (b0 == 0xE1 && b1 == 0x9A && b2 == 0x80) || (b0 == 0xE2 && b1 == 0x80 && ((0x80 <= b2 && b2
        <= 0x8A) || b2 == 0xA8 || b2 == 0xA9 || b2 == 0xAF)) || (b0 == 0xE2 && b1 == 0x81 && b2
        == 0x9F) || (b0 == 0xE3 && b1 == 0x80 && b2 == 0x80)
}

/// The number of bytes of the blank that `s` starts with: every character
/// that Unicode counts as white space is a blank, in its UTF-8 form of one,
/// two or three bytes. 0 where `s` starts with no blank.
pub open spec fn spec_blank_start(s: Seq<u8>) -> nat {
    if s.len() >= 1 && spec_is_blank(s[0]) {
        1
    } else if s.len() >= 2 && spec_is_blank2(s[0], s[1]) {
        2
    } else if s.len() >= 3 && spec_is_blank3(s[0], s[1], s[2]) {
        3
    } else {
        0
    }
}

/// The number of bytes of the blank that `s` ends with; 0 where `s` ends
/// with no blank.
pub open spec fn spec_blank_end(s: Seq<u8>) -> nat {
    let n = s.len() as int;
    if n >= 1 && spec_is_blank(s[n - 1]) {
        1
    } else if n >= 2 && spec_is_blank2(s[n - 2], s[n - 1]) {
        2
    } else if n >= 3 && spec_is_blank3(s[n - 3], s[n - 2], s[n - 1]) {
        3
    } else {
        0
    }
}

/// The number of bytes that the blanks at the start of `s` take.
pub open spec fn spec_leading_blanks(s: Seq<u8>) -> nat
    decreases s.len(),
{
    let n = spec_blank_start(s);
    if 0 < n <= s.len() {
        n + spec_leading_blanks(s.skip(n as int))
    } else {
        0
    }
}

/// The number of bytes that the blanks at the end of `s` take.
pub open spec fn spec_trailing_blanks(s: Seq<u8>) -> nat
    decreases s.len(),
{
    let n = spec_blank_end(s);
    if 0 < n <= s.len() {
        n + spec_trailing_blanks(s.take(s.len() - n))
    } else {
        0
    }
}

/// `s` without the blanks at its start.
pub open spec fn spec_trim_start(s: Seq<u8>) -> Seq<u8> {
    s.skip(spec_leading_blanks(s) as int)
}

/// `s` without the blanks at its start and at its end.
pub open spec fn spec_trim(s: Seq<u8>) -> Seq<u8> {
    let rest = spec_trim_start(s);
    rest.take(rest.len() - spec_trailing_blanks(rest))
}

/// The number of bytes of the blank that `s` starts with.
pub fn blank_start(s: &[u8]) -> (n: usize)
    ensures
        n == spec_blank_start(s@),
        n <= s@.len(),
{
    let len: usize = s.len();
    if len >= 1 && is_blank(s[0]) {
        1
    } else if len >= 2 && is_blank2(s[0], s[1]) {
        2
    } else if len >= 3 && is_blank3(s[0], s[1], s[2]) {
        3
    } else {
        0
    }
}

/// The number of bytes of the blank that `s` ends with.
pub fn blank_end(s: &[u8]) -> (n: usize)
    ensures
        n == spec_blank_end(s@),
        n <= s@.len(),
{
    let len: usize = s.len();
    if len >= 1 && is_blank(s[len - 1]) {
        1
    } else if len >= 2 && is_blank2(s[len - 2], s[len - 1]) {
        2
    } else if len >= 3 && is_blank3(s[len - 3], s[len - 2], s[len - 1]) {
        3
    } else {
        0
    }
}

/// `s` without the blanks at its start and at its end.
pub fn trim(s: &[u8]) -> (trimmed: &[u8])
    ensures
        trimmed@ == spec_trim(s@),
{
    let len: usize = s.len();
    let mut start: usize = 0;
    let mut n: usize = blank_start(s);
    assert(s@.skip(0) =~= s@);
    while n > 0
        invariant
            start <= len == s@.len(),
            n == spec_blank_start(s@.skip(start as int)),
            start + n <= len,
            spec_leading_blanks(s@) == start + spec_leading_blanks(s@.skip(start as int)),
        decreases len - start,
    {
        assert(s@.skip(start as int).skip(n as int) =~= s@.skip(start + n));
        start = start + n;
        let tail = &s[start..len];
        assert(tail@ =~= s@.skip(start as int));
        n = blank_start(tail);
    }
    let ghost rest = s@.skip(start as int);
    let mut end: usize = len;
    let mut m: usize = blank_end(&s[start..len]);
    proof {
        assert(s@.subrange(start as int, len as int) =~= rest);
        assert(rest.take(rest.len() as int) =~= rest);
    }
    while m > 0
        invariant
            start <= end <= len == s@.len(),
            rest == s@.skip(start as int),
            m == spec_blank_end(rest.take(end - start)),
            m <= end - start,
            spec_trailing_blanks(rest) == (len - end) + spec_trailing_blanks(
                rest.take(end - start),
            ),
        decreases end,
    {
        assert(rest.take(end - start).take(end - start - m) =~= rest.take(end - start - m));
        end = end - m;
        let body = &s[start..end];
        assert(body@ =~= rest.take(end - start));
        m = blank_end(body);
    }
    proof {
        assert(s@.subrange(start as int, end as int) =~= rest.take(rest.len() - (len - end)));
    }
    &s[start..end]
}

/// Whether `b` is a decimal digit.
pub open spec fn spec_is_digit(b: u8) -> bool {
    48 <= b <= 57
}

pub fn is_digit(b: u8) -> (digit: bool)
    ensures
        digit == spec_is_digit(b),
{
    48 <= b && b <= 57
}

/// The first position of `b` in `s`.
pub open spec fn spec_find_byte(s: Seq<u8>, b: u8) -> Option<int> {
    if exists|i: int| 0 <= i < s.len() && s[i] == b {
        Some(choose|i: int| 0 <= i < s.len() && s[i] == b && forall|j: int| 0 <= j < i ==> s[j] != b)
    } else {
        None
    }
}

/// What it means for `found` to be the first position of `b` in `s`.
pub open spec fn is_first_byte(s: Seq<u8>, b: u8, found: Option<int>) -> bool {
    match found {
        Some(at) => 0 <= at < s.len() && s[at] == b && forall|j: int| 0 <= j < at ==> s[j] != b,
        None => forall|j: int| 0 <= j < s.len() ==> s[j] != b,
    }
}

/// There is one first position, and `spec_find_byte` names it.
pub proof fn lemma_find_byte(s: Seq<u8>, b: u8, found: Option<int>)
    requires
        is_first_byte(s, b, found),
    ensures
        spec_find_byte(s, b) == found,
{
    match found {
        Some(at) => {
            let c = choose|i: int|
                0 <= i < s.len() && s[i] == b && forall|j: int| 0 <= j < i ==> s[j] != b;
            assert(0 <= at < s.len() && s[at] == b && forall|j: int| 0 <= j < at ==> s[j] != b);
            assert(c == at) by {
                if c < at {
                    assert(s[c] != b);
                }
                if at < c {
                    assert(s[at] != b);
                }
            }
        },
        None => {},
    }
}

pub proof fn lemma_find_byte_is_first(s: Seq<u8>, b: u8)
    ensures
        is_first_byte(s, b, spec_find_byte(s, b)),
    decreases s.len(),
{
    if exists|i: int| 0 <= i < s.len() && s[i] == b {
        let w = choose|i: int| 0 <= i < s.len() && s[i] == b;
        lemma_first_exists(s, b, w);
    }
}

proof fn lemma_first_exists(s: Seq<u8>, b: u8, w: int)
    requires
        0 <= w < s.len(),
        s[w] == b,
    ensures
        exists|i: int| 0 <= i < s.len() && s[i] == b && forall|j: int| 0 <= j < i ==> s[j] != b,
    decreases w,
{
    if exists|k: int| 0 <= k < w && s[k] == b {
        let k = choose|k: int| 0 <= k < w && s[k] == b;
        lemma_first_exists(s, b, k);
    } else {
        assert(0 <= w < s.len() && s[w] == b && forall|j: int| 0 <= j < w ==> s[j] != b);
    }
}

/// Finds the first `b` in `s`.
pub fn find_byte(s: &[u8], b: u8) -> (found: Option<usize>)
    ensures
        match found {
            Some(at) => spec_find_byte(s@, b) == Some(at as int),
            None => spec_find_byte(s@, b) is None,
        },
{
    let len: usize = s.len();
    let mut i: usize = 0;
    while i < len
        invariant
            i <= len == s@.len(),
            forall|j: int| 0 <= j < i ==> s@[j] != b,
        decreases len - i,
    {
        if s[i] == b {
            proof {
                lemma_find_byte(s@, b, Some(i as int));
            }
            return Some(i);
        }
        i += 1;
    }
    proof {
        lemma_find_byte(s@, b, None);
    }
    None
}

/// Whether `needle` stands in `haystack` at position `at`.
pub open spec fn spec_matches_at(haystack: Seq<u8>, needle: Seq<u8>, at: int) -> bool {
    0 <= at && at + needle.len() <= haystack.len() && haystack.subrange(
        at,
        at + needle.len(),
    ) == needle
}

/// What it means for `found` to be the first position at which `needle`
/// stands in `haystack`. An empty needle stands nowhere.
pub open spec fn is_first_match(haystack: Seq<u8>, needle: Seq<u8>, found: Option<int>) -> bool {
    match found {
        Some(at) => needle.len() > 0 && spec_matches_at(haystack, needle, at) && forall|j: int|
            0 <= j < at ==> !spec_matches_at(haystack, needle, j),
        None => needle.len() == 0 || forall|j: int| !spec_matches_at(haystack, needle, j),
    }
}

/// The first position at which `needle` stands in `haystack`.
pub open spec fn spec_find_bytes(haystack: Seq<u8>, needle: Seq<u8>) -> Option<int> {
    if needle.len() > 0 && exists|i: int| spec_matches_at(haystack, needle, i) {
        Some(
            choose|i: int|
                spec_matches_at(haystack, needle, i) && forall|j: int|
                    0 <= j < i ==> !spec_matches_at(haystack, needle, j),
        )
    } else {
        None
    }
}

pub proof fn lemma_find_bytes(haystack: Seq<u8>, needle: Seq<u8>, found: Option<int>)
    requires
        is_first_match(haystack, needle, found),
    ensures
        spec_find_bytes(haystack, needle) == found,
{
    match found {
        Some(at) => {
            assert(spec_matches_at(haystack, needle, at) && forall|j: int|
                0 <= j < at ==> !spec_matches_at(haystack, needle, j));
            let c = choose|i: int|
                spec_matches_at(haystack, needle, i) && forall|j: int|
                    0 <= j < i ==> !spec_matches_at(haystack, needle, j);
            assert(c == at) by {
                if c < at {
                    assert(!spec_matches_at(haystack, needle, c));
                }
                if at < c {
                    assert(!spec_matches_at(haystack, needle, at));
                }
            }
        },
        None => {},
    }
}

pub proof fn lemma_find_bytes_is_first(haystack: Seq<u8>, needle: Seq<u8>)
    ensures
        is_first_match(haystack, needle, spec_find_bytes(haystack, needle)),
{
    if needle.len() > 0 && exists|i: int| spec_matches_at(haystack, needle, i) {
        let w = choose|i: int| spec_matches_at(haystack, needle, i);
        lemma_first_match_exists(haystack, needle, w);
    }
}

proof fn lemma_first_match_exists(haystack: Seq<u8>, needle: Seq<u8>, w: int)
    requires
        spec_matches_at(haystack, needle, w),
    ensures
        exists|i: int|
            spec_matches_at(haystack, needle, i) && forall|j: int|
                0 <= j < i ==> !spec_matches_at(haystack, needle, j),
    decreases w,
{
    if exists|k: int| 0 <= k < w && spec_matches_at(haystack, needle, k) {
        let k = choose|k: int| 0 <= k < w && spec_matches_at(haystack, needle, k);
        lemma_first_match_exists(haystack, needle, k);
    } else {
        assert(spec_matches_at(haystack, needle, w) && forall|j: int|
            0 <= j < w ==> !spec_matches_at(haystack, needle, j));
    }
}

/// Whether `needle` stands in `haystack` at `at`.
pub fn matches_at(haystack: &[u8], needle: &[u8], at: usize) -> (yes: bool)
    requires
        at + needle@.len() <= haystack@.len(),
    ensures
        yes == spec_matches_at(haystack@, needle@, at as int),
{
    let n: usize = needle.len();
    let total: usize = haystack.len();
    let mut k: usize = 0;
    while k < n
        invariant
            k <= n == needle@.len(),
            at + n <= haystack@.len() == total,
            forall|j: int| 0 <= j < k ==> haystack@[at + j] == needle@[j],
        decreases n - k,
    {
        if haystack[at + k] != needle[k] {
            proof {
                assert(haystack@.subrange(at as int, at + n)[k as int] != needle@[k as int]);
            }
            return false;
        }
        k += 1;
    }
    assert(haystack@.subrange(at as int, at + n) =~= needle@);
    true
}

/// Finds the first place at which `needle` stands in `haystack`.
pub fn find_bytes(haystack: &[u8], needle: &[u8]) -> (found: Option<usize>)
    ensures
        match found {
            Some(at) => spec_find_bytes(haystack@, needle@) == Some(at as int),
            None => spec_find_bytes(haystack@, needle@) is None,
        },
{
    if needle.len() == 0 || needle.len() > haystack.len() {
        proof {
            lemma_find_bytes(haystack@, needle@, None);
        }
        return None;
    }
    let total: usize = haystack.len();
    let last: usize = total - needle.len();
    let mut i: usize = 0;
    while i <= last
        invariant
            i <= last + 1,
            0 < needle@.len() <= haystack@.len() == total,
            last == haystack@.len() - needle@.len(),
            forall|j: int| 0 <= j < i ==> !spec_matches_at(haystack@, needle@, j),
        decreases last + 1 - i,
    {
        if matches_at(haystack, needle, i) {
            proof {
                lemma_find_bytes(haystack@, needle@, Some(i as int));
            }
            return Some(i);
        }
        i += 1;
    }
    proof {
        lemma_find_bytes(haystack@, needle@, None);
    }
    None
}

/// The number of bytes at the start of `s` that are `b` (`equal` true) or
/// are not `b` (`equal` false).
pub open spec fn spec_run_of(s: Seq<u8>, b: u8, equal: bool) -> nat
    decreases s.len(),
{
    if s.len() > 0 && (s[0] == b) == equal {
        1 + spec_run_of(s.drop_first(), b, equal)
    } else {
        0
    }
}

pub proof fn lemma_run_of_is(s: Seq<u8>, b: u8, equal: bool, n: int)
    requires
        0 <= n <= s.len(),
        forall|i: int| 0 <= i < n ==> ((#[trigger] s[i]) == b) == equal,
        n < s.len() ==> (s[n] == b) != equal,
    ensures
        spec_run_of(s, b, equal) == n,
    decreases s.len(),
{
    if n > 0 {
        assert((s[0] == b) == equal);
        let rest = s.drop_first();
        assert forall|i: int| 0 <= i < n - 1 implies ((#[trigger] rest[i]) == b) == equal by {
            assert(rest[i] == s[i + 1]);
        }
        if n - 1 < rest.len() {
            assert(rest[n - 1] == s[n]);
        }
        lemma_run_of_is(rest, b, equal, n - 1);
    }
}

/// The position behind the bytes from `from` on that are `b` (`equal`
/// true) or are not `b` (`equal` false).
pub fn skip_run_of(s: &[u8], from: usize, b: u8, equal: bool) -> (end: usize)
    requires
        from <= s@.len(),
    ensures
        end == from + spec_run_of(s@.skip(from as int), b, equal),
        from <= end <= s@.len(),
{
    let len: usize = s.len();
    let ghost tail = s@.skip(from as int);
    let mut end: usize = from;
    while end < len && (s[end] == b) == equal
        invariant
            from <= end <= len == s@.len(),
            tail == s@.skip(from as int),
            forall|i: int| 0 <= i < end - from ==> ((#[trigger] tail[i]) == b) == equal,
        decreases len - end,
    {
        end += 1;
    }
    proof {
        lemma_run_of_is(tail, b, equal, end - from);
    }
    end
}

/// The number that the digits `s` spell.
pub open spec fn spec_decimal(s: Seq<u8>) -> nat
    decreases s.len(),
{
    if s.len() == 0 {
        0
    } else {
        10 * spec_decimal(s.drop_last()) + (s.last() - 48) as nat
    }
}

/// Whether `s` holds digits only.
pub open spec fn spec_all_digits(s: Seq<u8>) -> bool {
    forall|i: int| 0 <= i < s.len() ==> spec_is_digit(#[trigger] s[i])
}

/// The number that `s` spells, if `s` is one digit or more and the number
/// is `max` at most.
pub open spec fn spec_parse_decimal(s: Seq<u8>, max: nat) -> Option<nat> {
    if s.len() > 0 && spec_all_digits(s) && spec_decimal(s) <= max {
        Some(spec_decimal(s))
    } else {
        None
    }
}

/// A number is at least what any of its leading digits spell.
pub proof fn lemma_decimal_grows(s: Seq<u8>, k: int)
    requires
        spec_all_digits(s),
        0 <= k <= s.len(),
    ensures
        spec_decimal(s.take(k)) <= spec_decimal(s),
    decreases s.len() - k,
{
    if k == s.len() {
        assert(s.take(k) =~= s);
    } else {
        lemma_decimal_grows(s, k + 1);
        let longer = s.take(k + 1);
        assert(longer.drop_last() =~= s.take(k));
        assert(spec_is_digit(s[k]));
        assert(longer.last() == s[k]);
    }
}

/// Reads a decimal number of one digit or more that is `max` at most.
pub fn parse_decimal(s: &[u8], max: u64) -> (value: Option<u64>)
    ensures
        match value {
            Some(v) => spec_parse_decimal(s@, max as nat) == Some(v as nat),
            None => spec_parse_decimal(s@, max as nat) is None,
        },
{
    let len: usize = s.len();
    if len == 0 {
        return None;
    }
    let mut acc: u128 = 0;
    let mut i: usize = 0;
    assert(s@.take(0) =~= Seq::<u8>::empty());
    while i < len
        invariant
            i <= len == s@.len(),
            acc == spec_decimal(s@.take(i as int)),
            acc <= max,
            spec_all_digits(s@.take(i as int)),
        decreases len - i,
    {
        let b: u8 = s[i];
        if !is_digit(b) {
            assert(!spec_is_digit(s@[i as int]));
            return None;
        }
        let ghost longer = s@.take(i + 1);
        proof {
            assert(longer.drop_last() =~= s@.take(i as int));
            assert(longer.last() == b);
            assert forall|j: int| 0 <= j < longer.len() implies spec_is_digit(
                #[trigger] longer[j],
            ) by {
                if j < i {
                    assert(longer[j] == s@.take(i as int)[j]);
                }
            }
        }
        let next: u128 = acc * 10 + (b - 48) as u128;
        if next > max as u128 {
            proof {
                if spec_all_digits(s@) {
                    lemma_decimal_grows(s@, i + 1);
                }
            }
            return None;
        }
        acc = next;
        i += 1;
    }
    assert(s@.take(len as int) =~= s@);
    Some(acc as u64)
}

} // verus!
