//! Text helpers: search, comparison and word splitting over the characters
//! of a string.

use vstd::prelude::*;

verus! {

/// Whether a character is white space (the Unicode `White_Space` property).
pub open spec fn is_space(c: char) -> bool {
    let u = c as u32;
    ||| 0x09 <= u <= 0x0D
    ||| u == 0x20
    ||| u == 0x85
    ||| u == 0xA0
    ||| u == 0x1680
    ||| 0x2000 <= u <= 0x200A
    ||| u == 0x2028
    ||| u == 0x2029
    ||| u == 0x202F
    ||| u == 0x205F
    ||| u == 0x3000
}

/// Whether a character is white space.
pub fn is_whitespace(c: char) -> (b: bool)
    ensures
        b == is_space(c),
{
    let u: u32 = c as u32;
    (0x09 <= u && u <= 0x0D) || u == 0x20 || u == 0x85 || u == 0xA0 || u == 0x1680 || (0x2000 <= u
        && u <= 0x200A) || u == 0x2028 || u == 0x2029 || u == 0x202F || u == 0x205F || u == 0x3000
}

/// The characters of a string, in order.
pub fn chars_of(s: &str) -> (v: Vec<char>)
    ensures
        v@ == s@,
{
    let mut v: Vec<char> = Vec::new();
    for c in it: s.chars()
        invariant
            v@ == s@.subrange(0, it.index() as int),
            it.seq() == s@,
    {
        v.push(c);
        assert(v@ =~= s@.subrange(0, it.index() + 1));
    }
    assert(v@ =~= s@);
    v
}

/// Whether `needle` stands in `hay` at position `at`.
pub open spec fn occurs_at(hay: Seq<char>, needle: Seq<char>, at: int) -> bool {
    &&& 0 <= at
    &&& at + needle.len() <= hay.len()
    &&& hay.subrange(at, at + needle.len()) == needle
}

/// Whether `needle` stands somewhere in `hay`.
pub open spec fn contains_text(hay: Seq<char>, needle: Seq<char>) -> bool {
    exists|at: int| occurs_at(hay, needle, at)
}

/// Whether `at` is the first position at which `needle` stands in `hay`.
pub open spec fn is_first_occurrence(hay: Seq<char>, needle: Seq<char>, at: int) -> bool {
    &&& occurs_at(hay, needle, at)
    &&& forall|earlier: int| 0 <= earlier < at ==> !occurs_at(hay, needle, earlier)
}

/// The first position at which `needle` stands in `hay`, if it does.
pub open spec fn first_occurrence(hay: Seq<char>, needle: Seq<char>) -> Option<int> {
    if contains_text(hay, needle) {
        Some(choose|at: int| is_first_occurrence(hay, needle, at))
    } else {
        None
    }
}

/// A first occurrence is the only one: whoever finds one has found the
/// value of `first_occurrence`.
pub proof fn lemma_first_occurrence(hay: Seq<char>, needle: Seq<char>, at: int)
    requires
        is_first_occurrence(hay, needle, at),
    ensures
        first_occurrence(hay, needle) == Some(at),
{
    assert(occurs_at(hay, needle, at));
    let found = choose|p: int| is_first_occurrence(hay, needle, p);
    assert(is_first_occurrence(hay, needle, found));
    if found < at {
        assert(!occurs_at(hay, needle, found));
    }
    if at < found {
        assert(!occurs_at(hay, needle, at));
    }
}

fn matches_at(hay: &Vec<char>, needle: &Vec<char>, at: usize) -> (b: bool)
    requires
        at + needle.len() <= hay.len(),
    ensures
        b == occurs_at(hay@, needle@, at as int),
{
    let mut k: usize = 0;
    while k < needle.len()
        invariant
            k <= needle.len(),
            at + needle.len() <= hay.len(),
            forall|j: int| 0 <= j < k ==> hay@[at + j] == needle@[j],
        decreases needle.len() - k,
    {
        if hay[at + k] != needle[k] {
            assert(hay@.subrange(at as int, at + needle.len())[k as int] != needle@[k as int]);
            return false;
        }
        k += 1;
    }
    assert(hay@.subrange(at as int, at + needle.len()) =~= needle@);
    true
}

/// Finds the first position at which `needle` stands in `hay`.
pub fn find_chars(hay: &Vec<char>, needle: &Vec<char>) -> (r: Option<usize>)
    ensures
        match r {
            Some(at) => first_occurrence(hay@, needle@) == Some(at as int) && is_first_occurrence(
                hay@,
                needle@,
                at as int,
            ),
            None => first_occurrence(hay@, needle@) is None,
        },
{
    if needle.len() > hay.len() {
        return None;
    }
    let last: usize = hay.len() - needle.len();
    let mut at: usize = 0;
    loop
        invariant
            last == hay.len() - needle.len(),
            at <= last,
            forall|earlier: int| 0 <= earlier < at ==> !occurs_at(hay@, needle@, earlier),
        decreases last - at,
    {
        if matches_at(hay, needle, at) {
            proof {
                lemma_first_occurrence(hay@, needle@, at as int);
            }
            return Some(at);
        }
        if at == last {
            return None;
        }
        at += 1;
    }
}

/// Whether `needle` stands somewhere in `hay`.
pub fn contains(hay: &str, needle: &str) -> (b: bool)
    ensures
        b == contains_text(hay@, needle@),
{
    let h = chars_of(hay);
    let n = chars_of(needle);
    find_chars(&h, &n).is_some()
}

/// Whether two strings hold the same text.
pub fn text_eq(a: &str, b: &str) -> (same: bool)
    ensures
        same == (a@ == b@),
{
    a.to_owned() == b.to_owned()
}

/// A copy of an optional string.
pub fn copy_text(field: &Option<String>) -> (copy: Option<String>)
    ensures
        copy == *field,
{
    match field {
        Some(s) => Some(s.clone()),
        None => None,
    }
}

/// The text of each string of a sequence.
pub open spec fn texts(strings: Seq<String>) -> Seq<Seq<char>> {
    strings.map_values(|s: String| s@)
}

/// The text of each string slice of a sequence.
pub open spec fn slice_texts(slices: Seq<&str>) -> Seq<Seq<char>> {
    slices.map_values(|s: &str| s@)
}

/// Length of the run of characters other than white space that `s` starts
/// with.
pub open spec fn word_len(s: Seq<char>) -> nat
    decreases s.len(),
{
    if s.len() == 0 || is_space(s[0]) {
        0
    } else {
        1 + word_len(s.drop_first())
    }
}

/// The leading run is no longer than the text, and holds at least the
/// first character where that is no white space.
pub proof fn lemma_word_len_bounds(s: Seq<char>)
    ensures
        word_len(s) <= s.len(),
        s.len() > 0 && !is_space(s[0]) ==> word_len(s) >= 1,
    decreases s.len(),
{
    if s.len() > 0 && !is_space(s[0]) {
        lemma_word_len_bounds(s.drop_first());
    }
}

/// The words of a text: its maximal runs of characters other than white
/// space, in order.
pub open spec fn words(s: Seq<char>) -> Seq<Seq<char>>
    decreases s.len(),
{
    if s.len() == 0 {
        Seq::empty()
    } else if is_space(s[0]) {
        words(s.drop_first())
    } else {
        let n = word_len(s) as int;
        proof {
            lemma_word_len_bounds(s);
        }
        seq![s.take(n)] + words(s.skip(n))
    }
}

/// The leading run holds no white space.
pub proof fn lemma_word_len_run(s: Seq<char>, k: int)
    requires
        0 <= k < word_len(s),
    ensures
        k < s.len(),
        !is_space(s[k]),
    decreases s.len(),
{
    lemma_word_len_bounds(s);
    if k > 0 {
        lemma_word_len_run(s.drop_first(), k - 1);
    }
}

/// Every word holds a character at least, and no white space.
pub proof fn lemma_words_are_words(s: Seq<char>, i: int)
    requires
        0 <= i < words(s).len(),
    ensures
        words(s)[i].len() > 0,
        forall|k: int| 0 <= k < words(s)[i].len() ==> !is_space(#[trigger] words(s)[i][k]),
    decreases s.len(),
{
    if is_space(s[0]) {
        lemma_words_are_words(s.drop_first(), i);
    } else {
        let n = word_len(s) as int;
        lemma_word_len_bounds(s);
        if i == 0 {
            assert forall|k: int| 0 <= k < words(s)[0].len() implies !is_space(
                #[trigger] words(s)[0][k],
            ) by {
                lemma_word_len_run(s, k);
            }
        } else {
            lemma_words_are_words(s.skip(n), i - 1);
        }
    }
}

/// A run of `n` characters other than white space, followed by white space
/// or the end of the text, is the leading run.
proof fn lemma_word_len_is(s: Seq<char>, n: int)
    requires
        0 <= n <= s.len(),
        forall|k: int| 0 <= k < n ==> !is_space(s[k]),
        n == s.len() || is_space(s[n]),
    ensures
        word_len(s) == n,
    decreases n,
{
    if n > 0 {
        let rest = s.drop_first();
        assert forall|k: int| 0 <= k < n - 1 implies !is_space(rest[k]) by {
            assert(rest[k] == s[k + 1]);
        }
        lemma_word_len_is(rest, n - 1);
    }
}

/// Splits the characters `from..to` of `line` into words. `chars` holds the
/// characters of `line`.
pub fn split_words<'a>(line: &'a str, chars: &Vec<char>, from: usize, to: usize) -> (out: Vec<
    &'a str,
>)
    requires
        chars@ == line@,
        from <= to <= chars.len(),
    ensures
        slice_texts(out@) == words(line@.subrange(from as int, to as int)),
{
    let ghost all = line@.subrange(from as int, to as int);
    let mut out: Vec<&'a str> = Vec::new();
    let mut i: usize = from;
    assert(slice_texts(out@) =~= Seq::<Seq<char>>::empty());
    while i < to
        invariant
            chars@ == line@,
            from <= i <= to <= chars.len(),
            all == line@.subrange(from as int, to as int),
            slice_texts(out@) + words(line@.subrange(i as int, to as int)) == words(all),
        decreases to - i,
    {
        let ghost rest = line@.subrange(i as int, to as int);
        if is_whitespace(chars[i]) {
            assert(rest.drop_first() =~= line@.subrange(i + 1, to as int));
            i += 1;
        } else {
            let mut j: usize = i + 1;
            while j < to && !is_whitespace(chars[j])
                invariant
                    chars@ == line@,
                    i < j <= to <= chars.len(),
                    forall|k: int| i <= k < j ==> !is_space(line@[k]),
                decreases to - j,
            {
                j += 1;
            }
            let word = line.substring_char(i, j);
            proof {
                assert forall|k: int| 0 <= k < j - i implies !is_space(rest[k]) by {
                    assert(rest[k] == line@[i + k]);
                }
                lemma_word_len_is(rest, j - i);
                assert(rest.take(j - i) =~= line@.subrange(i as int, j as int));
                assert(rest.skip(j - i) =~= line@.subrange(j as int, to as int));
                assert(slice_texts(out@.push(word)) =~= slice_texts(out@) + seq![word@]);
                assert(words(rest) == seq![word@] + words(line@.subrange(j as int, to as int)));
                assert(slice_texts(out@.push(word)) + words(line@.subrange(j as int, to as int))
                    =~= slice_texts(out@) + words(rest));
            }
            out.push(word);
            i = j;
        }
    }
    assert(line@.subrange(to as int, to as int) =~= Seq::<char>::empty());
    assert(slice_texts(out@) + Seq::<Seq<char>>::empty() =~= slice_texts(out@));
    out
}

/// The value of a decimal digit.
pub open spec fn digit_value(c: char) -> int {
    c as u32 - '0' as u32
}

/// Whether a character is a decimal digit.
pub open spec fn is_digit(c: char) -> bool {
    '0' <= c <= '9'
}

/// Every character is a decimal digit.
pub open spec fn all_digits(s: Seq<char>) -> bool {
    forall|i: int| 0 <= i < s.len() ==> is_digit(#[trigger] s[i])
}

/// The number that a run of decimal digits writes.
pub open spec fn decimal_value(s: Seq<char>) -> int
    decreases s.len(),
{
    if s.len() == 0 {
        0
    } else {
        10 * decimal_value(s.drop_last()) + digit_value(s.last())
    }
}

/// The 32-bit signed integer that a text writes in decimal: an optional
/// sign, then at least one digit and nothing else, within the range of the
/// type.
pub open spec fn parsed_i32(s: Seq<char>) -> Option<i32> {
    let signed = s.len() > 0 && (s[0] == '-' || s[0] == '+');
    let negative = s.len() > 0 && s[0] == '-';
    let digits = if signed {
        s.skip(1)
    } else {
        s
    };
    if digits.len() == 0 || !all_digits(digits) {
        None
    } else {
        let magnitude = decimal_value(digits);
        let value = if negative {
            -magnitude
        } else {
            magnitude
        };
        if i32::MIN <= value <= i32::MAX {
            Some(value as i32)
        } else {
            None
        }
    }
}

/// A run of digits writes a number no smaller than any of its prefixes.
proof fn lemma_decimal_value_grows(s: Seq<char>, n: int)
    requires
        0 <= n <= s.len(),
        all_digits(s),
    ensures
        0 <= decimal_value(s.take(n)) <= decimal_value(s),
    decreases s.len() - n,
{
    if n == s.len() {
        assert(s.take(n) =~= s);
        lemma_decimal_value_nonneg(s);
    } else {
        lemma_decimal_value_grows(s, n + 1);
        let longer = s.take(n + 1);
        assert(longer.drop_last() =~= s.take(n));
        assert(is_digit(s[n]));
        assert(longer.last() == s[n]);
        lemma_decimal_value_nonneg(s.take(n));
    }
}

proof fn lemma_decimal_value_nonneg(s: Seq<char>)
    requires
        all_digits(s),
    ensures
        0 <= decimal_value(s),
    decreases s.len(),
{
    if s.len() > 0 {
        assert(is_digit(s.last()));
        assert forall|i: int| 0 <= i < s.drop_last().len() implies is_digit(
            #[trigger] s.drop_last()[i],
        ) by {
            assert(s.drop_last()[i] == s[i]);
        }
        lemma_decimal_value_nonneg(s.drop_last());
    }
}

/// Reads a 32-bit signed integer written in decimal.
pub fn parse_i32(text: &str) -> (r: Option<i32>)
    ensures
        r == parsed_i32(text@),
{
    let chars = chars_of(text);
    let n = chars.len();
    if n == 0 {
        return None;
    }
    let negative = chars[0] == '-';
    let signed = negative || chars[0] == '+';
    let start: usize = if signed {
        1
    } else {
        0
    };
    if start == n {
        return None;
    }
    let ghost digits = if signed {
        text@.skip(1)
    } else {
        text@
    };
    assert(digits =~= text@.subrange(start as int, n as int));
    let limit: i64 = 2147483648;
    let mut magnitude: i64 = 0;
    let mut i: usize = start;
    while i < n
        invariant
            chars@ == text@,
            n == chars.len(),
            start <= i <= n,
            digits == text@.subrange(start as int, n as int),
            digits == if signed {
                text@.skip(1)
            } else {
                text@
            },
            signed == (text@.len() > 0 && (text@[0] == '-' || text@[0] == '+')),
            negative == (text@.len() > 0 && text@[0] == '-'),
            start < n,
            all_digits(digits.take(i - start)),
            magnitude == decimal_value(digits.take(i - start)),
            0 <= magnitude <= limit,
            limit == 2147483648,
        decreases n - i,
    {
        let c = chars[i];
        if !(c >= '0' && c <= '9') {
            assert(!is_digit(digits[i - start]));
            return None;
        }
        let d: i64 = (c as u32 - '0' as u32) as i64;
        proof {
            let shorter = digits.take(i - start);
            let longer = digits.take(i + 1 - start);
            assert(longer.drop_last() =~= shorter);
            assert(longer.last() == c);
            assert forall|k: int| 0 <= k < longer.len() implies is_digit(#[trigger] longer[k]) by {
                if k < shorter.len() {
                    assert(longer[k] == shorter[k]);
                }
            }
        }
        magnitude = magnitude * 10 + d;
        if magnitude > limit {
            // Too large already; a later character can only make the text
            // longer or spoil it.
            proof {
                if all_digits(digits) {
                    lemma_decimal_value_grows(digits, i + 1 - start);
                }
            }
            return None;
        }
        i += 1;
    }
    assert(digits.take(n - start) =~= digits);
    if negative {
        Some((-magnitude) as i32)
    } else if magnitude == limit {
        None
    } else {
        Some(magnitude as i32)
    }
}

} // verus!
