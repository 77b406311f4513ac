//! Operations on text.

use vstd::prelude::*;
use vstd::string::*;

verus! {

/// Whether `c` has the Unicode property White_Space.
pub open spec fn is_white_space(c: char) -> bool {
    let u = c as u32;
    ||| 0x09 <= u <= 0x0d
    ||| u == 0x20
    ||| u == 0x85
    ||| u == 0xa0
    ||| u == 0x1680
    ||| 0x2000 <= u <= 0x200a
    ||| u == 0x2028
    ||| u == 0x2029
    ||| u == 0x202f
    ||| u == 0x205f
    ||| u == 0x3000
}

/// `s` without its leading white space.
pub open spec fn trimmed_start(s: Seq<char>) -> Seq<char>
    decreases s.len(),
{
    if s.len() > 0 && is_white_space(s.first()) {
        trimmed_start(s.drop_first())
    } else {
        s
    }
}

/// `s` without its trailing white space.
pub open spec fn trimmed_end(s: Seq<char>) -> Seq<char>
    decreases s.len(),
{
    if s.len() > 0 && is_white_space(s.last()) {
        trimmed_end(s.drop_last())
    } else {
        s
    }
}

/// `s` without the white space at its two ends.
pub open spec fn trimmed(s: Seq<char>) -> Seq<char> {
    trimmed_end(trimmed_start(s))
}

/// The lower case of an ASCII letter; every other character is left as it is.
pub open spec fn ascii_lower_char(c: char) -> char {
    if 'A' <= c <= 'Z' {
        (c as u32 + 32) as char
    } else {
        c
    }
}

/// `s` with its ASCII letters in lower case.
pub open spec fn ascii_lower(s: Seq<char>) -> Seq<char> {
    s.map_values(|c: char| ascii_lower_char(c))
}

/// `s` without the copies of `c` that it starts with.
pub open spec fn without_prefixes(s: Seq<char>, c: char) -> Seq<char>
    decreases s.len(),
{
    if s.len() > 0 && s.first() == c {
        without_prefixes(s.drop_first(), c)
    } else {
        s
    }
}

/// `s` without the copies of `c` that it ends with.
pub open spec fn without_suffixes(s: Seq<char>, c: char) -> Seq<char>
    decreases s.len(),
{
    if s.len() > 0 && s.last() == c {
        without_suffixes(s.drop_last(), c)
    } else {
        s
    }
}

/// Whether a text consists of decimal digits, at least one.
pub open spec fn is_decimal(text: Seq<char>) -> bool {
    &&& text.len() > 0
    &&& forall|i: int| 0 <= i < text.len() ==> '0' <= #[trigger] text[i] <= '9'
}

/// The number that a sequence of decimal digits writes.
pub open spec fn decimal_value(digits: Seq<char>) -> int
    decreases digits.len(),
{
    if digits.len() == 0 {
        0
    } else {
        decimal_value(digits.drop_last()) * 10 + (digits.last() as int - '0' as int)
    }
}

/// What `s` writes as a 16-bit number: an optional `+` and then decimal digits, at least one.
pub open spec fn u16_text(s: Seq<char>) -> Option<u16> {
    let digits = if s.len() > 0 && s[0] == '+' {
        s.skip(1)
    } else {
        s
    };
    if is_decimal(digits) && decimal_value(digits) <= u16::MAX {
        Some(decimal_value(digits) as u16)
    } else {
        None
    }
}

/// Whether two strings hold the same characters.
pub fn same_text(a: &str, b: &str) -> (same: bool)
    ensures
        same == (a@ == b@),
{
    broadcast use vstd::utf8::encode_utf8_decode_utf8;

    let x = a.as_bytes();
    let y = b.as_bytes();
    proof {
        // equal bytes decode to equal characters
        assert(vstd::utf8::decode_utf8(vstd::utf8::encode_utf8(a@)) == a@);
        assert(vstd::utf8::decode_utf8(vstd::utf8::encode_utf8(b@)) == b@);
    }
    if x.len() != y.len() {
        return false;
    }
    let mut i: usize = 0;
    while i < x.len()
        invariant
            i <= x@.len(),
            x@.len() == y@.len(),
            x@ == vstd::utf8::encode_utf8(a@),
            y@ == vstd::utf8::encode_utf8(b@),
            forall|j: int| 0 <= j < i ==> x@[j] == y@[j],
        decreases x@.len() - i,
    {
        if x[i] != y[i] {
            return false;
        }
        i = i + 1;
    }
    assert(x@ =~= y@);
    true
}

/// `str::to_ascii_lowercase`: documented to return a copy in which the ASCII letters `A` to `Z`
/// are mapped to `a` to `z` and all other characters are unchanged.
#[verifier::external_body]
pub(crate) fn to_ascii_lowercase(s: &str) -> (r: String)
    ensures
        r@ == ascii_lower(s@),
{
    s.to_ascii_lowercase()
}

/// Whether a string starts with another one.
pub fn starts_with(s: &str, prefix: &str) -> (r: bool)
    ensures
        r == prefix@.is_prefix_of(s@),
{
    let len = prefix.unicode_len();
    if s.unicode_len() < len {
        return false;
    }
    let mut i: usize = 0;
    while i < len
        invariant
            i <= len,
            len == prefix@.len(),
            len <= s@.len(),
            forall|j: int| 0 <= j < i ==> prefix@[j] == s@[j],
        decreases len - i,
    {
        if s.get_char(i) != prefix.get_char(i) {
            return false;
        }
        i = i + 1;
    }
    true
}

pub(crate) proof fn lemma_without_prefixes(s: Seq<char>, c: char, n: int)
    requires
        0 <= n <= s.len(),
        forall|j: int| 0 <= j < n ==> s[j] == c,
        n < s.len() ==> s[n] != c,
    ensures
        without_prefixes(s, c) == s.skip(n),
    decreases n,
{
    if n == 0 {
        assert(s.skip(0) =~= s);
    } else {
        lemma_without_prefixes(s.drop_first(), c, n - 1);
        assert(s.drop_first().skip(n - 1) =~= s.skip(n));
    }
}

pub(crate) proof fn lemma_without_suffixes(s: Seq<char>, c: char, n: int)
    requires
        0 <= n <= s.len(),
        forall|j: int| n <= j < s.len() ==> s[j] == c,
        n > 0 ==> s[n - 1] != c,
    ensures
        without_suffixes(s, c) == s.take(n),
    decreases s.len() - n,
{
    if n == s.len() {
        assert(s.take(n) =~= s);
    } else {
        lemma_without_suffixes(s.drop_last(), c, n);
        assert(s.drop_last().take(n) =~= s.take(n));
    }
}

/// A string without the copies of `c` that it starts with.
pub fn trim_start_matches(s: &str, c: char) -> (r: &str)
    ensures
        r@ == without_prefixes(s@, c),
{
    let len = s.unicode_len();
    let mut count: usize = 0;
    let mut leading: bool = true;
    for x in it: s.chars()
        invariant
            it.seq() == s@,
            len == s@.len(),
            count <= it.index() <= len,
            forall|j: int| 0 <= j < count ==> s@[j] == c,
            leading ==> count == it.index(),
            !leading ==> count < len && s@[count as int] != c,
    {
        if leading {
            if x == c {
                count = count + 1;
            } else {
                leading = false;
            }
        }
    }
    proof {
        lemma_without_prefixes(s@, c, count as int);
    }
    s.substring_char(count, len)
}

/// A string without the copies of `c` that it ends with.
pub fn trim_end_matches(s: &str, c: char) -> (r: &str)
    ensures
        r@ == without_suffixes(s@, c),
{
    let len = s.unicode_len();
    let mut i: usize = 0;
    let mut kept: usize = 0;
    for x in it: s.chars()
        invariant
            it.seq() == s@,
            len == s@.len(),
            i == it.index(),
            kept <= i <= len,
            forall|j: int| kept <= j < i ==> s@[j] == c,
            kept > 0 ==> s@[kept - 1] != c,
    {
        i = i + 1;
        if x != c {
            kept = i;
        }
    }
    proof {
        lemma_without_suffixes(s@, c, kept as int);
    }
    s.substring_char(0, kept)
}

/// Whether a character has the Unicode property White_Space.
fn is_space(c: char) -> (r: bool)
    ensures
        r == is_white_space(c),
{
    let u = c as u32;
    (0x09 <= u && u <= 0x0d) || u == 0x20 || u == 0x85 || u == 0xa0 || u == 0x1680 || (0x2000 <= u
        && u <= 0x200a) || u == 0x2028 || u == 0x2029 || u == 0x202f || u == 0x205f || u == 0x3000
}

pub(crate) proof fn lemma_trimmed_start(s: Seq<char>, n: int)
    requires
        0 <= n <= s.len(),
        forall|j: int| 0 <= j < n ==> is_white_space(#[trigger] s[j]),
        n < s.len() ==> !is_white_space(s[n]),
    ensures
        trimmed_start(s) == s.skip(n),
    decreases n,
{
    if n == 0 {
        assert(s.skip(0) =~= s);
    } else {
        lemma_trimmed_start(s.drop_first(), n - 1);
        assert(s.drop_first().skip(n - 1) =~= s.skip(n));
    }
}

pub(crate) proof fn lemma_trimmed_end(s: Seq<char>, n: int)
    requires
        0 <= n <= s.len(),
        forall|j: int| n <= j < s.len() ==> is_white_space(#[trigger] s[j]),
        n > 0 ==> !is_white_space(s[n - 1]),
    ensures
        trimmed_end(s) == s.take(n),
    decreases s.len() - n,
{
    if n == s.len() {
        assert(s.take(n) =~= s);
    } else {
        lemma_trimmed_end(s.drop_last(), n);
        assert(s.drop_last().take(n) =~= s.take(n));
    }
}

/// A string without the white space at its two ends.
pub fn trim(s: &str) -> (r: &str)
    ensures
        r@ == trimmed(s@),
{
    let len = s.unicode_len();
    let mut i: usize = 0;
    // what is kept: from the first character that is no white space up to the last one
    let mut start: usize = 0;
    let mut end: usize = 0;
    for c in it: s.chars()
        invariant
            it.seq() == s@,
            len == s@.len(),
            i == it.index(),
            start <= i <= len,
            end <= i,
            forall|j: int| 0 <= j < start ==> is_white_space(#[trigger] s@[j]),
            forall|j: int| end <= j < i ==> is_white_space(#[trigger] s@[j]),
            end > 0 ==> start < end && !is_white_space(s@[end - 1]) && !is_white_space(
                s@[start as int],
            ),
            end == 0 ==> start == i,
    {
        i = i + 1;
        if !is_space(c) {
            end = i;
        } else if end == 0 {
            start = i;
        }
    }
    proof {
        lemma_trimmed_start(s@, start as int);
        let rest = s@.skip(start as int);
        if end == 0 {
            lemma_trimmed_end(rest, 0);
            assert(rest.take(0) =~= s@.subrange(start as int, start as int));
        } else {
            assert forall|j: int| end - start <= j < rest.len() implies is_white_space(
                #[trigger] rest[j],
            ) by {
                assert(is_white_space(s@[start + j]));
            }
            lemma_trimmed_end(rest, end - start);
            assert(rest.take(end - start) =~= s@.subrange(start as int, end as int));
        }
    }
    if end == 0 {
        s.substring_char(start, start)
    } else {
        s.substring_char(start, end)
    }
}

/// What a string writes as a 16-bit number, if it writes one.
pub fn parse_u16(s: &str) -> (r: Option<u16>)
    ensures
        r == u16_text(s@),
{
    let len = s.unicode_len();
    let start: usize = if len > 0 && s.get_char(0) == '+' {
        1
    } else {
        0
    };
    if start == len {
        return None;
    }
    let digits = s.substring_char(start, len);
    assert(digits@ =~= if s@[0] == '+' {
        s@.skip(1)
    } else {
        s@
    });
    let mut valid = true;
    // the number so far, or 65536 if it is larger than a 16-bit number
    let mut value: u32 = 0;
    let ghost mut wrong: int = 0;
    for c in it: digits.chars()
        invariant
            it.seq() == digits@,
            it.index() <= digits@.len(),
            valid ==> forall|j: int|
                0 <= j < it.index() ==> '0' <= #[trigger] digits@[j] <= '9',
            !valid ==> 0 <= wrong < it.index() && !('0' <= digits@[wrong] <= '9'),
            valid ==> 0 <= value <= 0x1_0000,
            valid && value < 0x1_0000 ==> value == decimal_value(digits@.take(it.index() as int)),
            valid && value == 0x1_0000 ==> decimal_value(digits@.take(it.index() as int))
                >= 0x1_0000,
    {
        let ghost i = it.index() as int;
        assert(digits@.take(i + 1).drop_last() =~= digits@.take(i));
        if valid {
            if '0' <= c && c <= '9' {
                let larger = value * 10 + (c as u32 - '0' as u32);
                value = if larger < 0x1_0000 {
                    larger
                } else {
                    0x1_0000
                };
            } else {
                valid = false;
                proof {
                    wrong = i;
                }
            }
        }
    }
    assert(digits@.take(digits@.len() as int) =~= digits@);
    if valid && value < 0x1_0000 {
        Some(value as u16)
    } else {
        None
    }
}

} // verus!
