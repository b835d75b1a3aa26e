//! Characters and character sequences: white space, trimming, splitting, and
//! the UTF-8 encoding of text.

use vstd::prelude::*;
use vstd::slice::slice_subrange;
use vstd::string::StringExecFns;
use vstd::utf8::{char_is_scalar, encode_scalar, encode_utf8};

verus! {

/// The characters of a string slice, in order.
pub fn collect_chars(s: &str) -> (chars: Vec<char>)
    ensures
        chars@ == s@,
{
    let mut chars: Vec<char> = Vec::new();
    for c in it: s.chars()
        invariant
            chars@ == it.seq().take(it.index() as int),
    {
        chars.push(c);
    }
    chars
}

/// The encoding of a sequence of characters is the encoding of all but the
/// last, followed by the encoding of the last.
pub proof fn lemma_encode_utf8_push(chars: Seq<char>, c: char)
    ensures
        encode_utf8(chars.push(c)) == encode_utf8(chars) + encode_scalar(c as u32),
    decreases chars.len(),
{
    if chars.len() == 0 {
        assert(chars.push(c).drop_first() =~= Seq::<char>::empty());
        assert(encode_utf8(chars.push(c)) =~= encode_scalar(c as u32) + encode_utf8(
            Seq::<char>::empty(),
        ));
    } else {
        lemma_encode_utf8_push(chars.drop_first(), c);
        assert(chars.push(c).drop_first() =~= chars.drop_first().push(c));
    }
}

/// Appends the UTF-8 encoding of one character.
pub fn push_utf8(out: &mut Vec<u8>, c: char)
    ensures
        final(out)@ == old(out)@ + encode_scalar(c as u32),
{
    let scalar: u32 = c as u32;
    proof {
        char_is_scalar(c);
    }
    if scalar <= 0x7F {
        let b0: u8 = (scalar & 0x7F) as u8;
        out.push(b0);
    } else if scalar <= 0x7FF {
        let b0: u8 = 0xC0 | ((scalar >> 6) & 0x1F) as u8;
        let b1: u8 = 0x80 | (scalar & 0x3F) as u8;
        out.push(b0);
        out.push(b1);
    } else if scalar <= 0xFFFF {
        let b0: u8 = 0xE0 | ((scalar >> 12) & 0x0F) as u8;
        let b1: u8 = 0x80 | ((scalar >> 6) & 0x3F) as u8;
        let b2: u8 = 0x80 | (scalar & 0x3F) as u8;
        out.push(b0);
        out.push(b1);
        out.push(b2);
    } else {
        let b0: u8 = 0xF0 | ((scalar >> 18) & 0x7) as u8;
        let b1: u8 = 0x80 | ((scalar >> 12) & 0x3F) as u8;
        let b2: u8 = 0x80 | ((scalar >> 6) & 0x3F) as u8;
        let b3: u8 = 0x80 | (scalar & 0x3F) as u8;
        out.push(b0);
        out.push(b1);
        out.push(b2);
        out.push(b3);
    }
}

/// The UTF-8 encoding of a run of characters.
pub fn utf8_bytes(chars: &[char]) -> (bytes: Vec<u8>)
    ensures
        bytes@ == encode_utf8(chars@),
{
    let mut bytes: Vec<u8> = Vec::new();
    let mut i: usize = 0;
    while i < chars.len()
        invariant
            i <= chars.len(),
            bytes@ == encode_utf8(chars@.take(i as int)),
        decreases chars.len() - i,
    {
        proof {
            lemma_encode_utf8_push(chars@.take(i as int), chars@[i as int]);
            assert(chars@.take(i as int).push(chars@[i as int]) =~= chars@.take(i + 1));
        }
        push_utf8(&mut bytes, chars[i]);
        i = i + 1;
    }
    assert(chars@.take(chars.len() as int) =~= chars@);
    bytes
}

/// The characters that separate words: those with the Unicode property
/// White_Space.
pub open spec fn white_space(c: char) -> bool {
    let v = c as u32;
    ||| 0x09 <= v <= 0x0D
    ||| v == 0x20
    ||| v == 0x85
    ||| v == 0xA0
    ||| v == 0x1680
    ||| 0x2000 <= v <= 0x200A
    ||| v == 0x2028
    ||| v == 0x2029
    ||| v == 0x202F
    ||| v == 0x205F
    ||| v == 0x3000
}

/// Whether a character separates words.
pub fn is_white_space(c: char) -> (r: bool)
    ensures
        r == white_space(c),
{
    let v: u32 = c as u32;
    (0x09 <= v && v <= 0x0D) || v == 0x20 || v == 0x85 || v == 0xA0 || v == 0x1680 || (0x2000 <= v
        && v <= 0x200A) || v == 0x2028 || v == 0x2029 || v == 0x202F || v == 0x205F || v == 0x3000
}

/// The number of characters at the start of `s` that are white space.
pub open spec fn leading_white_space(s: Seq<char>) -> int
    decreases s.len(),
{
    if s.len() > 0 && white_space(s[0]) {
        1 + leading_white_space(s.drop_first())
    } else {
        0
    }
}

/// The number of characters at the end of `s` that are white space.
pub open spec fn trailing_white_space(s: Seq<char>) -> int
    decreases s.len(),
{
    if s.len() > 0 && white_space(s.last()) {
        1 + trailing_white_space(s.drop_last())
    } else {
        0
    }
}

/// The number of characters at the start of `s` that are not white space.
pub open spec fn word_length(s: Seq<char>) -> int
    decreases s.len(),
{
    if s.len() > 0 && !white_space(s[0]) {
        1 + word_length(s.drop_first())
    } else {
        0
    }
}

/// The number of characters of `s` before the first `c`: the length of `s`
/// if it holds none.
pub open spec fn position_of(s: Seq<char>, c: char) -> int
    decreases s.len(),
{
    if s.len() > 0 && s[0] != c {
        1 + position_of(s.drop_first(), c)
    } else {
        0
    }
}

/// `s` without the white space at its start and at its end.
pub open spec fn trimmed(s: Seq<char>) -> Seq<char> {
    let tail = s.skip(leading_white_space(s));
    tail.take(tail.len() - trailing_white_space(tail))
}

/// The white space at the start of `s` is no longer than `s`.
pub proof fn lemma_leading_white_space_bound(s: Seq<char>)
    ensures
        0 <= leading_white_space(s) <= s.len(),
    decreases s.len(),
{
    if s.len() > 0 && white_space(s[0]) {
        lemma_leading_white_space_bound(s.drop_first());
    }
}

/// The word at the start of `s` is no longer than `s`.
pub proof fn lemma_word_length_bound(s: Seq<char>)
    ensures
        0 <= word_length(s) <= s.len(),
    decreases s.len(),
{
    if s.len() > 0 && !white_space(s[0]) {
        lemma_word_length_bound(s.drop_first());
    }
}

/// The first `c` of `s` stands within `s`, or there is none.
pub proof fn lemma_position_of_bound(s: Seq<char>, c: char)
    ensures
        0 <= position_of(s, c) <= s.len(),
    decreases s.len(),
{
    if s.len() > 0 && s[0] != c {
        lemma_position_of_bound(s.drop_first(), c);
    }
}

/// After the white space at the start of `s` comes a word, unless `s` ends
/// there.
pub proof fn lemma_word_after_white_space(s: Seq<char>)
    ensures
        leading_white_space(s) < s.len() ==> word_length(s.skip(leading_white_space(s))) >= 1,
    decreases s.len(),
{
    if s.len() > 0 && white_space(s[0]) {
        lemma_word_after_white_space(s.drop_first());
        lemma_leading_white_space_bound(s.drop_first());
        assert(s.skip(leading_white_space(s)) =~= s.drop_first().skip(
            leading_white_space(s.drop_first()),
        ));
    } else if s.len() > 0 {
        assert(s.skip(0) =~= s);
        lemma_word_length_bound(s.drop_first());
    }
}

/// Counts the white space at the start of `s`.
pub fn count_leading_white_space(s: &[char]) -> (n: usize)
    ensures
        n == leading_white_space(s@),
        n <= s.len(),
{
    let mut i: usize = 0;
    assert(s@.skip(0) =~= s@);
    while i < s.len() && is_white_space(s[i])
        invariant
            i <= s.len(),
            leading_white_space(s@) == i + leading_white_space(s@.skip(i as int)),
        decreases s.len() - i,
    {
        assert(s@.skip(i as int).drop_first() =~= s@.skip(i + 1));
        i = i + 1;
    }
    i
}

/// Counts the white space at the end of `s`.
pub fn count_trailing_white_space(s: &[char]) -> (n: usize)
    ensures
        n == trailing_white_space(s@),
        n <= s.len(),
{
    let mut end: usize = s.len();
    assert(s@.take(end as int) =~= s@);
    while end > 0 && is_white_space(s[end - 1])
        invariant
            end <= s.len(),
            trailing_white_space(s@) == (s.len() - end) + trailing_white_space(
                s@.take(end as int),
            ),
        decreases end,
    {
        assert(s@.take(end as int).drop_last() =~= s@.take(end - 1));
        end = end - 1;
    }
    s.len() - end
}

/// Counts the characters of the word at the start of `s`.
pub fn count_word(s: &[char]) -> (n: usize)
    ensures
        n == word_length(s@),
        n <= s.len(),
{
    let mut i: usize = 0;
    assert(s@.skip(0) =~= s@);
    while i < s.len() && !is_white_space(s[i])
        invariant
            i <= s.len(),
            word_length(s@) == i + word_length(s@.skip(i as int)),
        decreases s.len() - i,
    {
        assert(s@.skip(i as int).drop_first() =~= s@.skip(i + 1));
        i = i + 1;
    }
    i
}

/// The position of the first `c` in `s`, or the length of `s`.
pub fn find(s: &[char], c: char) -> (n: usize)
    ensures
        n == position_of(s@, c),
        n <= s.len(),
{
    let mut i: usize = 0;
    assert(s@.skip(0) =~= s@);
    while i < s.len() && s[i] != c
        invariant
            i <= s.len(),
            position_of(s@, c) == i + position_of(s@.skip(i as int), c),
        decreases s.len() - i,
    {
        assert(s@.skip(i as int).drop_first() =~= s@.skip(i + 1));
        i = i + 1;
    }
    i
}

/// `s` without the white space at its start and at its end.
pub fn trim<'a>(s: &'a [char]) -> (t: &'a [char])
    ensures
        t@ == trimmed(s@),
{
    let start = count_leading_white_space(s);
    let tail = slice_subrange(s, start, s.len());
    let cut = count_trailing_white_space(tail);
    slice_subrange(tail, 0, tail.len() - cut)
}

/// Whether `s` begins with the characters of `prefix`.
pub fn starts_with(s: &[char], prefix: &str) -> (r: bool)
    ensures
        r == prefix@.is_prefix_of(s@),
{
    let mut i: usize = 0;
    for c in it: prefix.chars()
        invariant
            it.seq() == prefix@,
            i == it.index(),
            i <= s.len(),
            forall|j: int| 0 <= j < i ==> s@[j] == prefix@[j],
    {
        if i >= s.len() || s[i] != c {
            return false;
        }
        i = i + 1;
    }
    true
}

/// Whether `s` is made of exactly the characters of `text`.
pub fn same_text(s: &[char], text: &str) -> (r: bool)
    ensures
        r == (s@ == text@),
{
    let mut i: usize = 0;
    for c in it: text.chars()
        invariant
            it.seq() == text@,
            i == it.index(),
            i <= s.len(),
            forall|j: int| 0 <= j < i ==> s@[j] == text@[j],
    {
        if i >= s.len() || s[i] != c {
            return false;
        }
        i = i + 1;
    }
    if i == s.len() {
        assert(s@ =~= text@);
        true
    } else {
        false
    }
}

/// The character that writes one decimal digit.
pub open spec fn digit_char(digit: u8) -> char {
    if digit == 0 {
        '0'
    } else if digit == 1 {
        '1'
    } else if digit == 2 {
        '2'
    } else if digit == 3 {
        '3'
    } else if digit == 4 {
        '4'
    } else if digit == 5 {
        '5'
    } else if digit == 6 {
        '6'
    } else if digit == 7 {
        '7'
    } else if digit == 8 {
        '8'
    } else {
        '9'
    }
}

/// A byte written in decimal, without leading zeros.
pub open spec fn decimal_digits(value: u8) -> Seq<char> {
    if value < 10 {
        seq![digit_char(value)]
    } else if value < 100 {
        seq![digit_char(value / 10), digit_char(value % 10)]
    } else {
        seq![digit_char(value / 100), digit_char((value / 10) % 10), digit_char(value % 10)]
    }
}

fn digit_text(digit: u8) -> (text: &'static str)
    requires
        digit < 10,
    ensures
        text@ == seq![digit_char(digit)],
{
    proof {
        reveal_strlit("0");
        reveal_strlit("1");
        reveal_strlit("2");
        reveal_strlit("3");
        reveal_strlit("4");
        reveal_strlit("5");
        reveal_strlit("6");
        reveal_strlit("7");
        reveal_strlit("8");
        reveal_strlit("9");
    }
    let text = if digit == 0 {
        "0"
    } else if digit == 1 {
        "1"
    } else if digit == 2 {
        "2"
    } else if digit == 3 {
        "3"
    } else if digit == 4 {
        "4"
    } else if digit == 5 {
        "5"
    } else if digit == 6 {
        "6"
    } else if digit == 7 {
        "7"
    } else if digit == 8 {
        "8"
    } else {
        "9"
    };
    text
}

/// A byte written in decimal, without leading zeros.
pub fn decimal_text(value: u8) -> (text: String)
    ensures
        text@ == decimal_digits(value),
{
    let mut text = String::new();
    if value >= 100 {
        text.append(digit_text(value / 100));
    }
    if value >= 10 {
        text.append(digit_text((value / 10) % 10));
    }
    text.append(digit_text(value % 10));
    text
}

} // verus!
