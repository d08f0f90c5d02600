//! Operations on string slices that the stages share.

use vstd::prelude::*;
use vstd::string::StringSliceAdditionalSpecFns;
use vstd::utf8::*;

verus! {

/// Tells whether two string slices hold the same characters.
pub fn str_eq(a: &str, b: &str) -> (equal: bool)
    ensures
        equal == (a@ == b@),
{
    let left = a.as_bytes();
    let right = b.as_bytes();
    proof {
        encode_utf8_decode_utf8(a@);
        encode_utf8_decode_utf8(b@);
    }
    if left.len() != right.len() {
        return false;
    }
    let mut i: usize = 0;
    while i < left.len()
        invariant
            i <= left.len(),
            left.len() == right.len(),
            left@ == encode_utf8(a@),
            right@ == encode_utf8(b@),
            forall|k: int| 0 <= k < i ==> left@[k] == right@[k],
        decreases left.len() - i,
    {
        if left[i] != right[i] {
            return false;
        }
        i += 1;
    }
    assert(left@ =~= right@);
    true
}

/// The characters of `text` from byte `from` up to byte `to` of its UTF-8
/// encoding.
pub open spec fn text_between(text: Seq<char>, from: int, to: int) -> Seq<char> {
    decode_utf8(encode_utf8(text).subrange(from, to))
}

/// The characters of `text` from byte `from` of its UTF-8 encoding on.
pub open spec fn text_from(text: Seq<char>, from: int) -> Seq<char> {
    text_between(text, from, encode_utf8(text).len() as int)
}

/// The number of bytes in the UTF-8 encoding of `text`.
pub open spec fn byte_len(text: Seq<char>) -> nat {
    encode_utf8(text).len()
}

/// A character boundary of a text is one of each prefix that ends at a
/// later boundary.
proof fn lemma_boundary_in_prefix(bytes: Seq<u8>, start: int, end: int)
    requires
        valid_utf8(bytes),
        0 <= start <= end <= bytes.len(),
        is_char_boundary(bytes, start),
        is_char_boundary(bytes, end),
    ensures
        valid_utf8(bytes.subrange(0, end)),
        is_char_boundary(bytes.subrange(0, end), start),
{
    valid_utf8_split(bytes, end);
    let head = bytes.subrange(0, end);
    if start == end {
        is_char_boundary_start_end_of_seq(head);
    } else {
        is_char_boundary_iff_not_is_continuation_byte(bytes, start);
        is_char_boundary_iff_not_is_continuation_byte(head, start);
    }
}

/// A text is what stands before one of its character boundaries and what
/// stands behind it, put together.
pub proof fn lemma_text_splits(text: Seq<char>, at: int)
    requires
        0 <= at <= byte_len(text),
        is_char_boundary(encode_utf8(text), at),
    ensures
        text_between(text, 0, at) + text_from(text, at) == text,
        byte_len(text_between(text, 0, at)) == at,
        byte_len(text_from(text, at)) == byte_len(text) - at,
{
    let bytes = encode_utf8(text);
    encode_utf8_valid_utf8(text);
    encode_utf8_decode_utf8(text);
    valid_utf8_split(bytes, at);
    decode_utf8_split(bytes, at);
    decode_utf8_encode_utf8(bytes.subrange(0, at));
    decode_utf8_encode_utf8(bytes.subrange(at, bytes.len() as int));
}

/// Cuts `text` at two character boundaries: gives the part between them and
/// the part behind the second. Where the first boundary is the start of the
/// text, the two parts make up the text.
pub fn cut<'a>(text: &'a str, start: usize, end: usize) -> (parts: (&'a str, &'a str))
    requires
        start <= end <= byte_len(text@),
        is_char_boundary(text.spec_bytes(), start as int),
        is_char_boundary(text.spec_bytes(), end as int),
    ensures
        parts.0@ == text_between(text@, start as int, end as int),
        parts.1@ == text_from(text@, end as int),
        byte_len(parts.0@) == end - start,
        byte_len(parts.1@) == byte_len(text@) - end,
        start == 0 ==> parts.0@ + parts.1@ == text@,
{
    let ghost bytes = text.spec_bytes();
    proof {
        encode_utf8_valid_utf8(text@);
        lemma_boundary_in_prefix(bytes, start as int, end as int);
    }
    let (head, rest) = text.split_at(end);
    let (_, middle) = head.split_at(start);
    proof {
        encode_utf8_decode_utf8(rest@);
        encode_utf8_decode_utf8(middle@);
        assert(head.spec_bytes().subrange(start as int, end as int) =~= bytes.subrange(
            start as int,
            end as int,
        ));
        if start == 0 {
            lemma_text_splits(text@, end as int);
        }
    }
    (middle, rest)
}

/// The character of a decimal digit.
pub open spec fn digit(d: nat) -> char
    recommends
        d < 10,
{
    if d == 0 {
        '0'
    } else if d == 1 {
        '1'
    } else if d == 2 {
        '2'
    } else if d == 3 {
        '3'
    } else if d == 4 {
        '4'
    } else if d == 5 {
        '5'
    } else if d == 6 {
        '6'
    } else if d == 7 {
        '7'
    } else if d == 8 {
        '8'
    } else {
        '9'
    }
}

/// The decimal numeral of `n`: most significant digit first, no leading
/// zero, `0` for zero.
pub open spec fn decimal(n: nat) -> Seq<char>
    decreases n,
{
    if n < 10 {
        seq![digit(n)]
    } else {
        decimal(n / 10).push(digit(n % 10))
    }
}

/// Tells whether `c` is one of the ten decimal digits.
pub open spec fn is_digit(c: char) -> bool {
    '0' <= c <= '9'
}

/// The number that a string of decimal digits denotes, most significant
/// digit first; 0 for the empty string.
pub open spec fn digits_value(digits: Seq<char>) -> nat
    decreases digits.len(),
{
    if digits.len() == 0 {
        0
    } else {
        digits_value(digits.drop_last()) * 10 + (digits.last() as nat - '0' as nat) as nat
    }
}

/// The value of `text` read as a decimal numeral: `None` where `text` is
/// empty, holds anything but digits, or denotes more than `u64::MAX`.
pub open spec fn decimal_value(text: Seq<char>) -> Option<u64> {
    if text.len() > 0 && (forall|i: int| 0 <= i < text.len() ==> is_digit(#[trigger] text[i]))
        && digits_value(text) <= u64::MAX {
        Some(digits_value(text) as u64)
    } else {
        None
    }
}

/// A prefix of a string of digits denotes no more than the whole string.
proof fn lemma_digits_value_prefix(digits: Seq<char>, n: int)
    requires
        0 <= n <= digits.len(),
    ensures
        digits_value(digits.take(n)) <= digits_value(digits),
    decreases digits.len() - n,
{
    if n == digits.len() {
        assert(digits.take(n) =~= digits);
    } else {
        lemma_digits_value_prefix(digits.drop_last(), n);
        assert(digits.drop_last().take(n) =~= digits.take(n));
    }
}

/// Reads `text` as a decimal numeral.
pub fn parse_decimal(text: &str) -> (value: Option<u64>)
    ensures
        value == decimal_value(text@),
{
    if text.is_empty() {
        return None;
    }
    if !text.is_ascii() {
        return None;
    }
    proof {
        is_ascii_chars_encode_utf8(text@);
    }
    let n = text.as_bytes().len();
    let mut value: u64 = 0;
    let mut i: usize = 0;
    while i < n
        invariant
            is_ascii_chars(text@),
            n == text@.len(),
            i <= n,
            forall|k: int| 0 <= k < i ==> is_digit(#[trigger] text@[k]),
            value == digits_value(text@.take(i as int)),
        decreases n - i,
    {
        let byte = text.get_ascii(i);
        if byte < 48 || byte > 57 {
            assert(!is_digit(text@[i as int]));
            return None;
        }
        let d = (byte - 48) as u64;
        proof {
            assert(text@.take(i + 1).drop_last() =~= text@.take(i as int));
            assert(text@.take(i + 1).last() == text@[i as int]);
            assert(digits_value(text@.take(i + 1)) == value * 10 + d);
            lemma_digits_value_prefix(text@, i + 1);
        }
        if value > (u64::MAX - d) / 10 {
            return None;
        }
        value = value * 10 + d;
        i += 1;
    }
    assert(text@.take(n as int) =~= text@);
    Some(value)
}

/// The numeral of a number reads back as that number: what
/// [`append_decimal`] writes, [`parse_decimal`] reads as the value written.
pub proof fn lemma_decimal_reads_back(n: nat)
    ensures
        decimal(n).len() > 0,
        forall|i: int| 0 <= i < decimal(n).len() ==> is_digit(#[trigger] decimal(n)[i]),
        digits_value(decimal(n)) == n,
        n <= u64::MAX ==> decimal_value(decimal(n)) == Some(n as u64),
    decreases n,
{
    if n < 10 {
        let numeral = seq![digit(n)];
        assert(numeral.drop_last() =~= Seq::<char>::empty());
        assert(digits_value(numeral.drop_last()) == 0);
    } else {
        lemma_decimal_reads_back(n / 10);
        let front = decimal(n / 10);
        let numeral = front.push(digit(n % 10));
        assert(numeral.drop_last() =~= front);
        assert(numeral.last() == digit(n % 10));
        assert forall|i: int| 0 <= i < numeral.len() implies is_digit(#[trigger] numeral[i]) by {
            if i < front.len() {
                assert(numeral[i] == front[i]);
            }
        }
    }
}

/// The text of one decimal digit.
fn digit_text(d: u64) -> (text: &'static str)
    requires
        d < 10,
    ensures
        text@ == seq![digit(d as nat)],
{
    proof {
        reveal_strlit("0");
        reveal_strlit("1");
        reveal_strlit("2");
        reveal_strlit("3");
        reveal_strlit("4");
        reveal_strlit("5");
        reveal_strlit("6");
        reveal_strlit("7");
        reveal_strlit("8");
        reveal_strlit("9");
    }
    let text = if d == 0 {
        "0"
    } else if d == 1 {
        "1"
    } else if d == 2 {
        "2"
    } else if d == 3 {
        "3"
    } else if d == 4 {
        "4"
    } else if d == 5 {
        "5"
    } else if d == 6 {
        "6"
    } else if d == 7 {
        "7"
    } else if d == 8 {
        "8"
    } else {
        "9"
    };
    assert(text@ =~= seq![digit(d as nat)]);
    text
}

/// Appends the decimal numeral of `value` to `output`.
pub fn append_decimal(output: &mut String, value: u64)
    ensures
        final(output)@ == old(output)@ + decimal(value as nat),
    decreases value,
{
    if value >= 10 {
        append_decimal(output, value / 10);
    }
    output.append(digit_text(value % 10));
    assert(output@ =~= old(output)@ + decimal(value as nat));
}

} // verus!
