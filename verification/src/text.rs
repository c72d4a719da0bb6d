//! Small verified routines on bytes and strings that the parsers share.

use vstd::prelude::*;
use vstd::string::{StringExecFns, StringSliceAdditionalSpecFns};

verus! {

/// Whether `b` is one of the ASCII digits `0` to `9`.
pub open spec fn is_digit_byte(b: u8) -> bool {
    0x30 <= b <= 0x39
}

/// Whether every byte of `bytes` is an ASCII digit.
pub open spec fn all_digits(bytes: Seq<u8>) -> bool {
    forall|i: int| 0 <= i < bytes.len() ==> is_digit_byte(#[trigger] bytes[i])
}

/// The number that the ASCII digits `bytes` write in base ten.
pub open spec fn decimal(bytes: Seq<u8>) -> nat
    decreases bytes.len(),
{
    if bytes.len() == 0 {
        0
    } else {
        decimal(bytes.drop_last()) * 10 + (bytes.last() - 0x30) as nat
    }
}

/// The number that `bytes` writes, as the integer types of the standard
/// library read it: an optional `+`, then at least one ASCII digit and nothing
/// else. `None` if the text is not of that form or the number exceeds `max`.
pub open spec fn unsigned_of(bytes: Seq<u8>, max: nat) -> Option<nat> {
    let digits = if bytes.len() > 0 && bytes[0] == 0x2b {
        bytes.drop_first()
    } else {
        bytes
    };
    if digits.len() > 0 && all_digits(digits) && decimal(digits) <= max {
        Some(decimal(digits))
    } else {
        None
    }
}

/// The index of the first byte equal to `b` in `bytes`, or the length of
/// `bytes` when there is none.
pub open spec fn index_of(bytes: Seq<u8>, b: u8) -> int
    decreases bytes.len(),
{
    if bytes.len() == 0 {
        0
    } else if bytes[0] == b {
        0
    } else {
        1 + index_of(bytes.drop_first(), b)
    }
}

/// `index_of` is within bounds, points at `b` when it is below the length, and
/// no earlier byte equals `b`.
pub proof fn lemma_index_of(bytes: Seq<u8>, b: u8)
    ensures
        0 <= index_of(bytes, b) <= bytes.len(),
        index_of(bytes, b) < bytes.len() ==> bytes[index_of(bytes, b)] == b,
        forall|j: int| 0 <= j < index_of(bytes, b) ==> #[trigger] bytes[j] != b,
    decreases bytes.len(),
{
    if bytes.len() != 0 && bytes[0] != b {
        let rest = bytes.drop_first();
        lemma_index_of(rest, b);
        assert forall|j: int| 0 <= j < index_of(bytes, b) implies #[trigger] bytes[j] != b by {
            if j > 0 {
                assert(bytes[j] == rest[j - 1]);
            }
        }
    }
}

/// The first place of `b` is `at` when `b` stands there, or the text ends
/// there, and `b` does not stand before it.
pub proof fn lemma_index_of_first(bytes: Seq<u8>, b: u8, at: int)
    requires
        0 <= at <= bytes.len(),
        forall|j: int| 0 <= j < at ==> #[trigger] bytes[j] != b,
        at == bytes.len() || bytes[at] == b,
    ensures
        index_of(bytes, b) == at,
{
    lemma_index_of(bytes, b);
}

/// A prefix of a digit string writes a number that is no larger.
pub proof fn lemma_decimal_prefix(bytes: Seq<u8>, k: int)
    requires
        all_digits(bytes),
        0 <= k <= bytes.len(),
    ensures
        decimal(bytes.take(k)) <= decimal(bytes),
    decreases bytes.len() - k,
{
    if k < bytes.len() {
        lemma_decimal_prefix(bytes, k + 1);
        let longer = bytes.take(k + 1);
        assert(longer.drop_last() =~= bytes.take(k));
        assert(is_digit_byte(bytes[k]));
        assert(longer.last() == bytes[k]);
    } else {
        assert(bytes.take(k) =~= bytes);
    }
}

/// The index of the first byte equal to `b` in `bytes`, or the length of
/// `bytes` when there is none.
pub fn find_byte(bytes: &[u8], b: u8) -> (at: usize)
    ensures
        at == index_of(bytes@, b),
{
    proof {
        lemma_index_of(bytes@, b);
    }
    let mut i: usize = 0;
    while i < bytes.len()
        invariant
            0 <= i <= bytes@.len(),
            forall|j: int| 0 <= j < i ==> #[trigger] bytes@[j] != b,
            0 <= index_of(bytes@, b) <= bytes@.len(),
            index_of(bytes@, b) < bytes@.len() ==> bytes@[index_of(bytes@, b)] == b,
            forall|j: int| 0 <= j < index_of(bytes@, b) ==> #[trigger] bytes@[j] != b,
        decreases bytes@.len() - i,
    {
        if bytes[i] == b {
            return i;
        }
        i += 1;
    }
    i
}

/// Reads `bytes[from..to]` as an unsigned number of at most `max`.
pub(crate) fn parse_unsigned(bytes: &[u8], from: usize, to: usize, max: u32) -> (number: Option<u32>)
    requires
        from <= to <= bytes@.len(),
        max <= 0x0fff_ffff,
    ensures
        match number {
            Some(n) => unsigned_of(bytes@.subrange(from as int, to as int), max as nat) == Some(
                n as nat,
            ),
            None => unsigned_of(bytes@.subrange(from as int, to as int), max as nat) is None,
        },
{
    let ghost text = bytes@.subrange(from as int, to as int);
    let start: usize = if from < to && bytes[from] == 0x2b {
        from + 1
    } else {
        from
    };
    let ghost digits = bytes@.subrange(start as int, to as int);
    assert(digits =~= if text.len() > 0 && text[0] == 0x2b {
        text.drop_first()
    } else {
        text
    });
    if start == to {
        return None;
    }
    let mut value: u32 = 0;
    let mut i: usize = start;
    while i < to
        invariant
            from <= start <= i <= to <= bytes@.len(),
            digits == bytes@.subrange(start as int, to as int),
            text == bytes@.subrange(from as int, to as int),
            digits == if text.len() > 0 && text[0] == 0x2b {
                text.drop_first()
            } else {
                text
            },
            all_digits(digits.take(i - start)),
            value == decimal(digits.take(i - start)),
            value <= max <= 0x0fff_ffff,
        decreases to - i,
    {
        let b = bytes[i];
        let ghost longer = digits.take(i - start + 1);
        proof {
            assert(longer.drop_last() =~= digits.take(i - start));
            assert(longer.last() == b);
        }
        if b < 0x30 || b > 0x39 {
            assert(!is_digit_byte(digits[i - start]));
            return None;
        }
        let next: u32 = value * 10 + (b - 0x30) as u32;
        if next > max {
            proof {
                assert(all_digits(longer));
                if all_digits(digits) {
                    lemma_decimal_prefix(digits, i - start + 1);
                }
            }
            return None;
        }
        value = next;
        assert(all_digits(longer));
        i += 1;
    }
    assert(digits.take(to - start) =~= digits);
    Some(value)
}

/// In valid UTF-8 a character begins right after every ASCII byte.
pub proof fn lemma_boundary_after_ascii(bytes: Seq<u8>, i: int)
    requires
        vstd::utf8::valid_utf8(bytes),
        0 <= i < bytes.len(),
        bytes[i] < 0x80,
    ensures
        vstd::utf8::is_char_boundary(bytes, i + 1),
    decreases bytes.len(),
{
    let first = vstd::utf8::length_of_first_scalar(bytes);
    let rest = vstd::utf8::pop_first_scalar(bytes);
    let b: u8 = bytes[i];
    assert(!vstd::utf8::is_continuation_byte(b) && vstd::utf8::is_leading_byte_width_1(b)
        && !vstd::utf8::is_leading_byte_width_2(b) && !vstd::utf8::is_leading_byte_width_3(b)
        && !vstd::utf8::is_leading_byte_width_4(b)) by (bit_vector)
        requires
            b < 0x80,
    ;
    reveal_with_fuel(vstd::utf8::is_char_boundary, 2);
    if i >= first {
        assert(rest[i - first] == bytes[i]);
        lemma_boundary_after_ascii(rest, i - first);
    }
}

/// The part of `s` from the byte offset `at` on, where `at` is the end of
/// `s` or follows an ASCII byte.
pub(crate) fn str_from(s: &str, at: usize) -> (tail: &str)
    requires
        at <= s.spec_bytes().len(),
        at == 0 || s.spec_bytes()[at - 1] < 0x80,
    ensures
        tail.spec_bytes() == s.spec_bytes().skip(at as int),
{
    proof {
        vstd::utf8::encode_utf8_valid_utf8(s@);
        if at > 0 {
            lemma_boundary_after_ascii(s.spec_bytes(), at - 1);
        }
    }
    let (_, tail) = s.split_at(at);
    assert(tail.spec_bytes() =~= s.spec_bytes().skip(at as int));
    tail
}

/// The part of `s` before the byte offset `at`, where `at` is the end of `s`
/// or the place of an ASCII byte.
pub(crate) fn str_until(s: &str, at: usize) -> (head: &str)
    requires
        at <= s.spec_bytes().len(),
        at == s.spec_bytes().len() || s.spec_bytes()[at as int] < 0x80,
    ensures
        head.spec_bytes() == s.spec_bytes().take(at as int),
{
    proof {
        vstd::utf8::encode_utf8_valid_utf8(s@);
        vstd::utf8::is_char_boundary_start_end_of_seq(s.spec_bytes());
        if at < s.spec_bytes().len() {
            let b: u8 = s.spec_bytes()[at as int];
            assert(!vstd::utf8::is_continuation_byte(b)) by (bit_vector)
                requires
                    b < 0x80,
            ;
            vstd::utf8::is_char_boundary_iff_not_is_continuation_byte(s.spec_bytes(), at as int);
        }
    }
    let (head, _) = s.split_at(at);
    assert(head.spec_bytes() =~= s.spec_bytes().take(at as int));
    head
}

/// The UTF-8 bytes of two texts, one after the other, are the bytes of the
/// first followed by the bytes of the second.
pub proof fn lemma_encode_concat(first: Seq<char>, second: Seq<char>)
    ensures
        vstd::utf8::encode_utf8(first + second) == vstd::utf8::encode_utf8(first)
            + vstd::utf8::encode_utf8(second),
    decreases first.len(),
{
    if first.len() == 0 {
        assert(first + second =~= second);
        assert(vstd::utf8::encode_utf8(first) + vstd::utf8::encode_utf8(second)
            =~= vstd::utf8::encode_utf8(second));
    } else {
        lemma_encode_concat(first.drop_first(), second);
        assert((first + second).drop_first() =~= first.drop_first() + second);
        assert((first + second)[0] == first[0]);
        assert(vstd::utf8::encode_utf8(first + second) =~= vstd::utf8::encode_utf8(first)
            + vstd::utf8::encode_utf8(second));
    }
}

/// The characters of a string are what its bytes decode to.
pub proof fn lemma_str_decodes(s: &str)
    ensures
        s@ == vstd::utf8::decode_utf8(s.spec_bytes()),
        vstd::utf8::valid_utf8(s.spec_bytes()),
{
    vstd::utf8::encode_utf8_decode_utf8(s@);
    vstd::utf8::encode_utf8_valid_utf8(s@);
}

/// A string of `n` digits writes a number below ten to the power `n`; stated
/// here for the widths that dates use.
pub proof fn lemma_decimal_bound(bytes: Seq<u8>)
    requires
        all_digits(bytes),
        bytes.len() <= 4,
    ensures
        bytes.len() == 2 ==> decimal(bytes) <= 99,
        bytes.len() == 4 ==> decimal(bytes) <= 9999,
        bytes.len() > 0 ==> bytes[0] != 0x2b,
{
    reveal_with_fuel(decimal, 5);
    if bytes.len() > 0 {
        assert(is_digit_byte(bytes[0]));
        let a = bytes.drop_last();
        assert(is_digit_byte(bytes.last()));
        if a.len() > 0 {
            assert(is_digit_byte(a.last()));
            let b = a.drop_last();
            if b.len() > 0 {
                assert(is_digit_byte(b.last()));
                let c = b.drop_last();
                if c.len() > 0 {
                    assert(is_digit_byte(c.last()));
                }
            }
        }
    }
}

/// Calls `std::str::from_utf8`, which gives the bytes back as a string
/// exactly when they are valid UTF-8.
#[verifier::external_body]
pub(crate) fn utf8_text(bytes: &[u8]) -> (text: Option<&str>)
    ensures
        match text {
            Some(s) => vstd::utf8::valid_utf8(bytes@) && s.spec_bytes() == bytes@,
            None => !vstd::utf8::valid_utf8(bytes@),
        },
{
    std::str::from_utf8(bytes).ok()
}

/// Whether `bytes` begins with `prefix`.
pub open spec fn has_prefix(bytes: Seq<u8>, prefix: Seq<u8>) -> bool {
    prefix.len() <= bytes.len() && bytes.take(prefix.len() as int) == prefix
}

/// Whether `bytes` begins with `prefix`.
pub fn starts_with(bytes: &[u8], prefix: &[u8]) -> (yes: bool)
    ensures
        yes == has_prefix(bytes@, prefix@),
{
    if prefix.len() > bytes.len() {
        return false;
    }
    let mut i: usize = 0;
    while i < prefix.len()
        invariant
            0 <= i <= prefix@.len() <= bytes@.len(),
            forall|j: int| 0 <= j < i ==> bytes@[j] == prefix@[j],
        decreases prefix@.len() - i,
    {
        if bytes[i] != prefix[i] {
            assert(bytes@.take(prefix@.len() as int)[i as int] != prefix@[i as int]);
            return false;
        }
        i += 1;
    }
    assert(bytes@.take(prefix@.len() as int) =~= prefix@);
    true
}

/// The number of bytes equal to `b` at the start of `bytes`.
pub open spec fn leading(bytes: Seq<u8>, b: u8) -> int
    decreases bytes.len(),
{
    if bytes.len() > 0 && bytes[0] == b {
        1 + leading(bytes.drop_first(), b)
    } else {
        0
    }
}

/// The number of bytes equal to `b` at the end of `bytes`.
pub open spec fn trailing(bytes: Seq<u8>, b: u8) -> int
    decreases bytes.len(),
{
    if bytes.len() > 0 && bytes.last() == b {
        1 + trailing(bytes.drop_last(), b)
    } else {
        0
    }
}

/// `bytes` without the bytes equal to `b` at its start and at its end.
pub open spec fn trimmed(bytes: Seq<u8>, b: u8) -> Seq<u8> {
    let rest = bytes.skip(leading(bytes, b));
    rest.take(rest.len() - trailing(rest, b))
}

/// `leading` counts a run of `b` at the start that ends before the length or
/// at a byte that differs.
pub proof fn lemma_leading(bytes: Seq<u8>, b: u8, n: int)
    requires
        0 <= n <= bytes.len(),
        forall|j: int| 0 <= j < n ==> bytes[j] == b,
        n == bytes.len() || bytes[n] != b,
    ensures
        leading(bytes, b) == n,
    decreases n,
{
    if n > 0 {
        let rest = bytes.drop_first();
        assert forall|j: int| 0 <= j < n - 1 implies rest[j] == b by {
            assert(rest[j] == bytes[j + 1]);
        }
        lemma_leading(rest, b, n - 1);
    }
}

/// `trailing` counts a run of `b` at the end that begins at the start or
/// after a byte that differs.
pub proof fn lemma_trailing(bytes: Seq<u8>, b: u8, n: int)
    requires
        0 <= n <= bytes.len(),
        forall|j: int| bytes.len() - n <= j < bytes.len() ==> bytes[j] == b,
        n == bytes.len() || bytes[bytes.len() - n - 1] != b,
    ensures
        trailing(bytes, b) == n,
    decreases n,
{
    if n > 0 {
        let rest = bytes.drop_last();
        assert forall|j: int| rest.len() - (n - 1) <= j < rest.len() implies rest[j] == b by {
            assert(rest[j] == bytes[j]);
        }
        lemma_trailing(rest, b, n - 1);
    }
}

/// The string without the ASCII character `b` at its start and at its end,
/// however often it stands there.
pub(crate) fn trim_matches<'a>(s: &'a str, b: u8) -> (inner: &'a str)
    requires
        b < 0x80,
    ensures
        inner.spec_bytes() == trimmed(s.spec_bytes(), b),
{
    let bytes = s.as_bytes();
    let mut start: usize = 0;
    while start < bytes.len() && bytes[start] == b
        invariant
            0 <= start <= bytes@.len(),
            forall|j: int| 0 <= j < start ==> bytes@[j] == b,
        decreases bytes@.len() - start,
    {
        start += 1;
    }
    proof {
        lemma_leading(bytes@, b, start as int);
    }
    let rest = str_from(s, start);
    let rb = rest.as_bytes();
    let mut end: usize = rb.len();
    while end > 0 && rb[end - 1] == b
        invariant
            0 <= end <= rb@.len(),
            forall|j: int| end <= j < rb@.len() ==> rb@[j] == b,
        decreases end,
    {
        end -= 1;
    }
    proof {
        lemma_trailing(rb@, b, rb@.len() - end);
    }
    str_until(rest, end)
}

/// The texts of a list of strings.
pub open spec fn strings_view(list: Seq<String>) -> Seq<Seq<char>> {
    Seq::new(list.len(), |i: int| list[i]@)
}

/// Appends a copy of `text` to a list of strings.
pub fn push_text(list: &mut Vec<String>, text: &str)
    ensures
        strings_view(final(list)@) == strings_view(old(list)@).push(text@),
{
    list.push(String::from_str(text));
    assert(strings_view(list@) =~= strings_view(old(list)@).push(text@));
}

/// Whether two strings hold the same characters.
pub fn str_eq(a: &str, b: &str) -> (same: bool)
    ensures
        same == (a@ == b@),
{
    let x = a.as_bytes();
    let y = b.as_bytes();
    proof {
        vstd::utf8::encode_utf8_decode_utf8(a@);
        vstd::utf8::encode_utf8_decode_utf8(b@);
    }
    if x.len() != y.len() {
        return false;
    }
    let mut i: usize = 0;
    while i < x.len()
        invariant
            0 <= i <= x@.len(),
            x@.len() == y@.len(),
            x@ == a.spec_bytes(),
            y@ == b.spec_bytes(),
            forall|j: int| 0 <= j < i ==> x@[j] == y@[j],
        decreases x@.len() - i,
    {
        if x[i] != y[i] {
            return false;
        }
        i += 1;
    }
    assert(x@ =~= y@);
    true
}

} // verus!
