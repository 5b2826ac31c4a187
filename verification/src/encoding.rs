//! Specification-level descriptions of the textual encodings the library
//! relies on (lowercase hex, decimal numerals) and a verified decimal
//! parser.

use vstd::prelude::*;

verus! {

/// The lowercase hex digit for a value below sixteen.
pub open spec fn hex_digit(v: u8) -> char
    recommends
        v < 16,
{
    if v < 10 {
        ((v + 0x30) as u8) as char
    } else {
        ((v + 0x57) as u8) as char
    }
}

/// The lowercase hex encoding of a byte string: two digits per byte, high
/// nibble first.
pub open spec fn hex_of(bytes: Seq<u8>) -> Seq<char>
    decreases bytes.len(),
{
    if bytes.len() == 0 {
        Seq::<char>::empty()
    } else {
        seq![hex_digit(bytes[0] / 16), hex_digit(bytes[0] % 16)] + hex_of(bytes.drop_first())
    }
}

/// The hex encoding writes two digits per byte.
pub proof fn lemma_hex_of_len(bytes: Seq<u8>)
    ensures
        hex_of(bytes).len() == 2 * bytes.len(),
    decreases bytes.len(),
{
    if bytes.len() > 0 {
        lemma_hex_of_len(bytes.drop_first());
    }
}

/// The 16 bytes of a 128-bit identifier, most significant first.
pub open spec fn be_bytes_u128(v: u128) -> Seq<u8> {
    Seq::new(16, |i: int| (v >> (((15 - i) * 8) as u128)) as u8)
}

/// The 8 bytes of a 64-bit value, most significant first.
pub open spec fn be_bytes_u64(v: u64) -> Seq<u8> {
    Seq::new(8, |i: int| (v >> (((7 - i) * 8) as u64)) as u8)
}

/// The canonical hyphenated textual form of a 128-bit identifier: the
/// lowercase hex digits of its 16 big-endian bytes, split 8-4-4-4-12 by
/// four hyphens.
pub open spec fn uuid_chars(id: u128) -> Seq<char> {
    let b = be_bytes_u128(id);
    hex_of(b.subrange(0, 4)) + seq!['-'] + hex_of(b.subrange(4, 6)) + seq!['-'] + hex_of(
        b.subrange(6, 8),
    ) + seq!['-'] + hex_of(b.subrange(8, 10)) + seq!['-'] + hex_of(b.subrange(10, 16))
}

/// Every character the hex encoding writes is a lowercase hex digit.
pub proof fn lemma_hex_of_digits(bytes: Seq<u8>)
    ensures
        forall|i: int|
            0 <= i < hex_of(bytes).len() ==> ('0' <= #[trigger] hex_of(bytes)[i] <= '9' || 'a'
                <= hex_of(bytes)[i] <= 'f'),
    decreases bytes.len(),
{
    if bytes.len() > 0 {
        lemma_hex_of_digits(bytes.drop_first());
        assert(bytes[0] / 16 < 16);
        assert(bytes[0] % 16 < 16);
        assert forall|i: int|
            0 <= i < hex_of(bytes).len() implies ('0' <= #[trigger] hex_of(bytes)[i] <= '9' || 'a'
            <= hex_of(bytes)[i] <= 'f') by {
            if i >= 2 {
                assert(hex_of(bytes)[i] == hex_of(bytes.drop_first())[i - 2]);
            }
        }
    }
}

/// The hyphenated identifier form is 36 characters long.
pub proof fn lemma_uuid_chars_len(id: u128)
    ensures
        uuid_chars(id).len() == 36,
{
    let b = be_bytes_u128(id);
    lemma_hex_of_len(b.subrange(0, 4));
    lemma_hex_of_len(b.subrange(4, 6));
    lemma_hex_of_len(b.subrange(6, 8));
    lemma_hex_of_len(b.subrange(8, 10));
    lemma_hex_of_len(b.subrange(10, 16));
}

/// The hyphenated identifier form holds no dot: only hex digits and
/// hyphens.
pub proof fn lemma_uuid_chars_no_dot(id: u128)
    ensures
        forall|i: int| 0 <= i < uuid_chars(id).len() ==> #[trigger] uuid_chars(id)[i] != '.',
{
    let b = be_bytes_u128(id);
    lemma_hex_of_len(b.subrange(0, 4));
    lemma_hex_of_len(b.subrange(4, 6));
    lemma_hex_of_len(b.subrange(6, 8));
    lemma_hex_of_len(b.subrange(8, 10));
    lemma_hex_of_len(b.subrange(10, 16));
    lemma_hex_of_digits(b.subrange(0, 4));
    lemma_hex_of_digits(b.subrange(4, 6));
    lemma_hex_of_digits(b.subrange(6, 8));
    lemma_hex_of_digits(b.subrange(8, 10));
    lemma_hex_of_digits(b.subrange(10, 16));
}

/// The decimal numeral of `n`, most significant digit first, no sign and no
/// leading zeros (zero itself is the single digit `0`).
pub open spec fn dec_of(n: nat) -> Seq<char>
    decreases n,
{
    if n < 10 {
        seq![((n + 0x30) as u8) as char]
    } else {
        dec_of(n / 10).push(((n % 10 + 0x30) as u8) as char)
    }
}

/// The decimal numeral of a possibly negative number: a minus sign followed
/// by the numeral of the magnitude.
pub open spec fn dec_of_int(n: int) -> Seq<char> {
    if n < 0 {
        seq!['-'] + dec_of((-n) as nat)
    } else {
        dec_of(n as nat)
    }
}

/// Every character of `s` is a decimal digit.
pub open spec fn all_digits(s: Seq<char>) -> bool {
    forall|i: int| 0 <= i < s.len() ==> '0' <= #[trigger] s[i] <= '9'
}

/// The value of a digit string, read most significant digit first.
pub open spec fn digits_val(s: Seq<char>) -> nat
    decreases s.len(),
{
    if s.len() == 0 {
        0
    } else {
        digits_val(s.drop_last()) * 10 + (s.last() as nat - 0x30) as nat
    }
}

/// Ten to the `n`.
pub open spec fn pow10(n: nat) -> nat
    decreases n,
{
    if n == 0 {
        1
    } else {
        10 * pow10((n - 1) as nat)
    }
}

/// Parses a string of decimal digits into a number: at most ten digits
/// (enough for every 32-bit value without padding), nonempty, and a value
/// that fits; anything else is rejected.
pub fn parse_i32_digits(s: &str) -> (r: Option<i32>)
    ensures
        r is Some <==> (0 < s@.len() <= 10 && all_digits(s@) && digits_val(s@) <= i32::MAX),
        r matches Some(v) ==> v == digits_val(s@),
{
    let n = s.unicode_len();
    if n == 0 || n > 10 {
        return None;
    }
    proof {
        lemma_pow10_increases(0, 10);
        assert(s@.take(0) =~= Seq::<char>::empty());
    }
    let mut v: i64 = 0;
    let mut i: usize = 0;
    while i < n
        invariant
            0 < n == s@.len() <= 10,
            i <= n,
            all_digits(s@.take(i as int)),
            v == digits_val(s@.take(i as int)),
            0 <= v < pow10(i as nat),
            pow10(i as nat) <= pow10(10),
        decreases n - i,
    {
        let c = s.get_char(i);
        if c < '0' || c > '9' {
            return None;
        }
        proof {
            lemma_pow10_value();
            lemma_pow10_increases(i as nat + 1, 10);
            assert(pow10(i as nat + 1) == 10 * pow10(i as nat));
            assert(s@.take(i + 1).drop_last() =~= s@.take(i as int));
            assert(s@.take(i + 1).last() == s@[i as int]);
        }
        v = v * 10 + (c as i64 - 0x30);
        i += 1;
        proof {
            assert(all_digits(s@.take(i as int)));
        }
    }
    proof {
        assert(s@.take(n as int) =~= s@);
        lemma_pow10_value();
    }
    if v > i32::MAX as i64 {
        return None;
    }
    Some(v as i32)
}

/// Character-for-character equality of two strings.
pub fn str_eq(a: &str, b: &str) -> (r: bool)
    ensures
        r == (a@ == b@),
{
    let n = a.unicode_len();
    let m = b.unicode_len();
    if n != m {
        return false;
    }
    let mut i: usize = 0;
    while i < n
        invariant
            n == a@.len() == b@.len(),
            i <= n,
            forall|j: int| 0 <= j < i ==> a@[j] == b@[j],
        decreases n - i,
    {
        if a.get_char(i) != b.get_char(i) {
            return false;
        }
        i += 1;
    }
    proof {
        assert(a@ =~= b@);
    }
    true
}

/// Ten to the ten, spelled out.
pub proof fn lemma_pow10_value()
    ensures
        pow10(10) == 10_000_000_000,
{
    reveal_with_fuel(pow10, 11);
}

/// Ten to the `n` does not shrink as `n` grows.
pub proof fn lemma_pow10_increases(a: nat, b: nat)
    requires
        a <= b,
    ensures
        pow10(a) <= pow10(b),
    decreases b,
{
    if a < b {
        lemma_pow10_increases(a, (b - 1) as nat);
        assert(pow10(b) == 10 * pow10((b - 1) as nat));
    }
}

} // verus!
