//! Lowercase hexadecimal rendering of byte strings and of quantities.

use vstd::prelude::*;

verus! {

/// The lowercase hexadecimal digit of a value below sixteen.
pub open spec fn hex_digit(n: int) -> char {
    if n == 0 { '0' }
    else if n == 1 { '1' }
    else if n == 2 { '2' }
    else if n == 3 { '3' }
    else if n == 4 { '4' }
    else if n == 5 { '5' }
    else if n == 6 { '6' }
    else if n == 7 { '7' }
    else if n == 8 { '8' }
    else if n == 9 { '9' }
    else if n == 10 { 'a' }
    else if n == 11 { 'b' }
    else if n == 12 { 'c' }
    else if n == 13 { 'd' }
    else if n == 14 { 'e' }
    else { 'f' }
}

/// Two lowercase digits per byte, high nibble first.
pub open spec fn hex_of_bytes(bytes: Seq<u8>) -> Seq<char>
    decreases bytes.len(),
{
    if bytes.len() == 0 {
        Seq::empty()
    } else {
        let last = bytes.last();
        hex_of_bytes(bytes.drop_last()) + seq![hex_digit((last / 16) as int), hex_digit((last % 16) as int)]
    }
}

/// `0x` followed by the digits of the bytes.
pub open spec fn prefixed_hex_of(bytes: Seq<u8>) -> Seq<char> {
    seq!['0', 'x'] + hex_of_bytes(bytes)
}

/// The digits of a quantity in lowercase hexadecimal, without leading zeros
/// (zero is the single digit `0`).
pub open spec fn hex_of_quantity(n: nat) -> Seq<char>
    decreases n,
{
    if n < 16 {
        seq![hex_digit(n as int)]
    } else {
        hex_of_quantity(n / 16).push(hex_digit((n % 16) as int))
    }
}

/// Appends one character to a string.
///
/// Trusted: `String::push` of std, which the documentation describes as
/// appending the given char to the end of the string.
#[verifier::external_body]
fn push_char(s: &mut String, c: char)
    ensures
        final(s)@ == old(s)@.push(c),
{
    s.push(c);
}

/// The digit character for a nibble.
pub fn hex_digit_char(n: u8) -> (c: char)
    requires
        n < 16,
    ensures
        c == hex_digit(n as int),
{
    if n == 0 { '0' }
    else if n == 1 { '1' }
    else if n == 2 { '2' }
    else if n == 3 { '3' }
    else if n == 4 { '4' }
    else if n == 5 { '5' }
    else if n == 6 { '6' }
    else if n == 7 { '7' }
    else if n == 8 { '8' }
    else if n == 9 { '9' }
    else if n == 10 { 'a' }
    else if n == 11 { 'b' }
    else if n == 12 { 'c' }
    else if n == 13 { 'd' }
    else if n == 14 { 'e' }
    else { 'f' }
}

/// Appends the two-digits-per-byte rendering of `bytes` to `s`.
pub fn push_hex_bytes(s: &mut String, bytes: &[u8])
    ensures
        final(s)@ == old(s)@ + hex_of_bytes(bytes@),
{
    let n = bytes.len();
    let ghost start = s@;
    assert(bytes@.take(0) =~= Seq::<u8>::empty());
    for i in 0..n
        invariant
            n == bytes@.len(),
            s@ == start + hex_of_bytes(bytes@.take(i as int)),
    {
        let b = bytes[i];
        push_char(s, hex_digit_char(b / 16));
        push_char(s, hex_digit_char(b % 16));
        assert(bytes@.take(i + 1).drop_last() =~= bytes@.take(i as int));
        assert(s@ =~= start + hex_of_bytes(bytes@.take(i + 1)));
    }
    assert(bytes@.take(n as int) =~= bytes@);
}

/// Renders `bytes` as `0x` followed by two lowercase digits per byte, the
/// form in which hashes, addresses and keys are shown.
pub fn prefixed_hex(bytes: &[u8]) -> (r: String)
    ensures
        r@ == prefixed_hex_of(bytes@),
{
    let mut s = String::new();
    push_char(&mut s, '0');
    push_char(&mut s, 'x');
    push_hex_bytes(&mut s, bytes);
    assert(s@ =~= prefixed_hex_of(bytes@));
    s
}

/// Appends the digits of `n` in lowercase hexadecimal without leading zeros.
pub fn push_quantity_digits(s: &mut String, n: u64)
    ensures
        final(s)@ == old(s)@ + hex_of_quantity(n as nat),
    decreases n,
{
    if n >= 16 {
        push_quantity_digits(s, n / 16);
    }
    push_char(s, hex_digit_char((n % 16) as u8));
    assert(s@ =~= old(s)@ + hex_of_quantity(n as nat)) by {
        if n >= 16 {
            assert(hex_of_quantity(n as nat) == hex_of_quantity((n / 16) as nat).push(hex_digit((n % 16) as int)));
        }
    }
}

/// The value of a lowercase hexadecimal digit.
pub open spec fn digit_value(c: char) -> int {
    if c == '0' { 0 }
    else if c == '1' { 1 }
    else if c == '2' { 2 }
    else if c == '3' { 3 }
    else if c == '4' { 4 }
    else if c == '5' { 5 }
    else if c == '6' { 6 }
    else if c == '7' { 7 }
    else if c == '8' { 8 }
    else if c == '9' { 9 }
    else if c == 'a' { 10 }
    else if c == 'b' { 11 }
    else if c == 'c' { 12 }
    else if c == 'd' { 13 }
    else if c == 'e' { 14 }
    else { 15 }
}

/// The value of a string of hexadecimal digits, most significant first.
pub open spec fn quantity_value(digits: Seq<char>) -> int
    decreases digits.len(),
{
    if digits.len() == 0 {
        0
    } else {
        quantity_value(digits.drop_last()) * 16 + digit_value(digits.last())
    }
}

/// The bytes that a string of digit pairs stands for.
pub open spec fn bytes_of_hex(digits: Seq<char>) -> Seq<u8>
    decreases digits.len(),
{
    if digits.len() < 2 {
        Seq::empty()
    } else {
        bytes_of_hex(digits.subrange(0, digits.len() - 2)).push(
            (digit_value(digits[digits.len() - 2]) * 16 + digit_value(digits[digits.len() - 1])) as u8)
    }
}

/// Every digit stands for its own value.
proof fn lemma_digit_value(n: int)
    requires
        0 <= n < 16,
    ensures
        digit_value(hex_digit(n)) == n,
{
}

/// Law: a byte string's rendering has two digits per byte.
pub proof fn lemma_hex_of_bytes_len(bytes: Seq<u8>)
    ensures
        hex_of_bytes(bytes).len() == 2 * bytes.len(),
        prefixed_hex_of(bytes).len() == 2 + 2 * bytes.len(),
    decreases bytes.len(),
{
    if bytes.len() > 0 {
        lemma_hex_of_bytes_len(bytes.drop_last());
    }
}

/// Law: the bytes can be read back from their rendering.
pub proof fn lemma_hex_of_bytes_round_trip(bytes: Seq<u8>)
    ensures
        bytes_of_hex(hex_of_bytes(bytes)) == bytes,
    decreases bytes.len(),
{
    if bytes.len() > 0 {
        let init = bytes.drop_last();
        let last = bytes.last();
        lemma_hex_of_bytes_round_trip(init);
        lemma_hex_of_bytes_len(init);
        let text = hex_of_bytes(bytes);
        assert(text.subrange(0, text.len() - 2) =~= hex_of_bytes(init));
        lemma_digit_value((last / 16) as int);
        lemma_digit_value((last % 16) as int);
        assert(text[text.len() - 2] == hex_digit((last / 16) as int));
        assert(text[text.len() - 1] == hex_digit((last % 16) as int));
        assert((last / 16) * 16 + last % 16 == last);
        assert(bytes_of_hex(text) =~= bytes);
    }
}

/// Law: distinct byte strings are rendered as distinct texts.
pub proof fn lemma_prefixed_hex_injective(a: Seq<u8>, b: Seq<u8>)
    requires
        prefixed_hex_of(a) == prefixed_hex_of(b),
    ensures
        a == b,
{
    assert(prefixed_hex_of(a).skip(2) =~= hex_of_bytes(a));
    assert(prefixed_hex_of(b).skip(2) =~= hex_of_bytes(b));
    lemma_hex_of_bytes_round_trip(a);
    lemma_hex_of_bytes_round_trip(b);
}

/// Law: a quantity's digits stand for the quantity, and only zero is
/// written with a leading `0`.
pub proof fn lemma_quantity_round_trip(n: nat)
    ensures
        quantity_value(hex_of_quantity(n)) == n,
        hex_of_quantity(n).len() >= 1,
        hex_of_quantity(n)[0] == '0' ==> n == 0,
    decreases n,
{
    if n < 16 {
        lemma_digit_value(n as int);
        assert(hex_of_quantity(n).drop_last() =~= Seq::<char>::empty());
        assert(quantity_value(Seq::<char>::empty()) == 0);
        assert(hex_of_quantity(n).last() == hex_digit(n as int));
    } else {
        lemma_quantity_round_trip(n / 16);
        lemma_digit_value((n % 16) as int);
        let digits = hex_of_quantity(n);
        assert(digits.drop_last() =~= hex_of_quantity(n / 16));
        assert(digits[0] == hex_of_quantity(n / 16)[0]);
        assert(digits.last() == hex_digit((n % 16) as int));
        assert(quantity_value(digits) == quantity_value(hex_of_quantity(n / 16)) * 16 + digit_value(digits.last()));
        assert((n / 16) * 16 + n % 16 == n);
    }
}

/// The first two digits of a rendering are those of the first byte.
pub proof fn lemma_hex_of_bytes_first(bytes: Seq<u8>)
    requires
        bytes.len() > 0,
    ensures
        hex_of_bytes(bytes).len() >= 2,
        hex_of_bytes(bytes)[0] == hex_digit((bytes[0] / 16) as int),
        hex_of_bytes(bytes)[1] == hex_digit((bytes[0] % 16) as int),
    decreases bytes.len(),
{
    lemma_hex_of_bytes_len(bytes);
    if bytes.len() > 1 {
        let init = bytes.drop_last();
        lemma_hex_of_bytes_first(init);
        assert(init[0] == bytes[0]);
    } else {
        assert(hex_of_bytes(bytes.drop_last()) =~= Seq::<char>::empty());
    }
}

} // verus!
