//! Dynamic truncation of an HMAC digest into a zero-padded decimal code.
use vstd::prelude::*;
use vstd::string::*;

verus! {

/// `10` raised to the power `n`.
pub open spec fn pow10(n: nat) -> nat
    decreases n,
{
    if n == 0 {
        1
    } else {
        10 * pow10((n - 1) as nat)
    }
}

/// The ten decimal digit characters, in order of value.
pub open spec fn decimal_digits() -> Seq<char> {
    seq!['0', '1', '2', '3', '4', '5', '6', '7', '8', '9']
}

/// The last `width` decimal digits of `n`, most significant first; for
/// `n < 10^width` this is `n` written in decimal and left-padded with zeros.
pub open spec fn padded_decimal(n: nat, width: nat) -> Seq<char>
    decreases width,
{
    if width == 0 {
        Seq::empty()
    } else {
        padded_decimal(n / 10, (width - 1) as nat).push(decimal_digits()[(n % 10) as int])
    }
}

/// Position of the 4-byte window selected by the low nibble of the last byte.
pub open spec fn window_offset(digest: Seq<u8>) -> int {
    (digest.last() % 16) as int
}

/// The 31-bit big-endian integer read from the window, its top bit cleared.
pub open spec fn truncated_value(digest: Seq<u8>) -> nat {
    let o = window_offset(digest);
    ((digest[o] % 128) * 16777216 + digest[o + 1] * 65536 + digest[o + 2] * 256
        + digest[o + 3]) as nat
}

/// The code of `width` digits for a digest: the truncated value modulo
/// `10^width`, zero-padded.
pub open spec fn code_of(digest: Seq<u8>, width: nat) -> Seq<char> {
    padded_decimal(truncated_value(digest) % pow10(width), width)
}

/// A digest from which a window can be read.
pub open spec fn window_in_bounds(digest: Seq<u8>) -> bool {
    digest.len() > 0 && window_offset(digest) + 4 <= digest.len()
}

/// A character `0` to `9`.
pub open spec fn is_decimal_digit(c: char) -> bool {
    '0' <= c && c <= '9'
}

proof fn lemma_padded_decimal_shape(n: nat, width: nat)
    ensures
        padded_decimal(n, width).len() == width,
        forall|i: int|
            0 <= i < width ==> #[trigger] is_decimal_digit(padded_decimal(n, width)[i]),
    decreases width,
{
    if width > 0 {
        lemma_padded_decimal_shape(n / 10, (width - 1) as nat);
        assert(is_decimal_digit(decimal_digits()[(n % 10) as int]));
    }
}

/// Every code has exactly `width` characters, all of them decimal digits.
pub proof fn lemma_code_shape(digest: Seq<u8>, width: nat)
    ensures
        code_of(digest, width).len() == width,
        forall|i: int| 0 <= i < width ==> #[trigger] is_decimal_digit(code_of(digest, width)[i]),
{
    lemma_padded_decimal_shape(truncated_value(digest) % pow10(width), width);
}

/// For at most nine digits the modulus `10^digits` fits in a `u32`.
pub proof fn lemma_pow10_fits_u32(digits: nat)
    requires
        digits <= 9,
    ensures
        1 <= pow10(digits) <= u32::MAX,
{
    lemma_pow10_monotone(0, digits);
    lemma_pow10_monotone(digits, 9);
    reveal_with_fuel(pow10, 10);
    assert(pow10(9) == 1_000_000_000);
}

proof fn lemma_pow10_monotone(a: nat, b: nat)
    requires
        a <= b,
    ensures
        pow10(a) <= pow10(b),
    decreases b,
{
    if a < b {
        lemma_pow10_monotone(a, (b - 1) as nat);
    }
}

/// `10^digits`, computed in `u32`.
fn pow10_u32(digits: usize) -> (r: u32)
    requires
        digits <= 9,
    ensures
        r as nat == pow10(digits as nat),
{
    let mut r: u32 = 1;
    let mut i: usize = 0;
    while i < digits
        invariant
            i <= digits <= 9,
            r as nat == pow10(i as nat),
        decreases digits - i,
    {
        proof {
            lemma_pow10_fits_u32((i + 1) as nat);
        }
        r = r * 10;
        i = i + 1;
    }
    r
}

/// Dynamic truncation: reads the 4-byte window at the offset given by the low
/// nibble of the last byte, clears its top bit, reduces it modulo
/// `10^digits` and renders it as exactly `digits` decimal characters.
pub fn totp_code(digest: &[u8], digits: usize) -> (r: String)
    requires
        window_in_bounds(digest@),
        digits <= 9,
    ensures
        r@ == code_of(digest@, digits as nat),
        r@.len() == digits,
        forall|i: int| 0 <= i < digits ==> #[trigger] is_decimal_digit(r@[i]),
{
    let last = digest[digest.len() - 1];
    let offset: usize = (last & 0xf) as usize;
    assert(last & 0xf == last % 16) by (bit_vector);
    let b0 = digest[offset];
    let high = b0 & 0x7f;
    assert(b0 & 0x7f == b0 % 128) by (bit_vector);
    let code: u32 = (high as u32) * 16777216 + (digest[offset + 1] as u32) * 65536
        + (digest[offset + 2] as u32) * 256 + digest[offset + 3] as u32;
    let modulus = pow10_u32(digits);
    proof {
        lemma_pow10_fits_u32(digits as nat);
    }
    let mut rest: u32 = code % modulus;
    let ghost value: nat = rest as nat;
    let mut result = String::new();
    let ds = "0123456789";
    proof {
        reveal_strlit("0123456789");
    }
    let mut i: usize = 0;
    while i < digits
        invariant
            i <= digits,
            ds@ == decimal_digits(),
            padded_decimal(value, digits as nat) == padded_decimal(rest as nat, (digits - i) as nat)
                + result@,
        decreases digits - i,
    {
        let d = (rest % 10) as usize;
        let digit = ds.substring_char(d, d + 1);
        assert(digit@ =~= seq![decimal_digits()[d as int]]);
        let tail = result;
        result = String::from_str(digit).concat(tail.as_str());
        assert(padded_decimal(rest as nat, (digits - i) as nat) + tail@ =~= padded_decimal(
            (rest / 10) as nat,
            (digits - i - 1) as nat,
        ) + result@);
        rest = rest / 10;
        i = i + 1;
    }
    assert(result@ =~= padded_decimal(value, digits as nat));
    proof {
        lemma_code_shape(digest@, digits as nat);
    }
    result
}

} // verus!
