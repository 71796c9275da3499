//! The HMAC-SHA1 digest of a time-step counter, keyed by a Base32 secret.
use hmac::Mac;
use vstd::prelude::*;

use crate::code::{code_of, is_decimal_digit, lemma_code_shape, totp_code, window_offset};

verus! {

/// Why no code could be computed.
#[derive(Debug, Clone, Copy, PartialEq, Eq, Structural)]
pub enum TotpError {
    /// The secret holds a character outside the RFC 4648 Base32 alphabet.
    InvalidBase32,
    /// The HMAC key could not be built from the decoded secret.
    KeyError,
}

/// A character of the RFC 4648 Base32 alphabet (upper case, no padding).
pub open spec fn is_base32_char(c: char) -> bool {
    ('A' <= c && c <= 'Z') || ('2' <= c && c <= '7')
}

/// A string made of Base32 characters only.
pub open spec fn is_base32(s: Seq<char>) -> bool {
    forall|i: int| 0 <= i < s.len() ==> #[trigger] is_base32_char(s[i])
}

/// The bytes that an unpadded RFC 4648 Base32 string decodes to.
pub uninterp spec fn base32_decoded(s: Seq<char>) -> Seq<u8>;

/// The HMAC-SHA1 tag of `message` under `key`.
pub uninterp spec fn hmac_sha1_of(key: Seq<u8>, message: Seq<u8>) -> Seq<u8>;

/// Relies on `base32::decode` with `Alphabet::Rfc4648 { padding: false }`:
/// it returns `None` exactly when some character is not in `A-Z2-7`
/// (its inverse table maps every other character, `=` included, to -1).
#[verifier::external_body]
fn base32_decode(s: &str) -> (r: Option<Vec<u8>>)
    ensures
        r is Some <==> is_base32(s@),
        r matches Some(b) ==> b@ == base32_decoded(s@),
{
    base32::decode(base32::Alphabet::Rfc4648 { padding: false }, s)
}

/// Relies on `hmac::Hmac<sha1::Sha1>`: `new_from_slice` accepts a key of any
/// length (a long key is hashed first), and `finalize` gives a tag of
/// SHA-1's output size, 20 bytes.
#[verifier::external_body]
fn hmac_sha1(key: &[u8], message: &[u8]) -> (r: Option<Vec<u8>>)
    ensures
        r is Some,
        r matches Some(t) ==> t@ == hmac_sha1_of(key@, message@) && t@.len() == 20,
{
    let mut mac = hmac::Hmac::<sha1::Sha1>::new_from_slice(key).ok()?;
    mac.update(message);
    Some(mac.finalize().into_bytes().to_vec())
}

/// The last `width` base-256 digits of `n`, most significant first.
pub open spec fn big_endian(n: nat, width: nat) -> Seq<u8>
    decreases width,
{
    if width == 0 {
        Seq::empty()
    } else {
        big_endian(n / 256, (width - 1) as nat).push((n % 256) as u8)
    }
}

/// The number of whole time steps since the epoch at `now` seconds.
pub open spec fn step_counter(now: u64, time_step: u64) -> nat
    recommends
        time_step > 0,
{
    (now / time_step) as nat
}

/// The digest for `secret` at `now` seconds: HMAC-SHA1 keyed by the decoded
/// secret, over the 8-byte big-endian step counter.
pub open spec fn digest_of(secret: Seq<char>, time_step: u64, now: u64) -> Result<
    Seq<u8>,
    TotpError,
> {
    if !is_base32(secret) {
        Err(TotpError::InvalidBase32)
    } else {
        Ok(hmac_sha1_of(base32_decoded(secret), big_endian(step_counter(now, time_step), 8)))
    }
}

/// The code of `digits` digits for `secret` at `now` seconds.
pub open spec fn generated_code(secret: Seq<char>, time_step: u64, digits: nat, now: u64) -> Result<
    Seq<char>,
    TotpError,
> {
    match digest_of(secret, time_step, now) {
        Ok(d) => Ok(code_of(d, digits)),
        Err(e) => Err(e),
    }
}

/// The 8-byte big-endian encoding of `n`.
pub fn counter_bytes(n: u64) -> (r: Vec<u8>)
    ensures
        r@ == big_endian(n as nat, 8),
{
    let mut r: Vec<u8> = Vec::new();
    let mut rest: u64 = n;
    let mut i: usize = 0;
    while i < 8
        invariant
            i <= 8,
            big_endian(n as nat, 8) == big_endian(rest as nat, (8 - i) as nat) + r@,
        decreases 8 - i,
    {
        let mut tail = r;
        let ghost tail_view = tail@;
        let mut next: Vec<u8> = Vec::new();
        next.push((rest % 256) as u8);
        next.append(&mut tail);
        assert(big_endian(rest as nat, (8 - i) as nat) + tail_view =~= big_endian(
            (rest / 256) as nat,
            (8 - i - 1) as nat,
        ) + next@);
        r = next;
        rest = rest / 256;
        i = i + 1;
    }
    assert(r@ =~= big_endian(n as nat, 8));
    r
}

/// The digest for `secret` at `now_secs` seconds since the Unix epoch, with
/// steps of `time_step` seconds.
pub fn totp(secret: &str, time_step: u64, now_secs: u64) -> (r: Result<Vec<u8>, TotpError>)
    requires
        time_step > 0,
    ensures
        r matches Ok(d) ==> digest_of(secret@, time_step, now_secs) == Ok::<Seq<u8>, TotpError>(
            d@,
        ) && d@.len() == 20,
        r matches Err(e) ==> digest_of(secret@, time_step, now_secs) == Err::<Seq<u8>, TotpError>(
            e,
        ),
        r is Ok <==> is_base32(secret@),
{
    let key = match base32_decode(secret) {
        Some(k) => k,
        None => return Err(TotpError::InvalidBase32),
    };
    let counter = counter_bytes(now_secs / time_step);
    match hmac_sha1(key.as_slice(), counter.as_slice()) {
        Some(d) => Ok(d),
        None => Err(TotpError::KeyError),
    }
}

/// The current code of `digits` digits for `secret` at `now_secs` seconds
/// since the Unix epoch, with steps of `time_step` seconds.
pub fn generate(secret: &str, time_step: u64, digits: usize, now_secs: u64) -> (r: Result<
    String,
    TotpError,
>)
    requires
        time_step > 0,
        digits <= 9,
    ensures
        r matches Ok(c) ==> generated_code(secret@, time_step, digits as nat, now_secs) == Ok::<
            Seq<char>,
            TotpError,
        >(c@),
        r matches Ok(c) ==> c@.len() == digits && forall|i: int|
            0 <= i < digits ==> #[trigger] is_decimal_digit(c@[i]),
        r matches Err(e) ==> generated_code(secret@, time_step, digits as nat, now_secs) == Err::<
            Seq<char>,
            TotpError,
        >(e),
        r is Ok <==> is_base32(secret@),
{
    let d = totp(secret, time_step, now_secs)?;
    assert(window_offset(d@) + 4 <= 20);
    Ok(totp_code(d.as_slice(), digits))
}

/// Two reads of the clock that fall in the same time step give the same
/// digest, and so the same code.
pub proof fn lemma_same_step_same_code(
    secret: Seq<char>,
    time_step: u64,
    digits: nat,
    t1: u64,
    t2: u64,
)
    requires
        time_step > 0,
        t1 / time_step == t2 / time_step,
    ensures
        digest_of(secret, time_step, t1) == digest_of(secret, time_step, t2),
        generated_code(secret, time_step, digits, t1) == generated_code(
            secret,
            time_step,
            digits,
            t2,
        ),
{
}

/// A valid Base32 secret always yields a code of exactly `digits` decimal
/// digits, whatever the time step and the clock.
pub proof fn lemma_valid_secret_gives_digits(
    secret: Seq<char>,
    time_step: u64,
    digits: nat,
    now: u64,
)
    requires
        time_step > 0,
        is_base32(secret),
    ensures
        generated_code(secret, time_step, digits, now) matches Ok(c) && c.len() == digits
            && forall|i: int| 0 <= i < digits ==> #[trigger] is_decimal_digit(c[i]),
{
    let d = hmac_sha1_of(base32_decoded(secret), big_endian(step_counter(now, time_step), 8));
    lemma_code_shape(d, digits);
}

/// A secret with a character outside the Base32 alphabet (a `1`, an `8`, a
/// lower-case letter, `=`) is rejected with `InvalidBase32`.
pub proof fn lemma_foreign_char_rejected(
    secret: Seq<char>,
    time_step: u64,
    digits: nat,
    now: u64,
    i: int,
)
    requires
        0 <= i < secret.len(),
        !is_base32_char(secret[i]),
    ensures
        digest_of(secret, time_step, now) == Err::<Seq<u8>, TotpError>(TotpError::InvalidBase32),
        generated_code(secret, time_step, digits, now) == Err::<Seq<char>, TotpError>(
            TotpError::InvalidBase32,
        ),
{
}

} // verus!
