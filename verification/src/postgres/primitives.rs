//! The outside functions that SCRAM-SHA-256 rests on, with what is believed of each.

use hmac::crypto_mac::{InvalidKeyLength, MacError};
use hmac::{Hmac, Mac};
use rand::Rng;
use sha2::{Digest, Sha256};
use vstd::prelude::*;

verus! {

/// The error of `Mac::new_varkey`.
#[verifier::external_type_specification]
#[verifier::external_body]
pub struct ExInvalidKeyLength(hmac::crypto_mac::InvalidKeyLength);

/// The error of `Mac::verify`.
#[verifier::external_type_specification]
#[verifier::external_body]
pub struct ExMacError(hmac::crypto_mac::MacError);

/// The error of `saslprep`.
#[verifier::external_type_specification]
#[verifier::external_body]
pub struct ExStringprepError(stringprep::Error);

/// Whether SHA-256 can count the bits of an input of this many bytes, with a block of padding
/// in front of it, in its 64-bit counter.
pub open spec fn hashable(length: nat) -> bool {
    8 * (length + 64) < 0x1_0000_0000_0000_0000
}

/// The authentication code that HMAC-SHA-256 gives to a message under a key.
pub uninterp spec fn hmac_sha256_code(key: Seq<u8>, message: Seq<u8>) -> Seq<u8>;

/// The SHA-256 digest of some data.
pub uninterp spec fn sha256_digest(data: Seq<u8>) -> Seq<u8>;

/// The text that SASLprep makes of a text, or `None` if it prohibits the text.
pub uninterp spec fn saslprep_output(text: Seq<char>) -> Option<Seq<char>>;

/// `new_varkey`, `input`, `result` and `code` of `hmac::Hmac<Sha256>`: keys of every length are
/// taken, and the code depends on the key and the message alone.
#[verifier::external_body]
pub(crate) fn hmac_sha256(key: &[u8], message: &[u8]) -> (code: Result<[u8; 32], InvalidKeyLength>)
    requires
        hashable(key@.len()),
        hashable(message@.len()),
    ensures
        code matches Ok(code) && code@ == hmac_sha256_code(key@, message@),
{
    let mut mac = Hmac::<Sha256>::new_varkey(key)?;
    mac.input(message);
    Ok(mac.result().code().into())
}

/// `new_varkey`, `input` and `verify` of `hmac::Hmac<Sha256>`: keys of every length are taken,
/// and a code is accepted if it is the message's code under the key, and refused otherwise. One
/// that is accepted has 32 bytes.
#[verifier::external_body]
pub(crate) fn hmac_sha256_verify(key: &[u8], message: &[u8], code: &[u8]) -> (verdict: Result<
    Result<(), MacError>,
    InvalidKeyLength,
>)
    requires
        hashable(key@.len()),
        hashable(message@.len()),
    ensures
        verdict matches Ok(verdict) && (verdict is Ok <==> code@ == hmac_sha256_code(
            key@,
            message@,
        )),
        verdict matches Ok(Ok(_)) ==> code@.len() == 32,
{
    let mut mac = Hmac::<Sha256>::new_varkey(key)?;
    mac.input(message);
    Ok(mac.verify(code))
}

/// `sha2::Sha256::digest`: the digest depends on the data alone.
#[verifier::external_body]
pub(crate) fn sha256(data: &[u8]) -> (digest: [u8; 32])
    requires
        hashable(data@.len()),
    ensures
        digest@ == sha256_digest(data@),
{
    Sha256::digest(data).into()
}

/// Whether a text is made of ASCII characters that are no control characters.
pub open spec fn is_plain_ascii(text: Seq<char>) -> bool {
    forall|i: int| 0 <= i < text.len() ==> ' ' <= #[trigger] text[i] <= '~'
}

/// `stringprep::saslprep`: what comes out depends on the text alone, and ASCII text without
/// control characters comes out as it is.
#[verifier::external_body]
pub(crate) fn saslprep(text: &str) -> (prepared: Result<String, stringprep::Error>)
    ensures
        match prepared {
            Ok(prepared) => saslprep_output(text@) == Some(prepared@),
            Err(_) => saslprep_output(text@) is None,
        },
        is_plain_ascii(text@) ==> (prepared matches Ok(prepared) && prepared@ == text@),
{
    stringprep::saslprep(text).map(|prepared| prepared.into_owned())
}

/// A digit of base64's standard alphabet.
pub open spec fn base64_digit(value: int) -> char {
    if value < 26 {
        ('A' as int + value) as char
    } else if value < 52 {
        ('a' as int + value - 26) as char
    } else if value < 62 {
        ('0' as int + value - 52) as char
    } else if value == 62 {
        '+'
    } else {
        '/'
    }
}

/// A byte of a sequence, or 0 behind its end.
pub open spec fn byte_or_zero(bytes: Seq<u8>, i: int) -> int {
    if i < bytes.len() {
        bytes[i] as int
    } else {
        0
    }
}

/// A character of the base64 text of some bytes: each three bytes make 24 bits, which four
/// characters carry, the highest six first. A character that carries no bit of a byte is `=`.
pub open spec fn base64_char(bytes: Seq<u8>, i: int) -> char {
    let first = i / 4 * 3;
    let bits = byte_or_zero(bytes, first) * 0x1_0000 + byte_or_zero(bytes, first + 1) * 0x100
        + byte_or_zero(bytes, first + 2);
    if first + i % 4 > bytes.len() {
        '='
    } else if i % 4 == 0 {
        base64_digit(bits / 0x4_0000)
    } else if i % 4 == 1 {
        base64_digit(bits / 0x1000 % 64)
    } else if i % 4 == 2 {
        base64_digit(bits / 64 % 64)
    } else {
        base64_digit(bits % 64)
    }
}

/// The base64 text of some bytes, in the standard alphabet, with padding.
pub open spec fn base64_text(bytes: Seq<u8>) -> Seq<char> {
    Seq::new((bytes.len() + 2) / 3 * 4, |i: int| base64_char(bytes, i))
}

/// `base64::encode`: the text in the standard alphabet, with padding. Only a text whose length
/// does not fit in `usize` is out of its reach.
#[verifier::external_body]
pub(crate) fn base64_encode(bytes: &[u8]) -> (text: String)
    requires
        (bytes@.len() + 2) / 3 * 4 <= usize::MAX,
    ensures
        text@ == base64_text(bytes@),
{
    base64::encode(bytes)
}

/// `gen_range` of the generator that `rand::thread_rng` gives: a number that is at least `low`
/// and less than `high`. Nothing is said of which one comes, or of how likely each is; that the
/// operating system has entropy to seed the generator with is taken for granted.
#[verifier::external_body]
pub(crate) fn random_in_range(low: u8, high: u8) -> (number: u8)
    requires
        low < high,
    ensures
        low <= number < high,
{
    rand::thread_rng().gen_range(low, high)
}

} // verus!
