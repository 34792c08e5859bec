//! The key derivation, the message authentication code, the hexadecimal text and the random
//! bytes that a signed session needs.

use vstd::prelude::*;

use hmac::{Hmac, Mac};
use rand::rngs::OsRng;
use rand::RngCore;
use sha2::Sha256;
use vstd::string::StringSliceAdditionalSpecFns;
use vstd::utf8::{encode_utf8, is_ascii_chars, is_ascii_chars_encode_utf8};

verus! {

/// The length of a signing key in bytes.
pub const HMAC_KEY_LENGTH: usize = 32;

/// The length of a salt in bytes.
pub const SALT_LENGTH: usize = 16;

/// The longest password that the key derivation takes, in bytes.
pub const MAX_PASSWORD_LENGTH: u64 = 0xFFFF_FFFF;

/// The 32 bytes that Argon2id with the default parameters of the `argon2` crate makes of a
/// password and a salt.
pub uninterp spec fn argon2id_key(password: Seq<u8>, salt: Seq<u8>) -> Seq<u8>;

/// Calls `argon2::Argon2::hash_password_into` on the default context. With a salt of 16 bytes
/// and an output of 32 it fails on exactly the passwords that are longer than its limit, with
/// the error whose text says so; else its output is a function of password and salt.
#[verifier::external_body]
pub(crate) fn derive_key(password: &[u8], salt: &[u8; SALT_LENGTH]) -> (r: Result<
    [u8; HMAC_KEY_LENGTH],
    String,
>)
    ensures
        r is Ok <==> password@.len() <= MAX_PASSWORD_LENGTH,
        r matches Ok(key) ==> key@ == argon2id_key(password@, salt@),
        r matches Err(text) ==> text@ == "password is too long"@,
{
    let mut key = [0u8; HMAC_KEY_LENGTH];
    match argon2::Argon2::default().hash_password_into(password, salt, &mut key) {
        Ok(()) => Ok(key),
        Err(err) => Err(err.to_string()),
    }
}

/// The HMAC-SHA256 tag of `data` under `key`.
pub uninterp spec fn hmac_sha256(key: Seq<u8>, data: Seq<u8>) -> Seq<u8>;

/// Computes a tag with `hmac::Hmac<sha2::Sha256>` (`new_from_slice`, `update`, `finalize`). A key
/// of any length is taken, so it never fails, and the tag, 32 bytes long, is a function of key
/// and data.
#[verifier::external_body]
pub(crate) fn hmac_tag(key: &[u8; HMAC_KEY_LENGTH], data: &[u8]) -> (r: Result<Vec<u8>, String>)
    ensures
        r is Ok,
        r matches Ok(tag) ==> tag@ == hmac_sha256(key@, data@) && tag@.len() == 32,
{
    match <Hmac<Sha256> as Mac>::new_from_slice(key) {
        Ok(mut mac) => {
            mac.update(data);
            Ok(mac.finalize().into_bytes().to_vec())
        },
        Err(err) => Err(err.to_string()),
    }
}

/// Compares a tag with `hmac::Hmac<sha2::Sha256>` (`new_from_slice`, `update`, `verify_slice`). It
/// never fails for the key, and answers whether `tag` is the whole tag of `data`, byte by byte.
#[verifier::external_body]
pub(crate) fn hmac_tag_matches(key: &[u8; HMAC_KEY_LENGTH], data: &[u8], tag: &[u8]) -> (r: Result<
    bool,
    String,
>)
    ensures
        r is Ok,
        r matches Ok(matching) ==> matching == (tag@ == hmac_sha256(key@, data@)),
{
    match <Hmac<Sha256> as Mac>::new_from_slice(key) {
        Ok(mut mac) => {
            mac.update(data);
            Ok(mac.verify_slice(tag).is_ok())
        },
        Err(err) => Err(err.to_string()),
    }
}

/// The lower-case hexadecimal digit of a number below sixteen.
pub open spec fn hex_digit(n: int) -> char {
    if n < 10 {
        (48 + n) as char
    } else {
        (87 + n) as char
    }
}

/// Each byte as two lower-case hexadecimal digits, the higher one first.
pub open spec fn hex_text(bytes: Seq<u8>) -> Seq<char> {
    Seq::new(
        2 * bytes.len(),
        |i: int|
            if i % 2 == 0 {
                hex_digit(bytes[i / 2] as int / 16)
            } else {
                hex_digit(bytes[i / 2] as int % 16)
            },
    )
}

/// The value of a hexadecimal digit of either case, given as an ASCII code.
pub open spec fn hex_value(code: u8) -> Option<int> {
    if 48 <= code <= 57 {
        Some(code - 48)
    } else if 97 <= code <= 102 {
        Some(code - 87)
    } else if 65 <= code <= 70 {
        Some(code - 55)
    } else {
        None
    }
}

/// Whether `codes` are pairs of hexadecimal digits.
pub open spec fn is_hex(codes: Seq<u8>) -> bool {
    &&& codes.len() % 2 == 0
    &&& forall|i: int| 0 <= i < codes.len() ==> hex_value(#[trigger] codes[i]) is Some
}

/// The bytes that pairs of hexadecimal digits stand for.
pub open spec fn hex_bytes(codes: Seq<u8>) -> Seq<u8> {
    Seq::new(
        codes.len() / 2,
        |i: int| (16 * hex_value(codes[2 * i])->0 + hex_value(codes[2 * i + 1])->0) as u8,
    )
}

/// The text of the error with which `hex::decode` refuses `codes`.
pub uninterp spec fn hex_fault(codes: Seq<u8>) -> Seq<char>;

/// Calls `hex::encode`: two lower-case digits for each byte. The bound on the length leaves
/// out what would not fit in a string.
#[verifier::external_body]
pub(crate) fn encode_hex(data: &[u8]) -> (r: String)
    requires
        2 * data@.len() <= isize::MAX,
    ensures
        r@ == hex_text(data@),
{
    hex::encode(data)
}

/// Calls `hex::decode`: it succeeds on exactly the texts that are pairs of hexadecimal digits,
/// of either case, and gives the bytes they stand for. The text of its error is a function of
/// the input, and says of an odd length that it is odd.
#[verifier::external_body]
pub(crate) fn decode_hex(text: &str) -> (r: Result<Vec<u8>, String>)
    ensures
        r is Ok <==> is_hex(text.spec_bytes()),
        r matches Ok(bytes) ==> bytes@ == hex_bytes(text.spec_bytes()),
        r matches Err(fault) ==> fault@ == hex_fault(text.spec_bytes()),
        r matches Err(fault) ==> text.spec_bytes().len() % 2 == 1 ==> fault@
            == "Odd number of digits"@,
{
    match hex::decode(text) {
        Ok(bytes) => Ok(bytes),
        Err(err) => Err(err.to_string()),
    }
}

/// The hexadecimal text of any bytes is read back as these bytes.
pub proof fn hex_reads_back(bytes: Seq<u8>)
    ensures
        is_hex(encode_utf8(hex_text(bytes))),
        hex_bytes(encode_utf8(hex_text(bytes))) == bytes,
{
    let text = hex_text(bytes);
    let codes = encode_utf8(text);
    assert(is_ascii_chars(text)) by {
        assert forall|i: int| 0 <= i < text.len() implies '\0' <= #[trigger] text[i] <= '\u{7f}' by {
            assert(0 <= bytes[i / 2] as int / 16 < 16);
            assert(0 <= bytes[i / 2] as int % 16 < 16);
        }
    }
    is_ascii_chars_encode_utf8(text);
    assert(codes.len() == 2 * bytes.len());
    assert forall|i: int| 0 <= i < codes.len() implies hex_value(#[trigger] codes[i]) == Some(
        if i % 2 == 0 {
            bytes[i / 2] as int / 16
        } else {
            bytes[i / 2] as int % 16
        },
    ) by {
        assert(codes[i] == text[i] as u8);
        assert(0 <= bytes[i / 2] as int / 16 < 16);
        assert(0 <= bytes[i / 2] as int % 16 < 16);
    }
    assert(hex_bytes(codes) =~= bytes) by {
        assert forall|i: int| 0 <= i < bytes.len() implies hex_bytes(codes)[i] == bytes[i] by {
            assert((2 * i) / 2 == i && (2 * i) % 2 == 0);
            assert((2 * i + 1) / 2 == i && (2 * i + 1) % 2 == 1);
            assert(hex_value(codes[2 * i]) == Some(bytes[i] as int / 16));
            assert(hex_value(codes[2 * i + 1]) == Some(bytes[i] as int % 16));
        }
    }
}

/// Fills the buffer from `rand::rngs::OsRng` with `try_fill_bytes`, and answers whether the
/// operating system had random bytes to give. Nothing is said of the bytes but their number.
#[verifier::external_body]
pub(crate) fn fill_random(buffer: &mut Vec<u8>) -> (filled: bool)
    ensures
        final(buffer)@.len() == old(buffer)@.len(),
{
    OsRng.try_fill_bytes(buffer).is_ok()
}

/// A new random salt, if the operating system has random bytes to give. Which bytes come, and
/// whether any do, is left to chance and to the operating system; [`drawn_salt`] says what is
/// made of either outcome.
pub fn fresh_salt() -> (r: Option<[u8; SALT_LENGTH]>)
    ensures
        r matches Some(salt) ==> salt@.len() == SALT_LENGTH,
{
    let mut drawn: Vec<u8> = vec![0u8; SALT_LENGTH];
    let filled = fill_random(&mut drawn);
    drawn_salt(filled, &drawn)
}

/// The salt that a draw of random bytes gives: the bytes themselves, if the draw succeeded and
/// they are as many as a salt has.
pub fn drawn_salt(filled: bool, drawn: &Vec<u8>) -> (r: Option<[u8; SALT_LENGTH]>)
    ensures
        match r {
            Some(salt) => filled && salt@ == drawn@,
            None => !filled || drawn@.len() != SALT_LENGTH,
        },
{
    if filled && drawn.len() == SALT_LENGTH {
        Some(salt_of(drawn))
    } else {
        None
    }
}

/// The first bytes of `bytes` as a salt.
pub(crate) fn salt_of(bytes: &Vec<u8>) -> (salt: [u8; SALT_LENGTH])
    requires
        bytes@.len() == SALT_LENGTH,
    ensures
        salt@ == bytes@,
{
    let mut salt = [0u8; SALT_LENGTH];
    let mut i: usize = 0;
    while i < SALT_LENGTH
        invariant
            i <= SALT_LENGTH,
            bytes@.len() == SALT_LENGTH,
            forall|k: int| 0 <= k < i ==> salt@[k] == bytes@[k],
        decreases SALT_LENGTH - i,
    {
        salt[i] = bytes[i];
        i = i + 1;
    }
    assert(salt@ =~= bytes@);
    salt
}

} // verus!
