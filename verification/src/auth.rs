//! The key that signs sessions, and the judgement on a signature.

use vstd::prelude::*;

use crate::crypto::{
    argon2id_key, decode_hex, derive_key, encode_hex, hex_bytes, hex_fault, hex_reads_back,
    hex_text, hmac_sha256, hmac_tag, hmac_tag_matches, is_hex, HMAC_KEY_LENGTH,
    MAX_PASSWORD_LENGTH, SALT_LENGTH,
};
use crate::error::{ErrorView, SessionError, SessionResult};
use crate::format::{SignatureFile, SignatureView, SIGNATURE_FORMAT_VERSION};
use crate::text::{decimal, push_decimal};
use vstd::string::StringSliceAdditionalSpecFns;
use vstd::utf8::encode_utf8;

verus! {

/// Signs session data and checks signatures with a key that a passphrase was turned into. The
/// key is overwritten when the value goes away.
pub struct SessionAuthenticator {
    key: [u8; HMAC_KEY_LENGTH],
}

/// The view of an authenticator is its key.
impl View for SessionAuthenticator {
    type V = Seq<u8>;

    closed spec fn view(&self) -> Seq<u8> {
        self.key@
    }
}

/// Overwrites a key with `zeroize::Zeroize::zeroize`, which leaves zeros in every place.
#[verifier::external_body]
fn wipe(key: &mut [u8; HMAC_KEY_LENGTH])
    ensures
        final(key)@ == Seq::new(HMAC_KEY_LENGTH as nat, |i: int| 0u8),
    opens_invariants none
    no_unwind
{
    zeroize::Zeroize::zeroize(key)
}

impl Drop for SessionAuthenticator {
    fn drop(&mut self)
        ensures
            final(self)@ == Seq::new(HMAC_KEY_LENGTH as nat, |i: int| 0u8),
        opens_invariants none
        no_unwind
    {
        wipe(&mut self.key);
    }
}

/// The refusal of a signature file whose version is not the supported one.
pub open spec fn unsupported_signature(version: u32) -> ErrorView {
    ErrorView::InvalidData("Unsupported signature file version "@ + decimal(version as int))
}

/// The refusal of a signature that is no hexadecimal text.
pub open spec fn undecodable_signature(fault: Seq<char>) -> ErrorView {
    ErrorView::InvalidData("Invalid session signature encoding: "@ + fault)
}

/// The refusal of a tag that does not belong to the session data.
pub open spec fn signature_mismatch() -> ErrorView {
    ErrorView::InvalidData("Session signature mismatch"@)
}

/// The signature file for a tag.
pub open spec fn signature_for(tag: Seq<u8>) -> SignatureView {
    SignatureView { version: SIGNATURE_FORMAT_VERSION, mac_hex: hex_text(tag) }
}

/// The tag that a signature file holds, or why it holds none.
pub open spec fn tag_in(signature: SignatureView) -> Result<Seq<u8>, ErrorView> {
    let codes = encode_utf8(signature.mac_hex);
    if signature.version != SIGNATURE_FORMAT_VERSION {
        Err(unsupported_signature(signature.version))
    } else if !is_hex(codes) {
        Err(undecodable_signature(hex_fault(codes)))
    } else {
        Ok(hex_bytes(codes))
    }
}

/// The judgement on session data and its signature file under a key: accepted, or why not.
pub open spec fn judged(key: Seq<u8>, data: Seq<u8>, signature: SignatureView) -> Result<
    (),
    ErrorView,
> {
    match tag_in(signature) {
        Err(e) => Err(e),
        Ok(tag) => if tag == hmac_sha256(key, data) {
            Ok(())
        } else {
            Err(signature_mismatch())
        },
    }
}

/// What was signed under a key is accepted under that key.
pub proof fn signed_data_is_accepted(key: Seq<u8>, data: Seq<u8>)
    ensures
        judged(key, data, signature_for(hmac_sha256(key, data))) is Ok,
{
    hex_reads_back(hmac_sha256(key, data));
}

/// Data whose tag differs from that of the signed data is refused as a mismatch, though the
/// signature file itself is in order.
pub proof fn altered_data_is_refused(key: Seq<u8>, signed: Seq<u8>, altered: Seq<u8>)
    requires
        hmac_sha256(key, signed) != hmac_sha256(key, altered),
    ensures
        judged(key, altered, signature_for(hmac_sha256(key, signed))) == Err::<(), ErrorView>(
            signature_mismatch(),
        ),
{
    hex_reads_back(hmac_sha256(key, signed));
}

/// Data signed under a key is refused as a mismatch under any key that gives it another tag.
pub proof fn other_key_is_refused(signer: Seq<u8>, reader: Seq<u8>, data: Seq<u8>)
    requires
        hmac_sha256(signer, data) != hmac_sha256(reader, data),
    ensures
        judged(reader, data, signature_for(hmac_sha256(signer, data))) == Err::<(), ErrorView>(
            signature_mismatch(),
        ),
{
    hex_reads_back(hmac_sha256(signer, data));
}

/// A signature is accepted exactly if it has the supported version and is hexadecimal text, of
/// either case, of the very tag of the data under the key.
pub proof fn only_the_tag_of_the_data_is_accepted(
    key: Seq<u8>,
    data: Seq<u8>,
    signature: SignatureView,
)
    ensures
        judged(key, data, signature) is Ok <==> {
            &&& signature.version == 1
            &&& is_hex(encode_utf8(signature.mac_hex))
            &&& hex_bytes(encode_utf8(signature.mac_hex)) == hmac_sha256(key, data)
        },
{
}

/// Which refusal a signature meets: first that of its version, then that of its text, then that of
/// its tag.
pub proof fn refused_signatures_say_why(key: Seq<u8>, data: Seq<u8>, signature: SignatureView)
    ensures
        signature.version != 1 ==> judged(key, data, signature) == Err::<(), _>(
            ErrorView::InvalidData(
                "Unsupported signature file version "@ + decimal(signature.version as int),
            ),
        ),
        signature.version == 1 && !is_hex(encode_utf8(signature.mac_hex)) ==> judged(
            key,
            data,
            signature,
        ) == Err::<(), _>(
            ErrorView::InvalidData(
                "Invalid session signature encoding: "@ + hex_fault(
                    encode_utf8(signature.mac_hex),
                ),
            ),
        ),
        signature.version == 1 && is_hex(encode_utf8(signature.mac_hex)) && hex_bytes(
            encode_utf8(signature.mac_hex),
        ) != hmac_sha256(key, data) ==> judged(key, data, signature) == Err::<(), _>(
            ErrorView::InvalidData("Session signature mismatch"@),
        ),
        signature.version == 1 && is_hex(encode_utf8(signature.mac_hex)) ==> tag_in(signature)
            == Ok::<_, ErrorView>(hex_bytes(encode_utf8(signature.mac_hex))),
{
}

/// The signature file for a tag has the supported version and holds the tag, two digits for each
/// byte, none of them a capital letter.
pub proof fn signature_holds_the_tag(tag: Seq<u8>)
    ensures
        signature_for(tag).version == 1,
        signature_for(tag).mac_hex.len() == 2 * tag.len(),
        forall|i: int|
            0 <= i < 2 * tag.len() ==> {
                let c = #[trigger] signature_for(tag).mac_hex[i];
                '0' <= c <= '9' || 'a' <= c <= 'f'
            },
        hex_bytes(encode_utf8(signature_for(tag).mac_hex)) == tag,
{
    hex_reads_back(tag);
    assert forall|i: int| 0 <= i < 2 * tag.len() implies {
        let c = #[trigger] signature_for(tag).mac_hex[i];
        '0' <= c <= '9' || 'a' <= c <= 'f'
    } by {
        assert(0 <= tag[i / 2] as int / 16 < 16);
        assert(0 <= tag[i / 2] as int % 16 < 16);
    }
}

impl SessionAuthenticator {
    /// Derives the key from a passphrase and the salt that is kept beside the session.
    pub fn new(salt: &[u8; SALT_LENGTH], passphrase: &str) -> (r: SessionResult<Self>)
        ensures
            match r {
                Ok(authenticator) => passphrase.spec_bytes().len() <= MAX_PASSWORD_LENGTH
                    && authenticator@ == argon2id_key(passphrase.spec_bytes(), salt@),
                Err(e) => passphrase.spec_bytes().len() > MAX_PASSWORD_LENGTH && e@
                    == ErrorView::KeyDerivation("password is too long"@),
            },
    {
        Self::from_derivation(derive_key(passphrase.as_bytes(), salt))
    }

    /// The authenticator that holds a derived key, or the error of a failed derivation.
    pub fn from_derivation(derived: Result<[u8; HMAC_KEY_LENGTH], String>) -> (r: SessionResult<
        Self,
    >)
        ensures
            match derived {
                Ok(key) => r is Ok && r->Ok_0@ == key@,
                Err(text) => r is Err && r->Err_0@ == ErrorView::KeyDerivation(text@),
            },
    {
        match derived {
            Ok(key) => Ok(SessionAuthenticator { key }),
            Err(text) => Err(SessionError::KeyDerivation(text)),
        }
    }

    /// The tag of `data`.
    pub fn sign(&self, data: &[u8]) -> (r: SessionResult<Vec<u8>>)
        ensures
            r is Ok,
            r->Ok_0@ == hmac_sha256(self@, data@),
            r->Ok_0@.len() == 32,
    {
        match hmac_tag(&self.key, data) {
            Ok(tag) => Ok(tag),
            Err(text) => Err(SessionError::Crypto(text)),
        }
    }

    /// Accepts exactly the tag of `data`.
    pub fn verify(&self, data: &[u8], expected_mac: &[u8]) -> (r: SessionResult<()>)
        ensures
            match r {
                Ok(_) => expected_mac@ == hmac_sha256(self@, data@),
                Err(e) => expected_mac@ != hmac_sha256(self@, data@) && e@ == signature_mismatch(),
            },
    {
        match hmac_tag_matches(&self.key, data, expected_mac) {
            Ok(matching) => verdict_on_tag(matching),
            Err(text) => Err(SessionError::Crypto(text)),
        }
    }

    /// The signature file for `data`.
    pub fn seal(&self, data: &[u8]) -> (r: SessionResult<SignatureFile>)
        ensures
            r is Ok,
            r->Ok_0@ == signature_for(hmac_sha256(self@, data@)),
    {
        match self.sign(data) {
            Ok(tag) => Ok(signature_file(tag.as_slice())),
            Err(e) => Err(e),
        }
    }

    /// Accepts `data` only under a signature file that holds its tag.
    pub fn authenticate(&self, data: &[u8], signature: &SignatureFile) -> (r: SessionResult<()>)
        ensures
            match r {
                Ok(_) => judged(self@, data@, signature@) is Ok,
                Err(e) => judged(self@, data@, signature@) == Err::<(), ErrorView>(e@),
            },
    {
        match signature_tag(signature) {
            Ok(tag) => self.verify(data, tag.as_slice()),
            Err(e) => Err(e),
        }
    }
}

/// What follows from the comparison of two tags.
pub fn verdict_on_tag(matching: bool) -> (r: SessionResult<()>)
    ensures
        match r {
            Ok(_) => matching,
            Err(e) => !matching && e@ == signature_mismatch(),
        },
{
    if matching {
        Ok(())
    } else {
        Err(SessionError::InvalidData("Session signature mismatch".to_owned()))
    }
}

/// The signature file that holds `mac`.
pub fn signature_file(mac: &[u8]) -> (r: SignatureFile)
    requires
        2 * mac@.len() <= isize::MAX,
    ensures
        r@ == signature_for(mac@),
{
    SignatureFile { version: SIGNATURE_FORMAT_VERSION, mac_hex: encode_hex(mac) }
}

/// The tag that a signature file holds.
pub fn signature_tag(signature: &SignatureFile) -> (r: SessionResult<Vec<u8>>)
    ensures
        match r {
            Ok(tag) => tag_in(signature@) == Ok::<Seq<u8>, ErrorView>(tag@),
            Err(e) => tag_in(signature@) == Err::<Seq<u8>, ErrorView>(e@),
        },
{
    if signature.version != SIGNATURE_FORMAT_VERSION {
        let mut message = "Unsupported signature file version ".to_owned();
        push_decimal(&mut message, signature.version as i128);
        return Err(SessionError::InvalidData(message));
    }
    decoded_tag(decode_hex(signature.mac_hex.as_str()))
}

/// The tag that was decoded, or the error of a failed decoding.
pub fn decoded_tag(decoded: Result<Vec<u8>, String>) -> (r: SessionResult<Vec<u8>>)
    ensures
        match decoded {
            Ok(tag) => r == Ok::<Vec<u8>, SessionError>(tag),
            Err(fault) => r is Err && r->Err_0@ == undecodable_signature(fault@),
        },
{
    match decoded {
        Ok(tag) => Ok(tag),
        Err(fault) => Err(
            SessionError::InvalidData(
                "Invalid session signature encoding: ".to_owned().concat(fault.as_str()),
            ),
        ),
    }
}

} // verus!
