use argon2::Argon2;
use hmac::{Hmac, Mac};
use hyprsession::auth::{
    decoded_tag, signature_file, signature_tag, verdict_on_tag, SessionAuthenticator,
};
use hyprsession::crypto::{drawn_salt, fresh_salt};
use hyprsession::format::SignatureFile;
use sha2::Sha256;

fn authenticator(first: u8) -> SessionAuthenticator {
    let mut key = [0u8; 32];
    for (i, byte) in key.iter_mut().enumerate() {
        *byte = first.wrapping_add(i as u8);
    }
    SessionAuthenticator::from_derivation(Ok(key)).ok().unwrap()
}

fn hex(bytes: &[u8]) -> String {
    bytes.iter().map(|byte| format!("{:02x}", byte)).collect()
}

#[test]
fn key_is_the_argon2_output_of_passphrase_and_salt() {
    let salt = *b"0123456789abcdef";
    let mut key = [0u8; 32];
    Argon2::default().hash_password_into(b"correct horse", &salt, &mut key).unwrap();
    let mut mac = <Hmac<Sha256> as Mac>::new_from_slice(&key).unwrap();
    mac.update(b"session");
    let expected = mac.finalize().into_bytes().to_vec();
    let authenticator = SessionAuthenticator::new(&salt, "correct horse").ok().unwrap();
    assert_eq!(authenticator.sign(b"session").unwrap(), expected);
}

#[test]
fn other_passphrase_or_salt_gives_another_key() {
    let salt = *b"0123456789abcdef";
    let tag = SessionAuthenticator::new(&salt, "a").ok().unwrap().sign(b"x").unwrap();
    let again = SessionAuthenticator::new(&salt, "a").ok().unwrap().sign(b"x").unwrap();
    let other = SessionAuthenticator::new(&salt, "b").ok().unwrap().sign(b"x").unwrap();
    let resalted =
        SessionAuthenticator::new(b"fedcba9876543210", "a").ok().unwrap().sign(b"x").unwrap();
    assert_eq!(tag, again);
    assert_ne!(tag, other);
    assert_ne!(tag, resalted);
}

#[test]
fn failed_derivation_is_an_error_of_its_own() {
    let error =
        SessionAuthenticator::from_derivation(Err("password is too long".to_string())).err().unwrap();
    assert_eq!(error.message(), "Key derivation failed: password is too long");
}

#[test]
fn published_tag_is_reproduced() {
    let mut key = [0u8; 32];
    for byte in key.iter_mut().take(20) {
        *byte = 0x0b;
    }
    let authenticator = SessionAuthenticator::from_derivation(Ok(key)).ok().unwrap();
    assert_eq!(
        hex(&authenticator.sign(b"Hi There").unwrap()),
        "b0344c61d8db38535ca8afceaf0bf12b881dc200c9833da726e9376c2e32cff7"
    );
}

#[test]
fn own_tag_is_accepted() {
    let tag = authenticator(1).sign(b"data").unwrap();
    assert!(authenticator(1).verify(b"data", &tag).is_ok());
}

#[test]
fn altered_data_tag_or_key_is_a_mismatch() {
    let tag = authenticator(1).sign(b"data").unwrap();
    let mut flipped = tag.clone();
    flipped[31] ^= 1;
    let refusals = [
        authenticator(1).verify(b"Data", &tag),
        authenticator(1).verify(b"data", &flipped),
        authenticator(1).verify(b"data", &tag[..31]),
        authenticator(1).verify(b"data", b""),
        authenticator(2).verify(b"data", &tag),
    ];
    for refusal in refusals {
        assert_eq!(refusal.unwrap_err().message(), "Session signature mismatch");
    }
}

#[test]
fn sealed_data_is_authenticated() {
    let seal = authenticator(3).seal(b"session bytes").unwrap();
    assert_eq!(seal.version, 1);
    assert_eq!(seal.mac_hex, hex(&authenticator(3).sign(b"session bytes").unwrap()));
    assert!(authenticator(3).authenticate(b"session bytes", &seal).is_ok());
    assert_eq!(
        authenticator(3).authenticate(b"session byte", &seal).unwrap_err().message(),
        "Session signature mismatch"
    );
}

#[test]
fn signature_in_upper_case_is_the_same() {
    let seal = authenticator(3).seal(b"x").unwrap();
    let upper = SignatureFile { version: 1, mac_hex: seal.mac_hex.to_uppercase() };
    assert!(authenticator(3).authenticate(b"x", &upper).is_ok());
}

#[test]
fn unknown_signature_version_is_refused() {
    let seal = authenticator(3).seal(b"x").unwrap();
    for version in [0u32, 2, u32::MAX] {
        let other = SignatureFile { version, mac_hex: seal.mac_hex.clone() };
        assert_eq!(
            authenticator(3).authenticate(b"x", &other).unwrap_err().message(),
            format!("Unsupported signature file version {}", version)
        );
    }
}

#[test]
fn signature_that_is_no_hexadecimal_text_is_refused() {
    let odd = SignatureFile { version: 1, mac_hex: "abc".to_string() };
    assert_eq!(
        authenticator(3).authenticate(b"x", &odd).unwrap_err().message(),
        "Invalid session signature encoding: Odd number of digits"
    );
    let strange = SignatureFile { version: 1, mac_hex: "zz".to_string() };
    let expected = hex::decode("zz").unwrap_err();
    assert_eq!(
        authenticator(3).authenticate(b"x", &strange).unwrap_err().message(),
        format!("Invalid session signature encoding: {}", expected)
    );
}

#[test]
fn signature_file_holds_lower_case_digits() {
    let file = signature_file(&[0x00, 0x0f, 0xa5, 0xff]);
    assert_eq!(file.version, 1);
    assert_eq!(file.mac_hex, "000fa5ff");
    assert_eq!(signature_tag(&file).unwrap(), [0x00, 0x0f, 0xa5, 0xff]);
    let empty = signature_file(&[]);
    assert_eq!(empty.mac_hex, "");
    assert_eq!(signature_tag(&empty).unwrap(), Vec::<u8>::new());
}

#[test]
fn verdict_follows_the_comparison() {
    assert!(verdict_on_tag(true).is_ok());
    assert_eq!(verdict_on_tag(false).unwrap_err().message(), "Session signature mismatch");
    assert_eq!(decoded_tag(Ok(vec![1, 2])).unwrap(), [1, 2]);
    assert_eq!(
        decoded_tag(Err("why".to_string())).unwrap_err().message(),
        "Invalid session signature encoding: why"
    );
}

#[test]
fn fresh_salts_differ() {
    let one = fresh_salt().unwrap();
    let other = fresh_salt().unwrap();
    assert_ne!(one, other);
    assert_ne!(one, [0u8; 16]);
}

#[test]
fn drawn_bytes_are_the_salt() {
    let drawn: Vec<u8> = (0u8..16).collect();
    assert_eq!(drawn_salt(true, &drawn).unwrap().to_vec(), drawn);
    assert_eq!(drawn_salt(false, &drawn), None);
    assert_eq!(drawn_salt(true, &vec![0u8; 15]), None);
    assert_eq!(drawn_salt(true, &vec![0u8; 17]), None);
}
