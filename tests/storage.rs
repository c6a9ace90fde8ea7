use sha2::Digest;
use base64::Engine;
use streamplay::crypto::{
    decrypt_password, derive_key, encrypt_password, generate_master_password, CryptoError,
    KEY_LEN,
};
use streamplay::session::format_duration;
use streamplay::webdav::{check_probe_status, is_audio_file, ProbeError};

fn file_key() -> Vec<u8> {
    (0u8..32).collect()
}

#[test]
fn password_round_trip() {
    let iv: Vec<u8> = vec![7u8; 16];
    for pw in ["", "secret", "exactly16bytes!!", "pässwörd with \u{80} inside"] {
        let enc = encrypt_password(pw, "master", &file_key(), &iv);
        assert_eq!(decrypt_password(&enc, "master", &file_key()), Ok(pw.to_string()));
    }
}

#[test]
fn encrypted_form_is_iv_plus_blocks() {
    let iv: Vec<u8> = vec![1u8; 16];
    let enc = encrypt_password("abc", "m", &file_key(), &iv);
    let raw = base64::engine::general_purpose::STANDARD.decode(&enc).unwrap();
    assert_eq!(raw.len(), 32);
    assert_eq!(&raw[..16], &iv[..]);
    let enc16 = encrypt_password("0123456789abcdef", "m", &file_key(), &iv);
    let raw16 = base64::engine::general_purpose::STANDARD.decode(&enc16).unwrap();
    assert_eq!(raw16.len(), 48);
}

#[test]
fn key_is_digest_of_domain_master_and_file_key() {
    let mut data = b"DioxusMusic_Password_Key".to_vec();
    data.extend_from_slice(b"m");
    data.extend_from_slice(&file_key());
    assert_eq!(derive_key("m", &file_key()), sha2::Sha256::digest(&data).to_vec());
}

#[test]
fn key_depends_on_master_and_file_key() {
    let a = derive_key("m", &file_key());
    assert_eq!(a.len(), KEY_LEN);
    assert_ne!(a, derive_key("n", &file_key()));
    assert_ne!(a, derive_key("m", &vec![0u8; 32]));
}

#[test]
fn decrypt_errors() {
    assert_eq!(decrypt_password("***", "m", &file_key()), Err(CryptoError::NotBase64));
    assert_eq!(decrypt_password("AAAA", "m", &file_key()), Err(CryptoError::TooShort));
    // 20 bytes: an initial block and 4 stray bytes
    assert_eq!(
        decrypt_password("AAAAAAAAAAAAAAAAAAAAAAAAAAA=", "m", &file_key()),
        Err(CryptoError::BadLength)
    );
}

#[test]
fn master_password_from_draws() {
    let draws: Vec<u32> = vec![0, 25, 26, 70, 69, 61];
    assert_eq!(generate_master_password(&draws), "azAa*9");
}

#[test]
fn duration_text() {
    assert_eq!(format_duration(0), "0:00");
    assert_eq!(format_duration(62_500), "1:02");
    assert_eq!(format_duration(600_000), "10:00");
    assert_eq!(format_duration(3_599_999), "59:59");
}

#[test]
fn audio_names_and_probe_status() {
    assert!(is_audio_file("A.MP3"));
    assert!(is_audio_file("b.m4a"));
    assert!(!is_audio_file("c.txt"));
    assert!(!is_audio_file("mp3"));
    assert_eq!(check_probe_status(207), Ok(()));
    assert_eq!(check_probe_status(401), Ok(()));
    assert_eq!(check_probe_status(405), Ok(()));
    assert_eq!(check_probe_status(404), Err(ProbeError::NotFound));
    assert_eq!(check_probe_status(429), Err(ProbeError::TooManyRequests));
    assert_eq!(check_probe_status(500), Err(ProbeError::Status(500)));
}
