use picture_vault::codec::{from_bytes, to_bytes};
use picture_vault::error::VaultError;

#[test]
fn to_bytes_is_the_utf8_encoding() {
    assert_eq!(to_bytes("hunter2"), b"hunter2".to_vec());
    assert_eq!(to_bytes(""), Vec::<u8>::new());
    assert_eq!(to_bytes("é€"), vec![0xC3, 0xA9, 0xE2, 0x82, 0xAC]);
}

#[test]
fn from_bytes_reads_utf8() {
    assert_eq!(from_bytes(b"hunter2"), Ok("hunter2".to_string()));
    assert_eq!(from_bytes(&[]), Ok(String::new()));
    assert_eq!(from_bytes(&[0xF0, 0x9F, 0x94, 0x91]), Ok("🔑".to_string()));
}

#[test]
fn from_bytes_refuses_what_is_not_utf8() {
    assert_eq!(from_bytes(&[0x68, 0xFF]), Err(VaultError::DecodeError));
    assert_eq!(from_bytes(&[0xC3]), Err(VaultError::DecodeError));
    assert_eq!(from_bytes(&[0x80]), Err(VaultError::DecodeError));
    assert_eq!(from_bytes(&[0xED, 0xA0, 0x80]), Err(VaultError::DecodeError));
}

#[test]
fn text_comes_back_from_its_bytes() {
    for text in ["", "pw", "pässwörd", "密码", "a\u{0}b", "\u{10FFFF}"] {
        assert_eq!(from_bytes(&to_bytes(text)), Ok(text.to_string()));
    }
}

#[test]
fn bytes_of_a_text_never_hold_255() {
    for text in ["hunter2", "ÿ", "\u{7FF}", "\u{FFFF}", "\u{10FFFF}"] {
        assert!(to_bytes(text).iter().all(|b| *b != 255));
    }
}
