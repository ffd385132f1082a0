use mailctl::envelope::{decode_word, detect_bulk};
use mailctl::error::Error;

#[test]
fn transience_classification() {
    // Transient: network / connection layer.
    let io = Error::Io("reset".to_string());
    assert!(io.is_transient());
    // Permanent: a retry would only repeat the failure.
    assert!(!Error::Config("x".into()).is_transient());
    assert!(!Error::OAuth("invalid_grant".into()).is_transient());
    assert!(
        !Error::UidValidityMismatch {
            expected: 1,
            actual: 2
        }
        .is_transient()
    );
    assert!(!Error::SendNotConfirmed.is_transient());
}

#[test]
fn decodes_base64_utf8_word() {
    assert_eq!(decode_word(b"=?UTF-8?B?5L2g5aW9?="), "你好");
}

#[test]
fn decodes_quoted_printable_word() {
    assert_eq!(decode_word(b"=?ISO-8859-1?Q?=A1Hola!?="), "¡Hola!");
}

#[test]
fn decodes_overlong_encoded_word() {
    // An encoded word longer than the 75 characters RFC 2047 allows must
    // still be decoded rather than kept verbatim.
    let s = decode_word(
        b"=?UTF-8?B?44CQ5YWo5ZOh44KC44KJ44GI44KL44CR6ZmQ5a6aTkZU77yGNTAwTklEVOOCkuODl+ODrOOCvOODs+ODiO+8iFBS77yJ?=",
    );
    assert!(!s.contains("=?"), "应已解码，而非保留编码词: {s}");
    assert!(s.starts_with("【全員もらえる】"), "解码内容异常: {s}");
}

#[test]
fn detects_bulk_via_list_unsubscribe() {
    let marketing =
        b"From: shop@x.com\r\nList-Unsubscribe: <https://x.com/u>\r\nSubject: sale\r\n";
    let personal = b"From: alice@x.com\r\nTo: bob@y.com\r\nSubject: lunch?\r\n";
    // Field names are case-insensitive.
    let lower_case = b"from: a@b\r\nlist-unsubscribe: <mailto:u@b>\r\n";
    let precedence = b"From: n@x.com\r\nPrecedence: bulk\r\nSubject: promo\r\n";
    let list_id = b"From: n@x.com\r\nList-Id: <dev.example.com>\r\nSubject: digest\r\n";
    assert!(detect_bulk(marketing));
    assert!(!detect_bulk(personal));
    assert!(detect_bulk(lower_case));
    assert!(detect_bulk(precedence));
    assert!(detect_bulk(list_id));
}

#[test]
fn passes_through_plain_ascii() {
    assert_eq!(decode_word(b"Hello World"), "Hello World");
}

#[test]
fn falls_back_on_invalid_utf8() {
    // Neither an encoded word nor valid UTF-8: no panic, lossy fallback.
    assert_eq!(decode_word(&[0xff, 0xfe]), "\u{fffd}\u{fffd}");
}
