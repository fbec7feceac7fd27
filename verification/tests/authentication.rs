//! Basic authentication and header fields.

use hyper::header::{HeaderMap, HeaderValue};
use rustup_mock::auth::{
    authenticate, basic_auth, basic_value, check_presented, AuthOutcome, Credentials,
};
use rustup_mock::encoding::is_encodable;
use rustup_mock::headers::{header_field, header_text};

/// Headers with one field.
fn headers(name: &'static str, value: &[u8]) -> HeaderMap<HeaderValue> {
    let mut headers = HeaderMap::new();
    headers.insert(name, HeaderValue::from_bytes(value).unwrap());
    headers
}

#[test]
fn basic_auth_values() {
    assert_eq!(basic_auth("testuser", "testpass"), "Basic dGVzdHVzZXI6dGVzdHBhc3M=");
    assert_eq!(basic_auth("proxyuser", "proxypass"), "Basic cHJveHl1c2VyOnByb3h5cGFzcw==");
    assert_eq!(basic_auth("Aladdin", "open sesame"), "Basic QWxhZGRpbjpvcGVuIHNlc2FtZQ==");
    assert_eq!(basic_auth("", ""), "Basic Og==");
    assert_eq!(basic_auth("\u{e9}", "??>"), "Basic w6k6Pz8+");
    assert_eq!(basic_value("eA=="), "Basic eA==");
}

/// `bytes` in base64, bit by bit.
fn base64_by_bits(bytes: &[u8]) -> String {
    let table = b"ABCDEFGHIJKLMNOPQRSTUVWXYZabcdefghijklmnopqrstuvwxyz0123456789+/";
    let mut bits: Vec<u8> = Vec::new();
    for byte in bytes {
        bits.extend((0..8).rev().map(|i| byte >> i & 1));
    }
    let mut text = String::new();
    for group in bits.chunks(6) {
        let value = (0..6).fold(0, |v, i| 2 * v + group.get(i).copied().unwrap_or(0));
        text.push(table[usize::from(value)] as char);
    }
    while text.len() % 4 != 0 {
        text.push('=');
    }
    text
}

#[test]
fn basic_auth_values_are_base64() {
    let mut seen = std::collections::BTreeSet::new();
    for first in 0..128u8 {
        for length in 0..70 {
            let password: String = (0..length)
                .map(|i: u32| char::from_u32(u32::from(first) + 37 * i).unwrap())
                .collect();
            let expected = base64_by_bits(format!("user:{password}").as_bytes());
            assert_eq!(basic_auth("user", &password), format!("Basic {expected}"));
            seen.extend(expected.chars());
        }
    }
    // Every character of the alphabet, and the padding.
    assert_eq!(seen.len(), 65);
    assert_eq!(
        basic_auth("user", "0123456789012345678901234567890123456789"),
        "Basic dXNlcjowMTIzNDU2Nzg5MDEyMzQ1Njc4OTAxMjM0NTY3ODkwMTIzNDU2Nzg5"
    );
}

#[test]
fn credentials_are_divided_at_the_first_colon() {
    let credentials = Credentials::parse("user:pass:word").unwrap();
    assert_eq!(credentials.to_text(), "user:pass:word");
    let present = |user: &str, password: &str| {
        headers("authorization", basic_auth(user, password).as_bytes())
    };
    let credentials = Some(credentials);
    assert_eq!(
        authenticate(&credentials, &present("user", "pass:word"), "authorization"),
        AuthOutcome::Granted
    );
    assert_eq!(
        authenticate(&credentials, &present("user", "pass"), "authorization"),
        AuthOutcome::Refused
    );
    assert_eq!(Credentials::parse(":").unwrap().to_text(), ":");
    assert!(Credentials::parse("nobody").is_none());
    assert!(Credentials::parse("").is_none());
}

#[test]
fn different_credentials_have_different_values() {
    let texts = ["", "a", "b", "ab", "pass"];
    for user in texts {
        for password in texts {
            for other_user in texts {
                for other_password in texts {
                    assert_eq!(
                        basic_auth(user, password) == basic_auth(other_user, other_password),
                        (user, password) == (other_user, other_password)
                    );
                }
            }
        }
    }
}

#[test]
fn outcomes_of_a_check() {
    assert_eq!(check_presented(None, None), AuthOutcome::Granted);
    assert_eq!(check_presented(None, Some("x")), AuthOutcome::Granted);
    assert_eq!(check_presented(Some("x"), None), AuthOutcome::Missing);
    assert_eq!(check_presented(Some("x"), Some("y")), AuthOutcome::Refused);
    assert_eq!(check_presented(Some("x"), Some("x")), AuthOutcome::Granted);
    assert_eq!(check_presented(Some("x"), Some("x ")), AuthOutcome::Refused);
}

#[test]
fn credentials_of_other_fields_do_not_count() {
    let credentials = Credentials::parse("testuser:testpass");
    let value = basic_auth("testuser", "testpass");
    let presented = headers("authorization", value.as_bytes());
    assert_eq!(
        authenticate(&credentials, &presented, "proxy-authorization"),
        AuthOutcome::Missing
    );
    assert_eq!(
        authenticate(&None, &presented, "proxy-authorization"),
        AuthOutcome::Granted
    );
    assert_eq!(
        authenticate(&credentials, &headers("authorization", b"Basic \xff"), "authorization"),
        AuthOutcome::Refused
    );
}

#[test]
fn fields_are_found_under_their_names() {
    let mut fields: HeaderMap<HeaderValue> = HeaderMap::new();
    fields.append("Authorization", HeaderValue::from_static("first"));
    fields.append("authorization", HeaderValue::from_static("second"));
    fields.append("host", HeaderValue::from_bytes(b"caf\xe9").unwrap());
    assert_eq!(header_field(&fields, "authorization").as_deref(), Some("first"));
    assert_eq!(header_field(&fields, "host").as_deref(), Some(""));
    assert_eq!(header_field(&fields, "proxy-authorization"), None);
}

#[test]
fn only_visible_values_are_text() {
    assert_eq!(header_text(b"Basic x\t~ "), "Basic x\t~ ");
    assert_eq!(header_text(b""), "");
    for byte in 0..=255u8 {
        let text = header_text(&[b'a', byte]);
        if byte == b'\t' || (32..127).contains(&byte) {
            assert_eq!(text, format!("a{}", byte as char));
        } else {
            assert_eq!(text, "");
        }
    }
}

#[test]
fn ordinary_texts_can_be_encoded() {
    assert!(is_encodable(""));
    assert!(is_encodable("testuser:testpass"));
    assert!(is_encodable("\u{e9}".repeat(10000).as_str()));
}
