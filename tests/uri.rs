use rotp::uri::decode_otpauth_url;

fn pair(label: &str, secret: &str) -> Option<(String, String)> {
    Some((label.to_string(), secret.to_string()))
}

#[test]
fn decodes_label_and_secret() {
    assert_eq!(
        decode_otpauth_url("otpauth://totp/Alice?secret=JBSWY3DPEHPK3PXP"),
        pair("Alice", "JBSWY3DPEHPK3PXP")
    );
}

#[test]
fn rejects_wrong_scheme() {
    assert_eq!(decode_otpauth_url("http://totp/x?secret=ABC"), None);
}

#[test]
fn rejects_wrong_host() {
    assert_eq!(decode_otpauth_url("otpauth://hotp/x?secret=ABC"), None);
}

#[test]
fn rejects_missing_secret() {
    assert_eq!(decode_otpauth_url("otpauth://totp/x"), None);
    assert_eq!(decode_otpauth_url("otpauth://totp/x?issuer=Acme"), None);
}

#[test]
fn rejects_non_uri() {
    assert_eq!(decode_otpauth_url("not a uri"), None);
    assert_eq!(decode_otpauth_url(""), None);
}

#[test]
fn keeps_issuer_prefixed_label_whole() {
    assert_eq!(
        decode_otpauth_url("otpauth://totp/Acme:alice?secret=ABC&issuer=Acme"),
        pair("Acme:alice", "ABC")
    );
    assert_eq!(
        decode_otpauth_url("otpauth://totp/a/b?secret=ABC"),
        pair("a/b", "ABC")
    );
}

#[test]
fn empty_path_gives_empty_label() {
    assert_eq!(decode_otpauth_url("otpauth://totp?secret=ABC"), pair("", "ABC"));
}

#[test]
fn secret_is_percent_decoded_and_first_wins() {
    assert_eq!(
        decode_otpauth_url("otpauth://totp/x?issuer=A&secret=AB%43D&secret=ZZZ"),
        pair("x", "ABCD")
    );
}
