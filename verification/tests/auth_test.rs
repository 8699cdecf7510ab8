use watchdog::webserver::handlers::auth::{checkCredentials, AuthOutcome, CAuthHandler};
use watchdog::webserver::handlers::{CHeader, HttpMethod};

fn auth(v: &str) -> Vec<CHeader> {
    vec![CHeader { field: "authorization".to_string(), value: v.to_string() }]
}

fn reject_text(o: AuthOutcome) -> String {
    match o {
        AuthOutcome::Reject(s) => s,
        AuthOutcome::Challenge => "<challenge>".to_string(),
        AuthOutcome::Accept => "<accept>".to_string(),
    }
}

#[test]
fn get_without_credentials_is_challenged() {
    let h = CAuthHandler::new();
    assert!(matches!(h.handler("123456", HttpMethod::Get, &Vec::new()), AuthOutcome::Challenge));
    // Other methods are not challenged: the empty header is simply malformed.
    assert_eq!(reject_text(h.handler("123456", HttpMethod::Post, &Vec::new())), "auth error");
}

#[test]
fn malformed_credentials_are_rejected() {
    let h = CAuthHandler::new();
    assert_eq!(reject_text(h.handler("p", HttpMethod::Get, &auth("Basic"))), "auth error");
    assert_eq!(reject_text(h.handler("p", HttpMethod::Get, &auth("Bearer abc"))), "auth is not Basic");
    assert_eq!(reject_text(h.handler("p", HttpMethod::Get, &auth("Basic !!!"))), "decode base64 error");
    // "/w==" decodes to the byte 0xff, which is not UTF-8.
    assert_eq!(reject_text(h.handler("p", HttpMethod::Get, &auth("Basic /w=="))), "from utf8 error");
    // "YWRtaW4=" decodes to "admin", without a colon.
    assert_eq!(reject_text(h.handler("p", HttpMethod::Get, &auth("Basic YWRtaW4="))), "split by : error");
}

#[test]
fn only_the_password_decides() {
    let h = CAuthHandler::new();
    // "YWRtaW46MTIzNDU2" is "admin:123456".
    assert!(matches!(h.handler("123456", HttpMethod::Get, &auth("Basic YWRtaW46MTIzNDU2")), AuthOutcome::Accept));
    assert_eq!(reject_text(h.handler("654321", HttpMethod::Get, &auth("Basic YWRtaW46MTIzNDU2"))), "password error");
    // "Z3Vlc3Q6MTIzNDU2" is "guest:123456": the user name is not looked at.
    assert!(matches!(h.handler("123456", HttpMethod::Get, &auth("Basic Z3Vlc3Q6MTIzNDU2")), AuthOutcome::Accept));
}

#[test]
fn check_credentials_on_decoded_bytes() {
    assert!(matches!(checkCredentials("pw", Some(b"u:pw".to_vec())), AuthOutcome::Accept));
    assert_eq!(reject_text(checkCredentials("pw", Some(b"u:px".to_vec()))), "password error");
    assert_eq!(reject_text(checkCredentials("pw", None)), "decode base64 error");
    assert_eq!(reject_text(checkCredentials("pw", Some(vec![0xc3]))), "from utf8 error");
    assert_eq!(reject_text(checkCredentials("", Some(b"u:".to_vec()))), "<accept>");
    // Only the piece between the first and second colon is the password.
    assert!(matches!(checkCredentials("a", Some(b"u:a:b".to_vec())), AuthOutcome::Accept));
}
