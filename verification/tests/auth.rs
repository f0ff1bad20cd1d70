use pmp_iq::auth::{check_callback, check_login_csrf, github_authorize_url, CallbackStep};

#[test]
fn authorize_url_percent_encodes_parameters() {
    let url = github_authorize_url("https://github.com", Some("my id"), Some("https://app/cb?x=1"), "s+t").unwrap();
    assert_eq!(
        url,
        "https://github.com/login/oauth/authorize?client_id=my%20id&redirect_uri=https%3A%2F%2Fapp%2Fcb%3Fx%3D1&scope=read%3Auser%20read%3Aorg&state=s%2Bt"
    );
}

#[test]
fn authorize_url_needs_client_and_callback() {
    assert_eq!(github_authorize_url("https://github.com", None, Some("cb"), "s").unwrap_err(), "GitHub client_id is not configured");
    assert_eq!(github_authorize_url("https://github.com", Some("id"), None, "s").unwrap_err(), "GitHub redirect_url is not configured");
}

#[test]
fn callback_checks_state_then_code() {
    assert!(matches!(check_callback(Some("abc"), Some("abc"), Some("code".into())), CallbackStep::Exchange(c) if c == "code"));
    match check_callback(Some("abc"), Some("abd"), Some("code".into())) {
        CallbackStep::Deny(m) => assert_eq!(m, "Invalid sign-in state \u{2014} please try again"),
        CallbackStep::Exchange(_) => panic!("state mismatch must be refused"),
    }
    assert!(matches!(check_callback(None, None, Some("code".into())), CallbackStep::Deny(_)));
    match check_callback(Some("abc"), Some("abc"), None) {
        CallbackStep::Deny(m) => assert_eq!(m, "GitHub sign-in was cancelled"),
        CallbackStep::Exchange(_) => panic!("no code, no exchange"),
    }
}

#[test]
fn login_form_csrf() {
    assert!(check_login_csrf("tok", "tok").is_ok());
    assert_eq!(check_login_csrf("tok", "other").unwrap_err(), "invalid CSRF token");
}
