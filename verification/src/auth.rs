//! Sign-in decisions: the GitHub authorize redirect and the checks of its
//! callback and of the password form.

use vstd::prelude::*;
use vstd::string::StringSliceAdditionalSpecFns;
use crate::strings::{percent_encode, percent_encoded};
use crate::text::{push_str, string_of, str_eq};

verus! {

/// The scopes GitHub sign-in asks for.
pub const GITHUB_SCOPES: &'static str = "read:user read:org";

/// The GitHub authorize URL: the client, the callback, the scopes and the
/// one-time state, each percent-encoded.
pub open spec fn authorize_url_text(web_base_url: Seq<char>, client_id: Seq<u8>, redirect: Seq<u8>, scopes: Seq<u8>, state: Seq<u8>) -> Seq<char> {
    web_base_url + "/login/oauth/authorize?client_id="@ + percent_encoded(client_id) + "&redirect_uri="@
        + percent_encoded(redirect) + "&scope="@ + percent_encoded(scopes) + "&state="@ + percent_encoded(state)
}

/// Builds the GitHub authorize redirect; the client id and the callback URL
/// must be configured.
pub fn github_authorize_url(web_base_url: &str, client_id: Option<&str>, redirect: Option<&str>, state: &str) -> (r: Result<String, String>)
    ensures
        match (client_id, redirect) {
            (None, _) => r matches Err(m) && m@ == "GitHub client_id is not configured"@,
            (Some(_), None) => r matches Err(m) && m@ == "GitHub redirect_url is not configured"@,
            (Some(c), Some(u)) => r matches Ok(url) && url@ == authorize_url_text(
                web_base_url@,
                c.spec_bytes(),
                u.spec_bytes(),
                GITHUB_SCOPES.spec_bytes(),
                state.spec_bytes(),
            ),
        },
{
    let c = match client_id {
        Some(c) => c,
        None => {
            return Err(String::from_str("GitHub client_id is not configured"));
        },
    };
    let u = match redirect {
        Some(u) => u,
        None => {
            return Err(String::from_str("GitHub redirect_url is not configured"));
        },
    };
    let mut s: Vec<char> = Vec::new();
    push_str(&mut s, web_base_url);
    push_str(&mut s, "/login/oauth/authorize?client_id=");
    push_str(&mut s, percent_encode(c).as_str());
    push_str(&mut s, "&redirect_uri=");
    push_str(&mut s, percent_encode(u).as_str());
    push_str(&mut s, "&scope=");
    push_str(&mut s, percent_encode(GITHUB_SCOPES).as_str());
    push_str(&mut s, "&state=");
    push_str(&mut s, percent_encode(state).as_str());
    Ok(string_of(&s))
}

/// What the GitHub callback does next.
pub enum CallbackStep {
    /// Refuse the sign-in with this message.
    Deny(String),
    /// Exchange this authorization code.
    Exchange(String),
}

/// Checks a GitHub callback: the returned state must be present and equal
/// to the one stored for the session, and a code must be present.
pub fn check_callback(expected: Option<&str>, state: Option<&str>, code: Option<String>) -> (r: CallbackStep)
    ensures
        ({
            let state_ok = match (expected, state) {
                (Some(e), Some(s)) => e@ == s@,
                _ => false,
            };
            if !state_ok {
                r matches CallbackStep::Deny(m) && m@ == "Invalid sign-in state \u{2014} please try again"@
            } else {
                match code {
                    Some(c) => r matches CallbackStep::Exchange(x) && x == c,
                    None => r matches CallbackStep::Deny(m) && m@ == "GitHub sign-in was cancelled"@,
                }
            }
        }),
{
    let state_ok = match (expected, state) {
        (Some(e), Some(s)) => str_eq(e, s),
        _ => false,
    };
    if !state_ok {
        return CallbackStep::Deny(String::from_str("Invalid sign-in state \u{2014} please try again"));
    }
    match code {
        Some(c) => CallbackStep::Exchange(c),
        None => CallbackStep::Deny(String::from_str("GitHub sign-in was cancelled")),
    }
}

/// Checks the CSRF token of the password form against the session's.
pub fn check_login_csrf(submitted: &str, expected: &str) -> (r: Result<(), String>)
    ensures
        match r {
            Ok(()) => submitted@ == expected@,
            Err(m) => submitted@ != expected@ && m@ == "invalid CSRF token"@,
        },
{
    if str_eq(submitted, expected) {
        Ok(())
    } else {
        Err(String::from_str("invalid CSRF token"))
    }
}

} // verus!
