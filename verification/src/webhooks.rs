//! Provider webhooks: GitHub signature verification, and the decisions on
//! what a verified event asks for (a scoped re-sync on a default-branch push,
//! a deployment record, or a pull-request reconcile).

use vstd::prelude::*;
use hmac::{Hmac, Mac};
use sha2::Sha256;
use vstd::string::StringSliceAdditionalSpecFns;
use crate::text::{chars_of, push_str, slice_chars, starts_with, starts_with_chars, string_of, str_eq, opt_view};

verus! {

#[verifier::external_type_specification]
#[verifier::external_body]
pub struct ExFromHexError(hex::FromHexError);

/// The value of a hexadecimal digit (either case).
pub open spec fn hex_value(c: char) -> Option<u8> {
    if 'A' <= c && c <= 'F' {
        Some((c as int - 'A' as int + 10) as u8)
    } else if 'a' <= c && c <= 'f' {
        Some((c as int - 'a' as int + 10) as u8)
    } else if '0' <= c && c <= '9' {
        Some((c as int - '0' as int) as u8)
    } else {
        None
    }
}

/// The bytes a hexadecimal text stands for: each pair of digits is one byte,
/// high digit first; an odd length or a non-digit gives none.
pub open spec fn hex_bytes(s: Seq<char>) -> Option<Seq<u8>>
    decreases s.len(),
{
    if s.len() % 2 != 0 {
        None
    } else if s.len() == 0 {
        Some(Seq::empty())
    } else {
        match (hex_value(s[0]), hex_value(s[1]), hex_bytes(s.skip(2))) {
            (Some(h), Some(l), Some(rest)) => Some(seq![(h * 16 + l) as u8] + rest),
            _ => None,
        }
    }
}

/// The `hex` crate's `decode`: the bytes of an even-length text of
/// hexadecimal digits; an error for an odd length or a non-digit.
#[verifier::external_body]
fn hex_decode(s: &str) -> (r: Result<Vec<u8>, hex::FromHexError>)
    ensures
        match r {
            Ok(v) => hex_bytes(s@) == Some(v@),
            Err(_) => hex_bytes(s@) is None,
        },
{
    hex::decode(s)
}

/// The HMAC-SHA256 tag of `msg` under `key`.
pub uninterp spec fn hmac_sha256(key: Seq<u8>, msg: Seq<u8>) -> Seq<u8>;

/// The `hmac` crate's `Hmac::<Sha256>::new_from_slice(key)` (which accepts
/// any key length), `update(msg)` and `verify_slice(tag)`: whether `tag` is
/// exactly the HMAC-SHA256 tag of `msg` under `key`, compared in constant
/// time.
#[verifier::external_body]
fn hmac_sha256_matches(key: &[u8], msg: &[u8], tag: &[u8]) -> (b: bool)
    ensures
        b == (tag@ == hmac_sha256(key@, msg@)),
{
    match Hmac::<Sha256>::new_from_slice(key) {
        Ok(mut mac) => {
            mac.update(msg);
            mac.verify_slice(tag).is_ok()
        },
        Err(_) => false,
    }
}

/// A GitHub `X-Hub-Signature-256` header is `sha256=` followed by the hex
/// HMAC-SHA256 of the raw body under the shared secret.
pub open spec fn signature_valid(secret: Seq<u8>, body: Seq<u8>, header: Seq<char>) -> bool {
    &&& starts_with(header, "sha256="@)
    &&& match hex_bytes(header.skip(7)) {
        Some(sig) => sig == hmac_sha256(secret, body),
        None => false,
    }
}

/// Verifies a GitHub `X-Hub-Signature-256: sha256=<hex>` HMAC over the raw
/// body.
pub fn verify_github_signature(secret: &str, body: &[u8], header: &str) -> (b: bool)
    ensures
        b == signature_valid(secret.spec_bytes(), body@, header@),
{
    let h = chars_of(header);
    proof {
        reveal_strlit("sha256=");
    }
    if !starts_with_chars(&h, &chars_of("sha256=")) {
        return false;
    }
    let hex_sig = string_of(&slice_chars(&h, 7, h.len()));
    assert(hex_sig@ == header@.skip(7));
    match hex_decode(hex_sig.as_str()) {
        Ok(sig) => hmac_sha256_matches(secret.as_bytes(), body, sig.as_slice()),
        Err(_) => false,
    }
}

/// What a webhook event asks for.
#[derive(Debug, Clone, Copy, PartialEq, Eq, Structural)]
pub enum WebhookRoute {
    /// A push: maybe a scoped re-sync.
    Push,
    /// A deployment status or a release: maybe a deployment record.
    Deployment,
    /// A pull-request event: an immediate reconcile of agent PRs.
    Watcher,
    /// Nothing to do.
    Ignore,
}

/// The route of a GitHub event name.
pub open spec fn route_of(event: Seq<char>) -> WebhookRoute {
    if event == "push"@ {
        WebhookRoute::Push
    } else if event == "deployment_status"@ || event == "release"@ {
        WebhookRoute::Deployment
    } else if event == "pull_request"@ || event == "pull_request_review"@ || event == "pull_request_review_comment"@
        || event == "issue_comment"@ || event == "check_run"@ || event == "check_suite"@ {
        WebhookRoute::Watcher
    } else {
        WebhookRoute::Ignore
    }
}

/// Routes a GitHub event by its name.
pub fn route_event(event: &str) -> (r: WebhookRoute)
    ensures
        r == route_of(event@),
{
    if str_eq(event, "push") {
        WebhookRoute::Push
    } else if str_eq(event, "deployment_status") || str_eq(event, "release") {
        WebhookRoute::Deployment
    } else if str_eq(event, "pull_request") || str_eq(event, "pull_request_review") || str_eq(
        event,
        "pull_request_review_comment",
    ) || str_eq(event, "issue_comment") || str_eq(event, "check_run") || str_eq(event, "check_suite") {
        WebhookRoute::Watcher
    } else {
        WebhookRoute::Ignore
    }
}

/// A deployment to record for a repository.
pub struct DeploymentPlan {
    pub full_name: String,
    pub environment: String,
    pub sha: Option<String>,
    pub succeeded: bool,
}

/// Whether a deployment event is recorded, and as a success or not: a
/// `deployment_status` counts only in its terminal states (`success`, or
/// `failure`/`error`), a release always succeeds; an event without a
/// repository name records nothing.
pub open spec fn deployment_outcome(event: Seq<char>, full_name: Seq<char>, state: Seq<char>) -> Option<bool> {
    if full_name.len() == 0 {
        None
    } else if event == "deployment_status"@ {
        if state == "success"@ {
            Some(true)
        } else if state == "failure"@ || state == "error"@ {
            Some(false)
        } else {
            None
        }
    } else {
        Some(true)
    }
}

/// The deployment a `deployment_status` or `release` event records: for the
/// repository `full_name`, in `environment` (default `production`), at the
/// deployment's commit or else the release tag. `state` is the deployment
/// status state (empty when absent).
pub fn deployment_plan(
    event: &str,
    full_name: &str,
    state: &str,
    environment: Option<&str>,
    deployment_sha: Option<&str>,
    release_tag: Option<&str>,
) -> (r: Option<DeploymentPlan>)
    ensures
        match deployment_outcome(event@, full_name@, state@) {
            None => r is None,
            Some(ok) => r matches Some(p) && {
                &&& p.succeeded == ok
                &&& p.full_name@ == full_name@
                &&& p.environment@ == match environment {
                    Some(e) => e@,
                    None => "production"@,
                }
                &&& opt_view(p.sha) == match deployment_sha {
                    Some(s) => Some(s@),
                    None => match release_tag {
                        Some(t) => Some(t@),
                        None => None,
                    },
                }
            },
        },
{
    if chars_of(full_name).len() == 0 {
        return None;
    }
    let succeeded = if str_eq(event, "deployment_status") {
        if str_eq(state, "success") {
            true
        } else if str_eq(state, "failure") || str_eq(state, "error") {
            false
        } else {
            return None;
        }
    } else {
        true
    };
    proof {
        reveal_strlit("production");
    }
    let env = match environment {
        Some(e) => String::from_str(e),
        None => String::from_str("production"),
    };
    let sha = match deployment_sha {
        Some(s) => Some(String::from_str(s)),
        None => match release_tag {
            Some(t) => Some(String::from_str(t)),
            None => None,
        },
    };
    Some(DeploymentPlan { full_name: String::from_str(full_name), environment: env, sha, succeeded })
}

/// A push re-syncs only when it is to the repository's default branch:
/// both names are known and the ref is `refs/heads/<default>`.
pub open spec fn default_branch_push(git_ref: Seq<char>, default_branch: Seq<char>, full_name: Seq<char>) -> bool {
    default_branch.len() > 0 && full_name.len() > 0 && git_ref == "refs/heads/"@ + default_branch
}

/// Whether a push event is to the repository's default branch.
pub fn is_default_branch_push(git_ref: &str, default_branch: &str, full_name: &str) -> (b: bool)
    ensures
        b == default_branch_push(git_ref@, default_branch@, full_name@),
{
    let d = chars_of(default_branch);
    let f = chars_of(full_name);
    if d.len() == 0 || f.len() == 0 {
        return false;
    }
    let mut expected: Vec<char> = Vec::new();
    push_str(&mut expected, "refs/heads/");
    crate::text::push_all(&mut expected, &d);
    crate::text::chars_eq(&chars_of(git_ref), &expected)
}

/// The lowercase hexadecimal text of bytes, two digits per byte, high digit
/// first (what the `hex` crate's `encode` produces).
pub open spec fn hex_text(b: Seq<u8>) -> Seq<char>
    decreases b.len(),
{
    if b.len() == 0 {
        Seq::empty()
    } else {
        seq![crate::ids::hex_digit((b[0] / 16) as int), crate::ids::hex_digit((b[0] % 16) as int)] + hex_text(b.drop_first())
    }
}

proof fn lemma_hex_digit_value(d: int)
    requires
        0 <= d < 16,
    ensures
        hex_value(crate::ids::hex_digit(d)) == Some(d as u8),
{
    let c = crate::ids::hex_digit(d);
    if d < 10 {
        assert(c as int == '0' as int + d);
    } else {
        assert(c as int == 'a' as int + d - 10);
    }
}

/// Decoding the lowercase hex text of bytes gives the bytes back.
pub proof fn lemma_hex_roundtrip(b: Seq<u8>)
    ensures
        hex_bytes(hex_text(b)) == Some(b),
        hex_text(b).len() == 2 * b.len(),
    decreases b.len(),
{
    if b.len() > 0 {
        lemma_hex_roundtrip(b.drop_first());
        let t = hex_text(b);
        let hi = b[0] / 16;
        let lo = b[0] % 16;
        lemma_hex_digit_value(hi as int);
        lemma_hex_digit_value(lo as int);
        assert(t.skip(2) == hex_text(b.drop_first()));
        assert(t[0] == crate::ids::hex_digit(hi as int));
        assert(t[1] == crate::ids::hex_digit(lo as int));
        assert((hi * 16 + lo) as u8 == b[0]);
        assert(seq![b[0]] + b.drop_first() == b);
    } else {
        assert(hex_text(b) == Seq::<char>::empty());
        assert(b == Seq::<u8>::empty());
    }
}

/// A header made as GitHub makes it, `sha256=` and the lowercase hex
/// HMAC-SHA256 of the body under the secret, always verifies.
pub proof fn lemma_signed_header_verifies(secret: Seq<u8>, body: Seq<u8>)
    ensures
        signature_valid(secret, body, "sha256="@ + hex_text(hmac_sha256(secret, body))),
{
    reveal_strlit("sha256=");
    let h = "sha256="@ + hex_text(hmac_sha256(secret, body));
    lemma_hex_roundtrip(hmac_sha256(secret, body));
    assert(h.take(7) == "sha256="@);
    assert(h.skip(7) == hex_text(hmac_sha256(secret, body)));
}

/// The GitHub events of the pull-request family: activity on a pull
/// request, its reviews and comments, and its checks.
pub open spec fn pull_request_events() -> Set<Seq<char>> {
    set![
        "pull_request"@,
        "pull_request_review"@,
        "pull_request_review_comment"@,
        "issue_comment"@,
        "check_run"@,
        "check_suite"@,
    ]
}

/// Webhook routing: every event of the pull-request family wakes the PR
/// watcher and no other event does; `deployment_status` and `release` are
/// deployments; `push` is a push; anything else is ignored.
pub proof fn lemma_event_routes(event: Seq<char>)
    ensures
        pull_request_events().contains(event) ==> route_of(event) == WebhookRoute::Watcher,
        route_of(event) == WebhookRoute::Watcher ==> pull_request_events().contains(event),
        (event == "deployment_status"@ || event == "release"@) <==> route_of(event) == WebhookRoute::Deployment,
        event == "push"@ <==> route_of(event) == WebhookRoute::Push,
        (route_of(event) == WebhookRoute::Ignore) <==> !(pull_request_events().contains(event) || event
            == "deployment_status"@ || event == "release"@ || event == "push"@),
{
    reveal_strlit("push");
    reveal_strlit("deployment_status");
    reveal_strlit("release");
    reveal_strlit("pull_request");
    reveal_strlit("pull_request_review");
    reveal_strlit("pull_request_review_comment");
    reveal_strlit("issue_comment");
    reveal_strlit("check_run");
    reveal_strlit("check_suite");
    assert("push"@.len() == 4);
    assert("release"@.len() == 7);
    assert("deployment_status"@.len() == 17);
    assert("pull_request"@.len() == 12);
    assert("check_run"@.len() == 9);
    assert("check_suite"@.len() == 11);
    assert("issue_comment"@.len() == 13);
    assert("pull_request_review"@.len() == 19);
    assert("pull_request_review_comment"@.len() == 27);
    assert("deployment_status"@[0] != "pull_request_review_comment"@[0]);
    assert("release"@[0] != "pull_request_review_comment"@[0]);
}

} // verus!
