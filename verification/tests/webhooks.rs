use hmac::{Hmac, Mac};
use pmp_iq::webhooks::{deployment_plan, is_default_branch_push, route_event, verify_github_signature, WebhookRoute};
use sha2::Sha256;

fn sign(secret: &str, body: &[u8]) -> String {
    let mut mac = Hmac::<Sha256>::new_from_slice(secret.as_bytes()).unwrap();
    mac.update(body);
    format!("sha256={}", hex::encode(mac.finalize().into_bytes()))
}

#[test]
fn verifies_a_correct_signature() {
    let body = br#"{"hello":"world"}"#;
    let sig = sign("topsecret", body);
    assert!(verify_github_signature("topsecret", body, &sig));
}

#[test]
fn rejects_bad_signature_secret_or_format() {
    let body = br#"{"hello":"world"}"#;
    let sig = sign("topsecret", body);
    assert!(!verify_github_signature("wrong-secret", body, &sig));
    assert!(!verify_github_signature("topsecret", b"tampered", &sig));
    assert!(!verify_github_signature("topsecret", body, "not-prefixed"));
}

#[test]
fn accepts_uppercase_hex_and_rejects_malformed_hex() {
    let body = b"payload";
    let sig = sign("k", body);
    let upper = format!("sha256={}", sig["sha256=".len()..].to_uppercase());
    assert!(verify_github_signature("k", body, &upper));
    assert!(!verify_github_signature("k", body, &sig[..sig.len() - 1])); // odd length
    assert!(!verify_github_signature("k", body, "sha256=zz"));
    assert!(!verify_github_signature("k", body, "sha256="));
}

#[test]
fn known_hmac_vector() {
    // RFC 4231 test case 2.
    let header = "sha256=5bdcc146bf60754e6a042426089575c75a003f089d2739839dec58b964ec3843";
    assert!(verify_github_signature("Jefe", b"what do ya want for nothing?", header));
}

#[test]
fn routes_events_by_name() {
    assert_eq!(route_event("push"), WebhookRoute::Push);
    assert_eq!(route_event("release"), WebhookRoute::Deployment);
    assert_eq!(route_event("deployment_status"), WebhookRoute::Deployment);
    assert_eq!(route_event("check_suite"), WebhookRoute::Watcher);
    assert_eq!(route_event("issue_comment"), WebhookRoute::Watcher);
    assert_eq!(route_event("star"), WebhookRoute::Ignore);
}

#[test]
fn deployment_status_records_terminal_states_only() {
    let p = deployment_plan("deployment_status", "org/api", "success", None, Some("abc"), None).unwrap();
    assert!(p.succeeded);
    assert_eq!(p.environment, "production");
    assert_eq!(p.sha.as_deref(), Some("abc"));
    let f = deployment_plan("deployment_status", "org/api", "error", Some("staging"), None, None).unwrap();
    assert!(!f.succeeded);
    assert_eq!(f.environment, "staging");
    assert!(deployment_plan("deployment_status", "org/api", "pending", None, None, None).is_none());
    assert!(deployment_plan("release", "", "", None, None, None).is_none());
    let r = deployment_plan("release", "org/api", "", None, None, Some("v1.2.0")).unwrap();
    assert!(r.succeeded);
    assert_eq!(r.sha.as_deref(), Some("v1.2.0"));
    assert_eq!(r.full_name, "org/api");
}

#[test]
fn only_default_branch_pushes_resync() {
    assert!(is_default_branch_push("refs/heads/main", "main", "org/api"));
    assert!(!is_default_branch_push("refs/heads/feature", "main", "org/api"));
    assert!(!is_default_branch_push("refs/heads/", "", "org/api"));
    assert!(!is_default_branch_push("refs/heads/main", "main", ""));
}
