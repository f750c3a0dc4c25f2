use hmac::{Hmac, Mac};
use nextcloud_talk::{verify_nextcloud_talk_signature, NextcloudTalkChannel};
use sha2::Sha256;

const TEST_WEBHOOK_SECRET: &str = "nextcloud_test_webhook_secret";

#[test]
fn nextcloud_talk_signature_verification_valid() {
    let secret = TEST_WEBHOOK_SECRET;
    let random = "random-seed";
    let body = r#"{"type":"message"}"#;

    let payload = format!("{random}{body}");
    let mut mac = Hmac::<Sha256>::new_from_slice(secret.as_bytes()).unwrap();
    mac.update(payload.as_bytes());
    let signature = hex::encode(mac.finalize().into_bytes());

    assert!(verify_nextcloud_talk_signature(secret, random, body, &signature));
}

#[test]
fn nextcloud_talk_signature_verification_invalid() {
    assert!(!verify_nextcloud_talk_signature(
        TEST_WEBHOOK_SECRET,
        "random-seed",
        r#"{"type":"message"}"#,
        "deadbeef"
    ));
}

#[test]
fn nextcloud_talk_signature_verification_accepts_sha256_prefix() {
    let secret = TEST_WEBHOOK_SECRET;
    let random = "random-seed";
    let body = r#"{"type":"message"}"#;

    let payload = format!("{random}{body}");
    let mut mac = Hmac::<Sha256>::new_from_slice(secret.as_bytes()).unwrap();
    mac.update(payload.as_bytes());
    let signature = format!("sha256={}", hex::encode(mac.finalize().into_bytes()));

    assert!(verify_nextcloud_talk_signature(secret, random, body, &signature));
}

#[test]
fn nextcloud_talk_sign_bot_request_deterministic() {
    let secret = TEST_WEBHOOK_SECRET;
    let random = "fixed-random";
    let body = r#"{"message":"hello"}"#;

    let sig1 = NextcloudTalkChannel::sign_bot_request(secret, random, body);
    let sig2 = NextcloudTalkChannel::sign_bot_request(secret, random, body);
    assert_eq!(sig1, sig2);
    assert!(!sig1.is_empty());

    // Changing the random must produce a different signature.
    let sig3 = NextcloudTalkChannel::sign_bot_request(secret, "other-random", body);
    assert_ne!(sig1, sig3);
}

#[test]
fn nextcloud_talk_sign_bot_request_matches_incoming_verification() {
    let secret = TEST_WEBHOOK_SECRET;
    let random = "sync-random";
    let body = r#"{"message":"hi"}"#;

    let outgoing_sig = NextcloudTalkChannel::sign_bot_request(secret, random, body);

    assert!(verify_nextcloud_talk_signature(secret, random, body, &outgoing_sig));
}

#[test]
fn signature_of_a_published_vector() {
    // RFC 4231, test case 2.
    assert_eq!(
        NextcloudTalkChannel::sign_bot_request("Jefe", "what do ya want ", "for nothing?"),
        "5bdcc146bf60754e6a042426089575c75a003f089d2739839dec58b964ec3843"
    );
}

#[test]
fn white_space_around_headers_does_not_count() {
    let sig = NextcloudTalkChannel::sign_bot_request("s", "r", "b");
    assert!(verify_nextcloud_talk_signature("s", " r\n", "b", &sig));
    assert!(verify_nextcloud_talk_signature("s", "r", "b", &format!(" \t{sig}\n")));
    assert!(verify_nextcloud_talk_signature("s", "r", "b", &format!(" sha256= {sig} ")));
    assert!(!verify_nextcloud_talk_signature("s", "r", " b", &sig));
}

#[test]
fn digits_of_either_case_are_accepted() {
    let sig = NextcloudTalkChannel::sign_bot_request("s", "r", "b");
    assert!(verify_nextcloud_talk_signature("s", "r", "b", &sig.to_uppercase()));
    assert!(!verify_nextcloud_talk_signature("s", "r", "b", &format!("SHA256={sig}")));
}

#[test]
fn blank_random_is_refused() {
    let sig = NextcloudTalkChannel::sign_bot_request("s", "", "b");
    assert!(!verify_nextcloud_talk_signature("s", "", "b", &sig));
    assert!(!verify_nextcloud_talk_signature("s", " \u{3000}", "b", &sig));
}

#[test]
fn malformed_and_foreign_signatures_are_refused() {
    let sig = NextcloudTalkChannel::sign_bot_request("s", "r", "b");
    assert!(!verify_nextcloud_talk_signature("s", "r", "b", ""));
    assert!(!verify_nextcloud_talk_signature("s", "r", "b", "sha256="));
    assert!(!verify_nextcloud_talk_signature("s", "r", "b", &sig[..63]));
    assert!(!verify_nextcloud_talk_signature("s", "r", "b", &sig[..62]));
    assert!(!verify_nextcloud_talk_signature("s", "r", "b", &format!("{sig}00")));
    assert!(!verify_nextcloud_talk_signature("s", "r", "b", &format!("sha256=sha256={sig}")));
    assert!(!verify_nextcloud_talk_signature("s", "r", "b", "zz"));
    assert!(!verify_nextcloud_talk_signature("s", "r", "b", "éé"));
    assert!(!verify_nextcloud_talk_signature("other", "r", "b", &sig));
    assert!(!verify_nextcloud_talk_signature("s", "x", "b", &sig));
    assert!(!verify_nextcloud_talk_signature("s", "r", "x", &sig));
}

#[test]
fn random_with_white_space_around_it_does_not_verify() {
    let sig = NextcloudTalkChannel::sign_bot_request("s", " r", "b");
    assert!(!verify_nextcloud_talk_signature("s", " r", "b", &sig));
}

#[test]
fn empty_and_long_secrets_work() {
    let long = "k".repeat(200);
    for secret in ["", long.as_str(), "ключ"] {
        let sig = NextcloudTalkChannel::sign_bot_request(secret, "r", "тело");
        assert_eq!(sig.len(), 64);
        assert!(verify_nextcloud_talk_signature(secret, "r", "тело", &sig));
    }
}
