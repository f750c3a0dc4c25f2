use nextcloud_talk::outgoing::{
    health_check, HttpMethod, Operation, OutgoingRequest, ReactionChange, SendError,
};
use nextcloud_talk::status::is_success;
use nextcloud_talk::{verify_nextcloud_talk_signature, NextcloudTalkChannel, SendMessage};

fn channel(secret: Option<&str>) -> NextcloudTalkChannel {
    NextcloudTalkChannel::new(
        "https://cloud.example.com/".into(),
        "app-token".into(),
        secret.map(|secret| secret.to_string()),
        vec![],
    )
}

fn header<'a>(request: &'a OutgoingRequest, name: &str) -> Option<&'a str> {
    request.http.headers.iter().find(|h| h.0 == name).map(|h| h.1.as_str())
}

fn body(request: &OutgoingRequest) -> &str {
    request.http.body.as_deref().unwrap()
}

fn check_signed(request: &OutgoingRequest, secret: &str) {
    let random = header(request, "X-Nextcloud-Talk-Bot-Random").unwrap();
    let signature = header(request, "X-Nextcloud-Talk-Bot-Signature").unwrap();
    assert_eq!(random.len(), 36);
    assert!(verify_nextcloud_talk_signature(secret, random, body(request), signature));
    assert_eq!(header(request, "OCS-APIRequest"), Some("true"));
    assert_eq!(header(request, "Content-Type"), Some("application/json"));
    assert_eq!(header(request, "Accept"), Some("application/json"));
    assert_eq!(request.http.headers.len(), 5);
    assert_eq!(request.http.bearer_token, None);
}

#[test]
fn message_with_a_secret_goes_to_the_bot_api() {
    let message = SendMessage { recipient: "room 1/ä".into(), content: "hi \"you\"\n".into() };
    let request = channel(Some("sec")).send(&message);
    assert_eq!(request.operation, Operation::BotMessage);
    assert_eq!(request.http.method, HttpMethod::Post);
    assert_eq!(
        request.http.url,
        "https://cloud.example.com/ocs/v2.php/apps/spreed/api/v1/bot/room%201%2F%C3%A4/message?format=json"
    );
    assert_eq!(body(&request), "{\"message\":\"hi \\\"you\\\"\\n\"}");
    check_signed(&request, "sec");
}

#[test]
fn message_without_a_secret_goes_to_the_chat_endpoint() {
    let message = SendMessage { recipient: "room-1".into(), content: "hi".into() };
    let request = channel(None).send(&message);
    assert_eq!(request.operation, Operation::ChatMessage);
    assert_eq!(request.http.method, HttpMethod::Post);
    assert_eq!(
        request.http.url,
        "https://cloud.example.com/ocs/v2.php/apps/spreed/api/v1/chat/room-1?format=json"
    );
    assert_eq!(request.http.bearer_token, Some("app-token".to_string()));
    assert_eq!(body(&request), "{\"message\":\"hi\"}");
    assert_eq!(header(&request, "OCS-APIRequest"), Some("true"));
    assert_eq!(header(&request, "Accept"), Some("application/json"));
    assert_eq!(header(&request, "Content-Type"), Some("application/json"));
    assert_eq!(request.http.headers.len(), 3);
}

#[test]
fn reactions_are_sent_and_deleted_by_the_bot_api() {
    let url = "https://cloud.example.com/ocs/v2.php/apps/spreed/api/v1/bot/r~1/reaction/7%3F?format=json";
    let sent = channel(Some("sec")).send_reaction("r~1", "7?", "👍").unwrap();
    assert_eq!(sent.http.method, HttpMethod::Post);
    assert_eq!(sent.operation, Operation::Reaction(ReactionChange::Send));
    assert_eq!(sent.http.url, url);
    assert_eq!(body(&sent), "{\"reaction\":\"👍\"}");
    check_signed(&sent, "sec");

    let deleted = channel(Some("sec")).delete_reaction("r~1", "7?", "👍").unwrap();
    assert_eq!(deleted.http.method, HttpMethod::Delete);
    assert_eq!(deleted.operation, Operation::Reaction(ReactionChange::Delete));
    assert_eq!(deleted.http.url, url);
    assert_eq!(body(&deleted), "{\"reaction\":\"👍\"}");
    check_signed(&deleted, "sec");
}

#[test]
fn reactions_need_a_secret() {
    let error = channel(None).send_reaction("r", "7", "x").unwrap_err();
    assert!(matches!(error, SendError::BotSecretRequired(ReactionChange::Send)));
    assert_eq!(error.message(), "Nextcloud Talk: bot_secret required for send_reaction");
    let error = channel(None).delete_reaction("r", "7", "x").unwrap_err();
    assert!(matches!(error, SendError::BotSecretRequired(ReactionChange::Delete)));
    assert_eq!(error.message(), "Nextcloud Talk: bot_secret required for delete_reaction");
}

#[test]
fn requests_with_a_given_random_value_are_exact() {
    let request = channel(None).bot_message_request("r", "m", "sec", "rnd");
    let signature = NextcloudTalkChannel::sign_bot_request("sec", "rnd", "{\"message\":\"m\"}");
    assert_eq!(header(&request, "X-Nextcloud-Talk-Bot-Random"), Some("rnd"));
    assert_eq!(
        header(&request, "X-Nextcloud-Talk-Bot-Signature"),
        Some(signature.as_str())
    );
    let request =
        channel(None).reaction_request(ReactionChange::Delete, "r", "7", "x", "sec", "rnd");
    let signature = NextcloudTalkChannel::sign_bot_request("sec", "rnd", "{\"reaction\":\"x\"}");
    assert_eq!(
        header(&request, "X-Nextcloud-Talk-Bot-Signature"),
        Some(signature.as_str())
    );
}

#[test]
fn random_values_differ_between_requests() {
    let channel = channel(Some("sec"));
    let first = channel.send_to_room("r", "m");
    let second = channel.send_to_room("r", "m");
    assert_ne!(
        header(&first, "X-Nextcloud-Talk-Bot-Random"),
        header(&second, "X-Nextcloud-Talk-Bot-Random")
    );
}

#[test]
fn bodies_are_json_that_reads_back() {
    let mut content = String::new();
    for code in 0..0x180u32 {
        content.push(char::from_u32(code).unwrap());
    }
    content.push_str("\u{2028}\u{ffff}\u{1f600}/");
    let request = channel(None).send_ocs_message("r", &content);
    let value: serde_json::Value = serde_json::from_str(body(&request)).unwrap();
    assert_eq!(value["message"].as_str(), Some(content.as_str()));
    let control = channel(None).send_ocs_message("r", "\u{0}\u{8}\t\n\u{b}\u{c}\r\u{1f}\u{7f}\\/");
    assert_eq!(
        body(&control),
        "{\"message\":\"\\u0000\\b\\t\\n\\u000b\\f\\r\\u001f\u{7f}\\\\/\"}"
    );
}

#[test]
fn room_tokens_stay_in_their_segment() {
    let request = channel(None).send_ocs_message("../a?b#c&d=e%20 +", "m");
    assert_eq!(
        request.http.url,
        "https://cloud.example.com/ocs/v2.php/apps/spreed/api/v1/chat/..%2Fa%3Fb%23c%26d%3De%2520%20%2B?format=json"
    );
    let plain = "AZaz09-._~";
    let request = channel(None).send_ocs_message(plain, "m");
    assert_eq!(
        request.http.url,
        format!("https://cloud.example.com/ocs/v2.php/apps/spreed/api/v1/chat/{plain}?format=json")
    );
}

#[test]
fn different_targets_have_different_urls() {
    let channel = channel(Some("sec"));
    let first = channel.send_reaction("a", "b/reaction/c", "x").unwrap();
    let second = channel.send_reaction("a/reaction/b", "c", "x").unwrap();
    assert_ne!(first.http.url, second.http.url);
}

#[test]
fn responses_are_judged_by_their_status() {
    for (status, success) in
        [(100, false), (199, false), (200, true), (201, true), (299, true), (300, false), (500, false)]
    {
        assert_eq!(is_success(status), success);
        assert_eq!(health_check(Some(status)), success);
    }
    assert!(!health_check(None));
}

#[test]
fn rejected_requests_say_what_they_were() {
    let message = channel(Some("sec")).send_to_room("r", "m");
    assert!(message.outcome(201).is_ok());
    let error = message.outcome(401).unwrap_err();
    assert_eq!(error.message(), "Nextcloud Talk bot API error: 401 Unauthorized");

    let chat = channel(None).send_to_room("r", "m");
    let error = chat.outcome(404).unwrap_err();
    assert_eq!(error.message(), "Nextcloud Talk API error: 404 Not Found");

    let reaction = channel(Some("sec")).send_reaction("r", "7", "x").unwrap();
    let error = reaction.outcome(400).unwrap_err();
    assert_eq!(error.message(), "Nextcloud Talk reaction API error: 400 Bad Request");

    let removal = channel(Some("sec")).delete_reaction("r", "7", "x").unwrap();
    let error = removal.outcome(500).unwrap_err();
    assert_eq!(
        error.message(),
        "Nextcloud Talk delete reaction API error: 500 Internal Server Error"
    );
}

#[test]
fn every_status_code_has_words_that_start_with_its_number() {
    let request = channel(None).send_to_room("r", "m");
    for status in 100..=999u16 {
        match request.outcome(status) {
            Ok(()) => assert!((200..=299).contains(&status)),
            Err(error) => {
                assert!(!(200..=299).contains(&status));
                let words = reqwest::StatusCode::from_u16(status).unwrap().to_string();
                assert!(words.starts_with(&format!("{status} ")));
                assert_eq!(error.message(), format!("Nextcloud Talk API error: {words}"));
            }
        }
    }
    let error = request.outcome(799).unwrap_err();
    assert_eq!(error.message(), "Nextcloud Talk API error: 799 <unknown status code>");
}

#[test]
fn given_status_words_are_kept() {
    let request = channel(None).send_to_room("r", "m");
    assert!(request.outcome_with(204, "whatever").is_ok());
    let error = request.outcome_with(418, "teapot").unwrap_err();
    assert!(matches!(error, SendError::Rejected { operation: Operation::ChatMessage, .. }));
    assert_eq!(error.message(), "Nextcloud Talk API error: teapot");
}

#[test]
fn health_is_checked_at_the_status_page() {
    let request = channel(Some("sec")).health_check_request();
    assert_eq!(request.method, HttpMethod::Get);
    assert_eq!(request.url, "https://cloud.example.com/status.php");
    assert_eq!(request.bearer_token, None);
    assert!(request.headers.is_empty());
    assert_eq!(request.body, None);
}

#[test]
fn different_contents_make_different_bodies() {
    let texts = ["", "a", "\\", "\"", "\\\"", "\n", "\\n", "\u{1}", "\\u0001", "\u{11}", "\u{b}", "a\"}"];
    for (i, a) in texts.iter().enumerate() {
        for (j, b) in texts.iter().enumerate() {
            let left = channel(None).send_ocs_message("r", a);
            let right = channel(None).send_ocs_message("r", b);
            assert_eq!(body(&left) == body(&right), i == j);
        }
    }
}
