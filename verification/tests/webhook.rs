use nextcloud_talk::webhook::{
    value_to_string, Activity, DecodedContent, IgnoredReason, MessageDraft, MessageTime,
};
use nextcloud_talk::{JsonNumber, JsonValue, NextcloudTalkChannel};

fn text(s: &str) -> JsonValue {
    JsonValue::String(s.to_string())
}

fn number(n: u64) -> JsonValue {
    JsonValue::Number(JsonNumber::Unsigned(n))
}

fn object(members: Vec<(&str, JsonValue)>) -> JsonValue {
    JsonValue::Object(members.into_iter().map(|(key, value)| (key.to_string(), value)).collect())
}

fn channel_for(users: &[&str]) -> NextcloudTalkChannel {
    NextcloudTalkChannel::new(
        "https://cloud.example.com".into(),
        "app-token".into(),
        None,
        users.iter().map(|user| user.to_string()).collect(),
    )
}

fn make_channel() -> NextcloudTalkChannel {
    channel_for(&["user_a"])
}

#[test]
fn nextcloud_talk_parse_valid_message_payload() {
    let channel = make_channel();
    let payload = object(vec![
        ("type", text("message")),
        (
            "object",
            object(vec![
                ("id", text("42")),
                ("token", text("room-token-123")),
                ("name", text("Team Room")),
                ("type", text("room")),
            ]),
        ),
        (
            "message",
            object(vec![
                ("id", number(77)),
                ("token", text("room-token-123")),
                ("actorType", text("users")),
                ("actorId", text("user_a")),
                ("actorDisplayName", text("User A")),
                ("timestamp", number(1_735_701_200)),
                ("messageType", text("comment")),
                ("systemMessage", text("")),
                ("message", text("Hello from Nextcloud")),
            ]),
        ),
    ]);

    let messages = channel.parse_webhook_payload(&payload);
    assert_eq!(messages.len(), 1);
    assert_eq!(messages[0].id, "77");
    assert_eq!(messages[0].reply_target, "room-token-123");
    assert_eq!(messages[0].sender, "user_a");
    assert_eq!(messages[0].content, "Hello from Nextcloud");
    assert_eq!(messages[0].channel, "nextcloud_talk");
    assert_eq!(messages[0].timestamp, 1_735_701_200);
    assert!(messages[0].thread_ts.is_none());
}

#[test]
fn nextcloud_talk_parse_skips_non_message_events() {
    let channel = make_channel();
    let payload = object(vec![
        ("type", text("room")),
        ("object", object(vec![("token", text("room-token-123"))])),
        (
            "message",
            object(vec![
                ("actorType", text("users")),
                ("actorId", text("user_a")),
                ("message", text("Hello")),
            ]),
        ),
    ]);

    let messages = channel.parse_webhook_payload(&payload);
    assert!(messages.is_empty());
}

#[test]
fn nextcloud_talk_parse_skips_bot_messages() {
    let channel = channel_for(&["*"]);
    let payload = object(vec![
        ("type", text("message")),
        ("object", object(vec![("token", text("room-token-123"))])),
        (
            "message",
            object(vec![
                ("actorType", text("bots")),
                ("actorId", text("bot_1")),
                ("message", text("Self message")),
            ]),
        ),
    ]);

    let messages = channel.parse_webhook_payload(&payload);
    assert!(messages.is_empty());
}

#[test]
fn nextcloud_talk_parse_skips_unauthorized_sender() {
    let channel = make_channel();
    let payload = object(vec![
        ("type", text("message")),
        ("object", object(vec![("token", text("room-token-123"))])),
        (
            "message",
            object(vec![
                ("actorType", text("users")),
                ("actorId", text("user_b")),
                ("message", text("Unauthorized")),
            ]),
        ),
    ]);

    let messages = channel.parse_webhook_payload(&payload);
    assert!(messages.is_empty());
}

#[test]
fn nextcloud_talk_parse_skips_system_message() {
    let channel = channel_for(&["*"]);
    let payload = object(vec![
        ("type", text("message")),
        ("object", object(vec![("token", text("room-token-123"))])),
        (
            "message",
            object(vec![
                ("actorType", text("users")),
                ("actorId", text("user_a")),
                ("messageType", text("comment")),
                ("systemMessage", text("joined")),
                ("message", text("")),
            ]),
        ),
    ]);

    let messages = channel.parse_webhook_payload(&payload);
    assert!(messages.is_empty());
}

#[test]
fn nextcloud_talk_parse_timestamp_millis_to_seconds() {
    let channel = channel_for(&["*"]);
    let payload = object(vec![
        ("type", text("message")),
        ("object", object(vec![("token", text("room-token-123"))])),
        (
            "message",
            object(vec![
                ("actorType", text("users")),
                ("actorId", text("user_a")),
                ("timestamp", number(1_735_701_200_123_u64)),
                ("message", text("hello")),
            ]),
        ),
    ]);

    let messages = channel.parse_webhook_payload(&payload);
    assert_eq!(messages.len(), 1);
    assert_eq!(messages[0].timestamp, 1_735_701_200);
}

#[test]
fn nextcloud_talk_parse_activitypub_valid_message() {
    let channel = channel_for(&["booting"]);
    let payload = object(vec![
        ("type", text("Create")),
        (
            "actor",
            object(vec![
                ("type", text("Person")),
                ("id", text("users/booting")),
                ("name", text("booting")),
                ("talkParticipantType", text("1")),
            ]),
        ),
        (
            "object",
            object(vec![
                ("type", text("Note")),
                ("id", text("700")),
                ("name", text("message")),
                ("content", text("{\"message\":\"上线了吗\",\"parameters\":[]}")),
                ("mediaType", text("text/markdown")),
            ]),
        ),
        (
            "target",
            object(vec![
                ("type", text("Collection")),
                ("id", text("2d2p7jh5")),
                ("name", text("me and bot")),
            ]),
        ),
    ]);

    let messages = channel.parse_webhook_payload(&payload);
    assert_eq!(messages.len(), 1);
    assert_eq!(messages[0].id, "700");
    assert_eq!(messages[0].reply_target, "2d2p7jh5");
    assert_eq!(messages[0].sender, "booting");
    assert_eq!(messages[0].content, "上线了吗");
    assert_eq!(messages[0].channel, "nextcloud_talk");
}

#[test]
fn nextcloud_talk_parse_activitypub_skips_application_actor() {
    let channel = channel_for(&["*"]);
    let payload = object(vec![
        ("type", text("Create")),
        (
            "actor",
            object(vec![
                ("type", text("Application")),
                ("id", text("bots/zeroclaw_bot")),
                ("name", text("zeroclaw_bot")),
            ]),
        ),
        (
            "object",
            object(vec![
                ("type", text("Note")),
                ("id", text("701")),
                ("name", text("message")),
                ("content", text("{\"message\":\"bot reply\",\"parameters\":[]}")),
                ("mediaType", text("text/markdown")),
            ]),
        ),
        (
            "target",
            object(vec![
                ("type", text("Collection")),
                ("id", text("2d2p7jh5")),
                ("name", text("me and bot")),
            ]),
        ),
    ]);

    let messages = channel.parse_webhook_payload(&payload);
    assert!(messages.is_empty());
}

#[test]
fn nextcloud_talk_parse_activitypub_skips_bots_prefix() {
    let channel = channel_for(&["*"]);
    let payload = object(vec![
        ("type", text("Create")),
        (
            "actor",
            object(vec![
                ("type", text("Person")),
                ("id", text("bots/mybot")),
                ("name", text("mybot")),
            ]),
        ),
        (
            "object",
            object(vec![
                ("type", text("Note")),
                ("id", text("702")),
                ("name", text("message")),
                ("content", text("{\"message\":\"auto msg\",\"parameters\":[]}")),
                ("mediaType", text("text/markdown")),
            ]),
        ),
        (
            "target",
            object(vec![
                ("type", text("Collection")),
                ("id", text("2d2p7jh5")),
                ("name", text("test room")),
            ]),
        ),
    ]);

    let messages = channel.parse_webhook_payload(&payload);
    assert!(messages.is_empty());
}

#[test]
fn nextcloud_talk_parse_activitypub_skips_unauthorized_user() {
    let channel = channel_for(&["allowed_user"]);
    let payload = object(vec![
        ("type", text("Create")),
        (
            "actor",
            object(vec![
                ("type", text("Person")),
                ("id", text("users/other_user")),
                ("name", text("other_user")),
            ]),
        ),
        (
            "object",
            object(vec![
                ("type", text("Note")),
                ("id", text("703")),
                ("name", text("message")),
                ("content", text("{\"message\":\"hello\",\"parameters\":[]}")),
                ("mediaType", text("text/markdown")),
            ]),
        ),
        (
            "target",
            object(vec![
                ("type", text("Collection")),
                ("id", text("room-abc")),
                ("name", text("chat")),
            ]),
        ),
    ]);

    let messages = channel.parse_webhook_payload(&payload);
    assert!(messages.is_empty());
}

#[test]
fn nextcloud_talk_parse_activitypub_skips_non_message_object() {
    let channel = channel_for(&["*"]);
    let payload = object(vec![
        ("type", text("Create")),
        (
            "actor",
            object(vec![
                ("type", text("Person")),
                ("id", text("users/user_a")),
                ("name", text("user_a")),
            ]),
        ),
        (
            "object",
            object(vec![
                ("type", text("Note")),
                ("id", text("704")),
                ("name", text("reaction")),
                ("content", text("{\"message\":\"👍\",\"parameters\":[]}")),
                ("mediaType", text("text/markdown")),
            ]),
        ),
        (
            "target",
            object(vec![
                ("type", text("Collection")),
                ("id", text("room-abc")),
                ("name", text("chat")),
            ]),
        ),
    ]);

    let messages = channel.parse_webhook_payload(&payload);
    assert!(messages.is_empty());
}

#[test]
fn nextcloud_talk_parse_activitypub_wildcard_allowlist() {
    let channel = channel_for(&["*"]);
    let payload = object(vec![
        ("type", text("Create")),
        (
            "actor",
            object(vec![
                ("type", text("Person")),
                ("id", text("users/any_user")),
                ("name", text("any_user")),
            ]),
        ),
        (
            "object",
            object(vec![
                ("type", text("Note")),
                ("id", text("705")),
                ("name", text("message")),
                ("content", text("{\"message\":\"hi there\",\"parameters\":[]}")),
                ("mediaType", text("text/markdown")),
            ]),
        ),
        (
            "target",
            object(vec![
                ("type", text("Collection")),
                ("id", text("room-xyz")),
                ("name", text("channel")),
            ]),
        ),
    ]);

    let messages = channel.parse_webhook_payload(&payload);
    assert_eq!(messages.len(), 1);
    assert_eq!(messages[0].sender, "any_user");
    assert_eq!(messages[0].content, "hi there");
    assert_eq!(messages[0].reply_target, "room-xyz");
}

fn legacy(message: Vec<(&str, JsonValue)>) -> JsonValue {
    object(vec![("type", text("message")), ("message", object(message))])
}

fn activity(actor: &str, content: &str) -> JsonValue {
    object(vec![
        ("type", text("Create")),
        ("actor", object(vec![("id", text(actor))])),
        (
            "object",
            object(vec![("id", number(9)), ("name", text("message")), ("content", text(content))]),
        ),
        ("target", object(vec![("id", text(" room "))])),
    ])
}

#[test]
fn event_type_ignores_ascii_case() {
    let channel = channel_for(&["*"]);
    let mut payload = activity("users/u", "hi");
    if let JsonValue::Object(members) = &mut payload {
        members[0].1 = text("cREATE");
    }
    assert_eq!(channel.parse_webhook_payload(&payload).len(), 1);
    let payload = object(vec![
        ("type", text("MESSAGE")),
        (
            "message",
            object(vec![("token", text("r")), ("actorId", text("u")), ("message", text("x"))]),
        ),
    ]);
    assert_eq!(channel.parse_webhook_payload(&payload).len(), 1);
}

#[test]
fn payload_without_type_or_message_is_ignored() {
    let channel = channel_for(&["*"]);
    assert!(channel.parse_webhook_payload(&JsonValue::Null).is_empty());
    assert!(channel.parse_webhook_payload(&object(vec![])).is_empty());
    assert!(channel.parse_webhook_payload(&object(vec![("type", number(1))])).is_empty());
    assert!(channel.parse_webhook_payload(&object(vec![("type", text("message"))])).is_empty());
    assert!(channel.parse_webhook_payload(&JsonValue::Array(vec![text("message")])).is_empty());
}

#[test]
fn legacy_room_token_falls_back_to_the_message() {
    let channel = channel_for(&["*"]);
    let message = vec![("token", text(" r1 ")), ("actorId", text("u")), ("message", text("x"))];
    let messages = channel.parse_webhook_payload(&legacy(message));
    assert_eq!(messages[0].reply_target, "r1");
}

#[test]
fn blank_object_token_is_not_replaced() {
    let channel = channel_for(&["*"]);
    let payload = object(vec![
        ("type", text("message")),
        ("object", object(vec![("token", text("  "))])),
        (
            "message",
            object(vec![("token", text("r")), ("actorId", text("u")), ("message", text("x"))]),
        ),
    ]);
    assert!(channel.parse_webhook_payload(&payload).is_empty());
}

#[test]
fn legacy_actor_falls_back_to_the_payload() {
    let channel = channel_for(&["u"]);
    let payload = object(vec![
        ("type", text("message")),
        ("actorId", text("\u{a0}u\u{3000}")),
        ("actorType", text("users")),
        ("message", object(vec![("token", text("r")), ("message", text(" x\n"))])),
    ]);
    let messages = channel.parse_webhook_payload(&payload);
    assert_eq!(messages.len(), 1);
    assert_eq!(messages[0].sender, "u");
    assert_eq!(messages[0].content, "x");

    let payload = object(vec![
        ("type", text("message")),
        ("actorId", text("u")),
        ("actorType", text("Bots")),
        ("message", object(vec![("token", text("r")), ("message", text("x"))])),
    ]);
    assert!(channel.parse_webhook_payload(&payload).is_empty());
}

#[test]
fn legacy_message_type_and_system_message() {
    let channel = channel_for(&["*"]);
    let base = || vec![("token", text("r")), ("actorId", text("u")), ("message", text("x"))];

    let mut comment = base();
    comment.push(("messageType", text("COMMENT")));
    comment.push(("systemMessage", text(" \t")));
    assert_eq!(channel.parse_webhook_payload(&legacy(comment)).len(), 1);

    let mut untyped = base();
    untyped.push(("messageType", number(3)));
    assert_eq!(channel.parse_webhook_payload(&legacy(untyped)).len(), 1);

    let mut system = base();
    system.push(("messageType", text("system")));
    assert!(channel.parse_webhook_payload(&legacy(system)).is_empty());

    let mut blank = base();
    blank[2].1 = text(" \n ");
    assert!(channel.parse_webhook_payload(&legacy(blank)).is_empty());
}

#[test]
fn last_member_of_a_repeated_key_counts() {
    let channel = channel_for(&["*"]);
    let message = vec![
        ("token", text("r")),
        ("actorId", text("u")),
        ("message", text("first")),
        ("message", text("second")),
    ];
    assert_eq!(channel.parse_webhook_payload(&legacy(message))[0].content, "second");
}

#[test]
fn missing_identifier_becomes_a_random_uuid() {
    let channel = channel_for(&["*"]);
    let payload =
        || legacy(vec![("token", text("r")), ("actorId", text("u")), ("message", text("x"))]);
    let first = channel.parse_webhook_payload(&payload());
    let second = channel.parse_webhook_payload(&payload());
    let id: Vec<char> = first[0].id.chars().collect();
    assert_eq!(id.len(), 36);
    for (i, c) in id.iter().enumerate() {
        if i == 8 || i == 13 || i == 18 || i == 23 {
            assert_eq!(*c, '-');
        } else {
            assert!(matches!(c, '0'..='9' | 'a'..='f'));
        }
    }
    assert_eq!(id[14], '4');
    assert!(matches!(id[19], '8' | '9' | 'a' | 'b'));
    assert_ne!(first[0].id, second[0].id);
}

#[test]
fn missing_timestamp_is_taken_from_the_clock() {
    let before = std::time::SystemTime::now()
        .duration_since(std::time::UNIX_EPOCH)
        .unwrap()
        .as_secs();
    let channel = channel_for(&["*"]);
    let message = vec![("token", text("r")), ("actorId", text("u")), ("message", text("x"))];
    let legacy_time = channel.parse_webhook_payload(&legacy(message))[0].timestamp;
    let activity_time = channel.parse_webhook_payload(&activity("users/u", "hi"))[0].timestamp;
    assert!(before <= legacy_time && legacy_time < before + 60);
    assert!(before <= activity_time && activity_time < before + 60);
}

#[test]
fn complete_payload_is_parsed_alike_every_time() {
    let channel = channel_for(&["*"]);
    let payload = legacy(vec![
        ("id", text("m1")),
        ("timestamp", text(" 1735701200 ")),
        ("token", text("r")),
        ("actorId", text("u")),
        ("message", text("x")),
    ]);
    for _ in 0..3 {
        let messages = channel.parse_webhook_payload(&payload);
        assert_eq!(messages[0].id, "m1");
        assert_eq!(messages[0].timestamp, 1_735_701_200);
    }
}

#[test]
fn activity_content_that_is_no_json_is_used_as_it_stands() {
    let channel = channel_for(&["*"]);
    let messages = channel.parse_webhook_payload(&activity("users/u", "  plain words "));
    assert_eq!(messages.len(), 1);
    assert_eq!(messages[0].content, "plain words");
    assert_eq!(messages[0].id, "9");
    assert_eq!(messages[0].reply_target, "room");
    assert!(channel.parse_webhook_payload(&activity("users/u", "   ")).is_empty());
    assert!(channel.parse_webhook_payload(&activity("users/u", "")).is_empty());
}

#[test]
fn activity_content_that_is_json_needs_a_message() {
    let channel = channel_for(&["*"]);
    for content in ["{}", "42", "\"words\"", "null", "{\"message\":7}", "{\"message\":\" \"}"] {
        assert!(channel.parse_webhook_payload(&activity("users/u", content)).is_empty());
    }
    let messages =
        channel.parse_webhook_payload(&activity("users/u", "{\"message\":\" a\\n\\u0062 \"}"));
    assert_eq!(messages[0].content, "a\nb");
}

#[test]
fn activity_actor_identifiers() {
    let channel = channel_for(&["u"]);
    assert_eq!(channel.parse_webhook_payload(&activity("users/u", "x"))[0].sender, "u");
    assert_eq!(channel.parse_webhook_payload(&activity("u", "x"))[0].sender, "u");
    assert_eq!(channel.parse_webhook_payload(&activity("a/b/ u ", "x"))[0].sender, "u");
    assert!(channel.parse_webhook_payload(&activity("u/", "x")).is_empty());
    assert!(channel.parse_webhook_payload(&activity("", "x")).is_empty());
    assert!(channel.parse_webhook_payload(&activity("BOTS/u", "x")).is_empty());
    assert!(channel.parse_webhook_payload(&activity("bots", "x")).is_empty());
    assert!(channel.parse_webhook_payload(&activity("users/bots/u", "x")).len() == 1);
}

#[test]
fn empty_allowlist_ignores_everybody() {
    let channel = channel_for(&[]);
    assert!(channel.parse_webhook_payload(&activity("users/u", "x")).is_empty());
    let message = vec![("token", text("r")), ("actorId", text("u")), ("message", text("x"))];
    assert!(channel.parse_webhook_payload(&legacy(message)).is_empty());
}

#[test]
fn reading_an_activity_keeps_its_content() {
    let channel = channel_for(&["*"]);
    let read = channel.read_activitypub_payload(&activity("users/u", " {raw} ")).unwrap();
    assert_eq!(read.content, " {raw} ");
    assert_eq!(read.sender, "u");
    assert_eq!(read.reply_target, "room");
    assert_eq!(read.id, Some("9".to_string()));
}

fn some_activity() -> Activity {
    Activity {
        id: None,
        reply_target: "r".to_string(),
        sender: "s".to_string(),
        content: " raw ".to_string(),
    }
}

#[test]
fn decoded_content_decides_the_text() {
    let plain = some_activity().into_draft(DecodedContent::Plain).unwrap();
    assert_eq!(plain.content, "raw");
    let json = some_activity().into_draft(DecodedContent::Json(Some(" m ".to_string()))).unwrap();
    assert_eq!(json.content, "m");
    assert!(matches!(json.time, MessageTime::Received));
    assert!(some_activity().into_draft(DecodedContent::Json(None)).is_none());
    assert!(some_activity().into_draft(DecodedContent::Json(Some(" ".to_string()))).is_none());
}

fn draft(id: Option<&str>, time: MessageTime) -> MessageDraft {
    MessageDraft {
        id: id.map(|id| id.to_string()),
        reply_target: "r".to_string(),
        sender: "s".to_string(),
        content: "c".to_string(),
        time,
    }
}

#[test]
fn drafts_are_completed_with_what_they_lack() {
    let message = draft(None, MessageTime::Received).complete_with("f".to_string(), 12);
    assert_eq!((message.id.as_str(), message.timestamp), ("f", 12));
    let message = draft(Some("i"), MessageTime::Reported(Some(7))).complete_with("f".to_string(), 12);
    assert_eq!((message.id.as_str(), message.timestamp), ("i", 7));
    let message = draft(None, MessageTime::Reported(None)).complete_with("f".to_string(), 12);
    assert_eq!((message.id.as_str(), message.timestamp), ("f", 12));
    assert_eq!(message.channel, "nextcloud_talk");
    assert_eq!(message.content, "c");
}

#[test]
fn far_future_clock_is_scaled_for_reported_times_only() {
    let now = 2_000_000_000_000;
    let message = draft(None, MessageTime::Reported(None)).complete_with(String::new(), now);
    assert_eq!(message.timestamp, 2_000_000_000);
    let message = draft(None, MessageTime::Received).complete_with(String::new(), now);
    assert_eq!(message.timestamp, now);
}

#[test]
fn values_as_text() {
    assert_eq!(value_to_string(Some(&text(" a "))), Some(" a ".to_string()));
    assert_eq!(value_to_string(Some(&number(u64::MAX))), Some(u64::MAX.to_string()));
    let negative = JsonValue::Number(JsonNumber::Signed(i64::MIN));
    assert_eq!(value_to_string(Some(&negative)), Some(i64::MIN.to_string()));
    let float = JsonValue::Number(JsonNumber::Float("1.5".to_string()));
    assert_eq!(value_to_string(Some(&float)), Some("1.5".to_string()));
    assert_eq!(value_to_string(Some(&JsonValue::Bool(true))), None);
    assert_eq!(value_to_string(Some(&JsonValue::Null)), None);
    assert_eq!(value_to_string(None), None);
}

fn reason(channel: &NextcloudTalkChannel, payload: &JsonValue) -> String {
    assert!(channel.parse_webhook_payload(payload).is_empty());
    format!("{:?}", channel.ignored_reason(payload).unwrap())
}

#[test]
fn legacy_payloads_are_ignored_for_the_first_reason() {
    let channel = channel_for(&["u"]);
    assert_eq!(reason(&channel, &JsonValue::Null), "OtherEvent(\"\")");
    let payload = object(vec![("type", text("room"))]);
    assert_eq!(reason(&channel, &payload), "OtherEvent(\"room\")");
    let payload = object(vec![("type", text("message"))]);
    assert_eq!(reason(&channel, &payload), "NoMessage");
    assert_eq!(reason(&channel, &legacy(vec![])), "MissingRoom");

    let room = || vec![("token", text("r"))];
    assert_eq!(reason(&channel, &legacy(room())), "MissingActor");
    let mut message = room();
    message.push(("actorType", text("bots")));
    assert_eq!(reason(&channel, &legacy(message)), "Bot");
    let mut message = room();
    message.push(("actorId", text(" w ")));
    assert_eq!(reason(&channel, &legacy(message)), "Unauthorized(\"w\")");

    let actor = || vec![("token", text("r")), ("actorId", text("u"))];
    let mut message = actor();
    message.push(("messageType", text("voice")));
    message.push(("systemMessage", text("joined")));
    assert_eq!(reason(&channel, &legacy(message)), "OtherMessageType(\"voice\")");
    let mut message = actor();
    message.push(("systemMessage", text("joined")));
    assert_eq!(reason(&channel, &legacy(message)), "SystemMessage");
    assert_eq!(reason(&channel, &legacy(actor())), "BlankContent");
    let mut message = actor();
    message.push(("message", text("hi")));
    assert!(channel.ignored_reason(&legacy(message)).is_none());
}

#[test]
fn activities_are_ignored_for_the_first_reason() {
    let channel = channel_for(&["u"]);
    let create = |mut members: Vec<(&'static str, JsonValue)>| {
        members.push(("type", text("Create")));
        object(members)
    };
    let actor = |id: &str| ("actor", object(vec![("id", text(id))]));
    let target = || ("target", object(vec![("id", text("r"))]));

    let application = object(vec![("type", text("Application")), ("id", text("bots/b"))]);
    assert_eq!(reason(&channel, &create(vec![("actor", application)])), "Bot");
    assert_eq!(reason(&channel, &create(vec![actor("bots/u")])), "BotPrefix");
    assert_eq!(reason(&channel, &create(vec![])), "MissingActor");
    assert_eq!(reason(&channel, &create(vec![actor("users/w")])), "Unauthorized(\"w\")");
    assert_eq!(reason(&channel, &create(vec![actor("users/u")])), "MissingRoom");
    let payload = create(vec![actor("users/u"), target()]);
    assert_eq!(reason(&channel, &payload), "OtherObject(\"\")");
    let payload = create(vec![
        actor("users/u"),
        target(),
        ("object", object(vec![("name", text("reaction"))])),
    ]);
    assert_eq!(reason(&channel, &payload), "OtherObject(\"reaction\")");
    assert!(channel.ignored_reason(&activity("users/u", "hi")).is_none());
    assert!(channel.ignored_reason(&activity("users/u", "  ")).is_none());
    assert!(matches!(
        channel.read_activitypub_payload(&create(vec![])),
        Err(IgnoredReason::MissingActor)
    ));
}
