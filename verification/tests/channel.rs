use nextcloud_talk::NextcloudTalkChannel;

fn make_channel() -> NextcloudTalkChannel {
    NextcloudTalkChannel::new(
        "https://cloud.example.com".into(),
        "app-token".into(),
        None,
        vec!["user_a".into()],
    )
}

#[test]
fn nextcloud_talk_channel_name() {
    let channel = make_channel();
    assert_eq!(channel.name(), "nextcloud_talk");
}

#[test]
fn nextcloud_talk_user_allowlist_exact_and_wildcard() {
    let channel = make_channel();
    assert!(channel.is_user_allowed("user_a"));
    assert!(!channel.is_user_allowed("user_b"));

    let wildcard = NextcloudTalkChannel::new(
        "https://cloud.example.com".into(),
        "app-token".into(),
        None,
        vec!["*".into()],
    );
    assert!(wildcard.is_user_allowed("any_user"));
}

#[test]
fn nextcloud_talk_has_bot_secret_when_provided() {
    let channel = NextcloudTalkChannel::new(
        "https://cloud.example.com".into(),
        "app-token".into(),
        Some("my-bot-secret".into()),
        vec!["*".into()],
    );
    assert!(channel.bot_secret().is_some());
}

#[test]
fn nextcloud_talk_no_bot_secret_when_none() {
    let channel = make_channel();
    assert!(channel.bot_secret().is_none());
}

#[test]
fn allowlist_is_case_sensitive_and_untrimmed() {
    let channel = make_channel();
    assert!(!channel.is_user_allowed("User_A"));
    assert!(!channel.is_user_allowed(" user_a"));
    assert!(!channel.is_user_allowed("*"));
    assert!(!channel.is_user_allowed(""));
}

#[test]
fn slashes_at_the_end_of_the_base_url_are_dropped() {
    for (given, kept) in [
        ("https://cloud.example.com", "https://cloud.example.com"),
        ("https://cloud.example.com/", "https://cloud.example.com"),
        ("https://cloud.example.com///", "https://cloud.example.com"),
        ("https://cloud.example.com/a/", "https://cloud.example.com/a"),
        ("///", ""),
        ("", ""),
    ] {
        let channel = NextcloudTalkChannel::new(given.into(), "t".into(), None, vec![]);
        assert_eq!(channel.base_url(), kept);
        assert_eq!(channel.app_token(), "t");
    }
}
