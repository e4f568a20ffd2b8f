use watchdog::slack::{Dispatch, SlackMessageSender};

#[test]
fn dry_run_posts_nothing() {
    let sender = SlackMessageSender::new("xoxb-token".to_string(), "C123".to_string(), true);
    assert!(sender.is_dry_run());
    assert_eq!(sender.channel_id(), "C123");
    assert!(matches!(sender.prepare("hello"), Dispatch::PrintOnly));
}

#[test]
fn message_is_posted_as_json() {
    let sender = SlackMessageSender::new("xoxb-token".to_string(), "C123".to_string(), false);
    assert!(!sender.is_dry_run());
    match sender.prepare("*Warning:* _A new issue has been detected!_\nline \"two\"") {
        Dispatch::Post(request) => {
            assert_eq!(request.url, "https://slack.com/api/chat.postMessage");
            assert_eq!(request.user_agent, "wrek-watchdog/1.0");
            assert_eq!(request.authorization, "Bearer xoxb-token");
            assert_eq!(request.content_type, "application/json");
            assert_eq!(
                request.body,
                "{\"channel\":\"C123\",\"text\":\"*Warning:* _A new issue has been detected!_\\nline \\\"two\\\"\"}"
            );
            let value: serde_json::Value = serde_json::from_str(&request.body).unwrap();
            assert_eq!(value["channel"], "C123");
            assert_eq!(
                value["text"],
                "*Warning:* _A new issue has been detected!_\nline \"two\""
            );
        },
        other => panic!("unexpected dispatch {:?}", other),
    }
}
