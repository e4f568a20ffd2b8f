use watchdog::audiorouter::{RestartError, StreamStatus};
use watchdog::audiostream::AudioStreamHealth;
use watchdog::commandprocessor::StreamHealth;
use watchdog::slacklistener::{
    get_status, get_websocket_url, handle_event, list_streams, parse_command,
    reply_without_streams, restart_stream, split_words, Command, ConnectionReply, EventAction,
    SlackEvent, SlackListener,
};

fn words(text: &str) -> Vec<String> {
    split_words(text).iter().map(|w| w.iter().collect()).collect()
}

fn event(kind: &str, text: Option<&str>) -> SlackEvent {
    SlackEvent {
        event_type: kind.to_string(),
        text: text.map(|t| t.to_string()),
        channel: Some("C1".to_string()),
        user: Some("U_HUMAN".to_string()),
        bot_id: None,
    }
}

fn status(name: &str, command: StreamHealth, audio: AudioStreamHealth) -> StreamStatus {
    StreamStatus { stream: name.to_string(), command, audio }
}

#[test]
fn words_are_split_like_std() {
    for text in [
        "",
        "   ",
        "status",
        "  <@U1>  restart   HD1-Tower  ",
        "a\tb\nc\r\nd",
        "tab\u{a0}nbsp\u{2003}em\u{3000}wide",
        "zero\u{200b}width stays",
    ] {
        let expected: Vec<String> = text.split_whitespace().map(|w| w.to_string()).collect();
        assert_eq!(words(text), expected);
    }
}

#[test]
fn commands_are_read_off_the_first_word() {
    assert!(matches!(parse_command(""), Command::Empty));
    assert!(matches!(parse_command("<@U_BOT>"), Command::Empty));
    assert!(matches!(parse_command("<@U_BOT> help"), Command::Help));
    assert!(matches!(parse_command("HELP me"), Command::Help));
    assert!(matches!(parse_command("  Status "), Command::Status));
    assert!(matches!(parse_command("list <@U_BOT>"), Command::List));
    assert!(matches!(parse_command("<@U_BOT> yeller"), Command::Yeller));
    assert!(matches!(parse_command("restart"), Command::RestartUsage));
    assert!(matches!(parse_command("restart <@U_BOT>"), Command::RestartUsage));
    assert!(matches!(parse_command("dance"), Command::Unknown));
    assert!(matches!(parse_command("helpful"), Command::Unknown));
    match parse_command("<@U_BOT> ReStArT <@U2> HD1-Tower now") {
        Command::Restart(name) => assert_eq!(name, "HD1-Tower"),
        other => panic!("unexpected command {:?}", other),
    }
}

#[test]
fn events_of_bots_and_strangers_are_ignored() {
    let mut from_bot = event("app_mention", Some("<@U_BOT> status"));
    from_bot.bot_id = Some("B1".to_string());
    assert!(matches!(handle_event("U_BOT", &from_bot), EventAction::Ignore));
    assert!(matches!(handle_event("U_BOT", &event("app_mention", None)), EventAction::Ignore));
    assert!(matches!(
        handle_event("U_BOT", &event("message", Some("status"))),
        EventAction::Ignore
    ));
    assert!(matches!(
        handle_event("U_BOT", &event("message", Some("<@U_OTHER> status"))),
        EventAction::Ignore
    ));
    let mut own = event("app_mention", Some("<@U_BOT> status"));
    own.user = Some("U_BOT".to_string());
    assert!(matches!(handle_event("U_BOT", &own), EventAction::Ignore));
}

#[test]
fn mentions_are_answered() {
    match handle_event("U_BOT", &event("message", Some("hey <@U_BOT> list"))) {
        EventAction::Answer { command, reply, shutdown } => {
            assert!(matches!(command, Command::Unknown));
            assert!(reply);
            assert!(!shutdown);
        },
        other => panic!("unexpected action {:?}", other),
    }
    let mut nowhere = event("app_mention", Some("status"));
    nowhere.channel = None;
    nowhere.user = None;
    match handle_event("U_BOT", &nowhere) {
        EventAction::Answer { command, reply, shutdown } => {
            assert!(matches!(command, Command::Status));
            assert!(!reply);
            assert!(!shutdown);
        },
        other => panic!("unexpected action {:?}", other),
    }
    match handle_event("U_BOT", &event("app_mention", Some("  <@U_BOT> Old YELLER  "))) {
        EventAction::Answer { command, shutdown, .. } => {
            assert!(matches!(command, Command::Unknown));
            assert!(shutdown);
        },
        other => panic!("unexpected action {:?}", other),
    }
}

#[test]
fn fixed_replies() {
    assert_eq!(
        reply_without_streams(&Command::Empty).unwrap(),
        "Available commands: `status`, `list`, `restart <stream>`, `help`, `yeller`"
    );
    assert_eq!(
        reply_without_streams(&Command::Help).unwrap(),
        "Here are the commands I learned!\n• `status` - Show health of all streams\n• `list` - List all stream names\n• `restart <stream_name>` - Restart a specific stream\n• `help` - Show this help message\n• `yeller` - Bark bark!"
    );
    assert_eq!(
        reply_without_streams(&Command::RestartUsage).unwrap(),
        "Usage: `restart <stream_name>`"
    );
    assert_eq!(reply_without_streams(&Command::Yeller).unwrap(), "Bark bark!");
    assert_eq!(
        reply_without_streams(&Command::Unknown).unwrap(),
        "Woof? I don't know that command. Try `help` for available commands."
    );
    assert!(reply_without_streams(&Command::Status).is_none());
    assert!(reply_without_streams(&Command::List).is_none());
    assert!(reply_without_streams(&Command::Restart("x".to_string())).is_none());
}

#[test]
fn status_and_list_replies() {
    assert_eq!(get_status(&Vec::new()), "No streams configured.");
    assert_eq!(list_streams(&Vec::new()), "No streams configured.");
    let streams = vec![
        status("HD1-Tower", StreamHealth::Running, AudioStreamHealth::Running),
        status("HD1-hls", StreamHealth::Stalled, AudioStreamHealth::NoData),
        status("HD2-Tower", StreamHealth::Dead, AudioStreamHealth::Degraded),
        status("HD2-hls", StreamHealth::Running, AudioStreamHealth::Dead),
    ];
    assert_eq!(
        get_status(&streams),
        "*Stream Status:*\n• `HD1-Tower`: Command=Running, Audio=Running\n• `HD1-hls`: Command=Stalled, Audio=NoData\n• `HD2-Tower`: Command=Dead, Audio=Degraded\n• `HD2-hls`: Command=Running, Audio=Dead"
    );
    assert_eq!(
        list_streams(&streams),
        "*Configured Streams:*\n• `HD1-Tower`\n• `HD1-hls`\n• `HD2-Tower`\n• `HD2-hls`"
    );
}

#[test]
fn restart_replies() {
    assert_eq!(restart_stream("HD1-Tower", Ok(30)), "Successfully restarted stream `HD1-Tower`");
    assert_eq!(
        restart_stream("ghost", Err(RestartError::NotFound)),
        "Failed to restart stream `ghost`: Stream 'ghost' not found"
    );
    assert_eq!(
        restart_stream("HD1-Tower", Err(RestartError::BudgetExhausted)),
        "Failed to restart stream `HD1-Tower`: Max restarts exceeded"
    );
}

#[test]
fn websocket_url_is_read_off_the_reply() {
    let reply = |ok: Option<bool>, error: Option<&str>, url: Option<&str>| ConnectionReply {
        ok,
        error: error.map(|e| e.to_string()),
        url: url.map(|u| u.to_string()),
    };
    assert_eq!(
        get_websocket_url(&reply(Some(true), None, Some("wss://x/y"))),
        Ok("wss://x/y".to_string())
    );
    assert_eq!(get_websocket_url(&reply(None, None, Some("wss://x/y"))), Ok("wss://x/y".to_string()));
    assert_eq!(
        get_websocket_url(&reply(Some(false), Some("invalid_auth"), Some("wss://x/y"))),
        Err("Slack API error: invalid_auth".to_string())
    );
    assert_eq!(
        get_websocket_url(&reply(Some(false), None, None)),
        Err("Slack API error: unknown".to_string())
    );
    assert_eq!(
        get_websocket_url(&reply(Some(true), Some("ignored"), None)),
        Err("No URL in response".to_string())
    );
}

#[test]
fn listener_settings() {
    let listener = SlackListener::new("xapp-1".to_string(), "U_BOT".to_string(), false);
    assert!(listener.start());
    assert_eq!(listener.authorization(), "Bearer xapp-1");
    assert!(matches!(
        listener.decide(&event("app_mention", Some("help"))),
        EventAction::Answer { command: Command::Help, reply: true, shutdown: false }
    ));
    let dry = SlackListener::new("xapp-1".to_string(), "U_BOT".to_string(), true);
    assert!(!dry.start());
}
