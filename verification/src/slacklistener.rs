//! The chat listener, as far as it decides: which messages are for the
//! bot, which command a message gives, and what the bot answers.
//! Connecting to the chat service and decoding its frames are the
//! caller's part.
use crate::audiorouter::{RestartError, StreamStatus};
use crate::audiostream::AudioStreamHealth;
use crate::commandprocessor::StreamHealth;
use crate::text::{chars_of, occurs_in, str_eq, string_of};
use vstd::prelude::*;

verus! {

/// The text that `str::to_lowercase` gives for a text.
pub uninterp spec fn lowercase_of(text: Seq<char>) -> Seq<char>;

/// `str::to_lowercase`: the text with every character in lower case.
#[verifier::external_body]
fn to_lowercase(text: &str) -> (lower: String)
    ensures
        lower@ == lowercase_of(text@),
{
    text.to_lowercase()
}

/// Whether a character has the Unicode property `White_Space`.
pub open spec fn is_white_space(c: char) -> bool {
    let code = c as u32;
    ||| 0x09 <= code <= 0x0d
    ||| code == 0x20
    ||| code == 0x85
    ||| code == 0xa0
    ||| code == 0x1680
    ||| 0x2000 <= code <= 0x200a
    ||| code == 0x2028
    ||| code == 0x2029
    ||| code == 0x202f
    ||| code == 0x205f
    ||| code == 0x3000
}

fn white_space(c: char) -> (w: bool)
    ensures
        w == is_white_space(c),
{
    let code: u32 = c as u32;
    (0x09 <= code && code <= 0x0d) || code == 0x20 || code == 0x85 || code == 0xa0 || code
        == 0x1680 || (0x2000 <= code && code <= 0x200a) || code == 0x2028 || code == 0x2029
        || code == 0x202f || code == 0x205f || code == 0x3000
}

/// The first position from `from` on that holds no white space (the
/// length of the text where there is none).
pub open spec fn word_start(s: Seq<char>, from: int) -> int
    decreases s.len() - from,
{
    if from < 0 || from >= s.len() || !is_white_space(s[from]) {
        from
    } else {
        word_start(s, from + 1)
    }
}

/// The first position from `from` on that holds white space (the length
/// of the text where there is none).
pub open spec fn word_end(s: Seq<char>, from: int) -> int
    decreases s.len() - from,
{
    if from < 0 || from >= s.len() || is_white_space(s[from]) {
        from
    } else {
        word_end(s, from + 1)
    }
}

/// The words of the text from `from` on: the stretches without white
/// space, in order.
pub open spec fn words_from(s: Seq<char>, from: int) -> Seq<Seq<char>>
    decreases s.len() - from,
{
    let start = word_start(s, from);
    let end = word_end(s, start);
    if from < 0 || start < from || start >= s.len() || end <= start || end > s.len() {
        Seq::<Seq<char>>::empty()
    } else {
        seq![s.subrange(start, end)] + words_from(s, end)
    }
}

/// The words of a text.
pub open spec fn words_of(s: Seq<char>) -> Seq<Seq<char>> {
    words_from(s, 0)
}

/// The texts of `v`.
pub open spec fn word_texts(v: Seq<Vec<char>>) -> Seq<Seq<char>> {
    Seq::new(v.len(), |i: int| v[i]@)
}

fn find_word_start(s: &Vec<char>, from: usize) -> (start: usize)
    requires
        from <= s.len(),
    ensures
        start == word_start(s@, from as int),
        from <= start <= s.len(),
        start < s.len() ==> !is_white_space(s@[start as int]),
{
    let mut i: usize = from;
    while i < s.len()
        invariant
            from <= i <= s.len(),
            word_start(s@, from as int) == word_start(s@, i as int),
        decreases s.len() - i,
    {
        if !white_space(s[i]) {
            return i;
        }
        i += 1;
    }
    i
}

fn find_word_end(s: &Vec<char>, from: usize) -> (end: usize)
    requires
        from <= s.len(),
    ensures
        end == word_end(s@, from as int),
        from <= end <= s.len(),
        from < s.len() && !is_white_space(s@[from as int]) ==> from < end,
{
    let mut i: usize = from;
    while i < s.len()
        invariant
            from <= i <= s.len(),
            word_end(s@, from as int) == word_end(s@, i as int),
            from < s.len() && !is_white_space(s@[from as int]) && i == from ==> i < s.len()
                && !is_white_space(s@[i as int]),
        decreases s.len() - i,
    {
        if white_space(s[i]) {
            return i;
        }
        i += 1;
    }
    i
}

/// Splits a text into its words.
pub fn split_words(text: &str) -> (words: Vec<Vec<char>>)
    ensures
        word_texts(words@) == words_of(text@),
{
    let s = chars_of(text);
    let mut words: Vec<Vec<char>> = Vec::new();
    let mut at: usize = 0;
    assert(word_texts(words@) =~= Seq::<Seq<char>>::empty());
    loop
        invariant
            at <= s.len(),
            s@ == text@,
            word_texts(words@) + words_from(s@, at as int) == words_of(s@),
        ensures
            word_texts(words@) == words_of(text@),
        decreases s.len() - at,
    {
        let start = find_word_start(&s, at);
        if start >= s.len() {
            assert(words_from(s@, at as int) =~= Seq::<Seq<char>>::empty());
            assert(word_texts(words@) + Seq::<Seq<char>>::empty() =~= word_texts(words@));
            break ;
        }
        let end = find_word_end(&s, start);
        let mut word: Vec<char> = Vec::new();
        let mut i: usize = start;
        while i < end
            invariant
                start <= i <= end <= s.len(),
                word@ == s@.subrange(start as int, i as int),
            decreases end - i,
        {
            word.push(s[i]);
            i += 1;
            assert(s@.subrange(start as int, i as int) == s@.subrange(
                start as int,
                i as int - 1,
            ).push(s@[i as int - 1]));
        }
        let ghost before = word_texts(words@);
        words.push(word);
        assert(word_texts(words@) =~= before.push(s@.subrange(start as int, end as int)));
        assert(before + (seq![s@.subrange(start as int, end as int)] + words_from(s@, end as int))
            =~= before.push(s@.subrange(start as int, end as int)) + words_from(s@, end as int));
        at = end;
    }
    words
}

/// Whether a word is a mention of a user: it starts with `<@`.
pub open spec fn is_mention(word: Seq<char>) -> bool {
    word.len() >= 2 && word[0] == '<' && word[1] == '@'
}

/// The first `n` of `words` without the mentions.
pub open spec fn without_mentions(words: Seq<Seq<char>>, n: int) -> Seq<Seq<char>>
    decreases n,
{
    if n <= 0 {
        Seq::<Seq<char>>::empty()
    } else if is_mention(words[n - 1]) {
        without_mentions(words, n - 1)
    } else {
        without_mentions(words, n - 1).push(words[n - 1])
    }
}

/// What the bot is asked to do.
#[derive(Debug)]
pub enum Command {
    /// Nothing was said beside the mention.
    Empty,
    Help,
    Status,
    List,
    /// Start the named stream again.
    Restart(String),
    /// `restart` without a name.
    RestartUsage,
    Yeller,
    Unknown,
}

/// What the bot is asked to do, as plain values.
pub enum CommandModel {
    Empty,
    Help,
    Status,
    List,
    Restart(Seq<char>),
    RestartUsage,
    Yeller,
    Unknown,
}

impl View for Command {
    type V = CommandModel;

    open spec fn view(&self) -> CommandModel {
        match self {
            Command::Empty => CommandModel::Empty,
            Command::Help => CommandModel::Help,
            Command::Status => CommandModel::Status,
            Command::List => CommandModel::List,
            Command::Restart(name) => CommandModel::Restart(name@),
            Command::RestartUsage => CommandModel::RestartUsage,
            Command::Yeller => CommandModel::Yeller,
            Command::Unknown => CommandModel::Unknown,
        }
    }
}

/// The command that the words give, mentions left out: the first word
/// decides, in whatever case it is written, and `restart` takes the
/// second word for the name of the stream.
pub open spec fn command_of(words: Seq<Seq<char>>) -> CommandModel {
    if words.len() == 0 {
        CommandModel::Empty
    } else {
        let verb = lowercase_of(words[0]);
        if verb == "help"@ {
            CommandModel::Help
        } else if verb == "status"@ {
            CommandModel::Status
        } else if verb == "list"@ {
            CommandModel::List
        } else if verb == "restart"@ {
            if words.len() < 2 {
                CommandModel::RestartUsage
            } else {
                CommandModel::Restart(words[1])
            }
        } else if verb == "yeller"@ {
            CommandModel::Yeller
        } else {
            CommandModel::Unknown
        }
    }
}

/// The command that a message gives.
pub open spec fn parsed_command(text: Seq<char>) -> CommandModel {
    command_of(without_mentions(words_of(text), words_of(text).len() as int))
}

/// Reads the command that a message gives.
pub fn parse_command(text: &str) -> (command: Command)
    ensures
        command@ == parsed_command(text@),
{
    let all = split_words(text);
    let ghost texts = word_texts(all@);
    let mut first: Option<usize> = None;
    let mut second: Option<usize> = None;
    let mut i: usize = 0;
    while i < all.len()
        invariant
            i <= all.len(),
            texts == word_texts(all@),
            match (first, second) {
                (None, None) => without_mentions(texts, i as int).len() == 0,
                (Some(a), None) => a < i && without_mentions(texts, i as int) == seq![texts[a as int]],
                (Some(a), Some(b)) => a < b < i && without_mentions(texts, i as int).len() >= 2
                    && without_mentions(texts, i as int)[0] == texts[a as int] && without_mentions(
                    texts,
                    i as int,
                )[1] == texts[b as int],
                (None, Some(_)) => false,
            },
        decreases all.len() - i,
    {
        let word = &all[i];
        assert(texts[i as int] == word@);
        let mention = word.len() >= 2 && word[0] == '<' && word[1] == '@';
        if !mention {
            if first.is_none() {
                first = Some(i);
            } else if second.is_none() {
                second = Some(i);
            }
        }
        i += 1;
    }
    let ghost kept = without_mentions(texts, all.len() as int);
    match first {
        None => Command::Empty,
        Some(a) => {
            let verb_text = string_of(&all[a]);
            assert(texts[a as int] == all@[a as int]@);
            let verb = to_lowercase(verb_text.as_str());
            if str_eq(verb.as_str(), "help") {
                Command::Help
            } else if str_eq(verb.as_str(), "status") {
                Command::Status
            } else if str_eq(verb.as_str(), "list") {
                Command::List
            } else if str_eq(verb.as_str(), "restart") {
                match second {
                    None => Command::RestartUsage,
                    Some(b) => {
                        assert(texts[b as int] == all@[b as int]@);
                        Command::Restart(string_of(&all[b]))
                    },
                }
            } else if str_eq(verb.as_str(), "yeller") {
                Command::Yeller
            } else {
                Command::Unknown
            }
        },
    }
}

/// One event of the chat service, as far as the bot reads it.
#[derive(Debug)]
pub struct SlackEvent {
    pub event_type: String,
    pub text: Option<String>,
    pub channel: Option<String>,
    pub user: Option<String>,
    pub bot_id: Option<String>,
}

/// What the bot does about an event.
#[derive(Debug)]
pub enum EventAction {
    /// The event is not for the bot.
    Ignore,
    /// Carry out the command. The answer is sent where `reply` is set,
    /// and the program ends after it where `shutdown` is set.
    Answer { command: Command, reply: bool, shutdown: bool },
}

/// The mention of the user `id` as it stands in a message.
pub open spec fn mention_of(id: Seq<char>) -> Seq<char> {
    "<@"@ + id + ">"@
}

/// The end of the text without the white space at its end.
pub open spec fn trimmed_end(s: Seq<char>, end: int) -> int
    decreases end,
{
    if end <= 0 || end > s.len() || !is_white_space(s[end - 1]) {
        end
    } else {
        trimmed_end(s, end - 1)
    }
}

/// The text without the white space at its two ends.
pub open spec fn trimmed(s: Seq<char>) -> Seq<char> {
    let start = word_start(s, 0);
    let end = trimmed_end(s, s.len() as int);
    if start >= end {
        Seq::<char>::empty()
    } else {
        s.subrange(start, end)
    }
}

fn trim_text(text: &str) -> (out: String)
    ensures
        out@ == trimmed(text@),
{
    let s = chars_of(text);
    let start = find_word_start(&s, 0);
    let mut end: usize = s.len();
    while end > 0 && white_space(s[end - 1])
        invariant
            end <= s.len(),
            trimmed_end(s@, s@.len() as int) == trimmed_end(s@, end as int),
        decreases end,
    {
        end -= 1;
    }
    let mut kept: Vec<char> = Vec::new();
    if start < end {
        let mut i: usize = start;
        while i < end
            invariant
                start <= i <= end <= s.len(),
                kept@ == s@.subrange(start as int, i as int),
            decreases end - i,
        {
            kept.push(s[i]);
            i += 1;
            assert(s@.subrange(start as int, i as int) == s@.subrange(
                start as int,
                i as int - 1,
            ).push(s@[i as int - 1]));
        }
    }
    string_of(&kept)
}

/// Whether the event is for the bot `bot_user_id`: it is no message of a
/// bot, it has a text, it is an app mention or its text mentions the
/// bot, and it does not come from the bot itself.
pub open spec fn is_for_bot(bot_user_id: Seq<char>, event: SlackEvent) -> bool {
    &&& event.bot_id is None
    &&& event.text is Some
    &&& event.event_type@ == "app_mention"@ || occurs_in(event.text->0@, mention_of(bot_user_id))
    &&& event.user is Some ==> event.user->0@ != bot_user_id
}

/// Whether a message asks the program to end: its text, white space at
/// the ends left out and in lower case, holds `yeller`.
pub open spec fn asks_to_end(text: Seq<char>) -> bool {
    occurs_in(lowercase_of(trimmed(text)), "yeller"@)
}

/// Decides what the bot `bot_user_id` does about an event.
pub fn handle_event(bot_user_id: &str, event: &SlackEvent) -> (action: EventAction)
    ensures
        !is_for_bot(bot_user_id@, *event) ==> action is Ignore,
        is_for_bot(bot_user_id@, *event) ==> action is Answer && action->command@
            == parsed_command(event.text->0@) && action->reply == (event.channel is Some)
            && action->shutdown == asks_to_end(event.text->0@),
{
    if event.bot_id.is_some() {
        return EventAction::Ignore;
    }
    let text = match &event.text {
        Some(text) => text,
        None => {
            return EventAction::Ignore;
        },
    };
    let is_app_mention = str_eq(event.event_type.as_str(), "app_mention");
    let mut mention = String::from_str("<@");
    mention.append(bot_user_id);
    mention.append(">");
    assert(mention@ =~= mention_of(bot_user_id@));
    let mentioned = crate::text::contains(text.as_str(), mention.as_str());
    if !is_app_mention && !mentioned {
        return EventAction::Ignore;
    }
    match &event.user {
        Some(user) => {
            if str_eq(user.as_str(), bot_user_id) {
                return EventAction::Ignore;
            }
        },
        None => {},
    }
    let command = parse_command(text.as_str());
    let lowered = to_lowercase(trim_text(text.as_str()).as_str());
    let shutdown = crate::text::contains(lowered.as_str(), "yeller");
    EventAction::Answer { command, reply: event.channel.is_some(), shutdown }
}

/// The name of a health of a source.
pub open spec fn stream_health_name(health: StreamHealth) -> Seq<char> {
    match health {
        StreamHealth::Running => "Running"@,
        StreamHealth::Stalled => "Stalled"@,
        StreamHealth::Dead => "Dead"@,
    }
}

/// The name of a health of the fingerprinting.
pub open spec fn audio_health_name(health: AudioStreamHealth) -> Seq<char> {
    match health {
        AudioStreamHealth::Running => "Running"@,
        AudioStreamHealth::NoData => "NoData"@,
        AudioStreamHealth::Degraded => "Degraded"@,
        AudioStreamHealth::Dead => "Dead"@,
    }
}

/// The answer to `status` for the first `n` of `streams`: a heading and
/// one line for each stream.
pub open spec fn status_lines(streams: Seq<StreamStatus>, n: int) -> Seq<char>
    decreases n,
{
    if n <= 0 {
        "*Stream Status:*"@
    } else {
        status_lines(streams, n - 1) + "\n• `"@ + streams[n - 1].stream@ + "`: Command="@
            + stream_health_name(streams[n - 1].command) + ", Audio="@ + audio_health_name(
            streams[n - 1].audio,
        )
    }
}

/// The answer to `status`.
pub open spec fn status_text(streams: Seq<StreamStatus>) -> Seq<char> {
    if streams.len() == 0 {
        "No streams configured."@
    } else {
        status_lines(streams, streams.len() as int)
    }
}

/// The answer to `list` for the first `n` of `streams`: a heading and
/// one line for each stream.
pub open spec fn list_lines(streams: Seq<StreamStatus>, n: int) -> Seq<char>
    decreases n,
{
    if n <= 0 {
        "*Configured Streams:*"@
    } else {
        list_lines(streams, n - 1) + "\n• `"@ + streams[n - 1].stream@ + "`"@
    }
}

/// The answer to `list`.
pub open spec fn list_text(streams: Seq<StreamStatus>) -> Seq<char> {
    if streams.len() == 0 {
        "No streams configured."@
    } else {
        list_lines(streams, streams.len() as int)
    }
}

/// The answer to `restart <name>`, by how the restart went.
pub open spec fn restart_text(name: Seq<char>, outcome: Result<u64, RestartError>) -> Seq<char> {
    match outcome {
        Ok(_) => "Successfully restarted stream `"@ + name + "`"@,
        Err(RestartError::NotFound) => "Failed to restart stream `"@ + name + "`: Stream '"@
            + name + "' not found"@,
        Err(RestartError::BudgetExhausted) => "Failed to restart stream `"@ + name
            + "`: Max restarts exceeded"@,
    }
}

fn push_stream_health(out: &mut String, health: StreamHealth)
    ensures
        final(out)@ == old(out)@ + stream_health_name(health),
{
    match health {
        StreamHealth::Running => out.append("Running"),
        StreamHealth::Stalled => out.append("Stalled"),
        StreamHealth::Dead => out.append("Dead"),
    }
}

fn push_audio_health(out: &mut String, health: AudioStreamHealth)
    ensures
        final(out)@ == old(out)@ + audio_health_name(health),
{
    match health {
        AudioStreamHealth::Running => out.append("Running"),
        AudioStreamHealth::NoData => out.append("NoData"),
        AudioStreamHealth::Degraded => out.append("Degraded"),
        AudioStreamHealth::Dead => out.append("Dead"),
    }
}

/// Words the answer to `status`.
pub fn get_status(streams: &Vec<StreamStatus>) -> (text: String)
    ensures
        text@ == status_text(streams@),
{
    if streams.len() == 0 {
        return String::from_str("No streams configured.");
    }
    let mut text = String::from_str("*Stream Status:*");
    let mut i: usize = 0;
    while i < streams.len()
        invariant
            i <= streams.len(),
            text@ == status_lines(streams@, i as int),
        decreases streams.len() - i,
    {
        let ghost before = text@;
        text.append("\n• `");
        text.append(streams[i].stream.as_str());
        text.append("`: Command=");
        push_stream_health(&mut text, streams[i].command);
        text.append(", Audio=");
        push_audio_health(&mut text, streams[i].audio);
        i += 1;
        assert(text@ =~= status_lines(streams@, i as int));
    }
    text
}

/// Words the answer to `list`.
pub fn list_streams(streams: &Vec<StreamStatus>) -> (text: String)
    ensures
        text@ == list_text(streams@),
{
    if streams.len() == 0 {
        return String::from_str("No streams configured.");
    }
    let mut text = String::from_str("*Configured Streams:*");
    let mut i: usize = 0;
    while i < streams.len()
        invariant
            i <= streams.len(),
            text@ == list_lines(streams@, i as int),
        decreases streams.len() - i,
    {
        text.append("\n• `");
        text.append(streams[i].stream.as_str());
        text.append("`");
        i += 1;
        assert(text@ =~= list_lines(streams@, i as int));
    }
    text
}

/// Words the answer to `restart <name>`.
pub fn restart_stream(stream_name: &str, outcome: Result<u64, RestartError>) -> (text: String)
    ensures
        text@ == restart_text(stream_name@, outcome),
{
    match outcome {
        Ok(_) => {
            let mut text = String::from_str("Successfully restarted stream `");
            text.append(stream_name);
            text.append("`");
            text
        },
        Err(e) => {
            let mut text = String::from_str("Failed to restart stream `");
            text.append(stream_name);
            match e {
                RestartError::NotFound => {
                    text.append("`: Stream '");
                    text.append(stream_name);
                    text.append("' not found");
                },
                RestartError::BudgetExhausted => {
                    text.append("`: Max restarts exceeded");
                },
            }
            text
        },
    }
}

/// The answer to a command that needs no look at the streams, or `None`
/// for the commands that do.
pub open spec fn fixed_reply(command: CommandModel) -> Option<Seq<char>> {
    match command {
        CommandModel::Empty => Some(
            "Available commands: `status`, `list`, `restart <stream>`, `help`, `yeller`"@,
        ),
        CommandModel::Help => Some(
            "Here are the commands I learned!\n• `status` - Show health of all streams\n• `list` - List all stream names\n• `restart <stream_name>` - Restart a specific stream\n• `help` - Show this help message\n• `yeller` - Bark bark!"@,
        ),
        CommandModel::RestartUsage => Some("Usage: `restart <stream_name>`"@),
        CommandModel::Yeller => Some("Bark bark!"@),
        CommandModel::Unknown => Some(
            "Woof? I don't know that command. Try `help` for available commands."@,
        ),
        _ => None,
    }
}

/// Words the answer to a command that needs no look at the streams.
pub fn reply_without_streams(command: &Command) -> (text: Option<String>)
    ensures
        match text {
            Some(t) => fixed_reply(command@) == Some(t@),
            None => fixed_reply(command@) is None,
        },
{
    match command {
        Command::Empty => Some(
            String::from_str(
                "Available commands: `status`, `list`, `restart <stream>`, `help`, `yeller`",
            ),
        ),
        Command::Help => Some(
            String::from_str(
                "Here are the commands I learned!\n• `status` - Show health of all streams\n• `list` - List all stream names\n• `restart <stream_name>` - Restart a specific stream\n• `help` - Show this help message\n• `yeller` - Bark bark!",
            ),
        ),
        Command::RestartUsage => Some(String::from_str("Usage: `restart <stream_name>`")),
        Command::Yeller => Some(String::from_str("Bark bark!")),
        Command::Unknown => Some(
            String::from_str("Woof? I don't know that command. Try `help` for available commands."),
        ),
        _ => None,
    }
}

/// What the chat service answered to the request for a connection, as
/// far as it is read: the members `ok`, `error` and `url` of its reply.
#[derive(Debug)]
pub struct ConnectionReply {
    pub ok: Option<bool>,
    pub error: Option<String>,
    pub url: Option<String>,
}

/// The address to connect to, or why there is none: a reply that says
/// that it is not in order gives its error, and a reply without an
/// address says so.
pub open spec fn websocket_url_of(reply: ConnectionReply) -> Result<Seq<char>, Seq<char>> {
    if reply.ok is Some && !reply.ok->0 {
        Err(
            "Slack API error: "@ + (match reply.error {
                Some(e) => e@,
                None => "unknown"@,
            }),
        )
    } else {
        match reply.url {
            Some(url) => Ok(url@),
            None => Err("No URL in response"@),
        }
    }
}

/// Reads the address to connect to off the reply of the chat service.
pub fn get_websocket_url(reply: &ConnectionReply) -> (r: Result<String, String>)
    ensures
        match r {
            Ok(url) => websocket_url_of(*reply) == Ok::<Seq<char>, Seq<char>>(url@),
            Err(e) => websocket_url_of(*reply) == Err::<Seq<char>, Seq<char>>(e@),
        },
{
    match reply.ok {
        Some(ok) => {
            if !ok {
                let mut message = String::from_str("Slack API error: ");
                match &reply.error {
                    Some(e) => message.append(e.as_str()),
                    None => message.append("unknown"),
                }
                return Err(message);
            }
        },
        None => {},
    }
    match &reply.url {
        Some(url) => Ok(url.clone()),
        None => Err(String::from_str("No URL in response")),
    }
}

/// The chat listener of one bot.
#[derive(Debug)]
pub struct SlackListener {
    app_token: String,
    bot_user_id: String,
    dry_run: bool,
}

impl SlackListener {
    pub fn new(app_token: String, bot_user_id: String, dry_run: bool) -> (listener: SlackListener)
        ensures
            listener.app_token() == app_token@,
            listener.bot_user_id() == bot_user_id@,
            listener.dry_run() == dry_run,
    {
        SlackListener { app_token, bot_user_id, dry_run }
    }

    pub closed spec fn app_token(&self) -> Seq<char> {
        self.app_token@
    }

    pub closed spec fn bot_user_id(&self) -> Seq<char> {
        self.bot_user_id@
    }

    pub closed spec fn dry_run(&self) -> bool {
        self.dry_run
    }

    /// Whether the listener connects at all: in a dry run it does not.
    pub fn start(&self) -> (connects: bool)
        ensures
            connects == !self.dry_run(),
    {
        !self.dry_run
    }

    /// The value of the header that authorises the request for a
    /// connection.
    pub fn authorization(&self) -> (header: String)
        ensures
            header@ == "Bearer "@ + self.app_token(),
    {
        let mut header = String::from_str("Bearer ");
        header.append(self.app_token.as_str());
        header
    }

    /// Decides what the bot does about an event.
    pub fn decide(&self, event: &SlackEvent) -> (action: EventAction)
        ensures
            !is_for_bot(self.bot_user_id(), *event) ==> action is Ignore,
            is_for_bot(self.bot_user_id(), *event) ==> action is Answer && action->command@
                == parsed_command(event.text->0@) && action->reply == (event.channel is Some)
                && action->shutdown == asks_to_end(event.text->0@),
    {
        handle_event(self.bot_user_id.as_str(), event)
    }
}

} // verus!
