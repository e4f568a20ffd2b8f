//! The chat transport, as far as it computes: what a message to the chat
//! service is made of. Sending it is the caller's part.
use vstd::prelude::*;

verus! {

/// The JSON text that `serde_json::to_string` writes for an object with
/// the given members, each a name and a text.
pub uninterp spec fn json_object(members: Seq<(Seq<char>, Seq<char>)>) -> Seq<char>;

/// The members in `v` as pairs of texts.
pub open spec fn member_pairs(v: Seq<(String, String)>) -> Seq<(Seq<char>, Seq<char>)> {
    Seq::new(v.len(), |i: int| (v[i].0@, v[i].1@))
}

/// Puts the members into a JSON object and writes it out with
/// `serde_json::to_string`, which cannot fail on an object whose members
/// are all texts.
#[verifier::external_body]
fn encode_object(members: &Vec<(String, String)>) -> (body: Option<String>)
    ensures
        body is Some,
        body->0@ == json_object(member_pairs(members@)),
{
    let object: serde_json::Map<String, serde_json::Value> = members.iter().map(
        |member| (member.0.clone(), serde_json::Value::String(member.1.clone())),
    ).collect();
    serde_json::to_string(&serde_json::Value::Object(object)).ok()
}

/// The members of a message to the chat service: the channel that it
/// goes to and its text.
pub open spec fn message_members(channel: Seq<char>, text: Seq<char>) -> Seq<
    (Seq<char>, Seq<char>),
> {
    seq![("channel"@, channel), ("text"@, text)]
}

/// The credentials and the channel that alert messages go to.
#[derive(Debug)]
pub struct SlackMessageSender {
    authorization: String,
    channel_id: String,
    dry_run: bool,
}

/// What a sender holds, as plain values.
pub struct SlackMessageSenderModel {
    pub authorization: Seq<char>,
    pub channel_id: Seq<char>,
    pub dry_run: bool,
}

/// One HTTP request to the chat service: a POST of `body` to `url` with
/// the three headers.
#[derive(Debug)]
pub struct SlackRequest {
    pub url: String,
    pub user_agent: String,
    pub authorization: String,
    pub content_type: String,
    pub body: String,
}

/// What is to be done with a message.
#[derive(Debug)]
pub enum Dispatch {
    /// Dry run: the message is shown to the operator and counts as sent.
    PrintOnly,
    /// The request is to be made.
    Post(SlackRequest),
}

impl View for SlackMessageSender {
    type V = SlackMessageSenderModel;

    closed spec fn view(&self) -> SlackMessageSenderModel {
        SlackMessageSenderModel {
            authorization: self.authorization@,
            channel_id: self.channel_id@,
            dry_run: self.dry_run,
        }
    }
}

impl SlackMessageSender {
    pub fn new(auth: String, channel: String, dry_run: bool) -> (sender: SlackMessageSender)
        ensures
            sender@ == (SlackMessageSenderModel {
                authorization: auth@,
                channel_id: channel@,
                dry_run,
            }),
    {
        SlackMessageSender { authorization: auth, channel_id: channel, dry_run }
    }

    pub fn is_dry_run(&self) -> (dry_run: bool)
        ensures
            dry_run == self@.dry_run,
    {
        self.dry_run
    }

    pub fn channel_id(&self) -> (channel: &String)
        ensures
            channel@ == self@.channel_id,
    {
        &self.channel_id
    }

    /// What is to be done with `message`. In a dry run nothing is posted.
    /// Otherwise the request posts the message as a JSON object with the
    /// members `channel` and `text` to the chat service's
    /// `chat.postMessage`, authorised as bearer of the token.
    pub fn prepare(&self, message: &str) -> (dispatch: Dispatch)
        ensures
            self@.dry_run ==> dispatch is PrintOnly,
            !self@.dry_run ==> dispatch is Post && ({
                let request = dispatch->Post_0;
                &&& request.url@ == "https://slack.com/api/chat.postMessage"@
                &&& request.user_agent@ == "wrek-watchdog/1.0"@
                &&& request.authorization@ == "Bearer "@ + self@.authorization
                &&& request.content_type@ == "application/json"@
                &&& request.body@ == json_object(message_members(self@.channel_id, message@))
            }),
    {
        if self.dry_run {
            return Dispatch::PrintOnly;
        }
        let mut members: Vec<(String, String)> = Vec::new();
        members.push((String::from_str("channel"), self.channel_id.clone()));
        members.push((String::from_str("text"), String::from_str(message)));
        assert(member_pairs(members@) =~= message_members(self@.channel_id, message@));
        let body = match encode_object(&members) {
            Some(body) => body,
            None => vstd::pervasive::unreached(),
        };
        let mut authorization = String::from_str("Bearer ");
        authorization.append(self.authorization.as_str());
        Dispatch::Post(
            SlackRequest {
                url: String::from_str("https://slack.com/api/chat.postMessage"),
                user_agent: String::from_str("wrek-watchdog/1.0"),
                authorization,
                content_type: String::from_str("application/json"),
                body,
            },
        )
    }
}

} // verus!
