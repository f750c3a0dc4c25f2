//! Webhook payloads of Nextcloud Talk.
//!
//! Two formats are understood. In the ActivityPub format (Talk v20 and later) `type` is
//! `Create`, `actor.id` is `<actor type>/<user name>`, `actor.type` is `Application` for
//! a bot, `object.name` is `message` for a chat message, `object.content` is a JSON text
//! `{"message":"...","parameters":[...]}`, and `target.id` is the room token. In the
//! legacy format `type` is `message`, `object.token` is the room token, and `message`
//! holds `actorType`, `actorId`, `message` and `timestamp`.
use crate::channel::{channel_name, user_allowed, NextcloudTalkChannel};
use crate::clock::now_unix_secs;
use crate::json::{
    json_text_member, member, read_text_member, scalar_text, text_member, Json, JsonValue,
};
use crate::message::{messages_of, ChannelMessage, Message};
use crate::nonce::{new_uuid, uuid_v4_text};
use crate::text::{
    after_last, ascii_lower, before_first, eq_ignore_ascii_case, lemma_after_last_of_join,
    lemma_before_first_of_join, lemma_trimmed_fixed, opt_text, same_ignoring_ascii_case,
    split_after_last, split_before, str_view, trim, trimmed,
};
use crate::timestamp::{reported, reported_timestamp, timestamp_seconds, timestamp_secs};
use vstd::prelude::*;

verus! {

/// Where the timestamp of a message comes from.
#[derive(Debug)]
pub enum MessageTime {
    /// From the payload, where it reports a readable one, else from the clock.
    Reported(Option<u64>),
    /// From the clock.
    Received,
}

/// A message read from a payload, before the identifier and the timestamp that the
/// payload lacks are filled in.
#[derive(Debug)]
pub struct MessageDraft {
    pub id: Option<String>,
    pub reply_target: String,
    pub sender: String,
    pub content: String,
    pub time: MessageTime,
}

/// An ActivityPub message, with its content as it stands in the payload.
#[derive(Debug)]
pub struct Activity {
    pub id: Option<String>,
    pub reply_target: String,
    pub sender: String,
    pub content: String,
}

/// The content of an ActivityPub message, read as JSON.
#[derive(Debug)]
pub enum DecodedContent {
    /// It is no JSON.
    Plain,
    /// It is JSON, with this string member `message`.
    Json(Option<String>),
}

/// Why a payload is ignored.
#[derive(Debug)]
pub enum IgnoredReason {
    /// It is an event of this other type.
    OtherEvent(String),
    /// It has no message object.
    NoMessage,
    /// It does not tell the room.
    MissingRoom,
    /// Its actor is a bot.
    Bot,
    /// The identifier of its actor is that of a bot.
    BotPrefix,
    /// It does not tell the actor.
    MissingActor,
    /// This actor is not on the list of allowed users.
    Unauthorized(String),
    /// Its message is of this other type.
    OtherMessageType(String),
    /// Its message is a system message.
    SystemMessage,
    /// Its object is of this other name.
    OtherObject(String),
    /// Its message has no text.
    BlankContent,
}

/// The mathematical value of an `IgnoredReason`.
pub enum Reason {
    OtherEvent(Seq<char>),
    NoMessage,
    MissingRoom,
    Bot,
    BotPrefix,
    MissingActor,
    Unauthorized(Seq<char>),
    OtherMessageType(Seq<char>),
    SystemMessage,
    OtherObject(Seq<char>),
    BlankContent,
}

impl View for IgnoredReason {
    type V = Reason;

    open spec fn view(&self) -> Reason {
        match *self {
            IgnoredReason::OtherEvent(event_type) => Reason::OtherEvent(event_type@),
            IgnoredReason::NoMessage => Reason::NoMessage,
            IgnoredReason::MissingRoom => Reason::MissingRoom,
            IgnoredReason::Bot => Reason::Bot,
            IgnoredReason::BotPrefix => Reason::BotPrefix,
            IgnoredReason::MissingActor => Reason::MissingActor,
            IgnoredReason::Unauthorized(actor) => Reason::Unauthorized(actor@),
            IgnoredReason::OtherMessageType(name) => Reason::OtherMessageType(name@),
            IgnoredReason::SystemMessage => Reason::SystemMessage,
            IgnoredReason::OtherObject(name) => Reason::OtherObject(name@),
            IgnoredReason::BlankContent => Reason::BlankContent,
        }
    }
}

/// The mathematical value of a `MessageDraft`.
pub struct Draft {
    pub id: Option<Seq<char>>,
    pub reply_target: Seq<char>,
    pub sender: Seq<char>,
    pub content: Seq<char>,
    pub time: MessageTime,
}

/// The mathematical value of an `Activity`.
pub struct ActivityNote {
    pub id: Option<Seq<char>>,
    pub reply_target: Seq<char>,
    pub sender: Seq<char>,
    pub content: Seq<char>,
}

impl View for MessageDraft {
    type V = Draft;

    open spec fn view(&self) -> Draft {
        Draft {
            id: opt_text(self.id),
            reply_target: self.reply_target@,
            sender: self.sender@,
            content: self.content@,
            time: self.time,
        }
    }
}

impl View for Activity {
    type V = ActivityNote;

    open spec fn view(&self) -> ActivityNote {
        ActivityNote {
            id: opt_text(self.id),
            reply_target: self.reply_target@,
            sender: self.sender@,
            content: self.content@,
        }
    }
}

impl View for DecodedContent {
    type V = Option<Option<Seq<char>>>;

    open spec fn view(&self) -> Option<Option<Seq<char>>> {
        match *self {
            DecodedContent::Plain => None,
            DecodedContent::Json(message) => Some(opt_text(message)),
        }
    }
}

/// `text` trimmed, where it is there and not blank.
pub open spec fn nonblank(text: Option<Seq<char>>) -> Option<Seq<char>> {
    match text {
        Some(s) => if trimmed(s).len() > 0 {
            Some(trimmed(s))
        } else {
            None
        },
        None => None,
    }
}

/// `first`, or `second` where there is no `first`.
pub open spec fn either(first: Option<Seq<char>>, second: Option<Seq<char>>) -> Option<Seq<char>> {
    match first {
        Some(_) => first,
        None => second,
    }
}

/// `text` is there and is `word`, ASCII letter case ignored.
pub open spec fn is_word(text: Option<Seq<char>>, word: Seq<char>) -> bool {
    text is Some && same_ignoring_ascii_case(text->0, word)
}

/// The text of the member `inner` of the member `outer` of `value`.
pub open spec fn nested_text(value: Json, outer: Seq<char>, inner: Seq<char>) -> Option<Seq<char>> {
    match member(value, outer) {
        Some(middle) => text_member(middle, inner),
        None => None,
    }
}

/// The room that a legacy payload with the message object `message` comes from.
pub open spec fn legacy_room(payload: Json, message: Json) -> Option<Seq<char>> {
    nonblank(either(nested_text(payload, "object"@, "token"@), text_member(message, "token"@)))
}

/// The type of the actor of a legacy payload.
pub open spec fn legacy_actor_type(payload: Json, message: Json) -> Option<Seq<char>> {
    either(text_member(message, "actorType"@), text_member(payload, "actorType"@))
}

/// The actor of a legacy payload.
pub open spec fn legacy_actor(payload: Json, message: Json) -> Option<Seq<char>> {
    nonblank(either(text_member(message, "actorId"@), text_member(payload, "actorId"@)))
}

/// The message object is a comment, which it is also where it does not say, and no
/// system message.
pub open spec fn legacy_comment(message: Json) -> bool {
    &&& text_member(message, "messageType"@) is Some ==> is_word(
        text_member(message, "messageType"@),
        "comment"@,
    )
    &&& nonblank(text_member(message, "systemMessage"@)) is None
}

/// The message in a legacy payload: one from a room and an allowed actor that is no bot,
/// which is a comment and not blank.
pub open spec fn legacy_draft(allowed_users: Seq<Seq<char>>, payload: Json) -> Option<Draft> {
    match member(payload, "message"@) {
        None => None,
        Some(message) => {
            let room = legacy_room(payload, message);
            let actor = legacy_actor(payload, message);
            let content = nonblank(text_member(message, "message"@));
            if room is Some && !is_word(legacy_actor_type(payload, message), "bots"@)
                && actor is Some && user_allowed(allowed_users, actor->0) && legacy_comment(message)
                && content is Some {
                Some(
                    Draft {
                        id: scalar_text(member(message, "id"@)),
                        reply_target: room->0,
                        sender: actor->0,
                        content: content->0,
                        time: MessageTime::Reported(reported(member(message, "timestamp"@))),
                    },
                )
            } else {
                None
            }
        },
    }
}

/// Why a legacy payload is ignored: the first reason that applies, in the order in which
/// message, room, bot, actor, allowlist, message type, system message and text are asked for.
pub open spec fn legacy_reason(allowed_users: Seq<Seq<char>>, payload: Json) -> Option<Reason> {
    match member(payload, "message"@) {
        None => Some(Reason::NoMessage),
        Some(message) => {
            let actor = legacy_actor(payload, message);
            let message_type = text_member(message, "messageType"@);
            if legacy_room(payload, message) is None {
                Some(Reason::MissingRoom)
            } else if is_word(legacy_actor_type(payload, message), "bots"@) {
                Some(Reason::Bot)
            } else if actor is None {
                Some(Reason::MissingActor)
            } else if !user_allowed(allowed_users, actor->0) {
                Some(Reason::Unauthorized(actor->0))
            } else if message_type is Some && !is_word(message_type, "comment"@) {
                Some(Reason::OtherMessageType(message_type->0))
            } else if nonblank(text_member(message, "systemMessage"@)) is Some {
                Some(Reason::SystemMessage)
            } else if nonblank(text_member(message, "message"@)) is None {
                Some(Reason::BlankContent)
            } else {
                None
            }
        },
    }
}

/// `text`, empty where there is none.
pub open spec fn or_empty(text: Option<Seq<char>>) -> Seq<char> {
    match text {
        Some(s) => s,
        None => seq![],
    }
}

/// The actor identifier of an ActivityPub payload, empty where it has none.
pub open spec fn activity_actor(payload: Json) -> Seq<char> {
    or_empty(nested_text(payload, "actor"@, "id"@))
}

/// The actor of an ActivityPub payload is a bot: it says so, or its identifier does.
pub open spec fn activity_from_bot(payload: Json) -> bool {
    ||| is_word(nested_text(payload, "actor"@, "type"@), "Application"@)
    ||| same_ignoring_ascii_case(before_first(activity_actor(payload), '/'), "bots"@)
}

/// The user name in an actor identifier: what follows its last slash, not blank.
pub open spec fn user_name(actor_id: Seq<char>) -> Option<Seq<char>> {
    nonblank(Some(after_last(actor_id, '/')))
}

/// The content of an ActivityPub payload as it stands, empty where it has none.
pub open spec fn activity_content(payload: Json) -> Seq<char> {
    or_empty(nested_text(payload, "object"@, "content"@))
}

/// The message in an ActivityPub payload, before its content is read: one from a room
/// and an allowed actor that is no bot, about an object that is a message.
pub open spec fn activity_note(allowed_users: Seq<Seq<char>>, payload: Json) -> Option<
    ActivityNote,
> {
    let sender = user_name(activity_actor(payload));
    let room = nonblank(nested_text(payload, "target"@, "id"@));
    if !activity_from_bot(payload) && sender is Some && user_allowed(allowed_users, sender->0)
        && room is Some && is_word(nested_text(payload, "object"@, "name"@), "message"@) {
        Some(
            ActivityNote {
                id: match member(payload, "object"@) {
                    Some(object) => scalar_text(member(object, "id"@)),
                    None => None,
                },
                reply_target: room->0,
                sender: sender->0,
                content: activity_content(payload),
            },
        )
    } else {
        None
    }
}

/// Why an ActivityPub payload is ignored before its content is read: the first reason that
/// applies, in the order in which bot, actor, allowlist, room and object are asked for.
pub open spec fn activity_reason(allowed_users: Seq<Seq<char>>, payload: Json) -> Option<Reason> {
    let sender = user_name(activity_actor(payload));
    let name = nested_text(payload, "object"@, "name"@);
    if is_word(nested_text(payload, "actor"@, "type"@), "Application"@) {
        Some(Reason::Bot)
    } else if same_ignoring_ascii_case(before_first(activity_actor(payload), '/'), "bots"@) {
        Some(Reason::BotPrefix)
    } else if sender is None {
        Some(Reason::MissingActor)
    } else if !user_allowed(allowed_users, sender->0) {
        Some(Reason::Unauthorized(sender->0))
    } else if nonblank(nested_text(payload, "target"@, "id"@)) is None {
        Some(Reason::MissingRoom)
    } else if !is_word(name, "message"@) {
        Some(Reason::OtherObject(or_empty(name)))
    } else {
        None
    }
}

/// The text of an ActivityPub message: the `message` of its content where that is JSON,
/// else the content itself; not blank.
pub open spec fn content_text(raw: Seq<char>, decoded: Option<Option<Seq<char>>>) -> Option<
    Seq<char>,
> {
    match decoded {
        Some(message) => nonblank(message),
        None => nonblank(Some(raw)),
    }
}

/// The draft that an ActivityPub message becomes once its content is read as `decoded`.
pub open spec fn note_draft(
    note: ActivityNote,
    decoded: Option<Option<Seq<char>>>,
) -> Option<Draft> {
    match content_text(note.content, decoded) {
        Some(content) => Some(
            Draft {
                id: note.id,
                reply_target: note.reply_target,
                sender: note.sender,
                content,
                time: MessageTime::Received,
            },
        ),
        None => None,
    }
}

/// The message in an ActivityPub payload whose content reads as `decoded`.
pub open spec fn activity_draft(
    allowed_users: Seq<Seq<char>>,
    payload: Json,
    decoded: Option<Option<Seq<char>>>,
) -> Option<Draft> {
    match activity_note(allowed_users, payload) {
        Some(note) => note_draft(note, decoded),
        None => None,
    }
}

/// The message in a payload of either format, by its `type`, ASCII letter case ignored.
pub open spec fn webhook_draft(
    allowed_users: Seq<Seq<char>>,
    payload: Json,
    decoded: Option<Option<Seq<char>>>,
) -> Option<Draft> {
    if is_word(text_member(payload, "type"@), "Create"@) {
        activity_draft(allowed_users, payload, decoded)
    } else if is_word(text_member(payload, "type"@), "message"@) {
        legacy_draft(allowed_users, payload)
    } else {
        None
    }
}

/// Why a payload of either format is ignored, short of the content of an ActivityPub message.
pub open spec fn webhook_reason(allowed_users: Seq<Seq<char>>, payload: Json) -> Option<Reason> {
    let event_type = text_member(payload, "type"@);
    if is_word(event_type, "Create"@) {
        activity_reason(allowed_users, payload)
    } else if is_word(event_type, "message"@) {
        legacy_reason(allowed_users, payload)
    } else {
        Some(Reason::OtherEvent(or_empty(event_type)))
    }
}

/// What the content of an ActivityPub payload reads as.
pub open spec fn decoded_content(payload: Json) -> Option<Option<Seq<char>>> {
    json_text_member(activity_content(payload), "message"@)
}

/// The message that `draft` becomes: `fresh_id` is its identifier where it has none,
/// and `now` its timestamp where it has none.
pub open spec fn completed(draft: Draft, fresh_id: Seq<char>, now: u64) -> Message {
    Message {
        id: match draft.id {
            Some(id) => id,
            None => fresh_id,
        },
        reply_target: draft.reply_target,
        sender: draft.sender,
        content: draft.content,
        channel: channel_name(),
        timestamp: match draft.time {
            MessageTime::Reported(raw) => timestamp_seconds(raw, now),
            MessageTime::Received => now,
        },
        thread_ts: None,
    }
}

/// The messages that `draft` becomes: one, or none where there is no draft.
pub open spec fn delivered(draft: Option<Draft>, fresh_id: Seq<char>, now: u64) -> Seq<Message> {
    match draft {
        Some(draft) => seq![completed(draft, fresh_id, now)],
        None => seq![],
    }
}

/// A string or a number as text.
pub fn value_to_string(value: Option<&JsonValue>) -> (text: Option<String>)
    ensures
        opt_text(text) == scalar_text(
            match value {
                Some(value) => Some(value@),
                None => None,
            },
        ),
{
    match value {
        Some(JsonValue::String(s)) => Some(s.clone()),
        Some(JsonValue::Number(n)) => Some(n.to_text()),
        _ => None,
    }
}

/// `text` trimmed, where it is there and not blank.
fn trim_nonblank(text: Option<&str>) -> (r: Option<String>)
    ensures
        opt_text(r) == nonblank(str_view(text)),
{
    match text {
        Some(s) => {
            let s = trim(s);
            if s.is_empty() {
                None
            } else {
                Some(s.to_owned())
            }
        },
        None => None,
    }
}

/// `first`, or `second` where there is no `first`.
fn or_text<'a>(first: Option<&'a str>, second: Option<&'a str>) -> (r: Option<&'a str>)
    ensures
        str_view(r) == either(str_view(first), str_view(second)),
{
    match first {
        Some(_) => first,
        None => second,
    }
}

/// `text`, empty where there is none.
fn text_or_empty(text: Option<&str>) -> (r: &str)
    ensures
        r@ == or_empty(str_view(text)),
{
    match text {
        Some(text) => text,
        None => {
            proof {
                reveal_strlit("");
                assert(""@ =~= seq![]);
            }
            ""
        },
    }
}

/// Whether `text` is there and is `word`, ASCII letter case ignored.
fn equals_word(text: Option<&str>, word: &str) -> (r: bool)
    ensures
        r == is_word(str_view(text), word@),
{
    match text {
        Some(text) => eq_ignore_ascii_case(text, word),
        None => false,
    }
}

/// The text of the member `inner` of the member `outer` of `value`.
fn get_nested_str<'a>(value: &'a JsonValue, outer: &str, inner: &str) -> (r: Option<&'a str>)
    ensures
        str_view(r) == nested_text(value@, outer@, inner@),
{
    match value.get(outer) {
        Some(middle) => middle.get_str(inner),
        None => None,
    }
}

/// Reads the content of an ActivityPub message as JSON with a string member `message`.
fn decode_content(content: &str) -> (decoded: DecodedContent)
    ensures
        decoded@ == json_text_member(content@, "message"@),
{
    match read_text_member(content, "message") {
        Ok(message) => DecodedContent::Json(message),
        Err(_) => DecodedContent::Plain,
    }
}

impl Activity {
    /// The draft that the message becomes once its content is read as `decoded`: its text
    /// is the `message` of a content that is JSON, else the content itself. There is none
    /// where that text is missing or blank.
    pub fn into_draft(self, decoded: DecodedContent) -> (draft: Option<MessageDraft>)
        ensures
            match draft {
                Some(draft) => note_draft(self@, decoded@) == Some(draft@),
                None => note_draft(self@, decoded@) is None,
            },
    {
        let text = match &decoded {
            DecodedContent::Json(Some(message)) => trim_nonblank(Some(message.as_str())),
            DecodedContent::Json(None) => None,
            DecodedContent::Plain => trim_nonblank(Some(self.content.as_str())),
        };
        match text {
            Some(content) => Some(
                MessageDraft {
                    id: self.id,
                    reply_target: self.reply_target,
                    sender: self.sender,
                    content,
                    time: MessageTime::Received,
                },
            ),
            None => None,
        }
    }
}

impl MessageDraft {
    /// The message, with `fresh_id` for the identifier and `now` for the timestamp that
    /// the draft lacks.
    pub fn complete_with(self, fresh_id: String, now: u64) -> (message: ChannelMessage)
        ensures
            message@ == completed(self@, fresh_id@, now),
    {
        let id = match self.id {
            Some(id) => id,
            None => fresh_id,
        };
        let timestamp: u64 = match self.time {
            MessageTime::Reported(raw) => timestamp_secs(raw, now),
            MessageTime::Received => now,
        };
        ChannelMessage {
            id,
            reply_target: self.reply_target,
            sender: self.sender,
            content: self.content,
            channel: "nextcloud_talk".to_owned(),
            timestamp,
            thread_ts: None,
        }
    }

    /// The message, with a random UUID for the identifier and the time of the clock for
    /// the timestamp that the draft lacks.
    pub fn complete(self) -> (message: ChannelMessage)
        ensures
            self@.id is None ==> uuid_v4_text(message@.id),
            exists|now: u64| message@ == #[trigger] completed(self@, message@.id, now),
    {
        let fresh_id = match &self.id {
            Some(_) => String::new(),
            None => new_uuid(),
        };
        let now: u64 = match &self.time {
            MessageTime::Reported(Some(_)) => 0,
            _ => now_unix_secs(),
        };
        let ghost draft = self@;
        let message = self.complete_with(fresh_id, now);
        assert(message@ == completed(draft, message@.id, now));
        message
    }
}

/// The messages that `draft` becomes: one, or none where there is no draft.
fn deliver(draft: Option<MessageDraft>) -> (messages: Vec<ChannelMessage>)
    ensures
        match draft {
            Some(draft) => delivery(messages@, Some(draft@)),
            None => delivery(messages@, None),
        },
{
    let mut messages: Vec<ChannelMessage> = Vec::new();
    match draft {
        Some(draft) => {
            let ghost before = draft@;
            let message = draft.complete();
            let ghost now = choose|now: u64| message@ == completed(before, message@.id, now);
            messages.push(message);
            proof {
                assert(messages_of(messages@) =~= delivered(Some(before), message@.id, now));
            }
        },
        None => {
            proof {
                assert(messages_of(messages@) =~= delivered(None, seq![], 0));
            }
        },
    }
    messages
}

/// `messages` are what `draft` becomes for some time of the clock, and for some random
/// UUID where the draft has no identifier.
pub open spec fn delivery(messages: Seq<ChannelMessage>, draft: Option<Draft>) -> bool {
    exists|fresh_id: Seq<char>, now: u64|
        {
            &&& messages_of(messages) == #[trigger] delivered(draft, fresh_id, now)
            &&& draft is Some && draft->0.id is None ==> uuid_v4_text(fresh_id)
        }
}

impl NextcloudTalkChannel {
    /// Parses a webhook payload into channel messages: none or one.
    ///
    /// Whatever is no chat message of an allowed user in a room is ignored, and so is
    /// what a bot wrote, to prevent feedback loops.
    pub fn parse_webhook_payload(&self, payload: &JsonValue) -> (messages: Vec<ChannelMessage>)
        ensures
            delivery(
                messages@,
                webhook_draft(self@.allowed_users, payload@, decoded_content(payload@)),
            ),
    {
        let event_type = payload.get_str("type");
        if equals_word(event_type, "Create") {
            return self.parse_activitypub_payload(payload);
        }
        if !equals_word(event_type, "message") {
            return deliver(None);
        }
        match self.read_legacy_payload(payload) {
            Ok(draft) => deliver(Some(draft)),
            Err(_) => deliver(None),
        }
    }

    /// Why `parse_webhook_payload` ignores `payload`, where it does so before it comes to
    /// the content of an ActivityPub message.
    pub fn ignored_reason(&self, payload: &JsonValue) -> (reason: Option<IgnoredReason>)
        ensures
            match reason {
                Some(reason) => webhook_reason(self@.allowed_users, payload@) == Some(reason@),
                None => webhook_reason(self@.allowed_users, payload@) is None,
            },
    {
        let event_type = payload.get_str("type");
        if equals_word(event_type, "Create") {
            match self.read_activitypub_payload(payload) {
                Ok(_) => None,
                Err(reason) => Some(reason),
            }
        } else if equals_word(event_type, "message") {
            match self.read_legacy_payload(payload) {
                Ok(_) => None,
                Err(reason) => Some(reason),
            }
        } else {
            Some(IgnoredReason::OtherEvent(text_or_empty(event_type).to_owned()))
        }
    }

    /// Parses a payload of the ActivityPub format into channel messages: none or one.
    pub fn parse_activitypub_payload(&self, payload: &JsonValue) -> (messages: Vec<ChannelMessage>)
        ensures
            delivery(
                messages@,
                activity_draft(self@.allowed_users, payload@, decoded_content(payload@)),
            ),
    {
        match self.read_activitypub_payload(payload) {
            Ok(activity) => {
                let decoded = decode_content(activity.content.as_str());
                deliver(activity.into_draft(decoded))
            },
            Err(_) => deliver(None),
        }
    }

    /// The message in a payload of the legacy format, or why it holds none to deliver.
    pub fn read_legacy_payload(&self, payload: &JsonValue) -> (draft: Result<
        MessageDraft,
        IgnoredReason,
    >)
        ensures
            match draft {
                Ok(draft) => legacy_draft(self@.allowed_users, payload@) == Some(draft@)
                    && legacy_reason(self@.allowed_users, payload@) is None,
                Err(reason) => legacy_draft(self@.allowed_users, payload@) is None
                    && legacy_reason(self@.allowed_users, payload@) == Some(reason@),
            },
    {
        let message = match payload.get("message") {
            Some(message) => message,
            None => return Err(IgnoredReason::NoMessage),
        };
        let room_token = match trim_nonblank(
            or_text(get_nested_str(payload, "object", "token"), message.get_str("token")),
        ) {
            Some(room_token) => room_token,
            None => return Err(IgnoredReason::MissingRoom),
        };
        let actor_type = or_text(message.get_str("actorType"), payload.get_str("actorType"));
        if equals_word(actor_type, "bots") {
            return Err(IgnoredReason::Bot);
        }
        let actor_id = match trim_nonblank(
            or_text(message.get_str("actorId"), payload.get_str("actorId")),
        ) {
            Some(actor_id) => actor_id,
            None => return Err(IgnoredReason::MissingActor),
        };
        if !self.is_user_allowed(actor_id.as_str()) {
            return Err(IgnoredReason::Unauthorized(actor_id));
        }
        if let Some(message_type) = message.get_str("messageType") {
            if !eq_ignore_ascii_case(message_type, "comment") {
                return Err(IgnoredReason::OtherMessageType(message_type.to_owned()));
            }
        }
        if trim_nonblank(message.get_str("systemMessage")).is_some() {
            return Err(IgnoredReason::SystemMessage);
        }
        let content = match trim_nonblank(message.get_str("message")) {
            Some(content) => content,
            None => return Err(IgnoredReason::BlankContent),
        };
        Ok(
            MessageDraft {
                id: value_to_string(message.get("id")),
                reply_target: room_token,
                sender: actor_id,
                content,
                time: MessageTime::Reported(reported_timestamp(message.get("timestamp"))),
            },
        )
    }

    /// The message in a payload of the ActivityPub format, with its content as it stands, or
    /// why there is none to deliver.
    ///
    /// The user name after the last slash of the actor identifier is what the allowlist
    /// is asked for, like the `actorId` of the legacy format.
    pub fn read_activitypub_payload(&self, payload: &JsonValue) -> (activity: Result<
        Activity,
        IgnoredReason,
    >)
        ensures
            match activity {
                Ok(activity) => activity_note(self@.allowed_users, payload@) == Some(activity@)
                    && activity_reason(self@.allowed_users, payload@) is None,
                Err(reason) => activity_note(self@.allowed_users, payload@) is None
                    && activity_reason(self@.allowed_users, payload@) == Some(reason@),
            },
    {
        if equals_word(get_nested_str(payload, "actor", "type"), "Application") {
            return Err(IgnoredReason::Bot);
        }
        let actor_id_raw = text_or_empty(get_nested_str(payload, "actor", "id"));
        if eq_ignore_ascii_case(split_before(actor_id_raw, '/'), "bots") {
            return Err(IgnoredReason::BotPrefix);
        }
        let actor_id = match trim_nonblank(Some(split_after_last(actor_id_raw, '/'))) {
            Some(actor_id) => actor_id,
            None => return Err(IgnoredReason::MissingActor),
        };
        if !self.is_user_allowed(actor_id.as_str()) {
            return Err(IgnoredReason::Unauthorized(actor_id));
        }
        let room_token = match trim_nonblank(get_nested_str(payload, "target", "id")) {
            Some(room_token) => room_token,
            None => return Err(IgnoredReason::MissingRoom),
        };
        let object_name = get_nested_str(payload, "object", "name");
        if !equals_word(object_name, "message") {
            return Err(IgnoredReason::OtherObject(text_or_empty(object_name).to_owned()));
        }
        let content = text_or_empty(get_nested_str(payload, "object", "content"));
        let id = match payload.get("object") {
            Some(object) => value_to_string(object.get("id")),
            None => None,
        };
        Ok(
            Activity {
                id,
                reply_target: room_token,
                sender: actor_id,
                content: content.to_owned(),
            },
        )
    }
}

/// The payload is an event of a bot, in the format that its `type` tells.
pub open spec fn from_bot(payload: Json) -> bool {
    if is_word(text_member(payload, "type"@), "Create"@) {
        activity_from_bot(payload)
    } else {
        member(payload, "message"@) is Some && is_word(
            legacy_actor_type(payload, member(payload, "message"@)->0),
            "bots"@,
        )
    }
}

/// `s` is text without white space around it, and there is some.
pub open spec fn clean(s: Seq<char>) -> bool {
    s.len() > 0 && trimmed(s) == s
}

proof fn lemma_nonblank_is_clean(text: Option<Seq<char>>)
    ensures
        nonblank(text) is Some ==> clean(nonblank(text)->0),
{
    if text is Some {
        lemma_trimmed_fixed(text->0);
    }
}

/// No message of a bot is ever delivered, whoever is allowed: the channel does not
/// answer itself.
pub proof fn law_bots_are_ignored(
    allowed_users: Seq<Seq<char>>,
    payload: Json,
    decoded: Option<Option<Seq<char>>>,
)
    requires
        from_bot(payload),
    ensures
        webhook_draft(allowed_users, payload, decoded) is None,
{
}

/// A payload yields at most one message; its sender is an allowed user, its sender, room
/// and content are there and trimmed, and it is marked with the name of the channel.
pub proof fn law_delivered_messages_are_admitted(
    allowed_users: Seq<Seq<char>>,
    payload: Json,
    decoded: Option<Option<Seq<char>>>,
    fresh_id: Seq<char>,
    now: u64,
)
    ensures
        ({
            let messages = delivered(
                webhook_draft(allowed_users, payload, decoded),
                fresh_id,
                now,
            );
            &&& messages.len() <= 1
            &&& forall|i: int|
                0 <= i < messages.len() ==> {
                    &&& user_allowed(allowed_users, (#[trigger] messages[i]).sender)
                    &&& clean(messages[i].sender)
                    &&& clean(messages[i].reply_target)
                    &&& clean(messages[i].content)
                    &&& messages[i].channel == channel_name()
                    &&& messages[i].thread_ts is None
                }
        }),
{
    lemma_nonblank_is_clean(Some(after_last(activity_actor(payload), '/')));
    lemma_nonblank_is_clean(nested_text(payload, "target"@, "id"@));
    lemma_nonblank_is_clean(Some(activity_content(payload)));
    if decoded is Some {
        lemma_nonblank_is_clean(decoded->0);
    }
    if let Some(message) = member(payload, "message"@) {
        lemma_nonblank_is_clean(
            either(nested_text(payload, "object"@, "token"@), text_member(message, "token"@)),
        );
        lemma_nonblank_is_clean(
            either(text_member(message, "actorId"@), text_member(payload, "actorId"@)),
        );
        lemma_nonblank_is_clean(text_member(message, "message"@));
    }
}

/// Nobody gets through where the list of allowed users is empty.
pub proof fn law_empty_list_ignores_everything(
    payload: Json,
    decoded: Option<Option<Seq<char>>>,
)
    ensures
        webhook_draft(seq![], payload, decoded) is None,
{
}

/// An actor identifier `<actor type>/<user name>` names the user that the legacy format
/// names by `<user name>` alone.
pub proof fn law_user_name_matches_legacy_actor(actor_type: Seq<char>, user: Seq<char>)
    requires
        !user.contains('/'),
    ensures
        user_name(actor_type.push('/') + user) == nonblank(Some(user)),
{
    lemma_after_last_of_join(actor_type, '/', user);
}

/// An ActivityPub actor identifier `<actor type>/<anything>` is that of a bot exactly
/// where the actor type is `bots`, ASCII letter case ignored.
pub proof fn law_actor_type_tells_bots(actor_type: Seq<char>, rest: Seq<char>)
    requires
        !actor_type.contains('/'),
    ensures
        same_ignoring_ascii_case(before_first(actor_type.push('/') + rest, '/'), "bots"@)
            == same_ignoring_ascii_case(actor_type, "bots"@),
{
    lemma_before_first_of_join(actor_type, '/', rest);
}

/// No system message of the legacy format is ever delivered.
pub proof fn law_system_messages_are_ignored(
    allowed_users: Seq<Seq<char>>,
    payload: Json,
    decoded: Option<Option<Seq<char>>>,
)
    requires
        !is_word(text_member(payload, "type"@), "Create"@),
        nonblank(nested_text(payload, "message"@, "systemMessage"@)) is Some,
    ensures
        webhook_draft(allowed_users, payload, decoded) is None,
{
}

/// The letter case of the event type does not count.
pub proof fn law_event_type_case_does_not_count(
    allowed_users: Seq<Seq<char>>,
    members: Map<Seq<char>, Json>,
    event_type: Seq<char>,
    other_type: Seq<char>,
    decoded: Option<Option<Seq<char>>>,
)
    requires
        same_ignoring_ascii_case(event_type, other_type),
    ensures
        webhook_draft(
            allowed_users,
            Json::Object(members.insert("type"@, Json::Text(event_type))),
            decoded,
        ) == webhook_draft(
            allowed_users,
            Json::Object(members.insert("type"@, Json::Text(other_type))),
            decoded,
        ),
{
    let p = Json::Object(members.insert("type"@, Json::Text(event_type)));
    let q = Json::Object(members.insert("type"@, Json::Text(other_type)));
    assert forall|key: Seq<char>| key != "type"@ implies #[trigger] member(p, key) == member(
        q,
        key,
    ) by {}
    reveal_strlit("type");
    reveal_strlit("message");
    reveal_strlit("object");
    reveal_strlit("actor");
    reveal_strlit("actorType");
    reveal_strlit("actorId");
    reveal_strlit("target");
    assert("type"@[0] == 't');
    assert("type"@.len() == 4);
    lemma_words_ignore_case(event_type, other_type, "Create"@);
    lemma_words_ignore_case(event_type, other_type, "message"@);
}

proof fn lemma_words_ignore_case(a: Seq<char>, b: Seq<char>, word: Seq<char>)
    requires
        same_ignoring_ascii_case(a, b),
    ensures
        same_ignoring_ascii_case(a, word) == same_ignoring_ascii_case(b, word),
{
    if same_ignoring_ascii_case(a, word) {
        assert forall|i: int| 0 <= i < b.len() implies ascii_lower(#[trigger] b[i])
            == ascii_lower(word[i]) by {
            assert(ascii_lower(a[i]) == ascii_lower(b[i]));
        }
    }
}

/// A payload is ignored exactly where there is a reason for it, or where it is an
/// ActivityPub message whose content holds no text.
pub proof fn law_ignored_for_a_reason(
    allowed_users: Seq<Seq<char>>,
    payload: Json,
    decoded: Option<Option<Seq<char>>>,
)
    ensures
        webhook_draft(allowed_users, payload, decoded) is None <==> (webhook_reason(
            allowed_users,
            payload,
        ) is Some || (is_word(text_member(payload, "type"@), "Create"@) && content_text(
            activity_content(payload),
            decoded,
        ) is None)),
{
}

/// Where the payload gives an identifier and a readable timestamp, neither chance nor
/// the clock has a say in the message.
pub proof fn law_complete_payload_determines_message(
    draft: Draft,
    fresh_id: Seq<char>,
    now: u64,
    other_id: Seq<char>,
    other_now: u64,
)
    requires
        draft.id is Some,
        draft.time matches MessageTime::Reported(raw) && raw is Some,
    ensures
        completed(draft, fresh_id, now) == completed(draft, other_id, other_now),
{
}

} // verus!
