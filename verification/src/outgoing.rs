//! HTTP requests to the Nextcloud Talk API, and what becomes of their responses.
//!
//! The channel does not talk to the network itself: `send` and the other methods return
//! the request to be made, and `OutgoingRequest::outcome` judges the response to it.
use crate::channel::{ChannelState, NextcloudTalkChannel};
use crate::decimal::decimal;
use crate::hexadecimal::hex_encoded;
use crate::json::{json_object, law_objects_carry_their_text, write_object};
use crate::message::SendMessage;
use crate::nonce::{lower_hex, new_uuid, uuid_v4_text};
use crate::signature::{
    hmac_sha256_tag, law_signed_request_verifies, request_signature, sign, signature_valid,
};
use crate::status::{is_success, status_code, status_text, status_words, success};
use crate::text::{concat, lemma_trimmed_fixed, opt_text};
use crate::url::{
    bot_message_url, chat_url, make_bot_message_url, make_chat_url, make_reaction_url,
    make_status_url, reaction_url, status_url, url_encoded,
};
use vstd::prelude::*;
use vstd::utf8::encode_utf8;

verus! {

/// What a request does to a reaction.
#[derive(Debug, Clone, Copy, PartialEq, Eq, Structural)]
pub enum ReactionChange {
    Send,
    Delete,
}

/// What a request does.
#[derive(Debug, Clone, Copy, PartialEq, Eq, Structural)]
pub enum Operation {
    BotMessage,
    ChatMessage,
    Reaction(ReactionChange),
}

/// The HTTP method of a request.
#[derive(Debug, Clone, Copy, PartialEq, Eq, Structural)]
pub enum HttpMethod {
    Get,
    Post,
    Delete,
}

/// An HTTP request to be made.
#[derive(Debug)]
pub struct HttpRequest {
    pub method: HttpMethod,
    pub url: String,
    /// The token for bearer authentication, where the request uses it.
    pub bearer_token: Option<String>,
    pub headers: Vec<(String, String)>,
    pub body: Option<String>,
}

/// A request to be made, and what it does.
#[derive(Debug)]
pub struct OutgoingRequest {
    pub operation: Operation,
    pub http: HttpRequest,
}

/// Why a request did not do what it should.
#[derive(Debug)]
pub enum SendError {
    /// The change needs a bot secret, and none is configured.
    BotSecretRequired(ReactionChange),
    /// The API answered with this status, which is no success.
    Rejected { operation: Operation, status: String },
}

/// The mathematical value of an `HttpRequest`.
pub struct Http {
    pub method: HttpMethod,
    pub url: Seq<char>,
    pub bearer_token: Option<Seq<char>>,
    pub headers: Seq<(Seq<char>, Seq<char>)>,
    pub body: Option<Seq<char>>,
}

/// The mathematical value of an `OutgoingRequest`.
pub struct Request {
    pub operation: Operation,
    pub http: Http,
}

impl View for HttpRequest {
    type V = Http;

    open spec fn view(&self) -> Http {
        Http {
            method: self.method,
            url: self.url@,
            bearer_token: opt_text(self.bearer_token),
            headers: self.headers@.map_values(|h: (String, String)| (h.0@, h.1@)),
            body: opt_text(self.body),
        }
    }
}

impl View for OutgoingRequest {
    type V = Request;

    open spec fn view(&self) -> Request {
        Request { operation: self.operation, http: self.http@ }
    }
}

/// A request to the bot API, signed with `secret` over `random` and the body.
pub open spec fn bot_request(
    operation: Operation,
    url: Seq<char>,
    body: Seq<char>,
    secret: Seq<char>,
    random: Seq<char>,
) -> Request {
    Request {
        operation,
        http: Http {
            method: match operation {
                Operation::Reaction(ReactionChange::Delete) => HttpMethod::Delete,
                _ => HttpMethod::Post,
            },
            url,
            bearer_token: None,
            headers: seq![
                ("X-Nextcloud-Talk-Bot-Random"@, random),
                ("X-Nextcloud-Talk-Bot-Signature"@, request_signature(secret, random, body)),
                ("OCS-APIRequest"@, "true"@),
                ("Content-Type"@, "application/json"@),
                ("Accept"@, "application/json"@),
            ],
            body: Some(body),
        },
    }
}

/// The request that posts `content` to `room` as the bot.
pub open spec fn bot_message(
    channel: ChannelState,
    room: Seq<char>,
    content: Seq<char>,
    secret: Seq<char>,
    random: Seq<char>,
) -> Request {
    bot_request(
        Operation::BotMessage,
        bot_message_url(channel.base_url, room),
        json_object("message"@, content),
        secret,
        random,
    )
}

/// The request that posts `content` to `room` with bearer authentication.
pub open spec fn chat_message(
    channel: ChannelState,
    room: Seq<char>,
    content: Seq<char>,
) -> Request {
    Request {
        operation: Operation::ChatMessage,
        http: Http {
            method: HttpMethod::Post,
            url: chat_url(channel.base_url, room),
            bearer_token: Some(channel.app_token),
            headers: seq![
                ("OCS-APIRequest"@, "true"@),
                ("Accept"@, "application/json"@),
                ("Content-Type"@, "application/json"@),
            ],
            body: Some(json_object("message"@, content)),
        },
    }
}

/// The request that adds or removes the reaction `reaction` to a message.
pub open spec fn bot_reaction(
    channel: ChannelState,
    change: ReactionChange,
    room: Seq<char>,
    message_id: Seq<char>,
    reaction: Seq<char>,
    secret: Seq<char>,
    random: Seq<char>,
) -> Request {
    bot_request(
        Operation::Reaction(change),
        reaction_url(channel.base_url, room, message_id),
        json_object("reaction"@, reaction),
        secret,
        random,
    )
}

/// `request` posts `content` to `room`: as the bot, signed over some random UUID, where
/// the channel has a bot secret, else with bearer authentication.
pub open spec fn posts_message(
    request: Request,
    channel: ChannelState,
    room: Seq<char>,
    content: Seq<char>,
) -> bool {
    match channel.bot_secret {
        Some(secret) => exists|random: Seq<char>| #[trigger]
            uuid_v4_text(random) && request == bot_message(channel, room, content, secret, random),
        None => request == chat_message(channel, room, content),
    }
}

/// `request` adds or removes a reaction as the bot, signed over some random UUID.
pub open spec fn changes_reaction(
    request: Request,
    channel: ChannelState,
    change: ReactionChange,
    room: Seq<char>,
    message_id: Seq<char>,
    reaction: Seq<char>,
) -> bool {
    channel.bot_secret is Some && exists|random: Seq<char>| #[trigger]
        uuid_v4_text(random) && request == bot_reaction(
            channel,
            change,
            room,
            message_id,
            reaction,
            channel.bot_secret->0,
            random,
        )
}

/// The request that asks whether the instance is up: a plain `GET`, which carries
/// neither the token nor a signature.
pub open spec fn status_request(channel: ChannelState) -> Http {
    Http {
        method: HttpMethod::Get,
        url: status_url(channel.base_url),
        bearer_token: None,
        headers: seq![],
        body: None,
    }
}

/// The words that tell what a rejected request was.
pub open spec fn rejection_label(operation: Operation) -> Seq<char> {
    match operation {
        Operation::BotMessage => "Nextcloud Talk bot API error: "@,
        Operation::ChatMessage => "Nextcloud Talk API error: "@,
        Operation::Reaction(ReactionChange::Send) => "Nextcloud Talk reaction API error: "@,
        Operation::Reaction(
            ReactionChange::Delete,
        ) => "Nextcloud Talk delete reaction API error: "@,
    }
}

/// The complaint about a missing bot secret.
pub open spec fn secret_required(change: ReactionChange) -> Seq<char> {
    match change {
        ReactionChange::Send => "Nextcloud Talk: bot_secret required for send_reaction"@,
        ReactionChange::Delete => "Nextcloud Talk: bot_secret required for delete_reaction"@,
    }
}

/// A header with this name and value.
fn header(name: &str, value: &str) -> (r: (String, String))
    ensures
        (r.0@, r.1@) == (name@, value@),
{
    (name.to_owned(), value.to_owned())
}

/// A request to the bot API, signed with `secret` over `random` and the body.
fn make_bot_request(
    operation: Operation,
    url: String,
    body: String,
    secret: &str,
    random: &str,
) -> (request: OutgoingRequest)
    ensures
        request@ == bot_request(operation, url@, body@, secret@, random@),
{
    let signature = sign(secret, random, body.as_str());
    let mut headers: Vec<(String, String)> = Vec::new();
    headers.push(header("X-Nextcloud-Talk-Bot-Random", random));
    headers.push(header("X-Nextcloud-Talk-Bot-Signature", signature.as_str()));
    headers.push(header("OCS-APIRequest", "true"));
    headers.push(header("Content-Type", "application/json"));
    headers.push(header("Accept", "application/json"));
    let method = match operation {
        Operation::Reaction(ReactionChange::Delete) => HttpMethod::Delete,
        _ => HttpMethod::Post,
    };
    let http = HttpRequest { method, url, bearer_token: None, headers, body: Some(body) };
    assert(http@.headers =~= bot_request(
        operation,
        url@,
        body@,
        secret@,
        random@,
    ).http.headers);
    OutgoingRequest { operation, http }
}

impl NextcloudTalkChannel {
    /// Computes the HMAC-SHA256 signature of a bot request,
    /// `hex(hmac_sha256(secret, random + body))`: 64 lower-case digits.
    pub fn sign_bot_request(secret: &str, random: &str, body: &str) -> (signature: String)
        ensures
            signature@ == request_signature(secret@, random@, body@),
            signature@ == hex_encoded(
                hmac_sha256_tag(encode_utf8(secret@), encode_utf8(random@ + body@)),
            ),
            signature@.len() == 64,
    {
        sign(secret, random, body)
    }

    /// The request that posts `content` to the room as the bot, signed over `random`.
    pub fn bot_message_request(
        &self,
        room_token: &str,
        content: &str,
        bot_secret: &str,
        random: &str,
    ) -> (request: OutgoingRequest)
        ensures
            request@ == bot_message(self@, room_token@, content@, bot_secret@, random@),
    {
        make_bot_request(
            Operation::BotMessage,
            make_bot_message_url(self.base_url(), room_token),
            write_object("message", content),
            bot_secret,
            random,
        )
    }

    /// The request that adds or removes a reaction as the bot, signed over `random`.
    pub fn reaction_request(
        &self,
        change: ReactionChange,
        room_token: &str,
        message_id: &str,
        reaction: &str,
        bot_secret: &str,
        random: &str,
    ) -> (request: OutgoingRequest)
        ensures
            request@ == bot_reaction(
                self@,
                change,
                room_token@,
                message_id@,
                reaction@,
                bot_secret@,
                random@,
            ),
    {
        make_bot_request(
            Operation::Reaction(change),
            make_reaction_url(self.base_url(), room_token, message_id),
            write_object("reaction", reaction),
            bot_secret,
            random,
        )
    }

    /// The request that posts `content` to the room by the bot API
    /// (`/bot/{token}/message`), signed over a random UUID.
    pub fn send_bot_message(&self, room_token: &str, content: &str, bot_secret: &str) -> (request:
        OutgoingRequest)
        ensures
            exists|random: Seq<char>| #[trigger]
                uuid_v4_text(random) && request@ == bot_message(
                    self@,
                    room_token@,
                    content@,
                    bot_secret@,
                    random,
                ),
    {
        let random = new_uuid();
        self.bot_message_request(room_token, content, bot_secret, random.as_str())
    }

    /// The request that posts `content` to the room by the chat endpoint
    /// (`/chat/{token}`), with bearer authentication.
    pub fn send_ocs_message(&self, room_token: &str, content: &str) -> (request: OutgoingRequest)
        ensures
            request@ == chat_message(self@, room_token@, content@),
    {
        let mut headers: Vec<(String, String)> = Vec::new();
        headers.push(header("OCS-APIRequest", "true"));
        headers.push(header("Accept", "application/json"));
        headers.push(header("Content-Type", "application/json"));
        let http = HttpRequest {
            method: HttpMethod::Post,
            url: make_chat_url(self.base_url(), room_token),
            bearer_token: Some(self.app_token().to_owned()),
            headers,
            body: Some(write_object("message", content)),
        };
        assert(http@.headers =~= chat_message(self@, room_token@, content@).http.headers);
        OutgoingRequest { operation: Operation::ChatMessage, http }
    }

    /// The request that posts `content` to the room: by the bot API where a bot secret is
    /// configured, else by the chat endpoint.
    pub fn send_to_room(&self, room_token: &str, content: &str) -> (request: OutgoingRequest)
        ensures
            posts_message(request@, self@, room_token@, content@),
    {
        match self.bot_secret() {
            Some(secret) => self.send_bot_message(room_token, content, secret),
            None => self.send_ocs_message(room_token, content),
        }
    }

    /// The request that sends `message` to its recipient, a room.
    pub fn send(&self, message: &SendMessage) -> (request: OutgoingRequest)
        ensures
            posts_message(request@, self@, message.recipient@, message.content@),
    {
        self.send_to_room(message.recipient.as_str(), message.content.as_str())
    }

    /// The request that reacts to a message by the bot API, a
    /// `POST` to `/bot/{token}/reaction/{message_id}`. Needs a bot secret.
    pub fn send_reaction(&self, room_token: &str, message_id: &str, reaction: &str) -> (request:
        Result<OutgoingRequest, SendError>)
        ensures
            match request {
                Ok(request) => changes_reaction(
                    request@,
                    self@,
                    ReactionChange::Send,
                    room_token@,
                    message_id@,
                    reaction@,
                ),
                Err(error) => self@.bot_secret is None && error == SendError::BotSecretRequired(
                    ReactionChange::Send,
                ),
            },
    {
        match self.bot_secret() {
            Some(secret) => {
                let random = new_uuid();
                Ok(
                    self.reaction_request(
                        ReactionChange::Send,
                        room_token,
                        message_id,
                        reaction,
                        secret,
                        random.as_str(),
                    ),
                )
            },
            None => Err(SendError::BotSecretRequired(ReactionChange::Send)),
        }
    }

    /// The request that removes a reaction from a message by the bot API, a
    /// `DELETE` to `/bot/{token}/reaction/{message_id}`. Needs a bot secret.
    pub fn delete_reaction(&self, room_token: &str, message_id: &str, reaction: &str) -> (request:
        Result<OutgoingRequest, SendError>)
        ensures
            match request {
                Ok(request) => changes_reaction(
                    request@,
                    self@,
                    ReactionChange::Delete,
                    room_token@,
                    message_id@,
                    reaction@,
                ),
                Err(error) => self@.bot_secret is None && error == SendError::BotSecretRequired(
                    ReactionChange::Delete,
                ),
            },
    {
        match self.bot_secret() {
            Some(secret) => {
                let random = new_uuid();
                Ok(
                    self.reaction_request(
                        ReactionChange::Delete,
                        room_token,
                        message_id,
                        reaction,
                        secret,
                        random.as_str(),
                    ),
                )
            },
            None => Err(SendError::BotSecretRequired(ReactionChange::Delete)),
        }
    }

    /// The request to be made for a health check.
    pub fn health_check_request(&self) -> (request: HttpRequest)
        ensures
            request@ == status_request(self@),
    {
        let request = HttpRequest {
            method: HttpMethod::Get,
            url: make_status_url(self.base_url()),
            bearer_token: None,
            headers: Vec::new(),
            body: None,
        };
        assert(request@.headers =~= seq![]);
        request
    }
}

/// The result of a health check, from the status of the response or `None` where there
/// was no response.
pub fn health_check(status: Option<u16>) -> (healthy: bool)
    ensures
        healthy == (status is Some && success(status->0)),
{
    match status {
        Some(status) => is_success(status),
        None => false,
    }
}

impl OutgoingRequest {
    /// What a response with this status, `status_text` in words, makes of the request.
    pub fn outcome_with(&self, status: u16, status_text: &str) -> (result: Result<(), SendError>)
        ensures
            result is Ok <==> success(status),
            result matches Err(error) ==> (error matches SendError::Rejected {
                operation,
                status: text,
            } && operation == self.operation && text@ == status_text@),
    {
        if is_success(status) {
            Ok(())
        } else {
            Err(SendError::Rejected { operation: self.operation, status: status_text.to_owned() })
        }
    }

    /// What a response with this status makes of the request: the error of one that is no
    /// success tells the status with its canonical reason, the number first.
    pub fn outcome(&self, status: u16) -> (result: Result<(), SendError>)
        requires
            status_code(status),
        ensures
            result is Ok <==> success(status),
            result matches Err(error) ==> (error matches SendError::Rejected {
                operation,
                status: text,
            } && operation == self.operation && status_words(status) == Some(text@) && decimal(
                status as nat,
            ).push(' ').is_prefix_of(text@)),
    {
        let text = status_text(status).unwrap();
        self.outcome_with(status, text.as_str())
    }
}

impl SendError {
    /// The error in words.
    pub fn message(&self) -> (text: String)
        ensures
            match *self {
                SendError::BotSecretRequired(change) => text@ == secret_required(change),
                SendError::Rejected { operation, status } => text@ == rejection_label(operation)
                    + status@,
            },
    {
        match self {
            SendError::BotSecretRequired(change) => {
                let text = match change {
                    ReactionChange::Send => "Nextcloud Talk: bot_secret required for send_reaction",
                    ReactionChange::Delete => "Nextcloud Talk: bot_secret required for delete_reaction",
                };
                text.to_owned()
            },
            SendError::Rejected { operation, status } => {
                let label = match operation {
                    Operation::BotMessage => "Nextcloud Talk bot API error: ",
                    Operation::ChatMessage => "Nextcloud Talk API error: ",
                    Operation::Reaction(ReactionChange::Send) => "Nextcloud Talk reaction API error: ",
                    Operation::Reaction(ReactionChange::Delete) => "Nextcloud Talk delete reaction API error: ",
                };
                concat(label, status.as_str())
            },
        }
    }
}

/// The first two headers of `request` are a random value and a signature that passes the
/// verification of webhooks, with the body of the request under `secret`.
pub open spec fn signed_with(request: Http, secret: Seq<char>) -> bool {
    &&& request.headers.len() >= 2
    &&& request.headers[0].0 == "X-Nextcloud-Talk-Bot-Random"@
    &&& request.headers[1].0 == "X-Nextcloud-Talk-Bot-Signature"@
    &&& request.body is Some
    &&& signature_valid(secret, request.headers[0].1, request.body->0, request.headers[1].1)
}

/// A random UUID has no white space around it, so the signature of a bot request passes
/// the verification of webhooks with the random value, the body and the secret of the
/// request.
pub proof fn law_bot_requests_verify(
    operation: Operation,
    url: Seq<char>,
    body: Seq<char>,
    secret: Seq<char>,
    random: Seq<char>,
)
    requires
        uuid_v4_text(random),
    ensures
        signed_with(bot_request(operation, url, body, secret, random).http, secret),
        bot_request(operation, url, body, secret, random).http.headers[0].1 == random,
{
    assert(lower_hex(random[0]) && lower_hex(random[35]));
    lemma_trimmed_fixed(random);
    law_signed_request_verifies(secret, random, body);
}

/// A message is authenticated in one way: with a signature that verifies and without the
/// token where a bot secret is configured, else with the token.
pub proof fn law_posted_messages_are_authenticated(
    request: Request,
    channel: ChannelState,
    room: Seq<char>,
    content: Seq<char>,
)
    requires
        posts_message(request, channel, room, content),
    ensures
        match channel.bot_secret {
            Some(secret) => signed_with(request.http, secret) && request.http.bearer_token is None,
            None => request.http.bearer_token == Some(channel.app_token),
        },
{
    if let Some(secret) = channel.bot_secret {
        let random = choose|random: Seq<char>| #[trigger]
            uuid_v4_text(random) && request == bot_message(channel, room, content, secret, random);
        law_bot_requests_verify(
            Operation::BotMessage,
            bot_message_url(channel.base_url, room),
            json_object("message"@, content),
            secret,
            random,
        );
    }
}

/// A reaction is authenticated with a signature that verifies; it goes to the URL of its
/// message with the reaction as the body, and the HTTP method tells adding from removing.
pub proof fn law_reactions_are_authenticated(
    request: Request,
    channel: ChannelState,
    change: ReactionChange,
    room: Seq<char>,
    message_id: Seq<char>,
    reaction: Seq<char>,
)
    requires
        changes_reaction(request, channel, change, room, message_id, reaction),
    ensures
        signed_with(request.http, channel.bot_secret->0),
        request.http.bearer_token is None,
        request.http.url == reaction_url(channel.base_url, room, message_id),
        request.http.body == Some(json_object("reaction"@, reaction)),
        request.http.method == (if change == ReactionChange::Delete {
            HttpMethod::Delete
        } else {
            HttpMethod::Post
        }),
{
    let secret = channel.bot_secret->0;
    let random = choose|random: Seq<char>| #[trigger]
        uuid_v4_text(random) && request == bot_reaction(
            channel,
            change,
            room,
            message_id,
            reaction,
            secret,
            random,
        );
    law_bot_requests_verify(
        Operation::Reaction(change),
        reaction_url(channel.base_url, room, message_id),
        json_object("reaction"@, reaction),
        secret,
        random,
    );
}

/// Requests that post different contents, or change different reactions, have different
/// bodies: the body carries its text unaltered.
pub proof fn law_bodies_carry_their_text(
    channel: ChannelState,
    room: Seq<char>,
    message_id: Seq<char>,
    change: ReactionChange,
    text: Seq<char>,
    other: Seq<char>,
    secret: Seq<char>,
    random: Seq<char>,
)
    ensures
        chat_message(channel, room, text).http.body == chat_message(
            channel,
            room,
            other,
        ).http.body ==> text == other,
        bot_message(channel, room, text, secret, random).http.body == bot_message(
            channel,
            room,
            other,
            secret,
            random,
        ).http.body ==> text == other,
        bot_reaction(channel, change, room, message_id, text, secret, random).http.body
            == bot_reaction(
            channel,
            change,
            room,
            message_id,
            other,
            secret,
            random,
        ).http.body ==> text == other,
{
    if json_object("message"@, text) == json_object("message"@, other) {
        law_objects_carry_their_text("message"@, text, other);
    }
    if json_object("reaction"@, text) == json_object("reaction"@, other) {
        law_objects_carry_their_text("reaction"@, text, other);
    }
}

/// `http` has the header `name` with this value at position `i`.
pub open spec fn has_header(http: HttpRequest, i: int, name: Seq<char>, value: Seq<char>) -> bool {
    0 <= i < http.headers.len() && http.headers[i].0@ == name && http.headers[i].1@ == value
}

/// `http` carries `body` as JSON, and in its headers `random` and the HMAC-SHA256 of all of
/// `random` followed by all of `body`, under all of `secret`; it carries no token.
pub open spec fn carries_signed(
    http: HttpRequest,
    body: Seq<char>,
    secret: Seq<char>,
    random: Seq<char>,
) -> bool {
    &&& http.body is Some && http.body->0@ == body
    &&& http.bearer_token is None
    &&& http.headers.len() == 5
    &&& has_header(http, 0, "X-Nextcloud-Talk-Bot-Random"@, random)
    &&& has_header(
        http,
        1,
        "X-Nextcloud-Talk-Bot-Signature"@,
        hex_encoded(hmac_sha256_tag(encode_utf8(secret), encode_utf8(random + body))),
    )
    &&& has_header(http, 2, "OCS-APIRequest"@, "true"@)
    &&& has_header(http, 3, "Content-Type"@, "application/json"@)
    &&& has_header(http, 4, "Accept"@, "application/json"@)
}

/// `http` carries `body` as JSON and all of `token` for bearer authentication; it carries no
/// signature.
pub open spec fn carries_with_token(
    http: HttpRequest,
    body: Seq<char>,
    token: Seq<char>,
) -> bool {
    &&& http.body is Some && http.body->0@ == body
    &&& http.bearer_token is Some && http.bearer_token->0@ == token
    &&& http.headers.len() == 3
    &&& has_header(http, 0, "OCS-APIRequest"@, "true"@)
    &&& has_header(http, 1, "Accept"@, "application/json"@)
    &&& has_header(http, 2, "Content-Type"@, "application/json"@)
}

/// The URL `url` is all of `base` with `path` behind it.
pub open spec fn leads_to(url: Seq<char>, base: Seq<char>, path: Seq<char>) -> bool {
    base.is_prefix_of(url) && url.skip(base.len() as int) == path
}

proof fn lemma_leads_to(url: Seq<char>, base: Seq<char>, path: Seq<char>)
    requires
        url == base + path,
    ensures
        leads_to(url, base, path),
{
    assert(base =~= url.subrange(0, base.len() as int));
    assert(url.skip(base.len() as int) =~= path);
}

proof fn lemma_header_views(http: HttpRequest)
    ensures
        http@.headers.len() == http.headers.len(),
        forall|i: int|
            0 <= i < http.headers.len() ==> #[trigger] http@.headers[i] == (
                http.headers[i].0@,
                http.headers[i].1@,
            ),
{
}

proof fn lemma_bot_request_carries(
    request: OutgoingRequest,
    operation: Operation,
    url: Seq<char>,
    body: Seq<char>,
    secret: Seq<char>,
    random: Seq<char>,
)
    requires
        request@ == bot_request(operation, url, body, secret, random),
    ensures
        carries_signed(request.http, body, secret, random),
        request.http.url@ == url,
{
    lemma_header_views(request.http);
    let headers = request.http@.headers;
    assert(headers[0].0 == "X-Nextcloud-Talk-Bot-Random"@);
    assert(headers[1].0 == "X-Nextcloud-Talk-Bot-Signature"@);
    assert(headers[2].0 == "OCS-APIRequest"@);
    assert(headers[3].0 == "Content-Type"@);
    assert(headers[4].0 == "Accept"@);
}

/// A bot message is a `POST` to the whole base URL with the path of the room behind it, and
/// carries the content under `message`, signed with the whole secret.
pub proof fn law_bot_messages(
    channel: &NextcloudTalkChannel,
    room: &str,
    content: &str,
    secret: &str,
    random: &str,
    request: OutgoingRequest,
)
    requires
        call_ensures(
            NextcloudTalkChannel::bot_message_request,
            (channel, room, content, secret, random),
            request,
        ),
    ensures
        request.operation == Operation::BotMessage,
        request.http.method == HttpMethod::Post,
        leads_to(
            request.http.url@,
            channel@.base_url,
            "/ocs/v2.php/apps/spreed/api/v1/bot/"@ + url_encoded(room@) + "/message?format=json"@,
        ),
        carries_signed(request.http, json_object("message"@, content@), secret@, random@),
{
    lemma_bot_message_leads(channel@.base_url, room@);
    lemma_bot_request_carries(
        request,
        Operation::BotMessage,
        bot_message_url(channel@.base_url, room@),
        json_object("message"@, content@),
        secret@,
        random@,
    );
}

proof fn lemma_bot_message_leads(base: Seq<char>, room: Seq<char>)
    ensures
        leads_to(
            bot_message_url(base, room),
            base,
            "/ocs/v2.php/apps/spreed/api/v1/bot/"@ + url_encoded(room) + "/message?format=json"@,
        ),
{
    let path = "/ocs/v2.php/apps/spreed/api/v1/bot/"@ + url_encoded(room)
        + "/message?format=json"@;
    assert(bot_message_url(base, room) =~= base + path);
    lemma_leads_to(bot_message_url(base, room), base, path);
}

/// A reaction goes to the whole base URL with the path of the room and the message behind it,
/// by `POST` where it is sent and by `DELETE` where it is removed, and carries the reaction
/// under `reaction`, signed with the whole secret.
pub proof fn law_reactions(
    channel: &NextcloudTalkChannel,
    change: ReactionChange,
    room: &str,
    message_id: &str,
    reaction: &str,
    secret: &str,
    random: &str,
    request: OutgoingRequest,
)
    requires
        call_ensures(
            NextcloudTalkChannel::reaction_request,
            (channel, change, room, message_id, reaction, secret, random),
            request,
        ),
    ensures
        request.operation == Operation::Reaction(change),
        change is Send ==> request.http.method == HttpMethod::Post,
        change is Delete ==> request.http.method == HttpMethod::Delete,
        leads_to(
            request.http.url@,
            channel@.base_url,
            "/ocs/v2.php/apps/spreed/api/v1/bot/"@ + url_encoded(room@) + "/reaction/"@
                + url_encoded(message_id@) + "?format=json"@,
        ),
        carries_signed(request.http, json_object("reaction"@, reaction@), secret@, random@),
{
    lemma_reaction_leads(channel@.base_url, room@, message_id@);
    lemma_bot_request_carries(
        request,
        Operation::Reaction(change),
        reaction_url(channel@.base_url, room@, message_id@),
        json_object("reaction"@, reaction@),
        secret@,
        random@,
    );
}

proof fn lemma_reaction_leads(base: Seq<char>, room: Seq<char>, message_id: Seq<char>)
    ensures
        leads_to(
            reaction_url(base, room, message_id),
            base,
            "/ocs/v2.php/apps/spreed/api/v1/bot/"@ + url_encoded(room) + "/reaction/"@
                + url_encoded(message_id) + "?format=json"@,
        ),
{
    let path = "/ocs/v2.php/apps/spreed/api/v1/bot/"@ + url_encoded(room) + "/reaction/"@
        + url_encoded(message_id) + "?format=json"@;
    assert(reaction_url(base, room, message_id) =~= base + path);
    lemma_leads_to(reaction_url(base, room, message_id), base, path);
}

/// A chat message is a `POST` to the whole base URL with the path of the room behind it, and
/// carries the content under `message` and the whole token.
pub proof fn law_chat_messages(
    channel: &NextcloudTalkChannel,
    room: &str,
    content: &str,
    request: OutgoingRequest,
)
    requires
        call_ensures(NextcloudTalkChannel::send_ocs_message, (channel, room, content), request),
    ensures
        request.operation == Operation::ChatMessage,
        request.http.method == HttpMethod::Post,
        leads_to(
            request.http.url@,
            channel@.base_url,
            "/ocs/v2.php/apps/spreed/api/v1/chat/"@ + url_encoded(room@) + "?format=json"@,
        ),
        carries_with_token(
            request.http,
            json_object("message"@, content@),
            channel@.app_token,
        ),
{
    lemma_chat_message_carries(channel@, room@, content@, request);
}

proof fn lemma_chat_message_carries(
    channel: ChannelState,
    room: Seq<char>,
    content: Seq<char>,
    request: OutgoingRequest,
)
    requires
        request@ == chat_message(channel, room, content),
    ensures
        leads_to(
            request.http.url@,
            channel.base_url,
            "/ocs/v2.php/apps/spreed/api/v1/chat/"@ + url_encoded(room) + "?format=json"@,
        ),
        carries_with_token(request.http, json_object("message"@, content), channel.app_token),
{
    let base = channel.base_url;
    let path = "/ocs/v2.php/apps/spreed/api/v1/chat/"@ + url_encoded(room) + "?format=json"@;
    assert(chat_url(base, room) =~= base + path);
    lemma_leads_to(chat_url(base, room), base, path);
    lemma_header_views(request.http);
    let headers = request.http@.headers;
    assert(headers[0].0 == "OCS-APIRequest"@);
    assert(headers[1].0 == "Accept"@);
    assert(headers[2].0 == "Content-Type"@);
}

/// A message goes out as the bot, signed with the whole configured secret over a random
/// UUID, wherever a secret is configured, even an empty one; else with the whole configured
/// token. Either way it goes to the recipient and carries the content as it is, at the
/// whole configured base URL.
pub proof fn law_sent_messages(
    channel: &NextcloudTalkChannel,
    message: &SendMessage,
    request: OutgoingRequest,
)
    requires
        call_ensures(NextcloudTalkChannel::send, (channel, message), request),
    ensures
        request.http.method == HttpMethod::Post,
        channel@.bot_secret matches Some(secret) ==> {
            &&& request.operation == Operation::BotMessage
            &&& leads_to(
                request.http.url@,
                channel@.base_url,
                "/ocs/v2.php/apps/spreed/api/v1/bot/"@ + url_encoded(message.recipient@)
                    + "/message?format=json"@,
            )
            &&& exists|random: Seq<char>| #[trigger]
                uuid_v4_text(random) && carries_signed(
                    request.http,
                    json_object("message"@, message.content@),
                    secret,
                    random,
                )
        },
        channel@.bot_secret is None ==> {
            &&& request.operation == Operation::ChatMessage
            &&& leads_to(
                request.http.url@,
                channel@.base_url,
                "/ocs/v2.php/apps/spreed/api/v1/chat/"@ + url_encoded(message.recipient@)
                    + "?format=json"@,
            )
            &&& carries_with_token(
                request.http,
                json_object("message"@, message.content@),
                channel@.app_token,
            )
        },
{
    lemma_posted_message_carries(channel@, message.recipient@, message.content@, request);
}

/// What is posted to a room directly goes out like a message with that recipient.
pub proof fn law_messages_to_rooms(
    channel: &NextcloudTalkChannel,
    room: &str,
    content: &str,
    request: OutgoingRequest,
)
    requires
        call_ensures(NextcloudTalkChannel::send_to_room, (channel, room, content), request),
    ensures
        request.http.method == HttpMethod::Post,
        channel@.bot_secret matches Some(secret) ==> {
            &&& request.operation == Operation::BotMessage
            &&& leads_to(
                request.http.url@,
                channel@.base_url,
                "/ocs/v2.php/apps/spreed/api/v1/bot/"@ + url_encoded(room@)
                    + "/message?format=json"@,
            )
            &&& exists|random: Seq<char>| #[trigger]
                uuid_v4_text(random) && carries_signed(
                    request.http,
                    json_object("message"@, content@),
                    secret,
                    random,
                )
        },
        channel@.bot_secret is None ==> {
            &&& request.operation == Operation::ChatMessage
            &&& leads_to(
                request.http.url@,
                channel@.base_url,
                "/ocs/v2.php/apps/spreed/api/v1/chat/"@ + url_encoded(room@) + "?format=json"@,
            )
            &&& carries_with_token(
                request.http,
                json_object("message"@, content@),
                channel@.app_token,
            )
        },
{
    lemma_posted_message_carries(channel@, room@, content@, request);
}

/// A message sent as the bot is signed with the given secret over a random UUID.
pub proof fn law_messages_as_the_bot(
    channel: &NextcloudTalkChannel,
    room: &str,
    content: &str,
    secret: &str,
    request: OutgoingRequest,
)
    requires
        call_ensures(
            NextcloudTalkChannel::send_bot_message,
            (channel, room, content, secret),
            request,
        ),
    ensures
        request.operation == Operation::BotMessage,
        request.http.method == HttpMethod::Post,
        leads_to(
            request.http.url@,
            channel@.base_url,
            "/ocs/v2.php/apps/spreed/api/v1/bot/"@ + url_encoded(room@) + "/message?format=json"@,
        ),
        exists|random: Seq<char>| #[trigger]
            uuid_v4_text(random) && carries_signed(
                request.http,
                json_object("message"@, content@),
                secret@,
                random,
            ),
{
    let random = choose|random: Seq<char>| #[trigger]
        uuid_v4_text(random) && request@ == bot_message(
            channel@,
            room@,
            content@,
            secret@,
            random,
        );
    lemma_bot_message_leads(channel@.base_url, room@);
    lemma_bot_request_carries(
        request,
        Operation::BotMessage,
        bot_message_url(channel@.base_url, room@),
        json_object("message"@, content@),
        secret@,
        random,
    );
}

proof fn lemma_posted_message_carries(
    channel: ChannelState,
    room: Seq<char>,
    content: Seq<char>,
    request: OutgoingRequest,
)
    requires
        posts_message(request@, channel, room, content),
    ensures
        request.http.method == HttpMethod::Post,
        channel.bot_secret matches Some(secret) ==> {
            &&& request.operation == Operation::BotMessage
            &&& leads_to(
                request.http.url@,
                channel.base_url,
                "/ocs/v2.php/apps/spreed/api/v1/bot/"@ + url_encoded(room)
                    + "/message?format=json"@,
            )
            &&& exists|random: Seq<char>| #[trigger]
                uuid_v4_text(random) && carries_signed(
                    request.http,
                    json_object("message"@, content),
                    secret,
                    random,
                )
        },
        channel.bot_secret is None ==> {
            &&& request.operation == Operation::ChatMessage
            &&& leads_to(
                request.http.url@,
                channel.base_url,
                "/ocs/v2.php/apps/spreed/api/v1/chat/"@ + url_encoded(room) + "?format=json"@,
            )
            &&& carries_with_token(
                request.http,
                json_object("message"@, content),
                channel.app_token,
            )
        },
{
    match channel.bot_secret {
        Some(secret) => {
            let random = choose|random: Seq<char>| #[trigger]
                uuid_v4_text(random) && request@ == bot_message(
                    channel,
                    room,
                    content,
                    secret,
                    random,
                );
            lemma_bot_message_leads(channel.base_url, room);
            lemma_bot_request_carries(
                request,
                Operation::BotMessage,
                bot_message_url(channel.base_url, room),
                json_object("message"@, content),
                secret,
                random,
            );
        },
        None => {
            lemma_chat_message_carries(channel, room, content, request);
        },
    }
}

/// A reaction is sent and removed exactly where a secret is configured, even an empty one:
/// at the whole configured base URL, for the given room and message, signed with the whole
/// secret over a random UUID. Else the complaint tells which of the two it was.
pub proof fn law_sent_and_deleted_reactions(
    channel: &NextcloudTalkChannel,
    room: &str,
    message_id: &str,
    reaction: &str,
    sent: Result<OutgoingRequest, SendError>,
    deleted: Result<OutgoingRequest, SendError>,
)
    requires
        call_ensures(
            NextcloudTalkChannel::send_reaction,
            (channel, room, message_id, reaction),
            sent,
        ),
        call_ensures(
            NextcloudTalkChannel::delete_reaction,
            (channel, room, message_id, reaction),
            deleted,
        ),
    ensures
        channel@.bot_secret is None ==> sent == Err::<OutgoingRequest, SendError>(
            SendError::BotSecretRequired(ReactionChange::Send),
        ) && deleted == Err::<OutgoingRequest, SendError>(
            SendError::BotSecretRequired(ReactionChange::Delete),
        ),
        channel@.bot_secret matches Some(secret) ==> {
            let path = "/ocs/v2.php/apps/spreed/api/v1/bot/"@ + url_encoded(room@)
                + "/reaction/"@ + url_encoded(message_id@) + "?format=json"@;
            let body = json_object("reaction"@, reaction@);
            &&& sent matches Ok(request) && {
                &&& request.operation == Operation::Reaction(ReactionChange::Send)
                &&& request.http.method == HttpMethod::Post
                &&& leads_to(request.http.url@, channel@.base_url, path)
                &&& exists|random: Seq<char>| #[trigger]
                    uuid_v4_text(random) && carries_signed(request.http, body, secret, random)
            }
            &&& deleted matches Ok(request) && {
                &&& request.operation == Operation::Reaction(ReactionChange::Delete)
                &&& request.http.method == HttpMethod::Delete
                &&& leads_to(request.http.url@, channel@.base_url, path)
                &&& exists|random: Seq<char>| #[trigger]
                    uuid_v4_text(random) && carries_signed(request.http, body, secret, random)
            }
        },
{
    if channel@.bot_secret is Some {
        lemma_reaction_carries(
            channel@,
            ReactionChange::Send,
            room@,
            message_id@,
            reaction@,
            sent->Ok_0,
        );
        lemma_reaction_carries(
            channel@,
            ReactionChange::Delete,
            room@,
            message_id@,
            reaction@,
            deleted->Ok_0,
        );
    }
}

proof fn lemma_reaction_carries(
    channel: ChannelState,
    change: ReactionChange,
    room: Seq<char>,
    message_id: Seq<char>,
    reaction: Seq<char>,
    request: OutgoingRequest,
)
    requires
        changes_reaction(request@, channel, change, room, message_id, reaction),
    ensures
        leads_to(
            request.http.url@,
            channel.base_url,
            "/ocs/v2.php/apps/spreed/api/v1/bot/"@ + url_encoded(room) + "/reaction/"@
                + url_encoded(message_id) + "?format=json"@,
        ),
        exists|random: Seq<char>| #[trigger]
            uuid_v4_text(random) && carries_signed(
                request.http,
                json_object("reaction"@, reaction),
                channel.bot_secret->0,
                random,
            ),
{
    let secret = channel.bot_secret->0;
    let random = choose|random: Seq<char>| #[trigger]
        uuid_v4_text(random) && request@ == bot_reaction(
            channel,
            change,
            room,
            message_id,
            reaction,
            secret,
            random,
        );
    lemma_reaction_leads(channel.base_url, room, message_id);
    lemma_bot_request_carries(
        request,
        Operation::Reaction(change),
        reaction_url(channel.base_url, room, message_id),
        json_object("reaction"@, reaction),
        secret,
        random,
    );
}

proof fn lemma_bases_are_told_apart(
    base: Seq<char>,
    other: Seq<char>,
    url: Seq<char>,
    path: Seq<char>,
)
    requires
        leads_to(url, base, path),
        leads_to(url, other, path),
    ensures
        base == other,
{
    assert(url.skip(base.len() as int).len() == url.len() - base.len());
    assert(url.skip(other.len() as int).len() == url.len() - other.len());
    assert(base =~= other);
}

/// Bot messages of two channels to one room go to one URL only where the channels have the
/// same base URL.
pub proof fn law_bot_messages_tell_base_urls_apart(
    channel: &NextcloudTalkChannel,
    other: &NextcloudTalkChannel,
    room: &str,
    content: &str,
    secret: &str,
    random: &str,
    request: OutgoingRequest,
    other_request: OutgoingRequest,
)
    requires
        call_ensures(
            NextcloudTalkChannel::bot_message_request,
            (channel, room, content, secret, random),
            request,
        ),
        call_ensures(
            NextcloudTalkChannel::bot_message_request,
            (other, room, content, secret, random),
            other_request,
        ),
    ensures
        request.http.url@ == other_request.http.url@ <==> channel@.base_url == other@.base_url,
{
    law_bot_messages(channel, room, content, secret, random, request);
    law_bot_messages(other, room, content, secret, random, other_request);
    if request.http.url@ == other_request.http.url@ {
        lemma_bases_are_told_apart(
            channel@.base_url,
            other@.base_url,
            request.http.url@,
            request.http.url@.skip(channel@.base_url.len() as int),
        );
    }
}

/// A health check is a bare `GET` of `status.php` at the whole base URL, and it is passed
/// exactly where a response came that means success.
pub proof fn law_health_checks(
    channel: &NextcloudTalkChannel,
    request: HttpRequest,
    status: Option<u16>,
    healthy: bool,
)
    requires
        call_ensures(NextcloudTalkChannel::health_check_request, (channel,), request),
        call_ensures(health_check, (status,), healthy),
    ensures
        request.method == HttpMethod::Get,
        leads_to(request.url@, channel@.base_url, "/status.php"@),
        request.bearer_token is None,
        request.headers.len() == 0,
        request.body is None,
        healthy <==> exists|code: u16| status == Some(code) && 200 <= code < 300,
{
    lemma_leads_to(status_url(channel@.base_url), channel@.base_url, "/status.php"@);
    lemma_header_views(request);
    if healthy {
        assert(200 <= status->0 < 300);
    }
}

/// A response makes a success of a request exactly where its status is one from 200 to 299;
/// the error else names the operation and the status, and in words it ends with the whole
/// text of the status.
pub proof fn law_outcomes(
    request: &OutgoingRequest,
    status: u16,
    status_text: &str,
    given: Result<(), SendError>,
    words: String,
)
    requires
        call_ensures(OutgoingRequest::outcome_with, (request, status, status_text), given),
        given matches Err(error) ==> call_ensures(SendError::message, (&error,), words),
    ensures
        given is Ok <==> 200 <= status < 300,
        given matches Err(error) ==> words@ == (match request.operation {
            Operation::BotMessage => "Nextcloud Talk bot API error: "@,
            Operation::ChatMessage => "Nextcloud Talk API error: "@,
            Operation::Reaction(ReactionChange::Send) => "Nextcloud Talk reaction API error: "@,
            Operation::Reaction(
                ReactionChange::Delete,
            ) => "Nextcloud Talk delete reaction API error: "@,
        }) + status_text@,
{
}

/// What a status makes of a request is what it makes of it with its canonical words.
pub proof fn law_outcomes_by_status(
    request: &OutgoingRequest,
    status: u16,
    result: Result<(), SendError>,
)
    requires
        100 <= status <= 999,
        call_ensures(OutgoingRequest::outcome, (request, status), result),
    ensures
        result is Ok <==> 200 <= status < 300,
        result matches Err(error) ==> (error matches SendError::Rejected {
            operation,
            status: text,
        } && operation == request.operation && status_words(status) == Some(text@)),
{
}

/// A missing secret is complained of in words that name the operation.
pub proof fn law_missing_secret_in_words(change: ReactionChange, words: String)
    requires
        call_ensures(SendError::message, (&SendError::BotSecretRequired(change),), words),
    ensures
        change is Send ==> words@ == "Nextcloud Talk: bot_secret required for send_reaction"@,
        change is Delete ==> words@ == "Nextcloud Talk: bot_secret required for delete_reaction"@,
{
}

/// A bot request is signed with the whole secret over the whole random value and body.
pub proof fn law_bot_signatures(secret: &str, random: &str, body: &str, signature: String)
    requires
        call_ensures(NextcloudTalkChannel::sign_bot_request, (secret, random, body), signature),
    ensures
        signature@ == hex_encoded(
            hmac_sha256_tag(encode_utf8(secret@), encode_utf8(random@ + body@)),
        ),
{
}

} // verus!
