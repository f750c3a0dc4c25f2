//! What webhook payloads are read as, in terms of the members that they hold.
use crate::channel::{law_allowed_means_listed, NextcloudTalkChannel};
use crate::decimal::decimal_int;
use crate::json::{
    json_text_member, member, scalar_text, text_member, Json, JsonValue, Number,
};
use crate::message::{messages_of, ChannelMessage};
use crate::nonce::uuid_v4_text;
use crate::relation::{
    blank, ends_after, has_inner_text, has_member, has_text, in_three, lists, pads, same_letters,
    solid, starts_up_to,
};
use crate::text::{
    after_last, before_first, law_case_is_all_that_is_ignored, law_part_after, law_part_before,
    law_trimming_keeps_solid_text, law_trimming_takes_only_white_space, opt_text,
    same_ignoring_ascii_case,
};
use crate::timestamp::reported;
use crate::webhook::{
    activity_actor, activity_draft, completed, decoded_content, delivered, delivery, either,
    is_word, legacy_actor, legacy_actor_type, legacy_draft, legacy_room, nested_text, nonblank,
    user_name, Activity, DecodedContent, Draft, IgnoredReason, MessageDraft, MessageTime,
};
use vstd::prelude::*;

verus! {

/// A legacy payload names its room by the solid part of `object.token`, or of `token` in the
/// message where `object.token` is no string.
pub open spec fn legacy_names_room(payload: Json, message: Json, room: Seq<char>) -> bool {
    exists|text: Seq<char>| #[trigger]
        pads(text, room) && (has_inner_text(payload, "object"@, "token"@, text) || (has_text(
            message,
            "token"@,
            text,
        ) && forall|other: Seq<char>| !#[trigger] has_inner_text(
            payload,
            "object"@,
            "token"@,
            other,
        )))
}

/// The string `key` of the message, or of the payload where the message has no such string.
pub open spec fn legacy_has_text(
    payload: Json,
    message: Json,
    key: Seq<char>,
    text: Seq<char>,
) -> bool {
    has_text(message, key, text) || (has_text(payload, key, text) && forall|other: Seq<char>|
        !#[trigger] has_text(message, key, other))
}

/// A legacy payload names its actor by the solid part of `actorId`.
pub open spec fn legacy_names_actor(payload: Json, message: Json, actor: Seq<char>) -> bool {
    exists|text: Seq<char>| #[trigger]
        pads(text, actor) && legacy_has_text(payload, message, "actorId"@, text)
}

/// The `actorType` of a legacy payload is `bots`.
pub open spec fn legacy_is_by_bot(payload: Json, message: Json) -> bool {
    exists|text: Seq<char>| #[trigger]
        legacy_has_text(payload, message, "actorType"@, text) && same_letters(text, "bots"@)
}

/// The `messageType` of the message is a string other than `comment`.
pub open spec fn is_other_than_comment(message: Json) -> bool {
    exists|text: Seq<char>| #[trigger]
        has_text(message, "messageType"@, text) && !same_letters(text, "comment"@)
}

/// The `systemMessage` of the message is a string that is not blank.
pub open spec fn is_system_message(message: Json) -> bool {
    exists|text: Seq<char>| #[trigger] has_text(message, "systemMessage"@, text) && !blank(text)
}

/// The message says `content`: it is the solid part of its string `message`.
pub open spec fn message_says(message: Json, content: Seq<char>) -> bool {
    exists|text: Seq<char>| #[trigger]
        has_text(message, "message"@, text) && pads(text, content)
}

/// An ActivityPub payload names its user by the solid part of what follows the last slash of
/// `actor.id`, or of all of it where it has no slash.
pub open spec fn activity_names_user(payload: Json, user: Seq<char>) -> bool {
    exists|id: Seq<char>, part: Seq<char>|
        has_inner_text(payload, "actor"@, "id"@, id) && #[trigger] ends_after(id, part, '/')
            && pads(part, user)
}

/// The `actor.type` of an ActivityPub payload is `Application`.
pub open spec fn activity_is_by_application(payload: Json) -> bool {
    exists|text: Seq<char>| #[trigger]
        has_inner_text(payload, "actor"@, "type"@, text) && same_letters(text, "Application"@)
}

/// What precedes the first slash of `actor.id` is `bots`, or all of it where it has no slash.
pub open spec fn activity_is_by_bots(payload: Json) -> bool {
    exists|id: Seq<char>, part: Seq<char>|
        has_inner_text(payload, "actor"@, "id"@, id) && #[trigger] starts_up_to(id, part, '/')
            && same_letters(part, "bots"@)
}

/// An ActivityPub payload names its room by the solid part of `target.id`.
pub open spec fn activity_names_room(payload: Json, room: Seq<char>) -> bool {
    exists|text: Seq<char>| #[trigger]
        has_inner_text(payload, "target"@, "id"@, text) && pads(text, room)
}

/// The `object.name` of an ActivityPub payload is `message`.
pub open spec fn activity_is_about_message(payload: Json) -> bool {
    exists|text: Seq<char>| #[trigger]
        has_inner_text(payload, "object"@, "name"@, text) && same_letters(text, "message"@)
}

/// `id` is the identifier that `holder` has: the string `id` as it is, the number `id` as it
/// is written, or none.
pub open spec fn is_identifier_of(id: Option<String>, holder: Json) -> bool {
    match id {
        Some(id) => {
            ||| has_text(holder, "id"@, id@)
            ||| has_member(holder, "id"@, Json::Number(Number::Float(id@)))
            ||| exists|n: int| #[trigger]
                has_member(holder, "id"@, Json::Number(Number::Integer(n))) && id@ == decimal_int(n)
        },
        None => forall|value: Json| #[trigger]
            has_member(holder, "id"@, value) ==> !(value is Text) && !(value is Number),
    }
}

proof fn lemma_solid_part(s: Seq<char>, inner: Seq<char>)
    ensures
        pads(s, inner) <==> nonblank(Some(s)) == Some(inner),
        blank(s) <==> nonblank(Some(s)) is None,
{
    law_trimming_takes_only_white_space(s);
    if pads(s, inner) {
        law_trimming_keeps_solid_text(s, inner);
    }
}

proof fn lemma_inner_text(value: Json, outer: Seq<char>, inner: Seq<char>)
    ensures
        forall|text: Seq<char>|
            #![trigger has_inner_text(value, outer, inner, text)]
            has_inner_text(value, outer, inner, text) <==> nested_text(value, outer, inner) == Some(
                text,
            ),
{
    assert forall|text: Seq<char>|
        #![trigger has_inner_text(value, outer, inner, text)]
        has_inner_text(value, outer, inner, text) <==> nested_text(value, outer, inner) == Some(
            text,
        ) by {
        if nested_text(value, outer, inner) == Some(text) {
            let middle = member(value, outer)->0;
            assert(has_member(value, outer, middle));
            assert(has_text(middle, inner, text));
        }
    }
}

proof fn lemma_word(text: Seq<char>, word: Seq<char>)
    ensures
        is_word(Some(text), word) <==> same_letters(text, word),
{
    law_case_is_all_that_is_ignored(text, word);
}

proof fn lemma_legacy_room(payload: Json, message: Json)
    ensures
        forall|room: Seq<char>| #[trigger]
            legacy_names_room(payload, message, room) <==> legacy_room(payload, message) == Some(
                room,
            ),
{
    lemma_inner_text(payload, "object"@, "token"@);
    let source = either(nested_text(payload, "object"@, "token"@), text_member(message, "token"@));
    assert forall|room: Seq<char>| #[trigger]
        legacy_names_room(payload, message, room) <==> legacy_room(payload, message) == Some(
            room,
        ) by {
        if legacy_room(payload, message) == Some(room) {
            lemma_solid_part(source->0, room);
            assert(pads(source->0, room));
            if nested_text(payload, "object"@, "token"@) is Some {
                assert(has_inner_text(payload, "object"@, "token"@, source->0));
            }
        }
        if legacy_names_room(payload, message, room) {
            let text = choose|text: Seq<char>| #[trigger]
                pads(text, room) && (has_inner_text(payload, "object"@, "token"@, text) || (
                has_text(message, "token"@, text) && forall|other: Seq<char>|
                    !#[trigger] has_inner_text(payload, "object"@, "token"@, other)));
            if nested_text(payload, "object"@, "token"@) is Some {
                assert(has_inner_text(
                    payload,
                    "object"@,
                    "token"@,
                    nested_text(payload, "object"@, "token"@)->0,
                ));
            }
            assert(source == Some(text));
            lemma_solid_part(text, room);
        }
    }
}

proof fn lemma_legacy_text(payload: Json, message: Json, key: Seq<char>)
    ensures
        forall|text: Seq<char>| #[trigger]
            legacy_has_text(payload, message, key, text) <==> either(
                text_member(message, key),
                text_member(payload, key),
            ) == Some(text),
{
    assert forall|text: Seq<char>| #[trigger]
        legacy_has_text(payload, message, key, text) <==> either(
            text_member(message, key),
            text_member(payload, key),
        ) == Some(text) by {
        if text_member(message, key) is Some {
            assert(has_text(message, key, text_member(message, key)->0));
        }
    }
}

proof fn lemma_legacy_actor(payload: Json, message: Json)
    ensures
        forall|actor: Seq<char>| #[trigger]
            legacy_names_actor(payload, message, actor) <==> legacy_actor(payload, message) == Some(
                actor,
            ),
        legacy_is_by_bot(payload, message) <==> is_word(
            legacy_actor_type(payload, message),
            "bots"@,
        ),
{
    lemma_legacy_text(payload, message, "actorId"@);
    lemma_legacy_text(payload, message, "actorType"@);
    let source = either(text_member(message, "actorId"@), text_member(payload, "actorId"@));
    assert forall|actor: Seq<char>| #[trigger]
        legacy_names_actor(payload, message, actor) <==> legacy_actor(payload, message) == Some(
            actor,
        ) by {
        if legacy_actor(payload, message) == Some(actor) {
            lemma_solid_part(source->0, actor);
            assert(legacy_has_text(payload, message, "actorId"@, source->0));
            assert(pads(source->0, actor));
        }
        if legacy_names_actor(payload, message, actor) {
            let text = choose|text: Seq<char>| #[trigger]
                pads(text, actor) && legacy_has_text(payload, message, "actorId"@, text);
            lemma_solid_part(text, actor);
        }
    }
    let kind = legacy_actor_type(payload, message);
    if kind is Some {
        lemma_word(kind->0, "bots"@);
        assert(legacy_has_text(payload, message, "actorType"@, kind->0));
    }
}

proof fn lemma_legacy_message(message: Json)
    ensures
        is_other_than_comment(message) <==> text_member(message, "messageType"@) is Some
            && !is_word(text_member(message, "messageType"@), "comment"@),
        is_system_message(message) <==> nonblank(text_member(message, "systemMessage"@)) is Some,
        forall|content: Seq<char>| #[trigger]
            message_says(message, content) <==> nonblank(text_member(message, "message"@)) == Some(
                content,
            ),
{
    let kind = text_member(message, "messageType"@);
    if kind is Some {
        lemma_word(kind->0, "comment"@);
        assert(has_text(message, "messageType"@, kind->0));
    }
    let system = text_member(message, "systemMessage"@);
    if system is Some {
        lemma_solid_part(system->0, seq![]);
        assert(has_text(message, "systemMessage"@, system->0));
    }
    let text = text_member(message, "message"@);
    assert forall|content: Seq<char>| #[trigger]
        message_says(message, content) <==> nonblank(text) == Some(content) by {
        if text is Some {
            lemma_solid_part(text->0, content);
            assert(has_text(message, "message"@, text->0));
        }
    }
}

proof fn lemma_identifier(id: Option<String>, holder: Json)
    requires
        opt_text(id) == scalar_text(member(holder, "id"@)),
    ensures
        is_identifier_of(id, holder),
{
    let value = member(holder, "id"@);
    if value is Some {
        assert(has_member(holder, "id"@, value->0));
        if let Json::Number(Number::Integer(n)) = value->0 {
            assert(has_member(holder, "id"@, Json::Number(Number::Integer(n))));
        }
    }
}

/// A legacy payload that names a room and an allowed actor that is no bot, and whose message
/// is a comment, no system message, and says something, is read as a message: from that
/// room and that actor, with all that it says, character for character, and with the
/// identifier and the time that it tells.
pub proof fn law_legacy_messages_are_read(
    channel: &NextcloudTalkChannel,
    payload: &JsonValue,
    draft: Result<MessageDraft, IgnoredReason>,
    message: Json,
    room: Seq<char>,
    actor: Seq<char>,
    content: Seq<char>,
)
    requires
        call_ensures(NextcloudTalkChannel::read_legacy_payload, (channel, payload), draft),
        has_member(payload@, "message"@, message),
        legacy_names_room(payload@, message, room),
        !legacy_is_by_bot(payload@, message),
        legacy_names_actor(payload@, message, actor),
        lists(channel@.allowed_users, actor),
        !is_other_than_comment(message),
        !is_system_message(message),
        message_says(message, content),
    ensures
        draft matches Ok(draft) && {
            &&& draft.reply_target@ == room
            &&& draft.sender@ == actor
            &&& draft.content@ == content
            &&& is_identifier_of(draft.id, message)
            &&& draft.time matches MessageTime::Reported(raw) && {
                &&& forall|value: Json| #[trigger]
                    has_member(message, "timestamp"@, value) ==> raw == reported(Some(value))
                &&& (forall|value: Json| !#[trigger] has_member(message, "timestamp"@, value))
                    ==> raw is None
            }
        },
{
    lemma_legacy_room(payload@, message);
    lemma_legacy_actor(payload@, message);
    lemma_legacy_message(message);
    law_allowed_means_listed(channel@.allowed_users, actor);
    if let Ok(draft) = draft {
        lemma_identifier(draft.id, message);
        if let Some(value) = member(message, "timestamp"@) {
            assert(has_member(message, "timestamp"@, value));
        }
    }
}

/// What a legacy payload is read as holds of it: of a message, its room, its actor, who is
/// allowed and no bot, and all that it says; of a reason to ignore it, that it applies and
/// that none of those asked for before it does.
pub proof fn law_legacy_readings_hold(
    channel: &NextcloudTalkChannel,
    payload: &JsonValue,
    draft: Result<MessageDraft, IgnoredReason>,
    message: Json,
)
    requires
        call_ensures(NextcloudTalkChannel::read_legacy_payload, (channel, payload), draft),
        has_member(payload@, "message"@, message),
    ensures
        match draft {
            Ok(draft) => {
                &&& legacy_names_room(payload@, message, draft.reply_target@)
                &&& !legacy_is_by_bot(payload@, message)
                &&& legacy_names_actor(payload@, message, draft.sender@)
                &&& lists(channel@.allowed_users, draft.sender@)
                &&& !is_other_than_comment(message)
                &&& !is_system_message(message)
                &&& message_says(message, draft.content@)
            },
            Err(IgnoredReason::MissingRoom) => forall|room: Seq<char>|
                !#[trigger] legacy_names_room(payload@, message, room),
            Err(IgnoredReason::Bot) => {
                &&& exists|room: Seq<char>| #[trigger] legacy_names_room(payload@, message, room)
                &&& legacy_is_by_bot(payload@, message)
            },
            Err(IgnoredReason::MissingActor) => {
                &&& exists|room: Seq<char>| #[trigger] legacy_names_room(payload@, message, room)
                &&& !legacy_is_by_bot(payload@, message)
                &&& forall|actor: Seq<char>|
                    !#[trigger] legacy_names_actor(payload@, message, actor)
            },
            Err(IgnoredReason::Unauthorized(actor)) => {
                &&& exists|room: Seq<char>| #[trigger] legacy_names_room(payload@, message, room)
                &&& !legacy_is_by_bot(payload@, message)
                &&& legacy_names_actor(payload@, message, actor@)
                &&& !lists(channel@.allowed_users, actor@)
            },
            Err(IgnoredReason::OtherMessageType(name)) => {
                &&& exists|room: Seq<char>| #[trigger] legacy_names_room(payload@, message, room)
                &&& !legacy_is_by_bot(payload@, message)
                &&& exists|actor: Seq<char>| #[trigger]
                    legacy_names_actor(payload@, message, actor) && lists(
                        channel@.allowed_users,
                        actor,
                    )
                &&& has_text(message, "messageType"@, name@)
                &&& !same_letters(name@, "comment"@)
            },
            Err(IgnoredReason::SystemMessage) => {
                &&& exists|room: Seq<char>| #[trigger] legacy_names_room(payload@, message, room)
                &&& !legacy_is_by_bot(payload@, message)
                &&& exists|actor: Seq<char>| #[trigger]
                    legacy_names_actor(payload@, message, actor) && lists(
                        channel@.allowed_users,
                        actor,
                    )
                &&& !is_other_than_comment(message)
                &&& is_system_message(message)
            },
            Err(IgnoredReason::BlankContent) => {
                &&& exists|room: Seq<char>| #[trigger] legacy_names_room(payload@, message, room)
                &&& !legacy_is_by_bot(payload@, message)
                &&& exists|actor: Seq<char>| #[trigger]
                    legacy_names_actor(payload@, message, actor) && lists(
                        channel@.allowed_users,
                        actor,
                    )
                &&& !is_other_than_comment(message)
                &&& !is_system_message(message)
                &&& forall|content: Seq<char>| !#[trigger] message_says(message, content)
            },
            Err(_) => false,
        },
{
    lemma_legacy_room(payload@, message);
    lemma_legacy_actor(payload@, message);
    lemma_legacy_message(message);
    let room = legacy_room(payload@, message);
    if room is Some {
        assert(legacy_names_room(payload@, message, room->0));
    }
    let actor = legacy_actor(payload@, message);
    if actor is Some {
        assert(legacy_names_actor(payload@, message, actor->0));
        law_allowed_means_listed(channel@.allowed_users, actor->0);
    }
    let kind = text_member(message, "messageType"@);
    if kind is Some {
        lemma_word(kind->0, "comment"@);
        assert(has_text(message, "messageType"@, kind->0));
    }
}

/// A legacy payload without a message object is ignored for that reason.
pub proof fn law_legacy_needs_message(
    channel: &NextcloudTalkChannel,
    payload: &JsonValue,
    draft: Result<MessageDraft, IgnoredReason>,
)
    requires
        call_ensures(NextcloudTalkChannel::read_legacy_payload, (channel, payload), draft),
    ensures
        draft matches Err(IgnoredReason::NoMessage) <==> forall|message: Json|
            !#[trigger] has_member(payload@, "message"@, message),
{
    if let Some(message) = member(payload@, "message"@) {
        assert(has_member(payload@, "message"@, message));
    }
}

proof fn lemma_activity_user(payload: Json)
    ensures
        forall|user: Seq<char>| #[trigger]
            activity_names_user(payload, user) <==> user_name(activity_actor(payload)) == Some(
                user,
            ),
        activity_is_by_application(payload) <==> is_word(
            nested_text(payload, "actor"@, "type"@),
            "Application"@,
        ),
        activity_is_by_bots(payload) <==> same_ignoring_ascii_case(
            before_first(activity_actor(payload), '/'),
            "bots"@,
        ),
{
    lemma_inner_text(payload, "actor"@, "id"@);
    lemma_inner_text(payload, "actor"@, "type"@);
    let source = nested_text(payload, "actor"@, "id"@);
    let id = activity_actor(payload);
    let tail = after_last(id, '/');
    law_part_after(id, tail, '/');
    if source is Some {
        assert(has_inner_text(payload, "actor"@, "id"@, id));
    }
    assert forall|user: Seq<char>| #[trigger]
        activity_names_user(payload, user) <==> user_name(id) == Some(user) by {
        lemma_solid_part(tail, user);
        if user_name(id) == Some(user) {
            assert(pads(tail, user));
            assert(ends_after(id, tail, '/'));
            assert(source is Some) by {
                if source is None {
                    law_trimming_takes_only_white_space(tail);
                    assert(blank(tail));
                }
            }
        }
        if activity_names_user(payload, user) {
            let (given, part) = choose|given: Seq<char>, part: Seq<char>|
                has_inner_text(payload, "actor"@, "id"@, given) && #[trigger] ends_after(
                    given,
                    part,
                    '/',
                ) && pads(part, user);
            assert(given == id);
            law_part_after(id, part, '/');
        }
    }
    let kind = nested_text(payload, "actor"@, "type"@);
    if kind is Some {
        lemma_word(kind->0, "Application"@);
        assert(has_inner_text(payload, "actor"@, "type"@, kind->0));
    }
    let head = before_first(id, '/');
    law_part_before(id, head, '/');
    law_case_is_all_that_is_ignored(head, "bots"@);
    if same_letters(head, "bots"@) {
        reveal_strlit("bots");
        assert(source is Some);
        assert(starts_up_to(id, head, '/'));
    }
    if activity_is_by_bots(payload) {
        let (given, part) = choose|given: Seq<char>, part: Seq<char>|
            has_inner_text(payload, "actor"@, "id"@, given) && #[trigger] starts_up_to(
                given,
                part,
                '/',
            ) && same_letters(part, "bots"@);
        law_part_before(id, part, '/');
    }
}

proof fn lemma_activity_object(payload: Json)
    ensures
        forall|room: Seq<char>| #[trigger]
            activity_names_room(payload, room) <==> nonblank(nested_text(payload, "target"@, "id"@))
                == Some(room),
        activity_is_about_message(payload) <==> is_word(
            nested_text(payload, "object"@, "name"@),
            "message"@,
        ),
{
    lemma_inner_text(payload, "target"@, "id"@);
    lemma_inner_text(payload, "object"@, "name"@);
    let source = nested_text(payload, "target"@, "id"@);
    assert forall|room: Seq<char>| #[trigger]
        activity_names_room(payload, room) <==> nonblank(source) == Some(room) by {
        if source is Some {
            lemma_solid_part(source->0, room);
            assert(has_inner_text(payload, "target"@, "id"@, source->0));
        }
    }
    let name = nested_text(payload, "object"@, "name"@);
    if name is Some {
        lemma_word(name->0, "message"@);
        assert(has_inner_text(payload, "object"@, "name"@, name->0));
    }
}

/// An ActivityPub payload that names an allowed user and a room, that neither an application
/// nor a bot wrote, and that is about a message, is read as a message: from that room and
/// that user, character for character, with the content as it stands.
pub proof fn law_activities_are_read(
    channel: &NextcloudTalkChannel,
    payload: &JsonValue,
    activity: Result<Activity, IgnoredReason>,
    user: Seq<char>,
    room: Seq<char>,
)
    requires
        call_ensures(NextcloudTalkChannel::read_activitypub_payload, (channel, payload), activity),
        !activity_is_by_application(payload@),
        !activity_is_by_bots(payload@),
        activity_names_user(payload@, user),
        lists(channel@.allowed_users, user),
        activity_names_room(payload@, room),
        activity_is_about_message(payload@),
    ensures
        activity matches Ok(activity) && {
            &&& activity.sender@ == user
            &&& activity.reply_target@ == room
            &&& forall|text: Seq<char>| #[trigger]
                has_inner_text(payload@, "object"@, "content"@, text) ==> activity.content@ == text
            &&& (forall|text: Seq<char>|
                !#[trigger] has_inner_text(payload@, "object"@, "content"@, text))
                ==> activity.content@.len() == 0
            &&& forall|object: Json| #[trigger]
                has_member(payload@, "object"@, object) ==> is_identifier_of(activity.id, object)
        },
{
    lemma_activity_user(payload@);
    lemma_activity_object(payload@);
    law_allowed_means_listed(channel@.allowed_users, user);
    lemma_inner_text(payload@, "object"@, "content"@);
    let source = nested_text(payload@, "object"@, "content"@);
    if source is Some {
        assert(has_inner_text(payload@, "object"@, "content"@, source->0));
    }
    if let Ok(activity) = activity {
        assert forall|object: Json| #[trigger]
            has_member(payload@, "object"@, object) implies is_identifier_of(
            activity.id,
            object,
        ) by {
            lemma_identifier(activity.id, object);
        }
    }
}

/// What an ActivityPub payload is read as holds of it: of a message, its room and its user,
/// who is allowed and no bot; of a reason to ignore it, that it applies and that none of
/// those asked for before it does.
pub proof fn law_activity_readings_hold(
    channel: &NextcloudTalkChannel,
    payload: &JsonValue,
    activity: Result<Activity, IgnoredReason>,
)
    requires
        call_ensures(NextcloudTalkChannel::read_activitypub_payload, (channel, payload), activity),
    ensures
        match activity {
            Ok(activity) => {
                &&& !activity_is_by_application(payload@)
                &&& !activity_is_by_bots(payload@)
                &&& activity_names_user(payload@, activity.sender@)
                &&& lists(channel@.allowed_users, activity.sender@)
                &&& activity_names_room(payload@, activity.reply_target@)
                &&& activity_is_about_message(payload@)
            },
            Err(IgnoredReason::Bot) => activity_is_by_application(payload@),
            Err(IgnoredReason::BotPrefix) => {
                &&& !activity_is_by_application(payload@)
                &&& activity_is_by_bots(payload@)
            },
            Err(IgnoredReason::MissingActor) => {
                &&& !activity_is_by_application(payload@)
                &&& !activity_is_by_bots(payload@)
                &&& forall|user: Seq<char>| !#[trigger] activity_names_user(payload@, user)
            },
            Err(IgnoredReason::Unauthorized(user)) => {
                &&& !activity_is_by_application(payload@)
                &&& !activity_is_by_bots(payload@)
                &&& activity_names_user(payload@, user@)
                &&& !lists(channel@.allowed_users, user@)
            },
            Err(IgnoredReason::MissingRoom) => {
                &&& !activity_is_by_application(payload@)
                &&& !activity_is_by_bots(payload@)
                &&& exists|user: Seq<char>| #[trigger]
                    activity_names_user(payload@, user) && lists(channel@.allowed_users, user)
                &&& forall|room: Seq<char>| !#[trigger] activity_names_room(payload@, room)
            },
            Err(IgnoredReason::OtherObject(name)) => {
                &&& !activity_is_by_application(payload@)
                &&& !activity_is_by_bots(payload@)
                &&& exists|user: Seq<char>| #[trigger]
                    activity_names_user(payload@, user) && lists(channel@.allowed_users, user)
                &&& exists|room: Seq<char>| #[trigger] activity_names_room(payload@, room)
                &&& !activity_is_about_message(payload@)
                &&& forall|text: Seq<char>| #[trigger]
                    has_inner_text(payload@, "object"@, "name"@, text) ==> name@ == text
                &&& (forall|text: Seq<char>|
                    !#[trigger] has_inner_text(payload@, "object"@, "name"@, text))
                    ==> name@.len() == 0
            },
            Err(_) => false,
        },
{
    lemma_activity_user(payload@);
    lemma_activity_object(payload@);
    let user = user_name(activity_actor(payload@));
    if user is Some {
        assert(activity_names_user(payload@, user->0));
        law_allowed_means_listed(channel@.allowed_users, user->0);
    }
    let room = nonblank(nested_text(payload@, "target"@, "id"@));
    if room is Some {
        assert(activity_names_room(payload@, room->0));
    }
    lemma_inner_text(payload@, "object"@, "name"@);
    let name = nested_text(payload@, "object"@, "name"@);
    if name is Some {
        assert(has_inner_text(payload@, "object"@, "name"@, name->0));
    }
}

/// The text of an ActivityPub message is the solid part of the `message` that its content
/// holds where that is JSON, else of the content itself; there is no message where that
/// part is missing. All else of the message is kept.
pub proof fn law_contents_are_read(
    activity: Activity,
    decoded: DecodedContent,
    draft: Option<MessageDraft>,
)
    requires
        call_ensures(Activity::into_draft, (activity, decoded), draft),
    ensures
        draft matches Some(draft) ==> {
            &&& draft.id == activity.id || (draft.id is Some && activity.id is Some
                && draft.id->0@ == activity.id->0@)
            &&& draft.reply_target@ == activity.reply_target@
            &&& draft.sender@ == activity.sender@
            &&& draft.time is Received
            &&& match decoded {
                DecodedContent::Plain => pads(activity.content@, draft.content@),
                DecodedContent::Json(Some(text)) => pads(text@, draft.content@),
                DecodedContent::Json(None) => false,
            }
        },
        draft is None ==> match decoded {
            DecodedContent::Plain => blank(activity.content@),
            DecodedContent::Json(Some(text)) => blank(text@),
            DecodedContent::Json(None) => true,
        },
{
    let text = match decoded {
        DecodedContent::Json(Some(text)) => text@,
        _ => activity.content@,
    };
    law_trimming_takes_only_white_space(text);
}

/// A completed message is its draft: the given identifier and time stand in only where the
/// draft has none, and a time above 10^12 is counted down from milliseconds.
pub proof fn law_drafts_are_completed(
    draft: MessageDraft,
    fresh_id: String,
    now: u64,
    message: ChannelMessage,
)
    requires
        call_ensures(MessageDraft::complete_with, (draft, fresh_id, now), message),
    ensures
        message.id@ == (match draft.id {
            Some(id) => id@,
            None => fresh_id@,
        }),
        message.reply_target@ == draft.reply_target@,
        message.sender@ == draft.sender@,
        message.content@ == draft.content@,
        message.channel@ == "nextcloud_talk"@,
        message.thread_ts is None,
        draft.time is Received ==> message.timestamp == now,
        draft.time matches MessageTime::Reported(Some(raw)) ==> stands_for(message.timestamp, raw),
        draft.time matches MessageTime::Reported(None) ==> stands_for(message.timestamp, now),
{
}

/// `seconds` is the time `raw` in whole seconds, which `raw` gives in milliseconds where it is
/// above 10^12.
pub open spec fn stands_for(seconds: u64, raw: u64) -> bool {
    if raw <= 1_000_000_000_000 {
        seconds == raw
    } else {
        1000 * seconds <= raw < 1000 * (seconds + 1)
    }
}

/// `message` is what `draft` becomes: where the draft has an identifier, a room, a sender, a
/// content and a time, the message has the same.
pub open spec fn stems_from(message: ChannelMessage, draft: MessageDraft) -> bool {
    &&& match draft.id {
        Some(id) => message.id@ == id@,
        None => uuid_v4_text(message.id@),
    }
    &&& message.reply_target@ == draft.reply_target@
    &&& message.sender@ == draft.sender@
    &&& message.content@ == draft.content@
    &&& message.channel@ == "nextcloud_talk"@
    &&& message.thread_ts is None
    &&& draft.time matches MessageTime::Reported(Some(raw)) ==> stands_for(message.timestamp, raw)
}

/// A draft completed with the clock and a random identifier is still that draft.
pub proof fn law_drafts_are_completed_by_chance(draft: MessageDraft, message: ChannelMessage)
    requires
        call_ensures(MessageDraft::complete, (draft,), message),
    ensures
        stems_from(message, draft),
{
    let now = choose|now: u64| message@ == #[trigger] completed(draft@, message@.id, now);
    assert(message@ == completed(draft@, message@.id, now));
}

proof fn lemma_delivery(messages: Seq<ChannelMessage>, draft: Option<Draft>)
    requires
        delivery(messages, draft),
    ensures
        draft is None ==> messages.len() == 0,
        draft is Some ==> messages.len() == 1 && exists|fresh_id: Seq<char>, now: u64|
            messages[0]@ == #[trigger] completed(draft->0, fresh_id, now) && (draft->0.id is None
                ==> uuid_v4_text(fresh_id)),
{
    let (fresh_id, now) = choose|fresh_id: Seq<char>, now: u64|
        {
            &&& messages_of(messages) == #[trigger] delivered(draft, fresh_id, now)
            &&& draft is Some && draft->0.id is None ==> uuid_v4_text(fresh_id)
        };
    assert(messages_of(messages).len() == messages.len());
    if draft is Some {
        assert(messages_of(messages)[0] == messages[0]@);
        assert(messages[0]@ == completed(draft->0, fresh_id, now));
    }
}

/// A payload of `type` `message` yields the message that it is read as in the legacy format,
/// or none where it is read as none.
pub proof fn law_legacy_payloads_are_delivered(
    channel: &NextcloudTalkChannel,
    payload: &JsonValue,
    kind: Seq<char>,
    draft: Result<MessageDraft, IgnoredReason>,
    messages: Vec<ChannelMessage>,
)
    requires
        has_text(payload@, "type"@, kind),
        same_letters(kind, "message"@),
        call_ensures(NextcloudTalkChannel::read_legacy_payload, (channel, payload), draft),
        call_ensures(NextcloudTalkChannel::parse_webhook_payload, (channel, payload), messages),
    ensures
        match draft {
            Ok(draft) => messages.len() == 1 && stems_from(messages[0], draft),
            Err(_) => messages.len() == 0,
        },
{
    lemma_word(kind, "message"@);
    lemma_word(kind, "Create"@);
    reveal_strlit("message");
    reveal_strlit("Create");
    assert(!same_letters(kind, "Create"@));
    lemma_delivery(messages@, legacy_draft(channel@.allowed_users, payload@));
}

/// An ActivityPub payload yields the message that it is read as, with the text that its
/// content holds, or none where it is read as none or its content holds no text.
pub proof fn law_activity_payloads_are_delivered(
    channel: &NextcloudTalkChannel,
    payload: &JsonValue,
    activity: Result<Activity, IgnoredReason>,
    messages: Vec<ChannelMessage>,
)
    requires
        call_ensures(NextcloudTalkChannel::read_activitypub_payload, (channel, payload), activity),
        call_ensures(NextcloudTalkChannel::parse_activitypub_payload, (channel, payload), messages),
    ensures
        delivers_activity(activity, messages),
{
    lemma_activity_delivery(channel, payload, activity, messages);
}

/// A payload of `type` `Create` yields what it yields in the ActivityPub format.
pub proof fn law_create_payloads_are_delivered(
    channel: &NextcloudTalkChannel,
    payload: &JsonValue,
    kind: Seq<char>,
    activity: Result<Activity, IgnoredReason>,
    messages: Vec<ChannelMessage>,
)
    requires
        has_text(payload@, "type"@, kind),
        same_letters(kind, "Create"@),
        call_ensures(NextcloudTalkChannel::read_activitypub_payload, (channel, payload), activity),
        call_ensures(NextcloudTalkChannel::parse_webhook_payload, (channel, payload), messages),
    ensures
        delivers_activity(activity, messages),
{
    lemma_word(kind, "Create"@);
    lemma_activity_delivery(channel, payload, activity, messages);
}

/// `messages` are what `activity` becomes: the message with the solid part of the text that its
/// content holds, or none where there is none.
pub open spec fn delivers_activity(
    activity: Result<Activity, IgnoredReason>,
    messages: Vec<ChannelMessage>,
) -> bool {
    match activity {
        Err(_) => messages.len() == 0,
        Ok(activity) => {
            &&& messages.len() <= 1
            &&& messages.len() == 1 ==> {
                &&& match activity.id {
                    Some(id) => messages[0].id@ == id@,
                    None => uuid_v4_text(messages[0].id@),
                }
                &&& messages[0].reply_target@ == activity.reply_target@
                &&& messages[0].sender@ == activity.sender@
                &&& messages[0].channel@ == "nextcloud_talk"@
                &&& messages[0].thread_ts is None
                &&& match json_text_member(activity.content@, "message"@) {
                    None => pads(activity.content@, messages[0].content@),
                    Some(Some(text)) => pads(text, messages[0].content@),
                    Some(None) => false,
                }
            }
            &&& messages.len() == 0 ==> match json_text_member(activity.content@, "message"@) {
                None => blank(activity.content@),
                Some(Some(text)) => blank(text),
                Some(None) => true,
            }
        },
    }
}

proof fn lemma_activity_delivery(
    channel: &NextcloudTalkChannel,
    payload: &JsonValue,
    activity: Result<Activity, IgnoredReason>,
    messages: Vec<ChannelMessage>,
)
    requires
        call_ensures(NextcloudTalkChannel::read_activitypub_payload, (channel, payload), activity),
        delivery(
            messages@,
            activity_draft(channel@.allowed_users, payload@, decoded_content(payload@)),
        ),
    ensures
        delivers_activity(activity, messages),
{
    lemma_delivery(
        messages@,
        activity_draft(channel@.allowed_users, payload@, decoded_content(payload@)),
    );
    if let Ok(activity) = activity {
        let decoded = json_text_member(activity.content@, "message"@);
        assert(decoded == decoded_content(payload@));
        let text = match decoded {
            Some(Some(text)) => text,
            _ => activity.content@,
        };
        law_trimming_takes_only_white_space(text);
    }
}

/// A payload of any other `type`, or without one, yields nothing.
pub proof fn law_other_events_yield_nothing(
    channel: &NextcloudTalkChannel,
    payload: &JsonValue,
    messages: Vec<ChannelMessage>,
)
    requires
        call_ensures(NextcloudTalkChannel::parse_webhook_payload, (channel, payload), messages),
        forall|kind: Seq<char>| #[trigger]
            has_text(payload@, "type"@, kind) ==> !same_letters(kind, "Create"@) && !same_letters(
                kind,
                "message"@,
            ),
    ensures
        messages.len() == 0,
{
    if let Some(kind) = text_member(payload@, "type"@) {
        assert(has_text(payload@, "type"@, kind));
        lemma_word(kind, "Create"@);
        lemma_word(kind, "message"@);
    }
    lemma_delivery(messages@, None);
}

/// The reason that is told for a payload is the one that it is read with, in the format of its
/// `type`; of another `type`, that type is told.
pub proof fn law_reasons_are_those_of_reading(
    channel: &NextcloudTalkChannel,
    payload: &JsonValue,
    reason: Option<IgnoredReason>,
    draft: Result<MessageDraft, IgnoredReason>,
    activity: Result<Activity, IgnoredReason>,
)
    requires
        call_ensures(NextcloudTalkChannel::ignored_reason, (channel, payload), reason),
        call_ensures(NextcloudTalkChannel::read_legacy_payload, (channel, payload), draft),
        call_ensures(NextcloudTalkChannel::read_activitypub_payload, (channel, payload), activity),
    ensures
        forall|kind: Seq<char>| #[trigger]
            has_text(payload@, "type"@, kind) ==> {
                if same_letters(kind, "Create"@) {
                    match activity {
                        Ok(_) => reason is None,
                        Err(why) => reason is Some && reason->0@ == why@,
                    }
                } else if same_letters(kind, "message"@) {
                    match draft {
                        Ok(_) => reason is None,
                        Err(why) => reason is Some && reason->0@ == why@,
                    }
                } else {
                    reason matches Some(IgnoredReason::OtherEvent(event)) && event@ == kind
                }
            },
        (forall|kind: Seq<char>| !#[trigger] has_text(payload@, "type"@, kind)) ==> (reason matches
            Some(IgnoredReason::OtherEvent(event)) && event@.len() == 0),
{
    if let Some(kind) = text_member(payload@, "type"@) {
        assert(has_text(payload@, "type"@, kind));
        lemma_word(kind, "Create"@);
        lemma_word(kind, "message"@);
    }
}

/// Where the `actor.id` of a `Create` payload is some text, a slash and a user name without a
/// slash and without white space around it, every message delivered is from that user,
/// character for character, and the list allows exactly that user.
pub proof fn law_senders_are_whole_user_names(
    channel: &NextcloudTalkChannel,
    payload: &JsonValue,
    messages: Vec<ChannelMessage>,
    kind: Seq<char>,
    actor_type: Seq<char>,
    user: Seq<char>,
)
    requires
        call_ensures(NextcloudTalkChannel::parse_webhook_payload, (channel, payload), messages),
        has_text(payload@, "type"@, kind),
        same_letters(kind, "Create"@),
        has_inner_text(payload@, "actor"@, "id"@, actor_type.push('/') + user),
        !user.contains('/'),
        solid(user),
    ensures
        forall|i: int| 0 <= i < messages.len() ==> (#[trigger] messages[i]).sender@ == user,
        messages.len() > 0 ==> lists(channel@.allowed_users, user),
{
    let id = actor_type.push('/') + user;
    lemma_word(kind, "Create"@);
    lemma_inner_text(payload@, "actor"@, "id"@);
    assert(ends_after(id, user, '/')) by {
        assert forall|i: int| id.len() - user.len() <= i < id.len() implies #[trigger] id[i]
            != '/' by {
            assert(user.contains(user[i - (id.len() - user.len())]));
        }
    }
    assert(in_three(user, seq![], user, seq![])) by {
        assert(user =~= seq![] + user + seq![]);
    }
    assert(pads(user, user));
    assert(activity_names_user(payload@, user));
    lemma_activity_user(payload@);
    law_allowed_means_listed(channel@.allowed_users, user);
    lemma_delivery(
        messages@,
        activity_draft(channel@.allowed_users, payload@, decoded_content(payload@)),
    );
}

/// The sender of every message delivered from a `Create` payload is the solid part of what
/// follows the last slash of the payload's own `actor.id`, and the list allows that sender.
pub proof fn law_senders_end_the_actor_identifier(
    channel: &NextcloudTalkChannel,
    payload: &JsonValue,
    messages: Vec<ChannelMessage>,
    kind: Seq<char>,
    id: Seq<char>,
    i: int,
)
    requires
        call_ensures(NextcloudTalkChannel::parse_webhook_payload, (channel, payload), messages),
        has_text(payload@, "type"@, kind),
        same_letters(kind, "Create"@),
        has_inner_text(payload@, "actor"@, "id"@, id),
        0 <= i < messages.len(),
    ensures
        exists|part: Seq<char>| #[trigger]
            ends_after(id, part, '/') && pads(part, messages[i].sender@),
        lists(channel@.allowed_users, messages[i].sender@),
{
    lemma_word(kind, "Create"@);
    lemma_inner_text(payload@, "actor"@, "id"@);
    let part = after_last(id, '/');
    law_part_after(id, part, '/');
    lemma_delivery(
        messages@,
        activity_draft(channel@.allowed_users, payload@, decoded_content(payload@)),
    );
    lemma_solid_part(part, messages[i].sender@);
    law_allowed_means_listed(channel@.allowed_users, messages[i].sender@);
}

/// The content of a message delivered from a legacy payload is all of the payload's
/// `message.message` but the white space around it: all of it where there is none.
pub proof fn law_legacy_content_is_whole(
    channel: &NextcloudTalkChannel,
    payload: &JsonValue,
    messages: Vec<ChannelMessage>,
    kind: Seq<char>,
    text: Seq<char>,
    i: int,
)
    requires
        call_ensures(NextcloudTalkChannel::parse_webhook_payload, (channel, payload), messages),
        has_text(payload@, "type"@, kind),
        same_letters(kind, "message"@),
        has_inner_text(payload@, "message"@, "message"@, text),
        0 <= i < messages.len(),
    ensures
        pads(text, messages[i].content@),
        solid(text) ==> messages[i].content@ == text,
{
    lemma_word(kind, "message"@);
    lemma_word(kind, "Create"@);
    reveal_strlit("message");
    reveal_strlit("Create");
    assert(!same_letters(kind, "Create"@));
    lemma_inner_text(payload@, "message"@, "message"@);
    lemma_delivery(messages@, legacy_draft(channel@.allowed_users, payload@));
    lemma_solid_part(text, messages[i].content@);
    if solid(text) {
        assert(in_three(text, seq![], text, seq![])) by {
            assert(text =~= seq![] + text + seq![]);
        }
        assert(pads(text, text));
        lemma_solid_part(text, text);
    }
}

} // verus!
