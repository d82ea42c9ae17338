//! Everything that the platform reports besides messages and clicks on cards: reactions,
//! comments, menus, recalls and changes of membership.
use vstd::prelude::*;

use crate::conv;
use crate::conv::{COMMENT_CONV_PREFIX, conv_with, thread_conv};
use crate::dedup;
use crate::dedup::content_hash_text;
use crate::events;
use crate::events::{
    BotRemovedEvent, BotRemovedEventV, CommentContentNode, CommentEvent, CommentEventV,
    CommentNodeV, FeishuEvent, FeishuEventV, MenuEvent, MenuEventV, operator_open_id,
    RecallEvent, RecallEventV,
};
use crate::json;
use crate::json::{Json, JsonV, parse_json};
use crate::message::read_event;
use crate::model;
use crate::model::{ConvId, InboundControl, InboundControlV, InboundMessage, InboundV};
use crate::text;
use crate::text::{
    borrow, cat2, cat4, cat6, either, opt_is, own, str_begins, str_eq, str_join, take_nonblank,
    take_nonempty,
};

verus! {

/// The kind of an event, where the document names one.
pub open spec fn event_type_of(j: JsonV) -> Option<Seq<char>> {
    j.at("header"@).str_at("event_type"@)
}

fn is_event(j: &Json, event_type: &str) -> (r: bool)
    ensures
        r == (event_type_of(j@) == Some(event_type@)),
{
    opt_is(j.at("header").str_at("event_type"), event_type)
}

/// An optional text, taken only where it begins in a certain way.
pub open spec fn beginning(o: Option<Seq<char>>, p: Seq<char>) -> Option<Seq<char>> {
    match o {
        Some(s) => if text::begins(s, p) {
            Some(s)
        } else {
            None
        },
        None => None,
    }
}

fn take_beginning<'a>(o: Option<&'a str>, p: &str) -> (r: Option<&'a str>)
    ensures
        text::sview(r) == beginning(text::sview(o), p@),
{
    match o {
        Some(s) => if str_begins(s, p) {
            Some(s)
        } else {
            None
        },
        None => None,
    }
}

fn key_or(id: Option<&str>, fallback: String) -> (r: String)
    ensures
        r@ == text::or_text(text::sview(id), fallback@),
{
    match id {
        Some(s) => s.to_owned(),
        None => fallback,
    }
}

// ---------------------------------------------------------------------------
// First looks at a message event
// ---------------------------------------------------------------------------

/// The message that a message in a group quotes.
pub open spec fn group_reply_parent(j: JsonV) -> Option<Seq<char>> {
    let m = j.at("event"@).at("message"@);
    match (m.str_at("chat_type"@), events::opt_field(m, "parent_id"@)) {
        (Some(chat_type), Some(parent)) => if chat_type == "group"@ {
            text::nonempty(parent)
        } else {
            None
        },
        _ => None,
    }
}

/// Whether a document is a message in a group.
pub open spec fn is_group_message(j: JsonV) -> bool {
    &&& event_type_of(j) == Some("im.message.receive_v1"@)
    &&& j.at("event"@).at("message"@).str_at("chat_type"@) == Some("group"@)
}

/// The conversation of the thread that a message belongs to.
pub open spec fn thread_key(j: JsonV) -> Option<Seq<char>> {
    let m = j.at("event"@).at("message"@);
    if is_group_message(j) {
        match (text::nonempty(m.str_at("chat_id"@)), beginning(m.str_at("root_id"@), "om_"@)) {
            (Some(chat), Some(root)) => Some(conv::thread_name(chat, root)),
            _ => None,
        }
    } else {
        None
    }
}

/// The message that a message in a group quotes; `None` for any other message.
pub fn peek_group_reply_parent(payload: &[u8]) -> (r: Option<String>)
    ensures
        text::oview(r) == match json::parsed_json(payload@) {
            Some(j) => group_reply_parent(j),
            None => None,
        },
{
    match parse_json(payload) {
        Some(j) => {
            let m = j.at("event").at("message");
            match m.str_at("chat_type") {
                Some(chat_type) => if str_eq(chat_type, "group") {
                    own(take_nonempty(m.str_at("parent_id")))
                } else {
                    None
                },
                None => None,
            }
        },
        None => None,
    }
}

/// Whether the bytes of an event are a comment in a document.
pub fn is_comment_event(payload: &[u8]) -> (r: bool)
    ensures
        r == match json::parsed_json(payload@) {
            Some(j) => event_type_of(j) == Some("drive.file.comment.created_v1"@),
            None => false,
        },
{
    match parse_json(payload) {
        Some(j) => is_event(&j, "drive.file.comment.created_v1"),
        None => false,
    }
}

/// Whether a document is a message in a group.
pub fn is_group_message_in(j: &Json) -> (r: bool)
    ensures
        r == is_group_message(j@),
{
    is_event(j, "im.message.receive_v1") && opt_is(
        j.at("event").at("message").str_at("chat_type"),
        "group",
    )
}

/// Whether the bytes of an event are a message in a group.
pub fn is_group_message_event(payload: &[u8]) -> (r: bool)
    ensures
        r == match json::parsed_json(payload@) {
            Some(j) => is_group_message(j),
            None => false,
        },
{
    match parse_json(payload) {
        Some(j) => is_group_message_in(&j),
        None => false,
    }
}

/// The conversation of the thread that a message belongs to; `None` outside threads.
pub fn thread_key_in(j: &Json) -> (r: Option<String>)
    ensures
        text::oview(r) == thread_key(j@),
{
    let m = j.at("event").at("message");
    if !is_group_message_in(j) {
        return None;
    }
    match (take_nonempty(m.str_at("chat_id")), take_beginning(m.str_at("root_id"), "om_")) {
        (Some(chat), Some(root)) => Some(thread_conv(chat, root)),
        _ => None,
    }
}

/// The conversation of the thread that the message in the bytes of an event belongs to;
/// `None` outside threads.
pub fn thread_key_of_payload(payload: &[u8]) -> (r: Option<String>)
    ensures
        text::oview(r) == match json::parsed_json(payload@) {
            Some(j) => thread_key(j),
            None => None,
        },
{
    match parse_json(payload) {
        Some(j) => thread_key_in(&j),
        None => None,
    }
}

// ---------------------------------------------------------------------------
// Messages that are not handled
// ---------------------------------------------------------------------------

/// The notice for a kind of message that is not handled.
pub open spec fn unsupported_notice(kind: Seq<char>) -> Option<Seq<char>> {
    if kind == "share_chat"@ {
        Some("🗂 暂不支持群聊分享卡片，请直接发送文字。"@)
    } else if kind == "share_user"@ {
        Some("👤 暂不支持用户名片分享，请直接发送文字。"@)
    } else if kind == "merged_forward"@ || kind == "sticker"@ || kind == "media"@ || kind
        == "video"@ {
        Some("📦 暂不支持合并转发/表情包/视频消息，请直接发文字或截图。"@)
    } else {
        None
    }
}

/// Who is told that a message is not handled: the sender of a private message, or a group
/// where the message mentions somebody.
pub open spec fn unsupported_conv(evt: FeishuEventV) -> Option<Seq<char>> {
    let m = evt.event.message;
    if m.chat_type == "p2p"@ {
        if evt.event.sender.len() == 0 {
            None
        } else {
            Some(conv::conv_name(evt.event.sender))
        }
    } else if m.mentions.len() == 0 {
        None
    } else {
        match text::first_of(evt.event.chat, m.chat_id) {
            Some(chat) => Some(conv::conv_name(chat)),
            None => None,
        }
    }
}

/// The notice for a message that is not handled, and who gets it.
pub open spec fn unsupported_message(evt: FeishuEventV) -> Option<(Seq<char>, Seq<char>)> {
    if evt.header.event_type != "im.message.receive_v1"@ {
        None
    } else {
        match (unsupported_notice(evt.event.message.message_type), unsupported_conv(evt)) {
            (Some(notice), Some(conv)) => Some((notice, conv)),
            _ => None,
        }
    }
}

/// The notice for the bytes of an event, and who gets it.
pub open spec fn unsupported_in(payload: Seq<u8>) -> Option<(Seq<char>, Seq<char>)> {
    match json::parsed_json(payload) {
        Some(j) => match events::feishu_event_of(j) {
            Some(evt) => unsupported_message(evt),
            None => None,
        },
        None => None,
    }
}

fn notice_for(kind: &str) -> (r: Option<&'static str>)
    ensures
        text::sview(r) == unsupported_notice(kind@),
{
    if str_eq(kind, "share_chat") {
        Some("🗂 暂不支持群聊分享卡片，请直接发送文字。")
    } else if str_eq(kind, "share_user") {
        Some("👤 暂不支持用户名片分享，请直接发送文字。")
    } else if str_eq(kind, "merged_forward") || str_eq(kind, "sticker") || str_eq(kind, "media")
        || str_eq(kind, "video") {
        Some("📦 暂不支持合并转发/表情包/视频消息，请直接发文字或截图。")
    } else {
        None
    }
}

/// The notice for a message that is not handled, and who gets it; `None` for any other event.
pub fn handle_unsupported(evt: &FeishuEvent) -> (r: Option<(&'static str, Option<ConvId>)>)
    ensures
        match r {
            Some((notice, conv)) => conv is Some && unsupported_message(evt@) == Some(
                (notice@, conv->0@),
            ),
            None => unsupported_message(evt@) is None,
        },
{
    if !str_eq(evt.header.event_type.as_str(), "im.message.receive_v1") {
        return None;
    }
    let m = &evt.event.message;
    let notice = match notice_for(m.message_type.as_str()) {
        Some(n) => n,
        None => {
            return None;
        },
    };
    assert(m.mentions@.len() == model::listv(m.mentions@).len());
    if str_eq(m.chat_type.as_str(), "p2p") {
        let id = evt.event.sender.sender_id.open_id.as_str();
        if id.is_empty() {
            None
        } else {
            Some((notice, Some(ConvId(conv_with(id)))))
        }
    } else if m.mentions.len() == 0 {
        None
    } else {
        match &evt.event.chat {
            Some(c) => Some((notice, Some(ConvId(conv_with(c.chat_id.as_str()))))),
            None => match &m.chat_id {
                Some(c) => Some((notice, Some(ConvId(conv_with(c.as_str()))))),
                None => None,
            },
        }
    }
}

/// The notice for the bytes of an event that are a message that is not handled, and who gets
/// it.
pub fn unsupported_message_notice(payload: &[u8]) -> (r: Option<(&'static str, Option<ConvId>)>)
    ensures
        match r {
            Some((notice, conv)) => conv is Some && unsupported_in(payload@) == Some(
                (notice@, conv->0@),
            ),
            None => unsupported_in(payload@) is None,
        },
{
    match read_event(payload) {
        Some(evt) => handle_unsupported(&evt),
        None => None,
    }
}

// ---------------------------------------------------------------------------
// Reactions
// ---------------------------------------------------------------------------

/// Whoever reacted.
pub open spec fn reactor(e: JsonV) -> Option<Seq<char>> {
    text::first_of(
        text::first_of(
            text::nonempty(e.at("user_id"@).str_at("open_id"@)),
            text::nonempty(e.at("operator_id"@).str_at("open_id"@)),
        ),
        text::nonempty(e.at("operator"@).at("operator_id"@).str_at("open_id"@)),
    )
}

/// The symbol of a reaction.
pub open spec fn reaction_emoji(e: JsonV) -> Option<Seq<char>> {
    text::first_of(
        e.at("reaction_type"@).str_at("emoji_type"@),
        e.at("reaction"@).str_at("emoji_key"@),
    )
}

/// The message that was reacted to.
pub open spec fn reacted_message(e: JsonV) -> Option<Seq<char>> {
    text::first_of(
        beginning(e.str_at("message_id"@), "om_"@),
        beginning(e.at("reaction"@).str_at("message_id"@), "om_"@),
    )
}

/// The answer that a symbol stands for: thumbs up for yes, thumbs down for no.
pub open spec fn emoji_reply(emoji: Seq<char>) -> Option<Seq<char>> {
    if emoji == "THUMBSUP"@ {
        Some("y"@)
    } else if emoji == "THUMBSDOWN"@ {
        Some("n"@)
    } else {
        None
    }
}

/// A reaction as an answer: its key, who reacted, to which message, and the answer.
pub open spec fn reaction(j: JsonV) -> Option<(Seq<char>, Seq<char>, Seq<char>, Seq<char>)> {
    let e = j.at("event"@);
    if event_type_of(j) != Some("im.message.reaction.created_v1"@) {
        None
    } else {
        match (reactor(e), reaction_emoji(e), reacted_message(e)) {
            (Some(who), Some(emoji), Some(message)) => match emoji_reply(emoji) {
                Some(reply) => Some(
                    (
                        text::or_text(
                            j.at("header"@).str_at("event_id"@),
                            "reaction:"@ + who + ":"@ + message + ":"@ + emoji,
                        ),
                        who,
                        message,
                        reply,
                    ),
                ),
                None => None,
            },
            _ => None,
        }
    }
}

/// A reaction as an answer; `None` for any other symbol or event.
pub fn handle_reaction(j: &Json) -> (r: Option<(String, String, String, &'static str)>)
    ensures
        match r {
            Some((key, who, message, reply)) => reaction(j@) == Some(
                (key@, who@, message@, reply@),
            ),
            None => reaction(j@) is None,
        },
{
    if !is_event(j, "im.message.reaction.created_v1") {
        return None;
    }
    let e = j.at("event");
    let who = either(
        either(
            take_nonempty(e.at("user_id").str_at("open_id")),
            take_nonempty(e.at("operator_id").str_at("open_id")),
        ),
        take_nonempty(e.at("operator").at("operator_id").str_at("open_id")),
    );
    let emoji = either(
        e.at("reaction_type").str_at("emoji_type"),
        e.at("reaction").str_at("emoji_key"),
    );
    let message = either(
        take_beginning(e.str_at("message_id"), "om_"),
        take_beginning(e.at("reaction").str_at("message_id"), "om_"),
    );
    match (who, emoji, message) {
        (Some(who), Some(emoji), Some(message)) => {
            let reply = if str_eq(emoji, "THUMBSUP") {
                "y"
            } else if str_eq(emoji, "THUMBSDOWN") {
                "n"
            } else {
                return None;
            };
            let key = key_or(
                j.at("header").str_at("event_id"),
                cat6("reaction:", who, ":", message, ":", emoji),
            );
            Some((key, who.to_owned(), message.to_owned(), reply))
        },
        _ => None,
    }
}

/// What the bytes of an event lead to as a reaction; `None` for any other symbol or event.
pub fn parse_reaction_event(payload: &[u8]) -> (r: Option<(String, String, String, &'static str)>)
    ensures
        match r {
            Some((key, who, message, reply)) => json::parsed_json(payload@) is Some && reaction(
                json::parsed_json(payload@)->0,
            ) == Some((key@, who@, message@, reply@)),
            None => json::parsed_json(payload@) is None || reaction(
                json::parsed_json(payload@)->0,
            ) is None,
        },
{
    match parse_json(payload) {
        Some(j) => handle_reaction(&j),
        None => None,
    }
}

// ---------------------------------------------------------------------------
// Membership
// ---------------------------------------------------------------------------

/// The group that the bot was added to, with the key of the event.
pub open spec fn bot_added(j: JsonV) -> Option<(Seq<char>, Seq<char>)> {
    let e = j.at("event"@);
    if event_type_of(j) != Some("im.chat.member.bot.added_v1"@) {
        None
    } else {
        match beginning(
            text::first_of(e.str_at("chat_id"@), e.at("chat"@).str_at("chat_id"@)),
            "oc_"@,
        ) {
            Some(chat) => Some(
                (text::or_text(j.at("header"@).str_at("event_id"@), "bot-added:"@ + chat), chat),
            ),
            None => None,
        }
    }
}

/// The group that the bot was added to, with the key of the event; `None` for other events.
pub fn handle_bot_added(j: &Json) -> (r: Option<(String, String)>)
    ensures
        match r {
            Some((key, chat)) => bot_added(j@) == Some((key@, chat@)),
            None => bot_added(j@) is None,
        },
{
    if !is_event(j, "im.chat.member.bot.added_v1") {
        return None;
    }
    let e = j.at("event");
    match take_beginning(
        either(e.str_at("chat_id"), e.at("chat").str_at("chat_id")),
        "oc_",
    ) {
        Some(chat) => {
            let key = key_or(j.at("header").str_at("event_id"), cat2("bot-added:", chat));
            Some((key, chat.to_owned()))
        },
        None => None,
    }
}

/// What the bytes of an event lead to as the addition of the bot to a group.
pub fn parse_bot_added_event(payload: &[u8]) -> (r: Option<(String, String)>)
    ensures
        match r {
            Some((key, chat)) => json::parsed_json(payload@) is Some && bot_added(
                json::parsed_json(payload@)->0,
            ) == Some((key@, chat@)),
            None => json::parsed_json(payload@) is None || bot_added(
                json::parsed_json(payload@)->0,
            ) is None,
        },
{
    match parse_json(payload) {
        Some(j) => handle_bot_added(&j),
        None => None,
    }
}

/// What the removal of the bot from a group leads to.
pub open spec fn bot_removed(evt: BotRemovedEventV) -> Option<(Seq<char>, InboundV)> {
    if evt.header.event_type != "im.chat.member.bot.deleted_v1"@ || evt.chat_id.len() == 0 {
        None
    } else {
        Some(
            (
                text::or_text(evt.header.event_id, "bot_removed:"@ + evt.chat_id),
                InboundV {
                    control: Some(InboundControlV::BotRemovedFromChat),
                    ..model::plain_message(conv::conv_name(evt.chat_id), Seq::empty(), None)
                },
            ),
        )
    }
}

/// A message with its key, by their views.
pub open spec fn keyed(r: Option<(String, InboundMessage)>) -> Option<(Seq<char>, InboundV)> {
    match r {
        Some((key, msg)) => Some((key@, msg@)),
        None => None,
    }
}

/// What the removal of the bot from a group leads to.
pub fn handle_bot_removed(evt: &BotRemovedEvent) -> (r: Option<(String, InboundMessage)>)
    ensures
        keyed(r) == bot_removed(evt@),
{
    let chat = evt.event.chat_id.as_str();
    if !str_eq(evt.header.event_type.as_str(), "im.chat.member.bot.deleted_v1")
        || chat.is_empty() {
        return None;
    }
    let key = key_or(borrow(&evt.header.event_id), cat2("bot_removed:", chat));
    let mut msg = InboundMessage::plain(conv_with(chat), String::new(), None);
    msg.control = Some(InboundControl::BotRemovedFromChat);
    Some((key, msg))
}

/// What the bytes of an event lead to as the removal of the bot from a group.
pub fn parse_bot_removed_event(payload: &[u8]) -> (r: Option<(String, InboundMessage)>)
    ensures
        keyed(r) == match json::parsed_json(payload@) {
            Some(j) => match events::bot_removed_event_of(j) {
                Some(evt) => bot_removed(evt),
                None => None,
            },
            None => None,
        },
{
    match parse_json(payload) {
        Some(j) => match BotRemovedEvent::read(&j) {
            Some(evt) => handle_bot_removed(&evt),
            None => None,
        },
        None => None,
    }
}

// ---------------------------------------------------------------------------
// Menus
// ---------------------------------------------------------------------------

/// What a click on a menu leads to: a request for help.
pub open spec fn menu_click(evt: MenuEventV) -> Option<(Seq<char>, InboundV)> {
    let who = match evt.operator {
        Some(op) => op.who(),
        None => None,
    };
    match who {
        Some(id) => if evt.header.event_type != "application.url.menu_v6"@ {
            None
        } else {
            let conv = conv::conv_name(text::or_text(text::nonempty(evt.chat_id), id));
            Some(
                (
                    text::or_text(
                        evt.header.event_id,
                        "menu:"@ + id + ":"@ + conv + ":"@ + dedup::hash_text("menu_v6"@),
                    ),
                    model::plain_message(conv, id, Some("/help"@)),
                ),
            )
        },
        None => None,
    }
}

/// What a click on a menu leads to.
pub fn handle_menu(evt: &MenuEvent) -> (r: Option<(String, InboundMessage)>)
    ensures
        keyed(r) == menu_click(evt@),
{
    if !str_eq(evt.header.event_type.as_str(), "application.url.menu_v6") {
        return None;
    }
    let who = match &evt.event.operator {
        Some(op) => operator_open_id(op),
        None => None,
    };
    match who {
        Some(id) => {
            let conv = match take_nonempty(borrow(&evt.event.chat_id)) {
                Some(c) => conv_with(c),
                None => conv_with(id.as_str()),
            };
            let key = key_or(
                borrow(&evt.header.event_id),
                cat6(
                    "menu:",
                    id.as_str(),
                    ":",
                    conv.as_str(),
                    ":",
                    content_hash_text("menu_v6").as_str(),
                ),
            );
            Some((key, InboundMessage::plain(conv, id, Some("/help".to_owned()))))
        },
        None => None,
    }
}

/// What the bytes of an event lead to as a click on a menu.
pub fn parse_menu_event(payload: &[u8]) -> (r: Option<(String, InboundMessage)>)
    ensures
        keyed(r) == match json::parsed_json(payload@) {
            Some(j) => match events::menu_event_of(j) {
                Some(evt) => menu_click(evt),
                None => None,
            },
            None => None,
        },
{
    match parse_json(payload) {
        Some(j) => match MenuEvent::read(&j) {
            Some(evt) => handle_menu(&evt),
            None => None,
        },
        None => None,
    }
}

// ---------------------------------------------------------------------------
// Recalls
// ---------------------------------------------------------------------------

/// The conversation with somebody, where there is somebody.
pub open spec fn conv_with_opt(id: Option<Seq<char>>) -> Option<Seq<char>> {
    match text::nonempty(id) {
        Some(s) => Some(conv::conv_name(s)),
        None => None,
    }
}

/// The conversations in which a recalled message may be queued: that of the chat and that of
/// the sender, as far as they are known, each once.
pub open spec fn probe_convs(chat: Option<Seq<char>>, sender: Option<Seq<char>>) -> Seq<Seq<char>> {
    match (chat, sender) {
        (Some(c), Some(s)) => if c != s {
            seq![c, s]
        } else {
            seq![s]
        },
        (None, Some(s)) => seq![s],
        (Some(c), None) => seq![c],
        (None, None) => Seq::empty(),
    }
}

/// What a recall leads to.
pub open spec fn recall(evt: RecallEventV) -> Option<(Seq<char>, InboundV)> {
    let chat = conv_with_opt(evt.chat_id);
    let sender = conv_with_opt(evt.sender);
    if evt.header.event_type != "im.message.recalled_v1"@ || evt.message_id.len() == 0 {
        None
    } else {
        Some(
            (
                text::or_text(evt.header.event_id, "recall:"@ + evt.message_id),
                InboundV {
                    source_msg_id: Some(evt.message_id),
                    control: Some(
                        InboundControlV::MessageRecalled {
                            notify_conv: text::first_of(chat, sender),
                            probe_convs: probe_convs(chat, sender),
                        },
                    ),
                    ..model::plain_message(
                        text::or_text(text::first_of(chat, sender), conv::conv_name(evt.message_id)),
                        text::or_text(text::nonempty(evt.sender), Seq::empty()),
                        None,
                    )
                },
            ),
        )
    }
}

fn opt_conv(id: Option<&str>) -> (r: Option<String>)
    ensures
        text::oview(r) == conv_with_opt(text::sview(id)),
{
    match take_nonempty(id) {
        Some(s) => Some(conv_with(s)),
        None => None,
    }
}

fn list_probe_convs(chat: &Option<String>, sender: &Option<String>) -> (r: Vec<ConvId>)
    ensures
        model::listv(r@) == probe_convs(text::oview(*chat), text::oview(*sender)),
{
    let mut out: Vec<ConvId> = Vec::new();
    match (chat, sender) {
        (Some(c), Some(s)) => {
            if !str_eq(c.as_str(), s.as_str()) {
                out.push(ConvId(c.clone()));
            }
            out.push(ConvId(s.clone()));
        },
        (None, Some(s)) => out.push(ConvId(s.clone())),
        (Some(c), None) => out.push(ConvId(c.clone())),
        (None, None) => {},
    }
    assert(model::listv(out@) =~= probe_convs(text::oview(*chat), text::oview(*sender)));
    out
}

/// What a recall leads to.
pub fn handle_recall(evt: &RecallEvent) -> (r: Option<(String, InboundMessage)>)
    ensures
        keyed(r) == recall(evt@),
{
    let mid = evt.event.message_id.as_str();
    if !str_eq(evt.header.event_type.as_str(), "im.message.recalled_v1") || mid.is_empty() {
        return None;
    }
    let sender_id = match &evt.event.sender {
        Some(s) => Some(s.sender_id.open_id.as_str()),
        None => None,
    };
    let chat = opt_conv(borrow(&evt.event.chat_id));
    let sender = opt_conv(sender_id);
    let probes = list_probe_convs(&chat, &sender);
    let notify = own(either(borrow(&chat), borrow(&sender)));
    let conv = match &notify {
        Some(c) => c.clone(),
        None => conv_with(mid),
    };
    let who = match take_nonempty(sender_id) {
        Some(s) => s.to_owned(),
        None => String::new(),
    };
    let key = key_or(borrow(&evt.header.event_id), cat2("recall:", mid));
    let mut msg = InboundMessage::plain(conv, who, None);
    let notify_conv = match notify {
        Some(c) => Some(ConvId(c)),
        None => None,
    };
    msg.source_msg_id = Some(mid.to_owned());
    msg.control =
    Some(InboundControl::MessageRecalled { notify_conv, probe_convs: probes });
    Some((key, msg))
}

/// What the bytes of an event lead to as a recall.
pub fn parse_recall_event(payload: &[u8]) -> (r: Option<(String, InboundMessage)>)
    ensures
        keyed(r) == match json::parsed_json(payload@) {
            Some(j) => match events::recall_event_of(j) {
                Some(evt) => recall(evt),
                None => None,
            },
            None => None,
        },
{
    match parse_json(payload) {
        Some(j) => match RecallEvent::read(&j) {
            Some(evt) => handle_recall(&evt),
            None => None,
        },
        None => None,
    }
}

// ---------------------------------------------------------------------------
// Comments
// ---------------------------------------------------------------------------

/// The person whom a node of a comment mentions.
pub open spec fn node_at(n: CommentNodeV) -> Option<Seq<char>> {
    if n.kind == "at"@ {
        text::nonempty(text::first_of(n.user_id, n.open_id))
    } else {
        None
    }
}

/// Whether a comment mentions somebody in particular.
pub open spec fn comment_mentions(content: Seq<CommentNodeV>, who: Seq<char>) -> bool {
    exists|i: int| 0 <= i < content.len() && node_at(#[trigger] content[i]) == Some(who)
}

/// Whether a comment mentions anybody.
pub open spec fn comment_mentions_any(content: Seq<CommentNodeV>) -> bool {
    exists|i: int| 0 <= i < content.len() && node_at(#[trigger] content[i]) is Some
}

/// The pieces of text of a comment.
pub open spec fn comment_texts(content: Seq<CommentNodeV>) -> Seq<Seq<char>>
    decreases content.len(),
{
    if content.len() == 0 {
        Seq::empty()
    } else {
        let before = comment_texts(content.drop_last());
        let n = content.last();
        match text::nonblank(n.text) {
            Some(t) => if n.kind == "text"@ {
                before.push(t)
            } else {
                before
            },
            None => before,
        }
    }
}

/// Whether a comment by somebody is meant for the bot. The bot's own comments never are.
/// While the bot's own identity is unknown, a comment that mentions anybody is.
pub open spec fn comment_heeded(
    content: Seq<CommentNodeV>,
    sender: Seq<char>,
    bot: Option<Seq<char>>,
) -> bool {
    match bot {
        Some(b) => comment_mentions(content, b) && sender != b,
        None => comment_mentions_any(content),
    }
}

/// What a comment leads to: its key, the comment to answer, and the message.
pub open spec fn comment(evt: CommentEventV, bot: Option<Seq<char>>) -> Option<
    (Seq<char>, Seq<char>, InboundV),
> {
    let texts = comment_texts(evt.content);
    match text::nonempty(evt.sender) {
        Some(sender) => if evt.header.event_type != "drive.file.comment.created_v1"@
            || evt.file_token.len() == 0 || evt.comment_id.len() == 0 || !comment_heeded(
            evt.content,
            sender,
            bot,
        ) || texts.len() == 0 {
            None
        } else {
            Some(
                (
                    text::or_text(
                        evt.header.event_id,
                        "comment:"@ + evt.comment_id + ":"@ + dedup::hash_text(text::join(texts, "\n"@)),
                    ),
                    evt.comment_id,
                    model::plain_message(
                        COMMENT_CONV_PREFIX@ + evt.file_token,
                        sender,
                        Some(text::join(texts, "\n"@)),
                    ),
                ),
            )
        },
        None => None,
    }
}

fn mentioned_in(n: &CommentContentNode) -> (r: Option<&str>)
    ensures
        text::sview(r) == node_at(n@),
{
    if str_eq(n.kind.as_str(), "at") {
        take_nonempty(either(borrow(&n.user_id), borrow(&n.open_id)))
    } else {
        None
    }
}

fn comment_is_heeded(
    content: &Vec<CommentContentNode>,
    sender: &str,
    bot: Option<&str>,
) -> (r: bool)
    ensures
        r == comment_heeded(model::listv(content@), sender@, text::sview(bot)),
{
    let ghost all = model::listv(content@);
    let mut i: usize = 0;
    match bot {
        Some(b) => {
            if str_eq(sender, b) {
                return false;
            }
            while i < content.len()
                invariant
                    i <= content@.len(),
                    all == model::listv(content@),
                    sender@ != b@,
                    text::sview(bot) == Some(b@),
                    forall|k: int| 0 <= k < i ==> node_at(#[trigger] all[k]) != Some(b@),
                decreases content@.len() - i,
            {
                if opt_is(mentioned_in(&content[i]), b) {
                    assert(node_at(all[i as int]) == Some(b@));
                    return true;
                }
                i += 1;
            }
            false
        },
        None => {
            while i < content.len()
                invariant
                    i <= content@.len(),
                    all == model::listv(content@),
                    text::sview(bot) is None,
                    forall|k: int| 0 <= k < i ==> node_at(#[trigger] all[k]) is None,
                decreases content@.len() - i,
            {
                if mentioned_in(&content[i]).is_some() {
                    assert(node_at(all[i as int]) is Some);
                    return true;
                }
                i += 1;
            }
            false
        },
    }
}

fn texts_of_comment(content: &Vec<CommentContentNode>) -> (r: Vec<String>)
    ensures
        text::views(r@) == comment_texts(model::listv(content@)),
{
    let ghost all = model::listv(content@);
    let mut out: Vec<String> = Vec::new();
    let mut i: usize = 0;
    assert(text::views(out@) =~= comment_texts(all.subrange(0, 0)));
    while i < content.len()
        invariant
            i <= content@.len(),
            all == model::listv(content@),
            text::views(out@) == comment_texts(all.subrange(0, i as int)),
        decreases content@.len() - i,
    {
        let n = &content[i];
        let ghost before = out@;
        proof {
            assert(all.subrange(0, i + 1).drop_last() =~= all.subrange(0, i as int));
            assert(all.subrange(0, i + 1).last() == n@);
        }
        match take_nonblank(borrow(&n.text)) {
            Some(t) => {
                if str_eq(n.kind.as_str(), "text") {
                    out.push(t.to_owned());
                    assert(text::views(out@) =~= text::views(before).push(t@));
                }
            },
            None => {},
        }
        i += 1;
    }
    assert(all.subrange(0, all.len() as int) =~= all);
    out
}

/// What a comment leads to: its key, the comment to answer, and the message.
pub fn handle_comment(evt: &CommentEvent, bot_open_id: Option<&str>) -> (r: Option<
    (String, String, InboundMessage),
>)
    ensures
        match r {
            Some((key, id, msg)) => comment(evt@, text::sview(bot_open_id)) == Some((key@, id@, msg@)),
            None => comment(evt@, text::sview(bot_open_id)) is None,
        },
{
    let b = &evt.event;
    if !str_eq(evt.header.event_type.as_str(), "drive.file.comment.created_v1") {
        return None;
    }
    if b.file_token.as_str().is_empty() || b.comment_id.as_str().is_empty() {
        return None;
    }
    let sender = match &b.sender {
        Some(s) => s.sender_id.open_id.as_str(),
        None => {
            return None;
        },
    };
    if sender.is_empty() || !comment_is_heeded(&b.content, sender, bot_open_id) {
        return None;
    }
    let texts = texts_of_comment(&b.content);
    assert(texts@.len() == text::views(texts@).len());
    if texts.len() == 0 {
        return None;
    }
    let text = str_join(&texts, "\n");
    let key = key_or(
        borrow(&evt.header.event_id),
        cat4(
            "comment:",
            b.comment_id.as_str(),
            ":",
            content_hash_text(text.as_str()).as_str(),
        ),
    );
    let msg = InboundMessage::plain(
        cat2(COMMENT_CONV_PREFIX, b.file_token.as_str()),
        sender.to_owned(),
        Some(text),
    );
    Some((key, b.comment_id.clone(), msg))
}

/// What the bytes of an event lead to as a comment: its key, the comment to answer, and the
/// message; `None` for anything that is not a comment to the bot.
pub fn parse_comment_event(payload: &[u8], bot_open_id: Option<&str>) -> (r: Option<
    (String, String, InboundMessage),
>)
    ensures
        match json::parsed_json(payload@) {
            Some(j) => match events::comment_event_of(j) {
                Some(evt) => match r {
                    Some((key, id, msg)) => comment(evt, text::sview(bot_open_id)) == Some(
                        (key@, id@, msg@),
                    ),
                    None => comment(evt, text::sview(bot_open_id)) is None,
                },
                None => r is None,
            },
            None => r is None,
        },
{
    match parse_json(payload) {
        Some(j) => match CommentEvent::read(&j) {
            Some(evt) => handle_comment(&evt, bot_open_id),
            None => None,
        },
        None => None,
    }
}

/// The bot never answers its own comments.
pub proof fn law_no_answer_to_self(evt: CommentEventV, bot: Seq<char>)
    requires
        evt.sender == Some(bot),
    ensures
        comment(evt, Some(bot)) is None,
{
}

} // verus!
