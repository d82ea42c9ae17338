//! What comes in: telling events apart, and what each leads to.
use vstd::prelude::*;

use crate::asks;
use crate::asks::{
    AskRender, AskRenderV, Asks, AsksV, EXPIRED_ASK_NOTICE, may_not_answer, PendingAskCard,
    PendingAskV, somebody_else_notice, Verdict, VerdictV,
};
use crate::card_action;
use crate::card_action::card_action_at;
use crate::clock;
use crate::clock::{clock_secs, judging_second};
use crate::conv;
use crate::conv::conv_with;
use crate::errors::CoreError;
use crate::events;
use crate::events::{
    BotRemovedEvent, CardActionEvent, CommentEvent, FeishuEvent, MenuEvent, RecallEvent,
};
use crate::flows;
use crate::flows::{AskStage, AskStageV, Sent};
use crate::forward;
use crate::forward::{
    handle_forward, MergedForwardItem, MergedForwardMeta, MetaV,
    render_merge_forward_transcript,
};
use crate::json;
use crate::json::{Json, JsonV, parse_json};
use crate::message;
use crate::message::{handle_message, MentionPolicy, PendingMedia, PendingV};
use crate::model;
use crate::model::{ConvId, InboundMessage, InboundV};
use crate::notices;
use crate::notices::{
    handle_bot_added, handle_bot_removed, handle_comment, handle_menu, handle_reaction,
    handle_recall, handle_unsupported,
};
use crate::routing;
use crate::routing::refusal_targets;
use crate::session;
use crate::session::{Convs, ConvsV};
use crate::text;
use crate::text::{borrow, cat2, cat3, own, str_eq};

verus! {

// ---------------------------------------------------------------------------
// Telling events apart
// ---------------------------------------------------------------------------

/// What an event is.
#[derive(Debug)]
pub enum Incoming {
    /// A message to the bot, with the media to fetch.
    Message { key: String, msg: InboundMessage, media: Vec<PendingMedia> },
    /// A forwarded conversation, which is still to be fetched.
    Forward { key: String, msg: InboundMessage, meta: MergedForwardMeta },
    /// A click on a card; with a notice where it is refused.
    Click { key: String, msg: InboundMessage, deny: Option<String> },
    /// A comment to the bot.
    Comment { key: String, comment_id: String, msg: InboundMessage },
    /// A comment that is not for the bot.
    OtherComment,
    /// A reaction that answers.
    Reaction { key: String, operator: String, message_id: String, reply: &'static str },
    /// A message without further ado.
    Plain { key: String, msg: InboundMessage },
    /// The bot was added to a group.
    BotAdded { key: String, chat_id: String },
    /// A message that is not handled: what is said to whom.
    Unsupported { notice: &'static str, conv: ConvId },
    /// Anything else, by its kind.
    Ignored { event_type: Option<String> },
}

#[verifier::ext_equal]
pub enum IncomingV {
    Message { key: Seq<char>, msg: InboundV, media: Seq<PendingV> },
    Forward { key: Seq<char>, msg: InboundV, meta: MetaV },
    Click { key: Seq<char>, msg: InboundV, deny: Option<Seq<char>> },
    Comment { key: Seq<char>, comment_id: Seq<char>, msg: InboundV },
    OtherComment,
    Reaction { key: Seq<char>, operator: Seq<char>, message_id: Seq<char>, reply: Seq<char> },
    Plain { key: Seq<char>, msg: InboundV },
    BotAdded { key: Seq<char>, chat_id: Seq<char> },
    Unsupported { notice: Seq<char>, conv: Seq<char> },
    Ignored { event_type: Option<Seq<char>> },
}

impl View for Incoming {
    type V = IncomingV;

    open spec fn view(&self) -> IncomingV {
        match *self {
            Incoming::Message { key, msg, media } => IncomingV::Message {
                key: key@,
                msg: msg@,
                media: model::listv(media@),
            },
            Incoming::Forward { key, msg, meta } => IncomingV::Forward {
                key: key@,
                msg: msg@,
                meta: meta@,
            },
            Incoming::Click { key, msg, deny } => IncomingV::Click {
                key: key@,
                msg: msg@,
                deny: text::oview(deny),
            },
            Incoming::Comment { key, comment_id, msg } => IncomingV::Comment {
                key: key@,
                comment_id: comment_id@,
                msg: msg@,
            },
            Incoming::OtherComment => IncomingV::OtherComment,
            Incoming::Reaction { key, operator, message_id, reply } => IncomingV::Reaction {
                key: key@,
                operator: operator@,
                message_id: message_id@,
                reply: reply@,
            },
            Incoming::Plain { key, msg } => IncomingV::Plain { key: key@, msg: msg@ },
            Incoming::BotAdded { key, chat_id } => IncomingV::BotAdded {
                key: key@,
                chat_id: chat_id@,
            },
            Incoming::Unsupported { notice, conv } => IncomingV::Unsupported {
                notice: notice@,
                conv: conv@,
            },
            Incoming::Ignored { event_type } => IncomingV::Ignored {
                event_type: text::oview(event_type),
            },
        }
    }
}

/// What a document is as a message to the bot.
pub open spec fn as_message(j: JsonV, require: bool, bot: Option<Seq<char>>) -> Option<IncomingV> {
    match events::feishu_event_of(j) {
        Some(evt) => match message::message_event(evt, require, bot) {
            Some((key, msg, media)) => Some(IncomingV::Message { key, msg, media }),
            None => match forward::forward_event(evt, require, bot) {
                Some((key, msg, meta)) => Some(IncomingV::Forward { key, msg, meta }),
                None => None,
            },
        },
        None => None,
    }
}

/// What a document is as a click on a card.
pub open spec fn as_click(j: JsonV, now: int) -> Option<IncomingV> {
    match events::card_action_event_of(j) {
        Some(evt) => match card_action::card_action(evt, now) {
            Some((key, msg, deny)) => Some(IncomingV::Click { key, msg, deny }),
            None => None,
        },
        None => None,
    }
}

/// What a document is as a comment. Whatever is one is nothing else.
pub open spec fn as_comment(j: JsonV, bot: Option<Seq<char>>) -> Option<IncomingV> {
    if notices::event_type_of(j) == Some("drive.file.comment.created_v1"@) {
        match events::comment_event_of(j) {
            Some(evt) => match notices::comment(evt, bot) {
                Some((key, comment_id, msg)) => Some(IncomingV::Comment { key, comment_id, msg }),
                None => Some(IncomingV::OtherComment),
            },
            None => Some(IncomingV::OtherComment),
        }
    } else {
        None
    }
}

/// What a document is as a reaction.
pub open spec fn as_reaction(j: JsonV) -> Option<IncomingV> {
    match notices::reaction(j) {
        Some((key, operator, message_id, reply)) => Some(
            IncomingV::Reaction { key, operator, message_id, reply },
        ),
        None => None,
    }
}

/// What a document is as a click on a menu, a recall, or the removal of the bot.
pub open spec fn as_plain(j: JsonV) -> Option<IncomingV> {
    let menu = match events::menu_event_of(j) {
        Some(evt) => notices::menu_click(evt),
        None => None,
    };
    let recalled = match events::recall_event_of(j) {
        Some(evt) => notices::recall(evt),
        None => None,
    };
    let removed = match events::bot_removed_event_of(j) {
        Some(evt) => notices::bot_removed(evt),
        None => None,
    };
    match menu {
        Some((key, msg)) => Some(IncomingV::Plain { key, msg }),
        None => match recalled {
            Some((key, msg)) => Some(IncomingV::Plain { key, msg }),
            None => match removed {
                Some((key, msg)) => Some(IncomingV::Plain { key, msg }),
                None => None,
            },
        },
    }
}

/// What a document is as anything else.
pub open spec fn as_other(j: JsonV) -> IncomingV {
    match notices::bot_added(j) {
        Some((key, chat_id)) => IncomingV::BotAdded { key, chat_id },
        None => match events::feishu_event_of(j) {
            Some(evt) => match notices::unsupported_message(evt) {
                Some((notice, conv)) => IncomingV::Unsupported { notice, conv },
                None => IncomingV::Ignored { event_type: notices::event_type_of(j) },
            },
            None => IncomingV::Ignored { event_type: notices::event_type_of(j) },
        },
    }
}

/// What a document is.
pub open spec fn incoming(j: JsonV, require: bool, bot: Option<Seq<char>>, now: int) -> IncomingV {
    match as_message(j, require, bot) {
        Some(i) => i,
        None => match as_click(j, now) {
            Some(i) => i,
            None => match as_comment(j, bot) {
                Some(i) => i,
                None => match as_reaction(j) {
                    Some(i) => i,
                    None => match as_plain(j) {
                        Some(i) => i,
                        None => as_other(j),
                    },
                },
            },
        },
    }
}

fn read_message(j: &Json, policy: &MentionPolicy, bot_open_id: Option<&str>) -> (r: Option<Incoming>)
    ensures
        crate::model::optv(r) == as_message(
            j@,
            policy.require_mention_in_group,
            text::sview(bot_open_id),
        ),
{
    match FeishuEvent::read(j) {
        Some(evt) => match handle_message(&evt, policy, bot_open_id) {
            Some((key, msg, media)) => Some(Incoming::Message { key, msg, media }),
            None => match handle_forward(&evt, policy, bot_open_id) {
                Some((key, msg, meta)) => Some(Incoming::Forward { key, msg, meta }),
                None => None,
            },
        },
        None => None,
    }
}

fn read_click(j: &Json, now: i64) -> (r: Option<Incoming>)
    ensures
        crate::model::optv(r) == as_click(j@, now as int),
{
    match CardActionEvent::read(j) {
        Some(evt) => match card_action_at(&evt, now) {
            Some((key, msg, deny)) => Some(Incoming::Click { key, msg, deny }),
            None => None,
        },
        None => None,
    }
}

fn read_comment(j: &Json, bot_open_id: Option<&str>) -> (r: Option<Incoming>)
    ensures
        crate::model::optv(r) == as_comment(j@, text::sview(bot_open_id)),
{
    if !crate::text::opt_is(
        j.at("header").str_at("event_type"),
        "drive.file.comment.created_v1",
    ) {
        return None;
    }
    match CommentEvent::read(j) {
        Some(evt) => match handle_comment(&evt, bot_open_id) {
            Some((key, comment_id, msg)) => Some(Incoming::Comment { key, comment_id, msg }),
            None => Some(Incoming::OtherComment),
        },
        None => Some(Incoming::OtherComment),
    }
}

fn read_plain(j: &Json) -> (r: Option<Incoming>)
    ensures
        crate::model::optv(r) == as_plain(j@),
{
    match MenuEvent::read(j) {
        Some(evt) => match handle_menu(&evt) {
            Some((key, msg)) => {
                return Some(Incoming::Plain { key, msg });
            },
            None => {},
        },
        None => {},
    }
    match RecallEvent::read(j) {
        Some(evt) => match handle_recall(&evt) {
            Some((key, msg)) => {
                return Some(Incoming::Plain { key, msg });
            },
            None => {},
        },
        None => {},
    }
    match BotRemovedEvent::read(j) {
        Some(evt) => match handle_bot_removed(&evt) {
            Some((key, msg)) => Some(Incoming::Plain { key, msg }),
            None => None,
        },
        None => None,
    }
}

fn read_other(j: &Json) -> (r: Incoming)
    ensures
        r@ == as_other(j@),
{
    match handle_bot_added(j) {
        Some((key, chat_id)) => {
            return Incoming::BotAdded { key, chat_id };
        },
        None => {},
    }
    match FeishuEvent::read(j) {
        Some(evt) => match handle_unsupported(&evt) {
            Some((notice, Some(conv))) => {
                return Incoming::Unsupported { notice, conv };
            },
            _ => {},
        },
        None => {},
    }
    Incoming::Ignored { event_type: own(j.at("header").str_at("event_type")) }
}

/// What a document is, at a given time.
pub fn classify_document(
    j: &Json,
    policy: &MentionPolicy,
    bot_open_id: Option<&str>,
    now: i64,
) -> (r: Incoming)
    ensures
        r@ == incoming(j@, policy.require_mention_in_group, text::sview(bot_open_id), now as int),
{
    match read_message(j, policy, bot_open_id) {
        Some(i) => {
            return i;
        },
        None => {},
    }
    match read_click(j, now) {
        Some(i) => {
            return i;
        },
        None => {},
    }
    match read_comment(j, bot_open_id) {
        Some(i) => {
            return i;
        },
        None => {},
    }
    match handle_reaction(j) {
        Some((key, operator, message_id, reply)) => {
            return Incoming::Reaction { key, operator, message_id, reply };
        },
        None => {},
    }
    match read_plain(j) {
        Some(i) => i,
        None => read_other(j),
    }
}

/// What the bytes of an event are, by what the clock shows. Bytes that hold no document are
/// ignored.
pub open spec fn classified(
    payload: Seq<u8>,
    require: bool,
    bot: Option<Seq<char>>,
    clock: Option<i64>,
) -> IncomingV {
    match json::parsed_json(payload) {
        Some(j) => incoming(j, require, bot, clock::judged_at(clock)),
        None => IncomingV::Ignored { event_type: None },
    }
}

/// What the bytes of an event are, by what the clock shows.
pub fn classify_by(
    payload: &[u8],
    policy: &MentionPolicy,
    bot_open_id: Option<&str>,
    clock: Option<i64>,
) -> (r: Incoming)
    ensures
        r@ == classified(
            payload@,
            policy.require_mention_in_group,
            text::sview(bot_open_id),
            clock,
        ),
{
    match parse_json(payload) {
        Some(j) => classify_document(&j, policy, bot_open_id, judging_second(clock)),
        None => Incoming::Ignored { event_type: None },
    }
}

/// What the bytes of an event are, now. Bytes that hold no document are ignored at any time.
pub fn classify(payload: &[u8], policy: &MentionPolicy, bot_open_id: Option<&str>) -> (r: Incoming)
    ensures
        exists|clock: Option<i64>|
            r@ == #[trigger] classified(
                payload@,
                policy.require_mention_in_group,
                text::sview(bot_open_id),
                clock,
            ),
        json::parsed_json(payload@) is None ==> r@ == (IncomingV::Ignored { event_type: None }),
{
    classify_by(payload, policy, bot_open_id, clock_secs())
}

// ---------------------------------------------------------------------------
// Events that come twice
// ---------------------------------------------------------------------------

/// How many events are remembered. What is done with an event that is not among them stands in
/// [`Bridge::take_new`], whatever is remembered.
pub const DEDUP_CAPACITY: usize = 4096;

/// The events that came last, by their keys.
#[derive(Debug)]
pub struct Dedup {
    keys: Vec<String>,
}

impl View for Dedup {
    type V = Seq<Seq<char>>;

    closed spec fn view(&self) -> Seq<Seq<char>> {
        text::views(self.keys@)
    }
}

/// The keys with one more; the oldest goes where there are too many.
pub open spec fn remembered(keys: Seq<Seq<char>>, key: Seq<char>) -> Seq<Seq<char>> {
    if keys.len() >= DEDUP_CAPACITY {
        keys.push(key).drop_first()
    } else {
        keys.push(key)
    }
}

/// The keys once an event has come.
pub open spec fn after_event(keys: Seq<Seq<char>>, key: Seq<char>) -> Seq<Seq<char>> {
    if keys.contains(key) {
        keys
    } else {
        remembered(keys, key)
    }
}

impl Dedup {
    /// No event has come yet.
    pub fn new() -> (r: Dedup)
        ensures
            r@ == Seq::<Seq<char>>::empty(),
    {
        let r = Dedup { keys: Vec::new() };
        assert(r@ =~= Seq::<Seq<char>>::empty());
        r
    }

    /// Whether an event is a new one. From then on it is not.
    pub fn check(&mut self, key: &str) -> (r: bool)
        ensures
            r == !old(self)@.contains(key@),
            final(self)@ == after_event(old(self)@, key@),
    {
        let ghost all = self@;
        let mut i: usize = 0;
        while i < self.keys.len()
            invariant
                i <= self.keys@.len(),
                all == text::views(self.keys@),
                self@ == all,
                all == old(self)@,
                forall|k: int| 0 <= k < i ==> #[trigger] all[k] != key@,
            decreases self.keys@.len() - i,
        {
            if str_eq(self.keys[i].as_str(), key) {
                assert(all[i as int] == key@);
                assert(all.contains(key@));
                return false;
            }
            assert(all[i as int] != key@);
            i += 1;
        }
        assert(!all.contains(key@));
        let ghost before = self.keys@;
        assert(all.len() == before.len());
        self.keys.push(key.to_owned());
        assert(text::views(self.keys@) =~= all.push(key@));
        if self.keys.len() > DEDUP_CAPACITY {
            let _ = self.keys.remove(0);
            assert(text::views(self.keys@) =~= all.push(key@).drop_first());
        }
        true
    }
}

/// An event that comes again is not a new one.
pub proof fn law_no_second_time(keys: Seq<Seq<char>>, key: Seq<char>)
    requires
        keys.len() <= DEDUP_CAPACITY,
    ensures
        after_event(keys, key).contains(key),
        after_event(keys, key).len() <= DEDUP_CAPACITY,
{
    if !keys.contains(key) {
        let all = keys.push(key);
        let r = remembered(keys, key);
        assert(all.last() == key);
        assert(r[r.len() - 1] == key);
    }
}

// ---------------------------------------------------------------------------
// What an event leads to
// ---------------------------------------------------------------------------

/// What the bot says where it was added to a group.
pub const WELCOME: &'static str =
    "👋 我已加入本群！群内 @我 发消息即可驱动 agent。\n管理员可发送 /chat allow 放行本群（放行前我不会响应消息）；/help 查看全部命令。\n💬 会话规则：群主时间线直接 @我 = 续同一会话；点消息「回复」进话题 = 开独立会话（互不共享上下文/待办）。";

/// Something to do.
#[derive(Debug)]
pub enum Effect {
    /// Hand a message on.
    Deliver(InboundMessage),
    /// Say something in a conversation.
    Say { conv: String, text: String },
    /// Fetch the media of a message, then hand it on.
    FetchMedia { msg: InboundMessage, media: Vec<PendingMedia> },
    /// Fetch a forwarded conversation, then hand the message on with it.
    FetchForward { msg: InboundMessage, meta: MergedForwardMeta },
}

#[verifier::ext_equal]
pub enum EffectV {
    Deliver(InboundV),
    Say { conv: Seq<char>, text: Seq<char> },
    FetchMedia { msg: InboundV, media: Seq<PendingV> },
    FetchForward { msg: InboundV, meta: MetaV },
}

impl View for Effect {
    type V = EffectV;

    open spec fn view(&self) -> EffectV {
        match *self {
            Effect::Deliver(msg) => EffectV::Deliver(msg@),
            Effect::Say { conv, text } => EffectV::Say { conv: conv@, text: text@ },
            Effect::FetchMedia { msg, media } => EffectV::FetchMedia {
                msg: msg@,
                media: model::listv(media@),
            },
            Effect::FetchForward { msg, meta } => EffectV::FetchForward { msg: msg@, meta: meta@ },
        }
    }
}

/// What the bridge remembers.
#[derive(Debug)]
pub struct Bridge {
    pub asks: Asks,
    pub convs: Convs,
    pub seen: Dedup,
}

#[verifier::ext_equal]
pub struct BridgeV {
    pub asks: AsksV,
    pub convs: ConvsV,
    pub seen: Seq<Seq<char>>,
}

impl View for Bridge {
    type V = BridgeV;

    open spec fn view(&self) -> BridgeV {
        BridgeV { asks: self.asks@, convs: self.convs@, seen: self.seen@ }
    }
}

/// The message that a reaction to the card of a question stands for.
pub open spec fn reaction_message(
    card: PendingAskV,
    operator: Seq<char>,
    message_id: Seq<char>,
    reply: Seq<char>,
) -> InboundV {
    InboundV {
        reply_to: Some(message_id),
        ..model::plain_message(card.conv_id, operator, Some(reply))
    }
}

/// Whether an open question is the one that a message shows; none where no open question is.
pub open spec fn question_in(
    pending: Map<Seq<char>, PendingAskV>,
    message_id: Seq<char>,
    card: Option<PendingAskV>,
) -> bool {
    match card {
        Some(c) => c.msg_id == message_id && exists|k: Seq<char>| #[trigger]
            pending.contains_key(k) && pending[k] == c,
        None => forall|k: Seq<char>| #[trigger]
            pending.contains_key(k) ==> pending[k].msg_id != message_id,
    }
}

/// The same text said in several conversations.
pub open spec fn said(convs: Seq<Seq<char>>, text: Seq<char>) -> Seq<EffectV> {
    Seq::new(convs.len(), |i: int| EffectV::Say { conv: convs[i], text })
}

/// The key by which an event is told from others; none for one that may come twice.
pub open spec fn key_of(i: IncomingV) -> Option<Seq<char>> {
    match i {
        IncomingV::Message { key, .. } => Some(key),
        IncomingV::Forward { key, .. } => Some(key),
        IncomingV::Click { key, .. } => Some(key),
        IncomingV::Comment { key, .. } => Some(key),
        IncomingV::OtherComment => None,
        IncomingV::Reaction { key, .. } => Some(key),
        IncomingV::Plain { key, .. } => Some(key),
        IncomingV::BotAdded { key, .. } => Some(key),
        IncomingV::Unsupported { .. } => None,
        IncomingV::Ignored { .. } => None,
    }
}

impl Incoming {
    /// The key of an event, where it has one.
    pub fn key<'a>(&'a self) -> (r: Option<&'a str>)
        ensures
            text::sview(r) == key_of(self@),
    {
        match self {
            Incoming::Message { key, .. } => Some(key.as_str()),
            Incoming::Forward { key, .. } => Some(key.as_str()),
            Incoming::Click { key, .. } => Some(key.as_str()),
            Incoming::Comment { key, .. } => Some(key.as_str()),
            Incoming::OtherComment => None,
            Incoming::Reaction { key, .. } => Some(key.as_str()),
            Incoming::Plain { key, .. } => Some(key.as_str()),
            Incoming::BotAdded { key, .. } => Some(key.as_str()),
            Incoming::Unsupported { .. } => None,
            Incoming::Ignored { .. } => None,
        }
    }
}

/// What a new event changes of what is known of conversations.
pub open spec fn convs_after(
    c: ConvsV,
    i: IncomingV,
    thread: Option<Seq<char>>,
    now: u64,
) -> ConvsV {
    match i {
        IncomingV::Message { msg, .. } => session::heard_from(
            c,
            msg.conv_id,
            msg.sender,
            msg.source_msg_id,
            thread,
            now,
        ),
        IncomingV::Forward { msg, .. } => session::heard_from(
            c,
            msg.conv_id,
            msg.sender,
            msg.source_msg_id,
            thread,
            now,
        ),
        IncomingV::Click { msg, deny, .. } => if deny is None && msg.sender.len() > 0 {
            ConvsV { senders: c.senders.insert(msg.conv_id, msg.sender), ..c }
        } else {
            c
        },
        IncomingV::Comment { comment_id, msg, .. } => ConvsV {
            comments: c.comments.insert(msg.conv_id, comment_id),
            ..c
        },
        _ => c,
    }
}

/// What a new event leads to.
pub open spec fn effects_of(
    asks: AsksV,
    i: IncomingV,
    card: Option<PendingAskV>,
) -> Seq<EffectV> {
    match i {
        IncomingV::Message { msg, media, .. } => seq![EffectV::FetchMedia { msg, media }],
        IncomingV::Forward { msg, meta, .. } => seq![EffectV::FetchForward { msg, meta }],
        IncomingV::Click { msg, deny, .. } => match deny {
            Some(text) => said(routing::refusal_convs(msg.conv_id, msg.sender), text),
            None => match asks::verdict(asks.pending, msg.ask_req, msg.sender) {
                VerdictV::Pass => seq![EffectV::Deliver(msg)],
                VerdictV::Expired => seq![
                    EffectV::Say { conv: msg.conv_id, text: EXPIRED_ASK_NOTICE@ },
                ],
                VerdictV::NotOwner(text) => seq![EffectV::Say { conv: msg.conv_id, text }],
            },
        },
        IncomingV::Comment { msg, .. } => seq![EffectV::Deliver(msg)],
        IncomingV::OtherComment => Seq::empty(),
        IncomingV::Reaction { operator, message_id, reply, .. } => match card {
            Some(c) => if asks::not_asked(c, operator) {
                seq![EffectV::Say { conv: c.conv_id, text: asks::not_asked_notice(c) }]
            } else {
                seq![EffectV::Deliver(reaction_message(c, operator, message_id, reply))]
            },
            None => Seq::empty(),
        },
        IncomingV::Plain { msg, .. } => seq![EffectV::Deliver(msg)],
        IncomingV::BotAdded { chat_id, .. } => seq![
            EffectV::Say { conv: conv::conv_name(chat_id), text: WELCOME@ },
        ],
        IncomingV::Unsupported { notice, conv } => seq![EffectV::Say { conv, text: notice }],
        IncomingV::Ignored { .. } => Seq::empty(),
    }
}

/// Whether an event is to be handled: it has no key, or one that is new.
pub open spec fn is_new(b: BridgeV, i: IncomingV) -> bool {
    match key_of(i) {
        Some(key) => !b.seen.contains(key),
        None => true,
    }
}

/// The bridge once an event has come.
pub open spec fn bridge_after(b: BridgeV, i: IncomingV, thread: Option<Seq<char>>, now: u64) -> BridgeV {
    BridgeV {
        asks: b.asks,
        convs: if is_new(b, i) {
            convs_after(b.convs, i, thread, now)
        } else {
            b.convs
        },
        seen: match key_of(i) {
            Some(key) => after_event(b.seen, key),
            None => b.seen,
        },
    }
}

/// What an event leads to: nothing where it came before.
pub open spec fn reaction_to(b: BridgeV, i: IncomingV, card: Option<PendingAskV>) -> Seq<EffectV> {
    if is_new(b, i) {
        effects_of(b.asks, i, card)
    } else {
        Seq::empty()
    }
}

/// The message that an event reacts to, where it is a reaction.
pub open spec fn reacted_to(i: IncomingV) -> Option<Seq<char>> {
    match i {
        IncomingV::Reaction { message_id, .. } => Some(message_id),
        _ => None,
    }
}

fn one(e: Effect) -> (r: Vec<Effect>)
    ensures
        model::listv(r@) == seq![e@],
{
    let mut out: Vec<Effect> = Vec::new();
    out.push(e);
    assert(model::listv(out@) =~= seq![e@]);
    out
}

fn nothing() -> (r: Vec<Effect>)
    ensures
        model::listv(r@) == Seq::<EffectV>::empty(),
{
    let out: Vec<Effect> = Vec::new();
    assert(model::listv(out@) =~= Seq::<EffectV>::empty());
    out
}

fn say_in_all(convs: Vec<String>, text: &str) -> (r: Vec<Effect>)
    ensures
        model::listv(r@) == said(text::views(convs@), text@),
{
    let ghost all = text::views(convs@);
    let mut out: Vec<Effect> = Vec::new();
    for c in it: convs
        invariant
            text::views(it.seq()) == all,
            model::listv(out@) =~= Seq::new(
                it.index() as nat,
                |i: int| EffectV::Say { conv: all[i], text: text@ },
            ),
    {
        let ghost before = out@;
        assert(all[it.index() as int] == c@);
        let e = Effect::Say { conv: c, text: text.to_owned() };
        out.push(e);
        assert(model::listv(out@) =~= model::listv(before).push(e@));
    }
    assert(model::listv(out@) =~= said(all, text@));
    out
}

/// The state once a step of asking has been made. A card with a question that was sent is the
/// last one of its conversation.
pub open spec fn bridge_after_ask(
    s: BridgeV,
    conv: Seq<char>,
    req: Seq<char>,
    stage: AskStageV,
    r: Result<Option<Seq<char>>, Seq<char>>,
    render: AskRenderV,
) -> BridgeV {
    BridgeV {
        asks: asks::asked(s.asks, conv, req, stage, r, render),
        convs: match (stage, r) {
            (AskStageV::Card, Ok(Some(m))) => session::with_tail(s.convs, conv, m),
            _ => s.convs,
        },
        ..s
    }
}

impl Bridge {
    /// The bridge at the start: it remembers nothing.
    pub fn new() -> (r: Bridge)
        ensures
            r@ == (BridgeV {
                asks: AsksV {
                    pending: Map::empty(),
                    slots: Map::empty(),
                    notes: Map::empty(),
                    sent: Map::empty(),
                },
                convs: ConvsV {
                    senders: Map::empty(),
                    comments: Map::empty(),
                    active: Map::empty(),
                    anchored: Map::empty(),
                    last: Map::empty(),
                    tails: Map::empty(),
                },
                seen: Seq::empty(),
            }),
    {
        Bridge { asks: Asks::new(), convs: Convs::new(), seen: Dedup::new() }
    }

    fn click(&mut self, msg: InboundMessage, deny: Option<String>) -> (r: Vec<Effect>)
        ensures
            ({
                let i = IncomingV::Click { key: Seq::empty(), msg: msg@, deny: text::oview(deny) };
                &&& model::listv(r@) == effects_of(old(self)@.asks, i, None)
                &&& final(self)@ == (BridgeV {
                    convs: convs_after(old(self)@.convs, i, None, 0),
                    ..old(self)@
                })
            }),
    {
        match deny {
            Some(text) => say_in_all(
                refusal_targets(msg.conv_id.0.as_str(), msg.sender.0.as_str()),
                text.as_str(),
            ),
            None => {
                self.convs.note_click(msg.conv_id.0.as_str(), msg.sender.0.as_str());
                match self.asks.judge(borrow(&msg.ask_req), msg.sender.0.as_str()) {
                    Verdict::Pass => one(Effect::Deliver(msg)),
                    Verdict::Expired => one(
                        Effect::Say {
                            conv: msg.conv_id.0.clone(),
                            text: EXPIRED_ASK_NOTICE.to_owned(),
                        },
                    ),
                    Verdict::NotOwner(text) => one(
                        Effect::Say { conv: msg.conv_id.0.clone(), text },
                    ),
                }
            },
        }
    }

    fn react(&self, card: Option<PendingAskCard>, operator: String, message_id: String, reply: &str) -> (r:
        Vec<Effect>)
        ensures
            model::listv(r@) == effects_of(
                self@.asks,
                (IncomingV::Reaction {
                    key: Seq::empty(),
                    operator: operator@,
                    message_id: message_id@,
                    reply: reply@,
                }),
                crate::model::optv(card),
            ),
    {
        match card {
            Some(c) => if may_not_answer(&c, operator.as_str()) {
                let text = somebody_else_notice(&c);
                one(Effect::Say { conv: c.conv_id, text })
            } else {
                let mut msg = InboundMessage::plain(c.conv_id, operator, Some(reply.to_owned()));
                msg.reply_to = Some(message_id);
                one(Effect::Deliver(msg))
            },
            None => nothing(),
        }
    }

    /// Notes what a step of asking came to. The card whose place a new one takes is returned.
    pub fn after_ask(
        &mut self,
        conv: &ConvId,
        request_id: &str,
        stage: &AskStage,
        outcome: &Sent,
        render: &AskRender,
    ) -> (r: Option<PendingAskCard>)
        ensures
            model::optv(r) == asks::replaced_by_step(
                old(self)@.asks,
                request_id@,
                stage@,
                flows::sent_view(*outcome),
            ),
            final(self)@ == bridge_after_ask(
                old(self)@,
                conv@,
                request_id@,
                stage@,
                flows::sent_view(*outcome),
                render@,
            ),
    {
        match (stage, outcome) {
            (AskStage::Card, Ok(Some(m))) => {
                self.convs.note_card_tail(conv.0.as_str(), m.as_str());
            },
            _ => {},
        }
        self.asks.after_ask(conv, request_id, stage, outcome, render)
    }

    /// Takes an event that has not come before: what it leads to.
    pub fn take_new(&mut self, event: Incoming, thread: Option<&str>, now_ms: u64) -> (r: Vec<Effect>)
        ensures
            final(self)@ == (BridgeV {
                convs: convs_after(old(self)@.convs, event@, text::sview(thread), now_ms),
                ..old(self)@
            }),
            exists|card: Option<PendingAskV>|
                (reacted_to(event@) matches Some(m) ==> question_in(
                    old(self)@.asks.pending,
                    m,
                    card,
                )) && model::listv(r@) == #[trigger] effects_of(old(self)@.asks, event@, card),
    {
        let ghost asks = self@.asks;
        let ghost i = event@;
        match event {
            Incoming::Message { msg, media, .. } => {
                self.convs.note_message(
                    msg.conv_id.0.as_str(),
                    msg.sender.0.as_str(),
                    borrow(&msg.source_msg_id),
                    thread,
                    now_ms,
                );
                let r = one(Effect::FetchMedia { msg, media });
                assert(model::listv(r@) == effects_of(asks, i, None));
                r
            },
            Incoming::Forward { msg, meta, .. } => {
                self.convs.note_message(
                    msg.conv_id.0.as_str(),
                    msg.sender.0.as_str(),
                    borrow(&msg.source_msg_id),
                    thread,
                    now_ms,
                );
                let r = one(Effect::FetchForward { msg, meta });
                assert(model::listv(r@) == effects_of(asks, i, None));
                r
            },
            Incoming::Click { msg, deny, .. } => {
                let r = self.click(msg, deny);
                assert(model::listv(r@) == effects_of(asks, i, None));
                r
            },
            Incoming::Comment { comment_id, msg, .. } => {
                self.convs.note_comment(msg.conv_id.0.as_str(), comment_id.as_str());
                let r = one(Effect::Deliver(msg));
                assert(model::listv(r@) == effects_of(asks, i, None));
                r
            },
            Incoming::OtherComment => {
                let r = nothing();
                assert(model::listv(r@) == effects_of(asks, i, None));
                r
            },
            Incoming::Reaction { operator, message_id, reply, .. } => {
                let card = self.asks.card_in(message_id.as_str());
                let ghost found = crate::model::optv(card);
                assert(question_in(asks.pending, message_id@, found));
                let r = self.react(card, operator, message_id, reply);
                assert(model::listv(r@) == effects_of(asks, i, found));
                r
            },
            Incoming::Plain { msg, .. } => {
                let r = one(Effect::Deliver(msg));
                assert(model::listv(r@) == effects_of(asks, i, None));
                r
            },
            Incoming::BotAdded { chat_id, .. } => {
                let r = one(
                    Effect::Say { conv: conv_with(chat_id.as_str()), text: WELCOME.to_owned() },
                );
                assert(model::listv(r@) == effects_of(asks, i, None));
                r
            },
            Incoming::Unsupported { notice, conv } => {
                let r = one(Effect::Say { conv: conv.0, text: notice.to_owned() });
                assert(model::listv(r@) == effects_of(asks, i, None));
                r
            },
            Incoming::Ignored { .. } => {
                let r = nothing();
                assert(model::listv(r@) == effects_of(asks, i, None));
                r
            },
        }
    }

    /// Takes an event: what it leads to. An event that came before leads to nothing.
    pub fn take(&mut self, event: Incoming, thread: Option<&str>, now_ms: u64) -> (r: Vec<Effect>)
        ensures
            final(self)@ == bridge_after(old(self)@, event@, text::sview(thread), now_ms),
            exists|card: Option<PendingAskV>|
                (reacted_to(event@) matches Some(m) ==> question_in(
                    old(self)@.asks.pending,
                    m,
                    card,
                )) && model::listv(r@) == #[trigger] reaction_to(old(self)@, event@, card),
    {
        let ghost b = self@;
        let fresh = match event.key() {
            Some(key) => self.seen.check(key),
            None => true,
        };
        if fresh {
            let ghost i = event@;
            let r = self.take_new(event, thread, now_ms);
            proof {
                let card = choose|card: Option<PendingAskV>|
                    (reacted_to(i) matches Some(m) ==> question_in(b.asks.pending, m, card))
                        && model::listv(r@) == #[trigger] effects_of(b.asks, i, card);
                assert(model::listv(r@) == reaction_to(b, i, card));
            }
            r
        } else {
            let r = nothing();
            proof {
                let pending = b.asks.pending;
                let card = match reacted_to(event@) {
                    Some(m) => if exists|k: Seq<char>| #[trigger]
                        pending.contains_key(k) && pending[k].msg_id == m {
                        let k = choose|k: Seq<char>| #[trigger]
                            pending.contains_key(k) && pending[k].msg_id == m;
                        Some(pending[k])
                    } else {
                        None
                    },
                    None => None,
                };
                assert(model::listv(r@) == reaction_to(b, event@, card));
            }
            r
        }
    }
}

// ---------------------------------------------------------------------------
// Forwarded conversations
// ---------------------------------------------------------------------------

/// What comes of fetching a forwarded conversation.
#[derive(Debug)]
pub enum MergeForwardOutcome {
    /// The text of the message.
    Agent(String),
    /// What is said instead of handing the message on.
    Fallback(String),
}

/// What is said where a forwarded conversation could not be fetched.
pub open spec fn forward_fallback(e: Seq<char>) -> Seq<char> {
    "⚠️ 无法读取合并转发内容（"@ + e + "），请直接复制文字发送"@
}

/// What comes of fetching a forwarded conversation.
pub fn merge_forward_outcome(
    fetched: &Result<Vec<MergedForwardItem>, CoreError>,
    title: Option<&str>,
    summary: Option<&str>,
) -> (r: MergeForwardOutcome)
    ensures
        match fetched {
            Ok(items) => r matches MergeForwardOutcome::Agent(text) && exists|
                times: Seq<Option<Seq<char>>>,
            | #[trigger]
                forward::possible_times(model::listv(items@), times) && text@
                    == "（以下为用户转发的聊天记录）\n\n"@ + forward::transcript(
                    model::listv(items@),
                    times,
                    text::sview(title),
                    text::sview(summary),
                ),
            Err(e) => r matches MergeForwardOutcome::Fallback(text) && text@ == forward_fallback(
                e@,
            ),
        },
{
    match fetched {
        Ok(items) => MergeForwardOutcome::Agent(
            cat2(
                "（以下为用户转发的聊天记录）\n\n",
                render_merge_forward_transcript(items.as_slice(), title, summary).as_str(),
            ),
        ),
        Err(e) => MergeForwardOutcome::Fallback(
            cat3("⚠️ 无法读取合并转发内容（", e.message(), "），请直接复制文字发送"),
        ),
    }
}

// ---------------------------------------------------------------------------
// Laws
// ---------------------------------------------------------------------------

/// An event that comes a second time leads to nothing and changes nothing.
pub proof fn law_second_event_leads_to_nothing(
    b: BridgeV,
    i: IncomingV,
    thread: Option<Seq<char>>,
    now: u64,
    later_thread: Option<Seq<char>>,
    later: u64,
    card: Option<PendingAskV>,
)
    requires
        b.seen.len() <= DEDUP_CAPACITY,
        key_of(i) is Some,
    ensures
        ({
            let after = bridge_after(b, i, thread, now);
            &&& reaction_to(after, i, card) == Seq::<EffectV>::empty()
            &&& bridge_after(after, i, later_thread, later) == after
        }),
{
    law_no_second_time(b.seen, key_of(i)->0);
}

/// A click that is refused, or that answers a question that is not open or was put to
/// somebody else, is never handed on: the person is told instead.
pub proof fn law_refused_click_is_told(b: BridgeV, key: Seq<char>, msg: InboundV, deny: Option<Seq<char>>)
    requires
        !b.seen.contains(key),
        deny is Some || !(asks::verdict(b.asks.pending, msg.ask_req, msg.sender) is Pass),
    ensures
        ({
            let effects = reaction_to(b, (IncomingV::Click { key, msg, deny }), None);
            &&& effects.len() > 0
            &&& forall|k: int| 0 <= k < effects.len() ==> (#[trigger] effects[k]) is Say
        }),
{
}

/// A reaction to a message that shows no open question leads to nothing.
pub proof fn law_idle_reaction_ignored(
    b: BridgeV,
    key: Seq<char>,
    operator: Seq<char>,
    message_id: Seq<char>,
    reply: Seq<char>,
    card: Option<PendingAskV>,
)
    requires
        forall|k: Seq<char>| #[trigger]
            b.asks.pending.contains_key(k) ==> b.asks.pending[k].msg_id != message_id,
        question_in(b.asks.pending, message_id, card),
    ensures
        reaction_to(
            b,
            (IncomingV::Reaction { key, operator, message_id, reply }),
            card,
        ) == Seq::<EffectV>::empty(),
{
}

} // verus!
