//! What becomes of an event: how it is told from others, what it leads to, what is kept of it,
//! and how an open question and the answer to it find each other.
use vstd::prelude::*;

use crate::ask_card;
use crate::asks;
use crate::asks::{AskRenderV, AsksV, PendingAskV, PermissionReply, VerdictV};
use crate::card_action;
use crate::conv;
use crate::drain;
use crate::drain::{BridgeV, EffectV, IncomingV};
use crate::events;
use crate::events::FeishuEventV;
use crate::forward;
use crate::forward::MetaV;
use crate::json;
use crate::json::JsonV;
use crate::message;
use crate::message::PendingV;
use crate::model::InboundV;
use crate::notices;
use crate::routing;
use crate::session;
use crate::session::{CardsV, ConvsV, MsgReaction, SentLatelyV};
use crate::status;
use crate::text;

verus! {

// ---------------------------------------------------------------------------
// Telling events apart
// ---------------------------------------------------------------------------

proof fn lemma_kinds_of_events()
    ensures
        "im.message.receive_v1"@.len() == 21,
        "card.action.trigger"@.len() == 19,
        "drive.file.comment.created_v1"@.len() == 29,
        "im.message.reaction.created_v1"@.len() == 30,
        "application.url.menu_v6"@.len() == 23,
        "im.message.recalled_v1"@.len() == 22,
        "im.chat.member.bot.deleted_v1"@.len() == 29,
        "im.chat.member.bot.added_v1"@.len() == 27,
        "drive.file.comment.created_v1"@[0] == 'd',
        "im.chat.member.bot.deleted_v1"@[0] == 'i',
{
    reveal_strlit("im.message.receive_v1");
    reveal_strlit("card.action.trigger");
    reveal_strlit("drive.file.comment.created_v1");
    reveal_strlit("im.message.reaction.created_v1");
    reveal_strlit("application.url.menu_v6");
    reveal_strlit("im.message.recalled_v1");
    reveal_strlit("im.chat.member.bot.deleted_v1");
    reveal_strlit("im.chat.member.bot.added_v1");
}

/// A message is taken for a message, and a forwarded conversation for one.
pub proof fn law_messages_are_recognised(
    j: JsonV,
    evt: FeishuEventV,
    require: bool,
    bot: Option<Seq<char>>,
    now: int,
)
    requires
        events::feishu_event_of(j) == Some(evt),
    ensures
        message::message_event(evt, require, bot) matches Some((key, msg, media)) ==> drain::incoming(
            j,
            require,
            bot,
            now,
        ) == (IncomingV::Message { key, msg, media }),
        forward::forward_event(evt, require, bot) matches Some((key, msg, meta)) ==> drain::incoming(
            j,
            require,
            bot,
            now,
        ) == (IncomingV::Forward { key, msg, meta }),
{
    reveal_strlit("text");
    reveal_strlit("image");
    reveal_strlit("file");
    reveal_strlit("audio");
    reveal_strlit("post");
    reveal_strlit("merged_forward");
    assert("merged_forward"@.len() == 14 && "text"@.len() == 4 && "image"@.len() == 5);
    assert("file"@.len() == 4 && "audio"@.len() == 5 && "post"@.len() == 4);
}

/// A click that leads to something is taken for a click, with the person who clicked, what
/// they said by it, and the notice with which it is refused, if it is.
pub proof fn law_clicks_are_recognised(
    j: JsonV,
    evt: events::CardActionEventV,
    require: bool,
    bot: Option<Seq<char>>,
    now: int,
)
    requires
        events::card_action_event_of(j) == Some(evt),
    ensures
        card_action::card_action(evt, now) matches Some((key, msg, deny)) ==> drain::incoming(
            j,
            require,
            bot,
            now,
        ) == (IncomingV::Click { key, msg, deny }),
{
    lemma_kinds_of_events();
}

/// A comment for the bot is taken for one; any other comment is taken for a comment that is not
/// for the bot, and for nothing else.
pub proof fn law_comments_are_recognised(j: JsonV, require: bool, bot: Option<Seq<char>>, now: int)
    requires
        j.at("header"@).str_at("event_type"@) == Some("drive.file.comment.created_v1"@),
    ensures
        events::comment_event_of(j) is None ==> drain::incoming(j, require, bot, now)
            == IncomingV::OtherComment,
        events::comment_event_of(j) matches Some(evt) ==> match notices::comment(evt, bot) {
            Some((key, comment_id, msg)) => drain::incoming(j, require, bot, now) == (
            IncomingV::Comment { key, comment_id, msg }),
            None => drain::incoming(j, require, bot, now) == IncomingV::OtherComment,
        },
{
    lemma_kinds_of_events();
}

/// A reaction that answers, a click on the menu, a recall, and the bot's being added to or taken
/// out of a group are each taken for what they are.
pub proof fn law_notices_are_recognised(j: JsonV, require: bool, bot: Option<Seq<char>>, now: int)
    ensures
        notices::reaction(j) matches Some((key, operator, message_id, reply)) ==> drain::incoming(
            j,
            require,
            bot,
            now,
        ) == (IncomingV::Reaction { key, operator, message_id, reply }),
        events::menu_event_of(j) matches Some(evt) ==> (notices::menu_click(evt) matches Some(
            (key, msg),
        ) ==> drain::incoming(j, require, bot, now) == (IncomingV::Plain { key, msg })),
        events::recall_event_of(j) matches Some(evt) ==> (notices::recall(evt) matches Some(
            (key, msg),
        ) ==> drain::incoming(j, require, bot, now) == (IncomingV::Plain { key, msg })),
        events::bot_removed_event_of(j) matches Some(evt) ==> (notices::bot_removed(evt) matches Some(
            (key, msg),
        ) ==> drain::incoming(j, require, bot, now) == (IncomingV::Plain { key, msg })),
        notices::bot_added(j) matches Some((key, chat_id)) ==> drain::incoming(j, require, bot, now)
            == (IncomingV::BotAdded { key, chat_id }),
{
    lemma_kinds_of_events();
}

/// A message that is not handled is answered with its notice, and nothing else comes of it.
pub proof fn law_unsupported_is_recognised(
    j: JsonV,
    evt: FeishuEventV,
    require: bool,
    bot: Option<Seq<char>>,
    now: int,
)
    requires
        events::feishu_event_of(j) == Some(evt),
        message::message_event(evt, require, bot) is None,
        forward::forward_event(evt, require, bot) is None,
    ensures
        notices::unsupported_message(evt) matches Some((notice, conv)) ==> drain::incoming(
            j,
            require,
            bot,
            now,
        ) == (IncomingV::Unsupported { notice, conv }),
{
    lemma_kinds_of_events();
}

/// An event of a kind that nobody handles leads to nothing.
pub proof fn law_other_events_lead_to_nothing(
    j: JsonV,
    kind: Seq<char>,
    require: bool,
    bot: Option<Seq<char>>,
    now: int,
    b: BridgeV,
    card: Option<PendingAskV>,
)
    requires
        j.at("header"@).str_at("event_type"@) == Some(kind),
        kind != "im.message.receive_v1"@,
        kind != "card.action.trigger"@,
        kind != "drive.file.comment.created_v1"@,
        kind != "im.message.reaction.created_v1"@,
        kind != "application.url.menu_v6"@,
        kind != "im.message.recalled_v1"@,
        kind != "im.chat.member.bot.deleted_v1"@,
        kind != "im.chat.member.bot.added_v1"@,
    ensures
        drain::reaction_to(b, drain::incoming(j, require, bot, now), card).len() == 0,
        forall|thread: Option<Seq<char>>, at: u64| #[trigger]
            drain::bridge_after(b, drain::incoming(j, require, bot, now), thread, at) == b,
{
}

/// A forwarded conversation names itself for fetching, with its title and what it is about.
pub proof fn law_forward_names_itself(
    evt: FeishuEventV,
    require: bool,
    bot: Option<Seq<char>>,
    content: JsonV,
    title: Seq<char>,
    summary: Seq<char>,
)
    requires
        json::parsed_text(evt.event.message.content) == Some(content),
        content.str_at("title"@) == Some(title),
        content.str_at("summary"@) == Some(summary),
    ensures
        forward::forward_event(evt, require, bot) matches Some((key, msg, meta)) ==> {
            &&& Some(meta.message_id) == evt.event.message.message_id
            &&& meta.title == Some(title)
            &&& meta.summary == Some(summary)
            &&& msg.sender == evt.event.sender
            &&& msg.text == Some("[合并转发消息]"@)
        },
        evt.header.event_type == "im.message.receive_v1"@ && evt.event.message.message_type
            == "merged_forward"@ && evt.event.message.chat_type == "p2p"@ && evt.event.sender.len() > 0
            && evt.event.message.message_id is Some && evt.event.message.message_id->0.len() > 0
            ==> forward::forward_event(evt, require, bot) is Some,
{
    reveal_strlit("p2p");
    reveal_strlit("group");
    assert("p2p"@.len() == 3 && "group"@.len() == 5);
}

/// Bytes that hold a document are taken for what the document is, by the time on the clock.
/// Where the clock cannot be read, it is as late as can be, so that nothing with a time limit
/// is honoured. Bytes that hold none lead to nothing.
pub proof fn law_bytes_are_taken_by_the_clock(
    payload: Seq<u8>,
    j: JsonV,
    require: bool,
    bot: Option<Seq<char>>,
    at: i64,
)
    ensures
        json::parsed_json(payload) == Some(j) ==> drain::classified(payload, require, bot, Some(at))
            == drain::incoming(j, require, bot, at as int),
        json::parsed_json(payload) == Some(j) ==> drain::classified(payload, require, bot, None)
            == drain::incoming(j, require, bot, 0x7fff_ffff_ffff_ffff),
        json::parsed_json(payload) is None ==> drain::classified(payload, require, bot, Some(at)) == (
        IncomingV::Ignored { event_type: None }),
{
}

/// Whoever forwarded a conversation that could not be fetched is told why.
pub proof fn law_failed_forward_is_told(e: Seq<char>)
    ensures
        text::contains(drain::forward_fallback(e), e),
{
    let a = "⚠️ 无法读取合并转发内容（"@;
    let all = drain::forward_fallback(e);
    assert(all.subrange(a.len() as int, (a.len() + e.len()) as int) =~= e);
    assert(text::occurs_at(all, e, a.len() as int));
}

// ---------------------------------------------------------------------------
// What an event leads to
// ---------------------------------------------------------------------------

/// A new message is handed on once its media, or the conversation that it forwards, have been
/// fetched; nothing is changed in it, and nobody is told anything.
pub proof fn law_message_is_passed_on(
    b: BridgeV,
    key: Seq<char>,
    msg: InboundV,
    media: Seq<PendingV>,
    meta: MetaV,
    card: Option<PendingAskV>,
)
    requires
        !b.seen.contains(key),
    ensures
        drain::reaction_to(b, (IncomingV::Message { key, msg, media }), card) == seq![
            EffectV::FetchMedia { msg, media },
        ],
        drain::reaction_to(b, (IncomingV::Forward { key, msg, meta }), card) == seq![
            EffectV::FetchForward { msg, meta },
        ],
{
}

/// A comment, a click on the menu, a recall and the bot's removal are handed on as they are.
pub proof fn law_notice_is_passed_on(
    b: BridgeV,
    key: Seq<char>,
    comment_id: Seq<char>,
    msg: InboundV,
    card: Option<PendingAskV>,
)
    requires
        !b.seen.contains(key),
    ensures
        drain::reaction_to(b, (IncomingV::Comment { key, comment_id, msg }), card) == seq![
            EffectV::Deliver(msg),
        ],
        drain::reaction_to(b, (IncomingV::Plain { key, msg }), card) == seq![EffectV::Deliver(msg)],
        drain::reaction_to(b, IncomingV::OtherComment, card).len() == 0,
{
}

/// A click that belongs to no question, and one of the person asked for a question that is
/// open, is handed on as it is. A click for a question that is not open is answered, where it
/// was made, and so is, in a group, that of somebody else; neither is handed on.
pub proof fn law_click_is_passed_on_or_answered(
    b: BridgeV,
    key: Seq<char>,
    msg: InboundV,
    req: Seq<char>,
)
    requires
        !b.seen.contains(key),
    ensures
        asks::verdict(b.asks.pending, msg.ask_req, msg.sender) is Pass ==> drain::reaction_to(
            b,
            (IncomingV::Click { key, msg, deny: None }),
            None,
        ) == seq![EffectV::Deliver(msg)],
        msg.ask_req is None ==> drain::reaction_to(
            b,
            (IncomingV::Click { key, msg, deny: None }),
            None,
        ) == seq![EffectV::Deliver(msg)],
        msg.ask_req == Some(req) && b.asks.pending.contains_key(req) && b.asks.pending[req].sender
            == msg.sender ==> drain::reaction_to(
            b,
            (IncomingV::Click { key, msg, deny: None }),
            None,
        ) == seq![EffectV::Deliver(msg)],
        msg.ask_req == Some(req) && !b.asks.pending.contains_key(req) ==> drain::reaction_to(
            b,
            (IncomingV::Click { key, msg, deny: None }),
            None,
        ) == seq![
            EffectV::Say {
                conv: msg.conv_id,
                text: "⏳ 该询问已过期或已被处理，无需再次点击。"@,
            },
        ],
        msg.ask_req == Some(req) && b.asks.pending.contains_key(req) && b.asks.pending[req].sender.len()
            > 0 && b.asks.pending[req].sender != msg.sender && !conv::private_conv(
            b.asks.pending[req].conv_id,
        ) ==> drain::reaction_to(b, (IncomingV::Click { key, msg, deny: None }), None) == seq![
            EffectV::Say {
                conv: msg.conv_id,
                text: "⛔ 该询问由 "@ + b.asks.pending[req].sender + " 发起，仅其本人可答复。"@,
            },
        ],
{
}

/// Thumbs up or down of the person asked, on the card of an open question, is handed on as
/// their answer in the conversation of the question, and quotes the card. In a group, that of
/// anybody else is answered there and not handed on.
pub proof fn law_reaction_answers_the_question(
    b: BridgeV,
    key: Seq<char>,
    operator: Seq<char>,
    message_id: Seq<char>,
    reply: Seq<char>,
    card: PendingAskV,
)
    requires
        !b.seen.contains(key),
    ensures
        card.sender == operator || conv::private_conv(card.conv_id) ==> {
            let effects = drain::reaction_to(
                b,
                (IncomingV::Reaction { key, operator, message_id, reply }),
                Some(card),
            );
            effects.len() == 1 && (effects[0] matches EffectV::Deliver(msg) && msg.conv_id
                == card.conv_id && msg.sender == operator && msg.text == Some(reply) && msg.reply_to
                == Some(message_id) && msg.control is None)
        },
        card.sender.len() > 0 && card.sender != operator && !conv::private_conv(card.conv_id)
            ==> drain::reaction_to(
            b,
            (IncomingV::Reaction { key, operator, message_id, reply }),
            Some(card),
        ) == seq![
            EffectV::Say {
                conv: card.conv_id,
                text: "⛔ 该询问由 "@ + card.sender + " 发起，仅其本人可答复。"@,
            },
        ],
{
}

/// A group that the bot was added to is greeted, and whoever sent what is not handled is told.
pub proof fn law_group_is_greeted(
    b: BridgeV,
    key: Seq<char>,
    chat_id: Seq<char>,
    notice: Seq<char>,
    told: Seq<char>,
)
    requires
        !b.seen.contains(key),
    ensures
        ({
            let effects = drain::reaction_to(b, (IncomingV::BotAdded { key, chat_id }), None);
            effects.len() == 1 && (effects[0] matches EffectV::Say { conv, text } && conv == "feishu:"@
                + chat_id)
        }),
        drain::reaction_to(b, (IncomingV::Unsupported { notice, conv: told }), None) == seq![
            EffectV::Say { conv: told, text: notice },
        ],
{
}

/// Whoever is refused a click is told in the conversation of the card and in their own.
pub proof fn law_refusal_is_told_to_the_person(
    b: BridgeV,
    key: Seq<char>,
    msg: InboundV,
    why: Seq<char>,
)
    requires
        !b.seen.contains(key),
        msg.sender.len() > 0,
        msg.conv_id != "feishu:"@ + msg.sender,
    ensures
        drain::reaction_to(b, (IncomingV::Click { key, msg, deny: Some(why) }), None) == seq![
            EffectV::Say { conv: msg.conv_id, text: why },
            EffectV::Say { conv: "feishu:"@ + msg.sender, text: why },
        ],
{
    assert(drain::said(routing::refusal_convs(msg.conv_id, msg.sender), why) =~= seq![
        EffectV::Say { conv: msg.conv_id, text: why },
        EffectV::Say { conv: "feishu:"@ + msg.sender, text: why },
    ]);
}

// ---------------------------------------------------------------------------
// What is kept
// ---------------------------------------------------------------------------

/// Whoever spoke, or clicked, last in a conversation is known as its sender; the comment that
/// was made last on a document is the one that is answered. A refused click changes nothing.
pub proof fn law_last_speaker_is_known(
    b: BridgeV,
    key: Seq<char>,
    comment_id: Seq<char>,
    msg: InboundV,
    media: Seq<PendingV>,
    why: Seq<char>,
    thread: Option<Seq<char>>,
    now: u64,
    other: Seq<char>,
)
    requires
        !b.seen.contains(key),
        other != msg.conv_id,
    ensures
        ({
            let then = drain::bridge_after(b, (IncomingV::Message { key, msg, media }), thread, now);
            &&& session::under(then.convs.senders, msg.conv_id) == Some(msg.sender)
            &&& session::under(then.convs.senders, other) == session::under(b.convs.senders, other)
            &&& then.convs.comments == b.convs.comments && then.convs.tails == b.convs.tails
            &&& then.asks == b.asks
        }),
        ({
            let then = drain::bridge_after(b, (IncomingV::Click { key, msg, deny: None }), thread, now);
            &&& msg.sender.len() > 0 ==> session::under(then.convs.senders, msg.conv_id) == Some(
                msg.sender,
            )
            &&& session::under(then.convs.senders, other) == session::under(b.convs.senders, other)
            &&& then.asks == b.asks
        }),
        ({
            let then = drain::bridge_after(b, (IncomingV::Comment { key, comment_id, msg }), thread, now);
            &&& session::under(then.convs.comments, msg.conv_id) == Some(comment_id)
            &&& session::under(then.convs.comments, other) == session::under(b.convs.comments, other)
            &&& then.convs.senders == b.convs.senders
            &&& then.asks == b.asks
        }),
        drain::bridge_after(b, (IncomingV::Click { key, msg, deny: Some(why) }), thread, now).convs
            == b.convs,
{
}

/// Up to 4096 events are remembered; of those that came in between, none makes an event be
/// forgotten before that many others have come.
pub proof fn law_events_are_remembered(keys: Seq<Seq<char>>, old: Seq<char>, key: Seq<char>)
    requires
        keys.contains(old),
        keys.len() < 4096,
    ensures
        drain::after_event(keys, key).contains(old),
{
    let i = choose|i: int| 0 <= i < keys.len() && keys[i] == old;
    assert(keys.push(key)[i] == old);
}

/// In a plain group, what was heard last is what an answer can be attached to, and it is the
/// platform's message.
pub proof fn law_last_message_can_be_answered(
    c: ConvsV,
    chat: Seq<char>,
    sender: Seq<char>,
    id: Seq<char>,
    now: u64,
)
    requires
        text::begins(chat, "oc_"@),
        !chat.contains(':'),
        text::begins(id, "om_"@),
    ensures
        session::under(
            session::heard_from(c, "feishu:"@ + chat, sender, Some(id), None, now).last,
            "feishu:"@ + chat,
        ) == Some(id),
{
    let conv = "feishu:"@ + chat;
    conv::law_conv_round_trip(chat);
    reveal_strlit("feishu:");
    reveal_strlit("feishu:oc_");
    reveal_strlit("oc_");
    assert("feishu:oc_"@ =~= "feishu:"@ + "oc_"@);
    assert(chat.subrange(0, 3) == "oc_"@);
    assert(conv.subrange(0, 10) =~= "feishu:"@ + chat.subrange(0, 3));
}

/// A thread counts as active for as long as the window says, by the time of what was last heard
/// in it, and not at all where nothing was.
pub proof fn law_window_of_a_thread(
    active: Map<Seq<char>, u64>,
    key: Seq<char>,
    then: u64,
    now: int,
    window_secs: int,
)
    requires
        window_secs > 0,
        now >= then,
    ensures
        session::still_required(true, active.insert(key, then), Some(key), now, window_secs) <==> now
            - then >= 1000 * window_secs,
        !active.contains_key(key) ==> session::still_required(true, active, Some(key), now, window_secs),
        session::still_required(true, active, None, now, window_secs),
        !session::still_required(false, active, Some(key), now, window_secs),
{
}

/// What the bot sent is known until as many further messages as there is room for have been
/// sent.
pub proof fn law_sent_lately(s: SentLatelyV, id: Seq<char>, old: int)
    requires
        s.ids.len() <= s.room,
        s.room > 0,
        0 <= old < s.ids.len(),
    ensures
        session::with_sent(s, id).ids.last() == id,
        s.ids.len() < s.room ==> session::with_sent(s, id).ids[old] == s.ids[old],
        s.ids.len() == s.room && old > 0 ==> session::with_sent(s, id).ids[old - 1] == s.ids[old],
        session::with_sent(s, id).room == s.room,
{
}

/// How a message stands is shown by a reaction of its own, and not over one that says more.
pub proof fn law_reactions_tell_the_state(
    shown: Map<Seq<char>, Seq<char>>,
    id: Seq<char>,
    r: MsgReaction,
)
    requires
        text::begins(id, "om_"@),
    ensures
        session::emoji_of(MsgReaction::Queued) == "OneSecond"@,
        session::emoji_of(MsgReaction::Processing) == "OnIt"@,
        session::emoji_of(MsgReaction::Done) == "DONE"@,
        session::emoji_of(MsgReaction::Failed) == "CrossMark"@,
        !shown.contains_key(id) ==> session::to_react(shown, id, r),
        r != MsgReaction::Queued ==> session::to_react(shown, id, r),
        shown.contains_key(id) ==> !session::to_react(shown, id, MsgReaction::Queued),
{
}

/// A card is found again by the message that shows it, and a new one shows that its task
/// thinks. Once it is over, neither its changes nor its footer are kept, but its message is.
pub proof fn law_cards_are_kept(
    c: CardsV,
    card: Seq<char>,
    message: Seq<char>,
    other: Seq<char>,
)
    requires
        other != card,
    ensures
        session::under(session::with_message(c, card, message).messages, card) == Some(message),
        session::with_message(c, card, message).seqs == c.seqs,
        session::under(session::with_new_card(c, Some("card:"@ + card)).footers, card) == Some(
            "🧠 思考中…"@,
        ),
        session::with_new_card(c, None) == c,
        session::last_seq(session::without_card(c, card), card) == 0,
        session::last_seq(session::without_card(c, card), other) == session::last_seq(c, other),
        session::under(session::without_card(c, card).footers, card) is None,
        session::under(session::without_card(c, card).footers, other) == session::under(c.footers, other),
        session::without_card(c, card).messages == c.messages,
{
    text::lemma_after_own_prefix("card:"@, card);
}

/// The last card of a conversation is the one that was sent last; what is no message changes
/// nothing.
pub proof fn law_last_card_of_a_conversation(
    c: ConvsV,
    conv: Seq<char>,
    message: Seq<char>,
    other: Seq<char>,
)
    requires
        other != conv,
    ensures
        text::begins(message, "om_"@) ==> session::under(
            session::with_tail(c, conv, message).tails,
            conv,
        ) == Some(message),
        session::under(session::with_tail(c, conv, message).tails, other) == session::under(
            c.tails,
            other,
        ),
        !text::begins(message, "om_"@) ==> session::with_tail(c, conv, message) == c,
        session::with_tail(c, conv, message).senders == c.senders,
{
}

// ---------------------------------------------------------------------------
// Questions and their answers
// ---------------------------------------------------------------------------

/// A question that was put on a card is answered by the person asked, by a click or by a
/// reaction to the card, and by nobody else in a group; once it is closed, a click finds it
/// expired. The card that it replaces, if any, is the one that showed it before.
pub proof fn law_question_waits_for_its_answer(
    s: AsksV,
    conv: Seq<char>,
    req: Seq<char>,
    message: Seq<char>,
    render: AskRenderV,
    who: Seq<char>,
)
    requires
        render.sender.len() > 0,
        !conv::private_conv(conv),
    ensures
        ({
            let then = asks::asked(
                s,
                conv,
                req,
                crate::flows::AskStageV::Card,
                Ok(Some(message)),
                render,
            );
            &&& asks::verdict(then.pending, Some(req), render.sender) == VerdictV::Pass
            &&& who != render.sender ==> asks::verdict(then.pending, Some(req), who)
                == VerdictV::NotOwner("⛔ 该询问由 "@ + render.sender + " 发起，仅其本人可答复。"@)
            &&& asks::verdict(asks::closed_one(then, req).pending, Some(req), who)
                == VerdictV::Expired
            &&& then.slots[conv].msg_id == message
            &&& then.slots[conv].render == render
            &&& asks::closed_one(then, req).slots[conv].pending_req is None
        }),
        asks::verdict(s.pending, None, who) == VerdictV::Pass,
        asks::replaced(s, req, message) matches Some(old) ==> s.pending.contains_key(req) && old
            == s.pending[req] && old.msg_id != message,
        s.pending.contains_key(req) && s.pending[req].msg_id != message ==> asks::replaced(
            s,
            req,
            message,
        ) is Some,
{
}

/// What was chosen is told on the card of an answered question, without the words that may
/// stand before it; on that of an approval, whether it was granted.
pub proof fn law_answer_is_told_on_the_card(
    reply: PermissionReply,
    tool: Seq<char>,
    choice: Seq<char>,
)
    requires
        !text::begins(choice, "用户选择："@),
    ensures
        text::oview(reply.raw_text) == Some(choice) ==> asks::chosen(reply) == choice,
        text::oview(reply.raw_text) == Some("用户选择："@ + choice) ==> asks::chosen(reply) == choice,
        reply.raw_text is None && text::oview(reply.message) == Some("用户选择："@ + choice)
            ==> asks::chosen(reply) == choice,
        reply.raw_text is None && reply.message is None ==> asks::chosen(reply) == "已收到"@,
        tool == "AskUserQuestion"@ && text::oview(reply.raw_text) == Some(choice)
            ==> asks::answered_card(tool, reply) == json::json_string(
            ask_card::question_resolved_card(choice),
        ),
        tool != "AskUserQuestion"@ ==> asks::answered_card(tool, reply) == json::json_string(
            ask_card::resolved_card(tool, reply.allow),
        ),
{
    let p = "用户选择："@;
    reveal_strlit("用户选择：");
    reveal_strlit("已收到");
    text::lemma_after_own_prefix(p, choice);
    assert((p + choice).subrange(0, p.len() as int) =~= p);
    assert(asks::without_front(choice, p) == choice);
    assert(asks::without_front(p + choice, p) == choice) by {
        reveal_with_fuel(asks::without_front, 2);
    }
    assert("已收到"@.len() == 3 && p.len() == 5);
    assert(asks::without_front("已收到"@, p) == "已收到"@);
}

/// A question is shown as one where it can be; whatever else asks is shown as an approval. On
/// either only the person asked is named.
pub proof fn law_request_is_shown_for_what_it_is(
    r: AskRenderV,
    conv: Seq<char>,
    req: Seq<char>,
    note: Seq<char>,
    ts: int,
    v: JsonV,
    card: JsonV,
)
    requires
        r.sender.len() > 0,
    ensures
        !r.question ==> asks::ask_card(r, conv, req, note, ts) == json::json_string(
            ask_card::perm_card_with(
                r.tool_name,
                r.input,
                status::input_summary(r.input),
                conv,
                req,
                Some(r.sender),
                note,
                ts,
            ),
        ),
        r.question && json::parsed_text(r.input) == Some(v) && ask_card::question_card(
            v,
            conv,
            req,
            Some(r.sender),
            note,
            ts,
        ) == Some(card) ==> asks::ask_card(r, conv, req, note, ts) == json::json_string(card),
{
}

/// Where there are no cards, an approval is asked for in words: what is to be done, and how to
/// answer, which in a comment takes a mention of the bot.
pub proof fn law_request_in_words(conv: Seq<char>, tool: Seq<char>, input: Seq<char>)
    requires
        tool != "AskUserQuestion"@,
    ensures
        conv::comment_target_of(conv) is None ==> asks::ask_text(conv, tool, input)
            == "🔐 请求执行 "@ + tool + "："@ + status::input_summary(input)
            + "\n\n回复 y 允许，其它拒绝。"@,
        conv::comment_target_of(conv) is Some ==> asks::ask_text(conv, tool, input)
            == "🔐 请求执行 "@ + tool + "："@ + status::input_summary(input)
            + "\n\n请回复 @bot y 允许 / @bot n 拒绝。"@,
{
}

/// What an input is about is its file, else its command, else its path, its pattern, its
/// address or its query.
pub proof fn law_summary_of_an_input(input: Seq<char>, v: JsonV, said: Seq<char>)
    requires
        json::parsed_text(input) == Some(v),
        said.len() > 0,
    ensures
        v.str_at("file_path"@) == Some(said) ==> status::input_summary(input) == said,
        v.str_at("file_path"@) is None && v.str_at("command"@) == Some(said) ==> status::input_summary(
            input,
        ) == said,
        v.str_at("file_path"@) is None && v.str_at("command"@) is None && v.str_at("path"@) == Some(
            said,
        ) ==> status::input_summary(input) == said,
        v.str_at("file_path"@) is None && v.str_at("command"@) is None && v.str_at("path"@) is None
            && v.str_at("pattern"@) == Some(said) ==> status::input_summary(input) == said,
        v.str_at("file_path"@) is None && v.str_at("command"@) is None && v.str_at("path"@) is None
            && v.str_at("pattern"@) is None && v.str_at("url"@) == Some(said)
            ==> status::input_summary(input) == said,
        v.str_at("file_path"@) is None && v.str_at("command"@) is None && v.str_at("path"@) is None
            && v.str_at("pattern"@) is None && v.str_at("url"@) is None && v.str_at("query"@) == Some(
            said,
        ) ==> status::input_summary(input) == said,
{
}

/// Questions in words: every question with its options, under its number and in its order.
pub proof fn law_questions_in_words(before: Seq<JsonV>, q: JsonV, question: Seq<char>, head: Seq<char>)
    requires
        q.str_at("question"@) == Some(question),
        q.str_at("header"@) == Some(head),
        !text::blank(head),
    ensures
        ask_card::questions_written(before.push(q)) == ask_card::questions_written(before) + (
        "\n"@ + crate::digits::dec(before.len() as int + 1) + ". 【"@ + head + "】"@ + text::trim(question)
            + "\n   选项："@ + text::join(ask_card::labels(q.at("options"@).elements()), " / "@)),
{
    assert(before.push(q).drop_last() =~= before);
}

/// Stopping a conversation frees its last card of the question it showed, and leaves those of
/// other conversations as they are.
pub proof fn law_stop_frees_the_last_card(
    slots: Map<Seq<char>, asks::AskSlotV>,
    conv: Seq<char>,
    other: Seq<char>,
)
    requires
        other != conv,
    ensures
        slots.contains_key(conv) ==> asks::all_freed(slots, conv).contains_key(conv)
            && asks::all_freed(slots, conv)[conv].pending_req is None && asks::all_freed(
            slots,
            conv,
        )[conv].msg_id == slots[conv].msg_id,
        session::under(asks::all_freed(slots, conv), other) == session::under(slots, other),
        asks::all_freed(slots, conv).contains_key(conv) == slots.contains_key(conv),
{
}

/// Putting a question makes its card the last one of its conversation, and nothing else that is
/// known of conversations or events changes; a card that showed the same question before is
/// given back, to be marked as replaced.
pub proof fn law_put_question_is_the_last_card(
    b: BridgeV,
    conv: Seq<char>,
    req: Seq<char>,
    message: Seq<char>,
    render: AskRenderV,
    e: Seq<char>,
)
    requires
        text::begins(message, "om_"@),
    ensures
        ({
            let then = drain::bridge_after_ask(
                b,
                conv,
                req,
                crate::flows::AskStageV::Card,
                Ok(Some(message)),
                render,
            );
            &&& session::under(then.convs.tails, conv) == Some(message)
            &&& then.convs.senders == b.convs.senders && then.seen == b.seen
            &&& then.asks.pending.contains_key(req) && then.asks.pending[req].msg_id == message
            &&& then.asks.pending[req].conv_id == conv
            &&& then.asks.pending[req].sender == render.sender
            &&& then.asks.pending[req].tool_name == render.tool_name
        }),
        drain::bridge_after_ask(
            b,
            conv,
            req,
            crate::flows::AskStageV::Card,
            Err(e),
            render,
        ).convs == b.convs,
        drain::bridge_after_ask(
            b,
            conv,
            req,
            crate::flows::AskStageV::Card,
            Err(e),
            render,
        ).asks.pending == b.asks.pending,
        b.asks.pending.contains_key(req) && b.asks.pending[req].msg_id != message
            ==> asks::replaced_by_step(
            b.asks,
            req,
            crate::flows::AskStageV::Card,
            Ok(Some(message)),
        ) == Some(b.asks.pending[req]),
        !b.asks.pending.contains_key(req) ==> asks::replaced_by_step(
            b.asks,
            req,
            crate::flows::AskStageV::Card,
            Ok(Some(message)),
        ) is None,
        asks::replaced_by_step(b.asks, req, crate::flows::AskStageV::Card, Err(e)) is None,
{
}

/// Only a call of the tool for questions that can be shown as a card is a question.
pub proof fn law_only_questions_are_questions(tool: Seq<char>, input: Seq<char>, v: JsonV)
    ensures
        asks::shown_as_question(tool, input) ==> tool == "AskUserQuestion"@,
        json::parsed_text(input) is None ==> !asks::shown_as_question(tool, input),
        tool == "AskUserQuestion"@ && json::parsed_text(input) == Some(v) ==> (
        asks::shown_as_question(tool, input) <==> ask_card::question_card(
            v,
            Seq::empty(),
            Seq::empty(),
            None,
            Seq::empty(),
            0,
        ) is Some),
{
}

/// A reaction is looked up by the message it was made to, and nothing else is.
pub proof fn law_reactions_are_looked_up(
    key: Seq<char>,
    operator: Seq<char>,
    message_id: Seq<char>,
    reply: Seq<char>,
    msg: InboundV,
)
    ensures
        drain::reacted_to((IncomingV::Reaction { key, operator, message_id, reply })) == Some(
            message_id,
        ),
        drain::reacted_to((IncomingV::Plain { key, msg })) is None,
{
}

/// Where there are no cards, questions are put in words: all of them, where each can be, and
/// how to answer.
pub proof fn law_questions_are_put_in_words(
    conv: Seq<char>,
    input: Seq<char>,
    v: JsonV,
    qs: Seq<JsonV>,
)
    requires
        json::parsed_text(input) == Some(v),
        v.at("questions"@) == JsonV::Arr(qs),
        forall|i: int|
            0 <= i < qs.len() ==> (#[trigger] qs[i]).str_at("question"@) is Some && !text::blank(
                qs[i].str_at("question"@)->0,
            ) && qs[i].at("options"@) is Arr && ask_card::labels(qs[i].at("options"@).elements()).len()
                > 0,
    ensures
        conv::comment_target_of(conv) is None ==> asks::ask_text(conv, "AskUserQuestion"@, input)
            == "❓ "@ + ask_card::questions_written(qs) + "\n\n请"@ + ""@
            + "回复 ask:选项（多题用「；」分隔，如 ask:题一=甲；题二=乙）。"@,
        conv::comment_target_of(conv) is Some ==> asks::ask_text(conv, "AskUserQuestion"@, input)
            == "❓ "@ + ask_card::questions_written(qs) + "\n\n请"@ + "@bot "@
            + "回复 ask:选项（多题用「；」分隔，如 ask:题一=甲；题二=乙）。"@,
{
    assert forall|i: int| 0 <= i < qs.len() implies ask_card::question_writable(#[trigger] qs[i]) by {}
}

/// What is remembered of threads and of cards is dropped only where there is too much of it.
pub proof fn law_memory_has_room(
    c: ConvsV,
    cards: CardsV,
    conv: Seq<char>,
    sender: Seq<char>,
    id: Option<Seq<char>>,
    thread: Seq<char>,
    now: u64,
    other: Seq<char>,
    message: Seq<char>,
)
    requires
        other != thread,
    ensures
        c.active.dom().len() <= 512 ==> session::under(
            session::heard_from(c, conv, sender, id, Some(thread), now).active,
            other,
        ) == session::under(c.active, other),
        session::under(session::heard_from(c, conv, sender, id, Some(thread), now).active, thread)
            == Some(now),
        session::heard_from(c, conv, sender, id, None, now).active == c.active,
        cards.messages.dom().len() <= 1024 ==> session::under(
            session::with_message(cards, thread, message).messages,
            other,
        ) == session::under(cards.messages, other),
{
}

/// The message that a message in a group quotes is found for the policy on mentions; in a
/// private chat there is none.
pub proof fn law_quoted_message_is_found(j: JsonV, parent: Seq<char>)
    requires
        j.at("event"@).at("message"@).str_at("parent_id"@) == Some(parent),
        parent.len() > 0,
    ensures
        j.at("event"@).at("message"@).str_at("chat_type"@) == Some("group"@)
            ==> notices::group_reply_parent(j) == Some(parent),
        j.at("event"@).at("message"@).str_at("chat_type"@) != Some("group"@)
            ==> notices::group_reply_parent(j) is None,
{
}

/// Whatever is told from others by a key leads to nothing where that key came before: a
/// message, a forwarded conversation, a click, a comment, a reaction, a notice, and the bot's
/// being added to a group.
pub proof fn law_nothing_is_done_twice(
    b: BridgeV,
    key: Seq<char>,
    msg: InboundV,
    media: Seq<PendingV>,
    meta: MetaV,
    deny: Option<Seq<char>>,
    id: Seq<char>,
    who: Seq<char>,
    said: Seq<char>,
    card: Option<PendingAskV>,
)
    requires
        b.seen.contains(key),
    ensures
        drain::reaction_to(b, (IncomingV::Message { key, msg, media }), card).len() == 0,
        drain::reaction_to(b, (IncomingV::Forward { key, msg, meta }), card).len() == 0,
        drain::reaction_to(b, (IncomingV::Click { key, msg, deny }), card).len() == 0,
        drain::reaction_to(b, (IncomingV::Comment { key, comment_id: id, msg }), card).len() == 0,
        drain::reaction_to(
            b,
            (IncomingV::Reaction { key, operator: who, message_id: id, reply: said }),
            card,
        ).len() == 0,
        drain::reaction_to(b, (IncomingV::Plain { key, msg }), card).len() == 0,
        drain::reaction_to(b, (IncomingV::BotAdded { key, chat_id: id }), card).len() == 0,
{
}

/// Whatever is told from others by a key is remembered by it.
pub proof fn law_every_event_is_remembered(
    b: BridgeV,
    key: Seq<char>,
    msg: InboundV,
    media: Seq<PendingV>,
    meta: MetaV,
    deny: Option<Seq<char>>,
    id: Seq<char>,
    who: Seq<char>,
    said: Seq<char>,
    thread: Option<Seq<char>>,
    now: u64,
)
    requires
        b.seen.len() <= 4096,
    ensures
        drain::bridge_after(b, (IncomingV::Message { key, msg, media }), thread, now).seen.contains(key),
        drain::bridge_after(b, (IncomingV::Forward { key, msg, meta }), thread, now).seen.contains(key),
        drain::bridge_after(b, (IncomingV::Click { key, msg, deny }), thread, now).seen.contains(key),
        drain::bridge_after(
            b,
            (IncomingV::Comment { key, comment_id: id, msg }),
            thread,
            now,
        ).seen.contains(key),
        drain::bridge_after(
            b,
            (IncomingV::Reaction { key, operator: who, message_id: id, reply: said }),
            thread,
            now,
        ).seen.contains(key),
        drain::bridge_after(b, (IncomingV::Plain { key, msg }), thread, now).seen.contains(key),
        drain::bridge_after(b, (IncomingV::BotAdded { key, chat_id: id }), thread, now).seen.contains(key),
{
    drain::law_no_second_time(b.seen, key);
}

/// A question that was put to nobody in particular can be answered by anybody; one that cannot
/// be shown as a question is shown as an approval.
pub proof fn law_open_questions(
    pending: Map<Seq<char>, PendingAskV>,
    req: Seq<char>,
    who: Seq<char>,
    r: AskRenderV,
    conv: Seq<char>,
    note: Seq<char>,
    ts: int,
)
    ensures
        pending.contains_key(req) && pending[req].sender.len() == 0 ==> asks::verdict(
            pending,
            Some(req),
            who,
        ) == VerdictV::Pass,
        r.question && json::parsed_text(r.input) is None && r.sender.len() > 0 ==> asks::ask_card(
            r,
            conv,
            req,
            note,
            ts,
        ) == json::json_string(
            ask_card::perm_card_with(
                r.tool_name,
                r.input,
                status::input_summary(r.input),
                conv,
                req,
                Some(r.sender),
                note,
                ts,
            ),
        ),
{
}

/// Where as many events are remembered as there is room for, the one that came first goes, and
/// no other.
pub proof fn law_oldest_event_goes(keys: Seq<Seq<char>>, key: Seq<char>, i: int)
    requires
        keys.len() == 4096,
        0 < i < keys.len(),
        !keys.contains(key),
    ensures
        drain::after_event(keys, key).contains(keys[i]),
        drain::after_event(keys, key).last() == key,
        drain::after_event(keys, key).len() == 4096,
{
    assert(drain::after_event(keys, key)[i - 1] == keys[i]);
}

/// A task in a plain group answers the message that came last before it began: not one that
/// comes in while it runs, and not one of another conversation.
pub proof fn law_task_answers_what_started_it(
    c: ConvsV,
    chat: Seq<char>,
    sender: Seq<char>,
    id: Seq<char>,
    later: Seq<char>,
    now: u64,
    other: Seq<char>,
)
    requires
        text::begins(chat, "oc_"@),
        !chat.contains(':'),
        text::begins(id, "om_"@),
        other != "feishu:"@ + chat,
    ensures
        ({
            let conv = "feishu:"@ + chat;
            let begun = session::round_begun(
                session::heard_from(c, conv, sender, Some(id), None, now),
                conv,
            );
            &&& session::answered_in(begun, conv) == Some(id)
            &&& session::answered_in(
                session::heard_from(begun, conv, sender, Some(later), None, now),
                conv,
            ) == Some(id)
            &&& session::answered_in(begun, other) == session::answered_in(c, other)
            &&& begun.senders[conv] == sender
        }),
{
    law_last_message_can_be_answered(c, chat, sender, id, now);
    reveal_strlit("om_");
}

/// A message, and a forwarded conversation, is heard in its conversation: from its sender, with
/// its own identity, in its thread, at the time it came.
pub proof fn law_messages_are_heard(
    b: BridgeV,
    key: Seq<char>,
    msg: InboundV,
    media: Seq<PendingV>,
    meta: MetaV,
    thread: Option<Seq<char>>,
    now: u64,
)
    requires
        !b.seen.contains(key),
    ensures
        ({
            let heard = session::heard_from(
                b.convs,
                msg.conv_id,
                msg.sender,
                msg.source_msg_id,
                thread,
                now,
            );
            &&& drain::bridge_after(b, (IncomingV::Message { key, msg, media }), thread, now).convs == heard
            &&& drain::bridge_after(b, (IncomingV::Forward { key, msg, meta }), thread, now).convs == heard
            &&& session::under(heard.senders, msg.conv_id) == Some(msg.sender)
            &&& thread matches Some(t) ==> session::under(heard.active, t) == Some(now)
        }),
{
}

} // verus!
