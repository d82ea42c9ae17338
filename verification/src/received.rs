//! What the events of the platform come to: how what a document says is found in the message,
//! the answer or the notice that it leads to.
use vstd::prelude::*;

use crate::card_action;
use crate::dedup;
use crate::events;
use crate::events::{
    BotRemovedEventV, CardActionEventV, CardOperatorV, CommentEventV, CommentNodeV, FeishuEventV, MenuEventV,
    MessageMentionV, MessageV, PostContentV, PostNodeV, RecallEventV,
};
use crate::forward;
use crate::json;
use crate::json::JsonV;
use crate::message;
use crate::message::PendingV;
use crate::model::{InboundControlV, MentionV};
use crate::notices;
use crate::text;

verus! {

// ---------------------------------------------------------------------------
// Reading documents
// ---------------------------------------------------------------------------

/// A message event says what its document says: who sent it, what it holds, in which chat and
/// thread it stands, what it quotes, and whom it mentions, in order.
pub proof fn law_message_is_read(j: JsonV)
    ensures
        events::feishu_event_of(j) matches Some(e) ==> {
            let m = j.at("event"@).at("message"@);
            let listed = m.at("mentions"@).elements();
            &&& j.at("header"@).str_at("event_type"@) == Some(e.header.event_type)
            &&& j.at("header"@).str_at("event_id"@) == e.header.event_id
            &&& j.at("event"@).at("sender"@).at("sender_id"@).str_at("open_id"@) == Some(
                e.event.sender,
            )
            &&& j.at("event"@).at("chat"@).str_at("chat_id"@) == e.event.chat
            &&& m.str_at("message_type"@) == Some(e.event.message.message_type)
            &&& m.str_at("content"@) == Some(e.event.message.content)
            &&& m.str_at("chat_type"@) == Some(e.event.message.chat_type)
            &&& m.str_at("chat_id"@) == e.event.message.chat_id
            &&& m.str_at("message_id"@) == e.event.message.message_id
            &&& m.str_at("root_id"@) == e.event.message.root_id
            &&& m.str_at("parent_id"@) == e.event.message.parent_id
            &&& e.event.message.mentions.len() == listed.len()
            &&& forall|i: int|
                0 <= i < listed.len() ==> {
                    &&& (#[trigger] e.event.message.mentions[i]).key == listed[i].str_at("key"@)
                    &&& e.event.message.mentions[i].name == listed[i].str_at("name"@)
                    &&& listed[i].at("id"@).str_at("open_id"@) is Some
                        ==> e.event.message.mentions[i].who() == text::nonempty(
                        listed[i].at("id"@).str_at("open_id"@),
                    )
                    &&& listed[i].at("id"@) is Null && listed[i].str_at("open_id"@) is Some
                        ==> e.event.message.mentions[i].who() == text::nonempty(
                        listed[i].str_at("open_id"@),
                    )
                }
        },
{
    let m = j.at("event"@).at("message"@);
    if events::feishu_event_of(j) is Some {
        let e = events::feishu_event_of(j)->0;
        assert(events::message_of(m) == Some(e.event.message));
        if m.has("mentions"@) {
            let listed = m.at("mentions"@).elements();
            let read = |x: JsonV| events::mention_of(x);
            assert(events::read_all(listed, read) == Some(e.event.message.mentions));
            assert forall|i: int| 0 <= i < listed.len() implies events::mention_of(
                #[trigger] listed[i],
            ) == Some(e.event.message.mentions[i]) by {
                assert(read(listed[i]) is Some);
            }
        }
    }
}

/// A field that is missing, null or a text.
pub open spec fn free_field(j: JsonV, key: Seq<char>) -> bool {
    j.at(key) is Null || j.at(key) is Str
}

/// A document that names a kind, a sender and a message with its kind, content and kind of
/// chat is read, whatever else it leaves out.
pub proof fn law_whole_message_is_read(j: JsonV)
    requires
        j.at("header"@).str_at("event_type"@) is Some,
        free_field(j.at("header"@), "event_id"@),
        j.at("event"@).at("sender"@).at("sender_id"@).str_at("open_id"@) is Some,
        j.at("event"@).at("chat"@) is Null,
        j.at("event"@).at("message"@).str_at("message_type"@) is Some,
        j.at("event"@).at("message"@).str_at("content"@) is Some,
        j.at("event"@).at("message"@).str_at("chat_type"@) is Some,
        free_field(j.at("event"@).at("message"@), "chat_id"@),
        free_field(j.at("event"@).at("message"@), "message_id"@),
        free_field(j.at("event"@).at("message"@), "root_id"@),
        free_field(j.at("event"@).at("message"@), "parent_id"@),
        !j.at("event"@).at("message"@).has("mentions"@),
    ensures
        events::feishu_event_of(j) is Some,
{
}

/// Whose click it was is found under either of the two names that the platform uses; where
/// both are there, the flat one counts.
pub proof fn law_clicker_is_read(op: CardOperatorV, who: Seq<char>)
    requires
        who.len() > 0,
    ensures
        op.open_id == Some(who) ==> op.who() == Some(who),
        op.open_id is None && op.operator_id == Some(Some(who)) ==> op.who() == Some(who),
{
}

/// A click says what its document says.
pub proof fn law_click_is_read(j: JsonV)
    ensures
        events::card_action_event_of(j) matches Some(e) ==> {
            let op = j.at("event"@).at("operator"@);
            &&& j.at("header"@).str_at("event_type"@) == Some(e.header.event_type)
            &&& j.at("header"@).str_at("event_id"@) == e.header.event_id
            &&& e.action == j.at("event"@).at("action"@)
            &&& e.operator.open_id == op.str_at("open_id"@)
            &&& op.str_at("open_id"@) is None && op.at("operator_id"@).str_at("open_id"@) is Some
                ==> e.operator.who() == text::nonempty(op.at("operator_id"@).str_at("open_id"@))
        },
{
}

/// A rich-text message says what its document says: the title and the rows of nodes, in order.
pub proof fn law_rich_text_is_read(j: JsonV)
    ensures
        events::post_of(j) matches Some(p) ==> {
            let rows = j.at("content"@).elements();
            &&& text::or_text(j.str_at("title"@), Seq::empty()) == p.title
            &&& p.content.len() == rows.len()
            &&& forall|r: int, i: int|
                #![trigger p.content[r][i]]
                0 <= r < rows.len() && 0 <= i < rows[r].elements().len() ==> {
                    let n = rows[r].elements()[i];
                    &&& p.content[r].len() == rows[r].elements().len()
                    &&& n.str_at("tag"@) == Some(p.content[r][i].tag)
                    &&& n.str_at("text"@) == p.content[r][i].text
                    &&& n.str_at("image_key"@) == p.content[r][i].image_key
                    &&& n.str_at("href"@) == p.content[r][i].href
                    &&& n.str_at("user_id"@) == p.content[r][i].user_id
                    &&& n.str_at("user_name"@) == p.content[r][i].user_name
                }
        },
{
    if events::post_of(j) is Some {
        let p = events::post_of(j)->0;
        let rows = j.at("content"@).elements();
        let read_row = |x: JsonV| events::post_row_of(x);
        let read_node = |x: JsonV| events::post_node_of(x);
        if j.has("content"@) {
            assert(events::read_all(rows, read_row) == Some(p.content));
        }
        assert forall|r: int, i: int|
            #![trigger p.content[r][i]]
            0 <= r < rows.len() && 0 <= i < rows[r].elements().len() implies {
            let n = rows[r].elements()[i];
            &&& p.content[r].len() == rows[r].elements().len()
            &&& events::post_node_of(n) == Some(p.content[r][i])
        } by {
            assert(read_row(rows[r]) is Some);
            let row = rows[r].elements();
            assert(events::read_all(row, read_node) == Some(p.content[r]));
            assert(read_node(row[i]) is Some);
        }
    }
}

/// A comment says what its document says: which comment it is, on which document, who wrote
/// it, and the pieces of its text in order.
pub proof fn law_comment_is_read(j: JsonV)
    ensures
        events::comment_event_of(j) matches Some(e) ==> {
            let b = j.at("event"@);
            let nodes = b.at("content"@).elements();
            &&& j.at("header"@).str_at("event_type"@) == Some(e.header.event_type)
            &&& j.at("header"@).str_at("event_id"@) == e.header.event_id
            &&& text::or_text(b.str_at("comment_id"@), Seq::empty()) == e.comment_id
            &&& text::or_text(b.str_at("file_token"@), Seq::empty()) == e.file_token
            &&& b.at("sender"@).at("sender_id"@).str_at("open_id"@) == e.sender
            &&& e.content.len() == nodes.len()
            &&& forall|i: int|
                0 <= i < nodes.len() ==> {
                    &&& nodes[i].str_at("type"@) == Some((#[trigger] e.content[i]).kind)
                    &&& nodes[i].str_at("text"@) == e.content[i].text
                    &&& nodes[i].str_at("user_id"@) == e.content[i].user_id
                    &&& nodes[i].str_at("open_id"@) == e.content[i].open_id
                }
        },
{
    if events::comment_event_of(j) is Some {
        let e = events::comment_event_of(j)->0;
        let nodes = j.at("event"@).at("content"@).elements();
        let read = |x: JsonV| events::comment_node_of(x);
        if j.at("event"@).has("content"@) {
            assert(events::read_all(nodes, read) == Some(e.content));
            assert forall|i: int| 0 <= i < nodes.len() implies events::comment_node_of(
                #[trigger] nodes[i],
            ) == Some(e.content[i]) by {
                assert(read(nodes[i]) is Some);
            }
        }
    }
}

/// A menu click, a recall and the removal of the bot say what their documents say.
pub proof fn law_notices_are_read(j: JsonV)
    ensures
        events::menu_event_of(j) matches Some(e) ==> {
            &&& j.at("header"@).str_at("event_type"@) == Some(e.header.event_type)
            &&& j.at("header"@).str_at("event_id"@) == e.header.event_id
            &&& j.at("event"@).str_at("chat_id"@) == e.chat_id
            &&& j.at("event"@).at("operator"@) is Null ==> e.operator is None
            &&& j.at("event"@).at("operator"@).str_at("open_id"@) is Some ==> e.operator is Some
                && e.operator->0.open_id == j.at("event"@).at("operator"@).str_at("open_id"@)
        },
        events::recall_event_of(j) matches Some(e) ==> {
            &&& j.at("header"@).str_at("event_type"@) == Some(e.header.event_type)
            &&& j.at("header"@).str_at("event_id"@) == e.header.event_id
            &&& text::or_text(j.at("event"@).str_at("message_id"@), Seq::empty()) == e.message_id
            &&& j.at("event"@).str_at("chat_id"@) == e.chat_id
            &&& j.at("event"@).at("sender"@).at("sender_id"@).str_at("open_id"@) == e.sender
        },
        events::bot_removed_event_of(j) matches Some(e) ==> {
            &&& j.at("header"@).str_at("event_type"@) == Some(e.header.event_type)
            &&& j.at("header"@).str_at("event_id"@) == e.header.event_id
            &&& text::or_text(j.at("event"@).str_at("chat_id"@), Seq::empty()) == e.chat_id
        },
{
}

/// The bytes of an event come to what the event that they hold comes to.
pub proof fn law_bytes_come_to_their_event(
    payload: Seq<u8>,
    j: JsonV,
    evt: FeishuEventV,
    require: bool,
    bot: Option<Seq<char>>,
)
    requires
        json::parsed_json(payload) == Some(j),
        events::feishu_event_of(j) == Some(evt),
    ensures
        message::message_event_in(payload, require, bot) == message::message_event(evt, require, bot),
        forward::forward_event_in(payload, require, bot) == forward::forward_event(evt, require, bot),
        notices::unsupported_in(payload) == notices::unsupported_message(evt),
{
}

// ---------------------------------------------------------------------------
// Messages
// ---------------------------------------------------------------------------

/// Whoever sent a message is its sender, and it is known which message it is, which one it
/// quotes, and whether it mentions the bot; nothing is made up.
pub proof fn law_message_keeps_its_envelope(
    evt: FeishuEventV,
    require: bool,
    bot: Option<Seq<char>>,
)
    ensures
        message::message_event(evt, require, bot) matches Some((key, msg, media)) ==> {
            let m = evt.event.message;
            &&& evt.header.event_type == "im.message.receive_v1"@
            &&& msg.sender == evt.event.sender
            &&& msg.source_msg_id == text::nonempty(m.message_id)
            &&& msg.reply_to == text::nonempty(m.parent_id)
            &&& msg.mentioned_bot <==> m.chat_type == "group"@ && exists|i: int|
                0 <= i < m.mentions.len() && bot is Some && (#[trigger] m.mentions[i]).who() == bot
            &&& msg.media.len() == 0 && msg.media_errors.len() == 0
            &&& msg.ask_req is None && msg.control is None && msg.reply_hint is Free
            &&& evt.header.event_id matches Some(id) ==> key == id
            &&& evt.header.event_id is None && m.message_id is Some ==> key == m.message_id->0
        },
{
    let m = evt.event.message;
    if message::message_event(evt, require, bot) is Some && bot is Some {
        if message::mentions_person(m.mentions, bot->0) {
            let i = choose|i: int|
                0 <= i < m.mentions.len() && (#[trigger] m.mentions[i]).who() == Some(bot->0);
            assert(m.mentions[i].who() == bot);
        }
    }
}

/// A message belongs to the conversation it was sent in: with its sender where it is private,
/// in a thread of a group where it belongs to one, and else in its chat.
pub proof fn law_message_belongs_to_its_conversation(
    evt: FeishuEventV,
    require: bool,
    bot: Option<Seq<char>>,
    chat: Seq<char>,
    root: Seq<char>,
)
    ensures
        message::message_event(evt, require, bot) matches Some((_, msg, _)) ==> {
            let m = evt.event.message;
            let there = evt.event.chat == Some(chat) || evt.event.chat is None && m.chat_id == Some(
                chat,
            );
            &&& m.chat_type == "p2p"@ ==> msg.conv_id == "feishu:"@ + evt.event.sender
            &&& m.chat_type != "p2p"@ && there && m.root_id is None ==> msg.conv_id == "feishu:"@
                + chat
            &&& m.chat_type != "p2p"@ && there && m.root_id == Some(root) && !text::begins(root, "om_"@)
                ==> msg.conv_id == "feishu:"@ + chat
            &&& m.chat_type == "group"@ && there && m.root_id == Some(root) && text::begins(
                root,
                "om_"@,
            ) ==> msg.conv_id == "feishu:"@ + chat + ":"@ + root
        },
{
    reveal_strlit("p2p");
    reveal_strlit("group");
    assert("p2p"@.len() == 3 && "group"@.len() == 5);
}

proof fn lemma_nothing_to_write_out(said: Seq<char>, bot: Option<Seq<char>>)
    ensures
        message::cleaned(said, Seq::empty(), bot) == said,
    decreases said.len(),
{
    if said.len() > 0 {
        assert(message::mention_at(said, Seq::empty()) is None);
        lemma_nothing_to_write_out(said.drop_first(), bot);
        assert(seq![said[0]] + said.drop_first() =~= said);
    }
}

proof fn lemma_kinds_of_messages()
    ensures
        "text"@ != "image"@,
        "text"@ != "file"@,
        "text"@ != "audio"@,
        "text"@ != "post"@,
        "image"@ != "file"@,
        "image"@ != "audio"@,
        "image"@ != "post"@,
        "file"@ != "audio"@,
        "file"@ != "post"@,
        "audio"@ != "post"@,
{
    reveal_strlit("text");
    reveal_strlit("image");
    reveal_strlit("file");
    reveal_strlit("audio");
    reveal_strlit("post");
    assert("text"@[0] == 't' && "image"@[0] == 'i' && "file"@[0] == 'f');
    assert("audio"@[0] == 'a' && "post"@[0] == 'p');
}

/// Whether a message event can be answered and is heeded: a private one of somebody, or one in
/// a group where no mention is asked for.
pub open spec fn gets_through(evt: FeishuEventV, require: bool) -> bool {
    let m = evt.event.message;
    &&& evt.header.event_type == "im.message.receive_v1"@
    &&& (m.chat_type == "p2p"@ && evt.event.sender.len() > 0) || (m.chat_type == "group"@ && !require && (
    evt.event.chat is Some || m.chat_id is Some))
}

/// A text that mentions nobody is handed on word for word.
pub proof fn law_text_is_handed_on(
    evt: FeishuEventV,
    require: bool,
    bot: Option<Seq<char>>,
    content: JsonV,
    said: Seq<char>,
)
    requires
        gets_through(evt, require),
        evt.event.message.message_type == "text"@,
        evt.event.message.mentions.len() == 0,
        json::parsed_text(evt.event.message.content) == Some(content),
        content.str_at("text"@) == Some(said),
        !text::blank(said),
    ensures
        message::message_event(evt, require, bot) matches Some((_, msg, media)) && msg.text == Some(
            said,
        ) && msg.mentions.len() == 0 && media.len() == 0,
{
    assert(evt.event.message.mentions =~= Seq::empty());
    lemma_nothing_to_write_out(said, bot);
    reveal_strlit("p2p");
    reveal_strlit("group");
    assert("p2p"@.len() == 3 && "group"@.len() == 5);
}

/// What an image, a file or a voice message carries is noted for fetching: what it is, under
/// which name the platform keeps it, which message it came with, and what the sender calls it.
pub proof fn law_media_are_noted(
    evt: FeishuEventV,
    require: bool,
    bot: Option<Seq<char>>,
    content: JsonV,
    key: Seq<char>,
    id: Seq<char>,
)
    requires
        gets_through(evt, require),
        key.len() > 0,
        evt.event.message.message_id == Some(id),
        json::parsed_text(evt.event.message.content) == Some(content),
    ensures
        evt.event.message.message_type == "image"@ && content.str_at("image_key"@) == Some(key) ==> (
        message::message_event(evt, require, bot) matches Some((_, msg, media)) && msg.text is None
            && media == seq![
            PendingV { kind: "image"@, key, message_id: id, file_name: None },
        ]),
        evt.event.message.message_type == "file"@ && content.str_at("file_key"@) == Some(key)
            && free_field(content, "file_name"@) ==> (message::message_event(
            evt,
            require,
            bot,
        ) matches Some((_, msg, media)) && msg.text is None && media == seq![
            PendingV {
                kind: "file"@,
                key,
                message_id: id,
                file_name: content.str_at("file_name"@),
            },
        ]),
        evt.event.message.message_type == "audio"@ && content.str_at("file_key"@) == Some(key) ==> (
        message::message_event(evt, require, bot) matches Some((_, msg, media)) && msg.text is None
            && media == seq![
            PendingV { kind: "audio"@, key, message_id: id, file_name: None },
        ]),
{
    lemma_kinds_of_messages();
    reveal_strlit("p2p");
    reveal_strlit("group");
    assert("p2p"@.len() == 3 && "group"@.len() == 5);
}

/// In a group where a mention is asked for, one that mentions the bot will do; while it is not
/// known who the bot is, any mention will do, and none will not.
pub proof fn law_mentioned_is_heeded(evt: FeishuEventV, bot: Option<Seq<char>>, i: int)
    ensures
        0 <= i < evt.event.message.mentions.len() && (bot is None
            || evt.event.message.mentions[i].who() == bot) ==> message::message_event(
            evt,
            true,
            bot,
        ) == message::message_event(evt, false, bot),
        bot is None && evt.event.message.mentions.len() == 0 && evt.event.message.chat_type
            == "group"@ && !message::is_command(evt.event.message) ==> message::message_event(
            evt,
            true,
            bot,
        ) is None,
{
}

/// A slash command is a text that begins with a slash, whatever white space stands before it.
pub proof fn law_commands_begin_with_a_slash(m: MessageV, content: JsonV, said: Seq<char>)
    requires
        m.message_type == "text"@,
        json::parsed_text(m.content) == Some(content),
        content.str_at("text"@) == Some(said),
        said.len() > 0,
        !text::is_ws(said[0]),
    ensures
        message::is_command(m) <==> said[0] == '/',
{
    reveal_strlit("/");
    assert("/"@ =~= seq!['/']);
    assert(said.subrange(0, 1) =~= seq![said[0]]);
    if message::is_command(m) {
        assert(said.subrange(0, 1)[0] == "/"@[0]);
    }
}

/// The bot's own mention is left out of the text with the blank behind it; that of somebody
/// else stands there by name.
pub proof fn law_mentions_in_text(
    m: MessageMentionV,
    name: Seq<char>,
    bot: Seq<char>,
    said: Seq<char>,
)
    requires
        m.key is Some,
        message::is_placeholder(m.key->0),
        forall|k: int| 0 <= k < said.len() ==> #[trigger] said[k] != '@',
    ensures
        m.who() == Some(bot) ==> message::cleaned(m.key->0 + (" "@ + said), seq![m], Some(bot)) == said,
        m.who() is Some && m.who() != Some(bot) && m.name == Some(name) && !text::blank(name)
            ==> message::cleaned(m.key->0 + (" "@ + said), seq![m], Some(bot)) == "@"@ + name + (" "@
            + said),
{
    let key = m.key->0;
    let mentions = seq![m];
    let rest = " "@ + said;
    let s = key + rest;
    reveal_strlit(" ");
    reveal_strlit("@_user_");
    if m.who() is Some {
        assert(s.subrange(0, key.len() as int) =~= key);
        assert(message::opens_with(s, key));
        assert(message::keys_tell_apart(mentions));
        message::law_own_mention_only(s, mentions, 0, Some(bot));
        let empty = Seq::<char>::empty();
        assert(message::cleaned(empty, mentions, Some(bot)) == empty);
        if m.who() == Some(bot) {
            assert(s[key.len() as int] == ' ');
            assert(s.subrange((key.len() + 1) as int, s.len() as int) =~= said);
            message::law_plain_words_kept(said, empty, mentions, Some(bot));
            assert(said + empty =~= said);
            assert(empty + said =~= said);
        } else {
            assert(s.subrange(key.len() as int, s.len() as int) =~= rest);
            assert forall|k: int| 0 <= k < rest.len() implies #[trigger] rest[k] != '@' by {
                if k > 0 {
                    assert(rest[k] == said[k - 1]);
                }
            }
            message::law_plain_words_kept(rest, empty, mentions, Some(bot));
            assert(rest + empty =~= rest);
        }
    }
}

/// Whoever is mentioned is noted, in order, and the bot is not.
pub proof fn law_people_are_noted(
    before: Seq<MessageMentionV>,
    m: MessageMentionV,
    bot: Option<Seq<char>>,
    who: Seq<char>,
    name: Seq<char>,
)
    requires
        m.key is Some,
        m.key->0.len() > 0,
        m.who() == Some(who),
        m.name == Some(name),
        !text::blank(name),
    ensures
        bot == Some(who) ==> message::people(before.push(m), bot) == message::people(before, bot),
        bot != Some(who) ==> message::people(before.push(m), bot) == message::people(before, bot).push(
            MentionV { user_id: who, name },
        ),
        message::people(Seq::empty(), bot).len() == 0,
{
    assert(before.push(m).drop_last() =~= before);
    assert(before.push(m).last() == m);
    assert(message::people(before, bot) + seq![MentionV { user_id: who, name }] =~= message::people(
        before,
        bot,
    ).push(MentionV { user_id: who, name }));
    assert(message::people(before, bot) + Seq::<MentionV>::empty() =~= message::people(before, bot));
}

// ---------------------------------------------------------------------------
// Rich text
// ---------------------------------------------------------------------------

/// What each node of a rich-text message adds to it: its words, a picture to fetch, a person,
/// a link, and for what cannot be shown a word that says what it was.
pub proof fn law_nodes_say_what_they_hold(
    n: PostNodeV,
    bot: Option<Seq<char>>,
    id: Seq<char>,
    t: Seq<char>,
    u: Seq<char>,
)
    requires
        !text::blank(t),
        t.len() > 0,
        u.len() > 0,
    ensures
        n.tag == "text"@ && n.text == Some(t) ==> message::node_text(n, bot) == seq![t]
            && message::node_image(n, id).len() == 0 && message::node_mention(n, bot).len() == 0,
        n.tag == "img"@ && n.image_key == Some(t) ==> message::node_image(n, id) == seq![
            PendingV { kind: "image"@, key: t, message_id: id, file_name: None },
        ] && message::node_text(n, bot).len() == 0,
        n.tag == "at"@ && n.user_id == Some(u) && n.user_name == Some(t) && bot != Some(u)
            ==> message::node_text(n, bot) == seq!["@"@ + t] && message::node_mention(n, bot) == seq![
            MentionV { user_id: u, name: t },
        ],
        n.tag == "at"@ && n.user_id == Some(u) && bot == Some(u) ==> message::node_text(n, bot).len()
            == 0 && message::node_mention(n, bot).len() == 0,
        n.tag == "a"@ && n.href == Some(u) && n.text == Some(t) && t != u ==> message::node_text(
            n,
            bot,
        ) == seq!["["@ + t + "]("@ + u + ")"@],
        n.tag == "a"@ && n.href == Some(u) && (n.text is None || n.text == Some(u))
            ==> message::node_text(n, bot) == seq![u],
        n.tag == "a"@ && n.href is None && n.text == Some(t) ==> message::node_text(n, bot) == seq![t],
        n.tag == "media"@ ==> message::node_text(n, bot) == seq!["[视频]"@],
        n.tag == "emotion"@ ==> message::node_text(n, bot) == seq!["[表情]"@],
{
    reveal_strlit("text");
    reveal_strlit("img");
    reveal_strlit("at");
    reveal_strlit("a");
    reveal_strlit("media");
    reveal_strlit("emotion");
    assert("text"@.len() == 4 && "img"@.len() == 3 && "at"@.len() == 2 && "a"@.len() == 1);
    assert("media"@.len() == 5 && "emotion"@.len() == 7);
}

/// What the rows of a rich-text message add stands there in their order, behind the title.
pub proof fn law_rich_text_keeps_the_order(
    title: Seq<char>,
    rows: Seq<Seq<PostNodeV>>,
    nodes: Seq<PostNodeV>,
    n: PostNodeV,
    bot: Option<Seq<char>>,
    id: Seq<char>,
)
    ensures
        message::post_texts(PostContentV { title, content: rows.push(nodes.push(n)) }, bot)
            == message::post_texts(PostContentV { title, content: rows.push(nodes) }, bot)
            + message::node_text(n, bot),
        message::post_texts(PostContentV { title, content: rows.push(Seq::empty()) }, bot)
            == message::post_texts(PostContentV { title, content: rows }, bot),
        message::post_texts(PostContentV { title, content: Seq::empty() }, bot) == (if text::blank(
            title,
        ) {
            Seq::empty()
        } else {
            seq![title]
        }),
        message::post_content(
            PostContentV { title, content: rows.push(nodes.push(n)) },
            bot,
            id,
        ).1 == message::post_content(PostContentV { title, content: rows.push(nodes) }, bot, id).1
            + message::node_image(n, id),
        message::post_content(
            PostContentV { title, content: rows.push(nodes.push(n)) },
            bot,
            id,
        ).2 == message::post_content(PostContentV { title, content: rows.push(nodes) }, bot, id).2
            + message::node_mention(n, bot),
{
    lemma_gather_grows(rows, nodes, n, |x: PostNodeV| message::node_text(x, bot));
    lemma_gather_grows(rows, nodes, n, |x: PostNodeV| message::node_image(x, id));
    lemma_gather_grows(rows, nodes, n, |x: PostNodeV| message::node_mention(x, bot));
    let top = if text::blank(title) {
        Seq::empty()
    } else {
        seq![title]
    };
    let f = |x: PostNodeV| message::node_text(x, bot);
    assert(top + (message::gather_rows(rows.push(nodes), f) + message::node_text(n, bot)) =~= (top
        + message::gather_rows(rows.push(nodes), f)) + message::node_text(n, bot));
    assert(top + Seq::empty() =~= top);
}

proof fn lemma_gather_grows<T>(
    rows: Seq<Seq<PostNodeV>>,
    nodes: Seq<PostNodeV>,
    n: PostNodeV,
    f: spec_fn(PostNodeV) -> Seq<T>,
)
    ensures
        message::gather_rows(rows.push(nodes.push(n)), f) == message::gather_rows(rows.push(nodes), f)
            + f(n),
        message::gather_rows(rows.push(Seq::empty()), f) == message::gather_rows(rows, f),
        message::gather_rows(Seq::empty(), f).len() == 0,
{
    let longer = rows.push(nodes.push(n));
    let shorter = rows.push(nodes);
    assert(longer.drop_last() =~= rows && longer.last() == nodes.push(n));
    assert(shorter.drop_last() =~= rows && shorter.last() == nodes);
    assert(nodes.push(n).drop_last() =~= nodes && nodes.push(n).last() == n);
    assert(message::gather_rows(rows, f) + (message::gather(nodes, f) + f(n)) =~= (
    message::gather_rows(rows, f) + message::gather(nodes, f)) + f(n));
    let ended = rows.push(Seq::empty());
    assert(ended.drop_last() =~= rows && ended.last() == Seq::<PostNodeV>::empty());
    assert(message::gather_rows(rows, f) + Seq::<T>::empty() =~= message::gather_rows(rows, f));
}

/// A rich-text message is handed on with its pieces of text on lines of their own, and its
/// pictures to fetch.
pub proof fn law_rich_text_is_handed_on(
    evt: FeishuEventV,
    require: bool,
    bot: Option<Seq<char>>,
    content: JsonV,
    p: PostContentV,
    id: Seq<char>,
)
    requires
        gets_through(evt, require),
        evt.event.message.message_type == "post"@,
        evt.event.message.message_id == Some(id),
        json::parsed_text(evt.event.message.content) == Some(content),
        events::post_of(content) == Some(p),
        message::post_texts(p, bot).len() > 0,
        !text::blank(text::join(message::post_texts(p, bot), "\n"@)),
    ensures
        message::message_event(evt, require, bot) matches Some((_, msg, media)) && msg.text == Some(
            text::join(message::post_texts(p, bot), "\n"@),
        ) && media == message::post_content(p, bot, id).1 && msg.mentions == message::post_content(
            p,
            bot,
            id,
        ).2,
{
    lemma_kinds_of_messages();
    reveal_strlit("p2p");
    reveal_strlit("group");
    assert("p2p"@.len() == 3 && "group"@.len() == 5);
}

// ---------------------------------------------------------------------------
// Notices
// ---------------------------------------------------------------------------

/// Thumbs up on a message stands for yes and thumbs down for no, from whoever reacted, to the
/// message that they reacted to; no other symbol answers anything.
pub proof fn law_thumbs_answer(j: JsonV, who: Seq<char>, id: Seq<char>, symbol: Seq<char>)
    requires
        j.at("header"@).str_at("event_type"@) == Some("im.message.reaction.created_v1"@),
        j.at("event"@).at("user_id"@).str_at("open_id"@) == Some(who),
        who.len() > 0,
        j.at("event"@).str_at("message_id"@) == Some(id),
        text::begins(id, "om_"@),
        j.at("event"@).at("reaction_type"@).str_at("emoji_type"@) == Some(symbol),
    ensures
        symbol == "THUMBSUP"@ ==> (notices::reaction(j) matches Some((_, by, on, said)) && by == who
            && on == id && said == "y"@),
        symbol == "THUMBSDOWN"@ ==> (notices::reaction(j) matches Some((_, by, on, said)) && by
            == who && on == id && said == "n"@),
        symbol != "THUMBSUP"@ && symbol != "THUMBSDOWN"@ ==> notices::reaction(j) is None,
        notices::reaction(j) matches Some((key, _, _, _)) ==> (j.at("header"@).str_at(
            "event_id"@,
        ) matches Some(e) ==> key == e),
{
    reveal_strlit("THUMBSUP");
    reveal_strlit("THUMBSDOWN");
    assert("THUMBSUP"@.len() == 8 && "THUMBSDOWN"@.len() == 10);
}

/// Only a new reaction is one.
pub proof fn law_only_new_reactions_answer(j: JsonV)
    requires
        j.at("header"@).str_at("event_type"@) != Some("im.message.reaction.created_v1"@),
    ensures
        notices::reaction(j) is None,
{
}

/// A click on the menu asks for help: in the chat it was made in, else with whoever made it.
pub proof fn law_menu_asks_for_help(evt: MenuEventV, who: Seq<char>)
    requires
        evt.operator is Some,
        evt.operator->0.who() == Some(who),
        evt.header.event_type == "application.url.menu_v6"@,
    ensures
        notices::menu_click(evt) matches Some((key, msg)) && msg.text == Some("/help"@) && msg.sender
            == who && (evt.header.event_id matches Some(id) ==> key == id) && (
        evt.chat_id matches Some(chat) ==> chat.len() > 0 ==> msg.conv_id == "feishu:"@ + chat) && (
        evt.chat_id is None ==> msg.conv_id == "feishu:"@ + who),
{
}

/// The bot's being added to a group is noticed for that group.
pub proof fn law_added_to_a_group(j: JsonV, chat: Seq<char>)
    requires
        j.at("event"@).str_at("chat_id"@) == Some(chat),
        text::begins(chat, "oc_"@),
    ensures
        j.at("header"@).str_at("event_type"@) == Some("im.chat.member.bot.added_v1"@) ==> (
        notices::bot_added(j) matches Some((_, at)) && at == chat),
        j.at("header"@).str_at("event_type"@) != Some("im.chat.member.bot.added_v1"@)
            ==> notices::bot_added(j) is None,
{
}

/// The bot's being taken out of a group is noticed for that group, and is no message.
pub proof fn law_taken_out_of_a_group(evt: BotRemovedEventV)
    requires
        evt.header.event_type == "im.chat.member.bot.deleted_v1"@,
        evt.chat_id.len() > 0,
    ensures
        notices::bot_removed(evt) matches Some((_, msg)) && msg.conv_id == "feishu:"@ + evt.chat_id
            && msg.control == Some(InboundControlV::BotRemovedFromChat) && msg.text is None,
{
}

/// A recall names the message that was taken back. It is looked for in the conversation of its
/// chat and in that with its sender, and whoever is told of it is told in the first of them.
pub proof fn law_recall_is_followed(evt: RecallEventV, chat: Seq<char>, sender: Seq<char>)
    requires
        evt.header.event_type == "im.message.recalled_v1"@,
        evt.message_id.len() > 0,
        chat.len() > 0,
        sender.len() > 0,
        chat != sender,
    ensures
        notices::recall(evt) matches Some((_, msg)) && msg.source_msg_id == Some(evt.message_id)
            && msg.text is None && msg.control is Some && (msg.control->0 matches InboundControlV::MessageRecalled {
            notify_conv,
            probe_convs,
        } && (evt.chat_id == Some(chat) && evt.sender == Some(sender) ==> msg.conv_id == "feishu:"@ + chat
            && notify_conv == Some("feishu:"@ + chat) && probe_convs == seq![
            "feishu:"@ + chat,
            "feishu:"@ + sender,
        ] && msg.sender == sender) && (evt.chat_id is None && evt.sender == Some(sender)
            ==> msg.conv_id == "feishu:"@ + sender && notify_conv == Some("feishu:"@ + sender)
            && probe_convs == seq!["feishu:"@ + sender]) && (evt.chat_id == Some(chat) && evt.sender is None
            ==> msg.conv_id == "feishu:"@ + chat && notify_conv == Some("feishu:"@ + chat)
            && probe_convs == seq!["feishu:"@ + chat]) && (evt.chat_id is None && evt.sender is None
            ==> notify_conv is None && probe_convs.len() == 0)),
{
    let a = "feishu:"@ + chat;
    let b = "feishu:"@ + sender;
    if a == b {
        let n = "feishu:"@.len() as int;
        assert(a.subrange(n, a.len() as int) =~= chat);
        assert(b.subrange(n, b.len() as int) =~= sender);
    }
}

/// A comment that mentions the bot is handed on for its document, from whoever wrote it, with
/// its pieces of text on lines of their own.
pub proof fn law_comment_is_handed_on(
    evt: CommentEventV,
    bot: Option<Seq<char>>,
    sender: Seq<char>,
    i: int,
)
    requires
        evt.header.event_type == "drive.file.comment.created_v1"@,
        evt.file_token.len() > 0,
        evt.comment_id.len() > 0,
        evt.sender == Some(sender),
        sender.len() > 0,
        bot != Some(sender),
        0 <= i < evt.content.len(),
        evt.content[i].kind == "at"@,
        evt.content[i].user_id is Some && evt.content[i].user_id->0.len() > 0,
        bot is None || evt.content[i].user_id == bot,
        notices::comment_texts(evt.content).len() > 0,
    ensures
        notices::comment(evt, bot) matches Some((key, comment, msg)) && comment == evt.comment_id
            && msg.conv_id == "feishu:comment:"@ + evt.file_token && msg.sender == sender && msg.text
            == Some(text::join(notices::comment_texts(evt.content), "\n"@)) && (
        evt.header.event_id matches Some(id) ==> key == id),
{
    let n = evt.content[i];
    assert(notices::node_at(n) == n.user_id);
}

/// A comment that mentions somebody else, or nobody, is left alone.
pub proof fn law_other_comments_are_left_alone(evt: CommentEventV, bot: Seq<char>)
    requires
        forall|i: int|
            0 <= i < evt.content.len() ==> (#[trigger] evt.content[i]).user_id != Some(bot)
                && evt.content[i].open_id != Some(bot),
    ensures
        notices::comment(evt, Some(bot)) is None,
{
    assert forall|i: int| 0 <= i < evt.content.len() implies notices::node_at(
        #[trigger] evt.content[i],
    ) != Some(bot) by {}
}

/// The pieces of text of a comment are told in order; its mentions are not.
pub proof fn law_comment_texts_in_order(before: Seq<CommentNodeV>, n: CommentNodeV, t: Seq<char>)
    requires
        n.text == Some(t),
        !text::blank(t),
    ensures
        n.kind == "text"@ ==> notices::comment_texts(before.push(n)) == notices::comment_texts(
            before,
        ).push(t),
        n.kind != "text"@ ==> notices::comment_texts(before.push(n)) == notices::comment_texts(before),
        notices::comment_texts(Seq::empty()).len() == 0,
{
    assert(before.push(n).drop_last() =~= before);
    assert(before.push(n).last() == n);
}

/// Whoever sends what is not handled in private is told so; in a group only where somebody was
/// mentioned. What is handled is not refused.
pub proof fn law_unsupported_is_told(evt: FeishuEventV, chat: Seq<char>)
    requires
        evt.header.event_type == "im.message.receive_v1"@,
    ensures
        evt.event.message.chat_type == "p2p"@ && evt.event.sender.len() > 0 && notices::unsupported_notice(
            evt.event.message.message_type,
        ) is Some ==> (notices::unsupported_message(evt) matches Some((_, to)) && to == "feishu:"@
            + evt.event.sender),
        evt.event.message.chat_type == "group"@ && evt.event.message.mentions.len() > 0
            && evt.event.message.chat_id == Some(chat) && evt.event.chat is None
            && notices::unsupported_notice(evt.event.message.message_type) is Some ==> (
        notices::unsupported_message(evt) matches Some((_, to)) && to == "feishu:"@ + chat),
        evt.event.message.chat_type == "group"@ && evt.event.message.mentions.len() == 0
            ==> notices::unsupported_message(evt) is None,
        notices::unsupported_notice("sticker"@) is Some,
        notices::unsupported_notice("media"@) is Some,
        notices::unsupported_notice("video"@) is Some,
        notices::unsupported_notice("share_chat"@) is Some,
        notices::unsupported_notice("share_user"@) is Some,
        notices::unsupported_notice("text"@) is None,
        notices::unsupported_notice("image"@) is None,
        notices::unsupported_notice("file"@) is None,
        notices::unsupported_notice("audio"@) is None,
        notices::unsupported_notice("post"@) is None,
{
    reveal_strlit("p2p");
    reveal_strlit("group");
    assert("p2p"@.len() == 3 && "group"@.len() == 5);
    reveal_strlit("share_chat");
    reveal_strlit("share_user");
    reveal_strlit("merged_forward");
    reveal_strlit("sticker");
    reveal_strlit("media");
    reveal_strlit("video");
    reveal_strlit("text");
    reveal_strlit("image");
    reveal_strlit("file");
    reveal_strlit("audio");
    reveal_strlit("post");
    assert("text"@[0] == 't' && "image"@[0] == 'i' && "file"@[0] == 'f' && "audio"@[0] == 'a');
    assert("post"@[0] == 'p' && "media"@[0] == 'm' && "video"@[0] == 'v' && "sticker"@[0] == 's');
    assert("share_chat"@[0] == 's' && "share_user"@[0] == 's' && "merged_forward"@[0] == 'm');
}

/// The thread of a message in a group is that of the message it started from.
pub proof fn law_thread_of_a_message(j: JsonV, chat: Seq<char>, root: Seq<char>)
    requires
        j.at("event"@).at("message"@).str_at("chat_id"@) == Some(chat),
        chat.len() > 0,
        j.at("event"@).at("message"@).str_at("root_id"@) == Some(root),
    ensures
        j.at("header"@).str_at("event_type"@) == Some("im.message.receive_v1"@) && j.at(
            "event"@,
        ).at("message"@).str_at("chat_type"@) == Some("group"@) && text::begins(root, "om_"@)
            ==> notices::thread_key(j) == Some("feishu:"@ + chat + ":"@ + root),
        j.at("event"@).at("message"@).str_at("chat_type"@) != Some("group"@) ==> notices::thread_key(
            j,
        ) is None,
        !text::begins(root, "om_"@) ==> notices::thread_key(j) is None,
{
}

// ---------------------------------------------------------------------------
// Keys
// ---------------------------------------------------------------------------

/// An event without an identity is told from others by what it is about: a message by where it
/// came from and what it holds, a reaction by who made it, to what, and which it was, and a
/// notice by what it is about.
pub proof fn law_keys_without_identity(
    evt: FeishuEventV,
    require: bool,
    bot: Option<Seq<char>>,
    removed: BotRemovedEventV,
    recalled: RecallEventV,
    j: JsonV,
)
    ensures
        evt.header.event_id is None && evt.event.message.message_id is None && evt.event.message.chat_type
            == "p2p"@ ==> (message::message_event(evt, require, bot) matches Some((key, msg, media))
            ==> (text::nonblank(msg.text) matches Some(t) ==> key == evt.event.sender + ":"@
            + dedup::hash_text(t)) && (msg.text is None && media.len() > 0 ==> key == evt.event.sender
            + ":"@ + media[0].key)),
        removed.header.event_id is None ==> (notices::bot_removed(removed) matches Some((key, _))
            ==> key == "bot_removed:"@ + removed.chat_id),
        recalled.header.event_id is None ==> (notices::recall(recalled) matches Some((key, _))
            ==> key == "recall:"@ + recalled.message_id),
        j.at("header"@).str_at("event_id"@) is None ==> (notices::bot_added(j) matches Some((key, at))
            ==> key == "bot-added:"@ + at),
        j.at("header"@).str_at("event_id"@) is None ==> (notices::reaction(j) matches Some(
            (key, who, on, said),
        ) ==> text::begins(key, "reaction:"@ + who + ":"@ + on + ":"@)),
{
    if j.at("header"@).str_at("event_id"@) is None && notices::reaction(j) is Some {
        let (key, who, on, said) = notices::reaction(j)->0;
        let front = "reaction:"@ + who + ":"@ + on + ":"@;
        assert(key.subrange(0, front.len() as int) =~= front);
    }
}

/// A click without an identity is told from others by who made it, where, and what they said
/// by it; a refused one by where it was made, and on what.
pub proof fn law_click_keys_without_identity(evt: CardActionEventV, now: int)
    requires
        evt.header.event_id is None,
    ensures
        card_action::card_action(evt, now) matches Some((key, msg, deny)) ==> {
            &&& msg.text matches Some(t) ==> key == "card_action:"@ + msg.sender + ":"@ + msg.conv_id + ":"@
                + dedup::hash_text(t)
            &&& msg.text is None ==> key == "card_action:deny:"@ + msg.conv_id + ":"@ + dedup::hash_text(
                json::json_string(evt.action),
            )
        },
{
}

/// The bytes of a click come to what the click comes to.
pub proof fn law_bytes_come_to_their_click(
    payload: Seq<u8>,
    j: JsonV,
    evt: CardActionEventV,
    now: int,
)
    requires
        json::parsed_json(payload) == Some(j),
        events::card_action_event_of(j) == Some(evt),
    ensures
        card_action::card_action_in(payload, now) == card_action::card_action(evt, now),
{
}

/// What is not handled is named in the notice.
pub proof fn law_unsupported_is_named()
    ensures
        notices::unsupported_notice("share_chat"@) == Some(
            "🗂 暂不支持群聊分享卡片，请直接发送文字。"@,
        ),
        notices::unsupported_notice("share_user"@) == Some(
            "👤 暂不支持用户名片分享，请直接发送文字。"@,
        ),
        notices::unsupported_notice("sticker"@) == Some(
            "📦 暂不支持合并转发/表情包/视频消息，请直接发文字或截图。"@,
        ),
        notices::unsupported_notice("merged_forward"@) == notices::unsupported_notice("sticker"@),
        notices::unsupported_notice("media"@) == notices::unsupported_notice("sticker"@),
        notices::unsupported_notice("video"@) == notices::unsupported_notice("sticker"@),
{
    reveal_strlit("share_chat");
    reveal_strlit("share_user");
    reveal_strlit("merged_forward");
    reveal_strlit("sticker");
    reveal_strlit("media");
    reveal_strlit("video");
    assert("share_chat"@.len() == 10 && "share_user"@.len() == 10 && "merged_forward"@.len() == 14);
    assert("share_chat"@[6] == 'c' && "share_user"@[6] == 'u');
    assert("sticker"@.len() == 7 && "media"@.len() == 5 && "video"@.len() == 5);
}

// ---------------------------------------------------------------------------
// Other places and names
// ---------------------------------------------------------------------------

/// A reaction is understood in the older form of the event as well: who reacted, to what, and
/// with which symbol.
pub proof fn law_older_reactions_are_understood(j: JsonV, who: Seq<char>, id: Seq<char>)
    requires
        j.at("header"@).str_at("event_type"@) == Some("im.message.reaction.created_v1"@),
        j.at("event"@).at("user_id"@) is Null,
        j.at("event"@).at("operator_id"@).str_at("open_id"@) == Some(who) || (j.at("event"@).at(
            "operator_id"@,
        ) is Null && j.at("event"@).at("operator"@).at("operator_id"@).str_at("open_id"@) == Some(
            who,
        )),
        who.len() > 0,
        j.at("event"@).at("message_id"@) is Null,
        j.at("event"@).at("reaction"@).str_at("message_id"@) == Some(id),
        text::begins(id, "om_"@),
        j.at("event"@).at("reaction_type"@) is Null,
    ensures
        j.at("event"@).at("reaction"@).str_at("emoji_key"@) == Some("THUMBSUP"@) ==> (notices::reaction(
            j,
        ) matches Some((_, by, on, said)) && by == who && on == id && said == "y"@),
        j.at("event"@).at("reaction"@).str_at("emoji_key"@) == Some("THUMBSDOWN"@) ==> (
        notices::reaction(j) matches Some((_, by, on, said)) && by == who && on == id && said == "n"@),
{
    reveal_strlit("THUMBSUP");
    reveal_strlit("THUMBSDOWN");
    assert("THUMBSUP"@.len() == 8 && "THUMBSDOWN"@.len() == 10);
}

/// A group that is named only inside the event's chat is found there; what is no group is none.
pub proof fn law_added_group_is_found(j: JsonV, chat: Seq<char>)
    requires
        j.at("header"@).str_at("event_type"@) == Some("im.chat.member.bot.added_v1"@),
        j.at("event"@).at("chat_id"@) is Null,
        j.at("event"@).at("chat"@).str_at("chat_id"@) == Some(chat),
    ensures
        text::begins(chat, "oc_"@) ==> (notices::bot_added(j) matches Some((_, at)) && at == chat),
        !text::begins(chat, "oc_"@) ==> notices::bot_added(j) is None,
{
}

/// Whoever is mentioned in a comment is known by either of two names; the first counts.
pub proof fn law_mentions_in_comments(n: CommentNodeV, who: Seq<char>)
    requires
        who.len() > 0,
    ensures
        n.kind == "at"@ && n.user_id == Some(who) ==> notices::node_at(n) == Some(who),
        n.kind == "at"@ && n.user_id is None && n.open_id == Some(who) ==> notices::node_at(n) == Some(
            who,
        ),
        n.kind != "at"@ ==> notices::node_at(n) is None,
{
}

/// A click, a comment, a menu click, a recall and a removal are read where they say the least
/// that they have to.
pub proof fn law_whole_notices_are_read(j: JsonV)
    requires
        j.at("header"@).str_at("event_type"@) is Some,
        free_field(j.at("header"@), "event_id"@),
        j.at("event"@) is Obj,
    ensures
        j.at("event"@).at("operator"@) is Obj && j.at("event"@).at("operator"@).str_at("open_id"@) is Some
            && j.at("event"@).at("operator"@).at("operator_id"@) is Null && j.at("event"@).has("action"@)
            ==> events::card_action_event_of(j) is Some,
        j.at("event"@).at("operator"@) is Null && free_field(j.at("event"@), "chat_id"@)
            ==> events::menu_event_of(j) is Some,
        j.at("event"@).str_at("message_id"@) is Some && free_field(j.at("event"@), "chat_id"@) && j.at(
            "event"@,
        ).at("sender"@) is Null ==> events::recall_event_of(j) is Some,
        j.at("event"@).str_at("chat_id"@) is Some ==> events::bot_removed_event_of(j) is Some,
        j.at("event"@).str_at("comment_id"@) is Some && j.at("event"@).str_at("file_token"@) is Some
            && !j.at("event"@).has("content"@) && j.at("event"@).at("sender"@) is Null
            ==> events::comment_event_of(j) is Some,
{
}

/// A text is handed on with its mentions written out, and with the people who are mentioned,
/// whoever they are.
pub proof fn law_text_with_mentions_is_handed_on(
    evt: FeishuEventV,
    require: bool,
    bot: Option<Seq<char>>,
    content: JsonV,
    said: Seq<char>,
)
    requires
        gets_through(evt, require),
        evt.event.message.message_type == "text"@,
        json::parsed_text(evt.event.message.content) == Some(content),
        content.str_at("text"@) == Some(said),
        !text::blank(message::cleaned(said, evt.event.message.mentions, bot)),
    ensures
        message::message_event(evt, require, bot) matches Some((_, msg, media)) && msg.text == Some(
            message::cleaned(said, evt.event.message.mentions, bot),
        ) && msg.mentions == message::people(evt.event.message.mentions, bot) && media.len() == 0,
{
    reveal_strlit("p2p");
    reveal_strlit("group");
    assert("p2p"@.len() == 3 && "group"@.len() == 5);
}

} // verus!
