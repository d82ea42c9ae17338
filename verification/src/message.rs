//! Messages from users: what they say, what they carry and whom they mention.
use vstd::prelude::*;

use crate::conv;
use crate::conv::{conv_with, ReceiveIdKind, thread_conv};
use crate::dedup;
use crate::dedup::content_hash_text;
use crate::digits;
use crate::events;
use crate::events::{
    EventBody, EventBodyV, FeishuEvent, FeishuEventV, FileContent, ImageContent,
    MessageMention, MessageMentionV, MessageV, PostContent, PostContentV, PostNode,
    PostNodeV, TextContent,
};
use crate::json;
use crate::json::{parse_json, parse_json_str};
use crate::model;
use crate::model::{InboundMessage, InboundV, Mention, MentionV};
use crate::text;
use crate::text::{
    borrow, cat2, cat3, cat5, chars_of, is_blank, occurs, opt_is, own, str_begins, str_eq, str_join,
    str_trim_start, take_nonblank, take_nonempty,
};

verus! {

/// When messages in groups are heeded.
#[derive(Debug, Clone, Copy)]
pub struct MentionPolicy {
    /// Whether a message in a group has to mention the bot.
    pub require_mention_in_group: bool,
}

impl MentionPolicy {
    /// Every message is heeded.
    pub fn permissive() -> (r: MentionPolicy)
        ensures
            !r.require_mention_in_group,
    {
        MentionPolicy { require_mention_in_group: false }
    }

    /// A message in a group has to mention the bot.
    pub fn require_bot() -> (r: MentionPolicy)
        ensures
            r.require_mention_in_group,
    {
        MentionPolicy { require_mention_in_group: true }
    }
}

/// A media file of a message that is still to be fetched.
#[derive(Debug, Clone)]
pub struct PendingMedia {
    /// `image`, `file` or `audio`.
    pub kind: &'static str,
    /// The name under which the platform keeps the file.
    pub key: String,
    /// The message that carries it.
    pub message_id: String,
    /// The name that the sender gave it.
    pub file_name: Option<String>,
}

#[verifier::ext_equal]
pub struct PendingV {
    pub kind: Seq<char>,
    pub key: Seq<char>,
    pub message_id: Seq<char>,
    pub file_name: Option<Seq<char>>,
}

impl View for PendingMedia {
    type V = PendingV;

    open spec fn view(&self) -> PendingV {
        PendingV {
            kind: self.kind@,
            key: self.key@,
            message_id: self.message_id@,
            file_name: text::oview(self.file_name),
        }
    }
}

// ---------------------------------------------------------------------------
// Mentions
// ---------------------------------------------------------------------------

/// Whether somebody is mentioned.
pub open spec fn mentions_person(mentions: Seq<MessageMentionV>, who: Seq<char>) -> bool {
    exists|i: int| 0 <= i < mentions.len() && (#[trigger] mentions[i]).who() == Some(who)
}

/// Whether a message is heeded: outside groups always; in a group, where the policy asks for
/// it, only if the bot is mentioned. While the bot's own identity is unknown, any mention
/// will do.
pub open spec fn heeded(
    chat_type: Seq<char>,
    mentions: Seq<MessageMentionV>,
    require: bool,
    bot: Option<Seq<char>>,
) -> bool {
    chat_type != "group"@ || !require || match bot {
        Some(b) => mentions_person(mentions, b),
        None => mentions.len() > 0,
    }
}

/// Whether a text opens with a placeholder as a whole: a number at its end does not go on.
pub open spec fn opens_with(s: Seq<char>, key: Seq<char>) -> bool {
    text::begins(s, key) && !(digits::is_digit(key.last()) && key.len() < s.len()
        && digits::is_digit(s[key.len() as int]))
}

/// Whether the text opens with the placeholder of a mention.
pub open spec fn opens_with_mention(s: Seq<char>, m: MessageMentionV) -> bool {
    m.who() is Some && match text::nonempty(m.key) {
        Some(key) => opens_with(s, key),
        None => false,
    }
}

/// The mention with whose placeholder a text opens.
pub open spec fn mention_at(s: Seq<char>, mentions: Seq<MessageMentionV>) -> Option<MessageMentionV>
    decreases mentions.len(),
{
    if mentions.len() == 0 {
        None
    } else if opens_with_mention(s, mentions[0]) {
        Some(mentions[0])
    } else {
        mention_at(s, mentions.drop_first())
    }
}

/// What stands in place of the placeholder of a mention: nothing for the bot, `@name` for
/// other people, nothing where there is no name.
pub open spec fn written_out(m: MessageMentionV, bot: Option<Seq<char>>) -> Seq<char> {
    if bot == m.who() {
        Seq::empty()
    } else {
        match text::nonblank(m.name) {
            Some(name) => "@"@ + name,
            None => Seq::empty(),
        }
    }
}

/// How much of the text is taken away for a mention with whose placeholder it opens: the
/// placeholder, and a blank behind the bot's.
pub open spec fn taken(s: Seq<char>, m: MessageMentionV, bot: Option<Seq<char>>) -> int {
    let n = m.key->0.len() as int;
    if bot == m.who() && n < s.len() && s[n] == ' ' {
        n + 1
    } else {
        n
    }
}

/// A mention with whose placeholder a text opens is one of the mentions.
pub proof fn lemma_mention_at(s: Seq<char>, mentions: Seq<MessageMentionV>)
    ensures
        mention_at(s, mentions) matches Some(m) ==> opens_with_mention(s, m) && mentions.contains(m),
    decreases mentions.len(),
{
    if mentions.len() > 0 {
        let rest = mentions.drop_first();
        lemma_mention_at(s, rest);
        if opens_with_mention(s, mentions[0]) {
            assert(mentions.contains(mentions[0]));
        } else if mention_at(s, rest) is Some {
            let m = mention_at(s, rest)->0;
            let i = choose|i: int| 0 <= i < rest.len() && rest[i] == m;
            assert(mentions[i + 1] == m);
        }
    }
}

/// The text with the placeholders of all mentions written out, each in its place.
pub open spec fn cleaned(
    text: Seq<char>,
    mentions: Seq<MessageMentionV>,
    bot: Option<Seq<char>>,
) -> Seq<char>
    decreases text.len(),
{
    proof {
        lemma_mention_at(text, mentions);
    }
    if text.len() == 0 {
        Seq::empty()
    } else {
        match mention_at(text, mentions) {
            Some(m) => written_out(m, bot) + cleaned(
                text.subrange(taken(text, m, bot), text.len() as int),
                mentions,
                bot,
            ),
            None => seq![text[0]] + cleaned(text.drop_first(), mentions, bot),
        }
    }
}

/// The person whom one mention names, unless it is the bot.
pub open spec fn named(m: MessageMentionV, bot: Option<Seq<char>>) -> Seq<MentionV> {
    match (text::nonempty(m.key), m.who()) {
        (Some(_), Some(who)) => if bot == Some(who) {
            Seq::empty()
        } else {
            seq![MentionV { user_id: who, name: text::or_text(text::nonblank(m.name), Seq::empty()) }]
        },
        _ => Seq::empty(),
    }
}

/// The people who are mentioned, without the bot.
pub open spec fn people(mentions: Seq<MessageMentionV>, bot: Option<Seq<char>>) -> Seq<MentionV>
    decreases mentions.len(),
{
    if mentions.len() == 0 {
        Seq::empty()
    } else {
        people(mentions.drop_last(), bot) + named(mentions.last(), bot)
    }
}

fn mentions_whom(mentions: &Vec<MessageMention>, who: &str) -> (r: bool)
    ensures
        r == mentions_person(model::listv(mentions@), who@),
{
    let mut i: usize = 0;
    let ghost all = model::listv(mentions@);
    while i < mentions.len()
        invariant
            i <= mentions@.len(),
            all == model::listv(mentions@),
            forall|k: int| 0 <= k < i ==> (#[trigger] all[k]).who() != Some(who@),
        decreases mentions@.len() - i,
    {
        if opt_is(mentions[i].open_id(), who) {
            assert(all[i as int].who() == Some(who@));
            return true;
        }
        i += 1;
    }
    false
}

/// Whether a message is heeded.
pub fn group_mention_ok(
    chat_type: &str,
    mentions: &Vec<MessageMention>,
    policy: &MentionPolicy,
    bot_open_id: Option<&str>,
) -> (r: bool)
    ensures
        r == heeded(
            chat_type@,
            model::listv(mentions@),
            policy.require_mention_in_group,
            text::sview(bot_open_id),
        ),
{
    if !str_eq(chat_type, "group") || !policy.require_mention_in_group {
        return true;
    }
    match bot_open_id {
        Some(bot) => mentions_whom(mentions, bot),
        None => mentions.len() > 0,
    }
}

/// The text in `v` from a place on opens with a placeholder as a whole.
fn placeholder_at(v: &Vec<char>, from: usize, key: &Vec<char>) -> (r: bool)
    requires
        from <= v@.len(),
        key@.len() > 0,
    ensures
        r == opens_with(v@.subrange(from as int, v@.len() as int), key@),
{
    let ghost s = v@.subrange(from as int, v@.len() as int);
    if !occurs(v, key, from) {
        proof {
            if text::begins(s, key@) {
                assert(v@.subrange(from as int, from + key@.len()) =~= s.subrange(
                    0,
                    key@.len() as int,
                ));
            }
        }
        return false;
    }
    let n: usize = key.len();
    assert(s.subrange(0, n as int) =~= v@.subrange(from as int, from + n));
    !(digit(key[n - 1]) && n < v.len() - from && digit(v[from + n]))
}

fn digit(c: char) -> (r: bool)
    ensures
        r == digits::is_digit(c),
{
    let u: u32 = c as u32;
    48 <= u && u <= 57
}

/// The place among the mentions of the one with whose placeholder the text opens.
fn find_mention(v: &Vec<char>, from: usize, mentions: &Vec<MessageMention>) -> (r: Option<usize>)
    requires
        from <= v@.len(),
    ensures
        match r {
            Some(i) => i < mentions@.len() && mention_at(
                v@.subrange(from as int, v@.len() as int),
                model::listv(mentions@),
            ) == Some(mentions@[i as int]@),
            None => mention_at(
                v@.subrange(from as int, v@.len() as int),
                model::listv(mentions@),
            ) is None,
        },
{
    let ghost s = v@.subrange(from as int, v@.len() as int);
    let ghost all = model::listv(mentions@);
    assert(all.subrange(0, all.len() as int) =~= all);
    let mut i: usize = 0;
    while i < mentions.len()
        invariant
            from <= v@.len(),
            i <= mentions@.len(),
            s == v@.subrange(from as int, v@.len() as int),
            all == model::listv(mentions@),
            mention_at(s, all) == mention_at(s, all.subrange(i as int, all.len() as int)),
        decreases mentions@.len() - i,
    {
        let m = &mentions[i];
        let ghost rest = all.subrange(i as int, all.len() as int);
        assert(rest[0] == m@);
        assert(rest.drop_first() =~= all.subrange(i + 1, all.len() as int));
        match (take_nonempty(borrow(&m.key)), m.open_id()) {
            (Some(key), Some(_)) => {
                if placeholder_at(v, from, &chars_of(key)) {
                    return Some(i);
                }
            },
            _ => {},
        }
        i += 1;
    }
    None
}

fn clean(text: &str, mentions: &Vec<MessageMention>, bot_open_id: Option<&str>) -> (r: String)
    ensures
        r@ == cleaned(text@, model::listv(mentions@), text::sview(bot_open_id)),
{
    let v = chars_of(text);
    let ghost all = model::listv(mentions@);
    let ghost bot = text::sview(bot_open_id);
    let mut out = String::new();
    let mut i: usize = 0;
    assert(v@.subrange(0, v@.len() as int) =~= v@);
    while i < v.len()
        invariant
            i <= v@.len(),
            all == model::listv(mentions@),
            bot == text::sview(bot_open_id),
            cleaned(v@, all, bot) =~= out@ + cleaned(
                v@.subrange(i as int, v@.len() as int),
                all,
                bot,
            ),
        decreases v@.len() - i,
    {
        let ghost s = v@.subrange(i as int, v@.len() as int);
        proof {
            lemma_mention_at(s, all);
        }
        match find_mention(&v, i, mentions) {
            Some(at) => {
                let m = &mentions[at];
                let key = match &m.key {
                    Some(k) => k.as_str(),
                    None => "",
                };
                let own_one = match (bot_open_id, m.open_id()) {
                    (Some(b), Some(who)) => str_eq(b, who),
                    _ => false,
                };
                let mut next: usize = i + chars_of(key).len();
                if own_one {
                    if next < v.len() && v[next] == ' ' {
                        next += 1;
                    }
                } else {
                    match take_nonblank(borrow(&m.name)) {
                        Some(n) => {
                            out = cat3(out.as_str(), "@", n);
                        },
                        None => {},
                    }
                }
                assert(next == i + taken(s, m@, bot));
                assert(s.subrange(next - i, s.len() as int) =~= v@.subrange(
                    next as int,
                    v@.len() as int,
                ));
                i = next;
            },
            None => {
                out.push(v[i]);
                assert(s.drop_first() =~= v@.subrange(i + 1, v@.len() as int));
                i += 1;
            },
        }
    }
    assert(cleaned(v@.subrange(i as int, v@.len() as int), all, bot) =~= Seq::empty());
    out
}

/// The text with its placeholders written out, and the people who are mentioned.
pub fn apply_text_mentions(
    text: &str,
    mentions: &Vec<MessageMention>,
    bot_open_id: Option<&str>,
) -> (r: (String, Vec<Mention>))
    ensures
        r.0@ == cleaned(text@, model::listv(mentions@), text::sview(bot_open_id)),
        model::listv(r.1@) == people(model::listv(mentions@), text::sview(bot_open_id)),
{
    let mut resolved: Vec<Mention> = Vec::new();
    let ghost all = model::listv(mentions@);
    let ghost bot = text::sview(bot_open_id);
    let mut i: usize = 0;
    assert(model::listv(resolved@) =~= people(all.subrange(0, 0), bot));
    while i < mentions.len()
        invariant
            i <= mentions@.len(),
            all == model::listv(mentions@),
            bot == text::sview(bot_open_id),
            model::listv(resolved@) == people(all.subrange(0, i as int), bot),
        decreases mentions@.len() - i,
    {
        let m = &mentions[i];
        let ghost before = resolved@;
        proof {
            assert(all.subrange(0, i + 1).drop_last() =~= all.subrange(0, i as int));
            assert(all.subrange(0, i + 1).last() == m@);
        }
        match (take_nonempty(borrow(&m.key)), m.open_id()) {
            (Some(_), Some(who)) => {
                if opt_is(bot_open_id, who) {
                    assert(model::listv(resolved@) =~= people(all.subrange(0, i + 1), bot));
                } else {
                    let name = match take_nonblank(borrow(&m.name)) {
                        Some(n) => n.to_owned(),
                        None => String::new(),
                    };
                    resolved.push(Mention { user_id: who.to_owned(), name });
                    assert(model::listv(resolved@) =~= model::listv(before) + named(m@, bot));
                }
            },
            _ => {
                assert(model::listv(resolved@) =~= people(all.subrange(0, i + 1), bot));
            },
        }
        i += 1;
    }
    assert(all.subrange(0, all.len() as int) =~= all);
    (clean(text, mentions, bot_open_id), resolved)
}

// ---------------------------------------------------------------------------
// Contents
// ---------------------------------------------------------------------------

/// The text of a text message.
pub open spec fn text_in(content: Seq<char>) -> Option<Seq<char>> {
    match json::parsed_text(content) {
        Some(j) => j.str_at("text"@),
        None => None,
    }
}

/// The key of an image message.
pub open spec fn image_key_in(content: Seq<char>) -> Option<Seq<char>> {
    match json::parsed_text(content) {
        Some(j) => j.str_at("image_key"@),
        None => None,
    }
}

/// The key and the name of a file message.
pub open spec fn file_meta_in(content: Seq<char>) -> Option<(Seq<char>, Option<Seq<char>>)> {
    match json::parsed_text(content) {
        Some(j) => events::file_content_of(j),
        None => None,
    }
}

/// The key of a voice message.
pub open spec fn audio_key_in(content: Seq<char>) -> Option<Seq<char>> {
    match json::parsed_text(content) {
        Some(j) => text::nonempty(j.str_at("file_key"@)),
        None => None,
    }
}

/// The text of a text message; `None` where the content holds none.
pub fn extract_text(content: &str) -> (r: Option<String>)
    ensures
        text::oview(r) == text_in(content@),
{
    match parse_json_str(content) {
        Some(j) => match TextContent::read(&j) {
            Some(c) => Some(c.text),
            None => None,
        },
        None => None,
    }
}

/// The key of an image message; `None` where the content holds none.
pub fn extract_image_key(content: &str) -> (r: Option<String>)
    ensures
        text::oview(r) == image_key_in(content@),
{
    match parse_json_str(content) {
        Some(j) => match ImageContent::read(&j) {
            Some(c) => Some(c.image_key),
            None => None,
        },
        None => None,
    }
}

/// The key and the name of a file message; `None` where the content holds no key.
pub fn extract_file_meta(content: &str) -> (r: Option<(String, Option<String>)>)
    ensures
        match r {
            Some((key, name)) => file_meta_in(content@) == Some((key@, text::oview(name))),
            None => file_meta_in(content@) is None,
        },
{
    match parse_json_str(content) {
        Some(j) => match FileContent::read(&j) {
            Some(c) => Some((c.file_key, c.file_name)),
            None => None,
        },
        None => None,
    }
}

/// The key of a voice message; `None` where the content holds none.
pub fn extract_audio_key(content: &str) -> (r: Option<String>)
    ensures
        text::oview(r) == audio_key_in(content@),
{
    match parse_json_str(content) {
        Some(j) => own(take_nonempty(j.str_at("file_key"))),
        None => None,
    }
}

// ---------------------------------------------------------------------------
// Rich text
// ---------------------------------------------------------------------------

/// The results of all nodes of a row, in order.
pub open spec fn gather<T>(nodes: Seq<PostNodeV>, f: spec_fn(PostNodeV) -> Seq<T>) -> Seq<T>
    decreases nodes.len(),
{
    if nodes.len() == 0 {
        Seq::empty()
    } else {
        gather(nodes.drop_last(), f) + f(nodes.last())
    }
}

/// The results of all nodes of all rows, in order.
pub open spec fn gather_rows<T>(
    rows: Seq<Seq<PostNodeV>>,
    f: spec_fn(PostNodeV) -> Seq<T>,
) -> Seq<T>
    decreases rows.len(),
{
    if rows.len() == 0 {
        Seq::empty()
    } else {
        gather_rows(rows.drop_last(), f) + gather(rows.last(), f)
    }
}

/// The person whom an `at` node names, unless it is the bot.
pub open spec fn node_person(n: PostNodeV, bot: Option<Seq<char>>) -> Option<Seq<char>> {
    match text::nonempty(n.user_id) {
        Some(u) => if bot == Some(u) {
            None
        } else {
            Some(u)
        },
        None => None,
    }
}

/// The text that a node contributes.
pub open spec fn node_text(n: PostNodeV, bot: Option<Seq<char>>) -> Seq<Seq<char>> {
    if n.tag == "text"@ {
        match text::nonempty(n.text) {
            Some(t) => seq![t],
            None => Seq::empty(),
        }
    } else if n.tag == "at"@ {
        match (node_person(n, bot), text::nonblank(n.user_name)) {
            (Some(_), Some(name)) => seq!["@"@ + name],
            _ => Seq::empty(),
        }
    } else if n.tag == "a"@ {
        match (text::nonempty(n.href), text::nonblank(n.text)) {
            (Some(h), Some(t)) => if t != h {
                seq!["["@ + t + "]("@ + h + ")"@]
            } else {
                seq![h]
            },
            (Some(h), None) => seq![h],
            (None, Some(t)) => seq![t],
            (None, None) => Seq::empty(),
        }
    } else if n.tag == "media"@ {
        seq!["[视频]"@]
    } else if n.tag == "emotion"@ {
        seq!["[表情]"@]
    } else {
        Seq::empty()
    }
}

/// The image that a node contributes.
pub open spec fn node_image(n: PostNodeV, message_id: Seq<char>) -> Seq<PendingV> {
    if n.tag == "img"@ {
        match text::nonempty(n.image_key) {
            Some(key) => seq![PendingV { kind: "image"@, key, message_id, file_name: None }],
            None => Seq::empty(),
        }
    } else {
        Seq::empty()
    }
}

/// The mention that a node contributes.
pub open spec fn node_mention(n: PostNodeV, bot: Option<Seq<char>>) -> Seq<MentionV> {
    if n.tag == "at"@ {
        match node_person(n, bot) {
            Some(u) => seq![
                MentionV { user_id: u, name: text::or_text(text::nonblank(n.user_name), Seq::empty()) },
            ],
            None => Seq::empty(),
        }
    } else {
        Seq::empty()
    }
}

/// The pieces of text of a rich-text message: the title and what the nodes contribute.
pub open spec fn post_texts(p: PostContentV, bot: Option<Seq<char>>) -> Seq<Seq<char>> {
    (if text::blank(p.title) {
        Seq::empty()
    } else {
        seq![p.title]
    }) + gather_rows(p.content, |n: PostNodeV| node_text(n, bot))
}

/// What a message holds: its text, the media to fetch, and the people mentioned.
pub type Content = (Option<Seq<char>>, Seq<PendingV>, Seq<MentionV>);

/// What a rich-text message holds.
pub open spec fn post_content(
    p: PostContentV,
    bot: Option<Seq<char>>,
    message_id: Seq<char>,
) -> Content {
    (
        if post_texts(p, bot).len() == 0 {
            None
        } else {
            Some(text::join(post_texts(p, bot), "\n"@))
        },
        gather_rows(p.content, |n: PostNodeV| node_image(n, message_id)),
        gather_rows(p.content, |n: PostNodeV| node_mention(n, bot)),
    )
}

/// What the text form of a rich-text message holds.
pub open spec fn post_in(
    content: Seq<char>,
    bot: Option<Seq<char>>,
    message_id: Seq<char>,
) -> Option<Content> {
    match json::parsed_text(content) {
        Some(j) => match events::post_of(j) {
            Some(p) => Some(post_content(p, bot, message_id)),
            None => None,
        },
        None => None,
    }
}

fn add_node_text(out: &mut Vec<String>, n: &PostNode, bot: Option<&str>)
    ensures
        text::views(final(out)@) == text::views(old(out)@) + node_text(n@, text::sview(bot)),
{
    let ghost before = out@;
    let tag = n.tag.as_str();
    if str_eq(tag, "text") {
        match take_nonempty(borrow(&n.text)) {
            Some(t) => out.push(t.to_owned()),
            None => {},
        }
    } else if str_eq(tag, "at") {
        match (take_nonempty(borrow(&n.user_id)), take_nonblank(borrow(&n.user_name))) {
            (Some(u), Some(name)) => {
                if !opt_is(bot, u) {
                    out.push(cat2("@", name));
                }
            },
            _ => {},
        }
    } else if str_eq(tag, "a") {
        match (take_nonempty(borrow(&n.href)), take_nonblank(borrow(&n.text))) {
            (Some(h), Some(t)) => {
                if !str_eq(t, h) {
                    out.push(cat5("[", t, "](", h, ")"));
                } else {
                    out.push(h.to_owned());
                }
            },
            (Some(h), None) => out.push(h.to_owned()),
            (None, Some(t)) => out.push(t.to_owned()),
            (None, None) => {},
        }
    } else if str_eq(tag, "media") {
        out.push("[视频]".to_owned());
    } else if str_eq(tag, "emotion") {
        out.push("[表情]".to_owned());
    }
    assert(text::views(out@) =~= text::views(before) + node_text(n@, text::sview(bot)));
}

fn add_node_image(out: &mut Vec<PendingMedia>, n: &PostNode, message_id: &str)
    ensures
        model::listv(final(out)@) == model::listv(old(out)@) + node_image(n@, message_id@),
{
    let ghost before = out@;
    if str_eq(n.tag.as_str(), "img") {
        match take_nonempty(borrow(&n.image_key)) {
            Some(key) => out.push(
                PendingMedia {
                    kind: "image",
                    key: key.to_owned(),
                    message_id: message_id.to_owned(),
                    file_name: None,
                },
            ),
            None => {},
        }
    }
    assert(model::listv(out@) =~= model::listv(before) + node_image(n@, message_id@));
}

fn add_node_mention(out: &mut Vec<Mention>, n: &PostNode, bot: Option<&str>)
    ensures
        model::listv(final(out)@) == model::listv(old(out)@) + node_mention(n@, text::sview(bot)),
{
    let ghost before = out@;
    if str_eq(n.tag.as_str(), "at") {
        match take_nonempty(borrow(&n.user_id)) {
            Some(u) => {
                if !opt_is(bot, u) {
                    let name = match take_nonblank(borrow(&n.user_name)) {
                        Some(s) => s.to_owned(),
                        None => String::new(),
                    };
                    out.push(Mention { user_id: u.to_owned(), name });
                }
            },
            None => {},
        }
    }
    assert(model::listv(out@) =~= model::listv(before) + node_mention(n@, text::sview(bot)));
}

fn add_row(
    texts: &mut Vec<String>,
    images: &mut Vec<PendingMedia>,
    mentions: &mut Vec<Mention>,
    row: &Vec<PostNode>,
    bot: Option<&str>,
    message_id: &str,
)
    ensures
        text::views(final(texts)@) == text::views(old(texts)@) + gather(
            model::listv(row@),
            |n: PostNodeV| node_text(n, text::sview(bot)),
        ),
        model::listv(final(images)@) == model::listv(old(images)@) + gather(
            model::listv(row@),
            |n: PostNodeV| node_image(n, message_id@),
        ),
        model::listv(final(mentions)@) == model::listv(old(mentions)@) + gather(
            model::listv(row@),
            |n: PostNodeV| node_mention(n, text::sview(bot)),
        ),
{
    let ghost all = model::listv(row@);
    let ghost ft = |n: PostNodeV| node_text(n, text::sview(bot));
    let ghost fi = |n: PostNodeV| node_image(n, message_id@);
    let ghost fm = |n: PostNodeV| node_mention(n, text::sview(bot));
    let ghost t0 = text::views(texts@);
    let ghost i0 = model::listv(images@);
    let ghost m0 = model::listv(mentions@);
    let mut i: usize = 0;
    assert(t0 =~= t0 + gather(all.subrange(0, 0), ft));
    assert(i0 =~= i0 + gather(all.subrange(0, 0), fi));
    assert(m0 =~= m0 + gather(all.subrange(0, 0), fm));
    while i < row.len()
        invariant
            i <= row@.len(),
            all == model::listv(row@),
            ft == (|n: PostNodeV| node_text(n, text::sview(bot))),
            fi == (|n: PostNodeV| node_image(n, message_id@)),
            fm == (|n: PostNodeV| node_mention(n, text::sview(bot))),
            text::views(texts@) == t0 + gather(all.subrange(0, i as int), ft),
            model::listv(images@) == i0 + gather(all.subrange(0, i as int), fi),
            model::listv(mentions@) == m0 + gather(all.subrange(0, i as int), fm),
        decreases row@.len() - i,
    {
        add_node_text(texts, &row[i], bot);
        add_node_image(images, &row[i], message_id);
        add_node_mention(mentions, &row[i], bot);
        proof {
            let now = all.subrange(0, i + 1);
            assert(now.drop_last() =~= all.subrange(0, i as int));
            assert(now.last() == row@[i as int]@);
            assert(t0 + gather(now, ft) =~= t0 + gather(now.drop_last(), ft) + ft(now.last()));
            assert(i0 + gather(now, fi) =~= i0 + gather(now.drop_last(), fi) + fi(now.last()));
            assert(m0 + gather(now, fm) =~= m0 + gather(now.drop_last(), fm) + fm(now.last()));
        }
        i += 1;
    }
    assert(all.subrange(0, all.len() as int) =~= all);
}

fn content_of_post(p: &PostContent, bot: Option<&str>, message_id: &str) -> (r: (
    Option<String>,
    Vec<PendingMedia>,
    Vec<Mention>,
))
    ensures
        (text::oview(r.0), model::listv(r.1@), model::listv(r.2@)) == post_content(p@, text::sview(bot), message_id@),
{
    let mut texts: Vec<String> = Vec::new();
    let mut images: Vec<PendingMedia> = Vec::new();
    let mut mentions: Vec<Mention> = Vec::new();
    if !is_blank(p.title.as_str()) {
        texts.push(p.title.clone());
    }
    let ghost all = p@.content;
    let ghost ft = |n: PostNodeV| node_text(n, text::sview(bot));
    let ghost fi = |n: PostNodeV| node_image(n, message_id@);
    let ghost fm = |n: PostNodeV| node_mention(n, text::sview(bot));
    let ghost t0 = text::views(texts@);
    assert(t0 =~= if text::blank(p@.title) {
        Seq::empty()
    } else {
        seq![p@.title]
    });
    assert(t0 =~= t0 + gather_rows(all.subrange(0, 0), ft));
    assert(model::listv(images@) =~= gather_rows(all.subrange(0, 0), fi));
    assert(model::listv(mentions@) =~= gather_rows(all.subrange(0, 0), fm));
    let mut i: usize = 0;
    while i < p.content.len()
        invariant
            i <= p.content@.len(),
            all == events::rows_view(p.content@),
            ft == (|n: PostNodeV| node_text(n, text::sview(bot))),
            fi == (|n: PostNodeV| node_image(n, message_id@)),
            fm == (|n: PostNodeV| node_mention(n, text::sview(bot))),
            text::views(texts@) == t0 + gather_rows(all.subrange(0, i as int), ft),
            model::listv(images@) == gather_rows(all.subrange(0, i as int), fi),
            model::listv(mentions@) == gather_rows(all.subrange(0, i as int), fm),
        decreases p.content@.len() - i,
    {
        add_row(&mut texts, &mut images, &mut mentions, &p.content[i], bot, message_id);
        proof {
            let now = all.subrange(0, i + 1);
            assert(now.drop_last() =~= all.subrange(0, i as int));
            assert(now.last() == model::listv(p.content@[i as int]@));
            assert(t0 + gather_rows(now, ft) =~= t0 + gather_rows(now.drop_last(), ft) + gather(
                now.last(),
                ft,
            ));
        }
        i += 1;
    }
    assert(all.subrange(0, all.len() as int) =~= all);
    assert(texts@.len() == text::views(texts@).len());
    let text = if texts.len() == 0 {
        None
    } else {
        Some(str_join(&texts, "\n"))
    };
    (text, images, mentions)
}

/// What a rich-text message holds; `None` where the content is not one.
pub fn parse_post(content: &str, bot_open_id: Option<&str>, message_id: &str) -> (r: Option<
    (Option<String>, Vec<PendingMedia>, Vec<Mention>),
>)
    ensures
        match r {
            Some((t, p, m)) => post_in(content@, text::sview(bot_open_id), message_id@) == Some(
                (text::oview(t), model::listv(p@), model::listv(m@)),
            ),
            None => post_in(content@, text::sview(bot_open_id), message_id@) is None,
        },
{
    match parse_json_str(content) {
        Some(j) => match PostContent::read(&j) {
            Some(p) => Some(content_of_post(&p, bot_open_id, message_id)),
            None => None,
        },
        None => None,
    }
}

// ---------------------------------------------------------------------------
// Message events
// ---------------------------------------------------------------------------

/// Where an answer to a message goes: to the sender of a private message, else to the chat.
pub open spec fn reply_target(e: EventBodyV) -> Option<(Seq<char>, ReceiveIdKind)> {
    if e.message.chat_type == "p2p"@ {
        if e.sender.len() == 0 {
            None
        } else {
            Some((e.sender, ReceiveIdKind::OpenId))
        }
    } else {
        match text::first_of(e.chat, e.message.chat_id) {
            Some(chat) => Some((chat, ReceiveIdKind::ChatId)),
            None => None,
        }
    }
}

/// Whether a message is a slash command. Commands are heeded without a mention.
pub open spec fn is_command(m: MessageV) -> bool {
    m.message_type == "text"@ && match text_in(m.content) {
        Some(t) => text::begins(text::trim_start(t), "/"@),
        None => false,
    }
}

/// What a message with one media file holds.
pub open spec fn one_media(
    kind: Seq<char>,
    key: Seq<char>,
    message_id: Seq<char>,
    file_name: Option<Seq<char>>,
) -> Content {
    (None, seq![PendingV { kind, key, message_id, file_name }], Seq::empty())
}

/// What a message holds; `None` where it holds nothing, or is of a kind that is not handled.
pub open spec fn message_content(m: MessageV, bot: Option<Seq<char>>) -> Option<Content> {
    let id = text::or_text(m.message_id, Seq::empty());
    if m.message_type == "text"@ {
        match text_in(m.content) {
            Some(raw) => if text::blank(cleaned(raw, m.mentions, bot)) {
                None
            } else {
                Some(
                    (
                        Some(cleaned(raw, m.mentions, bot)),
                        Seq::empty(),
                        people(m.mentions, bot),
                    ),
                )
            },
            None => None,
        }
    } else if m.message_type == "image"@ {
        match image_key_in(m.content) {
            Some(key) => Some(one_media("image"@, key, id, None)),
            None => None,
        }
    } else if m.message_type == "file"@ {
        match file_meta_in(m.content) {
            Some((key, name)) => Some(one_media("file"@, key, id, name)),
            None => None,
        }
    } else if m.message_type == "audio"@ {
        match audio_key_in(m.content) {
            Some(key) => Some(one_media("audio"@, key, id, None)),
            None => None,
        }
    } else if m.message_type == "post"@ {
        match post_in(m.content, bot, id) {
            Some((text, media, mentions)) => if text::nonblank(text) is None && media.len() == 0 {
                None
            } else {
                Some((text, media, mentions))
            },
            None => None,
        }
    } else {
        None
    }
}

/// The key of a message event: its identity, else that of the message, else one made of the
/// receiver and of what the message holds.
pub open spec fn message_key(evt: FeishuEventV, target: Seq<char>, content: Content) -> Seq<char> {
    let fallback = match text::nonblank(content.0) {
        Some(t) => target + ":"@ + dedup::hash_text(t),
        None => if content.1.len() > 0 {
            target + ":"@ + content.1[0].key
        } else {
            target + ":"@ + evt.event.message.message_type
        },
    };
    text::or_text(evt.header.event_id, text::or_text(evt.event.message.message_id, fallback))
}

/// The conversation of a message: the chat, or the thread in a group.
pub open spec fn message_conv(m: MessageV, target: Seq<char>) -> Seq<char> {
    match m.root_id {
        Some(root) => if text::begins(root, "om_"@) && m.chat_type == "group"@ {
            conv::thread_name(target, root)
        } else {
            conv::conv_name(target)
        },
        None => conv::conv_name(target),
    }
}

/// Whether a message in a group mentions the bot.
pub open spec fn mentions_bot(m: MessageV, bot: Option<Seq<char>>) -> bool {
    m.chat_type == "group"@ && bot is Some && mentions_person(m.mentions, bot->0)
}

/// The message that is handed on, with its key.
pub open spec fn assembled(
    evt: FeishuEventV,
    content: Content,
    bot: Option<Seq<char>>,
) -> Option<(Seq<char>, InboundV)> {
    let m = evt.event.message;
    match reply_target(evt.event) {
        Some((target, _)) => Some(
            (
                message_key(evt, target, content),
                InboundV {
                    mentions: content.2,
                    mentioned_bot: mentions_bot(m, bot),
                    reply_to: text::nonempty(m.parent_id),
                    source_msg_id: text::nonempty(m.message_id),
                    ..model::plain_message(message_conv(m, target), evt.event.sender, content.0)
                },
            ),
        ),
        None => None,
    }
}

/// What a message event leads to: a key, a message, and the media to fetch.
pub open spec fn message_event(
    evt: FeishuEventV,
    require: bool,
    bot: Option<Seq<char>>,
) -> Option<(Seq<char>, InboundV, Seq<PendingV>)> {
    let m = evt.event.message;
    if evt.header.event_type != "im.message.receive_v1"@ {
        None
    } else if !is_command(m) && !heeded(m.chat_type, m.mentions, require, bot) {
        None
    } else {
        match message_content(m, bot) {
            Some(content) => match assembled(evt, content, bot) {
                Some((key, msg)) => Some((key, msg, content.1)),
                None => None,
            },
            None => None,
        }
    }
}

/// What the bytes of an event lead to as a message.
pub open spec fn message_event_in(
    payload: Seq<u8>,
    require: bool,
    bot: Option<Seq<char>>,
) -> Option<(Seq<char>, InboundV, Seq<PendingV>)> {
    match json::parsed_json(payload) {
        Some(j) => match events::feishu_event_of(j) {
            Some(evt) => message_event(evt, require, bot),
            None => None,
        },
        None => None,
    }
}

/// Reads the bytes of a message event.
pub fn read_event(payload: &[u8]) -> (r: Option<FeishuEvent>)
    ensures
        model::optv(r) == match json::parsed_json(payload@) {
            Some(j) => events::feishu_event_of(j),
            None => None,
        },
{
    match parse_json(payload) {
        Some(j) => FeishuEvent::read(&j),
        None => None,
    }
}

/// Where an answer to a message goes.
pub fn receive_target(event: &EventBody) -> (r: Option<(String, ReceiveIdKind)>)
    ensures
        match r {
            Some((id, kind)) => reply_target(event@) == Some((id@, kind)),
            None => reply_target(event@) is None,
        },
{
    if str_eq(event.message.chat_type.as_str(), "p2p") {
        let id = event.sender.sender_id.open_id.as_str();
        return if id.is_empty() {
            None
        } else {
            Some((id.to_owned(), ReceiveIdKind::OpenId))
        };
    }
    match &event.chat {
        Some(c) => Some((c.chat_id.clone(), ReceiveIdKind::ChatId)),
        None => match &event.message.chat_id {
            Some(c) => Some((c.clone(), ReceiveIdKind::ChatId)),
            None => None,
        },
    }
}

fn read_is_command(evt: &FeishuEvent) -> (r: bool)
    ensures
        r == is_command(evt@.event.message),
{
    if !str_eq(evt.event.message.message_type.as_str(), "text") {
        return false;
    }
    match extract_text(evt.event.message.content.as_str()) {
        Some(t) => str_begins(str_trim_start(t.as_str()).as_str(), "/"),
        None => false,
    }
}

fn one_pending(kind: &'static str, key: String, message_id: &str, file_name: Option<String>) -> (r:
    (Option<String>, Vec<PendingMedia>, Vec<Mention>))
    ensures
        (text::oview(r.0), model::listv(r.1@), model::listv(r.2@)) == one_media(
            kind@,
            key@,
            message_id@,
            text::oview(file_name),
        ),
{
    let mut media: Vec<PendingMedia> = Vec::new();
    media.push(PendingMedia { kind, key, message_id: message_id.to_owned(), file_name });
    let mentions: Vec<Mention> = Vec::new();
    assert(model::listv(media@) =~= seq![media@[0]@]);
    assert(model::listv(mentions@) =~= Seq::empty());
    (None, media, mentions)
}

fn read_content(evt: &FeishuEvent, bot: Option<&str>) -> (r: Option<
    (Option<String>, Vec<PendingMedia>, Vec<Mention>),
>)
    ensures
        match r {
            Some((t, p, m)) => message_content(evt@.event.message, text::sview(bot)) == Some(
                (text::oview(t), model::listv(p@), model::listv(m@)),
            ),
            None => message_content(evt@.event.message, text::sview(bot)) is None,
        },
{
    let m = &evt.event.message;
    let kind = m.message_type.as_str();
    let content = m.content.as_str();
    let id = match &m.message_id {
        Some(s) => s.clone(),
        None => String::new(),
    };
    if str_eq(kind, "text") {
        match extract_text(content) {
            Some(raw) => {
                let (clean, mentions) = apply_text_mentions(raw.as_str(), &m.mentions, bot);
                if is_blank(clean.as_str()) {
                    None
                } else {
                    let media: Vec<PendingMedia> = Vec::new();
                    assert(model::listv(media@) =~= Seq::empty());
                    Some((Some(clean), media, mentions))
                }
            },
            None => None,
        }
    } else if str_eq(kind, "image") {
        match extract_image_key(content) {
            Some(key) => Some(one_pending("image", key, id.as_str(), None)),
            None => None,
        }
    } else if str_eq(kind, "file") {
        match extract_file_meta(content) {
            Some((key, name)) => Some(one_pending("file", key, id.as_str(), name)),
            None => None,
        }
    } else if str_eq(kind, "audio") {
        match extract_audio_key(content) {
            Some(key) => Some(one_pending("audio", key, id.as_str(), None)),
            None => None,
        }
    } else if str_eq(kind, "post") {
        match parse_post(content, bot, id.as_str()) {
            Some((text, media, mentions)) => {
                assert(media@.len() == model::listv(media@).len());
                if take_nonblank(borrow(&text)).is_none() && media.len() == 0 {
                    None
                } else {
                    Some((text, media, mentions))
                }
            },
            None => None,
        }
    } else {
        None
    }
}

/// The message that is handed on for an event, with its key.
pub fn assemble_event_message(
    evt: &FeishuEvent,
    text: Option<String>,
    pending: &Vec<PendingMedia>,
    mentions: Vec<Mention>,
    bot_open_id: Option<&str>,
) -> (r: Option<(String, InboundMessage)>)
    ensures
        match r {
            Some((key, msg)) => assembled(
                evt@,
                (text::oview(text), model::listv(pending@), model::listv(mentions@)),
                text::sview(bot_open_id),
            ) == Some((key@, msg@)),
            None => assembled(
                evt@,
                (text::oview(text), model::listv(pending@), model::listv(mentions@)),
                text::sview(bot_open_id),
            ) is None,
        },
{
    let m = &evt.event.message;
    let (target, _) = match receive_target(&evt.event) {
        Some(t) => t,
        None => {
            return None;
        },
    };
    assert(pending@.len() == model::listv(pending@).len());
    let key = match &evt.header.event_id {
        Some(id) => id.clone(),
        None => match &m.message_id {
            Some(id) => id.clone(),
            None => match take_nonblank(borrow(&text)) {
                Some(t) => cat3(target.as_str(), ":", content_hash_text(t).as_str()),
                None => if pending.len() > 0 {
                    cat3(target.as_str(), ":", pending[0].key.as_str())
                } else {
                    cat3(target.as_str(), ":", m.message_type.as_str())
                },
            },
        },
    };
    let group = str_eq(m.chat_type.as_str(), "group");
    let conv = match &m.root_id {
        Some(root) => if str_begins(root.as_str(), "om_") && group {
            thread_conv(target.as_str(), root.as_str())
        } else {
            conv_with(target.as_str())
        },
        None => conv_with(target.as_str()),
    };
    let mentioned_bot = match bot_open_id {
        Some(b) => group && mentions_whom(&m.mentions, b),
        None => false,
    };
    let mut msg = InboundMessage::plain(conv, evt.event.sender.sender_id.open_id.clone(), text);
    msg.mentions = mentions;
    msg.mentioned_bot = mentioned_bot;
    msg.reply_to = own(take_nonempty(borrow(&m.parent_id)));
    msg.source_msg_id = own(take_nonempty(borrow(&m.message_id)));
    Some((key, msg))
}

/// What a message event leads to: a key, a message, and the media to fetch.
pub fn handle_message(evt: &FeishuEvent, policy: &MentionPolicy, bot_open_id: Option<&str>) -> (r:
    Option<(String, InboundMessage, Vec<PendingMedia>)>)
    ensures
        match r {
            Some((key, msg, media)) => message_event(
                evt@,
                policy.require_mention_in_group,
                text::sview(bot_open_id),
            ) == Some((key@, msg@, model::listv(media@))),
            None => message_event(
                evt@,
                policy.require_mention_in_group,
                text::sview(bot_open_id),
            ) is None,
        },
{
    let m = &evt.event.message;
    if !str_eq(evt.header.event_type.as_str(), "im.message.receive_v1") {
        return None;
    }
    if !read_is_command(evt) && !group_mention_ok(
        m.chat_type.as_str(),
        &m.mentions,
        policy,
        bot_open_id,
    ) {
        return None;
    }
    match read_content(evt, bot_open_id) {
        Some((text, media, mentions)) => match assemble_event_message(
            evt,
            text,
            &media,
            mentions,
            bot_open_id,
        ) {
            Some((key, msg)) => Some((key, msg, media)),
            None => None,
        },
        None => None,
    }
}

/// What the bytes of an event lead to as a message: a key, a message, and the media to
/// fetch; `None` for anything that is not a message to the bot.
pub fn parse_message_event(
    payload: &[u8],
    policy: &MentionPolicy,
    bot_open_id: Option<&str>,
) -> (r: Option<(String, InboundMessage, Vec<PendingMedia>)>)
    ensures
        match r {
            Some((key, msg, media)) => message_event_in(
                payload@,
                policy.require_mention_in_group,
                text::sview(bot_open_id),
            ) == Some((key@, msg@, model::listv(media@))),
            None => message_event_in(
                payload@,
                policy.require_mention_in_group,
                text::sview(bot_open_id),
            ) is None,
        },
{
    match read_event(payload) {
        Some(evt) => handle_message(&evt, policy, bot_open_id),
        None => None,
    }
}

// ---------------------------------------------------------------------------
// Laws
// ---------------------------------------------------------------------------

/// Whether a key is that of a placeholder: `@_user_` and a number.
pub open spec fn is_placeholder(key: Seq<char>) -> bool {
    &&& text::begins(key, "@_user_"@)
    &&& key.len() > 7
    &&& forall|i: int| 7 <= i < key.len() ==> digits::is_digit(#[trigger] key[i])
}

/// Whether the keys of all mentions are placeholders, no two of them the same.
pub open spec fn keys_tell_apart(mentions: Seq<MessageMentionV>) -> bool {
    &&& forall|i: int| 0 <= i < mentions.len() ==> (#[trigger] mentions[i]).key is Some
        && is_placeholder(mentions[i].key->0)
    &&& forall|i: int, j: int|
        0 <= i < j < mentions.len() ==> (#[trigger] mentions[i]).key != (
        #[trigger] mentions[j]).key
}

/// A text opens with one placeholder at most.
proof fn lemma_one_placeholder(s: Seq<char>, a: Seq<char>, b: Seq<char>)
    requires
        is_placeholder(a),
        is_placeholder(b),
        opens_with(s, a),
        opens_with(s, b),
    ensures
        a == b,
{
    assert forall|i: int| 0 <= i < a.len() implies s[i] == a[i] by {
        assert(s.subrange(0, a.len() as int)[i] == s[i]);
    }
    assert forall|i: int| 0 <= i < b.len() implies s[i] == b[i] by {
        assert(s.subrange(0, b.len() as int)[i] == s[i]);
    }
    if a.len() < b.len() {
        assert(digits::is_digit(a[a.len() - 1]));
        assert(digits::is_digit(b[a.len() as int]));
        assert(s[a.len() as int] == b[a.len() as int]);
    } else if b.len() < a.len() {
        assert(digits::is_digit(b[b.len() - 1]));
        assert(digits::is_digit(a[b.len() as int]));
        assert(s[b.len() as int] == a[b.len() as int]);
    }
    assert(a =~= b);
}

proof fn lemma_no_mention_at(s: Seq<char>, mentions: Seq<MessageMentionV>)
    requires
        forall|j: int| 0 <= j < mentions.len() ==> !opens_with_mention(s, #[trigger] mentions[j]),
    ensures
        mention_at(s, mentions) is None,
{
    lemma_mention_at(s, mentions);
    if mention_at(s, mentions) is Some {
        let m = mention_at(s, mentions)->0;
        let j = choose|j: int| 0 <= j < mentions.len() && mentions[j] == m;
        assert(!opens_with_mention(s, mentions[j]));
    }
}

proof fn lemma_some_mention_at(s: Seq<char>, mentions: Seq<MessageMentionV>, i: int)
    requires
        0 <= i < mentions.len(),
        opens_with_mention(s, mentions[i]),
    ensures
        mention_at(s, mentions) is Some,
    decreases mentions.len(),
{
    if i > 0 && !opens_with_mention(s, mentions[0]) {
        assert(mentions.drop_first()[i - 1] == mentions[i]);
        lemma_some_mention_at(s, mentions.drop_first(), i - 1);
    }
}

/// A placeholder is written out by its own mention only: that of the bot goes together with a
/// blank behind it, that of somebody else becomes `@name`, and what follows is treated in the
/// same way, wherever the mention stands among the others.
pub proof fn law_own_mention_only(
    s: Seq<char>,
    mentions: Seq<MessageMentionV>,
    i: int,
    bot: Option<Seq<char>>,
)
    requires
        keys_tell_apart(mentions),
        0 <= i < mentions.len(),
        mentions[i].who() is Some,
        opens_with(s, mentions[i].key->0),
    ensures
        mention_at(s, mentions) == Some(mentions[i]),
        cleaned(s, mentions, bot) == written_out(mentions[i], bot) + cleaned(
            s.subrange(taken(s, mentions[i], bot), s.len() as int),
            mentions,
            bot,
        ),
{
    let key = mentions[i].key->0;
    assert(opens_with_mention(s, mentions[i]));
    lemma_some_mention_at(s, mentions, i);
    lemma_mention_at(s, mentions);
    let m = mention_at(s, mentions)->0;
    let j = choose|j: int| 0 <= j < mentions.len() && mentions[j] == m;
    lemma_one_placeholder(s, key, mentions[j].key->0);
    if i < j {
        assert(mentions[i].key != mentions[j].key);
    } else if j < i {
        assert(mentions[j].key != mentions[i].key);
    }
    assert(s.len() > 0);
}

/// A placeholder that belongs to none of the mentions is kept as it is.
pub proof fn law_unknown_placeholder_kept(
    key: Seq<char>,
    rest: Seq<char>,
    mentions: Seq<MessageMentionV>,
    bot: Option<Seq<char>>,
)
    requires
        keys_tell_apart(mentions),
        is_placeholder(key),
        forall|j: int| 0 <= j < mentions.len() ==> (#[trigger] mentions[j]).key != Some(key),
        rest.len() > 0 ==> !digits::is_digit(rest[0]),
    ensures
        cleaned(key + rest, mentions, bot) == key + cleaned(rest, mentions, bot),
{
    let s = key + rest;
    assert(s.subrange(0, key.len() as int) =~= key);
    assert(opens_with(s, key));
    assert forall|j: int| 0 <= j < mentions.len() implies !opens_with_mention(
        s,
        #[trigger] mentions[j],
    ) by {
        if opens_with_mention(s, mentions[j]) {
            lemma_one_placeholder(s, key, mentions[j].key->0);
        }
    }
    lemma_no_mention_at(s, mentions);
    reveal_strlit("@_user_");
    let tail = key.drop_first();
    assert forall|k: int| 0 <= k < tail.len() implies #[trigger] tail[k] != '@' by {
        if k < 6 {
            assert(key.subrange(0, 7)[k + 1] == key[k + 1]);
        } else {
            assert(digits::is_digit(key[k + 1]));
        }
    }
    law_plain_words_kept(tail, rest, mentions, bot);
    assert(s.drop_first() =~= tail + rest);
    assert(cleaned(s, mentions, bot) =~= key + cleaned(rest, mentions, bot));
}

/// What holds no `@` is kept as it is, before whatever follows.
pub proof fn law_plain_words_kept(
    front: Seq<char>,
    rest: Seq<char>,
    mentions: Seq<MessageMentionV>,
    bot: Option<Seq<char>>,
)
    requires
        keys_tell_apart(mentions),
        forall|k: int| 0 <= k < front.len() ==> #[trigger] front[k] != '@',
    ensures
        cleaned(front + rest, mentions, bot) == front + cleaned(rest, mentions, bot),
    decreases front.len(),
{
    let s = front + rest;
    if front.len() == 0 {
        assert(s =~= rest);
        assert(front + cleaned(rest, mentions, bot) =~= cleaned(rest, mentions, bot));
    } else {
        reveal_strlit("@_user_");
        assert forall|j: int| 0 <= j < mentions.len() implies !opens_with_mention(
            s,
            #[trigger] mentions[j],
        ) by {
            let k = mentions[j].key->0;
            assert(k.subrange(0, 7)[0] == k[0]);
            if text::begins(s, k) {
                assert(s.subrange(0, k.len() as int)[0] == s[0]);
                assert(front[0] != '@');
            }
        }
        lemma_no_mention_at(s, mentions);
        let tail = front.drop_first();
        assert forall|k: int| 0 <= k < tail.len() implies #[trigger] tail[k] != '@' by {
            assert(front[k + 1] != '@');
        }
        law_plain_words_kept(tail, rest, mentions, bot);
        assert(s.drop_first() =~= tail + rest);
        assert(cleaned(s, mentions, bot) =~= front + cleaned(rest, mentions, bot));
    }
}

/// Where the policy asks for it, a message in a group that neither mentions the bot nor is a
/// command leads to nothing.
pub proof fn law_group_needs_mention(evt: FeishuEventV, bot: Seq<char>)
    requires
        evt.event.message.chat_type == "group"@,
        !mentions_person(evt.event.message.mentions, bot),
        !is_command(evt.event.message),
    ensures
        message_event(evt, true, Some(bot)) is None,
{
}

/// Outside groups the policy does not matter.
pub proof fn law_private_needs_no_mention(
    evt: FeishuEventV,
    require: bool,
    bot: Option<Seq<char>>,
)
    requires
        evt.event.message.chat_type != "group"@,
    ensures
        message_event(evt, require, bot) == message_event(evt, false, bot),
{
}

/// A command is heeded in a group without a mention.
pub proof fn law_command_needs_no_mention(
    evt: FeishuEventV,
    require: bool,
    bot: Option<Seq<char>>,
)
    requires
        is_command(evt.event.message),
    ensures
        message_event(evt, require, bot) == message_event(evt, false, bot),
{
}

/// A message that leads on holds something: a text that is more than white space, or media.
pub proof fn law_no_empty_message(evt: FeishuEventV, require: bool, bot: Option<Seq<char>>)
    ensures
        message_event(evt, require, bot) matches Some((_, msg, media)) ==> text::nonblank(
            msg.text,
        ) is Some || media.len() > 0,
{
}

/// An answer finds its way back: a message leads to a conversation to which messages can be
/// sent, and they go to the chat, or the person, that the message came from.
pub proof fn law_answer_finds_way_back(evt: FeishuEventV, require: bool, bot: Option<Seq<char>>)
    requires
        reply_target(evt.event) matches Some((target, _)) ==> !target.contains(':'),
    ensures
        message_event(evt, require, bot) matches Some((_, msg, _)) ==> (reply_target(
            evt.event,
        ) matches Some((target, _)) && conv::conv_peer(msg.conv_id) == Some(target)),
{
    if message_event(evt, require, bot) is Some {
        let m = evt.event.message;
        let (target, _) = reply_target(evt.event)->0;
        text::lemma_after_own_prefix("feishu:"@, target);
        assert forall|j: int| 0 <= j < target.len() implies #[trigger] target[j] != ':' by {
            if target[j] == ':' {
                assert(target.contains(':'));
            }
        }
        text::lemma_position_at(target, ':', target.len() as int);
        assert(target.subrange(0, target.len() as int) =~= target);
        if m.root_id is Some {
            let rest = target + ":"@ + m.root_id->0;
            reveal_strlit(":");
            assert(conv::thread_name(target, m.root_id->0) =~= "feishu:"@ + rest);
            text::lemma_after_own_prefix("feishu:"@, rest);
            assert forall|j: int| 0 <= j < target.len() implies #[trigger] rest[j] != ':' by {
                assert(rest[j] == target[j]);
            }
            text::lemma_position_at(rest, ':', target.len() as int);
            assert(rest.subrange(0, target.len() as int) =~= target);
        }
    }
}

} // verus!
