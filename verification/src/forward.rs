//! Forwarded conversations: reading the forwarded messages and writing them out.
use chrono::TimeZone;
use vstd::prelude::*;

use crate::digits;
use crate::digits::{dec_i64, dec_usize, read_i64};
use crate::errors::CoreError;
use crate::events;
use crate::events::{FeishuEvent, FeishuEventV};
use crate::json;
use crate::json::{Json, JsonV, parse_json_str};
use crate::message;
use crate::message::{
    assemble_event_message, extract_text, group_mention_ok, MentionPolicy, parse_post,
    PendingMedia, read_event,
};
use crate::model;
use crate::model::{InboundMessage, InboundV, Mention};
use crate::text;
use crate::text::{
    borrow, cat2, cat3, cat4, cat5, char_count, either, own, str_eq, str_head, str_tail,
    str_trim, take_nonblank, take_nonempty,
};

verus! {

/// A transcript is cut off behind this many characters.
pub const MERGE_FORWARD_TRANSCRIPT_MAX: usize = 8000;

/// The text of a forwarded conversation until its messages have been fetched.
pub const MERGE_FORWARD_PLACEHOLDER: &'static str = "[合并转发消息]";

/// A message of a forwarded conversation.
#[derive(Debug, Clone, PartialEq, Eq)]
pub struct MergedForwardItem {
    pub message_id: String,
    pub message_type: String,
    /// The content, itself a JSON document in text form.
    pub content: String,
    pub sender_id: String,
    pub sender_name: Option<String>,
    /// In milliseconds since the start of 1970; zero where it is unknown.
    pub create_time_ms: i64,
}

#[verifier::ext_equal]
pub struct ItemV {
    pub message_id: Seq<char>,
    pub message_type: Seq<char>,
    pub content: Seq<char>,
    pub sender_id: Seq<char>,
    pub sender_name: Option<Seq<char>>,
    pub create_time_ms: int,
}

impl View for MergedForwardItem {
    type V = ItemV;

    open spec fn view(&self) -> ItemV {
        ItemV {
            message_id: self.message_id@,
            message_type: self.message_type@,
            content: self.content@,
            sender_id: self.sender_id@,
            sender_name: text::oview(self.sender_name),
            create_time_ms: self.create_time_ms as int,
        }
    }
}

/// What is needed to fetch and to head a forwarded conversation.
#[derive(Debug)]
pub struct MergedForwardMeta {
    pub message_id: String,
    pub title: Option<String>,
    pub summary: Option<String>,
}

#[verifier::ext_equal]
pub struct MetaV {
    pub message_id: Seq<char>,
    pub title: Option<Seq<char>>,
    pub summary: Option<Seq<char>>,
}

impl View for MergedForwardMeta {
    type V = MetaV;

    open spec fn view(&self) -> MetaV {
        MetaV {
            message_id: self.message_id@,
            title: text::oview(self.title),
            summary: text::oview(self.summary),
        }
    }
}

// ---------------------------------------------------------------------------
// The event
// ---------------------------------------------------------------------------

/// The title and the summary in the content of a forwarded conversation; none where the
/// content is not a document, or one of the two is no text.
pub open spec fn forward_head(content: Seq<char>) -> (Option<Seq<char>>, Option<Seq<char>>) {
    match json::parsed_text(content) {
        Some(j) => if j is Obj {
            match (events::opt_field(j, "title"@), events::opt_field(j, "summary"@)) {
                (Some(title), Some(summary)) => (title, summary),
                _ => (None, None),
            }
        } else {
            (None, None)
        },
        None => (None, None),
    }
}

/// What a forwarded conversation leads to: a key, a message with a placeholder for its text,
/// and what is needed to fetch it.
pub open spec fn forward_event(evt: FeishuEventV, require: bool, bot: Option<Seq<char>>) -> Option<
    (Seq<char>, InboundV, MetaV),
> {
    let m = evt.event.message;
    match text::nonempty(m.message_id) {
        Some(id) => if evt.header.event_type != "im.message.receive_v1"@ || m.message_type
            != "merged_forward"@ || !message::heeded(m.chat_type, m.mentions, require, bot) {
            None
        } else {
            match message::assembled(
                evt,
                (Some(MERGE_FORWARD_PLACEHOLDER@), Seq::empty(), Seq::empty()),
                bot,
            ) {
                Some((key, msg)) => Some(
                    (
                        key,
                        msg,
                        MetaV {
                            message_id: id,
                            title: forward_head(m.content).0,
                            summary: forward_head(m.content).1,
                        },
                    ),
                ),
                None => None,
            }
        },
        None => None,
    }
}

fn read_head(content: &str) -> (r: (Option<String>, Option<String>))
    ensures
        (text::oview(r.0), text::oview(r.1)) == forward_head(content@),
{
    match parse_json_str(content) {
        Some(j) => match j {
            Json::Obj(_) => {
                let title = match j.at("title") {
                    Json::Null => None,
                    Json::Str(s) => Some(s.clone()),
                    _ => {
                        return (None, None);
                    },
                };
                match j.at("summary") {
                    Json::Null => (title, None),
                    Json::Str(s) => (title, Some(s.clone())),
                    _ => (None, None),
                }
            },
            _ => (None, None),
        },
        None => (None, None),
    }
}

/// What a forwarded conversation leads to.
pub fn handle_forward(evt: &FeishuEvent, policy: &MentionPolicy, bot_open_id: Option<&str>) -> (r:
    Option<(String, InboundMessage, MergedForwardMeta)>)
    ensures
        match r {
            Some((key, msg, meta)) => forward_event(
                evt@,
                policy.require_mention_in_group,
                text::sview(bot_open_id),
            ) == Some((key@, msg@, meta@)),
            None => forward_event(
                evt@,
                policy.require_mention_in_group,
                text::sview(bot_open_id),
            ) is None,
        },
{
    let m = &evt.event.message;
    if !str_eq(evt.header.event_type.as_str(), "im.message.receive_v1") {
        return None;
    }
    if !str_eq(m.message_type.as_str(), "merged_forward") {
        return None;
    }
    let id = match take_nonempty(borrow(&m.message_id)) {
        Some(s) => s.to_owned(),
        None => {
            return None;
        },
    };
    if !group_mention_ok(m.chat_type.as_str(), &m.mentions, policy, bot_open_id) {
        return None;
    }
    let (title, summary) = read_head(m.content.as_str());
    let media: Vec<PendingMedia> = Vec::new();
    let mentions: Vec<Mention> = Vec::new();
    assert(model::listv(media@) =~= Seq::empty());
    assert(model::listv(mentions@) =~= Seq::empty());
    match assemble_event_message(
        evt,
        Some(MERGE_FORWARD_PLACEHOLDER.to_owned()),
        &media,
        mentions,
        bot_open_id,
    ) {
        Some((key, msg)) => Some((key, msg, MergedForwardMeta { message_id: id, title, summary })),
        None => None,
    }
}

/// What the bytes of an event lead to as a forwarded conversation.
pub open spec fn forward_event_in(
    payload: Seq<u8>,
    require: bool,
    bot: Option<Seq<char>>,
) -> Option<(Seq<char>, InboundV, MetaV)> {
    match json::parsed_json(payload) {
        Some(j) => match crate::events::feishu_event_of(j) {
            Some(evt) => forward_event(evt, require, bot),
            None => None,
        },
        None => None,
    }
}

/// What the bytes of an event lead to as a forwarded conversation: a key, a message with a
/// placeholder for its text, and what is needed to fetch it.
pub fn parse_merged_forward_event(
    payload: &[u8],
    policy: &MentionPolicy,
    bot_open_id: Option<&str>,
) -> (r: Option<(String, InboundMessage, MergedForwardMeta)>)
    ensures
        match r {
            Some((key, msg, meta)) => forward_event_in(
                payload@,
                policy.require_mention_in_group,
                text::sview(bot_open_id),
            ) == Some((key@, msg@, meta@)),
            None => forward_event_in(
                payload@,
                policy.require_mention_in_group,
                text::sview(bot_open_id),
            ) is None,
        },
{
    match read_event(payload) {
        Some(evt) => handle_forward(&evt, policy, bot_open_id),
        None => None,
    }
}

// ---------------------------------------------------------------------------
// Lines of a transcript
// ---------------------------------------------------------------------------

/// The name of a file, where the content gives one.
pub open spec fn file_name_in(content: Seq<char>) -> Option<Seq<char>> {
    match json::parsed_text(content) {
        Some(j) => match j.str_at("file_name"@) {
            Some(name) => text::nonempty(Some(text::trim(name))),
            None => None,
        },
        None => None,
    }
}

/// What stands for a message of a certain kind.
pub open spec fn item_body(item: ItemV) -> Seq<char> {
    let kind = item.message_type;
    if kind == "text"@ {
        text::or_text(message::text_in(item.content), "[文本消息]"@)
    } else if kind == "post"@ {
        match message::post_in(item.content, None, Seq::empty()) {
            Some((text, media, _)) => if text::nonblank(text) is Some {
                text->0
            } else if media.len() > 0 {
                "[图片]"@
            } else {
                "[富文本消息]"@
            },
            None => "[富文本消息]"@,
        }
    } else if kind == "image"@ {
        "[图片]"@
    } else if kind == "sticker"@ || kind == "emotion"@ {
        "[表情]"@
    } else if kind == "file"@ {
        match file_name_in(item.content) {
            Some(name) => "[文件: "@ + name + "]"@,
            None => "[文件]"@,
        }
    } else if kind == "media"@ || kind == "video"@ {
        "[视频]"@
    } else if kind == "interactive"@ {
        "[卡片消息]"@
    } else if kind == "merged_forward"@ {
        "[合并转发消息（嵌套）]"@
    } else {
        "[未知类型消息]"@
    }
}

/// What stands for the sender: the name, else the end of the identity.
pub open spec fn sender_label(name: Option<Seq<char>>, id: Seq<char>) -> Seq<char> {
    match text::nonblank(name) {
        Some(n) => text::trim(n),
        None => if id.len() == 0 {
            "未知"@
        } else {
            text::tail(id, 8)
        },
    }
}

/// The line of a message, with the time of day where it is known.
pub open spec fn item_line(item: ItemV, time: Option<Seq<char>>) -> Seq<char> {
    let sender = sender_label(item.sender_name, item.sender_id);
    match time {
        Some(t) => "["@ + sender + " "@ + t + "] "@ + item_body(item),
        None => "["@ + sender + "] "@ + item_body(item),
    }
}

/// What stands for the sender: the name, else the end of the identity.
pub fn merge_forward_sender_label(name: &Option<String>, id: &str) -> (r: String)
    ensures
        r@ == sender_label(text::oview(*name), id@),
{
    match take_nonblank(borrow(name)) {
        Some(n) => str_trim(n),
        None => if id.is_empty() {
            "未知".to_owned()
        } else {
            str_tail(id, 8)
        },
    }
}

fn read_file_name(content: &str) -> (r: Option<String>)
    ensures
        text::oview(r) == file_name_in(content@),
{
    match parse_json_str(content) {
        Some(j) => match j.str_at("file_name") {
            Some(name) => {
                let t = str_trim(name);
                if t.as_str().is_empty() {
                    None
                } else {
                    Some(t)
                }
            },
            None => None,
        },
        None => None,
    }
}

/// What stands for a message of a certain kind.
pub fn merge_forward_body(item: &MergedForwardItem) -> (r: String)
    ensures
        r@ == item_body(item@),
{
    let kind = item.message_type.as_str();
    let content = item.content.as_str();
    if str_eq(kind, "text") {
        match extract_text(content) {
            Some(t) => t,
            None => "[文本消息]".to_owned(),
        }
    } else if str_eq(kind, "post") {
        let empty = String::new();
        match parse_post(content, None, empty.as_str()) {
            Some((text, media, _)) => {
                assert(media@.len() == model::listv(media@).len());
                match take_nonblank(borrow(&text)) {
                    Some(t) => t.to_owned(),
                    None => if media.len() > 0 {
                        "[图片]".to_owned()
                    } else {
                        "[富文本消息]".to_owned()
                    },
                }
            },
            None => "[富文本消息]".to_owned(),
        }
    } else if str_eq(kind, "image") {
        "[图片]".to_owned()
    } else if str_eq(kind, "sticker") || str_eq(kind, "emotion") {
        "[表情]".to_owned()
    } else if str_eq(kind, "file") {
        match read_file_name(content) {
            Some(name) => cat3("[文件: ", name.as_str(), "]"),
            None => "[文件]".to_owned(),
        }
    } else if str_eq(kind, "media") || str_eq(kind, "video") {
        "[视频]".to_owned()
    } else if str_eq(kind, "interactive") {
        "[卡片消息]".to_owned()
    } else if str_eq(kind, "merged_forward") {
        "[合并转发消息（嵌套）]".to_owned()
    } else {
        "[未知类型消息]".to_owned()
    }
}

/// The line of a message, with the time of day where it is known.
pub fn merge_forward_line(item: &MergedForwardItem, time: Option<&str>) -> (r: String)
    ensures
        r@ == item_line(item@, text::sview(time)),
{
    let sender = merge_forward_sender_label(&item.sender_name, item.sender_id.as_str());
    let body = merge_forward_body(item);
    match time {
        Some(t) => crate::text::cat6("[", sender.as_str(), " ", t, "] ", body.as_str()),
        None => cat4("[", sender.as_str(), "] ", body.as_str()),
    }
}

// ---------------------------------------------------------------------------
// Transcripts
// ---------------------------------------------------------------------------

/// The head of a transcript: the title, else the number of messages, and the summary.
pub open spec fn transcript_head(
    n: nat,
    title: Option<Seq<char>>,
    summary: Option<Seq<char>>,
) -> Seq<char> {
    let first = match text::nonblank(title) {
        Some(t) => "【合并转发聊天记录】"@ + text::trim(t),
        None => "【合并转发聊天记录】共 "@ + digits::dec(n as int) + " 条"@,
    };
    match text::nonblank(summary) {
        Some(s) => first + "\n"@ + text::trim(s),
        None => first,
    }
}

/// The lines of a transcript, each with a line break before it.
pub open spec fn transcript_lines(
    items: Seq<ItemV>,
    times: Seq<Option<Seq<char>>>,
) -> Seq<Seq<char>> {
    Seq::new(items.len(), |i: int| "\n"@ + item_line(items[i], times[i]))
}

/// How many lines fit behind what is there.
pub open spec fn fitting(used: nat, lines: Seq<Seq<char>>) -> nat
    decreases lines.len(),
{
    if lines.len() == 0 || used + lines[0].len() > MERGE_FORWARD_TRANSCRIPT_MAX {
        0
    } else {
        1 + fitting(used + lines[0].len(), lines.drop_first())
    }
}

/// Texts in a row.
pub open spec fn concat(parts: Seq<Seq<char>>) -> Seq<char>
    decreases parts.len(),
{
    if parts.len() == 0 {
        Seq::empty()
    } else {
        concat(parts.drop_last()) + parts.last()
    }
}

/// How much room is left for a first line that does not fit.
pub open spec fn room_behind(used: nat) -> nat {
    if used <= MERGE_FORWARD_TRANSCRIPT_MAX {
        (MERGE_FORWARD_TRANSCRIPT_MAX - used) as nat
    } else {
        0
    }
}

/// A transcript without the note on what was left out: the head, as far as it fits, and the
/// lines that fit. Of a first line that does not fit, a part is kept.
pub open spec fn transcript_body(top: Seq<char>, lines: Seq<Seq<char>>) -> Seq<char> {
    let k = fitting(top.len(), lines);
    text::head(top, MERGE_FORWARD_TRANSCRIPT_MAX as nat) + if k == 0 && lines.len() > 0 {
        text::head(lines[0], room_behind(top.len()))
    } else {
        concat(lines.subrange(0, k as int))
    }
}

/// The note on what was left out of a transcript.
pub open spec fn transcript_note(top: Seq<char>, lines: Seq<Seq<char>>) -> Seq<char> {
    let k = fitting(top.len(), lines);
    if k == lines.len() && top.len() <= MERGE_FORWARD_TRANSCRIPT_MAX {
        Seq::empty()
    } else {
        "\n（已截断，共 "@ + digits::dec(lines.len() as int) + " 条中前 "@ + digits::dec(
            if k == 0 && lines.len() > 0 {
                1
            } else {
                k as int
            },
        ) + " 条）"@
    }
}

/// A transcript.
pub open spec fn transcript(
    items: Seq<ItemV>,
    times: Seq<Option<Seq<char>>>,
    title: Option<Seq<char>>,
    summary: Option<Seq<char>>,
) -> Seq<char> {
    let top = transcript_head(items.len(), title, summary);
    let lines = transcript_lines(items, times);
    transcript_body(top, lines) + transcript_note(top, lines)
}

pub proof fn lemma_fitting_bound(used: nat, lines: Seq<Seq<char>>)
    ensures
        fitting(used, lines) <= lines.len(),
    decreases lines.len(),
{
    if lines.len() > 0 {
        lemma_fitting_bound(used + lines[0].len(), lines.drop_first());
    }
}

proof fn lemma_concat_first(parts: Seq<Seq<char>>)
    requires
        parts.len() > 0,
    ensures
        concat(parts) == parts[0] + concat(parts.drop_first()),
    decreases parts.len(),
{
    if parts.len() == 1 {
        assert(parts.drop_last() =~= Seq::empty());
        assert(parts.drop_first() =~= Seq::empty());
        assert(concat(parts.drop_last()) =~= Seq::empty());
        assert(concat(parts) =~= parts[0]);
        assert(parts[0] + concat(parts.drop_first()) =~= parts[0]);
    } else {
        lemma_concat_first(parts.drop_last());
        assert(parts.drop_first().drop_last() =~= parts.drop_last().drop_first());
        assert(concat(parts) =~= parts[0] + concat(parts.drop_first()));
    }
}

/// What fits stays within the limit.
proof fn lemma_fitting_len(used: nat, lines: Seq<Seq<char>>)
    requires
        used <= MERGE_FORWARD_TRANSCRIPT_MAX,
    ensures
        fitting(used, lines) <= lines.len(),
        used + concat(lines.subrange(0, fitting(used, lines) as int)).len()
            <= MERGE_FORWARD_TRANSCRIPT_MAX,
    decreases lines.len(),
{
    lemma_fitting_bound(used, lines);
    let k = fitting(used, lines);
    if k > 0 {
        let rest = lines.drop_first();
        lemma_fitting_len(used + lines[0].len(), rest);
        let part = lines.subrange(0, k as int);
        lemma_concat_first(part);
        assert(part.drop_first() =~= rest.subrange(0, k - 1));
    } else {
        assert(lines.subrange(0, 0) =~= Seq::empty());
    }
}

/// A transcript stays within the limit, apart from the note on what was left out, which stands
/// where something was.
pub proof fn law_transcript_within_limit(top: Seq<char>, lines: Seq<Seq<char>>)
    ensures
        transcript_body(top, lines).len() <= MERGE_FORWARD_TRANSCRIPT_MAX,
        transcript_note(top, lines).len() == 0 ==> transcript_body(top, lines) == top + concat(
            lines,
        ),
{
    reveal_strlit("\n（已截断，共 ");
    if top.len() <= MERGE_FORWARD_TRANSCRIPT_MAX {
        lemma_fitting_len(top.len(), lines);
        if fitting(top.len(), lines) == lines.len() {
            lemma_written_out(top, lines);
        }
    } else if lines.len() == 0 {
        assert(concat(lines.subrange(0, 0)) =~= Seq::empty());
    }
}

proof fn lemma_written_out(top: Seq<char>, lines: Seq<Seq<char>>)
    requires
        top.len() <= MERGE_FORWARD_TRANSCRIPT_MAX,
        fitting(top.len(), lines) == lines.len(),
    ensures
        transcript_body(top, lines) == top + concat(lines),
        transcript_note(top, lines).len() == 0,
{
    assert(lines.subrange(0, lines.len() as int) =~= lines);
    assert(text::head(top, MERGE_FORWARD_TRANSCRIPT_MAX as nat) =~= top);
}

/// A transcript that fits as a whole is written out as a whole, without a note.
pub proof fn law_transcript_complete(top: Seq<char>, lines: Seq<Seq<char>>)
    requires
        top.len() + concat(lines).len() <= MERGE_FORWARD_TRANSCRIPT_MAX,
    ensures
        transcript_body(top, lines) == top + concat(lines),
        transcript_note(top, lines).len() == 0,
{
    lemma_all_fit(top.len(), lines);
    lemma_written_out(top, lines);
}

proof fn lemma_all_fit(used: nat, lines: Seq<Seq<char>>)
    requires
        used + concat(lines).len() <= MERGE_FORWARD_TRANSCRIPT_MAX,
    ensures
        fitting(used, lines) == lines.len(),
    decreases lines.len(),
{
    if lines.len() > 0 {
        lemma_concat_first(lines);
        lemma_all_fit(used + lines[0].len(), lines.drop_first());
    }
}

/// The time of day of a message in the local time zone, as `HH:MM`, from milliseconds since
/// the start of 1970: `chrono::Local`'s `timestamp_millis_opt`, printed with `%H:%M`; `None`
/// where the time is out of the range of `DateTime`. Which time zone is local, and so which
/// time of day comes out, is left open.
#[verifier::external_body]
fn local_hhmm(ms: i64) -> (r: Option<String>)
    ensures
        r is Some <==> has_date(ms as int),
        r matches Some(s) ==> is_hhmm(s@),
{
    chrono::Local.timestamp_millis_opt(ms).single().map(|dt| dt.format("%H:%M").to_string())
}

/// Whether milliseconds since the start of 1970 lie in a year from -262143 to 262142.
pub open spec fn has_date(ms: int) -> bool {
    -8334601228800000 <= ms <= 8210266876799999
}

/// Whether a text is a time of day: two digits below 24, a colon, two digits below 60.
pub open spec fn is_hhmm(s: Seq<char>) -> bool {
    &&& s.len() == 5 && s[2] == ':'
    &&& digits::is_digit(s[0]) && digits::is_digit(s[1])
    &&& digits::is_digit(s[3]) && digits::is_digit(s[4])
    &&& s[0] < '2' || (s[0] == '2' && s[1] < '4')
    &&& s[3] < '6'
}

/// Whether these can be the times of day of some messages: a message has one where its time
/// is known and in range.
pub open spec fn possible_times(items: Seq<ItemV>, times: Seq<Option<Seq<char>>>) -> bool {
    times.len() == items.len() && forall|i: int|
        0 <= i < items.len() ==> possible_time(items[i].create_time_ms, #[trigger] times[i])
}

/// Whether this can be the time of day of a message of the given time.
pub open spec fn possible_time(ms: int, t: Option<Seq<char>>) -> bool {
    match t {
        Some(s) => ms > 0 && has_date(ms) && is_hhmm(s),
        None => ms <= 0 || !has_date(ms),
    }
}

/// The time of day of a message; `None` where the time is unknown or out of range.
pub fn merge_forward_time_label(ms: i64) -> (r: Option<String>)
    ensures
        possible_time(ms as int, text::oview(r)),
{
    if ms <= 0 {
        None
    } else {
        local_hhmm(ms)
    }
}

/// Optional texts by their views.
pub open spec fn oviews(v: Seq<Option<String>>) -> Seq<Option<Seq<char>>> {
    Seq::new(v.len(), |i: int| text::oview(v[i]))
}

fn write_head(n: usize, title: Option<&str>, summary: Option<&str>) -> (r: String)
    ensures
        r@ == transcript_head(n as nat, text::sview(title), text::sview(summary)),
{
    let first = match take_nonblank(title) {
        Some(t) => cat2("【合并转发聊天记录】", str_trim(t).as_str()),
        None => cat3("【合并转发聊天记录】共 ", dec_usize(n).as_str(), " 条"),
    };
    match take_nonblank(summary) {
        Some(s) => cat3(first.as_str(), "\n", str_trim(s).as_str()),
        None => first,
    }
}

fn write_note(n: usize, shown: usize) -> (r: String)
    ensures
        r@ == "\n（已截断，共 "@ + digits::dec(n as int) + " 条中前 "@ + digits::dec(shown as int)
            + " 条）"@,
{
    cat5(
        "\n（已截断，共 ",
        dec_usize(n).as_str(),
        " 条中前 ",
        dec_usize(shown).as_str(),
        " 条）",
    )
}

/// A transcript of messages whose times of day are given.
pub fn render_transcript_with(
    items: &[MergedForwardItem],
    times: &Vec<Option<String>>,
    title: Option<&str>,
    summary: Option<&str>,
) -> (r: String)
    requires
        times@.len() == items@.len(),
    ensures
        r@ == transcript(model::listv(items@), oviews(times@), text::sview(title), text::sview(summary)),
{
    let n: usize = items.len();
    let mut out = write_head(n, title, summary);
    let ghost top = out@;
    let ghost lines = transcript_lines(model::listv(items@), oviews(times@));
    let mut used: usize = char_count(out.as_str());
    let mut i: usize = 0;
    proof {
        lemma_fitting_bound(top.len(), lines);
        assert(lines.subrange(0, 0) =~= Seq::empty());
        assert(lines.subrange(0, lines.len() as int) =~= lines);
        assert(top =~= top + concat(lines.subrange(0, 0)));
    }
    if used > MERGE_FORWARD_TRANSCRIPT_MAX {
        let part = str_head(out.as_str(), MERGE_FORWARD_TRANSCRIPT_MAX);
        let shown: usize = if n > 0 {
            1
        } else {
            0
        };
        let note = write_note(n, shown);
        assert(part@ =~= transcript_body(top, lines));
        return cat2(part.as_str(), note.as_str());
    }
    assert(text::head(top, MERGE_FORWARD_TRANSCRIPT_MAX as nat) == top);
    while i < n
        invariant
            i <= n,
            top.len() <= MERGE_FORWARD_TRANSCRIPT_MAX,
            used <= MERGE_FORWARD_TRANSCRIPT_MAX,
            n == items@.len(),
            times@.len() == items@.len(),
            lines == transcript_lines(model::listv(items@), oviews(times@)),
            top == transcript_head(n as nat, text::sview(title), text::sview(summary)),
            out@ == top + concat(lines.subrange(0, i as int)),
            used == out@.len(),
            fitting(top.len(), lines) == i + fitting(
                used as nat,
                lines.subrange(i as int, lines.len() as int),
            ),
        decreases n - i,
    {
        let line = cat2("\n", merge_forward_line(&items[i], borrow(&times[i])).as_str());
        let len: usize = char_count(line.as_str());
        let ghost rest = lines.subrange(i as int, lines.len() as int);
        assert(rest[0] == line@);
        if len > MERGE_FORWARD_TRANSCRIPT_MAX - used {
            assert(fitting(used as nat, rest) == 0);
            let mut shown: usize = i;
            if i == 0 {
                let room: usize = MERGE_FORWARD_TRANSCRIPT_MAX - used;
                out = cat2(out.as_str(), str_head(line.as_str(), room).as_str());
                assert(lines.subrange(0, 0) =~= Seq::empty());
                assert(top + concat(lines.subrange(0, 0)) =~= top);
                shown = 1;
            }
            assert(out@ == transcript_body(top, lines));
            let note = write_note(n, shown);
            assert(note@ == transcript_note(top, lines));
            return cat2(out.as_str(), note.as_str());
        }
        out = cat2(out.as_str(), line.as_str());
        proof {
            let now = lines.subrange(0, i + 1);
            assert(now.drop_last() =~= lines.subrange(0, i as int));
            assert(now.last() == line@);
            assert(out@ =~= top + concat(now));
            assert(rest.drop_first() =~= lines.subrange(i + 1, lines.len() as int));
        }
        used = used + len;
        i += 1;
    }
    proof {
        assert(fitting(top.len(), lines) == lines.len());
        assert(out@ =~= transcript_body(top, lines) + transcript_note(top, lines));
    }
    out
}

/// A transcript of messages, each with its time of day in the local time zone.
pub fn render_merge_forward_transcript(
    items: &[MergedForwardItem],
    title: Option<&str>,
    summary: Option<&str>,
) -> (r: String)
    ensures
        exists|times: Seq<Option<Seq<char>>>| #[trigger]
            possible_times(model::listv(items@), times) && r@ == transcript(
                model::listv(items@),
                times,
                text::sview(title),
                text::sview(summary),
            ),
{
    let mut times: Vec<Option<String>> = Vec::new();
    let mut i: usize = 0;
    while i < items.len()
        invariant
            i <= items@.len(),
            times@.len() == i,
            forall|k: int|
                0 <= k < i ==> possible_time(
                    items@[k].create_time_ms as int,
                    text::oview(#[trigger] times@[k]),
                ),
        decreases items@.len() - i,
    {
        times.push(merge_forward_time_label(items[i].create_time_ms));
        i += 1;
    }
    let r = render_transcript_with(items, &times, title, summary);
    proof {
        let all = model::listv(items@);
        let shown = oviews(times@);
        assert forall|k: int| 0 <= k < all.len() implies possible_time(
            all[k].create_time_ms,
            #[trigger] shown[k],
        ) by {
            assert(times@[k] == times@[k]);
            assert(all[k].create_time_ms == items@[k].create_time_ms);
        }
        assert(possible_times(all, shown));
    }
    r
}

// ---------------------------------------------------------------------------
// Fetching
// ---------------------------------------------------------------------------

/// A time in milliseconds. A number that can only be in seconds is taken as such.
pub open spec fn millis(raw: int) -> int {
    if 0 < raw < 100_000_000_000 {
        raw * 1000
    } else {
        raw
    }
}

/// The time of a message: a number or a text with one; zero where there is none.
pub open spec fn create_time(v: JsonV) -> int {
    match v.as_i64() {
        Some(i) => millis(i as int),
        None => match v {
            JsonV::Str(s) => match digits::parse_i64(s) {
                Some(i) => millis(i as int),
                None => 0,
            },
            _ => 0,
        },
    }
}

/// A message of a page.
pub open spec fn page_item(v: JsonV) -> ItemV {
    let s = v.at("sender"@);
    ItemV {
        message_id: text::or_text(v.str_at("message_id"@), Seq::empty()),
        message_type: text::or_text(
            text::first_of(v.str_at("message_type"@), v.str_at("msg_type"@)),
            Seq::empty(),
        ),
        content: text::or_text(v.str_at("content"@), Seq::empty()),
        sender_id: text::or_text(text::first_of(s.str_at("id"@), s.str_at("open_id"@)), Seq::empty()),
        sender_name: match s.str_at("name"@) {
            Some(n) => text::nonempty(Some(text::trim(n))),
            None => None,
        },
        create_time_ms: create_time(v.at("create_time"@)),
    }
}

/// The messages among the elements of a page; what is no object is passed over.
pub open spec fn page_items(items: Seq<JsonV>) -> Seq<ItemV>
    decreases items.len(),
{
    if items.len() == 0 {
        Seq::empty()
    } else {
        let before = page_items(items.drop_last());
        if items.last() is Obj {
            before.push(page_item(items.last()))
        } else {
            before
        }
    }
}

/// A page of a forwarded conversation.
#[derive(Debug)]
pub struct MergeForwardPage {
    pub items: Vec<MergedForwardItem>,
    pub has_more: bool,
    pub page_token: Option<String>,
}

/// The code of a reply; -1 where there is none.
pub open spec fn reply_code(v: JsonV) -> int {
    match v.at("code"@).as_i64() {
        Some(c) => c as int,
        None => -1,
    }
}

/// Whether a page is the one that a document holds.
pub open spec fn holds_page(page: MergeForwardPage, v: JsonV) -> bool {
    let data = v.at("data"@);
    &&& model::listv(page.items@) == page_items(data.at("items"@).elements())
    &&& page.has_more == (data.at("has_more"@) == JsonV::Bool(true))
    &&& text::oview(page.page_token) == text::nonempty(data.str_at("page_token"@))
}

/// The error of a page that was refused.
pub open spec fn page_error(v: JsonV) -> Seq<char> {
    "list_merge_forward: code="@ + digits::dec(reply_code(v)) + " msg="@ + text::or_text(
        v.str_at("msg"@),
        Seq::empty(),
    )
}

/// The time of a message: a number or a text with one; zero where there is none.
pub fn merge_forward_create_time(v: Option<&Json>) -> (r: i64)
    ensures
        r == match v {
            Some(j) => create_time(j@),
            None => 0,
        },
{
    let raw: i64 = match v {
        Some(j) => match j.as_i64() {
            Some(i) => i,
            None => match j.as_str() {
                Some(s) => match read_i64(s) {
                    Some(i) => i,
                    None => 0,
                },
                None => 0,
            },
        },
        None => 0,
    };
    if raw > 0 && raw < 100_000_000_000 {
        raw * 1000
    } else {
        raw
    }
}

fn text_or_empty(o: Option<&str>) -> (r: String)
    ensures
        r@ == text::or_text(text::sview(o), Seq::empty()),
{
    match o {
        Some(s) => s.to_owned(),
        None => String::new(),
    }
}

/// A message of a page; `None` for what is no object.
pub fn merge_forward_item_of(v: &Json) -> (r: Option<MergedForwardItem>)
    ensures
        r is Some <==> v@ is Obj,
        r matches Some(item) ==> item@ == page_item(v@),
{
    match v {
        Json::Obj(_) => {
            let s = v.at("sender");
            let sender_name = match s.str_at("name") {
                Some(n) => {
                    let t = str_trim(n);
                    if t.as_str().is_empty() {
                        None
                    } else {
                        Some(t)
                    }
                },
                None => None,
            };
            Some(
                MergedForwardItem {
                    message_id: text_or_empty(v.str_at("message_id")),
                    message_type: text_or_empty(
                        either(v.str_at("message_type"), v.str_at("msg_type")),
                    ),
                    content: text_or_empty(v.str_at("content")),
                    sender_id: text_or_empty(either(s.str_at("id"), s.str_at("open_id"))),
                    sender_name,
                    create_time_ms: merge_forward_create_time(Some(v.at("create_time"))),
                },
            )
        },
        _ => None,
    }
}

/// The code of a reply; -1 where there is none.
pub fn code_of(v: &Json) -> (r: i64)
    ensures
        r == reply_code(v@),
{
    match v.at("code").as_i64() {
        Some(c) => c,
        None => -1,
    }
}

/// Reads a page of a forwarded conversation.
pub fn parse_merge_forward_page(v: &Json) -> (r: Result<MergeForwardPage, CoreError>)
    ensures
        r is Ok <==> reply_code(v@) == 0,
        r matches Ok(page) ==> holds_page(page, v@),
        r matches Err(e) ==> e is Platform && e@ == page_error(v@),
{
    let code: i64 = code_of(v);
    if code != 0 {
        let msg = text_or_empty(v.str_at("msg"));
        return Err(
            CoreError::Platform(
                cat4(
                    "list_merge_forward: code=",
                    dec_i64(code).as_str(),
                    " msg=",
                    msg.as_str(),
                ),
            ),
        );
    }
    let data = v.at("data");
    let mut items: Vec<MergedForwardItem> = Vec::new();
    match data.at("items") {
        Json::Arr(list) => {
            proof {
                json::lemma_items_index(list@);
            }
            let ghost all = json::items_view(list@);
            let mut i: usize = 0;
            assert(model::listv(items@) =~= page_items(all.subrange(0, 0)));
            while i < list.len()
                invariant
                    i <= list@.len(),
                    all == json::items_view(list@),
                    all.len() == list@.len(),
                    forall|k: int| 0 <= k < list@.len() ==> #[trigger] all[k] == list@[k]@,
                    model::listv(items@) == page_items(all.subrange(0, i as int)),
                decreases list@.len() - i,
            {
                let ghost before = items@;
                proof {
                    assert(all.subrange(0, i + 1).drop_last() =~= all.subrange(0, i as int));
                    assert(all.subrange(0, i + 1).last() == list@[i as int]@);
                }
                match merge_forward_item_of(&list[i]) {
                    Some(item) => {
                        items.push(item);
                        assert(model::listv(items@) =~= model::listv(before).push(item@));
                    },
                    None => {},
                }
                i += 1;
            }
            assert(all.subrange(0, all.len() as int) =~= all);
        },
        _ => {
            assert(model::listv(items@) =~= page_items(Seq::empty()));
        },
    }
    let has_more = match data.at("has_more") {
        Json::Bool(b) => *b,
        _ => false,
    };
    let page_token = own(take_nonempty(data.str_at("page_token")));
    Ok(MergeForwardPage { items, has_more, page_token })
}

} // verus!
