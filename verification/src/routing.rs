//! Where messages go, and in how many pieces.
use chrono::Timelike;
use vstd::prelude::*;

use crate::conv;
use crate::conv::{
    comment_target_from_conv, receive_target_from_conv, ReceiveIdKind,
    thread_target_from_conv,
};
use crate::digits;
use crate::digits::dec_usize;
use crate::errors::CoreError;
use crate::markdown;
use crate::markdown::mask_emails;
use crate::model::ConvId;
use crate::text;
use crate::text::{cat2, cat4, cat6, chars_of, piece};

verus! {

// ---------------------------------------------------------------------------
// Where
// ---------------------------------------------------------------------------

/// Where a message goes.
#[derive(Debug, Clone, PartialEq, Eq)]
pub enum Route {
    /// As an answer to a comment on a document.
    Comment { file_token: String, comment_id: String },
    /// As an answer to the first message of a thread.
    Thread { root_id: String },
    /// To a chat.
    Chat { receive_id: String, kind: ReceiveIdKind },
}

#[verifier::ext_equal]
pub enum RouteV {
    Comment { file_token: Seq<char>, comment_id: Seq<char> },
    Thread { root_id: Seq<char> },
    Chat { receive_id: Seq<char>, kind: ReceiveIdKind },
}

impl View for Route {
    type V = RouteV;

    open spec fn view(&self) -> RouteV {
        match *self {
            Route::Comment { file_token, comment_id } => RouteV::Comment {
                file_token: file_token@,
                comment_id: comment_id@,
            },
            Route::Thread { root_id } => RouteV::Thread { root_id: root_id@ },
            Route::Chat { receive_id, kind } => RouteV::Chat { receive_id: receive_id@, kind },
        }
    }
}

/// Why a conversation cannot be written to.
pub open spec fn bad_conv(conv: Seq<char>) -> Seq<char> {
    "非法 conv_id: "@ + conv
}

/// Where a card goes. There are no cards in comments, but a conversation that looks like one
/// is not looked into here.
pub open spec fn card_route(conv: Seq<char>) -> Result<RouteV, Seq<char>> {
    match conv::thread_target_of(conv) {
        Some((_, root_id)) => Ok(RouteV::Thread { root_id }),
        None => match conv::receive_target_of(conv) {
            Some((receive_id, kind)) => Ok(RouteV::Chat { receive_id, kind }),
            None => Err(bad_conv(conv)),
        },
    }
}

/// Where a text goes: a comment is answered where the last one is known, or where the name of
/// the conversation tells it.
pub open spec fn text_route(conv: Seq<char>, anchor: Option<Seq<char>>, missing: Seq<char>) -> Result<
    RouteV,
    Seq<char>,
> {
    match conv::comment_target_of(conv) {
        Some((file_token, named)) => match text::first_of(anchor, named) {
            Some(comment_id) => Ok(RouteV::Comment { file_token, comment_id }),
            None => Err(missing),
        },
        None => card_route(conv),
    }
}

/// Whether an outcome is the wanted one; every error is one of the platform's.
pub open spec fn routes(r: Result<Route, CoreError>, want: Result<RouteV, Seq<char>>) -> bool {
    match (r, want) {
        (Ok(a), Ok(b)) => a@ == b,
        (Err(e), Err(m)) => e is Platform && e@ == m,
        _ => false,
    }
}

/// The error where it is not known which comment to answer.
pub const NO_COMMENT_FOR_TEXT: &'static str = "评论线程缺少回复目标（comment_id），无法回复";

/// The error where it is not known which comment to answer with a file.
pub const NO_COMMENT_FOR_MEDIA: &'static str = "评论线程缺少回复目标（comment_id），无法发送媒体";

/// The error where a comment cannot be answered with a file.
pub const NO_FILE_IN_COMMENT: &'static str = "评论线程暂不支持发送文件，请在聊天会话中获取文件。";

/// Where a card goes.
pub fn route_card(conv: &ConvId) -> (r: Result<Route, CoreError>)
    ensures
        routes(r, card_route(conv@)),
{
    match thread_target_from_conv(conv) {
        Some((_, root_id)) => Ok(Route::Thread { root_id }),
        None => match receive_target_from_conv(conv) {
            Some((receive_id, kind)) => Ok(Route::Chat { receive_id, kind }),
            None => Err(CoreError::Platform(cat2("非法 conv_id: ", conv.0.as_str()))),
        },
    }
}

fn route_with(conv: &ConvId, anchor: Option<&str>, missing: &str) -> (r: Result<Route, CoreError>)
    ensures
        routes(r, text_route(conv@, text::sview(anchor), missing@)),
{
    match comment_target_from_conv(conv) {
        Some((file_token, named)) => match anchor {
            Some(a) => Ok(Route::Comment { file_token, comment_id: a.to_owned() }),
            None => match named {
                Some(comment_id) => Ok(Route::Comment { file_token, comment_id }),
                None => Err(CoreError::Platform(missing.to_owned())),
            },
        },
        None => route_card(conv),
    }
}

/// Where a text goes.
pub fn route_text(conv: &ConvId, comment_anchor: Option<&str>) -> (r: Result<Route, CoreError>)
    ensures
        routes(r, text_route(conv@, text::sview(comment_anchor), NO_COMMENT_FOR_TEXT@)),
{
    route_with(conv, comment_anchor, NO_COMMENT_FOR_TEXT)
}

/// Where a file goes. A comment can be answered with a picture only.
pub open spec fn media_route(conv: Seq<char>, anchor: Option<Seq<char>>, image: bool) -> Result<
    RouteV,
    Seq<char>,
> {
    match text_route(conv, anchor, NO_COMMENT_FOR_MEDIA@) {
        Ok(RouteV::Comment { file_token, comment_id }) => if image {
            Ok(RouteV::Comment { file_token, comment_id })
        } else {
            Err(NO_FILE_IN_COMMENT@)
        },
        other => other,
    }
}

/// Where a file goes.
pub fn route_media(conv: &ConvId, comment_anchor: Option<&str>, is_image: bool) -> (r: Result<
    Route,
    CoreError,
>)
    ensures
        routes(r, media_route(conv@, text::sview(comment_anchor), is_image)),
{
    match route_with(conv, comment_anchor, NO_COMMENT_FOR_MEDIA) {
        Ok(Route::Comment { file_token, comment_id }) => if is_image {
            Ok(Route::Comment { file_token, comment_id })
        } else {
            Err(CoreError::Platform(NO_FILE_IN_COMMENT.to_owned()))
        },
        Ok(route) => Ok(route),
        Err(e) => Err(e),
    }
}

/// Where a notice goes; nowhere where it is not known which comment to answer, or where the
/// conversation is none.
pub open spec fn notice_route(conv: Seq<char>) -> Option<RouteV> {
    match text_route(conv, None, Seq::empty()) {
        Ok(r) => Some(r),
        Err(_) => None,
    }
}

/// Where a notice goes.
pub fn route_notice(conv: &ConvId) -> (r: Option<Route>)
    ensures
        crate::model::optv(r) == notice_route(conv@),
{
    match route_with(conv, None, "") {
        Ok(r) => Some(r),
        Err(_) => None,
    }
}

/// Whether the text of a task can be shown on a card that is written as it goes: anywhere but
/// in comments.
pub fn supports_streaming_card(conv: &ConvId) -> (r: bool)
    ensures
        r == !crate::text::begins(conv@, crate::conv::COMMENT_CONV_PREFIX@),
{
    !crate::text::str_begins(conv.0.as_str(), crate::conv::COMMENT_CONV_PREFIX)
}

/// The conversations that learn that a click was refused: the one of the card, and that of
/// the person who clicked, where that is another.
pub open spec fn refusal_convs(conv: Seq<char>, sender: Seq<char>) -> Seq<Seq<char>> {
    if sender.len() > 0 && conv != crate::conv::conv_name(sender) {
        seq![conv, crate::conv::conv_name(sender)]
    } else {
        seq![conv]
    }
}

/// The conversations that learn that a click was refused.
pub fn refusal_targets(conv: &str, sender: &str) -> (r: Vec<String>)
    ensures
        text::views(r@) == refusal_convs(conv@, sender@),
{
    let mut out: Vec<String> = Vec::new();
    out.push(conv.to_owned());
    assert(text::views(out@) =~= seq![conv@]);
    if !sender.is_empty() {
        let own_conv = crate::conv::conv_with(sender);
        if !crate::text::str_eq(conv, own_conv.as_str()) {
            out.push(own_conv);
            assert(text::views(out@) =~= seq![conv@, own_conv@]);
        }
    }
    out
}

// ---------------------------------------------------------------------------
// In how many pieces
// ---------------------------------------------------------------------------

/// The most characters of a text message.
pub const FEISHU_TEXT_MAX: usize = 28000;

/// The most characters of a comment.
pub const FEISHU_COMMENT_TEXT_MAX: usize = 3000;

/// The limit that holds: the configured one, but never more than the platform's.
pub open spec fn limit(configured: Option<usize>, most: usize) -> usize {
    match configured {
        Some(n) => if n < most {
            n
        } else {
            most
        },
        None => most,
    }
}

/// The most characters of a text message, with the configured limit.
pub fn text_split_max(message_max_len: Option<usize>) -> (r: usize)
    ensures
        r == limit(message_max_len, FEISHU_TEXT_MAX),
{
    match message_max_len {
        Some(n) => if n < FEISHU_TEXT_MAX {
            n
        } else {
            FEISHU_TEXT_MAX
        },
        None => FEISHU_TEXT_MAX,
    }
}

/// The most characters of a comment, with the configured limit.
pub fn comment_split_max(message_max_len: Option<usize>) -> (r: usize)
    ensures
        r == limit(message_max_len, FEISHU_COMMENT_TEXT_MAX),
{
    match message_max_len {
        Some(n) => if n < FEISHU_COMMENT_TEXT_MAX {
            n
        } else {
            FEISHU_COMMENT_TEXT_MAX
        },
        None => FEISHU_COMMENT_TEXT_MAX,
    }
}

/// The pieces of a text with at most `n` characters each. Without a limit there is one piece.
pub open spec fn pieces(s: Seq<char>, n: nat) -> Seq<Seq<char>>
    decreases s.len(),
{
    if n == 0 || s.len() <= n {
        seq![s]
    } else {
        seq![s.subrange(0, n as int)] + pieces(s.subrange(n as int, s.len() as int), n)
    }
}

/// The pieces of a text with at most `max` characters each. Where a text is cut is a choice of
/// this library: what sends pieces takes any.
pub fn split_message(text: &str, max: usize) -> (r: Vec<String>)
    ensures
        text::views(r@) == pieces(text@, max as nat),
        r@.len() > 0,
{
    let v = chars_of(text);
    let mut out: Vec<String> = Vec::new();
    let mut from: usize = 0;
    assert(v@.subrange(0, v@.len() as int) =~= v@);
    if max > 0 {
        while v.len() - from > max
            invariant
                max > 0,
                from <= v@.len(),
                v@ == text@,
                pieces(text@, max as nat) =~= text::views(out@) + pieces(
                    v@.subrange(from as int, v@.len() as int),
                    max as nat,
                ),
            decreases v@.len() - from,
        {
            let ghost rest = v@.subrange(from as int, v@.len() as int);
            let ghost before = out@;
            let p = piece(&v, from, from + max);
            assert(rest.subrange(0, max as int) =~= p@);
            assert(rest.subrange(max as int, rest.len() as int) =~= v@.subrange(
                from + max,
                v@.len() as int,
            ));
            out.push(p);
            assert(text::views(out@) =~= text::views(before).push(p@));
            from = from + max;
        }
    }
    let ghost before = out@;
    let p = piece(&v, from, v.len());
    out.push(p);
    assert(text::views(out@) =~= text::views(before).push(p@));
    out
}

/// Pieces of a text, the first of which tells how many there are where there are several and
/// they go into a comment.
pub open spec fn counted(all: Seq<Seq<char>>, in_comment: bool) -> Seq<Seq<char>> {
    if in_comment && all.len() > 1 {
        all.update(0, "（共 "@ + digits::dec(all.len() as int) + " 段）\n"@ + all[0])
    } else {
        all
    }
}

/// The pieces in which a text is sent. Its mail addresses are masked.
pub open spec fn outgoing(text: Seq<char>, in_comment: bool, max: nat) -> Seq<Seq<char>> {
    counted(pieces(markdown::masked(text), max), in_comment)
}

/// The pieces in which a text is sent.
pub fn outgoing_pieces(text: &str, in_comment: bool, max: usize) -> (r: Vec<String>)
    ensures
        text::views(r@) == outgoing(text@, in_comment, max as nat),
{
    count_pieces(split_message(mask_emails(text).as_str(), max), in_comment)
}

/// Pieces of a text, the first of which tells how many there are where there are several and
/// they go into a comment.
pub fn count_pieces(pieces: Vec<String>, in_comment: bool) -> (r: Vec<String>)
    ensures
        text::views(r@) == counted(text::views(pieces@), in_comment),
{
    let mut all = pieces;
    let ghost before = all@;
    assert(text::views(before).len() == before.len());
    if in_comment && all.len() > 1 {
        assert(text::views(before)[0] == before[0]@);
        let first = cat4("（共 ", dec_usize(all.len()).as_str(), " 段）\n", all[0].as_str());
        all.set(0, first);
        assert(text::views(all@) =~= text::views(before).update(0, first@));
    }
    all
}

/// The error where a piece could not be sent.
pub open spec fn piece_error(i: int, total: int, e: Seq<char>) -> Seq<char> {
    "第 "@ + digits::dec(i + 1) + "/"@ + digits::dec(total) + " 片发送失败（回复可能被截断）："@ + e
}

/// The error where a piece could not be sent.
pub fn piece_failure(i: usize, total: usize, e: &CoreError) -> (r: CoreError)
    requires
        i < total,
    ensures
        r is Platform,
        r@ == piece_error(i as int, total as int, e@),
{
    CoreError::Platform(
        cat6(
            "第 ",
            dec_usize(i + 1).as_str(),
            "/",
            dec_usize(total).as_str(),
            " 片发送失败（回复可能被截断）：",
            e.message(),
        ),
    )
}

// ---------------------------------------------------------------------------
// When it matters
// ---------------------------------------------------------------------------

/// How long an access token is used, in milliseconds.
pub const TOKEN_TTL_MS: u64 = 6600000;

/// The access token in use, and when it was fetched.
#[derive(Debug, Clone, PartialEq, Eq)]
pub struct TokenCache {
    pub token: Option<(String, u64)>,
}

/// The token that can still be used at a given time.
pub open spec fn good_token(c: Option<(Seq<char>, u64)>, now: int) -> Option<Seq<char>> {
    match c {
        Some((t, then)) => if now < then || now - then < TOKEN_TTL_MS {
            Some(t)
        } else {
            None
        },
        None => None,
    }
}

impl View for TokenCache {
    type V = Option<(Seq<char>, u64)>;

    open spec fn view(&self) -> Option<(Seq<char>, u64)> {
        match self.token {
            Some((t, then)) => Some((t@, then)),
            None => None,
        }
    }
}

impl TokenCache {
    /// No token is in use.
    pub fn new() -> (r: TokenCache)
        ensures
            r@ is None,
    {
        TokenCache { token: None }
    }

    /// The token that can still be used.
    pub fn fresh(&self, now_ms: u64) -> (r: Option<&str>)
        ensures
            text::sview(r) == good_token(self@, now_ms as int),
    {
        match &self.token {
            Some((t, then)) => if now_ms < *then || now_ms - *then < TOKEN_TTL_MS {
                Some(t.as_str())
            } else {
                None
            },
            None => None,
        }
    }

    /// A token was fetched.
    pub fn store(&mut self, token: &str, now_ms: u64)
        ensures
            final(self)@ == Some((token@, now_ms)),
    {
        self.token = Some((token.to_owned(), now_ms));
    }

    /// The token is no longer good.
    pub fn invalidate(&mut self)
        ensures
            final(self)@ is None,
    {
        self.token = None;
    }
}

/// The hours in which nobody is to be disturbed, in minutes of the day. They may reach over
/// midnight.
#[derive(Debug, Clone, Copy, PartialEq, Eq)]
pub struct QuietHours {
    pub from: u32,
    pub to: u32,
}

/// Whether a minute of the day lies in the quiet hours.
pub open spec fn quiet_at(q: QuietHours, minute: int) -> bool {
    if q.from <= q.to {
        q.from <= minute < q.to
    } else {
        q.from <= minute || minute < q.to
    }
}

impl QuietHours {
    /// Whether a minute of the day lies in the quiet hours.
    pub fn contains(&self, minute: u32) -> (r: bool)
        ensures
            r == quiet_at(*self, minute as int),
    {
        if self.from <= self.to {
            self.from <= minute && minute < self.to
        } else {
            self.from <= minute || minute < self.to
        }
    }
}

/// Whether a time of day, by its hour and its minute, lies in the quiet hours.
pub open spec fn quiet_at_clock(q: QuietHours, hour: int, minute: int) -> bool {
    quiet_at(q, hour * 60 + minute)
}

/// Whether it is quiet at a time of day. Without quiet hours it never is.
pub fn quiet_at_time(hours: Option<QuietHours>, hour: u32, minute: u32) -> (r: bool)
    requires
        hour < 24,
        minute < 60,
    ensures
        r == (hours matches Some(q) && quiet_at(q, hour * 60 + minute)),
        r == (hours matches Some(q) && quiet_at_clock(q, hour as int, minute as int)),
{
    match hours {
        Some(q) => q.contains(hour * 60 + minute),
        None => false,
    }
}

/// The hour and the minute of the local time of day: `Timelike::hour` and
/// `Timelike::minute` of `chrono::Local::now`. The hour is below 24 and the minute below 60;
/// which they are is left to the clock and the time zone of the machine.
#[verifier::external_body]
fn local_time() -> (r: (u32, u32))
    ensures
        r.0 < 24,
        r.1 < 60,
{
    let now = chrono::Local::now();
    (now.hour(), now.minute())
}

/// Whether it is quiet now. Without quiet hours it never is.
pub fn in_quiet_hours(hours: Option<QuietHours>) -> (r: bool)
    ensures
        hours is None ==> !r,
        hours matches Some(q) ==> exists|hour: int, minute: int|
            0 <= hour < 24 && 0 <= minute < 60 && r == #[trigger] quiet_at_clock(q, hour, minute),
{
    let (hour, minute) = local_time();
    let r = quiet_at_time(hours, hour, minute);
    assert(hours matches Some(q) ==> r == quiet_at_clock(q, hour as int, minute as int));
    r
}

/// How to insist on something.
#[derive(Debug, Clone, PartialEq, Eq)]
pub enum Urgency {
    /// Not at all: a plain text.
    Plain,
    /// By a reminder of a message to somebody; where that fails, by a text that rings.
    Remind { message_id: String, user: String },
    /// By a text that rings.
    Ring,
}

#[verifier::ext_equal]
pub enum UrgencyV {
    Plain,
    Remind { message_id: Seq<char>, user: Seq<char> },
    Ring,
}

impl View for Urgency {
    type V = UrgencyV;

    open spec fn view(&self) -> UrgencyV {
        match *self {
            Urgency::Plain => UrgencyV::Plain,
            Urgency::Remind { message_id, user } => UrgencyV::Remind {
                message_id: message_id@,
                user: user@,
            },
            Urgency::Ring => UrgencyV::Ring,
        }
    }
}

/// How to insist on something: not in quiet hours; else on the last card, where there is one
/// and it is known for whom it is.
pub open spec fn urgency(quiet: bool, tail: Option<Seq<char>>, sender: Seq<char>) -> UrgencyV {
    if quiet {
        UrgencyV::Plain
    } else if tail is Some && sender.len() > 0 {
        UrgencyV::Remind { message_id: tail->0, user: sender }
    } else {
        UrgencyV::Ring
    }
}

/// How to insist on something.
pub fn urgent_plan(quiet: bool, tail: Option<String>, sender: &str) -> (r: Urgency)
    ensures
        r@ == urgency(quiet, text::oview(tail), sender@),
{
    if quiet {
        return Urgency::Plain;
    }
    match tail {
        Some(message_id) => if sender.is_empty() {
            Urgency::Ring
        } else {
            Urgency::Remind { message_id, user: sender.to_owned() }
        },
        None => Urgency::Ring,
    }
}

// ---------------------------------------------------------------------------
// Laws
// ---------------------------------------------------------------------------

/// Texts one behind the other.
pub open spec fn put_together(parts: Seq<Seq<char>>) -> Seq<char>
    decreases parts.len(),
{
    if parts.len() == 0 {
        Seq::empty()
    } else {
        parts[0] + put_together(parts.drop_first())
    }
}

/// The pieces of a text, put together again, are the text; and none is longer than the limit.
pub proof fn law_pieces_complete(s: Seq<char>, n: nat)
    requires
        n > 0,
    ensures
        put_together(pieces(s, n)) == s,
        forall|i: int| 0 <= i < pieces(s, n).len() ==> (#[trigger] pieces(s, n)[i]).len() <= n,
    decreases s.len(),
{
    if s.len() <= n {
        assert(seq![s].drop_first() =~= Seq::empty());
        assert(put_together(seq![s].drop_first()) =~= Seq::empty());
        assert(s + Seq::empty() =~= s);
    } else {
        let rest = s.subrange(n as int, s.len() as int);
        law_pieces_complete(rest, n);
        let all = pieces(s, n);
        assert(all.drop_first() =~= pieces(rest, n));
        assert(s.subrange(0, n as int) + rest =~= s);
        assert forall|i: int| 0 <= i < all.len() implies (#[trigger] all[i]).len() <= n by {
            if i > 0 {
                assert(all[i] == pieces(rest, n)[i - 1]);
            }
        }
    }
}

/// A configured limit never exceeds the platform's.
pub proof fn law_limit_never_exceeded(configured: Option<usize>, most: usize)
    ensures
        limit(configured, most) <= most,
        configured matches Some(n) ==> limit(configured, most) <= n,
{
}

/// A token is used until it is declared no good, and never longer than it lasts.
pub proof fn law_token_expires(t: Seq<char>, then: u64, now: int)
    requires
        now >= then,
    ensures
        good_token(Some((t, then)), now) is Some <==> now - then < TOKEN_TTL_MS,
        good_token(None, now) is None,
{
}

} // verus!
