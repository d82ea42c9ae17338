//! What is remembered of cards, reactions and conversations.
use vstd::prelude::*;

use crate::conv;
use crate::conv::thread_target_from_conv;
use crate::errors;
use crate::errors::is_rate_limited_msg;
use crate::json;
use crate::message::MentionPolicy;
use crate::model::{CardPhase, ConvId};
use crate::notices;
use crate::notices::peek_group_reply_parent;
use crate::status;
use crate::status::phase_footer;
use crate::table::Table;
use crate::text;
use crate::text::{str_after_prefix, str_begins, str_eq};

verus! {

/// The most cards, and the most reactions, that are remembered. One more, and all are
/// forgotten.
pub const MAX_REMEMBERED: usize = 1024;

/// The most threads that are remembered. One more, and all are forgotten.
pub const MAX_THREADS: usize = 512;

/// A table that is emptied before it grows beyond a limit.
pub open spec fn roomy<T>(m: Map<Seq<char>, T>, limit: nat) -> Map<Seq<char>, T> {
    if m.dom().len() > limit {
        Map::empty()
    } else {
        m
    }
}

// ---------------------------------------------------------------------------
// Cards
// ---------------------------------------------------------------------------

/// What is remembered of the cards that are written as they go: the number of the last
/// change, the footer that is shown, and the message that shows the card.
#[derive(Debug)]
pub struct Cards {
    seqs: Table<i64>,
    footers: Table<String>,
    messages: Table<String>,
}

#[verifier::ext_equal]
pub struct CardsV {
    pub seqs: Map<Seq<char>, i64>,
    pub footers: Map<Seq<char>, Seq<char>>,
    pub messages: Map<Seq<char>, Seq<char>>,
}

impl View for Cards {
    type V = CardsV;

    closed spec fn view(&self) -> CardsV {
        CardsV { seqs: self.seqs@, footers: self.footers@, messages: self.messages@ }
    }
}

/// The number of the last change of a card; zero where there was none.
pub open spec fn last_seq(c: CardsV, card_id: Seq<char>) -> i64 {
    if c.seqs.contains_key(card_id) {
        c.seqs[card_id]
    } else {
        0
    }
}

/// The state once a message shows a card.
pub open spec fn with_message(c: CardsV, card_id: Seq<char>, message_id: Seq<char>) -> CardsV {
    CardsV {
        messages: roomy(c.messages, MAX_REMEMBERED as nat).insert(card_id, message_id),
        ..c
    }
}

/// The state once the card of a task is new. One that is written as it goes shows that the
/// task thinks.
pub open spec fn with_new_card(c: CardsV, handle: Option<Seq<char>>) -> CardsV {
    match handle {
        Some(h) => match text::after_prefix(h, "card:"@) {
            Some(card_id) => CardsV {
                footers: c.footers.insert(card_id, status::phase_text(CardPhase::Thinking)),
                ..c
            },
            None => c,
        },
        None => c,
    }
}

/// The state once a card will not change any more, or is gone. Its message stays known.
pub open spec fn without_card(c: CardsV, card_id: Seq<char>) -> CardsV {
    CardsV { seqs: c.seqs.remove(card_id), footers: c.footers.remove(card_id), ..c }
}

/// The number at which those of a card start over: the second that the clock shows, and a
/// fixed one where it cannot be read.
pub fn restart_number(clock: Option<i64>) -> (r: i64)
    ensures
        r == match clock {
            Some(s) => s,
            None => 1_000_000_000,
        },
{
    match clock {
        Some(s) => s,
        None => 1_000_000_000,
    }
}

impl Cards {
    /// No card is known yet.
    pub fn new() -> (r: Cards)
        ensures
            r@ == (CardsV { seqs: Map::empty(), footers: Map::empty(), messages: Map::empty() }),
    {
        Cards { seqs: Table::new(), footers: Table::new(), messages: Table::new() }
    }

    /// The number of the last change of a card.
    pub fn last_card_seq(&self, card_id: &str) -> (r: i64)
        ensures
            r == last_seq(self@, card_id@),
    {
        match self.seqs.get(card_id) {
            Some(n) => *n,
            None => 0,
        }
    }

    /// The number of the next change of a card: larger than all before.
    pub fn next_card_seq(&mut self, card_id: &str) -> (r: i64)
        requires
            last_seq(old(self)@, card_id@) < i64::MAX,
        ensures
            r == last_seq(old(self)@, card_id@) + 1,
            final(self)@ == (CardsV { seqs: old(self)@.seqs.insert(card_id@, r), ..old(self)@ }),
    {
        let n: i64 = self.last_card_seq(card_id) + 1;
        let _ = self.seqs.insert(card_id, n);
        n
    }

    /// Starts the numbers of a card over, from a given one.
    pub fn reset_card_seq(&mut self, card_id: &str, seq: i64)
        ensures
            final(self)@ == (CardsV { seqs: old(self)@.seqs.insert(card_id@, seq), ..old(self)@ }),
    {
        let _ = self.seqs.insert(card_id, seq);
    }

    /// Whether a footer differs from the one that is shown. From then on it counts as shown.
    pub fn footer_changes(&mut self, card_id: &str, footer: &str) -> (r: bool)
        ensures
            r == !(old(self)@.footers.contains_key(card_id@) && old(self)@.footers[card_id@]
                == footer@),
            final(self)@ == (CardsV {
                footers: old(self)@.footers.insert(card_id@, footer@),
                ..old(self)@
            }),
    {
        let same = match self.footers.get(card_id) {
            Some(f) => str_eq(f.as_str(), footer),
            None => false,
        };
        let _ = self.footers.insert(card_id, footer.to_owned());
        !same
    }

    /// A footer could not be shown. Where it came too fast, none counts as shown, so that the
    /// same one is tried again.
    pub fn footer_failed(&mut self, card_id: &str, error: &str)
        ensures
            final(self)@ == if errors::rate_limited(error@) {
                CardsV { footers: old(self)@.footers.remove(card_id@), ..old(self)@ }
            } else {
                old(self)@
            },
    {
        if is_rate_limited_msg(error) {
            let _ = self.footers.remove(card_id);
        }
    }

    /// A card that will not change any more, or is gone.
    pub fn forget_card(&mut self, card_id: &str)
        ensures
            final(self)@ == without_card(old(self)@, card_id@),
    {
        let _ = self.seqs.remove(card_id);
        let _ = self.footers.remove(card_id);
    }

    /// Notes which message shows a card.
    pub fn note_message(&mut self, card_id: &str, message_id: &str)
        ensures
            final(self)@ == with_message(old(self)@, card_id@, message_id@),
    {
        if self.messages.len() > MAX_REMEMBERED {
            self.messages.clear();
        }
        let _ = self.messages.insert(card_id, message_id.to_owned());
    }

    /// The card of a task is new: what its footer shows, if it is one that is written as it
    /// goes.
    pub fn note_new_card(&mut self, handle: Option<&str>)
        ensures
            final(self)@ == with_new_card(old(self)@, text::sview(handle)),
    {
        match handle {
            Some(h) => match str_after_prefix(h, "card:") {
                Some(card_id) => {
                    let _ = self.footer_changes(
                        card_id.as_str(),
                        phase_footer(CardPhase::Thinking),
                    );
                },
                None => {},
            },
            None => {},
        }
    }

    /// The message that shows the card with a handle, if it is one that is written as it goes.
    pub fn message_behind(&self, handle: &str) -> (r: Option<String>)
        ensures
            text::oview(r) == match text::after_prefix(handle@, "card:"@) {
                Some(card_id) => under(self@.messages, card_id),
                None => None,
            },
    {
        match str_after_prefix(handle, "card:") {
            Some(card_id) => self.message_of(card_id.as_str()),
            None => None,
        }
    }

    /// The message that shows a card.
    pub fn message_of(&self, card_id: &str) -> (r: Option<String>)
        ensures
            r is Some <==> self@.messages.contains_key(card_id@),
            r matches Some(m) ==> m@ == self@.messages[card_id@],
    {
        match self.messages.get(card_id) {
            Some(m) => Some(m.clone()),
            None => None,
        }
    }
}

/// The numbers of the changes of a card grow with each change, whatever happens to other
/// cards in between.
pub proof fn law_numbers_grow(c: CardsV, card_id: Seq<char>, other: Seq<char>, n: i64, m: i64)
    requires
        n == last_seq(c, card_id) + 1,
        other != card_id,
    ensures
        ({
            let after = CardsV { seqs: c.seqs.insert(card_id, n), ..c };
            let later = CardsV { seqs: after.seqs.insert(other, m), ..after };
            last_seq(later, card_id) > last_seq(c, card_id)
        }),
{
}

// ---------------------------------------------------------------------------
// Reactions
// ---------------------------------------------------------------------------

/// What the bot has to say about a message by a reaction.
#[derive(Debug, Clone, Copy, PartialEq, Eq, Structural)]
pub enum MsgReaction {
    Queued,
    Processing,
    Done,
    Failed,
}

/// The reaction by the platform's name for it.
pub open spec fn emoji_of(r: MsgReaction) -> Seq<char> {
    match r {
        MsgReaction::Queued => "OneSecond"@,
        MsgReaction::Processing => "OnIt"@,
        MsgReaction::Done => "DONE"@,
        MsgReaction::Failed => "CrossMark"@,
    }
}

/// The reaction by the platform's name for it.
pub fn reaction_emoji(r: MsgReaction) -> (e: &'static str)
    ensures
        e@ == emoji_of(r),
{
    match r {
        MsgReaction::Queued => "OneSecond",
        MsgReaction::Processing => "OnIt",
        MsgReaction::Done => "DONE",
        MsgReaction::Failed => "CrossMark",
    }
}

/// The bot's reactions to messages, by the messages.
#[derive(Debug)]
pub struct Reactions {
    ids: Table<String>,
}

impl View for Reactions {
    type V = Map<Seq<char>, Seq<char>>;

    closed spec fn view(&self) -> Map<Seq<char>, Seq<char>> {
        self.ids@
    }
}

/// Whether a reaction is to be shown at a message: the message is one of the platform's, and
/// waiting is not shown where something else is shown already.
pub open spec fn to_react(
    shown: Map<Seq<char>, Seq<char>>,
    message_id: Seq<char>,
    r: MsgReaction,
) -> bool {
    text::begins(message_id, "om_"@) && !(r == MsgReaction::Queued && shown.contains_key(message_id))
}

impl Reactions {
    /// No reaction is shown yet.
    pub fn new() -> (r: Reactions)
        ensures
            r@ == Map::<Seq<char>, Seq<char>>::empty(),
    {
        Reactions { ids: Table::new() }
    }

    /// What to do to show a reaction: the reaction to take away first, if there is one, and
    /// the one to add. `None` where nothing is to be done.
    pub fn begin(&mut self, message_id: &str, r: MsgReaction) -> (out: Option<
        (Option<String>, &'static str),
    >)
        ensures
            out is Some <==> to_react(old(self)@, message_id@, r),
            out matches Some((before, emoji)) ==> emoji@ == emoji_of(r) && (before is Some
                <==> old(self)@.contains_key(message_id@)) && (before matches Some(id) ==> id@
                == old(self)@[message_id@]) && final(self)@ == old(self)@.remove(message_id@),
            out is None ==> final(self)@ == old(self)@,
    {
        if !str_begins(message_id, "om_") {
            return None;
        }
        match r {
            MsgReaction::Queued => {
                if self.ids.contains(message_id) {
                    return None;
                }
            },
            _ => {},
        }
        let before = self.ids.remove(message_id);
        Some((before, reaction_emoji(r)))
    }

    /// Notes a reaction that is now shown.
    pub fn shown(&mut self, message_id: &str, reaction_id: &str)
        ensures
            final(self)@ == roomy(old(self)@, MAX_REMEMBERED as nat).insert(
                message_id@,
                reaction_id@,
            ),
    {
        if self.ids.len() > MAX_REMEMBERED {
            self.ids.clear();
        }
        let _ = self.ids.insert(message_id, reaction_id.to_owned());
    }
}

// ---------------------------------------------------------------------------
// Conversations
// ---------------------------------------------------------------------------

/// Whether a message of a conversation can be answered to: it is one of the platform's, in a
/// plain group. A thread is answered as a whole; a comment and a private chat, which are no
/// groups, need no anchor.
pub open spec fn anchors(conv: Seq<char>, message_id: Option<Seq<char>>) -> bool {
    &&& message_id is Some
    &&& text::begins(message_id->0, "om_"@)
    &&& text::begins(conv, "feishu:oc_"@)
    &&& conv::thread_target_of(conv) is None
}

/// The conversation and the message to answer to, for a message of a plain group.
pub fn group_reply_anchor(conv: &str, source_msg_id: Option<&str>) -> (r: Option<(String, String)>)
    ensures
        r is Some <==> anchors(conv@, text::sview(source_msg_id)),
        r matches Some((c, m)) ==> c@ == conv@ && Some(m@) == text::sview(source_msg_id),
{
    let mid = match source_msg_id {
        Some(m) => m,
        None => {
            return None;
        },
    };
    if !str_begins(mid, "om_") || !str_begins(conv, "feishu:oc_") {
        return None;
    }
    if thread_target_from_conv(&ConvId(conv.to_owned())).is_some() {
        return None;
    }
    Some((conv.to_owned(), mid.to_owned()))
}

/// How long a thread stays active, in seconds; zero where no thread does.
pub fn thread_window_of(secs: u64) -> (r: u64)
    ensures
        r == secs,
{
    secs
}

/// A sender, where there is one.
pub fn sender_opt_of<'a>(sender: &'a str) -> (r: Option<&'a str>)
    ensures
        text::sview(r) == text::nonempty(Some(sender@)),
{
    if sender.is_empty() {
        None
    } else {
        Some(sender)
    }
}

/// What is remembered of conversations: who spoke last, the comment to answer to, when a
/// thread was last active, the message to answer to, the message that came last, and the
/// message with the last card.
#[derive(Debug)]
pub struct Convs {
    senders: Table<String>,
    comments: Table<String>,
    active: Table<u64>,
    anchored: Table<String>,
    last: Table<String>,
    tails: Table<String>,
}

#[verifier::ext_equal]
pub struct ConvsV {
    pub senders: Map<Seq<char>, Seq<char>>,
    pub comments: Map<Seq<char>, Seq<char>>,
    pub active: Map<Seq<char>, u64>,
    pub anchored: Map<Seq<char>, Seq<char>>,
    pub last: Map<Seq<char>, Seq<char>>,
    pub tails: Map<Seq<char>, Seq<char>>,
}

impl View for Convs {
    type V = ConvsV;

    closed spec fn view(&self) -> ConvsV {
        ConvsV {
            senders: self.senders@,
            comments: self.comments@,
            active: self.active@,
            anchored: self.anchored@,
            last: self.last@,
            tails: self.tails@,
        }
    }
}

/// What stands under a name.
pub open spec fn under<T>(m: Map<Seq<char>, T>, k: Seq<char>) -> Option<T> {
    if m.contains_key(k) {
        Some(m[k])
    } else {
        None
    }
}

/// Whether a thread was active within the window, by clocks in milliseconds.
pub open spec fn lately(active: Map<Seq<char>, u64>, key: Seq<char>, now: int, window_secs: int) -> bool {
    active.contains_key(key) && (if now >= active[key] {
        now - active[key]
    } else {
        0
    }) < 1000 * window_secs
}

/// Whether a message of a group still has to mention the bot.
pub open spec fn still_required(
    required: bool,
    active: Map<Seq<char>, u64>,
    key: Option<Seq<char>>,
    now: int,
    window_secs: int,
) -> bool {
    required && !(window_secs > 0 && key is Some && lately(active, key->0, now, window_secs))
}

/// The state once a card has been sent: it is the last one of the conversation. What is not
/// the name of a message is passed over.
pub open spec fn with_tail(s: ConvsV, conv: Seq<char>, message: Seq<char>) -> ConvsV {
    if text::begins(message, "om_"@) {
        ConvsV { tails: s.tails.insert(conv, message), ..s }
    } else {
        s
    }
}

/// The state once a task has begun.
pub open spec fn round_begun(c: ConvsV, conv: Seq<char>) -> ConvsV {
    match under(c.last, conv) {
        Some(m) => ConvsV { anchored: c.anchored.insert(conv, m), ..c },
        None => c,
    }
}

/// The message that the task of a conversation answers.
pub open spec fn answered_in(c: ConvsV, conv: Seq<char>) -> Option<Seq<char>> {
    text::nonempty(under(c.anchored, conv))
}

/// The state once a message has come in.
pub open spec fn heard_from(
    c: ConvsV,
    conv: Seq<char>,
    sender: Seq<char>,
    message_id: Option<Seq<char>>,
    thread: Option<Seq<char>>,
    now: u64,
) -> ConvsV {
    ConvsV {
        senders: c.senders.insert(conv, sender),
        last: if anchors(conv, message_id) {
            c.last.insert(conv, message_id->0)
        } else {
            c.last
        },
        active: match thread {
            Some(t) => roomy(c.active, MAX_THREADS as nat).insert(t, now),
            None => c.active,
        },
        ..c
    }
}

fn copy_under(t: &Table<String>, k: &str) -> (r: Option<String>)
    ensures
        text::oview(r) == under(t@, k@),
{
    match t.get(k) {
        Some(s) => Some(s.clone()),
        None => None,
    }
}

impl Convs {
    /// Nothing is known yet.
    pub fn new() -> (r: Convs)
        ensures
            r@ == (ConvsV {
                senders: Map::empty(),
                comments: Map::empty(),
                active: Map::empty(),
                anchored: Map::empty(),
                last: Map::empty(),
                tails: Map::empty(),
            }),
    {
        Convs {
            senders: Table::new(),
            comments: Table::new(),
            active: Table::new(),
            anchored: Table::new(),
            last: Table::new(),
            tails: Table::new(),
        }
    }

    /// The policy for the next message: where its thread was active lately, it need not
    /// mention the bot.
    pub fn policy_for(
        &self,
        policy: MentionPolicy,
        thread: Option<&str>,
        now_ms: u64,
        window_secs: u64,
    ) -> (r: MentionPolicy)
        ensures
            r.require_mention_in_group == still_required(
                policy.require_mention_in_group,
                self@.active,
                text::sview(thread),
                now_ms as int,
                window_secs as int,
            ),
    {
        let exempt = match thread {
            Some(t) => match self.active.get(t) {
                Some(then) => {
                    let gone: u64 = if now_ms >= *then {
                        now_ms - *then
                    } else {
                        0
                    };
                    (gone as u128) < 1000 * (window_secs as u128)
                },
                None => false,
            },
            None => false,
        };
        MentionPolicy {
            require_mention_in_group: policy.require_mention_in_group && !(window_secs > 0
                && exempt),
        }
    }

    /// A message has come in.
    pub fn note_message(
        &mut self,
        conv_id: &str,
        sender: &str,
        source_msg_id: Option<&str>,
        thread: Option<&str>,
        now_ms: u64,
    )
        ensures
            final(self)@ == heard_from(
                old(self)@,
                conv_id@,
                sender@,
                text::sview(source_msg_id),
                text::sview(thread),
                now_ms,
            ),
    {
        let _ = self.senders.insert(conv_id, sender.to_owned());
        match group_reply_anchor(conv_id, source_msg_id) {
            Some((conv, anchor)) => {
                let _ = self.last.insert(conv.as_str(), anchor);
            },
            None => {},
        }
        match thread {
            Some(t) => {
                if self.active.len() > MAX_THREADS {
                    self.active.clear();
                }
                let _ = self.active.insert(t, now_ms);
            },
            None => {},
        }
    }

    /// Somebody has clicked: who spoke last, where it is known who clicked.
    pub fn note_click(&mut self, conv_id: &str, sender: &str)
        ensures
            final(self)@ == if sender@.len() > 0 {
                ConvsV { senders: old(self)@.senders.insert(conv_id@, sender@), ..old(self)@ }
            } else {
                old(self)@
            },
    {
        if !sender.is_empty() {
            let _ = self.senders.insert(conv_id, sender.to_owned());
        }
    }

    /// A comment has come in: answers go there.
    pub fn note_comment(&mut self, conv_id: &str, comment_id: &str)
        ensures
            final(self)@ == (ConvsV {
                comments: old(self)@.comments.insert(conv_id@, comment_id@),
                ..old(self)@
            }),
    {
        let _ = self.comments.insert(conv_id, comment_id.to_owned());
    }

    /// Who spoke last; empty where nobody is known.
    pub fn last_sender(&self, conv_id: &str) -> (r: String)
        ensures
            r@ == text::or_text(under(self@.senders, conv_id@), Seq::empty()),
    {
        match copy_under(&self.senders, conv_id) {
            Some(s) => s,
            None => String::new(),
        }
    }

    /// The comment to answer to.
    pub fn comment_anchor(&self, conv_id: &str) -> (r: Option<String>)
        ensures
            text::oview(r) == under(self@.comments, conv_id@),
    {
        copy_under(&self.comments, conv_id)
    }

    /// A task begins: what it says answers the message that came last.
    pub fn begin_round(&mut self, conv_id: &str)
        ensures
            final(self)@ == round_begun(old(self)@, conv_id@),
            final(self)@ == if old(self)@.last.contains_key(conv_id@) {
                ConvsV {
                    anchored: old(self)@.anchored.insert(conv_id@, old(self)@.last[conv_id@]),
                    ..old(self)@
                }
            } else {
                old(self)@
            },
    {
        match copy_under(&self.last, conv_id) {
            Some(m) => {
                let _ = self.anchored.insert(conv_id, m);
            },
            None => {},
        }
    }

    /// The message to answer to.
    pub fn reply_anchor(&self, conv_id: &str) -> (r: Option<String>)
        ensures
            text::oview(r) == text::nonempty(under(self@.anchored, conv_id@)),
            text::oview(r) == answered_in(self@, conv_id@),
    {
        match copy_under(&self.anchored, conv_id) {
            Some(m) => if m.as_str().is_empty() {
                None
            } else {
                Some(m)
            },
            None => None,
        }
    }

    /// A card has been sent: the last one of the conversation.
    pub fn note_card_tail(&mut self, conv_id: &str, msg_id: &str)
        ensures
            final(self)@ == with_tail(old(self)@, conv_id@, msg_id@),
    {
        if str_begins(msg_id, "om_") {
            let _ = self.tails.insert(conv_id, msg_id.to_owned());
        }
    }

    /// The message with the last card of a conversation.
    pub fn card_tail(&self, conv_id: &str) -> (r: Option<String>)
        ensures
            text::oview(r) == under(self@.tails, conv_id@),
    {
        copy_under(&self.tails, conv_id)
    }
}

// ---------------------------------------------------------------------------
// What the bot has sent
// ---------------------------------------------------------------------------

/// The messages that the bot sent last, as many as there is room for.
#[derive(Debug)]
pub struct SentLately {
    room: usize,
    ids: Vec<String>,
}

#[verifier::ext_equal]
pub struct SentLatelyV {
    pub room: nat,
    pub ids: Seq<Seq<char>>,
}

impl View for SentLately {
    type V = SentLatelyV;

    closed spec fn view(&self) -> SentLatelyV {
        SentLatelyV { room: self.room as nat, ids: text::views(self.ids@) }
    }
}

/// What was sent last, once a further message has been: where there is no room left, the
/// oldest goes.
pub open spec fn with_sent(s: SentLatelyV, id: Seq<char>) -> SentLatelyV {
    let all = s.ids.push(id);
    SentLatelyV {
        ids: if all.len() > s.room {
            all.drop_first()
        } else {
            all
        },
        ..s
    }
}

impl SentLately {
    /// The bot has not sent anything yet.
    pub fn new(room: usize) -> (r: SentLately)
        ensures
            r@ == (SentLatelyV { room: room as nat, ids: Seq::empty() }),
    {
        let r = SentLately { room, ids: Vec::new() };
        assert(r@.ids =~= Seq::empty());
        r
    }

    /// The bot has sent a message.
    pub fn note(&mut self, message_id: &str)
        ensures
            final(self)@ == with_sent(old(self)@, message_id@),
    {
        let ghost before = self.ids@;
        self.ids.push(message_id.to_owned());
        assert(text::views(self.ids@) =~= text::views(before).push(message_id@));
        if self.ids.len() > self.room {
            let ghost all = self.ids@;
            let _ = self.ids.remove(0);
            assert(text::views(self.ids@) =~= text::views(all).drop_first());
        }
    }

    /// Whether the bot has sent a message lately.
    pub fn holds(&self, message_id: &str) -> (r: bool)
        ensures
            r == self@.ids.contains(message_id@),
    {
        let ghost all = text::views(self.ids@);
        let mut i: usize = 0;
        while i < self.ids.len()
            invariant
                i <= self.ids@.len(),
                all == text::views(self.ids@),
                forall|k: int| 0 <= k < i ==> #[trigger] all[k] != message_id@,
            decreases self.ids@.len() - i,
        {
            assert(all[i as int] == self.ids@[i as int]@);
            if str_eq(self.ids[i].as_str(), message_id) {
                assert(all.contains(message_id@));
                return true;
            }
            i += 1;
        }
        false
    }

    /// The policy for an event: a message of a group that answers one of the bot's need not
    /// mention the bot.
    pub fn policy_for(&self, policy: MentionPolicy, payload: &[u8]) -> (r: MentionPolicy)
        ensures
            r.require_mention_in_group == required_of_reply(
                policy.require_mention_in_group,
                match json::parsed_json(payload@) {
                    Some(j) => notices::group_reply_parent(j),
                    None => None,
                },
                self@.ids,
            ),
    {
        match peek_group_reply_parent(payload) {
            Some(parent) => {
                let lately = self.holds(parent.as_str());
                reply_policy(policy, Some(parent.as_str()), lately)
            },
            None => reply_policy(policy, None, false),
        }
    }
}

/// Whether a message of a group still has to mention the bot, by the message that it answers
/// and those that the bot sent lately.
pub open spec fn required_of_reply(
    required: bool,
    parent: Option<Seq<char>>,
    sent: Seq<Seq<char>>,
) -> bool {
    required && !(parent is Some && sent.contains(parent->0))
}

/// The policy for a message by the message that it answers, and whether the bot sent that one
/// lately: to answer the bot is to speak to it.
pub fn reply_policy(policy: MentionPolicy, parent: Option<&str>, sent_lately: bool) -> (r: MentionPolicy)
    ensures
        r.require_mention_in_group == (policy.require_mention_in_group && !(parent is Some
            && sent_lately)),
{
    MentionPolicy {
        require_mention_in_group: policy.require_mention_in_group && !(parent.is_some()
            && sent_lately),
    }
}

// ---------------------------------------------------------------------------
// Laws
// ---------------------------------------------------------------------------

/// A message of a group that answers what the bot has just sent needs no mention of the bot,
/// whatever the policy.
pub proof fn law_answer_to_bot_needs_no_mention(
    s: SentLatelyV,
    id: Seq<char>,
    chat_type: Seq<char>,
    mentions: Seq<crate::events::MessageMentionV>,
    required: bool,
    bot: Option<Seq<char>>,
)
    requires
        s.room > 0,
        s.ids.len() <= s.room,
    ensures
        crate::message::heeded(
            chat_type,
            mentions,
            required_of_reply(required, Some(id), with_sent(s, id).ids),
            bot,
        ),
        with_sent(s, id).ids.len() <= s.room,
{
    let all = s.ids.push(id);
    assert(all.last() == id);
    if all.len() > s.room {
        assert(all.drop_first().last() == id);
        assert(all.drop_first()[all.len() - 2] == id);
    } else {
        assert(all[all.len() - 1] == id);
    }
}

/// A message that answers nobody, or somebody else, has to mention the bot as before.
pub proof fn law_other_answers_not_exempt(required: bool, parent: Option<Seq<char>>, sent: Seq<Seq<char>>)
    requires
        parent matches Some(p) ==> !sent.contains(p),
    ensures
        required_of_reply(required, parent, sent) == required,
{
}

/// Only in a group is a message answered to: never in a private chat, a comment or a thread.
pub proof fn law_anchor_in_plain_groups_only(conv: Seq<char>, message_id: Option<Seq<char>>)
    requires
        anchors(conv, message_id),
    ensures
        !conv::private_conv(conv),
        conv::comment_target_of(conv) is None,
        conv::thread_target_of(conv) is None,
{
    reveal_strlit("feishu:");
    reveal_strlit("feishu:oc_");
    reveal_strlit("feishu:comment:");
    reveal_strlit("ou_");
    let head = conv.subrange(0, 10);
    assert(head[7] == 'o' && head[8] == 'c');
    assert(conv[7] == 'o' && conv[8] == 'c');
    if text::begins(conv, conv::COMMENT_CONV_PREFIX@) {
        assert(conv.subrange(0, 15)[7] == 'c');
    }
    match conv::conv_peer(conv) {
        Some(id) => {
            let rest = conv.subrange(7, conv.len() as int);
            text::lemma_position(rest, ':');
            if conv::is_user(id) {
                assert(id.subrange(0, 3)[1] == 'u');
                assert(id[1] == conv[8]);
            }
        },
        None => {},
    }
}

/// A message that comes in while a task runs does not move the message that the task
/// answers; only the next task answers it.
pub proof fn law_round_keeps_its_anchor(
    c: ConvsV,
    conv: Seq<char>,
    sender: Seq<char>,
    message_id: Option<Seq<char>>,
    thread: Option<Seq<char>>,
    now: u64,
)
    ensures
        under(heard_from(c, conv, sender, message_id, thread, now).anchored, conv) == under(
            c.anchored,
            conv,
        ),
{
}

/// A thread in which somebody has just spoken needs no further mention of the bot, where the
/// window is open.
pub proof fn law_active_thread_needs_no_mention(
    c: ConvsV,
    conv: Seq<char>,
    sender: Seq<char>,
    message_id: Option<Seq<char>>,
    thread: Seq<char>,
    then: u64,
    now: int,
    window_secs: int,
)
    requires
        window_secs > 0,
        now - then < 1000 * window_secs,
    ensures
        !still_required(
            true,
            heard_from(c, conv, sender, message_id, Some(thread), then).active,
            Some(thread),
            now,
            window_secs,
        ),
{
}

/// Without a window every message has to mention the bot that had to before.
pub proof fn law_no_window_no_exemption(
    required: bool,
    active: Map<Seq<char>, u64>,
    key: Option<Seq<char>>,
    now: int,
)
    ensures
        still_required(required, active, key, now, 0) == required,
{
}

} // verus!
