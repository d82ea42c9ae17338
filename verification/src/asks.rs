//! The questions that are open, and the cards that show them.
use vstd::prelude::*;

use crate::ask_card;
use crate::ask_card::{
    perm_note_default, permission_card_at, question_card_at, questions_as_text,
    render_permission_card_resolved, render_question_card_resolved,
};
use crate::clock::now_secs;
use crate::conv;
use crate::conv::{comment_target_from_conv, is_private_conv};
use crate::flows;
use crate::flows::{AskStage, AskStageV, Sent};
use crate::json;
use crate::json::{json_to_string, parse_json_str};
use crate::model::ConvId;
use crate::status;
use crate::status::tool_summary;
use crate::table::Table;
use crate::text;
use crate::text::{borrow, cat3, cat5, str_after_prefix, str_eq, take_nonempty};

verus! {

/// A card that shows an open question: where, in which message, for which tool, and whom it
/// asks.
#[derive(Debug, Clone, PartialEq, Eq)]
pub struct PendingAskCard {
    pub conv_id: String,
    pub msg_id: String,
    pub tool_name: String,
    pub sender: String,
}

#[verifier::ext_equal]
pub struct PendingAskV {
    pub conv_id: Seq<char>,
    pub msg_id: Seq<char>,
    pub tool_name: Seq<char>,
    pub sender: Seq<char>,
}

impl View for PendingAskCard {
    type V = PendingAskV;

    open spec fn view(&self) -> PendingAskV {
        PendingAskV {
            conv_id: self.conv_id@,
            msg_id: self.msg_id@,
            tool_name: self.tool_name@,
            sender: self.sender@,
        }
    }
}

/// What is needed to draw the card of a question again.
#[derive(Debug, Clone, PartialEq, Eq)]
pub struct AskRender {
    pub question: bool,
    pub tool_name: String,
    pub input: String,
    pub sender: String,
}

#[verifier::ext_equal]
pub struct AskRenderV {
    pub question: bool,
    pub tool_name: Seq<char>,
    pub input: Seq<char>,
    pub sender: Seq<char>,
}

impl View for AskRender {
    type V = AskRenderV;

    open spec fn view(&self) -> AskRenderV {
        AskRenderV {
            question: self.question,
            tool_name: self.tool_name@,
            input: self.input@,
            sender: self.sender@,
        }
    }
}

fn copy_render(r: &AskRender) -> (out: AskRender)
    ensures
        out@ == r@,
{
    AskRender {
        question: r.question,
        tool_name: r.tool_name.clone(),
        input: r.input.clone(),
        sender: r.sender.clone(),
    }
}

fn copy_card(c: &PendingAskCard) -> (out: PendingAskCard)
    ensures
        out@ == c@,
{
    PendingAskCard {
        conv_id: c.conv_id.clone(),
        msg_id: c.msg_id.clone(),
        tool_name: c.tool_name.clone(),
        sender: c.sender.clone(),
    }
}

/// The last card with a question in a conversation, and the request it waits for, if it does.
#[derive(Debug, Clone, PartialEq, Eq)]
pub struct AskSlot {
    pub msg_id: String,
    pub pending_req: Option<String>,
    pub render: AskRender,
}

#[verifier::ext_equal]
pub struct AskSlotV {
    pub msg_id: Seq<char>,
    pub pending_req: Option<Seq<char>>,
    pub render: AskRenderV,
}

impl View for AskSlot {
    type V = AskSlotV;

    open spec fn view(&self) -> AskSlotV {
        AskSlotV {
            msg_id: self.msg_id@,
            pending_req: text::oview(self.pending_req),
            render: self.render@,
        }
    }
}

/// All that is known of questions: the open ones by their requests, the last card of each
/// conversation, the last note shown there, and whether a question was asked since the card
/// of the running task was sent.
#[derive(Debug)]
pub struct Asks {
    pending: Table<PendingAskCard>,
    slots: Table<AskSlot>,
    notes: Table<String>,
    sent: Table<bool>,
}

#[verifier::ext_equal]
pub struct AsksV {
    pub pending: Map<Seq<char>, PendingAskV>,
    pub slots: Map<Seq<char>, AskSlotV>,
    pub notes: Map<Seq<char>, Seq<char>>,
    pub sent: Map<Seq<char>, bool>,
}

impl View for Asks {
    type V = AsksV;

    closed spec fn view(&self) -> AsksV {
        AsksV {
            pending: self.pending@,
            slots: self.slots@,
            notes: self.notes@,
            sent: self.sent@,
        }
    }
}

/// What a click on the card of a question comes to.
#[derive(Debug, Clone, PartialEq, Eq)]
pub enum Verdict {
    /// It is handed on.
    Pass,
    /// The question is no longer open.
    Expired,
    /// Somebody else was asked: the notice to the one who clicked.
    NotOwner(String),
}

pub enum VerdictV {
    Pass,
    Expired,
    NotOwner(Seq<char>),
}

impl View for Verdict {
    type V = VerdictV;

    open spec fn view(&self) -> VerdictV {
        match self {
            Verdict::Pass => VerdictV::Pass,
            Verdict::Expired => VerdictV::Expired,
            Verdict::NotOwner(s) => VerdictV::NotOwner(s@),
        }
    }
}

/// The notice that a question is no longer open.
pub const EXPIRED_ASK_NOTICE: &'static str = "⏳ 该询问已过期或已被处理，无需再次点击。";

/// Whether somebody may not answer the question of a card: in a group, only the one who was
/// asked may.
pub open spec fn not_asked(card: PendingAskV, operator: Seq<char>) -> bool {
    card.sender.len() > 0 && !conv::private_conv(card.conv_id) && card.sender != operator
}

/// The notice to somebody who was not asked.
pub open spec fn not_asked_notice(card: PendingAskV) -> Seq<char> {
    "⛔ 该询问由 "@ + card.sender + " 发起，仅其本人可答复。"@
}

/// What a click for a request comes to. A click for no request is handed on.
pub open spec fn verdict(
    pending: Map<Seq<char>, PendingAskV>,
    req: Option<Seq<char>>,
    operator: Seq<char>,
) -> VerdictV {
    match req {
        Some(r) => if !pending.contains_key(r) {
            VerdictV::Expired
        } else if not_asked(pending[r], operator) {
            VerdictV::NotOwner(not_asked_notice(pending[r]))
        } else {
            VerdictV::Pass
        },
        None => VerdictV::Pass,
    }
}

/// The state once the card of a task has been sent: no question has been put since.
pub open spec fn with_new_card(s: AsksV, conv: Seq<char>) -> AsksV {
    AsksV { sent: s.sent.insert(conv, false), ..s }
}

/// The state once a question has been put in a conversation.
pub open spec fn with_question(s: AsksV, conv: Seq<char>) -> AsksV {
    AsksV { sent: s.sent.insert(conv, true), ..s }
}

/// The last cards once a request is no longer open.
pub open spec fn freed(slots: Map<Seq<char>, AskSlotV>, conv: Seq<char>, req: Seq<char>) -> Map<
    Seq<char>,
    AskSlotV,
> {
    if slots.contains_key(conv) && slots[conv].pending_req == Some(req) {
        slots.insert(conv, AskSlotV { pending_req: None, ..slots[conv] })
    } else {
        slots
    }
}

/// The last cards once no request of a conversation is open.
pub open spec fn all_freed(slots: Map<Seq<char>, AskSlotV>, conv: Seq<char>) -> Map<
    Seq<char>,
    AskSlotV,
> {
    if slots.contains_key(conv) {
        slots.insert(conv, AskSlotV { pending_req: None, ..slots[conv] })
    } else {
        slots
    }
}

/// The state with a card for a request.
pub open spec fn registered(
    s: AsksV,
    req: Seq<char>,
    card: PendingAskV,
    render: AskRenderV,
) -> AsksV {
    AsksV {
        pending: s.pending.insert(req, card),
        slots: s.slots.insert(
            card.conv_id,
            AskSlotV { msg_id: card.msg_id, pending_req: Some(req), render },
        ),
        sent: s.sent.insert(card.conv_id, true),
        ..s
    }
}

/// The card that a message shows for a question.
pub open spec fn card_shown(conv: Seq<char>, message: Seq<char>, render: AskRenderV) -> PendingAskV {
    PendingAskV {
        conv_id: conv,
        msg_id: message,
        tool_name: render.tool_name,
        sender: render.sender,
    }
}

/// The state once a step of asking has been made. A card that was sent is registered; where
/// none could be, it is noted that a text asks.
pub open spec fn asked(
    s: AsksV,
    conv: Seq<char>,
    req: Seq<char>,
    stage: AskStageV,
    r: Result<Option<Seq<char>>, Seq<char>>,
    render: AskRenderV,
) -> AsksV {
    match (stage, r) {
        (AskStageV::Card, Ok(Some(m))) => registered(s, req, card_shown(conv, m, render), render),
        (AskStageV::Card, Err(_)) => AsksV { sent: s.sent.insert(conv, true), ..s },
        _ => s,
    }
}

/// The card whose place the one that a step of asking has sent takes.
pub open spec fn replaced_by_step(
    s: AsksV,
    req: Seq<char>,
    stage: AskStageV,
    r: Result<Option<Seq<char>>, Seq<char>>,
) -> Option<PendingAskV> {
    match (stage, r) {
        (AskStageV::Card, Ok(Some(m))) => replaced(s, req, m),
        _ => None,
    }
}

/// The card that a new one for the same request takes the place of.
pub open spec fn replaced(s: AsksV, req: Seq<char>, msg_id: Seq<char>) -> Option<PendingAskV> {
    if s.pending.contains_key(req) && s.pending[req].msg_id != msg_id {
        Some(s.pending[req])
    } else {
        None
    }
}

/// The state once a request is no longer open.
pub open spec fn closed_one(s: AsksV, req: Seq<char>) -> AsksV {
    if s.pending.contains_key(req) {
        AsksV {
            pending: s.pending.remove(req),
            slots: freed(s.slots, s.pending[req].conv_id, req),
            ..s
        }
    } else {
        s
    }
}

/// The open requests outside a conversation.
pub open spec fn elsewhere(pending: Map<Seq<char>, PendingAskV>, conv: Seq<char>) -> Map<
    Seq<char>,
    PendingAskV,
> {
    pending.restrict(
        Set::new(|k: Seq<char>| pending.contains_key(k) && pending[k].conv_id != conv),
    )
}

/// Whether a list holds each of some requests once, and nothing else.
spec fn lists(v: Seq<(String, PendingAskCard)>, keys: Set<Seq<char>>) -> bool {
    &&& forall|a: int| 0 <= a < v.len() ==> keys.contains((#[trigger] v[a]).0@)
    &&& forall|k: Seq<char>| #[trigger]
        keys.contains(k) ==> exists|a: int| 0 <= a < v.len() && (#[trigger] v[a]).0@ == k
    &&& forall|a: int, b: int| 0 <= a < b < v.len() ==> (#[trigger] v[a]).0@ != (#[trigger] v[b]).0@
}

proof fn lemma_lists_push(
    v: Seq<(String, PendingAskCard)>,
    keys: Set<Seq<char>>,
    x: (String, PendingAskCard),
)
    requires
        lists(v, keys),
        !keys.contains(x.0@),
    ensures
        lists(v.push(x), keys.insert(x.0@)),
{
    let w = v.push(x);
    let all = keys.insert(x.0@);
    assert forall|k: Seq<char>| #[trigger] all.contains(k) implies exists|a: int|
        0 <= a < w.len() && (#[trigger] w[a]).0@ == k by {
        if k == x.0@ {
            assert(w[v.len() as int].0@ == k);
        } else {
            let a = choose|a: int| 0 <= a < v.len() && (#[trigger] v[a]).0@ == k;
            assert(w[a].0@ == k);
        }
    }
    assert forall|a: int, b: int| 0 <= a < b < w.len() implies (#[trigger] w[a]).0@ != (
    #[trigger] w[b]).0@ by {
        assert(w[a] == v[a]);
        assert(keys.contains(v[a].0@));
        if b < v.len() {
            assert(w[b] == v[b]);
        }
    }
}

impl Asks {
    /// No question has been asked yet.
    pub fn new() -> (r: Asks)
        ensures
            r@ == (AsksV {
                pending: Map::empty(),
                slots: Map::empty(),
                notes: Map::empty(),
                sent: Map::empty(),
            }),
    {
        Asks { pending: Table::new(), slots: Table::new(), notes: Table::new(), sent: Table::new() }
    }

    /// Notes the card of a request. The card whose place it takes is returned, to be marked
    /// as replaced; the same card noted again replaces nothing.
    pub fn record_pending_ask(&mut self, request_id: &str, card: PendingAskCard) -> (r: Option<
        PendingAskCard,
    >)
        ensures
            crate::model::optv(r) == replaced(old(self)@, request_id@, card@.msg_id),
            final(self)@ == (AsksV {
                pending: old(self)@.pending.insert(request_id@, card@),
                ..old(self)@
            }),
    {
        let msg_id = card.msg_id.clone();
        match self.pending.insert(request_id, card) {
            Some(before) => if str_eq(before.msg_id.as_str(), msg_id.as_str()) {
                None
            } else {
                Some(before)
            },
            None => None,
        }
    }

    /// Notes a card that was just sent for a request.
    pub fn register_ask_card(&mut self, request_id: &str, card: PendingAskCard, render: AskRender) -> (r:
        Option<PendingAskCard>)
        ensures
            crate::model::optv(r) == replaced(old(self)@, request_id@, card@.msg_id),
            final(self)@ == registered(old(self)@, request_id@, card@, render@),
    {
        let conv = card.conv_id.clone();
        let slot = AskSlot {
            msg_id: card.msg_id.clone(),
            pending_req: Some(request_id.to_owned()),
            render,
        };
        let before = self.record_pending_ask(request_id, card);
        let _ = self.slots.insert(conv.as_str(), slot);
        let _ = self.sent.insert(conv.as_str(), true);
        before
    }

    /// Notes what a step of asking came to. The card whose place a new one takes is returned.
    pub fn after_ask(
        &mut self,
        conv: &ConvId,
        request_id: &str,
        stage: &AskStage,
        outcome: &Sent,
        render: &AskRender,
    ) -> (r: Option<PendingAskCard>)
        ensures
            crate::model::optv(r) == replaced_by_step(
                old(self)@,
                request_id@,
                stage@,
                flows::sent_view(*outcome),
            ),
            final(self)@ == asked(
                old(self)@,
                conv@,
                request_id@,
                stage@,
                flows::sent_view(*outcome),
                render@,
            ),
    {
        match stage {
            AskStage::Card => match outcome {
                Ok(Some(m)) => {
                    let card = PendingAskCard {
                        conv_id: conv.0.clone(),
                        msg_id: m.clone(),
                        tool_name: render.tool_name.clone(),
                        sender: render.sender.clone(),
                    };
                    self.register_ask_card(request_id, card, copy_render(render))
                },
                Ok(None) => None,
                Err(_) => {
                    self.mark_ask_sent(conv.0.as_str());
                    None
                },
            },
            _ => None,
        }
    }

    /// The card of a running task is sent: no question has been asked since.
    pub fn card_sent(&mut self, conv_id: &str)
        ensures
            final(self)@ == (AsksV { sent: old(self)@.sent.insert(conv_id@, false), ..old(self)@ }),
            final(self)@ == with_new_card(old(self)@, conv_id@),
    {
        let _ = self.sent.insert(conv_id, false);
    }

    /// A question has been asked.
    pub fn mark_ask_sent(&mut self, conv_id: &str)
        ensures
            final(self)@ == (AsksV { sent: old(self)@.sent.insert(conv_id@, true), ..old(self)@ }),
            final(self)@ == with_question(old(self)@, conv_id@),
    {
        let _ = self.sent.insert(conv_id, true);
    }

    /// Whether a question has been asked since the card of the task was sent. Once told, this
    /// is forgotten.
    pub fn take_asks_flag(&mut self, conv_id: &str) -> (r: bool)
        ensures
            r == (old(self)@.sent.contains_key(conv_id@) && old(self)@.sent[conv_id@]),
            final(self)@ == (AsksV { sent: old(self)@.sent.remove(conv_id@), ..old(self)@ }),
    {
        match self.sent.remove(conv_id) {
            Some(b) => b,
            None => false,
        }
    }

    fn free_ask_slot(&mut self, conv_id: &str, request_id: &str)
        ensures
            final(self)@ == (AsksV {
                slots: freed(old(self)@.slots, conv_id@, request_id@),
                ..old(self)@
            }),
    {
        let waits = match self.slots.get(conv_id) {
            Some(slot) => crate::text::opt_is(borrow(&slot.pending_req), request_id),
            None => false,
        };
        if waits {
            match self.slots.remove(conv_id) {
                Some(slot) => {
                    let ghost at = slot@;
                    let idle = AskSlot {
                        msg_id: slot.msg_id,
                        pending_req: None,
                        render: slot.render,
                    };
                    assert(idle@ == (AskSlotV { pending_req: None, ..at }));
                    let _ = self.slots.insert(conv_id, idle);
                    assert(self@.slots =~= freed(old(self)@.slots, conv_id@, request_id@));
                },
                None => {},
            }
        }
    }

    /// A request is no longer open: its card is returned, to be drawn anew.
    pub fn close(&mut self, request_id: &str) -> (r: Option<PendingAskCard>)
        ensures
            r is Some <==> old(self)@.pending.contains_key(request_id@),
            r matches Some(c) ==> c@ == old(self)@.pending[request_id@],
            final(self)@ == closed_one(old(self)@, request_id@),
    {
        let ghost before = self@;
        match self.pending.remove(request_id) {
            Some(card) => {
                self.free_ask_slot(card.conv_id.as_str(), request_id);
                Some(card)
            },
            None => {
                assert(self@.pending =~= before.pending);
                None
            },
        }
    }

    /// No request of a conversation is open any more: their cards are returned, each with
    /// its request, to be drawn anew.
    pub fn close_all(&mut self, conv_id: &str) -> (r: Vec<(String, PendingAskCard)>)
        ensures
            final(self)@ == (AsksV {
                pending: elsewhere(old(self)@.pending, conv_id@),
                slots: all_freed(old(self)@.slots, conv_id@),
                ..old(self)@
            }),
            forall|i: int|
                0 <= i < r@.len() ==> old(self)@.pending.contains_key((#[trigger] r@[i]).0@)
                    && old(self)@.pending[r@[i].0@] == r@[i].1@ && r@[i].1@.conv_id == conv_id@,
            forall|k: Seq<char>| #[trigger]
                old(self)@.pending.contains_key(k) && old(self)@.pending[k].conv_id == conv_id@
                    ==> exists|i: int| 0 <= i < r@.len() && (#[trigger] r@[i]).0@ == k,
            forall|i: int, j: int|
                0 <= i < j < r@.len() ==> (#[trigger] r@[i]).0@ != (#[trigger] r@[j]).0@,
    {
        let ghost start = self@;
        let names = self.pending.names();
        let ghost mut gone: Set<Seq<char>> = Set::empty();
        let mut out: Vec<(String, PendingAskCard)> = Vec::new();
        let mut i: usize = 0;
        assert(start.pending.remove_keys(gone) =~= start.pending);
        while i < names.len()
            invariant
                i <= names@.len(),
                start == old(self)@,
                self@ == (AsksV { pending: start.pending.remove_keys(gone), ..start }),
                forall|j: int|
                    0 <= j < names@.len() ==> start.pending.contains_key((#[trigger] names@[j])@),
                forall|a: int, b: int|
                    0 <= a < b < names@.len() ==> (#[trigger] names@[a])@ != (
                    #[trigger] names@[b])@,
                forall|j: int| i <= j < names@.len() ==> !gone.contains((#[trigger] names@[j])@),
                forall|j: int|
                    0 <= j < i ==> (gone.contains((#[trigger] names@[j])@)
                        <==> start.pending[names@[j]@].conv_id == conv_id@),
                forall|k: Seq<char>| #[trigger]
                    gone.contains(k) ==> start.pending.contains_key(k) && start.pending[k].conv_id
                        == conv_id@,
                lists(out@, gone),
                forall|a: int|
                    0 <= a < out@.len() ==> start.pending[(#[trigger] out@[a]).0@] == out@[a].1@,
            decreases names@.len() - i,
        {
            let name = names[i].as_str();
            let ghost before = gone;
            let ghost out0 = out@;
            assert(names@[i as int]@ == name@);
            let here = match self.pending.get(name) {
                Some(c) => str_eq(c.conv_id.as_str(), conv_id),
                None => false,
            };
            if here {
                match self.pending.remove(name) {
                    Some(card) => {
                        let copy = names[i].clone();
                        out.push((copy, card));
                        proof {
                            gone = gone.insert(name@);
                            lemma_lists_push(out0, before, out@.last());
                            assert(out@ =~= out0.push(out@.last()));
                            assert(self@.pending =~= start.pending.remove_keys(gone));
                        }
                    },
                    None => {},
                }
            }
            i += 1;
        }
        proof {
            let want = elsewhere(start.pending, conv_id@);
            assert forall|k: Seq<char>| #[trigger]
                start.pending.contains_key(k) && start.pending[k].conv_id
                == conv_id@ implies gone.contains(k) by {
                let j = choose|j: int| 0 <= j < names@.len() && (#[trigger] names@[j])@ == k;
                assert(gone.contains(names@[j]@));
            }
            assert(self@.pending =~= want);
            assert forall|a: int| 0 <= a < out@.len() implies start.pending.contains_key(
                (#[trigger] out@[a]).0@,
            ) && out@[a].1@.conv_id == conv_id@ by {
                assert(gone.contains(out@[a].0@));
            }
        }
        let ghost mid = self@;
        match self.slots.remove(conv_id) {
            Some(slot) => {
                let ghost at = slot@;
                let idle = AskSlot { msg_id: slot.msg_id, pending_req: None, render: slot.render };
                assert(idle@ == (AskSlotV { pending_req: None, ..at }));
                let _ = self.slots.insert(conv_id, idle);
            },
            None => {},
        }
        assert(self@.slots =~= all_freed(start.slots, conv_id@));
        assert(self@.pending == mid.pending);
        out
    }

    /// What a click for a request comes to.
    pub fn judge(&self, request_id: Option<&str>, operator: &str) -> (r: Verdict)
        ensures
            r@ == verdict(self@.pending, text::sview(request_id), operator@),
    {
        match request_id {
            Some(req) => match self.pending.get(req) {
                Some(card) => if may_not_answer(card, operator) {
                    Verdict::NotOwner(somebody_else_notice(card))
                } else {
                    Verdict::Pass
                },
                None => Verdict::Expired,
            },
            None => Verdict::Pass,
        }
    }

    /// A card with an open question in a given message.
    pub fn card_in(&self, msg_id: &str) -> (r: Option<PendingAskCard>)
        ensures
            r matches Some(c) ==> c@.msg_id == msg_id@ && exists|k: Seq<char>| #[trigger]
                self@.pending.contains_key(k) && self@.pending[k] == c@,
            r is None ==> forall|k: Seq<char>| #[trigger]
                self@.pending.contains_key(k) ==> self@.pending[k].msg_id != msg_id@,
    {
        let names = self.pending.names();
        let mut i: usize = 0;
        while i < names.len()
            invariant
                i <= names@.len(),
                forall|k: Seq<char>| #[trigger]
                    self@.pending.contains_key(k) <==> exists|j: int|
                        0 <= j < names@.len() && (#[trigger] names@[j])@ == k,
                forall|j: int|
                    0 <= j < i ==> self@.pending[(#[trigger] names@[j])@].msg_id != msg_id@,
            decreases names@.len() - i,
        {
            assert(self@.pending.contains_key(names@[i as int]@));
            match self.pending.get(names[i].as_str()) {
                Some(c) => {
                    if str_eq(c.msg_id.as_str(), msg_id) {
                        return Some(copy_card(c));
                    }
                },
                None => {},
            }
            i += 1;
        }
        proof {
            assert forall|k: Seq<char>| #[trigger]
                self@.pending.contains_key(k) implies self@.pending[k].msg_id != msg_id@ by {
                let j = choose|j: int| 0 <= j < names@.len() && (#[trigger] names@[j])@ == k;
                assert(self@.pending[names@[j]@].msg_id != msg_id@);
            }
        }
        None
    }

    /// The open question of a conversation whose card is to get a new note; `None` where
    /// there is none, or where the note is there already.
    pub fn note_queued(&mut self, conv_id: &str, note: &str) -> (r: Option<
        (String, String, AskRender),
    >)
        ensures
            ({
                let s = old(self)@;
                let open = s.slots.contains_key(conv_id@) && s.slots[conv_id@].pending_req is Some;
                let shown = s.notes.contains_key(conv_id@) && s.notes[conv_id@] == note@;
                &&& r is Some <==> open && !shown
                &&& r matches Some((msg_id, req, render)) ==> msg_id@ == s.slots[conv_id@].msg_id
                    && Some(req@) == s.slots[conv_id@].pending_req && render@
                    == s.slots[conv_id@].render && final(self)@ == (AsksV {
                    notes: s.notes.insert(conv_id@, note@),
                    ..s
                })
                &&& r is None ==> final(self)@ == s
            }),
    {
        let found = match self.slots.get(conv_id) {
            Some(slot) => match &slot.pending_req {
                Some(req) => Some((slot.msg_id.clone(), req.clone(), copy_render(&slot.render))),
                None => None,
            },
            None => None,
        };
        match found {
            Some(f) => {
                let shown = match self.notes.get(conv_id) {
                    Some(n) => str_eq(n.as_str(), note),
                    None => false,
                };
                if shown {
                    return None;
                }
                let _ = self.notes.insert(conv_id, note.to_owned());
                Some(f)
            },
            None => None,
        }
    }

    /// Whether the last card of a conversation still waits for a request.
    pub fn still_waits(&self, conv_id: &str, request_id: &str) -> (r: bool)
        ensures
            r == (self@.slots.contains_key(conv_id@) && self@.slots[conv_id@].pending_req == Some(
                request_id@,
            )),
    {
        match self.slots.get(conv_id) {
            Some(slot) => crate::text::opt_is(borrow(&slot.pending_req), request_id),
            None => false,
        }
    }
}

/// Whether somebody may not answer the question of a card.
pub fn may_not_answer(card: &PendingAskCard, operator: &str) -> (r: bool)
    ensures
        r == not_asked(card@, operator@),
{
    !card.sender.as_str().is_empty() && !is_private_conv(card.conv_id.as_str()) && !str_eq(
        card.sender.as_str(),
        operator,
    )
}

/// The notice to somebody who was not asked.
pub fn somebody_else_notice(card: &PendingAskCard) -> (r: String)
    ensures
        r@ == not_asked_notice(card@),
{
    cat3("⛔ 该询问由 ", card.sender.as_str(), " 发起，仅其本人可答复。")
}

// ---------------------------------------------------------------------------
// The cards
// ---------------------------------------------------------------------------

/// The tool whose calls are questions to the user.
pub const QUESTION_TOOL: &'static str = "AskUserQuestion";

/// Whether a request is shown as a question rather than as an approval.
pub open spec fn shown_as_question(tool: Seq<char>, input: Seq<char>) -> bool {
    tool == QUESTION_TOOL@ && (json::parsed_text(input) matches Some(v) && ask_card::question_card(
        v,
        Seq::empty(),
        Seq::empty(),
        None,
        Seq::empty(),
        0,
    ) is Some)
}

/// The card for a request: a question where it is one and can be shown, else an approval.
pub open spec fn ask_card(
    r: AskRenderV,
    conv: Seq<char>,
    req: Seq<char>,
    note: Seq<char>,
    ts: int,
) -> Seq<char> {
    let sender = text::nonempty(Some(r.sender));
    let approval = json::json_string(ask_card::perm_card(r.tool_name, r.input, conv, req, sender, note, ts));
    if r.question {
        match crate::ask_card::question_card_text(r.input, conv, req, sender, note, ts) {
            Some(t) => t,
            None => approval,
        }
    } else {
        approval
    }
}

/// Whether a request is shown as a question rather than as an approval.
pub fn is_question(tool_name: &str, input: &str) -> (r: bool)
    ensures
        r == shown_as_question(tool_name@, input@),
{
    if !str_eq(tool_name, QUESTION_TOOL) {
        return false;
    }
    match parse_json_str(input) {
        Some(v) => {
            proof {
                reveal_strlit("");
                assert(""@ =~= Seq::empty());
            }
            question_card_at(&v, "", "", None, "", 0).is_some()
        },
        None => false,
    }
}

/// The card for a request, whose buttons are made at a given time.
pub fn ask_card_at(r: &AskRender, conv_id: &str, request_id: &str, note: &str, ts: i64) -> (out:
    String)
    ensures
        out@ == ask_card(r@, conv_id@, request_id@, note@, ts as int),
{
    let sender = take_nonempty(Some(r.sender.as_str()));
    if r.question {
        match parse_json_str(r.input.as_str()) {
            Some(v) => match question_card_at(&v, conv_id, request_id, sender, note, ts) {
                Some(j) => {
                    return json_to_string(&j);
                },
                None => {},
            },
            None => {},
        }
    }
    json_to_string(
        &permission_card_at(
            r.tool_name.as_str(),
            r.input.as_str(),
            conv_id,
            request_id,
            sender,
            note,
            ts,
        ),
    )
}

/// The card for a request with a note of its own. Its buttons are made now.
pub fn ask_card_note(r: &AskRender, conv_id: &str, request_id: &str, note: &str) -> (out: String)
    ensures
        exists|ts: i64|
            out@ == #[trigger] ask_card(r@, conv_id@, request_id@, note@, ts as int),
{
    let ts: i64 = now_secs();
    let out = ask_card_at(r, conv_id, request_id, note, ts);
    assert(out@ == ask_card(r@, conv_id@, request_id@, note@, ts as int));
    out
}

/// The card for a new request. Its buttons are made now.
pub fn new_ask_card(r: &AskRender, conv_id: &str, request_id: &str, ask_timeout_secs: u64) -> (out:
    String)
    ensures
        exists|ts: i64|
            out@ == #[trigger] ask_card(
                r@,
                conv_id@,
                request_id@,
                ask_card::default_note(ask_timeout_secs as int),
                ts as int,
            ),
{
    ask_card_note(r, conv_id, request_id, perm_note_default(ask_timeout_secs).as_str())
}

/// How a request was answered.
#[derive(Debug, Clone, PartialEq, Eq)]
pub struct PermissionReply {
    pub allow: bool,
    pub message: Option<String>,
    pub raw_text: Option<String>,
}

/// Without the front as often as it occurs there.
pub open spec fn without_front(s: Seq<char>, p: Seq<char>) -> Seq<char>
    decreases s.len(),
{
    match text::after_prefix(s, p) {
        Some(t) => if p.len() > 0 {
            without_front(t, p)
        } else {
            s
        },
        None => s,
    }
}

fn strip_front(s: &str, p: &str) -> (r: String)
    requires
        p@.len() > 0,
    ensures
        r@ == without_front(s@, p@),
{
    let mut out = s.to_owned();
    loop
        invariant
            p@.len() > 0,
            without_front(s@, p@) == without_front(out@, p@),
        decreases out@.len(),
    {
        match str_after_prefix(out.as_str(), p) {
            Some(t) => {
                out = t;
            },
            None => {
                return out;
            },
        }
    }
}

/// What was chosen, as far as the answer tells.
pub open spec fn chosen(reply: PermissionReply) -> Seq<char> {
    without_front(
        text::or_text(text::first_of(text::oview(reply.raw_text), text::oview(reply.message)), "已收到"@),
        "用户选择："@,
    )
}

/// The card of a request that has been answered.
pub open spec fn answered_card(tool: Seq<char>, reply: PermissionReply) -> Seq<char> {
    if tool == QUESTION_TOOL@ {
        json::json_string(ask_card::question_resolved_card(chosen(reply)))
    } else {
        json::json_string(ask_card::resolved_card(tool, reply.allow))
    }
}

/// The card of a request that has been answered.
pub fn answered_card_text(tool_name: &str, reply: &PermissionReply) -> (r: String)
    ensures
        r@ == answered_card(tool_name@, *reply),
{
    if str_eq(tool_name, QUESTION_TOOL) {
        let said = match crate::text::either(borrow(&reply.raw_text), borrow(&reply.message)) {
            Some(s) => s,
            None => "已收到",
        };
        proof {
            reveal_strlit("用户选择：");
        }
        render_question_card_resolved(strip_front(said, "用户选择：").as_str())
    } else {
        render_permission_card_resolved(tool_name, reply.allow)
    }
}

/// The text with which a request is put where there are no cards, with a summary of its input.
pub open spec fn ask_text_with(
    conv: Seq<char>,
    tool: Seq<char>,
    input: Seq<char>,
    summary: Seq<char>,
) -> Seq<char> {
    let in_comment = conv::comment_target_of(conv) is Some;
    let questions = match json::parsed_text(input) {
        Some(v) => ask_card::questions_text(v),
        None => None,
    };
    if tool == QUESTION_TOOL@ && questions is Some {
        "❓ "@ + questions->0 + "\n\n请"@ + (if in_comment {
            "@bot "@
        } else {
            ""@
        })
            + "回复 ask:选项（多题用「；」分隔，如 ask:题一=甲；题二=乙）。"@
    } else if in_comment {
        "🔐 请求执行 "@ + tool + "："@ + summary + "\n\n请回复 @bot y 允许 / @bot n 拒绝。"@
    } else {
        "🔐 请求执行 "@ + tool + "："@ + summary + "\n\n回复 y 允许，其它拒绝。"@
    }
}

/// The text with which a request is put where there are no cards.
pub open spec fn ask_text(conv: Seq<char>, tool: Seq<char>, input: Seq<char>) -> Seq<char> {
    ask_text_with(conv, tool, input, status::input_summary(input))
}

/// The text with which a request is put where there are no cards.
pub fn permission_ask_text(conv: &ConvId, tool_name: &str, input: &str) -> (r: String)
    ensures
        r@ == ask_text(conv@, tool_name@, input@),
{
    permission_ask_text_with(conv, tool_name, input, tool_summary(input).as_str())
}

/// The text with which a request is put where there are no cards, with a summary of its input.
pub fn permission_ask_text_with(conv: &ConvId, tool_name: &str, input: &str, summary: &str) -> (r:
    String)
    ensures
        r@ == ask_text_with(conv@, tool_name@, input@, summary@),
{
    let in_comment = comment_target_from_conv(conv).is_some();
    if str_eq(tool_name, QUESTION_TOOL) {
        match questions_as_text(input) {
            Some(q) => {
                let to = if in_comment {
                    "@bot "
                } else {
                    ""
                };
                return cat5(
                    "❓ ",
                    q.as_str(),
                    "\n\n请",
                    to,
                    "回复 ask:选项（多题用「；」分隔，如 ask:题一=甲；题二=乙）。",
                );
            },
            None => {},
        }
    }
    let end = if in_comment {
        "\n\n请回复 @bot y 允许 / @bot n 拒绝。"
    } else {
        "\n\n回复 y 允许，其它拒绝。"
    };
    cat5("🔐 请求执行 ", tool_name, "：", summary, end)
}

// ---------------------------------------------------------------------------
// Laws
// ---------------------------------------------------------------------------

/// A question can be answered once: when its request is closed, every later click for it
/// finds it expired, whoever clicks.
pub proof fn law_answered_once(s: AsksV, req: Seq<char>, operator: Seq<char>)
    ensures
        verdict(closed_one(s, req).pending, Some(req), operator) is Expired,
{
}

/// A question that was put is noted for its conversation, by a card or where no card could be
/// sent. One with a card waits for its answer in that card, and in no other conversation does
/// anything change.
pub proof fn law_question_is_noted(
    s: AsksV,
    conv: Seq<char>,
    req: Seq<char>,
    r: Result<Option<Seq<char>>, Seq<char>>,
    render: AskRenderV,
    other: Seq<char>,
)
    requires
        r != Ok::<Option<Seq<char>>, Seq<char>>(None),
        other != conv,
    ensures
        ({
            let then = asked(s, conv, req, AskStageV::Card, r, render);
            &&& then.sent.contains_key(conv) && then.sent[conv]
            &&& r matches Ok(Some(m)) ==> {
                &&& then.pending.contains_key(req)
                &&& then.pending[req] == card_shown(conv, m, render)
                &&& then.slots[conv].pending_req == Some(req)
            }
            &&& r is Err ==> then.pending == s.pending && then.slots == s.slots
            &&& then.sent.contains_key(other) == s.sent.contains_key(other)
            &&& then.slots.contains_key(other) == s.slots.contains_key(other)
            &&& then.notes == s.notes
        }),
{
}

/// Stopping a conversation leaves none of its questions open, and touches no other one.
pub proof fn law_stop_closes_all_of_a_conversation(
    pending: Map<Seq<char>, PendingAskV>,
    conv: Seq<char>,
    req: Seq<char>,
    operator: Seq<char>,
)
    requires
        pending.contains_key(req),
    ensures
        pending[req].conv_id == conv ==> verdict(
            elsewhere(pending, conv),
            Some(req),
            operator,
        ) is Expired,
        pending[req].conv_id != conv ==> verdict(elsewhere(pending, conv), Some(req), operator)
            == verdict(pending, Some(req), operator),
{
}

/// In a group nobody but the person asked can answer; in a private chat the one person there
/// can.
pub proof fn law_only_the_asked_answers(
    s: AsksV,
    req: Seq<char>,
    card: PendingAskV,
    render: AskRenderV,
    operator: Seq<char>,
)
    requires
        card.sender.len() > 0,
    ensures
        ({
            let after = registered(s, req, card, render);
            verdict(after.pending, Some(req), operator) is Pass <==> card.sender == operator
                || conv::private_conv(card.conv_id)
        }),
{
}

/// Closing one question leaves the others as they are.
pub proof fn law_questions_do_not_disturb(
    s: AsksV,
    req: Seq<char>,
    other: Seq<char>,
    operator: Seq<char>,
)
    requires
        req != other,
    ensures
        verdict(closed_one(s, req).pending, Some(other), operator) == verdict(
            s.pending,
            Some(other),
            operator,
        ),
{
}

} // verus!
