//! How texts, cards and questions are sent, step by step.
use vstd::prelude::*;

use crate::card_flow;
use crate::card_flow::{handle_of_card, handle_of_message};
use crate::conv;
use crate::conv::{comment_target_from_conv, ReceiveIdKind};
use crate::errors::CoreError;
use crate::json;
use crate::json::JsonV;
use crate::model::ConvId;
use crate::requests;
use crate::requests::{file_content, image_content, text_content};
use crate::routing;
use crate::routing::{
    NO_COMMENT_FOR_TEXT, outgoing_pieces, piece_failure, Route, route_card, route_text,
    RouteV,
};
use crate::session;
use crate::session::{Cards, CardsV, Convs, ConvsV};
use crate::text;

verus! {

/// What an outside step came to: the message it made, where it tells, or what went wrong.
pub type Sent = Result<Option<String>, CoreError>;

/// What an outside step came to, by its view.
pub open spec fn sent_view(r: Sent) -> Result<Option<Seq<char>>, Seq<char>> {
    match r {
        Ok(m) => Ok(text::oview(m)),
        Err(e) => Err(e@),
    }
}

// ---------------------------------------------------------------------------
// Texts
// ---------------------------------------------------------------------------

/// How a text is sent: where, in which pieces, and as an answer to which message.
#[derive(Debug)]
pub struct TextPlan {
    pub route: Route,
    pub pieces: Vec<String>,
    pub anchor: Option<String>,
    pub buzz: bool,
}

#[verifier::ext_equal]
pub struct TextPlanV {
    pub route: RouteV,
    pub pieces: Seq<Seq<char>>,
    pub anchor: Option<Seq<char>>,
    pub buzz: bool,
}

impl View for TextPlan {
    type V = TextPlanV;

    open spec fn view(&self) -> TextPlanV {
        TextPlanV {
            route: self.route@,
            pieces: text::views(self.pieces@),
            anchor: text::oview(self.anchor),
            buzz: self.buzz,
        }
    }
}

/// How a text is sent. Only in a chat does it answer a message, and not where it rings.
pub open spec fn text_plan(
    conv: Seq<char>,
    text: Seq<char>,
    buzz: bool,
    comment_anchor: Option<Seq<char>>,
    reply_anchor: Option<Seq<char>>,
    text_max: nat,
    comment_max: nat,
) -> Result<TextPlanV, Seq<char>> {
    match routing::text_route(conv, comment_anchor, NO_COMMENT_FOR_TEXT@) {
        Ok(route) => Ok(
            TextPlanV {
                route,
                pieces: routing::outgoing(
                    text,
                    route is Comment,
                    if route is Comment {
                        comment_max
                    } else {
                        text_max
                    },
                ),
                anchor: if route is Chat && !buzz {
                    reply_anchor
                } else {
                    None
                },
                buzz,
            },
        ),
        Err(e) => Err(e),
    }
}

/// How a text is sent.
pub fn plan_text(
    conv: &ConvId,
    text: &str,
    buzz: bool,
    comment_anchor: Option<&str>,
    reply_anchor: Option<String>,
    text_max: usize,
    comment_max: usize,
) -> (r: Result<TextPlan, CoreError>)
    ensures
        match (
            r,
            text_plan(
                conv@,
                text@,
                buzz,
                text::sview(comment_anchor),
                text::oview(reply_anchor),
                text_max as nat,
                comment_max as nat,
            ),
        ) {
            (Ok(p), Ok(want)) => p@ == want,
            (Err(e), Err(m)) => e is Platform && e@ == m,
            _ => false,
        },
{
    let route = match route_text(conv, comment_anchor) {
        Ok(route) => route,
        Err(e) => {
            return Err(e);
        },
    };
    let (in_comment, in_chat) = match &route {
        Route::Comment { .. } => (true, false),
        Route::Thread { .. } => (false, false),
        Route::Chat { .. } => (false, true),
    };
    let max: usize = if in_comment {
        comment_max
    } else {
        text_max
    };
    let pieces = outgoing_pieces(text, in_comment, max);
    let anchor = if in_chat && !buzz {
        reply_anchor
    } else {
        None
    };
    Ok(TextPlan { route, pieces, anchor, buzz })
}

/// Which piece of a text is under way, whether answering the message has failed for it, and
/// what all came to once all is done.
#[derive(Debug)]
pub struct TextFlow {
    pub at: usize,
    pub direct: bool,
    pub outcome: Option<Result<(), CoreError>>,
}

#[verifier::ext_equal]
pub struct TextFlowV {
    pub at: nat,
    pub direct: bool,
    pub outcome: Option<Result<(), Seq<char>>>,
}

impl View for TextFlow {
    type V = TextFlowV;

    open spec fn view(&self) -> TextFlowV {
        TextFlowV {
            at: self.at as nat,
            direct: self.direct,
            outcome: match self.outcome {
                Some(Ok(_)) => Some(Ok(())),
                Some(Err(e)) => Some(Err(e@)),
                None => None,
            },
        }
    }
}

/// Something to send.
#[derive(Debug, PartialEq, Eq)]
pub enum TextAction {
    /// An answer to a comment.
    ReplyComment { file_token: String, comment_id: String, text: String },
    /// An answer to a message, by its content.
    Reply { message_id: String, content: String },
    /// A text to a chat.
    Send { receive_id: String, kind: ReceiveIdKind, text: String, buzz: bool },
    /// Nothing: all is done.
    Stop,
}

#[verifier::ext_equal]
pub enum TextActionV {
    ReplyComment { file_token: Seq<char>, comment_id: Seq<char>, text: Seq<char> },
    Reply { message_id: Seq<char>, content: Seq<char> },
    Send { receive_id: Seq<char>, kind: ReceiveIdKind, text: Seq<char>, buzz: bool },
    Stop,
}

impl View for TextAction {
    type V = TextActionV;

    open spec fn view(&self) -> TextActionV {
        match *self {
            TextAction::ReplyComment { file_token, comment_id, text } => TextActionV::ReplyComment {
                file_token: file_token@,
                comment_id: comment_id@,
                text: text@,
            },
            TextAction::Reply { message_id, content } => TextActionV::Reply {
                message_id: message_id@,
                content: content@,
            },
            TextAction::Send { receive_id, kind, text, buzz } => TextActionV::Send {
                receive_id: receive_id@,
                kind,
                text: text@,
                buzz,
            },
            TextAction::Stop => TextActionV::Stop,
        }
    }
}

/// Whether the piece under way is sent as an answer to a message of a chat.
pub open spec fn answering(p: TextPlanV, s: TextFlowV) -> bool {
    p.route is Chat && p.anchor is Some && !s.direct
}

/// What to send next.
pub open spec fn text_action(p: TextPlanV, s: TextFlowV) -> TextActionV {
    if s.outcome is Some || s.at >= p.pieces.len() {
        TextActionV::Stop
    } else {
        let piece = p.pieces[s.at as int];
        match p.route {
            RouteV::Comment { file_token, comment_id } => TextActionV::ReplyComment {
                file_token,
                comment_id,
                text: piece,
            },
            RouteV::Thread { root_id } => TextActionV::Reply {
                message_id: root_id,
                content: json::json_string(requests::text_content_v(piece, false)),
            },
            RouteV::Chat { receive_id, kind } => if answering(p, s) {
                TextActionV::Reply {
                    message_id: p.anchor->0,
                    content: json::json_string(requests::text_content_v(piece, false)),
                }
            } else {
                TextActionV::Send { receive_id, kind, text: piece, buzz: p.buzz }
            },
        }
    }
}

/// What follows: a piece that could not be sent as an answer is sent plainly; one that could
/// not be sent at all ends the whole, with its number.
pub open spec fn next_text(p: TextPlanV, s: TextFlowV, e: Option<Seq<char>>) -> TextFlowV {
    if s.outcome is Some || s.at >= p.pieces.len() {
        s
    } else {
        match e {
            None => TextFlowV {
                at: s.at + 1,
                direct: false,
                outcome: if s.at + 1 == p.pieces.len() {
                    Some(Ok(()))
                } else {
                    None
                },
            },
            Some(m) => if answering(p, s) {
                TextFlowV { direct: true, ..s }
            } else {
                TextFlowV {
                    outcome: Some(Err(routing::piece_error(s.at as int, p.pieces.len() as int, m))),
                    ..s
                }
            },
        }
    }
}

impl TextFlow {
    /// Nothing has been sent yet.
    pub fn start() -> (r: TextFlow)
        ensures
            r@ == (TextFlowV { at: 0, direct: false, outcome: None }),
    {
        TextFlow { at: 0, direct: false, outcome: None }
    }

    /// What to send next.
    pub fn action(&self, plan: &TextPlan) -> (r: TextAction)
        ensures
            r@ == text_action(plan@, self@),
    {
        assert(plan@.pieces.len() == plan.pieces@.len());
        if self.outcome.is_some() || self.at >= plan.pieces.len() {
            return TextAction::Stop;
        }
        let piece = plan.pieces[self.at].as_str();
        assert(piece@ == plan@.pieces[self.at as int]);
        match &plan.route {
            Route::Comment { file_token, comment_id } => TextAction::ReplyComment {
                file_token: file_token.clone(),
                comment_id: comment_id.clone(),
                text: piece.to_owned(),
            },
            Route::Thread { root_id } => TextAction::Reply {
                message_id: root_id.clone(),
                content: text_content(piece, false),
            },
            Route::Chat { receive_id, kind } => {
                match &plan.anchor {
                    Some(a) => {
                        if !self.direct {
                            return TextAction::Reply {
                                message_id: a.clone(),
                                content: text_content(piece, false),
                            };
                        }
                    },
                    None => {},
                }
                TextAction::Send {
                    receive_id: receive_id.clone(),
                    kind: *kind,
                    text: piece.to_owned(),
                    buzz: plan.buzz,
                }
            },
        }
    }

    /// What follows, by what the last step came to.
    pub fn next(self, plan: &TextPlan, outcome: Result<(), CoreError>) -> (r: TextFlow)
        ensures
            r@ == next_text(plan@, self@, crate::card_flow::fault(outcome)),
            self.outcome is Some ==> r.outcome == self.outcome,
            self.outcome is None ==> (r.outcome matches Some(Err(e)) ==> e is Platform),
    {
        assert(plan@.pieces.len() == plan.pieces@.len());
        let total: usize = plan.pieces.len();
        if self.outcome.is_some() || self.at >= total {
            return self;
        }
        match outcome {
            Ok(_) => {
                let at: usize = self.at + 1;
                TextFlow {
                    at,
                    direct: false,
                    outcome: if at == total {
                        Some(Ok(()))
                    } else {
                        None
                    },
                }
            },
            Err(e) => {
                let in_chat = match &plan.route {
                    Route::Chat { .. } => true,
                    _ => false,
                };
                if in_chat && plan.anchor.is_some() && !self.direct {
                    TextFlow { at: self.at, direct: true, outcome: None }
                } else {
                    TextFlow {
                        at: self.at,
                        direct: self.direct,
                        outcome: Some(Err(piece_failure(self.at, total, &e))),
                    }
                }
            },
        }
    }
}

/// The most steps of a text that can still follow.
pub open spec fn text_left(p: TextPlanV, s: TextFlowV) -> int {
    if s.outcome is Some || s.at >= p.pieces.len() {
        0
    } else {
        2 * (p.pieces.len() - s.at) - (if s.direct {
            1int
        } else {
            0
        })
    }
}

/// Sending a text comes to an end, whatever the platform answers.
pub proof fn law_text_ends(p: TextPlanV, s: TextFlowV, e: Option<Seq<char>>)
    requires
        s.outcome is None,
        s.at < p.pieces.len(),
    ensures
        0 <= text_left(p, next_text(p, s, e)) < text_left(p, s),
{
}

/// A text that cannot be sent as an answer is not lost: the same piece is sent plainly.
pub proof fn law_failed_answer_is_sent_plainly(p: TextPlanV, s: TextFlowV, e: Seq<char>)
    requires
        s.outcome is None,
        s.at < p.pieces.len(),
        answering(p, s),
    ensures
        ({
            let then = next_text(p, s, Some(e));
            &&& then.at == s.at
            &&& text_action(p, then) matches TextActionV::Send { text, .. } && text
                == p.pieces[s.at as int]
        }),
{
}

/// A text has been sent only where each of its pieces has been.
pub proof fn law_sent_means_all_pieces(p: TextPlanV, s: TextFlowV, e: Option<Seq<char>>)
    requires
        s.outcome is None,
        s.at < p.pieces.len(),
        next_text(p, s, e).outcome == Some(Ok::<(), Seq<char>>(())),
    ensures
        e is None,
        s.at + 1 == p.pieces.len(),
{
}

// ---------------------------------------------------------------------------
// Files
// ---------------------------------------------------------------------------

/// The kind of a message with a file.
pub open spec fn media_kind(image: bool) -> Seq<char> {
    if image {
        "image"@
    } else {
        "file"@
    }
}

/// The content of a message with a file, by the key under which the platform keeps it.
pub open spec fn media_content_v(image: bool, key: Seq<char>) -> JsonV {
    if image {
        JsonV::Obj(map!["image_key"@ => JsonV::Str(key)])
    } else {
        JsonV::Obj(map!["file_key"@ => JsonV::Str(key)])
    }
}

/// The kind and the content of a message with a file.
pub fn media_message(is_image: bool, key: &str) -> (r: (&'static str, String))
    ensures
        r.0@ == media_kind(is_image),
        r.1@ == json::json_string(media_content_v(is_image, key@)),
{
    if is_image {
        ("image", image_content(key))
    } else {
        ("file", file_content(key))
    }
}

// ---------------------------------------------------------------------------
// The card of a task
// ---------------------------------------------------------------------------

/// The step of sending the card of a task that is under way.
#[derive(Debug)]
pub enum CardStage {
    /// A card as a whole, in a thread.
    Thread,
    /// A card that is written as it goes is made.
    Create,
    /// That card is shown as an answer to a message.
    ShowAnchored(String),
    /// That card is shown.
    Show(String),
    /// A card as a whole, as an answer to a message.
    RawAnchored,
    /// A card as a whole.
    Raw,
    /// All is done: the handle of the card, where there is one.
    Done(Sent),
}

pub enum CardStageV {
    Thread,
    Create,
    ShowAnchored(Seq<char>),
    Show(Seq<char>),
    RawAnchored,
    Raw,
    Done(Result<Option<Seq<char>>, Seq<char>>),
}

impl View for CardStage {
    type V = CardStageV;

    open spec fn view(&self) -> CardStageV {
        match *self {
            CardStage::Thread => CardStageV::Thread,
            CardStage::Create => CardStageV::Create,
            CardStage::ShowAnchored(id) => CardStageV::ShowAnchored(id@),
            CardStage::Show(id) => CardStageV::Show(id@),
            CardStage::RawAnchored => CardStageV::RawAnchored,
            CardStage::Raw => CardStageV::Raw,
            CardStage::Done(r) => CardStageV::Done(sent_view(r)),
        }
    }
}

/// The first step of sending the card of a task.
pub open spec fn first_card(conv: Seq<char>) -> CardStageV {
    match routing::card_route(conv) {
        Ok(RouteV::Thread { .. }) => CardStageV::Thread,
        Ok(_) => CardStageV::Create,
        Err(e) => CardStageV::Done(Err(e)),
    }
}

/// A card as a whole: as an answer where there is a message to answer.
pub open spec fn raw_card(anchored: bool) -> CardStageV {
    if anchored {
        CardStageV::RawAnchored
    } else {
        CardStageV::Raw
    }
}

/// The handle of a card as a whole, by its message.
pub open spec fn raw_handle(message: Option<Seq<char>>) -> Option<Seq<char>> {
    match message {
        Some(m) => Some(card_flow::message_handle(m)),
        None => None,
    }
}

/// What follows. Where a card that is written as it goes cannot be made or shown, a card as a
/// whole is sent; what cannot be an answer is sent plainly.
pub open spec fn next_card(
    s: CardStageV,
    anchored: bool,
    r: Result<Option<Seq<char>>, Seq<char>>,
) -> CardStageV {
    match s {
        CardStageV::Thread => match r {
            Ok(m) => CardStageV::Done(Ok(raw_handle(m))),
            Err(e) => CardStageV::Done(Err(e)),
        },
        CardStageV::Create => match r {
            Ok(Some(id)) => if anchored {
                CardStageV::ShowAnchored(id)
            } else {
                CardStageV::Show(id)
            },
            _ => raw_card(anchored),
        },
        CardStageV::ShowAnchored(id) => match r {
            Ok(_) => CardStageV::Done(Ok(Some(card_flow::card_handle(id)))),
            Err(_) => CardStageV::Show(id),
        },
        CardStageV::Show(id) => match r {
            Ok(_) => CardStageV::Done(Ok(Some(card_flow::card_handle(id)))),
            Err(_) => raw_card(anchored),
        },
        CardStageV::RawAnchored => match r {
            Ok(m) => CardStageV::Done(Ok(raw_handle(m))),
            Err(_) => CardStageV::Raw,
        },
        CardStageV::Raw => match r {
            Ok(m) => CardStageV::Done(Ok(raw_handle(m))),
            Err(e) => CardStageV::Done(Err(e)),
        },
        CardStageV::Done(d) => CardStageV::Done(d),
    }
}

fn handle_for(message: Option<String>) -> (r: Option<String>)
    ensures
        text::oview(r) == raw_handle(text::oview(message)),
{
    match message {
        Some(m) => Some(handle_of_message(m.as_str())),
        None => None,
    }
}

fn raw_stage(anchored: bool) -> (r: CardStage)
    ensures
        r@ == raw_card(anchored),
{
    if anchored {
        CardStage::RawAnchored
    } else {
        CardStage::Raw
    }
}

/// The first step of sending the card of a task.
pub fn start_card(conv: &ConvId) -> (r: CardStage)
    ensures
        r@ == first_card(conv@),
        r matches CardStage::Done(Err(e)) ==> e is Platform,
{
    match route_card(conv) {
        Ok(Route::Thread { .. }) => CardStage::Thread,
        Ok(_) => CardStage::Create,
        Err(e) => CardStage::Done(Err(e)),
    }
}

/// The first step of sending a card as a whole, as the result of a task is.
pub open spec fn first_whole_card(conv: Seq<char>, anchored: bool) -> CardStageV {
    match routing::card_route(conv) {
        Ok(RouteV::Thread { .. }) => CardStageV::Thread,
        Ok(_) => raw_card(anchored),
        Err(e) => CardStageV::Done(Err(e)),
    }
}

/// The first step of sending a card as a whole, as the result of a task is.
pub fn start_whole_card(conv: &ConvId, anchored: bool) -> (r: CardStage)
    ensures
        r@ == first_whole_card(conv@, anchored),
        r matches CardStage::Done(Err(e)) ==> e is Platform,
{
    match route_card(conv) {
        Ok(Route::Thread { .. }) => CardStage::Thread,
        Ok(_) => raw_stage(anchored),
        Err(e) => CardStage::Done(Err(e)),
    }
}

/// What follows, by whether there is a message to answer and what the last step came to.
pub fn card_step(stage: CardStage, anchored: bool, outcome: Sent) -> (r: CardStage)
    ensures
        r@ == next_card(stage@, anchored, sent_view(outcome)),
        r matches CardStage::Done(Err(e)) ==> r == stage || outcome == Err::<Option<String>, CoreError>(
            e,
        ),
{
    match stage {
        CardStage::Thread => match outcome {
            Ok(m) => CardStage::Done(Ok(handle_for(m))),
            Err(e) => CardStage::Done(Err(e)),
        },
        CardStage::Create => match outcome {
            Ok(Some(id)) => if anchored {
                CardStage::ShowAnchored(id)
            } else {
                CardStage::Show(id)
            },
            _ => raw_stage(anchored),
        },
        CardStage::ShowAnchored(id) => match outcome {
            Ok(_) => CardStage::Done(Ok(Some(handle_of_card(id.as_str())))),
            Err(_) => CardStage::Show(id),
        },
        CardStage::Show(id) => match outcome {
            Ok(_) => CardStage::Done(Ok(Some(handle_of_card(id.as_str())))),
            Err(_) => raw_stage(anchored),
        },
        CardStage::RawAnchored => match outcome {
            Ok(m) => CardStage::Done(Ok(handle_for(m))),
            Err(_) => CardStage::Raw,
        },
        CardStage::Raw => match outcome {
            Ok(m) => CardStage::Done(Ok(handle_for(m))),
            Err(e) => CardStage::Done(Err(e)),
        },
        CardStage::Done(d) => CardStage::Done(d),
    }
}

/// The message with a card that a step has put into a chat. What stands in a thread is not
/// noted.
pub open spec fn shown(s: CardStageV, r: Result<Option<Seq<char>>, Seq<char>>) -> Option<Seq<char>> {
    match s {
        CardStageV::Thread | CardStageV::Create | CardStageV::Done(_) => None,
        _ => match r {
            Ok(m) => m,
            Err(_) => None,
        },
    }
}

/// What is remembered of a conversation once a step of sending a card has been made: the last
/// card that it shows.
pub open spec fn tail_after(
    convs: ConvsV,
    conv: Seq<char>,
    s: CardStageV,
    r: Result<Option<Seq<char>>, Seq<char>>,
) -> ConvsV {
    match shown(s, r) {
        Some(m) => session::with_tail(convs, conv, m),
        None => convs,
    }
}

/// What is remembered of the cards once a step of sending a card has been made: the message
/// that shows a card that is written as it goes.
pub open spec fn cards_after(
    cards: CardsV,
    s: CardStageV,
    r: Result<Option<Seq<char>>, Seq<char>>,
) -> CardsV {
    match (s, shown(s, r)) {
        (CardStageV::ShowAnchored(id), Some(m)) => session::with_message(cards, id, m),
        (CardStageV::Show(id), Some(m)) => session::with_message(cards, id, m),
        _ => cards,
    }
}

/// Notes what a step of sending a card came to.
pub fn after_card(
    convs: &mut Convs,
    cards: &mut Cards,
    conv: &ConvId,
    stage: &CardStage,
    outcome: &Sent,
)
    ensures
        final(convs)@ == tail_after(old(convs)@, conv@, stage@, sent_view(*outcome)),
        final(cards)@ == cards_after(old(cards)@, stage@, sent_view(*outcome)),
{
    let message = match outcome {
        Ok(Some(m)) => m.as_str(),
        _ => {
            return ;
        },
    };
    match stage {
        CardStage::ShowAnchored(id) | CardStage::Show(id) => {
            convs.note_card_tail(conv.0.as_str(), message);
            cards.note_message(id.as_str(), message);
        },
        CardStage::RawAnchored | CardStage::Raw => {
            convs.note_card_tail(conv.0.as_str(), message);
        },
        _ => {},
    }
}

/// A card that has been sent into a chat by a message is the last card of its conversation;
/// one that is written as it goes is found again by its handle.
pub proof fn law_sent_card_is_noted(
    convs: ConvsV,
    cards: CardsV,
    conv: Seq<char>,
    s: CardStageV,
    anchored: bool,
    message: Seq<char>,
)
    requires
        !(s is Thread),
        !(s is Create),
        !(s is Done),
        text::begins(message, "om_"@),
    ensures
        ({
            let r = Ok::<Option<Seq<char>>, Seq<char>>(Some(message));
            let then = tail_after(convs, conv, s, r).tails;
            let after = cards_after(cards, s, r).messages;
            &&& then.contains_key(conv) && then[conv] == message
            &&& next_card(s, anchored, r) matches CardStageV::Done(Ok(Some(handle))) && match text::after_prefix(
                handle,
                "card:"@,
            ) {
                Some(id) => after.contains_key(id) && after[id] == message,
                None => handle == card_flow::message_handle(message),
            }
        }),
{
    card_flow::law_handle_round_trip(message);
    match s {
        CardStageV::ShowAnchored(id) => {
            card_flow::law_handle_round_trip(id);
        },
        CardStageV::Show(id) => {
            card_flow::law_handle_round_trip(id);
        },
        _ => {},
    }
}

/// A step that fails, and one in a thread, leaves everything as it was.
pub proof fn law_failed_card_is_not_noted(
    convs: ConvsV,
    cards: CardsV,
    conv: Seq<char>,
    s: CardStageV,
    r: Result<Option<Seq<char>>, Seq<char>>,
)
    requires
        r is Err || s is Thread,
    ensures
        tail_after(convs, conv, s, r) == convs,
        cards_after(cards, s, r) == cards,
{
}

/// The most steps of sending a card that can still follow.
pub open spec fn card_left(s: CardStageV) -> nat {
    match s {
        CardStageV::Thread => 1,
        CardStageV::Create => 5,
        CardStageV::ShowAnchored(_) => 4,
        CardStageV::Show(_) => 3,
        CardStageV::RawAnchored => 2,
        CardStageV::Raw => 1,
        CardStageV::Done(_) => 0,
    }
}

/// Sending a card comes to an end, whatever the platform answers.
pub proof fn law_card_ends(s: CardStageV, anchored: bool, r: Result<Option<Seq<char>>, Seq<char>>)
    requires
        !(s is Done),
    ensures
        card_left(next_card(s, anchored, r)) < card_left(s),
{
}

/// In a chat, sending a card fails only where even the plainest way has failed.
pub proof fn law_card_fails_last(s: CardStageV, anchored: bool, r: Result<Option<Seq<char>>, Seq<char>>)
    requires
        !(s is Done),
        !(s is Thread),
        next_card(s, anchored, r) matches CardStageV::Done(Err(_)),
    ensures
        s is Raw,
        r is Err,
{
}

// ---------------------------------------------------------------------------
// Questions
// ---------------------------------------------------------------------------

/// The step of asking a question that is under way.
#[derive(Debug)]
pub enum AskStage {
    /// A card is sent.
    Card,
    /// A text is sent.
    Text,
    /// All is done: the message with the card, where there is one.
    Done(Sent),
}

pub enum AskStageV {
    Card,
    Text,
    Done(Result<Option<Seq<char>>, Seq<char>>),
}

impl View for AskStage {
    type V = AskStageV;

    open spec fn view(&self) -> AskStageV {
        match *self {
            AskStage::Card => AskStageV::Card,
            AskStage::Text => AskStageV::Text,
            AskStage::Done(r) => AskStageV::Done(sent_view(r)),
        }
    }
}

/// The first step of asking: a text in comments, a card elsewhere.
pub open spec fn first_ask(conv: Seq<char>) -> AskStageV {
    if conv::comment_target_of(conv) is Some {
        AskStageV::Text
    } else {
        match routing::card_route(conv) {
            Ok(_) => AskStageV::Card,
            Err(e) => AskStageV::Done(Err(e)),
        }
    }
}

/// What follows: where no card can be sent, a text is.
pub open spec fn next_ask(s: AskStageV, r: Result<Option<Seq<char>>, Seq<char>>) -> AskStageV {
    match s {
        AskStageV::Card => match r {
            Ok(m) => AskStageV::Done(Ok(m)),
            Err(_) => AskStageV::Text,
        },
        AskStageV::Text => match r {
            Ok(_) => AskStageV::Done(Ok(None)),
            Err(e) => AskStageV::Done(Err(e)),
        },
        AskStageV::Done(d) => AskStageV::Done(d),
    }
}

/// The first step of asking.
pub fn start_ask(conv: &ConvId) -> (r: AskStage)
    ensures
        r@ == first_ask(conv@),
        r matches AskStage::Done(Err(e)) ==> e is Platform,
{
    if comment_target_from_conv(conv).is_some() {
        return AskStage::Text;
    }
    match route_card(conv) {
        Ok(_) => AskStage::Card,
        Err(e) => AskStage::Done(Err(e)),
    }
}

/// What follows, by what the last step came to.
pub fn ask_step(stage: AskStage, outcome: Sent) -> (r: AskStage)
    ensures
        r@ == next_ask(stage@, sent_view(outcome)),
        r matches AskStage::Done(Err(e)) ==> r == stage || outcome == Err::<Option<String>, CoreError>(
            e,
        ),
{
    match stage {
        AskStage::Card => match outcome {
            Ok(m) => AskStage::Done(Ok(m)),
            Err(_) => AskStage::Text,
        },
        AskStage::Text => match outcome {
            Ok(_) => AskStage::Done(Ok(None)),
            Err(e) => AskStage::Done(Err(e)),
        },
        AskStage::Done(d) => AskStage::Done(d),
    }
}

/// A question is put as a text where its card cannot be sent; it fails only where the text
/// fails too.
pub proof fn law_question_is_put(s: AskStageV, r: Result<Option<Seq<char>>, Seq<char>>)
    requires
        !(s is Done),
        next_ask(s, r) matches AskStageV::Done(Err(_)),
    ensures
        s is Text,
        r is Err,
{
}

} // verus!
