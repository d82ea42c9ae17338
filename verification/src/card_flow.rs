//! How the card of a task is kept up to date, step by step.
use vstd::prelude::*;

use crate::asks::{Asks, AsksV};
use crate::clock::now_secs;
use crate::errors;
use crate::errors::{CoreError, is_card_not_exist_msg, is_rate_limited_msg};
use crate::json;
use crate::json::{Json, json_to_string, JsonV, Obj};
use crate::model::{CardTerminal, OutboundCard, OutboundV, TerminalV};
use crate::status;
use crate::status::{running_footer, STOPPED, stub_body, terminal_done_footer};
use crate::task_card;
use crate::task_card::{
    card_at, render_overflow_terminal_card, render_stub_card, stream_body_final, stream_body_md,
};
use crate::text;
use crate::text::{borrow, cat2, cat4, str_after_prefix, str_contains, str_eq};

verus! {

/// What an outside step came to: nothing, or what went wrong.
pub open spec fn fault(r: Result<(), CoreError>) -> Option<Seq<char>> {
    match r {
        Ok(_) => None,
        Err(e) => Some(e@),
    }
}

// ---------------------------------------------------------------------------
// A card that is written as it goes
// ---------------------------------------------------------------------------

/// The name of the part of a card with its text.
pub const BODY_ELEMENT: &'static str = "md_body";

/// The name of the part of a card with its footer.
pub const FOOTER_ELEMENT: &'static str = "md_footer";

/// The settings that switch the writing on or off.
pub open spec fn streaming_v(on: bool) -> JsonV {
    JsonV::Obj(
        map!["config"@ => JsonV::Obj(map!["streaming_mode"@ => JsonV::Bool(on)])],
    )
}

/// The settings that switch the writing on or off.
pub fn streaming_settings(on: bool) -> (r: String)
    ensures
        r@ == json::json_string(streaming_v(on)),
{
    let config = Obj::new().with("streaming_mode", Json::Bool(on)).json();
    json_to_string(&Obj::new().with("config", config).json())
}

/// The text that a card is to show. A task whose result is sent elsewhere leaves a pointer.
pub open spec fn patch_text(c: OutboundV, stub: bool) -> Seq<char> {
    if c.terminal is Running {
        task_card::fit(task_card::stream_text(c))
    } else if stub {
        status::stub_text(c.tool_calls.len() as int, task_card::failure(c.terminal))
    } else {
        task_card::fit(task_card::final_text(c, task_card::failure(c.terminal)))
    }
}

/// The footer that a card is to show.
pub open spec fn patch_footer(c: OutboundV) -> Seq<char> {
    match c.terminal {
        TerminalV::Running => status::running_text(c.phase, c.queued_hint, c.run_secs as int),
        TerminalV::Done => status::done_text(c.run_secs as int, c.usage_display),
        TerminalV::Error(e) => if e == STOPPED@ {
            "⏹ 已中断"@
        } else {
            "❌ 出错 · 可发 /doctor 自检"@
        },
    }
}

/// The step that is under way.
#[derive(Debug)]
pub enum Stage {
    /// A running task: its text is written.
    Body,
    /// The writing is switched on again.
    Reopen,
    /// The text is written a second time.
    BodyAgain,
    /// The writing is switched off for good.
    CloseForLast,
    /// The text is written a last time.
    BodyLast,
    /// The footer is written.
    RunFooter,
    /// A task that has ended: its text is written.
    EndBody,
    /// The footer is written; the text came to this.
    EndFooter(Result<(), CoreError>),
    /// The writing is switched off; the text came to this.
    EndClose(Result<(), CoreError>),
    /// All is done, and came to this.
    Done(Result<(), CoreError>),
}

pub enum StageV {
    Body,
    Reopen,
    BodyAgain,
    CloseForLast,
    BodyLast,
    RunFooter,
    EndBody,
    EndFooter(Option<Seq<char>>),
    EndClose(Option<Seq<char>>),
    Done(Option<Seq<char>>),
}

impl View for Stage {
    type V = StageV;

    open spec fn view(&self) -> StageV {
        match *self {
            Stage::Body => StageV::Body,
            Stage::Reopen => StageV::Reopen,
            Stage::BodyAgain => StageV::BodyAgain,
            Stage::CloseForLast => StageV::CloseForLast,
            Stage::BodyLast => StageV::BodyLast,
            Stage::RunFooter => StageV::RunFooter,
            Stage::EndBody => StageV::EndBody,
            Stage::EndFooter(r) => StageV::EndFooter(fault(r)),
            Stage::EndClose(r) => StageV::EndClose(fault(r)),
            Stage::Done(r) => StageV::Done(fault(r)),
        }
    }
}

/// The error that a step holds.
pub open spec fn held_error(s: Stage) -> Option<CoreError> {
    match s {
        Stage::EndFooter(Err(e)) => Some(e),
        Stage::EndClose(Err(e)) => Some(e),
        Stage::Done(Err(e)) => Some(e),
        _ => None,
    }
}

/// Whether the platform has switched the writing off by itself.
pub open spec fn timed_out(e: Seq<char>) -> bool {
    text::contains(e, "code=200850"@)
}

/// The step that follows, by what the last one came to. While a task runs, a text that comes
/// too fast is dropped: the next one holds it. A writing that was switched off is switched on
/// once, and where that does not help, the text is written without it. What becomes of the
/// footer does not matter. A task that has ended always has its writing switched off.
pub open spec fn next_stage(s: StageV, e: Option<Seq<char>>) -> StageV {
    match s {
        StageV::Body => match e {
            None => StageV::RunFooter,
            Some(m) => if errors::rate_limited(m) {
                StageV::Done(None)
            } else if timed_out(m) {
                StageV::Reopen
            } else {
                StageV::Done(e)
            },
        },
        StageV::Reopen => match e {
            None => StageV::BodyAgain,
            Some(m) => if errors::rate_limited(m) {
                StageV::Done(None)
            } else {
                StageV::Done(e)
            },
        },
        StageV::BodyAgain => match e {
            None => StageV::RunFooter,
            Some(m) => if timed_out(m) {
                StageV::CloseForLast
            } else {
                StageV::Done(e)
            },
        },
        StageV::CloseForLast => StageV::BodyLast,
        StageV::BodyLast => match e {
            None => StageV::RunFooter,
            Some(_) => StageV::Done(e),
        },
        StageV::RunFooter => StageV::Done(None),
        StageV::EndBody => StageV::EndFooter(e),
        StageV::EndFooter(body) => StageV::EndClose(body),
        StageV::EndClose(body) => match e {
            None => StageV::Done(body),
            Some(_) => StageV::Done(e),
        },
        StageV::Done(r) => StageV::Done(r),
    }
}

/// What to do next.
#[derive(Debug, Clone, Copy, PartialEq, Eq, Structural)]
pub enum PatchAction {
    /// Write the text.
    Body,
    /// Write the footer, where it changes.
    Footer,
    /// Switch the writing on or off.
    Streaming(bool),
    /// Nothing: all is done.
    Stop,
}

/// What a step does.
pub open spec fn stage_action(s: StageV) -> PatchAction {
    match s {
        StageV::Body => PatchAction::Body,
        StageV::Reopen => PatchAction::Streaming(true),
        StageV::BodyAgain => PatchAction::Body,
        StageV::CloseForLast => PatchAction::Streaming(false),
        StageV::BodyLast => PatchAction::Body,
        StageV::RunFooter => PatchAction::Footer,
        StageV::EndBody => PatchAction::Body,
        StageV::EndFooter(_) => PatchAction::Footer,
        StageV::EndClose(_) => PatchAction::Streaming(false),
        StageV::Done(_) => PatchAction::Stop,
    }
}

/// Whether the card is forgotten once a step has been made: the last step of a task that has
/// ended.
pub open spec fn stage_forgets(s: StageV) -> bool {
    s is EndClose
}

/// A change of a card under way: the text and the footer it is to show, and the step.
#[derive(Debug)]
pub struct ManagedPatch {
    pub content: String,
    pub footer: String,
    pub stage: Stage,
}

impl ManagedPatch {
    /// The change that brings a card up to date.
    pub fn start(card: &OutboundCard, stub: bool) -> (r: ManagedPatch)
        ensures
            r.content@ == patch_text(card@, stub),
            r.footer@ == patch_footer(card@),
            r.stage@ == if card@.terminal is Running {
                StageV::Body
            } else {
                StageV::EndBody
            },
    {
        assert(card@.tool_calls.len() == card.tool_calls@.len());
        match &card.terminal {
            CardTerminal::Running => ManagedPatch {
                content: stream_body_md(card),
                footer: running_footer(card.phase, borrow(&card.queued_hint), card.run_secs),
                stage: Stage::Body,
            },
            CardTerminal::Done => ManagedPatch {
                content: if stub {
                    stub_body(card.tool_calls.len(), None)
                } else {
                    stream_body_final(card, None)
                },
                footer: terminal_done_footer(card.run_secs, borrow(&card.usage_display)),
                stage: Stage::EndBody,
            },
            CardTerminal::Error(e) => ManagedPatch {
                content: if stub {
                    stub_body(card.tool_calls.len(), Some(e.as_str()))
                } else {
                    stream_body_final(card, Some(e.as_str()))
                },
                footer: if str_eq(e.as_str(), STOPPED) {
                    "⏹ 已中断".to_owned()
                } else {
                    "❌ 出错 · 可发 /doctor 自检".to_owned()
                },
                stage: Stage::EndBody,
            },
        }
    }

    /// What to do next.
    pub fn action(&self) -> (r: PatchAction)
        ensures
            r == stage_action(self.stage@),
    {
        match &self.stage {
            Stage::Body => PatchAction::Body,
            Stage::Reopen => PatchAction::Streaming(true),
            Stage::BodyAgain => PatchAction::Body,
            Stage::CloseForLast => PatchAction::Streaming(false),
            Stage::BodyLast => PatchAction::Body,
            Stage::RunFooter => PatchAction::Footer,
            Stage::EndBody => PatchAction::Body,
            Stage::EndFooter(_) => PatchAction::Footer,
            Stage::EndClose(_) => PatchAction::Streaming(false),
            Stage::Done(_) => PatchAction::Stop,
        }
    }

    /// The same change with the step that follows, by what the last one came to.
    pub fn next(self, outcome: Result<(), CoreError>) -> (r: ManagedPatch)
        ensures
            r.content == self.content,
            r.footer == self.footer,
            r.stage@ == next_stage(self.stage@, fault(outcome)),
            held_error(r.stage) matches Some(e) ==> held_error(self.stage) == Some(e) || outcome
                == Err::<(), CoreError>(e),
    {
        let stage = match self.stage {
            Stage::Body => match outcome {
                Ok(_) => Stage::RunFooter,
                Err(e) => if is_rate_limited_msg(e.message()) {
                    Stage::Done(Ok(()))
                } else if str_contains(e.message(), "code=200850") {
                    Stage::Reopen
                } else {
                    Stage::Done(Err(e))
                },
            },
            Stage::Reopen => match outcome {
                Ok(_) => Stage::BodyAgain,
                Err(e) => if is_rate_limited_msg(e.message()) {
                    Stage::Done(Ok(()))
                } else {
                    Stage::Done(Err(e))
                },
            },
            Stage::BodyAgain => match outcome {
                Ok(_) => Stage::RunFooter,
                Err(e) => if str_contains(e.message(), "code=200850") {
                    Stage::CloseForLast
                } else {
                    Stage::Done(Err(e))
                },
            },
            Stage::CloseForLast => Stage::BodyLast,
            Stage::BodyLast => match outcome {
                Ok(_) => Stage::RunFooter,
                Err(e) => Stage::Done(Err(e)),
            },
            Stage::RunFooter => Stage::Done(Ok(())),
            Stage::EndBody => Stage::EndFooter(outcome),
            Stage::EndFooter(body) => Stage::EndClose(body),
            Stage::EndClose(body) => match outcome {
                Ok(_) => Stage::Done(body),
                Err(e) => Stage::Done(Err(e)),
            },
            Stage::Done(r) => Stage::Done(r),
        };
        ManagedPatch { content: self.content, footer: self.footer, stage }
    }

    /// Whether the card is forgotten once the step under way has been made, whatever it came
    /// to.
    pub fn forgets_card(&self) -> (r: bool)
        ensures
            r == stage_forgets(self.stage@),
    {
        match &self.stage {
            Stage::EndClose(_) => true,
            _ => false,
        }
    }

    /// What the change came to; `None` before all is done.
    pub fn outcome(self) -> (r: Option<Result<(), CoreError>>)
        ensures
            r is Some <==> self.stage@ is Done,
            r matches Some(o) ==> self.stage == Stage::Done(o),
    {
        match self.stage {
            Stage::Done(r) => Some(r),
            _ => None,
        }
    }
}

/// The most steps that can still follow.
pub open spec fn steps_left(s: StageV) -> nat {
    match s {
        StageV::Body => 6,
        StageV::Reopen => 5,
        StageV::BodyAgain => 4,
        StageV::CloseForLast => 3,
        StageV::BodyLast => 2,
        StageV::RunFooter => 1,
        StageV::EndBody => 3,
        StageV::EndFooter(_) => 2,
        StageV::EndClose(_) => 1,
        StageV::Done(_) => 0,
    }
}

/// Every change comes to an end, whatever the platform answers: each step leaves fewer.
pub proof fn law_change_ends(s: StageV, e: Option<Seq<char>>)
    requires
        !(s is Done),
    ensures
        steps_left(next_stage(s, e)) < steps_left(s),
{
}

/// The card of a task that has ended has its writing switched off before all is done, even
/// where its text was refused; and all is well only where both went well.
pub proof fn law_ended_card_is_closed(
    body: Option<Seq<char>>,
    footer: Option<Seq<char>>,
    close: Option<Seq<char>>,
)
    ensures
        ({
            let a = next_stage(StageV::EndBody, body);
            let b = next_stage(a, footer);
            &&& stage_action(b) == PatchAction::Streaming(false)
            &&& next_stage(b, close) is Done
            &&& next_stage(b, close) == StageV::Done(None::<Seq<char>>) <==> body is None && close is None
        }),
{
}

/// The card of a task that has ended is forgotten with the last step, whatever was refused,
/// and with no other.
pub proof fn law_ended_card_is_forgotten(body: Option<Seq<char>>, footer: Option<Seq<char>>)
    ensures
        ({
            let a = next_stage(StageV::EndBody, body);
            let b = next_stage(a, footer);
            &&& !stage_forgets(StageV::EndBody)
            &&& !stage_forgets(a)
            &&& stage_forgets(b)
        }),
{
}

/// The card of a running task is not forgotten: no step that follows one of a running task
/// forgets it.
pub proof fn law_running_card_is_kept(s: StageV, e: Option<Seq<char>>)
    requires
        !(s is EndBody),
        !(s is EndFooter),
        !(s is EndClose),
    ensures
        !stage_forgets(s),
        !stage_forgets(next_stage(s, e)),
        !(next_stage(s, e) is EndBody),
        !(next_stage(s, e) is EndFooter),
{
}

/// While a task runs, a text that came too fast is no error.
pub proof fn law_too_fast_is_dropped(e: Seq<char>)
    requires
        errors::rate_limited(e),
    ensures
        next_stage(StageV::Body, Some(e)) == StageV::Done(None::<Seq<char>>),
{
}

// ---------------------------------------------------------------------------
// An update of a card
// ---------------------------------------------------------------------------

/// The mark of an error that says that a card is gone for good.
pub const CARD_HANDLE_LOST: &'static str = "CARD_HANDLE_LOST";

/// The handle of a card that is written as it goes.
pub open spec fn card_handle(card_id: Seq<char>) -> Seq<char> {
    "card:"@ + card_id
}

/// The handle of a card that is drawn anew as a whole.
pub open spec fn message_handle(message_id: Seq<char>) -> Seq<char> {
    "msg:"@ + message_id
}

/// The handle of a card that is written as it goes.
pub fn handle_of_card(card_id: &str) -> (r: String)
    ensures
        r@ == card_handle(card_id@),
{
    cat2("card:", card_id)
}

/// The handle of a card that is drawn anew as a whole.
pub fn handle_of_message(message_id: &str) -> (r: String)
    ensures
        r@ == message_handle(message_id@),
{
    cat2("msg:", message_id)
}

/// What is known at the start of an update: the handle, whether the task has ended, whether
/// its result is to be sent below later cards, and the message that shows the card.
#[verifier::ext_equal]
pub struct UpdateV {
    pub handle: Seq<char>,
    pub ended: bool,
    pub buried: bool,
    pub message: Option<Seq<char>>,
}

/// The step of an update that is under way.
#[derive(Debug)]
pub enum UpdateStage {
    /// The card is drawn anew as a whole, in the message that shows it.
    Whole,
    /// The card is written on.
    Managed,
    /// The card is written on with numbers that start over.
    ManagedAgain,
    /// The message is drawn anew; as a pointer where the result is sent below.
    Raw,
    /// The card only tells that the task has ended, because it could not be drawn otherwise.
    Minimal(CoreError),
    /// The result is sent below.
    Full,
    /// All is done, and came to this.
    Done(Result<(), CoreError>),
}

pub enum UpdateStageV {
    Whole,
    Managed,
    ManagedAgain,
    Raw,
    Minimal(Seq<char>),
    Full,
    Done(Option<Seq<char>>),
}

impl View for UpdateStage {
    type V = UpdateStageV;

    open spec fn view(&self) -> UpdateStageV {
        match *self {
            UpdateStage::Whole => UpdateStageV::Whole,
            UpdateStage::Managed => UpdateStageV::Managed,
            UpdateStage::ManagedAgain => UpdateStageV::ManagedAgain,
            UpdateStage::Raw => UpdateStageV::Raw,
            UpdateStage::Minimal(e) => UpdateStageV::Minimal(e@),
            UpdateStage::Full => UpdateStageV::Full,
            UpdateStage::Done(r) => UpdateStageV::Done(fault(r)),
        }
    }
}

/// The message that an update can fall back on.
pub open spec fn target(u: UpdateV) -> Option<Seq<char>> {
    match text::after_prefix(u.handle, "msg:"@) {
        Some(m) => Some(m),
        None => match text::after_prefix(u.handle, "card:"@) {
            Some(_) => u.message,
            None => None,
        },
    }
}

/// The first step of an update.
pub open spec fn first_update(u: UpdateV) -> UpdateStageV {
    if text::after_prefix(u.handle, "card:"@) is Some {
        if !u.buried && u.ended && u.message is Some {
            UpdateStageV::Whole
        } else {
            UpdateStageV::Managed
        }
    } else if text::after_prefix(u.handle, "msg:"@) is Some {
        UpdateStageV::Raw
    } else {
        settled(u, Some("非法卡片句柄: "@ + u.handle))
    }
}

/// An error of a card, marked where it says that the card is gone.
pub open spec fn marked(e: Seq<char>) -> Seq<char> {
    if errors::card_not_exist(e) {
        e + "（"@ + CARD_HANDLE_LOST@ + "）"@
    } else {
        e
    }
}

/// What follows once the card took the change or did not. A card of an ended task that did
/// not is at least to tell that the task has ended, unless it is gone.
pub open spec fn settled(u: UpdateV, e: Option<Seq<char>>) -> UpdateStageV {
    match e {
        Some(m) => if u.ended && !text::contains(marked(m), CARD_HANDLE_LOST@) && target(u) is Some {
            UpdateStageV::Minimal(marked(m))
        } else {
            UpdateStageV::Done(Some(marked(m)))
        },
        None => if u.buried {
            UpdateStageV::Full
        } else {
            UpdateStageV::Done(None)
        },
    }
}

/// Whether the platform says that the number of a change was too small.
pub open spec fn number_behind(e: Seq<char>) -> bool {
    text::contains(e, "300317"@)
}

/// The step that follows, by what the last one came to.
pub open spec fn next_update(u: UpdateV, s: UpdateStageV, e: Option<Seq<char>>) -> UpdateStageV {
    match s {
        UpdateStageV::Whole => settled(u, e),
        UpdateStageV::Managed => if e matches Some(m) && number_behind(m) {
            UpdateStageV::ManagedAgain
        } else {
            settled(u, e)
        },
        UpdateStageV::ManagedAgain => settled(u, e),
        UpdateStageV::Raw => settled(u, e),
        UpdateStageV::Minimal(first) => match e {
            None => settled(u, None),
            Some(_) => UpdateStageV::Done(Some(first)),
        },
        UpdateStageV::Full => UpdateStageV::Done(e),
        UpdateStageV::Done(r) => UpdateStageV::Done(r),
    }
}

/// Whether what is remembered of the card is to be forgotten after a step: it was drawn for
/// the last time, or it is gone.
pub open spec fn forgets(u: UpdateV, s: UpdateStageV, e: Option<Seq<char>>) -> bool {
    text::after_prefix(u.handle, "card:"@) is Some && match s {
        UpdateStageV::Whole => e is None || errors::card_not_exist(e->0),
        UpdateStageV::Managed => e is Some && !number_behind(e->0) && errors::card_not_exist(e->0),
        UpdateStageV::ManagedAgain => e is Some && errors::card_not_exist(e->0),
        _ => false,
    }
}

/// An update of a card under way.
#[derive(Debug)]
pub struct Update {
    pub handle: String,
    pub ended: bool,
    pub buried: bool,
    pub message: Option<String>,
    pub stage: UpdateStage,
}

/// What an update knows.
pub open spec fn update_view(u: Update) -> UpdateV {
    UpdateV { handle: u.handle@, ended: u.ended, buried: u.buried, message: text::oview(u.message) }
}

/// The error that a step holds: the one that the update has come to, or may come to.
pub open spec fn error_of(s: UpdateStage) -> Option<CoreError> {
    match s {
        UpdateStage::Minimal(e) => Some(e),
        UpdateStage::Done(Err(e)) => Some(e),
        _ => None,
    }
}

/// Whether an error is of the side of the one that it reports. One that says that the card is
/// gone is the platform's.
pub open spec fn reports(e: CoreError, cause: CoreError) -> bool {
    e is Platform <==> cause is Platform || errors::card_not_exist(cause@)
}

/// Whether the error of a step, if it holds one, is of the side of the outcome that led to it.
pub open spec fn reports_outcome(s: UpdateStage, outcome: Result<(), CoreError>) -> bool {
    error_of(s) matches Some(e) ==> outcome is Err && reports(e, outcome->Err_0)
}

fn settle(
    handle: &str,
    ended: bool,
    buried: bool,
    message: &Option<String>,
    outcome: Result<(), CoreError>,
) -> (r: UpdateStage)
    ensures
        r@ == settled(
            UpdateV { handle: handle@, ended, buried, message: text::oview(*message) },
            fault(outcome),
        ),
        reports_outcome(r, outcome),
{
    match outcome {
        Ok(_) => if buried {
            UpdateStage::Full
        } else {
            UpdateStage::Done(Ok(()))
        },
        Err(e) => {
            let e = if is_card_not_exist_msg(e.message()) {
                CoreError::Platform(cat4(e.message(), "（", CARD_HANDLE_LOST, "）"))
            } else {
                e
            };
            let has_target = str_after_prefix(handle, "msg:").is_some() || (str_after_prefix(
                handle,
                "card:",
            ).is_some() && message.is_some());
            if ended && !str_contains(e.message(), CARD_HANDLE_LOST) && has_target {
                UpdateStage::Minimal(e)
            } else {
                UpdateStage::Done(Err(e))
            }
        },
    }
}

impl Update {
    /// The update of a card.
    pub fn start(handle: &str, ended: bool, buried: bool, message: Option<String>) -> (r: Update)
        ensures
            update_view(r) == (UpdateV { handle: handle@, ended, buried, message: text::oview(message) }),
            r.stage@ == first_update(update_view(r)),
            error_of(r.stage) matches Some(e) ==> e is Platform,
    {
        let stage = if str_after_prefix(handle, "card:").is_some() {
            if !buried && ended && message.is_some() {
                UpdateStage::Whole
            } else {
                UpdateStage::Managed
            }
        } else if str_after_prefix(handle, "msg:").is_some() {
            UpdateStage::Raw
        } else {
            settle(
                handle,
                ended,
                buried,
                &message,
                Err(CoreError::Platform(cat2("非法卡片句柄: ", handle))),
            )
        };
        Update { handle: handle.to_owned(), ended, buried, message, stage }
    }

    /// Whether what is remembered of the card is to be forgotten, by what the step came to.
    pub fn forgets_card(&self, outcome: &Result<(), CoreError>) -> (r: bool)
        ensures
            r == forgets(update_view(*self), self.stage@, fault(*outcome)),
    {
        if str_after_prefix(self.handle.as_str(), "card:").is_none() {
            return false;
        }
        match &self.stage {
            UpdateStage::Whole => match outcome {
                Ok(_) => true,
                Err(e) => is_card_not_exist_msg(e.message()),
            },
            UpdateStage::Managed => match outcome {
                Ok(_) => false,
                Err(e) => !str_contains(e.message(), "300317") && is_card_not_exist_msg(
                    e.message(),
                ),
            },
            UpdateStage::ManagedAgain => match outcome {
                Ok(_) => false,
                Err(e) => is_card_not_exist_msg(e.message()),
            },
            _ => false,
        }
    }

    /// The same update with the step that follows, by what the last one came to.
    pub fn next(self, outcome: Result<(), CoreError>) -> (r: Update)
        ensures
            update_view(r) == update_view(self),
            r.stage@ == next_update(update_view(self), self.stage@, fault(outcome)),
            match self.stage {
                UpdateStage::Minimal(first) => error_of(r.stage) matches Some(e) ==> e == first,
                UpdateStage::Full => error_of(r.stage) matches Some(e) ==> outcome == Err::<
                    (),
                    CoreError,
                >(e),
                UpdateStage::Done(_) => r.stage == self.stage,
                _ => reports_outcome(r.stage, outcome),
            },
    {
        let Update { handle, ended, buried, message, stage } = self;
        let then = match stage {
            UpdateStage::Whole => settle(handle.as_str(), ended, buried, &message, outcome),
            UpdateStage::Managed => {
                let behind = match &outcome {
                    Ok(_) => false,
                    Err(e) => str_contains(e.message(), "300317"),
                };
                if behind {
                    UpdateStage::ManagedAgain
                } else {
                    settle(handle.as_str(), ended, buried, &message, outcome)
                }
            },
            UpdateStage::ManagedAgain => settle(
                handle.as_str(),
                ended,
                buried,
                &message,
                outcome,
            ),
            UpdateStage::Raw => settle(handle.as_str(), ended, buried, &message, outcome),
            UpdateStage::Minimal(first) => match outcome {
                Ok(_) => settle(handle.as_str(), ended, buried, &message, Ok(())),
                Err(_) => UpdateStage::Done(Err(first)),
            },
            UpdateStage::Full => UpdateStage::Done(outcome),
            UpdateStage::Done(r) => UpdateStage::Done(r),
        };
        Update { handle, ended, buried, message, stage: then }
    }

    /// The message that the update can fall back on.
    pub fn target_message(&self) -> (r: Option<String>)
        ensures
            text::oview(r) == target(update_view(*self)),
    {
        match str_after_prefix(self.handle.as_str(), "msg:") {
            Some(m) => Some(m),
            None => match str_after_prefix(self.handle.as_str(), "card:") {
                Some(_) => crate::text::copy_opt(&self.message),
                None => None,
            },
        }
    }
}

// ---------------------------------------------------------------------------
// What a step of an update does
// ---------------------------------------------------------------------------

/// How the card of a task is drawn.
#[derive(Debug, Clone, Copy, PartialEq, Eq, Structural)]
pub enum Face {
    /// With all that the task came to.
    Full,
    /// As a pointer to the result, which is sent below.
    Stub,
    /// With no more than that the task has ended.
    Ended,
}

/// What a step of an update does.
#[derive(Debug, Clone, PartialEq, Eq)]
pub enum UpdateAction {
    /// The message is drawn anew.
    Patch { message: String, face: Face },
    /// The card is written on; as a pointer where the result is sent below.
    Write { stub: bool },
    /// The numbers of the card's changes start over, and then the card is written on.
    WriteAnew { stub: bool },
    /// The card is sent once more as a whole, in a message of its own.
    Send { face: Face },
    /// Nothing is left to do.
    Stop,
}

#[verifier::ext_equal]
pub enum UpdateActionV {
    Patch { message: Seq<char>, face: Face },
    Write { stub: bool },
    WriteAnew { stub: bool },
    Send { face: Face },
    Stop,
}

impl View for UpdateAction {
    type V = UpdateActionV;

    open spec fn view(&self) -> UpdateActionV {
        match *self {
            UpdateAction::Patch { message, face } => UpdateActionV::Patch { message: message@, face },
            UpdateAction::Write { stub } => UpdateActionV::Write { stub },
            UpdateAction::WriteAnew { stub } => UpdateActionV::WriteAnew { stub },
            UpdateAction::Send { face } => UpdateActionV::Send { face },
            UpdateAction::Stop => UpdateActionV::Stop,
        }
    }
}

/// What a step of an update does.
pub open spec fn action_of(u: UpdateV, s: UpdateStageV) -> UpdateActionV {
    let message = text::or_text(target(u), Seq::empty());
    match s {
        UpdateStageV::Whole => UpdateActionV::Patch { message, face: Face::Full },
        UpdateStageV::Managed => UpdateActionV::Write { stub: u.buried },
        UpdateStageV::ManagedAgain => UpdateActionV::WriteAnew { stub: u.buried },
        UpdateStageV::Raw => UpdateActionV::Patch {
            message,
            face: if u.buried {
                Face::Stub
            } else {
                Face::Full
            },
        },
        UpdateStageV::Minimal(_) => UpdateActionV::Patch { message, face: Face::Ended },
        UpdateStageV::Full => UpdateActionV::Send { face: Face::Full },
        UpdateStageV::Done(_) => UpdateActionV::Stop,
    }
}

/// The card of a task, drawn in one of the ways. Its buttons are made at the given time.
pub open spec fn face_card(
    face: Face,
    c: OutboundV,
    conv: Seq<char>,
    sender: Option<Seq<char>>,
    ts: int,
) -> JsonV {
    match face {
        Face::Full => task_card::task_card(c, conv, sender, ts),
        Face::Stub => task_card::stub_card(c),
        Face::Ended => task_card::overflow_card(c.terminal is Done),
    }
}

/// The card of a task, drawn in one of the ways, with buttons made at the given time.
pub fn draw_at(face: Face, c: &OutboundCard, conv_id: &str, sender: Option<&str>, ts: i64) -> (r:
    String)
    ensures
        r@ == json::json_string(face_card(face, c@, conv_id@, text::sview(sender), ts as int)),
{
    match face {
        Face::Full => json_to_string(&card_at(c, conv_id, sender, ts)),
        Face::Stub => render_stub_card(c),
        Face::Ended => match &c.terminal {
            CardTerminal::Done => render_overflow_terminal_card(true),
            _ => render_overflow_terminal_card(false),
        },
    }
}

/// The card of a task, drawn in one of the ways. Its buttons are made now.
pub fn draw(face: Face, c: &OutboundCard, conv_id: &str, sender: Option<&str>) -> (r: String)
    ensures
        exists|ts: i64|
            r@ == #[trigger] json::json_string(
                face_card(face, c@, conv_id@, text::sview(sender), ts as int),
            ),
{
    let ts: i64 = now_secs();
    let r = draw_at(face, c, conv_id, sender, ts);
    assert(r@ == json::json_string(face_card(face, c@, conv_id@, text::sview(sender), ts as int)));
    r
}

/// Whether a question was asked in a conversation since the card of its task was sent.
pub open spec fn asked_since(a: AsksV, conv: Seq<char>) -> bool {
    a.sent.contains_key(conv) && a.sent[conv]
}

/// What is known at the start of the update of a card.
pub open spec fn update_of(
    a: AsksV,
    conv: Seq<char>,
    handle: Seq<char>,
    ended: bool,
    message: Option<Seq<char>>,
) -> UpdateV {
    UpdateV { handle, ended, buried: ended && asked_since(a, conv), message }
}

/// The questions once the update of a card has begun: that of an ended task takes with it
/// that a question was asked.
pub open spec fn asks_after_start(a: AsksV, conv: Seq<char>, ended: bool) -> AsksV {
    if ended {
        AsksV { sent: a.sent.remove(conv), ..a }
    } else {
        a
    }
}

/// Begins the update of a card. The result of an ended task is sent below where a question was
/// asked since its card was sent.
pub fn start_update(
    asks: &mut Asks,
    conv_id: &str,
    handle: &str,
    c: &OutboundCard,
    message: Option<String>,
) -> (r: Update)
    ensures
        final(asks)@ == asks_after_start(old(asks)@, conv_id@, !(c@.terminal is Running)),
        update_view(r) == update_of(
            old(asks)@,
            conv_id@,
            handle@,
            !(c@.terminal is Running),
            text::oview(message),
        ),
        r.stage@ == first_update(update_view(r)),
        error_of(r.stage) matches Some(e) ==> e is Platform,
{
    let ended = match &c.terminal {
        CardTerminal::Running => false,
        _ => true,
    };
    let buried = if ended {
        asks.take_asks_flag(conv_id)
    } else {
        false
    };
    Update::start(handle, ended, buried, message)
}

impl Update {
    /// What the step of the update does.
    pub fn action(&self) -> (r: UpdateAction)
        ensures
            r@ == action_of(update_view(*self), self.stage@),
    {
        let message = match self.target_message() {
            Some(m) => m,
            None => String::new(),
        };
        assert(message@ =~= text::or_text(target(update_view(*self)), Seq::empty()));
        match &self.stage {
            UpdateStage::Whole => UpdateAction::Patch { message, face: Face::Full },
            UpdateStage::Managed => UpdateAction::Write { stub: self.buried },
            UpdateStage::ManagedAgain => UpdateAction::WriteAnew { stub: self.buried },
            UpdateStage::Raw => UpdateAction::Patch {
                message,
                face: if self.buried {
                    Face::Stub
                } else {
                    Face::Full
                },
            },
            UpdateStage::Minimal(_) => UpdateAction::Patch { message, face: Face::Ended },
            UpdateStage::Full => UpdateAction::Send { face: Face::Full },
            UpdateStage::Done(_) => UpdateAction::Stop,
        }
    }
}

/// The most steps of an update that can still follow.
pub open spec fn updates_left(s: UpdateStageV) -> nat {
    match s {
        UpdateStageV::Whole => 3,
        UpdateStageV::Managed => 4,
        UpdateStageV::ManagedAgain => 3,
        UpdateStageV::Raw => 3,
        UpdateStageV::Minimal(_) => 2,
        UpdateStageV::Full => 1,
        UpdateStageV::Done(_) => 0,
    }
}

/// Every update comes to an end, whatever the platform answers.
pub proof fn law_update_ends(u: UpdateV, s: UpdateStageV, e: Option<Seq<char>>)
    requires
        !(s is Done),
    ensures
        updates_left(next_update(u, s, e)) < updates_left(s),
{
}

/// The error of a card that is gone is marked as such, and nothing more is tried.
pub proof fn law_gone_card_is_reported(u: UpdateV, e: Seq<char>)
    requires
        errors::card_not_exist(e),
    ensures
        settled(u, Some(e)) == UpdateStageV::Done(Some(e + "（"@ + CARD_HANDLE_LOST@ + "）"@)),
        text::contains(e + "（"@ + CARD_HANDLE_LOST@ + "）"@, CARD_HANDLE_LOST@),
{
    let lost = CARD_HANDLE_LOST@;
    let m = e + "（"@ + lost + "）"@;
    let at = e.len() as int + "（"@.len();
    assert(m.subrange(at, at + lost.len()) =~= lost);
    assert(crate::text::occurs_at(m, lost, at));
}

/// A result that later cards have pushed out of sight is sent below them whenever the card
/// could be changed at all.
pub proof fn law_buried_result_is_sent_again(u: UpdateV, first: Seq<char>)
    requires
        u.buried,
    ensures
        settled(u, None) == UpdateStageV::Full,
        next_update(u, UpdateStageV::Minimal(first), None) == UpdateStageV::Full,
{
}

/// The steps of an update in which every call succeeds.
pub open spec fn steps_of(u: UpdateV, s: UpdateStageV) -> Seq<UpdateActionV>
    decreases updates_left(s),
{
    proof {
        if !(s is Done) {
            law_update_ends(u, s, None);
        }
    }
    if s is Done {
        Seq::empty()
    } else {
        seq![action_of(u, s)] + steps_of(u, next_update(u, s, None))
    }
}

/// What an update comes to in which every call succeeds.
pub open spec fn end_of(u: UpdateV, s: UpdateStageV) -> Option<Seq<char>>
    decreases updates_left(s),
{
    proof {
        if !(s is Done) {
            law_update_ends(u, s, None);
        }
    }
    match s {
        UpdateStageV::Done(r) => r,
        _ => end_of(u, next_update(u, s, None)),
    }
}

/// The result of a task moves below its questions exactly once. After a question, the first
/// update of the ended task leaves a pointer in the message and sends the full card in a new
/// one; the next update draws the full card in the message and sends nothing.
pub proof fn law_result_moves_below_once(
    before: AsksV,
    conv: Seq<char>,
    message_id: Seq<char>,
    m1: Option<Seq<char>>,
    m2: Option<Seq<char>>,
)
    ensures
        ({
            let handle = message_handle(message_id);
            let a = AsksV { sent: before.sent.insert(conv, true), ..before };
            let first = update_of(a, conv, handle, true, m1);
            let second = update_of(asks_after_start(a, conv, true), conv, handle, true, m2);
            &&& steps_of(first, first_update(first)) == seq![
                UpdateActionV::Patch { message: message_id, face: Face::Stub },
                UpdateActionV::Send { face: Face::Full },
            ]
            &&& end_of(first, first_update(first)) is None
            &&& steps_of(second, first_update(second)) == seq![
                UpdateActionV::Patch { message: message_id, face: Face::Full },
            ]
            &&& end_of(second, first_update(second)) is None
        }),
{
    law_handle_round_trip(message_id);
    let handle = message_handle(message_id);
    let a = AsksV { sent: before.sent.insert(conv, true), ..before };
    let first = update_of(a, conv, handle, true, m1);
    let second = update_of(asks_after_start(a, conv, true), conv, handle, true, m2);
    reveal_with_fuel(steps_of, 3);
    reveal_with_fuel(end_of, 3);
    assert(first_update(first) is Raw);
    assert(next_update(first, UpdateStageV::Raw, None) is Full);
    assert(first_update(second) is Raw);
    assert(steps_of(first, first_update(first)) =~= seq![
        UpdateActionV::Patch { message: message_id, face: Face::Stub },
        UpdateActionV::Send { face: Face::Full },
    ]);
    assert(steps_of(second, first_update(second)) =~= seq![
        UpdateActionV::Patch { message: message_id, face: Face::Full },
    ]);
}

/// The same holds of a card that is written as it goes: after a question, the first update of
/// the ended task writes a pointer and sends the full card in a new message; the next update
/// sends nothing.
pub proof fn law_written_result_moves_below_once(
    before: AsksV,
    conv: Seq<char>,
    card_id: Seq<char>,
    m1: Option<Seq<char>>,
    m2: Option<Seq<char>>,
)
    ensures
        ({
            let handle = card_handle(card_id);
            let a = AsksV { sent: before.sent.insert(conv, true), ..before };
            let first = update_of(a, conv, handle, true, m1);
            let second = update_of(asks_after_start(a, conv, true), conv, handle, true, m2);
            &&& steps_of(first, first_update(first)) == seq![
                UpdateActionV::Write { stub: true },
                UpdateActionV::Send { face: Face::Full },
            ]
            &&& end_of(first, first_update(first)) is None
            &&& steps_of(second, first_update(second)) == seq![
                match m2 {
                    Some(m) => UpdateActionV::Patch { message: m, face: Face::Full },
                    None => UpdateActionV::Write { stub: false },
                },
            ]
            &&& end_of(second, first_update(second)) is None
        }),
{
    law_handle_round_trip(card_id);
    let handle = card_handle(card_id);
    let a = AsksV { sent: before.sent.insert(conv, true), ..before };
    let first = update_of(a, conv, handle, true, m1);
    let second = update_of(asks_after_start(a, conv, true), conv, handle, true, m2);
    reveal_with_fuel(steps_of, 3);
    reveal_with_fuel(end_of, 3);
    assert(first_update(first) is Managed);
    assert(next_update(first, UpdateStageV::Managed, None) is Full);
    assert(steps_of(first, first_update(first)) =~= seq![
        UpdateActionV::Write { stub: true },
        UpdateActionV::Send { face: Face::Full },
    ]);
    assert(steps_of(second, first_update(second)).len() == 1);
    assert(steps_of(second, first_update(second)) =~= seq![
        match m2 {
            Some(m) => UpdateActionV::Patch { message: m, face: Face::Full },
            None => UpdateActionV::Write { stub: false },
        },
    ]);
}

/// The two kinds of handles are told apart, and give back what they were made for.
pub proof fn law_handle_round_trip(id: Seq<char>)
    ensures
        text::after_prefix(card_handle(id), "card:"@) == Some(id),
        text::after_prefix(card_handle(id), "msg:"@) is None,
        text::after_prefix(message_handle(id), "msg:"@) == Some(id),
        text::after_prefix(message_handle(id), "card:"@) is None,
{
    crate::text::lemma_after_own_prefix("card:"@, id);
    crate::text::lemma_after_own_prefix("msg:"@, id);
    reveal_strlit("card:");
    reveal_strlit("msg:");
    assert(card_handle(id)[0] == 'c');
    assert(message_handle(id)[0] == 'm');
    if crate::text::begins(card_handle(id), "msg:"@) {
        assert(card_handle(id).subrange(0, 4)[0] == 'm');
    }
    if crate::text::begins(message_handle(id), "card:"@) {
        assert(message_handle(id).subrange(0, 5)[0] == 'c');
    }
}

} // verus!
