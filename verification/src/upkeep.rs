//! How a card is sent and kept up to date: what is shown of a task at each point, what is tried
//! where the platform refuses, and what is told where nothing helps.
use vstd::prelude::*;

use crate::asks;
use crate::asks::AsksV;
use crate::card_flow;
use crate::card_flow::{Face, PatchAction, StageV, UpdateActionV, UpdateStageV, UpdateV};
use crate::conv;
use crate::delivery;
use crate::digits;
use crate::errors;
use crate::errors::CoreError;
use crate::flows;
use crate::flows::{AskStageV, CardStageV};
use crate::gemini;
use crate::json::JsonV;
use crate::markdown;
use crate::model::{OutboundV, TerminalV};
use crate::retry;
use crate::retry::SessionEnd;
use crate::routing;
use crate::status;
use crate::task_card;
use crate::text;

verus! {

// ---------------------------------------------------------------------------
// Writing to a card
// ---------------------------------------------------------------------------

/// A card that is written as it goes shows what the task has come to so far, and once it has
/// ended all that it came to, with why it ended early, or else a pointer to where that is.
pub proof fn law_card_shows_the_task(c: OutboundV, stub: bool, e: Seq<char>)
    requires
        e != "已中断"@,
    ensures
        c.terminal is Running ==> card_flow::patch_text(c, stub) == task_card::fit(
            task_card::stream_text(c),
        ) && card_flow::patch_footer(c) == status::running_text(
            c.phase,
            c.queued_hint,
            c.run_secs as int,
        ),
        c.terminal is Done && !stub ==> card_flow::patch_text(c, stub) == task_card::fit(
            task_card::final_text(c, None),
        ),
        c.terminal is Done && stub ==> card_flow::patch_text(c, stub) == status::stub_text(
            c.tool_calls.len() as int,
            None,
        ),
        c.terminal is Done ==> card_flow::patch_footer(c) == status::done_text(
            c.run_secs as int,
            c.usage_display,
        ),
        c.terminal == TerminalV::Error(e) && !stub ==> card_flow::patch_text(c, stub)
            == task_card::fit(task_card::final_text(c, Some(e))),
        c.terminal == TerminalV::Error(e) && stub ==> card_flow::patch_text(c, stub)
            == status::stub_text(c.tool_calls.len() as int, Some(e)),
        c.terminal == TerminalV::Error(e) ==> card_flow::patch_footer(c)
            == "❌ 出错 · 可发 /doctor 自检"@,
        c.terminal == TerminalV::Error("已中断"@) ==> card_flow::patch_footer(c) == "⏹ 已中断"@,
{
}

/// While a task runs, its text is written, then its footer, and all is well; what becomes of
/// the footer does not matter. A refused text is an error, unless it only came too fast.
pub proof fn law_running_text_is_written(e: Seq<char>, footer: Option<Seq<char>>)
    ensures
        card_flow::stage_action(StageV::Body) == PatchAction::Body,
        card_flow::stage_action(card_flow::next_stage(StageV::Body, None)) == PatchAction::Footer,
        card_flow::next_stage(card_flow::next_stage(StageV::Body, None), footer) == StageV::Done(
            None::<Seq<char>>,
        ),
        !errors::rate_limited(e) && !text::contains(e, "code=200850"@) ==> card_flow::next_stage(
            StageV::Body,
            Some(e),
        ) == StageV::Done(Some(e)),
{
}

/// Where the platform has switched the writing off, it is switched on and the text written
/// again; where that does not help, it is switched off and the text written once more. Only
/// then is the refusal an error.
pub proof fn law_lost_writing_is_resumed(e: Seq<char>, other: Seq<char>)
    requires
        text::contains(e, "code=200850"@),
        !errors::rate_limited(e),
        !errors::rate_limited(other),
        !text::contains(other, "code=200850"@),
    ensures
        ({
            let reopen = card_flow::next_stage(StageV::Body, Some(e));
            let again = card_flow::next_stage(reopen, None);
            let close = card_flow::next_stage(again, Some(e));
            let last = card_flow::next_stage(close, None);
            &&& card_flow::stage_action(reopen) == PatchAction::Streaming(true)
            &&& card_flow::stage_action(again) == PatchAction::Body
            &&& card_flow::stage_action(card_flow::next_stage(again, None)) == PatchAction::Footer
            &&& card_flow::next_stage(again, Some(other)) == StageV::Done(Some(other))
            &&& card_flow::stage_action(close) == PatchAction::Streaming(false)
            &&& card_flow::stage_action(last) == PatchAction::Body
            &&& card_flow::stage_action(card_flow::next_stage(close, Some(other)))
                == PatchAction::Body
            &&& card_flow::stage_action(card_flow::next_stage(last, None)) == PatchAction::Footer
            &&& card_flow::next_stage(last, Some(other)) == StageV::Done(Some(other))
            &&& card_flow::next_stage(reopen, Some(other)) == StageV::Done(Some(other))
        }),
{
}

/// The card of a task that has ended gets its text, then its footer, and then its writing is
/// switched off; a refusal of the text, or of the switching off, is told.
pub proof fn law_ended_text_is_written(
    body: Option<Seq<char>>,
    footer: Option<Seq<char>>,
    e: Seq<char>,
)
    ensures
        ({
            let a = card_flow::next_stage(StageV::EndBody, body);
            let b = card_flow::next_stage(a, footer);
            &&& card_flow::stage_action(StageV::EndBody) == PatchAction::Body
            &&& card_flow::stage_action(a) == PatchAction::Footer
            &&& card_flow::stage_action(b) == PatchAction::Streaming(false)
            &&& card_flow::next_stage(b, None) == StageV::Done(body)
            &&& card_flow::next_stage(b, Some(e)) == StageV::Done(Some(e))
            &&& card_flow::stage_action(card_flow::next_stage(b, None)) == PatchAction::Stop
        }),
{
}

/// The writing of a card is switched as asked.
pub proof fn law_writing_is_switched(on: bool)
    ensures
        card_flow::streaming_v(on).at("config"@).at("streaming_mode"@) == JsonV::Bool(on),
{
}

// ---------------------------------------------------------------------------
// Updating a card
// ---------------------------------------------------------------------------

/// The card of a running task is written on, or drawn anew in its message. Once the task has
/// ended it is drawn anew as a whole where its message is known. A pointer stands there instead
/// exactly where a question came in between, and then the whole card is sent below.
pub proof fn law_card_is_kept_up_to_date(
    id: Seq<char>,
    message: Seq<char>,
    ended: bool,
    buried: bool,
)
    ensures
        ({
            let u = UpdateV {
                handle: "card:"@ + id,
                ended: false,
                buried: false,
                message: Some(message),
            };
            &&& card_flow::action_of(u, card_flow::first_update(u)) == (UpdateActionV::Write {
                stub: false,
            })
            &&& card_flow::next_update(u, card_flow::first_update(u), None) == UpdateStageV::Done(
                None::<Seq<char>>,
            )
        }),
        ({
            let u = UpdateV {
                handle: "card:"@ + id,
                ended: true,
                buried: false,
                message: Some(message),
            };
            &&& card_flow::action_of(u, card_flow::first_update(u)) == (UpdateActionV::Patch {
                message,
                face: Face::Full,
            })
            &&& card_flow::next_update(u, card_flow::first_update(u), None) == UpdateStageV::Done(
                None::<Seq<char>>,
            )
        }),
        ({
            let u = UpdateV { handle: "msg:"@ + message, ended, buried, message: None };
            &&& card_flow::action_of(u, card_flow::first_update(u)) == (UpdateActionV::Patch {
                message,
                face: if buried {
                    Face::Stub
                } else {
                    Face::Full
                },
            })
            &&& card_flow::next_update(u, card_flow::first_update(u), None) == (if buried {
                UpdateStageV::Full
            } else {
                UpdateStageV::Done(None::<Seq<char>>)
            })
            &&& card_flow::action_of(u, UpdateStageV::Full) == (UpdateActionV::Send {
                face: Face::Full,
            })
        }),
{
    card_flow::law_handle_round_trip(id);
    card_flow::law_handle_round_trip(message);
}

/// A card whose changes are numbered too low starts over with its numbers; no other refusal
/// makes it do so.
pub proof fn law_numbers_start_over(u: UpdateV, e: Seq<char>)
    ensures
        text::contains(e, "300317"@) ==> card_flow::action_of(
            u,
            card_flow::next_update(u, UpdateStageV::Managed, Some(e)),
        ) == (UpdateActionV::WriteAnew { stub: u.buried }),
        !text::contains(e, "300317"@) ==> card_flow::next_update(u, UpdateStageV::Managed, Some(e))
            != UpdateStageV::ManagedAgain,
{
}

/// The card of an ended task that cannot be drawn is at least made to tell that the task has
/// ended, where its message is known and the card is not gone; where that fails too, what went
/// wrong first is told. For a running task a refusal is told at once.
pub proof fn law_ended_card_tells_at_least_that(
    id: Seq<char>,
    message: Seq<char>,
    e: Seq<char>,
    other: Seq<char>,
)
    requires
        !errors::card_not_exist(e),
        !text::contains(e, "CARD_HANDLE_LOST"@),
        !text::contains(e, "300317"@),
    ensures
        ({
            let u = UpdateV {
                handle: "card:"@ + id,
                ended: true,
                buried: false,
                message: Some(message),
            };
            let then = card_flow::next_update(u, UpdateStageV::Whole, Some(e));
            &&& card_flow::action_of(u, then) == (UpdateActionV::Patch { message, face: Face::Ended })
            &&& card_flow::next_update(u, then, None) == UpdateStageV::Done(None::<Seq<char>>)
            &&& card_flow::next_update(u, then, Some(other)) == UpdateStageV::Done(Some(e))
        }),
        ({
            let u = UpdateV {
                handle: "card:"@ + id,
                ended: false,
                buried: false,
                message: Some(message),
            };
            card_flow::next_update(u, UpdateStageV::Managed, Some(e)) == UpdateStageV::Done(Some(e))
        }),
{
    card_flow::law_handle_round_trip(id);
}

/// What is no handle of a card is refused, by name.
pub proof fn law_other_handles_are_refused(u: UpdateV)
    requires
        !text::begins(u.handle, "card:"@),
        !text::begins(u.handle, "msg:"@),
        !errors::card_not_exist("非法卡片句柄: "@ + u.handle),
    ensures
        card_flow::first_update(u) == UpdateStageV::Done(Some("非法卡片句柄: "@ + u.handle)),
{
}

/// A card that is gone, or was drawn for the last time, is forgotten; one that could only not
/// be changed now is kept.
pub proof fn law_gone_card_is_forgotten(id: Seq<char>, ended: bool, buried: bool, message: Option<Seq<char>>, e: Seq<char>)
    requires
        !text::contains(e, "300317"@),
    ensures
        ({
            let u = UpdateV { handle: "card:"@ + id, ended, buried, message };
            &&& card_flow::forgets(u, UpdateStageV::Whole, None)
            &&& card_flow::forgets(u, UpdateStageV::Managed, Some(e)) <==> errors::card_not_exist(e)
            &&& card_flow::forgets(u, UpdateStageV::ManagedAgain, Some(e)) <==> errors::card_not_exist(
                e,
            )
            &&& !card_flow::forgets(u, UpdateStageV::Managed, None)
            &&& !card_flow::forgets(u, UpdateStageV::Raw, Some(e))
        }),
{
    card_flow::law_handle_round_trip(id);
}

/// A result is out of sight exactly where its task has ended and a question was put in its
/// conversation since its card was sent.
pub proof fn law_result_is_buried_by_a_question(
    a: AsksV,
    conv: Seq<char>,
    handle: Seq<char>,
    ended: bool,
    message: Option<Seq<char>>,
)
    ensures
        card_flow::update_of(a, conv, handle, ended, message).buried <==> ended
            && a.sent.contains_key(conv) && a.sent[conv],
        card_flow::update_of(a, conv, handle, ended, message).ended == ended,
        card_flow::update_of(a, conv, handle, ended, message).handle == handle,
        card_flow::update_of(a, conv, handle, ended, message).message == message,
        !card_flow::asked_since(card_flow::asks_after_start(a, conv, true), conv),
        card_flow::asks_after_start(a, conv, false) == a,
        card_flow::asks_after_start(a, conv, true).pending == a.pending,
{
}

/// Each way of drawing a card draws what it is for.
pub proof fn law_faces_of_a_card(
    c: OutboundV,
    conv: Seq<char>,
    sender: Option<Seq<char>>,
    ts: int,
)
    ensures
        card_flow::face_card(Face::Full, c, conv, sender, ts) == task_card::task_card(
            c,
            conv,
            sender,
            ts,
        ),
        card_flow::face_card(Face::Stub, c, conv, sender, ts) == task_card::stub_card(c),
        c.terminal is Done ==> card_flow::face_card(Face::Ended, c, conv, sender, ts)
            == task_card::overflow_card(true),
        c.terminal is Error ==> card_flow::face_card(Face::Ended, c, conv, sender, ts)
            == task_card::overflow_card(false),
{
}

// ---------------------------------------------------------------------------
// Sending a card
// ---------------------------------------------------------------------------

/// In a thread the card of a task is sent as a whole; elsewhere one is made that is written as
/// it goes. The result of a task is always sent as a whole.
pub proof fn law_first_way_of_sending(chat: Seq<char>, root: Seq<char>, id: Seq<char>)
    requires
        delivery::is_thread(chat, root),
        !id.contains(':'),
    ensures
        flows::first_card("feishu:"@ + chat + ":"@ + root) == CardStageV::Thread,
        flows::first_card("feishu:"@ + id) == CardStageV::Create,
        flows::first_whole_card("feishu:"@ + chat + ":"@ + root, true) == CardStageV::Thread,
        flows::first_whole_card("feishu:"@ + id, true) == CardStageV::RawAnchored,
        flows::first_whole_card("feishu:"@ + id, false) == CardStageV::Raw,
{
    delivery::law_thread_is_answered_in_the_thread(chat, root, None, Seq::empty(), false);
    delivery::law_chat_gets_what_is_for_it(id, None, Seq::empty(), false);
}

/// A card that was made is shown, as an answer where there is a message to answer, and is then
/// known by its own name; one that was sent as a whole is known by its message.
pub proof fn law_sent_card_is_known(
    id: Seq<char>,
    message: Option<Seq<char>>,
    m: Seq<char>,
    anchored: bool,
)
    ensures
        flows::next_card(CardStageV::Create, true, Ok(Some(id))) == CardStageV::ShowAnchored(id),
        flows::next_card(CardStageV::Create, false, Ok(Some(id))) == CardStageV::Show(id),
        flows::next_card(CardStageV::Show(id), anchored, Ok(message)) == CardStageV::Done(
            Ok(Some("card:"@ + id)),
        ),
        flows::next_card(CardStageV::ShowAnchored(id), anchored, Ok(message)) == CardStageV::Done(
            Ok(Some("card:"@ + id)),
        ),
        flows::next_card(CardStageV::Raw, anchored, Ok(Some(m))) == CardStageV::Done(
            Ok(Some("msg:"@ + m)),
        ),
        flows::next_card(CardStageV::RawAnchored, anchored, Ok(Some(m))) == CardStageV::Done(
            Ok(Some("msg:"@ + m)),
        ),
        flows::next_card(CardStageV::Thread, anchored, Ok(Some(m))) == CardStageV::Done(
            Ok(Some("msg:"@ + m)),
        ),
{
}

/// What cannot be an answer is sent plainly; where a card that is written as it goes cannot be
/// made or shown, one is sent as a whole; and where even that fails, or a thread refuses, what
/// went wrong is told.
pub proof fn law_next_way_of_sending(id: Seq<char>, e: Seq<char>, anchored: bool)
    ensures
        flows::next_card(CardStageV::ShowAnchored(id), true, Err(e)) == CardStageV::Show(id),
        flows::next_card(CardStageV::Show(id), true, Err(e)) == CardStageV::RawAnchored,
        flows::next_card(CardStageV::Show(id), false, Err(e)) == CardStageV::Raw,
        flows::next_card(CardStageV::Create, true, Err(e)) == CardStageV::RawAnchored,
        flows::next_card(CardStageV::Create, false, Err(e)) == CardStageV::Raw,
        flows::next_card(CardStageV::RawAnchored, anchored, Err(e)) == CardStageV::Raw,
        flows::next_card(CardStageV::Raw, anchored, Err(e)) == CardStageV::Done(
            Err::<Option<Seq<char>>, Seq<char>>(e),
        ),
        flows::next_card(CardStageV::Thread, anchored, Err(e)) == CardStageV::Done(
            Err::<Option<Seq<char>>, Seq<char>>(e),
        ),
{
}

/// A question is put as a card, in comments as a text; where no card can be sent, a text asks.
/// The message with the card is told, and so is what went wrong where the text fails too.
pub proof fn law_way_of_asking(
    file: Seq<char>,
    id: Seq<char>,
    m: Option<Seq<char>>,
    e: Seq<char>,
)
    requires
        file.len() > 0,
        !file.contains(':'),
        !id.contains(':'),
    ensures
        flows::first_ask("feishu:comment:"@ + file) == AskStageV::Text,
        flows::first_ask("feishu:"@ + id) == AskStageV::Card,
        flows::next_ask(AskStageV::Card, Ok(m)) == AskStageV::Done(
            Ok::<Option<Seq<char>>, Seq<char>>(m),
        ),
        flows::next_ask(AskStageV::Card, Err(e)) == AskStageV::Text,
        flows::next_ask(AskStageV::Text, Ok(m)) == AskStageV::Done(
            Ok::<Option<Seq<char>>, Seq<char>>(None),
        ),
        flows::next_ask(AskStageV::Text, Err(e)) == AskStageV::Done(
            Err::<Option<Seq<char>>, Seq<char>>(e),
        ),
{
    conv::law_comment_round_trip(file);
    delivery::lemma_chat(id);
    delivery::law_chat_gets_what_is_for_it(id, None, Seq::empty(), false);
}

/// A picture is sent as a picture and a file as a file, by the key under which the platform
/// keeps it.
pub proof fn law_media_are_sent_by_key(key: Seq<char>)
    ensures
        flows::media_kind(true) == "image"@,
        flows::media_kind(false) == "file"@,
        flows::media_content_v(true, key).str_at("image_key"@) == Some(key),
        flows::media_content_v(false, key).str_at("file_key"@) == Some(key),
        !flows::media_content_v(true, key).has("file_key"@),
        !flows::media_content_v(false, key).has("image_key"@),
{
    reveal_strlit("image_key");
    reveal_strlit("file_key");
    assert("image_key"@.len() == 9 && "file_key"@.len() == 8);
}

// ---------------------------------------------------------------------------
// Errors and waiting
// ---------------------------------------------------------------------------

proof fn lemma_holds(a: Seq<char>, mark: Seq<char>, b: Seq<char>)
    ensures
        text::contains(a + mark + b, mark),
{
    let s = a + mark + b;
    assert(s.subrange(a.len() as int, (a.len() + mark.len()) as int) =~= mark);
    assert(text::occurs_at(s, mark, a.len() as int));
}

/// An error that names one of the platform's signs for too many requests, for a card that is
/// gone, or for a token that is no longer good is recognised, whatever else it says.
pub proof fn law_errors_are_recognised(a: Seq<char>, b: Seq<char>)
    ensures
        errors::rate_limited(a + "HTTP 429"@ + b),
        errors::rate_limited(a + "code=230020"@ + b),
        errors::rate_limited(a + "API错误 429"@ + b),
        errors::rate_limited(a + "API错误 230020"@ + b),
        errors::rate_limited(a + "业务错误 TooManyRequests"@ + b),
        errors::card_not_exist(a + "code=230002"@ + b),
        errors::card_not_exist(a + "API错误 230002"@ + b),
        errors::card_not_exist(a + "卡片不存在"@ + b),
        errors::token_invalid(a + "99991661"@ + b),
        errors::token_invalid(a + "99991662"@ + b),
        errors::token_invalid(a + "99991663"@ + b),
        errors::token_invalid(a + "99991664"@ + b),
        errors::token_invalid(a + "99991668"@ + b),
        errors::token_invalid(a + "99991679"@ + b),
        card_flow::timed_out(a + "code=200850"@ + b),
        card_flow::number_behind(a + "300317"@ + b),
{
    lemma_holds(a, "HTTP 429"@, b);
    lemma_holds(a, "code=230020"@, b);
    lemma_holds(a, "API错误 429"@, b);
    lemma_holds(a, "API错误 230020"@, b);
    lemma_holds(a, "业务错误 TooManyRequests"@, b);
    lemma_holds(a, "code=230002"@, b);
    lemma_holds(a, "API错误 230002"@, b);
    lemma_holds(a, "卡片不存在"@, b);
    lemma_holds(a, "99991661"@, b);
    lemma_holds(a, "99991662"@, b);
    lemma_holds(a, "99991663"@, b);
    lemma_holds(a, "99991664"@, b);
    lemma_holds(a, "99991668"@, b);
    lemma_holds(a, "99991679"@, b);
    lemma_holds(a, "code=200850"@, b);
    lemma_holds(a, "300317"@, b);
}

/// An error without any of these signs is none of these.
pub proof fn law_other_errors_are_not_mistaken(e: Seq<char>)
    ensures
        errors::rate_limited(e) ==> text::contains(e, "HTTP 429"@) || text::contains(e, "code=230020"@)
            || text::contains(e, "API错误 429"@) || text::contains(e, "API错误 230020"@)
            || text::contains(e, "业务错误 TooManyRequests"@),
        errors::card_not_exist(e) ==> text::contains(e, "code=230002"@) || text::contains(
            e,
            "API错误 230002"@,
        ) || text::contains(text::lower(e), "not exist"@) || text::contains(e, "卡片不存在"@),
        errors::token_invalid(e) ==> text::contains(e, "9999166"@) || text::contains(e, "99991679"@)
            || text::contains(text::lower(e), "invalid access token"@),
{
    reveal_strlit("9999166");
    reveal_strlit("99991661");
    reveal_strlit("99991662");
    reveal_strlit("99991663");
    reveal_strlit("99991664");
    reveal_strlit("99991668");
    lemma_front_held(e, "99991661"@, "9999166"@);
    lemma_front_held(e, "99991662"@, "9999166"@);
    lemma_front_held(e, "99991663"@, "9999166"@);
    lemma_front_held(e, "99991664"@, "9999166"@);
    lemma_front_held(e, "99991668"@, "9999166"@);
}

proof fn lemma_front_held(s: Seq<char>, mark: Seq<char>, front: Seq<char>)
    requires
        front.len() <= mark.len(),
        forall|k: int| 0 <= k < front.len() ==> #[trigger] front[k] == mark[k],
    ensures
        text::contains(s, mark) ==> text::contains(s, front),
{
    if text::contains(s, mark) {
        let i = choose|i: int| #[trigger] text::occurs_at(s, mark, i);
        assert(s.subrange(i, i + front.len()) =~= front) by {
            assert forall|k: int| 0 <= k < front.len() implies s.subrange(i, i + front.len())[k]
                == front[k] by {
                assert(s.subrange(i, i + mark.len())[k] == mark[k]);
            }
        }
        assert(text::occurs_at(s, front, i));
    }
}

/// A request that came too fast is made again after half a second, a second, and two seconds,
/// and then no more.
pub proof fn law_delays_double()
    ensures
        retry::retry_delay(0) == 500,
        retry::retry_delay(1) == 1000,
        retry::retry_delay(2) == 2000,
        retry::retry_delay(3) > 2000,
        forall|n: nat| #[trigger] retry::retry_delay(n + 1) == 2 * retry::retry_delay(n),
{
    reveal_with_fuel(retry::retry_delay, 4);
}

/// A connection that fails is made again after one second, and after twice as long each time,
/// up to half a minute. The waits start over after a connection that was finished or asked
/// for, or that lasted a minute.
pub proof fn law_waits_double(n: nat, lived: u64)
    ensures
        retry::failing_wait(0) == 1,
        retry::failing_wait(n) <= 15 ==> retry::failing_wait(n + 1) == 2 * retry::failing_wait(n),
        retry::failing_wait(n) > 15 ==> retry::failing_wait(n + 1) == 30,
        retry::starts_over(SessionEnd::Finished),
        retry::starts_over(SessionEnd::Asked),
        !retry::starts_over(SessionEnd::Failed),
        retry::starts_over(SessionEnd::Closed(lived)) <==> lived >= 60000,
{
}

/// The error of an update is of the side that it came from, and one that says that the card is
/// gone is always the platform's.
pub proof fn law_errors_keep_their_side(e: CoreError, cause: CoreError)
    ensures
        cause is Platform ==> (card_flow::reports(e, cause) <==> e is Platform),
        errors::card_not_exist(cause@) ==> (card_flow::reports(e, cause) <==> e is Platform),
        cause is Backend && !errors::card_not_exist(cause@) ==> (card_flow::reports(e, cause) <==> e is Backend),
{
}

/// An error is recognised in whichever letters it is written.
pub proof fn law_errors_in_any_letters(a: Seq<char>, b: Seq<char>)
    ensures
        errors::card_not_exist(a + "Not Exist"@ + b),
        errors::card_not_exist(a + "not exist"@ + b),
        errors::token_invalid(a + "Invalid access token"@ + b),
        errors::token_invalid(a + "invalid access token"@ + b),
{
    reveal_strlit("Not Exist");
    reveal_strlit("not exist");
    reveal_strlit("Invalid access token");
    reveal_strlit("invalid access token");
    lemma_lower_within(a, "Not Exist"@, b, "not exist"@);
    lemma_lower_within(a, "not exist"@, b, "not exist"@);
    lemma_lower_within(a, "Invalid access token"@, b, "invalid access token"@);
    lemma_lower_within(a, "invalid access token"@, b, "invalid access token"@);
}

proof fn lemma_lower_within(a: Seq<char>, m: Seq<char>, b: Seq<char>, low: Seq<char>)
    requires
        text::lower(m) =~= low,
    ensures
        text::contains(text::lower(a + m + b), low),
{
    assert(text::lower(a + m + b) =~= text::lower(a) + text::lower(m) + text::lower(b));
    lemma_holds(text::lower(a), low, text::lower(b));
}

/// A prompt that is too long is turned down with how long it is, and how long it may be.
pub proof fn law_long_prompt_is_turned_down(prompt: Seq<char>)
    ensures
        text::begins(
            gemini::too_long(prompt),
            "prompt 过长（"@ + digits::dec(markdown::byte_len(prompt) as int) + " 字节 > 上限 "@ + digits::dec(
                65536,
            ),
        ),
{
    let front = "prompt 过长（"@ + digits::dec(markdown::byte_len(prompt) as int) + " 字节 > 上限 "@
        + digits::dec(65536);
    let all = gemini::too_long(prompt);
    assert(all.subrange(0, front.len() as int) =~= front);
}

/// What cannot be sent is an error of the platform, which names the conversation.
pub proof fn law_bad_conversation_is_named(conv: Seq<char>)
    requires
        !text::begins(conv, "feishu:"@),
    ensures
        routing::card_route(conv) == Err::<routing::RouteV, Seq<char>>("非法 conv_id: "@ + conv),
        flows::first_card(conv) == CardStageV::Done(
            Err::<Option<Seq<char>>, Seq<char>>("非法 conv_id: "@ + conv),
        ),
{
}

/// The quiet hours go by the minutes of the day.
pub proof fn law_quiet_hours_go_by_minutes(q: routing::QuietHours, hour: int, minute: int)
    requires
        0 <= hour < 24,
        0 <= minute < 60,
    ensures
        q.from <= q.to ==> (routing::quiet_at_clock(q, hour, minute) <==> q.from <= 60 * hour + minute < q.to),
        q.from > q.to ==> (routing::quiet_at_clock(q, hour, minute) <==> q.from <= 60 * hour + minute
            || 60 * hour + minute < q.to),
{
}

/// A writing that could not be switched on again because it came too fast is no error; whatever
/// the switching off before the last try comes to, the text is written once more.
pub proof fn law_too_fast_is_no_error(e: Seq<char>, r: Option<Seq<char>>)
    requires
        errors::rate_limited(e),
    ensures
        card_flow::next_stage(StageV::Reopen, Some(e)) == StageV::Done(None::<Seq<char>>),
        card_flow::next_stage(StageV::Body, Some(e)) == StageV::Done(None::<Seq<char>>),
        card_flow::stage_action(card_flow::next_stage(StageV::CloseForLast, r)) == PatchAction::Body,
{
}

/// A result is out of sight where a question was put behind the card of its task, and not where
/// the card was sent behind the question; other conversations do not matter.
pub proof fn law_only_later_questions_bury(
    a: AsksV,
    conv: Seq<char>,
    other: Seq<char>,
    handle: Seq<char>,
    message: Option<Seq<char>>,
)
    requires
        other != conv,
    ensures
        card_flow::update_of(
            asks::with_question(asks::with_new_card(a, conv), conv),
            conv,
            handle,
            true,
            message,
        ).buried,
        !card_flow::update_of(
            asks::with_new_card(asks::with_question(a, conv), conv),
            conv,
            handle,
            true,
            message,
        ).buried,
        !card_flow::update_of(
            asks::with_question(asks::with_new_card(a, conv), other),
            conv,
            handle,
            true,
            message,
        ).buried,
        asks::with_question(a, conv).pending == a.pending,
        asks::with_new_card(a, conv).pending == a.pending,
{
}

} // verus!
