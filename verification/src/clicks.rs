//! What a click on one of the library's own buttons leads to.
use vstd::prelude::*;

use crate::ask_card;
use crate::card_action;
use crate::card_action::{Click, CMD_BUTTON_TTL_SECS};
use crate::command_card;
use crate::conv;
use crate::events::CardActionEventV;
use crate::json;
use crate::json::JsonV;
use crate::parts;
use crate::text;

verus! {

/// Whether an event is a click on a button that carries a value.
pub open spec fn clicked(evt: CardActionEventV, value: JsonV) -> bool {
    &&& evt.header.event_type == "card.action.trigger"@
    &&& evt.action.has("value"@)
    &&& evt.action.at("value"@) == value
}

/// What a click leads to on a button that was made at `ts` in a conversation, that only
/// `owner` may click where there is one, and that stands for `text`.
pub open spec fn outcome(
    evt: CardActionEventV,
    conv: Seq<char>,
    owner: Option<Seq<char>>,
    denial: Seq<char>,
    ts: int,
    now: int,
    text: Option<Seq<char>>,
) -> Option<Click> {
    match evt.operator.who() {
        Some(who) => if now - ts > CMD_BUTTON_TTL_SECS {
            Some(card_action::refused(evt, conv, card_action::expired_notice()))
        } else if owner is Some && owner != Some(who) {
            Some(card_action::refused(evt, conv, denial))
        } else {
            match text {
                Some(t) => Some(card_action::accepted(evt, conv, who, t)),
                None => None,
            }
        },
        None => None,
    }
}

/// The notice to somebody whom a question was not for.
pub open spec fn asked_somebody_else(owner: Option<Seq<char>>) -> Seq<char> {
    match owner {
        Some(o) => "⛔ 该询问由 "@ + o + " 发起，仅其本人可答复。"@,
        None => Seq::empty(),
    }
}

proof fn lemma_members_differ()
    ensures
        "imagent_perm"@ != "imagent_form"@,
        "imagent_ask"@ != "imagent_cmd"@,
        "imagent_perm"@.len() == 12,
        "imagent_form"@.len() == 12,
        "imagent_ask"@.len() == 11,
        "imagent_cmd"@.len() == 11,
        "conv"@.len() == 4,
        "req"@.len() == 3,
        "ts"@.len() == 2,
        "sender"@.len() == 6,
{
    reveal_strlit("imagent_perm");
    reveal_strlit("imagent_form");
    reveal_strlit("imagent_ask");
    reveal_strlit("imagent_cmd");
    reveal_strlit("conv");
    reveal_strlit("req");
    reveal_strlit("ts");
    reveal_strlit("sender");
    assert("imagent_perm"@[8] == 'p');
    assert("imagent_form"@[8] == 'f');
    assert("imagent_ask"@[8] == 'a');
    assert("imagent_cmd"@[8] == 'c');
}

/// The word that an approval button stands for.
pub open spec fn approval_word(act: Seq<char>) -> Option<Seq<char>> {
    if act == "allow"@ {
        Some("y"@)
    } else if act == "always"@ {
        Some("always"@)
    } else if act == "deny"@ {
        Some("n"@)
    } else {
        None
    }
}

/// A click on a button of an approval gives the word that the button stands for, tied to the
/// request of the card; only the person asked can give it, and only within a day.
pub proof fn law_approval_click(
    evt: CardActionEventV,
    act: Seq<char>,
    conv: Seq<char>,
    req: Seq<char>,
    sender: Option<Seq<char>>,
    ts: i64,
    now: int,
)
    requires
        clicked(evt, ask_card::perm_value(act, conv, req, sender, ts as int)),
        text::begins(conv, "feishu:"@),
    ensures
        card_action::card_action(evt, now) == outcome(
            evt,
            conv,
            text::nonempty(sender),
            asked_somebody_else(text::nonempty(sender)),
            ts as int,
            now,
            approval_word(act),
        ),
        card_action::button_value(evt.action).str_at("req"@) == Some(req),
{
    lemma_members_differ();
    json::lemma_as_i64(ts);
}

/// A click on a choice gives its label as the answer, tied to the request of the card; only
/// the person asked can give it, and only within a day.
pub proof fn law_choice_click(
    evt: CardActionEventV,
    label: Seq<char>,
    conv: Seq<char>,
    req: Seq<char>,
    sender: Option<Seq<char>>,
    ts: i64,
    now: int,
)
    requires
        clicked(evt, ask_card::choice_value(label, conv, req, sender, ts as int)),
        text::begins(conv, "feishu:"@),
    ensures
        card_action::card_action(evt, now) == outcome(
            evt,
            conv,
            text::nonempty(sender),
            asked_somebody_else(text::nonempty(sender)),
            ts as int,
            now,
            Some("ask:"@ + label),
        ),
        card_action::button_value(evt.action).str_at("req"@) == Some(req),
{
    lemma_members_differ();
    json::lemma_as_i64(ts);
}

/// Sending off a form with questions gives the answers in it, tied to the request of the
/// card; only the person asked can send it off, and only within a day.
pub proof fn law_answers_sent(
    evt: CardActionEventV,
    conv: Seq<char>,
    req: Seq<char>,
    sender: Option<Seq<char>>,
    ts: i64,
    now: int,
)
    requires
        clicked(evt, ask_card::form_value(conv, req, sender, ts as int)),
        text::begins(conv, "feishu:"@),
    ensures
        card_action::card_action(evt, now) == outcome(
            evt,
            conv,
            text::nonempty(sender),
            asked_somebody_else(text::nonempty(sender)),
            ts as int,
            now,
            card_action::ask_form_text(evt.action.at("form_value"@)),
        ),
        card_action::button_value(evt.action).str_at("req"@) == Some(req),
{
    lemma_members_differ();
    json::lemma_as_i64(ts);
}

/// A click on a command gives the command. In a group only the person whose task it is can
/// give it; everywhere it can be given within a day. What does not begin with a slash leads to
/// nothing.
pub proof fn law_command_click(
    evt: CardActionEventV,
    command: Seq<char>,
    conv: Seq<char>,
    sender: Option<Seq<char>>,
    ts: i64,
    now: int,
)
    requires
        clicked(evt, parts::cmd_value_v(conv, command, sender, ts as int)),
        text::begins(conv, "feishu:"@),
    ensures
        card_action::card_action(evt, now) == if text::begins(command, "/"@) {
            outcome(
                evt,
                conv,
                if conv::private_conv(conv) {
                    None
                } else {
                    text::nonempty(sender)
                },
                "⛔ 该任务由他人发起，仅发起者本人可执行此操作。"@,
                ts as int,
                now,
                Some(command),
            )
        } else {
            None
        },
{
    lemma_members_differ();
    json::lemma_as_i64(ts);
}

/// Nobody but the person who started a task stops it in a group: the button on its card, which
/// names that person, is refused to everybody else.
pub proof fn law_only_owner_stops_in_group(
    evt: CardActionEventV,
    conv: Seq<char>,
    owner: Seq<char>,
    ts: i64,
    now: int,
)
    requires
        clicked(evt, parts::cmd_value_v(conv, "/stop"@, Some(owner), ts as int)),
        text::begins(conv, "feishu:"@),
        !conv::private_conv(conv),
        owner.len() > 0,
        evt.operator.who() is Some,
        evt.operator.who() != Some(owner),
    ensures
        card_action::card_action(evt, now) == Some(
            card_action::refused(
                evt,
                conv,
                if now - ts > CMD_BUTTON_TTL_SECS {
                    card_action::expired_notice()
                } else {
                    "⛔ 该任务由他人发起，仅发起者本人可执行此操作。"@
                },
            ),
        ),
{
    law_command_click(evt, "/stop"@, conv, Some(owner), ts, now);
    reveal_strlit("/stop");
    reveal_strlit("/");
    assert("/stop"@.subrange(0, 1) =~= "/"@);
}

/// Sending off the form with the settings gives the command that sets them. Anybody can send
/// it off, at any time.
pub proof fn law_settings_sent(evt: CardActionEventV, conv: Seq<char>, now: int)
    requires
        clicked(evt, command_card::config_value(conv)),
        text::begins(conv, "feishu:"@),
    ensures
        card_action::card_action(evt, now) == match (
            card_action::config_form_text(evt.action.at("form_value"@)),
            evt.operator.who(),
        ) {
            (Some(t), Some(who)) => Some(card_action::accepted(evt, conv, who, t)),
            _ => None,
        },
{
    lemma_members_differ();
    reveal_strlit("config");
    reveal_strlit("ask");
    assert("config"@.len() != "ask"@.len());
}

/// An option chosen in the field of a question is the answer to that question, under the
/// name of the question, where no free answer was entered.
pub proof fn law_chosen_option_answers(form: JsonV, q: JsonV, question: Seq<char>, o: JsonV, i: int)
    requires
        form.at(card_action::choice_field(i)) == JsonV::Str(ask_card::question_name(q, question) + "="@ + ask_card::label_of(o)),
        form.at(card_action::free_field(i)) is Null,
    ensures
        card_action::answer(form, i) == Some(ask_card::question_name(q, question) + "="@ + ask_card::label_of(o)),
{
    reveal_strlit("=");
    let s = ask_card::question_name(q, question) + "="@ + ask_card::label_of(o);
    assert(s.len() > 0);
}

/// A free answer goes before a chosen option.
pub proof fn law_free_answer_first(form: JsonV, free: Seq<char>, i: int)
    requires
        form.at(card_action::free_field(i)) == JsonV::Str(free),
        !crate::text::blank(free),
    ensures
        card_action::answer(form, i) == Some(crate::text::trim(free)),
{
    if free.len() == 0 {
        assert(crate::text::trim(free) =~= free);
    }
}

} // verus!
