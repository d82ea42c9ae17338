//! Clicks on the buttons and forms of cards.
use vstd::prelude::*;

use crate::clock;
use crate::clock::{clock_secs, judging_second};
use crate::conv;
use crate::conv::is_private_conv;
use crate::dedup;
use crate::dedup::content_hash_text;
use crate::digits;
use crate::digits::{dec_u64, read_u32};
use crate::events;
use crate::events::{CardActionEvent, CardActionEventV, operator_open_id};
use crate::json;
use crate::json::{Json, json_to_string, JsonV, parse_json};
use crate::model;
use crate::model::{InboundMessage, InboundV};
use crate::text;
use crate::text::{
    cat2, cat3, cat4, cat6, opt_is, own, str_after_prefix, str_before_suffix, str_begins,
    str_eq, str_join, str_trim,
};

verus! {

/// A button on a card stays valid for this many seconds.
pub const CMD_BUTTON_TTL_SECS: i64 = 86400;

/// What a click leads to: a key that recognises the event, a message, and the notice with
/// which the click is refused, if it is. The message of a refused click is an empty shell.
pub type Click = (Seq<char>, InboundV, Option<Seq<char>>);

/// The value that the button carries: nested in the action, or the action itself.
pub open spec fn button_value(action: JsonV) -> JsonV {
    if action.has("value"@) {
        action.at("value"@)
    } else {
        action
    }
}

/// Whether the button was made too long ago. A button without a time never expires.
pub open spec fn expired(value: JsonV, now: int) -> bool {
    match value.at("ts"@).as_i64() {
        Some(ts) => now - ts > CMD_BUTTON_TTL_SECS,
        None => false,
    }
}

/// Whether the button answers a question: an approval, a choice or a form.
pub open spec fn answers_ask(value: JsonV) -> bool {
    value.str_at("imagent_perm"@) is Some || value.str_at("imagent_ask"@) is Some || value.str_at(
        "imagent_form"@,
    ) is Some
}

/// The only person who may click the button: the one for whom it was made, where the button
/// names one. A button with a command is open to everybody in a private chat.
pub open spec fn button_owner(value: JsonV, conv: Seq<char>) -> Option<Seq<char>> {
    if answers_ask(value) || (value.str_at("imagent_cmd"@) is Some && !conv::private_conv(conv)) {
        value.str_at("sender"@)
    } else {
        None
    }
}

/// The notice to somebody who may not click the button.
pub open spec fn not_owner_notice(value: JsonV, owner: Seq<char>) -> Seq<char> {
    if answers_ask(value) {
        "⛔ 该询问由 "@ + owner + " 发起，仅其本人可答复。"@
    } else {
        "⛔ 该任务由他人发起，仅发起者本人可执行此操作。"@
    }
}

/// The texts among the elements of a list.
pub open spec fn texts_in(items: Seq<JsonV>) -> Seq<Seq<char>>
    decreases items.len(),
{
    if items.len() == 0 {
        Seq::empty()
    } else {
        let init = texts_in(items.drop_last());
        match items.last() {
            JsonV::Str(s) => init.push(s),
            _ => init,
        }
    }
}

/// What was entered in a field of a form: one text, or several; nothing where that is empty.
pub open spec fn entered(v: JsonV) -> Option<Seq<char>> {
    match v {
        JsonV::Str(s) => text::nonempty(Some(s)),
        JsonV::Arr(items) => text::nonempty(Some(text::join(texts_in(items), "、"@))),
        _ => None,
    }
}

/// The name of the field with the choice for a question.
pub open spec fn choice_field(i: int) -> Seq<char> {
    "ask_opt_"@ + digits::dec(i)
}

/// The name of the field with the free answer to a question.
pub open spec fn free_field(i: int) -> Seq<char> {
    "ask_opt_"@ + digits::dec(i) + "_free"@
}

/// The free answer to a question, where it is more than white space.
pub open spec fn free_answer(form: JsonV, i: int) -> Option<Seq<char>> {
    match entered(form.at(free_field(i))) {
        Some(s) => text::nonempty(Some(text::trim(s))),
        None => None,
    }
}

/// The answer to a question: the free one before the chosen one.
pub open spec fn answer(form: JsonV, i: int) -> Option<Seq<char>> {
    match free_answer(form, i) {
        Some(s) => Some(s),
        None => entered(form.at(choice_field(i))),
    }
}

/// The answers to the questions with a number below `n`, in the order of the questions.
pub open spec fn answers_below(form: JsonV, n: nat) -> Seq<Seq<char>>
    decreases n,
{
    if n == 0 {
        Seq::empty()
    } else {
        let before = answers_below(form, (n - 1) as nat);
        match answer(form, n - 1) {
            Some(s) => before.push(s),
            None => before,
        }
    }
}

/// The answers to all questions. Their numbers fit in 32 bits.
pub open spec fn answers(form: JsonV) -> Seq<Seq<char>> {
    answers_below(form, 0x1_0000_0000)
}

/// The message for a form with questions: all answers, or else the one of a form with a
/// single question.
pub open spec fn ask_form_text(form: JsonV) -> Option<Seq<char>> {
    if answers(form).len() > 0 {
        Some("ask:"@ + text::join(answers(form), "；"@))
    } else {
        match entered(form.at("ask_opt"@)) {
            Some(s) => Some("ask:"@ + s),
            None => None,
        }
    }
}

/// A setting in a form, as `key=value`.
pub open spec fn setting(form: JsonV, key: Seq<char>) -> Seq<Seq<char>> {
    match form.str_at(key) {
        Some(v) => seq![key + "="@ + v],
        None => Seq::empty(),
    }
}

/// The message for a form with settings. Other fields of the form are passed over.
pub open spec fn config_form_text(form: JsonV) -> Option<Seq<char>> {
    let pairs = setting(form, "reply_mode"@) + setting(form, "cot_detail"@) + setting(
        form,
        "require_mention"@,
    );
    if pairs.len() > 0 {
        Some("/config form "@ + text::join(pairs, " "@))
    } else {
        None
    }
}

/// The message that a click stands for.
pub open spec fn click_text(action: JsonV) -> Option<Seq<char>> {
    let value = button_value(action);
    let act = value.str_at("imagent_perm"@);
    match value.str_at("imagent_form"@) {
        Some(form) => if form == "ask"@ {
            ask_form_text(action.at("form_value"@))
        } else {
            config_form_text(action.at("form_value"@))
        },
        None => match value.str_at("imagent_ask"@) {
            Some(choice) => Some("ask:"@ + choice),
            None => if act == Some("allow"@) {
                Some("y"@)
            } else if act == Some("always"@) {
                Some("always"@)
            } else if act == Some("deny"@) {
                Some("n"@)
            } else {
                match value.str_at("imagent_cmd"@) {
                    Some(command) => if text::begins(command, "/"@) {
                        Some(command)
                    } else {
                        None
                    },
                    None => None,
                }
            },
        },
    }
}

/// A refused click.
pub open spec fn refused(evt: CardActionEventV, conv: Seq<char>, notice: Seq<char>) -> Click {
    (
        text::or_text(
            evt.header.event_id,
            "card_action:deny:"@ + conv + ":"@ + dedup::hash_text(json::json_string(evt.action)),
        ),
        model::plain_message(conv, text::or_text(evt.operator.who(), Seq::empty()), None),
        Some(notice),
    )
}

/// A click that is passed on.
pub open spec fn accepted(
    evt: CardActionEventV,
    conv: Seq<char>,
    who: Seq<char>,
    text: Seq<char>,
) -> Click {
    (
        text::or_text(
            evt.header.event_id,
            "card_action:"@ + who + ":"@ + conv + ":"@ + dedup::hash_text(text),
        ),
        InboundV {
            ask_req: text::nonempty(button_value(evt.action).str_at("req"@)),
            ..model::plain_message(conv, who, Some(text))
        },
        None,
    )
}

/// The notice for a button that has expired.
pub open spec fn expired_notice() -> Seq<char> {
    "⏳ 该按钮已过期（超过 24 小时），请重新发起。"@
}

/// Whether the library made a button: one with an answer to a question, a form, or a command.
/// What does not begin with a slash is no command.
pub open spec fn own_button(value: JsonV) -> bool {
    answers_ask(value) || match value.str_at("imagent_cmd"@) {
        Some(command) => text::begins(command, "/"@),
        None => false,
    }
}

/// What a click leads to at a given time; `None` where it leads to nothing.
pub open spec fn card_action(evt: CardActionEventV, now: int) -> Option<Click> {
    let value = button_value(evt.action);
    let who = evt.operator.who();
    match value.str_at("conv"@) {
        Some(conv) => if evt.header.event_type != "card.action.trigger"@ || !text::begins(
            conv,
            "feishu:"@,
        ) {
            None
        } else if who is None || !own_button(value) {
            None
        } else if expired(value, now) {
            Some(refused(evt, conv, expired_notice()))
        } else if button_owner(value, conv) is Some && who != button_owner(value, conv) {
            Some(refused(evt, conv, not_owner_notice(value, button_owner(value, conv)->0)))
        } else {
            match (click_text(evt.action), who) {
                (Some(text), Some(w)) => Some(accepted(evt, conv, w, text)),
                _ => None,
            }
        },
        None => None,
    }
}

/// What the bytes of an event lead to at a given time.
pub open spec fn card_action_in(payload: Seq<u8>, now: int) -> Option<Click> {
    match json::parsed_json(payload) {
        Some(j) => match events::card_action_event_of(j) {
            Some(evt) => card_action(evt, now),
            None => None,
        },
        None => None,
    }
}

/// The outcome of a click by its view.
pub open spec fn click_view(r: Option<(String, InboundMessage, Option<String>)>) -> Option<Click> {
    match r {
        Some((key, msg, deny)) => Some((key@, msg@, text::oview(deny))),
        None => None,
    }
}

// ---------------------------------------------------------------------------
// Forms
// ---------------------------------------------------------------------------

/// The number of the question that a field belongs to.
spec fn field_index(key: Seq<char>) -> Option<u32> {
    match text::after_prefix(key, "ask_opt_"@) {
        Some(rest) => digits::parse_u32(text::or_text(text::before_suffix(rest, "_free"@), rest)),
        None => None,
    }
}

proof fn lemma_field_index(i: u32)
    ensures
        field_index(choice_field(i as int)) == Some(i),
        field_index(free_field(i as int)) == Some(i),
{
    let d = digits::dec(i as int);
    digits::lemma_numeral_value(i as nat);
    digits::lemma_parse_dec(i);
    reveal_strlit("_free");
    text::lemma_after_own_prefix("ask_opt_"@, d);
    assert(!text::ends(d, "_free"@)) by {
        if text::ends(d, "_free"@) {
            assert(d.subrange(d.len() - 5, d.len() as int)[4] == 'e');
            assert(digits::is_digit(d[d.len() - 1]));
        }
    }
    let t = d + "_free"@;
    assert(free_field(i as int) =~= "ask_opt_"@ + t);
    text::lemma_after_own_prefix("ask_opt_"@, t);
    assert(t.subrange(t.len() - 5, t.len() as int) =~= "_free"@);
    assert(t.subrange(0, t.len() - 5) =~= d);
}

proof fn lemma_member_listed(pairs: Seq<(String, Json)>, key: Seq<char>)
    requires
        json::pairs_view(pairs).contains_key(key),
    ensures
        exists|j: int| 0 <= j < pairs.len() && #[trigger] pairs[j].0@ == key,
    decreases pairs.len(),
{
    let init = pairs.subrange(0, pairs.len() - 1);
    if pairs[pairs.len() - 1].0@ != key {
        lemma_member_listed(init, key);
        let j = choose|j: int| 0 <= j < init.len() && #[trigger] init[j].0@ == key;
        assert(pairs[j].0@ == key);
    }
}

/// Between two listed questions nothing is answered.
proof fn lemma_answers_gap(form: JsonV, a: nat, b: nat)
    requires
        a <= b,
        forall|i: int| a <= i < b ==> (#[trigger] answer(form, i)) is None,
    ensures
        answers_below(form, b) == answers_below(form, a),
    decreases b,
{
    if a < b {
        assert(answer(form, b - 1) is None);
        lemma_answers_gap(form, a, (b - 1) as nat);
    }
}

fn read_field_index(key: &str) -> (r: Option<u32>)
    ensures
        r == field_index(key@),
{
    match str_after_prefix(key, "ask_opt_") {
        Some(rest) => match str_before_suffix(rest.as_str(), "_free") {
            Some(number) => read_u32(number.as_str()),
            None => read_u32(rest.as_str()),
        },
        None => None,
    }
}

spec fn rising(v: Seq<u32>) -> bool {
    forall|a: int, b: int| 0 <= a < b < v.len() ==> v[a] < v[b]
}

fn insert_rising(v: &mut Vec<u32>, x: u32)
    requires
        rising(old(v)@),
    ensures
        rising(final(v)@),
        final(v)@.contains(x),
        forall|y: u32| old(v)@.contains(y) ==> final(v)@.contains(y),
{
    let ghost before = v@;
    let mut i: usize = 0;
    while i < v.len() && v[i] < x
        invariant
            i <= v@.len(),
            v@ == before,
            forall|k: int| 0 <= k < i ==> v@[k] < x,
        decreases v@.len() - i,
    {
        i += 1;
    }
    if i < v.len() && v[i] == x {
        assert(v@[i as int] == x);
        return;
    }
    v.insert(i, x);
    proof {
        assert(v@[i as int] == x);
        assert forall|y: u32| before.contains(y) implies v@.contains(y) by {
            let k = choose|k: int| 0 <= k < before.len() && before[k] == y;
            if k < i {
                assert(v@[k] == y);
            } else {
                assert(v@[k + 1] == y);
            }
        }
    }
}

fn field_numbers(pairs: &Vec<(String, Json)>) -> (r: Vec<u32>)
    ensures
        rising(r@),
        forall|j: int|
            0 <= j < pairs@.len() && field_index(#[trigger] pairs@[j].0@) is Some ==> r@.contains(
                field_index(pairs@[j].0@)->0,
            ),
{
    let mut out: Vec<u32> = Vec::new();
    let mut i: usize = 0;
    while i < pairs.len()
        invariant
            i <= pairs@.len(),
            rising(out@),
            forall|j: int|
                0 <= j < i && field_index(#[trigger] pairs@[j].0@) is Some ==> out@.contains(
                    field_index(pairs@[j].0@)->0,
                ),
        decreases pairs@.len() - i,
    {
        match read_field_index(pairs[i].0.as_str()) {
            Some(x) => insert_rising(&mut out, x),
            None => {},
        }
        i += 1;
    }
    out
}

fn read_texts(items: &Vec<Json>) -> (r: Vec<String>)
    ensures
        text::views(r@) == texts_in(json::items_view(items@)),
{
    let mut out: Vec<String> = Vec::new();
    proof {
        json::lemma_items_index(items@);
    }
    let ghost all = json::items_view(items@);
    let mut i: usize = 0;
    assert(text::views(out@) =~= texts_in(all.subrange(0, 0)));
    while i < items.len()
        invariant
            i <= items@.len(),
            all == json::items_view(items@),
            all.len() == items@.len(),
            forall|k: int| 0 <= k < items@.len() ==> #[trigger] all[k] == json::json_view(items@[k]),
            text::views(out@) == texts_in(all.subrange(0, i as int)),
        decreases items@.len() - i,
    {
        proof {
            assert(all.subrange(0, i + 1).drop_last() =~= all.subrange(0, i as int));
            assert(all[i as int] == json::json_view(items@[i as int]));
        }
        let ghost before = out@;
        match items[i].as_str() {
            Some(s) => {
                out.push(s.to_owned());
                assert(text::views(out@) =~= text::views(before).push(s@));
            },
            None => {},
        }
        i += 1;
    }
    assert(all.subrange(0, all.len() as int) =~= all);
    out
}

fn read_entered(v: &Json) -> (r: Option<String>)
    ensures
        text::oview(r) == entered(v@),
{
    let s = match v {
        Json::Str(s) => s.clone(),
        Json::Arr(items) => str_join(&read_texts(items), "、"),
        _ => {
            return None;
        },
    };
    if s.as_str().is_empty() {
        None
    } else {
        Some(s)
    }
}

fn read_answer(form: &Json, i: u32) -> (r: Option<String>)
    ensures
        text::oview(r) == answer(form@, i as int),
{
    let number = dec_u64(i as u64);
    match read_entered(form.at(cat3("ask_opt_", number.as_str(), "_free").as_str())) {
        Some(s) => {
            let t = str_trim(s.as_str());
            if !t.as_str().is_empty() {
                return Some(t);
            }
        },
        None => {},
    }
    read_entered(form.at(cat2("ask_opt_", number.as_str()).as_str()))
}

fn read_answers(form: &Json) -> (r: Vec<String>)
    ensures
        text::views(r@) == answers(form@),
{
    let mut out: Vec<String> = Vec::new();
    assert(text::views(out@) =~= answers_below(form@, 0));
    match form {
        Json::Obj(pairs) => {
            let numbers = field_numbers(pairs);
            proof {
                assert forall|i: int|
                    0 <= i < 0x1_0000_0000 && !numbers@.contains(i as u32) implies (
                #[trigger] answer(form@, i)) is None by {
                    lemma_field_index(i as u32);
                    if form@.has(choice_field(i)) {
                        lemma_member_listed(pairs@, choice_field(i));
                    }
                    if form@.has(free_field(i)) {
                        lemma_member_listed(pairs@, free_field(i));
                    }
                }
            }
            let mut k: usize = 0;
            let ghost mut done: nat = 0;
            while k < numbers.len()
                invariant
                    k <= numbers@.len(),
                    rising(numbers@),
                    forall|i: int|
                        0 <= i < 0x1_0000_0000 && !numbers@.contains(i as u32) ==> (
                        #[trigger] answer(form@, i)) is None,
                    forall|a: int| 0 <= a < k ==> numbers@[a] < done,
                    forall|a: int| k <= a < numbers@.len() ==> numbers@[a] >= done,
                    done <= 0x1_0000_0000,
                    text::views(out@) == answers_below(form@, done),
                decreases numbers@.len() - k,
            {
                let i: u32 = numbers[k];
                let ghost before = out@;
                proof {
                    assert forall|j: int| done <= j < i implies (#[trigger] answer(
                        form@,
                        j,
                    )) is None by {
                        if numbers@.contains(j as u32) {
                            let a = choose|a: int| 0 <= a < numbers@.len() && numbers@[a] == j as u32;
                            assert(a < k || a >= k);
                            if a > k {
                                assert(numbers@[k as int] < numbers@[a]);
                            }
                        }
                    }
                    lemma_answers_gap(form@, done, i as nat);
                }
                match read_answer(form, i) {
                    Some(s) => {
                        out.push(s);
                        assert(text::views(out@) =~= text::views(before).push(s@));
                    },
                    None => {},
                }
                proof {
                    done = (i + 1) as nat;
                    assert forall|a: int| k < a < numbers@.len() implies numbers@[a] >= done by {
                        assert(numbers@[k as int] < numbers@[a]);
                    }
                }
                k += 1;
            }
            proof {
                assert forall|j: int| done <= j < 0x1_0000_0000 implies (#[trigger] answer(
                    form@,
                    j,
                )) is None by {
                    if numbers@.contains(j as u32) {
                        let a = choose|a: int| 0 <= a < numbers@.len() && numbers@[a] == j as u32;
                        assert(numbers@[a] < done);
                    }
                }
                lemma_answers_gap(form@, done, 0x1_0000_0000);
            }
        },
        _ => {
            proof {
                lemma_answers_gap(form@, 0, 0x1_0000_0000);
            }
        },
    }
    out
}

fn read_ask_form(form: &Json) -> (r: Option<String>)
    ensures
        text::oview(r) == ask_form_text(form@),
{
    let parts = read_answers(form);
    assert(parts@.len() == text::views(parts@).len());
    if parts.len() > 0 {
        Some(cat2("ask:", str_join(&parts, "；").as_str()))
    } else {
        match read_entered(form.at("ask_opt")) {
            Some(s) => Some(cat2("ask:", s.as_str())),
            None => None,
        }
    }
}

fn push_setting(out: &mut Vec<String>, form: &Json, key: &str)
    ensures
        text::views(final(out)@) == text::views(old(out)@) + setting(form@, key@),
{
    let ghost before = out@;
    match form.str_at(key) {
        Some(v) => {
            let s = cat3(key, "=", v);
            out.push(s);
            assert(text::views(out@) =~= text::views(before) + setting(form@, key@));
        },
        None => {
            assert(text::views(out@) =~= text::views(before) + setting(form@, key@));
        },
    }
}

fn read_config_form(form: &Json) -> (r: Option<String>)
    ensures
        text::oview(r) == config_form_text(form@),
{
    let mut pairs: Vec<String> = Vec::new();
    push_setting(&mut pairs, form, "reply_mode");
    assert(text::views(pairs@) =~= setting(form@, "reply_mode"@));
    push_setting(&mut pairs, form, "cot_detail");
    push_setting(&mut pairs, form, "require_mention");
    assert(pairs@.len() == text::views(pairs@).len());
    if pairs.len() > 0 {
        Some(cat2("/config form ", str_join(&pairs, " ").as_str()))
    } else {
        None
    }
}

fn read_click_text(action: &Json, value: &Json) -> (r: Option<String>)
    requires
        value@ == button_value(action@),
    ensures
        text::oview(r) == click_text(action@),
{
    match value.str_at("imagent_form") {
        Some(form) => if str_eq(form, "ask") {
            read_ask_form(action.at("form_value"))
        } else {
            read_config_form(action.at("form_value"))
        },
        None => match value.str_at("imagent_ask") {
            Some(choice) => Some(cat2("ask:", choice)),
            None => {
                let act = value.str_at("imagent_perm");
                if opt_is(act, "allow") {
                    Some("y".to_owned())
                } else if opt_is(act, "always") {
                    Some("always".to_owned())
                } else if opt_is(act, "deny") {
                    Some("n".to_owned())
                } else {
                    match value.str_at("imagent_cmd") {
                        Some(command) => if str_begins(command, "/") {
                            Some(command.to_owned())
                        } else {
                            None
                        },
                        None => None,
                    }
                }
            },
        },
    }
}

// ---------------------------------------------------------------------------
// Clicks
// ---------------------------------------------------------------------------

fn refuse(evt: &CardActionEvent, conv: &str, notice: String) -> (r: (
    String,
    InboundMessage,
    Option<String>,
))
    ensures
        (r.0@, r.1@, text::oview(r.2)) == refused(evt@, conv@, notice@),
{
    let key = match &evt.header.event_id {
        Some(id) => id.clone(),
        None => cat4(
            "card_action:deny:",
            conv,
            ":",
            content_hash_text(json_to_string(&evt.event.action).as_str()).as_str(),
        ),
    };
    let who = match operator_open_id(&evt.event.operator) {
        Some(w) => w,
        None => String::new(),
    };
    (key, InboundMessage::plain(conv.to_owned(), who, None), Some(notice))
}

fn accept(evt: &CardActionEvent, conv: &str, value: &Json, who: String, text: String) -> (r: (
    String,
    InboundMessage,
    Option<String>,
))
    requires
        value@ == button_value(evt@.action),
    ensures
        (r.0@, r.1@, text::oview(r.2)) == accepted(evt@, conv@, who@, text@),
{
    let key = match &evt.header.event_id {
        Some(id) => id.clone(),
        None => cat6(
            "card_action:",
            who.as_str(),
            ":",
            conv,
            ":",
            content_hash_text(text.as_str()).as_str(),
        ),
    };
    let ask_req = own(crate::text::take_nonempty(value.str_at("req")));
    let mut msg = InboundMessage::plain(conv.to_owned(), who, Some(text));
    msg.ask_req = ask_req;
    (key, msg, None)
}

fn is_expired(value: &Json, now: i64) -> (r: bool)
    ensures
        r == expired(value@, now as int),
{
    match value.at("ts").as_i64() {
        Some(ts) => now as i128 - ts as i128 > CMD_BUTTON_TTL_SECS as i128,
        None => false,
    }
}

/// What a click on a card leads to at a given time, in seconds since the start of 1970.
pub fn card_action_at(evt: &CardActionEvent, now: i64) -> (r: Option<
    (String, InboundMessage, Option<String>),
>)
    ensures
        click_view(r) == card_action(evt@, now as int),
{
    let action = &evt.event.action;
    let value = match action.get("value") {
        Some(v) => v,
        None => action,
    };
    let conv = match value.str_at("conv") {
        Some(c) => c,
        None => {
            return None;
        },
    };
    if !str_eq(evt.header.event_type.as_str(), "card.action.trigger") || !str_begins(
        conv,
        "feishu:",
    ) {
        return None;
    }
    let who = match operator_open_id(&evt.event.operator) {
        Some(w) => w,
        None => {
            return None;
        },
    };
    let asks = value.str_at("imagent_perm").is_some() || value.str_at("imagent_ask").is_some()
        || value.str_at("imagent_form").is_some();
    let commands = match value.str_at("imagent_cmd") {
        Some(command) => str_begins(command, "/"),
        None => false,
    };
    if !asks && !commands {
        return None;
    }
    if is_expired(value, now) {
        return Some(
            refuse(
                evt,
                conv,
                "⏳ 该按钮已过期（超过 24 小时），请重新发起。".to_owned(),
            ),
        );
    }
    let owner = if asks || (value.str_at("imagent_cmd").is_some() && !is_private_conv(conv)) {
        value.str_at("sender")
    } else {
        None
    };
    match owner {
        Some(o) => if !str_eq(who.as_str(), o) {
            let notice = if asks {
                cat3("⛔ 该询问由 ", o, " 发起，仅其本人可答复。")
            } else {
                "⛔ 该任务由他人发起，仅发起者本人可执行此操作。".to_owned()
            };
            return Some(refuse(evt, conv, notice));
        },
        None => {},
    }
    match read_click_text(action, value) {
        Some(text) => Some(accept(evt, conv, value, who, text)),
        None => None,
    }
}

/// What the bytes of an event lead to as a click on a card at a given time.
pub fn parse_card_action_at(payload: &[u8], now: i64) -> (r: Option<
    (String, InboundMessage, Option<String>),
>)
    ensures
        click_view(r) == card_action_in(payload@, now as int),
{
    match parse_json(payload) {
        Some(j) => match CardActionEvent::read(&j) {
            Some(evt) => card_action_at(&evt, now),
            None => None,
        },
        None => None,
    }
}

/// What the bytes of an event lead to as a click on a card, by what the clock shows. Where it
/// cannot be read, every button that has a time has expired.
pub fn parse_card_action_by(payload: &[u8], clock: Option<i64>) -> (r: Option<
    (String, InboundMessage, Option<String>),
>)
    ensures
        click_view(r) == card_action_in(payload@, clock::judged_at(clock)),
{
    parse_card_action_at(payload, judging_second(clock))
}

/// What the bytes of an event lead to as a click on a card, now.
pub fn parse_card_action_event(payload: &[u8]) -> (r: Option<
    (String, InboundMessage, Option<String>),
>)
    ensures
        exists|clock: Option<i64>|
            click_view(r) == #[trigger] card_action_in(payload@, clock::judged_at(clock)),
{
    parse_card_action_by(payload, clock_secs())
}

// ---------------------------------------------------------------------------
// Laws
// ---------------------------------------------------------------------------

/// A click leads to nothing at all, whatever the time, where nobody is known to have clicked,
/// where the library did not make the button, and where the button names no conversation of
/// this platform.
pub proof fn law_foreign_clicks_lead_to_nothing(evt: CardActionEventV, now: int)
    requires
        ({
            ||| evt.operator.who() is None
            ||| !own_button(button_value(evt.action))
            ||| match button_value(evt.action).str_at("conv"@) {
                Some(conv) => !text::begins(conv, "feishu:"@),
                None => true,
            }
        }),
    ensures
        card_action(evt, now) is None,
{
}

/// A click of somebody known on an expired button of the library's own hands no text on, and
/// is answered with a notice.
pub proof fn law_expired_refused(evt: CardActionEventV, conv: Seq<char>, now: int)
    requires
        evt.header.event_type == "card.action.trigger"@,
        button_value(evt.action).str_at("conv"@) == Some(conv),
        text::begins(conv, "feishu:"@),
        evt.operator.who() is Some,
        own_button(button_value(evt.action)),
        expired(button_value(evt.action), now),
    ensures
        card_action(evt, now) == Some(refused(evt, conv, expired_notice())),
        refused(evt, conv, expired_notice()).1.text is None,
{
}

/// Nobody but the person for whom a question was asked can answer it, in any conversation:
/// a click of somebody else never hands a text on.
pub proof fn law_only_owner_answers(evt: CardActionEventV, now: int)
    requires
        answers_ask(button_value(evt.action)),
        button_value(evt.action).str_at("sender"@) is Some,
        evt.operator.who() != button_value(evt.action).str_at("sender"@),
    ensures
        match card_action(evt, now) {
            Some((_, msg, deny)) => msg.text is None && deny is Some,
            None => true,
        },
{
}

/// Nobody but the person who started a task in a group can click its command button.
pub proof fn law_only_owner_commands_in_group(evt: CardActionEventV, now: int)
    requires
        button_value(evt.action).str_at("imagent_cmd"@) is Some,
        button_value(evt.action).str_at("conv"@) is Some,
        !conv::private_conv(button_value(evt.action).str_at("conv"@)->0),
        button_value(evt.action).str_at("sender"@) is Some,
        evt.operator.who() != button_value(evt.action).str_at("sender"@),
    ensures
        match card_action(evt, now) {
            Some((_, msg, deny)) => msg.text is None && deny is Some,
            None => true,
        },
{
}

/// A click either hands a text on or is refused, in the conversation that the button names and
/// in the name of the person who clicked. A refused one hands no text on.
pub proof fn law_text_or_refusal(evt: CardActionEventV, now: int)
    ensures
        match card_action(evt, now) {
            Some((_, msg, deny)) => {
                &&& msg.text is Some <==> deny is None
                &&& Some(msg.conv_id) == button_value(evt.action).str_at("conv"@)
                &&& text::begins(msg.conv_id, "feishu:"@)
                &&& Some(msg.sender) == evt.operator.who()
            },
            None => true,
        },
{
}

/// A button that is neither a question nor a form hands on an approval word or a command,
/// and never any other text.
pub proof fn law_plain_buttons_hand_on_commands(evt: CardActionEventV, now: int)
    requires
        button_value(evt.action).str_at("imagent_ask"@) is None,
        button_value(evt.action).str_at("imagent_form"@) is None,
    ensures
        match card_action(evt, now) {
            Some((_, msg, _)) => msg.text matches Some(t) ==> t == "y"@ || t == "always"@ || t
                == "n"@ || text::begins(t, "/"@),
            None => true,
        },
{
}

/// An event with an identity is recognised by it.
pub proof fn law_event_id_is_key(evt: CardActionEventV, now: int)
    requires
        evt.header.event_id is Some,
    ensures
        match card_action(evt, now) {
            Some((key, _, _)) => Some(key) == evt.header.event_id,
            None => true,
        },
{
}

} // verus!
