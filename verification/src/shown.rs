//! What somebody sees on a card, and what comes of clicking it: from the label of a button on a
//! drawn card to the message that a click on it hands on.
use vstd::prelude::*;

use crate::ask_card;
use crate::card_action;
use crate::clicks;
use crate::conv;
use crate::digits;
use crate::events::CardActionEventV;
use crate::json;
use crate::json::JsonV;
use crate::markdown;
use crate::model::{OutboundV, TerminalV, ToolCallV};
use crate::parts;
use crate::status;
use crate::task_card;
use crate::text;
use crate::wording;

verus! {

// ---------------------------------------------------------------------------
// Looking at a card
// ---------------------------------------------------------------------------

/// The elements of a card, from top to bottom.
pub open spec fn elements_of(card: JsonV) -> Seq<JsonV> {
    card.at("body"@).at("elements"@).elements()
}

/// The title on top of a card.
pub open spec fn title_of(card: JsonV) -> Option<Seq<char>> {
    card.at("header"@).at("title"@).str_at("content"@)
}

/// Whether something is an element or stands in one of its columns.
pub open spec fn stands_beside(e: JsonV, b: JsonV) -> bool {
    ||| b == e
    ||| exists|i: int, j: int|
        0 <= i < e.at("columns"@).elements().len() && 0 <= j < e.at("columns"@).elements()[i].at(
            "elements"@,
        ).elements().len() && b == #[trigger] e.at("columns"@).elements()[i].at("elements"@).elements()[j]
}

/// Whether something stands in an element of a card: by itself, in a column, or in a form.
pub open spec fn stands_in(e: JsonV, b: JsonV) -> bool {
    ||| stands_beside(e, b)
    ||| exists|k: int|
        0 <= k < e.at("elements"@).elements().len() && #[trigger] stands_beside(
            e.at("elements"@).elements()[k],
            b,
        )
}

/// Whether a card shows something.
pub open spec fn shows(card: JsonV, b: JsonV) -> bool {
    exists|k: int| 0 <= k < elements_of(card).len() && #[trigger] stands_in(elements_of(card)[k], b)
}

/// The label of a button; `None` where something is no button.
pub open spec fn label(b: JsonV) -> Option<Seq<char>> {
    if b.str_at("tag"@) == Some("button"@) {
        b.at("text"@).str_at("content"@)
    } else {
        None
    }
}

/// What a click on a button sends back.
pub open spec fn carried(b: JsonV) -> JsonV {
    b.at("behaviors"@).elements()[0].at("value"@)
}

/// Whether a text stands on a card as a block of its own.
pub open spec fn says(card: JsonV, content: Seq<char>) -> bool {
    exists|k: int|
        0 <= k < elements_of(card).len() && (#[trigger] elements_of(card)[k]).str_at("content"@)
            == Some(content)
}

/// Whether an event is a click of somebody on a button within a day after the card was made.
pub open spec fn clicks_in_time(
    evt: CardActionEventV,
    b: JsonV,
    who: Seq<char>,
    ts: int,
    now: int,
) -> bool {
    &&& clicks::clicked(evt, carried(b))
    &&& evt.operator.who() == Some(who)
    &&& now - ts <= 86400
}

/// Whether a click hands a message with a text on, in the name of the person who clicked.
pub open spec fn hands_on(
    r: Option<card_action::Click>,
    conv: Seq<char>,
    who: Seq<char>,
    said: Seq<char>,
    req: Option<Seq<char>>,
) -> bool {
    r matches Some((_, msg, deny)) && deny is None && msg.conv_id == conv && msg.sender == who && msg.text
        == Some(said) && msg.ask_req == req
}

/// Whether a click is refused with a notice, and hands no text on.
pub open spec fn turned_away(r: Option<card_action::Click>) -> bool {
    r matches Some((_, msg, Some(notice))) && msg.text is None && notice.len() > 0
}

pub proof fn lemma_names()
    ensures
        "tag"@.len() == 3,
        "text"@.len() == 4,
        "type"@.len() == 4,
        "name"@.len() == 4,
        "behaviors"@.len() == 9,
        "width"@.len() == 5,
        "value"@.len() == 5,
        "content"@.len() == 7,
        "columns"@.len() == 7,
        "elements"@.len() == 8,
        "schema"@.len() == 6,
        "header"@.len() == 6,
        "config"@.len() == 6,
        "body"@.len() == 4,
        "title"@.len() == 5,
        "template"@.len() == 8,
        "confirm"@.len() == 7,
        "flex_mode"@.len() == 9,
        "horizontal_spacing"@.len() == 18,
        "weight"@.len() == 6,
        "text_size"@.len() == 9,
        "options"@.len() == 7,
        "placeholder"@.len() == 11,
        "max_length"@.len() == 10,
        "form_action_type"@.len() == 16,
        "element_id"@.len() == 10,
        "button"@.len() == 6,
        "markdown"@.len() == 8,
        "hr"@.len() == 2,
        "column_set"@.len() == 10,
        "column"@.len() == 6,
        "form"@.len() == 4,
        "plain_text"@.len() == 10,
        "expanded"@.len() == 8,
        "border"@.len() == 6,
        "vertical_spacing"@.len() == 16,
        "padding"@.len() == 7,
        "expanded"@[1] == 'x',
        "elements"@[1] == 'l',
        "padding"@[0] == 'p',
        "collapsible_panel"@.len() == 17,
        "select_static"@.len() == 13,
        "checkbox"@.len() == 8,
        "input"@.len() == 5,
        "ask_opt"@.len() == 7,
        "checkbox"@[0] == 'c',
        "input"@[0] == 'i',
        "text"@[1] == 'e',
        "type"@[1] == 'y',
        "name"@[1] == 'a',
        "body"@[1] == 'o',
        "form"@[1] == 'o',
        "form"@[0] == 'f',
        "body"@[0] == 'b',
        "width"@[0] == 'w',
        "value"@[0] == 'v',
        "title"@[0] == 't',
        "content"@[2] == 'n',
        "columns"@[2] == 'l',
        "options"@[0] == 'o',
        "confirm"@[3] == 'f',
        "content"@[3] == 't',
        "content"@[0] == 'c',
        "columns"@[0] == 'c',
        "confirm"@[0] == 'c',
        "confirm"@[2] == 'n',
        "elements"@[0] == 'e',
        "template"@[0] == 't',
        "markdown"@[0] == 'm',
        "button"@[0] == 'b',
        "column"@[0] == 'c',
        "behaviors"@[0] == 'b',
        "flex_mode"@[0] == 'f',
        "text_size"@[0] == 't',
        "schema"@[0] == 's',
        "header"@[0] == 'h',
        "config"@[0] == 'c',
{
    reveal_strlit("tag");
    reveal_strlit("text");
    reveal_strlit("type");
    reveal_strlit("name");
    reveal_strlit("behaviors");
    reveal_strlit("width");
    reveal_strlit("value");
    reveal_strlit("content");
    reveal_strlit("columns");
    reveal_strlit("elements");
    reveal_strlit("schema");
    reveal_strlit("header");
    reveal_strlit("config");
    reveal_strlit("body");
    reveal_strlit("title");
    reveal_strlit("template");
    reveal_strlit("confirm");
    reveal_strlit("flex_mode");
    reveal_strlit("horizontal_spacing");
    reveal_strlit("weight");
    reveal_strlit("text_size");
    reveal_strlit("options");
    reveal_strlit("placeholder");
    reveal_strlit("max_length");
    reveal_strlit("form_action_type");
    reveal_strlit("element_id");
    reveal_strlit("button");
    reveal_strlit("markdown");
    reveal_strlit("hr");
    reveal_strlit("column_set");
    reveal_strlit("column");
    reveal_strlit("form");
    reveal_strlit("plain_text");
    reveal_strlit("expanded");
    reveal_strlit("border");
    reveal_strlit("vertical_spacing");
    reveal_strlit("padding");
    reveal_strlit("collapsible_panel");
    reveal_strlit("select_static");
    reveal_strlit("checkbox");
    reveal_strlit("input");
    reveal_strlit("ask_opt");
}

/// A button is labelled and carries what it was made with.
pub proof fn lemma_button(l: Seq<char>, kind: Seq<char>, value: JsonV)
    ensures
        label(parts::button_v(l, kind, value)) == Some(l),
        carried(parts::button_v(l, kind, value)) == value,
        label(parts::wide_button_v(l, kind, value)) == Some(l),
        carried(parts::wide_button_v(l, kind, value)) == value,
        forall|q: Seq<char>| #![trigger parts::confirm_button_v(l, kind, value, q)]
            label(parts::confirm_button_v(l, kind, value, q)) == Some(l) && carried(
                parts::confirm_button_v(l, kind, value, q),
            ) == value,
        label(parts::submit_button_v(l, value)) == Some(l),
        carried(parts::submit_button_v(l, value)) == value,
        parts::button_v(l, kind, value).at("columns"@).elements().len() == 0,
        parts::button_v(l, kind, value).at("elements"@).elements().len() == 0,
        parts::wide_button_v(l, kind, value).at("columns"@).elements().len() == 0,
        parts::wide_button_v(l, kind, value).at("elements"@).elements().len() == 0,
        parts::submit_button_v(l, value).at("columns"@).elements().len() == 0,
        parts::submit_button_v(l, value).at("elements"@).elements().len() == 0,
{
    lemma_names();
}

/// A block of text, a line and a note are no buttons and hold none.
pub proof fn lemma_no_button(content: Seq<char>)
    ensures
        label(parts::markdown_v(content)) is None,
        parts::markdown_v(content).at("columns"@).elements().len() == 0,
        parts::markdown_v(content).at("elements"@).elements().len() == 0,
        parts::markdown_v(content).str_at("content"@) == Some(content),
        label(parts::small_v(content)) is None,
        parts::small_v(content).at("columns"@).elements().len() == 0,
        parts::small_v(content).at("elements"@).elements().len() == 0,
        parts::small_v(content).str_at("content"@) == Some(content),
        label(parts::line_v()) is None,
        parts::line_v().at("columns"@).elements().len() == 0,
        parts::line_v().at("elements"@).elements().len() == 0,
{
    lemma_names();
}

/// The elements and the title of a card with a header.
pub proof fn lemma_card(title: Seq<char>, template: Seq<char>, elements: Seq<JsonV>)
    ensures
        elements_of(parts::card_v(title, template, elements)) == elements,
        title_of(parts::card_v(title, template, elements)) == Some(title),
{
    lemma_names();
}

/// The one thing in a column.
proof fn lemma_column(e: JsonV)
    ensures
        parts::column_v(e).at("elements"@).elements() == seq![e],
        ask_card::half_v(e).at("elements"@).elements() == seq![e],
{
    lemma_names();
}

/// The columns of a row of buttons.
pub proof fn lemma_row(buttons: Seq<JsonV>)
    ensures
        parts::flow_row_v(buttons).at("columns"@).elements().len() == buttons.len(),
        forall|i: int| 0 <= i < buttons.len() ==> #[trigger] parts::flow_row_v(buttons).at(
            "columns"@,
        ).elements()[i].at("elements"@).elements() == seq![buttons[i]],
        parts::flow_row_v(buttons).at("elements"@).elements().len() == 0,
        label(parts::flow_row_v(buttons)) is None,
        forall|b: JsonV| #[trigger] stands_in(parts::flow_row_v(buttons), b) && label(b) is Some
            ==> exists|i: int| 0 <= i < buttons.len() && b == #[trigger] buttons[i],
        forall|i: int| 0 <= i < buttons.len() ==> stands_in(
            parts::flow_row_v(buttons),
            #[trigger] buttons[i],
        ),
{
    lemma_names();
    let row = parts::flow_row_v(buttons);
    let columns = row.at("columns"@).elements();
    assert(columns =~= Seq::new(buttons.len(), |i: int| parts::column_v(buttons[i])));
    assert forall|i: int| 0 <= i < buttons.len() implies #[trigger] row.at(
        "columns"@,
    ).elements()[i].at("elements"@).elements() == seq![buttons[i]] by {
        lemma_column(buttons[i]);
    }
    assert forall|b: JsonV| #[trigger] stands_in(row, b) && label(b) is Some implies exists|i: int|
        0 <= i < buttons.len() && b == #[trigger] buttons[i] by {
        assert(stands_beside(row, b));
        assert(b != row);
        let (i, j) = choose|i: int, j: int|
            0 <= i < row.at("columns"@).elements().len() && 0 <= j < row.at("columns"@).elements()[i].at(
                "elements"@,
            ).elements().len() && b == #[trigger] row.at("columns"@).elements()[i].at("elements"@).elements()[j];
        assert(b == buttons[i]);
    }
    assert forall|i: int| 0 <= i < buttons.len() implies stands_in(row, #[trigger] buttons[i]) by {
        assert(row.at("columns"@).elements()[i].at("elements"@).elements()[0] == buttons[i]);
    }
}

// ---------------------------------------------------------------------------
// Approvals
// ---------------------------------------------------------------------------

/// On every approval, a click of the person asked, within a day, on the button labelled
/// "允许" hands "y" on, on the one labelled "⛔ 拒绝" hands "n" on, and on the one labelled
/// "♾️ 本次会话始终允许" hands "always" on, each tied to the request; a click of anybody else
/// is turned away. There is no other button. The one that allows stands out as the way to go
/// on, the one that refuses as a warning.
#[verifier::rlimit(50)]
pub proof fn law_approval_means_what_it_says(
    tool: Seq<char>,
    input: Seq<char>,
    summary: Seq<char>,
    conv: Seq<char>,
    req: Seq<char>,
    sender: Option<Seq<char>>,
    note: Seq<char>,
    ts: i64,
    b: JsonV,
    evt: CardActionEventV,
    who: Seq<char>,
    now: int,
)
    requires
        shows(ask_card::perm_card_with(tool, input, summary, conv, req, sender, note, ts as int), b),
        label(b) is Some,
        clicks_in_time(evt, b, who, ts as int, now),
        text::begins(conv, "feishu:"@),
    ensures
        label(b) == Some("允许"@) || label(b) == Some("⛔ 拒绝"@) || label(b) == Some(
            "♾️ 本次会话始终允许"@,
        ),
        label(b) == Some("允许"@) ==> b.str_at("type"@) == Some("primary_filled"@),
        label(b) == Some("⛔ 拒绝"@) ==> b.str_at("type"@) == Some("danger_filled"@),
        sender is None || sender->0.len() == 0 || sender == Some(who) ==> {
            let said = if label(b) == Some("允许"@) {
                "y"@
            } else if label(b) == Some("⛔ 拒绝"@) {
                "n"@
            } else {
                "always"@
            };
            hands_on(
                card_action::card_action(evt, now),
                conv,
                who,
                said,
                if req.len() > 0 {
                    Some(req)
                } else {
                    None
                },
            )
        },
        sender is Some && sender->0.len() > 0 && sender != Some(who) ==> turned_away(
            card_action::card_action(evt, now),
        ),
{
    lemma_names();
    let card = ask_card::perm_card_with(tool, input, summary, conv, req, sender, note, ts as int);
    let es = ask_card::perm_elements(tool, input, summary, conv, req, sender, note, ts as int);
    lemma_card("🔐 权限审批"@, "orange"@, es);
    let k = choose|k: int| 0 <= k < elements_of(card).len() && #[trigger] stands_in(elements_of(card)[k], b);
    let notes = ask_card::detail_notes(tool, input);
    lemma_no_button(ask_card::detail_text(tool, input, summary));
    lemma_no_button(markdown::masked(note));
    let n = notes.len() as int;
    let allow = parts::wide_button_v(
        "允许"@,
        "primary_filled"@,
        ask_card::perm_value("allow"@, conv, req, sender, ts as int),
    );
    let deny = parts::wide_button_v(
        "⛔ 拒绝"@,
        "danger_filled"@,
        ask_card::perm_value("deny"@, conv, req, sender, ts as int),
    );
    let always = parts::wide_button_v(
        "♾️ 本次会话始终允许"@,
        "default"@,
        ask_card::perm_value("always"@, conv, req, sender, ts as int),
    );
    lemma_button("允许"@, "primary_filled"@, ask_card::perm_value("allow"@, conv, req, sender, ts as int));
    lemma_button("⛔ 拒绝"@, "danger_filled"@, ask_card::perm_value("deny"@, conv, req, sender, ts as int));
    lemma_button(
        "♾️ 本次会话始终允许"@,
        "default"@,
        ask_card::perm_value("always"@, conv, req, sender, ts as int),
    );
    lemma_column(allow);
    lemma_column(deny);
    assert(es.len() == n + 5);
    if 2 <= k < n + 2 {
        lemma_no_button(markdown::masked(notes[k - 2]));
        assert(es[k] == parts::note_v(notes[k - 2]));
    }
    let row = es[n + 3];
    assert(row.at("columns"@).elements() == seq![ask_card::half_v(allow), ask_card::half_v(deny)]);
    assert(row.at("elements"@).elements().len() == 0);
    assert(label(row) is None);
    assert(es[n + 4] == always);
    assert(b == allow || b == deny || b == always) by {
        let e = es[k];
        assert(stands_beside(e, b));
        if k == n + 3 {
            let (i, j) = choose|i: int, j: int|
                0 <= i < e.at("columns"@).elements().len() && 0 <= j < e.at("columns"@).elements()[i].at(
                    "elements"@,
                ).elements().len() && b == #[trigger] e.at("columns"@).elements()[i].at("elements"@).elements()[j];
            assert(i == 0 || i == 1);
        }
    }
    reveal_strlit("允许");
    reveal_strlit("⛔ 拒绝");
    reveal_strlit("♾️ 本次会话始终允许");
    assert("允许"@.len() == 2);
    assert("⛔ 拒绝"@.len() == 4);
    assert("♾️ 本次会话始终允许"@.len() > 4);
    let act = if b == allow {
        "allow"@
    } else if b == deny {
        "deny"@
    } else {
        "always"@
    };
    clicks::law_approval_click(evt, act, conv, req, sender, ts, now);
    reveal_strlit("allow");
    reveal_strlit("deny");
    reveal_strlit("always");
    assert("allow"@.len() == 5 && "deny"@.len() == 4 && "always"@.len() == 6);
    reveal_strlit("⛔ 该询问由 ");
}

/// Every approval shows all three of its buttons.
pub proof fn law_approval_can_be_answered(
    tool: Seq<char>,
    input: Seq<char>,
    summary: Seq<char>,
    conv: Seq<char>,
    req: Seq<char>,
    sender: Option<Seq<char>>,
    note: Seq<char>,
    ts: int,
    wanted: Seq<char>,
)
    requires
        wanted == "允许"@ || wanted == "⛔ 拒绝"@ || wanted == "♾️ 本次会话始终允许"@,
    ensures
        exists|b: JsonV|
            #[trigger] shows(
                ask_card::perm_card_with(tool, input, summary, conv, req, sender, note, ts),
                b,
            ) && label(b) == Some(wanted),
{
    lemma_names();
    let card = ask_card::perm_card_with(tool, input, summary, conv, req, sender, note, ts);
    let es = ask_card::perm_elements(tool, input, summary, conv, req, sender, note, ts);
    lemma_card("🔐 权限审批"@, "orange"@, es);
    let n = ask_card::detail_notes(tool, input).len() as int;
    let allow = parts::wide_button_v(
        "允许"@,
        "primary_filled"@,
        ask_card::perm_value("allow"@, conv, req, sender, ts),
    );
    let deny = parts::wide_button_v(
        "⛔ 拒绝"@,
        "danger_filled"@,
        ask_card::perm_value("deny"@, conv, req, sender, ts),
    );
    let always = parts::wide_button_v(
        "♾️ 本次会话始终允许"@,
        "default"@,
        ask_card::perm_value("always"@, conv, req, sender, ts),
    );
    lemma_button("允许"@, "primary_filled"@, ask_card::perm_value("allow"@, conv, req, sender, ts));
    lemma_button("⛔ 拒绝"@, "danger_filled"@, ask_card::perm_value("deny"@, conv, req, sender, ts));
    lemma_button("♾️ 本次会话始终允许"@, "default"@, ask_card::perm_value("always"@, conv, req, sender, ts));
    lemma_column(allow);
    lemma_column(deny);
    let row = es[n + 3];
    assert(row.at("columns"@).elements() == seq![ask_card::half_v(allow), ask_card::half_v(deny)]);
    if wanted == "允许"@ {
        assert(row.at("columns"@).elements()[0].at("elements"@).elements()[0] == allow);
        assert(stands_in(elements_of(card)[n + 3], allow));
        assert(shows(card, allow));
    } else if wanted == "⛔ 拒绝"@ {
        assert(row.at("columns"@).elements()[1].at("elements"@).elements()[0] == deny);
        assert(stands_in(elements_of(card)[n + 3], deny));
        assert(shows(card, deny));
    } else {
        assert(es[n + 4] == always);
        assert(stands_in(elements_of(card)[n + 4], always));
        assert(shows(card, always));
    }
}

/// An approval shows what is to be approved: the tool, and the command of a shell, or else the
/// whole input; and below that the note on how long there is time.
pub proof fn law_approval_shows_what_is_asked(
    tool: Seq<char>,
    input: Seq<char>,
    summary: Seq<char>,
    conv: Seq<char>,
    req: Seq<char>,
    sender: Option<Seq<char>>,
    note: Seq<char>,
    ts: int,
    v: JsonV,
    command: Seq<char>,
)
    requires
        json::parsed_text(input) == Some(v),
    ensures
        ({
            let card = ask_card::perm_card_with(tool, input, summary, conv, req, sender, note, ts);
            let whole = json::json_string_pretty(v);
            &&& title_of(card) == Some("🔐 权限审批"@)
            &&& says(card, markdown::masked(note))
            &&& tool == "Bash"@ && v.str_at("command"@) == Some(command) && command.len() <= 1000
                && markdown::masked(command) == command ==> says(
                card,
                "**"@ + tool + "**"@ + "\n```"@ + "bash"@ + "\n"@ + command + "\n```"@,
            )
            &&& tool != "Bash"@ && tool != "shell"@ && summary.len() == 0 && whole.len() <= 1000
                && markdown::masked(whole) == whole ==> says(
                card,
                "**"@ + tool + "**"@ + "\n```"@ + ""@ + "\n"@ + whole + "\n```"@,
            )
            &&& tool == "Bash"@ && v.str_at("command"@) == Some(command) && command.len() > 1000
                ==> says(
                card,
                markdown::masked("…（已截断，仅显示前 "@ + digits::dec(1000) + " 字符）"@),
            )
        }),
{
    lemma_names();
    let card = ask_card::perm_card_with(tool, input, summary, conv, req, sender, note, ts);
    let es = ask_card::perm_elements(tool, input, summary, conv, req, sender, note, ts);
    lemma_card("🔐 权限审批"@, "orange"@, es);
    let detail = ask_card::detail_text(tool, input, summary);
    lemma_no_button(detail);
    lemma_no_button(markdown::masked(note));
    assert(elements_of(card)[0].str_at("content"@) == Some(detail));
    assert(elements_of(card)[1].str_at("content"@) == Some(markdown::masked(note)));
    reveal_strlit("Bash");
    reveal_strlit("shell");
    assert("Bash"@.len() == 4 && "shell"@.len() == 5);
    let notes = ask_card::detail_notes(tool, input);
    if notes.len() > 0 {
        lemma_no_button(markdown::masked(notes[0]));
        assert(es[2] == parts::note_v(notes[0]));
        assert(elements_of(card)[2].str_at("content"@) == Some(markdown::masked(notes[0])));
    }
}

/// How long there is time to answer is told on the card, in words.
pub proof fn law_time_to_answer_is_told(secs: int)
    ensures
        text::begins(ask_card::default_note(secs), "⏱️ 将在 "@ + status::humanized(secs) + "后自动拒绝"@),
{
    reveal_strlit("后自动拒绝");
    reveal_strlit("后自动拒绝 · 回复 always = 本次会话内此工具不再询问");
    let all = ask_card::default_note(secs);
    let front = "⏱️ 将在 "@ + status::humanized(secs) + "后自动拒绝"@;
    let end = "后自动拒绝 · 回复 always = 本次会话内此工具不再询问"@;
    assert(end.subrange(0, 5) =~= "后自动拒绝"@);
    assert(all.subrange(0, front.len() as int) =~= "⏱️ 将在 "@ + status::humanized(secs) + end.subrange(
        0,
        5,
    ));
}

// ---------------------------------------------------------------------------
// Questions
// ---------------------------------------------------------------------------

/// The labels of the options of a question are all there, in their order.
pub proof fn law_every_label_in_order(options: Seq<JsonV>)
    requires
        forall|i: int| 0 <= i < options.len() ==> (#[trigger] options[i]).str_at("label"@) is Some,
    ensures
        ask_card::labels(options).len() == options.len(),
        forall|i: int|
            0 <= i < options.len() ==> Some(#[trigger] ask_card::labels(options)[i]) == options[i].str_at(
                "label"@,
            ),
    decreases options.len(),
{
    if options.len() > 0 {
        law_every_label_in_order(options.drop_last());
    }
}

/// Whether a document asks one question with some options.
pub open spec fn asks(v: JsonV, question: Seq<char>, options: Seq<JsonV>, several: bool) -> bool {
    &&& v.at("questions"@).elements().len() == 1
    &&& v.at("questions"@).elements()[0].str_at("question"@) == Some(question)
    &&& v.at("questions"@).elements()[0].at("options"@) == JsonV::Arr(options)
    &&& (v.at("questions"@).elements()[0].at("multiSelect"@) == JsonV::Bool(true) <==> several)
    &&& text::trim(question).len() > 0
    &&& options.len() > 0
    &&& forall|i: int| 0 <= i < options.len() ==> (#[trigger] options[i]).str_at("label"@) is Some
}

/// A question with at most four options, of which one is chosen, shows a numbered button for
/// each of them, in their order, and no other; a click of the person asked, within a day, on
/// the button of an option answers with that option, tied to the request, and that of anybody
/// else is turned away.
#[verifier::rlimit(50)]
pub proof fn law_choice_means_what_it_says(
    v: JsonV,
    question: Seq<char>,
    options: Seq<JsonV>,
    conv: Seq<char>,
    req: Seq<char>,
    sender: Option<Seq<char>>,
    note: Seq<char>,
    ts: i64,
    b: JsonV,
    evt: CardActionEventV,
    who: Seq<char>,
    now: int,
)
    requires
        asks(v, question, options, false),
        options.len() <= 4,
        text::begins(conv, "feishu:"@),
    ensures
        ask_card::question_card(v, conv, req, sender, note, ts as int) is Some,
        ({
            let card = ask_card::question_card(v, conv, req, sender, note, ts as int)->0;
            &&& says(card, markdown::escaped(markdown::masked("❓ "@ + text::trim(question))))
            &&& shows(card, b) && label(b) is Some && clicks_in_time(evt, b, who, ts as int, now)
                ==> exists|i: int|
                0 <= i < options.len() && #[trigger] answers_with(
                    options[i],
                    i,
                    b,
                    evt,
                    conv,
                    req,
                    sender,
                    who,
                    now,
                )
        }),
{
    lemma_names();
    let qs = v.at("questions"@).elements();
    law_every_label_in_order(options);
    let all = ask_card::labels(options);
    let card = ask_card::question_card(v, conv, req, sender, note, ts as int)->0;
    let buttons = ask_card::choice_buttons(all, conv, req, sender, ts as int);
    let said = markdown::escaped(markdown::masked("❓ "@ + text::trim(question)));
    let es = seq![
        parts::markdown_v(said),
        parts::note_v(note),
        parts::line_v(),
        parts::flow_row_v(buttons),
    ];
    assert(ask_card::first_question(v) == Some(qs[0]));
    assert(card == parts::card_v("❓ 需要你的输入"@, "blue"@, es));
    lemma_card("❓ 需要你的输入"@, "blue"@, es);
    lemma_no_button(said);
    lemma_no_button(markdown::masked(note));
    lemma_row(buttons);
    assert(elements_of(card)[0].str_at("content"@) == Some(said));
    if shows(card, b) && label(b) is Some && clicks_in_time(evt, b, who, ts as int, now) {
        let k = choose|k: int|
            0 <= k < elements_of(card).len() && #[trigger] stands_in(elements_of(card)[k], b);
        assert(k == 3);
        let i = choose|i: int| 0 <= i < buttons.len() && b == #[trigger] buttons[i];
        let value = ask_card::choice_value(all[i], conv, req, sender, ts as int);
        lemma_button(
            digits::dec(i + 1) + ". "@ + all[i],
            if i == 0 {
                "primary"@
            } else {
                "default"@
            },
            value,
        );
        clicks::law_choice_click(evt, all[i], conv, req, sender, ts, now);
        reveal_strlit("⛔ 该询问由 ");
        assert(answers_with(options[i], i, b, evt, conv, req, sender, who, now));
    }
}

/// Whether a button is that of an option with its number, and a click on it answers with the
/// option, if the person asked makes it.
pub open spec fn answers_with(
    option: JsonV,
    i: int,
    b: JsonV,
    evt: CardActionEventV,
    conv: Seq<char>,
    req: Seq<char>,
    sender: Option<Seq<char>>,
    who: Seq<char>,
    now: int,
) -> bool {
    let l = option.str_at("label"@)->0;
    &&& label(b) == Some(digits::dec(i + 1) + ". "@ + l)
    &&& sender is None || sender->0.len() == 0 || sender == Some(who) ==> hands_on(
        card_action::card_action(evt, now),
        conv,
        who,
        "ask:"@ + l,
        if req.len() > 0 {
            Some(req)
        } else {
            None
        },
    )
    &&& sender is Some && sender->0.len() > 0 && sender != Some(who) ==> turned_away(
        card_action::card_action(evt, now),
    )
}

/// Every option of such a question has its button.
pub proof fn law_every_choice_can_be_made(
    v: JsonV,
    question: Seq<char>,
    options: Seq<JsonV>,
    conv: Seq<char>,
    req: Seq<char>,
    sender: Option<Seq<char>>,
    note: Seq<char>,
    ts: int,
    i: int,
)
    requires
        asks(v, question, options, false),
        0 <= i < options.len() <= 4,
    ensures
        exists|b: JsonV|
            #[trigger] shows(ask_card::question_card(v, conv, req, sender, note, ts)->0, b) && label(b)
                == Some(digits::dec(i + 1) + ". "@ + options[i].str_at("label"@)->0),
{
    lemma_names();
    let qs = v.at("questions"@).elements();
    law_every_label_in_order(options);
    let all = ask_card::labels(options);
    let card = ask_card::question_card(v, conv, req, sender, note, ts)->0;
    let buttons = ask_card::choice_buttons(all, conv, req, sender, ts);
    let said = markdown::escaped(markdown::masked("❓ "@ + text::trim(question)));
    let es = seq![
        parts::markdown_v(said),
        parts::note_v(note),
        parts::line_v(),
        parts::flow_row_v(buttons),
    ];
    assert(ask_card::first_question(v) == Some(qs[0]));
    assert(card == parts::card_v("❓ 需要你的输入"@, "blue"@, es));
    lemma_card("❓ 需要你的输入"@, "blue"@, es);
    lemma_row(buttons);
    lemma_button(
        digits::dec(i + 1) + ". "@ + all[i],
        if i == 0 {
            "primary"@
        } else {
            "default"@
        },
        ask_card::choice_value(all[i], conv, req, sender, ts),
    );
    let b = buttons[i];
    assert(elements_of(card)[3] == parts::flow_row_v(buttons));
    assert(stands_in(elements_of(card)[3], b));
    assert(shows(card, b));
}

/// Whether something is a field with a name in which each of some texts can be chosen, and
/// stands for a value.
pub open spec fn offers(
    f: JsonV,
    name: Seq<char>,
    several: bool,
    texts: Seq<Seq<char>>,
    values: Seq<Seq<char>>,
) -> bool {
    let offered = f.at("options"@).elements();
    &&& f.str_at("name"@) == Some(name)
    &&& (f.str_at("tag"@) == Some("checkbox"@) <==> several)
    &&& (f.str_at("tag"@) == Some("select_static"@) <==> !several)
    &&& offered.len() == texts.len() == values.len()
    &&& forall|k: int|
        0 <= k < texts.len() ==> (#[trigger] offered[k]).at("text"@).str_at("content"@) == Some(
            texts[k],
        ) && offered[k].str_at("value"@) == Some(values[k])
}

proof fn lemma_field(several: bool, name: Seq<char>, texts: Seq<Seq<char>>, values: Seq<Seq<char>>, options: Seq<JsonV>)
    requires
        options.len() == texts.len() == values.len(),
        forall|k: int|
            0 <= k < options.len() ==> #[trigger] options[k] == ask_card::option_v(texts[k], values[k]),
    ensures
        offers(ask_card::field_v(several, name, options), name, several, texts, values),
        label(ask_card::field_v(several, name, options)) is None,
{
    lemma_names();
    let f = ask_card::field_v(several, name, options);
    assert(f.at("options"@).elements() == options);
    assert forall|k: int| 0 <= k < texts.len() implies (#[trigger] f.at("options"@).elements()[k]).at(
        "text"@,
    ).str_at("content"@) == Some(texts[k]) && f.at("options"@).elements()[k].str_at("value"@)
        == Some(values[k]) by {
        assert(options[k] == ask_card::option_v(texts[k], values[k]));
    }
}

/// A question of which several options can be chosen, or with more than four of them, shows a
/// field with every option in its order, and a button that sends off what was chosen.
#[verifier::rlimit(50)]
pub proof fn law_many_options_are_offered(
    v: JsonV,
    question: Seq<char>,
    options: Seq<JsonV>,
    several: bool,
    conv: Seq<char>,
    req: Seq<char>,
    sender: Option<Seq<char>>,
    note: Seq<char>,
    ts: int,
)
    requires
        asks(v, question, options, several),
        several || options.len() > 4,
    ensures
        ask_card::question_card(v, conv, req, sender, note, ts) is Some,
        ({
            let card = ask_card::question_card(v, conv, req, sender, note, ts)->0;
            let said = Seq::new(options.len(), |i: int| options[i].str_at("label"@)->0);
            &&& says(card, markdown::escaped(markdown::masked("❓ "@ + text::trim(question))))
            &&& exists|f: JsonV| #[trigger] shows(card, f) && offers(f, "ask_opt"@, several, said, said)
            &&& exists|b: JsonV|
                #[trigger] shows(card, b) && label(b) == Some("提交"@) && carried(b)
                    == ask_card::form_value(conv, req, sender, ts)
        }),
{
    lemma_names();
    let qs = v.at("questions"@).elements();
    law_every_label_in_order(options);
    let all = ask_card::labels(options);
    let card = ask_card::question_card(v, conv, req, sender, note, ts)->0;
    let said = markdown::escaped(markdown::masked("❓ "@ + text::trim(question)));
    let form = ask_card::question_control(all, several, conv, req, sender, ts);
    let es = seq![parts::markdown_v(said), parts::note_v(note), parts::line_v(), form];
    assert(ask_card::first_question(v) == Some(qs[0]));
    assert(card == parts::card_v("❓ 需要你的输入"@, "blue"@, es));
    lemma_card("❓ 需要你的输入"@, "blue"@, es);
    lemma_no_button(said);
    assert(elements_of(card)[0].str_at("content"@) == Some(said));
    let texts = Seq::new(options.len(), |i: int| options[i].str_at("label"@)->0);
    assert(texts =~= all);
    let field = ask_card::field_v(several, "ask_opt"@, ask_card::label_options(all));
    lemma_field(several, "ask_opt"@, all, all, ask_card::label_options(all));
    let b = parts::submit_button_v("提交"@, ask_card::form_value(conv, req, sender, ts));
    lemma_button("提交"@, "primary"@, ask_card::form_value(conv, req, sender, ts));
    let parts_of_form = form.at("elements"@).elements();
    assert(parts_of_form.len() == 4);
    assert(parts_of_form[1] == field);
    assert(parts_of_form[3] == parts::flow_row_v(seq![b]));
    lemma_row(seq![b]);
    assert(parts::flow_row_v(seq![b]).at("columns"@).elements()[0].at("elements"@).elements()[0] == b);
    assert(stands_beside(parts_of_form[3], b));
    assert(stands_beside(parts_of_form[1], field));
    assert(elements_of(card)[3] == form);
    assert(stands_in(elements_of(card)[3], b));
    assert(stands_in(elements_of(card)[3], field));
    assert(shows(card, b) && shows(card, field));
}

proof fn lemma_field_names(i: int, j: int)
    requires
        0 <= i,
        0 <= j,
    ensures
        card_action::choice_field(i) == card_action::choice_field(j) ==> i == j,
        card_action::free_field(i) != card_action::choice_field(j),
        card_action::choice_field(i) != "ask_opt"@,
        card_action::free_field(i) != "ask_opt"@,
{
    reveal_strlit("ask_opt");
    reveal_strlit("ask_opt_");
    reveal_strlit("_free");
    let a = card_action::choice_field(i);
    let b = card_action::choice_field(j);
    let f = card_action::free_field(i);
    assert(a.len() >= 8 && f.len() >= 13 && "ask_opt"@.len() == 7);
    if a == b {
        assert(a.subrange(8, a.len() as int) =~= digits::dec(i));
        assert(b.subrange(8, b.len() as int) =~= digits::dec(j));
        digits::lemma_dec_injective(i, j);
    }
    if f == b {
        digits::lemma_numeral_value(j as nat);
        assert(f.last() == 'e');
        assert(digits::is_digit(digits::dec(j)[digits::dec(j).len() - 1]));
        assert(b.last() == digits::dec(j).last());
    }
}

/// What is sent off with the form of one question is the answer: the chosen option, or all
/// chosen options in their order.
pub proof fn law_chosen_options_are_the_answer(
    evt: CardActionEventV,
    conv: Seq<char>,
    req: Seq<char>,
    sender: Option<Seq<char>>,
    ts: i64,
    now: int,
    who: Seq<char>,
    one: Seq<char>,
    other: Seq<char>,
)
    requires
        clicks::clicked(evt, ask_card::form_value(conv, req, sender, ts as int)),
        text::begins(conv, "feishu:"@),
        evt.operator.who() == Some(who),
        sender is None || sender->0.len() == 0 || sender == Some(who),
        now - ts <= 86400,
        one.len() > 0,
        other.len() > 0,
    ensures
        evt.action.at("form_value"@) == JsonV::Obj(map!["ask_opt"@ => JsonV::Str(one)]) ==> hands_on(
            card_action::card_action(evt, now),
            conv,
            who,
            "ask:"@ + one,
            if req.len() > 0 {
                Some(req)
            } else {
                None
            },
        ),
        evt.action.at("form_value"@) == JsonV::Obj(
            map!["ask_opt"@ => JsonV::Arr(seq![JsonV::Str(one), JsonV::Str(other)])],
        ) ==> hands_on(
            card_action::card_action(evt, now),
            conv,
            who,
            "ask:"@ + (one + "、"@ + other),
            if req.len() > 0 {
                Some(req)
            } else {
                None
            },
        ),
{
    clicks::law_answers_sent(evt, conv, req, sender, ts, now);
    let form = evt.action.at("form_value"@);
    let both = seq![JsonV::Str(one), JsonV::Str(other)];
    assert(card_action::texts_in(both) =~= seq![one, other]) by {
        assert(both.drop_last() =~= seq![JsonV::Str(one)]);
        assert(both.drop_last().drop_last() =~= Seq::<JsonV>::empty());
        reveal_with_fuel(card_action::texts_in, 4);
    }
    assert(text::join(seq![one, other], "、"@) == one + "、"@ + other) by {
        assert(seq![one, other].drop_last() =~= seq![one]);
        reveal_with_fuel(text::join, 3);
    }
    if form == JsonV::Obj(map!["ask_opt"@ => JsonV::Str(one)]) || form == JsonV::Obj(
        map!["ask_opt"@ => JsonV::Arr(both)],
    ) {
        lemma_no_answers(form, 0x1_0000_0000);
    }
}

proof fn lemma_no_answers(form: JsonV, n: nat)
    requires
        forall|key: Seq<char>| key != "ask_opt"@ ==> (#[trigger] form.at(key)) is Null,
    ensures
        card_action::answers_below(form, n).len() == 0,
    decreases n,
{
    if n > 0 {
        lemma_no_answers(form, (n - 1) as nat);
        lemma_field_names(n - 1, n - 1);
    }
}

/// What is sent off with the form of several questions are their answers, in the order of the
/// questions.
pub proof fn law_answers_in_order(
    evt: CardActionEventV,
    conv: Seq<char>,
    req: Seq<char>,
    sender: Option<Seq<char>>,
    ts: i64,
    now: int,
    who: Seq<char>,
    given: Seq<Seq<char>>,
)
    requires
        clicks::clicked(evt, ask_card::form_value(conv, req, sender, ts as int)),
        text::begins(conv, "feishu:"@),
        evt.operator.who() == Some(who),
        sender is None || sender->0.len() == 0 || sender == Some(who),
        now - ts <= 86400,
        0 < given.len() < 0x1_0000_0000,
        forall|i: int|
            0 <= i < given.len() ==> (#[trigger] given[i]).len() > 0 && evt.action.at(
                "form_value"@,
            ).at("ask_opt_"@ + digits::dec(i)) == JsonV::Str(given[i]),
        forall|i: int|
            0 <= i ==> (#[trigger] evt.action.at("form_value"@).at(
                "ask_opt_"@ + digits::dec(i) + "_free"@,
            )) is Null,
        forall|i: int|
            given.len() <= i ==> (#[trigger] evt.action.at("form_value"@).at(
                "ask_opt_"@ + digits::dec(i),
            )) is Null,
    ensures
        hands_on(
            card_action::card_action(evt, now),
            conv,
            who,
            "ask:"@ + text::join(given, "；"@),
            if req.len() > 0 {
                Some(req)
            } else {
                None
            },
        ),
{
    clicks::law_answers_sent(evt, conv, req, sender, ts, now);
    let form = evt.action.at("form_value"@);
    lemma_answers_given(form, given, 0x1_0000_0000);
    assert(given.subrange(0, given.len() as int) =~= given);
}

proof fn lemma_answers_given(form: JsonV, given: Seq<Seq<char>>, n: nat)
    requires
        forall|i: int|
            0 <= i < given.len() ==> (#[trigger] given[i]).len() > 0 && form.at(
                "ask_opt_"@ + digits::dec(i),
            ) == JsonV::Str(given[i]),
        forall|i: int|
            0 <= i ==> (#[trigger] form.at("ask_opt_"@ + digits::dec(i) + "_free"@)) is Null,
        forall|i: int| given.len() <= i ==> (#[trigger] form.at("ask_opt_"@ + digits::dec(i))) is Null,
    ensures
        card_action::answers_below(form, n) == given.subrange(
            0,
            if n < given.len() {
                n as int
            } else {
                given.len() as int
            },
        ),
    decreases n,
{
    if n > 0 {
        lemma_answers_given(form, given, (n - 1) as nat);
        let i = n - 1;
        assert(form.at("ask_opt_"@ + digits::dec(i) + "_free"@) is Null);
        if i < given.len() {
            assert(given[i].len() > 0);
            assert(given.subrange(0, i).push(given[i]) =~= given.subrange(0, n as int));
        } else {
            assert(form.at("ask_opt_"@ + digits::dec(i)) is Null);
        }
    } else {
        assert(given.subrange(0, 0) =~= Seq::<Seq<char>>::empty());
    }
}

/// Whether a document asks several questions that can all be shown, with a header and labelled
/// options each.
pub open spec fn asks_several(v: JsonV, qs: Seq<JsonV>) -> bool {
    &&& v.at("questions"@) == JsonV::Arr(qs)
    &&& qs.len() > 1
    &&& forall|i: int|
        0 <= i < qs.len() ==> (#[trigger] qs[i]).str_at("question"@) is Some && qs[i].at("options"@) is Arr
            && qs[i].at("options"@).elements().len() > 0 && text::trim(qs[i].str_at("question"@)->0).len()
            > 0
    &&& forall|i: int, k: int|
        0 <= i < qs.len() && 0 <= k < qs[i].at("options"@).elements().len() ==> (
        #[trigger] qs[i].at("options"@).elements()[k]).str_at("label"@) is Some && text::trim(
            qs[i].at("options"@).elements()[k].str_at("label"@)->0,
        ).len() > 0
}

proof fn lemma_kept(options: Seq<JsonV>)
    requires
        forall|k: int|
            0 <= k < options.len() ==> (#[trigger] options[k]).str_at("label"@) is Some && text::trim(
                options[k].str_at("label"@)->0,
            ).len() > 0,
    ensures
        ask_card::kept_options(options) == options,
    decreases options.len(),
{
    if options.len() > 0 {
        lemma_kept(options.drop_last());
        assert(options.drop_last().push(options.last()) =~= options);
    }
}

#[verifier::rlimit(50)]
proof fn lemma_sections(qs: Seq<JsonV>, i: int)
    requires
        0 <= i < qs.len(),
    ensures
        ask_card::question_sections(qs).len() == 3 * qs.len(),
        ask_card::question_sections(qs).subrange(3 * i, 3 * i + 3) == ask_card::question_section(qs[i], i),
    decreases qs.len(),
{
    let before = ask_card::question_sections(qs.drop_last());
    let own = ask_card::question_section(qs.last(), qs.len() - 1);
    let all = ask_card::question_sections(qs);
    if qs.len() > 1 {
        lemma_sections(qs.drop_last(), 0);
    }
    if i < qs.len() - 1 {
        lemma_sections(qs.drop_last(), i);
        assert(all.subrange(3 * i, 3 * i + 3) =~= before.subrange(3 * i, 3 * i + 3));
    } else {
        assert(all.subrange(3 * i, 3 * i + 3) =~= own);
    }
}

/// Of several questions each has its own field, under its number, with every option in its
/// order: an option stands for its own name behind that of the question. One button sends all
/// answers off.
#[verifier::rlimit(50)]
pub proof fn law_several_questions_are_offered(
    v: JsonV,
    qs: Seq<JsonV>,
    conv: Seq<char>,
    req: Seq<char>,
    sender: Option<Seq<char>>,
    note: Seq<char>,
    ts: int,
    i: int,
    head: Seq<char>,
)
    requires
        asks_several(v, qs),
        0 <= i < qs.len(),
        qs[i].str_at("header"@) == Some(head),
        !text::blank(head),
    ensures
        ask_card::question_card(v, conv, req, sender, note, ts) is Some,
        ({
            let card = ask_card::question_card(v, conv, req, sender, note, ts)->0;
            let options = qs[i].at("options"@).elements();
            let said = Seq::new(options.len(), |k: int| text::trim(options[k].str_at("label"@)->0));
            let meant = Seq::new(options.len(), |k: int| text::trim(head) + "="@ + said[k]);
            &&& exists|f: JsonV|
                #[trigger] shows(card, f) && offers(
                    f,
                    "ask_opt_"@ + digits::dec(i),
                    qs[i].at("multiSelect"@) == JsonV::Bool(true),
                    said,
                    meant,
                )
            &&& exists|f: JsonV|
                #[trigger] shows(card, f) && f.str_at("tag"@) == Some("input"@) && f.str_at("name"@)
                    == Some("ask_opt_"@ + digits::dec(i) + "_free"@)
            &&& exists|b: JsonV|
                #[trigger] shows(card, b) && label(b) == Some("提交全部答案"@) && carried(b)
                    == ask_card::form_value(conv, req, sender, ts)
        }),
{
    lemma_names();
    assert forall|j: int| 0 <= j < qs.len() implies ask_card::question_ok(#[trigger] qs[j]) by {
        let options = qs[j].at("options"@).elements();
        assert forall|k: int| 0 <= k < options.len() implies (#[trigger] options[k]).str_at("label"@) is Some
            && text::trim(options[k].str_at("label"@)->0).len() > 0 by {
            assert(qs[j].at("options"@).elements()[k].str_at("label"@) is Some);
        }
        lemma_kept(options);
    }
    let first = qs[0].at("options"@).elements();
    assert(ask_card::labels(first).len() > 0) by {
        assert forall|k: int| 0 <= k < first.len() implies (#[trigger] first[k]).str_at("label"@) is Some by {
            assert(qs[0].at("options"@).elements()[k].str_at("label"@) is Some);
        }
        law_every_label_in_order(first);
    }
    assert(ask_card::first_question(v) == Some(qs[0]));
    let card = ask_card::question_card(v, conv, req, sender, note, ts)->0;
    assert(card == ask_card::multi_question_card(qs, conv, req, sender, note, ts));
    let b = parts::submit_button_v("提交全部答案"@, ask_card::form_value(conv, req, sender, ts));
    lemma_button("提交全部答案"@, "primary"@, ask_card::form_value(conv, req, sender, ts));
    let top = seq![parts::note_v(note), parts::line_v()];
    let sections = ask_card::question_sections(qs);
    let inner = top + sections + seq![parts::line_v(), parts::flow_row_v(seq![b])];
    let form = ask_card::form_v("imagent_ask"@, inner);
    lemma_card("❓ 需要你的输入（多题一次提交）"@, "blue"@, seq![form]);
    assert(elements_of(card) == seq![form]);
    assert(form.at("elements"@).elements() == inner);
    lemma_sections(qs, i);
    let own = ask_card::question_section(qs[i], i);
    let n = 3 * qs.len() as int;
    assert(inner[2 + 3 * i + 1] == own[1]) by {
        assert(sections.subrange(3 * i, 3 * i + 3)[1] == own[1]);
    }
    assert(inner[2 + 3 * i + 2] == own[2]) by {
        assert(sections.subrange(3 * i, 3 * i + 3)[2] == own[2]);
    }
    assert(inner[n + 3] == parts::flow_row_v(seq![b]));
    lemma_row(seq![b]);
    assert(parts::flow_row_v(seq![b]).at("columns"@).elements()[0].at("elements"@).elements()[0] == b);
    assert(stands_beside(form.at("elements"@).elements()[n + 3], b));
    assert(stands_in(elements_of(card)[0], b));
    assert(shows(card, b));
    let options = qs[i].at("options"@).elements();
    assert forall|k: int| 0 <= k < options.len() implies (#[trigger] options[k]).str_at("label"@) is Some
        && text::trim(options[k].str_at("label"@)->0).len() > 0 by {
        assert(qs[i].at("options"@).elements()[k].str_at("label"@) is Some);
    }
    lemma_kept(options);
    let said = Seq::new(options.len(), |k: int| text::trim(options[k].str_at("label"@)->0));
    let meant = Seq::new(options.len(), |k: int| text::trim(head) + "="@ + said[k]);
    let field = own[1];
    lemma_field(
        ask_card::is_multi(qs[i]),
        "ask_opt_"@ + digits::dec(i),
        said,
        meant,
        ask_card::question_options(qs[i]),
    );
    assert(stands_beside(form.at("elements"@).elements()[2 + 3 * i + 1], field));
    assert(stands_in(elements_of(card)[0], field));
    assert(shows(card, field));
    let free = own[2];
    assert(free.str_at("tag"@) == Some("input"@));
    assert(stands_beside(form.at("elements"@).elements()[2 + 3 * i + 2], free));
    assert(stands_in(elements_of(card)[0], free));
    assert(shows(card, free));
}

// ---------------------------------------------------------------------------
// Tasks
// ---------------------------------------------------------------------------

/// Whether an element of a card neither is nor holds a button.
pub open spec fn holds_no_button(e: JsonV) -> bool {
    forall|b: JsonV| #[trigger] stands_in(e, b) ==> label(b) is None
}

pub proof fn lemma_holds_none(content: Seq<char>, title: Seq<char>, border: Seq<char>)
    ensures
        holds_no_button(parts::markdown_v(content)),
        holds_no_button(parts::small_v(content)),
        holds_no_button(parts::line_v()),
        holds_no_button(parts::panel_v(title, border, content)),
{
    lemma_names();
    lemma_no_button(content);
    let panel = parts::panel_v(title, border, content);
    assert(panel.at("elements"@).elements() == seq![parts::small_v(content)]);
    assert(panel.at("columns"@).elements().len() == 0);
    assert(label(panel) is None);
    assert forall|b: JsonV| #[trigger] stands_in(panel, b) implies label(b) is None by {
        if !stands_beside(panel, b) {
            let k = choose|k: int|
                0 <= k < panel.at("elements"@).elements().len() && #[trigger] stands_beside(
                    panel.at("elements"@).elements()[k],
                    b,
                );
            assert(panel.at("elements"@).elements()[k] == parts::small_v(content));
        }
    }
}

#[verifier::rlimit(50)]
proof fn lemma_task_elements(c: OutboundV, conv: Seq<char>, sender: Option<Seq<char>>, ts: int)
    ensures
        elements_of(task_card::task_card(c, conv, sender, ts)) == task_card::card_elements(
            c,
            conv,
            sender,
            ts,
        ),
        elements_of(task_card::init_card(conv, sender, ts)) == task_card::init_elements(conv, sender, ts),
        forall|k: int|
            0 <= k < task_card::card_elements(c, conv, sender, ts).len() - task_card::card_buttons(
                c,
                conv,
                sender,
                ts,
            ).len() ==> holds_no_button(#[trigger] task_card::card_elements(c, conv, sender, ts)[k]),
{
    lemma_names();
    let card = task_card::task_card(c, conv, sender, ts);
    let es = task_card::card_elements(c, conv, sender, ts);
    assert(card.at("body"@) == parts::body_v(es));
    let a = task_card::anchor_section(conv, sender);
    let t = task_card::tool_section(c);
    let h = task_card::thought_section(c);
    let buttons = task_card::card_buttons(c, conv, sender, ts);
    assert(es == a + seq![parts::markdown_v(task_card::fit(task_card::card_text(c)))] + t + h + seq![
        parts::small_v(task_card::card_footer(c)),
    ] + buttons);
    assert forall|k: int| 0 <= k < es.len() - buttons.len() implies holds_no_button(#[trigger] es[k]) by {
        let e = es[k];
        let m = a.len() as int;
        if k < m {
            let s = text::nonempty(sender)->0;
            lemma_holds_none("<at id=\""@ + s + "\"></at> 发起的任务"@, Seq::empty(), Seq::empty());
            assert(e == a[k]);
        } else if k == m {
            lemma_holds_none(task_card::fit(task_card::card_text(c)), Seq::empty(), Seq::empty());
            assert(e == parts::markdown_v(task_card::fit(task_card::card_text(c))));
        } else if k < m + 1 + t.len() {
            assert(e == t[k - m - 1]);
            let border = task_card::card_border(c);
            lemma_holds_none(
                task_card::tool_panel_text(c.tool_calls),
                "🔧 工具轨迹（"@ + digits::dec(c.tool_calls.len() as int) + "）"@,
                border,
            );
            lemma_holds_none(
                "🔧 工具 "@ + digits::dec(c.tool_calls.len() as int) + " 次："@ + status::tool_stats(
                    c.tool_calls,
                ),
                Seq::empty(),
                Seq::empty(),
            );
        } else if k < m + 1 + t.len() + h.len() {
            assert(e == h[k - m - 1 - t.len()]);
            lemma_holds_none(
                task_card::thought_panel_text(task_card::latest(c.thoughts, 5)),
                "💭 思考过程（"@ + digits::dec(c.thoughts.len() as int) + "）"@,
                task_card::card_border(c),
            );
        } else {
            lemma_holds_none(task_card::card_footer(c), Seq::empty(), Seq::empty());
            assert(e == parts::small_v(task_card::card_footer(c)));
        }
    }
}

/// The card of a running task has one button, "⏹ 终止", which stops the task, in a group for
/// nobody but whoever started it. That of a task that failed has one, "🩺 自检 /doctor", which
/// asks for a check and is for everybody. That of a task that is done has none.
pub proof fn law_task_button_means_what_it_says(
    c: OutboundV,
    conv: Seq<char>,
    sender: Option<Seq<char>>,
    ts: i64,
    b: JsonV,
    evt: CardActionEventV,
    who: Seq<char>,
    now: int,
)
    requires
        shows(task_card::task_card(c, conv, sender, ts as int), b),
        label(b) is Some,
        clicks_in_time(evt, b, who, ts as int, now),
        text::begins(conv, "feishu:"@),
    ensures
        !(c.terminal is Done),
        c.terminal is Running ==> label(b) == Some("⏹ 终止"@) && (if sender is None || sender->0.len()
            == 0 || sender == Some(who) || conv::private_conv(conv) {
            hands_on(card_action::card_action(evt, now), conv, who, "/stop"@, None)
        } else {
            turned_away(card_action::card_action(evt, now))
        }),
        c.terminal is Error ==> label(b) == Some("🩺 自检 /doctor"@) && hands_on(
            card_action::card_action(evt, now),
            conv,
            who,
            "/doctor"@,
            None,
        ),
{
    lemma_names();
    lemma_task_elements(c, conv, sender, ts as int);
    let card = task_card::task_card(c, conv, sender, ts as int);
    let es = task_card::card_elements(c, conv, sender, ts as int);
    let buttons = task_card::card_buttons(c, conv, sender, ts as int);
    let k = choose|k: int| 0 <= k < elements_of(card).len() && #[trigger] stands_in(elements_of(card)[k], b);
    assert(k >= es.len() - buttons.len());
    assert(es[k] == buttons[k - (es.len() - buttons.len())]);
    reveal_strlit("/");
    reveal_strlit("/stop");
    reveal_strlit("/doctor");
    assert("/stop"@.subrange(0, 1) =~= "/"@);
    assert("/doctor"@.subrange(0, 1) =~= "/"@);
    reveal_strlit("⛔ 该任务由他人发起，仅发起者本人可执行此操作。");
    if c.terminal is Running {
        let value = parts::cmd_value_v(conv, "/stop"@, sender, ts as int);
        let stop = parts::button_v("⏹ 终止"@, "danger"@, value);
        lemma_button("⏹ 终止"@, "danger"@, value);
        lemma_row(seq![stop]);
        assert(b == stop);
        clicks::law_command_click(evt, "/stop"@, conv, sender, ts, now);
        lemma_command_without_request(conv, "/stop"@, sender, ts as int);
    } else {
        let value = parts::cmd_value_v(conv, "/doctor"@, None, ts as int);
        let check = parts::button_v("🩺 自检 /doctor"@, "default"@, value);
        lemma_button("🩺 自检 /doctor"@, "default"@, value);
        lemma_row(seq![check]);
        assert(b == check);
        clicks::law_command_click(evt, "/doctor"@, conv, None, ts, now);
        lemma_command_without_request(conv, "/doctor"@, None, ts as int);
    }
}

pub proof fn lemma_command_without_request(
    conv: Seq<char>,
    command: Seq<char>,
    sender: Option<Seq<char>>,
    ts: int,
)
    ensures
        parts::cmd_value_v(conv, command, sender, ts).str_at("req"@) is None,
{
    reveal_strlit("imagent_cmd");
    reveal_strlit("conv");
    reveal_strlit("ts");
    reveal_strlit("sender");
    reveal_strlit("req");
    assert("req"@.len() == 3 && "imagent_cmd"@.len() == 11 && "conv"@.len() == 4);
    assert("ts"@.len() == 2 && "sender"@.len() == 6);
}

/// A task can be stopped from every card that shows it running, the first one included.
pub proof fn law_running_task_can_be_stopped(
    c: OutboundV,
    conv: Seq<char>,
    sender: Option<Seq<char>>,
    ts: i64,
    evt: CardActionEventV,
    who: Seq<char>,
    now: int,
)
    requires
        c.terminal is Running,
        text::begins(conv, "feishu:"@),
        sender is None || sender->0.len() == 0 || sender == Some(who),
    ensures
        exists|b: JsonV|
            #[trigger] shows(task_card::task_card(c, conv, sender, ts as int), b) && shows(
                task_card::init_card(conv, sender, ts as int),
                b,
            ) && label(b) == Some("⏹ 终止"@) && (clicks_in_time(evt, b, who, ts as int, now) ==> hands_on(
                card_action::card_action(evt, now),
                conv,
                who,
                "/stop"@,
                None,
            )),
{
    lemma_names();
    lemma_task_elements(c, conv, sender, ts as int);
    let card = task_card::task_card(c, conv, sender, ts as int);
    let begun = task_card::init_card(conv, sender, ts as int);
    task_card::law_running_card_stops_for_its_owner(c, conv, sender, ts as int);
    let value = parts::cmd_value_v(conv, "/stop"@, sender, ts as int);
    let stop = parts::button_v("⏹ 终止"@, "danger"@, value);
    lemma_button("⏹ 终止"@, "danger"@, value);
    lemma_row(seq![stop]);
    let row = parts::flow_row_v(seq![stop]);
    assert(seq![stop][0] == stop);
    assert(stands_in(row, stop));
    let es = elements_of(card);
    let fs = elements_of(begun);
    assert(es[es.len() - 1] == row);
    assert(fs[fs.len() - 1] == row);
    assert(stands_in(elements_of(card)[es.len() - 1], stop));
    assert(stands_in(elements_of(begun)[fs.len() - 1], stop));
    assert(shows(card, stop));
    assert(shows(begun, stop));
    if clicks_in_time(evt, stop, who, ts as int, now) {
        law_task_button_means_what_it_says(c, conv, sender, ts, stop, evt, who, now);
    }
}

/// The card of a task says what the task has said, and below that how it stands. A task that
/// has ended says on top how: done, stopped or failed; a running one has no such title.
pub proof fn law_task_card_says_how_it_stands(
    c: OutboundV,
    conv: Seq<char>,
    sender: Option<Seq<char>>,
    ts: int,
)
    ensures
        ({
            let card = task_card::task_card(c, conv, sender, ts);
            &&& says(card, task_card::fit(task_card::card_text(c)))
            &&& c.terminal is Running ==> title_of(card) is None && says(
                card,
                status::running_text(c.phase, c.queued_hint, c.run_secs as int),
            )
            &&& c.terminal is Done ==> title_of(card) == Some("✅ 已完成"@) && says(
                card,
                status::done_text(c.run_secs as int, c.usage_display),
            )
            &&& c.terminal == TerminalV::Error("已中断"@) ==> title_of(card) == Some("⏹ 已中断"@) && says(
                card,
                "⏹ 已中断"@,
            )
            &&& c.terminal is Error && c.terminal->0 != "已中断"@ ==> title_of(card) == Some("❌ 出错"@)
                && says(card, "❌ 出错"@)
        }),
        title_of(task_card::init_card(conv, sender, ts)) is None,
        says(task_card::init_card(conv, sender, ts), "🧠 已接收任务，正在处理…"@),
{
    lemma_names();
    lemma_task_elements(c, conv, sender, ts);
    let card = task_card::task_card(c, conv, sender, ts);
    let es = task_card::card_elements(c, conv, sender, ts);
    let a = task_card::anchor_section(conv, sender).len() as int;
    let f = es.len() - task_card::card_buttons(c, conv, sender, ts).len() - 1;
    lemma_no_button(task_card::fit(task_card::card_text(c)));
    lemma_no_button(task_card::card_footer(c));
    assert(es[a] == parts::markdown_v(task_card::fit(task_card::card_text(c))));
    assert(es[f] == parts::small_v(task_card::card_footer(c)));
    assert(elements_of(card)[a].str_at("content"@) == Some(task_card::fit(task_card::card_text(c))));
    assert(elements_of(card)[f].str_at("content"@) == Some(task_card::card_footer(c)));
    assert(says(card, task_card::fit(task_card::card_text(c))));
    assert(says(card, task_card::card_footer(c)));
    let begun = task_card::init_card(conv, sender, ts);
    assert(elements_of(begun)[a].str_at("content"@) == Some("🧠 已接收任务，正在处理…"@));
}

/// What a task says is shown word for word, where it fits, holds no mail address and no tag.
pub proof fn law_short_text_is_shown_as_it_is(said: Seq<char>)
    requires
        markdown::masked(said) == said,
        markdown::byte_len(said) <= 8192,
        !said.contains('<'),
    ensures
        task_card::fit(said) == said,
{
    wording::law_plain_text_is_kept(said);
}

/// The uses of tools, and the thoughts, stand in their panels line by line, in their order.
pub proof fn law_panels_keep_the_order(
    tools: Seq<ToolCallV>,
    t: ToolCallV,
    thoughts: Seq<Seq<char>>,
    thought: Seq<char>,
)
    ensures
        task_card::tool_panel_text(tools.push(t)) == task_card::tool_panel_text(tools) + ("- "@
            + markdown::escaped(markdown::masked(status::tool_line(t))) + "\n"@),
        task_card::thought_panel_text(thoughts.push(thought)) == task_card::thought_panel_text(thoughts)
            + ("> "@ + markdown::escaped(
            markdown::masked(markdown::shortened(text::trim(thought), 400)),
        ) + "\n"@),
        thoughts.len() <= 5 ==> task_card::latest(thoughts, 5) == thoughts,
        thoughts.len() > 5 ==> task_card::latest(thoughts, 5).len() == 5 && forall|k: int|
            0 <= k < 5 ==> #[trigger] task_card::latest(thoughts, 5)[k] == thoughts[thoughts.len() - 5 + k],
{
    assert(tools.push(t).drop_last() =~= tools);
    assert(thoughts.push(thought).drop_last() =~= thoughts);
}

// ---------------------------------------------------------------------------
// Cards that are over
// ---------------------------------------------------------------------------

/// An answered approval says whether it was granted or refused, and for which tool; it has no
/// button left. So do one that is over without an answer, one that another has replaced, and
/// an answered question.
pub proof fn law_closed_cards_say_why(tool: Seq<char>, choice: Seq<char>, b: JsonV)
    ensures
        title_of(ask_card::resolved_card(tool, true)) == Some("✅"@ + " "@ + "已批准"@),
        says(
            ask_card::resolved_card(tool, true),
            "`"@ + tool + "` 的执行询问"@ + "已批准"@ + "，任务继续处理中。"@,
        ),
        title_of(ask_card::resolved_card(tool, false)) == Some("⛔"@ + " "@ + "已拒绝"@),
        says(
            ask_card::resolved_card(tool, false),
            "`"@ + tool + "` 的执行询问"@ + "已拒绝"@ + "，任务继续处理中。"@,
        ),
        title_of(ask_card::cancelled_card(tool)) == Some("⏹ 询问已结束"@),
        title_of(ask_card::superseded_card(tool)) == Some("🔁 已被新询问取代"@),
        title_of(ask_card::question_resolved_card(choice)) == Some("✅ 已记录选择"@),
        says(
            ask_card::question_resolved_card(choice),
            "已记录你的选择："@ + choice + "。任务继续处理中。"@,
        ),
        shows(ask_card::resolved_card(tool, true), b) || shows(ask_card::resolved_card(tool, false), b)
            || shows(ask_card::cancelled_card(tool), b) || shows(ask_card::superseded_card(tool), b) || shows(
            ask_card::question_resolved_card(choice),
            b,
        ) ==> label(b) is None,
{
    lemma_closed(
        "✅"@ + " "@ + "已批准"@,
        "`"@ + tool + "` 的执行询问"@ + "已批准"@ + "，任务继续处理中。"@,
        b,
    );
    lemma_closed(
        "⛔"@ + " "@ + "已拒绝"@,
        "`"@ + tool + "` 的执行询问"@ + "已拒绝"@ + "，任务继续处理中。"@,
        b,
    );
    lemma_closed(
        "🔁 已被新询问取代"@,
        "`"@ + tool
            + "` 的询问已被更新的询问取代（agent 并发请求时旧请求自动拒绝），请处理最新一张。"@,
        b,
    );
    lemma_closed("✅ 已记录选择"@, "已记录你的选择："@ + choice + "。任务继续处理中。"@, b);
    let said = "`"@ + tool + "` 的本次询问已结束，无需处理。"@;
    let note = "原因：任务中断 · 审批超时 · 被后续询问取代"@;
    let es = seq![parts::markdown_v(said), parts::note_v(note)];
    lemma_card("⏹ 询问已结束"@, "grey"@, es);
    lemma_holds_none(said, Seq::empty(), Seq::empty());
    lemma_holds_none(markdown::masked(note), Seq::empty(), Seq::empty());
    let card = ask_card::cancelled_card(tool);
    if shows(card, b) {
        let k = choose|k: int|
            0 <= k < elements_of(card).len() && #[trigger] stands_in(elements_of(card)[k], b);
        assert(k == 0 || k == 1);
    }
}

proof fn lemma_closed(title: Seq<char>, said: Seq<char>, b: JsonV)
    ensures
        title_of(parts::card_v(title, "grey"@, seq![parts::markdown_v(said)])) == Some(title),
        says(parts::card_v(title, "grey"@, seq![parts::markdown_v(said)]), said),
        shows(parts::card_v(title, "grey"@, seq![parts::markdown_v(said)]), b) ==> label(b) is None,
{
    let card = parts::card_v(title, "grey"@, seq![parts::markdown_v(said)]);
    lemma_card(title, "grey"@, seq![parts::markdown_v(said)]);
    lemma_no_button(said);
    lemma_holds_none(said, Seq::empty(), Seq::empty());
    assert(elements_of(card)[0].str_at("content"@) == Some(said));
    if shows(card, b) {
        let k = choose|k: int|
            0 <= k < elements_of(card).len() && #[trigger] stands_in(elements_of(card)[k], b);
        assert(k == 0);
    }
}

/// What is left of a card whose result is sent further down says how the task ended, and so
/// does one whose result does not fit.
pub proof fn law_replaced_cards_say_how_it_ended(c: OutboundV)
    ensures
        c.terminal is Done ==> title_of(task_card::stub_card(c)) == Some("✅ 已完成"@),
        c.terminal == TerminalV::Error("已中断"@) ==> title_of(task_card::stub_card(c)) == Some(
            "⏹ 已中断"@,
        ),
        c.terminal is Error && c.terminal->0 != "已中断"@ ==> title_of(task_card::stub_card(c)) == Some(
            "❌ 出错"@,
        ),
        says(
            task_card::stub_card(c),
            status::stub_text(
                c.tool_calls.len() as int,
                match c.terminal {
                    TerminalV::Error(e) => Some(e),
                    _ => None,
                },
            ),
        ),
        title_of(task_card::overflow_card(true)) == Some("✅ 已完成"@),
        title_of(task_card::overflow_card(false)) == Some("⚠️ 出错"@),
{
    lemma_names();
    let card = task_card::stub_card(c);
    let said = status::stub_text(c.tool_calls.len() as int, task_card::failure(c.terminal));
    lemma_no_button(said);
    assert(elements_of(card) == seq![parts::markdown_v(said)]);
    assert(elements_of(card)[0].str_at("content"@) == Some(said));
    let told = "输出超出卡片大小上限，完整内容已转为**文本消息**发送（见下方/相邻消息）。"@;
    lemma_card("✅ 已完成"@, "green"@, seq![parts::markdown_v(told)]);
    lemma_card("⚠️ 出错"@, "red"@, seq![parts::markdown_v(told)]);
}

// ---------------------------------------------------------------------------
// Further parts of a task's card
// ---------------------------------------------------------------------------

/// In a group the card of a task names, on top, who started it; in a private chat it does not.
pub proof fn law_starter_is_named_in_groups(
    c: OutboundV,
    conv: Seq<char>,
    who: Seq<char>,
    ts: int,
)
    requires
        who.len() > 0,
    ensures
        !conv::private_conv(conv) ==> elements_of(task_card::task_card(c, conv, Some(who), ts))[0].str_at(
            "content"@,
        ) == Some("<at id=\""@ + who + "\"></at> 发起的任务"@) && elements_of(
            task_card::init_card(conv, Some(who), ts),
        )[0].str_at("content"@) == Some("<at id=\""@ + who + "\"></at> 发起的任务"@),
        conv::private_conv(conv) ==> elements_of(task_card::task_card(c, conv, Some(who), ts))[0].str_at(
            "content"@,
        ) == Some(task_card::fit(task_card::card_text(c))),
{
    lemma_names();
    lemma_task_elements(c, conv, Some(who), ts);
    lemma_no_button("<at id=\""@ + who + "\"></at> 发起的任务"@);
    lemma_no_button(task_card::fit(task_card::card_text(c)));
}

/// A card is written to exactly while its task runs, and its preview says what the task is
/// doing. The colour of its title tells a task that is done from one that was stopped and from
/// one that failed.
pub proof fn law_card_is_written_while_the_task_runs(
    c: OutboundV,
    conv: Seq<char>,
    sender: Option<Seq<char>>,
    ts: int,
)
    ensures
        ({
            let card = task_card::task_card(c, conv, sender, ts);
            let colour = card.at("header"@).str_at("template"@);
            &&& card.at("config"@).at("streaming_mode"@) == JsonV::Bool(c.terminal is Running)
            &&& c.terminal is Running ==> card.at("config"@).at("summary"@).str_at("content"@) == Some(
                status::phase_text(c.phase),
            )
            &&& c.terminal is Done ==> colour == Some("green"@)
            &&& c.terminal == TerminalV::Error("已中断"@) ==> colour == Some("grey"@)
            &&& c.terminal is Error && c.terminal->0 != "已中断"@ ==> colour == Some("red"@)
        }),
        task_card::init_card(conv, sender, ts).at("config"@).at("streaming_mode"@) == JsonV::Bool(true),
{
    lemma_names();
    reveal_strlit("streaming_mode");
    reveal_strlit("summary");
    assert("streaming_mode"@.len() == 14 && "summary"@.len() == 7);
}

/// A card shows every use of a tool and the latest thoughts, each in a panel that tells how many
/// there were; once the task has ended, also how often each tool was used.
#[verifier::rlimit(50)]
pub proof fn law_card_shows_tools_and_thoughts(
    c: OutboundV,
    conv: Seq<char>,
    sender: Option<Seq<char>>,
    ts: int,
)
    ensures
        c.tool_calls.len() > 0 ==> shows(
            task_card::task_card(c, conv, sender, ts),
            parts::small_v(task_card::tool_panel_text(c.tool_calls)),
        ),
        c.thoughts.len() > 0 ==> shows(
            task_card::task_card(c, conv, sender, ts),
            parts::small_v(task_card::thought_panel_text(task_card::latest(c.thoughts, 5))),
        ),
        c.tool_calls.len() > 0 && !(c.terminal is Running) ==> says(
            task_card::task_card(c, conv, sender, ts),
            "🔧 工具 "@ + digits::dec(c.tool_calls.len() as int) + " 次："@ + status::tool_stats(
                c.tool_calls,
            ),
        ),
{
    lemma_names();
    lemma_task_elements(c, conv, sender, ts);
    let card = task_card::task_card(c, conv, sender, ts);
    let es = task_card::card_elements(c, conv, sender, ts);
    let m = task_card::anchor_section(conv, sender).len() as int;
    let t = task_card::tool_section(c);
    let h = task_card::thought_section(c);
    let border = task_card::card_border(c);
    if c.tool_calls.len() > 0 {
        let text = task_card::tool_panel_text(c.tool_calls);
        let panel = task_card::tool_panel_v(c.tool_calls, border);
        let k = m + 1 + t.len() - 1;
        assert(t[t.len() - 1] == panel);
        assert(es[k] == panel);
        assert(panel.at("elements"@).elements() == seq![parts::small_v(text)]);
        assert(stands_beside(panel.at("elements"@).elements()[0], parts::small_v(text)));
        assert(stands_in(elements_of(card)[k], parts::small_v(text)));
        if !(c.terminal is Running) {
            let said = "🔧 工具 "@ + digits::dec(c.tool_calls.len() as int) + " 次："@ + status::tool_stats(
                c.tool_calls,
            );
            lemma_no_button(said);
            assert(t[1] == parts::small_v(said));
            assert(es[m + 2] == parts::small_v(said));
            assert(elements_of(card)[m + 2].str_at("content"@) == Some(said));
        }
    }
    if c.thoughts.len() > 0 {
        let text = task_card::thought_panel_text(task_card::latest(c.thoughts, 5));
        let panel = task_card::thought_panel_v(c.thoughts, border);
        let k = m + 1 + t.len();
        assert(h == seq![panel]);
        assert(es[k] == panel);
        assert(panel.at("elements"@).elements() == seq![parts::small_v(text)]);
        assert(stands_beside(panel.at("elements"@).elements()[0], parts::small_v(text)));
        assert(stands_in(elements_of(card)[k], parts::small_v(text)));
    }
}

/// Of several questions each is written out above its field: its number, its name, the question
/// itself, and each of its options with what it means.
pub proof fn law_several_questions_are_written_out(
    q: JsonV,
    i: int,
    head: Seq<char>,
    question: Seq<char>,
    k: int,
    meaning: Seq<char>,
)
    requires
        0 <= i,
        q.str_at("header"@) == Some(head),
        !text::blank(head),
        q.str_at("question"@) == Some(question),
        forall|n: int|
            0 <= n < q.at("options"@).elements().len() ==> (#[trigger] q.at("options"@).elements()[n]).str_at(
                "label"@,
            ) is Some && text::trim(q.at("options"@).elements()[n].str_at("label"@)->0).len() > 0,
        0 <= k < q.at("options"@).elements().len(),
        text::trim(meaning).len() <= 60,
        !text::blank(meaning),
    ensures
        ask_card::question_lines(q, i)[0] == "**"@ + digits::dec(i + 1) + ". "@ + text::trim(head) + "** — "@
            + text::trim(question),
        q.at("options"@).elements()[k].str_at("description"@) == Some(meaning)
            ==> ask_card::question_lines(q, i)[k + 1] == "- **"@ + text::trim(
            q.at("options"@).elements()[k].str_at("label"@)->0,
        ) + "**："@ + text::trim(meaning),
        q.at("options"@).elements()[k].str_at("description"@) is None ==> ask_card::question_lines(q, i)[k
            + 1] == "- **"@ + text::trim(q.at("options"@).elements()[k].str_at("label"@)->0) + "**"@,
        ask_card::question_section(q, i)[0] == parts::markdown_v(
            markdown::escaped(
                markdown::masked(text::join(ask_card::question_lines(q, i), "\n"@)),
            ),
        ),
{
    let options = q.at("options"@).elements();
    assert forall|n: int| 0 <= n < options.len() implies (#[trigger] options[n]).str_at("label"@) is Some
        && text::trim(options[n].str_at("label"@)->0).len() > 0 by {
        assert(q.at("options"@).elements()[n].str_at("label"@) is Some);
    }
    lemma_kept(options);
}

/// A click more than a day after its card was made hands nothing on, whoever makes it, on
/// whatever button of a question or with a command.
pub proof fn law_old_buttons_are_dead(
    evt: CardActionEventV,
    value: JsonV,
    act: Seq<char>,
    conv: Seq<char>,
    req: Seq<char>,
    sender: Option<Seq<char>>,
    ts: i64,
    now: int,
)
    requires
        clicks::clicked(evt, value),
        text::begins(conv, "feishu:"@),
        evt.operator.who() is Some,
        now - ts > 86400,
    ensures
        value == ask_card::perm_value(act, conv, req, sender, ts as int) ==> turned_away(
            card_action::card_action(evt, now),
        ),
        value == ask_card::choice_value(act, conv, req, sender, ts as int) ==> turned_away(
            card_action::card_action(evt, now),
        ),
        value == ask_card::form_value(conv, req, sender, ts as int) ==> turned_away(
            card_action::card_action(evt, now),
        ),
        value == parts::cmd_value_v(conv, act, sender, ts as int) && text::begins(act, "/"@)
            ==> turned_away(card_action::card_action(evt, now)),
{
    reveal_strlit("⏳ 该按钮已过期（超过 24 小时），请重新发起。");
    if value == ask_card::perm_value(act, conv, req, sender, ts as int) {
        clicks::law_approval_click(evt, act, conv, req, sender, ts, now);
    }
    if value == ask_card::choice_value(act, conv, req, sender, ts as int) {
        clicks::law_choice_click(evt, act, conv, req, sender, ts, now);
    }
    if value == ask_card::form_value(conv, req, sender, ts as int) {
        clicks::law_answers_sent(evt, conv, req, sender, ts, now);
    }
    if value == parts::cmd_value_v(conv, act, sender, ts as int) && text::begins(act, "/"@) {
        clicks::law_command_click(evt, act, conv, sender, ts, now);
    }
}

/// What is to be approved is shown under the name of its tool, with what it is about; an input
/// that is no document is shown as it is.
pub proof fn law_what_is_to_be_approved(tool: Seq<char>, input: Seq<char>, summary: Seq<char>, v: JsonV)
    ensures
        tool != "Bash"@ && tool != "shell"@ && summary.len() > 0 ==> ask_card::detail_head(tool, summary)
            == "**"@ + tool + "** — "@ + markdown::escaped(summary),
        ask_card::detail_head("Bash"@, summary) == "**"@ + "Bash"@ + "**"@,
        ask_card::detail_head("shell"@, summary) == "**"@ + "shell"@ + "**"@,
        json::parsed_text(input) is None ==> ask_card::detail_raw(tool, input) == input,
        json::parsed_text(input) == Some(v) && v.str_at("command"@) is Some ==> Some(
            ask_card::detail_raw("shell"@, input),
        ) == v.str_at("command"@) && Some(ask_card::detail_raw("Bash"@, input)) == v.str_at("command"@),
        json::parsed_text(input) == Some(v) && v.str_at("command"@) is None ==> ask_card::detail_raw(
            "Bash"@,
            input,
        ) == input,
        json::parsed_text(input) == Some(v) && tool != "Bash"@ && tool != "shell"@
            ==> ask_card::detail_raw(tool, input) == json::json_string_pretty(v),
        text::begins(
            ask_card::detail_text(tool, input, summary),
            ask_card::detail_head(tool, summary),
        ),
        ask_card::detail_raw(tool, input).len() <= 1000 ==> ask_card::detail_shown(tool, input)
            == ask_card::detail_raw(tool, input),
        ask_card::detail_raw(tool, input).len() > 1000 ==> ask_card::detail_shown(tool, input)
            == ask_card::detail_raw(tool, input).subrange(0, 1000),
        text::contains(
            ask_card::detail_text(tool, input, summary),
            markdown::masked(ask_card::detail_shown(tool, input)),
        ),
{
    let all = ask_card::detail_text(tool, input, summary);
    let head = ask_card::detail_head(tool, summary);
    assert(all.subrange(0, head.len() as int) =~= head);
    let lang = if ask_card::is_shell(tool) {
        "bash"@
    } else {
        ""@
    };
    let front = head + "\n```"@ + lang + "\n"@;
    let said = markdown::masked(ask_card::detail_shown(tool, input));
    assert(all.subrange(front.len() as int, (front.len() + said.len()) as int) =~= said);
    assert(text::occurs_at(all, said, front.len() as int));
}

/// Whatever cannot be shown as a question is not: one without words, one without a labelled
/// option, and one among several that lacks either.
pub proof fn law_what_is_no_question(
    v: JsonV,
    conv: Seq<char>,
    req: Seq<char>,
    sender: Option<Seq<char>>,
    note: Seq<char>,
    ts: int,
    i: int,
)
    ensures
        v.at("questions"@) is Null ==> ask_card::question_card(v, conv, req, sender, note, ts) is None,
        v.at("questions"@).elements().len() > 0 && (match v.at("questions"@).elements()[0].str_at(
            "question"@,
        ) {
            Some(q) => text::trim(q).len() == 0,
            None => true,
        }) ==> ask_card::question_card(v, conv, req, sender, note, ts) is None,
        v.at("questions"@).elements().len() > 0 && ask_card::labels(
            v.at("questions"@).elements()[0].at("options"@).elements(),
        ).len() == 0 ==> ask_card::question_card(v, conv, req, sender, note, ts) is None,
        0 <= i < v.at("questions"@).elements().len() && v.at("questions"@).elements().len() > 1 && v.at(
            "questions"@,
        ).elements()[i].str_at("question"@) is None ==> ask_card::question_card(
            v,
            conv,
            req,
            sender,
            note,
            ts,
        ) is None,
{
    if v.at("questions"@).elements().len() > 0 {
        assert(ask_card::first_question(v) == Some(v.at("questions"@).elements()[0]));
        if 0 <= i < v.at("questions"@).elements().len() && v.at("questions"@).elements()[i].str_at(
            "question"@,
        ) is None {
            assert(!ask_card::question_ok(v.at("questions"@).elements()[i]));
        }
    }
}

/// A question among several that has no header is called by its beginning.
pub proof fn law_question_without_header(q: JsonV, question: Seq<char>)
    requires
        q.at("header"@) is Null,
    ensures
        question.len() <= 10 ==> ask_card::question_name(q, question) == question,
        question.len() > 10 ==> ask_card::question_name(q, question) == question.subrange(0, 10),
{
}

} // verus!
