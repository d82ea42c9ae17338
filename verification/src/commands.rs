//! What somebody sees on a card with commands or settings, and what comes of clicking it.
use vstd::prelude::*;

use crate::card_action;
use crate::clicks;
use crate::command_card;
use crate::events::CardActionEventV;
use crate::json::JsonV;
use crate::markdown;
use crate::model::{CardButtonStyle, CardButtonV, ConfigFieldV};
use crate::parts;
use crate::shown;
use crate::text;

verus! {

// ---------------------------------------------------------------------------
// Commands
// ---------------------------------------------------------------------------

/// A click on a button with a command, within a day, gives that command, whoever makes it; the
/// button shows its own label, and asks back where it can do damage, and only there.
pub proof fn law_command_means_what_it_says(
    button: CardButtonV,
    conv: Seq<char>,
    ts: i64,
    evt: CardActionEventV,
    who: Seq<char>,
    now: int,
)
    requires
        text::begins(button.command, "/"@),
        text::begins(conv, "feishu:"@),
        shown::clicks_in_time(
            evt,
            command_card::command_button(button, conv, ts as int),
            who,
            ts as int,
            now,
        ),
    ensures
        shown::label(command_card::command_button(button, conv, ts as int)) == Some(button.label),
        shown::hands_on(card_action::card_action(evt, now), conv, who, button.command, None),
        command_card::command_button(button, conv, ts as int).has("confirm"@) <==> button.style
            == CardButtonStyle::Danger,
{
    shown::lemma_names();
    let value = parts::cmd_value_v(conv, button.command, None, ts as int);
    shown::lemma_button(button.label, command_card::style_name(button.style), value);
    clicks::law_command_click(evt, button.command, conv, None, ts, now);
    shown::lemma_command_without_request(conv, button.command, None, ts as int);
}

proof fn lemma_placed(rows: Seq<command_card::Row>, buttons: Seq<CardButtonV>, sessions: bool, i: int)
    requires
        command_card::placed(rows, buttons, sessions, i),
    ensures
        exists|r: int|
            0 <= r < rows.len() && command_card::row_buttons(buttons, #[trigger] rows[r], sessions).contains(
                i,
            ),
    decreases rows.len(),
{
    if command_card::row_buttons(buttons, rows.last(), sessions).contains(i) {
        assert(command_card::row_buttons(buttons, rows[rows.len() - 1], sessions).contains(i));
    } else {
        lemma_placed(rows.drop_last(), buttons, sessions, i);
        let r = choose|r: int|
            0 <= r < rows.drop_last().len() && command_card::row_buttons(
                buttons,
                #[trigger] rows.drop_last()[r],
                sessions,
            ).contains(i);
        assert(rows[r] == rows.drop_last()[r]);
    }
}

proof fn lemma_two_sides(left: Seq<JsonV>, right: Seq<JsonV>)
    ensures
        command_card::two_sides_v(left, right).at("columns"@).elements().len() == 2,
        command_card::two_sides_v(left, right).at("columns"@).elements()[0].at("elements"@).elements()
            == left,
        command_card::two_sides_v(left, right).at("columns"@).elements()[1].at("elements"@).elements()
            == right,
{
    shown::lemma_names();
    reveal_strlit("vertical_align");
    assert("vertical_align"@.len() == 14);
}

/// Every button of a card with commands is on the card, wherever it is put: beside the row of
/// a table that it belongs to, or below the text.
#[verifier::rlimit(50)]
pub proof fn law_every_command_is_shown(
    title: Seq<char>,
    body_md: Seq<char>,
    buttons: Seq<CardButtonV>,
    conv: Seq<char>,
    ts: int,
    i: int,
)
    requires
        0 <= i < buttons.len(),
    ensures
        shown::shows(
            command_card::command_card(title, body_md, buttons, conv, ts),
            command_card::command_button(buttons[i], conv, ts),
        ),
{
    let b = command_card::command_button(buttons[i], conv, ts);
    let es = command_card::command_elements(body_md, buttons, conv, ts);
    let card = command_card::command_card(title, body_md, buttons, conv, ts);
    shown::lemma_card(
        if text::blank(title) {
            "imagent"@
        } else {
            title
        },
        "blue"@,
        es,
    );
    assert(shown::elements_of(card) == es);
    match command_card::paired_elements(body_md, buttons, conv, ts) {
        None => {
            let all = command_card::command_buttons(buttons, conv, ts);
            shown::lemma_row(all);
            assert(all[i] == b);
            assert(es[es.len() - 1] == parts::flow_row_v(all));
            assert(shown::stands_in(shown::elements_of(card)[es.len() - 1], all[i]));
        },
        Some(_) => {
            let all = command_card::table(body_md)->0;
            let rows = all.subrange(1, all.len() as int);
            let sessions = command_card::all_take_over(buttons);
            let paired = command_card::paired_rows(rows, buttons, sessions, conv, ts);
            let left = command_card::loose_buttons(rows, buttons, sessions, conv, ts, buttons.len());
            command_card::law_no_button_lost(rows, buttons, sessions, conv, ts, buttons.len(), i);
            if command_card::placed(rows, buttons, sessions, i) {
                lemma_placed(rows, buttons, sessions, i);
                let r = choose|r: int|
                    0 <= r < rows.len() && command_card::row_buttons(
                        buttons,
                        #[trigger] rows[r],
                        sessions,
                    ).contains(i);
                command_card::law_every_row_once(rows, buttons, sessions, conv, ts);
                let which = command_card::row_buttons(buttons, rows[r], sessions);
                let pair = command_card::paired_row(rows[r], buttons, sessions, conv, ts);
                assert(paired.contains(pair));
                let k = choose|k: int| 0 <= k < paired.len() && paired[k] == pair;
                assert(es[k] == pair);
                let right = command_card::picked(buttons, which, conv, ts);
                lemma_two_sides(
                    if sessions {
                        command_card::session_left(rows[r])
                    } else {
                        command_card::workspace_left(rows[r])
                    },
                    right,
                );
                let m = choose|m: int| 0 <= m < which.len() && which[m] == i;
                assert(right[m] == b);
                assert(b == pair.at("columns"@).elements()[1].at("elements"@).elements()[m]);
                assert(shown::stands_beside(pair, b));
                assert(shown::stands_in(shown::elements_of(card)[k], b));
            } else {
                assert(left.contains(b));
                let m = choose|m: int| 0 <= m < left.len() && left[m] == b;
                shown::lemma_row(left);
                assert(es[es.len() - 1] == parts::flow_row_v(left));
                assert(shown::stands_in(shown::elements_of(card)[es.len() - 1], left[m]));
            }
        },
    }
}

/// A card with commands has the title that it is given, or else the name of the bot.
pub proof fn law_command_card_is_titled(
    title: Seq<char>,
    body_md: Seq<char>,
    buttons: Seq<CardButtonV>,
    conv: Seq<char>,
    ts: int,
)
    ensures
        !text::blank(title) ==> shown::title_of(
            command_card::command_card(title, body_md, buttons, conv, ts),
        ) == Some(title),
        text::blank(title) ==> shown::title_of(
            command_card::command_card(title, body_md, buttons, conv, ts),
        ) == Some("imagent"@),
{
    shown::lemma_card(
        if text::blank(title) {
            "imagent"@
        } else {
            title
        },
        "blue"@,
        command_card::command_elements(body_md, buttons, conv, ts),
    );
}

/// A button that uses or deletes a workspace belongs to the row of that workspace and to no
/// other; one that takes a session over, to the row with its number.
pub proof fn law_button_belongs_to_its_row(
    button: CardButtonV,
    name: Seq<char>,
    key: Seq<char>,
)
    ensures
        button.label == "使用 "@ + name ==> (command_card::belongs(button, key, false) <==> key == name),
        button.label == "删除 "@ + name ==> (command_card::belongs(button, key, false) <==> key == name),
        button.label == "接管 "@ + name && crate::digits::parse_usize(name) is Some ==> (
        command_card::belongs(button, key, true) <==> key == crate::digits::dec(
            crate::digits::parse_usize(name)->0 as int,
        )),
{
    text::lemma_after_own_prefix("使用 "@, name);
    text::lemma_after_own_prefix("删除 "@, name);
    text::lemma_after_own_prefix("接管 "@, name);
    reveal_strlit("使用 ");
    reveal_strlit("删除 ");
    let s = "删除 "@ + name;
    assert(s.subrange(0, 3) =~= "删除 "@);
    assert("使用 "@[0] == '使' && "删除 "@[0] == '删');
    if text::begins(s, "使用 "@) {
        assert(s.subrange(0, 3)[0] == "使用 "@[0]);
    }
}

proof fn lemma_belonging(
    buttons: Seq<CardButtonV>,
    key: Seq<char>,
    sessions: bool,
    n: nat,
    i: int,
)
    requires
        n <= buttons.len(),
    ensures
        command_card::belonging(buttons, key, sessions, n).contains(i) <==> 0 <= i < n
            && command_card::belongs(buttons[i], key, sessions),
    decreases n,
{
    let all = command_card::belonging(buttons, key, sessions, n);
    if n > 0 {
        lemma_belonging(buttons, key, sessions, (n - 1) as nat, i);
        let before = command_card::belonging(buttons, key, sessions, (n - 1) as nat);
        if command_card::belongs(buttons[n - 1], key, sessions) {
            assert(all == before.push(n - 1));
            if i == n - 1 {
                assert(all[all.len() - 1] == i);
            }
            if before.contains(i) {
                let k = choose|k: int| 0 <= k < before.len() && before[k] == i;
                assert(all[k] == i);
            }
            if all.contains(i) && i != n - 1 {
                let k = choose|k: int| 0 <= k < all.len() && all[k] == i;
                assert(before[k] == i);
            }
        }
    }
}

/// Beside the row of a workspace stand all buttons that belong to it, and only those.
pub proof fn law_row_has_its_buttons(
    buttons: Seq<CardButtonV>,
    row: command_card::Row,
    i: int,
)
    requires
        0 <= i < buttons.len(),
    ensures
        command_card::row_buttons(buttons, row, false).contains(i) <==> command_card::belongs(
            buttons[i],
            text::trim(row[0]),
            false,
        ),
        command_card::row_buttons(buttons, row, true).contains(i) ==> command_card::belongs(
            buttons[i],
            text::trim(row[0]),
            true,
        ),
        command_card::row_buttons(buttons, row, true).len() <= 1,
{
    let key = text::trim(row[0]);
    lemma_belonging(buttons, key, false, buttons.len(), i);
    lemma_belonging(buttons, key, true, buttons.len(), i);
    let all = command_card::belonging(buttons, key, true, buttons.len());
    if all.len() > 1 && command_card::row_buttons(buttons, row, true).contains(i) {
        assert(all.subrange(0, 1)[0] == all[0]);
        assert(all[0] == i);
    }
}

/// What a row says of a session is where it comes from, when it was and what it was about; of
/// a workspace, its name and where it is.
pub proof fn law_rows_say_what_the_table_says(
    no: Seq<char>,
    mark: Seq<char>,
    time: Seq<char>,
    about: Seq<char>,
)
    requires
        mark.len() > 0,
        time.len() > 0,
        about.len() > 0,
    ensures
        mark == "💻"@ ==> command_card::session_parts(seq![no, mark, time, about]) == seq![
            "💻 本机"@,
            time,
            about,
        ],
        mark == "📱"@ ==> command_card::session_parts(seq![no, mark, time, about]) == seq![
            "📱 IM"@,
            time,
            about,
        ],
        mark != "💻"@ && mark != "📱"@ ==> command_card::session_parts(seq![no, mark, time, about])
            == seq![mark, time, about],
        command_card::workspace_left(seq![no, about]) == seq![
            parts::markdown_v("**"@ + text::trim(no) + "**\n"@ + about),
        ],
{
    reveal_strlit("💻");
    reveal_strlit("📱");
    assert("💻"@[0] == '💻' && "📱"@[0] == '📱');
    let row = seq![no, mark, time, about];
    assert(command_card::cell(row, 1) =~= seq![mark]);
    assert(command_card::session_parts(row) =~= seq![command_card::source(mark), time, about]);
}

/// The rows of a table are those of the text, in their order, without the line below its head.
pub proof fn law_table_rows_in_order(ls: Seq<Seq<char>>, line: Seq<char>)
    ensures
        command_card::is_row(line) && !command_card::is_separator(command_card::cells(line))
            ==> command_card::raw_rows(ls.push(line)) == command_card::raw_rows(ls).push(
            command_card::cells(line),
        ),
        !command_card::is_row(line) || command_card::is_separator(command_card::cells(line))
            ==> command_card::raw_rows(ls.push(line)) == command_card::raw_rows(ls),
{
    assert(ls.push(line).drop_last() =~= ls);
}

/// The cells of a row stand between its bars, without white space around them.
pub proof fn law_cells_stand_between_bars(a: Seq<char>, b: Seq<char>)
    requires
        a.len() > 0,
        b.len() > 0,
        !a.contains('|'),
        !b.contains('|'),
    ensures
        command_card::is_row("|"@ + a + "|"@ + b + "|"@),
        command_card::cells("|"@ + a + "|"@ + b + "|"@) == seq![text::trim(a), text::trim(b)],
{
    reveal_strlit("|");
    assert("|"@ =~= seq!['|']);
    let line = "|"@ + a + "|"@ + b + "|"@;
    assert(line[0] == '|' && line.last() == '|');
    assert(text::trim(line) == line);
    assert(line.subrange(0, 1) =~= "|"@);
    let open = line.drop_first();
    assert(open =~= a + "|"@ + b + "|"@);
    assert(open[0] == a[0]);
    assert(a.contains(a[0]) && b.contains(b.last()));
    assert(text::strip_start(line, '|') == open) by {
        reveal_with_fuel(text::strip_start, 2);
    }
    let inner = open.drop_last();
    assert(inner =~= a + "|"@ + b);
    assert(open.last() == '|' && inner.last() == b.last());
    assert(text::strip_end(open, '|') == inner) by {
        reveal_with_fuel(text::strip_end, 2);
    }
    assert forall|k: int| 0 <= k < a.len() implies #[trigger] inner[k] != '|' by {
        assert(inner[k] == a[k]);
        assert(a.contains(a[k]));
    }
    assert(inner[a.len() as int] == '|');
    text::lemma_position_at(inner, '|', a.len() as int);
    assert(inner.subrange(0, a.len() as int) =~= a);
    assert(inner.subrange(a.len() as int + 1, inner.len() as int) =~= b);
    assert(text::position(b, '|') >= b.len()) by {
        text::lemma_position(b, '|');
        if text::position(b, '|') < b.len() {
            assert(b.contains(b[text::position(b, '|')]));
        }
    }
    assert(text::split(b, '|') == seq![b]);
    assert(text::split(inner, '|') =~= seq![a, b]);
    assert(command_card::cells(line) =~= seq![text::trim(a), text::trim(b)]);
}

/// A text of one line is shown as it stands, made fit for a card.
pub proof fn law_line_is_shown(line: Seq<char>)
    ensures
        command_card::block_elements(seq![line]) == seq![
            parts::markdown_v(markdown::escaped(markdown::masked(line))),
        ],
{
    assert(text::join(seq![line], "\n"@) == line);
}

/// The blocks of a text are shown in their order.
pub proof fn law_blocks_in_order(blocks: Seq<Seq<char>>, block: Seq<char>)
    ensures
        text::blank(block) ==> command_card::blocks_elements(blocks.push(block))
            == command_card::blocks_elements(blocks),
        !text::blank(block) ==> command_card::blocks_elements(blocks.push(block))
            == command_card::blocks_elements(blocks) + command_card::block_elements(text::lines(block)),
{
    assert(blocks.push(block).drop_last() =~= blocks);
}

/// Where there are no cards, every command is told with its label, in order, behind the title
/// and the text.
pub proof fn law_commands_in_words(
    title: Seq<char>,
    body_md: Seq<char>,
    buttons: Seq<CardButtonV>,
    button: CardButtonV,
)
    ensures
        command_card::command_text(title, body_md, Seq::empty()) == title + "\n\n"@ + body_md,
        command_card::command_text(title, body_md, seq![button]) == title + "\n\n"@ + body_md + "\n"@ + (
        "\n"@ + button.label + "："@ + button.command),
        buttons.len() > 0 ==> command_card::command_text(title, body_md, buttons.push(button))
            == command_card::command_text(title, body_md, buttons) + ("\n"@ + button.label + "："@
            + button.command),
{
    assert(buttons.push(button).drop_last() =~= buttons);
    assert(seq![button].drop_last() =~= Seq::<CardButtonV>::empty());
    let own = "\n"@ + button.label + "："@ + button.command;
    assert(command_card::command_lines(buttons.push(button)) =~= command_card::command_lines(buttons)
        + own);
    assert(command_card::command_lines(seq![button]) =~= own) by {
        reveal_with_fuel(command_card::command_lines, 2);
    }
    assert(command_card::command_text(title, body_md, buttons.push(button)) =~= title + "\n\n"@ + body_md
        + "\n"@ + command_card::command_lines(buttons) + own);
}

// ---------------------------------------------------------------------------
// Settings
// ---------------------------------------------------------------------------

/// Sending off the form with the settings gives the command that sets them, with every setting
/// that was chosen.
pub proof fn law_settings_are_sent(
    evt: CardActionEventV,
    conv: Seq<char>,
    who: Seq<char>,
    now: int,
    mode: Seq<char>,
    detail: Seq<char>,
    mention: Seq<char>,
)
    requires
        clicks::clicked(evt, command_card::config_value(conv)),
        text::begins(conv, "feishu:"@),
        evt.operator.who() == Some(who),
    ensures
        evt.action.at("form_value"@).str_at("reply_mode"@) == Some(mode) && evt.action.at(
            "form_value"@,
        ).str_at("cot_detail"@) == Some(detail) && evt.action.at("form_value"@).str_at(
            "require_mention"@,
        ) == Some(mention) ==> shown::hands_on(
            card_action::card_action(evt, now),
            conv,
            who,
            "/config form "@ + ("reply_mode"@ + "="@ + mode + " "@ + ("cot_detail"@ + "="@ + detail) + " "@
                + ("require_mention"@ + "="@ + mention)),
            None,
        ),
        evt.action.at("form_value"@).str_at("reply_mode"@) is None && evt.action.at(
            "form_value"@,
        ).str_at("cot_detail"@) == Some(detail) && evt.action.at("form_value"@).str_at(
            "require_mention"@,
        ) is None ==> shown::hands_on(
            card_action::card_action(evt, now),
            conv,
            who,
            "/config form "@ + ("cot_detail"@ + "="@ + detail),
            None,
        ),
{
    clicks::law_settings_sent(evt, conv, now);
    reveal_strlit("imagent_form");
    reveal_strlit("conv");
    reveal_strlit("req");
    assert("imagent_form"@.len() == 12 && "conv"@.len() == 4 && "req"@.len() == 3);
    let a = "reply_mode"@ + "="@ + mode;
    let b = "cot_detail"@ + "="@ + detail;
    let c = "require_mention"@ + "="@ + mention;
    let form = evt.action.at("form_value"@);
    if form.str_at("reply_mode"@) == Some(mode) && form.str_at("cot_detail"@) == Some(detail)
        && form.str_at("require_mention"@) == Some(mention) {
        let pairs = card_action::setting(form, "reply_mode"@) + card_action::setting(form, "cot_detail"@)
            + card_action::setting(form, "require_mention"@);
        assert(pairs =~= seq![a, b, c]);
        assert(text::join(seq![a, b, c], " "@) == a + " "@ + b + " "@ + c) by {
            assert(seq![a, b, c].drop_last() =~= seq![a, b]);
            assert(seq![a, b].drop_last() =~= seq![a]);
            reveal_with_fuel(text::join, 4);
        }
    }
    if form.str_at("reply_mode"@) is None && form.str_at("cot_detail"@) == Some(detail)
        && form.str_at("require_mention"@) is None {
        let pairs = card_action::setting(form, "reply_mode"@) + card_action::setting(form, "cot_detail"@)
            + card_action::setting(form, "require_mention"@);
        assert(pairs =~= seq![b]);
    }
}

#[verifier::rlimit(50)]
proof fn lemma_setting_fields(entries: Seq<ConfigFieldV>, i: int)
    requires
        0 <= i < entries.len(),
    ensures
        command_card::setting_fields(entries).len() == 2 * entries.len(),
        command_card::setting_fields(entries).subrange(2 * i, 2 * i + 2) == command_card::setting_field(
            entries[i],
        ),
    decreases entries.len(),
{
    let before = command_card::setting_fields(entries.drop_last());
    let all = command_card::setting_fields(entries);
    if entries.len() > 1 {
        lemma_setting_fields(entries.drop_last(), 0);
    }
    if i < entries.len() - 1 {
        lemma_setting_fields(entries.drop_last(), i);
        assert(all.subrange(2 * i, 2 * i + 2) =~= before.subrange(2 * i, 2 * i + 2));
    } else {
        assert(all.subrange(2 * i, 2 * i + 2) =~= command_card::setting_field(entries.last()));
    }
}

/// Every setting has its own field on the card with the settings, which shows what it is set
/// to and offers all that it can be set to; one button sends them off.
#[verifier::rlimit(50)]
pub proof fn law_every_setting_is_offered(entries: Seq<ConfigFieldV>, conv: Seq<char>, i: int)
    requires
        0 <= i < entries.len(),
    ensures
        exists|f: JsonV|
            #[trigger] shown::shows(command_card::config_card(entries, conv), f) && f.str_at("name"@)
                == Some(entries[i].key) && f.str_at("initial_option"@) == Some(entries[i].current)
                && f.at("options"@).elements().len() == entries[i].options.len() && forall|k: int|
                0 <= k < entries[i].options.len() ==> (#[trigger] f.at("options"@).elements()[k]).at(
                    "text"@,
                ).str_at("content"@) == Some(entries[i].options[k].1) && f.at("options"@).elements()[k].str_at(
                    "value"@,
                ) == Some(entries[i].options[k].0),
        exists|f: JsonV|
            #[trigger] shown::shows(command_card::config_card(entries, conv), f) && f.str_at(
                "content"@,
            ) == Some("**"@ + entries[i].label + "**"@),
        exists|b: JsonV|
            #[trigger] shown::shows(command_card::config_card(entries, conv), b) && shown::label(b)
                == Some("提交"@) && shown::carried(b) == command_card::config_value(conv),
{
    shown::lemma_names();
    reveal_strlit("initial_option");
    reveal_strlit("summary");
    assert("initial_option"@.len() == 14 && "summary"@.len() == 7);
    let card = command_card::config_card(entries, conv);
    let form = command_card::config_form(entries, conv);
    let b = parts::submit_button_v("提交"@, command_card::config_value(conv));
    shown::lemma_button("提交"@, "primary"@, command_card::config_value(conv));
    shown::lemma_row(seq![b]);
    let fields = command_card::setting_fields(entries);
    let inner = form.at("elements"@).elements();
    assert(inner == fields + seq![parts::line_v(), parts::flow_row_v(seq![b])]);
    assert(shown::elements_of(card)[2] == form);
    lemma_setting_fields(entries, i);
    let own = command_card::setting_field(entries[i]);
    assert(inner[2 * i] == own[0]) by {
        assert(fields.subrange(2 * i, 2 * i + 2)[0] == own[0]);
    }
    assert(inner[2 * i + 1] == own[1]) by {
        assert(fields.subrange(2 * i, 2 * i + 2)[1] == own[1]);
    }
    let n = 2 * entries.len() as int;
    assert(inner[n + 1] == parts::flow_row_v(seq![b]));
    assert(parts::flow_row_v(seq![b]).at("columns"@).elements()[0].at("elements"@).elements()[0] == b);
    assert(shown::stands_beside(form.at("elements"@).elements()[n + 1], b));
    assert(shown::stands_in(shown::elements_of(card)[2], b));
    assert(shown::shows(card, b));
    let f = own[1];
    assert(shown::stands_beside(form.at("elements"@).elements()[2 * i + 1], f));
    assert(shown::stands_in(shown::elements_of(card)[2], f));
    assert(shown::shows(card, f));
    let offered = f.at("options"@).elements();
    assert(offered =~= command_card::setting_options(entries[i].options));
    let l = own[0];
    assert(shown::stands_beside(form.at("elements"@).elements()[2 * i], l));
    assert(shown::stands_in(shown::elements_of(card)[2], l));
    assert(shown::shows(card, l));
    shown::lemma_no_button("**"@ + entries[i].label + "**"@);
}

/// A table has as many rows as the text, its head first, each cut or filled to the width of the
/// head; without a row below its head there is none.
pub proof fn law_table_is_complete(body_md: Seq<char>, i: int, k: int)
    requires
        0 <= i < command_card::raw_rows(text::lines(body_md)).len(),
        0 <= k < command_card::raw_rows(text::lines(body_md))[0].len(),
    ensures
        ({
            let rows = command_card::raw_rows(text::lines(body_md));
            &&& rows.len() >= 2 ==> command_card::table(body_md) is Some && command_card::table(body_md)->0.len()
                == rows.len() && command_card::table(body_md)->0[i].len() == rows[0].len()
                && command_card::table(body_md)->0[i][k] == (if k < rows[i].len() {
                rows[i][k]
            } else {
                Seq::empty()
            })
            &&& rows.len() < 2 ==> command_card::table(body_md) is None
        }),
{
}

/// The rows that have no button are written below the others as a table, row by row.
pub proof fn law_loose_rows_in_order(rows: Seq<command_card::Row>, row: command_card::Row)
    ensures
        command_card::rows_text(rows.push(row)) == command_card::rows_text(rows) + "|"@ + text::join(
            row,
            "|"@,
        ) + "|\n"@,
        command_card::rows_text(Seq::empty()).len() == 0,
{
    assert(rows.push(row).drop_last() =~= rows);
}

/// A line that heads what follows it stands out; what is a list, a table or a heading of its
/// own stays together.
pub proof fn law_heading_lines_stand_out(line: Seq<char>, rest: Seq<Seq<char>>)
    requires
        rest.len() > 0,
    ensures
        !text::begins(line, "- "@) && !text::begins(line, "|"@) && !text::begins(line, "#"@)
            ==> command_card::block_elements(seq![line] + rest) == seq![command_card::heading_v(line)]
            + command_card::block_elements(rest),
        text::begins(line, "- "@) || text::begins(line, "|"@) || text::begins(line, "#"@)
            ==> command_card::block_elements(seq![line] + rest) == seq![
            parts::markdown_v(
                markdown::escaped(markdown::masked(text::join(seq![line] + rest, "\n"@))),
            ),
        ],
        command_card::heading_v(line).str_at("content"@) == Some(line),
{
    shown::lemma_names();
    assert((seq![line] + rest).drop_first() =~= rest);
}

/// Where the text holds no table, a card shows the text and below it all buttons in their
/// order.
pub proof fn law_buttons_below_the_text(
    body_md: Seq<char>,
    buttons: Seq<CardButtonV>,
    conv: Seq<char>,
    ts: int,
)
    requires
        command_card::table(body_md) is None,
        buttons.len() > 0,
    ensures
        ({
            let es = command_card::command_elements(body_md, buttons, conv, ts);
            let row = es.last().at("columns"@).elements();
            &&& es.len() == command_card::text_elements(body_md).len() + 2
            &&& forall|i: int|
                0 <= i < es.len() - 2 ==> #[trigger] es[i] == command_card::text_elements(body_md)[i]
            &&& row.len() == buttons.len()
            &&& forall|i: int|
                0 <= i < buttons.len() ==> (#[trigger] row[i]).at("elements"@).elements() == seq![
                    command_card::command_button(buttons[i], conv, ts),
                ]
        }),
{
    let all = command_card::command_buttons(buttons, conv, ts);
    shown::lemma_row(all);
    let es = command_card::command_elements(body_md, buttons, conv, ts);
    assert(es.last() == parts::flow_row_v(all));
    let row = es.last().at("columns"@).elements();
    assert forall|i: int| 0 <= i < buttons.len() implies (#[trigger] row[i]).at("elements"@).elements()
        == seq![command_card::command_button(buttons[i], conv, ts)] by {
        assert(parts::flow_row_v(all).at("columns"@).elements()[i].at("elements"@).elements() == seq![
            all[i],
        ]);
    }
}

/// A button looks as it was made: plain, or standing out, or as one that does damage; what asks
/// back says what is about to be done.
pub proof fn law_buttons_look_as_made(button: CardButtonV, conv: Seq<char>, ts: int)
    ensures
        ({
            let b = command_card::command_button(button, conv, ts);
            &&& button.style == CardButtonStyle::Default ==> b.str_at("type"@) == Some("default"@)
            &&& button.style == CardButtonStyle::Primary ==> b.str_at("type"@) == Some("primary"@)
            &&& button.style == CardButtonStyle::Danger ==> b.str_at("type"@) == Some("danger"@) && b.at(
                "confirm"@,
            ).at("text"@).str_at("content"@) == Some(
                "将执行「"@ + button.command + "」，该操作可能删除/覆盖数据，确认吗？"@,
            )
        }),
{
    shown::lemma_names();
}

/// A row that has buttons is shown with what it says; the others are written below as a table
/// under the same head.
#[verifier::rlimit(50)]
pub proof fn law_all_rows_are_shown(
    title: Seq<char>,
    body_md: Seq<char>,
    buttons: Seq<CardButtonV>,
    conv: Seq<char>,
    ts: int,
    r: int,
)
    requires
        command_card::paired_elements(body_md, buttons, conv, ts) is Some,
        1 <= r < command_card::table(body_md)->0.len(),
    ensures
        ({
            let all = command_card::table(body_md)->0;
            let rows = all.subrange(1, all.len() as int);
            let sessions = command_card::all_take_over(buttons);
            let card = command_card::command_card(title, body_md, buttons, conv, ts);
            let loose = command_card::loose_rows(rows, buttons, sessions);
            &&& command_card::row_buttons(buttons, all[r], sessions).len() > 0 && !sessions
                ==> shown::shows(
                card,
                parts::markdown_v(
                    "**"@ + text::trim(all[r][0]) + "**\n"@ + (if all[r].len() > 1 {
                        all[r][1]
                    } else {
                        Seq::empty()
                    }),
                ),
            )
            &&& command_card::row_buttons(buttons, all[r], sessions).len() > 0 && sessions
                && command_card::session_parts(all[r]).len() > 0 ==> shown::shows(
                card,
                parts::markdown_v(text::join(command_card::session_parts(all[r]), " · "@)),
            )
            &&& command_card::row_buttons(buttons, all[r], sessions).len() == 0 ==> loose.contains(
                all[r],
            ) && shown::shows(
                card,
                parts::markdown_v(
                    "|"@ + text::join(all[0], "|"@) + "|\n"@ + command_card::rows_text(loose)
                        + "\n（其余会话发送 /resume <序号> 接管）"@,
                ),
            )
        }),
{
    let all = command_card::table(body_md)->0;
    let rows = all.subrange(1, all.len() as int);
    let sessions = command_card::all_take_over(buttons);
    let es = command_card::command_elements(body_md, buttons, conv, ts);
    let card = command_card::command_card(title, body_md, buttons, conv, ts);
    shown::lemma_card(
        if text::blank(title) {
            "imagent"@
        } else {
            title
        },
        "blue"@,
        es,
    );
    assert(shown::elements_of(card) == es);
    let paired = command_card::paired_rows(rows, buttons, sessions, conv, ts);
    let loose = command_card::loose_rows(rows, buttons, sessions);
    command_card::law_every_row_once(rows, buttons, sessions, conv, ts);
    let row = rows[r - 1];
    assert(row == all[r]);
    let which = command_card::row_buttons(buttons, row, sessions);
    if which.len() > 0 {
        let pair = command_card::paired_row(row, buttons, sessions, conv, ts);
        assert(paired.contains(pair));
        let k = choose|k: int| 0 <= k < paired.len() && paired[k] == pair;
        assert(es[k] == pair);
        let left = if sessions {
            command_card::session_left(row)
        } else {
            command_card::workspace_left(row)
        };
        lemma_two_sides(left, command_card::picked(buttons, which, conv, ts));
        if left.len() > 0 {
            assert(pair.at("columns"@).elements()[0].at("elements"@).elements()[0] == left[0]);
            assert(shown::stands_beside(pair, left[0]));
            assert(shown::stands_in(shown::elements_of(card)[k], left[0]));
        }
    } else {
        assert(loose.contains(row));
        let below = parts::markdown_v(
            "|"@ + text::join(all[0], "|"@) + "|\n"@ + command_card::rows_text(loose)
                + "\n（其余会话发送 /resume <序号> 接管）"@,
        );
        let k = paired.len() as int;
        assert(es[k] == below);
        assert(shown::stands_beside(shown::elements_of(card)[k], below));
        assert(shown::stands_in(shown::elements_of(card)[k], below));
    }
}

proof fn lemma_first_belonging(
    buttons: Seq<CardButtonV>,
    key: Seq<char>,
    sessions: bool,
    n: nat,
    i: int,
)
    requires
        0 <= i < n <= buttons.len(),
        command_card::belongs(buttons[i], key, sessions),
        forall|k: int| 0 <= k < i ==> !command_card::belongs(#[trigger] buttons[k], key, sessions),
    ensures
        command_card::belonging(buttons, key, sessions, n).len() > 0,
        command_card::belonging(buttons, key, sessions, n)[0] == i,
    decreases n,
{
    if n == i + 1 {
        let before = command_card::belonging(buttons, key, sessions, i as nat);
        if before.len() > 0 {
            lemma_belonging(buttons, key, sessions, i as nat, before[0]);
            assert(before.contains(before[0]));
            assert(!command_card::belongs(buttons[before[0]], key, sessions));
        }
    } else {
        lemma_first_belonging(buttons, key, sessions, (n - 1) as nat, i);
    }
}

/// Beside the row of a session stands the first button that takes that session over.
pub proof fn law_session_has_its_first_button(
    buttons: Seq<CardButtonV>,
    row: command_card::Row,
    i: int,
)
    requires
        0 <= i < buttons.len(),
        command_card::belongs(buttons[i], text::trim(row[0]), true),
        forall|k: int|
            0 <= k < i ==> !command_card::belongs(#[trigger] buttons[k], text::trim(row[0]), true),
    ensures
        command_card::row_buttons(buttons, row, true) == seq![i],
{
    let key = text::trim(row[0]);
    lemma_first_belonging(buttons, key, true, buttons.len(), i);
    let all = command_card::belonging(buttons, key, true, buttons.len());
    assert(command_card::row_buttons(buttons, row, true) =~= seq![i]);
}

} // verus!
