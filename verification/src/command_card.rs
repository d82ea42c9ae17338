//! Cards with commands to click, and the form with the settings.
use vstd::prelude::*;

use crate::clock::now_secs;
use crate::digits;
use crate::digits::{dec_usize, read_usize};
use crate::json;
use crate::json::{Arr, Json, json_to_string, JsonV, num, Obj, txt};
use crate::markdown;
use crate::markdown::{escape_lt, mask_emails};
use crate::model;
use crate::model::{CardButton, CardButtonStyle, CardButtonV, ConfigFieldV, ConfigFormField};
use crate::parts;
use crate::parts::{
    body, button_row, card, cb_button, cb_button_confirm, cmd_value, flow_button_row,
    header, line_element, markdown_element, plain_text, submit_button,
};
use crate::text;
use crate::text::{
    cat3, cat4, cat5, is_blank, str_after_prefix, str_begins, str_eq, str_join, str_lines,
    str_split, str_split_on, str_strip, str_trim,
};

verus! {

// ---------------------------------------------------------------------------
// Buttons
// ---------------------------------------------------------------------------

/// How the platform calls the style of a button.
pub open spec fn style_name(style: CardButtonStyle) -> Seq<char> {
    match style {
        CardButtonStyle::Default => "default"@,
        CardButtonStyle::Primary => "primary"@,
        CardButtonStyle::Danger => "danger"@,
    }
}

/// A button with a command. One that can do damage asks back first.
pub open spec fn command_button(b: CardButtonV, conv: Seq<char>, ts: int) -> JsonV {
    let value = parts::cmd_value_v(conv, b.command, None, ts);
    if b.style == CardButtonStyle::Danger {
        parts::confirm_button_v(
            b.label,
            style_name(b.style),
            value,
            "将执行「"@ + b.command + "」，该操作可能删除/覆盖数据，确认吗？"@,
        )
    } else {
        parts::button_v(b.label, style_name(b.style), value)
    }
}

/// Buttons with commands.
pub open spec fn command_buttons(buttons: Seq<CardButtonV>, conv: Seq<char>, ts: int) -> Seq<JsonV> {
    Seq::new(buttons.len(), |i: int| command_button(buttons[i], conv, ts))
}

/// How the platform calls the style of a button.
pub fn button_type(style: CardButtonStyle) -> (r: &'static str)
    ensures
        r@ == style_name(style),
{
    match style {
        CardButtonStyle::Default => "default",
        CardButtonStyle::Primary => "primary",
        CardButtonStyle::Danger => "danger",
    }
}

/// A button with a command, made at a given time.
pub fn render_cmd_button(b: &CardButton, conv_id: &str, ts: i64) -> (r: Json)
    ensures
        r@ == command_button(b@, conv_id@, ts as int),
{
    let value = cmd_value(conv_id, b.command.as_str(), None, ts);
    match b.style {
        CardButtonStyle::Danger => cb_button_confirm(
            b.label.as_str(),
            button_type(b.style),
            value,
            cat3(
                "将执行「",
                b.command.as_str(),
                "」，该操作可能删除/覆盖数据，确认吗？",
            ).as_str(),
        ),
        _ => cb_button(b.label.as_str(), button_type(b.style), value),
    }
}

// ---------------------------------------------------------------------------
// Text in blocks
// ---------------------------------------------------------------------------

/// A heading in large print.
pub open spec fn heading_v(content: Seq<char>) -> JsonV {
    JsonV::Obj(
        map![
            "tag"@ => JsonV::Str("markdown"@),
            "content"@ => JsonV::Str(content),
            "text_size"@ => JsonV::Str("heading-large"@)
        ],
    )
}

/// Whether a line can head what follows: it belongs to no list, no table and is no heading
/// of its own.
pub open spec fn heads(line: Seq<char>) -> bool {
    !text::begins(line, "- "@) && !text::begins(line, "|"@) && !text::begins(line, "#"@)
}

/// The elements for the lines of a block: the heading lines at its front one by one, the rest
/// as a whole.
pub open spec fn block_elements(ls: Seq<Seq<char>>) -> Seq<JsonV>
    decreases ls.len(),
{
    if ls.len() == 0 {
        Seq::empty()
    } else if heads(ls[0]) && ls.len() > 1 {
        seq![heading_v(ls[0])] + block_elements(ls.drop_first())
    } else {
        seq![parts::markdown_v(markdown::escaped(markdown::masked(text::join(ls, "\n"@))))]
    }
}

/// The elements for some blocks; those with nothing but white space are left out.
pub open spec fn blocks_elements(blocks: Seq<Seq<char>>) -> Seq<JsonV>
    decreases blocks.len(),
{
    if blocks.len() == 0 {
        Seq::empty()
    } else {
        let before = blocks_elements(blocks.drop_last());
        if text::blank(blocks.last()) {
            before
        } else {
            before + block_elements(text::lines(blocks.last()))
        }
    }
}

/// The elements for a text, whose blocks are set apart by empty lines.
pub open spec fn text_elements(body_md: Seq<char>) -> Seq<JsonV> {
    blocks_elements(text::split_on(body_md, "\n\n"@))
}

fn add_block(elements: Arr, block: &str) -> (r: Arr)
    ensures
        r@ == elements@ + block_elements(text::lines(block@)),
{
    let ls = str_lines(block);
    let ghost all = text::views(ls@);
    let ghost before = elements@;
    let mut out = elements;
    let mut i: usize = 0;
    assert(all.subrange(0, all.len() as int) =~= all);
    while i < ls.len()
        invariant
            i <= ls@.len(),
            all == text::views(ls@),
            before + block_elements(all) =~= out@ + block_elements(
                all.subrange(i as int, all.len() as int),
            ),
        decreases ls@.len() - i,
    {
        let ghost rest = all.subrange(i as int, all.len() as int);
        assert(rest[0] == ls@[i as int]@);
        assert(rest.drop_first() =~= all.subrange(i + 1, all.len() as int));
        let first = ls[i].as_str();
        let heading = !str_begins(first, "- ") && !str_begins(first, "|") && !str_begins(
            first,
            "#",
        );
        if heading && i + 1 < ls.len() {
            out =
            out.with(
                Obj::new().with("tag", txt("markdown")).with("content", txt(first)).with(
                    "text_size",
                    txt("heading-large"),
                ).json(),
            );
            i += 1;
        } else {
            let content = join_from(&ls, i);
            out =
            out.with(
                markdown_element(escape_lt(mask_emails(content.as_str()).as_str()).as_str()),
            );
            i = ls.len();
            assert(all.subrange(i as int, all.len() as int).len() == 0);
        }
    }
    assert(all.subrange(i as int, all.len() as int).len() == 0);
    out
}

/// The lines from a given one on, joined again.
fn join_from(ls: &Vec<String>, from: usize) -> (r: String)
    requires
        from <= ls@.len(),
    ensures
        r@ == text::join(text::views(ls@).subrange(from as int, ls@.len() as int), "\n"@),
{
    let mut rest: Vec<String> = Vec::new();
    let mut i: usize = from;
    while i < ls.len()
        invariant
            from <= i <= ls@.len(),
            text::views(rest@) =~= text::views(ls@).subrange(from as int, i as int),
        decreases ls@.len() - i,
    {
        let ghost before = rest@;
        let l = ls[i].clone();
        rest.push(l);
        assert(text::views(rest@) =~= text::views(before).push(l@));
        i += 1;
    }
    str_join(&rest, "\n")
}

/// The elements for a text, whose blocks are set apart by empty lines.
pub fn body_block_elements(body_md: &str) -> (r: Arr)
    ensures
        r@ == text_elements(body_md@),
{
    proof {
        reveal_strlit("\n\n");
    }
    let blocks = str_split_on(body_md, "\n\n");
    let ghost all = text::views(blocks@);
    let mut out = Arr::new();
    let mut i: usize = 0;
    assert(out@ =~= blocks_elements(all.subrange(0, 0)));
    while i < blocks.len()
        invariant
            i <= blocks@.len(),
            all == text::views(blocks@),
            out@ == blocks_elements(all.subrange(0, i as int)),
        decreases blocks@.len() - i,
    {
        proof {
            assert(all.subrange(0, i + 1).drop_last() =~= all.subrange(0, i as int));
            assert(all.subrange(0, i + 1).last() == blocks@[i as int]@);
        }
        if !is_blank(blocks[i].as_str()) {
            out = add_block(out, blocks[i].as_str());
        }
        i += 1;
    }
    assert(all.subrange(0, all.len() as int) =~= all);
    out
}

// ---------------------------------------------------------------------------
// Tables
// ---------------------------------------------------------------------------

/// A row of a table, by its cells.
pub type Row = Seq<Seq<char>>;

/// Whether a line is a row of a table.
pub open spec fn is_row(line: Seq<char>) -> bool {
    text::begins(text::trim(line), "|"@)
}

/// The cells of a row.
pub open spec fn cells(line: Seq<char>) -> Row {
    let parts = text::split(text::strip(text::trim(line), '|'), '|');
    Seq::new(parts.len(), |i: int| text::trim(parts[i]))
}

/// Whether a cell only draws a line.
pub open spec fn is_rule(cell: Seq<char>) -> bool {
    forall|k: int| 0 <= k < cell.len() ==> #[trigger] cell[k] == ':' || cell[k] == '-'
}

/// Whether a row only sets the head of the table apart.
pub open spec fn is_separator(row: Row) -> bool {
    forall|i: int| 0 <= i < row.len() ==> is_rule(#[trigger] row[i])
}

/// The rows of the tables among some lines.
pub open spec fn raw_rows(ls: Seq<Seq<char>>) -> Seq<Row>
    decreases ls.len(),
{
    if ls.len() == 0 {
        Seq::empty()
    } else {
        let before = raw_rows(ls.drop_last());
        if is_row(ls.last()) && !is_separator(cells(ls.last())) {
            before.push(cells(ls.last()))
        } else {
            before
        }
    }
}

/// A row with a given number of cells: cut off, or filled up with empty ones.
pub open spec fn fitted(row: Row, n: nat) -> Row {
    Seq::new(
        n,
        |i: int|
            if i < row.len() {
                row[i]
            } else {
                Seq::empty()
            },
    )
}

/// The table in a text, its head first. Every row has as many cells as the head. There is no
/// table without a row below the head.
pub open spec fn table(body_md: Seq<char>) -> Option<Seq<Row>> {
    let rows = raw_rows(text::lines(body_md));
    if rows.len() < 2 {
        None
    } else {
        Some(Seq::new(rows.len(), |i: int| fitted(rows[i], rows[0].len())))
    }
}

/// Rows by their views.
pub open spec fn rows_view(rows: Seq<Vec<String>>) -> Seq<Row> {
    Seq::new(rows.len(), |i: int| text::views(rows[i]@))
}

fn read_cells(line: &str) -> (r: Vec<String>)
    ensures
        text::views(r@) == cells(line@),
        r@.len() > 0,
{
    let parts = str_split(str_strip(str_trim(line).as_str(), '|').as_str(), '|');
    let ghost all = text::views(parts@);
    let mut out: Vec<String> = Vec::new();
    let mut i: usize = 0;
    while i < parts.len()
        invariant
            i <= parts@.len(),
            all == text::views(parts@),
            text::views(out@) =~= Seq::new(i as nat, |k: int| text::trim(all[k])),
            out@.len() == i,
        decreases parts@.len() - i,
    {
        let ghost before = out@;
        let c = str_trim(parts[i].as_str());
        assert(c@ == text::trim(all[i as int]));
        out.push(c);
        assert(text::views(out@) =~= text::views(before).push(c@));
        i += 1;
    }
    out
}

fn only_rule(cell: &str) -> (r: bool)
    ensures
        r == is_rule(cell@),
{
    let v = crate::text::chars_of(cell);
    let mut i: usize = 0;
    while i < v.len()
        invariant
            i <= v@.len(),
            v@ == cell@,
            forall|k: int| 0 <= k < i ==> #[trigger] v@[k] == ':' || v@[k] == '-',
        decreases v@.len() - i,
    {
        if v[i] != ':' && v[i] != '-' {
            return false;
        }
        i += 1;
    }
    true
}

fn separates(row: &Vec<String>) -> (r: bool)
    ensures
        r == is_separator(text::views(row@)),
{
    let ghost all = text::views(row@);
    let mut i: usize = 0;
    while i < row.len()
        invariant
            i <= row@.len(),
            all == text::views(row@),
            forall|k: int| 0 <= k < i ==> is_rule(#[trigger] all[k]),
        decreases row@.len() - i,
    {
        let b = only_rule(row[i].as_str());
        assert(b == is_rule(all[i as int]));
        if !b {
            return false;
        }
        i += 1;
    }
    true
}

fn fit(row: &Vec<String>, n: usize) -> (r: Vec<String>)
    ensures
        text::views(r@) == fitted(text::views(row@), n as nat),
{
    let ghost all = text::views(row@);
    let mut out: Vec<String> = Vec::new();
    let mut i: usize = 0;
    while i < n
        invariant
            i <= n,
            all == text::views(row@),
            text::views(out@) =~= fitted(all, i as nat),
        decreases n - i,
    {
        let ghost before = out@;
        let c = if i < row.len() {
            row[i].clone()
        } else {
            String::new()
        };
        out.push(c);
        assert(text::views(out@) =~= text::views(before).push(c@));
        i += 1;
    }
    out
}

/// The table in a text, its head first.
pub fn table_rows(body_md: &str) -> (r: Option<Vec<Vec<String>>>)
    ensures
        (match r {
            Some(rows) => Some(rows_view(rows@)),
            None => None,
        }) == table(body_md@),
{
    let ls = str_lines(body_md);
    let ghost all = text::views(ls@);
    let mut rows: Vec<Vec<String>> = Vec::new();
    let mut i: usize = 0;
    assert(rows_view(rows@) =~= raw_rows(all.subrange(0, 0)));
    while i < ls.len()
        invariant
            i <= ls@.len(),
            all == text::views(ls@),
            rows_view(rows@) == raw_rows(all.subrange(0, i as int)),
        decreases ls@.len() - i,
    {
        let ghost before = rows@;
        proof {
            assert(all.subrange(0, i + 1).drop_last() =~= all.subrange(0, i as int));
            assert(all.subrange(0, i + 1).last() == ls@[i as int]@);
        }
        if str_begins(str_trim(ls[i].as_str()).as_str(), "|") {
            let row = read_cells(ls[i].as_str());
            if !separates(&row) {
                rows.push(row);
                assert(rows_view(rows@) =~= rows_view(before).push(text::views(row@)));
            }
        }
        i += 1;
    }
    assert(all.subrange(0, all.len() as int) =~= all);
    let ghost raw = rows_view(rows@);
    assert(raw.len() == rows@.len());
    if rows.len() < 2 {
        return None;
    }
    assert(raw[0] == text::views(rows@[0]@));
    assert(rows@[0]@.len() == raw[0].len());
    let n: usize = rows[0].len();
    let mut out: Vec<Vec<String>> = Vec::new();
    let mut k: usize = 0;
    while k < rows.len()
        invariant
            k <= rows@.len(),
            raw == rows_view(rows@),
            raw.len() >= 2,
            n == raw[0].len(),
            rows_view(out@) =~= Seq::new(k as nat, |i: int| fitted(raw[i], raw[0].len())),
        decreases rows@.len() - k,
    {
        let ghost before = out@;
        let row = fit(&rows[k], n);
        assert(text::views(row@) == fitted(raw[k as int], raw[0].len()));
        out.push(row);
        assert(rows_view(out@) =~= rows_view(before).push(text::views(row@)));
        k += 1;
    }
    Some(out)
}

// ---------------------------------------------------------------------------
// Rows with their buttons
// ---------------------------------------------------------------------------

/// The number of the session that a button takes over.
pub open spec fn takeover(label: Seq<char>) -> Option<usize> {
    match text::after_prefix(label, "接管 "@) {
        Some(t) => digits::parse_usize(t),
        None => None,
    }
}

/// Whether all buttons take sessions over.
pub open spec fn all_take_over(buttons: Seq<CardButtonV>) -> bool {
    forall|i: int| 0 <= i < buttons.len() ==> takeover(#[trigger] buttons[i].label) is Some
}

/// The name of the workspace that a button uses or deletes.
pub open spec fn workspace(label: Seq<char>) -> Option<Seq<char>> {
    text::first_of(text::after_prefix(label, "使用 "@), text::after_prefix(label, "删除 "@))
}

/// Whether a button belongs to the row with a given first cell.
pub open spec fn belongs(b: CardButtonV, key: Seq<char>, sessions: bool) -> bool {
    if sessions {
        takeover(b.label) matches Some(n) && digits::dec(n as int) == key
    } else {
        workspace(b.label) == Some(key)
    }
}

/// Which of the first `n` buttons belong to a row.
pub open spec fn belonging(
    buttons: Seq<CardButtonV>,
    key: Seq<char>,
    sessions: bool,
    n: nat,
) -> Seq<int>
    decreases n,
{
    if n == 0 {
        Seq::empty()
    } else {
        let before = belonging(buttons, key, sessions, (n - 1) as nat);
        if belongs(buttons[n - 1], key, sessions) {
            before.push(n - 1)
        } else {
            before
        }
    }
}

/// The buttons in a row: the first that takes the session over, or all for the workspace.
pub open spec fn row_buttons(buttons: Seq<CardButtonV>, row: Row, sessions: bool) -> Seq<int> {
    let all = belonging(buttons, text::trim(row[0]), sessions, buttons.len());
    if sessions && all.len() > 1 {
        all.subrange(0, 1)
    } else {
        all
    }
}

/// A cell that is there and not empty.
pub open spec fn cell(row: Row, i: int) -> Seq<Seq<char>> {
    if i < row.len() && row[i].len() > 0 {
        seq![row[i]]
    } else {
        Seq::empty()
    }
}

/// Where a session comes from, in words.
pub open spec fn source(mark: Seq<char>) -> Seq<char> {
    if mark == "💻"@ {
        "💻 本机"@
    } else if mark == "📱"@ {
        "📱 IM"@
    } else {
        mark
    }
}

/// What a row says of a session: where it comes from, when, and what it is about.
pub open spec fn session_parts(row: Row) -> Seq<Seq<char>> {
    let from = cell(row, 1);
    Seq::new(from.len(), |i: int| source(from[i])) + cell(row, 2) + cell(row, 3)
}

/// The left side of the row of a session.
pub open spec fn session_left(row: Row) -> Seq<JsonV> {
    if session_parts(row).len() == 0 {
        Seq::empty()
    } else {
        seq![parts::markdown_v(text::join(session_parts(row), " · "@))]
    }
}

/// The left side of the row of a workspace.
pub open spec fn workspace_left(row: Row) -> Seq<JsonV> {
    seq![
        parts::markdown_v(
            "**"@ + text::trim(row[0]) + "**\n"@ + (if row.len() > 1 {
                row[1]
            } else {
                Seq::empty()
            }),
        ),
    ]
}

/// One side of a row.
pub open spec fn side_v(weight: int, elements: Seq<JsonV>) -> JsonV {
    JsonV::Obj(
        map![
            "tag"@ => JsonV::Str("column"@),
            "width"@ => JsonV::Str("weighted"@),
            "weight"@ => JsonV::Num(digits::dec(weight)),
            "elements"@ => JsonV::Arr(elements),
            "vertical_align"@ => JsonV::Str("center"@)
        ],
    )
}

/// A row with what it says on the left and its buttons on the right.
pub open spec fn two_sides_v(left: Seq<JsonV>, right: Seq<JsonV>) -> JsonV {
    JsonV::Obj(
        map![
            "tag"@ => JsonV::Str("column_set"@),
            "flex_mode"@ => JsonV::Str("bisect"@),
            "horizontal_spacing"@ => JsonV::Str("default"@),
            "columns"@ => JsonV::Arr(seq![side_v(4, left), side_v(1, right)])
        ],
    )
}

/// Some of the buttons.
pub open spec fn picked(
    buttons: Seq<CardButtonV>,
    which: Seq<int>,
    conv: Seq<char>,
    ts: int,
) -> Seq<JsonV> {
    Seq::new(which.len(), |k: int| command_button(buttons[which[k]], conv, ts))
}

/// A row with its buttons.
pub open spec fn paired_row(
    row: Row,
    buttons: Seq<CardButtonV>,
    sessions: bool,
    conv: Seq<char>,
    ts: int,
) -> JsonV {
    two_sides_v(
        if sessions {
            session_left(row)
        } else {
            workspace_left(row)
        },
        picked(buttons, row_buttons(buttons, row, sessions), conv, ts),
    )
}

/// The rows to which buttons belong.
pub open spec fn paired_rows(
    rows: Seq<Row>,
    buttons: Seq<CardButtonV>,
    sessions: bool,
    conv: Seq<char>,
    ts: int,
) -> Seq<JsonV>
    decreases rows.len(),
{
    if rows.len() == 0 {
        Seq::empty()
    } else {
        let before = paired_rows(rows.drop_last(), buttons, sessions, conv, ts);
        let which = row_buttons(buttons, rows.last(), sessions);
        if which.len() > 0 {
            before.push(paired_row(rows.last(), buttons, sessions, conv, ts))
        } else {
            before
        }
    }
}

/// The rows to which no button belongs.
pub open spec fn loose_rows(rows: Seq<Row>, buttons: Seq<CardButtonV>, sessions: bool) -> Seq<Row>
    decreases rows.len(),
{
    if rows.len() == 0 {
        Seq::empty()
    } else {
        let before = loose_rows(rows.drop_last(), buttons, sessions);
        if row_buttons(buttons, rows.last(), sessions).len() > 0 {
            before
        } else {
            before.push(rows.last())
        }
    }
}

/// Rows, written as a table.
pub open spec fn rows_text(rows: Seq<Row>) -> Seq<char>
    decreases rows.len(),
{
    if rows.len() == 0 {
        Seq::empty()
    } else {
        rows_text(rows.drop_last()) + "|"@ + text::join(rows.last(), "|"@) + "|\n"@
    }
}

/// Whether a button belongs to one of some rows.
pub open spec fn placed(
    rows: Seq<Row>,
    buttons: Seq<CardButtonV>,
    sessions: bool,
    i: int,
) -> bool
    decreases rows.len(),
{
    if rows.len() == 0 {
        false
    } else {
        placed(rows.drop_last(), buttons, sessions, i) || row_buttons(
            buttons,
            rows.last(),
            sessions,
        ).contains(i)
    }
}

/// Those of the first `n` buttons that belong to no row.
pub open spec fn loose_buttons(
    rows: Seq<Row>,
    buttons: Seq<CardButtonV>,
    sessions: bool,
    conv: Seq<char>,
    ts: int,
    n: nat,
) -> Seq<JsonV>
    decreases n,
{
    if n == 0 {
        Seq::empty()
    } else {
        let before = loose_buttons(rows, buttons, sessions, conv, ts, (n - 1) as nat);
        if placed(rows, buttons, sessions, n - 1) {
            before
        } else {
            before.push(command_button(buttons[n - 1], conv, ts))
        }
    }
}

/// A table as rows with their buttons. What is left of the table and of the buttons follows.
/// `None` where no button belongs to any row.
pub open spec fn paired_elements(
    body_md: Seq<char>,
    buttons: Seq<CardButtonV>,
    conv: Seq<char>,
    ts: int,
) -> Option<Seq<JsonV>> {
    match table(body_md) {
        Some(all) => {
            let rows = all.subrange(1, all.len() as int);
            let sessions = all_take_over(buttons);
            let paired = paired_rows(rows, buttons, sessions, conv, ts);
            let loose = loose_rows(rows, buttons, sessions);
            let left = loose_buttons(rows, buttons, sessions, conv, ts, buttons.len());
            if paired.len() == 0 {
                None
            } else {
                Some(
                    paired + (if loose.len() > 0 {
                        seq![
                            parts::markdown_v(
                                "|"@ + text::join(all[0], "|"@) + "|\n"@ + rows_text(loose)
                                    + "\n（其余会话发送 /resume <序号> 接管）"@,
                            ),
                        ]
                    } else {
                        Seq::empty()
                    }) + (if left.len() > 0 {
                        seq![parts::line_v(), parts::flow_row_v(left)]
                    } else {
                        Seq::empty()
                    }),
                )
            }
        },
        None => None,
    }
}

fn read_takeover(label: &str) -> (r: Option<usize>)
    ensures
        r == takeover(label@),
{
    match str_after_prefix(label, "接管 ") {
        Some(t) => read_usize(t.as_str()),
        None => None,
    }
}

fn take_over_all(buttons: &[CardButton]) -> (r: bool)
    ensures
        r == all_take_over(model::listv(buttons@)),
{
    let ghost all = model::listv(buttons@);
    let mut i: usize = 0;
    while i < buttons.len()
        invariant
            i <= buttons@.len(),
            all == model::listv(buttons@),
            forall|k: int| 0 <= k < i ==> takeover(#[trigger] all[k].label) is Some,
        decreases buttons@.len() - i,
    {
        let t = read_takeover(buttons[i].label.as_str());
        assert(t == takeover(all[i as int].label));
        if t.is_none() {
            return false;
        }
        i += 1;
    }
    true
}

fn belongs_to(b: &CardButton, key: &str, sessions: bool) -> (r: bool)
    ensures
        r == belongs(b@, key@, sessions),
{
    if sessions {
        match read_takeover(b.label.as_str()) {
            Some(n) => str_eq(dec_usize(n).as_str(), key),
            None => false,
        }
    } else {
        match str_after_prefix(b.label.as_str(), "使用 ") {
            Some(name) => str_eq(name.as_str(), key),
            None => match str_after_prefix(b.label.as_str(), "删除 ") {
                Some(name) => str_eq(name.as_str(), key),
                None => false,
            },
        }
    }
}

/// Places by their values.
pub open spec fn places(v: Seq<usize>) -> Seq<int> {
    Seq::new(v.len(), |i: int| v[i] as int)
}

fn buttons_of_row(buttons: &[CardButton], row: &Vec<String>, sessions: bool) -> (r: Vec<usize>)
    requires
        row@.len() > 0,
    ensures
        places(r@) == row_buttons(model::listv(buttons@), text::views(row@), sessions),
        forall|k: int| 0 <= k < r@.len() ==> #[trigger] r@[k] < buttons@.len(),
{
    let ghost all = model::listv(buttons@);
    let key = str_trim(row[0].as_str());
    assert(text::views(row@)[0] == row@[0]@);
    let mut out: Vec<usize> = Vec::new();
    let mut i: usize = 0;
    while i < buttons.len()
        invariant
            i <= buttons@.len(),
            all == model::listv(buttons@),
            places(out@) =~= belonging(all, key@, sessions, i as nat),
            forall|k: int| 0 <= k < out@.len() ==> #[trigger] out@[k] < i,
        decreases buttons@.len() - i,
    {
        let ghost before = out@;
        assert(all[i as int] == buttons@[i as int]@);
        if belongs_to(&buttons[i], key.as_str(), sessions) {
            out.push(i);
            assert(places(out@) =~= places(before).push(i as int));
        }
        i += 1;
    }
    assert(places(out@).len() == out@.len());
    if sessions && out.len() > 1 {
        let ghost before = places(out@);
        out.truncate(1);
        assert(places(out@) =~= before.subrange(0, 1));
    }
    out
}

/// The left side of the row of a session.
pub fn resume_row_left(row: &Vec<String>) -> (r: Arr)
    ensures
        r@ == session_left(text::views(row@)),
{
    let ghost cs = text::views(row@);
    assert(cs.len() == row@.len());
    let mut parts: Vec<String> = Vec::new();
    if row.len() > 1 && !row[1].as_str().is_empty() {
        let mark = row[1].as_str();
        assert(mark@ == cs[1]);
        let from = if str_eq(mark, "💻") {
            "💻 本机".to_owned()
        } else if str_eq(mark, "📱") {
            "📱 IM".to_owned()
        } else {
            mark.to_owned()
        };
        parts.push(from);
        assert(text::views(parts@) =~= seq![source(cs[1])]);
    }
    let ghost p1 = parts@;
    let ghost first = cell(cs, 1);
    assert(text::views(p1) =~= Seq::new(first.len(), |i: int| source(first[i])));
    if row.len() > 2 && !row[2].as_str().is_empty() {
        let c = row[2].clone();
        assert(c@ == cs[2]);
        parts.push(c);
        assert(text::views(parts@) =~= text::views(p1).push(c@));
    }
    let ghost p2 = parts@;
    assert(text::views(p2) =~= text::views(p1) + cell(cs, 2));
    if row.len() > 3 && !row[3].as_str().is_empty() {
        let c = row[3].clone();
        assert(c@ == cs[3]);
        parts.push(c);
        assert(text::views(parts@) =~= text::views(p2).push(c@));
    }
    assert(text::views(parts@) =~= session_parts(cs));
    assert(parts@.len() == text::views(parts@).len());
    if parts.len() == 0 {
        Arr::new()
    } else {
        Arr::new().with(markdown_element(str_join(&parts, " · ").as_str()))
    }
}

fn workspace_side(row: &Vec<String>) -> (r: Arr)
    requires
        row@.len() > 0,
    ensures
        r@ == workspace_left(text::views(row@)),
{
    let ghost cs = text::views(row@);
    let key = str_trim(row[0].as_str());
    assert(cs[0] == row@[0]@);
    let about = if row.len() > 1 {
        assert(cs[1] == row@[1]@);
        row[1].clone()
    } else {
        String::new()
    };
    Arr::new().with(
        markdown_element(cat4("**", key.as_str(), "**\n", about.as_str()).as_str()),
    )
}

fn side(weight: i64, elements: Arr) -> (r: Json)
    ensures
        r@ == side_v(weight as int, elements@),
{
    Obj::new().with("tag", txt("column")).with("width", txt("weighted")).with(
        "weight",
        num(weight),
    ).with("elements", elements.json()).with("vertical_align", txt("center")).json()
}

/// A row with what it says on the left and its buttons on the right.
pub fn two_col_row(left: Arr, right: Arr) -> (r: Json)
    ensures
        r@ == two_sides_v(left@, right@),
{
    let a = side(4, left);
    let b = side(1, right);
    let columns = Arr::new().with(a).with(b);
    assert(columns@ =~= seq![a@, b@]);
    Obj::new().with("tag", txt("column_set")).with("flex_mode", txt("bisect")).with(
        "horizontal_spacing",
        txt("default"),
    ).with("columns", columns.json()).json()
}

fn pick(buttons: &[CardButton], which: &Vec<usize>, conv_id: &str, ts: i64) -> (r: Arr)
    requires
        forall|k: int| 0 <= k < which@.len() ==> #[trigger] which@[k] < buttons@.len(),
    ensures
        r@ == picked(model::listv(buttons@), places(which@), conv_id@, ts as int),
{
    let ghost all = model::listv(buttons@);
    let ghost want = picked(all, places(which@), conv_id@, ts as int);
    let mut out = Arr::new();
    let mut k: usize = 0;
    while k < which.len()
        invariant
            k <= which@.len(),
            all == model::listv(buttons@),
            want == picked(all, places(which@), conv_id@, ts as int),
            forall|j: int| 0 <= j < which@.len() ==> #[trigger] which@[j] < buttons@.len(),
            out@ =~= want.subrange(0, k as int),
        decreases which@.len() - k,
    {
        let i: usize = which[k];
        assert(all[i as int] == buttons@[i as int]@);
        assert(want[k as int] == command_button(all[i as int], conv_id@, ts as int));
        out = out.with(render_cmd_button(&buttons[i], conv_id, ts));
        k += 1;
    }
    assert(out@ =~= want);
    out
}

fn mark_all(used: &mut Vec<bool>, which: &Vec<usize>)
    ensures
        final(used)@.len() == old(used)@.len(),
        forall|i: int|
            0 <= i < old(used)@.len() ==> (#[trigger] final(used)@[i] == (old(used)@[i] || places(
                which@,
            ).contains(i))),
{
    let ghost before = used@;
    let mut k: usize = 0;
    let ghost which_at = places(which@);
    while k < which.len()
        invariant
            k <= which@.len(),
            before == old(used)@,
            which_at == places(which@),
            used@.len() == before.len(),
            forall|i: int|
                0 <= i < before.len() ==> (#[trigger] used@[i] == (before[i] || which_at.subrange(
                    0,
                    k as int,
                ).contains(i))),
        decreases which@.len() - k,
    {
        let i: usize = which[k];
        let ghost now = used@;
        if i < used.len() {
            used.set(i, true);
        }
        proof {
            let a = which_at.subrange(0, k as int);
            let b = which_at.subrange(0, k + 1);
            assert(b =~= a.push(i as int));
            assert forall|j: int| 0 <= j < before.len() implies (#[trigger] used@[j] == (before[j]
                || b.contains(j))) by {
                assert(now[j] == (before[j] || a.contains(j)));
                if a.contains(j) {
                    let m = choose|m: int| 0 <= m < a.len() && a[m] == j;
                    assert(b[m] == j);
                }
                if j == i {
                    assert(b[k as int] == j);
                }
                if b.contains(j) && j != i {
                    let m = choose|m: int| 0 <= m < b.len() && b[m] == j;
                    assert(a[m] == j);
                }
            }
        }
        k += 1;
    }
    assert(which_at.subrange(0, which_at.len() as int) =~= which_at);
}

/// A table as rows with their buttons, made at a given time.
pub fn try_paired_rows(body_md: &str, buttons: &[CardButton], conv_id: &str, ts: i64) -> (r:
    Option<Arr>)
    ensures
        (match r {
            Some(a) => Some(a@),
            None => None,
        }) == paired_elements(body_md@, model::listv(buttons@), conv_id@, ts as int),
{
    let all = match table_rows(body_md) {
        Some(rows) => rows,
        None => {
            return None;
        },
    };
    let ghost bs = model::listv(buttons@);
    assert(bs.len() == buttons@.len());
    let ghost table = rows_view(all@);
    let ghost rows = table.subrange(1, table.len() as int);
    let sessions = take_over_all(buttons);
    proof {
        lemma_cells(body_md@);
    }
    let mut elements = Arr::new();
    let mut rest = String::new();
    let mut any_loose = false;
    let mut used: Vec<bool> = Vec::new();
    let mut i: usize = 0;
    while i < buttons.len()
        invariant
            i <= buttons@.len(),
            used@.len() == i,
            forall|k: int| 0 <= k < i ==> !#[trigger] used@[k],
        decreases buttons@.len() - i,
    {
        used.push(false);
        i += 1;
    }
    let mut at: usize = 1;
    assert(rows.subrange(0, 0).len() == 0);
    assert(elements@ =~= paired_rows(rows.subrange(0, 0), bs, sessions, conv_id@, ts as int));
    assert(rest@ =~= rows_text(loose_rows(rows.subrange(0, 0), bs, sessions)));
    while at < all.len()
        invariant
            1 <= at <= all@.len(),
            bs == model::listv(buttons@),
            table == rows_view(all@),
            rows == table.subrange(1, table.len() as int),
            used@.len() == buttons@.len(),
            forall|k: int| 0 <= k < table.len() ==> (#[trigger] table[k]).len() > 0,
            elements@ == paired_rows(
                rows.subrange(0, at - 1),
                bs,
                sessions,
                conv_id@,
                ts as int,
            ),
            rest@ == rows_text(loose_rows(rows.subrange(0, at - 1), bs, sessions)),
            any_loose == (loose_rows(rows.subrange(0, at - 1), bs, sessions).len() > 0),
            forall|k: int|
                0 <= k < used@.len() ==> #[trigger] used@[k] == placed(
                    rows.subrange(0, at - 1),
                    bs,
                    sessions,
                    k,
                ),
        decreases all@.len() - at,
    {
        let row = &all[at];
        let ghost now = rows.subrange(0, at as int);
        let ghost before = rows.subrange(0, at - 1);
        proof {
            assert(table[at as int] == text::views(row@));
            assert(now.drop_last() =~= before);
            assert(now.last() == text::views(row@));
        }
        let which = buttons_of_row(buttons, row, sessions);
        assert(places(which@).len() == which@.len());
        let ghost used0 = used@;
        mark_all(&mut used, &which);
        assert forall|k: int| 0 <= k < used@.len() implies #[trigger] used@[k] == placed(
            now,
            bs,
            sessions,
            k,
        ) by {
            assert(used0[k] == placed(before, bs, sessions, k));
        }
        if which.len() > 0 {
            let left = if sessions {
                resume_row_left(row)
            } else {
                workspace_side(row)
            };
            let right = pick(buttons, &which, conv_id, ts);
            elements = elements.with(two_col_row(left, right));
        } else {
            let ghost l = loose_rows(before, bs, sessions);
            assert(l.push(text::views(row@)).drop_last() =~= l);
            rest = cat4(rest.as_str(), "|", str_join(row, "|").as_str(), "|\n");
            any_loose = true;
        }
        at += 1;
    }
    assert(rows.subrange(0, rows.len() as int) =~= rows);
    if elements.is_empty() {
        return None;
    }
    let ghost paired = elements@;
    if any_loose {
        assert(table[0] == text::views(all@[0]@));
        let top = cat3("|", str_join(&all[0], "|").as_str(), "|\n");
        let md = cat3(
            top.as_str(),
            rest.as_str(),
            "\n（其余会话发送 /resume <序号> 接管）",
        );
        elements = elements.with(markdown_element(md.as_str()));
    }
    let ghost with_rest = elements@;
    let mut left: Vec<Json> = Vec::new();
    let mut k: usize = 0;
    while k < buttons.len()
        invariant
            k <= buttons@.len(),
            bs == model::listv(buttons@),
            used@.len() == buttons@.len(),
            forall|j: int|
                0 <= j < used@.len() ==> #[trigger] used@[j] == placed(rows, bs, sessions, j),
            parts::jsons(left@) =~= loose_buttons(rows, bs, sessions, conv_id@, ts as int, k as nat),
        decreases buttons@.len() - k,
    {
        let ghost before = left@;
        assert(bs[k as int] == buttons@[k as int]@);
        assert(used@[k as int] == placed(rows, bs, sessions, k as int));
        if !used[k] {
            let b = render_cmd_button(&buttons[k], conv_id, ts);
            left.push(b);
            assert(parts::jsons(left@) =~= parts::jsons(before).push(b@));
        }
        k += 1;
    }
    assert(parts::jsons(left@).len() == left@.len());
    if left.len() > 0 {
        elements = elements.with(line_element()).with(flow_button_row(left));
    }
    assert(Some(elements@) == paired_elements(body_md@, bs, conv_id@, ts as int)) by {
        let loose = loose_rows(rows, bs, sessions);
        let more = if loose.len() > 0 {
            seq![
                parts::markdown_v(
                    "|"@ + text::join(table[0], "|"@) + "|\n"@ + rows_text(loose)
                        + "\n（其余会话发送 /resume <序号> 接管）"@,
                ),
            ]
        } else {
            Seq::empty()
        };
        assert(with_rest =~= paired + more);
        assert(elements@ =~= paired + more + (if parts::jsons(left@).len() > 0 {
            seq![parts::line_v(), parts::flow_row_v(parts::jsons(left@))]
        } else {
            Seq::empty()
        }));
    }
    Some(elements)
}

/// Every row of a table has a cell.
proof fn lemma_cells(body_md: Seq<char>)
    ensures
        table(body_md) matches Some(rows) ==> rows.len() >= 2 && forall|k: int|
            0 <= k < rows.len() ==> (#[trigger] rows[k]).len() > 0,
{
    let ls = text::lines(body_md);
    lemma_raw_rows(ls);
}

proof fn lemma_raw_rows(ls: Seq<Seq<char>>)
    ensures
        forall|k: int| 0 <= k < raw_rows(ls).len() ==> (#[trigger] raw_rows(ls)[k]).len() > 0,
    decreases ls.len(),
{
    if ls.len() > 0 {
        lemma_raw_rows(ls.drop_last());
        assert(cells(ls.last()).len() == text::split(
            text::strip(text::trim(ls.last()), '|'),
            '|',
        ).len());
        let before = raw_rows(ls.drop_last());
        assert forall|k: int| 0 <= k < raw_rows(ls).len() implies (#[trigger] raw_rows(
            ls,
        )[k]).len() > 0 by {
            if k < before.len() {
                assert(raw_rows(ls)[k] == before[k]);
            }
        }
    }
}

// ---------------------------------------------------------------------------
// The card with commands
// ---------------------------------------------------------------------------

/// The elements of a card with commands: rows with their buttons where the text holds a
/// table that fits them, else the text and all buttons below it.
pub open spec fn command_elements(
    body_md: Seq<char>,
    buttons: Seq<CardButtonV>,
    conv: Seq<char>,
    ts: int,
) -> Seq<JsonV> {
    match paired_elements(body_md, buttons, conv, ts) {
        Some(e) => e,
        None => if buttons.len() > 0 {
            text_elements(body_md) + seq![parts::line_v(), parts::flow_row_v(command_buttons(buttons, conv, ts))]
        } else {
            text_elements(body_md)
        },
    }
}

/// A card with commands.
pub open spec fn command_card(
    title: Seq<char>,
    body_md: Seq<char>,
    buttons: Seq<CardButtonV>,
    conv: Seq<char>,
    ts: int,
) -> JsonV {
    parts::card_v(
        if text::blank(title) {
            "imagent"@
        } else {
            title
        },
        "blue"@,
        command_elements(body_md, buttons, conv, ts),
    )
}

fn all_buttons(buttons: &[CardButton], conv_id: &str, ts: i64) -> (r: Vec<Json>)
    ensures
        parts::jsons(r@) == command_buttons(model::listv(buttons@), conv_id@, ts as int),
{
    let ghost all = model::listv(buttons@);
    let mut out: Vec<Json> = Vec::new();
    let mut i: usize = 0;
    while i < buttons.len()
        invariant
            i <= buttons@.len(),
            all == model::listv(buttons@),
            parts::jsons(out@) =~= command_buttons(all, conv_id@, ts as int).subrange(0, i as int),
        decreases buttons@.len() - i,
    {
        let ghost before = out@;
        assert(all[i as int] == buttons@[i as int]@);
        let b = render_cmd_button(&buttons[i], conv_id, ts);
        out.push(b);
        assert(parts::jsons(out@) =~= parts::jsons(before).push(b@));
        i += 1;
    }
    assert(parts::jsons(out@) =~= command_buttons(all, conv_id@, ts as int));
    out
}

/// A card with commands, whose buttons are made at a given time.
pub fn command_card_at(
    title: &str,
    body_md: &str,
    buttons: &[CardButton],
    conv_id: &str,
    ts: i64,
) -> (r: Json)
    ensures
        r@ == command_card(title@, body_md@, model::listv(buttons@), conv_id@, ts as int),
{
    let elements = match try_paired_rows(body_md, buttons, conv_id, ts) {
        Some(e) => e,
        None => {
            let e = body_block_elements(body_md);
            assert(model::listv(buttons@).len() == buttons@.len());
            if buttons.len() > 0 {
                let ghost top = e@;
                let row = flow_button_row(all_buttons(buttons, conv_id, ts));
                let out = e.with(line_element()).with(row);
                assert(out@ =~= top + seq![parts::line_v(), row@]);
                out
            } else {
                e
            }
        },
    };
    let shown = if is_blank(title) {
        "imagent"
    } else {
        title
    };
    card(shown, "blue", elements)
}

/// A card with commands, as the platform takes it. Its buttons are made now.
pub fn render_command_card(title: &str, body_md: &str, buttons: &[CardButton], conv_id: &str) -> (r:
    String)
    ensures
        exists|ts: i64|
            r@ == #[trigger] json::json_string(
                command_card(title@, body_md@, model::listv(buttons@), conv_id@, ts as int),
            ),
{
    let ts: i64 = now_secs();
    let j = command_card_at(title, body_md, buttons, conv_id, ts);
    let r = json_to_string(&j);
    assert(r@ == json::json_string(
        command_card(title@, body_md@, model::listv(buttons@), conv_id@, ts as int),
    ));
    r
}

/// The commands of some buttons, one to a line.
pub open spec fn command_lines(buttons: Seq<CardButtonV>) -> Seq<char>
    decreases buttons.len(),
{
    if buttons.len() == 0 {
        Seq::empty()
    } else {
        command_lines(buttons.drop_last()) + "\n"@ + buttons.last().label + "："@
            + buttons.last().command
    }
}

/// What stands for a card with commands where there are no cards: its title, its text, and
/// the commands to type.
pub open spec fn command_text(
    title: Seq<char>,
    body_md: Seq<char>,
    buttons: Seq<CardButtonV>,
) -> Seq<char> {
    if buttons.len() == 0 {
        title + "\n\n"@ + body_md
    } else {
        title + "\n\n"@ + body_md + "\n"@ + command_lines(buttons)
    }
}

/// What stands for a card with commands where there are no cards.
pub fn command_card_fallback_text(title: &str, body_md: &str, buttons: &[CardButton]) -> (r: String)
    ensures
        r@ == command_text(title@, body_md@, model::listv(buttons@)),
{
    let ghost all = model::listv(buttons@);
    assert(all.len() == buttons@.len());
    let top = cat3(title, "\n\n", body_md);
    if buttons.len() == 0 {
        return top;
    }
    let mut lines = String::new();
    let mut i: usize = 0;
    assert(lines@ =~= command_lines(all.subrange(0, 0)));
    while i < buttons.len()
        invariant
            i <= buttons@.len(),
            all == model::listv(buttons@),
            lines@ == command_lines(all.subrange(0, i as int)),
        decreases buttons@.len() - i,
    {
        proof {
            assert(all.subrange(0, i + 1).drop_last() =~= all.subrange(0, i as int));
            assert(all.subrange(0, i + 1).last() == buttons@[i as int]@);
        }
        lines =
        cat5(
            lines.as_str(),
            "\n",
            buttons[i].label.as_str(),
            "：",
            buttons[i].command.as_str(),
        );
        i += 1;
    }
    assert(all.subrange(0, all.len() as int) =~= all);
    cat3(top.as_str(), "\n", lines.as_str())
}

// ---------------------------------------------------------------------------
// The form with the settings
// ---------------------------------------------------------------------------

/// What a setting can be set to.
pub open spec fn setting_options(options: Seq<(Seq<char>, Seq<char>)>) -> Seq<JsonV> {
    Seq::new(
        options.len(),
        |i: int|
            JsonV::Obj(
                map!["text"@ => parts::plain_text_v(options[i].1), "value"@ => JsonV::Str(options[i].0)],
            ),
    )
}

/// The field of a setting, below its label.
pub open spec fn setting_field(f: ConfigFieldV) -> Seq<JsonV> {
    seq![
        parts::markdown_v("**"@ + f.label + "**"@),
        JsonV::Obj(
            map![
                "tag"@ => JsonV::Str("select_static"@),
                "name"@ => JsonV::Str(f.key),
                "initial_option"@ => JsonV::Str(f.current),
                "options"@ => JsonV::Arr(setting_options(f.options))
            ],
        ),
    ]
}

/// The fields of some settings.
pub open spec fn setting_fields(entries: Seq<ConfigFieldV>) -> Seq<JsonV>
    decreases entries.len(),
{
    if entries.len() == 0 {
        Seq::empty()
    } else {
        setting_fields(entries.drop_last()) + setting_field(entries.last())
    }
}

/// What the button of the form carries.
pub open spec fn config_value(conv: Seq<char>) -> JsonV {
    JsonV::Obj(map!["imagent_form"@ => JsonV::Str("config"@), "conv"@ => JsonV::Str(conv)])
}

/// The form with the settings.
pub open spec fn config_form(entries: Seq<ConfigFieldV>, conv: Seq<char>) -> JsonV {
    JsonV::Obj(
        map![
            "tag"@ => JsonV::Str("form"@),
            "name"@ => JsonV::Str("imagent_config"@),
            "elements"@ => JsonV::Arr(
                setting_fields(entries) + seq![
                    parts::line_v(),
                    parts::flow_row_v(seq![parts::submit_button_v("提交"@, config_value(conv))]),
                ],
            )
        ],
    )
}

/// The card with the settings.
pub open spec fn config_card(entries: Seq<ConfigFieldV>, conv: Seq<char>) -> JsonV {
    JsonV::Obj(
        map![
            "schema"@ => JsonV::Str("2.0"@),
            "config"@ => JsonV::Obj(
                map![
                    "summary"@ => JsonV::Obj(
                        map!["content"@ => JsonV::Str("⚙️ 偏好设置"@)],
                    )
                ],
            ),
            "header"@ => parts::header_v("⚙️ 偏好设置"@, "blue"@),
            "body"@ => parts::body_v(
                seq![
                    parts::markdown_v(
                        "下拉选择后点「提交」，立即生效（重启回 config.toml 值；也可继续用 `/config <key> <value>` 文本命令）。"@,
                    ),
                    parts::line_v(),
                    config_form(entries, conv),
                ],
            )
        ],
    )
}

fn add_setting(elements: Arr, f: &ConfigFormField) -> (r: Arr)
    ensures
        r@ == elements@ + setting_field(f@),
{
    let ghost all = model::pairs_of(f.options@);
    let ghost want = setting_options(all);
    let mut options = Arr::new();
    let mut i: usize = 0;
    while i < f.options.len()
        invariant
            i <= f.options@.len(),
            all == model::pairs_of(f.options@),
            want == setting_options(all),
            options@ =~= want.subrange(0, i as int),
        decreases f.options@.len() - i,
    {
        let o = Obj::new().with("text", plain_text(f.options[i].1.as_str())).with(
            "value",
            txt(f.options[i].0.as_str()),
        ).json();
        assert(all[i as int] == (f.options@[i as int].0@, f.options@[i as int].1@));
        assert(o@ == want[i as int]);
        options = options.with(o);
        i += 1;
    }
    assert(options@ =~= want);
    let label = markdown_element(cat3("**", f.label.as_str(), "**").as_str());
    let field = Obj::new().with("tag", txt("select_static")).with(
        "name",
        txt(f.key.as_str()),
    ).with("initial_option", txt(f.current.as_str())).with("options", options.json()).json();
    let out = elements.with(label).with(field);
    assert(out@ =~= elements@ + seq![label@, field@]);
    out
}

/// The card with the settings.
pub fn config_card_json(entries: &[ConfigFormField], conv_id: &str) -> (r: Json)
    ensures
        r@ == config_card(model::listv(entries@), conv_id@),
{
    let ghost all = model::listv(entries@);
    let mut fields = Arr::new();
    let mut i: usize = 0;
    assert(fields@ =~= setting_fields(all.subrange(0, 0)));
    while i < entries.len()
        invariant
            i <= entries@.len(),
            all == model::listv(entries@),
            fields@ == setting_fields(all.subrange(0, i as int)),
        decreases entries@.len() - i,
    {
        proof {
            assert(all.subrange(0, i + 1).drop_last() =~= all.subrange(0, i as int));
            assert(all.subrange(0, i + 1).last() == entries@[i as int]@);
        }
        fields = add_setting(fields, &entries[i]);
        i += 1;
    }
    assert(all.subrange(0, all.len() as int) =~= all);
    let value = Obj::new().with("imagent_form", txt("config")).with("conv", txt(conv_id)).json();
    let ghost listed = fields@;
    let row = button_row(submit_button("提交", value));
    let inner = fields.with(line_element()).with(row);
    assert(inner@ =~= listed + seq![parts::line_v(), row@]);
    let form = Obj::new().with("tag", txt("form")).with("name", txt("imagent_config")).with(
        "elements",
        inner.json(),
    ).json();
    let intro = markdown_element(
        "下拉选择后点「提交」，立即生效（重启回 config.toml 值；也可继续用 `/config <key> <value>` 文本命令）。",
    );
    let elements = Arr::new().with(intro).with(line_element()).with(form);
    assert(elements@ =~= seq![intro@, parts::line_v(), form@]);
    let summary = Obj::new().with(
        "summary",
        Obj::new().with("content", txt("⚙️ 偏好设置")).json(),
    ).json();
    Obj::new().with("schema", txt("2.0")).with("config", summary).with(
        "header",
        header("⚙️ 偏好设置", "blue"),
    ).with("body", body(elements)).json()
}

/// The card with the settings, as the platform takes it.
pub fn render_config_form_card(entries: &[ConfigFormField], conv_id: &str) -> (r: String)
    ensures
        r@ == json::json_string(config_card(model::listv(entries@), conv_id@)),
{
    json_to_string(&config_card_json(entries, conv_id))
}

// ---------------------------------------------------------------------------
// Laws
// ---------------------------------------------------------------------------

/// No row of a table is lost, and none is shown twice: each stands either with its buttons
/// or in the table below.
pub proof fn law_every_row_once(
    rows: Seq<Row>,
    buttons: Seq<CardButtonV>,
    sessions: bool,
    conv: Seq<char>,
    ts: int,
)
    ensures
        paired_rows(rows, buttons, sessions, conv, ts).len() + loose_rows(
            rows,
            buttons,
            sessions,
        ).len() == rows.len(),
        forall|i: int|
            0 <= i < rows.len() ==> if row_buttons(
                buttons,
                #[trigger] rows[i],
                sessions,
            ).len() > 0 {
                paired_rows(rows, buttons, sessions, conv, ts).contains(
                    paired_row(rows[i], buttons, sessions, conv, ts),
                )
            } else {
                loose_rows(rows, buttons, sessions).contains(rows[i])
            },
    decreases rows.len(),
{
    if rows.len() > 0 {
        let less = rows.drop_last();
        law_every_row_once(less, buttons, sessions, conv, ts);
        let paired = paired_rows(rows, buttons, sessions, conv, ts);
        let loose = loose_rows(rows, buttons, sessions);
        assert forall|i: int| 0 <= i < rows.len() implies if row_buttons(
            buttons,
            #[trigger] rows[i],
            sessions,
        ).len() > 0 {
            paired.contains(paired_row(rows[i], buttons, sessions, conv, ts))
        } else {
            loose.contains(rows[i])
        } by {
            if i == rows.len() - 1 {
                if row_buttons(buttons, rows[i], sessions).len() > 0 {
                    assert(paired.last() == paired_row(rows[i], buttons, sessions, conv, ts));
                } else {
                    assert(loose.last() == rows[i]);
                }
            } else {
                assert(less[i] == rows[i]);
                let p = paired_rows(less, buttons, sessions, conv, ts);
                let l = loose_rows(less, buttons, sessions);
                if row_buttons(buttons, rows[i], sessions).len() > 0 {
                    let x = paired_row(rows[i], buttons, sessions, conv, ts);
                    let k = choose|k: int| 0 <= k < p.len() && p[k] == x;
                    assert(paired[k] == x);
                } else {
                    let k = choose|k: int| 0 <= k < l.len() && l[k] == rows[i];
                    assert(loose[k] == rows[i]);
                }
            }
        }
    }
}

/// No button is lost: one that belongs to no row stands below the rows.
pub proof fn law_no_button_lost(
    rows: Seq<Row>,
    buttons: Seq<CardButtonV>,
    sessions: bool,
    conv: Seq<char>,
    ts: int,
    n: nat,
    i: int,
)
    requires
        0 <= i < n <= buttons.len(),
    ensures
        placed(rows, buttons, sessions, i) || loose_buttons(
            rows,
            buttons,
            sessions,
            conv,
            ts,
            n,
        ).contains(command_button(buttons[i], conv, ts)),
    decreases n,
{
    let all = loose_buttons(rows, buttons, sessions, conv, ts, n);
    let before = loose_buttons(rows, buttons, sessions, conv, ts, (n - 1) as nat);
    let b = command_button(buttons[i], conv, ts);
    if !placed(rows, buttons, sessions, i) {
        if i == n - 1 {
            assert(all[before.len() as int] == b);
        } else {
            law_no_button_lost(rows, buttons, sessions, conv, ts, (n - 1) as nat, i);
            let k = choose|k: int| 0 <= k < before.len() && before[k] == b;
            assert(all[k] == b);
        }
    }
}

} // verus!
