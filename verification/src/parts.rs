//! The building blocks of cards.
use vstd::prelude::*;

use crate::digits;
use crate::json::{num, txt, Arr, Json, JsonV, Obj};
use crate::markdown;
use crate::markdown::mask_emails;
use crate::status;
use crate::status::{STOPPED, terminal_footer};
use crate::text;
use crate::text::{cat3, str_eq, take_nonempty};

verus! {

/// A block of markdown.
pub open spec fn markdown_v(content: Seq<char>) -> JsonV {
    JsonV::Obj(map!["tag"@ => JsonV::Str("markdown"@), "content"@ => JsonV::Str(content)])
}

/// A block of markdown in small print.
pub open spec fn small_v(content: Seq<char>) -> JsonV {
    JsonV::Obj(
        map![
            "tag"@ => JsonV::Str("markdown"@),
            "content"@ => JsonV::Str(content),
            "text_size"@ => JsonV::Str("notation"@)
        ],
    )
}

/// A note in small print.
pub open spec fn note_v(text: Seq<char>) -> JsonV {
    small_v(markdown::masked(text))
}

/// A horizontal line.
pub open spec fn line_v() -> JsonV {
    JsonV::Obj(map!["tag"@ => JsonV::Str("hr"@)])
}

/// A text without markup.
pub open spec fn plain_text_v(content: Seq<char>) -> JsonV {
    JsonV::Obj(map!["tag"@ => JsonV::Str("plain_text"@), "content"@ => JsonV::Str(content)])
}

/// The header of a card.
pub open spec fn header_v(title: Seq<char>, template: Seq<char>) -> JsonV {
    JsonV::Obj(map!["title"@ => plain_text_v(title), "template"@ => JsonV::Str(template)])
}

/// What a click on a button sends back.
pub open spec fn callback_v(value: JsonV) -> JsonV {
    JsonV::Arr(
        seq![JsonV::Obj(map!["type"@ => JsonV::Str("callback"@), "value"@ => value])],
    )
}

/// The members of a button.
pub open spec fn button_members(label: Seq<char>, kind: Seq<char>, value: JsonV) -> Map<
    Seq<char>,
    JsonV,
> {
    map![
        "tag"@ => JsonV::Str("button"@),
        "text"@ => plain_text_v(label),
        "type"@ => JsonV::Str(kind),
        "behaviors"@ => callback_v(value)
    ]
}

/// A button.
pub open spec fn button_v(label: Seq<char>, kind: Seq<char>, value: JsonV) -> JsonV {
    JsonV::Obj(button_members(label, kind, value))
}

/// A button as wide as its column.
pub open spec fn wide_button_v(label: Seq<char>, kind: Seq<char>, value: JsonV) -> JsonV {
    JsonV::Obj(button_members(label, kind, value).insert("width"@, JsonV::Str("fill"@)))
}

/// A button that asks back before it does anything.
pub open spec fn confirm_button_v(
    label: Seq<char>,
    kind: Seq<char>,
    value: JsonV,
    question: Seq<char>,
) -> JsonV {
    JsonV::Obj(
        button_members(label, kind, value).insert(
            "confirm"@,
            JsonV::Obj(
                map!["title"@ => plain_text_v("确认执行"@), "text"@ => plain_text_v(question)],
            ),
        ),
    )
}

/// A button that sends off a form.
pub open spec fn submit_button_v(label: Seq<char>, value: JsonV) -> JsonV {
    JsonV::Obj(
        map![
            "tag"@ => JsonV::Str("button"@),
            "name"@ => JsonV::Str("submit_btn"@),
            "text"@ => plain_text_v(label),
            "type"@ => JsonV::Str("primary"@),
            "form_action_type"@ => JsonV::Str("submit"@),
            "behaviors"@ => callback_v(value)
        ],
    )
}

/// A column as wide as what it holds.
pub open spec fn column_v(element: JsonV) -> JsonV {
    JsonV::Obj(
        map![
            "tag"@ => JsonV::Str("column"@),
            "width"@ => JsonV::Str("auto"@),
            "elements"@ => JsonV::Arr(seq![element])
        ],
    )
}

/// Buttons side by side, broken into lines as needed.
pub open spec fn flow_row_v(buttons: Seq<JsonV>) -> JsonV {
    JsonV::Obj(
        map![
            "tag"@ => JsonV::Str("column_set"@),
            "flex_mode"@ => JsonV::Str("flow"@),
            "horizontal_spacing"@ => JsonV::Str("default"@),
            "columns"@ => JsonV::Arr(Seq::new(buttons.len(), |i: int| column_v(buttons[i])))
        ],
    )
}

/// With a member for the sender, where there is one.
pub open spec fn with_sender(
    members: Map<Seq<char>, JsonV>,
    sender: Option<Seq<char>>,
) -> Map<Seq<char>, JsonV> {
    match text::nonempty(sender) {
        Some(s) => members.insert("sender"@, JsonV::Str(s)),
        None => members,
    }
}

/// What a button with a command carries: the command, the conversation, when it was made,
/// and for whom.
pub open spec fn cmd_value_v(
    conv: Seq<char>,
    command: Seq<char>,
    sender: Option<Seq<char>>,
    ts: int,
) -> JsonV {
    JsonV::Obj(
        with_sender(
            map![
                "imagent_cmd"@ => JsonV::Str(command),
                "conv"@ => JsonV::Str(conv),
                "ts"@ => JsonV::Num(digits::dec(ts))
            ],
            sender,
        ),
    )
}

/// The button that stops a task.
pub open spec fn stop_button_v(conv: Seq<char>, sender: Option<Seq<char>>, ts: int) -> JsonV {
    flow_row_v(
        seq![button_v("⏹ 终止"@, "danger"@, cmd_value_v(conv, "/stop"@, sender, ts))],
    )
}

/// The header of a panel that folds.
pub open spec fn panel_header_v(title: Seq<char>) -> JsonV {
    JsonV::Obj(
        map![
            "title"@ => markdown_v(title),
            "vertical_align"@ => JsonV::Str("center"@),
            "icon"@ => JsonV::Obj(
                map![
                    "tag"@ => JsonV::Str("standard_icon"@),
                    "token"@ => JsonV::Str("down-small-ccm_outlined"@),
                    "size"@ => JsonV::Str("16px 16px"@)
                ],
            ),
            "icon_position"@ => JsonV::Str("follow_text"@),
            "icon_expanded_angle"@ => JsonV::Num(digits::dec(-180))
        ],
    )
}

/// A folded panel with small print in it.
pub open spec fn panel_v(title: Seq<char>, border: Seq<char>, content: Seq<char>) -> JsonV {
    JsonV::Obj(
        map![
            "tag"@ => JsonV::Str("collapsible_panel"@),
            "expanded"@ => JsonV::Bool(false),
            "header"@ => panel_header_v(title),
            "border"@ => JsonV::Obj(
                map!["color"@ => JsonV::Str(border), "corner_radius"@ => JsonV::Str("5px"@)],
            ),
            "vertical_spacing"@ => JsonV::Str("8px"@),
            "padding"@ => JsonV::Str("8px 8px 8px 8px"@),
            "elements"@ => JsonV::Arr(seq![small_v(content)])
        ],
    )
}

/// The body of a card.
pub open spec fn body_v(elements: Seq<JsonV>) -> JsonV {
    JsonV::Obj(map!["elements"@ => JsonV::Arr(elements)])
}

/// A card with a header and a body.
pub open spec fn card_v(title: Seq<char>, template: Seq<char>, elements: Seq<JsonV>) -> JsonV {
    JsonV::Obj(
        map![
            "schema"@ => JsonV::Str("2.0"@),
            "header"@ => header_v(title, template),
            "body"@ => body_v(elements)
        ],
    )
}

/// The colour of the header of a task that has ended.
pub open spec fn terminal_template(err: Option<Seq<char>>) -> Seq<char> {
    match err {
        Some(e) => if e == STOPPED@ {
            "grey"@
        } else {
            "red"@
        },
        None => "green"@,
    }
}

/// The header of a task that has ended.
pub open spec fn terminal_header_v(err: Option<Seq<char>>) -> JsonV {
    header_v(status::terminal_text(err), terminal_template(err))
}

/// The colour of the border of a panel of a task that has ended.
pub open spec fn border_color(err: Option<Seq<char>>) -> Seq<char> {
    match err {
        Some(e) => if e == STOPPED@ {
            "grey"@
        } else {
            "red"@
        },
        None => "grey"@,
    }
}

/// The line that names who started a task; none in a private chat.
pub open spec fn sender_anchor(sender: Option<Seq<char>>, is_group: bool) -> Option<JsonV> {
    match text::nonempty(sender) {
        Some(s) => if is_group {
            Some(small_v("<at id=\""@ + s + "\"></at> 发起的任务"@))
        } else {
            None
        },
        None => None,
    }
}

// ---------------------------------------------------------------------------
// Building
// ---------------------------------------------------------------------------

/// A block of markdown.
pub fn markdown_element(content: &str) -> (r: Json)
    ensures
        r@ == markdown_v(content@),
{
    Obj::new().with("tag", txt("markdown")).with("content", txt(content)).json()
}

/// A block of markdown in small print.
pub fn small_element(content: &str) -> (r: Json)
    ensures
        r@ == small_v(content@),
{
    Obj::new().with("tag", txt("markdown")).with("content", txt(content)).with(
        "text_size",
        txt("notation"),
    ).json()
}

/// A note in small print.
pub fn note_element(text: &str) -> (r: Json)
    ensures
        r@ == note_v(text@),
{
    small_element(mask_emails(text).as_str())
}

/// A horizontal line.
pub fn line_element() -> (r: Json)
    ensures
        r@ == line_v(),
{
    Obj::new().with("tag", txt("hr")).json()
}

/// A text without markup.
pub fn plain_text(content: &str) -> (r: Json)
    ensures
        r@ == plain_text_v(content@),
{
    Obj::new().with("tag", txt("plain_text")).with("content", txt(content)).json()
}

/// The header of a card.
pub fn header(title: &str, template: &str) -> (r: Json)
    ensures
        r@ == header_v(title@, template@),
{
    Obj::new().with("title", plain_text(title)).with("template", txt(template)).json()
}

fn callback(value: Json) -> (r: Json)
    ensures
        r@ == callback_v(value@),
{
    Arr::new().with(
        Obj::new().with("type", txt("callback")).with("value", value).json(),
    ).json()
}

fn button_obj(label: &str, kind: &str, value: Json) -> (r: Obj)
    ensures
        r@ == button_members(label@, kind@, value@),
{
    Obj::new().with("tag", txt("button")).with("text", plain_text(label)).with(
        "type",
        txt(kind),
    ).with("behaviors", callback(value))
}

/// A button.
pub fn cb_button(label: &str, btn_type: &str, value: Json) -> (r: Json)
    ensures
        r@ == button_v(label@, btn_type@, value@),
{
    button_obj(label, btn_type, value).json()
}

/// A button as wide as its column.
pub fn wide_button(label: &str, btn_type: &str, value: Json) -> (r: Json)
    ensures
        r@ == wide_button_v(label@, btn_type@, value@),
{
    button_obj(label, btn_type, value).with("width", txt("fill")).json()
}

/// A button that asks back before it does anything.
pub fn cb_button_confirm(label: &str, btn_type: &str, value: Json, confirm_text: &str) -> (r: Json)
    ensures
        r@ == confirm_button_v(label@, btn_type@, value@, confirm_text@),
{
    button_obj(label, btn_type, value).with(
        "confirm",
        Obj::new().with("title", plain_text("确认执行")).with(
            "text",
            plain_text(confirm_text),
        ).json(),
    ).json()
}

/// A button that sends off a form.
pub fn submit_button(label: &str, value: Json) -> (r: Json)
    ensures
        r@ == submit_button_v(label@, value@),
{
    Obj::new().with("tag", txt("button")).with("name", txt("submit_btn")).with(
        "text",
        plain_text(label),
    ).with("type", txt("primary")).with("form_action_type", txt("submit")).with(
        "behaviors",
        callback(value),
    ).json()
}

fn column(element: Json) -> (r: Json)
    ensures
        r@ == column_v(element@),
{
    Obj::new().with("tag", txt("column")).with("width", txt("auto")).with(
        "elements",
        Arr::new().with(element).json(),
    ).json()
}

/// Documents by their views.
pub open spec fn jsons(v: Seq<Json>) -> Seq<JsonV> {
    Seq::new(v.len(), |i: int| v[i]@)
}

/// Buttons side by side, broken into lines as needed.
pub fn flow_button_row(buttons: Vec<Json>) -> (r: Json)
    ensures
        r@ == flow_row_v(jsons(buttons@)),
{
    let ghost all = jsons(buttons@);
    let mut columns = Arr::new();
    for b in it: buttons
        invariant
            jsons(it.seq()) == all,
            columns@ =~= Seq::new(it.index() as nat, |i: int| column_v(all[i])),
    {
        assert(all[it.index() as int] == b@);
        columns = columns.with(column(b));
    }
    Obj::new().with("tag", txt("column_set")).with("flex_mode", txt("flow")).with(
        "horizontal_spacing",
        txt("default"),
    ).with("columns", columns.json()).json()
}

/// A single button in a row of its own.
pub fn button_row(button: Json) -> (r: Json)
    ensures
        r@ == flow_row_v(seq![button@]),
{
    let mut buttons: Vec<Json> = Vec::new();
    buttons.push(button);
    assert(jsons(buttons@) =~= seq![button@]);
    flow_button_row(buttons)
}

/// With a member for the sender, where there is one.
pub fn add_sender(o: Obj, sender: Option<&str>) -> (r: Obj)
    ensures
        r@ == with_sender(o@, text::sview(sender)),
{
    match take_nonempty(sender) {
        Some(s) => o.with("sender", txt(s)),
        None => o,
    }
}

/// What a button with a command carries.
pub fn cmd_value(conv_id: &str, command: &str, sender: Option<&str>, ts: i64) -> (r: Json)
    ensures
        r@ == cmd_value_v(conv_id@, command@, text::sview(sender), ts as int),
{
    add_sender(
        Obj::new().with("imagent_cmd", txt(command)).with("conv", txt(conv_id)).with(
            "ts",
            num(ts),
        ),
        sender,
    ).json()
}

/// The button that stops a task.
pub fn stop_button(conv_id: &str, sender: Option<&str>, ts: i64) -> (r: Json)
    ensures
        r@ == stop_button_v(conv_id@, text::sview(sender), ts as int),
{
    button_row(cb_button("⏹ 终止", "danger", cmd_value(conv_id, "/stop", sender, ts)))
}

/// The header of a panel that folds.
pub fn panel_header(title_md: &str) -> (r: Json)
    ensures
        r@ == panel_header_v(title_md@),
{
    Obj::new().with("title", markdown_element(title_md)).with(
        "vertical_align",
        txt("center"),
    ).with(
        "icon",
        Obj::new().with("tag", txt("standard_icon")).with(
            "token",
            txt("down-small-ccm_outlined"),
        ).with("size", txt("16px 16px")).json(),
    ).with("icon_position", txt("follow_text")).with("icon_expanded_angle", num(-180)).json()
}

/// A folded panel with small print in it.
pub fn panel(title: &str, border: &str, content: &str) -> (r: Json)
    ensures
        r@ == panel_v(title@, border@, content@),
{
    Obj::new().with("tag", txt("collapsible_panel")).with("expanded", Json::Bool(false)).with(
        "header",
        panel_header(title),
    ).with(
        "border",
        Obj::new().with("color", txt(border)).with("corner_radius", txt("5px")).json(),
    ).with("vertical_spacing", txt("8px")).with("padding", txt("8px 8px 8px 8px")).with(
        "elements",
        Arr::new().with(small_element(content)).json(),
    ).json()
}

/// The body of a card.
pub fn body(elements: Arr) -> (r: Json)
    ensures
        r@ == body_v(elements@),
{
    Obj::new().with("elements", elements.json()).json()
}

/// A card with a header and a body.
pub fn card(title: &str, template: &str, elements: Arr) -> (r: Json)
    ensures
        r@ == card_v(title@, template@, elements@),
{
    Obj::new().with("schema", txt("2.0")).with("header", header(title, template)).with(
        "body",
        body(elements),
    ).json()
}

/// The header of a task that has ended.
pub fn terminal_header(err: Option<&str>) -> (r: Json)
    ensures
        r@ == terminal_header_v(text::sview(err)),
{
    let template = match err {
        Some(e) => if str_eq(e, STOPPED) {
            "grey"
        } else {
            "red"
        },
        None => "green",
    };
    header(terminal_footer(err), template)
}

/// The header of a task, where it has ended.
pub fn terminal_header_opt(running: bool, err: Option<&str>) -> (r: Option<Json>)
    ensures
        r is Some <==> !running,
        r matches Some(h) ==> h@ == terminal_header_v(text::sview(err)),
{
    if running {
        None
    } else {
        Some(terminal_header(err))
    }
}

/// The colour of the border of a panel of a task that has ended.
pub fn border_color_of(err: Option<&str>) -> (r: &'static str)
    ensures
        r@ == border_color(text::sview(err)),
{
    match err {
        Some(e) => if str_eq(e, STOPPED) {
            "grey"
        } else {
            "red"
        },
        None => "grey",
    }
}

/// The line that names who started a task; `None` in a private chat.
pub fn sender_anchor_line(sender: Option<&str>, is_group: bool) -> (r: Option<Json>)
    ensures
        crate::model::optv(r) == sender_anchor(text::sview(sender), is_group),
{
    match take_nonempty(sender) {
        Some(s) => if is_group {
            Some(
                small_element(cat3("<at id=\"", s, "\"></at> 发起的任务").as_str()),
            )
        } else {
            None
        },
        None => None,
    }
}

} // verus!
