//! Cards that ask: for a permission, or for an answer to questions.
use vstd::prelude::*;

use crate::card_action;
use crate::clock::now_secs;
use crate::digits;
use crate::digits::dec_usize;
use crate::json;
use crate::json::{
    Arr, Json, json_to_string, json_to_string_pretty, JsonV, num, Obj, parse_json_str, txt,
};
use crate::markdown;
use crate::markdown::{escape_lt, mask_emails, truncate_chars, truncate_str};
use crate::parts;
use crate::parts::{
    add_sender, button_row, card, cb_button, flow_button_row, line_element,
    markdown_element, note_element, plain_text, submit_button, wide_button,
};
use crate::status;
use crate::status::{humanize_ask_timeout, tool_summary};
use crate::text;
use crate::text::{
    cat2, cat3, cat4, cat5, cat6, char_count, str_eq, str_head, str_join, str_trim,
    take_nonblank,
};

verus! {

/// How many characters of a tool's input a card shows.
pub const PERM_DETAIL_MAX: usize = 1000;

// ---------------------------------------------------------------------------
// What the buttons carry
// ---------------------------------------------------------------------------

/// What a button of a question carries: besides what it stands for, the conversation, the
/// request, when it was made, and for whom.
pub open spec fn ask_value(
    what: Map<Seq<char>, JsonV>,
    conv: Seq<char>,
    req: Seq<char>,
    sender: Option<Seq<char>>,
    ts: int,
) -> JsonV {
    JsonV::Obj(
        parts::with_sender(
            what.insert("conv"@, JsonV::Str(conv)).insert("req"@, JsonV::Str(req)).insert(
                "ts"@,
                JsonV::Num(digits::dec(ts)),
            ),
            sender,
        ),
    )
}

/// What a button of an approval carries.
pub open spec fn perm_value(
    act: Seq<char>,
    conv: Seq<char>,
    req: Seq<char>,
    sender: Option<Seq<char>>,
    ts: int,
) -> JsonV {
    ask_value(map!["imagent_perm"@ => JsonV::Str(act)], conv, req, sender, ts)
}

/// What a button of a choice carries.
pub open spec fn choice_value(
    label: Seq<char>,
    conv: Seq<char>,
    req: Seq<char>,
    sender: Option<Seq<char>>,
    ts: int,
) -> JsonV {
    ask_value(map!["imagent_ask"@ => JsonV::Str(label)], conv, req, sender, ts)
}

/// What the button of a form with questions carries.
pub open spec fn form_value(
    conv: Seq<char>,
    req: Seq<char>,
    sender: Option<Seq<char>>,
    ts: int,
) -> JsonV {
    ask_value(map!["imagent_form"@ => JsonV::Str("ask"@)], conv, req, sender, ts)
}

fn ask_value_wrap(what: Obj, conv_id: &str, request_id: &str, sender: Option<&str>, ts: i64) -> (r:
    Json)
    ensures
        r@ == ask_value(what@, conv_id@, request_id@, text::sview(sender), ts as int),
{
    add_sender(
        what.with("conv", txt(conv_id)).with("req", txt(request_id)).with("ts", num(ts)),
        sender,
    ).json()
}

// ---------------------------------------------------------------------------
// Approvals
// ---------------------------------------------------------------------------

/// Whether a tool runs commands of a shell.
pub open spec fn is_shell(tool: Seq<char>) -> bool {
    tool == "Bash"@ || tool == "shell"@
}

/// What is to be approved: the command of a shell, else the whole input, set out in lines.
pub open spec fn detail_raw(tool: Seq<char>, input: Seq<char>) -> Seq<char> {
    match json::parsed_text(input) {
        Some(j) => if is_shell(tool) {
            text::or_text(j.str_at("command"@), input)
        } else {
            json::json_string_pretty(j)
        },
        None => input,
    }
}

/// The line above what is to be approved.
pub open spec fn detail_head(tool: Seq<char>, summary: Seq<char>) -> Seq<char> {
    if summary.len() == 0 || is_shell(tool) {
        "**"@ + tool + "**"@
    } else {
        "**"@ + tool + "** — "@ + markdown::escaped(summary)
    }
}

/// The part that is shown of what is to be approved.
pub open spec fn detail_shown(tool: Seq<char>, input: Seq<char>) -> Seq<char> {
    text::head(detail_raw(tool, input), PERM_DETAIL_MAX as nat)
}

/// The notes on what is to be approved: that it was cut off, and that addresses in it were
/// masked.
pub open spec fn detail_notes(tool: Seq<char>, input: Seq<char>) -> Seq<Seq<char>> {
    (if detail_raw(tool, input).len() > PERM_DETAIL_MAX {
        seq!["…（已截断，仅显示前 "@ + digits::dec(PERM_DETAIL_MAX as int) + " 字符）"@]
    } else {
        Seq::empty()
    }) + (if markdown::masked(detail_shown(tool, input)) != detail_shown(tool, input) {
        seq![
            "⚠️ 邮箱已掩码显示（`[at]`），原命令可直接执行，请勿复制此代码块。"@,
        ]
    } else {
        Seq::empty()
    })
}

/// What is to be approved, as markdown, with a summary of the input.
pub open spec fn detail_text(tool: Seq<char>, input: Seq<char>, summary: Seq<char>) -> Seq<char> {
    let lang = if is_shell(tool) {
        "bash"@
    } else {
        ""@
    };
    let block = detail_head(tool, summary) + "\n```"@ + lang + "\n"@ + markdown::masked(
        detail_shown(tool, input),
    ) + "\n```"@;
    let notes = detail_notes(tool, input);
    if notes.len() > 0 {
        block + "\n\n"@ + text::join(notes, "\n\n"@)
    } else {
        block
    }
}

/// Notes as elements of a card.
pub open spec fn note_list(notes: Seq<Seq<char>>) -> Seq<JsonV> {
    Seq::new(notes.len(), |i: int| parts::note_v(notes[i]))
}

/// One of two columns of the same width.
pub open spec fn half_v(element: JsonV) -> JsonV {
    JsonV::Obj(
        map![
            "tag"@ => JsonV::Str("column"@),
            "width"@ => JsonV::Str("weighted"@),
            "weight"@ => JsonV::Num(digits::dec(1)),
            "elements"@ => JsonV::Arr(seq![element])
        ],
    )
}

/// The elements of an approval.
pub open spec fn perm_elements(
    tool: Seq<char>,
    input: Seq<char>,
    summary: Seq<char>,
    conv: Seq<char>,
    req: Seq<char>,
    sender: Option<Seq<char>>,
    note: Seq<char>,
    ts: int,
) -> Seq<JsonV> {
    seq![parts::markdown_v(detail_text(tool, input, summary)), parts::note_v(note)] + note_list(
        detail_notes(tool, input),
    ) + seq![
        parts::line_v(),
        JsonV::Obj(
            map![
                "tag"@ => JsonV::Str("column_set"@),
                "flex_mode"@ => JsonV::Str("bisect"@),
                "horizontal_spacing"@ => JsonV::Str("default"@),
                "columns"@ => JsonV::Arr(
                    seq![
                        half_v(
                            parts::wide_button_v(
                                "允许"@,
                                "primary_filled"@,
                                perm_value("allow"@, conv, req, sender, ts),
                            ),
                        ),
                        half_v(
                            parts::wide_button_v(
                                "⛔ 拒绝"@,
                                "danger_filled"@,
                                perm_value("deny"@, conv, req, sender, ts),
                            ),
                        ),
                    ],
                )
            ],
        ),
        parts::wide_button_v(
            "♾️ 本次会话始终允许"@,
            "default"@,
            perm_value("always"@, conv, req, sender, ts),
        ),
    ]
}

/// An approval, with a summary of the input.
pub open spec fn perm_card_with(
    tool: Seq<char>,
    input: Seq<char>,
    summary: Seq<char>,
    conv: Seq<char>,
    req: Seq<char>,
    sender: Option<Seq<char>>,
    note: Seq<char>,
    ts: int,
) -> JsonV {
    parts::card_v(
        "🔐 权限审批"@,
        "orange"@,
        perm_elements(tool, input, summary, conv, req, sender, note, ts),
    )
}

/// An approval.
pub open spec fn perm_card(
    tool: Seq<char>,
    input: Seq<char>,
    conv: Seq<char>,
    req: Seq<char>,
    sender: Option<Seq<char>>,
    note: Seq<char>,
    ts: int,
) -> JsonV {
    perm_card_with(tool, input, status::input_summary(input), conv, req, sender, note, ts)
}

/// An approval that is drawn anew with another note changes in nothing but the note: what is
/// asked, and what the buttons carry, stays.
pub proof fn law_only_the_note_changes(
    tool: Seq<char>,
    input: Seq<char>,
    summary: Seq<char>,
    conv: Seq<char>,
    req: Seq<char>,
    sender: Option<Seq<char>>,
    note: Seq<char>,
    other: Seq<char>,
    ts: int,
)
    ensures
        perm_elements(tool, input, summary, conv, req, sender, other, ts) == perm_elements(
            tool,
            input,
            summary,
            conv,
            req,
            sender,
            note,
            ts,
        ).update(1, parts::note_v(other)),
{
    let before = perm_elements(tool, input, summary, conv, req, sender, note, ts);
    let after = perm_elements(tool, input, summary, conv, req, sender, other, ts);
    assert(after =~= before.update(1, parts::note_v(other)));
}

/// The note of a question: when it is answered with no by itself.
pub open spec fn default_note(timeout_secs: int) -> Seq<char> {
    "⏱️ 将在 "@ + status::humanized(timeout_secs)
        + "后自动拒绝 · 回复 always = 本次会话内此工具不再询问"@
}

/// The note of a question: when it is answered with no by itself.
pub fn perm_note_default(ask_timeout_secs: u64) -> (r: String)
    ensures
        r@ == default_note(ask_timeout_secs as int),
{
    cat3(
        "⏱️ 将在 ",
        humanize_ask_timeout(ask_timeout_secs).as_str(),
        "后自动拒绝 · 回复 always = 本次会话内此工具不再询问",
    )
}

fn shell(tool: &str) -> (r: bool)
    ensures
        r == is_shell(tool@),
{
    str_eq(tool, "Bash") || str_eq(tool, "shell")
}

fn raw_detail(tool: &str, input: &str) -> (r: String)
    ensures
        r@ == detail_raw(tool@, input@),
{
    match parse_json_str(input) {
        Some(j) => if shell(tool) {
            match j.str_at("command") {
                Some(s) => s.to_owned(),
                None => input.to_owned(),
            }
        } else {
            json_to_string_pretty(&j)
        },
        None => input.to_owned(),
    }
}

/// What is to be approved, as markdown, with a summary of the input, and the notes on it.
pub fn perm_detail_md(tool_name: &str, input: &str, summary: &str) -> (r: (String, Vec<String>))
    ensures
        r.0@ == detail_text(tool_name@, input@, summary@),
        text::views(r.1@) == detail_notes(tool_name@, input@),
{
    let is_bash = shell(tool_name);
    let top = if summary.is_empty() || is_bash {
        cat3("**", tool_name, "**")
    } else {
        cat4("**", tool_name, "** — ", escape_lt(summary).as_str())
    };
    let raw = raw_detail(tool_name, input);
    let truncated = char_count(raw.as_str()) > PERM_DETAIL_MAX;
    let shown = truncate_str(raw.as_str(), PERM_DETAIL_MAX);
    let safe = mask_emails(shown.as_str());
    let lang = if is_bash {
        "bash"
    } else {
        ""
    };
    let block = cat6(top.as_str(), "\n```", lang, "\n", safe.as_str(), "\n```");
    let mut notes: Vec<String> = Vec::new();
    if truncated {
        notes.push(
            cat3("…（已截断，仅显示前 ", dec_usize(PERM_DETAIL_MAX).as_str(), " 字符）"),
        );
    }
    if !str_eq(safe.as_str(), shown.as_str()) {
        notes.push(
            "⚠️ 邮箱已掩码显示（`[at]`），原命令可直接执行，请勿复制此代码块。".to_owned(),
        );
    }
    assert(text::views(notes@) =~= detail_notes(tool_name@, input@));
    assert(notes@.len() == text::views(notes@).len());
    let md = if notes.len() > 0 {
        cat3(block.as_str(), "\n\n", str_join(&notes, "\n\n").as_str())
    } else {
        block
    };
    (md, notes)
}

fn half(element: Json) -> (r: Json)
    ensures
        r@ == half_v(element@),
{
    Obj::new().with("tag", txt("column")).with("width", txt("weighted")).with(
        "weight",
        num(1),
    ).with("elements", Arr::new().with(element).json()).json()
}

fn perm_button(act: &str, conv_id: &str, request_id: &str, sender: Option<&str>, ts: i64) -> (r:
    Json)
    ensures
        r@ == perm_value(act@, conv_id@, request_id@, text::sview(sender), ts as int),
{
    ask_value_wrap(
        Obj::new().with("imagent_perm", txt(act)),
        conv_id,
        request_id,
        sender,
        ts,
    )
}

fn add_notes(elements: Arr, notes: &Vec<String>) -> (r: Arr)
    ensures
        r@ == elements@ + note_list(text::views(notes@)),
{
    let ghost before = elements@;
    let ghost all = note_list(text::views(notes@));
    let mut out = elements;
    let mut i: usize = 0;
    assert(out@ =~= before + all.subrange(0, 0));
    while i < notes.len()
        invariant
            i <= notes@.len(),
            all == note_list(text::views(notes@)),
            out@ =~= before + all.subrange(0, i as int),
        decreases notes@.len() - i,
    {
        assert(all[i as int] == parts::note_v(notes@[i as int]@));
        out = out.with(note_element(notes[i].as_str()));
        i += 1;
    }
    assert(all.subrange(0, all.len() as int) =~= all);
    out
}

/// An approval with a summary of the input, whose buttons are made at a given time.
pub fn permission_card_with(
    tool_name: &str,
    input: &str,
    summary: &str,
    conv_id: &str,
    request_id: &str,
    sender: Option<&str>,
    note: &str,
    ts: i64,
) -> (r: Json)
    ensures
        r@ == perm_card_with(
            tool_name@,
            input@,
            summary@,
            conv_id@,
            request_id@,
            text::sview(sender),
            note@,
            ts as int,
        ),
{
    let (detail, notes) = perm_detail_md(tool_name, input, summary);
    let allow = wide_button(
        "允许",
        "primary_filled",
        perm_button("allow", conv_id, request_id, sender, ts),
    );
    let deny = wide_button(
        "⛔ 拒绝",
        "danger_filled",
        perm_button("deny", conv_id, request_id, sender, ts),
    );
    let always = wide_button(
        "♾️ 本次会话始终允许",
        "default",
        perm_button("always", conv_id, request_id, sender, ts),
    );
    let columns = Arr::new().with(half(allow)).with(half(deny));
    assert(columns@ =~= seq![half_v(allow@), half_v(deny@)]);
    let row = Obj::new().with("tag", txt("column_set")).with("flex_mode", txt("bisect")).with(
        "horizontal_spacing",
        txt("default"),
    ).with("columns", columns.json()).json();
    let elements = add_notes(
        Arr::new().with(markdown_element(detail.as_str())).with(note_element(note)),
        &notes,
    ).with(line_element()).with(row).with(always);
    assert(elements@ =~= perm_elements(
        tool_name@,
        input@,
        summary@,
        conv_id@,
        request_id@,
        text::sview(sender),
        note@,
        ts as int,
    ));
    card("🔐 权限审批", "orange", elements)
}

/// An approval whose buttons are made at a given time.
pub fn permission_card_at(
    tool_name: &str,
    input: &str,
    conv_id: &str,
    request_id: &str,
    sender: Option<&str>,
    note: &str,
    ts: i64,
) -> (r: Json)
    ensures
        r@ == perm_card(
            tool_name@,
            input@,
            conv_id@,
            request_id@,
            text::sview(sender),
            note@,
            ts as int,
        ),
{
    permission_card_with(
        tool_name,
        input,
        tool_summary(input).as_str(),
        conv_id,
        request_id,
        sender,
        note,
        ts,
    )
}

/// An approval with a note of its own, as the platform takes it. Its buttons are made now.
pub fn render_permission_card_note(
    tool_name: &str,
    input: &str,
    conv_id: &str,
    request_id: &str,
    sender: Option<&str>,
    note: &str,
) -> (r: String)
    ensures
        exists|ts: i64|
            r@ == #[trigger] json::json_string(
                perm_card(
                    tool_name@,
                    input@,
                    conv_id@,
                    request_id@,
                    text::sview(sender),
                    note@,
                    ts as int,
                ),
            ),
{
    let ts: i64 = now_secs();
    let j = permission_card_at(tool_name, input, conv_id, request_id, sender, note, ts);
    let r = json_to_string(&j);
    assert(r@ == json::json_string(
        perm_card(
            tool_name@,
            input@,
            conv_id@,
            request_id@,
            text::sview(sender),
            note@,
            ts as int,
        ),
    ));
    r
}

/// An approval, as the platform takes it. Its buttons are made now.
pub fn render_permission_card(
    tool_name: &str,
    input: &str,
    conv_id: &str,
    request_id: &str,
    sender: Option<&str>,
    ask_timeout_secs: u64,
) -> (r: String)
    ensures
        exists|ts: i64|
            r@ == #[trigger] json::json_string(
                perm_card(
                    tool_name@,
                    input@,
                    conv_id@,
                    request_id@,
                    text::sview(sender),
                    default_note(ask_timeout_secs as int),
                    ts as int,
                ),
            ),
{
    render_permission_card_note(
        tool_name,
        input,
        conv_id,
        request_id,
        sender,
        perm_note_default(ask_timeout_secs).as_str(),
    )
}

/// An approval that is over without an answer.
pub open spec fn cancelled_card(tool: Seq<char>) -> JsonV {
    parts::card_v(
        "⏹ 询问已结束"@,
        "grey"@,
        seq![
            parts::markdown_v("`"@ + tool + "` 的本次询问已结束，无需处理。"@),
            parts::note_v("原因：任务中断 · 审批超时 · 被后续询问取代"@),
        ],
    )
}

/// An approval that is over without an answer, as the platform takes it.
pub fn render_permission_card_cancelled(tool_name: &str) -> (r: String)
    ensures
        r@ == json::json_string(cancelled_card(tool_name@)),
{
    let elements = Arr::new().with(
        markdown_element(
            cat3("`", tool_name, "` 的本次询问已结束，无需处理。").as_str(),
        ),
    ).with(note_element("原因：任务中断 · 审批超时 · 被后续询问取代"));
    assert(elements@ =~= seq![
        parts::markdown_v("`"@ + tool_name@ + "` 的本次询问已结束，无需处理。"@),
        parts::note_v("原因：任务中断 · 审批超时 · 被后续询问取代"@),
    ]);
    json_to_string(&card("⏹ 询问已结束", "grey", elements))
}

/// An approval that a later one has replaced.
pub open spec fn superseded_card(tool: Seq<char>) -> JsonV {
    parts::card_v(
        "🔁 已被新询问取代"@,
        "grey"@,
        seq![
            parts::markdown_v(
                "`"@ + tool
                    + "` 的询问已被更新的询问取代（agent 并发请求时旧请求自动拒绝），请处理最新一张。"@,
            ),
        ],
    )
}

/// An approval that a later one has replaced, as the platform takes it.
pub fn render_permission_card_superseded(tool_name: &str) -> (r: String)
    ensures
        r@ == json::json_string(superseded_card(tool_name@)),
{
    let elements = Arr::new().with(
        markdown_element(
            cat3(
                "`",
                tool_name,
                "` 的询问已被更新的询问取代（agent 并发请求时旧请求自动拒绝），请处理最新一张。",
            ).as_str(),
        ),
    );
    json_to_string(&card("🔁 已被新询问取代", "grey", elements))
}

/// An approval that has been answered.
pub open spec fn resolved_card(tool: Seq<char>, allowed: bool) -> JsonV {
    let mark = if allowed {
        "✅"@
    } else {
        "⛔"@
    };
    let verb = if allowed {
        "已批准"@
    } else {
        "已拒绝"@
    };
    parts::card_v(
        mark + " "@ + verb,
        "grey"@,
        seq![
            parts::markdown_v("`"@ + tool + "` 的执行询问"@ + verb + "，任务继续处理中。"@),
        ],
    )
}

/// An approval that has been answered, as the platform takes it.
pub fn render_permission_card_resolved(tool_name: &str, allowed: bool) -> (r: String)
    ensures
        r@ == json::json_string(resolved_card(tool_name@, allowed)),
{
    let mark = if allowed {
        "✅"
    } else {
        "⛔"
    };
    let verb = if allowed {
        "已批准"
    } else {
        "已拒绝"
    };
    let elements = Arr::new().with(
        markdown_element(
            cat5("`", tool_name, "` 的执行询问", verb, "，任务继续处理中。").as_str(),
        ),
    );
    json_to_string(&card(cat3(mark, " ", verb).as_str(), "grey", elements))
}

/// A question that has been answered.
pub open spec fn question_resolved_card(choice: Seq<char>) -> JsonV {
    parts::card_v(
        "✅ 已记录选择"@,
        "grey"@,
        seq![parts::markdown_v("已记录你的选择："@ + choice + "。任务继续处理中。"@)],
    )
}

/// A question that has been answered, as the platform takes it.
pub fn render_question_card_resolved(choice: &str) -> (r: String)
    ensures
        r@ == json::json_string(question_resolved_card(choice@)),
{
    let elements = Arr::new().with(
        markdown_element(
            cat3("已记录你的选择：", choice, "。任务继续处理中。").as_str(),
        ),
    );
    json_to_string(&card("✅ 已记录选择", "grey", elements))
}

// ---------------------------------------------------------------------------
// Questions
// ---------------------------------------------------------------------------

/// The first of the questions.
pub open spec fn first_question(v: JsonV) -> Option<JsonV> {
    match v.at("questions"@) {
        JsonV::Arr(items) => if items.len() > 0 {
            Some(items[0])
        } else {
            None
        },
        JsonV::Obj(m) => if m.contains_key("0"@) {
            Some(m["0"@])
        } else {
            None
        },
        _ => None,
    }
}

/// The labels among some options.
pub open spec fn labels(options: Seq<JsonV>) -> Seq<Seq<char>>
    decreases options.len(),
{
    if options.len() == 0 {
        Seq::empty()
    } else {
        let before = labels(options.drop_last());
        match options.last().str_at("label"@) {
            Some(l) => before.push(l),
            None => before,
        }
    }
}

/// An option of a form.
pub open spec fn option_v(label: Seq<char>, value: Seq<char>) -> JsonV {
    JsonV::Obj(map!["text"@ => parts::plain_text_v(label), "value"@ => JsonV::Str(value)])
}

/// Labels as options of a form.
pub open spec fn label_options(all: Seq<Seq<char>>) -> Seq<JsonV> {
    Seq::new(all.len(), |i: int| option_v(all[i], all[i]))
}

/// A field of a form: boxes to tick for several answers, a list to choose from for one.
pub open spec fn field_v(multi: bool, name: Seq<char>, options: Seq<JsonV>) -> JsonV {
    JsonV::Obj(
        map![
            "tag"@ => JsonV::Str(
                if multi {
                    "checkbox"@
                } else {
                    "select_static"@
                },
            ),
            "name"@ => JsonV::Str(name),
            "options"@ => JsonV::Arr(options)
        ],
    )
}

/// A form.
pub open spec fn form_v(name: Seq<char>, elements: Seq<JsonV>) -> JsonV {
    JsonV::Obj(
        map![
            "tag"@ => JsonV::Str("form"@),
            "name"@ => JsonV::Str(name),
            "elements"@ => JsonV::Arr(elements)
        ],
    )
}

/// The buttons of a question, one for each label, the first of which stands out.
pub open spec fn choice_buttons(
    all: Seq<Seq<char>>,
    conv: Seq<char>,
    req: Seq<char>,
    sender: Option<Seq<char>>,
    ts: int,
) -> Seq<JsonV> {
    Seq::new(
        all.len(),
        |i: int|
            parts::button_v(
                digits::dec(i + 1) + ". "@ + all[i],
                if i == 0 {
                    "primary"@
                } else {
                    "default"@
                },
                choice_value(all[i], conv, req, sender, ts),
            ),
    )
}

/// What a question is answered with: a form where several answers are possible or the
/// options are many, else buttons.
pub open spec fn question_control(
    all: Seq<Seq<char>>,
    multi: bool,
    conv: Seq<char>,
    req: Seq<char>,
    sender: Option<Seq<char>>,
    ts: int,
) -> JsonV {
    if multi || all.len() > 4 {
        form_v(
            "imagent_ask"@,
            seq![
                parts::markdown_v(
                    if multi {
                        "勾选后点「提交」，一次回传全部选择"@
                    } else {
                        "下拉选择后点「提交」"@
                    },
                ),
                field_v(multi, "ask_opt"@, label_options(all)),
                parts::line_v(),
                parts::flow_row_v(seq![parts::submit_button_v("提交"@, form_value(conv, req, sender, ts))]),
            ],
        )
    } else {
        parts::flow_row_v(choice_buttons(all, conv, req, sender, ts))
    }
}

/// Whether a question takes several answers.
pub open spec fn is_multi(q: JsonV) -> bool {
    q.at("multiSelect"@) == JsonV::Bool(true)
}

/// A card with one question.
pub open spec fn single_question_card(
    question: Seq<char>,
    all: Seq<Seq<char>>,
    multi: bool,
    conv: Seq<char>,
    req: Seq<char>,
    sender: Option<Seq<char>>,
    note: Seq<char>,
    ts: int,
) -> JsonV {
    parts::card_v(
        "❓ 需要你的输入"@,
        "blue"@,
        seq![
            parts::markdown_v(markdown::escaped(markdown::masked("❓ "@ + question))),
            parts::note_v(note),
            parts::line_v(),
            question_control(all, multi, conv, req, sender, ts),
        ],
    )
}

/// Whether every option has a label.
pub open spec fn all_labelled(options: Seq<JsonV>) -> bool {
    forall|i: int| 0 <= i < options.len() ==> (#[trigger] options[i]).str_at("label"@) is Some
}

/// The label of an option.
pub open spec fn label_of(o: JsonV) -> Seq<char> {
    text::trim(text::or_text(o.str_at("label"@), Seq::empty()))
}

/// The options whose label is more than white space.
pub open spec fn kept_options(options: Seq<JsonV>) -> Seq<JsonV>
    decreases options.len(),
{
    if options.len() == 0 {
        Seq::empty()
    } else {
        let before = kept_options(options.drop_last());
        if label_of(options.last()).len() > 0 {
            before.push(options.last())
        } else {
            before
        }
    }
}

/// The line of an option, with its description where it has one.
pub open spec fn option_line(o: JsonV) -> Seq<char> {
    match text::nonblank(o.str_at("description"@)) {
        Some(d) => "- **"@ + label_of(o) + "**："@ + markdown::shortened(text::trim(d), 60),
        None => "- **"@ + label_of(o) + "**"@,
    }
}

/// What a question among several is called: its header, or the beginning of the question.
pub open spec fn question_name(q: JsonV, question: Seq<char>) -> Seq<char> {
    match text::nonblank(q.str_at("header"@)) {
        Some(h) => text::trim(h),
        None => text::head(question, 10),
    }
}

/// The lines of a question among several.
pub open spec fn question_lines(q: JsonV, i: int) -> Seq<Seq<char>> {
    let question = text::trim(text::or_text(q.str_at("question"@), Seq::empty()));
    let kept = kept_options(q.at("options"@).elements());
    seq!["**"@ + digits::dec(i + 1) + ". "@ + question_name(q, question) + "** — "@ + question]
        + Seq::new(kept.len(), |k: int| option_line(kept[k]))
}

/// The options of a question among several. Each carries the name of the question.
pub open spec fn question_options(q: JsonV) -> Seq<JsonV> {
    let question = text::trim(text::or_text(q.str_at("question"@), Seq::empty()));
    let kept = kept_options(q.at("options"@).elements());
    Seq::new(
        kept.len(),
        |k: int|
            option_v(
                label_of(kept[k]),
                question_name(q, question) + "="@ + label_of(kept[k]),
            ),
    )
}

/// The field for a free answer.
pub open spec fn free_input_v(i: int) -> JsonV {
    JsonV::Obj(
        map![
            "tag"@ => JsonV::Str("input"@),
            "name"@ => JsonV::Str(card_action::free_field(i)),
            "placeholder"@ => parts::plain_text_v("或自行输入（填写则优先于上方选项）"@),
            "max_length"@ => JsonV::Num(digits::dec(300))
        ],
    )
}

/// Whether a question among several can be shown.
pub open spec fn question_ok(q: JsonV) -> bool {
    &&& q.str_at("question"@) is Some
    &&& q.at("options"@) is Arr
    &&& all_labelled(q.at("options"@).elements())
    &&& kept_options(q.at("options"@).elements()).len() > 0
}

/// A question among several: its lines, the field with its options, and one for a free
/// answer.
pub open spec fn question_section(q: JsonV, i: int) -> Seq<JsonV> {
    seq![
        parts::markdown_v(
            markdown::escaped(markdown::masked(text::join(question_lines(q, i), "\n"@))),
        ),
        field_v(is_multi(q), card_action::choice_field(i), question_options(q)),
        free_input_v(i),
    ]
}

/// The first questions of several.
pub open spec fn question_sections(qs: Seq<JsonV>) -> Seq<JsonV>
    decreases qs.len(),
{
    if qs.len() == 0 {
        Seq::empty()
    } else {
        question_sections(qs.drop_last()) + question_section(qs.last(), qs.len() - 1)
    }
}

/// A card with several questions, all answered at once.
pub open spec fn multi_question_card(
    qs: Seq<JsonV>,
    conv: Seq<char>,
    req: Seq<char>,
    sender: Option<Seq<char>>,
    note: Seq<char>,
    ts: int,
) -> JsonV {
    parts::card_v(
        "❓ 需要你的输入（多题一次提交）"@,
        "blue"@,
        seq![
            form_v(
                "imagent_ask"@,
                seq![parts::note_v(note), parts::line_v()] + question_sections(qs) + seq![
                    parts::line_v(),
                    parts::flow_row_v(
                        seq![
                            parts::submit_button_v(
                                "提交全部答案"@,
                                form_value(conv, req, sender, ts),
                            ),
                        ],
                    ),
                ],
            ),
        ],
    )
}

/// Whether all of several questions can be shown.
pub open spec fn questions_ok(qs: Seq<JsonV>) -> bool {
    forall|i: int| 0 <= i < qs.len() ==> question_ok(#[trigger] qs[i])
}

/// The card for some questions; `None` where they cannot be shown.
pub open spec fn question_card(
    v: JsonV,
    conv: Seq<char>,
    req: Seq<char>,
    sender: Option<Seq<char>>,
    note: Seq<char>,
    ts: int,
) -> Option<JsonV> {
    match first_question(v) {
        Some(q) => match (q.str_at("question"@), q.at("options"@)) {
            (Some(raw), JsonV::Arr(options)) => if text::trim(raw).len() == 0 || labels(options).len()
                == 0 {
                None
            } else if v.at("questions"@).elements().len() > 1 {
                if questions_ok(v.at("questions"@).elements()) {
                    Some(
                        multi_question_card(
                            v.at("questions"@).elements(),
                            conv,
                            req,
                            sender,
                            note,
                            ts,
                        ),
                    )
                } else {
                    None
                }
            } else {
                Some(
                    single_question_card(
                        text::trim(raw),
                        labels(options),
                        is_multi(q),
                        conv,
                        req,
                        sender,
                        note,
                        ts,
                    ),
                )
            },
            _ => None,
        },
        None => None,
    }
}

fn read_labels(options: &Vec<Json>) -> (r: Vec<String>)
    ensures
        text::views(r@) == labels(json::items_view(options@)),
{
    proof {
        json::lemma_items_index(options@);
    }
    let ghost all = json::items_view(options@);
    let mut out: Vec<String> = Vec::new();
    let mut i: usize = 0;
    assert(text::views(out@) =~= labels(all.subrange(0, 0)));
    while i < options.len()
        invariant
            i <= options@.len(),
            all == json::items_view(options@),
            all.len() == options@.len(),
            forall|k: int| 0 <= k < options@.len() ==> #[trigger] all[k] == options@[k]@,
            text::views(out@) == labels(all.subrange(0, i as int)),
        decreases options@.len() - i,
    {
        let ghost before = out@;
        proof {
            assert(all.subrange(0, i + 1).drop_last() =~= all.subrange(0, i as int));
            assert(all.subrange(0, i + 1).last() == options@[i as int]@);
        }
        match options[i].str_at("label") {
            Some(l) => {
                out.push(l.to_owned());
                assert(text::views(out@) =~= text::views(before).push(l@));
            },
            None => {},
        }
        i += 1;
    }
    assert(all.subrange(0, all.len() as int) =~= all);
    out
}

fn option_element(label: &str, value: &str) -> (r: Json)
    ensures
        r@ == option_v(label@, value@),
{
    Obj::new().with("text", plain_text(label)).with("value", txt(value)).json()
}

fn field_element(multi: bool, name: &str, options: Arr) -> (r: Json)
    ensures
        r@ == field_v(multi, name@, options@),
{
    let tag = if multi {
        "checkbox"
    } else {
        "select_static"
    };
    Obj::new().with("tag", txt(tag)).with("name", txt(name)).with("options", options.json()).json()
}

fn form_element(name: &str, elements: Arr) -> (r: Json)
    ensures
        r@ == form_v(name@, elements@),
{
    Obj::new().with("tag", txt("form")).with("name", txt(name)).with(
        "elements",
        elements.json(),
    ).json()
}

fn ask_form_value(conv_id: &str, request_id: &str, sender: Option<&str>, ts: i64) -> (r: Json)
    ensures
        r@ == form_value(conv_id@, request_id@, text::sview(sender), ts as int),
{
    ask_value_wrap(
        Obj::new().with("imagent_form", txt("ask")),
        conv_id,
        request_id,
        sender,
        ts,
    )
}

fn question_control_at(
    all: &Vec<String>,
    multi: bool,
    conv_id: &str,
    request_id: &str,
    sender: Option<&str>,
    ts: i64,
) -> (r: Json)
    ensures
        r@ == question_control(
            text::views(all@),
            multi,
            conv_id@,
            request_id@,
            text::sview(sender),
            ts as int,
        ),
{
    let ghost texts = text::views(all@);
    assert(all@.len() == texts.len());
    let mut i: usize = 0;
    if multi || all.len() > 4 {
        let mut options = Arr::new();
        assert(options@ =~= label_options(texts).subrange(0, 0));
        while i < all.len()
            invariant
                i <= all@.len(),
                texts == text::views(all@),
                options@ =~= label_options(texts).subrange(0, i as int),
            decreases all@.len() - i,
        {
            options = options.with(option_element(all[i].as_str(), all[i].as_str()));
            assert(label_options(texts)[i as int] == option_v(texts[i as int], texts[i as int]));
            i += 1;
        }
        assert(options@ =~= label_options(texts));
        let tip = if multi {
            "勾选后点「提交」，一次回传全部选择"
        } else {
            "下拉选择后点「提交」"
        };
        let elements = Arr::new().with(markdown_element(tip)).with(
            field_element(multi, "ask_opt", options),
        ).with(line_element()).with(
            button_row(
                submit_button("提交", ask_form_value(conv_id, request_id, sender, ts)),
            ),
        );
        assert(elements@ =~= seq![
            parts::markdown_v(tip@),
            field_v(multi, "ask_opt"@, label_options(texts)),
            parts::line_v(),
            parts::flow_row_v(
                seq![
                    parts::submit_button_v(
                        "提交"@,
                        form_value(conv_id@, request_id@, text::sview(sender), ts as int),
                    ),
                ],
            ),
        ]);
        form_element("imagent_ask", elements)
    } else {
        let mut buttons: Vec<Json> = Vec::new();
        let ghost want = choice_buttons(
            texts,
            conv_id@,
            request_id@,
            text::sview(sender),
            ts as int,
        );
        while i < all.len()
            invariant
                i <= all@.len(),
                all@.len() <= 4,
                texts == text::views(all@),
                want == choice_buttons(
                    texts,
                    conv_id@,
                    request_id@,
                    text::sview(sender),
                    ts as int,
                ),
                buttons@.len() == i,
                forall|k: int| 0 <= k < i ==> #[trigger] buttons@[k]@ == want[k],
            decreases all@.len() - i,
        {
            let kind = if i == 0 {
                "primary"
            } else {
                "default"
            };
            let label = all[i].as_str();
            assert(label@ == texts[i as int]);
            let value = ask_value_wrap(
                Obj::new().with("imagent_ask", txt(label)),
                conv_id,
                request_id,
                sender,
                ts,
            );
            buttons.push(
                cb_button(cat3(dec_usize(i + 1).as_str(), ". ", label).as_str(), kind, value),
            );
            i += 1;
        }
        assert(parts::jsons(buttons@) =~= want);
        flow_button_row(buttons)
    }
}

/// The options of a question that have a label, or `None` where one of them has none at all.
fn read_options(options: &Vec<Json>, name: &str, lines: &mut Vec<String>) -> (r: Option<Arr>)
    ensures
        ({
            let all = json::items_view(options@);
            let kept = kept_options(all);
            &&& r is Some <==> all_labelled(all)
            &&& r matches Some(a) ==> a@ == Seq::new(
                kept.len(),
                |k: int| option_v(label_of(kept[k]), name@ + "="@ + label_of(kept[k])),
            )
            &&& r is Some ==> text::views(final(lines)@) == text::views(old(lines)@) + Seq::new(
                kept.len(),
                |k: int| option_line(kept[k]),
            )
        }),
{
    proof {
        json::lemma_items_index(options@);
    }
    let ghost all = json::items_view(options@);
    let ghost lines0 = text::views(lines@);
    let mut out = Arr::new();
    let mut i: usize = 0;
    let ghost mut kept = kept_options(all.subrange(0, 0));
    assert(kept =~= Seq::empty());
    assert(lines0 =~= lines0 + Seq::new(kept.len(), |k: int| option_line(kept[k])));
    while i < options.len()
        invariant
            i <= options@.len(),
            all == json::items_view(options@),
            all.len() == options@.len(),
            forall|k: int| 0 <= k < options@.len() ==> #[trigger] all[k] == options@[k]@,
            forall|k: int| 0 <= k < i ==> (#[trigger] all[k]).str_at("label"@) is Some,
            kept == kept_options(all.subrange(0, i as int)),
            out@ =~= Seq::new(
                kept.len(),
                |k: int| option_v(label_of(kept[k]), name@ + "="@ + label_of(kept[k])),
            ),
            text::views(lines@) =~= lines0 + Seq::new(kept.len(), |k: int| option_line(kept[k])),
        decreases options@.len() - i,
    {
        let o = &options[i];
        let ghost lines1 = lines@;
        let ghost before = kept;
        proof {
            assert(all[i as int] == o@);
            assert(all.subrange(0, i + 1).drop_last() =~= all.subrange(0, i as int));
            assert(all.subrange(0, i + 1).last() == o@);
        }
        let label = match o.str_at("label") {
            Some(l) => str_trim(l),
            None => {
                return None;
            },
        };
        proof {
            kept = kept_options(all.subrange(0, i + 1));
        }
        if !label.as_str().is_empty() {
            let line = match take_nonblank(o.str_at("description")) {
                Some(d) => cat4(
                    "- **",
                    label.as_str(),
                    "**：",
                    truncate_chars(str_trim(d).as_str(), 60).as_str(),
                ),
                None => cat3("- **", label.as_str(), "**"),
            };
            assert(line@ == option_line(o@));
            lines.push(line);
            assert(text::views(lines@) =~= text::views(lines1).push(line@));
            out =
            out.with(
                option_element(
                    label.as_str(),
                    cat3(name, "=", label.as_str()).as_str(),
                ),
            );
            assert(kept =~= before.push(o@));
        }
        i += 1;
    }
    assert(all.subrange(0, all.len() as int) =~= all);
    Some(out)
}

fn free_input(i: usize) -> (r: Json)
    ensures
        r@ == free_input_v(i as int),
{
    Obj::new().with("tag", txt("input")).with(
        "name",
        txt(cat3("ask_opt_", dec_usize(i).as_str(), "_free").as_str()),
    ).with(
        "placeholder",
        plain_text("或自行输入（填写则优先于上方选项）"),
    ).with("max_length", num(300)).json()
}

fn bool_at(j: &Json, key: &str) -> (r: bool)
    ensures
        r == (j@.at(key@) == JsonV::Bool(true)),
{
    match j.at(key) {
        Json::Bool(b) => *b,
        _ => false,
    }
}

fn add_question(elements: Arr, q: &Json, i: usize) -> (r: Option<Arr>)
    requires
        i < usize::MAX,
    ensures
        r is Some <==> question_ok(q@),
        r matches Some(a) ==> a@ == elements@ + question_section(q@, i as int),
{
    let question = match q.str_at("question") {
        Some(s) => str_trim(s),
        None => {
            return None;
        },
    };
    let name = match take_nonblank(q.str_at("header")) {
        Some(h) => str_trim(h),
        None => str_head(question.as_str(), 10),
    };
    let options = match q.at("options") {
        Json::Arr(o) => o,
        _ => {
            return None;
        },
    };
    let mut lines: Vec<String> = Vec::new();
    lines.push(
        cat6(
            "**",
            dec_usize(i + 1).as_str(),
            ". ",
            name.as_str(),
            "** — ",
            question.as_str(),
        ),
    );
    assert(text::views(lines@) =~= seq![lines@[0]@]);
    let values = match read_options(options, name.as_str(), &mut lines) {
        Some(a) => a,
        None => {
            return None;
        },
    };
    assert(text::views(lines@) =~= question_lines(q@, i as int));
    assert(values@ =~= question_options(q@));
    if values.is_empty() {
        return None;
    }
    let text = escape_lt(mask_emails(str_join(&lines, "\n").as_str()).as_str());
    let field = field_element(
        bool_at(q, "multiSelect"),
        cat2("ask_opt_", dec_usize(i).as_str()).as_str(),
        values,
    );
    let out = elements.with(markdown_element(text.as_str())).with(field).with(free_input(i));
    assert(out@ =~= elements@ + question_section(q@, i as int));
    Some(out)
}

/// A card with several questions, whose button is made at a given time; `None` where one of
/// the questions cannot be shown.
pub fn multi_question_card_at(
    qs: &Vec<Json>,
    conv_id: &str,
    request_id: &str,
    sender: Option<&str>,
    note: &str,
    ts: i64,
) -> (r: Option<Json>)
    ensures
        r is Some <==> questions_ok(json::items_view(qs@)),
        r matches Some(j) ==> j@ == multi_question_card(
            json::items_view(qs@),
            conv_id@,
            request_id@,
            text::sview(sender),
            note@,
            ts as int,
        ),
{
    proof {
        json::lemma_items_index(qs@);
    }
    let ghost all = json::items_view(qs@);
    let mut elements = Arr::new().with(note_element(note)).with(line_element());
    let ghost top = elements@;
    let mut i: usize = 0;
    assert(top =~= top + question_sections(all.subrange(0, 0)));
    while i < qs.len()
        invariant
            i <= qs@.len(),
            all == json::items_view(qs@),
            all.len() == qs@.len(),
            forall|k: int| 0 <= k < qs@.len() ==> #[trigger] all[k] == qs@[k]@,
            forall|k: int| 0 <= k < i ==> question_ok(#[trigger] all[k]),
            elements@ == top + question_sections(all.subrange(0, i as int)),
        decreases qs@.len() - i,
    {
        proof {
            assert(all[i as int] == qs@[i as int]@);
            assert(all.subrange(0, i + 1).drop_last() =~= all.subrange(0, i as int));
            assert(all.subrange(0, i + 1).last() == qs@[i as int]@);
        }
        match add_question(elements, &qs[i], i) {
            Some(a) => {
                elements = a;
            },
            None => {
                return None;
            },
        }
        assert(elements@ =~= top + question_sections(all.subrange(0, i + 1)));
        i += 1;
    }
    assert(all.subrange(0, all.len() as int) =~= all);
    let inner = elements.with(line_element()).with(
        button_row(
            submit_button(
                "提交全部答案",
                ask_form_value(conv_id, request_id, sender, ts),
            ),
        ),
    );
    assert(inner@ =~= seq![parts::note_v(note@), parts::line_v()] + question_sections(all) + seq![
        parts::line_v(),
        parts::flow_row_v(
            seq![
                parts::submit_button_v(
                    "提交全部答案"@,
                    form_value(conv_id@, request_id@, text::sview(sender), ts as int),
                ),
            ],
        ),
    ]);
    Some(
        card(
            "❓ 需要你的输入（多题一次提交）",
            "blue",
            Arr::new().with(form_element("imagent_ask", inner)),
        ),
    )
}

/// The card for some questions, whose buttons are made at a given time; `None` where the
/// questions cannot be shown.
pub fn question_card_at(
    v: &Json,
    conv_id: &str,
    request_id: &str,
    sender: Option<&str>,
    note: &str,
    ts: i64,
) -> (r: Option<Json>)
    ensures
        crate::model::optv(r) == question_card(
            v@,
            conv_id@,
            request_id@,
            text::sview(sender),
            note@,
            ts as int,
        ),
{
    let qs = v.at("questions");
    let q = match qs {
        Json::Arr(items) => {
            proof {
                json::lemma_items_index(items@);
            }
            if items.len() == 0 {
                return None;
            }
            assert(json::items_view(items@)[0] == items@[0]@);
            &items[0]
        },
        Json::Obj(_) => match qs.get("0") {
            Some(q) => q,
            None => {
                return None;
            },
        },
        _ => {
            return None;
        },
    };
    let question = match q.str_at("question") {
        Some(s) => str_trim(s),
        None => {
            return None;
        },
    };
    let all = match q.at("options") {
        Json::Arr(options) => read_labels(options),
        _ => {
            return None;
        },
    };
    assert(all@.len() == text::views(all@).len());
    if question.as_str().is_empty() || all.len() == 0 {
        return None;
    }
    match qs {
        Json::Arr(items) => {
            proof {
                json::lemma_items_index(items@);
            }
            if items.len() > 1 {
                return multi_question_card_at(items, conv_id, request_id, sender, note, ts);
            }
        },
        _ => {},
    }
    let content = cat2("❓ ", question.as_str());
    let elements = Arr::new().with(
        markdown_element(escape_lt(mask_emails(content.as_str()).as_str()).as_str()),
    ).with(note_element(note)).with(line_element()).with(
        question_control_at(
            &all,
            bool_at(q, "multiSelect"),
            conv_id,
            request_id,
            sender,
            ts,
        ),
    );
    assert(elements@ =~= seq![
        parts::markdown_v(markdown::escaped(markdown::masked("❓ "@ + question@))),
        parts::note_v(note@),
        parts::line_v(),
        question_control(
            text::views(all@),
            is_multi(q@),
            conv_id@,
            request_id@,
            text::sview(sender),
            ts as int,
        ),
    ]);
    Some(card("❓ 需要你的输入", "blue", elements))
}

/// The text of the card for some questions, given as text.
pub open spec fn question_card_text(
    tool_input: Seq<char>,
    conv: Seq<char>,
    req: Seq<char>,
    sender: Option<Seq<char>>,
    note: Seq<char>,
    ts: int,
) -> Option<Seq<char>> {
    match json::parsed_text(tool_input) {
        Some(v) => match question_card(v, conv, req, sender, note, ts) {
            Some(j) => Some(json::json_string(j)),
            None => None,
        },
        None => None,
    }
}

/// The card for some questions with a note of its own, as the platform takes it; `None`
/// where the questions cannot be shown.
pub fn render_question_card_note(
    tool_input: &str,
    conv_id: &str,
    request_id: &str,
    sender: Option<&str>,
    note: &str,
) -> (r: Option<String>)
    ensures
        exists|ts: i64|
            text::oview(r) == #[trigger] question_card_text(
                tool_input@,
                conv_id@,
                request_id@,
                text::sview(sender),
                note@,
                ts as int,
            ),
{
    let ts: i64 = now_secs();
    let r = match parse_json_str(tool_input) {
        Some(v) => match question_card_at(&v, conv_id, request_id, sender, note, ts) {
            Some(j) => Some(json_to_string(&j)),
            None => None,
        },
        None => None,
    };
    assert(text::oview(r) == question_card_text(
        tool_input@,
        conv_id@,
        request_id@,
        text::sview(sender),
        note@,
        ts as int,
    ));
    r
}

/// The card for some questions, as the platform takes it; `None` where the questions cannot
/// be shown.
pub fn render_question_card(
    tool_input: &str,
    conv_id: &str,
    request_id: &str,
    sender: Option<&str>,
    ask_timeout_secs: u64,
) -> (r: Option<String>)
    ensures
        exists|ts: i64|
            text::oview(r) == #[trigger] question_card_text(
                tool_input@,
                conv_id@,
                request_id@,
                text::sview(sender),
                default_note(ask_timeout_secs as int),
                ts as int,
            ),
{
    render_question_card_note(
        tool_input,
        conv_id,
        request_id,
        sender,
        perm_note_default(ask_timeout_secs).as_str(),
    )
}

// ---------------------------------------------------------------------------
// Questions as plain text
// ---------------------------------------------------------------------------

/// Whether a question can be written out.
pub open spec fn question_writable(q: JsonV) -> bool {
    &&& q.str_at("question"@) is Some
    &&& text::trim(q.str_at("question"@)->0).len() > 0
    &&& q.at("options"@) is Arr
    &&& labels(q.at("options"@).elements()).len() > 0
}

/// A question, written out.
pub open spec fn question_written(q: JsonV, i: int) -> Seq<char> {
    let question = text::trim(text::or_text(q.str_at("question"@), Seq::empty()));
    let name = text::or_text(text::nonblank(q.str_at("header"@)), question);
    "\n"@ + digits::dec(i + 1) + ". 【"@ + name + "】"@ + question + "\n   选项："@ + text::join(
        labels(q.at("options"@).elements()),
        " / "@,
    )
}

/// The first of some questions, written out.
pub open spec fn questions_written(qs: Seq<JsonV>) -> Seq<char>
    decreases qs.len(),
{
    if qs.len() == 0 {
        "需要你的输入（多题请逐题作答）："@
    } else {
        questions_written(qs.drop_last()) + question_written(qs.last(), qs.len() - 1)
    }
}

/// Some questions, written out; `None` where one of them cannot be.
pub open spec fn questions_text(v: JsonV) -> Option<Seq<char>> {
    match v.at("questions"@) {
        JsonV::Arr(qs) => if forall|i: int|
            0 <= i < qs.len() ==> question_writable(#[trigger] qs[i]) {
            Some(questions_written(qs))
        } else {
            None
        },
        _ => None,
    }
}

fn write_question(q: &Json, i: usize) -> (r: Option<String>)
    requires
        i < usize::MAX,
    ensures
        r is Some <==> question_writable(q@),
        r matches Some(s) ==> s@ == question_written(q@, i as int),
{
    let question = match q.str_at("question") {
        Some(s) => str_trim(s),
        None => {
            return None;
        },
    };
    let all = match q.at("options") {
        Json::Arr(options) => read_labels(options),
        _ => {
            return None;
        },
    };
    assert(all@.len() == text::views(all@).len());
    if question.as_str().is_empty() || all.len() == 0 {
        return None;
    }
    let name = match take_nonblank(q.str_at("header")) {
        Some(h) => h.to_owned(),
        None => question.clone(),
    };
    let a = cat5("\n", dec_usize(i + 1).as_str(), ". 【", name.as_str(), "】");
    Some(
        cat4(
            a.as_str(),
            question.as_str(),
            "\n   选项：",
            str_join(&all, " / ").as_str(),
        ),
    )
}

/// Some questions, written out; `None` where one of them cannot be.
pub fn questions_as_text(tool_input: &str) -> (r: Option<String>)
    ensures
        text::oview(r) == match json::parsed_text(tool_input@) {
            Some(v) => questions_text(v),
            None => None,
        },
{
    let v = match parse_json_str(tool_input) {
        Some(v) => v,
        None => {
            return None;
        },
    };
    match v.at("questions") {
        Json::Arr(qs) => {
            proof {
                json::lemma_items_index(qs@);
            }
            let ghost all = json::items_view(qs@);
            let mut out = "需要你的输入（多题请逐题作答）：".to_owned();
            let mut i: usize = 0;
            assert(out@ == questions_written(all.subrange(0, 0)));
            while i < qs.len()
                invariant
                    i <= qs@.len(),
                    all == json::items_view(qs@),
                    all.len() == qs@.len(),
                    v@.at("questions"@) == JsonV::Arr(all),
                    json::parsed_text(tool_input@) == Some(v@),
                    forall|k: int| 0 <= k < qs@.len() ==> #[trigger] all[k] == qs@[k]@,
                    forall|k: int| 0 <= k < i ==> question_writable(#[trigger] all[k]),
                    out@ == questions_written(all.subrange(0, i as int)),
                decreases qs@.len() - i,
            {
                proof {
                    assert(all[i as int] == qs@[i as int]@);
                    assert(all.subrange(0, i + 1).drop_last() =~= all.subrange(0, i as int));
                    assert(all.subrange(0, i + 1).last() == qs@[i as int]@);
                }
                match write_question(&qs[i], i) {
                    Some(s) => {
                        out = cat2(out.as_str(), s.as_str());
                    },
                    None => {
                        return None;
                    },
                }
                i += 1;
            }
            assert(all.subrange(0, all.len() as int) =~= all);
            Some(out)
        },
        _ => None,
    }
}

} // verus!
