//! Cards that show a task while it runs and after it has ended.
use vstd::prelude::*;

use crate::clock::now_secs;
use crate::conv;
use crate::conv::is_private_conv;
use crate::digits;
use crate::digits::dec_usize;
use crate::json;
use crate::json::{Arr, Json, json_to_string, JsonV, Obj, txt};
use crate::markdown;
use crate::markdown::{cap_md_bytes, escape_lt, mask_emails, truncate_chars};
use crate::model;
use crate::model::{
    CardPhase, CardTerminal, OutboundCard, OutboundV, TerminalV, ToolCall, ToolCallV,
};
use crate::parts;
use crate::parts::{
    body, border_color_of, button_row, card, cb_button, cmd_value, line_element,
    markdown_element, panel, sender_anchor_line, small_element, stop_button,
    terminal_header,
};
use crate::status;
use crate::status::{
    phase_footer, running_footer, STOPPED, stub_body, terminal_done_footer, terminal_footer,
    todo_list_md, tool_card_line, tool_stats_summary,
};
use crate::text;
use crate::text::{borrow, cat2, cat3, cat4, cat6, str_eq, str_join, str_trim};

verus! {

/// How many of the latest uses of tools a running task shows.
pub const STREAM_TOOL_LINES: usize = 5;

/// How many of the latest thoughts a task shows.
pub const THOUGHT_PANEL_LINES: usize = 5;

/// How many bytes of a text a card keeps at each end.
pub const BODY_WINDOW: usize = 4096;

/// At most the last `n` elements.
pub open spec fn latest<T>(s: Seq<T>, n: nat) -> Seq<T> {
    if s.len() <= n {
        s
    } else {
        s.subrange(s.len() - n, s.len() as int)
    }
}

/// The reason for which a task ended early.
pub open spec fn failure(t: TerminalV) -> Option<Seq<char>> {
    match t {
        TerminalV::Error(e) => Some(e),
        _ => None,
    }
}

fn failure_of<'a>(t: &'a CardTerminal) -> (r: Option<&'a str>)
    ensures
        text::sview(r) == failure(t@),
{
    match t {
        CardTerminal::Error(e) => Some(e.as_str()),
        _ => None,
    }
}

/// The text that stands for one that is not there yet.
pub open spec fn received_text() -> Seq<char> {
    "🧠 已接收任务，正在处理…"@
}

/// A text made fit for a card: without addresses, cut down, and without tags.
pub open spec fn fit(s: Seq<char>) -> Seq<char> {
    markdown::escaped(markdown::capped(markdown::masked(s), BODY_WINDOW as nat, BODY_WINDOW as nat))
}

// ---------------------------------------------------------------------------
// Panels
// ---------------------------------------------------------------------------

/// The lines of the panel with the uses of tools.
pub open spec fn tool_panel_text(tools: Seq<ToolCallV>) -> Seq<char>
    decreases tools.len(),
{
    if tools.len() == 0 {
        Seq::empty()
    } else {
        tool_panel_text(tools.drop_last()) + ("- "@ + markdown::escaped(markdown::masked(status::tool_line(tools.last())))
            + "\n"@)
    }
}

/// The panel with the uses of tools.
pub open spec fn tool_panel_v(tools: Seq<ToolCallV>, border: Seq<char>) -> JsonV {
    parts::panel_v("🔧 工具轨迹（"@ + digits::dec(tools.len() as int) + "）"@, border, tool_panel_text(tools))
}

/// The lines of the panel with the thoughts.
pub open spec fn thought_panel_text(thoughts: Seq<Seq<char>>) -> Seq<char>
    decreases thoughts.len(),
{
    if thoughts.len() == 0 {
        Seq::empty()
    } else {
        thought_panel_text(thoughts.drop_last()) + ("> "@ + markdown::escaped(
            markdown::masked(markdown::shortened(text::trim(thoughts.last()), 400)),
        ) + "\n"@)
    }
}

/// The panel with the latest thoughts.
pub open spec fn thought_panel_v(thoughts: Seq<Seq<char>>, border: Seq<char>) -> JsonV {
    parts::panel_v(
        "💭 思考过程（"@ + digits::dec(thoughts.len() as int) + "）"@,
        border,
        thought_panel_text(latest(thoughts, THOUGHT_PANEL_LINES as nat)),
    )
}

/// The panel with the uses of tools.
pub fn render_tool_panel(tools: &Vec<ToolCall>, border_color: &str) -> (r: Json)
    ensures
        r@ == tool_panel_v(model::listv(tools@), border_color@),
{
    let ghost all = model::listv(tools@);
    let mut lines = String::new();
    let mut i: usize = 0;
    assert(tool_panel_text(all.subrange(0, 0)) =~= Seq::empty());
    while i < tools.len()
        invariant
            i <= tools@.len(),
            all == model::listv(tools@),
            lines@ == tool_panel_text(all.subrange(0, i as int)),
        decreases tools@.len() - i,
    {
        proof {
            assert(all.subrange(0, i + 1).drop_last() =~= all.subrange(0, i as int));
            assert(all.subrange(0, i + 1).last() == tools@[i as int]@);
        }
        let line = cat3(
            "- ",
            escape_lt(mask_emails(tool_card_line(&tools[i]).as_str()).as_str()).as_str(),
            "\n",
        );
        lines = cat2(lines.as_str(), line.as_str());
        i += 1;
    }
    assert(all.subrange(0, all.len() as int) =~= all);
    panel(
        cat3("🔧 工具轨迹（", dec_usize(tools.len()).as_str(), "）").as_str(),
        border_color,
        lines.as_str(),
    )
}

/// The panel with the latest thoughts.
pub fn render_thought_panel(thoughts: &Vec<String>, border_color: &str) -> (r: Json)
    ensures
        r@ == thought_panel_v(text::views(thoughts@), border_color@),
{
    let n: usize = thoughts.len();
    let start: usize = if n > THOUGHT_PANEL_LINES {
        n - THOUGHT_PANEL_LINES
    } else {
        0
    };
    let ghost all = latest(text::views(thoughts@), THOUGHT_PANEL_LINES as nat);
    assert(all =~= text::views(thoughts@).subrange(start as int, n as int));
    let mut lines = String::new();
    let mut i: usize = start;
    assert(thought_panel_text(all.subrange(0, 0)) =~= Seq::empty());
    while i < n
        invariant
            start <= i <= n,
            n == thoughts@.len(),
            all =~= text::views(thoughts@).subrange(start as int, n as int),
            lines@ == thought_panel_text(all.subrange(0, i - start)),
        decreases n - i,
    {
        proof {
            assert(all.subrange(0, i - start + 1).drop_last() =~= all.subrange(0, i - start));
            assert(all.subrange(0, i - start + 1).last() == thoughts@[i as int]@);
        }
        let short = truncate_chars(str_trim(thoughts[i].as_str()).as_str(), 400);
        let line = cat3("> ", escape_lt(mask_emails(short.as_str()).as_str()).as_str(), "\n");
        lines = cat2(lines.as_str(), line.as_str());
        i += 1;
    }
    assert(all.subrange(0, n - start) =~= all);
    panel(
        cat3("💭 思考过程（", dec_usize(n).as_str(), "）").as_str(),
        border_color,
        lines.as_str(),
    )
}

// ---------------------------------------------------------------------------
// The whole card
// ---------------------------------------------------------------------------

/// The main text of a card: the plan, the error, and what the task has said.
pub open spec fn card_text(c: OutboundV) -> Seq<char> {
    let said = if c.text.len() == 0 {
        received_text()
    } else {
        c.text
    };
    let with_error = match failure(c.terminal) {
        Some(e) => "❌ 出错："@ + e + "\n\n"@ + said,
        None => said,
    };
    match status::todo_text(c.todos) {
        Some(t) => t + "\n\n"@ + with_error,
        None => with_error,
    }
}

/// The footer of a card.
pub open spec fn card_footer(c: OutboundV) -> Seq<char> {
    match c.terminal {
        TerminalV::Running => status::running_text(c.phase, c.queued_hint, c.run_secs as int),
        TerminalV::Done => status::done_text(c.run_secs as int, c.usage_display),
        TerminalV::Error(e) => status::terminal_text(Some(e)),
    }
}

/// The colour of the panels of a card.
pub open spec fn card_border(c: OutboundV) -> Seq<char> {
    if c.terminal is Running {
        "blue"@
    } else {
        parts::border_color(failure(c.terminal))
    }
}

/// The part of a card on tools: a line, how often each was used once the task has ended, and
/// the panel.
pub open spec fn tool_section(c: OutboundV) -> Seq<JsonV> {
    if c.tool_calls.len() == 0 {
        Seq::empty()
    } else {
        seq![parts::line_v()] + (if c.terminal is Running {
            Seq::empty()
        } else {
            seq![
                parts::small_v(
                    "🔧 工具 "@ + digits::dec(c.tool_calls.len() as int) + " 次："@ + status::tool_stats(
                        c.tool_calls,
                    ),
                ),
            ]
        }) + seq![tool_panel_v(c.tool_calls, card_border(c))]
    }
}

/// The part of a card on thoughts.
pub open spec fn thought_section(c: OutboundV) -> Seq<JsonV> {
    if c.thoughts.len() == 0 {
        Seq::empty()
    } else {
        seq![thought_panel_v(c.thoughts, card_border(c))]
    }
}

/// The button of a card: to stop a running task, which is for whoever started it, or to look
/// into one that failed.
pub open spec fn card_buttons(
    c: OutboundV,
    conv: Seq<char>,
    sender: Option<Seq<char>>,
    ts: int,
) -> Seq<JsonV> {
    match c.terminal {
        TerminalV::Running => seq![parts::stop_button_v(conv, sender, ts)],
        TerminalV::Done => Seq::empty(),
        TerminalV::Error(_) => seq![
            parts::flow_row_v(
                seq![
                    parts::button_v(
                        "🩺 自检 /doctor"@,
                        "default"@,
                        parts::cmd_value_v(conv, "/doctor"@, None, ts),
                    ),
                ],
            ),
        ],
    }
}

/// The line on top of a card that names who started the task.
pub open spec fn anchor_section(conv: Seq<char>, sender: Option<Seq<char>>) -> Seq<JsonV> {
    match parts::sender_anchor(sender, !conv::private_conv(conv)) {
        Some(line) => seq![line],
        None => Seq::empty(),
    }
}

/// The elements of a card, from top to bottom.
pub open spec fn card_elements(
    c: OutboundV,
    conv: Seq<char>,
    sender: Option<Seq<char>>,
    ts: int,
) -> Seq<JsonV> {
    anchor_section(conv, sender) + seq![parts::markdown_v(fit(card_text(c)))] + tool_section(c)
        + thought_section(c) + seq![parts::small_v(card_footer(c))] + card_buttons(
        c,
        conv,
        sender,
        ts,
    )
}

/// The settings of a card: whether it is still written to, and its preview.
pub open spec fn card_config(c: OutboundV) -> JsonV {
    if c.terminal is Running {
        JsonV::Obj(
            map![
                "streaming_mode"@ => JsonV::Bool(true),
                "summary"@ => JsonV::Obj(map!["content"@ => JsonV::Str(status::phase_text(c.phase))])
            ],
        )
    } else {
        JsonV::Obj(map!["streaming_mode"@ => JsonV::Bool(false)])
    }
}

/// A card. Only a task that has ended has a header.
pub open spec fn task_card(
    c: OutboundV,
    conv: Seq<char>,
    sender: Option<Seq<char>>,
    ts: int,
) -> JsonV {
    let members = map![
        "schema"@ => JsonV::Str("2.0"@),
        "config"@ => card_config(c),
        "body"@ => parts::body_v(card_elements(c, conv, sender, ts))
    ];
    if c.terminal is Running {
        JsonV::Obj(members)
    } else {
        JsonV::Obj(members.insert("header"@, parts::terminal_header_v(failure(c.terminal))))
    }
}

fn write_card_text(c: &OutboundCard) -> (r: String)
    ensures
        r@ == card_text(c@),
{
    let said = if c.text.as_str().is_empty() {
        "🧠 已接收任务，正在处理…"
    } else {
        c.text.as_str()
    };
    let with_error = match failure_of(&c.terminal) {
        Some(e) => cat4("❌ 出错：", e, "\n\n", said),
        None => said.to_owned(),
    };
    match todo_list_md(&c.todos) {
        Some(t) => cat3(t.as_str(), "\n\n", with_error.as_str()),
        None => with_error,
    }
}

/// A text made fit for a card: without addresses, cut down, and without tags.
pub fn fit_for_card(s: &str) -> (r: String)
    ensures
        r@ == fit(s@),
{
    escape_lt(cap_md_bytes(mask_emails(s).as_str(), BODY_WINDOW, BODY_WINDOW).as_str())
}

fn running(c: &OutboundCard) -> (r: bool)
    ensures
        r == (c@.terminal is Running),
{
    match &c.terminal {
        CardTerminal::Running => true,
        _ => false,
    }
}

fn border_of(c: &OutboundCard) -> (r: &'static str)
    ensures
        r@ == card_border(c@),
{
    if running(c) {
        "blue"
    } else {
        border_color_of(failure_of(&c.terminal))
    }
}

fn add_anchor(elements: Arr, conv_id: &str, sender: Option<&str>) -> (r: Arr)
    ensures
        r@ == elements@ + anchor_section(conv_id@, text::sview(sender)),
{
    match sender_anchor_line(sender, !is_private_conv(conv_id)) {
        Some(line) => {
            let r = elements.with(line);
            assert(r@ =~= elements@ + anchor_section(conv_id@, text::sview(sender)));
            r
        },
        None => {
            assert(elements@ =~= elements@ + anchor_section(conv_id@, text::sview(sender)));
            elements
        },
    }
}

fn add_tools(elements: Arr, c: &OutboundCard) -> (r: Arr)
    ensures
        r@ == elements@ + tool_section(c@),
{
    assert(c.tool_calls@.len() == c@.tool_calls.len());
    if c.tool_calls.len() == 0 {
        assert(elements@ =~= elements@ + tool_section(c@));
        return elements;
    }
    let mut out = elements.with(line_element());
    if !running(c) {
        out =
        out.with(
            small_element(
                cat4(
                    "🔧 工具 ",
                    dec_usize(c.tool_calls.len()).as_str(),
                    " 次：",
                    tool_stats_summary(&c.tool_calls).as_str(),
                ).as_str(),
            ),
        );
    }
    out = out.with(render_tool_panel(&c.tool_calls, border_of(c)));
    assert(out@ =~= elements@ + tool_section(c@));
    out
}

fn add_thoughts(elements: Arr, c: &OutboundCard) -> (r: Arr)
    ensures
        r@ == elements@ + thought_section(c@),
{
    assert(c.thoughts@.len() == c@.thoughts.len());
    if c.thoughts.len() == 0 {
        assert(elements@ =~= elements@ + thought_section(c@));
        elements
    } else {
        let out = elements.with(render_thought_panel(&c.thoughts, border_of(c)));
        assert(out@ =~= elements@ + thought_section(c@));
        out
    }
}

fn add_buttons(
    elements: Arr,
    c: &OutboundCard,
    conv_id: &str,
    sender: Option<&str>,
    ts: i64,
) -> (r: Arr)
    ensures
        r@ == elements@ + card_buttons(c@, conv_id@, text::sview(sender), ts as int),
{
    let out = match &c.terminal {
        CardTerminal::Running => elements.with(stop_button(conv_id, sender, ts)),
        CardTerminal::Done => elements,
        CardTerminal::Error(_) => elements.with(
            button_row(
                cb_button(
                    "🩺 自检 /doctor",
                    "default",
                    cmd_value(conv_id, "/doctor", None, ts),
                ),
            ),
        ),
    };
    assert(out@ =~= elements@ + card_buttons(c@, conv_id@, text::sview(sender), ts as int));
    out
}

fn footer_of(c: &OutboundCard) -> (r: String)
    ensures
        r@ == card_footer(c@),
{
    match &c.terminal {
        CardTerminal::Running => running_footer(c.phase, borrow(&c.queued_hint), c.run_secs),
        CardTerminal::Done => terminal_done_footer(c.run_secs, borrow(&c.usage_display)),
        CardTerminal::Error(e) => terminal_footer(Some(e.as_str())).to_owned(),
    }
}

/// A card whose buttons are made at a given time.
pub fn card_at(c: &OutboundCard, conv_id: &str, sender: Option<&str>, ts: i64) -> (r: Json)
    ensures
        r@ == task_card(c@, conv_id@, text::sview(sender), ts as int),
{
    let main = markdown_element(fit_for_card(write_card_text(c).as_str()).as_str());
    let elements = add_anchor(Arr::new(), conv_id, sender).with(main);
    let elements = add_thoughts(add_tools(elements, c), c);
    let elements = add_buttons(
        elements.with(small_element(footer_of(c).as_str())),
        c,
        conv_id,
        sender,
        ts,
    );
    assert(elements@ =~= card_elements(c@, conv_id@, text::sview(sender), ts as int));
    let is_running = running(c);
    let config = if is_running {
        Obj::new().with("streaming_mode", Json::Bool(true)).with(
            "summary",
            Obj::new().with("content", txt(phase_footer(c.phase))).json(),
        ).json()
    } else {
        Obj::new().with("streaming_mode", Json::Bool(false)).json()
    };
    let out = Obj::new().with("schema", txt("2.0")).with("config", config).with(
        "body",
        body(elements),
    );
    if is_running {
        out.json()
    } else {
        out.with("header", terminal_header(failure_of(&c.terminal))).json()
    }
}

/// A card as the platform takes it. Its buttons are made now.
pub fn render_card(c: &OutboundCard, conv_id: &str, sender: Option<&str>) -> (r: String)
    ensures
        exists|ts: i64|
            r@ == #[trigger] json::json_string(task_card(c@, conv_id@, text::sview(sender), ts as int)),
{
    let ts: i64 = now_secs();
    let r = json_to_string(&card_at(c, conv_id, sender, ts));
    assert(r@ == json::json_string(task_card(c@, conv_id@, text::sview(sender), ts as int)));
    r
}

// ---------------------------------------------------------------------------
// Cards that are written to while a task runs
// ---------------------------------------------------------------------------

/// A block of markdown that can be rewritten, under its name.
pub open spec fn named_v(id: Seq<char>, content: Seq<char>) -> Map<Seq<char>, JsonV> {
    map![
        "tag"@ => JsonV::Str("markdown"@),
        "element_id"@ => JsonV::Str(id),
        "content"@ => JsonV::Str(content)
    ]
}

/// The elements of the card with which a task begins.
pub open spec fn init_elements(conv: Seq<char>, sender: Option<Seq<char>>, ts: int) -> Seq<JsonV> {
    anchor_section(conv, sender) + seq![
        JsonV::Obj(named_v("md_body"@, received_text())),
        JsonV::Obj(
            named_v("md_footer"@, status::phase_text(CardPhase::Thinking)).insert(
                "text_size"@,
                JsonV::Str("notation"@),
            ),
        ),
        parts::stop_button_v(conv, sender, ts),
    ]
}

/// The card with which a task begins: its text and its footer can be rewritten.
pub open spec fn init_card(conv: Seq<char>, sender: Option<Seq<char>>, ts: int) -> JsonV {
    JsonV::Obj(
        map![
            "schema"@ => JsonV::Str("2.0"@),
            "config"@ => JsonV::Obj(
                map![
                    "streaming_mode"@ => JsonV::Bool(true),
                    "summary"@ => JsonV::Obj(
                        map!["content"@ => JsonV::Str("🧠 正在执行任务…"@)],
                    )
                ],
            ),
            "body"@ => parts::body_v(init_elements(conv, sender, ts))
        ],
    )
}

fn named_element(id: &str, content: &str) -> (r: Obj)
    ensures
        r@ == named_v(id@, content@),
{
    Obj::new().with("tag", txt("markdown")).with("element_id", txt(id)).with(
        "content",
        txt(content),
    )
}

/// The card with which a task begins, with a button that is made at a given time.
pub fn init_card_at(conv_id: &str, sender: Option<&str>, ts: i64) -> (r: Json)
    ensures
        r@ == init_card(conv_id@, text::sview(sender), ts as int),
{
    let elements = add_anchor(Arr::new(), conv_id, sender).with(
        named_element("md_body", "🧠 已接收任务，正在处理…").json(),
    ).with(
        named_element("md_footer", "🧠 思考中…").with("text_size", txt("notation")).json(),
    ).with(stop_button(conv_id, sender, ts));
    assert(elements@ =~= init_elements(conv_id@, text::sview(sender), ts as int));
    Obj::new().with("schema", txt("2.0")).with(
        "config",
        Obj::new().with("streaming_mode", Json::Bool(true)).with(
            "summary",
            Obj::new().with("content", txt("🧠 正在执行任务…")).json(),
        ).json(),
    ).with("body", body(elements)).json()
}

/// The card with which a task begins, as the platform takes it.
pub fn render_stream_init_card(conv_id: &str, sender: Option<&str>) -> (r: String)
    ensures
        exists|ts: i64|
            r@ == #[trigger] json::json_string(init_card(conv_id@, text::sview(sender), ts as int)),
{
    let ts: i64 = now_secs();
    let r = json_to_string(&init_card_at(conv_id, sender, ts));
    assert(r@ == json::json_string(init_card(conv_id@, text::sview(sender), ts as int)));
    r
}

/// Every card of a running task ends with the button that stops it, which names who started
/// the task.
pub proof fn law_running_card_stops_for_its_owner(
    c: OutboundV,
    conv: Seq<char>,
    sender: Option<Seq<char>>,
    ts: int,
)
    requires
        c.terminal is Running,
    ensures
        card_elements(c, conv, sender, ts).last() == parts::stop_button_v(conv, sender, ts),
        init_elements(conv, sender, ts).last() == parts::stop_button_v(conv, sender, ts),
        task_card(c, conv, sender, ts).at("body"@) == parts::body_v(
            card_elements(c, conv, sender, ts),
        ),
        init_card(conv, sender, ts).at("body"@) == parts::body_v(init_elements(conv, sender, ts)),
{
    reveal_strlit("schema");
    reveal_strlit("config");
    reveal_strlit("body");
    assert("schema"@.len() != "body"@.len());
    assert("config"@.len() != "body"@.len());
}

/// Uses of tools as quoted lines.
pub open spec fn quoted_tools(tools: Seq<ToolCallV>) -> Seq<Seq<char>> {
    Seq::new(tools.len(), |i: int| "> "@ + status::tool_line(tools[i]))
}

/// Thoughts as quoted lines.
pub open spec fn quoted_thoughts(thoughts: Seq<Seq<char>>) -> Seq<Seq<char>> {
    Seq::new(thoughts.len(), |i: int| "> "@ + markdown::shortened(text::trim(thoughts[i]), 400))
}

/// The latest uses of tools of a running task, headed by how many went before.
pub open spec fn stream_tools(tools: Seq<ToolCallV>) -> Seq<char> {
    (if tools.len() > STREAM_TOOL_LINES {
        "> ⋯ 前面还有 "@ + digits::dec(tools.len() - STREAM_TOOL_LINES) + " 个工具\n"@
    } else {
        ""@
    }) + text::join(quoted_tools(latest(tools, STREAM_TOOL_LINES as nat)), "\n"@)
}

/// The sections of the text of a running task: the plan, what it has said, the latest uses
/// of tools, and the latest thought.
pub open spec fn stream_sections(c: OutboundV) -> Seq<Seq<char>> {
    (match status::todo_text(c.todos) {
        Some(t) => seq![t],
        None => Seq::empty(),
    }) + (if c.text.len() > 0 {
        seq![c.text]
    } else {
        Seq::empty()
    }) + (if c.tool_calls.len() > 0 {
        seq![stream_tools(c.tool_calls)]
    } else {
        Seq::empty()
    }) + (if c.thoughts.len() > 0 {
        seq!["> 💭 "@ + markdown::shortened(c.thoughts.last(), 120)]
    } else {
        Seq::empty()
    })
}

/// The text of a running task.
pub open spec fn stream_text(c: OutboundV) -> Seq<char> {
    if stream_sections(c).len() == 0 {
        received_text()
    } else {
        text::join(stream_sections(c), "\n\n"@)
    }
}

/// The text of a task that has ended.
pub open spec fn final_text(c: OutboundV, err: Option<Seq<char>>) -> Seq<char> {
    let a = match err {
        Some(e) => if e == STOPPED@ {
            "⏹ 已中断\n\n"@
        } else {
            "❌ 出错："@ + e + "\n\n"@
        },
        None => ""@,
    };
    let b = match status::todo_text(c.todos) {
        Some(t) => a + t + "\n\n"@,
        None => a,
    };
    let d = b + c.text;
    let e = if c.tool_calls.len() == 0 {
        d
    } else {
        d + (if d.len() > 0 {
            "\n\n---\n\n"@
        } else {
            ""@
        }) + ("🔧 工具 "@ + digits::dec(c.tool_calls.len() as int) + " 次："@ + status::tool_stats(c.tool_calls)
            + "\n\n**工具轨迹**\n"@ + text::join(quoted_tools(c.tool_calls), "\n"@))
    };
    let f = if c.thoughts.len() == 0 {
        e
    } else {
        e + "\n\n---\n\n**💭 思考过程**\n"@ + text::join(
            quoted_thoughts(latest(c.thoughts, THOUGHT_PANEL_LINES as nat)),
            "\n"@,
        )
    };
    if f.len() == 0 {
        "（未返回内容）"@
    } else {
        f
    }
}

fn quote_tools(tools: &Vec<ToolCall>, from: usize) -> (r: String)
    requires
        from <= tools@.len(),
    ensures
        r@ == text::join(
            quoted_tools(model::listv(tools@).subrange(from as int, tools@.len() as int)),
            "\n"@,
        ),
{
    let ghost all = model::listv(tools@).subrange(from as int, tools@.len() as int);
    let mut lines: Vec<String> = Vec::new();
    let mut i: usize = from;
    while i < tools.len()
        invariant
            from <= i <= tools@.len(),
            all == model::listv(tools@).subrange(from as int, tools@.len() as int),
            lines@.len() == i - from,
            forall|k: int| 0 <= k < i - from ==> #[trigger] lines@[k]@ == "> "@ + status::tool_line(all[k]),
        decreases tools@.len() - i,
    {
        assert(all[i - from] == tools@[i as int]@);
        lines.push(cat2("> ", tool_card_line(&tools[i]).as_str()));
        i += 1;
    }
    assert(text::views(lines@) =~= quoted_tools(all));
    str_join(&lines, "\n")
}

fn quote_thoughts(thoughts: &Vec<String>, from: usize) -> (r: String)
    requires
        from <= thoughts@.len(),
    ensures
        r@ == text::join(
            quoted_thoughts(text::views(thoughts@).subrange(from as int, thoughts@.len() as int)),
            "\n"@,
        ),
{
    let ghost all = text::views(thoughts@).subrange(from as int, thoughts@.len() as int);
    let mut lines: Vec<String> = Vec::new();
    let mut i: usize = from;
    while i < thoughts.len()
        invariant
            from <= i <= thoughts@.len(),
            all == text::views(thoughts@).subrange(from as int, thoughts@.len() as int),
            lines@.len() == i - from,
            forall|k: int|
                0 <= k < i - from ==> #[trigger] lines@[k]@ == "> "@ + markdown::shortened(text::trim(all[k]), 400),
        decreases thoughts@.len() - i,
    {
        assert(all[i - from] == thoughts@[i as int]@);
        lines.push(
            cat2(
                "> ",
                truncate_chars(str_trim(thoughts[i].as_str()).as_str(), 400).as_str(),
            ),
        );
        i += 1;
    }
    assert(text::views(lines@) =~= quoted_thoughts(all));
    str_join(&lines, "\n")
}

fn write_stream_tools(tools: &Vec<ToolCall>) -> (r: String)
    ensures
        r@ == stream_tools(model::listv(tools@)),
{
    let n: usize = tools.len();
    let ghost all = model::listv(tools@);
    if n > STREAM_TOOL_LINES {
        let skipped: usize = n - STREAM_TOOL_LINES;
        let lead = cat3("> ⋯ 前面还有 ", dec_usize(skipped).as_str(), " 个工具\n");
        assert(latest(all, STREAM_TOOL_LINES as nat) =~= all.subrange(skipped as int, n as int));
        cat2(lead.as_str(), quote_tools(tools, skipped).as_str())
    } else {
        assert(latest(all, STREAM_TOOL_LINES as nat) =~= all.subrange(0, n as int));
        cat2("", quote_tools(tools, 0).as_str())
    }
}

fn write_stream_text(c: &OutboundCard) -> (r: String)
    ensures
        r@ == stream_text(c@),
{
    let mut sections: Vec<String> = Vec::new();
    assert(c.tool_calls@.len() == c@.tool_calls.len());
    assert(c.thoughts@.len() == c@.thoughts.len());
    match todo_list_md(&c.todos) {
        Some(t) => sections.push(t),
        None => {},
    }
    if !c.text.as_str().is_empty() {
        sections.push(c.text.clone());
    }
    if c.tool_calls.len() > 0 {
        sections.push(write_stream_tools(&c.tool_calls));
    }
    if c.thoughts.len() > 0 {
        sections.push(
            cat2(
                "> 💭 ",
                truncate_chars(c.thoughts[c.thoughts.len() - 1].as_str(), 120).as_str(),
            ),
        );
    }
    assert(text::views(sections@) =~= stream_sections(c@));
    assert(sections@.len() == text::views(sections@).len());
    if sections.len() == 0 {
        "🧠 已接收任务，正在处理…".to_owned()
    } else {
        str_join(&sections, "\n\n")
    }
}

/// The text of a running task, as the card shows it.
pub fn stream_body_md(c: &OutboundCard) -> (r: String)
    ensures
        r@ == fit(stream_text(c@)),
{
    fit_for_card(write_stream_text(c).as_str())
}

fn write_final_text(c: &OutboundCard, err: Option<&str>) -> (r: String)
    ensures
        r@ == final_text(c@, text::sview(err)),
{
    let ghost all_tools = c@.tool_calls;
    let ghost all_thoughts = c@.thoughts;
    assert(c.tool_calls@.len() == all_tools.len());
    assert(c.thoughts@.len() == all_thoughts.len());
    let a = match err {
        Some(e) => if str_eq(e, STOPPED) {
            "⏹ 已中断\n\n".to_owned()
        } else {
            cat3("❌ 出错：", e, "\n\n")
        },
        None => "".to_owned(),
    };
    let b = match todo_list_md(&c.todos) {
        Some(t) => cat3(a.as_str(), t.as_str(), "\n\n"),
        None => a,
    };
    let d = cat2(b.as_str(), c.text.as_str());
    let e = if c.tool_calls.len() == 0 {
        d
    } else {
        let gap = if d.as_str().is_empty() {
            ""
        } else {
            "\n\n---\n\n"
        };
        assert(all_tools.subrange(0, all_tools.len() as int) =~= all_tools);
        let block = cat6(
            "🔧 工具 ",
            dec_usize(c.tool_calls.len()).as_str(),
            " 次：",
            tool_stats_summary(&c.tool_calls).as_str(),
            "\n\n**工具轨迹**\n",
            quote_tools(&c.tool_calls, 0).as_str(),
        );
        cat3(d.as_str(), gap, block.as_str())
    };
    let f = if c.thoughts.len() == 0 {
        e
    } else {
        let n: usize = c.thoughts.len();
        let start: usize = if n > THOUGHT_PANEL_LINES {
            n - THOUGHT_PANEL_LINES
        } else {
            0
        };
        assert(latest(all_thoughts, THOUGHT_PANEL_LINES as nat) =~= all_thoughts.subrange(
            start as int,
            n as int,
        ));
        cat3(
            e.as_str(),
            "\n\n---\n\n**💭 思考过程**\n",
            quote_thoughts(&c.thoughts, start).as_str(),
        )
    };
    if f.as_str().is_empty() {
        "（未返回内容）".to_owned()
    } else {
        f
    }
}

/// The text of a task that has ended, as the card shows it.
pub fn stream_body_final(c: &OutboundCard, err: Option<&str>) -> (r: String)
    ensures
        r@ == fit(final_text(c@, text::sview(err))),
{
    fit_for_card(write_final_text(c, err).as_str())
}

// ---------------------------------------------------------------------------
// What is left of a card
// ---------------------------------------------------------------------------

/// What is left of a card whose result is sent again further down.
pub open spec fn stub_card(c: OutboundV) -> JsonV {
    let err = failure(c.terminal);
    JsonV::Obj(
        map![
            "schema"@ => JsonV::Str("2.0"@),
            "config"@ => JsonV::Obj(map!["streaming_mode"@ => JsonV::Bool(false)]),
            "header"@ => parts::terminal_header_v(err),
            "body"@ => parts::body_v(seq![parts::markdown_v(status::stub_text(c.tool_calls.len() as int, err))])
        ],
    )
}

/// What is left of a card whose result is sent again further down, as the platform takes it.
pub fn render_stub_card(c: &OutboundCard) -> (r: String)
    ensures
        r@ == json::json_string(stub_card(c@)),
{
    let err = failure_of(&c.terminal);
    assert(c.tool_calls@.len() == c@.tool_calls.len());
    let elements = Arr::new().with(
        markdown_element(stub_body(c.tool_calls.len(), err).as_str()),
    );
    json_to_string(
        &Obj::new().with("schema", txt("2.0")).with(
            "config",
            Obj::new().with("streaming_mode", Json::Bool(false)).json(),
        ).with("header", terminal_header(err)).with("body", body(elements)).json(),
    )
}

/// The card of a task whose result does not fit on a card.
pub open spec fn overflow_card(done: bool) -> JsonV {
    parts::card_v(
        if done {
            "✅ 已完成"@
        } else {
            "⚠️ 出错"@
        },
        if done {
            "green"@
        } else {
            "red"@
        },
        seq![
            parts::markdown_v(
                "输出超出卡片大小上限，完整内容已转为**文本消息**发送（见下方/相邻消息）。"@,
            ),
        ],
    )
}

/// The card of a task whose result does not fit on a card, as the platform takes it.
pub fn render_overflow_terminal_card(done: bool) -> (r: String)
    ensures
        r@ == json::json_string(overflow_card(done)),
{
    let title = if done {
        "✅ 已完成"
    } else {
        "⚠️ 出错"
    };
    let template = if done {
        "green"
    } else {
        "red"
    };
    let elements = Arr::new().with(
        markdown_element(
            "输出超出卡片大小上限，完整内容已转为**文本消息**发送（见下方/相邻消息）。",
        ),
    );
    json_to_string(&card(title, template, elements))
}

} // verus!
