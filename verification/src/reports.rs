//! What somebody reads: the text of a task while it runs and once it has ended, and the
//! transcript of a forwarded conversation. Everything that belongs there stands there, in
//! order.
use vstd::prelude::*;

use crate::digits;
use crate::forward;
use crate::forward::ItemV;
use crate::json;
use crate::markdown;
use crate::message;
use crate::model::{CardPhase, OutboundV, TerminalV, TodoStatus, TodoV, ToolCallV};
use crate::status;
use crate::task_card;
use crate::text;

verus! {

// ---------------------------------------------------------------------------
// Places
// ---------------------------------------------------------------------------

/// Where a part stands in texts that are put one behind the other with something in between.
pub open spec fn joined_at(parts: Seq<Seq<char>>, gap: nat, k: int) -> int
    decreases k,
{
    if k <= 0 {
        0
    } else {
        joined_at(parts, gap, k - 1) + parts[k - 1].len() + gap
    }
}

proof fn lemma_joined_at_prefix(parts: Seq<Seq<char>>, gap: nat, k: int)
    requires
        0 <= k < parts.len(),
    ensures
        joined_at(parts.drop_last(), gap, k) == joined_at(parts, gap, k),
        joined_at(parts, gap, k) >= 0,
    decreases k,
{
    if k > 0 {
        lemma_joined_at_prefix(parts, gap, k - 1);
    }
}

/// Texts that are joined stand in the whole one behind the other, in order.
pub proof fn lemma_join_places(parts: Seq<Seq<char>>, sep: Seq<char>)
    ensures
        forall|k: int| 0 <= k < parts.len() ==> #[trigger] text::occurs_at(
            text::join(parts, sep),
            parts[k],
            joined_at(parts, sep.len(), k),
        ),
        parts.len() > 0 ==> text::join(parts, sep).len() == joined_at(
            parts,
            sep.len(),
            parts.len() - 1,
        ) + parts.last().len(),
    decreases parts.len(),
{
    let all = text::join(parts, sep);
    if parts.len() == 1 {
        assert(all.subrange(0, parts[0].len() as int) =~= parts[0]);
    } else if parts.len() > 1 {
        let front = parts.drop_last();
        lemma_join_places(front, sep);
        let n = parts.len() - 1;
        lemma_joined_at_prefix(parts, sep.len(), n - 1);
        let before = text::join(front, sep);
        assert(all == before + sep + parts.last());
        assert forall|k: int| 0 <= k < parts.len() implies #[trigger] text::occurs_at(
            all,
            parts[k],
            joined_at(parts, sep.len(), k),
        ) by {
            if k < n {
                lemma_joined_at_prefix(parts, sep.len(), k);
                let at = joined_at(parts, sep.len(), k);
                assert(front[k] == parts[k]);
                assert(text::occurs_at(before, front[k], at));
                assert(all.subrange(at, at + parts[k].len()) =~= before.subrange(
                    at,
                    at + parts[k].len(),
                ));
            } else {
                let at = joined_at(parts, sep.len(), n);
                assert(at == before.len() + sep.len());
                assert(all.subrange(at, at + parts[n].len()) =~= parts[n]);
            }
        }
    }
}

/// What stands in a part of a text stands in the text.
pub proof fn lemma_within(a: Seq<char>, b: Seq<char>, c: Seq<char>, sub: Seq<char>, i: int)
    requires
        text::occurs_at(b, sub, i),
    ensures
        text::occurs_at(a + b + c, sub, a.len() + i),
{
    let all = a + b + c;
    assert(all.subrange(a.len() + i, a.len() + i + sub.len()) =~= b.subrange(i, i + sub.len()));
}

// ---------------------------------------------------------------------------
// The lines of a report
// ---------------------------------------------------------------------------

/// The line of a use of a tool tells its name and what it was used on, and whether it has come
/// to an end.
pub proof fn law_tool_line_tells_all(t: ToolCallV)
    ensures
        text::begins(status::tool_line(t), (if t.done {
            "✅ **"@
        } else {
            "⏳ **"@
        }) + t.name + "**"@),
        t.summary.len() > 0 ==> text::ends(status::tool_line(t), " — "@ + t.summary),
        t.summary.len() == 0 ==> text::ends(status::tool_line(t), t.name + "**"@),
{
    let line = status::tool_line(t);
    let mark = if t.done {
        "✅ **"@
    } else {
        "⏳ **"@
    };
    let front = mark + t.name + "**"@;
    assert(line.subrange(0, front.len() as int) =~= front);
    if t.summary.len() > 0 {
        let back = " — "@ + t.summary;
        assert(line =~= front + back);
        assert(line.subrange(line.len() - back.len(), line.len() as int) =~= back);
    } else {
        let back = t.name + "**"@;
        assert(line =~= mark + back);
        assert(line.subrange(line.len() - back.len(), line.len() as int) =~= back);
    }
}

/// How many steps of a plan are done, counted one by one.
pub open spec fn steps_done(todos: Seq<TodoV>) -> nat
    decreases todos.len(),
{
    if todos.len() == 0 {
        0
    } else {
        steps_done(todos.drop_first()) + (if todos[0].status == TodoStatus::Completed {
            1nat
        } else {
            0
        })
    }
}

proof fn lemma_steps_done(todos: Seq<TodoV>)
    ensures
        status::done_count(todos) == steps_done(todos),
    decreases todos.len(),
{
    if todos.len() > 0 {
        lemma_steps_done(todos.drop_last());
        lemma_steps_done(todos.drop_first());
        if todos.len() > 1 {
            assert(todos.drop_last().drop_first() =~= todos.drop_first().drop_last());
            lemma_steps_done(todos.drop_first().drop_last());
            assert(todos.drop_last()[0] == todos[0]);
            assert(todos.drop_first().last() == todos.last());
        } else {
            assert(todos.drop_last() =~= Seq::empty());
            assert(todos.drop_first() =~= Seq::empty());
        }
    }
}

/// A plan lists all its steps in order, each with a mark that tells whether it is done, and
/// says how many of them are. Without steps there is no plan.
pub proof fn law_plan_lists_all_steps(todos: Seq<TodoV>)
    ensures
        todos.len() == 0 <==> status::todo_text(todos) is None,
        status::todo_text(todos) matches Some(t) ==> {
            let top = "**📋 计划**（"@ + digits::dec(steps_done(todos) as int) + "/"@ + digits::dec(
                todos.len() as int,
            ) + "）\n"@;
            let lines = Seq::new(
                todos.len(),
                |i: int|
                    (if todos[i].status == TodoStatus::Completed {
                        "- [x] "@
                    } else {
                        "- [ ] "@
                    }) + todos[i].text + (if todos[i].status == TodoStatus::InProgress {
                        " ⏳"@
                    } else {
                        Seq::empty()
                    }),
            );
            &&& text::begins(t, top)
            &&& forall|k: int| 0 <= k < todos.len() ==> text::occurs_at(
                t,
                #[trigger] lines[k],
                top.len() + joined_at(lines, 1, k),
            )
        },
{
    if todos.len() > 0 {
        lemma_steps_done(todos);
        let t = status::todo_text(todos)->0;
        let top = "**📋 计划**（"@ + digits::dec(steps_done(todos) as int) + "/"@ + digits::dec(
            todos.len() as int,
        ) + "）\n"@;
        let lines = Seq::new(
            todos.len(),
            |i: int|
                (if todos[i].status == TodoStatus::Completed {
                    "- [x] "@
                } else {
                    "- [ ] "@
                }) + todos[i].text + (if todos[i].status == TodoStatus::InProgress {
                    " ⏳"@
                } else {
                    Seq::empty()
                }),
        );
        reveal_strlit("- ");
        reveal_strlit("[x]");
        reveal_strlit("[ ]");
        reveal_strlit(" ");
        reveal_strlit("");
        reveal_strlit("- [x] ");
        reveal_strlit("- [ ] ");
        reveal_strlit("\n");
        assert("- [x] "@ =~= "- "@ + "[x]"@ + " "@);
        assert("- [ ] "@ =~= "- "@ + "[ ]"@ + " "@);
        assert forall|i: int| 0 <= i < todos.len() implies status::todo_lines(todos)[i]
            == #[trigger] lines[i] by {
            assert(status::todo_line(todos[i]) =~= lines[i]);
        }
        assert(status::todo_lines(todos) =~= lines);
        let body = text::join(lines, "\n"@);
        assert(t =~= top + body + Seq::<char>::empty());
        assert(t.subrange(0, top.len() as int) =~= top);
        lemma_join_places(lines, "\n"@);
        assert forall|k: int| 0 <= k < todos.len() implies text::occurs_at(
            t,
            #[trigger] lines[k],
            top.len() + joined_at(lines, 1, k),
        ) by {
            assert(text::occurs_at(body, lines[k], joined_at(lines, 1, k)));
            lemma_within(top, body, Seq::empty(), lines[k], joined_at(lines, 1, k));
        }
    }
}

// ---------------------------------------------------------------------------
// A task that has ended
// ---------------------------------------------------------------------------

/// Why a task ended early, in words, with a blank line behind it.
pub open spec fn reason_text(err: Option<Seq<char>>) -> Seq<char> {
    match err {
        Some(e) => if e == "已中断"@ {
            "⏹ 已中断"@ + "\n\n"@
        } else {
            "❌ 出错："@ + e + "\n\n"@
        },
        None => Seq::empty(),
    }
}

/// The plan of a task, with a blank line behind it.
pub open spec fn plan_text(c: OutboundV) -> Seq<char> {
    match status::todo_text(c.todos) {
        Some(t) => t + "\n\n"@,
        None => Seq::empty(),
    }
}

/// However a task has ended, its final text holds everything that the task has said, behind
/// why it ended early and its plan.
pub proof fn law_final_text_keeps_what_was_said(c: OutboundV, err: Option<Seq<char>>)
    requires
        c.text.len() > 0 || c.todos.len() > 0 || c.tool_calls.len() > 0 || c.thoughts.len() > 0
            || err is Some,
    ensures
        ({
            let all = task_card::final_text(c, err);
            let top = reason_text(err) + plan_text(c);
            &&& text::begins(all, top)
            &&& text::occurs_at(all, c.text, top.len() as int)
            &&& c.tool_calls.len() == 0 && c.thoughts.len() == 0 ==> all == top + c.text
        }),
{
    let all = task_card::final_text(c, err);
    let top = reason_text(err) + plan_text(c);
    reveal_strlit("⏹ 已中断\n\n");
    reveal_strlit("⏹ 已中断");
    reveal_strlit("\n\n");
    reveal_strlit("");
    assert("⏹ 已中断\n\n"@ =~= "⏹ 已中断"@ + "\n\n"@);
    assert(reason_text(err).len() > 0 || err is None);
    law_plan_lists_all_steps(c.todos);
    let d = top + c.text;
    lemma_final_begins(c, err);
    assert(all.subrange(0, top.len() as int) =~= d.subrange(0, top.len() as int));
    assert(d.subrange(0, top.len() as int) =~= top);
    assert(all.subrange(top.len() as int, d.len() as int) =~= c.text);
}

proof fn lemma_final_begins(c: OutboundV, err: Option<Seq<char>>)
    requires
        c.text.len() > 0 || c.todos.len() > 0 || c.tool_calls.len() > 0 || c.thoughts.len() > 0
            || err is Some,
    ensures
        ({
            let d = reason_text(err) + plan_text(c) + c.text;
            let all = task_card::final_text(c, err);
            &&& all.len() >= d.len()
            &&& forall|i: int| 0 <= i < d.len() ==> all[i] == #[trigger] d[i]
            &&& c.tool_calls.len() == 0 && c.thoughts.len() == 0 ==> all == d
        }),
{
    reveal_strlit("⏹ 已中断\n\n");
    reveal_strlit("⏹ 已中断");
    reveal_strlit("❌ 出错：");
    reveal_strlit("\n\n");
    reveal_strlit("");
    reveal_strlit("\n\n---\n\n**💭 思考过程**\n");
    reveal_strlit("🔧 工具 ");
    assert("⏹ 已中断\n\n"@ =~= "⏹ 已中断"@ + "\n\n"@);
    law_plan_lists_all_steps(c.todos);
    let d = reason_text(err) + plan_text(c) + c.text;
    let a = match err {
        Some(e) => if e == status::STOPPED@ {
            "⏹ 已中断\n\n"@
        } else {
            "❌ 出错："@ + e + "\n\n"@
        },
        None => ""@,
    };
    assert(a =~= reason_text(err));
    let b = match status::todo_text(c.todos) {
        Some(t) => a + t + "\n\n"@,
        None => a,
    };
    assert(b =~= reason_text(err) + plan_text(c));
    assert(b + c.text =~= d);
}

/// However a task has ended, its final text lists every use of a tool in order, behind what
/// was said, and how often each tool was used.
#[verifier::rlimit(50)]
pub proof fn law_final_text_lists_every_tool(c: OutboundV, err: Option<Seq<char>>, k: int)
    requires
        0 <= k < c.tool_calls.len(),
    ensures
        ({
            let all = task_card::final_text(c, err);
            let said = reason_text(err) + plan_text(c) + c.text;
            let lines = Seq::new(c.tool_calls.len(), |i: int| "> "@ + status::tool_line(c.tool_calls[i]));
            let top = said + (if said.len() > 0 {
                "\n\n---\n\n"@
            } else {
                Seq::empty()
            }) + ("🔧 工具 "@ + digits::dec(c.tool_calls.len() as int) + " 次："@ + status::tool_stats(
                c.tool_calls,
            ) + "\n\n**工具轨迹**\n"@);
            &&& text::begins(all, top)
            &&& text::occurs_at(all, lines[k], top.len() + joined_at(lines, 1, k))
        }),
{
    let all = task_card::final_text(c, err);
    let said = reason_text(err) + plan_text(c) + c.text;
    let lines = Seq::new(c.tool_calls.len(), |i: int| "> "@ + status::tool_line(c.tool_calls[i]));
    assert(lines =~= task_card::quoted_tools(c.tool_calls));
    let gap = if said.len() > 0 {
        "\n\n---\n\n"@
    } else {
        Seq::empty()
    };
    let count = "🔧 工具 "@ + digits::dec(c.tool_calls.len() as int) + " 次："@ + status::tool_stats(
        c.tool_calls,
    ) + "\n\n**工具轨迹**\n"@;
    let top = said + gap + count;
    let body = text::join(lines, "\n"@);
    let back = if c.thoughts.len() == 0 {
        Seq::empty()
    } else {
        "\n\n---\n\n**💭 思考过程**\n"@ + text::join(
            task_card::quoted_thoughts(
                task_card::latest(c.thoughts, task_card::THOUGHT_PANEL_LINES as nat),
            ),
            "\n"@,
        )
    };
    lemma_final_parts(c, err, said, gap, count, body, back);
    lemma_regroup(said + gap, count, body, back);
    assert(all.subrange(0, top.len() as int) =~= top);
    reveal_strlit("\n");
    lemma_join_places(lines, "\n"@);
    assert(text::occurs_at(body, lines[k], joined_at(lines, 1, k)));
    lemma_within(top, body, back, lines[k], joined_at(lines, 1, k));
}

proof fn lemma_regroup(a: Seq<char>, b: Seq<char>, c: Seq<char>, d: Seq<char>)
    ensures
        a + (b + c) + d == a + b + c + d,
        (a + b + c + d).subrange(0, (a + b).len() as int) == a + b,
{
    assert(a + (b + c) + d =~= a + b + c + d);
    assert((a + b + c + d).subrange(0, (a + b).len() as int) =~= a + b);
}

#[verifier::rlimit(50)]
proof fn lemma_final_parts(
    c: OutboundV,
    err: Option<Seq<char>>,
    said: Seq<char>,
    gap: Seq<char>,
    count: Seq<char>,
    body: Seq<char>,
    back: Seq<char>,
)
    requires
        c.tool_calls.len() > 0,
        said == reason_text(err) + plan_text(c) + c.text,
        gap == (if said.len() > 0 {
            "\n\n---\n\n"@
        } else {
            Seq::empty()
        }),
        count == "🔧 工具 "@ + digits::dec(c.tool_calls.len() as int) + " 次："@ + status::tool_stats(
            c.tool_calls,
        ) + "\n\n**工具轨迹**\n"@,
        body == text::join(task_card::quoted_tools(c.tool_calls), "\n"@),
        back == (if c.thoughts.len() == 0 {
            Seq::empty()
        } else {
            "\n\n---\n\n**💭 思考过程**\n"@ + text::join(
                task_card::quoted_thoughts(
                    task_card::latest(c.thoughts, task_card::THOUGHT_PANEL_LINES as nat),
                ),
                "\n"@,
            )
        }),
    ensures
        task_card::final_text(c, err) == said + gap + (count + body) + back,
{
    reveal_strlit("⏹ 已中断\n\n");
    reveal_strlit("⏹ 已中断");
    reveal_strlit("\n\n");
    reveal_strlit("");
    reveal_strlit("🔧 工具 ");
    assert("⏹ 已中断\n\n"@ =~= "⏹ 已中断"@ + "\n\n"@);
    let a = match err {
        Some(e) => if e == status::STOPPED@ {
            "⏹ 已中断\n\n"@
        } else {
            "❌ 出错："@ + e + "\n\n"@
        },
        None => ""@,
    };
    assert(a =~= reason_text(err));
    let b = match status::todo_text(c.todos) {
        Some(t) => a + t + "\n\n"@,
        None => a,
    };
    assert(b =~= reason_text(err) + plan_text(c));
    assert(b + c.text =~= said);
    assert(""@ =~= Seq::<char>::empty());
    let e = said + gap + (count + body);
    assert(e.len() > 0);
    if c.thoughts.len() == 0 {
        assert(e + back =~= e);
    } else {
        let join = text::join(
            task_card::quoted_thoughts(
                task_card::latest(c.thoughts, task_card::THOUGHT_PANEL_LINES as nat),
            ),
            "\n"@,
        );
        assert(e + "\n\n---\n\n**💭 思考过程**\n"@ + join =~= e + back);
    }
}

/// The final text ends with the latest thoughts, five of them at most, in order.
pub proof fn law_final_text_ends_with_thoughts(c: OutboundV, err: Option<Seq<char>>)
    requires
        c.thoughts.len() > 0,
    ensures
        ({
            let n = c.thoughts.len();
            let from = if n > 5 {
                n - 5
            } else {
                0
            };
            let lines = Seq::new(
                (n - from) as nat,
                |i: int| "> "@ + markdown::shortened(text::trim(c.thoughts[from + i]), 400),
            );
            text::ends(
                task_card::final_text(c, err),
                "**💭 思考过程**\n"@ + text::join(lines, "\n"@),
            )
        }),
{
    let n = c.thoughts.len();
    let from = if n > 5 {
        n - 5
    } else {
        0
    };
    let lines = Seq::new(
        (n - from) as nat,
        |i: int| "> "@ + markdown::shortened(text::trim(c.thoughts[from + i]), 400),
    );
    let shown = task_card::latest(c.thoughts, 5);
    assert(task_card::quoted_thoughts(shown) =~= lines);
    let back = "**💭 思考过程**\n"@ + text::join(lines, "\n"@);
    reveal_strlit("\n\n---\n\n**💭 思考过程**\n");
    reveal_strlit("\n\n---\n\n");
    reveal_strlit("**💭 思考过程**\n");
    assert("\n\n---\n\n**💭 思考过程**\n"@ =~= "\n\n---\n\n"@ + "**💭 思考过程**\n"@);
    let all = task_card::final_text(c, err);
    let whole = "\n\n---\n\n**💭 思考过程**\n"@ + text::join(lines, "\n"@);
    assert(whole =~= "\n\n---\n\n"@ + back);
    assert(all.subrange(all.len() - back.len(), all.len() as int) =~= back);
}

// ---------------------------------------------------------------------------
// A task that runs
// ---------------------------------------------------------------------------

/// The uses of tools that a running task shows: the latest five, in order, and behind them
/// how many went before.
pub open spec fn recent_tools_text(tools: Seq<ToolCallV>) -> Seq<char> {
    let n = tools.len();
    let from = if n > 5 {
        n - 5
    } else {
        0
    };
    (if n > 5 {
        "> ⋯ 前面还有 "@ + digits::dec(from as int) + " 个工具\n"@
    } else {
        Seq::empty()
    }) + text::join(
        Seq::new((n - from) as nat, |i: int| "> "@ + status::tool_line(tools[from + i])),
        "\n"@,
    )
}

/// While a task runs, its text shows the plan, everything that the task has said, the latest
/// uses of tools and the latest thought, in this order, and nothing else.
#[verifier::rlimit(50)]
pub proof fn law_running_text_shows_all(c: OutboundV)
    ensures
        ({
            let all = task_card::stream_text(c);
            let parts = (match status::todo_text(c.todos) {
                Some(t) => seq![t],
                None => Seq::empty(),
            }) + (if c.text.len() > 0 {
                seq![c.text]
            } else {
                Seq::empty()
            }) + (if c.tool_calls.len() > 0 {
                seq![recent_tools_text(c.tool_calls)]
            } else {
                Seq::empty()
            }) + (if c.thoughts.len() > 0 {
                seq!["> 💭 "@ + markdown::shortened(c.thoughts[c.thoughts.len() - 1], 120)]
            } else {
                Seq::empty()
            });
            &&& parts.len() == 0 ==> all == "🧠 已接收任务，正在处理…"@
            &&& forall|k: int| 0 <= k < parts.len() ==> text::occurs_at(
                all,
                #[trigger] parts[k],
                joined_at(parts, 2, k),
            )
            &&& parts.len() > 0 ==> all.len() == joined_at(parts, 2, parts.len() - 1) + parts.last().len()
            &&& c.text.len() > 0 ==> text::contains(all, c.text)
        }),
{
    let all = task_card::stream_text(c);
    let parts = (match status::todo_text(c.todos) {
        Some(t) => seq![t],
        None => Seq::empty(),
    }) + (if c.text.len() > 0 {
        seq![c.text]
    } else {
        Seq::empty()
    }) + (if c.tool_calls.len() > 0 {
        seq![recent_tools_text(c.tool_calls)]
    } else {
        Seq::empty()
    }) + (if c.thoughts.len() > 0 {
        seq!["> 💭 "@ + markdown::shortened(c.thoughts[c.thoughts.len() - 1], 120)]
    } else {
        Seq::empty()
    });
    if c.tool_calls.len() > 0 {
        let tools = c.tool_calls;
        let n = tools.len();
        let from = if n > 5 {
            n - 5
        } else {
            0
        };
        reveal_strlit("");
        assert(task_card::quoted_tools(task_card::latest(tools, 5)) =~= Seq::new(
            (n - from) as nat,
            |i: int| "> "@ + status::tool_line(tools[from + i]),
        ));
        assert(task_card::stream_tools(tools) =~= recent_tools_text(tools));
    }
    assert(task_card::stream_sections(c) =~= parts);
    reveal_strlit("\n\n");
    lemma_join_places(parts, "\n\n"@);
    assert forall|k: int| 0 <= k < parts.len() implies text::occurs_at(
        all,
        #[trigger] parts[k],
        joined_at(parts, 2, k),
    ) by {
        assert(text::occurs_at(text::join(parts, "\n\n"@), parts[k], joined_at(parts, 2, k)));
    }
    if c.text.len() > 0 {
        let k: int = if status::todo_text(c.todos) is Some {
            1
        } else {
            0
        };
        assert(parts[k] == c.text);
        assert(text::occurs_at(all, c.text, joined_at(parts, 2, k)));
    }
}

/// The main text of a card as a whole holds the plan, why the task failed, and everything that
/// it has said, in this order.
pub proof fn law_card_text_keeps_what_was_said(c: OutboundV)
    ensures
        ({
            let all = task_card::card_text(c);
            let why = match c.terminal {
                TerminalV::Error(e) => "❌ 出错："@ + e + "\n\n"@,
                _ => Seq::empty(),
            };
            let said = if c.text.len() > 0 {
                c.text
            } else {
                "🧠 已接收任务，正在处理…"@
            };
            all == plan_text(c) + why + said
        }),
{
    let all = task_card::card_text(c);
    let why = match c.terminal {
        TerminalV::Error(e) => "❌ 出错："@ + e + "\n\n"@,
        _ => Seq::empty(),
    };
    let said = if c.text.len() > 0 {
        c.text
    } else {
        "🧠 已接收任务，正在处理…"@
    };
    assert(all =~= plan_text(c) + why + said);
}

// ---------------------------------------------------------------------------
// How a task stands
// ---------------------------------------------------------------------------

/// While a task runs, its footer tells what it is doing, for how many seconds, and what waits
/// behind it, in this order.
pub proof fn law_running_footer_tells_all(phase: CardPhase, hint: Option<Seq<char>>, secs: int)
    ensures
        ({
            let doing = match phase {
                CardPhase::Thinking => "🧠 思考中…"@,
                CardPhase::ToolRunning => "🧰 正在调用工具…"@,
                CardPhase::Outputting => "✍️ 输出中…"@,
            };
            let since = if secs > 0 {
                " · "@ + digits::dec(secs) + "s"@
            } else {
                Seq::empty()
            };
            let queue = match hint {
                Some(h) => " · "@ + h,
                None => Seq::empty(),
            };
            status::running_text(phase, hint, secs) == doing + since + queue
        }),
{
    let doing = status::phase_text(phase);
    let since = if secs > 0 {
        " · "@ + digits::dec(secs) + "s"@
    } else {
        Seq::empty()
    };
    let queue = match hint {
        Some(h) => " · "@ + h,
        None => Seq::empty(),
    };
    assert(status::running_text(phase, hint, secs) =~= doing + since + queue);
}

/// A task that is done, one that was stopped and one that failed are told apart, wherever its
/// end is told; and what a task that is done took and cost is told.
pub proof fn law_ends_are_told_apart(secs: int, usage: Option<Seq<char>>, tools: int, e: Seq<char>)
    requires
        e != "已中断"@,
    ensures
        status::terminal_text(None) == "✅ 已完成"@,
        status::terminal_text(Some("已中断"@)) == "⏹ 已中断"@,
        status::terminal_text(Some(e)) == "❌ 出错"@,
        text::begins(status::stub_text(tools, None), "✅ 任务完成"@),
        text::begins(status::stub_text(tools, Some("已中断"@)), "⏹ 已中断"@),
        text::begins(status::stub_text(tools, Some(e)), "❌ 执行出错"@),
        text::begins(status::done_text(secs, usage), "✅ 已完成 · "@ + status::run_len(secs)),
        usage matches Some(u) ==> text::ends(status::done_text(secs, usage), " · "@ + u),
{
    let s = "✅ 已完成 · "@ + status::run_len(secs);
    assert(status::done_text(secs, usage).subrange(0, s.len() as int) =~= s);
    if usage is Some {
        let t = " · "@ + usage->0;
        assert(status::done_text(secs, usage) =~= s + t);
        assert((s + t).subrange((s + t).len() - t.len(), (s + t).len() as int) =~= t);
    }
    let a = "✅ 任务完成"@;
    assert(status::stub_text(tools, None).subrange(0, a.len() as int) =~= a);
    let b = "⏹ 已中断"@;
    assert(status::stub_text(tools, Some("已中断"@)).subrange(0, b.len() as int) =~= b);
    let c = "❌ 执行出错"@;
    assert(status::stub_text(tools, Some(e)).subrange(0, c.len() as int) =~= c);
}

/// A card whose result is sent again further down says so, and how many tools were used.
pub proof fn law_stub_points_down(tools: int, err: Option<Seq<char>>)
    ensures
        err is None ==> text::ends(status::stub_text(tools, err), "⬇️ 完整结果见下方消息"@),
        err is Some ==> text::ends(status::stub_text(tools, err), "⬇️ 详情见下方消息"@),
        err is None && tools > 0 ==> text::contains(
            status::stub_text(tools, err),
            "🔧 工具 "@ + digits::dec(tools) + " 次"@,
        ),
{
    let all = status::stub_text(tools, err);
    reveal_strlit("\n\n⬇️ 完整结果见下方消息");
    reveal_strlit("⬇️ 完整结果见下方消息");
    reveal_strlit("\n\n⬇️ 详情见下方消息");
    reveal_strlit("⬇️ 详情见下方消息");
    reveal_strlit("\n\n");
    reveal_strlit("\n\n🔧 工具 ");
    reveal_strlit("🔧 工具 ");
    assert("\n\n⬇️ 完整结果见下方消息"@ =~= "\n\n"@ + "⬇️ 完整结果见下方消息"@);
    assert("\n\n⬇️ 详情见下方消息"@ =~= "\n\n"@ + "⬇️ 详情见下方消息"@);
    if err is None {
        let t = "⬇️ 完整结果见下方消息"@;
        assert(all.subrange(all.len() - t.len(), all.len() as int) =~= t);
        if tools > 0 {
            let n = "🔧 工具 "@ + digits::dec(tools) + " 次"@;
            let top = "✅ 任务完成"@ + "\n\n"@;
            assert("\n\n🔧 工具 "@ =~= "\n\n"@ + "🔧 工具 "@);
            assert(all =~= top + n + "\n\n⬇️ 完整结果见下方消息"@);
            assert(all.subrange(top.len() as int, (top.len() + n.len()) as int) =~= n);
            assert(text::occurs_at(all, n, top.len() as int));
        }
    } else {
        let t = "⬇️ 详情见下方消息"@;
        assert(all.subrange(all.len() - t.len(), all.len() as int) =~= t);
    }
}

/// A duration is told in seconds below a minute, in minutes below an hour, in hours and minutes
/// below a day, and in days and hours from then on; nothing is rounded up.
pub proof fn law_durations(d: int, h: int, m: int, sec: int)
    requires
        0 <= d,
        0 <= h < 24,
        0 <= m < 60,
        0 <= sec < 60,
    ensures
        status::run_len(sec) == digits::dec(sec) + "s"@,
        m > 0 ==> status::run_len(m * 60 + sec) == digits::dec(m) + "m"@,
        h > 0 ==> status::run_len(h * 3600 + m * 60 + sec) == digits::dec(h) + "h"@ + (if m < 10 {
            "0"@
        } else {
            Seq::empty()
        }) + digits::dec(m) + "m"@,
        d > 0 ==> status::run_len(d * 86400 + h * 3600 + m * 60 + sec) == digits::dec(d) + "d"@ + digits::dec(h)
            + "h"@,
{
    if h > 0 {
        let t = h * 3600 + m * 60 + sec;
        assert(t / 3600 == h && (t % 3600) / 60 == m);
        reveal_strlit("0");
        assert("0"@ =~= seq!['0']);
        let two = digits::dec2(m as nat);
        assert(two =~= (if m < 10 {
            "0"@
        } else {
            Seq::empty()
        }) + digits::dec(m));
        assert(status::run_len(t) =~= digits::dec(h) + "h"@ + (if m < 10 {
            "0"@
        } else {
            Seq::empty()
        }) + digits::dec(m) + "m"@);
    }
    if d > 0 {
        let t = d * 86400 + h * 3600 + m * 60 + sec;
        assert(t / 86400 == d && (t % 86400) / 3600 == h);
    }
}

/// How long a question waits is told in seconds below a minute and a half, and from then on in
/// minutes, rounded to the nearest.
pub proof fn law_waiting_time(secs: int, minutes: int)
    requires
        0 <= secs,
    ensures
        secs < 90 ==> status::humanized(secs) == digits::dec(secs) + " 秒"@,
        secs >= 90 && minutes * 60 - 30 <= secs < minutes * 60 + 30 ==> status::humanized(secs)
            == digits::dec(minutes) + " 分钟"@,
{
    if secs >= 90 && minutes * 60 - 30 <= secs < minutes * 60 + 30 {
        assert((secs + 30) / 60 == minutes);
    }
}

/// Every tool that was used is named with how often it was.
pub proof fn law_every_tool_is_counted(tools: Seq<ToolCallV>, k: int)
    requires
        0 <= k < tools.len(),
    ensures
        text::contains(
            status::tool_stats(tools),
            tools[k].name + "×"@ + digits::dec(status::uses(tools, tools[k].name) as int),
        ),
{
    status::law_tool_counts(tools);
    let name = tools[k].name;
    let counts = status::tool_counts(tools);
    lemma_uses_positive(tools, k);
    assert(status::counted(counts, name) == status::uses(tools, name));
    let i = lemma_counted_at(counts, name);
    let texts = status::count_texts(counts);
    lemma_join_places(texts, " · "@);
    assert(texts[i] == name + "×"@ + digits::dec(status::uses(tools, name) as int));
    assert(text::occurs_at(status::tool_stats(tools), texts[i], joined_at(texts, " · "@.len(), i)));
}

proof fn lemma_uses_positive(tools: Seq<ToolCallV>, k: int)
    requires
        0 <= k < tools.len(),
    ensures
        status::uses(tools, tools[k].name) > 0,
    decreases tools.len(),
{
    if k < tools.len() - 1 {
        lemma_uses_positive(tools.drop_last(), k);
        assert(tools.drop_last()[k] == tools[k]);
    }
}

proof fn lemma_counted_at(counts: Seq<(Seq<char>, nat)>, name: Seq<char>) -> (i: int)
    requires
        status::counted(counts, name) > 0,
    ensures
        0 <= i < counts.len(),
        counts[i].0 == name,
        counts[i].1 == status::counted(counts, name),
    decreases counts.len(),
{
    if counts[0].0 == name {
        0
    } else {
        let j = lemma_counted_at(counts.drop_first(), name);
        j + 1
    }
}

// ---------------------------------------------------------------------------
// Forwarded conversations
// ---------------------------------------------------------------------------

/// Where the line of a message stands behind the head of a transcript: behind the lines of all
/// messages before it, each on a line of its own.
pub open spec fn line_at(items: Seq<ItemV>, times: Seq<Option<Seq<char>>>, k: int) -> int
    decreases k,
{
    if k <= 0 {
        1
    } else {
        line_at(items, times, k - 1) + forward::item_line(items[k - 1], times[k - 1]).len() + 1
    }
}

proof fn lemma_concat_places(
    items: Seq<ItemV>,
    times: Seq<Option<Seq<char>>>,
    lines: Seq<Seq<char>>,
    n: int,
)
    requires
        0 <= n <= items.len(),
        lines.len() == items.len(),
        forall|i: int| 0 <= i < items.len() ==> #[trigger] lines[i] == "\n"@ + forward::item_line(items[i], times[i]),
    ensures
        forward::concat(lines.subrange(0, n)).len() == line_at(items, times, n) - 1,
        forall|k: int| 0 <= k < n ==> #[trigger] text::occurs_at(
            forward::concat(lines.subrange(0, n)),
            forward::item_line(items[k], times[k]),
            line_at(items, times, k),
        ),
        forall|k: int| 0 <= k < n ==> forward::concat(lines.subrange(0, n))[#[trigger] line_at(items, times, k) - 1] == '\n',
        forall|k: int| 0 <= k < n ==> 1 <= #[trigger] line_at(items, times, k) <= forward::concat(lines.subrange(0, n)).len(),
    decreases n,
{
    reveal_strlit("\n");
    let all = forward::concat(lines.subrange(0, n));
    if n > 0 {
        lemma_concat_places(items, times, lines, n - 1);
        let before = forward::concat(lines.subrange(0, n - 1));
        assert(lines.subrange(0, n).drop_last() =~= lines.subrange(0, n - 1));
        assert(lines.subrange(0, n).last() == lines[n - 1]);
        assert(all == before + lines[n - 1]);
        let own = forward::item_line(items[n - 1], times[n - 1]);
        assert(lines[n - 1] == "\n"@ + own);
        assert forall|k: int| 0 <= k < n implies #[trigger] text::occurs_at(
            all,
            forward::item_line(items[k], times[k]),
            line_at(items, times, k),
        ) by {
            let line = forward::item_line(items[k], times[k]);
            let at = line_at(items, times, k);
            if k < n - 1 {
                assert(text::occurs_at(before, line, at));
                assert(all.subrange(at, at + line.len()) =~= before.subrange(at, at + line.len()));
            } else {
                assert(at == before.len() + 1);
                assert(all.subrange(at, at + line.len()) =~= line);
            }
        }
        assert forall|k: int| 0 <= k < n implies all[#[trigger] line_at(items, times, k) - 1] == '\n' && 1
            <= line_at(items, times, k) <= all.len() by {
            if k == n - 1 {
                assert(line_at(items, times, k) == before.len() + 1);
                assert(all[before.len() as int] == lines[n - 1][0]);
            } else {
                assert(all[line_at(items, times, k) - 1] == before[line_at(items, times, k) - 1]);
            }
        }
    }
}

/// The messages stand in a transcript in the order in which they were given, each as a line of
/// its own behind the head: where a message is kept, so are all messages before it, and where
/// all of them fit, all are kept and nothing else is there.
#[verifier::rlimit(50)]
pub proof fn law_transcript_keeps_the_order(
    items: Seq<ItemV>,
    times: Seq<Option<Seq<char>>>,
    title: Option<Seq<char>>,
    summary: Option<Seq<char>>,
)
    requires
        times.len() == items.len(),
        forward::transcript_head(items.len(), title, summary).len() <= 8000,
    ensures
        ({
            let all = forward::transcript(items, times, title, summary);
            let top = forward::transcript_head(items.len(), title, summary);
            &&& text::begins(all, top)
            &&& top.len() + line_at(items, times, items.len() as int) - 1 <= 8000 ==> all.len()
                == top.len() + line_at(items, times, items.len() as int) - 1
            &&& forall|k: int|
                0 <= k < items.len() && top.len() + line_at(items, times, k + 1) - 1 <= 8000 ==> #[trigger] text::occurs_at(
                    all,
                    forward::item_line(items[k], times[k]),
                    top.len() + line_at(items, times, k),
                ) && all[top.len() + line_at(items, times, k) - 1] == '\n'
        }),
{
    let all = forward::transcript(items, times, title, summary);
    let top = forward::transcript_head(items.len(), title, summary);
    let lines = forward::transcript_lines(items, times);
    let n = items.len() as int;
    lemma_concat_places(items, times, lines, n);
    assert(lines.subrange(0, n) =~= lines);
    let kept = forward::fitting(top.len(), lines) as int;
    lemma_fitting(items, times, lines, top.len());
    lemma_concat_places(items, times, lines, kept);
    let shown = forward::concat(lines.subrange(0, kept));
    let note = forward::transcript_note(top, lines);
    assert(text::head(top, 8000) == top);
    assert(lines.subrange(0, n) =~= lines);
    if kept == 0 && n > 0 {
        assert(all.subrange(0, top.len() as int) =~= top);
        assert forall|k: int|
            0 <= k < items.len() && top.len() + line_at(items, times, k + 1) - 1 <= 8000 implies #[trigger] text::occurs_at(
            all,
            forward::item_line(items[k], times[k]),
            top.len() + line_at(items, times, k),
        ) && all[top.len() + line_at(items, times, k) - 1] == '\n' by {
            lemma_line_at_grows(items, times, 1, k + 1);
        }
        lemma_line_at_grows(items, times, 1, n);
    } else {
        assert(all =~= top + shown + note);
        assert(all.subrange(0, top.len() as int) =~= top);
        assert forall|k: int|
            0 <= k < items.len() && top.len() + line_at(items, times, k + 1) - 1 <= 8000 implies #[trigger] text::occurs_at(
            all,
            forward::item_line(items[k], times[k]),
            top.len() + line_at(items, times, k),
        ) && all[top.len() + line_at(items, times, k) - 1] == '\n' by {
            if k >= kept {
                lemma_line_at_grows(items, times, kept + 1, k + 1);
            }
            assert(text::occurs_at(shown, forward::item_line(items[k], times[k]), line_at(items, times, k)));
            lemma_within(top, shown, note, forward::item_line(items[k], times[k]), line_at(items, times, k));
            assert(all[top.len() + line_at(items, times, k) - 1] == shown[line_at(items, times, k) - 1]);
        }
        if top.len() + line_at(items, times, n) - 1 <= 8000 && kept < n {
            lemma_line_at_grows(items, times, kept + 1, n);
        }
    }
}

proof fn lemma_line_at_grows(items: Seq<ItemV>, times: Seq<Option<Seq<char>>>, a: int, b: int)
    requires
        0 <= a <= b,
    ensures
        line_at(items, times, a) <= line_at(items, times, b),
    decreases b - a,
{
    if a < b {
        lemma_line_at_grows(items, times, a, b - 1);
    }
}

/// How many lines are kept from one of them on, by where they end.
proof fn lemma_kept_from(lines: Seq<Seq<char>>, ends: spec_fn(int) -> int, from: int)
    requires
        0 <= from <= lines.len(),
        forall|i: int| 0 <= i < lines.len() ==> #[trigger] ends(i) + lines[i].len() == ends(i + 1),
        0 <= ends(from) <= 8000,
    ensures
        ({
            let k = from + forward::fitting(
                ends(from) as nat,
                lines.subrange(from, lines.len() as int),
            );
            &&& from <= k <= lines.len()
            &&& ends(k) <= 8000
            &&& k < lines.len() ==> ends(k + 1) > 8000
        }),
    decreases lines.len() - from,
{
    let rest = lines.subrange(from, lines.len() as int);
    if from < lines.len() {
        assert(rest[0] == lines[from]);
        assert(ends(from) + lines[from].len() == ends(from + 1));
        if ends(from) + rest[0].len() <= 8000 {
            lemma_kept_from(lines, ends, from + 1);
            assert(rest.drop_first() =~= lines.subrange(from + 1, lines.len() as int));
        }
    }
}

/// How many lines of a transcript are kept.
proof fn lemma_fitting(
    items: Seq<ItemV>,
    times: Seq<Option<Seq<char>>>,
    lines: Seq<Seq<char>>,
    top: nat,
)
    requires
        lines.len() == items.len(),
        forall|i: int| 0 <= i < items.len() ==> #[trigger] lines[i] == "\n"@ + forward::item_line(items[i], times[i]),
        top <= 8000,
    ensures
        ({
            let k = forward::fitting(top, lines);
            &&& 0 <= k <= items.len()
            &&& top + line_at(items, times, k as int) - 1 <= 8000
            &&& k < items.len() ==> top + line_at(items, times, k as int + 1) - 1 > 8000
        }),
{
    let ends = |k: int| top + line_at(items, times, k) - 1;
    assert forall|i: int| 0 <= i < lines.len() implies #[trigger] ends(i) + lines[i].len() == ends(i + 1) by {
        lemma_line_ends(items, times, lines, i);
    }
    lemma_kept_from(lines, ends, 0);
    assert(lines.subrange(0, lines.len() as int) =~= lines);
}

proof fn lemma_line_ends(
    items: Seq<ItemV>,
    times: Seq<Option<Seq<char>>>,
    lines: Seq<Seq<char>>,
    i: int,
)
    requires
        0 <= i < items.len(),
        lines[i] == "\n"@ + forward::item_line(items[i], times[i]),
    ensures
        line_at(items, times, i + 1) == line_at(items, times, i) + lines[i].len(),
{
    reveal_strlit("\n");
}

/// Where not all messages fit, a transcript ends with how many there are and how many of the
/// first of them are shown.
#[verifier::rlimit(50)]
pub proof fn law_cut_transcript_says_so(
    items: Seq<ItemV>,
    times: Seq<Option<Seq<char>>>,
    title: Option<Seq<char>>,
    summary: Option<Seq<char>>,
    shown: int,
)
    requires
        times.len() == items.len(),
        1 <= shown < items.len(),
        forward::transcript_head(items.len(), title, summary).len() + line_at(items, times, shown) - 1 <= 8000,
        forward::transcript_head(items.len(), title, summary).len() + line_at(items, times, shown + 1) - 1 > 8000,
    ensures
        text::ends(
            forward::transcript(items, times, title, summary),
            "\n（已截断，共 "@ + digits::dec(items.len() as int) + " 条中前 "@ + digits::dec(shown) + " 条）"@,
        ),
        forward::transcript(items, times, title, summary).len() == forward::transcript_head(
            items.len(),
            title,
            summary,
        ).len() + line_at(items, times, shown) - 1 + ("\n（已截断，共 "@ + digits::dec(items.len() as int) + " 条中前 "@
            + digits::dec(shown) + " 条）"@).len(),
{
    let top = forward::transcript_head(items.len(), title, summary);
    let lines = forward::transcript_lines(items, times);
    lemma_line_at_grows(items, times, 0, shown);
    lemma_fitting(items, times, lines, top.len());
    let kept = forward::fitting(top.len(), lines) as int;
    if kept < shown {
        lemma_line_at_grows(items, times, kept + 1, shown);
    }
    if kept > shown {
        lemma_line_at_grows(items, times, shown + 1, kept);
    }
    lemma_concat_places(items, times, lines, kept);
    let all = forward::transcript(items, times, title, summary);
    let note = "\n（已截断，共 "@ + digits::dec(items.len() as int) + " 条中前 "@ + digits::dec(shown) + " 条）"@;
    assert(all.subrange(all.len() - note.len(), all.len() as int) =~= note);
}

/// The line of a message tells who sent it, when, where that is known, and what it says: the
/// name of the sender, else the end of the sender's identity.
pub proof fn law_line_tells_who_and_what(item: ItemV, time: Option<Seq<char>>)
    ensures
        ({
            let who = match item.sender_name {
                Some(n) => if text::trim(n).len() > 0 {
                    text::trim(n)
                } else {
                    forward::sender_label(None, item.sender_id)
                },
                None => forward::sender_label(None, item.sender_id),
            };
            let when = match time {
                Some(t) => " "@ + t,
                None => Seq::empty(),
            };
            forward::item_line(item, time) == "["@ + who + when + "] "@ + forward::item_body(item)
        }),
        item.sender_id.len() == 0 ==> forward::sender_label(None, item.sender_id) == "未知"@,
        0 < item.sender_id.len() <= 8 ==> forward::sender_label(None, item.sender_id)
            == item.sender_id,
        item.sender_id.len() > 8 ==> forward::sender_label(None, item.sender_id).len() == 8
            && text::ends(item.sender_id, forward::sender_label(None, item.sender_id)),
{
    let who = forward::sender_label(item.sender_name, item.sender_id);
    let when = match time {
        Some(t) => " "@ + t,
        None => Seq::empty(),
    };
    assert(forward::item_line(item, time) =~= "["@ + who + when + "] "@ + forward::item_body(item));
}

/// What a forwarded message says: a text word for word, a file by its name, and anything else
/// by its kind.
pub proof fn law_forwarded_messages(item: ItemV, said: Seq<char>)
    ensures
        item.message_type == "text"@ && message::text_in(item.content) == Some(said)
            ==> forward::item_body(item) == said,
        item.message_type == "file"@ && forward::file_name_in(item.content) == Some(said)
            ==> forward::item_body(item) == "[文件: "@ + said + "]"@,
        item.message_type == "image"@ ==> forward::item_body(item) == "[图片]"@,
        item.message_type == "sticker"@ || item.message_type == "emotion"@ ==> forward::item_body(item)
            == "[表情]"@,
        item.message_type == "media"@ || item.message_type == "video"@ ==> forward::item_body(item)
            == "[视频]"@,
        item.message_type == "interactive"@ ==> forward::item_body(item) == "[卡片消息]"@,
        item.message_type == "merged_forward"@ ==> forward::item_body(item)
            == "[合并转发消息（嵌套）]"@,
{
    reveal_strlit("text");
    reveal_strlit("post");
    reveal_strlit("image");
    reveal_strlit("sticker");
    reveal_strlit("emotion");
    reveal_strlit("file");
    reveal_strlit("media");
    reveal_strlit("video");
    reveal_strlit("interactive");
    reveal_strlit("merged_forward");
    assert("text"@[0] == 't' && "post"@[0] == 'p' && "file"@[0] == 'f');
    assert("image"@[0] == 'i' && "media"@[0] == 'm' && "video"@[0] == 'v');
    assert("sticker"@[0] == 's' && "emotion"@[0] == 'e');
    assert("interactive"@.len() == 11 && "merged_forward"@.len() == 14);
}

/// The head of a transcript names the conversation, or says how many messages it has, and
/// tells what it is about where that is known.
pub proof fn law_transcript_head(n: nat, title: Seq<char>, summary: Seq<char>)
    requires
        text::trim(title).len() > 0,
        text::trim(summary).len() > 0,
    ensures
        forward::transcript_head(n, Some(title), None) == "【合并转发聊天记录】"@ + text::trim(title),
        forward::transcript_head(n, None, None) == "【合并转发聊天记录】共 "@ + digits::dec(n as int)
            + " 条"@,
        forward::transcript_head(n, Some(title), Some(summary)) == "【合并转发聊天记录】"@ + text::trim(
            title,
        ) + "\n"@ + text::trim(summary),
        forward::transcript_head(n, None, Some(summary)) == "【合并转发聊天记录】共 "@ + digits::dec(n as int)
            + " 条"@ + "\n"@ + text::trim(summary),
{
}

/// The messages of a page keep their order; what is no message is passed over, and nothing
/// else.
pub proof fn law_page_keeps_the_order(items: Seq<json::JsonV>)
    requires
        forall|i: int| 0 <= i < items.len() ==> (#[trigger] items[i]) is Obj,
    ensures
        forward::page_items(items).len() == items.len(),
        forall|k: int| 0 <= k < items.len() ==> #[trigger] forward::page_items(items)[k]
            == forward::page_item(items[k]),
    decreases items.len(),
{
    if items.len() > 0 {
        law_page_keeps_the_order(items.drop_last());
        assert forall|k: int| 0 <= k < items.len() implies #[trigger] forward::page_items(items)[k]
            == forward::page_item(items[k]) by {
            if k < items.len() - 1 {
                assert(forward::page_items(items)[k] == forward::page_items(items.drop_last())[k]);
                assert(items.drop_last()[k] == items[k]);
            }
        }
    }
}

/// A time is in milliseconds; a number too small for that is in seconds.
pub proof fn law_times_in_milliseconds(t: int)
    ensures
        t >= 100_000_000_000 ==> forward::millis(t) == t,
        0 < t < 100_000_000_000 ==> forward::millis(t) == 1000 * t,
        t <= 0 ==> forward::millis(t) == t,
{
}

/// The lines of some messages, all of them, each behind a line break.
pub open spec fn all_lines(items: Seq<ItemV>, times: Seq<Option<Seq<char>>>, n: int) -> Seq<char>
    decreases n,
{
    if n <= 0 {
        Seq::empty()
    } else {
        all_lines(items, times, n - 1) + ("\n"@ + forward::item_line(items[n - 1], times[n - 1]))
    }
}

proof fn lemma_all_lines(items: Seq<ItemV>, times: Seq<Option<Seq<char>>>, k: int, n: int)
    requires
        0 <= k <= n <= items.len(),
    ensures
        forward::concat(forward::transcript_lines(items, times).subrange(0, k)) == all_lines(
            items,
            times,
            k,
        ),
        text::begins(all_lines(items, times, n), all_lines(items, times, k)),
    decreases n,
{
    let lines = forward::transcript_lines(items, times);
    if k > 0 {
        lemma_all_lines(items, times, k - 1, k - 1);
        assert(lines.subrange(0, k).drop_last() =~= lines.subrange(0, k - 1));
        assert(lines.subrange(0, k).last() == lines[k - 1]);
    } else {
        assert(lines.subrange(0, 0) =~= Seq::<Seq<char>>::empty());
    }
    let all = all_lines(items, times, n);
    let part = all_lines(items, times, k);
    if k < n {
        lemma_all_lines(items, times, k, n - 1);
        let most = all_lines(items, times, n - 1);
        assert(all.subrange(0, part.len() as int) =~= most.subrange(0, part.len() as int));
    } else {
        assert(all.subrange(0, all.len() as int) =~= all);
    }
}

/// What is kept of a record is a beginning of it: of the head and of the lines of all
/// messages, one behind the other. Only the note that something was left out may follow.
#[verifier::rlimit(50)]
pub proof fn law_kept_is_a_beginning(
    items: Seq<ItemV>,
    times: Seq<Option<Seq<char>>>,
    title: Option<Seq<char>>,
    summary: Option<Seq<char>>,
)
    requires
        times.len() == items.len(),
    ensures
        exists|kept: Seq<char>, note: Seq<char>|
            #![trigger kept + note]
            forward::transcript(items, times, title, summary) == kept + note && text::begins(
                forward::transcript_head(items.len(), title, summary) + all_lines(
                    items,
                    times,
                    items.len() as int,
                ),
                kept,
            ) && (note.len() == 0 || text::begins(note, "\n（已截断，共 "@)) && (note.len() == 0 ==> kept
                == forward::transcript_head(items.len(), title, summary) + all_lines(
                items,
                times,
                items.len() as int,
            )),
{
    let top = forward::transcript_head(items.len(), title, summary);
    let lines = forward::transcript_lines(items, times);
    let kept = forward::transcript_body(top, lines);
    let note = forward::transcript_note(top, lines);
    let n = items.len() as int;
    let whole = top + all_lines(items, times, n);
    let k = forward::fitting(top.len(), lines) as int;
    forward::lemma_fitting_bound(top.len(), lines);
    lemma_all_lines(items, times, k, n);
    lemma_all_lines(items, times, 0, n);
    reveal_strlit("\n（已截断，共 ");
    let mark = "\n（已截断，共 "@;
    if note.len() > 0 {
        assert(note.subrange(0, mark.len() as int) =~= mark);
    }
    let part = all_lines(items, times, k);
    let all = all_lines(items, times, n);
    if k == 0 && n > 0 {
        let first = text::head(lines[0], forward::room_behind(top.len()));
        lemma_all_lines(items, times, 1, n);
        let one = all_lines(items, times, 1);
        assert(one =~= lines[0]) by {
            assert(all_lines(items, times, 0) =~= Seq::<char>::empty());
        }
        assert(all.subrange(0, one.len() as int) == one);
        assert(lines[0].subrange(0, first.len() as int) =~= first);
        assert(all.subrange(0, first.len() as int) =~= first) by {
            assert forall|i: int| 0 <= i < first.len() implies all[i] == first[i] by {
                assert(all[i] == all.subrange(0, one.len() as int)[i]);
            }
        }
        if top.len() <= 8000 {
            assert(whole.subrange(0, kept.len() as int) =~= top + all.subrange(0, first.len() as int));
        } else {
            assert(first.len() == 0);
            assert(kept =~= top.subrange(0, 8000));
            assert(whole.subrange(0, kept.len() as int) =~= top.subrange(0, 8000));
        }
    } else {
        if top.len() <= 8000 {
            assert(whole.subrange(0, kept.len() as int) =~= top + all.subrange(0, part.len() as int));
            if k == n {
                assert(kept =~= whole);
            }
        } else {
            if n > 0 {
                assert(top.len() + lines[0].len() > 8000);
            }
            assert(part =~= Seq::<char>::empty());
            assert(kept =~= top.subrange(0, 8000));
            assert(whole.subrange(0, kept.len() as int) =~= top.subrange(0, 8000));
        }
    }
    assert(forward::transcript(items, times, title, summary) == kept + note);
}

/// A message of a page is read as its document says it: which it is, of what kind, what it
/// holds, who sent it and when.
pub proof fn law_page_item_is_read(v: json::JsonV, at: i64)
    ensures
        ({
            let item = forward::page_item(v);
            &&& v.str_at("message_id"@) is Some ==> v.str_at("message_id"@) == Some(item.message_id)
            &&& v.str_at("message_type"@) is Some ==> v.str_at("message_type"@) == Some(
                item.message_type,
            )
            &&& v.str_at("message_type"@) is None && v.str_at("msg_type"@) is Some ==> v.str_at(
                "msg_type"@,
            ) == Some(item.message_type)
            &&& v.str_at("content"@) is Some ==> v.str_at("content"@) == Some(item.content)
            &&& v.at("sender"@).str_at("id"@) is Some ==> v.at("sender"@).str_at("id"@) == Some(
                item.sender_id,
            )
            &&& v.at("sender"@).str_at("name"@) is None ==> item.sender_name is None
            &&& v.at("sender"@).str_at("name"@) matches Some(name) ==> text::trim(name).len() > 0
                ==> item.sender_name == Some(text::trim(name))
            &&& v.at("create_time"@) == json::JsonV::Num(digits::dec(at as int)) && at
                >= 100_000_000_000 ==> item.create_time_ms == at
            &&& v.at("create_time"@) == json::JsonV::Num(digits::dec(at as int)) && 0 < at
                < 100_000_000_000 ==> item.create_time_ms == 1000 * at
            &&& v.at("create_time"@) is Null ==> item.create_time_ms == 0
        }),
{
    json::lemma_as_i64(at);
}

/// Where not even the first message fits, as much of it as fits is kept, and counts as shown.
pub proof fn law_long_first_message_is_cut(
    items: Seq<ItemV>,
    times: Seq<Option<Seq<char>>>,
    title: Option<Seq<char>>,
    summary: Option<Seq<char>>,
)
    requires
        times.len() == items.len(),
        items.len() > 0,
        forward::transcript_head(items.len(), title, summary).len() <= 8000,
        forward::transcript_head(items.len(), title, summary).len() + line_at(items, times, 1) - 1 > 8000,
    ensures
        ({
            let top = forward::transcript_head(items.len(), title, summary);
            let first = "\n"@ + forward::item_line(items[0], times[0]);
            forward::transcript(items, times, title, summary) == top + first.subrange(
                0,
                8000 - top.len(),
            ) + ("\n（已截断，共 "@ + digits::dec(items.len() as int) + " 条中前 "@ + digits::dec(1) + " 条）"@)
        }),
{
    let top = forward::transcript_head(items.len(), title, summary);
    let lines = forward::transcript_lines(items, times);
    lemma_line_ends(items, times, lines, 0);
    lemma_fitting(items, times, lines, top.len());
    let first = "\n"@ + forward::item_line(items[0], times[0]);
    assert(lines[0] == first);
    assert(top.len() + first.len() > 8000);
}

/// What stands for other forwarded messages: rich text by its text or its pictures, and
/// whatever is not known by that.
pub proof fn law_other_forwarded_messages(item: ItemV, t: Seq<char>)
    requires
        !text::blank(t),
    ensures
        item.message_type == "post"@ ==> (message::post_in(item.content, None, Seq::empty()) matches Some(
            (said, media, _),
        ) ==> (said == Some(t) ==> forward::item_body(item) == t) && (said is None && media.len() > 0
            ==> forward::item_body(item) == "[图片]"@)),
        item.message_type == "text"@ && message::text_in(item.content) is None ==> forward::item_body(item)
            == "[文本消息]"@,
        item.message_type == "file"@ && forward::file_name_in(item.content) is None
            ==> forward::item_body(item) == "[文件]"@,
        item.message_type == "location"@ ==> forward::item_body(item) == "[未知类型消息]"@,
{
    reveal_strlit("location");
    reveal_strlit("text");
    reveal_strlit("post");
    reveal_strlit("image");
    reveal_strlit("sticker");
    reveal_strlit("emotion");
    reveal_strlit("file");
    reveal_strlit("media");
    reveal_strlit("video");
    reveal_strlit("interactive");
    reveal_strlit("merged_forward");
    assert("text"@[0] == 't' && "post"@[0] == 'p' && "file"@[0] == 'f' && "image"@[0] == 'i');
    assert("location"@.len() == 8 && "sticker"@.len() == 7 && "emotion"@.len() == 7);
    assert("interactive"@.len() == 11 && "merged_forward"@.len() == 14 && "media"@.len() == 5);
    assert("video"@.len() == 5);
}

/// Names are put in the order of their first letter that differs; a name stands before all
/// that go on from it.
pub proof fn law_order_of_names(p: Seq<char>, x: char, y: char, a: Seq<char>, b: Seq<char>)
    requires
        x != y,
    ensures
        status::precedes(p + (seq![x] + a), p + (seq![y] + b)) <==> (x as u32) < (y as u32),
        status::precedes(p, p + (seq![x] + a)),
        !status::precedes(p + (seq![x] + a), p),
        !status::precedes(p, p),
    decreases p.len(),
{
    let s = p + (seq![x] + a);
    let t = p + (seq![y] + b);
    if p.len() > 0 {
        let q = p.drop_first();
        law_order_of_names(q, x, y, a, b);
        assert(s.drop_first() =~= q + (seq![x] + a));
        assert(t.drop_first() =~= q + (seq![y] + b));
        assert(s[0] == p[0] && t[0] == p[0]);
    } else {
        assert(s =~= seq![x] + a);
        assert(t =~= seq![y] + b);
        assert(s[0] == x && t[0] == y);
    }
}

/// A task that ended without having said or done anything says so.
pub proof fn law_nothing_came_back(c: OutboundV)
    requires
        c.text.len() == 0,
        c.todos.len() == 0,
        c.tool_calls.len() == 0,
        c.thoughts.len() == 0,
    ensures
        task_card::final_text(c, None) == "（未返回内容）"@,
{
    reveal_strlit("");
}

} // verus!
