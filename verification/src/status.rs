//! Lines that tell how a task is getting on.
use vstd::prelude::*;

use crate::digits;
use crate::digits::{dec2_u64, dec_u64, dec_usize};
use crate::json;
use crate::json::parse_json_str;
use crate::model;
use crate::model::{CardPhase, TodoItem, TodoStatus, TodoV, ToolCall, ToolCallV};
use crate::text;
use crate::text::{cat2, cat3, cat4, cat5, chars_of, str_eq, str_join, take_nonempty};

verus! {

/// The reason with which a task ends that was stopped by a user.
pub const STOPPED: &'static str = "已中断";

// ---------------------------------------------------------------------------
// Footers
// ---------------------------------------------------------------------------

/// A time limit in words: minutes from a minute and a half on, else seconds.
pub open spec fn humanized(secs: int) -> Seq<char> {
    if secs >= 90 {
        digits::dec((secs + 30) / 60) + " 分钟"@
    } else {
        digits::dec(secs) + " 秒"@
    }
}

/// A time limit in words: minutes from a minute and a half on, else seconds.
pub fn humanize_ask_timeout(secs: u64) -> (r: String)
    ensures
        r@ == humanized(secs as int),
{
    if secs >= 90 {
        let m: u64 = if secs % 60 >= 30 {
            secs / 60 + 1
        } else {
            secs / 60
        };
        cat2(dec_u64(m).as_str(), " 分钟")
    } else {
        cat2(dec_u64(secs).as_str(), " 秒")
    }
}

/// What a running task is doing.
pub open spec fn phase_text(phase: CardPhase) -> Seq<char> {
    match phase {
        CardPhase::Thinking => "🧠 思考中…"@,
        CardPhase::ToolRunning => "🧰 正在调用工具…"@,
        CardPhase::Outputting => "✍️ 输出中…"@,
    }
}

/// What a running task is doing.
pub fn phase_footer(phase: CardPhase) -> (r: &'static str)
    ensures
        r@ == phase_text(phase),
{
    match phase {
        CardPhase::Thinking => "🧠 思考中…",
        CardPhase::ToolRunning => "🧰 正在调用工具…",
        CardPhase::Outputting => "✍️ 输出中…",
    }
}

/// What a running task is doing, for how long, and what waits behind it.
pub open spec fn running_text(
    phase: CardPhase,
    queued_hint: Option<Seq<char>>,
    run_secs: int,
) -> Seq<char> {
    let a = if run_secs > 0 {
        phase_text(phase) + " · "@ + digits::dec(run_secs) + "s"@
    } else {
        phase_text(phase)
    };
    match queued_hint {
        Some(h) => a + " · "@ + h,
        None => a,
    }
}

/// What a running task is doing, for how long, and what waits behind it.
pub fn running_footer(phase: CardPhase, queued_hint: Option<&str>, run_secs: u64) -> (r: String)
    ensures
        r@ == running_text(phase, text::sview(queued_hint), run_secs as int),
{
    let a = if run_secs > 0 {
        cat4(phase_footer(phase), " · ", dec_u64(run_secs).as_str(), "s")
    } else {
        phase_footer(phase).to_owned()
    };
    match queued_hint {
        Some(h) => cat3(a.as_str(), " · ", h),
        None => a,
    }
}

/// How a task ended: done, stopped, or with an error.
pub open spec fn terminal_text(err: Option<Seq<char>>) -> Seq<char> {
    match err {
        Some(e) => if e == STOPPED@ {
            "⏹ 已中断"@
        } else {
            "❌ 出错"@
        },
        None => "✅ 已完成"@,
    }
}

/// How a task ended: done, stopped, or with an error.
pub fn terminal_footer(err: Option<&str>) -> (r: &'static str)
    ensures
        r@ == terminal_text(text::sview(err)),
{
    match err {
        Some(e) => if str_eq(e, STOPPED) {
            "⏹ 已中断"
        } else {
            "❌ 出错"
        },
        None => "✅ 已完成",
    }
}

/// A duration in short form: seconds, minutes, hours and minutes, or days and hours.
pub open spec fn run_len(secs: int) -> Seq<char> {
    if secs < 60 {
        digits::dec(secs) + "s"@
    } else if secs < 3600 {
        digits::dec(secs / 60) + "m"@
    } else if secs < 86400 {
        digits::dec(secs / 3600) + "h"@ + digits::dec2(((secs % 3600) / 60) as nat) + "m"@
    } else {
        digits::dec(secs / 86400) + "d"@ + digits::dec((secs % 86400) / 3600) + "h"@
    }
}

/// A duration in short form: seconds, minutes, hours and minutes, or days and hours.
pub fn format_run_len(secs: u64) -> (r: String)
    ensures
        r@ == run_len(secs as int),
{
    if secs < 60 {
        cat2(dec_u64(secs).as_str(), "s")
    } else if secs < 3600 {
        cat2(dec_u64(secs / 60).as_str(), "m")
    } else if secs < 86400 {
        cat4(dec_u64(secs / 3600).as_str(), "h", dec2_u64((secs % 3600) / 60).as_str(), "m")
    } else {
        cat4(
            dec_u64(secs / 86400).as_str(),
            "d",
            dec_u64((secs % 86400) / 3600).as_str(),
            "h",
        )
    }
}

/// That a task is done, how long it took, and what it cost.
pub open spec fn done_text(run_secs: int, usage: Option<Seq<char>>) -> Seq<char> {
    let a = "✅ 已完成 · "@ + run_len(run_secs);
    match usage {
        Some(u) => a + " · "@ + u,
        None => a,
    }
}

/// That a task is done, how long it took, and what it cost.
pub fn terminal_done_footer(run_secs: u64, usage_display: Option<&str>) -> (r: String)
    ensures
        r@ == done_text(run_secs as int, text::sview(usage_display)),
{
    let a = cat2("✅ 已完成 · ", format_run_len(run_secs).as_str());
    match usage_display {
        Some(u) => cat3(a.as_str(), " · ", u),
        None => a,
    }
}

/// What is left of a card whose result is sent again further down.
pub open spec fn stub_text(tool_count: int, err: Option<Seq<char>>) -> Seq<char> {
    let status = match err {
        Some(e) => if e == STOPPED@ {
            "⏹ 已中断"@
        } else {
            "❌ 执行出错"@
        },
        None => "✅ 任务完成"@,
    };
    if err is None {
        (if tool_count > 0 {
            status + "\n\n🔧 工具 "@ + digits::dec(tool_count) + " 次"@
        } else {
            status
        }) + "\n\n⬇️ 完整结果见下方消息"@
    } else {
        status + "\n\n⬇️ 详情见下方消息"@
    }
}

/// What is left of a card whose result is sent again further down: how the task ended, and a
/// pointer.
pub fn stub_body(tool_count: usize, err: Option<&str>) -> (r: String)
    ensures
        r@ == stub_text(tool_count as int, text::sview(err)),
{
    match err {
        Some(e) => if str_eq(e, STOPPED) {
            cat2("⏹ 已中断", "\n\n⬇️ 详情见下方消息")
        } else {
            cat2("❌ 执行出错", "\n\n⬇️ 详情见下方消息")
        },
        None => {
            if tool_count > 0 {
                cat5(
                    "✅ 任务完成",
                    "\n\n🔧 工具 ",
                    dec_usize(tool_count).as_str(),
                    " 次",
                    "\n\n⬇️ 完整结果见下方消息",
                )
            } else {
                cat2("✅ 任务完成", "\n\n⬇️ 完整结果见下方消息")
            }
        },
    }
}

// ---------------------------------------------------------------------------
// Tools
// ---------------------------------------------------------------------------

/// The line of a use of a tool: its state, its name and its summary.
pub open spec fn tool_line(t: ToolCallV) -> Seq<char> {
    let a = (if t.done {
        "✅ **"@
    } else {
        "⏳ **"@
    }) + t.name + "**"@;
    if t.summary.len() == 0 {
        a
    } else {
        a + " — "@ + t.summary
    }
}

/// The line of a use of a tool: its state, its name and its summary.
pub fn tool_card_line(t: &ToolCall) -> (r: String)
    ensures
        r@ == tool_line(t@),
{
    let a = cat3(
        if t.done {
            "✅ **"
        } else {
            "⏳ **"
        },
        t.name.as_str(),
        "**",
    );
    if t.summary.as_str().is_empty() {
        a
    } else {
        cat3(a.as_str(), " — ", t.summary.as_str())
    }
}

/// The part of a tool's input that tells a reader most: the file, command, pattern or
/// address it is about.
pub open spec fn input_summary(input: Seq<char>) -> Seq<char> {
    match json::parsed_text(input) {
        Some(j) => text::or_text(
            text::first_of(
                text::first_of(
                    text::first_of(text::nonempty(j.str_at("file_path"@)), text::nonempty(j.str_at("command"@))),
                    text::first_of(text::nonempty(j.str_at("path"@)), text::nonempty(j.str_at("pattern"@))),
                ),
                text::first_of(text::nonempty(j.str_at("url"@)), text::nonempty(j.str_at("query"@))),
            ),
            Seq::empty(),
        ),
        None => Seq::empty(),
    }
}

/// The part of a tool's input that tells a reader most; empty where there is none. Which part
/// that is, is a choice of this library: what shows a summary takes any.
pub fn tool_summary(input: &str) -> (r: String)
    ensures
        r@ == input_summary(input@),
{
    match parse_json_str(input) {
        Some(j) => {
            let best = crate::text::either(
                crate::text::either(
                    crate::text::either(
                        take_nonempty(j.str_at("file_path")),
                        take_nonempty(j.str_at("command")),
                    ),
                    crate::text::either(
                        take_nonempty(j.str_at("path")),
                        take_nonempty(j.str_at("pattern")),
                    ),
                ),
                crate::text::either(
                    take_nonempty(j.str_at("url")),
                    take_nonempty(j.str_at("query")),
                ),
            );
            match best {
                Some(s) => s.to_owned(),
                None => String::new(),
            }
        },
        None => String::new(),
    }
}

/// Whether one text stands before another in the order of their characters.
pub open spec fn precedes(a: Seq<char>, b: Seq<char>) -> bool
    decreases a.len(),
{
    if b.len() == 0 {
        false
    } else if a.len() == 0 {
        true
    } else if a[0] != b[0] {
        (a[0] as u32) < (b[0] as u32)
    } else {
        precedes(a.drop_first(), b.drop_first())
    }
}

/// How often each tool was used, with one use more.
pub open spec fn count_one(counts: Seq<(Seq<char>, nat)>, name: Seq<char>) -> Seq<(Seq<char>, nat)>
    decreases counts.len(),
{
    if counts.len() == 0 {
        seq![(name, 1nat)]
    } else if counts[0].0 == name {
        seq![(name, counts[0].1 + 1)] + counts.drop_first()
    } else if precedes(name, counts[0].0) {
        seq![(name, 1nat)] + counts
    } else {
        seq![counts[0]] + count_one(counts.drop_first(), name)
    }
}

/// How often each tool was used, in the order of the names.
pub open spec fn tool_counts(tools: Seq<ToolCallV>) -> Seq<(Seq<char>, nat)>
    decreases tools.len(),
{
    if tools.len() == 0 {
        Seq::empty()
    } else {
        count_one(tool_counts(tools.drop_last()), tools.last().name)
    }
}

/// The counts in words.
pub open spec fn count_texts(counts: Seq<(Seq<char>, nat)>) -> Seq<Seq<char>> {
    Seq::new(counts.len(), |i: int| counts[i].0 + "×"@ + digits::dec(counts[i].1 as int))
}

/// How often each tool was used, in words.
pub open spec fn tool_stats(tools: Seq<ToolCallV>) -> Seq<char> {
    text::join(count_texts(tool_counts(tools)), " · "@)
}

/// Counts by their views.
pub open spec fn counts_view(v: Seq<(String, usize)>) -> Seq<(Seq<char>, nat)> {
    Seq::new(v.len(), |i: int| (v[i].0@, v[i].1 as nat))
}

fn name_precedes(a: &str, b: &str) -> (r: bool)
    ensures
        r == precedes(a@, b@),
{
    let x = chars_of(a);
    let y = chars_of(b);
    let mut i: usize = 0;
    assert(x@.subrange(0, x@.len() as int) =~= x@);
    assert(y@.subrange(0, y@.len() as int) =~= y@);
    while i < x.len() && i < y.len()
        invariant
            i <= x@.len(),
            i <= y@.len(),
            x@ == a@,
            y@ == b@,
            precedes(a@, b@) == precedes(
                x@.subrange(i as int, x@.len() as int),
                y@.subrange(i as int, y@.len() as int),
            ),
        decreases x@.len() - i,
    {
        let c = x[i];
        let d = y[i];
        proof {
            let p = x@.subrange(i as int, x@.len() as int);
            let q = y@.subrange(i as int, y@.len() as int);
            assert(p.drop_first() =~= x@.subrange(i + 1, x@.len() as int));
            assert(q.drop_first() =~= y@.subrange(i + 1, y@.len() as int));
            assert(p[0] == c && q[0] == d);
        }
        if c != d {
            return (c as u32) < (d as u32);
        }
        i += 1;
    }
    i < y.len()
}

fn add_count(counts: &mut Vec<(String, usize)>, name: &str)
    requires
        forall|i: int| 0 <= i < old(counts)@.len() ==> #[trigger] old(counts)@[i].1 < usize::MAX,
    ensures
        counts_view(final(counts)@) == count_one(counts_view(old(counts)@), name@),
{
    let ghost before = counts@;
    let ghost all = counts_view(counts@);
    let mut i: usize = 0;
    assert(all.subrange(0, all.len() as int) =~= all);
    assert(count_one(all, name@) =~= all.subrange(0, 0) + count_one(all, name@));
    while i < counts.len()
        invariant
            i <= counts@.len(),
            counts@ == before,
            before == old(counts)@,
            all == counts_view(before),
            forall|k: int| 0 <= k < before.len() ==> #[trigger] before[k].1 < usize::MAX,
            count_one(all, name@) =~= all.subrange(0, i as int) + count_one(
                all.subrange(i as int, all.len() as int),
                name@,
            ),
        decreases counts@.len() - i,
    {
        let ghost rest = all.subrange(i as int, all.len() as int);
        assert(rest.drop_first() =~= all.subrange(i + 1, all.len() as int));
        assert(rest[0] == all[i as int]);
        assert(before[i as int].1 < usize::MAX);
        if str_eq(counts[i].0.as_str(), name) {
            let n: usize = counts[i].1;
            counts.set(i, (name.to_owned(), n + 1));
            assert(counts_view(counts@) =~= count_one(all, name@));
            return;
        }
        if name_precedes(name, counts[i].0.as_str()) {
            counts.insert(i, (name.to_owned(), 1));
            assert(counts_view(counts@) =~= count_one(all, name@));
            return;
        }
        i += 1;
    }
    counts.push((name.to_owned(), 1));
    assert(all.subrange(i as int, all.len() as int) =~= Seq::empty());
    assert(counts_view(counts@) =~= count_one(all, name@));
}

proof fn lemma_count_one_bound(counts: Seq<(Seq<char>, nat)>, name: Seq<char>, n: nat)
    requires
        forall|i: int| 0 <= i < counts.len() ==> (#[trigger] counts[i]).1 <= n,
    ensures
        forall|i: int|
            0 <= i < count_one(counts, name).len() ==> (#[trigger] count_one(counts, name)[i]).1
                <= n + 1,
    decreases counts.len(),
{
    if counts.len() > 0 {
        let rest = counts.drop_first();
        assert forall|i: int| 0 <= i < rest.len() implies (#[trigger] rest[i]).1 <= n by {
            assert(counts[i + 1].1 <= n);
        }
        lemma_count_one_bound(rest, name, n);
        let r = count_one(counts, name);
        assert(counts[0].1 <= n);
        assert forall|i: int| 0 <= i < r.len() implies (#[trigger] r[i]).1 <= n + 1 by {
            if counts[0].0 == name {
                if i > 0 {
                    assert(r[i] == counts[i]);
                }
            } else if precedes(name, counts[0].0) {
                if i > 0 {
                    assert(r[i] == counts[i - 1]);
                }
            } else if i > 0 {
                assert(r[i] == count_one(rest, name)[i - 1]);
            }
        }
    }
}

/// How often each tool was used, in words and in the order of the names.
pub fn tool_stats_summary(tools: &Vec<ToolCall>) -> (r: String)
    ensures
        r@ == tool_stats(model::listv(tools@)),
{
    let mut counts: Vec<(String, usize)> = Vec::new();
    let ghost all = model::listv(tools@);
    let mut i: usize = 0;
    assert(counts_view(counts@) =~= tool_counts(all.subrange(0, 0)));
    while i < tools.len()
        invariant
            i <= tools@.len(),
            all == model::listv(tools@),
            counts_view(counts@) == tool_counts(all.subrange(0, i as int)),
            forall|k: int| 0 <= k < counts@.len() ==> #[trigger] counts@[k].1 <= i,
        decreases tools@.len() - i,
    {
        proof {
            assert(all.subrange(0, i + 1).drop_last() =~= all.subrange(0, i as int));
            assert(all.subrange(0, i + 1).last() == tools@[i as int]@);
            let c = counts_view(counts@);
            assert forall|k: int| 0 <= k < c.len() implies (#[trigger] c[k]).1 <= i by {
                assert(counts@[k].1 <= i);
            }
            lemma_count_one_bound(c, tools@[i as int].name@, i as nat);
        }
        add_count(&mut counts, tools[i].name.as_str());
        proof {
            let c = counts_view(counts@);
            assert forall|k: int| 0 <= k < counts@.len() implies #[trigger] counts@[k].1 <= i
                + 1 by {
                assert(c[k].1 <= i + 1);
            }
        }
        i += 1;
    }
    assert(all.subrange(0, all.len() as int) =~= all);
    let mut parts: Vec<String> = Vec::new();
    let ghost total = counts_view(counts@);
    let mut k: usize = 0;
    while k < counts.len()
        invariant
            k <= counts@.len(),
            total == counts_view(counts@),
            parts@.len() == k,
            forall|j: int|
                0 <= j < k ==> #[trigger] parts@[j]@ == total[j].0 + "×"@ + digits::dec(total[j].1 as int),
        decreases counts@.len() - k,
    {
        assert(total[k as int] == (counts@[k as int].0@, counts@[k as int].1 as nat));
        parts.push(cat3(counts[k].0.as_str(), "×", dec_usize(counts[k].1).as_str()));
        k += 1;
    }
    assert(text::views(parts@) =~= count_texts(total));
    str_join(&parts, " · ")
}

/// How often a name occurs among uses of tools.
pub open spec fn uses(tools: Seq<ToolCallV>, name: Seq<char>) -> nat
    decreases tools.len(),
{
    if tools.len() == 0 {
        0
    } else {
        uses(tools.drop_last(), name) + if tools.last().name == name {
            1nat
        } else {
            0
        }
    }
}

/// What the counts say of a name; zero where they do not list it.
pub open spec fn counted(counts: Seq<(Seq<char>, nat)>, name: Seq<char>) -> nat
    decreases counts.len(),
{
    if counts.len() == 0 {
        0
    } else if counts[0].0 == name {
        counts[0].1
    } else {
        counted(counts.drop_first(), name)
    }
}

proof fn lemma_code_points_differ(c: char, d: char)
    requires
        c != d,
    ensures
        c as u32 != d as u32,
{
}

proof fn lemma_precedes_order(a: Seq<char>, b: Seq<char>)
    ensures
        precedes(a, b) ==> !precedes(b, a) && a != b,
        !precedes(a, b) && a != b ==> precedes(b, a),
    decreases a.len(),
{
    if a.len() > 0 && b.len() > 0 && a[0] == b[0] {
        lemma_precedes_order(a.drop_first(), b.drop_first());
        if a.drop_first() == b.drop_first() {
            assert(a =~= seq![a[0]] + a.drop_first());
            assert(b =~= seq![b[0]] + b.drop_first());
        }
    } else if a.len() == 0 && b.len() == 0 {
        assert(a =~= b);
    } else if a.len() > 0 && b.len() > 0 {
        lemma_code_points_differ(a[0], b[0]);
    }
}

proof fn lemma_precedes_transitive(a: Seq<char>, b: Seq<char>, c: Seq<char>)
    requires
        precedes(a, b),
        precedes(b, c),
    ensures
        precedes(a, c),
    decreases a.len(),
{
    if a.len() > 0 && b.len() > 0 && c.len() > 0 && a[0] == b[0] && b[0] == c[0] {
        lemma_precedes_transitive(a.drop_first(), b.drop_first(), c.drop_first());
    }
}

/// Whether the names are in order, each once.
pub open spec fn in_order(counts: Seq<(Seq<char>, nat)>) -> bool {
    forall|i: int, j: int|
        0 <= i < j < counts.len() ==> precedes(
            (#[trigger] counts[i]).0,
            (#[trigger] counts[j]).0,
        )
}

proof fn lemma_counted_absent(counts: Seq<(Seq<char>, nat)>, name: Seq<char>)
    requires
        forall|i: int| 0 <= i < counts.len() ==> (#[trigger] counts[i]).0 != name,
    ensures
        counted(counts, name) == 0,
    decreases counts.len(),
{
    if counts.len() > 0 {
        let rest = counts.drop_first();
        assert(counts[0].0 != name);
        assert forall|i: int| 0 <= i < rest.len() implies (#[trigger] rest[i]).0 != name by {
            assert(counts[i + 1].0 != name);
        }
        lemma_counted_absent(rest, name);
    }
}

proof fn lemma_count_one_order(counts: Seq<(Seq<char>, nat)>, name: Seq<char>)
    requires
        in_order(counts),
    ensures
        in_order(count_one(counts, name)),
        forall|i: int|
            0 <= i < count_one(counts, name).len() ==> (#[trigger] count_one(counts, name)[i]).0
                == name || exists|j: int|
                0 <= j < counts.len() && (#[trigger] counts[j]).0 == count_one(counts, name)[i].0,
        forall|n: Seq<char>| #[trigger]
            counted(count_one(counts, name), n) == counted(counts, n) + if n == name {
                1nat
            } else {
                0
            },
    decreases counts.len(),
{
    let r = count_one(counts, name);
    if counts.len() == 0 {
        assert forall|n: Seq<char>| #[trigger] counted(r, n) == counted(counts, n) + if n == name {
            1nat
        } else {
            0
        } by {
            assert(r.drop_first() =~= Seq::empty());
            assert(counted(r.drop_first(), n) == 0);
        }
    } else {
        let rest = counts.drop_first();
        assert forall|i: int, j: int| 0 <= i < j < rest.len() implies precedes(
            (#[trigger] rest[i]).0,
            (#[trigger] rest[j]).0,
        ) by {
            assert(precedes(counts[i + 1].0, counts[j + 1].0));
        }
        lemma_precedes_order(name, counts[0].0);
        if counts[0].0 == name {
            assert(r.drop_first() =~= rest);
            assert forall|i: int, j: int| 0 <= i < j < r.len() implies precedes(
                (#[trigger] r[i]).0,
                (#[trigger] r[j]).0,
            ) by {
                assert(r[i].0 == counts[i].0 && r[j].0 == counts[j].0);
            }
            assert forall|i: int| 0 <= i < r.len() implies (#[trigger] r[i]).0 == name || exists|
                j: int,
            |
                0 <= j < counts.len() && (#[trigger] counts[j]).0 == r[i].0 by {
                assert(counts[i].0 == r[i].0);
            }
        } else if precedes(name, counts[0].0) {
            assert(r.drop_first() =~= counts);
            assert forall|i: int, j: int| 0 <= i < j < r.len() implies precedes(
                (#[trigger] r[i]).0,
                (#[trigger] r[j]).0,
            ) by {
                assert(r[j] == counts[j - 1]);
                if i > 0 {
                    assert(r[i] == counts[i - 1]);
                } else if j > 1 {
                    lemma_precedes_transitive(name, counts[0].0, counts[j - 1].0);
                }
            }
            assert forall|i: int| 0 <= i < r.len() implies (#[trigger] r[i]).0 == name || exists|
                j: int,
            |
                0 <= j < counts.len() && (#[trigger] counts[j]).0 == r[i].0 by {
                if i > 0 {
                    assert(counts[i - 1].0 == r[i].0);
                }
            }
            assert forall|j: int| 0 <= j < counts.len() implies (#[trigger] counts[j]).0
                != name by {
                if j > 0 {
                    lemma_precedes_transitive(name, counts[0].0, counts[j].0);
                }
                lemma_precedes_order(name, counts[j].0);
            }
            lemma_counted_absent(counts, name);
        } else {
            lemma_count_one_order(rest, name);
            let u = count_one(rest, name);
            assert(r.drop_first() =~= u);
            assert forall|i: int, j: int| 0 <= i < j < r.len() implies precedes(
                (#[trigger] r[i]).0,
                (#[trigger] r[j]).0,
            ) by {
                assert(r[j] == u[j - 1]);
                if i > 0 {
                    assert(r[i] == u[i - 1]);
                } else if u[j - 1].0 != name {
                    let k = choose|k: int|
                        0 <= k < rest.len() && (#[trigger] rest[k]).0 == u[j - 1].0;
                    assert(counts[k + 1].0 == rest[k].0);
                }
            }
            assert forall|i: int| 0 <= i < r.len() implies (#[trigger] r[i]).0 == name || exists|
                j: int,
            |
                0 <= j < counts.len() && (#[trigger] counts[j]).0 == r[i].0 by {
                if i == 0 {
                    assert(counts[0].0 == r[0].0);
                } else {
                    assert(r[i] == u[i - 1]);
                    if u[i - 1].0 != name {
                        let k = choose|k: int|
                            0 <= k < rest.len() && (#[trigger] rest[k]).0 == u[i - 1].0;
                        assert(counts[k + 1].0 == r[i].0);
                    }
                }
            }
            assert forall|n: Seq<char>| #[trigger]
                counted(r, n) == counted(counts, n) + if n == name {
                    1nat
                } else {
                    0
                } by {
                assert(counted(u, n) == counted(rest, n) + if n == name {
                    1nat
                } else {
                    0
                });
            }
        }
    }
}

/// The counts list every tool once, in the order of the names, and say how often it was used.
pub proof fn law_tool_counts(tools: Seq<ToolCallV>)
    ensures
        in_order(tool_counts(tools)),
        forall|name: Seq<char>| #[trigger] counted(tool_counts(tools), name) == uses(tools, name),
    decreases tools.len(),
{
    if tools.len() > 0 {
        law_tool_counts(tools.drop_last());
        let before = tool_counts(tools.drop_last());
        lemma_count_one_order(before, tools.last().name);
        assert forall|name: Seq<char>| #[trigger]
            counted(tool_counts(tools), name) == uses(tools, name) by {
            assert(counted(before, name) == uses(tools.drop_last(), name));
            assert(counted(count_one(before, tools.last().name), name) == counted(before, name)
                + if name == tools.last().name {
                1nat
            } else {
                0
            });
        }
    }
}

// ---------------------------------------------------------------------------
// Plans
// ---------------------------------------------------------------------------

/// How many steps of a plan are done.
pub open spec fn done_count(todos: Seq<TodoV>) -> nat
    decreases todos.len(),
{
    if todos.len() == 0 {
        0
    } else {
        done_count(todos.drop_last()) + if todos.last().status == TodoStatus::Completed {
            1nat
        } else {
            0
        }
    }
}

/// The line of a step of a plan.
pub open spec fn todo_line(t: TodoV) -> Seq<char> {
    "- "@ + (if t.status == TodoStatus::Completed {
        "[x]"@
    } else {
        "[ ]"@
    }) + " "@ + t.text + (if t.status == TodoStatus::InProgress {
        " ⏳"@
    } else {
        ""@
    })
}

/// The lines of a plan.
pub open spec fn todo_lines(todos: Seq<TodoV>) -> Seq<Seq<char>> {
    Seq::new(todos.len(), |i: int| todo_line(todos[i]))
}

/// A plan as a list of steps, headed by how far it has come; nothing where there is no plan.
pub open spec fn todo_text(todos: Seq<TodoV>) -> Option<Seq<char>> {
    if todos.len() == 0 {
        None
    } else {
        Some(
            "**📋 计划**（"@ + digits::dec(done_count(todos) as int) + "/"@ + digits::dec(todos.len() as int)
                + "）\n"@ + text::join(todo_lines(todos), "\n"@),
        )
    }
}

/// A plan as a list of steps, headed by how far it has come; `None` where there is no plan.
pub fn todo_list_md(todos: &Vec<TodoItem>) -> (r: Option<String>)
    ensures
        crate::text::oview(r) == todo_text(model::listv(todos@)),
{
    if todos.len() == 0 {
        return None;
    }
    let ghost all = model::listv(todos@);
    let mut done: usize = 0;
    let mut lines: Vec<String> = Vec::new();
    let mut i: usize = 0;
    assert(done_count(all.subrange(0, 0)) == 0);
    while i < todos.len()
        invariant
            i <= todos@.len(),
            all == model::listv(todos@),
            done == done_count(all.subrange(0, i as int)),
            done <= i,
            lines@.len() == i,
            forall|k: int| 0 <= k < i ==> #[trigger] lines@[k]@ == todo_line(all[k]),
        decreases todos@.len() - i,
    {
        let t = &todos[i];
        proof {
            assert(all.subrange(0, i + 1).drop_last() =~= all.subrange(0, i as int));
            assert(all.subrange(0, i + 1).last() == t@);
        }
        let completed = t.status == TodoStatus::Completed;
        if completed {
            done += 1;
        }
        let mark = if completed {
            "[x]"
        } else {
            "[ ]"
        };
        let icon = if t.status == TodoStatus::InProgress {
            " ⏳"
        } else {
            ""
        };
        lines.push(cat5("- ", mark, " ", t.text.as_str(), icon));
        i += 1;
    }
    assert(all.subrange(0, all.len() as int) =~= all);
    assert(text::views(lines@) =~= todo_lines(all));
    Some(
        crate::text::cat6(
            "**📋 计划**（",
            dec_usize(done).as_str(),
            "/",
            dec_usize(todos.len()).as_str(),
            "）\n",
            str_join(&lines, "\n").as_str(),
        ),
    )
}

} // verus!
