//! Cards: what a task, a question, a command shows.

use imagent::ask_card::{render_permission_card, render_permission_card_cancelled, render_permission_card_note, render_permission_card_superseded, render_question_card};
use imagent::command_card::{render_command_card, render_config_form_card};
use imagent::json::json_to_string;
use imagent::markdown::{cap_md_bytes, mask_emails};
use imagent::model::{CardButton, CardButtonStyle, CardPhase, CardTerminal, ConfigFormField, OutboundCard, TodoItem, TodoStatus, ToolCall};
use imagent::parts::sender_anchor_line;
use imagent::status::{format_run_len, humanize_ask_timeout, running_footer, stub_body, terminal_done_footer};
use imagent::task_card::{render_card, render_stream_init_card, render_stub_card, stream_body_final, stream_body_md};
use serde_json::Value;

/// A JSON object of the given members.
fn obj(members: Vec<(&str, Value)>) -> Value {
    Value::Object(members.into_iter().map(|(k, v)| (k.to_string(), v)).collect())
}

/// A JSON array of the given elements.
fn arr(elements: Vec<Value>) -> Value {
    Value::Array(elements)
}

fn tool(name: &str, summary: &str, done: bool) -> ToolCall {
    ToolCall {
        name: name.into(),
        summary: summary.into(),
        done,
        id: None,
    }
}

fn body_card_of(text: &str, tools: &[ToolCall], thoughts: &[&str]) -> OutboundCard {
    OutboundCard {
        text: text.into(),
        tool_calls: tools.to_vec(),
        thoughts: thoughts.iter().map(|s| s.to_string()).collect(),
        todos: Vec::new(),
        phase: CardPhase::Thinking,
        queued_hint: None,
        run_secs: 0,
        usage_display: None,
        terminal: CardTerminal::Running,
    }
}

#[test]
fn render_running_has_markdown() {
    let card = OutboundCard {
        text: "hello".into(),
        tool_calls: vec![],
        phase: CardPhase::Thinking,
        thoughts: Vec::new(),
        todos: Vec::new(),
        queued_hint: None,
        terminal: CardTerminal::Running,
        usage_display: None,
        run_secs: 0,
    };
    let json = render_card(&card, "feishu:ou_t", None);
    assert!(json.contains("hello"));
    assert!(json.contains("schema"));
    assert!(json.contains("思考中"), "分阶段 footer: {json}");
    assert!(
        json.contains("正在执行任务") || json.contains("思考中"),
        "Running 态应含 summary: {json}"
    );
}

#[test]
fn render_running_phase_footers() {
    for (phase, mark) in [
        (CardPhase::Thinking, "🧠 思考中…"),
        (CardPhase::ToolRunning, "🧰 正在调用工具…"),
        (CardPhase::Outputting, "✍️ 输出中…"),
    ] {
        let card = OutboundCard {
            text: "x".into(),
            tool_calls: vec![],
            phase,
            thoughts: Vec::new(),
            todos: Vec::new(),
            queued_hint: None,
            terminal: CardTerminal::Running,
            usage_display: None,
            run_secs: 0,
        };
        assert!(
            render_card(&card, "feishu:ou_t", None).contains(mark),
            "{phase:?} → {mark}"
        );
    }
}

#[test]
fn render_done_with_tools() {
    let card = OutboundCard {
        text: "done".into(),
        tool_calls: vec![tool("Read", "src/main.rs", true)],
        phase: CardPhase::Outputting,
        thoughts: Vec::new(),
        todos: Vec::new(),
        queued_hint: None,
        terminal: CardTerminal::Done,
        usage_display: None,
        run_secs: 0,
    };
    let json = render_card(&card, "feishu:ou_t", None);
    assert!(json.contains("done"));
    assert!(json.contains("Read"));
    assert!(json.contains("✅ 已完成"));

    assert!(json.contains("collapsible_panel"), "折叠面板: {json}");
    assert!(json.contains("corner_radius"), "面板边框: {json}");
    assert!(json.contains("notation"), "小字号: {json}");
    assert!(json.contains("✅ **Read**"), "工具状态行: {json}");
}

#[test]
fn render_card_tool_panel_full_list_on_terminal() {
    let tools: Vec<ToolCall> = (0..10)
        .map(|i| tool("Bash", &format!("cmd-{i}"), true))
        .collect();
    let card = OutboundCard {
        text: "out".into(),
        tool_calls: tools,
        phase: CardPhase::ToolRunning,
        thoughts: Vec::new(),
        todos: Vec::new(),
        queued_hint: None,
        terminal: CardTerminal::Done,
        usage_display: None,
        run_secs: 0,
    };
    let json = render_card(&card, "feishu:ou_t", None);
    assert!(json.contains("cmd-0"), "终态面板含最早工具: {json}");
    assert!(json.contains("cmd-9"), "终态面板含最新工具: {json}");
    assert!(!json.contains("前面还有"), "面板不截断: {json}");

    let running = OutboundCard {
        text: "out".into(),
        tool_calls: (0..10)
            .map(|i| tool("Bash", &format!("cmd-{i}"), true))
            .collect(),
        phase: CardPhase::ToolRunning,
        thoughts: Vec::new(),
        todos: Vec::new(),
        queued_hint: None,
        terminal: CardTerminal::Running,
        usage_display: None,
        run_secs: 0,
    };
    let md = stream_body_md(&running);
    assert!(md.contains("前面还有 5 个工具"), "流式折叠计数: {md}");
    assert!(!md.contains("cmd-0"), "流式不显最早: {md}");
}

#[test]
fn render_error() {
    let card = OutboundCard {
        text: "".into(),
        tool_calls: vec![],
        phase: CardPhase::Thinking,
        thoughts: Vec::new(),
        todos: Vec::new(),
        queued_hint: None,
        terminal: CardTerminal::Error("boom".into()),
        usage_display: None,
        run_secs: 0,
    };
    let json = render_card(&card, "feishu:ou_t", None);
    assert!(json.contains("boom"));
    assert!(json.contains("❌ 出错"), "终态 footer: {json}");
}

#[test]
fn question_card_real_device_4q_input() {
    let input = r#"{"questions":[{"question":"本次部署选择哪个环境？","header":"部署环境","multiSelect":false,"options":[{"label":"测试环境","description":"选择测试环境意味着新版本将首先部署到隔离的测试集群或测试服务器上，不会影响线上真实用户的访问。测试环境通常配置与生产相近，但数据为模拟或脱敏数据，适合验证新功能的正确性、接口兼容性以及性能表现。在测试环境完成冒烟测试、回归测试并通过验收标准后，再推进到生产环境，可以大幅降低发布风险，是大多数团队推荐的标准发布流程的第一步。"},{"label":"生产环境","description":"选择生产环境意味着本次变更将直接发布到线上，真实用户流量会立即接触到新版本。这种方式适用于紧急修复（如线上故障的热修复）、改动极小且风险可控的场景，或者测试环境已提前完成充分验证的情况。直接上生产虽然节省时间，但一旦存在问题会直接影响用户体验和业务指标，建议配合灰度发布、蓝绿部署或快速回滚方案，以确保出现异常时能在最短时间内恢复。"}]},{"question":"部署前是否进行备份？","header":"部署前备份","multiSelect":false,"options":[{"label":"备份","description":"部署前对数据库、配置文件、静态资源以及当前运行的程序版本进行完整备份，是保障发布安全的关键措施。一旦新版本出现数据异常、配置错误或功能回退，可以迅速通过备份回滚到上一个稳定状态，将故障影响时间和范围降到最低。备份内容应包括数据库快照、关键配置项的导出以及当前制品版本的归档，并建议在部署前验证备份的完整性和可恢复性，避免需要回滚时才发现备份不可用。"},{"label":"不备份","description":"跳过备份可以缩短部署前的准备时间，适用于本次变更不涉及数据库结构或数据变更、仅为静态资源更新或前端页面调整等低风险场景。但需要明确的是，一旦部署过程中出现意外（如配置覆盖错误、数据误写、版本损坏），将没有直接的回滚依据，只能通过重新构建旧版本或手工修复来恢复，恢复周期和不确定性都会显著增加。选择此项前请确认本次变更确实无数据风险且具备快速重建能力。"}]},{"question":"部署前是否通知团队？","header":"团队通知","multiSelect":false,"options":[{"label":"通知团队","description":"部署前通过群消息、邮件或工单系统通知研发、测试、运维及相关业务方，说明发布时间、影响范围、变更内容和回滚预案。这样做可以让相关人员在出现异常时第一时间知晓原因并协同处理，避免值班同学面对突发状况毫无头绪；同时也便于测试同学在发布后及时跟进验证，业务方也能提前向用户说明可能出现的短暂波动。透明的发布沟通是成熟团队协作的基本规范，尤其是生产环境发布更应坚持这一原则。"},{"label":"不通知","description":"不主动通知团队，适用于深夜低风险的小型变更、个人测试项目，或团队已明确约定无需通知的自动化发布流程（例如 CI/CD 流水线自动触发）。好处是减少沟通成本、流程更轻量，发布者可以完全自主掌控节奏。但风险在于：一旦部署引发线上异常，其他人对此变更毫不知情，排查问题时会缺少关键上下文，值班或接手同学可能重复排查甚至误判原因，协作效率反而下降。请确认本次变更影响面足够小再选择此项。"}]},{"question":"部署是立即执行还是等待窗口期？","header":"执行时机","multiSelect":false,"options":[{"label":"立即执行","description":"确认方案后马上开始部署，适合紧急修复线上故障、解决阻塞他人进展的问题、或已经过充分测试验证且风险很低的变更。立即执行能最快让变更生效，缩短问题暴露和修复之间的等待时间。但要注意：如果当前正处于业务高峰期（如促销活动、用户访问高峰），立即上线可能放大潜在问题的影响面。选择此项前建议确认当前流量处于安全水平、回滚方案已就绪，并且你有足够时间在场观察发布后的监控指标。"},{"label":"等待窗口期","description":"将部署安排在预先约定的低流量时间窗口（如深夜、凌晨或周末）执行，这是生产发布的行业惯例。窗口期内用户访问量低，即使出现异常，受影响的用户数量和业务损失也最小；同时此时段通常没有其他变更并行发布，出现问题更容易定位归因。代价是需要等待，紧急问题可能等不起，且深夜发布对执行者的精力也是考验，建议窗口期发布配合双人复核机制。如果变更不紧急且影响面较大，优先推荐等待窗口期执行。"}]}]}"#;
    let rendered = render_question_card(input, "feishu:oc_test", "req_test", None, 300);
    assert!(rendered.is_some(), "真机 4 问输入应渲染多题卡");
    if let Some(json) = rendered {
        assert!(json.contains("ask_opt_0"), "多题字段: {json}");
    }
}

#[test]
fn render_question_card_options_and_fallback() {
    let input = obj(vec![
        ("questions", arr(vec![
            obj(vec![
                ("question", Value::from("先做哪一步？")),
                ("options", arr(vec![
                    obj(vec![("label", Value::from("数据库迁移"))]),
                    obj(vec![("label", Value::from("接口改造"))]),
                    obj(vec![("label", Value::from("直接上线"))]),
                ])),
            ]),
        ])),
    ])
    .to_string();
    let json = render_question_card(&input, "feishu:ou_q", "req1", Some("ou_q"), 300)
        .expect("应可渲染");
    assert!(json.contains("先做哪一步？"), "问题正文: {json}");
    assert!(json.contains("数据库迁移"), "选项文本: {json}");
    assert!(json.contains("需要你的输入"), "标题栏: {json}");
    assert!(json.contains("\"template\":\"blue\""), "主题色: {json}");
    assert!(
        json.contains("\"imagent_ask\":\"数据库迁移\""),
        "选项 value: {json}"
    );
    assert!(
        json.contains("\"type\":\"primary\""),
        "首选项 primary: {json}"
    );
    assert!(json.contains("feishu:ou_q"), "conv 编码: {json}");
    assert!(!json.contains("\"tag\":\"action\""), "V2 无 action: {json}");

    assert!(render_question_card("not json", "c", "req1", None, 300).is_none());
    assert!(render_question_card("{}", "c", "req1", None, 300).is_none());
}

#[test]
fn render_command_card_buttons_and_layout() {
    let buttons = vec![
        CardButton {
            label: "使用 main".into(),
            command: "/ws use main".into(),
            style: CardButtonStyle::Primary,
        },
        CardButton {
            label: "使用 web".into(),
            command: "/ws use web".into(),
            style: CardButtonStyle::Default,
        },
        CardButton {
            label: "使用 cli".into(),
            command: "/ws use cli".into(),
            style: CardButtonStyle::Default,
        },
        CardButton {
            label: "删除".into(),
            command: "/ws remove x".into(),
            style: CardButtonStyle::Danger,
        },
    ];
    let json = render_command_card("📁 工作空间", "- main：/a/b", &buttons, "feishu:oc_g");
    assert!(json.contains("📁 工作空间"), "标题栏: {json}");
    assert!(json.contains("\"template\":\"blue\""), "主题色: {json}");
    assert!(json.contains("- main：/a/b"), "正文: {json}");
    assert!(
        json.contains("\"imagent_cmd\":\"/ws use main\""),
        "命令编码: {json}"
    );
    assert!(
        json.contains("\"conv\":\"feishu:oc_g\""),
        "conv 编码: {json}"
    );
    assert!(
        json.contains("\"tag\":\"column_set\""),
        "V2 按钮须挂 column_set: {json}"
    );
    assert!(
        json.contains("\"type\":\"primary\"") && json.contains("\"type\":\"danger\""),
        "按钮样式分层: {json}"
    );
    assert!(
        !json.contains("\"tag\":\"action\""),
        "V2 已废弃 action 元素: {json}"
    );

    assert_eq!(
        json.matches("\"tag\":\"column_set\"").count(),
        1,
        "flow 布局单 column_set: {json}"
    );
    assert!(json.contains("\"flex_mode\":\"flow\""), "flow 模式: {json}");
    assert!(json.contains("\"tag\":\"hr\""), "hr 分隔线: {json}");
    assert_eq!(
        json.matches("\"tag\":\"button\"").count(),
        4,
        "按钮数: {json}"
    );

    let no_btn = render_command_card("t", "body", &[], "feishu:oc_g");
    assert!(!no_btn.contains("column_set"));
    assert!(no_btn.contains("body"));
}

#[test]
fn render_permission_card_buttons_and_conv() {
    let json = render_permission_card(
        "Bash",
        r#"{"command":"cargo test --all"}"#,
        "feishu:ou_u1",
        "req1",
        Some("ou_u1"),
        300,
    );

    assert!(json.contains("权限审批"), "标题栏: {json}");
    assert!(
        json.contains("\"template\":\"orange\""),
        "审批主题色: {json}"
    );

    assert!(json.contains("**Bash**\\n```bash"), "签名行: {json}");
    assert!(
        json.contains("```bash\\ncargo test --all\\n```"),
        "命令原文直出: {json}"
    );
    assert!(
        !json.contains("\\\"command\\\""),
        "Bash 不应再裹 JSON 信封: {json}"
    );

    assert!(json.contains("\"content\":\"允许\""), "允许按钮: {json}");
    assert!(json.contains("⛔ 拒绝"), "拒绝按钮: {json}");

    assert!(
        json.contains("\"imagent_perm\":\"allow\"")
            && json.contains("\"imagent_perm\":\"deny\"")
            && json.contains("\"imagent_perm\":\"always\""),
        "三个动作都应编码: {json}"
    );
    assert!(
        json.contains("\"primary_filled\"") && json.contains("\"danger_filled\""),
        "主行填充双按钮: {json}"
    );
    assert!(
        json.contains("\"width\":\"weighted\"") && json.contains("\"weight\":1"),
        "主行等宽列: {json}"
    );
    assert!(
        json.matches("\"width\":\"fill\"").count() >= 3,
        "三按钮均拉满列宽: {json}"
    );
    assert!(json.contains("feishu:ou_u1"), "conv 应编码进 value: {json}");
    assert!(json.contains("\"tag\":\"button\""), "按钮 tag: {json}");

    assert!(
        json.contains("\"tag\":\"column_set\""),
        "V2 按钮须挂 column_set: {json}"
    );
    assert!(
        !json.contains("\"tag\":\"action\""),
        "V2 卡片不应再含 action 元素: {json}"
    );
    assert!(json.contains("Bash"), "工具名: {json}");
}

#[test]
fn render_permission_card_non_bash_pretty_json() {
    let json = render_permission_card(
        "Write",
        r##"{"file_path":"/a/b.md","content":"# hi"}"##,
        "feishu:ou_u1",
        "req1",
        None,
        300,
    );
    assert!(json.contains("**Write** — /a/b.md"), "签名行: {json}");

    assert!(json.contains("file_path"), "pretty JSON: {json}");
    assert!(
        !json.contains("```bash"),
        "非 bash 不用 bash 语言标注: {json}"
    );
}

#[test]
fn mask_emails_rewrites_only_real_addresses() {
    assert_eq!(
        mask_emails("联系 someone@example.com 谢谢"),
        "联系 someone[at]example.com 谢谢"
    );
    assert_eq!(
        mask_emails("Co-Authored-By: Uzziah <u@foo.dev>"),
        "Co-Authored-By: Uzziah <u[at]foo.dev>"
    );

    for keep in ["@larksuite/x", "pkg@1.2.3", "user@localhost", "@所有人"] {
        assert_eq!(mask_emails(keep), keep, "不应误伤: {keep}");
    }
}

#[test]
fn running_footer_composes_queued_hint() {
    assert_eq!(
        running_footer(CardPhase::ToolRunning, None, 0),
        "🧰 正在调用工具…"
    );
    assert_eq!(
        running_footer(
            CardPhase::ToolRunning,
            Some("📥 排队 2 条，最新：「快一点」"),
            30
        ),
        "🧰 正在调用工具… · 30s · 📥 排队 2 条，最新：「快一点」"
    );

    assert_eq!(running_footer(CardPhase::Thinking, None, 0), "🧠 思考中…");

    let card = OutboundCard {
        text: "x".into(),
        tool_calls: vec![],
        phase: CardPhase::Outputting,
        thoughts: Vec::new(),
        todos: Vec::new(),
        queued_hint: Some("📥 排队 1 条".into()),
        terminal: CardTerminal::Running,
        usage_display: None,
        run_secs: 0,
    };
    let json = render_card(&card, "feishu:ou_t", None);
    assert!(
        json.contains("✍️ 输出中… · 📥 排队 1 条"),
        "降级卡组合: {json}"
    );
}

#[test]
fn permission_card_note_override() {
    let json = render_permission_card_note(
        "Bash",
        r#"{"command":"ls"}"#,
        "feishu:ou_t",
        "req9",
        Some("ou_t"),
        "⏳ 等待你审批 · 后面还排着 3 条消息",
    );
    assert!(
        json.contains("⏳ 等待你审批 · 后面还排着 3 条消息"),
        "note 替换: {json}"
    );
    assert!(
        !json.contains("分钟后自动拒绝"),
        "默认 note 不再出现: {json}"
    );
    assert!(
        json.contains("\"imagent_perm\":\"allow\"") && json.contains("\"req\":\"req9\""),
        "按钮 value 编码不变: {json}"
    );

    let plain = render_permission_card("Bash", r#"{"command":"ls"}"#, "c", "r", None, 300);
    assert!(
        plain.contains("将在 5 分钟后自动拒绝"),
        "默认倒计时: {plain}"
    );
}

#[test]
fn ask_timeout_humanize_and_note_passthrough() {
    assert_eq!(humanize_ask_timeout(300), "5 分钟");
    assert_eq!(humanize_ask_timeout(60 * 30), "30 分钟");
    assert_eq!(humanize_ask_timeout(90), "2 分钟", "90s 四舍五入到分钟");
    assert_eq!(humanize_ask_timeout(89), "89 秒", "<90s 显示秒");
    assert_eq!(humanize_ask_timeout(45), "45 秒");

    let json = render_permission_card("Bash", r#"{"command":"ls"}"#, "c", "r", None, 60);
    assert!(
        json.contains("将在 60 秒后自动拒绝"),
        "短超时显示秒: {json}"
    );
    assert!(!json.contains("5 分钟"), "不得再出现硬编码 5 分钟: {json}");

    let json = render_permission_card("Bash", r#"{"command":"ls"}"#, "c", "r", None, 1800);
    assert!(
        json.contains("将在 30 分钟后自动拒绝"),
        "长超时显示分钟: {json}"
    );
}

#[test]
fn ask_button_value_carries_sender_and_ts() {
    let json = render_permission_card(
        "Bash",
        r#"{"command":"ls"}"#,
        "feishu:oc_g",
        "req_s",
        Some("ou_owner"),
        300,
    );
    assert!(
        json.contains("\"sender\":\"ou_owner\""),
        "审批按钮带发起者: {json}"
    );
    assert!(json.contains("\"ts\":"), "审批按钮带时效戳: {json}");

    let plain = render_permission_card("Bash", r#"{"command":"ls"}"#, "c", "r", None, 300);
    assert!(!plain.contains("\"sender\":"), "无发起者不编码: {plain}");
    assert!(plain.contains("\"ts\":"), "时效戳恒编码: {plain}");

    let input = obj(vec![
        ("questions", arr(vec![
            obj(vec![
                ("question", Value::from("选？")),
                ("options", arr(vec![
                    obj(vec![("label", Value::from("A"))]),
                    obj(vec![("label", Value::from("B"))]),
                ])),
            ]),
        ])),
    ])
    .to_string();
    let q = render_question_card(&input, "feishu:oc_g", "rq", Some("ou_owner"), 300).unwrap();
    assert!(
        q.contains("\"sender\":\"ou_owner\"") && q.contains("\"ts\":"),
        "问题卡按钮带 sender+ts: {q}"
    );
    let many = obj(vec![
        ("questions", arr(vec![
            obj(vec![
                ("question", Value::from("选哪个方案？")),
                ("options", Value::from((1..=6).map(|i| obj(vec![("label", Value::from(format!("方案{i}")))])).collect::<Vec<_>>())),
            ]),
        ])),
    ])
    .to_string();
    let form = render_question_card(&many, "feishu:oc_g", "rq", Some("ou_owner"), 300).unwrap();
    assert!(
        form.contains("\"imagent_form\":\"ask\"") && form.contains("\"sender\":\"ou_owner\""),
        "表单提交按钮同样带 sender: {form}"
    );
}

#[test]
fn cmd_button_value_carries_ts_and_sender() {
    let init = render_stream_init_card("feishu:oc_g", Some("ou_owner"));
    assert!(
        init.contains("\"sender\":\"ou_owner\""),
        "终止按钮带发起者: {init}"
    );

    assert!(
        init.contains("\"imagent_cmd\":\"/stop\""),
        "命令编码: {init}"
    );

    let init2 = render_stream_init_card("feishu:ou_t", None);
    assert!(!init2.contains("\"sender\":"), "无 sender 不编码: {init2}");

    let json = render_command_card(
        "t",
        "b",
        &[CardButton {
            label: "x".into(),
            command: "/stop".into(),
            style: CardButtonStyle::Default,
        }],
        "feishu:oc_g",
    );
    assert!(json.contains("\"ts\":"), "命令卡 ts: {json}");
}

#[test]
fn stop_button_on_running_cards_only() {
    let init = render_stream_init_card("feishu:ou_t", None);
    assert!(init.contains("⏹ 终止"), "init 卡终止按钮: {init}");
    assert!(
        init.contains("\"imagent_cmd\":\"/stop\""),
        "命令编码: {init}"
    );
    assert!(
        init.contains("\"conv\":\"feishu:ou_t\""),
        "conv 编码: {init}"
    );

    let running = OutboundCard {
        text: "x".into(),
        tool_calls: vec![],
        phase: CardPhase::Outputting,
        thoughts: Vec::new(),
        todos: Vec::new(),
        queued_hint: None,
        terminal: CardTerminal::Running,
        usage_display: None,
        run_secs: 0,
    };
    let json = render_card(&running, "feishu:ou_t", None);
    assert!(json.contains("⏹ 终止"), "Running 降级卡带终止按钮: {json}");
    let done = OutboundCard {
        text: "ok".into(),
        tool_calls: vec![],
        phase: CardPhase::Outputting,
        thoughts: Vec::new(),
        todos: Vec::new(),
        queued_hint: None,
        terminal: CardTerminal::Done,
        usage_display: None,
        run_secs: 0,
    };
    let json2 = render_card(&done, "feishu:ou_t", None);
    assert!(!json2.contains("⏹ 终止"), "终态不带终止按钮: {json2}");
}

#[test]
fn stream_body_final_empty_placeholder() {
    assert_eq!(
        stream_body_final(&body_card_of("", &[], &[]), None),
        "（未返回内容）"
    );
}

#[test]
fn config_form_card_shape() {
    let entries = vec![ConfigFormField {
        key: "reply_mode".into(),
        label: "回复形态".into(),
        current: "card".into(),
        options: vec![
            ("card".into(), "卡片（流式，默认）".into()),
            ("text".into(), "纯文本".into()),
        ],
    }];
    let json = render_config_form_card(&entries, "feishu:ou_t");
    assert!(json.contains("\"tag\":\"form\""), "form 元素: {json}");
    assert!(json.contains("select_static"), "下拉: {json}");
    assert!(json.contains("\"name\":\"reply_mode\""), "字段名: {json}");
    assert!(
        json.contains("\"form_action_type\":\"submit\""),
        "提交按钮: {json}"
    );
    assert!(
        json.contains("\"imagent_form\":\"config\""),
        "回调标记: {json}"
    );
    assert!(
        json.contains("\"conv\":\"feishu:ou_t\""),
        "conv 编码: {json}"
    );
}

#[test]
fn stream_body_renders_todos_and_thoughts() {
    let todos = vec![
        TodoItem {
            id: None,
            text: "分析需求".into(),
            status: TodoStatus::Completed,
        },
        TodoItem {
            id: None,
            text: "写代码".into(),
            status: TodoStatus::InProgress,
        },
        TodoItem {
            id: None,
            text: "测试".into(),
            status: TodoStatus::Pending,
        },
    ];
    let mut card = body_card_of("正文内容", &[], &["旧思考", "最新思考"]);
    card.todos = todos;
    let md = stream_body_md(&card);
    assert!(md.contains("**📋 计划**（1/3）"), "进度计数: {md}");
    assert!(md.contains("- [x] 分析需求"), "完成项: {md}");
    assert!(md.contains("- [ ] 写代码 ⏳"), "进行中项: {md}");
    assert!(md.contains("- [ ] 测试"), "待办项: {md}");
    assert!(md.starts_with("**📋 计划**"), "清单置正文上方: {md}");
    assert!(md.contains("正文内容"), "正文仍在: {md}");
    assert!(md.contains("> 💭 最新思考"), "最新思考置底: {md}");
    assert!(!md.contains("旧思考"), "Running 只显最近 1 条思考: {md}");
}

#[test]
fn final_and_full_card_render_thoughts() {
    let thoughts: Vec<String> = (0..7).map(|i| format!("思考{i}")).collect();
    let mut card = body_card_of("结论", &[], &[]);
    card.thoughts = thoughts.clone();
    card.terminal = CardTerminal::Done;
    let out = stream_body_final(&card, None);
    assert!(out.contains("**💭 思考过程**"), "终态段落标题: {out}");
    assert!(!out.contains("思考0"), "只保留最近 5 条: {out}");
    assert!(out.contains("思考6"), "最新思考在: {out}");

    let json = render_card(&card, "feishu:ou_t", None);
    assert!(json.contains("💭 思考过程（7）"), "面板标题带计数: {json}");
    assert!(json.contains("collapsible_panel"), "面板形态: {json}");
}

#[test]
fn stream_init_card_has_element_id_and_streaming() {
    let json = render_stream_init_card("feishu:ou_t", None);
    assert!(json.contains("element_id"), "初始卡应含 element_id: {json}");
    assert!(json.contains("md_body"), "正文组件锚点: {json}");
    assert!(json.contains("\"streaming_mode\":true"), "应开流式: {json}");
    assert!(json.contains("正在执行任务"), "应含自定义 summary: {json}");
    assert!(json.contains("🧠 思考中…"), "初始 footer: {json}");
}

#[test]
fn stream_body_md_text_tools_and_empty() {
    assert_eq!(
        stream_body_md(&body_card_of("", &[], &[])),
        "🧠 已接收任务，正在处理…"
    );

    let tools = vec![tool("Bash", "ls -la", false)];
    let md = stream_body_md(&body_card_of("进度", &tools, &[]));
    assert!(md.contains("进度"));
    assert!(md.contains("⏳ **Bash** — ls -la"), "工具引用行: {md}");

    let only = stream_body_md(&body_card_of("", &tools, &[]));
    assert!(only.starts_with("> ⏳"), "无正文时工具行开头: {only}");

    let many: Vec<ToolCall> = (0..8)
        .map(|i| tool("Read", &format!("f{i}"), true))
        .collect();
    let md2 = stream_body_md(&body_card_of("", &many, &[]));
    assert!(md2.contains("前面还有 3 个工具"), "折叠计数: {md2}");
    assert!(!md2.contains("f0"), "最早不展示: {md2}");
    assert!(md2.contains("f7"), "最新可见: {md2}");
}

#[test]
fn stub_body_and_card() {
    assert_eq!(
        stub_body(3, None),
        "✅ 任务完成\n\n🔧 工具 3 次\n\n⬇️ 完整结果见下方消息"
    );
    assert_eq!(stub_body(0, None), "✅ 任务完成\n\n⬇️ 完整结果见下方消息");
    assert_eq!(
        stub_body(0, Some("boom")),
        "❌ 执行出错\n\n⬇️ 详情见下方消息"
    );
    assert_eq!(
        stub_body(0, Some("已中断")),
        "⏹ 已中断\n\n⬇️ 详情见下方消息"
    );
    let card = OutboundCard {
        text: "结论".into(),
        tool_calls: vec![tool("Bash", "ls", true)],
        phase: CardPhase::Outputting,
        thoughts: Vec::new(),
        todos: Vec::new(),
        queued_hint: None,
        terminal: CardTerminal::Done,
        usage_display: None,
        run_secs: 0,
    };
    let json = render_stub_card(&card);
    assert!(json.contains("⬇️ 完整结果见下方消息"), "指针: {json}");
    assert!(
        !json.contains("结论"),
        "stub 不含正文（正文在重发的新卡）: {json}"
    );
    assert!(json.contains("工具 1 次"), "统计行: {json}");
    assert!(json.contains("✅ 任务完成"), "正文状态词: {json}");

    assert_eq!(
        json.matches("已完成").count(),
        1,
        "footer 状态词只应出现一次: {json}"
    );
}

#[test]
fn stream_body_final_stats_and_done() {
    let tools = vec![
        tool("Bash", "a", true),
        tool("Bash", "b", true),
        tool("Read", "c", true),
    ];
    let out = stream_body_final(&body_card_of("结论", &tools, &[]), None);
    assert!(out.contains("结论"));
    assert!(out.contains("工具 3 次"), "总数: {out}");
    assert!(out.contains("Bash×2"), "工具统计: {out}");
    assert!(out.contains("Read×1"), "工具统计: {out}");

    assert!(!out.contains("完成"), "正文不应含状态词: {out}");

    assert!(out.contains("> ✅ **Bash** — a"), "全量明细: {out}");
    assert!(out.contains("> ✅ **Read** — c"), "全量明细: {out}");

    let err = stream_body_final(&body_card_of("", &[], &[]), Some("boom"));
    assert!(err.contains("❌ 出错：boom"), "错误前置: {err}");

    let stop = stream_body_final(&body_card_of("", &[], &[]), Some("已中断"));
    assert!(
        stop.contains("⏹ 已中断") && !stop.contains("出错"),
        "中断终态: {stop}"
    );
}

#[test]
fn perm_detail_truncation_notice() {
    let long = "x".repeat(1500);
    let json = render_permission_card(
        "Bash",
        &format!(r#"{{"command":"echo {long}"}}"#),
        "feishu:ou_t",
        "req1",
        None,
        300,
    );
    assert!(
        json.contains("已截断，仅显示前 1000 字符"),
        "截断提示: {json}"
    );

    let short = render_permission_card("Bash", r#"{"command":"ls"}"#, "c", "r", None, 300);
    assert!(!short.contains("已截断"), "短输入不提示: {short}");
}

#[test]
fn perm_detail_email_mask_notice() {
    let json = render_permission_card(
        "Bash",
        r#"{"command":"git clone git@github.com:org/repo.git"}"#,
        "feishu:ou_t",
        "req1",
        None,
        300,
    );
    assert!(json.contains("[at]"), "掩码仍生效（审计强制）: {json}");
    assert!(json.contains("邮箱已掩码显示"), "掩码提示: {json}");
    assert!(
        json.contains("原命令可直接执行"),
        "告知原命令语义不变: {json}"
    );

    let plain = render_permission_card("Bash", r#"{"command":"ls -la"}"#, "c", "r", None, 300);
    assert!(!plain.contains("邮箱已掩码"), "无掩码不提示: {plain}");
}

#[test]
fn question_card_form_for_many_options_and_multi() {
    let labels: Vec<String> = (1..=6).map(|i| format!("方案{i}")).collect();
    let mk_input = |multi: bool| {
        obj(vec![
            ("questions", arr(vec![
                obj(vec![
                    ("question", Value::from("选哪个方案？")),
                    ("multiSelect", Value::from(multi)),
                    ("options", Value::from(labels.iter().map(|l| obj(vec![("label", Value::from(l.as_str()))])).collect::<Vec<_>>())),
                ]),
            ])),
        ])
        .to_string()
    };

    let json = render_question_card(&mk_input(false), "feishu:ou_q", "reqF", None, 300)
        .expect("单选多选项应渲染");
    assert!(json.contains("\"tag\":\"form\""), "form 元素: {json}");
    assert!(json.contains("select_static"), "下拉: {json}");
    assert!(json.contains("\"name\":\"ask_opt\""), "字段名: {json}");
    assert!(
        json.contains("\"imagent_form\":\"ask\""),
        "ask 表单标记: {json}"
    );
    assert!(json.contains("\"req\":\"reqF\""), "req 精确路由: {json}");
    assert!(
        json.contains("\"form_action_type\":\"submit\""),
        "提交按钮: {json}"
    );
    assert!(!json.contains("回复 `ask:选项`"), "不再要求手打: {json}");

    assert!(
        json.contains("方案1") && json.contains("方案6"),
        "全选项: {json}"
    );

    let multi = render_question_card(&mk_input(true), "feishu:ou_q", "reqM", None, 300)
        .expect("多选应渲染");
    assert!(multi.contains("\"tag\":\"checkbox\""), "checkbox: {multi}");
    assert!(!multi.contains("select_static"), "多选不用下拉: {multi}");
    assert!(multi.contains("一次回传全部选择"), "多选提交提示: {multi}");

    let few = obj(vec![
        ("questions", arr(vec![
            obj(vec![
                ("question", Value::from("选哪个？")),
                ("options", arr(vec![
                    obj(vec![("label", Value::from("A"))]),
                    obj(vec![("label", Value::from("B"))]),
                ])),
            ]),
        ])),
    ])
    .to_string();
    let btn = render_question_card(&few, "c", "r", None, 300).expect("少选项应渲染");
    assert!(btn.contains("\"imagent_ask\":\"A\""), "按钮形态保留: {btn}");
    assert!(!btn.contains("\"tag\":\"form\""), "少选项不用表单: {btn}");

    let multi_q = obj(vec![
        ("questions", arr(vec![
            obj(vec![
                ("question", Value::from("第一问？")),
                ("header", Value::from("问一")),
                ("options", arr(vec![obj(vec![("label", Value::from("A"))])])),
            ]),
            obj(vec![
                ("question", Value::from("第二问？")),
                ("header", Value::from("问二")),
                ("multiSelect", Value::from(true)),
                ("options", arr(vec![
                    obj(vec![("label", Value::from("B"))]),
                    obj(vec![
                        ("label", Value::from("C")),
                        ("description", Value::from("说明")),
                    ]),
                ])),
            ]),
        ])),
    ])
    .to_string();
    let mq = render_question_card(&multi_q, "c", "r", None, 300).expect("应渲染");
    assert!(
        mq.contains("\"name\":\"ask_opt_0\"") && mq.contains("\"name\":\"ask_opt_1\""),
        "每题一字段: {mq}"
    );
    assert!(
        mq.contains("\"value\":\"问一=A\"") && mq.contains("\"value\":\"问二=B\""),
        "value 携带题头: {mq}"
    );
    assert!(mq.contains("提交全部答案"), "一次提交: {mq}");
    assert!(mq.contains("说明"), "选项描述保留: {mq}");

    assert!(
        mq.contains("\"tag\":\"checkbox\"") && mq.contains("\"tag\":\"select_static\""),
        "控件分流: {mq}"
    );
}

#[test]
fn command_card_danger_button_has_confirm() {
    let buttons = vec![
        CardButton {
            label: "使用 main".into(),
            command: "/ws use main".into(),
            style: CardButtonStyle::Primary,
        },
        CardButton {
            label: "删除".into(),
            command: "/ws remove tmp".into(),
            style: CardButtonStyle::Danger,
        },
    ];
    let json = render_command_card("📁 工作空间", "- main", &buttons, "feishu:oc_g");
    assert!(json.contains("\"confirm\""), "danger 按钮带确认: {json}");
    assert!(json.contains("确认执行"), "确认弹窗标题: {json}");
    assert!(
        json.contains("/ws remove tmp"),
        "确认文案含具体命令: {json}"
    );

    assert_eq!(
        json.matches("\"confirm\"").count(),
        1,
        "仅 danger 按钮确认: {json}"
    );
}

#[test]
fn empty_body_placeholder_is_explicit() {
    let init = render_stream_init_card("feishu:ou_t", None);
    assert!(
        init.contains("🧠 已接收任务，正在处理"),
        "init 卡状态语: {init}"
    );
    let card = OutboundCard {
        text: "".into(),
        tool_calls: vec![],
        phase: CardPhase::Thinking,
        thoughts: Vec::new(),
        todos: Vec::new(),
        queued_hint: None,
        terminal: CardTerminal::Running,
        usage_display: None,
        run_secs: 0,
    };
    let json = render_card(&card, "feishu:ou_t", None);
    assert!(
        json.contains("🧠 已接收任务，正在处理"),
        "降级卡空正文状态语: {json}"
    );
}

fn card_of(terminal: CardTerminal, tools: Vec<ToolCall>) -> OutboundCard {
    OutboundCard {
        text: "结论".into(),
        tool_calls: tools,
        phase: CardPhase::Outputting,
        thoughts: Vec::new(),
        todos: Vec::new(),
        queued_hint: None,
        terminal,
        usage_display: None,
        run_secs: 0,
    }
}

#[test]
fn terminal_header_template_colors() {
    let done = render_card(&card_of(CardTerminal::Done, vec![]), "feishu:ou_t", None);
    assert!(
        done.contains("\"template\":\"green\"") && done.contains("✅ 已完成"),
        "Done header: {done}"
    );
    let err = render_card(
        &card_of(CardTerminal::Error("boom".into()), vec![]),
        "feishu:ou_t",
        None,
    );
    assert!(
        err.contains("\"template\":\"red\"") && err.contains("❌ 出错"),
        "Error header: {err}"
    );
    let stop = render_card(
        &card_of(CardTerminal::Error("已中断".into()), vec![]),
        "feishu:ou_t",
        None,
    );
    assert!(
        stop.contains("\"template\":\"grey\"") && stop.contains("⏹ 已中断"),
        "中断 header: {stop}"
    );
    let running = render_card(&card_of(CardTerminal::Running, vec![]), "feishu:ou_t", None);
    assert!(
        !running.contains("\"header\""),
        "Running 不加 header: {running}"
    );
    let init = render_stream_init_card("feishu:ou_t", None);
    assert!(
        !init.contains("\"header\""),
        "流式初始卡不加 header: {init}"
    );

    let stub = render_stub_card(&card_of(CardTerminal::Done, vec![tool("Bash", "ls", true)]));
    assert!(
        stub.contains("\"template\":\"green\""),
        "stub header: {stub}"
    );
    assert_eq!(stub.matches("已完成").count(), 1, "状态词单次: {stub}");
}

#[test]
fn note_elements_for_meta_lines() {
    let json =
        render_permission_card("Bash", r#"{"command":"ls"}"#, "feishu:ou_t", "r", None, 300);
    assert!(
        json.contains("\"text_size\":\"notation\"") && json.contains("分钟后自动拒绝"),
        "倒计时 note: {json}"
    );
    let queued = render_permission_card_note(
        "Bash",
        r#"{"command":"ls"}"#,
        "feishu:ou_t",
        "r",
        None,
        "⏳ 等待你审批 · 后面还排着 3 条消息",
    );
    assert!(
        queued.contains("\"text_size\":\"notation\"") && queued.contains("等待你审批"),
        "排队 note: {queued}"
    );
    let masked = render_permission_card(
        "Bash",
        r#"{"command":"git clone git@github.com:org/repo.git"}"#,
        "feishu:ou_t",
        "r",
        None,
        300,
    );
    assert!(
        masked.matches("\"text_size\":\"notation\"").count() >= 2,
        "倒计时 + 掩码警告两条 note: {masked}"
    );
    assert!(
        masked.contains("邮箱已掩码显示") && masked.contains("\"text_size\":\"notation\""),
        "掩码警告 note 化: {masked}"
    );
    let cancelled = render_permission_card_cancelled("Bash");
    assert!(
        cancelled.contains("\"text_size\":\"notation\"") && cancelled.contains("审批超时"),
        "超时原因 note: {cancelled}"
    );

    let input = obj(vec![
        ("questions", arr(vec![
            obj(vec![
                ("question", Value::from("选？")),
                ("options", arr(vec![
                    obj(vec![("label", Value::from("A"))]),
                    obj(vec![("label", Value::from("B"))]),
                ])),
            ]),
        ])),
    ])
    .to_string();
    let q = render_question_card(&input, "feishu:ou_t", "r", None, 300).unwrap();
    assert!(q.contains("\"text_size\":\"notation\""), "问题卡 note: {q}");
}

#[test]
fn tool_tag_wall_on_terminal_card() {
    let tools = vec![
        tool("Bash", "a", true),
        tool("Bash", "b", true),
        tool("Read", "c", true),
    ];
    let json = render_card(&card_of(CardTerminal::Done, tools), "feishu:ou_t", None);

    assert!(
        !json.contains("\"tag\":\"tag\""),
        "不得含 tag 组件（200621）: {json}"
    );
    assert!(
        json.contains("🔧 工具 3 次：Bash×2 · Read×1"),
        "统计行: {json}"
    );

    let running = render_card(
        &card_of(CardTerminal::Running, vec![tool("Bash", "a", false)]),
        "feishu:ou_t",
        None,
    );
    assert!(!running.contains("工具 1 次"), "Running 无统计: {running}");

    let md = stream_body_final(&body_card_of("结论", &[tool("Bash", "a", true)], &[]), None);
    assert!(
        md.contains("工具 1 次") && md.contains("Bash×1"),
        "统计行兜底: {md}"
    );
}

#[test]
fn resume_table_paired_two_column_rows() {
    let mut body = String::from("| # | 来源 | 时间 | 内容 |\n|---|---|---|---|\n");
    for (i, src) in ["📱", "💻", "📱"].iter().enumerate() {
        body.push_str(&format!("| {} | {src} | 3 分钟前 | 会话{i} |\n", i + 1));
    }
    body.push_str("| 10 | 💻 | 1 小时前 | 长列表第 10 条 |\n");
    let buttons: Vec<CardButton> = (1..=3)
        .map(|i| CardButton {
            label: format!("接管 {i}"),
            command: format!("/resume {i}"),
            style: if i == 1 {
                CardButtonStyle::Primary
            } else {
                CardButtonStyle::Default
            },
        })
        .collect();
    let json = render_command_card("⏪ 可恢复会话", &body, &buttons, "feishu:oc_g");

    assert!(
        json.contains("\"width\":\"weighted\"") && json.contains("\"weight\":4"),
        "左列 weighted 4: {json}"
    );
    assert!(json.contains("\"weight\":1"), "右列 weighted 1: {json}");

    assert!(
        !json.contains("\"tag\":\"tag\"") && json.contains("💻 本机") && json.contains("📱 IM"),
        "来源文本化且无 tag 组件: {json}"
    );

    assert!(
        json.contains("\"imagent_cmd\":\"/resume 2\""),
        "接管命令编码: {json}"
    );
    assert!(
        json.contains("会话1") && json.contains("会话2"),
        "行内容: {json}"
    );

    assert!(json.contains("长列表第 10 条"), "未配对行兜底: {json}");
    assert!(json.contains("其余会话发送"), "兜底提示: {json}");
}

#[test]
fn ws_table_paired_rows() {
    let body = "| 名称 | 路径 |\n|---|---|\n| main | /a/b |\n| web | /c/d |\n";
    let buttons = vec![
        CardButton {
            label: "使用 main".into(),
            command: "/ws use main".into(),
            style: CardButtonStyle::Primary,
        },
        CardButton {
            label: "删除 main".into(),
            command: "/ws remove main".into(),
            style: CardButtonStyle::Danger,
        },
        CardButton {
            label: "使用 web".into(),
            command: "/ws use web".into(),
            style: CardButtonStyle::Primary,
        },
        CardButton {
            label: "删除 web".into(),
            command: "/ws remove web".into(),
            style: CardButtonStyle::Danger,
        },
    ];
    let json = render_command_card("📁 命名工作空间", body, &buttons, "feishu:oc_g");
    assert!(json.contains("\"weight\":4"), "双列 weighted: {json}");
    assert!(
        json.contains("**main**") && json.contains("/a/b"),
        "名称+路径: {json}"
    );
    assert!(
        json.contains("\"imagent_cmd\":\"/ws use main\"")
            && json.contains("\"imagent_cmd\":\"/ws remove web\""),
        "使用/删除按钮编码: {json}"
    );

    assert!(json.contains("\"confirm\""), "danger 确认弹窗: {json}");
}

#[test]
fn command_card_fallback_when_no_table() {
    let buttons = vec![CardButton {
        label: "📊 状态".into(),
        command: "/status".into(),
        style: CardButtonStyle::Primary,
    }];
    let json = render_command_card("t", "- main：/a/b", &buttons, "feishu:oc_g");
    assert!(json.contains("\"flex_mode\":\"flow\""), "平铺 flow: {json}");
    assert!(json.contains("- main：/a/b"), "正文原样: {json}");
    assert!(!json.contains("\"width\":\"weighted\""), "无双列: {json}");
}

#[test]
fn icon_unification() {
    let many: Vec<ToolCall> = (0..8)
        .map(|i| tool("Read", &format!("f{i}"), true))
        .collect();
    let md = stream_body_md(&body_card_of("", &many, &[]));
    assert!(md.contains("⋯ 前面还有 3 个工具"), "省略号图标: {md}");
    assert!(!md.contains("☕"), "不再用咖啡杯: {md}");
    let sup = render_permission_card_superseded("Bash");
    assert!(sup.contains("🔁 已被新询问取代"), "superseded 图标: {sup}");
    assert!(!sup.contains("⏭️"), "不再用跳过图标: {sup}");
    let perm = render_permission_card("Bash", r#"{"command":"ls"}"#, "c", "r", None, 300);

    assert!(perm.contains("♾️ 本次会话始终允许"), "♾️ 次级按钮: {perm}");
    assert!(!perm.contains("🔓"), "不再用开锁: {perm}");
}

#[test]
fn primary_buttons_no_green_emoji() {
    let json = render_permission_card("Bash", r#"{"command":"ls"}"#, "c", "r", None, 300);
    assert!(
        json.contains("\"content\":\"允许\"") && !json.contains("✅ 允许"),
        "primary 允许无 ✅: {json}"
    );
    assert!(json.contains("⛔ 拒绝"), "danger ⛔ 保留: {json}");
}

#[test]
fn long_body_sectioning() {
    let out = stream_body_final(&body_card_of("结论", &[tool("Bash", "a", true)], &[]), None);
    assert!(out.contains("\n---\n"), "正文与统计间分割线: {out}");
    assert!(out.contains("**工具轨迹**"), "明细块小标题: {out}");
    let json = render_card(
        &card_of(CardTerminal::Done, vec![tool("Bash", "a", true)]),
        "feishu:ou_t",
        None,
    );
    assert!(json.contains("\"tag\":\"hr\""), "真 hr 组件: {json}");
    assert!(json.contains("🔧 工具轨迹（1）"), "面板标题: {json}");
}

#[test]
fn tool_panel_border_by_terminal() {
    let done = render_card(
        &card_of(CardTerminal::Done, vec![tool("B", "a", true)]),
        "c",
        None,
    );
    assert!(done.contains("\"color\":\"grey\""), "Done grey: {done}");
    let err = render_card(
        &card_of(
            CardTerminal::Error("boom".into()),
            vec![tool("B", "a", true)],
        ),
        "c",
        None,
    );
    assert!(err.contains("\"color\":\"red\""), "Error red: {err}");
    let running = render_card(
        &card_of(CardTerminal::Running, vec![tool("B", "a", false)]),
        "c",
        None,
    );
    assert!(
        running.contains("\"color\":\"blue\""),
        "Running blue: {running}"
    );
}

#[test]
fn sender_anchor_line_group_only() {
    let line = sender_anchor_line(Some("ou_owner"), true).expect("群应有标注行");
    let s = json_to_string(&line);

    assert!(
        s.contains("<at id=") && s.contains("ou_owner"),
        "at 标签: {s}"
    );
    assert!(s.contains("发起的任务"), "文案: {s}");

    assert!(
        sender_anchor_line(Some("ou_owner"), false).is_none(),
        "私聊不加"
    );
    assert!(sender_anchor_line(None, true).is_none(), "缺 sender 不加");
    assert!(
        sender_anchor_line(Some(""), true).is_none(),
        "空 sender 不加"
    );

    let init_group = render_stream_init_card("feishu:oc_g", Some("ou_owner"));
    assert!(
        init_group.contains("<at id=") && init_group.contains("ou_owner"),
        "{init_group}"
    );
    assert!(
        init_group.find("<at").unwrap() < init_group.find("md_body").unwrap(),
        "发起者行在正文组件之前"
    );
    let init_p2p = render_stream_init_card("feishu:ou_t", Some("ou_t"));
    assert!(!init_p2p.contains("<at"), "私聊初始卡不加: {init_p2p}");

    let card = OutboundCard {
        text: "x".into(),
        tool_calls: vec![],
        phase: CardPhase::Thinking,
        thoughts: Vec::new(),
        todos: Vec::new(),
        queued_hint: None,
        terminal: CardTerminal::Done,
        usage_display: None,
        run_secs: 10,
    };
    let g = render_card(&card, "feishu:oc_g", Some("ou_owner"));
    assert!(g.contains("<at id=") && g.contains("ou_owner"), "{g}");
    assert!(!render_card(&card, "feishu:ou_t", Some("ou_t")).contains("<at"));
}

#[test]
fn terminal_done_footer_carries_run_len() {
    assert_eq!(
        terminal_done_footer(1800, Some("$0.012")),
        "✅ 已完成 · 30m · $0.012"
    );
    assert_eq!(terminal_done_footer(42, None), "✅ 已完成 · 42s");
    assert_eq!(terminal_done_footer(0, None), "✅ 已完成 · 0s");
    assert_eq!(format_run_len(750), "12m");
    assert_eq!(format_run_len(3661), "1h01m");
    assert_eq!(format_run_len(90000), "1d1h");

    let card = OutboundCard {
        text: "x".into(),
        tool_calls: vec![],
        phase: CardPhase::Thinking,
        thoughts: Vec::new(),
        todos: Vec::new(),
        queued_hint: None,
        terminal: CardTerminal::Done,
        usage_display: Some("$0.5".into()),
        run_secs: 1800,
    };
    let json = render_card(&card, "feishu:ou_t", None);
    assert!(json.contains("✅ 已完成 · 30m · $0.5"), "footer: {json}");
}

#[test]
fn error_terminal_card_has_doctor_button() {
    let err = render_card(
        &card_of(CardTerminal::Error("boom".into()), vec![]),
        "feishu:ou_t",
        None,
    );
    assert!(err.contains("/doctor"), "失败卡带 /doctor 按钮: {err}");
    assert!(
        err.contains("\"imagent_cmd\":\"/doctor\"") || err.contains("imagent_cmd"),
        "命令按钮 value: {err}"
    );
    let done = render_card(&card_of(CardTerminal::Done, vec![]), "feishu:ou_t", None);
    assert!(!done.contains("/doctor"), "成功卡不带: {done}");
    let running = render_card(&card_of(CardTerminal::Running, vec![]), "feishu:ou_t", None);
    assert!(!running.contains("/doctor"), "Running 卡不带: {running}");
}

#[test]
fn help_body_split_into_group_elements() {
    let body = "🗂 会话\n- /new 重置会话\n- /resume 恢复\n\n📁 目录与文件\n- /cd 切目录";
    let buttons = vec![CardButton {
        label: "📊 状态".into(),
        command: "/status".into(),
        style: CardButtonStyle::Primary,
    }];
    let json = render_command_card("🤖 imagent 命令", body, &buttons, "feishu:ou_t");
    assert!(
        json.contains("\"text_size\":\"heading-large\""),
        "组标题 heading-large: {json}"
    );
    assert!(
        json.matches("\"tag\":\"markdown\"").count() >= 3,
        "分组独立元素（组标题×2 + 列表×2）: {json}"
    );
    assert!(
        json.contains("🗂 会话") && json.contains("/new 重置会话"),
        "内容不丢: {json}"
    );
}

#[test]
fn cap_md_bytes_truncates_by_bytes() {
    let short = "你好".repeat(100);
    assert_eq!(cap_md_bytes(&short, 4_096, 4_096), short, "未超限原样返回");
    let long = "https://example.com/很长的路径".repeat(2000);
    let capped = cap_md_bytes(&long, 4_096, 4_096);
    assert!(capped.len() < long.len(), "必须截断");
    assert!(capped.contains("已截断中段"), "带截断标注");
    assert!(
        capped.len() < 9_500,
        "截后总长受字节预算约束: {}",
        capped.len()
    );

    let head_ok = long.starts_with(&capped[..capped.find('\n').unwrap_or(0)]);
    assert!(head_ok, "头部为原文前缀");
}

