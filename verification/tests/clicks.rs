//! Clicks on the buttons that the cards carry.

use imagent::ask_card::{multi_question_card_at, permission_card_at, question_card_at};
use imagent::card_action::{
    card_action_at, parse_card_action_at, parse_card_action_by, CMD_BUTTON_TTL_SECS,
};
use imagent::drain::{classify_by, Incoming};
use imagent::message::MentionPolicy;
use imagent::command_card::{command_card_at, config_card_json};
use imagent::events::CardActionEvent;
use imagent::json::{json_to_string, parse_json_str, Json};
use imagent::model::{
    CardButton, CardButtonStyle, CardPhase, CardTerminal, ConfigFormField, InboundMessage,
    OutboundCard,
};
use imagent::task_card::{card_at, init_card_at};
use serde_json::Value;

const NOW: i64 = 1_700_000_000;

/// A JSON object of the given members.
fn obj(members: Vec<(&str, Value)>) -> Value {
    Value::Object(members.into_iter().map(|(k, v)| (k.to_string(), v)).collect())
}

/// The card in the form in which it is sent.
fn sent(card: &Json) -> Value {
    serde_json::from_str(&json_to_string(card)).expect("a document")
}

/// Every value that a button of a card hands back.
fn button_values(v: &Value, out: &mut Vec<Value>) {
    match v {
        Value::Array(items) => items.iter().for_each(|x| button_values(x, out)),
        Value::Object(members) => {
            if members.get("type") == Some(&Value::from("callback")) {
                out.push(members["value"].clone());
            }
            members.values().for_each(|x| button_values(x, out));
        }
        _ => {}
    }
}

fn values_of(card: &Json) -> Vec<Value> {
    let mut out = Vec::new();
    button_values(&sent(card), &mut out);
    out
}

/// The event of a click by somebody on a button that hands back a value.
fn click(value: Value, operator: &str, form: Option<Value>) -> Vec<u8> {
    let mut action = vec![("tag", Value::from("button")), ("value", value)];
    if let Some(f) = form {
        action.push(("form_value", f));
    }
    obj(vec![
        (
            "header",
            obj(vec![
                ("event_id", Value::from("evt_c")),
                ("event_type", Value::from("card.action.trigger")),
            ]),
        ),
        (
            "event",
            obj(vec![
                ("operator", obj(vec![("open_id", Value::from(operator))])),
                ("action", obj(action)),
            ]),
        ),
    ])
    .to_string()
    .into_bytes()
}

fn clicked(value: &Value, operator: &str, now: i64) -> (InboundMessage, Option<String>) {
    let (key, msg, deny) =
        parse_card_action_at(&click(value.clone(), operator, None), now).expect("a click");
    assert_eq!(key, "evt_c");
    (msg, deny)
}

#[test]
fn approval_buttons_give_their_words() {
    let card = permission_card_at("Bash", "{\"command\":\"ls\"}", "feishu:oc_g", "r1", Some("ou_a"), "note", NOW);
    let values = values_of(&card);
    assert_eq!(values.len(), 3, "{values:?}");
    let mut words: Vec<String> = Vec::new();
    for v in &values {
        let (msg, deny) = clicked(v, "ou_a", NOW + 5);
        assert_eq!(deny, None);
        assert_eq!(msg.ask_req.as_deref(), Some("r1"));
        assert_eq!(msg.conv_id.0, "feishu:oc_g");
        words.push(msg.text.expect("a word"));
    }
    words.sort();
    assert_eq!(words, ["always", "n", "y"]);
}

#[test]
fn only_the_person_asked_approves() {
    for conv in ["feishu:oc_g", "feishu:ou_a", "feishu:oc_g:om_root"] {
        let card = permission_card_at("Bash", "{}", conv, "r1", Some("ou_a"), "note", NOW);
        for v in &values_of(&card) {
            let (msg, deny) = clicked(v, "ou_b", NOW);
            assert_eq!(msg.text, None, "{conv}");
            assert!(deny.is_some(), "{conv}");
        }
    }
}

#[test]
fn approval_expires_after_a_day() {
    let card = permission_card_at("Bash", "{}", "feishu:ou_a", "r1", Some("ou_a"), "note", NOW);
    let v = &values_of(&card)[0];
    let (msg, deny) = clicked(v, "ou_a", NOW + CMD_BUTTON_TTL_SECS);
    assert!(msg.text.is_some() && deny.is_none(), "the last moment");
    let (msg, deny) = clicked(v, "ou_a", NOW + CMD_BUTTON_TTL_SECS + 1);
    assert_eq!(msg.text, None);
    assert!(deny.is_some());
}

fn question(labels: &[&str]) -> Json {
    let options: Vec<Value> =
        labels.iter().map(|l| obj(vec![("label", Value::from(*l))])).collect();
    let doc = obj(vec![(
        "questions",
        Value::from(vec![obj(vec![
            ("question", Value::from("Which?")),
            ("options", Value::from(options)),
        ])]),
    )]);
    parse_json_str(&doc.to_string()).expect("a document")
}

#[test]
fn chosen_label_is_the_answer() {
    let card = question_card_at(&question(&["left", "right"]), "feishu:oc_g", "r2", Some("ou_a"), "note", NOW)
        .expect("a card");
    let values = values_of(&card);
    let answers: Vec<String> = values
        .iter()
        .map(|v| clicked(v, "ou_a", NOW).0.text.expect("an answer"))
        .collect();
    assert_eq!(answers, ["ask:left", "ask:right"]);
    let (msg, deny) = clicked(&values[0], "ou_b", NOW);
    assert!(msg.text.is_none() && deny.is_some());
    assert_eq!(clicked(&values[0], "ou_a", NOW).0.ask_req.as_deref(), Some("r2"));
}

#[test]
fn form_with_questions_gives_the_answers() {
    let doc = question(&["a", "b"]);
    let first = doc.get("questions").expect("questions").copy();
    let qs = match first {
        Json::Arr(mut v) => {
            v.push(v[0].copy());
            v
        }
        other => panic!("{other:?}"),
    };
    let card = multi_question_card_at(&qs, "feishu:oc_g", "r3", Some("ou_a"), "note", NOW)
        .expect("a card");
    let values = values_of(&card);
    assert_eq!(values.len(), 1);
    let form = obj(vec![
        ("ask_opt_0", Value::from("one=a")),
        ("ask_opt_1", Value::from("two=b")),
        ("ask_opt_1_free", Value::from("neither")),
    ]);
    let (_, msg, deny) =
        parse_card_action_at(&click(values[0].clone(), "ou_a", Some(form.clone())), NOW).unwrap();
    assert_eq!(deny, None);
    assert_eq!(msg.text.as_deref(), Some("ask:one=a；neither"), "a free answer goes first");
    assert_eq!(msg.ask_req.as_deref(), Some("r3"));
    let (_, msg, deny) =
        parse_card_action_at(&click(values[0].clone(), "ou_b", Some(form)), NOW).unwrap();
    assert!(msg.text.is_none() && deny.is_some());
}

fn command(label: &str, command: &str) -> CardButton {
    CardButton {
        label: label.into(),
        command: command.into(),
        style: CardButtonStyle::Default,
    }
}

#[test]
fn command_button_gives_the_command() {
    let card = command_card_at("T", "body", &[command("Go", "/go now")], "feishu:oc_g", NOW);
    let values = values_of(&card);
    assert_eq!(values.len(), 1);
    let (msg, deny) = clicked(&values[0], "ou_anybody", NOW);
    assert_eq!(deny, None);
    assert_eq!(msg.text.as_deref(), Some("/go now"));
    assert_eq!(msg.ask_req, None);
    let (msg, deny) = clicked(&values[0], "ou_anybody", NOW + CMD_BUTTON_TTL_SECS + 1);
    assert!(msg.text.is_none() && deny.is_some());
}

#[test]
fn settings_can_always_be_sent() {
    let fields = [ConfigFormField {
        key: "reply_mode".into(),
        label: "Mode".into(),
        current: "a".into(),
        options: vec![("a".into(), "A".into()), ("b".into(), "B".into())],
    }];
    let card = config_card_json(&fields, "feishu:oc_g");
    let values = values_of(&card);
    assert_eq!(values.len(), 1);
    let form = obj(vec![("reply_mode", Value::from("b"))]);
    let (_, msg, deny) =
        parse_card_action_at(&click(values[0].clone(), "ou_x", Some(form)), i64::MAX).unwrap();
    assert_eq!(deny, None);
    assert_eq!(msg.text.as_deref(), Some("/config form reply_mode=b"));
}

#[test]
fn click_of_nobody_known_leads_to_nothing() {
    assert!(parse_card_action_at(b"{}", NOW).is_none());
    assert!(parse_card_action_at(b"not json", NOW).is_none());
    let v = obj(vec![("imagent_perm", Value::from("allow")), ("conv", Value::from("feishu:ou_a"))]);
    assert!(parse_card_action_at(&click(v.clone(), "", None), NOW).is_none());
    let foreign = obj(vec![("conv", Value::from("feishu:ou_a"))]);
    assert!(parse_card_action_at(&click(foreign, "ou_a", None), NOW).is_none());
}

#[test]
fn old_button_of_nobody_known_leads_to_nothing() {
    let payload = br#"{"header":{"event_id":"e","event_type":"card.action.trigger"},"event":{"operator":{},"action":{"value":{"imagent_perm":"allow","conv":"feishu:ou_x","ts":0}}}}"#;
    assert!(parse_card_action_at(payload, NOW).is_none());
    let named = br#"{"header":{"event_id":"e","event_type":"card.action.trigger"},"event":{"operator":{"open_id":"ou_x"},"action":{"value":{"imagent_perm":"allow","conv":"feishu:ou_x","ts":0}}}}"#;
    let (key, msg, deny) = parse_card_action_at(named, NOW).expect("a refusal");
    assert_eq!(key, "e");
    assert_eq!(msg.text, None);
    assert_eq!(msg.sender.0, "ou_x");
    assert_eq!(deny.as_deref(), Some("⏳ 该按钮已过期（超过 24 小时），请重新发起。"));
}

#[test]
fn old_button_of_another_kind_leads_to_nothing() {
    let button = |member: &str, value: &str| {
        obj(vec![
            (member, Value::from(value)),
            ("conv", Value::from("feishu:oc_g")),
            ("sender", Value::from("ou_a")),
            ("ts", Value::from(0)),
        ])
    };
    for (member, value) in [("other", "x"), ("imagent_cmd", "hello"), ("imagent_cmd", "")] {
        let v = button(member, value);
        assert!(parse_card_action_at(&click(v.clone(), "ou_a", None), NOW).is_none(), "{member}");
        assert!(parse_card_action_at(&click(v.clone(), "ou_a", None), 1).is_none(), "{member}");
        assert!(parse_card_action_at(&click(v, "ou_b", None), 1).is_none(), "{member}");
    }
    for (member, value) in
        [("imagent_cmd", "/stop"), ("imagent_ask", "a"), ("imagent_form", "ask"), ("imagent_perm", "deny")]
    {
        let v = button(member, value);
        let (_, _, deny) = parse_card_action_at(&click(v, "ou_a", None), NOW).expect("a refusal");
        assert_eq!(deny.as_deref(), Some("⏳ 该按钮已过期（超过 24 小时），请重新发起。"), "{member}");
    }
    let in_time = parse_card_action_at(&click(button("imagent_cmd", "/stop"), "ou_a", None), 1);
    assert_eq!(in_time.expect("a command").1.text.as_deref(), Some("/stop"));
    let others = parse_card_action_at(&click(button("imagent_cmd", "/stop"), "ou_b", None), 1);
    assert_eq!(
        others.expect("a refusal").2.as_deref(),
        Some("⛔ 该任务由他人发起，仅发起者本人可执行此操作。")
    );
}

#[test]
fn only_the_owner_stops_a_task_in_a_group() {
    let running = OutboundCard {
        text: "x".into(),
        tool_calls: vec![],
        phase: CardPhase::Outputting,
        thoughts: Vec::new(),
        todos: Vec::new(),
        queued_hint: None,
        terminal: CardTerminal::Running,
        usage_display: None,
        run_secs: 0,
    };
    for card in [
        card_at(&running, "feishu:oc_g", Some("ou_a"), NOW),
        init_card_at("feishu:oc_g", Some("ou_a"), NOW),
    ] {
        let values = values_of(&card);
        assert_eq!(values.len(), 1);
        assert_eq!(values[0]["imagent_cmd"], Value::from("/stop"));
        assert_eq!(values[0]["sender"], Value::from("ou_a"));
        let own = parse_card_action_at(&click(values[0].clone(), "ou_a", None), NOW).unwrap();
        assert_eq!(own.1.text.as_deref(), Some("/stop"));
        let (_, msg, deny) =
            parse_card_action_at(&click(values[0].clone(), "ou_b", None), NOW).unwrap();
        assert_eq!(msg.text, None);
        assert_eq!(deny.as_deref(), Some("⛔ 该任务由他人发起，仅发起者本人可执行此操作。"));
    }
    let unknown = values_of(&card_at(&running, "feishu:oc_g", None, NOW));
    assert_eq!(unknown[0].get("sender"), None);
}

#[test]
fn click_read_by_hand_is_the_same() {
    let v = obj(vec![("imagent_perm", Value::from("deny")), ("conv", Value::from("feishu:ou_a"))]);
    let bytes = click(v, "ou_a", None);
    let text = String::from_utf8(bytes.clone()).unwrap();
    let doc = parse_json_str(&text).unwrap();
    let event = CardActionEvent::read(&doc).expect("an event");
    let a = card_action_at(&event, NOW).expect("a click");
    let b = parse_card_action_at(&bytes, NOW).expect("a click");
    assert_eq!(a, b);
    assert_eq!(a.1.text.as_deref(), Some("n"));
}

#[test]
fn without_a_clock_every_dated_button_has_expired() {
    let button = |ts: Option<i64>| {
        let mut members =
            vec![("imagent_perm", Value::from("allow")), ("conv", Value::from("feishu:ou_a"))];
        if let Some(ts) = ts {
            members.push(("ts", Value::from(ts)));
        }
        click(obj(members), "ou_a", None)
    };
    let dated = button(Some(NOW));
    let undated = button(None);
    let text = |payload: &[u8], clock: Option<i64>| {
        parse_card_action_by(payload, clock).expect("a click").1.text
    };
    assert_eq!(text(&dated, Some(NOW)).as_deref(), Some("y"));
    assert_eq!(text(&dated, None), None);
    assert_eq!(text(&undated, None).as_deref(), Some("y"));
    let policy = MentionPolicy::permissive();
    assert!(matches!(
        classify_by(&dated, &policy, None, Some(NOW)),
        Incoming::Click { deny: None, .. }
    ));
    assert!(matches!(
        classify_by(&dated, &policy, None, None),
        Incoming::Click { deny: Some(_), .. }
    ));
    assert!(matches!(
        classify_by(b"not json", &policy, None, None),
        Incoming::Ignored { event_type: None }
    ));
}
