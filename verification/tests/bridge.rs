//! The conversation side: what is remembered, and what an event leads to.

use imagent::asks::{Asks, PendingAskCard};
use imagent::conv::{receive_target_from_conv, ReceiveIdKind};
use imagent::drain::{classify, merge_forward_outcome, Bridge, Effect, MergeForwardOutcome};
use imagent::errors::CoreError;
use imagent::forward::MergedForwardItem;
use imagent::media::{candidate_name, stored_name};
use imagent::message::MentionPolicy;
use imagent::model::{ConvId, InboundMessage};
use imagent::routing::{
    comment_split_max, in_quiet_hours, quiet_at_time, text_split_max, QuietHours,
    FEISHU_COMMENT_TEXT_MAX, FEISHU_TEXT_MAX,
};
use imagent::clock::{judging_second, making_second};
use imagent::session::{group_reply_anchor, restart_number, thread_window_of, Convs};
use serde_json::Value;
use std::time::Duration;

/// A JSON object of the given members.
fn obj(members: Vec<(&str, Value)>) -> Value {
    Value::Object(members.into_iter().map(|(k, v)| (k.to_string(), v)).collect())
}

fn mk_p2p_payload(event_id: &str, open_id: &str, text: &str) -> Vec<u8> {
    let content = format!("{{\"text\":\"{text}\"}}");
    obj(vec![
        ("header", obj(vec![
            ("event_id", Value::from(event_id)),
            ("event_type", Value::from("im.message.receive_v1")),
        ])),
        ("event", obj(vec![
            ("sender", obj(vec![("sender_id", obj(vec![("open_id", Value::from(open_id))]))])),
            ("message", obj(vec![
                ("message_type", Value::from("text")),
                ("content", Value::from(content)),
                ("chat_type", Value::from("p2p")),
            ])),
        ])),
    ])
    .to_string()
    .into_bytes()
}

#[test]
fn drain_drops_duplicate_event_id() {
    let mut bridge = Bridge::new();
    let mut inbound: Vec<InboundMessage> = Vec::new();
    for payload in [
        mk_p2p_payload("evt_1", "ou_alice", "hi"),
        mk_p2p_payload("evt_1", "ou_alice", "hi"),
    ] {
        let event = classify(&payload, &MentionPolicy::permissive(), None);
        for effect in bridge.take(event, None, 0) {
            match effect {
                Effect::FetchMedia { msg, media } if media.is_empty() => inbound.push(msg),
                other => panic!("{other:?}"),
            }
        }
    }

    let first = inbound.first().expect("第一条应入队");
    assert_eq!(first.conv_id.0, "feishu:ou_alice");
    assert_eq!(first.text.as_deref(), Some("hi"));
    assert_eq!(inbound.len(), 1, "重复 event_id 应被去重，不应入队");
}

#[test]
fn drain_parses_payload_into_inbound() {
    let mut bridge = Bridge::new();
    let payload = mk_p2p_payload("evt_2", "ou_bob", "hello");
    let event = classify(&payload, &MentionPolicy::permissive(), None);
    let mut effects = bridge.take(event, None, 0);
    assert_eq!(effects.len(), 1);
    let msg = match effects.remove(0) {
        Effect::FetchMedia { msg, media } if media.is_empty() => msg,
        other => panic!("{other:?}"),
    };
    assert_eq!(msg.conv_id, ConvId("feishu:ou_bob".into()));
    assert_eq!(msg.sender.0, "ou_bob");
    assert_eq!(msg.text.as_deref(), Some("hello"));
}

#[test]
fn platform_conv_roundtrip() {
    let (id, kind) = receive_target_from_conv(&ConvId("feishu:ou_abc".into())).unwrap();
    assert_eq!(id, "ou_abc");
    assert_eq!(kind, ReceiveIdKind::OpenId);
}

#[test]
fn unused_import_guard() {
    let _ = ConvId("x".into());
}

#[test]
fn persist_media_same_name_gets_suffix() {
    let name = stored_name("file", "k9", Some("同名.txt"));
    assert_eq!(stored_name("file", "k10", Some("同名.txt")), name);
    let first = candidate_name(&name, 0);
    let second = candidate_name(&name, 1);
    assert_ne!(first, second, "同名不应覆盖: {first} vs {second}");
    assert_eq!(first, "同名.txt");
    assert!(second.ends_with("同名-1.txt"), "后缀序号: {second}");
}

#[test]
fn persist_media_original_name() {
    let p1 = stored_name("file", "k1", Some("报告 v2.pdf"));
    assert!(p1.ends_with("报告 v2.pdf"), "{p1}");

    let p2 = stored_name("file", "k2", Some("../../evil.sh"));
    assert!(p2.ends_with("evil.sh") && !p2.contains(".."), "{p2}");

    let p3 = stored_name("image", "img_k3", None);
    assert!(p3.ends_with("img_k3.png"), "{p3}");

    let p4 = stored_name("image", "img_k4", Some("photo.jpg"));
    assert!(p4.ends_with("photo.jpg"), "{p4}");

    let p5 = stored_name("file", "k5", None);
    assert!(p5.ends_with("k5.bin"), "{p5}");
}

#[test]
fn asks_flag_roundtrip() {
    let mut asks = Asks::new();
    let conv = ConvId("feishu:ou_x".into());

    asks.card_sent(&conv.0);
    assert!(!asks.take_asks_flag(&conv.0), "未发询问 → 不下沉");
    asks.mark_ask_sent(&conv.0);
    assert!(asks.take_asks_flag(&conv.0), "发过询问 → 下沉");
    assert!(!asks.take_asks_flag(&conv.0), "取走即清（不重复下沉）");
}

fn pending_card() -> PendingAskCard {
    PendingAskCard {
        conv_id: "feishu:ou_x".into(),
        msg_id: "m1".into(),
        tool_name: "Bash".into(),
        sender: "ou_owner".into(),
    }
}

#[test]
fn record_pending_ask_same_card_not_superseded() {
    let mut asks = Asks::new();
    assert!(asks.record_pending_ask("r1", pending_card()).is_none());

    assert!(
        asks.record_pending_ask("r1", pending_card()).is_none(),
        "同一张卡不应被取代"
    );
    let entry = asks.close("r1");
    assert!(
        entry.as_ref().is_some_and(|c| c.msg_id == "m1"),
        "登记保留: {entry:?}"
    );
}

#[test]
fn group_reply_anchor_only_plain_group() {
    assert_eq!(
        group_reply_anchor("feishu:oc_g", Some("om_123")),
        Some(("feishu:oc_g".to_string(), "om_123".to_string()))
    );

    assert!(
        group_reply_anchor("feishu:ou_u", Some("om_123")).is_none(),
        "私聊不登记"
    );
    assert!(
        group_reply_anchor("feishu:oc_g:om_root", Some("om_123")).is_none(),
        "话题群已锚 root，不登记"
    );
    assert!(
        group_reply_anchor("feishu:comment:ft", Some("om_123")).is_none(),
        "评论线程走评论回复，不登记"
    );

    assert!(group_reply_anchor("feishu:oc_g", None).is_none());
    assert!(group_reply_anchor("feishu:x", Some("om_123")).is_none());
    assert!(group_reply_anchor("oc_g", Some("om_123")).is_none());
    assert!(group_reply_anchor("feishu:oc_g", Some("")).is_none());
    assert!(group_reply_anchor("feishu:oc_g", Some("xxx")).is_none());
}

#[test]
fn thread_window_of_maps_config() {
    assert_eq!(Duration::from_secs(thread_window_of(0)), Duration::ZERO);
    assert_eq!(Duration::from_secs(thread_window_of(600)), Duration::from_secs(600));
    assert_eq!(Duration::from_secs(thread_window_of(1800)), Duration::from_secs(30 * 60));
}

#[test]
fn merge_forward_outcome_success_and_fallback() {
    let items = vec![MergedForwardItem {
        message_id: "om_sub1".into(),
        message_type: "text".into(),
        content: r#"{"text":"文本内容"}"#.into(),
        sender_id: "ou_a".into(),
        sender_name: Some("Alice".into()),
        create_time_ms: 0,
    }];
    let ok = Ok(items);
    match merge_forward_outcome(&ok, Some("群聊记录"), None) {
        MergeForwardOutcome::Agent(text) => {
            assert!(
                text.starts_with("（以下为用户转发的聊天记录）\n\n"),
                "正文前缀: {text}"
            );
            assert!(text.contains("【合并转发聊天记录】群聊记录"), "{text}");
            assert!(text.contains("[Alice] 文本内容"), "{text}");
        }
        other => panic!("成功路径应为 Agent: {other:?}"),
    }

    let err = Err(CoreError::Platform(
        "list_merge_forward: code=230002 msg=message not exist".into(),
    ));
    match merge_forward_outcome(&err, None, None) {
        MergeForwardOutcome::Fallback(notice) => {
            assert!(notice.starts_with("⚠️ 无法读取合并转发内容（"), "{notice}");
            assert!(notice.contains("请直接复制文字发送"), "{notice}");
            assert!(notice.contains("code=230002"), "原因透传: {notice}");
        }
        other => panic!("失败路径应为 Fallback: {other:?}"),
    }
}

#[test]
fn quiet_hours_and_reply_anchor_wiring() {
    assert!(!in_quiet_hours(None), "未配置恒不在免打扰");

    let mut convs = Convs::new();
    assert!(convs.reply_anchor("feishu:oc_g").is_none(), "空表 → None");
    convs.note_message("feishu:oc_g", "ou_a", Some("om_1"), None, 0);
    convs.begin_round("feishu:oc_g");
    assert_eq!(
        convs.reply_anchor("feishu:oc_g").as_deref(),
        Some("om_1"),
        "登记后可查"
    );
}

#[test]
fn text_split_caps_respect_message_max_len() {
    assert_eq!(text_split_max(None), FEISHU_TEXT_MAX);
    assert_eq!(comment_split_max(None), FEISHU_COMMENT_TEXT_MAX);

    assert_eq!(text_split_max(Some(2_000)), 2_000);
    assert_eq!(comment_split_max(Some(2_000)), 2_000);

    assert_eq!(text_split_max(Some(1_000_000)), FEISHU_TEXT_MAX);
    assert_eq!(comment_split_max(Some(1_000_000)), FEISHU_COMMENT_TEXT_MAX);
}

#[test]
fn quiet_hours_by_the_time_of_day() {
    let night = Some(QuietHours { from: 22 * 60, to: 8 * 60 });
    assert!(quiet_at_time(night, 22, 0));
    assert!(quiet_at_time(night, 23, 59));
    assert!(quiet_at_time(night, 0, 0));
    assert!(quiet_at_time(night, 7, 59));
    assert!(!quiet_at_time(night, 8, 0));
    assert!(!quiet_at_time(night, 12, 30));
    assert!(!quiet_at_time(night, 21, 59));
    let lunch = Some(QuietHours { from: 12 * 60 + 15, to: 13 * 60 });
    assert!(!quiet_at_time(lunch, 12, 14));
    assert!(quiet_at_time(lunch, 12, 15));
    assert!(!quiet_at_time(lunch, 13, 0));
    assert!(!quiet_at_time(None, 3, 0));
}

#[test]
fn clock_that_cannot_be_read() {
    assert_eq!(judging_second(Some(5)), 5);
    assert_eq!(judging_second(None), i64::MAX);
    assert_eq!(making_second(Some(5)), 5);
    assert_eq!(making_second(None), 0);
    assert_eq!(restart_number(Some(5)), 5);
    assert_eq!(restart_number(None), 1_000_000_000);
}
