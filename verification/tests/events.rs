//! Platform events: what each payload becomes.

use chrono::TimeZone;
use imagent::card_action::{parse_card_action_event, CMD_BUTTON_TTL_SECS};
use imagent::conv::{comment_target_from_conv, is_private_conv, receive_target_from_conv, thread_target_from_conv, ReceiveIdKind};
use imagent::dedup::{content_hash};
use imagent::forward::{
    parse_merged_forward_event, render_merge_forward_transcript, MergedForwardItem,
    MERGE_FORWARD_PLACEHOLDER, MERGE_FORWARD_TRANSCRIPT_MAX,
};
use imagent::message::{extract_text, parse_message_event, MentionPolicy, PendingMedia};
use imagent::model::{ConvId, InboundControl, InboundMessage};
use imagent::notices::{is_comment_event, is_group_message_event, parse_bot_added_event, parse_bot_removed_event, parse_comment_event, parse_menu_event, parse_reaction_event, parse_recall_event, peek_group_reply_parent, thread_key_of_payload, unsupported_message_notice};
use serde_json::Value;

/// A JSON object of the given members.
fn obj(members: Vec<(&str, Value)>) -> Value {
    Value::Object(members.into_iter().map(|(k, v)| (k.to_string(), v)).collect())
}

/// A JSON array of the given elements.
fn arr(elements: Vec<Value>) -> Value {
    Value::Array(elements)
}

fn parse_permissive(payload: &[u8]) -> Option<(String, InboundMessage, Vec<PendingMedia>)> {
    parse_message_event(payload, &MentionPolicy::permissive(), None)
}

#[test]
fn parse_p2p_text() {
    let payload = br#"{
        "schema":"2.0",
        "header":{"event_id":"evt_1","event_type":"im.message.receive_v1"},
        "event":{
            "sender":{"sender_id":{"open_id":"ou_user1"}},
            "message":{"message_type":"text","content":"{\"text\":\"hi there\"}","chat_type":"p2p","chat_id":"","message_id":"om_msg1"}
        }
    }"#;
    let (key, msg, pending) = parse_permissive(payload).expect("p2p 文本应解析成功");
    assert_eq!(key, "evt_1");
    assert_eq!(msg.conv_id.0, "feishu:ou_user1");
    assert_eq!(msg.sender.0, "ou_user1");
    assert_eq!(msg.text.as_deref(), Some("hi there"));
    assert!(pending.is_empty(), "文本消息不应有待下载媒体");
}

#[test]
fn parse_group_text() {
    let payload = br#"{
        "header":{"event_id":"evt_2","event_type":"im.message.receive_v1"},
        "event":{
            "sender":{"sender_id":{"open_id":"ou_user2"}},
            "message":{"message_type":"text","content":"{\"text\":\"hello group\"}","chat_type":"group","chat_id":"oc_chat1","message_id":"om_msg2"},
            "chat":{"chat_id":"oc_chat1"}
        }
    }"#;
    let (key, msg, _) = parse_permissive(payload).expect("group 文本应解析成功");
    assert_eq!(key, "evt_2");
    assert_eq!(msg.conv_id.0, "feishu:oc_chat1");
    assert_eq!(msg.sender.0, "ou_user2");
    assert_eq!(msg.text.as_deref(), Some("hello group"));
}

#[test]
fn parse_group_fallback_message_chat_id() {
    let payload = br#"{
        "header":{"event_type":"im.message.receive_v1"},
        "event":{
            "sender":{"sender_id":{"open_id":"ou_user3"}},
            "message":{"message_type":"text","content":"{\"text\":\"x\"}","chat_type":"group","chat_id":"oc_chat2","message_id":"om_msg3"}
        }
    }"#;
    let (_key, msg, _) = parse_permissive(payload).expect("group 回退 chat_id 应成功");
    assert_eq!(msg.conv_id.0, "feishu:oc_chat2");
}

#[test]
fn dedup_fallback_equal_length_distinct_texts_differ() {
    let mk = |text: &str| {
        let payload = format!(
            r#"{{"header":{{"event_type":"im.message.receive_v1"}},
            "event":{{"sender":{{"sender_id":{{"open_id":"ou_u"}}}},
            "message":{{"message_type":"text","content":"{{\"text\":\"{text}\"}}","chat_type":"p2p","chat_id":""}}}}}}"#
        );
        let (key, msg, _) = parse_permissive(payload.as_bytes()).expect("应解析成功");
        assert_eq!(msg.text.as_deref(), Some(text));
        key
    };
    let k1 = mk("hello");
    let k2 = mk("world");
    assert_ne!(k1, k2, "等长不同文本的回退 dedup key 必须不同");

    assert_eq!(k1, mk("hello"));
}

#[test]
fn content_hash_stable_and_distinct() {
    assert_eq!(content_hash("abc"), content_hash("abc"));
    assert_ne!(content_hash("abc"), content_hash("abd"));
}

#[test]
fn parse_reaction_event_real_device_payload() {
    let payload = br#"{"schema":"2.0","header":{"event_id":"evt_real1","event_type":"im.message.reaction.created_v1","token":"","create_time":"1787969732208","tenant_key":"t","app_id":"cli_x"},"event":{"action_time":"1787969732208","message_id":"om_x100b6610454b0ca4b1fa2d9aaef7004","operator_type":"user","reaction_type":{"emoji_type":"THUMBSUP"},"user_id":{"open_id":"ou_a0c072f42e7c1b0995b7fd4841b4671b"}}}"#;
    let (dedup, operator, mid, reply) =
        parse_reaction_event(payload).expect("真机形态应解析成功");
    assert_eq!(operator, "ou_a0c072f42e7c1b0995b7fd4841b4671b");
    assert_eq!(mid, "om_x100b6610454b0ca4b1fa2d9aaef7004");
    assert_eq!(reply, "y");
    assert_eq!(dedup, "evt_real1");

    let as_str = |b: &[u8]| String::from_utf8(b.to_vec()).unwrap();
    let dn = as_str(payload).replace("THUMBSUP", "THUMBSDOWN");
    assert!(parse_reaction_event(dn.as_bytes())
        .map(|(_, _, _, r)| r == "n")
        .unwrap_or(false));
    let wave = as_str(payload).replace("THUMBSUP", "WAVE");
    assert!(parse_reaction_event(wave.as_bytes()).is_none());
}

#[test]
fn parse_reaction_event_maps_thumbs() {
    let mk = |emoji: &str| {
        obj(vec![
            ("header", obj(vec![
                ("event_id", Value::from("evt_r1")),
                ("event_type", Value::from("im.message.reaction.created_v1")),
            ])),
            ("event", obj(vec![
                ("operator_id", obj(vec![("open_id", Value::from("ou_op"))])),
                ("reaction", obj(vec![
                    ("emoji_key", Value::from(emoji)),
                    ("message_id", Value::from("om_card1")),
                ])),
            ])),
        ])
        .to_string()
        .into_bytes()
    };
    let (key, operator, msg_id, reply) =
        parse_reaction_event(&mk("THUMBSUP")).expect("👍 应映射 y");
    assert_eq!(key, "evt_r1");
    assert_eq!(operator, "ou_op");
    assert_eq!(msg_id, "om_card1");
    assert_eq!(reply, "y");
    let (_, _, _, reply) = parse_reaction_event(&mk("THUMBSDOWN")).expect("👎 应映射 n");
    assert_eq!(reply, "n");

    assert!(parse_reaction_event(&mk("SMILE")).is_none());
    let bad_msg = obj(vec![
        ("header", obj(vec![("event_type", Value::from("im.message.reaction.created_v1"))])),
        ("event", obj(vec![
            ("operator_id", obj(vec![("open_id", Value::from("ou_op"))])),
            ("reaction", obj(vec![
                ("emoji_key", Value::from("THUMBSUP")),
                ("message_id", Value::from("not-om")),
            ])),
        ])),
    ])
    .to_string()
    .into_bytes();
    assert!(parse_reaction_event(&bad_msg).is_none());
    let other_evt = obj(vec![
        ("header", obj(vec![("event_type", Value::from("im.message.receive_v1"))])),
        ("event", obj(vec![
            ("operator_id", obj(vec![("open_id", Value::from("ou_op"))])),
            ("reaction", obj(vec![
                ("emoji_key", Value::from("THUMBSUP")),
                ("message_id", Value::from("om_1")),
            ])),
        ])),
    ])
    .to_string()
    .into_bytes();
    assert!(parse_reaction_event(&other_evt).is_none());
}

#[test]
fn parse_bot_added_event_extracts_chat() {
    let payload = br#"{
        "header":{"event_id":"evt_add1","event_type":"im.chat.member.bot.added_v1"},
        "event":{"chat_id":"oc_group1"}
    }"#;
    let (key, chat) = parse_bot_added_event(payload).expect("进群事件应解析");
    assert_eq!(key, "evt_add1");
    assert_eq!(chat, "oc_group1");

    let nested = br#"{
        "header":{"event_type":"im.chat.member.bot.added_v1"},
        "event":{"chat":{"chat_id":"oc_g2"}}
    }"#;
    let (_, chat) = parse_bot_added_event(nested).expect("内嵌形态应解析");
    assert_eq!(chat, "oc_g2");

    let bad = br#"{"header":{"event_type":"im.chat.member.bot.added_v1"},"event":{"chat_id":"ou_x"}}"#;
    assert!(parse_bot_added_event(bad).is_none());
    let other =
        br#"{"header":{"event_type":"im.message.receive_v1"},"event":{"chat_id":"oc_x"}}"#;
    assert!(parse_bot_added_event(other).is_none());
}

#[test]
fn ignore_other_event_type() {
    let payload = br#"{
        "header":{"event_id":"evt_x","event_type":"application.url.menu_v6"},
        "event":{"sender":{"sender_id":{"open_id":"ou_x"}},"message":{"message_type":"text","content":"{\"text\":\"hi\"}","chat_type":"p2p"}}
    }"#;
    assert!(parse_permissive(payload).is_none());
}

#[test]
fn audio_parses_and_video_drops() {
    let payload = br#"{
        "header":{"event_id":"evt_a","event_type":"im.message.receive_v1"},
        "event":{"sender":{"sender_id":{"open_id":"ou_x"}},"message":{"message_type":"audio","content":"{\"file_key\":\"aud_k1\"}","chat_type":"p2p"}}
    }"#;
    let (_key, msg, pending) = parse_permissive(payload).expect("语音应解析（转写在 drain）");
    assert_eq!(pending.len(), 1);
    assert_eq!(pending[0].kind, "audio");
    assert_eq!(pending[0].key, "aud_k1");
    assert!(msg.text.is_none(), "proto 阶段无文本（转写后回填）");
    let video = br#"{
        "header":{"event_id":"evt_v","event_type":"im.message.receive_v1"},
        "event":{"sender":{"sender_id":{"open_id":"ou_x"}},"message":{"message_type":"video","content":"{}","chat_type":"p2p"}}
    }"#;
    assert!(parse_permissive(video).is_none(), "video 仍不支持");
}

#[test]
fn parse_p2p_image() {
    let payload = br#"{
        "header":{"event_id":"evt_img","event_type":"im.message.receive_v1"},
        "event":{"sender":{"sender_id":{"open_id":"ou_user1"}},"message":{"message_type":"image","content":"{\"image_key\":\"img_v3_00ab\"}","chat_type":"p2p"}}
    }"#;
    let (key, msg, pending) = parse_permissive(payload).expect("图片应解析成功");
    assert_eq!(key, "evt_img");
    assert_eq!(msg.conv_id.0, "feishu:ou_user1");
    assert_eq!(msg.sender.0, "ou_user1");
    assert!(msg.text.is_none(), "图片消息无文本");
    assert!(
        msg.media.is_empty(),
        "media 由 platform 层回填，proto 阶段为空"
    );
    assert_eq!(pending.len(), 1);
    assert_eq!(pending[0].kind, "image");
    assert_eq!(pending[0].key, "img_v3_00ab");
}

#[test]
fn parse_p2p_file() {
    let content = obj(vec![
        ("file_key", Value::from("file_v3_001")),
        ("file_name", Value::from("报告.pdf")),
    ]);
    let payload = obj(vec![
        ("header", obj(vec![
            ("event_id", Value::from("evt_file")),
            ("event_type", Value::from("im.message.receive_v1")),
        ])),
        ("event", obj(vec![
            ("sender", obj(vec![("sender_id", obj(vec![("open_id", Value::from("ou_user2"))]))])),
            ("message", obj(vec![
                ("message_type", Value::from("file")),
                ("content", Value::from(content.to_string())),
                ("chat_type", Value::from("p2p")),
            ])),
        ])),
    ])
    .to_string()
    .into_bytes();
    let (key, msg, pending) = parse_permissive(&payload).expect("文件应解析成功");
    assert_eq!(key, "evt_file");
    assert_eq!(msg.conv_id.0, "feishu:ou_user2");
    assert!(msg.text.is_none());
    assert!(msg.media.is_empty());
    assert_eq!(pending.len(), 1);
    assert_eq!(pending[0].kind, "file");
    assert_eq!(pending[0].key, "file_v3_001");
    assert_eq!(pending[0].file_name.as_deref(), Some("报告.pdf"));
}

#[test]
fn ignore_image_missing_key() {
    let payload = br#"{
        "header":{"event_id":"e","event_type":"im.message.receive_v1"},
        "event":{"sender":{"sender_id":{"open_id":"ou_x"}},"message":{"message_type":"image","content":"{}","chat_type":"p2p"}}
    }"#;
    assert!(parse_permissive(payload).is_none());
}

#[test]
fn ignore_image_invalid_content_json() {
    let payload = br#"{"header":{"event_id":"e","event_type":"im.message.receive_v1"},
        "event":{"sender":{"sender_id":{"open_id":"ou_x"}},"message":{"message_type":"image","content":"not-json","chat_type":"p2p"}}}"#;
    assert!(parse_permissive(payload).is_none());
}

#[test]
fn image_dedup_fallback() {
    let p1 = br#"{"header":{"event_type":"im.message.receive_v1"},
        "event":{"sender":{"sender_id":{"open_id":"ou_x"}},"message":{"message_type":"image","content":"{\"image_key\":\"img_k1\"}","chat_type":"p2p","message_id":"om_img1"}}}"#;
    let (key, _, _) = parse_permissive(p1).expect("应解析成功");
    assert_eq!(key, "om_img1");

    let p2 = br#"{"header":{"event_type":"im.message.receive_v1"},
        "event":{"sender":{"sender_id":{"open_id":"ou_x"}},"message":{"message_type":"image","content":"{\"image_key\":\"img_k2\"}","chat_type":"p2p"}}}"#;
    let (key2, _, _) = parse_permissive(p2).expect("应解析成功");
    assert_eq!(key2, "ou_x:img_k2");
}

#[test]
fn ignore_empty_text() {
    let empty = br#"{"header":{"event_id":"e","event_type":"im.message.receive_v1"},
        "event":{"sender":{"sender_id":{"open_id":"ou_x"}},"message":{"message_type":"text","content":"{\"text\":\"\"}","chat_type":"p2p"}}}"#;
    assert!(parse_permissive(empty).is_none());

    let ws = br#"{"header":{"event_id":"e","event_type":"im.message.receive_v1"},
        "event":{"sender":{"sender_id":{"open_id":"ou_x"}},"message":{"message_type":"text","content":"{\"text\":\"   \"}","chat_type":"p2p"}}}"#;
    assert!(parse_permissive(ws).is_none());
}

#[test]
fn ignore_invalid_json() {
    assert!(parse_permissive(b"not json at all").is_none());
    assert!(parse_permissive(b"").is_none());
}

#[test]
fn ignore_invalid_content_json() {
    let payload = br#"{"header":{"event_id":"e","event_type":"im.message.receive_v1"},
        "event":{"sender":{"sender_id":{"open_id":"ou_x"}},"message":{"message_type":"text","content":"not-json","chat_type":"p2p"}}}"#;
    assert!(parse_permissive(payload).is_none());
}

#[test]
fn dedup_key_falls_back_to_message_id() {
    let payload = br#"{
        "header":{"event_type":"im.message.receive_v1"},
        "event":{"sender":{"sender_id":{"open_id":"ou_user9"}},"message":{"message_type":"text","content":"{\"text\":\"hi\"}","chat_type":"p2p","message_id":"om_fb"}}
    }"#;
    let (key, _, _) = parse_permissive(payload).expect("应解析成功");
    assert_eq!(key, "om_fb");
}

#[test]
fn proto_conv_roundtrip() {
    let (id, kind) = receive_target_from_conv(&ConvId("feishu:ou_abc".into())).unwrap();
    assert_eq!(id, "ou_abc");
    assert_eq!(kind, ReceiveIdKind::OpenId);

    let (id, kind) = receive_target_from_conv(&ConvId("feishu:oc_def".into())).unwrap();
    assert_eq!(id, "oc_def");
    assert_eq!(kind, ReceiveIdKind::ChatId);

    let (id, kind) = receive_target_from_conv(&ConvId("feishu:other".into())).unwrap();
    assert_eq!(id, "other");
    assert_eq!(kind, ReceiveIdKind::ChatId);

    assert!(receive_target_from_conv(&ConvId("wecom:x".into())).is_none());
}

#[test]
fn extract_text_works() {
    assert_eq!(
        extract_text(r#"{"text":"hello"}"#),
        Some("hello".to_string())
    );
    assert_eq!(extract_text("not json"), None);
    assert_eq!(extract_text(""), None);
}

#[test]
fn parse_p2p_post_image_text() {
    let payload = r#"{
        "header":{"event_id":"evt_post","event_type":"im.message.receive_v1"},
        "event":{"sender":{"sender_id":{"open_id":"ou_user1"}},"message":{"message_type":"post","content":"{\"title\":\"\",\"content\":[[{\"tag\":\"img\",\"image_key\":\"img_v3_abc\",\"width\":539,\"height\":317}],[{\"tag\":\"text\",\"text\":\"你能给我描述一下这张图片吗？\",\"style\":[]}]]}","chat_type":"p2p"}}
    }"#;
    let (key, msg, pending) =
        parse_permissive(payload.as_bytes()).expect("post 图片+文字应解析成功");
    assert_eq!(key, "evt_post");
    assert_eq!(msg.text.as_deref(), Some("你能给我描述一下这张图片吗？"));
    assert_eq!(pending.len(), 1);
    assert_eq!(pending[0].kind, "image");
    assert_eq!(pending[0].key, "img_v3_abc");
}

#[test]
fn parse_p2p_post_image_only() {
    let payload = r#"{
        "header":{"event_type":"im.message.receive_v1"},
        "event":{"sender":{"sender_id":{"open_id":"ou_u"}},"message":{"message_type":"post","content":"{\"content\":[[{\"tag\":\"img\",\"image_key\":\"img_only\"}]]}","chat_type":"p2p","message_id":"om_p"}}
    }"#;
    let (key, msg, pending) = parse_permissive(payload.as_bytes()).expect("纯图片 post 应解析");
    assert_eq!(key, "om_p");
    assert!(msg.text.is_none(), "纯图片 post 无正文");
    assert_eq!(pending.len(), 1);
    assert_eq!(pending[0].key, "img_only");
}

#[test]
fn parse_p2p_post_text_only() {
    let payload = r#"{
        "header":{"event_id":"e","event_type":"im.message.receive_v1"},
        "event":{"sender":{"sender_id":{"open_id":"ou_u"}},"message":{"message_type":"post","content":"{\"content\":[[{\"tag\":\"text\",\"text\":\"hello post\"}]]}","chat_type":"p2p"}}
    }"#;
    let (_key, msg, pending) =
        parse_permissive(payload.as_bytes()).expect("纯文字 post 应解析");
    assert_eq!(msg.text.as_deref(), Some("hello post"));
    assert!(pending.is_empty(), "纯文字 post 无图片");
}

#[test]
fn ignore_empty_post() {
    let payload = br#"{
        "header":{"event_id":"e","event_type":"im.message.receive_v1"},
        "event":{"sender":{"sender_id":{"open_id":"ou_u"}},"message":{"message_type":"post","content":"{\"content\":[]}","chat_type":"p2p"}}
    }"#;
    assert!(parse_permissive(payload).is_none());
}

#[test]
fn parse_card_action_allow_and_deny() {
    let mk = |act: &str| {
        obj(vec![
            ("schema", Value::from("2.0")),
            ("header", obj(vec![
                ("event_id", Value::from("evt_btn_1")),
                ("event_type", Value::from("card.action.trigger")),
            ])),
            ("event", obj(vec![
                ("operator", obj(vec![("operator_id", obj(vec![("open_id", Value::from("ou_op"))]))])),
                ("action", obj(vec![
                    ("tag", Value::from("button")),
                    ("value", obj(vec![
                        ("imagent_perm", Value::from(act)),
                        ("conv", Value::from("feishu:ou_op")),
                    ])),
                ])),
            ])),
        ])
        .to_string()
        .into_bytes()
    };
    let (key, msg, _) = parse_card_action_event(&mk("allow")).expect("allow 应回调");
    assert_eq!(key, "evt_btn_1");
    assert_eq!(msg.conv_id.0, "feishu:ou_op");
    assert_eq!(msg.sender.0, "ou_op");
    assert_eq!(msg.text.as_deref(), Some("y"));
    let (_, msg, _) = parse_card_action_event(&mk("deny")).expect("deny 应回调");
    assert_eq!(msg.text.as_deref(), Some("n"));
}

#[test]
fn card_action_dedup_fallback_uses_content_hash() {
    let mk = |cmd: &str, event_id: Option<&str>| {
        let mut header = obj(vec![("event_type", Value::from("card.action.trigger"))]);
        if let Some(id) = event_id {
            header["event_id"] = Value::from(id);
        }
        obj(vec![
            ("schema", Value::from("2.0")),
            ("header", Value::from(header)),
            ("event", obj(vec![
                ("operator", obj(vec![("operator_id", obj(vec![("open_id", Value::from("ou_op"))]))])),
                ("action", obj(vec![
                    ("tag", Value::from("button")),
                    ("value", obj(vec![
                        ("imagent_cmd", Value::from(cmd)),
                        ("conv", Value::from("feishu:ou_op")),
                    ])),
                ])),
            ])),
        ])
        .to_string()
        .into_bytes()
    };
    let long_a = format!("/do {} aaa", "x".repeat(60));
    let long_b = format!("/do {} bbb", "x".repeat(60));
    let (ka, _, _) = parse_card_action_event(&mk(&long_a, None)).expect("解析成功");
    let (kb, _, _) = parse_card_action_event(&mk(&long_b, None)).expect("解析成功");

    assert_ne!(ka, kb, "前缀相同的不同长命令不应同 key: {ka} vs {kb}");

    let (ka2, _, _) = parse_card_action_event(&mk(&long_a, None)).expect("解析成功");
    assert_eq!(ka, ka2);

    let (kid, _, _) = parse_card_action_event(&mk(&long_a, Some("evt_x"))).expect("解析成功");
    assert_eq!(kid, "evt_x");
}

#[test]
fn parse_card_action_form_submit() {
    let mk = |form_value: serde_json::Value| {
        obj(vec![
            ("schema", Value::from("2.0")),
            ("header", obj(vec![
                ("event_id", Value::from("evt_form_1")),
                ("event_type", Value::from("card.action.trigger")),
            ])),
            ("event", obj(vec![
                ("operator", obj(vec![("open_id", Value::from("ou_op"))])),
                ("action", obj(vec![
                    ("tag", Value::from("button")),
                    ("value", obj(vec![
                        ("imagent_form", Value::from("config")),
                        ("conv", Value::from("feishu:ou_op")),
                    ])),
                    ("form_value", Value::from(form_value)),
                ])),
            ])),
        ])
        .to_string()
        .into_bytes()
    };
    let (_, msg, _) = parse_card_action_event(&mk(obj(vec![
        ("reply_mode", Value::from("text")),
        ("cot_detail", Value::from("detailed")),
        ("extra_key", Value::from("evil")),
    ])))
    .expect("表单提交应回调");
    assert_eq!(
        msg.text.as_deref(),
        Some("/config form reply_mode=text cot_detail=detailed"),
        "白名单键按序拼接、白名单外丢弃: {:?}",
        msg.text
    );
    assert_eq!(msg.sender.0, "ou_op");

    assert!(parse_card_action_event(&mk(obj(vec![]))).is_none());

    let no_fv = obj(vec![
        ("schema", Value::from("2.0")),
        ("header", obj(vec![
            ("event_id", Value::from("evt_form_2")),
            ("event_type", Value::from("card.action.trigger")),
        ])),
        ("event", obj(vec![
            ("operator", obj(vec![("open_id", Value::from("ou_op"))])),
            ("action", obj(vec![
                ("tag", Value::from("button")),
                ("value", obj(vec![
                    ("imagent_form", Value::from("config")),
                    ("conv", Value::from("feishu:ou_op")),
                ])),
            ])),
        ])),
    ])
    .to_string()
    .into_bytes();
    assert!(parse_card_action_event(&no_fv).is_none());
}

#[test]
fn parse_card_action_ask_form_submit() {
    let mk = |form_value: serde_json::Value| {
        obj(vec![
            ("schema", Value::from("2.0")),
            ("header", obj(vec![
                ("event_id", Value::from("evt_ask_form")),
                ("event_type", Value::from("card.action.trigger")),
            ])),
            ("event", obj(vec![
                ("operator", obj(vec![("open_id", Value::from("ou_op"))])),
                ("action", obj(vec![
                    ("tag", Value::from("button")),
                    ("value", obj(vec![
                        ("imagent_form", Value::from("ask")),
                        ("conv", Value::from("feishu:ou_op")),
                        ("req", Value::from("reqQ")),
                    ])),
                    ("form_value", Value::from(form_value)),
                ])),
            ])),
        ])
        .to_string()
        .into_bytes()
    };

    let (_, msg, _) = parse_card_action_event(&mk(obj(vec![("ask_opt", Value::from("方案2"))])))
        .expect("单选表单应回调");
    assert_eq!(msg.text.as_deref(), Some("ask:方案2"));
    assert_eq!(msg.ask_req.as_deref(), Some("reqQ"), "req 精确路由");
    assert_eq!(msg.conv_id.0, "feishu:ou_op");

    let (_, multi, _) = parse_card_action_event(&mk(obj(vec![("ask_opt", arr(vec![Value::from("数据库迁移"), Value::from("接口改造")]))])))
    .expect("多选表单应回调");
    assert_eq!(
        multi.text.as_deref(),
        Some("ask:数据库迁移、接口改造"),
        "多选语义拼接: {:?}",
        multi.text
    );

    let (_, mq, _) = parse_card_action_event(&mk(obj(vec![("ask_opt_1", Value::from("是否备份=是")), ("ask_opt_0", Value::from("部署环境=测试环境"))])))
    .expect("多题表单应回调");
    assert_eq!(
        mq.text.as_deref(),
        Some("ask:部署环境=测试环境；是否备份=是"),
        "多题拼接（题序）: {:?}",
        mq.text
    );

    let (_, mqm, _) = parse_card_action_event(&mk(obj(vec![
        ("ask_opt_0", Value::from("环境=测试")),
        ("ask_opt_1", arr(vec![Value::from("范围=前端"), Value::from("范围=后端")])),
    ])))
    .expect("多题多选应回调");
    assert_eq!(
        mqm.text.as_deref(),
        Some("ask:环境=测试；范围=前端、范围=后端")
    );

    let (_, mix, _) = parse_card_action_event(&mk(obj(vec![
        ("ask_opt_0", Value::from("部署环境=测试环境")),
        ("ask_opt_0_free", Value::from("  ")),
        ("ask_opt_1", Value::from("是否备份=是")),
        ("ask_opt_1_free", Value::from("先备份 db 再备份配置")),
    ])))
    .expect("混合应回调");
    assert_eq!(
        mix.text.as_deref(),
        Some("ask:部署环境=测试环境；先备份 db 再备份配置"),
        "free 优先且空串忽略: {:?}",
        mix.text
    );

    let (_, fonly, _) = parse_card_action_event(&mk(obj(vec![
        ("ask_opt_0", Value::from("备份策略=执行备份")),
        ("ask_opt_1", Value::from("执行时机=等待窗口期")),
        ("ask_opt_2_free", Value::from("目标环境用预发环境")),
        ("ask_opt_3_free", Value::from("团队通知发研发群")),
    ])))
    .expect("仅 free 的题应回调");
    assert_eq!(
        fonly.text.as_deref(),
        Some("ask:备份策略=执行备份；执行时机=等待窗口期；目标环境用预发环境；团队通知发研发群"),
        "free-only 题不因选项键缺席而漏: {:?}",
        fonly.text
    );

    let (_, real, _) = parse_card_action_event(&mk(obj(vec![
        ("ask_opt_0_free", Value::from("我需要发布到开发环境")),
        ("ask_opt_1", Value::from("是否备份=执行备份")),
        ("ask_opt_1_free", Value::from("")),
        ("ask_opt_2_free", Value::from("通知给对应用户")),
        ("ask_opt_3", Value::from("执行时机=等待窗口期")),
        ("ask_opt_3_free", Value::from("")),
    ])))
    .expect("真机形态应回调");
    assert_eq!(
        real.text.as_deref(),
        Some("ask:我需要发布到开发环境；是否备份=执行备份；通知给对应用户；执行时机=等待窗口期"),
        "真机载荷回放: {:?}",
        real.text
    );
    assert!(parse_card_action_event(&mk(obj(vec![("ask_opt", arr(vec![]))]))).is_none());
    assert!(parse_card_action_event(&mk(obj(vec![]))).is_none());
}

#[test]
fn parse_card_action_flat_operator_envelope() {
    let payload = obj(vec![
        ("schema", Value::from("2.0")),
        ("header", obj(vec![
            ("event_id", Value::from("evt_flat_1")),
            ("event_type", Value::from("card.action.trigger")),
            ("token", Value::from("t")),
            ("create_time", Value::from("1787363803096225")),
            ("tenant_key", Value::from("tk")),
            ("app_id", Value::from("cli_x")),
        ])),
        ("event", obj(vec![
            ("operator", obj(vec![
                ("tenant_key", Value::from("tk")),
                ("open_id", Value::from("ou_real")),
                ("union_id", Value::from("on_x")),
            ])),
            ("action", obj(vec![
                ("tag", Value::from("button")),
                ("value", obj(vec![
                    ("imagent_perm", Value::from("allow")),
                    ("conv", Value::from("feishu:ou_real")),
                ])),
            ])),
        ])),
    ])
    .to_string()
    .into_bytes();
    let (key, msg, _) = parse_card_action_event(&payload).expect("平铺 operator 应可解析");
    assert_eq!(key, "evt_flat_1");
    assert_eq!(msg.sender.0, "ou_real");
    assert_eq!(msg.conv_id.0, "feishu:ou_real");
    assert_eq!(msg.text.as_deref(), Some("y"));
}

#[test]

fn parse_card_action_question_option_to_ask_text() {
    let payload = obj(vec![
        ("header", obj(vec![
            ("event_id", Value::from("evt_ask_1")),
            ("event_type", Value::from("card.action.trigger")),
        ])),
        ("event", obj(vec![
            ("operator", obj(vec![("open_id", Value::from("ou_q"))])),
            ("action", obj(vec![
                ("tag", Value::from("button")),
                ("value", obj(vec![
                    ("imagent_ask", Value::from("数据库迁移")),
                    ("conv", Value::from("feishu:ou_q")),
                ])),
            ])),
        ])),
    ])
    .to_string()
    .into_bytes();
    let (key, msg, _) = parse_card_action_event(&payload).expect("选项回调应可解析");
    assert_eq!(key, "evt_ask_1");
    assert_eq!(msg.text.as_deref(), Some("ask:数据库迁移"));
    assert_eq!(msg.conv_id.0, "feishu:ou_q");
}

#[test]
fn card_action_always_button_maps_to_always_word() {
    let payload = br#"{
        "header": {"event_type": "card.action.trigger", "event_id": "e-always"},
        "event": {
            "action": {"tag": "button", "value": {
                "imagent_perm": "always", "conv": "feishu:ou_a", "req": "p-1"
            }},
            "operator": {"open_id": "ou_op"}
        }
    }"#;
    let (_, msg, _) = parse_card_action_event(payload).expect("always 回调应解析");
    assert_eq!(msg.text.as_deref(), Some("always"));
    assert_eq!(msg.ask_req.as_deref(), Some("p-1"), "req 精确路由");
}

#[test]
fn parse_card_action_carries_request_id() {
    let with_req = obj(vec![
        ("header", obj(vec![
            ("event_id", Value::from("evt_req_1")),
            ("event_type", Value::from("card.action.trigger")),
        ])),
        ("event", obj(vec![
            ("operator", obj(vec![("open_id", Value::from("ou_r"))])),
            ("action", obj(vec![
                ("tag", Value::from("button")),
                ("value", obj(vec![
                    ("imagent_ask", Value::from("选项A")),
                    ("conv", Value::from("feishu:ou_r")),
                    ("req", Value::from("t-abc123")),
                ])),
            ])),
        ])),
    ])
    .to_string()
    .into_bytes();
    let (_, msg, _) = parse_card_action_event(&with_req).expect("应可解析");
    assert_eq!(msg.ask_req.as_deref(), Some("t-abc123"));

    let no_req = obj(vec![
        ("header", obj(vec![
            ("event_id", Value::from("evt_req_2")),
            ("event_type", Value::from("card.action.trigger")),
        ])),
        ("event", obj(vec![
            ("operator", obj(vec![("open_id", Value::from("ou_r"))])),
            ("action", obj(vec![
                ("tag", Value::from("button")),
                ("value", obj(vec![
                    ("imagent_perm", Value::from("allow")),
                    ("conv", Value::from("feishu:ou_r")),
                ])),
            ])),
        ])),
    ])
    .to_string()
    .into_bytes();
    let (_, msg, _) = parse_card_action_event(&no_req).expect("应可解析");
    assert_eq!(msg.ask_req, None);
}

#[test]
fn parse_card_action_ignores_foreign_and_missing() {
    let not_card = br#"{"header":{"event_type":"im.message.receive_v1"},"event":{}}"#;
    assert!(parse_card_action_event(not_card).is_none());

    let no_conv = br#"{"header":{"event_id":"e","event_type":"card.action.trigger"},
        "event":{"operator":{"operator_id":{"open_id":"ou_x"}},"action":{"value":{"imagent_perm":"allow"}}}}"#;
    assert!(parse_card_action_event(no_conv).is_none());

    let unknown = br#"{"header":{"event_id":"e","event_type":"card.action.trigger"},
        "event":{"operator":{"operator_id":{"open_id":"ou_x"}},"action":{"value":{"imagent_perm":"maybe","conv":"feishu:ou_x"}}}}"#;
    assert!(parse_card_action_event(unknown).is_none());

    let no_op = br#"{"header":{"event_id":"e","event_type":"card.action.trigger"},
        "event":{"operator":{"operator_id":{}},"action":{"value":{"imagent_perm":"allow","conv":"feishu:ou_x"}}}}"#;
    assert!(parse_card_action_event(no_op).is_none());
}

#[test]
fn parse_card_action_command_button() {
    let mk = |cmd: &str| {
        obj(vec![
            ("header", obj(vec![
                ("event_id", Value::from("evt_cmd_1")),
                ("event_type", Value::from("card.action.trigger")),
            ])),
            ("event", obj(vec![
                ("operator", obj(vec![("open_id", Value::from("ou_op"))])),
                ("action", obj(vec![
                    ("tag", Value::from("button")),
                    ("value", obj(vec![
                        ("imagent_cmd", Value::from(cmd)),
                        ("conv", Value::from("feishu:oc_g")),
                    ])),
                ])),
            ])),
        ])
        .to_string()
        .into_bytes()
    };
    let (key, msg, _) = parse_card_action_event(&mk("/ws use main")).expect("命令按钮应回调");
    assert_eq!(key, "evt_cmd_1");
    assert_eq!(msg.conv_id.0, "feishu:oc_g");
    assert_eq!(msg.sender.0, "ou_op");
    assert_eq!(msg.text.as_deref(), Some("/ws use main"));

    assert!(parse_card_action_event(&mk("rm -rf /")).is_none());

    let legacy = br#"{"header":{"event_id":"evt_cmd_2","event_type":"card.action.trigger"},
        "event":{"operator":{"operator_id":{"open_id":"ou_o2"}},"action":{"value":{"imagent_cmd":"/resume 3","conv":"feishu:ou_o2"}}}}"#;
    let (_, msg, _) = parse_card_action_event(legacy).expect("旧信封命令按钮应回调");
    assert_eq!(msg.text.as_deref(), Some("/resume 3"));
}

#[test]
fn parse_comment_event_text_and_conv() {
    let payload = r#"{
        "schema":"2.0",
        "header":{"event_id":"evt_cm_1","event_type":"drive.file.comment.created_v1"},
        "event":{
            "comment_id":"7034abc",
            "file_token":"doxcnXYZ",
            "file_type":"docx",
            "content":[
                {"type":"at","user_id":"ou_bot","user_name":"agent"},
                {"type":"text","text":" 帮我总结这份文档"}
            ],
            "sender":{"sender_id":{"open_id":"ou_author"},"sender_type":"user"}
        }
    }"#;
    let (key, comment_id, msg) =
        parse_comment_event(payload.as_bytes(), Some("ou_bot")).expect("评论事件应解析");
    assert_eq!(key, "evt_cm_1");

    assert_eq!(msg.conv_id.0, "feishu:comment:doxcnXYZ");
    assert_eq!(msg.sender.0, "ou_author");
    assert_eq!(msg.text.as_deref(), Some(" 帮我总结这份文档"));

    assert_eq!(comment_id, "7034abc");

    let (ft, cid) = comment_target_from_conv(&msg.conv_id).unwrap();
    assert_eq!(ft, "doxcnXYZ");
    assert_eq!(cid, None);

    let (ft2, cid2) =
        comment_target_from_conv(&ConvId("feishu:comment:doxcnXYZ:7034abc".into())).unwrap();
    assert_eq!(ft2, "doxcnXYZ");
    assert_eq!(cid2.as_deref(), Some("7034abc"));
    assert!(is_comment_event(payload.as_bytes()));
}

#[test]
fn parse_comment_event_ignores_invalid() {
    let at_only = br#"{"header":{"event_id":"e","event_type":"drive.file.comment.created_v1"},
        "event":{"comment_id":"c1","file_token":"f1","content":[{"type":"at","user_id":"ou_b"}],"sender":{"sender_id":{"open_id":"ou_a"}}}}"#;
    assert!(parse_comment_event(at_only, Some("ou_bot")).is_none());

    let no_token = br#"{"header":{"event_id":"e","event_type":"drive.file.comment.created_v1"},
        "event":{"comment_id":"c1","content":[{"type":"text","text":"hi"}],"sender":{"sender_id":{"open_id":"ou_a"}}}}"#;
    assert!(parse_comment_event(no_token, Some("ou_bot")).is_none());

    let other = br#"{"header":{"event_type":"im.message.receive_v1"}}"#;
    assert!(parse_comment_event(other, Some("ou_bot")).is_none());
    assert!(!is_comment_event(other));

    assert!(comment_target_from_conv(&ConvId("feishu:ou_x".into())).is_none());
}

#[test]
fn parse_comment_event_requires_at_bot() {
    let mk = |content: &str, sender: &str| {
        format!(
            r#"{{"header":{{"event_id":"e","event_type":"drive.file.comment.created_v1"}},
            "event":{{"comment_id":"c1","file_token":"f1","content":{content},
            "sender":{{"sender_id":{{"open_id":"{sender}"}},"sender_type":"user"}}}}}}"#
        )
    };
    let text_node = r#"[{"type":"text","text":"总结一下"}]"#;

    assert!(parse_comment_event(mk(text_node, "ou_a").as_bytes(), Some("ou_bot")).is_none());

    let at_other = r#"[{"type":"at","user_id":"ou_other"},{"type":"text","text":"总结"}]"#;
    assert!(parse_comment_event(mk(at_other, "ou_a").as_bytes(), Some("ou_bot")).is_none());

    let at_bot = r#"[{"type":"at","user_id":"ou_bot"},{"type":"text","text":"收到"}]"#;
    assert!(parse_comment_event(mk(at_bot, "ou_bot").as_bytes(), Some("ou_bot")).is_none());

    assert!(parse_comment_event(mk(at_bot, "ou_a").as_bytes(), Some("ou_bot")).is_some());

    assert!(parse_comment_event(mk(text_node, "ou_a").as_bytes(), None).is_none());

    assert!(parse_comment_event(mk(at_other, "ou_a").as_bytes(), None).is_some());
}

fn mk_group_mention_payload(event_id: &str, text: &str, mentions: &str) -> Vec<u8> {
    obj(vec![
        ("header", obj(vec![
            ("event_id", Value::from(event_id)),
            ("event_type", Value::from("im.message.receive_v1")),
        ])),
        ("event", obj(vec![
            ("sender", obj(vec![("sender_id", obj(vec![("open_id", Value::from("ou_sender"))]))])),
            ("message", obj(vec![
                ("message_type", Value::from("text")),
                ("content", Value::from(serde_json::to_string(&obj(vec![("text", Value::from(text))])).unwrap())),
                ("chat_type", Value::from("group")),
                ("chat_id", Value::from("oc_g1")),
                ("mentions", Value::from(serde_json::from_str::<serde_json::Value>(mentions).unwrap())),
            ])),
            ("chat", obj(vec![("chat_id", Value::from("oc_g1"))])),
        ])),
    ])
    .to_string()
    .into_bytes()
}

const BOT_AND_USER_MENTIONS: &str = r#"[
    {"key":"@_user_1","id":{"open_id":"ou_bot"},"name":"agent"},
    {"key":"@_user_2","id":{"open_id":"ou_alice"},"name":"Alice"}
]"#;

#[test]
fn mention_strip_and_metadata() {
    let p = mk_group_mention_payload(
        "evt_m1",
        "@_user_1 帮我看看 @_user_2 写的代码",
        BOT_AND_USER_MENTIONS,
    );
    let (_k, msg, _) = parse_message_event(&p, &MentionPolicy::require_bot(), Some("ou_bot"))
        .expect("@bot 群消息应通过过滤");

    assert_eq!(msg.text.as_deref(), Some("帮我看看 @Alice 写的代码"));

    assert_eq!(msg.mentions.len(), 1);
    assert_eq!(msg.mentions[0].user_id, "ou_alice");
    assert_eq!(msg.mentions[0].name, "Alice");
}

#[test]
fn group_require_mention_filter() {
    let no_at = mk_group_mention_payload("evt_m2", "普通群消息", "[]");
    assert!(parse_message_event(&no_at, &MentionPolicy::require_bot(), Some("ou_bot")).is_none());

    let at_other = mk_group_mention_payload(
        "evt_m3",
        "@_user_2 在吗",
        r#"[{"key":"@_user_2","id":{"open_id":"ou_alice"},"name":"Alice"}]"#,
    );
    assert!(
        parse_message_event(&at_other, &MentionPolicy::require_bot(), Some("ou_bot")).is_none()
    );

    assert!(parse_permissive(&no_at).is_some());

    assert!(parse_message_event(&at_other, &MentionPolicy::require_bot(), None).is_some());

    assert!(parse_message_event(&no_at, &MentionPolicy::require_bot(), None).is_none());

    let p2p = br#"{
        "header":{"event_id":"evt_m4","event_type":"im.message.receive_v1"},
        "event":{"sender":{"sender_id":{"open_id":"ou_u"}},
            "message":{"message_type":"text","content":"{\"text\":\"@_user_1 hi\"}","chat_type":"p2p",
            "mentions":[{"key":"@_user_1","id":{"open_id":"ou_bot"},"name":"agent"}]}}
    }"#;
    let (_k, msg, _) = parse_message_event(p2p, &MentionPolicy::require_bot(), Some("ou_bot"))
        .expect("p2p 不受 @bot 过滤");
    assert_eq!(msg.text.as_deref(), Some("hi"));
}

#[test]
fn mention_only_bot_dropped_as_empty() {
    let p = mk_group_mention_payload(
        "evt_m5",
        "@_user_1",
        r#"[{"key":"@_user_1","id":{"open_id":"ou_bot"},"name":"agent"}]"#,
    );
    assert!(parse_message_event(&p, &MentionPolicy::require_bot(), Some("ou_bot")).is_none());
}

#[test]
fn post_at_nodes() {
    let content = serde_json::to_string(&obj(vec![
        ("content", arr(vec![
            arr(vec![
                obj(vec![
                    ("tag", Value::from("at")),
                    ("user_id", Value::from("ou_bot")),
                    ("user_name", Value::from("agent")),
                ]),
                obj(vec![
                    ("tag", Value::from("at")),
                    ("user_id", Value::from("ou_alice")),
                    ("user_name", Value::from("Alice")),
                ]),
                obj(vec![("tag", Value::from("text")), ("text", Value::from("看看这段"))]),
            ]),
        ])),
    ]))
    .unwrap();
    let payload = obj(vec![
        ("header", obj(vec![
            ("event_id", Value::from("evt_m6")),
            ("event_type", Value::from("im.message.receive_v1")),
        ])),
        ("event", obj(vec![
            ("sender", obj(vec![("sender_id", obj(vec![("open_id", Value::from("ou_u"))]))])),
            ("message", obj(vec![
                ("message_type", Value::from("post")),
                ("chat_type", Value::from("p2p")),
                ("content", Value::from(content)),
            ])),
        ])),
    ])
    .to_string()
    .into_bytes();
    let (_k, msg, pending) =
        parse_message_event(&payload, &MentionPolicy::permissive(), Some("ou_bot"))
            .expect("post at 节点应解析");

    assert_eq!(msg.text.as_deref(), Some("@Alice\n看看这段"));
    assert!(pending.is_empty());
    assert_eq!(msg.mentions.len(), 1);
    assert_eq!(msg.mentions[0].user_id, "ou_alice");
}

#[test]
fn group_message_event_predicate() {
    let group = mk_group_mention_payload("e", "x", "[]");
    assert!(is_group_message_event(&group));
    let p2p = br#"{"header":{"event_type":"im.message.receive_v1"},
        "event":{"sender":{"sender_id":{"open_id":"ou_u"}},"message":{"message_type":"text","content":"{\"text\":\"x\"}","chat_type":"p2p"}}}"#;
    assert!(!is_group_message_event(p2p));
    assert!(!is_group_message_event(b"not json"));
    let comment = br#"{"header":{"event_type":"drive.file.comment.created_v1"}}"#;
    assert!(!is_group_message_event(comment));
}

#[test]
fn thread_conv_isolation() {
    let mk = |root: Option<&str>| {
        let mut message = obj(vec![
            ("message_type", Value::from("text")),
            ("content", Value::from("{\"text\":\"话题消息\"}")),
            ("chat_type", Value::from("group")),
            ("chat_id", Value::from("oc_g1")),
            ("message_id", Value::from("om_child")),
        ]);
        if let Some(r) = root {
            message["root_id"] = Value::from(r);
        }
        obj(vec![
            ("header", obj(vec![
                ("event_id", Value::from("evt_t")),
                ("event_type", Value::from("im.message.receive_v1")),
            ])),
            ("event", obj(vec![
                ("sender", obj(vec![("sender_id", obj(vec![("open_id", Value::from("ou_s"))]))])),
                ("message", Value::from(message)),
                ("chat", obj(vec![("chat_id", Value::from("oc_g1"))])),
            ])),
        ])
        .to_string()
        .into_bytes()
    };

    let (_k, msg, _) =
        parse_message_event(&mk(Some("om_root1")), &MentionPolicy::permissive(), None)
            .expect("话题消息应解析");
    assert_eq!(msg.conv_id.0, "feishu:oc_g1:om_root1");

    let (_k, msg, _) =
        parse_message_event(&mk(None), &MentionPolicy::permissive(), None).expect("普通群应解析");
    assert_eq!(msg.conv_id.0, "feishu:oc_g1");

    let (id, kind) = receive_target_from_conv(&ConvId("feishu:oc_g1:om_root1".into())).unwrap();
    assert_eq!(id, "oc_g1");
    assert_eq!(kind, ReceiveIdKind::ChatId);

    assert_eq!(
        thread_target_from_conv(&ConvId("feishu:oc_g1:om_root1".into())),
        Some(("oc_g1".into(), "om_root1".into()))
    );
    assert!(thread_target_from_conv(&ConvId("feishu:oc_g1".into())).is_none());
    assert!(
        thread_target_from_conv(&ConvId("feishu:comment:dox:c1".into())).is_none(),
        "评论 conv 第二段非 om_ 前缀，不应误判为话题"
    );
}

#[test]
fn mentioned_bot_flag_semantics() {
    let mk = |chat_type: &str, mentions: &str| {
        obj(vec![
            ("header", obj(vec![
                ("event_id", Value::from("e")),
                ("event_type", Value::from("im.message.receive_v1")),
            ])),
            ("event", obj(vec![
                ("sender", obj(vec![("sender_id", obj(vec![("open_id", Value::from("ou_s"))]))])),
                ("message", obj(vec![
                    ("message_type", Value::from("text")),
                    ("content", Value::from("{\"text\":\"x\"}")),
                    ("chat_type", Value::from(chat_type)),
                    ("chat_id", Value::from("oc_g1")),
                    ("mentions", Value::from(serde_json::from_str::<serde_json::Value>(mentions).unwrap())),
                ])),
                ("chat", obj(vec![("chat_id", Value::from("oc_g1"))])),
            ])),
        ])
        .to_string()
        .into_bytes()
    };
    let at_bot = r#"[{"key":"@_user_1","id":{"open_id":"ou_bot"},"name":"agent"}]"#;
    let at_other = r#"[{"key":"@_user_1","id":{"open_id":"ou_x"},"name":"x"}]"#;

    let (_, m, _) = parse_message_event(
        &mk("group", at_bot),
        &MentionPolicy::permissive(),
        Some("ou_bot"),
    )
    .expect("应解析");
    assert!(m.mentioned_bot, "群 @bot 应为 true");

    let (_, m, _) = parse_message_event(
        &mk("group", at_other),
        &MentionPolicy::permissive(),
        Some("ou_bot"),
    )
    .expect("应解析");
    assert!(!m.mentioned_bot, "群 @他人应为 false");

    let (_, m, _) = parse_message_event(
        &mk("p2p", at_bot),
        &MentionPolicy::permissive(),
        Some("ou_bot"),
    )
    .expect("应解析");
    assert!(!m.mentioned_bot, "p2p 恒 false");

    let (_, m, _) = parse_message_event(&mk("group", at_bot), &MentionPolicy::permissive(), None)
        .expect("应解析");
    assert!(!m.mentioned_bot, "bot id 未知应为 false");
}

#[test]
fn command_button_expiry() {
    let now = std::time::SystemTime::now()
        .duration_since(std::time::UNIX_EPOCH)
        .unwrap()
        .as_secs() as i64;
    let mk = |ts: Option<i64>, conv: &str| {
        let mut value = obj(vec![("imagent_cmd", Value::from("/ws use main")), ("conv", Value::from(conv))]);
        if let Some(t) = ts {
            value["ts"] = Value::from(t);
        }
        obj(vec![
            ("header", obj(vec![
                ("event_id", Value::from("evt_exp")),
                ("event_type", Value::from("card.action.trigger")),
            ])),
            ("event", obj(vec![
                ("operator", obj(vec![("open_id", Value::from("ou_op"))])),
                ("action", obj(vec![("tag", Value::from("button")), ("value", Value::from(value))])),
            ])),
        ])
        .to_string()
        .into_bytes()
    };

    let (_, msg, deny) =
        parse_card_action_event(&mk(Some(now - CMD_BUTTON_TTL_SECS - 3600), "feishu:ou_op"))
            .expect("应解析");
    assert!(
        deny.as_deref().is_some_and(|d| d.contains("已过期")),
        "{deny:?}"
    );
    assert!(msg.text.is_none(), "过期不得注入命令文本");

    let (_, msg, deny) =
        parse_card_action_event(&mk(Some(now - 3600), "feishu:ou_op")).expect("应解析");
    assert!(deny.is_none());
    assert_eq!(msg.text.as_deref(), Some("/ws use main"));

    let (_, msg, deny) = parse_card_action_event(&mk(None, "feishu:ou_op")).expect("应解析");
    assert!(deny.is_none());
    assert_eq!(msg.text.as_deref(), Some("/ws use main"));
}

#[test]
fn command_button_sender_guard() {
    let mk = |sender: Option<&str>, conv: &str, operator: &str| {
        let mut value = obj(vec![("imagent_cmd", Value::from("/stop")), ("conv", Value::from(conv))]);
        if let Some(s) = sender {
            value["sender"] = Value::from(s);
        }
        obj(vec![
            ("header", obj(vec![
                ("event_id", Value::from("evt_snd")),
                ("event_type", Value::from("card.action.trigger")),
            ])),
            ("event", obj(vec![
                ("operator", obj(vec![("open_id", Value::from(operator))])),
                ("action", obj(vec![("tag", Value::from("button")), ("value", Value::from(value))])),
            ])),
        ])
        .to_string()
        .into_bytes()
    };

    let (_, _, deny) =
        parse_card_action_event(&mk(Some("ou_owner"), "feishu:oc_g", "ou_other"))
            .expect("应解析");
    assert!(
        deny.as_deref().is_some_and(|d| d.contains("仅发起者")),
        "{deny:?}"
    );

    let (_, msg, deny) =
        parse_card_action_event(&mk(Some("ou_owner"), "feishu:oc_g", "ou_owner"))
            .expect("应解析");
    assert!(deny.is_none());
    assert_eq!(msg.text.as_deref(), Some("/stop"));

    let (_, _, deny) =
        parse_card_action_event(&mk(Some("ou_owner"), "feishu:ou_x", "ou_other"))
            .expect("应解析");
    assert!(deny.is_none(), "私聊不校验: {deny:?}");

    assert!(!is_private_conv("feishu:oc_g:om_root"));
    assert!(is_private_conv("feishu:ou_x"));

    let (_, _, deny) =
        parse_card_action_event(&mk(None, "feishu:oc_g", "ou_any")).expect("应解析");
    assert!(deny.is_none(), "旧卡兼容: {deny:?}");
}

#[test]
fn card_action_conv_prefix_guard() {
    let payload = obj(vec![
        ("header", obj(vec![
            ("event_id", Value::from("e")),
            ("event_type", Value::from("card.action.trigger")),
        ])),
        ("event", obj(vec![
            ("operator", obj(vec![("open_id", Value::from("ou_op"))])),
            ("action", obj(vec![
                ("value", obj(vec![
                    ("imagent_perm", Value::from("allow")),
                    ("conv", Value::from("wecom:evil")),
                ])),
            ])),
        ])),
    ])
    .to_string()
    .into_bytes();
    assert!(parse_card_action_event(&payload).is_none());
}

#[test]
fn thread_key_extraction() {
    let mk = |chat_type: &str, root: Option<&str>, chat_id: &str| {
        let mut message = obj(vec![
            ("message_type", Value::from("text")),
            ("content", Value::from("{\"text\":\"x\"}")),
            ("chat_type", Value::from(chat_type)),
            ("chat_id", Value::from(chat_id)),
        ]);
        if let Some(r) = root {
            message["root_id"] = Value::from(r);
        }
        obj(vec![
            ("header", obj(vec![("event_type", Value::from("im.message.receive_v1"))])),
            ("event", obj(vec![
                ("sender", obj(vec![("sender_id", obj(vec![("open_id", Value::from("ou_s"))]))])),
                ("message", Value::from(message)),
                ("chat", obj(vec![("chat_id", Value::from(chat_id))])),
            ])),
        ])
        .to_string()
        .into_bytes()
    };
    assert_eq!(
        thread_key_of_payload(&mk("group", Some("om_root1"), "oc_g1")).as_deref(),
        Some("feishu:oc_g1:om_root1")
    );

    assert!(thread_key_of_payload(&mk("group", None, "oc_g1")).is_none());

    assert!(thread_key_of_payload(&mk("group", Some("xx_root"), "oc_g1")).is_none());

    assert!(thread_key_of_payload(&mk("p2p", Some("om_root1"), "")).is_none());
}

#[test]
fn unsupported_message_notice_kinds() {
    let mk = |mt: &str, chat_type: &str, mentions: &str| {
        obj(vec![
            ("header", obj(vec![("event_type", Value::from("im.message.receive_v1"))])),
            ("event", obj(vec![
                ("sender", obj(vec![("sender_id", obj(vec![("open_id", Value::from("ou_u"))]))])),
                ("message", obj(vec![
                    ("message_type", Value::from(mt)),
                    ("content", Value::from("{}")),
                    ("chat_type", Value::from(chat_type)),
                    ("chat_id", Value::from("oc_g")),
                    ("mentions", Value::from(serde_json::from_str::<serde_json::Value>(mentions).unwrap())),
                ])),
                ("chat", obj(vec![("chat_id", Value::from("oc_g"))])),
            ])),
        ])
        .to_string()
        .into_bytes()
    };

    assert!(unsupported_message_notice(&mk("audio", "p2p", "[]")).is_none());
    let (notice, conv) =
        unsupported_message_notice(&mk("share_chat", "p2p", "[]")).expect("群名片应提示");
    assert!(notice.contains("分享卡片"), "{notice}");
    assert_eq!(conv.unwrap().0, "feishu:ou_u");
    let (notice, _) =
        unsupported_message_notice(&mk("share_user", "p2p", "[]")).expect("用户名片应提示");
    assert!(notice.contains("名片"), "{notice}");

    let (_, conv) = unsupported_message_notice(&mk(
        "share_chat",
        "group",
        r#"[{"key":"@_user_1","id":{"open_id":"ou_bot"}}]"#,
    ))
    .expect("群 @ 分享应提示");
    assert_eq!(conv.unwrap().0, "feishu:oc_g");

    assert!(unsupported_message_notice(&mk("share_chat", "group", "[]")).is_none());

    assert!(unsupported_message_notice(&mk("text", "p2p", "[]")).is_none());

    assert!(unsupported_message_notice(&mk("image", "p2p", "[]")).is_none());
}

#[test]
fn unsupported_message_notice_rich_media_kinds() {
    let mk = |mt: &str| {
        obj(vec![
            ("header", obj(vec![("event_type", Value::from("im.message.receive_v1"))])),
            ("event", obj(vec![
                ("sender", obj(vec![("sender_id", obj(vec![("open_id", Value::from("ou_u"))]))])),
                ("message", obj(vec![
                    ("message_type", Value::from(mt)),
                    ("content", Value::from("{}")),
                    ("chat_type", Value::from("p2p")),
                ])),
            ])),
        ])
        .to_string()
        .into_bytes()
    };
    for mt in ["merged_forward", "sticker", "media", "video"] {
        let (notice, conv) =
            unsupported_message_notice(&mk(mt)).unwrap_or_else(|| panic!("{mt} 应提示"));
        assert!(
            notice.contains("暂不支持合并转发/表情包/视频消息"),
            "{mt}: {notice}"
        );
        assert!(notice.contains("发文字或截图"), "{mt}: {notice}");
        assert_eq!(conv.unwrap().0, "feishu:ou_u");
    }
}

#[test]
fn post_link_and_media_nodes() {
    let content = serde_json::to_string(&obj(vec![
        ("content", arr(vec![
            arr(vec![
                obj(vec![
                    ("tag", Value::from("a")),
                    ("text", Value::from("总结这个链接")),
                    ("href", Value::from("https://example.com/doc")),
                ]),
                obj(vec![("tag", Value::from("text")), ("text", Value::from("和"))]),
                obj(vec![
                    ("tag", Value::from("a")),
                    ("text", Value::from("https://bare.example.com")),
                    ("href", Value::from("https://bare.example.com")),
                ]),
                obj(vec![
                    ("tag", Value::from("a")),
                    ("href", Value::from("https://no-text.example.com")),
                ]),
                obj(vec![
                    ("tag", Value::from("media")),
                    ("file_key", Value::from("file_v3_video")),
                ]),
                obj(vec![
                    ("tag", Value::from("emotion")),
                    ("emoji_type", Value::from("SMILE")),
                ]),
                obj(vec![("tag", Value::from("text")), ("text", Value::from("完"))]),
            ]),
        ])),
    ]))
    .unwrap();
    let payload = obj(vec![
        ("header", obj(vec![
            ("event_id", Value::from("evt_a")),
            ("event_type", Value::from("im.message.receive_v1")),
        ])),
        ("event", obj(vec![
            ("sender", obj(vec![("sender_id", obj(vec![("open_id", Value::from("ou_u"))]))])),
            ("message", obj(vec![
                ("message_type", Value::from("post")),
                ("chat_type", Value::from("p2p")),
                ("content", Value::from(content)),
            ])),
        ])),
    ])
    .to_string()
    .into_bytes();
    let (_k, msg, pending) = parse_permissive(&payload).expect("post 带 a 节点应解析成功");
    let text = msg.text.as_deref().expect("应有正文");
    assert!(
        text.contains("[总结这个链接](https://example.com/doc)"),
        "a 节点渲染 markdown 链接: {text}"
    );

    assert!(
        text.contains("https://bare.example.com")
            && !text.contains("[https://bare.example.com](https://bare.example.com)"),
        "url==text 给裸 url: {text}"
    );
    assert!(
        text.contains("https://no-text.example.com"),
        "无 text 用 href: {text}"
    );
    assert!(text.contains("[视频]"), "media 占位: {text}");
    assert!(text.contains("[表情]"), "emotion 占位: {text}");
    assert!(pending.is_empty(), "media/emotion 不进待下载图片列表");
}

fn mk_merged_forward_payload(
    event_id: &str,
    message_id: Option<&str>,
    content: &str,
    chat_type: &str,
    mentions: &str,
) -> Vec<u8> {
    let mut message = obj(vec![
        ("message_type", Value::from("merged_forward")),
        ("content", Value::from(content)),
        ("chat_type", Value::from(chat_type)),
        ("chat_id", Value::from("oc_g1")),
    ]);
    if let Some(m) = message_id {
        message["message_id"] = Value::from(m);
    }
    if !mentions.is_empty() {
        message["mentions"] = serde_json::from_str::<serde_json::Value>(mentions).unwrap();
    }
    obj(vec![
        ("header", obj(vec![
            ("event_id", Value::from(event_id)),
            ("event_type", Value::from("im.message.receive_v1")),
        ])),
        ("event", obj(vec![
            ("sender", obj(vec![("sender_id", obj(vec![("open_id", Value::from("ou_fwd"))]))])),
            ("message", Value::from(message)),
            ("chat", obj(vec![("chat_id", Value::from("oc_g1"))])),
        ])),
    ])
    .to_string()
    .into_bytes()
}

fn mf_item(
    mt: &str,
    content: &str,
    name: Option<&str>,
    id: &str,
    ms: i64,
) -> MergedForwardItem {
    MergedForwardItem {
        message_id: format!("om_sub_{mt}"),
        message_type: mt.to_string(),
        content: content.to_string(),
        sender_id: id.to_string(),
        sender_name: name.map(String::from),
        create_time_ms: ms,
    }
}

#[test]
fn parse_merged_forward_event_p2p_with_head_meta() {
    let content = r#"{"title":"周五排期讨论","summary":"3 条"}"#;
    let p = mk_merged_forward_payload("evt_mf1", Some("om_mf1"), content, "p2p", "");

    assert!(parse_message_event(&p, &MentionPolicy::permissive(), None).is_none());
    let (key, msg, meta) = parse_merged_forward_event(&p, &MentionPolicy::require_bot(), None)
        .expect("p2p merged_forward 应产出");
    assert_eq!(key, "evt_mf1");
    assert_eq!(meta.message_id, "om_mf1");
    assert_eq!(meta.title.as_deref(), Some("周五排期讨论"));
    assert_eq!(meta.summary.as_deref(), Some("3 条"));
    assert_eq!(msg.conv_id.0, "feishu:ou_fwd");
    assert_eq!(msg.sender.0, "ou_fwd");
    assert_eq!(msg.text.as_deref(), Some(MERGE_FORWARD_PLACEHOLDER));
    assert_eq!(msg.source_msg_id.as_deref(), Some("om_mf1"));
    assert!(!msg.mentioned_bot, "p2p 恒 false");

    let p2 = mk_merged_forward_payload(
        "evt_mf2",
        Some("om_mf2"),
        "Merged and Forwarded Message",
        "p2p",
        "",
    );
    let (_, msg2, meta2) = parse_merged_forward_event(&p2, &MentionPolicy::permissive(), None)
        .expect("占位 content 应产出");
    assert_eq!(meta2.message_id, "om_mf2");
    assert_eq!(meta2.title, None);
    assert_eq!(meta2.summary, None);
    assert_eq!(msg2.text.as_deref(), Some(MERGE_FORWARD_PLACEHOLDER));
}

#[test]
fn parse_merged_forward_event_group_mention_gate() {
    let content = r#"{"title":"t"}"#;
    let no_at = mk_merged_forward_payload("evt_mf3", Some("om_mf3"), content, "group", "[]");
    assert!(
        parse_merged_forward_event(&no_at, &MentionPolicy::require_bot(), Some("ou_bot"))
            .is_none(),
        "群消息未 @bot 应丢弃"
    );
    let at_bot = mk_merged_forward_payload(
        "evt_mf3",
        Some("om_mf3"),
        content,
        "group",
        r#"[{"key":"@_user_1","id":{"open_id":"ou_bot"},"name":"agent"}]"#,
    );
    let (key, msg, meta) =
        parse_merged_forward_event(&at_bot, &MentionPolicy::require_bot(), Some("ou_bot"))
            .expect("群 @bot 应通过");
    assert_eq!(key, "evt_mf3");
    assert_eq!(msg.conv_id.0, "feishu:oc_g1");
    assert_eq!(meta.message_id, "om_mf3");
    assert!(msg.mentioned_bot, "@bot 元数据应置位");
}

#[test]
fn parse_merged_forward_event_missing_id_falls_to_notice() {
    let p = mk_merged_forward_payload("evt_mf4", None, "{}", "p2p", "");
    assert!(parse_merged_forward_event(&p, &MentionPolicy::permissive(), None).is_none());
    let (notice, conv) = unsupported_message_notice(&p).expect("缺 message_id 应回退提示");
    assert!(notice.contains("暂不支持合并转发"), "{notice}");
    assert_eq!(conv.unwrap().0, "feishu:ou_fwd");

    let text_payload = br#"{"header":{"event_type":"im.message.receive_v1"},
        "event":{"sender":{"sender_id":{"open_id":"ou_x"}},"message":{"message_type":"text","content":"{\"text\":\"hi\"}","chat_type":"p2p","message_id":"om_t"}}}"#;
    assert!(
        parse_merged_forward_event(text_payload, &MentionPolicy::permissive(), None).is_none()
    );
}

#[test]
fn render_transcript_type_and_sender_mapping() {

    let ms = chrono::Local
        .with_ymd_and_hms(2026, 8, 28, 9, 5, 0)
        .unwrap()
        .timestamp_millis();
    let items = vec![
        mf_item("text", r#"{"text":"文本内容"}"#, Some("Alice"), "ou_a", ms),
        mf_item(
            "image",
            r#"{"image_key":"img_v3_x"}"#,
            None,
            "ou_bbbbbbbb9999",
            ms + 60_000,
        ),
        mf_item("sticker", "{}", None, "ou_c", 0),
        mf_item("emotion", "{}", None, "ou_c", 0),
        mf_item(
            "file",
            r#"{"file_key":"file_v3_1","file_name":"报告.pdf"}"#,
            Some("Bob"),
            "ou_d",
            0,
        ),
        mf_item(
            "file",
            r#"{"file_key":"file_v3_2"}"#,
            Some("Bob"),
            "ou_d",
            0,
        ),
        mf_item("media", "{}", Some("Bob"), "ou_d", 0),
        mf_item("video", "{}", Some("Bob"), "ou_d", 0),
        mf_item("interactive", "{}", Some("Bob"), "ou_d", 0),
        mf_item("merged_forward", "{}", Some("Bob"), "ou_d", 0),
        mf_item("audio", "{}", Some("Bob"), "ou_d", 0),
        mf_item("unknown_kind", "{}", None, "", 0),
    ];
    let t = render_merge_forward_transcript(&items, None, None);
    assert!(t.starts_with("【合并转发聊天记录】共 12 条"), "{t}");
    assert!(t.contains("[Alice 09:05] 文本内容"), "{t}");

    assert!(t.contains("[bbbb9999 09:06] [图片]"), "{t}");

    assert!(t.contains("[ou_c] [表情]"), "{t}");
    assert!(t.contains("[Bob] [文件: 报告.pdf]"), "{t}");
    assert!(t.contains("[Bob] [文件]"), "{t}");
    assert!(t.contains("[Bob] [视频]"), "{t}");
    assert!(t.contains("[Bob] [卡片消息]"), "{t}");
    assert!(t.contains("[Bob] [合并转发消息（嵌套）]"), "{t}");
    assert!(t.contains("[Bob] [未知类型消息]"), "{t}");
    assert!(t.contains("[未知] [未知类型消息]"), "id 全缺 → 未知: {t}");
    assert!(!t.contains("已截断"), "未超限不应有截断标注: {t}");

    let t2 = render_merge_forward_transcript(&items[..1], Some("周五排期"), Some("3 条"));
    assert!(
        t2.starts_with("【合并转发聊天记录】周五排期\n3 条\n"),
        "{t2}"
    );

    let t3 = render_merge_forward_transcript(&[], None, None);
    assert_eq!(t3, "【合并转发聊天记录】共 0 条");
}

#[test]
fn render_transcript_post_and_at_placeholder() {
    let post_text = serde_json::to_string(&obj(vec![
        ("title", Value::from("周报")),
        ("content", arr(vec![
            arr(vec![
                obj(vec![("tag", Value::from("text")), ("text", Value::from("本周进展"))]),
            ]),
        ])),
    ]))
    .unwrap();
    let post_img_only = serde_json::to_string(&obj(vec![
        ("content", arr(vec![
            arr(vec![
                obj(vec![
                    ("tag", Value::from("img")),
                    ("image_key", Value::from("img_only")),
                ]),
            ]),
        ])),
    ]))
    .unwrap();
    let post_empty = serde_json::to_string(&obj(vec![("content", arr(vec![]))])).unwrap();
    let items = vec![
        mf_item("post", &post_text, Some("Alice"), "ou_a", 0),
        mf_item("post", &post_img_only, Some("Alice"), "ou_a", 0),
        mf_item("post", &post_empty, Some("Alice"), "ou_a", 0),
        mf_item(
            "text",
            r#"{"text":"@_user_1 看这个"}"#,
            Some("Bob"),
            "ou_b",
            0,
        ),
    ];
    let t = render_merge_forward_transcript(&items, None, None);
    assert!(
        t.contains("[Alice] 周报\n[Alice] 本周进展") || t.contains("[Alice] 周报"),
        "{t}"
    );
    assert!(t.contains("本周进展"), "post 文字进转录: {t}");
    assert!(t.contains("[Alice] [图片]"), "纯图 post 占位: {t}");
    assert!(t.contains("[Alice] [富文本消息]"), "空 post 占位: {t}");
    assert!(t.contains("[Bob] @_user_1 看这个"), "占位保留原样: {t}");
}

#[test]
fn render_transcript_truncation() {
    let long = "很".repeat(4_000);
    let items = vec![
        mf_item(
            "text",
            &format!(r#"{{"text":"{long}"}}"#),
            Some("A"),
            "ou_a",
            0,
        ),
        mf_item(
            "text",
            &format!(r#"{{"text":"{long}"}}"#),
            Some("B"),
            "ou_b",
            0,
        ),
    ];
    let t = render_merge_forward_transcript(&items, None, None);
    assert!(t.contains("（已截断，共 2 条中前 1 条）"), "{t}");

    let body = t.split("\n（已截断").next().unwrap();
    assert!(
        body.chars().count() <= MERGE_FORWARD_TRANSCRIPT_MAX,
        "{}",
        body.chars().count()
    );

    let short = vec![mf_item("text", r#"{"text":"短"}"#, Some("A"), "ou_a", 0)];
    let t2 = render_merge_forward_transcript(&short, None, None);
    assert!(!t2.contains("已截断"), "{t2}");

    let huge = "长".repeat(20_000);
    let one = vec![mf_item(
        "text",
        &format!(r#"{{"text":"{huge}"}}"#),
        None,
        "ou_x",
        0,
    )];
    let t3 = render_merge_forward_transcript(&one, None, None);
    assert!(t3.contains("（已截断，共 1 条中前 1 条）"), "{t3}");
    let body3 = t3.split("\n（已截断").next().unwrap();
    assert!(
        body3.chars().count() <= MERGE_FORWARD_TRANSCRIPT_MAX,
        "{}",
        body3.chars().count()
    );
}

#[test]
fn ask_button_forward_proxy_denied_all_conv_forms() {
    let mk = |conv: &str, operator: &str, sender: Option<&str>| {
        let mut value =
            obj(vec![
                ("imagent_perm", Value::from("allow")),
                ("conv", Value::from(conv)),
                ("req", Value::from("r1")),
            ]);
        if let Some(s) = sender {
            value["sender"] = Value::from(s);
        }
        obj(vec![
            ("header", obj(vec![
                ("event_id", Value::from("evt_fwd")),
                ("event_type", Value::from("card.action.trigger")),
            ])),
            ("event", obj(vec![
                ("operator", obj(vec![("open_id", Value::from(operator))])),
                ("action", obj(vec![("tag", Value::from("button")), ("value", Value::from(value))])),
            ])),
        ])
        .to_string()
        .into_bytes()
    };

    let (_, msg, deny) =
        parse_card_action_event(&mk("feishu:oc_g", "ou_other", Some("ou_owner")))
            .expect("应解析");
    assert!(
        deny.as_deref()
            .is_some_and(|d| d.contains("仅其本人可答复")),
        "{deny:?}"
    );
    assert!(msg.text.is_none(), "代批不得注入审批文本");
    assert_eq!(
        msg.sender.0, "ou_other",
        "占位消息携带 operator（私聊反馈用）"
    );

    let (_, _, deny) =
        parse_card_action_event(&mk("feishu:ou_owner", "ou_other", Some("ou_owner")))
            .expect("应解析");
    assert!(
        deny.as_deref()
            .is_some_and(|d| d.contains("仅其本人可答复")),
        "私聊 conv 同样校验: {deny:?}"
    );

    let (_, msg, deny) =
        parse_card_action_event(&mk("feishu:oc_g", "ou_owner", Some("ou_owner")))
            .expect("应解析");
    assert!(deny.is_none());
    assert_eq!(msg.text.as_deref(), Some("y"));

    let (_, msg, deny) =
        parse_card_action_event(&mk("feishu:oc_g", "ou_any", None)).expect("应解析");
    assert!(deny.is_none(), "存量卡兼容: {deny:?}");
    assert_eq!(msg.text.as_deref(), Some("y"));
}

#[test]
fn ask_button_expiry_and_question_form_guard() {
    let now = std::time::SystemTime::now()
        .duration_since(std::time::UNIX_EPOCH)
        .unwrap()
        .as_secs() as i64;

    let ask_btn = obj(vec![
        ("header", obj(vec![
            ("event_id", Value::from("e1")),
            ("event_type", Value::from("card.action.trigger")),
        ])),
        ("event", obj(vec![
            ("operator", obj(vec![("open_id", Value::from("ou_x"))])),
            ("action", obj(vec![
                ("tag", Value::from("button")),
                ("value", obj(vec![
                    ("imagent_ask", Value::from("方案A")),
                    ("conv", Value::from("feishu:ou_owner")),
                    ("req", Value::from("rq")),
                    ("sender", Value::from("ou_owner")),
                ])),
            ])),
        ])),
    ])
    .to_string()
    .into_bytes();
    let (_, _, deny) = parse_card_action_event(&ask_btn).expect("应解析");
    assert!(
        deny.as_deref()
            .is_some_and(|d| d.contains("仅其本人可答复")),
        "{deny:?}"
    );

    let expired = obj(vec![
        ("header", obj(vec![
            ("event_id", Value::from("e2")),
            ("event_type", Value::from("card.action.trigger")),
        ])),
        ("event", obj(vec![
            ("operator", obj(vec![("open_id", Value::from("ou_owner"))])),
            ("action", obj(vec![
                ("tag", Value::from("button")),
                ("value", obj(vec![
                    ("imagent_perm", Value::from("allow")),
                    ("conv", Value::from("feishu:oc_g")),
                    ("req", Value::from("r2")),
                    ("sender", Value::from("ou_owner")),
                    ("ts", Value::from(now - CMD_BUTTON_TTL_SECS - 3600)),
                ])),
            ])),
        ])),
    ])
    .to_string()
    .into_bytes();
    let (_, msg, deny) = parse_card_action_event(&expired).expect("应解析");
    assert!(
        deny.as_deref().is_some_and(|d| d.contains("已过期")),
        "{deny:?}"
    );
    assert!(msg.text.is_none(), "过期不得注入审批文本");

    let fresh = obj(vec![
        ("header", obj(vec![
            ("event_id", Value::from("e3")),
            ("event_type", Value::from("card.action.trigger")),
        ])),
        ("event", obj(vec![
            ("operator", obj(vec![("open_id", Value::from("ou_owner"))])),
            ("action", obj(vec![
                ("tag", Value::from("button")),
                ("value", obj(vec![
                    ("imagent_perm", Value::from("allow")),
                    ("conv", Value::from("feishu:oc_g")),
                    ("req", Value::from("r3")),
                    ("sender", Value::from("ou_owner")),
                    ("ts", Value::from(now - 60)),
                ])),
            ])),
        ])),
    ])
    .to_string()
    .into_bytes();
    let (_, msg, deny) = parse_card_action_event(&fresh).expect("应解析");
    assert!(deny.is_none());
    assert_eq!(msg.text.as_deref(), Some("y"));
}

#[test]
fn parse_menu_event_synthesizes_help() {
    let mk = |chat_id: Option<&str>, operator: &str| {
        let mut event = obj(vec![
            ("operator", obj(vec![("operator_id", obj(vec![("open_id", Value::from(operator))]))])),
        ]);
        if let Some(c) = chat_id {
            event["chat_id"] = Value::from(c);
        }
        obj(vec![
            ("schema", Value::from("2.0")),
            ("header", obj(vec![
                ("event_id", Value::from("evt_menu")),
                ("event_type", Value::from("application.url.menu_v6")),
            ])),
            ("event", Value::from(event)),
        ])
        .to_string()
        .into_bytes()
    };

    let (key, msg) = parse_menu_event(&mk(Some("oc_g"), "ou_op")).expect("群菜单应解析");
    assert_eq!(key, "evt_menu");
    assert_eq!(msg.text.as_deref(), Some("/help"));
    assert_eq!(msg.conv_id.0, "feishu:oc_g");
    assert_eq!(msg.sender.0, "ou_op");

    let p2p = obj(vec![
        ("header", obj(vec![
            ("event_id", Value::from("evt_menu2")),
            ("event_type", Value::from("application.url.menu_v6")),
        ])),
        ("event", obj(vec![("operator", obj(vec![("open_id", Value::from("ou_p2p"))]))])),
    ])
    .to_string()
    .into_bytes();
    let (_, msg) = parse_menu_event(&p2p).expect("私聊菜单应解析");
    assert_eq!(msg.conv_id.0, "feishu:ou_p2p");
    assert_eq!(msg.text.as_deref(), Some("/help"));

    assert!(
        parse_menu_event(b"{\"header\":{\"event_type\":\"im.message.receive_v1\"}}").is_none()
    );
    let no_op = obj(vec![
        ("header", obj(vec![("event_type", Value::from("application.url.menu_v6"))])),
        ("event", obj(vec![("chat_id", Value::from("oc_g"))])),
    ])
    .to_string()
    .into_bytes();
    assert!(parse_menu_event(&no_op).is_none());
}

#[test]
fn parse_recall_event_to_control() {
    let mk = |chat_id: Option<&str>, sender: Option<&str>| {
        let mut event = obj(vec![]);
        if let Some(c) = chat_id {
            event["chat_id"] = Value::from(c);
        }
        if let Some(s) = sender {
            event["sender"] = obj(vec![("sender_id", obj(vec![("open_id", Value::from(s))]))]);
        }
        event["message_id"] = Value::from("om_recalled");
        obj(vec![
            ("schema", Value::from("2.0")),
            ("header", obj(vec![
                ("event_id", Value::from("evt_rec")),
                ("event_type", Value::from("im.message.recalled_v1")),
            ])),
            ("event", Value::from(event)),
        ])
        .to_string()
        .into_bytes()
    };

    let (key, msg) = parse_recall_event(&mk(Some("oc_g"), Some("ou_sender"))).expect("应解析");
    assert_eq!(key, "evt_rec");
    assert_eq!(msg.source_msg_id.as_deref(), Some("om_recalled"));
    let InboundControl::MessageRecalled {
        notify_conv,
        probe_convs,
    } = msg.control.as_ref().expect("应为撤回控制消息")
    else {
        panic!("控制类型不符");
    };
    assert_eq!(notify_conv.as_ref().unwrap().0, "feishu:oc_g");
    assert!(
        probe_convs.iter().any(|c| c.0 == "feishu:oc_g"),
        "{probe_convs:?}"
    );
    assert!(
        probe_convs.iter().any(|c| c.0 == "feishu:ou_sender"),
        "{probe_convs:?}"
    );

    let (_, msg) = parse_recall_event(&mk(Some("oc_p2p"), Some("ou_sender"))).expect("应解析");
    let InboundControl::MessageRecalled {
        notify_conv,
        probe_convs,
    } = msg.control.as_ref().unwrap()
    else {
        panic!("控制类型不符");
    };
    assert_eq!(notify_conv.as_ref().unwrap().0, "feishu:oc_p2p");
    assert!(probe_convs.iter().any(|c| c.0 == "feishu:ou_sender"));

    let (_, msg) = parse_recall_event(&mk(None, Some("ou_sender"))).expect("应解析");
    let InboundControl::MessageRecalled { notify_conv, .. } =
        msg.control.as_ref().unwrap()
    else {
        panic!("控制类型不符");
    };
    assert_eq!(notify_conv.as_ref().unwrap().0, "feishu:ou_sender");

    let (_, msg) = parse_recall_event(&mk(None, None)).expect("仅有 id 也应解析");
    let InboundControl::MessageRecalled {
        notify_conv,
        probe_convs,
    } = msg.control.as_ref().unwrap()
    else {
        panic!("控制类型不符");
    };
    assert!(notify_conv.is_none());
    assert!(probe_convs.is_empty());

    assert!(
        parse_recall_event(b"{\"header\":{\"event_type\":\"im.message.receive_v1\"}}")
            .is_none()
    );
    let no_id = obj(vec![
        ("header", obj(vec![("event_type", Value::from("im.message.recalled_v1"))])),
        ("event", obj(vec![("chat_id", Value::from("oc_g"))])),
    ])
    .to_string()
    .into_bytes();
    assert!(parse_recall_event(&no_id).is_none());
}

#[test]
fn parse_bot_removed_event_to_control() {
    let payload = obj(vec![
        ("schema", Value::from("2.0")),
        ("header", obj(vec![
            ("event_id", Value::from("evt_rm")),
            ("event_type", Value::from("im.chat.member.bot.deleted_v1")),
        ])),
        ("event", obj(vec![("chat_id", Value::from("oc_dead"))])),
    ])
    .to_string()
    .into_bytes();
    let (key, msg) = parse_bot_removed_event(&payload).expect("应解析");
    assert_eq!(key, "evt_rm");
    assert_eq!(msg.conv_id.0, "feishu:oc_dead");
    assert!(matches!(
        msg.control.as_ref(),
        Some(InboundControl::BotRemovedFromChat)
    ));

    assert!(parse_bot_removed_event(
        b"{\"header\":{\"event_type\":\"im.message.receive_v1\"}}"
    )
    .is_none());
    let no_chat = obj(vec![
        ("header", obj(vec![("event_type", Value::from("im.chat.member.bot.deleted_v1"))])),
        ("event", obj(vec![])),
    ])
    .to_string()
    .into_bytes();
    assert!(parse_bot_removed_event(&no_chat).is_none());
}

#[test]
fn group_slash_command_bypasses_mention_filter() {
    let cmd = mk_group_mention_payload("e-cmd-1", "/chat allow", "[]");
    let policy = MentionPolicy::require_bot();
    assert!(
        parse_message_event(&cmd, &policy, None).is_some(),
        "群内斜杠命令不应被 @ 过滤拦截"
    );

    let txt = mk_group_mention_payload("e-txt-1", "你好", "[]");
    assert!(
        parse_message_event(&txt, &policy, None).is_none(),
        "非命令群消息仍须 @"
    );
}

#[test]
fn peek_group_reply_parent_shapes() {
    let mk = |chat_type: &str, parent: Option<&str>| {
        obj(vec![
            ("header", obj(vec![("event_type", Value::from("im.message.receive_v1"))])),
            ("event", obj(vec![
                ("message", obj(vec![
                    ("chat_type", Value::from(chat_type)),
                    ("parent_id", Value::from(parent)),
                ])),
            ])),
        ])
        .to_string()
        .into_bytes()
    };
    assert_eq!(
        peek_group_reply_parent(&mk("group", Some("om_p1"))).as_deref(),
        Some("om_p1")
    );
    assert_eq!(peek_group_reply_parent(&mk("p2p", Some("om_p1"))), None, "私聊无需豁免");
    assert_eq!(peek_group_reply_parent(&mk("group", None)), None, "非回复形态");
    assert_eq!(peek_group_reply_parent(&mk("group", Some(""))), None, "空 parent");
}
