//! What the service answers, and what becomes of it.

use base64::Engine;
use imagent::errors::{PLATFORM, is_card_not_exist_msg, is_rate_limited_msg, is_token_invalid_msg};
use imagent::forward::{merge_forward_create_time, parse_merge_forward_page};
use imagent::json::{parse_json_str, Json};
use imagent::replies::{
    asr_request_body, merge_forward_reply, parse_asr_response, transcribe_reply,
};
use imagent::retry::BACKOFF_CAP;
use serde_json::Value;
use std::time::Duration;

/// A JSON object of the given members.
fn obj(members: Vec<(&str, Value)>) -> Value {
    Value::Object(members.into_iter().map(|(k, v)| (k.to_string(), v)).collect())
}

/// A JSON array of the given elements.
fn arr(elements: Vec<Value>) -> Value {
    Value::Array(elements)
}

/// The library's form of a document.
fn json(v: &Value) -> Json {
    parse_json_str(&v.to_string()).expect("a document")
}

#[test]
fn backoff_caps_at_30s() {
    let cap = Duration::from_secs(30);
    let mut b = Duration::from_secs(1);
    for _ in 0..10 {
        b = (b * 2).min(cap);
    }
    assert_eq!(b, cap);
}

#[test]
fn constants_sane() {
    assert!(Duration::from_secs(BACKOFF_CAP) >= Duration::from_secs(30));
    assert_eq!(PLATFORM, "feishu");
}

#[test]
fn token_invalid_msg_detection() {
    for hit in [
        "API错误 99991663 response: Invalid access token for authorization",
        "API错误 99991661 response: tenant access token is empty",
        "send_message: 认证失败: invalid access token for authorization",
        "fetch_bot_open_id: code=99991664 msg=xx",
        "API错误 99991668 response: invalid app_access_token",
    ] {
        assert!(is_token_invalid_msg(hit), "应识别: {hit}");
    }
    for miss in [
        "send_message: API错误 230020 too many request",
        "download resource: HTTP 429",
        "API错误 99991400 bad request",
        "网络错误: connection refused",
    ] {
        assert!(!is_token_invalid_msg(miss), "不应识别: {miss}");
    }
}

#[test]
fn card_not_exist_msg_detection() {
    for hit in [
        "patch_card: code=230002 msg=card not exist",
        "patch_card_element: code=230002 msg=...",
        "API错误 230002 response: message not found",
        "patch_card: Card not exist",
        "patch_card: 卡片不存在",
    ] {
        assert!(is_card_not_exist_msg(hit), "应识别: {hit}");
    }
    for miss in [
        "patch_card_element: code=300317 msg=sequence error",
        "send_card: code=230020 too many request",
        "网络错误: connection refused",
    ] {
        assert!(!is_card_not_exist_msg(miss), "不应识别: {miss}");
    }
}

#[test]
fn rate_limit_msg_detection_covers_sdk_forms() {
    for hit in [
        "download resource: HTTP 429",
        "reply_comment: code=230020",
        "API错误 429 response: too many request",
        "API错误 230020 response: reach rate limit",
        "业务错误 TooManyRequests: xx",
    ] {
        assert!(is_rate_limited_msg(hit), "应识别: {hit}");
    }
    for miss in [
        "API错误 99991663",
        "send_message: 网络错误",
        "API错误 400 bad request",
    ] {
        assert!(!is_rate_limited_msg(miss), "不应识别: {miss}");
    }
}

#[test]
fn merge_forward_page_parsing() {
    let ok = obj(vec![
        ("code", Value::from(0)),
        ("msg", Value::from("success")),
        ("data", obj(vec![
            ("items", arr(vec![
                obj(vec![
                    ("message_id", Value::from("om_sub1")),
                    ("message_type", Value::from("text")),
                    ("content", Value::from("{\"text\":\"你好\"}")),
                    ("create_time", Value::from("1787912345678")),
                    ("sender", obj(vec![
                        ("id", Value::from("ou_alice")),
                        ("id_type", Value::from("open_id")),
                        ("name", Value::from("Alice")),
                    ])),
                ]),
                obj(vec![
                    ("message_id", Value::from("om_sub2")),
                    ("msg_type", Value::from("image")),
                    ("content", Value::from("{\"image_key\":\"img_v3_x\"}")),
                    ("create_time", Value::from(1787912340)),
                    ("sender", obj(vec![("open_id", Value::from("ou_bobxxxxxxxxxxxx"))])),
                ]),
            ])),
            ("has_more", Value::from(true)),
            ("page_token", Value::from("tok_2")),
        ])),
    ]);
    let page = parse_merge_forward_page(&json(&ok)).expect("code=0 应解析成功");
    assert_eq!(page.items.len(), 2);
    assert!(page.has_more);
    assert_eq!(page.page_token.as_deref(), Some("tok_2"));

    assert_eq!(page.items[0].message_type, "text");
    assert_eq!(page.items[0].content, "{\"text\":\"你好\"}");
    assert_eq!(page.items[0].sender_name.as_deref(), Some("Alice"));
    assert_eq!(page.items[0].sender_id, "ou_alice");
    assert_eq!(page.items[0].create_time_ms, 1_787_912_345_678);

    assert_eq!(page.items[1].message_type, "image");
    assert_eq!(page.items[1].sender_name, None);
    assert_eq!(page.items[1].sender_id, "ou_bobxxxxxxxxxxxx");
    assert_eq!(page.items[1].create_time_ms, 1_787_912_340_000);

    let err = obj(vec![
        ("code", Value::from(230002)),
        ("msg", Value::from("message not exist")),
        ("data", Value::Null),
    ]);
    let e = parse_merge_forward_page(&json(&err)).expect_err("code!=0 应报错");
    let msg = e.message().to_string();
    assert!(
        msg.contains("code=230002") && msg.contains("message not exist"),
        "{msg}"
    );

    let empty = obj(vec![("code", Value::from(0)), ("data", obj(vec![]))]);
    let page = parse_merge_forward_page(&json(&empty)).expect("空数据应成功");
    assert!(page.items.is_empty());
    assert!(!page.has_more);
    assert!(page.page_token.is_none());
    let ragged = obj(vec![
        ("code", Value::from(0)),
        ("data", obj(vec![
            ("items", arr(vec![
                Value::from("not-an-object"),
                obj(vec![("message_id", Value::from("om_x"))]),
            ])),
        ])),
    ]);
    let page = parse_merge_forward_page(&json(&ragged)).expect("残缺条目不应整页报错");
    assert_eq!(page.items.len(), 1, "非对象跳过，残缺对象保留");
    assert_eq!(page.items[0].message_type, "");
    assert_eq!(page.items[0].create_time_ms, 0);
}

#[test]
fn merge_forward_create_time_normalization() {
    assert_eq!(
        merge_forward_create_time(Some(&json(&Value::from(1787912340)))),
        1_787_912_340_000,
        "秒级归一毫秒"
    );
    assert_eq!(
        merge_forward_create_time(Some(&json(&Value::from("1787912345678")))),
        1_787_912_345_678,
        "毫秒字符串原样"
    );
    assert_eq!(
        merge_forward_create_time(Some(&json(&Value::from(0)))),
        0,
        "0 保持（缺失语义）"
    );
    assert_eq!(
        merge_forward_create_time(Some(&json(&Value::from("abc")))),
        0,
        "非法字符串 → 0"
    );
    assert_eq!(merge_forward_create_time(None), 0, "缺省 → 0");
}

#[test]
fn asr_request_body_shape() {
    let pcm = vec![0x01u8, 0x02, 0x03, 0x04];
    let body = asr_request_body(&pcm);
    let v: Value = serde_json::from_str(&body).expect("合法 JSON");
    let speech = v["speech"]["speech"].as_str().expect("speech.speech");
    assert_eq!(
        base64::engine::general_purpose::STANDARD
            .decode(speech)
            .unwrap(),
        pcm,
        "speech 字段为 pcm 的 base64"
    );
    let cfg = &v["config"];
    assert_eq!(cfg["format"], "pcm");
    assert_eq!(cfg["engine_type"], "16k_auto");
    let fid = cfg["file_id"].as_str().expect("file_id");
    assert_eq!(fid.len(), 16, "file_id 恰 16 位");
    assert!(
        fid.chars().all(|c| c.is_ascii_alphanumeric()),
        "file_id 仅字母数字"
    );

    assert_ne!(asr_request_body(&pcm), body);
}

#[test]
fn asr_response_parses_recognition_text() {
    let ok = r#"{"code":0,"msg":"success","data":{"recognition_text":" 帮我看看现在几点了 "}}"#;
    assert_eq!(parse_asr_response(200, ok).unwrap(), "帮我看看现在几点了");

    let legacy = r#"{"code":0,"data":{"text":"x"}}"#;
    assert!(parse_asr_response(200, legacy).is_err());
}

#[test]
fn asr_response_surfaces_non_json_body() {
    let err = parse_asr_response(404, "404 page not found").unwrap_err();
    let msg = err.message().to_string();
    assert!(msg.contains("HTTP 404"), "msg={msg}");
    assert!(msg.contains("404 page not found"), "msg={msg}");
}

#[test]
fn asr_response_rate_gate_hint() {
    let gated = r#"{"code":99991400,"msg":"request trigger frequency limit"}"#;
    let msg = parse_asr_response(400, gated).unwrap_err().message().to_string();
    assert!(msg.contains("99991400"), "msg={msg}");
    assert!(msg.contains("语音识别"), "msg={msg}");
    let other = r#"{"code":1040101,"msg":"invalid param"}"#;
    let msg = parse_asr_response(400, other).unwrap_err().message().to_string();
    assert!(
        msg.contains("1040101") && !msg.contains("语音识别"),
        "msg={msg}"
    );
}

#[test]
fn voice_reply_by_its_status() {
    let ok = r#"{"code":0,"data":{"recognition_text":"hello"}}"#.to_string();
    assert_eq!(transcribe_reply(200, Ok(ok.clone())).unwrap(), "hello");
    let fast = transcribe_reply(429, Ok(ok)).unwrap_err();
    assert_eq!(fast.message(), "transcribe_audio: HTTP 429");
    assert!(is_rate_limited_msg(fast.message()));
    let fast = transcribe_reply(429, Err("cut off".into())).unwrap_err();
    assert_eq!(fast.message(), "transcribe_audio: HTTP 429");
    let cut = transcribe_reply(200, Err("cut off".into())).unwrap_err();
    assert_eq!(cut.message(), "transcribe_audio: cut off");
    let page = transcribe_reply(404, Ok("404 page not found".into())).unwrap_err();
    assert!(page.message().contains("HTTP 404"), "{}", page.message());
}

#[test]
fn forwarded_page_by_its_status() {
    let page = || {
        json(&obj(vec![
            ("code", Value::from(0)),
            (
                "data",
                obj(vec![
                    ("items", arr(vec![obj(vec![("message_id", Value::from("om_1"))])])),
                    ("has_more", Value::from(true)),
                    ("page_token", Value::from("next")),
                ]),
            ),
        ]))
    };
    let read = merge_forward_reply(200, Ok(page())).expect("a page");
    assert_eq!(read.items.len(), 1);
    assert_eq!(read.items[0].message_id, "om_1");
    assert!(read.has_more);
    assert_eq!(read.page_token.as_deref(), Some("next"));
    let fast = merge_forward_reply(429, Ok(page())).unwrap_err();
    assert_eq!(fast.message(), "list_merge_forward: HTTP 429");
    assert!(is_rate_limited_msg(fast.message()));
    let none = merge_forward_reply(0, Err("no route".into())).unwrap_err();
    assert_eq!(none.message(), "list_merge_forward: no route");
    let refused = json(&obj(vec![("code", Value::from(7)), ("msg", Value::from("no"))]));
    let refused = merge_forward_reply(200, Ok(refused)).unwrap_err();
    assert_eq!(refused.message(), "list_merge_forward: code=7 msg=no");
}
