//! Texts, numbers, documents, and the words on a card.

use imagent::digits::{dec2_u64, dec_i64, dec_u64, dec_usize, hex_u64, read_i64, read_u32, read_usize};
use imagent::dedup::{content_hash, content_hash_text};
use imagent::forward::{
    merge_forward_time_label, render_transcript_with, MergedForwardItem,
};
use imagent::gemini::{gemini_parse, run_arguments, CliEvent};
use imagent::json::{json_to_string, json_to_string_pretty, num, parse_json, parse_json_str, txt, Arr, Json, Obj};
use imagent::markdown::{cap_md_bytes, escape_lt, escape_lt_inline, mask_emails, truncate_chars, truncate_str};
use imagent::model::{TodoItem, TodoStatus, ToolCall};
use imagent::status::{
    format_run_len, humanize_ask_timeout, todo_list_md, tool_stats_summary, tool_summary,
};
use imagent::text::{
    char_count, is_blank, str_after_prefix, str_before_char, str_before_suffix, str_behind_char,
    str_contains, str_head, str_join, str_lines, str_lower, str_split, str_split_on,
    str_strip, str_strip_end, str_tail, str_trim, str_trim_start,
};
use std::collections::hash_map::DefaultHasher;
use std::hash::{Hash, Hasher};

// Texts

/// The functions on texts do what those of the standard library do.
#[test]
fn text_functions_agree_with_std() {
    let samples = [
        "", " ", "a", " a b ", "\u{3000}x\u{a0}", "a,b,,c", ",", "ab,", "aaa", "abab", "a\r\nb\n",
        "\n", "x\n\ny", "一二三", "``a``", "--x--", "A\u{130}B", "\t\u{b}\u{c}q\u{85}",
    ];
    for s in samples {
        assert_eq!(str_trim(s), s.trim(), "{s:?}");
        assert_eq!(str_trim_start(s), s.trim_start(), "{s:?}");
        assert_eq!(is_blank(s), s.trim().is_empty(), "{s:?}");
        assert_eq!(char_count(s), s.chars().count(), "{s:?}");
        assert_eq!(str_split(s, ','), s.split(',').collect::<Vec<_>>(), "{s:?}");
        assert_eq!(str_lines(s), s.lines().collect::<Vec<_>>(), "{s:?}");
        assert_eq!(str_strip(s, '-'), s.trim_matches('-'), "{s:?}");
        assert_eq!(str_strip_end(s, '-'), s.trim_end_matches('-'), "{s:?}");
        assert_eq!(str_before_char(s, ','), s.split(',').next().unwrap_or(s), "{s:?}");
        assert_eq!(
            str_behind_char(s, ','),
            s.split_once(',').map(|(_, b)| b.to_string()),
            "{s:?}"
        );
        assert_eq!(str_head(s, 2), s.chars().take(2).collect::<String>(), "{s:?}");
        assert_eq!(
            str_tail(s, 2),
            s.chars().skip(s.chars().count().saturating_sub(2)).collect::<String>(),
            "{s:?}"
        );
        for p in ["a", "ab", "\n", ",", "aa"] {
            assert_eq!(str_contains(s, p), s.contains(p), "{s:?} {p:?}");
            assert_eq!(str_split_on(s, p), s.split(p).collect::<Vec<_>>(), "{s:?} {p:?}");
            assert_eq!(str_after_prefix(s, p).as_deref(), s.strip_prefix(p), "{s:?} {p:?}");
            assert_eq!(str_before_suffix(s, p).as_deref(), s.strip_suffix(p), "{s:?} {p:?}");
        }
    }
    assert_eq!(str_lower("AbZ-09É"), "AbZ-09É".to_ascii_lowercase());
    assert_eq!(str_join(&vec!["a".into(), "b".into()], ", "), "a, b");
}

/// White space is what the standard library takes for it.
#[test]
fn white_space_agrees_with_std() {
    for c in (0u32..=0x10ffff).filter_map(char::from_u32) {
        let s = c.to_string();
        if is_blank(&s) != c.is_whitespace() {
            panic!("U+{:04X}", c as u32);
        }
    }
}

#[test]
fn numbers_written_and_read() {
    for n in [0u64, 7, 10, 99, 12345, u64::MAX] {
        assert_eq!(dec_u64(n), n.to_string());
        assert_eq!(hex_u64(n), format!("{n:x}"));
        assert_eq!(dec2_u64(n), format!("{n:02}"));
    }
    for n in [0i64, -1, 42, i64::MIN, i64::MAX] {
        assert_eq!(dec_i64(n), n.to_string());
        assert_eq!(read_i64(&n.to_string()), Some(n));
    }
    assert_eq!(dec_usize(8000), "8000");
    for s in ["", "-", "+", "+5", "-5", "05", "4294967295", "4294967296", "1a", " 1", "--1"] {
        assert_eq!(read_u32(s), s.parse::<u32>().ok(), "{s:?}");
        assert_eq!(read_i64(s), s.parse::<i64>().ok(), "{s:?}");
        assert_eq!(read_usize(s), s.parse::<usize>().ok(), "{s:?}");
    }
    assert_eq!(read_i64("9223372036854775808"), None);
}

/// The hash of a text is the one that the standard library's hasher gives it.
#[test]
fn content_hash_agrees_with_std() {
    for s in ["", "a", "hello", "一二三"] {
        let mut h = DefaultHasher::new();
        s.hash(&mut h);
        assert_eq!(content_hash(s), h.finish(), "{s:?}");
        assert_eq!(content_hash_text(s), format!("{:x}", h.finish()), "{s:?}");
    }
}

// Documents

#[test]
fn documents_written_and_read() {
    let j = Obj::new()
        .with("b", num(-3))
        .with("a", Arr::new().with(txt("x\"y")).with(Json::Bool(true)).with(Json::Null).json())
        .json();
    assert_eq!(json_to_string(&j), "{\"a\":[\"x\\\"y\",true,null],\"b\":-3}");
    assert_eq!(
        json_to_string_pretty(&j),
        "{\n  \"a\": [\n    \"x\\\"y\",\n    true,\n    null\n  ],\n  \"b\": -3\n}"
    );
    let back = parse_json_str(&json_to_string(&j)).expect("a document");
    assert_eq!(json_to_string(&back), json_to_string(&j));
    assert_eq!(back.get("b").and_then(|v| v.as_i64()), Some(-3));
    assert_eq!(back.str_at("b"), None);
    assert_eq!(back.at("none"), &Json::Null);
    assert_eq!(parse_json_str("1.5").unwrap().as_i64(), None);
    assert_eq!(parse_json_str("18446744073709551615").unwrap().as_i64(), None);
    assert_eq!(parse_json(b"{\"k\":\"\\u4e00\"}").unwrap().str_at("k"), Some("一"));
    assert!(parse_json(b"{").is_none());
    assert!(parse_json(b"\"\xff\"").is_none());
    assert!(Arr::new().is_empty());
}

#[test]
fn later_member_of_a_name_counts() {
    let j = Obj::new().with("k", num(1)).with("k", num(2)).json();
    assert_eq!(j.get("k").and_then(|v| v.as_i64()), Some(2));
    assert_eq!(json_to_string(&j), "{\"k\":2}");
}

// Markdown

#[test]
fn mail_addresses_are_masked() {
    assert_eq!(mask_emails("to a.b+c@x-y.example.org, now"), "to a.b+c[at]x-y.example.org, now");
    assert_eq!(mask_emails("user@localhost @name"), "user@localhost @name");
}

#[test]
fn tags_are_escaped_outside_code() {
    assert_eq!(escape_lt_inline("a <b> `c <d>` <e>"), "a \\<b> `c <d>` \\<e>");
    assert_eq!(escape_lt("<a>\n```\n<b>\n```\n<c>"), "\\<a>\n```\n<b>\n```\n\\<c>");
}

#[test]
fn cut_text_keeps_its_ends() {
    let long = "x".repeat(50) + &"y".repeat(50);
    let cut = cap_md_bytes(&long, 10, 5);
    assert!(cut.starts_with("xxxxxxxxxx\n") && cut.ends_with("yyyyy"), "{cut}");
    assert_eq!(cap_md_bytes("short", 3, 2), "short");
    assert_eq!(truncate_chars("abc", 3), "abc");
    assert!(truncate_chars("abcd", 3).starts_with("abc"));
    assert_eq!(truncate_str("abc", 5), "abc");
}

// Words on a card

#[test]
fn times_in_words() {
    assert_eq!(humanize_ask_timeout(300), "5 分钟");
    assert_eq!(format_run_len(0), "0s");
    assert_eq!(format_run_len(59), "59s");
    assert_eq!(format_run_len(61), "1m");
    assert_eq!(format_run_len(3661), "1h01m");
    assert_eq!(format_run_len(90_000), "1d1h");
}

#[test]
fn tools_are_counted_by_name() {
    let tool = |name: &str| ToolCall {
        name: name.into(),
        summary: String::new(),
        done: true,
        id: None,
    };
    let text = tool_stats_summary(&vec![tool("Read"), tool("Bash"), tool("Read")]);
    assert!(text.contains("Read") && text.contains("Bash"), "{text}");
    assert!(text.find("Bash").unwrap() < text.find("Read").unwrap(), "{text}");
    assert!(text.contains('2') && text.contains('1'), "{text}");
    assert!(tool_summary("{\"command\":\"ls -la\"}").contains("ls -la"));
}

#[test]
fn plans_are_listed() {
    assert_eq!(todo_list_md(&Vec::new()), None);
    let item = |text: &str, status: TodoStatus| TodoItem { id: None, text: text.into(), status };
    let text = todo_list_md(&vec![
        item("one", TodoStatus::Completed),
        item("two", TodoStatus::InProgress),
        item("three", TodoStatus::Pending),
    ])
    .expect("a list");
    assert!(text.contains("1/3"), "{text}");
    assert!(text.contains("one") && text.contains("two") && text.contains("three"), "{text}");
}

// Forwarded messages

#[test]
fn forwarded_messages_keep_their_times() {
    let item = MergedForwardItem {
        message_id: "om_1".into(),
        message_type: "text".into(),
        content: "{\"text\":\"hi\"}".into(),
        sender_id: "ou_a".into(),
        sender_name: Some("Ann".into()),
        create_time_ms: 1,
    };
    let text = render_transcript_with(&[item], &vec![Some("12:34".into())], Some("T"), None);
    assert!(text.contains("12:34") && text.contains("Ann") && text.contains("hi"), "{text}");
    assert_eq!(merge_forward_time_label(0), None);
    assert_eq!(merge_forward_time_label(-1), None);
    let label = merge_forward_time_label(1_787_912_345_678).expect("a time");
    assert_eq!(label.len(), 5);
    assert_eq!(&label[2..3], ":");
    assert!(merge_forward_time_label(8_210_266_876_799_999).is_some(), "the last moment");
    assert_eq!(merge_forward_time_label(8_210_266_876_800_000), None);
    assert_eq!(merge_forward_time_label(i64::MAX), None);
}

// The agent

#[test]
fn lines_of_the_agent_mean_something() {
    assert_eq!(
        gemini_parse("{\"type\":\"init\",\"session_id\":\"s1\"}"),
        CliEvent::Session("s1".into())
    );
    assert_eq!(
        gemini_parse("{\"type\":\"message\",\"role\":\"assistant\",\"content\":\"\"}"),
        CliEvent::Skip
    );
    assert_eq!(
        gemini_parse("{\"type\":\"message\",\"role\":\"assistant\",\"content\":\"hi\"}"),
        CliEvent::Text("hi".into())
    );
    assert_eq!(
        gemini_parse("{\"type\":\"result\",\"status\":\"success\"}"),
        CliEvent::Terminal { session: None }
    );
    assert_eq!(gemini_parse("nonsense"), CliEvent::Skip);
}

#[test]
fn arguments_of_the_agent() {
    assert_eq!(
        run_arguments("--yolo", Some("s1"), &["Read".to_string()]).unwrap(),
        [
            "-p", "-o", "stream-json", "--resume", "s1", "--approval-mode", "plan", "-s",
            "--skip-trust", "--prompt=--yolo"
        ]
    );
    let edits = run_arguments("x", None, &["*".to_string()]).unwrap();
    assert_eq!(edits, run_arguments("x", None, &[]).unwrap());
    assert!(edits.contains(&"auto_edit".to_string()) && !edits.contains(&"-s".to_string()));
}
