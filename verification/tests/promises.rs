//! What the library promises of whole inputs, on concrete values.

use imagent::ask_card::{multi_question_card_at, perm_detail_md, permission_card_with};
use imagent::asks::{permission_ask_text_with, Asks};
use imagent::card_flow::{draw, draw_at, start_update, Face, UpdateAction, UpdateStage};
use imagent::dedup::content_hash_text;
use imagent::drain::{classify, Bridge};
use imagent::errors::{is_card_not_exist_msg, CoreError};
use imagent::events::{MentionId, MessageMention};
use imagent::flows::{plan_text, TextFlow};
use imagent::forward::{
    render_merge_forward_transcript, MergedForwardItem, MERGE_FORWARD_TRANSCRIPT_MAX,
};
use imagent::gemini::approval_for;
use imagent::json::{json_to_string, parse_json_str, Json};
use imagent::markdown::{escape_lt, escape_lt_inline};
use imagent::media::{candidate_name, first_free, stored_name};
use imagent::message::{apply_text_mentions, parse_message_event, MentionPolicy};
use imagent::model::{
    CardPhase, CardTerminal, ConvId, InboundControl, Mention, OutboundCard,
};
use imagent::notices::parse_recall_event;
use imagent::routing::count_pieces;
use imagent::session::{reply_policy, SentLately};
use imagent::task_card::{render_overflow_terminal_card, render_stub_card};

fn mention(key: &str, who: &str, name: &str) -> MessageMention {
    MessageMention {
        key: Some(key.into()),
        id: Some(MentionId { open_id: Some(who.into()) }),
        name: Some(name.into()),
        open_id: None,
        user_id: None,
    }
}

fn card(terminal: CardTerminal) -> OutboundCard {
    OutboundCard {
        text: "words".into(),
        tool_calls: Vec::new(),
        thoughts: Vec::new(),
        todos: Vec::new(),
        phase: CardPhase::Outputting,
        queued_hint: None,
        run_secs: 3,
        usage_display: None,
        terminal,
    }
}

// Mentions

#[test]
fn a_placeholder_is_written_out_by_its_own_mention() {
    let mentions =
        vec![mention("@_user_1", "ou_bot", "agent"), mention("@_user_10", "ou_alice", "Alice")];
    let (text, people) = apply_text_mentions("@_user_1 @_user_10 hi", &mentions, Some("ou_bot"));
    assert_eq!(text, "@Alice hi");
    assert_eq!(people.len(), 1);
    assert_eq!(people[0].user_id, "ou_alice");
    assert_eq!(people[0].name, "Alice");
    let _: &Mention = &people[0];
    let reversed =
        vec![mention("@_user_10", "ou_alice", "Alice"), mention("@_user_1", "ou_bot", "agent")];
    let (text, _) = apply_text_mentions("@_user_10 and @_user_1", &reversed, Some("ou_bot"));
    assert_eq!(text, "@Alice and ");
}

#[test]
fn a_placeholder_of_nobody_is_kept() {
    let mentions = vec![mention("@_user_1", "ou_bot", "agent")];
    let (text, people) = apply_text_mentions("@_user_1 ask @_user_12", &mentions, Some("ou_bot"));
    assert_eq!(text, "ask @_user_12");
    assert!(people.is_empty());
}

#[test]
fn a_name_is_not_taken_for_a_placeholder() {
    let mentions =
        vec![mention("@_user_1", "ou_a", "_user_2"), mention("@_user_2", "ou_b", "Bob")];
    let (text, people) = apply_text_mentions("@_user_1, @_user_2", &mentions, None);
    assert_eq!(text, "@_user_2, @Bob");
    assert_eq!(people.len(), 2);
}

#[test]
fn words_without_placeholders_are_kept() {
    let mentions = vec![mention("@_user_1", "ou_bot", "agent")];
    let (text, _) = apply_text_mentions("mail a@b, <x>", &mentions, Some("ou_bot"));
    assert_eq!(text, "mail a@b, <x>");
    let (text, _) = apply_text_mentions("", &mentions, Some("ou_bot"));
    assert_eq!(text, "");
}

// Answers to the bot

fn group_reply(parent: &str) -> Vec<u8> {
    r#"{"header":{"event_id":"e1","event_type":"im.message.receive_v1"},"event":{"sender":{"sender_id":{"open_id":"ou_a"}},"message":{"message_id":"om_in","chat_id":"oc_g","chat_type":"group","message_type":"text","content":"{\"text\":\"go on\"}","parent_id":"PARENT"}}}"#
        .replace("PARENT", parent)
        .into_bytes()
}

#[test]
fn an_answer_to_the_bot_needs_no_mention() {
    let strict = MentionPolicy::require_bot();
    let mut sent = SentLately::new(2);
    sent.note("om_1");
    sent.note("om_2");
    let payload = group_reply("om_1");
    assert!(parse_message_event(&payload, &strict, Some("ou_bot")).is_none());
    let policy = sent.policy_for(strict, &payload);
    assert!(!policy.require_mention_in_group);
    let (_, msg, _) = parse_message_event(&payload, &policy, Some("ou_bot")).expect("heeded");
    assert_eq!(msg.text.as_deref(), Some("go on"));
    assert_eq!(msg.reply_to.as_deref(), Some("om_1"));
    // An answer to somebody else, and to nobody.
    assert!(sent.policy_for(strict, &group_reply("om_x")).require_mention_in_group);
    assert!(sent.policy_for(strict, &group_reply("")).require_mention_in_group);
    // What was sent long ago is forgotten.
    sent.note("om_3");
    assert!(!sent.holds("om_1") && sent.holds("om_2") && sent.holds("om_3"));
    assert!(sent.policy_for(strict, &payload).require_mention_in_group);
    assert!(!SentLately::new(0).holds("om_1"));
}

#[test]
fn the_policy_of_an_answer_depends_on_both() {
    let strict = MentionPolicy::require_bot();
    assert!(!reply_policy(strict, Some("om_1"), true).require_mention_in_group);
    assert!(reply_policy(strict, Some("om_1"), false).require_mention_in_group);
    assert!(reply_policy(strict, None, true).require_mention_in_group);
    let open = MentionPolicy::permissive();
    assert!(!reply_policy(open, None, false).require_mention_in_group);
}

// Recalls

#[test]
fn a_recall_without_a_sender_looks_into_the_chat() {
    let payload = br#"{"header":{"event_id":"evt_rec","event_type":"im.message.recalled_v1"},"event":{"message_id":"om_recalled","chat_id":"oc_g"}}"#;
    let (key, msg) = parse_recall_event(payload).expect("a recall");
    assert_eq!(key, "evt_rec");
    assert_eq!(msg.source_msg_id.as_deref(), Some("om_recalled"));
    match msg.control {
        Some(InboundControl::MessageRecalled { notify_conv, probe_convs }) => {
            assert_eq!(notify_conv.map(|c| c.0).as_deref(), Some("feishu:oc_g"));
            let probes: Vec<String> = probe_convs.into_iter().map(|c| c.0).collect();
            assert_eq!(probes, ["feishu:oc_g"]);
        }
        other => panic!("{other:?}"),
    }
}

// Transcripts

fn said(text: &str) -> MergedForwardItem {
    MergedForwardItem {
        message_id: "om_1".into(),
        message_type: "text".into(),
        content: format!("{{\"text\":\"{text}\"}}"),
        sender_id: "ou_a".into(),
        sender_name: Some("A".into()),
        create_time_ms: 0,
    }
}

fn before_note(t: &str) -> usize {
    t.split("\n（已截断").next().unwrap().chars().count()
}

#[test]
fn a_long_head_is_cut_and_marked() {
    let title = "t".repeat(9_000);
    let t = render_merge_forward_transcript(&[], Some(&title), None);
    assert_eq!(before_note(&t), MERGE_FORWARD_TRANSCRIPT_MAX);
    assert!(t.starts_with("【合并转发聊天记录】ttt"), "{t}");
    assert!(t.ends_with("\n（已截断，共 0 条中前 0 条）"), "{t}");
    let summary = "长".repeat(9_000);
    let t = render_merge_forward_transcript(&[said("hi")], Some("T"), Some(&summary));
    assert_eq!(before_note(&t), MERGE_FORWARD_TRANSCRIPT_MAX);
    assert!(t.ends_with("\n（已截断，共 1 条中前 1 条）"), "{t}");
}

#[test]
fn a_head_that_just_fits_is_kept() {
    let mark = "【合并转发聊天记录】".chars().count();
    let title = "t".repeat(MERGE_FORWARD_TRANSCRIPT_MAX - mark);
    let t = render_merge_forward_transcript(&[], Some(&title), None);
    assert_eq!(t, format!("【合并转发聊天记录】{title}"));
}

// Errors

#[test]
fn a_message_that_is_gone_is_recognised() {
    assert!(is_card_not_exist_msg("patch_card: message not exist"));
    assert!(is_card_not_exist_msg("patch_card: The Message does NOT EXIST"));
    assert!(!is_card_not_exist_msg("patch_card: message exists"));
}

#[test]
fn errors_keep_their_side() {
    let conv = ConvId("feishu:oc_g".into());
    let plan = plan_text(&conv, "hi", false, None, None, 100, 100).expect("a plan");
    let flow = TextFlow::start().next(&plan, Err(CoreError::Backend("down".into())));
    match flow.outcome {
        Some(Err(CoreError::Platform(m))) => assert!(m.contains("down"), "{m}"),
        other => panic!("{other:?}"),
    }
    let mut asks = Asks::new();
    let update = start_update(&mut asks, "c", "odd", &card(CardTerminal::Running), None);
    match &update.stage {
        UpdateStage::Done(Err(CoreError::Platform(m))) => {
            assert_eq!(m, "非法卡片句柄: odd");
        }
        other => panic!("{other:?}"),
    }
    let update = start_update(&mut asks, "c", "msg:om_1", &card(CardTerminal::Running), None)
        .next(Err(CoreError::Backend("card not exist".into())));
    match &update.stage {
        UpdateStage::Done(Err(CoreError::Platform(m))) => {
            assert!(m.starts_with("card not exist（"), "{m}");
        }
        other => panic!("{other:?}"),
    }
    let update = start_update(&mut asks, "c", "msg:om_1", &card(CardTerminal::Running), None)
        .next(Err(CoreError::Backend("down".into())));
    match &update.stage {
        UpdateStage::Done(Err(CoreError::Backend(m))) => assert_eq!(m, "down"),
        other => panic!("{other:?}"),
    }
}

// Markup

#[test]
fn only_the_opening_of_a_tag_is_rewritten() {
    for line in ["a`b", "`", "a`b`c`d", "plain", "", "a\\b"] {
        assert_eq!(escape_lt_inline(line), line);
    }
    assert_eq!(escape_lt_inline("a<b `c<d` e<f"), "a\\<b `c<d` e\\<f");
    assert_eq!(escape_lt_inline("a<b `c<d"), "a\\<b `c<d");
    assert_eq!(escape_lt("```\na<b\n```\na<b"), "```\na<b\n```\na\\<b");
}

#[test]
fn several_questions_smuggle_in_no_tag() {
    let qs = parse_json_str(
        r#"[{"question":"<at id=x></at>?","options":[{"label":"a"}]},{"question":"b","options":[{"label":"c"}]}]"#,
    );
    let qs = match qs {
        Some(Json::Arr(items)) => items,
        other => panic!("{other:?}"),
    };
    let card = multi_question_card_at(&qs, "feishu:oc_g", "r1", None, "note", 1).expect("a card");
    let text = json_to_string(&card);
    assert!(text.contains("\\\\<at id=x>\\\\</at>"), "{text}");
}

// The result of a task

#[test]
fn the_result_moves_below_once() {
    let conv = "feishu:oc_g";
    let done = card(CardTerminal::Done);
    let mut asks = Asks::new();
    asks.mark_ask_sent(conv);
    let first = start_update(&mut asks, conv, "msg:om_1", &done, None);
    assert_eq!(
        first.action(),
        UpdateAction::Patch { message: "om_1".into(), face: Face::Stub }
    );
    let first = first.next(Ok(()));
    assert_eq!(first.action(), UpdateAction::Send { face: Face::Full });
    let first = first.next(Ok(()));
    assert_eq!(first.action(), UpdateAction::Stop);
    assert!(matches!(first.stage, UpdateStage::Done(Ok(()))));
    let second = start_update(&mut asks, conv, "msg:om_1", &done, None);
    assert_eq!(
        second.action(),
        UpdateAction::Patch { message: "om_1".into(), face: Face::Full }
    );
    let second = second.next(Ok(()));
    assert_eq!(second.action(), UpdateAction::Stop);
    assert!(matches!(second.stage, UpdateStage::Done(Ok(()))));
}

#[test]
fn a_written_result_moves_below_once() {
    let conv = "feishu:oc_g";
    let failed = card(CardTerminal::Error("boom".into()));
    let mut asks = Asks::new();
    asks.mark_ask_sent(conv);
    let first = start_update(&mut asks, conv, "card:c1", &failed, Some("om_1".into()));
    assert_eq!(first.action(), UpdateAction::Write { stub: true });
    let again = start_update(&mut asks, conv, "card:c1", &failed, Some("om_1".into()));
    assert_eq!(
        again.action(),
        UpdateAction::Patch { message: "om_1".into(), face: Face::Full }
    );
    let first = first.next(Err(CoreError::Platform("code=300317".into())));
    assert_eq!(first.action(), UpdateAction::WriteAnew { stub: true });
    let first = first.next(Err(CoreError::Platform("too large".into())));
    assert_eq!(
        first.action(),
        UpdateAction::Patch { message: "om_1".into(), face: Face::Ended }
    );
    let first = first.next(Ok(()));
    assert_eq!(first.action(), UpdateAction::Send { face: Face::Full });
    // A running task takes nothing along.
    asks.mark_ask_sent(conv);
    let running = start_update(&mut asks, conv, "card:c1", &card(CardTerminal::Running), None);
    assert_eq!(running.action(), UpdateAction::Write { stub: false });
    assert!(asks.take_asks_flag(conv));
}

#[test]
fn a_card_has_three_faces() {
    let done = card(CardTerminal::Done);
    let full = draw_at(Face::Full, &done, "feishu:oc_g", None, 5);
    assert!(full.contains("words"), "{full}");
    assert_eq!(draw_at(Face::Stub, &done, "feishu:oc_g", None, 5), render_stub_card(&done));
    assert_eq!(
        draw_at(Face::Ended, &done, "feishu:oc_g", None, 5),
        render_overflow_terminal_card(true)
    );
    let failed = card(CardTerminal::Error("boom".into()));
    assert_eq!(
        draw(Face::Ended, &failed, "feishu:oc_g", None),
        render_overflow_terminal_card(false)
    );
}

// Files

#[test]
fn a_file_takes_the_place_of_no_other() {
    let name = stored_name("file", "k1", Some("a.txt"));
    let mut files: Vec<String> = Vec::new();
    for want in ["a.txt", "a-1.txt", "a-2.txt"] {
        let got = first_free(&name, &files);
        assert_eq!(got, want);
        assert!(!files.contains(&got));
        files.push(got);
    }
    assert_eq!(first_free("a.txt", &["a-1.txt".to_string()]), "a.txt");
    assert_eq!(first_free("a.txt", &["a.txt".to_string(), "a-2.txt".to_string()]), "a-1.txt");
    assert_eq!(first_free("..", &["..".to_string()]), "media-1");
}

#[test]
fn numbered_names_stand_in_no_directory() {
    let name = stored_name("image", "dir.d/k1", None);
    assert_eq!(name, "dir.d/k1.png");
    assert_eq!(candidate_name(&name, 0), "dir.d/k1.png");
    assert_eq!(candidate_name(&name, 2), "k1-2.png");
    assert_eq!(candidate_name("dir.d/name", 1), "name-1");
}

#[test]
fn hashes_read_the_whole_text() {
    assert_eq!(content_hash_text("abc"), content_hash_text("abc"));
    assert_ne!(content_hash_text("abc"), content_hash_text("abd"));
    assert_ne!(content_hash_text("abc"), content_hash_text("abcd"));
}

// Where a part comes from elsewhere

#[test]
fn any_summary_is_shown() {
    let (md, notes) = perm_detail_md("Read", "{}", "a <b>");
    assert!(md.starts_with("**Read** — a \\<b>\n```\n"), "{md}");
    assert!(notes.is_empty());
    let (md, _) = perm_detail_md("Bash", "{\"command\":\"ls\"}", "anything");
    assert_eq!(md, "**Bash**\n```bash\nls\n```");
    let card = permission_card_with("Read", "{}", "file", "c", "r", None, "note", 1);
    assert!(json_to_string(&card).contains("**Read** — file"));
    assert_eq!(
        permission_ask_text_with(&ConvId("feishu:oc_g".into()), "Read", "{}", "file"),
        "🔐 请求执行 Read：file\n\n回复 y 允许，其它拒绝。"
    );
}

#[test]
fn any_pieces_are_counted() {
    let pieces = vec!["a".to_string(), "b".to_string()];
    assert_eq!(count_pieces(pieces.clone(), true), ["（共 2 段）\na", "b"]);
    assert_eq!(count_pieces(pieces, false), ["a", "b"]);
    assert_eq!(count_pieces(vec!["a".to_string()], true), ["a"]);
}

#[test]
fn an_agent_that_changes_nothing_is_shut_in() {
    assert_eq!(approval_for(true), ("auto_edit", false));
    assert_eq!(approval_for(false), ("plan", true));
}

#[test]
fn a_new_event_is_taken_whatever_was_seen() {
    let payload = group_reply("om_1");
    let open = MentionPolicy::permissive();
    let mut bridge = Bridge::new();
    let event = classify(&payload, &open, None);
    assert_eq!(event.key(), Some("e1"));
    assert_eq!(bridge.take(event, None, 1).len(), 1);
    assert_eq!(bridge.take(classify(&payload, &open, None), None, 2).len(), 0);
    assert_eq!(bridge.take_new(classify(&payload, &open, None), None, 3).len(), 1);
}
