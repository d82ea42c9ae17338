//! What is remembered between events, and the laws that hold of it.

use imagent::asks::{
    answered_card_text, ask_card_at, is_question, may_not_answer, permission_ask_text,
    somebody_else_notice, AskRender, Asks, PendingAskCard, PermissionReply, Verdict,
    EXPIRED_ASK_NOTICE,
};
use imagent::errors::CoreError;
use imagent::fetching::{fetch_step, Fetch};
use imagent::flows::{after_card, AskStage, CardStage};
use imagent::drain::{classify, Bridge, Dedup, Effect, Incoming, DEDUP_CAPACITY, WELCOME};
use imagent::media::{
    add_voice, candidate_name, media_fault, stored_name, voice_fault, MediaFault, VOICE_OFF,
};
use imagent::message::{MentionPolicy, PendingMedia};
use imagent::model::{ConvId, InboundMessage};
use imagent::session::{
    reaction_emoji, sender_opt_of, Cards, Convs, MsgReaction, Reactions,
};
use imagent::table::Table;
use serde_json::Value;

/// A JSON object of the given members.
fn obj(members: Vec<(&str, Value)>) -> Value {
    Value::Object(members.into_iter().map(|(k, v)| (k.to_string(), v)).collect())
}

fn event(id: &str, kind: &str, body: Value) -> Vec<u8> {
    obj(vec![
        (
            "header",
            obj(vec![("event_id", Value::from(id)), ("event_type", Value::from(kind))]),
        ),
        ("event", body),
    ])
    .to_string()
    .into_bytes()
}

fn ask(conv: &str, msg: &str, sender: &str) -> PendingAskCard {
    PendingAskCard {
        conv_id: conv.into(),
        msg_id: msg.into(),
        tool_name: "Bash".into(),
        sender: sender.into(),
    }
}

fn render(sender: &str) -> AskRender {
    AskRender {
        question: false,
        tool_name: "Bash".into(),
        input: "{}".into(),
        sender: sender.into(),
    }
}

fn permission_click(id: &str, conv: &str, req: &str, operator: &str) -> Vec<u8> {
    event(
        id,
        "card.action.trigger",
        obj(vec![
            ("operator", obj(vec![("open_id", Value::from(operator))])),
            (
                "action",
                obj(vec![
                    ("tag", Value::from("button")),
                    (
                        "value",
                        obj(vec![
                            ("imagent_perm", Value::from("allow")),
                            ("conv", Value::from(conv)),
                            ("req", Value::from(req)),
                        ]),
                    ),
                ]),
            ),
        ]),
    )
}

fn take(bridge: &mut Bridge, payload: &[u8]) -> Vec<Effect> {
    let incoming = classify(payload, &MentionPolicy::permissive(), Some("ou_bot"));
    bridge.take(incoming, None, 0)
}

// Tables

#[test]
fn table_keeps_one_value_for_each_name() {
    let mut t: Table<String> = Table::new();
    assert_eq!(t.len(), 0);
    assert_eq!(t.insert("a", "1".into()), None);
    assert_eq!(t.insert("a", "2".into()), Some("1".into()));
    assert_eq!(t.insert("b", "3".into()), None);
    assert_eq!(t.len(), 2);
    assert!(t.contains("a") && !t.contains("c"));
    assert_eq!(t.get("a").map(|s| s.as_str()), Some("2"));
    let mut names = t.names();
    names.sort();
    assert_eq!(names, ["a", "b"]);
    assert_eq!(t.remove("a"), Some("2".into()));
    assert_eq!(t.remove("a"), None);
    t.clear();
    assert_eq!(t.len(), 0);
}

// Questions

#[test]
fn question_is_answered_once() {
    let mut asks = Asks::new();
    asks.register_ask_card("r1", ask("feishu:oc_g", "om_1", "ou_a"), render("ou_a"));
    assert_eq!(asks.judge(Some("r1"), "ou_a"), Verdict::Pass);
    assert!(asks.still_waits("feishu:oc_g", "r1"));
    assert_eq!(asks.close("r1").map(|c| c.msg_id), Some("om_1".into()));
    assert_eq!(asks.judge(Some("r1"), "ou_a"), Verdict::Expired);
    assert!(!asks.still_waits("feishu:oc_g", "r1"));
    assert_eq!(asks.close("r1"), None);
    assert_eq!(asks.judge(None, "ou_a"), Verdict::Pass, "an answer without a request");
}

#[test]
fn only_the_person_asked_answers_in_a_group() {
    let mut asks = Asks::new();
    asks.record_pending_ask("r1", ask("feishu:oc_g", "om_1", "ou_a"));
    asks.record_pending_ask("r2", ask("feishu:ou_a", "om_2", "ou_a"));
    assert_eq!(
        asks.judge(Some("r1"), "ou_b"),
        Verdict::NotOwner("⛔ 该询问由 ou_a 发起，仅其本人可答复。".into())
    );
    assert_eq!(asks.judge(Some("r2"), "ou_b"), Verdict::Pass);
    let nobody = ask("feishu:oc_g", "om_3", "");
    assert!(!may_not_answer(&nobody, "ou_b"));
    assert!(somebody_else_notice(&ask("feishu:oc_g", "om", "ou_z")).contains("ou_z"));
}

#[test]
fn stopping_closes_the_questions_of_one_conversation() {
    let mut asks = Asks::new();
    asks.register_ask_card("r1", ask("feishu:oc_g", "om_1", "ou_a"), render("ou_a"));
    asks.register_ask_card("r2", ask("feishu:oc_g", "om_2", "ou_a"), render("ou_a"));
    asks.register_ask_card("r3", ask("feishu:oc_h", "om_3", "ou_a"), render("ou_a"));
    let mut closed: Vec<String> =
        asks.close_all("feishu:oc_g").into_iter().map(|(req, _)| req).collect();
    closed.sort();
    assert_eq!(closed, ["r1", "r2"]);
    assert_eq!(asks.judge(Some("r1"), "ou_a"), Verdict::Expired);
    assert_eq!(asks.judge(Some("r3"), "ou_a"), Verdict::Pass);
    assert!(asks.still_waits("feishu:oc_h", "r3"));
}

#[test]
fn new_card_replaces_the_old_one_of_a_request() {
    let mut asks = Asks::new();
    assert_eq!(asks.record_pending_ask("r1", ask("feishu:oc_g", "om_1", "ou_a")), None);
    let old = asks.record_pending_ask("r1", ask("feishu:oc_g", "om_2", "ou_a"));
    assert_eq!(old.map(|c| c.msg_id), Some("om_1".into()));
    assert_eq!(asks.card_in("om_2").map(|c| c.conv_id), Some("feishu:oc_g".into()));
    assert_eq!(asks.card_in("om_1"), None);
}

#[test]
fn note_on_waiting_messages_is_shown_once() {
    let mut asks = Asks::new();
    assert_eq!(asks.note_queued("feishu:oc_g", "1 waits"), None);
    asks.register_ask_card("r1", ask("feishu:oc_g", "om_1", "ou_a"), render("ou_a"));
    let (msg, req, r) = asks.note_queued("feishu:oc_g", "1 waits").expect("a card");
    assert_eq!((msg.as_str(), req.as_str()), ("om_1", "r1"));
    assert_eq!(r, render("ou_a"));
    assert_eq!(asks.note_queued("feishu:oc_g", "1 waits"), None);
    assert!(asks.note_queued("feishu:oc_g", "2 wait").is_some());
}

#[test]
fn questions_and_approvals_told_apart() {
    let q = "{\"questions\":[{\"question\":\"Q\",\"options\":[{\"label\":\"a\"},{\"label\":\"b\"}]}]}";
    assert!(is_question("AskUserQuestion", q));
    assert!(!is_question("AskUserQuestion", "{}"));
    assert!(!is_question("Bash", q));
    let card = ask_card_at(&render("ou_a"), "feishu:oc_g", "r1", "the note", 7);
    assert!(card.contains("the note") && card.contains("\"req\":\"r1\"") && card.contains("\"ts\":7"), "{card}");
    let text = permission_ask_text(&ConvId("feishu:oc_g".into()), "Bash", "{\"command\":\"ls\"}");
    assert!(text.contains("Bash"), "{text}");
}

#[test]
fn answered_cards_show_the_answer() {
    let reply = |allow: bool, raw: Option<&str>| PermissionReply {
        allow,
        message: None,
        raw_text: raw.map(|s| s.to_string()),
    };
    let yes = answered_card_text("Bash", &reply(true, None));
    let no = answered_card_text("Bash", &reply(false, None));
    assert_ne!(yes, no);
    assert!(yes.contains("Bash") && no.contains("Bash"));
    let chosen = answered_card_text("AskUserQuestion", &reply(true, Some("ask:left")));
    assert!(chosen.contains("left"), "{chosen}");
}

#[test]
fn question_with_a_card_waits_in_it() {
    let conv = ConvId("feishu:oc_g".into());
    let mut b = Bridge::new();
    let sent = Ok(Some("om_1".to_string()));
    assert_eq!(b.after_ask(&conv, "r1", &AskStage::Card, &sent, &render("ou_a")), None);
    assert_eq!(b.asks.card_in("om_1"), Some(ask("feishu:oc_g", "om_1", "ou_a")));
    assert!(b.asks.still_waits("feishu:oc_g", "r1"));
    assert_eq!(b.convs.card_tail("feishu:oc_g").as_deref(), Some("om_1"));
    assert!(b.asks.take_asks_flag("feishu:oc_g"));
    // The same request in another message takes the place of the first.
    let again = Ok(Some("om_2".to_string()));
    let old = b.after_ask(&conv, "r1", &AskStage::Card, &again, &render("ou_a"));
    assert_eq!(old, Some(ask("feishu:oc_g", "om_1", "ou_a")));
    assert_eq!(b.convs.card_tail("feishu:oc_g").as_deref(), Some("om_2"));
}

#[test]
fn question_without_a_card_is_noted_only() {
    let conv = ConvId("feishu:oc_g".into());
    let mut asks = Asks::new();
    let failed = Err(CoreError::Platform("no route".into()));
    assert_eq!(asks.after_ask(&conv, "r1", &AskStage::Card, &failed, &render("ou_a")), None);
    assert!(!asks.still_waits("feishu:oc_g", "r1"));
    assert!(asks.take_asks_flag("feishu:oc_g"));
    // A text that asks, a card without a message, and the end note nothing.
    let sent = Ok(Some("om_1".to_string()));
    asks.after_ask(&conv, "r1", &AskStage::Text, &sent, &render("ou_a"));
    asks.after_ask(&conv, "r1", &AskStage::Text, &failed, &render("ou_a"));
    asks.after_ask(&conv, "r1", &AskStage::Card, &Ok(None), &render("ou_a"));
    asks.after_ask(&conv, "r1", &AskStage::Done(Ok(None)), &sent, &render("ou_a"));
    assert!(!asks.take_asks_flag("feishu:oc_g"));
    assert_eq!(asks.card_in("om_1"), None);
}

// Cards and reactions

#[test]
fn sent_card_is_the_last_of_its_chat() {
    let conv = ConvId("feishu:oc_g".into());
    let sent = Ok(Some("om_1".to_string()));
    let failed = Err(CoreError::Platform("no route".into()));
    let noted = |stage: CardStage, outcome: &Result<Option<String>, CoreError>| {
        let (mut convs, mut cards) = (Convs::new(), Cards::new());
        after_card(&mut convs, &mut cards, &conv, &stage, outcome);
        (convs.card_tail("feishu:oc_g"), cards.message_behind("card:c1"))
    };
    let om = || Some("om_1".to_string());
    assert_eq!(noted(CardStage::ShowAnchored("c1".into()), &sent), (om(), om()));
    assert_eq!(noted(CardStage::Show("c1".into()), &sent), (om(), om()));
    assert_eq!(noted(CardStage::Show("c2".into()), &sent), (om(), None));
    assert_eq!(noted(CardStage::RawAnchored, &sent), (om(), None));
    assert_eq!(noted(CardStage::Raw, &sent), (om(), None));
    assert_eq!(noted(CardStage::Thread, &sent), (None, None));
    assert_eq!(noted(CardStage::Create, &sent), (None, None));
    assert_eq!(noted(CardStage::Show("c1".into()), &failed), (None, None));
    assert_eq!(noted(CardStage::Show("c1".into()), &Ok(None)), (None, None));
}

#[test]
fn new_card_shows_that_the_task_thinks() {
    let mut cards = Cards::new();
    cards.note_new_card(Some("card:c1"));
    assert!(!cards.footer_changes("c1", "🧠 思考中…"));
    assert!(cards.footer_changes("c1", "✍️ 输出中…"));
    cards.note_new_card(Some("msg:om_1"));
    cards.note_new_card(None);
    assert!(cards.footer_changes("om_1", "🧠 思考中…"));
    cards.note_message("c1", "om_1");
    assert_eq!(cards.message_behind("card:c1").as_deref(), Some("om_1"));
    assert_eq!(cards.message_behind("msg:c1"), None);
    assert_eq!(cards.message_behind("c1"), None);
}

#[test]
fn numbers_of_a_card_grow() {
    let mut cards = Cards::new();
    assert_eq!(cards.last_card_seq("c1"), 0);
    assert_eq!(cards.next_card_seq("c1"), 1);
    assert_eq!(cards.next_card_seq("c2"), 1);
    assert_eq!(cards.next_card_seq("c1"), 2);
    cards.reset_card_seq("c1", 100);
    assert_eq!(cards.next_card_seq("c1"), 101);
    cards.forget_card("c1");
    assert_eq!(cards.last_card_seq("c1"), 0);
    assert_eq!(cards.last_card_seq("c2"), 1);
}

#[test]
fn footer_is_written_where_it_changes() {
    let mut cards = Cards::new();
    assert!(cards.footer_changes("c1", "a"));
    assert!(!cards.footer_changes("c1", "a"));
    assert!(cards.footer_changes("c1", "b"));
    cards.footer_failed("c1", "no route");
    assert!(!cards.footer_changes("c1", "b"), "it counts as shown");
    cards.footer_failed("c1", "code=230020");
    assert!(cards.footer_changes("c1", "b"), "it is tried again");
    cards.note_message("c1", "om_1");
    assert_eq!(cards.message_of("c1").as_deref(), Some("om_1"));
    assert_eq!(cards.message_of("c2"), None);
}

#[test]
fn one_reaction_takes_the_place_of_another() {
    let mut r = Reactions::new();
    let (old, emoji) = r.begin("om_1", MsgReaction::Processing).expect("a change");
    assert_eq!(old, None);
    assert_eq!(emoji, reaction_emoji(MsgReaction::Processing));
    r.shown("om_1", "rx1");
    let (old, emoji) = r.begin("om_1", MsgReaction::Done).expect("a change");
    assert_eq!(old.as_deref(), Some("rx1"));
    assert_eq!(emoji, reaction_emoji(MsgReaction::Done));
    assert_ne!(reaction_emoji(MsgReaction::Done), reaction_emoji(MsgReaction::Failed));
}

// Conversations

#[test]
fn running_task_keeps_the_message_it_answers() {
    let mut c = Convs::new();
    c.note_message("feishu:oc_g", "ou_a", Some("om_1"), None, 0);
    c.begin_round("feishu:oc_g");
    c.note_message("feishu:oc_g", "ou_b", Some("om_2"), None, 1);
    assert_eq!(c.reply_anchor("feishu:oc_g").as_deref(), Some("om_1"));
    assert_eq!(c.last_sender("feishu:oc_g"), "ou_b");
    c.begin_round("feishu:oc_g");
    assert_eq!(c.reply_anchor("feishu:oc_g").as_deref(), Some("om_2"));
}

#[test]
fn active_thread_needs_no_mention() {
    let mut c = Convs::new();
    let strict = MentionPolicy::require_bot();
    let asks = |c: &Convs, now: u64, window: u64| {
        c.policy_for(strict, Some("oc_g:om_r"), now, window).require_mention_in_group
    };
    assert!(asks(&c, 0, 60));
    c.note_message("feishu:oc_g:om_r", "ou_a", None, Some("oc_g:om_r"), 1_000);
    assert!(!asks(&c, 60_999, 60));
    assert!(asks(&c, 61_000, 60));
    assert!(asks(&c, 1_000, 0), "no window, no exemption");
    assert!(c.policy_for(strict, None, 1_000, 60).require_mention_in_group);
}

#[test]
fn comments_clicks_and_cards_are_remembered() {
    let mut c = Convs::new();
    c.note_comment("feishu:comment:ft", "c1");
    assert_eq!(c.comment_anchor("feishu:comment:ft").as_deref(), Some("c1"));
    c.note_click("feishu:oc_g", "ou_a");
    assert_eq!(c.last_sender("feishu:oc_g"), "ou_a");
    assert_eq!(c.last_sender("feishu:oc_x"), "");
    c.note_card_tail("feishu:oc_g", "om_9");
    assert_eq!(c.card_tail("feishu:oc_g").as_deref(), Some("om_9"));
    assert_eq!(sender_opt_of(""), None);
    assert_eq!(sender_opt_of("ou_a"), Some("ou_a"));
}

// Events

#[test]
fn event_is_new_once() {
    let mut d = Dedup::new();
    assert!(d.check("k"));
    assert!(!d.check("k"));
    for i in 0..DEDUP_CAPACITY {
        assert!(d.check(&format!("e{i}")));
    }
    assert!(d.check("k"), "the oldest are forgotten");
    assert!(!d.check(&format!("e{}", DEDUP_CAPACITY - 1)));
}

#[test]
fn refused_clicks_are_told_and_not_handed_on() {
    let mut b = Bridge::new();
    let effects = take(&mut b, &permission_click("e1", "feishu:oc_g", "r1", "ou_a"));
    assert_eq!(effects.len(), 1);
    assert!(
        matches!(&effects[0], Effect::Say { conv, text } if conv == "feishu:oc_g" && text == EXPIRED_ASK_NOTICE),
        "{effects:?}"
    );
    b.asks.record_pending_ask("r1", ask("feishu:oc_g", "om_1", "ou_a"));
    let effects = take(&mut b, &permission_click("e2", "feishu:oc_g", "r1", "ou_b"));
    assert!(
        matches!(&effects[0], Effect::Say { text, .. } if text.contains("ou_a")),
        "{effects:?}"
    );
    let effects = take(&mut b, &permission_click("e3", "feishu:oc_g", "r1", "ou_a"));
    assert!(
        matches!(&effects[0], Effect::Deliver(m) if m.text.as_deref() == Some("y")),
        "{effects:?}"
    );
    assert!(take(&mut b, &permission_click("e3", "feishu:oc_g", "r1", "ou_a")).is_empty());
}

#[test]
fn reaction_answers_an_open_question() {
    let thumbs = |id: &str, message: &str| {
        event(
            id,
            "im.message.reaction.created_v1",
            obj(vec![
                ("message_id", Value::from(message)),
                ("reaction_type", obj(vec![("emoji_type", Value::from("THUMBSUP"))])),
                ("user_id", obj(vec![("open_id", Value::from("ou_a"))])),
                ("operator_type", Value::from("user")),
            ]),
        )
    };
    let mut b = Bridge::new();
    assert!(take(&mut b, &thumbs("e1", "om_1")).is_empty());
    b.asks.record_pending_ask("r1", ask("feishu:oc_g", "om_1", "ou_a"));
    let effects = take(&mut b, &thumbs("e2", "om_1"));
    assert!(
        matches!(&effects[0], Effect::Deliver(m) if m.conv_id.0 == "feishu:oc_g" && m.sender.0 == "ou_a"),
        "{effects:?}"
    );
}

#[test]
fn new_group_is_welcomed() {
    let mut b = Bridge::new();
    let payload = event(
        "e1",
        "im.chat.member.bot.added_v1",
        obj(vec![("chat_id", Value::from("oc_new"))]),
    );
    let effects = take(&mut b, &payload);
    assert!(
        matches!(&effects[0], Effect::Say { conv, text } if conv == "feishu:oc_new" && text == WELCOME),
        "{effects:?}"
    );
}

#[test]
fn other_events_are_ignored() {
    let payload = event("e1", "contact.user.updated_v3", obj(vec![]));
    let incoming = classify(&payload, &MentionPolicy::permissive(), None);
    assert!(
        matches!(&incoming, Incoming::Ignored { event_type: Some(t) } if t == "contact.user.updated_v3"),
        "{incoming:?}"
    );
    assert!(matches!(
        classify(b"", &MentionPolicy::permissive(), None),
        Incoming::Ignored { event_type: None }
    ));
}

// Files

#[test]
fn names_lead_into_no_other_directory() {
    assert_eq!(stored_name("file", "k", Some("..\\..\\a/b\\c.txt")), "c.txt");
    assert_eq!(stored_name("file", "k", Some("dir/")), "k.bin");
    assert_eq!(stored_name("image", "k", Some("photo")), "photo.png");
    assert_eq!(stored_name("image", "k", Some("photo.")), "photo.png");
}

#[test]
fn names_to_try_all_differ() {
    let names: Vec<String> = (0..4).map(|i| candidate_name("a.tar.gz", i)).collect();
    assert_eq!(names[0], "a.tar.gz");
    for i in 0..4 {
        for j in 0..i {
            assert_ne!(names[i], names[j]);
        }
    }
    assert!(names[2].contains("-2"), "{names:?}");
}

#[test]
fn what_kept_a_file_away_is_told() {
    assert_eq!(media_fault("k", MediaFault::Token, "e"), "k: 取 token 失败: e");
    assert_eq!(media_fault("k", MediaFault::FreshToken, "e"), "k: 重取 token 失败: e");
    assert_eq!(media_fault("k", MediaFault::Download, "e"), "k: 下载失败: e");
    assert_eq!(media_fault("k", MediaFault::Store, "e"), "k: 落盘失败: e");
    assert!(voice_fault("e").contains('e'));
    assert!(add_voice(None, "hello").contains("hello"));
    let both = add_voice(Some("first"), "second");
    assert!(both.contains("first") && both.contains("second"), "{both}");
}

fn pending(kind: &'static str) -> PendingMedia {
    PendingMedia {
        kind,
        key: "k1".into(),
        message_id: "om_1".into(),
        file_name: None,
    }
}

fn empty_message() -> InboundMessage {
    InboundMessage::plain("feishu:oc_g".into(), "ou_a".into(), Some("look".into()))
}

fn failed(what: &str) -> Result<String, CoreError> {
    Err(CoreError::Platform(what.into()))
}

fn went_well(what: &str) -> Result<String, CoreError> {
    Ok(what.into())
}

#[test]
fn file_is_fetched_and_stored() {
    let mut msg = empty_message();
    let p = pending("file");
    let s = fetch_step(Fetch::Token, &p, true, went_well(""), &mut msg);
    assert_eq!(s, Fetch::Download);
    let s = fetch_step(s, &p, true, failed("code=99991663"), &mut msg);
    assert_eq!(s, Fetch::FreshToken);
    let s = fetch_step(s, &p, true, went_well(""), &mut msg);
    assert_eq!(s, Fetch::DownloadAgain);
    let s = fetch_step(s, &p, true, went_well(""), &mut msg);
    assert_eq!(s, Fetch::Store);
    assert_eq!(msg, empty_message(), "nothing has been added so far");
    let s = fetch_step(s, &p, true, went_well("/tmp/a.bin"), &mut msg);
    assert_eq!(s, Fetch::Done);
    assert_eq!(msg.media.len(), 1);
    assert_eq!((msg.media[0].kind.as_str(), msg.media[0].url.as_str()), ("file", "/tmp/a.bin"));
    assert!(msg.media_errors.is_empty());
}

#[test]
fn missing_file_is_told() {
    for (stage, what) in [
        (Fetch::Token, "k1: 取 token 失败: e"),
        (Fetch::Download, "k1: 下载失败: e"),
        (Fetch::FreshToken, "k1: 重取 token 失败: e"),
        (Fetch::DownloadAgain, "k1: 下载失败: e"),
        (Fetch::Store, "k1: 落盘失败: e"),
        (Fetch::Hear, "语音转写失败: e（可改发文字）"),
    ] {
        let mut msg = empty_message();
        let s = fetch_step(stage, &pending("image"), true, failed("e"), &mut msg);
        assert_eq!(s, Fetch::Done);
        assert_eq!(msg.media_errors, [what]);
        assert!(msg.media.is_empty());
    }
}

#[test]
fn voice_is_heard_and_not_stored() {
    let mut msg = empty_message();
    let p = pending("audio");
    assert_eq!(fetch_step(Fetch::Download, &p, true, went_well(""), &mut msg), Fetch::Hear);
    assert_eq!(fetch_step(Fetch::Hear, &p, true, went_well("hello"), &mut msg), Fetch::Done);
    assert_eq!(msg.text.as_deref(), Some("look\n\n【语音】hello"));
    assert!(msg.media.is_empty());
    let mut msg = empty_message();
    assert_eq!(fetch_step(Fetch::Download, &p, false, went_well(""), &mut msg), Fetch::Done);
    assert_eq!(msg.media_errors, [VOICE_OFF]);
    let mut msg = empty_message();
    let odd = pending("sticker");
    assert_eq!(fetch_step(Fetch::Token, &odd, true, went_well(""), &mut msg), Fetch::Done);
    assert_eq!(msg, empty_message());
}
