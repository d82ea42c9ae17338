//! How texts and cards are sent, and what is tried where something fails.

use imagent::card_flow::{
    handle_of_card, handle_of_message, streaming_settings, ManagedPatch, PatchAction, Stage,
    Update, UpdateStage, CARD_HANDLE_LOST,
};
use imagent::conv::ReceiveIdKind;
use imagent::errors::{is_card_not_exist_msg, is_rate_limited_msg, CoreError};
use imagent::flows::{
    ask_step, card_step, media_message, plan_text, start_ask, start_card, start_whole_card,
    AskStage, CardStage, TextAction, TextFlow,
};
use imagent::json::{parse_json_str, Json};
use imagent::model::{CardPhase, CardTerminal, ConvId, OutboundCard};
use imagent::replies::{
    bot_open_id_reply, cardkit_reply, create_card_entity_reply, create_reaction_reply,
    delete_reaction_reply, download_start, pcm_outcome, reply_comment_reply, reply_message_reply,
    sent_message_id, truncate_for_error, upload_file_reply, urgent_app_reply, ChatList, Download,
    ForwardList, MAX_PAGES, MEDIA_MAX_BYTES,
};
use imagent::requests::{
    bot_info_request, card_ref_content, comment_image, comment_text, create_card_entity_request,
    create_reaction_request, delete_reaction_request, file_content, image_content,
    merge_forward_request, patch_card_body, patch_card_element_request,
    patch_card_settings_request, reply_comment_request, reply_message_request, resource_request,
    text_content, transcribe_request, upload_file_request, urgent_app_request, Method,
};
use imagent::retry::{RateRetry, Reconnect, SessionEnd, TokenRetry};
use imagent::routing::{
    outgoing_pieces, refusal_targets, route_card, route_media, route_notice, route_text,
    split_message, supports_streaming_card, urgent_plan, QuietHours, Route, TokenCache, Urgency,
    NO_COMMENT_FOR_MEDIA, NO_COMMENT_FOR_TEXT, NO_FILE_IN_COMMENT, TOKEN_TTL_MS,
};
use serde_json::Value;

fn conv(s: &str) -> ConvId {
    ConvId(s.to_string())
}

fn bad(s: &str) -> CoreError {
    CoreError::Platform(s.to_string())
}

fn doc(s: &str) -> Json {
    parse_json_str(s).expect("a document")
}

fn value(s: &str) -> Value {
    serde_json::from_str(s).expect("a document")
}

fn card(terminal: CardTerminal) -> OutboundCard {
    OutboundCard {
        text: "words".into(),
        tool_calls: Vec::new(),
        thoughts: Vec::new(),
        todos: Vec::new(),
        phase: CardPhase::Outputting,
        queued_hint: None,
        run_secs: 3,
        usage_display: None,
        terminal,
    }
}

// Waiting and trying again

#[test]
fn waits_double_up_to_the_cap_and_start_over() {
    let mut r = Reconnect::new();
    let waits: Vec<u64> = (0..8).map(|_| r.wait_after(SessionEnd::Failed)).collect();
    assert_eq!(waits, [1, 2, 4, 8, 16, 30, 30, 30]);
    assert_eq!(r.wait_after(SessionEnd::Closed(59_999)), 30);
    assert_eq!(r.wait_after(SessionEnd::Closed(60_000)), 1);
    assert_eq!(r.wait_after(SessionEnd::Failed), 2);
    assert_eq!(r.wait_after(SessionEnd::Finished), 1);
    assert_eq!(r.wait_after(SessionEnd::Asked), 1);
}

#[test]
fn throttled_request_is_made_three_times_more() {
    let mut r = RateRetry::new();
    let busy = "send_message: HTTP 429";
    assert_eq!(r.after(busy), Some(500));
    assert_eq!(r.after(busy), Some(1000));
    assert_eq!(r.after(busy), Some(2000));
    assert_eq!(r.after(busy), None);
    assert_eq!(RateRetry::new().after("no route"), None);
}

#[test]
fn bad_token_is_renewed_once() {
    let mut r = TokenRetry::new();
    assert!(!r.again("no route"));
    assert!(r.again("code=99991663"));
    assert!(!r.again("code=99991663"));
}

#[test]
fn token_lasts_until_it_expires() {
    let mut c = TokenCache::new();
    assert_eq!(c.fresh(0), None);
    c.store("t1", 1_000);
    assert_eq!(c.fresh(1_000), Some("t1"));
    assert_eq!(c.fresh(1_000 + TOKEN_TTL_MS - 1), Some("t1"));
    assert_eq!(c.fresh(1_000 + TOKEN_TTL_MS), None);
    c.store("t2", 5);
    c.invalidate();
    assert_eq!(c.fresh(5), None);
}

// Where things go

#[test]
fn routes() {
    assert_eq!(
        route_card(&conv("feishu:oc_g:om_r")).unwrap(),
        Route::Thread { root_id: "om_r".into() }
    );
    assert_eq!(
        route_card(&conv("feishu:ou_a")).unwrap(),
        Route::Chat { receive_id: "ou_a".into(), kind: ReceiveIdKind::OpenId }
    );
    assert_eq!(
        route_card(&conv("feishu:oc_g")).unwrap(),
        Route::Chat { receive_id: "oc_g".into(), kind: ReceiveIdKind::ChatId }
    );
    assert!(route_card(&conv("elsewhere")).is_err());
    assert_eq!(
        route_text(&conv("feishu:comment:ft"), Some("c1")).unwrap(),
        Route::Comment { file_token: "ft".into(), comment_id: "c1".into() }
    );
    assert_eq!(
        route_text(&conv("feishu:comment:ft"), None).unwrap_err().message(),
        NO_COMMENT_FOR_TEXT
    );
    assert_eq!(
        route_media(&conv("feishu:comment:ft"), Some("c1"), false).unwrap_err().message(),
        NO_FILE_IN_COMMENT
    );
    assert_eq!(
        route_media(&conv("feishu:comment:ft"), None, true).unwrap_err().message(),
        NO_COMMENT_FOR_MEDIA
    );
    assert!(route_media(&conv("feishu:comment:ft"), Some("c1"), true).is_ok());
    assert!(route_notice(&conv("feishu:comment:ft")).is_none());
    assert!(route_notice(&conv("feishu:oc_g")).is_some());
    assert!(supports_streaming_card(&conv("feishu:oc_g")));
    assert!(!supports_streaming_card(&conv("feishu:comment:ft")));
}

#[test]
fn refusals_reach_the_chat_and_the_person() {
    assert_eq!(refusal_targets("feishu:oc_g", "ou_a"), ["feishu:oc_g", "feishu:ou_a"]);
    assert_eq!(refusal_targets("feishu:ou_a", "ou_a"), ["feishu:ou_a"]);
    assert_eq!(refusal_targets("feishu:oc_g", ""), ["feishu:oc_g"]);
}

#[test]
fn quiet_hours_span_midnight() {
    let night = QuietHours { from: 22 * 60, to: 7 * 60 };
    assert!(night.contains(23 * 60) && night.contains(0) && night.contains(7 * 60 - 1));
    assert!(!night.contains(7 * 60) && !night.contains(12 * 60));
    let noon = QuietHours { from: 12 * 60, to: 13 * 60 };
    assert!(noon.contains(12 * 60) && !noon.contains(13 * 60) && !noon.contains(11 * 60));
}

#[test]
fn insisting() {
    assert_eq!(urgent_plan(true, Some("om_1".into()), "ou_a"), Urgency::Plain);
    assert_eq!(
        urgent_plan(false, Some("om_1".into()), "ou_a"),
        Urgency::Remind { message_id: "om_1".into(), user: "ou_a".into() }
    );
    assert_eq!(urgent_plan(false, None, "ou_a"), Urgency::Ring);
    assert_eq!(urgent_plan(false, Some("om_1".into()), ""), Urgency::Ring);
}

// Texts

#[test]
fn pieces_put_together_are_the_text() {
    let text = "一二三四五六七";
    let pieces = split_message(text, 3);
    assert_eq!(pieces, ["一二三", "四五六", "七"]);
    assert_eq!(pieces.concat(), text);
    assert_eq!(split_message("", 3), [""]);
    assert_eq!(split_message("abc", 3), ["abc"]);
}

#[test]
fn first_piece_of_a_comment_tells_how_many() {
    assert_eq!(outgoing_pieces("abcde", true, 2), ["（共 3 段）\nab", "cd", "e"]);
    assert_eq!(outgoing_pieces("abcde", false, 2), ["ab", "cd", "e"]);
    assert_eq!(outgoing_pieces("mail a@b.co", true, 100), ["mail a[at]b.co"]);
}

#[test]
fn failed_answer_is_sent_plainly() {
    let plan = plan_text(&conv("feishu:oc_g"), "hello", false, None, Some("om_1".into()), 100, 50)
        .unwrap();
    let flow = TextFlow::start();
    match flow.action(&plan) {
        TextAction::Reply { message_id, content } => {
            assert_eq!(message_id, "om_1");
            assert_eq!(value(&content)["text"], "hello");
        }
        other => panic!("{other:?}"),
    }
    let flow = flow.next(&plan, Err(bad("no")));
    assert_eq!(
        flow.action(&plan),
        TextAction::Send {
            receive_id: "oc_g".into(),
            kind: ReceiveIdKind::ChatId,
            text: "hello".into(),
            buzz: false
        }
    );
    let flow = flow.next(&plan, Ok(()));
    assert_eq!(flow.action(&plan), TextAction::Stop);
    assert_eq!(flow.outcome, Some(Ok(())));
}

#[test]
fn lost_piece_ends_the_text_with_its_number() {
    let plan = plan_text(&conv("feishu:ou_a"), "abcd", true, None, Some("om_1".into()), 2, 50).unwrap();
    assert_eq!(plan.anchor, None, "a text that rings answers nothing");
    let flow = TextFlow::start().next(&plan, Ok(()));
    assert_eq!(flow.outcome, None);
    let flow = flow.next(&plan, Err(bad("boom")));
    assert_eq!(
        flow.outcome,
        Some(Err(bad("第 2/2 片发送失败（回复可能被截断）：boom")))
    );
    assert_eq!(flow.action(&plan), TextAction::Stop);
}

#[test]
fn text_of_a_comment_answers_the_comment() {
    let plan = plan_text(&conv("feishu:comment:ft"), "hi", false, Some("c9"), None, 100, 50).unwrap();
    assert_eq!(
        TextFlow::start().action(&plan),
        TextAction::ReplyComment {
            file_token: "ft".into(),
            comment_id: "c9".into(),
            text: "hi".into()
        }
    );
    assert!(plan_text(&conv("feishu:comment:ft"), "hi", false, None, None, 100, 50).is_err());
}

// Cards

#[test]
fn card_falls_back_to_the_plainest_way() {
    let s = start_card(&conv("feishu:oc_g"));
    assert!(matches!(s, CardStage::Create));
    let s = card_step(s, true, Ok(Some("c1".into())));
    assert!(matches!(&s, CardStage::ShowAnchored(id) if id == "c1"));
    let s = card_step(s, true, Err(bad("x")));
    assert!(matches!(&s, CardStage::Show(id) if id == "c1"));
    let s = card_step(s, true, Err(bad("x")));
    assert!(matches!(s, CardStage::RawAnchored));
    let s = card_step(s, true, Err(bad("x")));
    assert!(matches!(s, CardStage::Raw));
    let s = card_step(s, true, Err(bad("last")));
    assert!(matches!(s, CardStage::Done(Err(e)) if e == bad("last")));
}

#[test]
fn sent_card_has_a_handle() {
    let s = card_step(start_card(&conv("feishu:oc_g")), false, Ok(Some("c1".into())));
    let s = card_step(s, false, Ok(Some("om_1".into())));
    assert!(matches!(s, CardStage::Done(Ok(Some(h))) if h == handle_of_card("c1")));
    let s = card_step(start_card(&conv("feishu:oc_g")), false, Err(bad("x")));
    assert!(matches!(s, CardStage::Raw));
    let s = card_step(s, false, Ok(Some("om_1".into())));
    assert!(matches!(s, CardStage::Done(Ok(Some(h))) if h == handle_of_message("om_1")));
    assert!(matches!(start_card(&conv("elsewhere")), CardStage::Done(Err(_))));
    assert!(matches!(start_card(&conv("feishu:oc_g:om_r")), CardStage::Thread));
}

#[test]
fn whole_card_is_sent_plainly_where_it_cannot_answer() {
    let s = start_whole_card(&conv("feishu:oc_g"), true);
    assert!(matches!(s, CardStage::RawAnchored));
    let s = card_step(s, true, Err(bad("x")));
    assert!(matches!(s, CardStage::Raw));
    let s = card_step(s, true, Ok(None));
    assert!(matches!(s, CardStage::Done(Ok(None))));
    assert!(matches!(start_whole_card(&conv("feishu:ou_a"), false), CardStage::Raw));
    assert!(matches!(start_whole_card(&conv("feishu:oc_g:om_r"), true), CardStage::Thread));
}

#[test]
fn question_is_put_as_text_where_no_card_can_be() {
    let s = start_ask(&conv("feishu:oc_g"));
    assert!(matches!(s, AskStage::Card));
    let s = ask_step(s, Err(bad("x")));
    assert!(matches!(s, AskStage::Text));
    let s = ask_step(s, Ok(None));
    assert!(matches!(s, AskStage::Done(Ok(_))));
    assert!(matches!(start_ask(&conv("feishu:comment:ft")), AskStage::Text));
}

#[test]
fn picture_and_file_messages() {
    let (kind, content) = media_message(true, "img_1");
    assert_eq!(kind, "image");
    assert_eq!(value(&content)["image_key"], "img_1");
    let (kind, content) = media_message(false, "file_1");
    assert_eq!(kind, "file");
    assert_eq!(value(&content)["file_key"], "file_1");
}

#[test]
fn ended_card_is_closed_whatever_happens() {
    let p = ManagedPatch::start(&card(CardTerminal::Done), false);
    assert_eq!(p.action(), PatchAction::Body);
    let p = p.next(Err(bad("body")));
    assert_eq!(p.action(), PatchAction::Footer);
    let p = p.next(Ok(()));
    assert_eq!(p.action(), PatchAction::Streaming(false));
    let p = p.next(Ok(()));
    assert_eq!(p.action(), PatchAction::Stop);
    assert_eq!(p.outcome(), Some(Err(bad("body"))));
}

#[test]
fn card_of_an_ended_task_is_forgotten_at_the_end() {
    for fails in [false, true] {
        let mut p = ManagedPatch::start(&card(CardTerminal::Done), false);
        let mut forgets = Vec::new();
        while p.action() != PatchAction::Stop {
            forgets.push(p.forgets_card());
            p = p.next(if fails { Err(CoreError::Platform("no route".into())) } else { Ok(()) });
        }
        assert_eq!(forgets, [false, false, true]);
        assert!(!p.forgets_card());
    }
    let mut p = ManagedPatch::start(&card(CardTerminal::Running), false);
    while p.action() != PatchAction::Stop {
        assert!(!p.forgets_card());
        p = p.next(Ok(()));
    }
}

#[test]
fn running_card_is_reopened_once_and_then_closed() {
    let late = || Err(bad("code=200850 streaming mode is closed"));
    let p = ManagedPatch::start(&card(CardTerminal::Running), false);
    assert!(matches!(p.stage, Stage::Body));
    let p = p.next(late());
    assert_eq!(p.action(), PatchAction::Streaming(true));
    let p = p.next(Ok(()));
    assert_eq!(p.action(), PatchAction::Body);
    let p = p.next(late());
    assert_eq!(p.action(), PatchAction::Streaming(false));
    let p = p.next(Ok(()));
    assert_eq!(p.action(), PatchAction::Body);
    let p = p.next(Ok(()));
    assert_eq!(p.action(), PatchAction::Footer);
    assert_eq!(p.next(Ok(())).outcome(), Some(Ok(())));
}

#[test]
fn change_that_comes_too_fast_is_dropped() {
    let p = ManagedPatch::start(&card(CardTerminal::Running), false);
    assert_eq!(p.next(Err(bad("HTTP 429"))).outcome(), Some(Ok(())));
}

#[test]
fn streaming_settings_text() {
    assert_eq!(streaming_settings(true), "{\"config\":{\"streaming_mode\":true}}");
    assert_eq!(streaming_settings(false), "{\"config\":{\"streaming_mode\":false}}");
}

#[test]
fn gone_card_is_reported_and_not_drawn_again() {
    let u = Update::start(&handle_of_card("c1"), true, false, Some("om_1".into()));
    assert!(matches!(u.stage, UpdateStage::Whole));
    let gone = Err(bad("code=230002"));
    assert!(u.forgets_card(&gone));
    let u = u.next(gone);
    match u.stage {
        UpdateStage::Done(Err(e)) => {
            assert!(e.message().contains(CARD_HANDLE_LOST), "{e:?}");
            assert!(is_card_not_exist_msg(e.message()));
        }
        other => panic!("{other:?}"),
    }
}

#[test]
fn ended_card_tells_at_least_its_end() {
    let u = Update::start(&handle_of_card("c1"), true, true, Some("om_1".into()));
    assert!(matches!(u.stage, UpdateStage::Managed));
    let u = u.next(Err(bad("code=300317 sequence")));
    assert!(matches!(u.stage, UpdateStage::ManagedAgain));
    let u = u.next(Err(bad("too long")));
    assert!(matches!(&u.stage, UpdateStage::Minimal(e) if *e == bad("too long")));
    assert_eq!(u.target_message().as_deref(), Some("om_1"));
    let u = u.next(Ok(()));
    assert!(matches!(u.stage, UpdateStage::Full), "the result follows below");
    let u = u.next(Ok(()));
    assert!(matches!(u.stage, UpdateStage::Done(Ok(()))));
}

#[test]
fn update_of_a_strange_handle_fails() {
    let u = Update::start("what", false, false, None);
    assert!(matches!(u.stage, UpdateStage::Done(Err(e)) if e == bad("非法卡片句柄: what")));
    let u = Update::start(&handle_of_message("om_1"), false, false, None);
    assert!(matches!(u.stage, UpdateStage::Raw));
    assert_eq!(u.target_message().as_deref(), Some("om_1"));
}

// Requests

#[test]
fn request_addresses_and_bodies() {
    let base = "https://h/";
    let r = create_reaction_request(base, "om_1", "OK");
    assert_eq!(r.method, Method::Post);
    assert_eq!(r.url, "https://h/open-apis/im/v1/messages/om_1/reactions");
    assert_eq!(value(r.body.as_deref().unwrap())["reaction_type"]["emoji_type"], "OK");
    let r = delete_reaction_request(base, "om_1", "rx");
    assert_eq!(r.method, Method::Delete);
    assert_eq!(r.url, "https://h/open-apis/im/v1/messages/om_1/reactions/rx");
    assert_eq!(r.body, None);
    let r = urgent_app_request(base, "om_1", "ou_a");
    assert_eq!(r.method, Method::Patch);
    assert_eq!(r.url, "https://h/open-apis/im/v1/messages/om_1/urgent_app?user_id_type=open_id");
    assert_eq!(value(r.body.as_deref().unwrap())["user_id_list"][0], "ou_a");
    let r = create_card_entity_request("{}");
    assert_eq!(r.url, "https://open.feishu.cn/open-apis/cardkit/v1/cards");
    assert_eq!(value(r.body.as_deref().unwrap())["type"], "card_json");
    let r = patch_card_element_request("c1", "md_body", "x", 7);
    assert_eq!(r.url, "https://open.feishu.cn/open-apis/cardkit/v1/cards/c1/elements/md_body");
    assert_eq!(value(r.body.as_deref().unwrap())["sequence"], 7);
    assert_eq!(value(r.body.as_deref().unwrap())["partial_element"], "{\"content\":\"x\"}");
    let r = patch_card_settings_request("c1", "{}", 8);
    assert_eq!(r.url, "https://open.feishu.cn/open-apis/cardkit/v1/cards/c1/settings");
    assert_eq!(value(r.body.as_deref().unwrap())["sequence"], 8);
    let r = resource_request(base, "om_1", "k1", "file");
    assert_eq!(r.method, Method::Get);
    assert_eq!(r.url, "https://h/open-apis/im/v1/messages/om_1/resources/k1?type=file");
    assert_eq!(upload_file_request(base).url, "https://h/open-apis/im/v1/files");
    assert_eq!(transcribe_request(base, "{}".into()).body.as_deref(), Some("{}"));
    assert_eq!(bot_info_request(base).url, "https://h/open-apis/bot/v3/info");
    let r = merge_forward_request(base, "om_1", Some("p2"));
    assert!(r.query.contains(&("page_token".to_string(), "p2".to_string())), "{r:?}");
    let r = reply_message_request(base, "om_1", "text", "{}");
    assert_eq!(r.url, "https://h/open-apis/im/v1/messages/om_1/reply");
    let nodes = Json::Arr(vec![comment_text("a"), comment_image("i")]);
    let r = reply_comment_request(base, "ft", "c1", nodes);
    assert!(r.url.contains("/files/ft/comments/c1/replies"), "{}", r.url);
}

#[test]
fn message_contents() {
    assert_eq!(value(&text_content("a\"b", false))["text"], "a\"b");
    assert_eq!(text_content("x", true), "{\"buzz\":true,\"text\":\"x\"}");
    assert_eq!(file_content("k"), "{\"file_key\":\"k\"}");
    assert_eq!(image_content("k"), "{\"image_key\":\"k\"}");
    let v = value(&card_ref_content("c1"));
    assert_eq!(v["type"], "card");
    assert_eq!(v["data"]["card_id"], "c1");
    assert_eq!(patch_card_body("{}").str_at("content"), Some("{}"));
}

// Replies

#[test]
fn reactions_and_reminders_answered() {
    let ok = doc("{\"code\":0,\"data\":{\"reaction_id\":\"r9\"}}");
    assert_eq!(create_reaction_reply("OK", Ok(ok)).unwrap(), "r9");
    assert!(create_reaction_reply("OK", Ok(doc("{\"code\":0}"))).is_err());
    let e = create_reaction_reply("OK", Ok(doc("{\"code\":5,\"msg\":\"no\"}"))).unwrap_err();
    assert!(e.message().contains("code=5") && e.message().contains("no"), "{e:?}");
    assert!(create_reaction_reply("OK", Err("broken".into())).is_err());
    assert!(delete_reaction_reply(Ok(doc("{\"code\":0}"))).is_ok());
    assert!(delete_reaction_reply(Ok(doc("{\"code\":1}"))).is_err());
    assert!(urgent_app_reply(200, "{\"code\":0}").is_ok());
    let e = urgent_app_reply(502, "bad \"gateway\"").unwrap_err();
    assert!(e.message().contains("502") && e.message().contains("\"bad \\\"gateway\\\"\""), "{e:?}");
}

#[test]
fn card_replies() {
    let ok = doc("{\"code\":0,\"data\":{\"card_id\":\"c7\"}}");
    assert_eq!(create_card_entity_reply(200, Ok(ok)).unwrap(), "c7");
    assert!(create_card_entity_reply(200, Ok(doc("{\"code\":0,\"data\":{}}"))).is_err());
    let e = create_card_entity_reply(429, Err("x".into())).unwrap_err();
    assert!(is_rate_limited_msg(e.message()), "{e:?}");
    assert!(cardkit_reply("patch", 200, Ok(doc("{\"code\":0}"))).is_ok());
    let e = cardkit_reply("patch", 429, Ok(doc("{\"code\":0}"))).unwrap_err();
    assert!(is_rate_limited_msg(e.message()), "{e:?}");
    assert!(cardkit_reply("patch", 200, Ok(doc("{\"code\":300317}"))).is_err());
}

#[test]
fn message_replies() {
    assert_eq!(sent_message_id(&doc("{\"message_id\":\"om_2\"}")).as_deref(), Some("om_2"));
    assert_eq!(sent_message_id(&doc("{}")), None);
    let ok = doc("{\"code\":0,\"data\":{\"message_id\":\"om_3\"}}");
    assert_eq!(reply_message_reply(200, Ok(ok)).unwrap().as_deref(), Some("om_3"));
    assert!(reply_message_reply(429, Ok(doc("{\"code\":0}"))).is_err());
    assert!(reply_comment_reply(200, Ok(doc("{\"code\":0}"))).is_ok());
    assert!(reply_comment_reply(200, Ok(doc("{\"code\":9}"))).is_err());
    let ok = doc("{\"code\":0,\"data\":{\"file_key\":\"f1\"}}");
    assert_eq!(upload_file_reply(200, Ok(ok)).unwrap(), "f1");
    assert!(upload_file_reply(200, Ok(doc("{\"code\":0}"))).is_err());
    let ok = doc("{\"code\":0,\"bot\":{\"open_id\":\"ou_bot\"}}");
    assert_eq!(bot_open_id_reply(Ok(ok)).unwrap(), "ou_bot");
    assert!(bot_open_id_reply(Ok(doc("{\"code\":0,\"bot\":{}}"))).is_err());
}

#[test]
fn downloads_are_bounded() {
    assert!(download_start(200, "200 OK", Some(MEDIA_MAX_BYTES)).is_ok());
    assert!(download_start(200, "200 OK", None).is_ok());
    assert!(download_start(200, "200 OK", Some(MEDIA_MAX_BYTES + 1)).is_err());
    assert!(download_start(404, "404 Not Found", None).is_err());
    let mut d = Download::new();
    d.take(&[1, 2]).unwrap();
    d.take(&[3]).unwrap();
    assert_eq!(d.finish(), [1, 2, 3]);
    let mut d = Download::new();
    let half = vec![0u8; MEDIA_MAX_BYTES as usize / 2 + 1];
    assert!(d.take(&half).is_ok());
    assert!(d.take(&half).is_err());
}

#[test]
fn voices_converted() {
    assert_eq!(pcm_outcome(true, vec![1, 2], "").unwrap(), [1, 2]);
    assert!(pcm_outcome(true, vec![], "").is_err());
    let e = pcm_outcome(false, vec![1], "no codec").unwrap_err();
    assert!(e.message().contains("no codec"), "{e:?}");
    assert_eq!(truncate_for_error("abc", 3), "abc");
    assert!(truncate_for_error("abcd", 3).starts_with("abc"));
}

#[test]
fn chats_listed_page_by_page() {
    let mut list = ChatList::new();
    assert_eq!(list.next_page(), None);
    let more = list.take(&doc(
        "{\"items\":[{\"chat_id\":\"oc_1\",\"name\":\"One\"},{\"name\":\"nobody\"}],\"has_more\":true,\"page_token\":\"p2\"}",
    ));
    assert!(more);
    assert_eq!(list.next_page(), Some("p2"));
    let more = list.take(&doc("{\"items\":[{\"chat_id\":\"oc_2\",\"name\":\"Two\"}]}"));
    assert!(!more);
    assert_eq!(
        list.finish(),
        [
            ("feishu:oc_1".to_string(), "One".to_string()),
            ("feishu:oc_2".to_string(), "Two".to_string())
        ]
    );
}

#[test]
fn listing_ends_after_the_last_page_allowed() {
    let mut list = ChatList::new();
    for i in 0..MAX_PAGES {
        let more = list.take(&doc("{\"items\":[],\"has_more\":true,\"page_token\":\"p\"}"));
        assert_eq!(more, i + 1 < MAX_PAGES);
    }
    assert!(ForwardList::new().finish().is_empty());
}
