//! Where an answer goes: from the conversation it is for, by whichever way, to the place where
//! people read it.
use vstd::prelude::*;

use crate::conv;
use crate::conv::ReceiveIdKind;
use crate::digits;
use crate::flows;
use crate::flows::{TextActionV, TextFlowV};
use crate::json;
use crate::json::JsonV;
use crate::markdown;
use crate::requests;
use crate::routing;
use crate::routing::{QuietHours, RouteV, UrgencyV};
use crate::text;

verus! {

/// Whether these name a thread in a chat.
pub open spec fn is_thread(chat: Seq<char>, root: Seq<char>) -> bool {
    &&& chat.len() > 0
    &&& !chat.contains(':')
    &&& chat != "comment"@
    &&& text::begins(root, "om_"@)
}

proof fn lemma_no_comment(id: Seq<char>, rest: Seq<char>)
    requires
        !id.contains(':'),
        id != "comment"@ || rest.len() == 0,
        rest.len() > 0 ==> rest[0] == ':',
    ensures
        conv::comment_target_of("feishu:"@ + id + rest) is None,
{
    let c = "feishu:"@ + id + rest;
    let p = "feishu:comment:"@;
    reveal_strlit("feishu:");
    reveal_strlit("feishu:comment:");
    reveal_strlit("comment");
    if text::begins(c, p) {
        assert forall|k: int| 0 <= k < 15 implies #[trigger] c[k] == p[k] by {
            assert(c.subrange(0, 15)[k] == p[k]);
        }
        assert(forall|k: int| 0 <= k < id.len() ==> c[7 + k] == #[trigger] id[k]);
        if id.len() > 7 {
            assert(id[7] == c[14]);
            assert(id.contains(':'));
        } else if id.len() < 7 {
            assert(rest.len() > 0);
            assert(c[7 + id.len() as int] == rest[0]);
            assert(p[7 + id.len() as int] != ':');
        } else {
            assert forall|k: int| 0 <= k < 7 implies #[trigger] id[k] == "comment"@[k] by {
                assert(id[k] == c[7 + k]);
            }
            assert(id =~= "comment"@);
            assert(rest.len() > 0);
        }
    }
}

proof fn lemma_thread(chat: Seq<char>, root: Seq<char>)
    requires
        is_thread(chat, root),
    ensures
        conv::comment_target_of(conv::thread_name(chat, root)) is None,
        conv::thread_target_of(conv::thread_name(chat, root)) == Some((chat, root)),
{
    reveal_strlit(":");
    let rest = ":"@ + root;
    assert(rest[0] == ':');
    lemma_no_comment(chat, rest);
    assert(conv::thread_name(chat, root) =~= "feishu:"@ + chat + rest);
    conv::law_thread_round_trip(chat, root);
}

pub proof fn lemma_chat(id: Seq<char>)
    requires
        !id.contains(':'),
    ensures
        conv::comment_target_of(conv::conv_name(id)) is None,
{
    lemma_no_comment(id, Seq::empty());
    assert(conv::conv_name(id) =~= "feishu:"@ + id + Seq::<char>::empty());
}

proof fn lemma_new_comment(file: Seq<char>)
    requires
        file.len() > 0,
        !file.contains(':'),
    ensures
        conv::comment_target_of("feishu:comment:"@ + file) == Some((file, None::<Seq<char>>)),
{
    conv::law_comment_round_trip(file);
}

proof fn lemma_old_comment(file: Seq<char>, comment: Seq<char>)
    requires
        file.len() > 0,
        !file.contains(':'),
        comment.len() > 0,
    ensures
        conv::comment_target_of("feishu:comment:"@ + file + ":"@ + comment) == Some(
            (file, Some(comment)),
        ),
{
    let rest = file + ":"@ + comment;
    reveal_strlit(":");
    text::lemma_after_own_prefix("feishu:comment:"@, rest);
    assert("feishu:comment:"@ + file + ":"@ + comment =~= "feishu:comment:"@ + rest);
    text::lemma_position(rest, ':');
    assert(rest[file.len() as int] == ':');
    assert forall|k: int| 0 <= k < file.len() implies rest[k] != ':' by {
        assert(file[k] == rest[k]);
        if rest[k] == ':' {
            assert(file.contains(':'));
        }
    }
    text::lemma_position_at(rest, ':', file.len() as int);
    assert(rest.subrange(0, file.len() as int) =~= file);
    assert(rest.subrange(file.len() as int + 1, rest.len() as int) =~= comment);
}

/// Whatever is sent to the conversation of a thread is an answer to the first message of that
/// thread: a text, a card, a picture, a file and a notice.
pub proof fn law_thread_is_answered_in_the_thread(
    chat: Seq<char>,
    root: Seq<char>,
    anchor: Option<Seq<char>>,
    missing: Seq<char>,
    image: bool,
)
    requires
        is_thread(chat, root),
    ensures
        ({
            let to = conv::thread_name(chat, root);
            let there = RouteV::Thread { root_id: root };
            &&& to == "feishu:"@ + chat + ":"@ + root
            &&& routing::text_route(to, anchor, missing) == Ok::<RouteV, Seq<char>>(there)
            &&& routing::card_route(to) == Ok::<RouteV, Seq<char>>(there)
            &&& routing::media_route(to, anchor, image) == Ok::<RouteV, Seq<char>>(there)
            &&& routing::notice_route(to) == Some(there)
        }),
{
    lemma_thread(chat, root);
}

/// Whatever is sent to the conversation with a chat or a person goes to that chat or person,
/// by the kind of its name.
pub proof fn law_chat_gets_what_is_for_it(
    id: Seq<char>,
    anchor: Option<Seq<char>>,
    missing: Seq<char>,
    image: bool,
)
    requires
        !id.contains(':'),
    ensures
        ({
            let to = "feishu:"@ + id;
            let kind = if text::begins(id, "ou_"@) {
                ReceiveIdKind::OpenId
            } else {
                ReceiveIdKind::ChatId
            };
            let there = RouteV::Chat { receive_id: id, kind };
            &&& routing::text_route(to, anchor, missing) == Ok::<RouteV, Seq<char>>(there)
            &&& routing::card_route(to) == Ok::<RouteV, Seq<char>>(there)
            &&& routing::media_route(to, anchor, image) == Ok::<RouteV, Seq<char>>(there)
            &&& routing::notice_route(to) == Some(there)
        }),
{
    lemma_chat(id);
    conv::law_conv_round_trip(id);
}

/// What is sent to the conversation of a document answers a comment on that document: the one
/// that came last, else the one in the name of the conversation. Where neither is known it
/// cannot be sent, and a file that is no picture never can.
pub proof fn law_comment_is_answered_on_its_document(
    file: Seq<char>,
    named: Seq<char>,
    anchor: Option<Seq<char>>,
    missing: Seq<char>,
)
    requires
        file.len() > 0,
        !file.contains(':'),
        named.len() > 0,
    ensures
        ({
            let to = "feishu:comment:"@ + file;
            let old = "feishu:comment:"@ + file + ":"@ + named;
            let at = match anchor {
                Some(c) => c,
                None => named,
            };
            let there = RouteV::Comment { file_token: file, comment_id: at };
            &&& routing::text_route(old, anchor, missing) == Ok::<RouteV, Seq<char>>(there)
            &&& routing::media_route(old, anchor, true) == Ok::<RouteV, Seq<char>>(there)
            &&& routing::media_route(old, anchor, false) is Err
            &&& routing::notice_route(old) == Some(
                RouteV::Comment { file_token: file, comment_id: named },
            )
            &&& anchor is Some ==> routing::text_route(to, anchor, missing) == Ok::<
                RouteV,
                Seq<char>,
            >(there)
            &&& anchor is Some ==> routing::media_route(to, anchor, true) == Ok::<RouteV, Seq<char>>(
                there,
            )
            &&& anchor is None ==> routing::text_route(to, anchor, missing) == Err::<
                RouteV,
                Seq<char>,
            >(missing)
            &&& anchor is None ==> routing::media_route(to, anchor, true) is Err
            &&& routing::media_route(to, anchor, false) is Err
            &&& routing::notice_route(to) is None
        }),
{
    lemma_new_comment(file);
    lemma_old_comment(file, named);
}

/// Only what is for neither a comment nor a thread goes to a chat; and what is for no
/// conversation of the platform goes nowhere.
pub proof fn law_chats_are_the_rest(to: Seq<char>, anchor: Option<Seq<char>>, missing: Seq<char>)
    ensures
        routing::text_route(to, anchor, missing) matches Ok(RouteV::Chat { .. })
            ==> conv::comment_target_of(to) is None && conv::thread_target_of(to) is None,
        routing::text_route(to, anchor, missing) matches Ok(RouteV::Thread { .. })
            ==> conv::comment_target_of(to) is None,
        !text::begins(to, "feishu:"@) ==> routing::text_route(to, anchor, missing) is Err
            && routing::card_route(to) is Err && routing::media_route(to, anchor, true) is Err
            && routing::notice_route(to) is None,
{
    reveal_strlit("feishu:");
    reveal_strlit("feishu:comment:");
    if text::begins(to, "feishu:comment:"@) {
        assert("feishu:comment:"@.subrange(0, 7) =~= "feishu:"@);
        assert(to.subrange(0, 7) =~= to.subrange(0, 15).subrange(0, 7));
    }
}

/// The document in which a text is sent holds the text; it rings only where that is wanted.
pub open spec fn is_text_document(j: JsonV, said: Seq<char>, ring: bool) -> bool {
    &&& j.str_at("text"@) == Some(said)
    &&& (j.at("buzz"@) == JsonV::Bool(true)) == ring
}

proof fn lemma_text_document(said: Seq<char>, ring: bool)
    ensures
        is_text_document(requests::text_content_v(said, ring), said, ring),
{
    reveal_strlit("text");
    reveal_strlit("buzz");
    assert("text"@[0] == 't');
    assert("buzz"@[0] == 'b');
}

/// A text for a thread is sent piece by piece as answers to the first message of the thread,
/// and as nothing else.
pub proof fn law_text_stays_in_its_thread(
    chat: Seq<char>,
    root: Seq<char>,
    said: Seq<char>,
    buzz: bool,
    comment: Option<Seq<char>>,
    reply: Option<Seq<char>>,
    text_max: nat,
    comment_max: nat,
    s: TextFlowV,
)
    requires
        is_thread(chat, root),
        s.outcome is None,
    ensures
        flows::text_plan(
            conv::thread_name(chat, root),
            said,
            buzz,
            comment,
            reply,
            text_max,
            comment_max,
        ) matches Ok(p) && (s.at < p.pieces.len() ==> (flows::text_action(p, s) matches TextActionV::Reply {
            message_id,
            content,
        } && message_id == root && exists|j: JsonV|
            #[trigger] json::json_string(j) == content && is_text_document(
                j,
                p.pieces[s.at as int],
                false,
            ))),
{
    lemma_thread(chat, root);
    let p = flows::text_plan(
        conv::thread_name(chat, root),
        said,
        buzz,
        comment,
        reply,
        text_max,
        comment_max,
    )->Ok_0;
    if s.at < p.pieces.len() {
        lemma_text_document(p.pieces[s.at as int], false);
    }
}

/// A text for a chat answers the message that the round began with, where there is one and the
/// text does not ring; else, and where answering has failed, it is sent to the chat itself.
pub proof fn law_text_reaches_its_chat(
    id: Seq<char>,
    said: Seq<char>,
    buzz: bool,
    comment: Option<Seq<char>>,
    reply: Option<Seq<char>>,
    text_max: nat,
    comment_max: nat,
    s: TextFlowV,
)
    requires
        !id.contains(':'),
        s.outcome is None,
    ensures
        flows::text_plan("feishu:"@ + id, said, buzz, comment, reply, text_max, comment_max) matches Ok(
            p,
        ) && (s.at < p.pieces.len() ==> if reply is Some && !buzz && !s.direct {
            flows::text_action(p, s) matches TextActionV::Reply { message_id, content } && Some(
                message_id,
            ) == reply && exists|j: JsonV|
                #[trigger] json::json_string(j) == content && is_text_document(
                    j,
                    p.pieces[s.at as int],
                    false,
                )
        } else {
            flows::text_action(p, s) matches TextActionV::Send { receive_id, text, buzz: rings, .. }
                && receive_id == id && text == p.pieces[s.at as int] && rings == buzz
        }),
{
    lemma_chat(id);
    conv::law_conv_round_trip(id);
    let p = flows::text_plan("feishu:"@ + id, said, buzz, comment, reply, text_max, comment_max)->Ok_0;
    if s.at < p.pieces.len() {
        lemma_text_document(p.pieces[s.at as int], false);
    }
}

/// A text for a document answers a comment on it, piece by piece.
pub proof fn law_text_answers_its_comment(
    file: Seq<char>,
    said: Seq<char>,
    buzz: bool,
    comment: Seq<char>,
    reply: Option<Seq<char>>,
    text_max: nat,
    comment_max: nat,
    s: TextFlowV,
)
    requires
        file.len() > 0,
        !file.contains(':'),
        s.outcome is None,
    ensures
        flows::text_plan(
            "feishu:comment:"@ + file,
            said,
            buzz,
            Some(comment),
            reply,
            text_max,
            comment_max,
        ) matches Ok(p) && (s.at < p.pieces.len() ==> flows::text_action(p, s)
            == (TextActionV::ReplyComment {
            file_token: file,
            comment_id: comment,
            text: p.pieces[s.at as int],
        })),
{
    lemma_new_comment(file);
}

/// A text is sent as a whole and in order: its pieces, put together again, are the text with
/// its mail addresses masked, and none is longer than the limit. In a comment only the first
/// piece has something before it: how many there are.
pub proof fn law_text_is_sent_as_a_whole(said: Seq<char>, in_comment: bool, max: nat)
    requires
        max > 0,
    ensures
        ({
            let sent = routing::outgoing(said, in_comment, max);
            let whole = routing::pieces(markdown::masked(said), max);
            &&& sent.len() == whole.len() && sent.len() > 0
            &&& routing::put_together(whole) == markdown::masked(said)
            &&& !in_comment ==> sent == whole
            &&& forall|i: int| 0 < i < sent.len() ==> sent[i] == #[trigger] whole[i]
            &&& in_comment && sent.len() > 1 ==> text::ends(sent[0], whole[0]) && text::begins(
                sent[0],
                "（共 "@ + digits::dec(sent.len() as int) + " 段）"@,
            )
            &&& sent.len() == 1 ==> sent == whole
            &&& forall|i: int| 0 <= i < whole.len() ==> (#[trigger] whole[i]).len() <= max
        }),
{
    let whole = routing::pieces(markdown::masked(said), max);
    routing::law_pieces_complete(markdown::masked(said), max);
    reveal_with_fuel(routing::pieces, 2);
    if in_comment && whole.len() > 1 {
        let count = "（共 "@ + digits::dec(whole.len() as int) + " 段）"@;
        let first = "（共 "@ + digits::dec(whole.len() as int) + " 段）\n"@ + whole[0];
        reveal_strlit(" 段）");
        reveal_strlit(" 段）\n");
        assert(" 段）\n"@ =~= " 段）"@ + seq!['\n']);
        assert(first =~= count + seq!['\n'] + whole[0]);
        assert(first.subrange(0, count.len() as int) =~= count);
        assert(first.subrange(first.len() - whole[0].len(), first.len() as int) =~= whole[0]);
    }
}

/// A piece that could not be sent at all ends the whole, and what went wrong is told together
/// with which piece it was; a piece that was sent is followed by the next one.
pub proof fn law_failed_piece_is_told(
    p: flows::TextPlanV,
    s: TextFlowV,
    e: Seq<char>,
)
    requires
        s.outcome is None,
        s.at < p.pieces.len(),
    ensures
        !flows::answering(p, s) ==> (flows::next_text(p, s, Some(e)).outcome matches Some(Err(m))
            && text::ends(m, e) && text::begins(
            m,
            "第 "@ + digits::dec(s.at as int + 1) + "/"@ + digits::dec(p.pieces.len() as int),
        )),
        flows::next_text(p, s, None).at == s.at + 1,
        flows::next_text(p, s, None).outcome == (if s.at + 1 == p.pieces.len() {
            Some(Ok::<(), Seq<char>>(()))
        } else {
            None
        }),
{
    let m = routing::piece_error(s.at as int, p.pieces.len() as int, e);
    let front = "第 "@ + digits::dec(s.at as int + 1) + "/"@ + digits::dec(p.pieces.len() as int);
    assert(m.subrange(m.len() - e.len(), m.len() as int) =~= e);
    assert(m.subrange(0, front.len() as int) =~= front);
}

/// A refused click is told where the card is, and to the person who clicked, and nowhere else.
pub proof fn law_refusal_reaches_card_and_person(to: Seq<char>, who: Seq<char>)
    ensures
        routing::refusal_convs(to, who)[0] == to,
        who.len() > 0 ==> routing::refusal_convs(to, who).contains("feishu:"@ + who),
        forall|i: int|
            0 <= i < routing::refusal_convs(to, who).len() ==> (#[trigger] routing::refusal_convs(
                to,
                who,
            )[i]) == to || routing::refusal_convs(to, who)[i] == "feishu:"@ + who,
        routing::refusal_convs(to, who).no_duplicates(),
        who.len() == 0 ==> routing::refusal_convs(to, who).len() == 1,
{
    let all = routing::refusal_convs(to, who);
    if who.len() > 0 {
        if to == "feishu:"@ + who {
            assert(all[0] == "feishu:"@ + who);
        } else {
            assert(all[1] == "feishu:"@ + who);
        }
    }
}

/// The quiet hours begin with their first minute and end before their last; what is quiet by
/// some hours is not by the hours turned round, and the other way round.
pub proof fn law_quiet_hours(from: u32, to: u32, minute: int)
    requires
        from != to,
        0 <= minute,
    ensures
        routing::quiet_at(QuietHours { from, to }, from as int),
        !routing::quiet_at(QuietHours { from, to }, to as int),
        routing::quiet_at(QuietHours { from, to }, minute) != routing::quiet_at(
            QuietHours { from: to, to: from },
            minute,
        ),
        from <= minute < to ==> routing::quiet_at(QuietHours { from, to }, minute),
{
}

/// In quiet hours nothing rings. Else the last card is brought to the attention of the person
/// whose task it is, where both are known; where they are not, a text rings.
pub proof fn law_urgent_only_outside_quiet_hours(
    quiet: bool,
    tail: Option<Seq<char>>,
    who: Seq<char>,
)
    ensures
        quiet <==> routing::urgency(quiet, tail, who) is Plain,
        !quiet && tail is Some && who.len() > 0 ==> (routing::urgency(quiet, tail, who) matches UrgencyV::Remind {
            message_id,
            user,
        } && Some(message_id) == tail && user == who),
        !quiet && (tail is None || who.len() == 0) ==> routing::urgency(quiet, tail, who) is Ring,
{
}

/// An access token is used for one hour and fifty minutes.
pub proof fn law_token_lasts_110_minutes(t: Seq<char>, then: u64, now: int)
    requires
        now >= then,
    ensures
        now - then < 6600000 ==> routing::good_token(Some((t, then)), now) == Some(t),
        now - then >= 6600000 ==> routing::good_token(Some((t, then)), now) is None,
{
}

/// A text is cut to the limit of where it goes: that of comments in a comment, else that of
/// texts.
pub proof fn law_text_is_cut_to_its_limit(
    chat: Seq<char>,
    root: Seq<char>,
    id: Seq<char>,
    file: Seq<char>,
    comment: Seq<char>,
    said: Seq<char>,
    buzz: bool,
    reply: Option<Seq<char>>,
    text_max: nat,
    comment_max: nat,
)
    requires
        is_thread(chat, root),
        !id.contains(':'),
        file.len() > 0,
        !file.contains(':'),
    ensures
        flows::text_plan(
            conv::thread_name(chat, root),
            said,
            buzz,
            None,
            reply,
            text_max,
            comment_max,
        ) matches Ok(p) && p.pieces == routing::outgoing(said, false, text_max),
        flows::text_plan("feishu:"@ + id, said, buzz, None, reply, text_max, comment_max) matches Ok(p)
            && p.pieces == routing::outgoing(said, false, text_max),
        flows::text_plan(
            "feishu:comment:"@ + file,
            said,
            buzz,
            Some(comment),
            reply,
            text_max,
            comment_max,
        ) matches Ok(p) && p.pieces == routing::outgoing(said, true, comment_max),
{
    lemma_thread(chat, root);
    lemma_chat(id);
    conv::law_conv_round_trip(id);
    lemma_new_comment(file);
}

/// The limits are those of the platform, where none is set that is smaller.
pub proof fn law_limits_of_the_platform(n: usize)
    ensures
        routing::limit(None, routing::FEISHU_TEXT_MAX) == 28000,
        routing::limit(None, routing::FEISHU_COMMENT_TEXT_MAX) == 3000,
        n < 28000 ==> routing::limit(Some(n), routing::FEISHU_TEXT_MAX) == n,
        n >= 28000 ==> routing::limit(Some(n), routing::FEISHU_TEXT_MAX) == 28000,
        n < 3000 ==> routing::limit(Some(n), routing::FEISHU_COMMENT_TEXT_MAX) == n,
{
}

} // verus!
