//! What is got from the platform: how the files of a message are fetched and kept, and what a
//! reply comes to.
use vstd::prelude::*;

use crate::digits;
use crate::errors;
use crate::fetching;
use crate::fetching::Fetch;
use crate::forward;
use crate::json;
use crate::json::JsonV;
use crate::media;
use crate::message::PendingV;
use crate::model::{InboundV, MediaRefV};
use crate::replies;
use crate::replies::ChatListV;
use crate::requests;
use crate::text;

verus! {

// ---------------------------------------------------------------------------
// Files
// ---------------------------------------------------------------------------

proof fn lemma_media_kinds()
    ensures
        "image"@ != "file"@,
        "image"@ != "audio"@,
        "file"@ != "audio"@,
{
    reveal_strlit("image");
    reveal_strlit("file");
    reveal_strlit("audio");
    assert("image"@[0] == 'i' && "file"@[0] == 'f' && "audio"@[0] == 'a');
}

/// With a token a picture or a file is fetched and stored, and a voice is fetched and heard.
/// Where the token is no longer good, it is fetched again with a fresh one.
pub proof fn law_files_are_fetched(
    kind: Seq<char>,
    voices: bool,
    got: Seq<char>,
    e: Seq<char>,
)
    requires
        kind == "image"@ || kind == "file"@ || kind == "audio"@,
        errors::token_invalid(e),
    ensures
        ({
            let then = if kind != "audio"@ {
                Fetch::Store
            } else if voices {
                Fetch::Hear
            } else {
                Fetch::Done
            };
            &&& fetching::next_fetch(Fetch::Token, kind, voices, Ok(got)) == Fetch::Download
            &&& fetching::next_fetch(Fetch::Download, kind, voices, Ok(got)) == then
            &&& fetching::next_fetch(Fetch::Download, kind, voices, Err(e)) == Fetch::FreshToken
            &&& fetching::next_fetch(Fetch::FreshToken, kind, voices, Ok(got)) == Fetch::DownloadAgain
            &&& fetching::next_fetch(Fetch::DownloadAgain, kind, voices, Ok(got)) == then
            &&& fetching::next_fetch(Fetch::DownloadAgain, kind, voices, Err(e)) == Fetch::Done
            &&& fetching::next_fetch(Fetch::Store, kind, voices, Ok(got)) == Fetch::Done
            &&& fetching::next_fetch(Fetch::Hear, kind, voices, Ok(got)) == Fetch::Done
        }),
{
    lemma_media_kinds();
}

/// A stored file is added to its message with its kind and its place, behind those before it;
/// what was said in a voice is added to its text.
pub proof fn law_fetched_is_added(
    m: InboundV,
    p: PendingV,
    voices: bool,
    url: Seq<char>,
    said: Seq<char>,
    t: Seq<char>,
)
    requires
        !text::blank(t),
    ensures
        fetching::message_after(m, Fetch::Store, p, voices, Ok(url)).media == m.media.push(
            MediaRefV { kind: p.kind, url },
        ),
        fetching::message_after(m, Fetch::Store, p, voices, Ok(url)).text == m.text,
        m.text is None ==> fetching::message_after(m, Fetch::Hear, p, voices, Ok(said)).text == Some(
            "【语音】"@ + said,
        ),
        m.text == Some(t) ==> fetching::message_after(m, Fetch::Hear, p, voices, Ok(said)).text
            == Some(t + "\n\n"@ + ("【语音】"@ + said)),
        fetching::message_after(m, Fetch::Hear, p, voices, Ok(said)).media == m.media,
{
}

/// What keeps a file from its message is told in the message: which file it was, what failed,
/// and why. Nothing else of the message changes.
pub proof fn law_faults_are_told(
    m: InboundV,
    p: PendingV,
    voices: bool,
    got: Seq<char>,
    e: Seq<char>,
)
    requires
        !errors::token_invalid(e),
    ensures
        fetching::message_after(m, Fetch::Token, p, voices, Err(e)) == (InboundV {
            media_errors: m.media_errors.push(p.key + ": 取 token 失败: "@ + e),
            ..m
        }),
        fetching::message_after(m, Fetch::Download, p, voices, Err(e)) == (InboundV {
            media_errors: m.media_errors.push(p.key + ": 下载失败: "@ + e),
            ..m
        }),
        fetching::message_after(m, Fetch::FreshToken, p, voices, Err(e)) == (InboundV {
            media_errors: m.media_errors.push(p.key + ": 重取 token 失败: "@ + e),
            ..m
        }),
        fetching::message_after(m, Fetch::DownloadAgain, p, voices, Err(e)) == (InboundV {
            media_errors: m.media_errors.push(p.key + ": 下载失败: "@ + e),
            ..m
        }),
        fetching::message_after(m, Fetch::Store, p, voices, Err(e)) == (InboundV {
            media_errors: m.media_errors.push(p.key + ": 落盘失败: "@ + e),
            ..m
        }),
        fetching::message_after(m, Fetch::Hear, p, voices, Err(e)) == (InboundV {
            media_errors: m.media_errors.push("语音转写失败: "@ + e + "（可改发文字）"@),
            ..m
        }),
        p.kind == "audio"@ ==> fetching::message_after(m, Fetch::Download, p, false, Ok(got)) == (
        InboundV {
            media_errors: m.media_errors.push(
                "语音转写已关闭（feishu_asr_enabled=false），请改发文字"@,
            ),
            ..m
        }),
{
}

/// A file keeps the name that its sender gave it; a picture also gets an extension where it
/// has none; and what has no name is named by its key.
pub proof fn law_files_keep_their_names(key: Seq<char>, name: Seq<char>)
    requires
        name.len() > 0,
        !name.contains('/'),
        !name.contains('\\'),
        !text::is_ws(name[0]),
        !text::is_ws(name.last()),
    ensures
        media::media_name("file"@, key, Some(name)) == name,
        !name.contains('.') ==> media::media_name("image"@, key, Some(name)) == name + ".png"@,
        media::media_name("image"@, key, None) == key + ".png"@,
        media::media_name("file"@, key, None) == key + ".bin"@,
{
    lemma_media_kinds();
    lemma_no_last(name, '/', '\\');
    lemma_no_last(name, '.', '.');
    assert(name.subrange(0, name.len() as int) =~= name);
    assert(text::trim(name) == name);
}

proof fn lemma_no_last(s: Seq<char>, a: char, b: char)
    ensures
        !s.contains(a) && !s.contains(b) ==> media::last_of(s, a, b) == -1,
    decreases s.len(),
{
    if s.len() > 0 {
        lemma_no_last(s.drop_last(), a, b);
        assert(s.contains(s.last()));
        if s.drop_last().contains(a) {
            let k = choose|k: int| 0 <= k < s.len() - 1 && s.drop_last()[k] == a;
            assert(s[k] == a);
        }
        if s.drop_last().contains(b) {
            let k = choose|k: int| 0 <= k < s.len() - 1 && s.drop_last()[k] == b;
            assert(s[k] == b);
        }
    }
}

proof fn lemma_last_at(s: Seq<char>, a: char, b: char, i: int)
    requires
        0 <= i < s.len(),
        s[i] == a || s[i] == b,
        forall|k: int| i < k < s.len() ==> #[trigger] s[k] != a && s[k] != b,
    ensures
        media::last_of(s, a, b) == i,
    decreases s.len(),
{
    if i < s.len() - 1 {
        assert(s[s.len() - 1] != a && s[s.len() - 1] != b);
        lemma_last_at(s.drop_last(), a, b, i);
    }
}

/// Directories before a name are left out of it, whichever slash sets them apart.
pub proof fn law_directories_are_left_out(key: Seq<char>, dirs: Seq<char>, name: Seq<char>)
    requires
        name.len() > 0,
        !name.contains('/'),
        !name.contains('\\'),
        !text::is_ws(name[0]),
        !text::is_ws(name.last()),
    ensures
        media::media_name("file"@, key, Some(dirs + seq!['/'] + name)) == name,
        media::media_name("file"@, key, Some(dirs + seq!['\\'] + name)) == name,
{
    lemma_media_kinds();
    let a = dirs + seq!['/'] + name;
    let b = dirs + seq!['\\'] + name;
    let n = dirs.len() as int;
    assert forall|k: int| n < k < a.len() implies #[trigger] a[k] != '/' && a[k] != '\\' by {
        assert(a[k] == name[k - n - 1]);
        assert(name.contains(name[k - n - 1]));
    }
    assert forall|k: int| n < k < b.len() implies #[trigger] b[k] != '/' && b[k] != '\\' by {
        assert(b[k] == name[k - n - 1]);
        assert(name.contains(name[k - n - 1]));
    }
    lemma_last_at(a, '/', '\\', n);
    lemma_last_at(b, '/', '\\', n);
    assert(a.subrange(n + 1, a.len() as int) =~= name);
    assert(b.subrange(n + 1, b.len() as int) =~= name);
    assert(text::trim(name) == name);
}

/// A name that is free is used as it is; one that is taken gets a number before its extension.
pub proof fn law_taken_names_are_numbered(base: Seq<char>, ext: Seq<char>, taken: Seq<Seq<char>>)
    requires
        base.len() > 0,
        !base.contains('/'),
        !ext.contains('/'),
        !ext.contains('.'),
        ext.len() > 0,
    ensures
        ({
            let name = base + seq!['.'] + ext;
            &&& !taken.contains(name) ==> media::free_name(name, taken) == name
            &&& taken.len() > 1 && taken.contains(name) && !taken.contains(
                base + "-"@ + digits::dec(1) + (seq!['.'] + ext),
            ) ==> media::free_name(name, taken) == base + "-"@ + digits::dec(1) + (seq!['.'] + ext)
        }),
{
    let name = base + seq!['.'] + ext;
    assert forall|k: int| 0 <= k < name.len() implies #[trigger] name[k] != '/' by {
        if k < base.len() {
            assert(name[k] == base[k]);
            assert(base.contains(base[k]));
        } else if k > base.len() {
            assert(name[k] == ext[k - base.len() - 1]);
            assert(ext.contains(ext[k - base.len() - 1]));
        }
    }
    assert(!name.contains('/'));
    lemma_no_last(name, '/', '/');
    assert(media::last_part(name) =~= name);
    assert forall|k: int| base.len() < k < name.len() implies #[trigger] name[k] != '.' by {
        assert(name[k] == ext[k - base.len() - 1]);
        assert(ext.contains(ext[k - base.len() - 1]));
    }
    lemma_last_at(name, '.', '.', base.len() as int);
    reveal_strlit(".");
    reveal_strlit("..");
    assert("."@.len() == 1 && ".."@.len() == 2);
    assert(name != "."@);
    if name == ".."@ {
        assert(name.last() == ext.last());
        assert(ext.contains(ext.last()));
        assert(".."@[1] == '.');
    }
    assert(name.subrange(0, base.len() as int) =~= base);
    assert(name.subrange(base.len() as int, name.len() as int) =~= seq!['.'] + ext);
    reveal_with_fuel(media::free_from, 3);
    if taken.len() > 1 && taken.contains(name) {
        assert(media::candidate(name, 0) == name);
        assert(media::candidate(name, 1) == base + "-"@ + digits::dec(1) + (seq!['.'] + ext));
    }
}

// ---------------------------------------------------------------------------
// Replies
// ---------------------------------------------------------------------------

/// A reply with the code zero grants its request; any other code refuses it, and the refusal
/// tells what was asked for, the code and why. A reply that could not be read fails, with why.
pub proof fn law_replies_grant_or_refuse(op: Seq<char>, v: JsonV, code: i64, why: Seq<char>, e: Seq<char>)
    requires
        v.at("code"@) == JsonV::Num(digits::dec(code as int)),
        v.str_at("msg"@) == Some(why),
    ensures
        code == 0 ==> replies::granted(op, Ok(v)) == Ok::<JsonV, Seq<char>>(v),
        code != 0 ==> replies::granted(op, Ok(v)) == Err::<JsonV, Seq<char>>(
            op + ": code="@ + digits::dec(code as int) + " msg="@ + why,
        ),
        replies::granted(op, Err(e)) == Err::<JsonV, Seq<char>>(op + ": "@ + e),
        code == 0 ==> replies::granted_with(op, 200, Ok(v)) == Ok::<JsonV, Seq<char>>(v),
        forward::reply_code(v) == code,
{
    json::lemma_as_i64(code);
}

/// A reply without a code grants nothing.
pub proof fn law_reply_without_code_is_refused(op: Seq<char>, v: JsonV)
    requires
        v.at("code"@) is Null,
    ensures
        replies::granted(op, Ok(v)) is Err,
{
}

/// What is asked for is found among the data of a reply; where it is missing, that is told.
pub proof fn law_data_are_found(v: JsonV, field: Seq<char>, missing: Seq<char>, got: Seq<char>, e: Seq<char>)
    ensures
        v.at("data"@).str_at(field) == Some(got) ==> replies::needed_data(Ok(v), field, missing) == Ok::<
            Seq<char>,
            Seq<char>,
        >(got),
        v.at("data"@).str_at(field) is None ==> replies::needed_data(Ok(v), field, missing) == Err::<
            Seq<char>,
            Seq<char>,
        >(missing),
        replies::needed_data(Err(e), field, missing) == Err::<Seq<char>, Seq<char>>(e),
        replies::done(Ok(v)) == Ok::<(), Seq<char>>(()),
        replies::done(Err(e)) == Err::<(), Seq<char>>(e),
        replies::answer_id(Ok(v)) == Ok::<Option<Seq<char>>, Seq<char>>(
            v.at("data"@).str_at("message_id"@),
        ),
{
}

/// A reaction that was added is known by its identity; one that was refused is named.
pub proof fn law_added_reaction_is_known(emoji: Seq<char>, v: JsonV, code: i64, id: Seq<char>, why: Seq<char>)
    requires
        v.at("code"@) == JsonV::Num(digits::dec(code as int)),
        v.str_at("msg"@) == Some(why),
    ensures
        code == 0 && v.at("data"@).str_at("reaction_id"@) == Some(id) ==> replies::reaction_added(
            emoji,
            Ok(v),
        ) == Ok::<Seq<char>, Seq<char>>(id),
        code == 0 && v.at("data"@).str_at("reaction_id"@) is None ==> replies::reaction_added(
            emoji,
            Ok(v),
        ) is Err,
        code != 0 ==> (replies::reaction_added(emoji, Ok(v)) matches Err(m) && text::ends(
            m,
            " emoji="@ + emoji,
        )),
{
    json::lemma_as_i64(code);
    if code != 0 {
        let m = replies::refusal("create_reaction"@, v)->0;
        let all = m + " emoji="@ + emoji;
        let end = " emoji="@ + emoji;
        assert(all.subrange(all.len() - end.len(), all.len() as int) =~= end);
    }
}

/// What was said in a voice is what the platform wrote down, without white space around it; a
/// reply with no words in it is no success.
pub proof fn law_voice_is_heard(status: int, body: Seq<char>, v: JsonV, code: i64, said: Seq<char>)
    requires
        json::parsed_text(body) == Some(v),
        v.at("code"@) == JsonV::Num(digits::dec(code as int)),
        v.at("data"@).str_at("recognition_text"@) == Some(said),
        status != 429,
    ensures
        code == 0 && text::trim(said).len() > 0 ==> replies::heard_with(status, Ok(body)) == Ok::<
            Seq<char>,
            Seq<char>,
        >(text::trim(said)),
        code == 0 && text::trim(said).len() == 0 ==> replies::heard_with(status, Ok(body)) is Err,
        code != 0 ==> replies::heard_with(status, Ok(body)) is Err,
{
    json::lemma_as_i64(code);
}

/// A file is fetched where the platform sends it and it is not larger than fifty megabytes.
pub proof fn law_large_files_are_not_fetched(status: int, said: Seq<char>, n: u64)
    requires
        200 <= status < 300,
    ensures
        n <= 50 * 1024 * 1024 ==> replies::download_welcome(status, said, Some(n)) == Ok::<
            (),
            Seq<char>,
        >(()),
        n > 50 * 1024 * 1024 ==> replies::download_welcome(status, said, Some(n)) is Err,
        replies::download_welcome(status, said, None) == Ok::<(), Seq<char>>(()),
        replies::download_welcome(404, said, Some(n)) == Err::<(), Seq<char>>(
            "download resource: HTTP "@ + said,
        ),
        replies::download_welcome(429, said, Some(n)) is Err,
{
}

/// What a voice was converted to is taken only where that succeeded and left something.
pub proof fn law_converted_voice(samples: Seq<u8>, complaint: Seq<char>)
    ensures
        samples.len() > 0 ==> replies::converted(true, samples, complaint) == Ok::<
            Seq<u8>,
            Seq<char>,
        >(samples),
        samples.len() == 0 ==> replies::converted(true, samples, complaint) is Err,
        replies::converted(false, samples, complaint) is Err,
{
}

/// Who the bot is is found where the platform tells it.
pub proof fn law_bot_is_known(v: JsonV, id: Seq<char>)
    requires
        id.len() > 0,
    ensures
        v.at("bot"@).str_at("open_id"@) == Some(id) ==> replies::bot_identity(Ok(v)) == Ok::<
            Seq<char>,
            Seq<char>,
        >(id),
        !v.at("bot"@).has("open_id"@) && v.at("data"@).str_at("open_id"@) == Some(id)
            ==> replies::bot_identity(Ok(v)) == Ok::<Seq<char>, Seq<char>>(id),
        v.at("bot"@) is Null && v.at("data"@) is Null ==> replies::bot_identity(Ok(v)) is Err,
{
}

/// The chats of a page are listed in their order, each by its conversation and its name.
pub proof fn law_chats_in_order(items: Seq<JsonV>, item: JsonV, id: Seq<char>, name: Seq<char>)
    requires
        item.str_at("chat_id"@) == Some(id),
        item.str_at("name"@) == Some(name),
    ensures
        id.len() > 0 ==> replies::chats_in(items.push(item)) == replies::chats_in(items).push(
            ("feishu:"@ + id, name),
        ),
        id.len() == 0 ==> replies::chats_in(items.push(item)) == replies::chats_in(items),
{
    assert(items.push(item).drop_last() =~= items);
}

/// Page follows page: what was listed stays, what is on the page follows, and a further page is
/// asked for while there is one, up to ten pages and two hundred chats.
pub proof fn law_pages_follow(list: ChatListV, page: JsonV, token: Seq<char>)
    requires
        page.str_at("page_token"@) == Some(token),
        token.len() > 0,
    ensures
        ({
            let then = replies::with_chats(list, page);
            &&& then.chats == list.chats + replies::chats_in(page.at("items"@).elements())
            &&& then.pages == list.pages + 1
            &&& then.next == Some(token)
            &&& replies::more_chats(then, page) <==> page.at("has_more"@) == JsonV::Bool(true)
                && then.chats.len() < 200 && then.pages < 10
        }),
{
}

/// A voice is handed over under its name, as it was recorded.
pub proof fn law_voice_is_handed_over(speech: Seq<char>, id: Seq<char>)
    ensures
        replies::asr_body(speech, id).at("speech"@).str_at("speech"@) == Some(speech),
        replies::asr_body(speech, id).at("config"@).str_at("file_id"@) == Some(id),
        replies::asr_body(speech, id).at("config"@).str_at("format"@) == Some("pcm"@),
        replies::asr_body(speech, id).at("config"@).str_at("engine_type"@) == Some("16k_auto"@),
{
    reveal_strlit("speech");
    reveal_strlit("config");
    reveal_strlit("file_id");
    reveal_strlit("format");
    reveal_strlit("engine_type");
    assert("speech"@[0] == 's' && "config"@[0] == 'c');
    assert("file_id"@.len() == 7 && "format"@.len() == 6 && "engine_type"@.len() == 11);
}

/// A comment is answered with a text or with a picture, whichever it is.
pub proof fn law_comments_carry_text_or_picture(said: Seq<char>, key: Seq<char>)
    ensures
        requests::comment_text_v(said).elements().len() == 1,
        requests::comment_text_v(said).elements()[0].str_at("type"@) == Some("text"@),
        requests::comment_text_v(said).elements()[0].str_at("text"@) == Some(said),
        requests::comment_image_v(key).elements().len() == 1,
        requests::comment_image_v(key).elements()[0].str_at("type"@) == Some("img"@),
        requests::comment_image_v(key).elements()[0].str_at("file_key"@) == Some(key),
{
    reveal_strlit("type");
    reveal_strlit("text");
    reveal_strlit("file_key");
    assert("type"@[1] == 'y' && "text"@[1] == 'e' && "file_key"@.len() == 8);
}

/// An address of the platform's interface stands behind the base, whether that ends with a
/// slash or not.
pub proof fn law_addresses_stand_behind_the_base(base: Seq<char>, path: Seq<char>)
    requires
        base.len() > 0,
        base.last() != '/',
    ensures
        requests::api(base, path) == base + "/open-apis"@ + path,
        requests::api(base.push('/'), path) == base + "/open-apis"@ + path,
{
    assert(base.push('/').drop_last() =~= base);
    reveal_with_fuel(text::strip_end, 2);
}

/// A reminder was sent where the reply says so, and not where it refuses or cannot be read.
pub proof fn law_reminder_is_sent_or_not(status: int, body: Seq<char>, v: JsonV, code: i64)
    requires
        json::parsed_text(body) == Some(v),
        v.at("code"@) == JsonV::Num(digits::dec(code as int)),
    ensures
        replies::reminder_sent(status, body) is Ok <==> code == 0,
{
    json::lemma_as_i64(code);
}

/// A page of a forwarded conversation holds its messages, and says whether there are more and
/// where they are; one that was refused says why.
pub proof fn law_page_says_what_follows(
    page: forward::MergeForwardPage,
    v: JsonV,
    token: Seq<char>,
    code: i64,
    why: Seq<char>,
)
    requires
        v.at("data"@).str_at("page_token"@) == Some(token),
        token.len() > 0,
        v.at("code"@) == JsonV::Num(digits::dec(code as int)),
        v.str_at("msg"@) == Some(why),
    ensures
        forward::holds_page(page, v) ==> (page.has_more <==> v.at("data"@).at("has_more"@)
            == JsonV::Bool(true)) && text::oview(page.page_token) == Some(token),
        forward::page_error(v) == "list_merge_forward: code="@ + digits::dec(code as int) + " msg="@ + why,
{
    json::lemma_as_i64(code);
}

/// A time of day is told as hours and minutes, each with two digits, where the time of the
/// message is known, and not at all where it is not.
pub proof fn law_time_of_day(ms: int, t: Seq<char>)
    ensures
        forward::possible_time(ms, Some(t)) ==> ms > 0 && t.len() == 5 && t[2] == ':',
        ms <= 0 ==> forward::possible_time(ms, None) && !forward::possible_time(ms, Some(t)),
        0 < ms <= 8210266876799999 ==> !forward::possible_time(ms, None),
{
}

/// A request asks for what it is made for: by its method, at its address, with its document.
pub proof fn law_request_is_made_as_asked(method: requests::Method, url: Seq<char>, body: JsonV)
    ensures
        requests::request(method, url, Some(body)).method == method,
        requests::request(method, url, Some(body)).url == url,
        requests::request(method, url, Some(body)).body == Some(json::json_string(body)),
        requests::request(method, url, Some(body)).query.len() == 0,
        requests::request(method, url, None).body is None,
{
}

/// The time of a message is read from a number as well as from a text.
pub proof fn law_times_in_texts(at: i64)
    requires
        at >= 100_000_000_000,
    ensures
        forward::create_time(JsonV::Str(digits::dec(at as int))) == at,
        forward::create_time(JsonV::Num(digits::dec(at as int))) == at,
        forward::create_time(JsonV::Null) == 0,
{
    json::lemma_as_i64(at);
    digits::lemma_numeral_value(at as nat);
    assert(digits::is_digit(digits::dec(at as int)[0]));
}

/// A picture keeps the extension that it has. What is called by nothing but white space is
/// named by its key, and so is a voice.
pub proof fn law_names_with_extensions(key: Seq<char>, base: Seq<char>, ext: Seq<char>, blank: Seq<char>)
    requires
        base.len() > 0,
        ext.len() > 0,
        !base.contains('/'),
        !base.contains('\\'),
        !ext.contains('/'),
        !ext.contains('\\'),
        !ext.contains('.'),
        !text::is_ws(base[0]),
        !text::is_ws(ext.last()),
        text::trim(blank).len() == 0,
        !blank.contains('/'),
        !blank.contains('\\'),
    ensures
        media::media_name("image"@, key, Some(base + seq!['.'] + ext)) == base + seq!['.'] + ext,
        media::media_name("file"@, key, Some(blank)) == key + ".bin"@,
        media::media_name("image"@, key, Some(blank)) == key + ".png"@,
        media::media_name("audio"@, key, None) == key + ".bin"@,
{
    lemma_media_kinds();
    let name = base + seq!['.'] + ext;
    let n = base.len() as int;
    assert forall|k: int| 0 <= k < name.len() implies #[trigger] name[k] != '/' && name[k] != '\\' by {
        if k < n {
            assert(name[k] == base[k]);
            assert(base.contains(base[k]));
        } else if k > n {
            assert(name[k] == ext[k - n - 1]);
            assert(ext.contains(ext[k - n - 1]));
        }
    }
    assert(!name.contains('/') && !name.contains('\\'));
    lemma_no_last(name, '/', '\\');
    lemma_no_last(blank, '/', '\\');
    assert(name.subrange(0, name.len() as int) =~= name);
    assert(blank.subrange(0, blank.len() as int) =~= blank);
    assert(name[0] == base[0] && name.last() == ext.last());
    assert(text::trim(name) == name);
    assert forall|k: int| n < k < name.len() implies #[trigger] name[k] != '.' by {
        assert(name[k] == ext[k - n - 1]);
        assert(ext.contains(ext[k - n - 1]));
    }
    lemma_last_at(name, '.', '.', n);
}

/// A kind of file that is not known is passed over, with nothing changed.
pub proof fn law_unknown_kinds_are_passed_over(
    m: InboundV,
    p: PendingV,
    voices: bool,
    got: Seq<char>,
)
    requires
        p.kind != "image"@,
        p.kind != "file"@,
        p.kind != "audio"@,
    ensures
        fetching::next_fetch(Fetch::Token, p.kind, voices, Ok(got)) == Fetch::Done,
        fetching::message_after(m, Fetch::Token, p, voices, Ok(got)) == m,
{
}

} // verus!
