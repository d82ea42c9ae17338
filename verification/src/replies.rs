//! What the platform answers.
use base64::Engine;
use rand::Rng;
use vstd::prelude::*;

use crate::conv;
use crate::conv::conv_with;
use crate::digits;
use crate::digits::{dec_i64, dec_u64};
use crate::errors::CoreError;
use crate::forward;
use crate::forward::{code_of, MergedForwardItem, MergeForwardPage, parse_merge_forward_page};
use crate::json;
use crate::json::{Json, json_to_string, JsonV, Obj, parse_json_str, txt};
use crate::markdown;
use crate::markdown::truncate_chars;
use crate::model;
use crate::text;
use crate::text::{cat2, cat3, cat4, cat5, own, str_trim, take_nonempty};

verus! {

// ---------------------------------------------------------------------------
// Outcomes
// ---------------------------------------------------------------------------

/// A reply as it came in: a document, or why there is none.
pub type Parsed = Result<Json, String>;

/// A reply by its view.
pub open spec fn parsed_view(p: Parsed) -> Result<JsonV, Seq<char>> {
    match p {
        Ok(j) => Ok(j@),
        Err(e) => Err(e@),
    }
}

/// What comes of a reply, by its view. Every error is one of the platform's.
pub open spec fn comes_to<T: View>(r: Result<T, CoreError>, want: Result<T::V, Seq<char>>) -> bool {
    match (r, want) {
        (Ok(a), Ok(b)) => a@ == b,
        (Err(e), Err(m)) => e is Platform && e@ == m,
        _ => false,
    }
}

/// Why a reply turns a request down; `None` where it does not.
pub open spec fn refusal(op: Seq<char>, v: JsonV) -> Option<Seq<char>> {
    if forward::reply_code(v) == 0 {
        None
    } else {
        Some(
            op + ": code="@ + digits::dec(forward::reply_code(v)) + " msg="@ + text::or_text(
                v.str_at("msg"@),
                Seq::empty(),
            ),
        )
    }
}

/// The document of a reply that grants the request, else what went wrong.
pub open spec fn granted(op: Seq<char>, p: Result<JsonV, Seq<char>>) -> Result<JsonV, Seq<char>> {
    match p {
        Ok(v) => match refusal(op, v) {
            Some(m) => Err(m),
            None => Ok(v),
        },
        Err(e) => Err(op + ": "@ + e),
    }
}

/// The same, where the status of the reply can also say that requests come too fast.
pub open spec fn granted_with(
    op: Seq<char>,
    status: int,
    p: Result<JsonV, Seq<char>>,
) -> Result<JsonV, Seq<char>> {
    if status == 429 {
        Err(op + ": HTTP 429"@)
    } else {
        granted(op, p)
    }
}

/// A text in a reply, which must be there.
pub open spec fn needed(
    p: Result<JsonV, Seq<char>>,
    field: Option<Seq<char>>,
    missing: Seq<char>,
) -> Result<Seq<char>, Seq<char>> {
    match p {
        Ok(_) => match field {
            Some(s) => Ok(s),
            None => Err(missing),
        },
        Err(e) => Err(e),
    }
}

/// A text among the data of a reply, which must be there.
pub open spec fn needed_data(
    p: Result<JsonV, Seq<char>>,
    field: Seq<char>,
    missing: Seq<char>,
) -> Result<Seq<char>, Seq<char>> {
    match p {
        Ok(v) => needed(p, v.at("data"@).str_at(field), missing),
        Err(e) => Err(e),
    }
}

/// Only whether a request was granted.
pub open spec fn done(p: Result<JsonV, Seq<char>>) -> Result<(), Seq<char>> {
    match p {
        Ok(_) => Ok(()),
        Err(e) => Err(e),
    }
}

fn refused(op: &str, v: &Json) -> (r: Option<String>)
    ensures
        text::oview(r) == refusal(op@, v@),
{
    let code: i64 = code_of(v);
    if code == 0 {
        return None;
    }
    let msg = match v.str_at("msg") {
        Some(s) => s,
        None => {
            let ghost none = Seq::<char>::empty();
            proof {
                reveal_strlit("");
                assert(""@ =~= none);
            }
            ""
        },
    };
    Some(cat5(op, ": code=", dec_i64(code).as_str(), " msg=", msg))
}

fn grant(op: &str, p: Parsed) -> (r: Result<Json, CoreError>)
    ensures
        comes_to(r, granted(op@, parsed_view(p))),
{
    match p {
        Ok(v) => match refused(op, &v) {
            Some(m) => Err(CoreError::Platform(m)),
            None => Ok(v),
        },
        Err(e) => Err(CoreError::Platform(cat3(op, ": ", e.as_str()))),
    }
}

fn grant_with(op: &str, status: u16, p: Parsed) -> (r: Result<Json, CoreError>)
    ensures
        comes_to(r, granted_with(op@, status as int, parsed_view(p))),
{
    if status == 429 {
        Err(CoreError::Platform(cat2(op, ": HTTP 429")))
    } else {
        grant(op, p)
    }
}

fn need(r: Result<Json, CoreError>, within: &str, field: &str, missing: &str) -> (out: Result<
    String,
    CoreError,
>)
    ensures
        match r {
            Ok(v) => comes_to(
                out,
                needed(Ok(v@), v@.at(within@).str_at(field@), missing@),
            ),
            Err(e) => out == Err::<String, CoreError>(e),
        },
{
    match r {
        Ok(v) => match v.at(within).str_at(field) {
            Some(s) => Ok(s.to_owned()),
            None => Err(CoreError::Platform(missing.to_owned())),
        },
        Err(e) => Err(e),
    }
}

fn finish(r: Result<Json, CoreError>) -> (out: Result<(), CoreError>)
    ensures
        match r {
            Ok(_) => out is Ok,
            Err(e) => out == Err::<(), CoreError>(e),
        },
{
    match r {
        Ok(_) => Ok(()),
        Err(e) => Err(e),
    }
}

// ---------------------------------------------------------------------------
// Reactions and reminders
// ---------------------------------------------------------------------------

/// The identity of a reaction that was added.
pub open spec fn reaction_added(emoji: Seq<char>, p: Result<JsonV, Seq<char>>) -> Result<
    Seq<char>,
    Seq<char>,
> {
    match p {
        Ok(v) => match refusal("create_reaction"@, v) {
            Some(m) => Err(m + " emoji="@ + emoji),
            None => needed(
                p,
                v.at("data"@).str_at("reaction_id"@),
                "create_reaction: 响应缺 reaction_id"@,
            ),
        },
        Err(e) => Err("create_reaction: "@ + e),
    }
}

/// The identity of a reaction that was added.
pub fn create_reaction_reply(emoji_type: &str, p: Parsed) -> (r: Result<String, CoreError>)
    ensures
        comes_to(r, reaction_added(emoji_type@, parsed_view(p))),
{
    match p {
        Ok(v) => match refused("create_reaction", &v) {
            Some(m) => Err(CoreError::Platform(cat3(m.as_str(), " emoji=", emoji_type))),
            None => need(
                Ok(v),
                "data",
                "reaction_id",
                "create_reaction: 响应缺 reaction_id",
            ),
        },
        Err(e) => Err(CoreError::Platform(cat2("create_reaction: ", e.as_str()))),
    }
}

/// Whether a reaction was taken away.
pub fn delete_reaction_reply(p: Parsed) -> (r: Result<(), CoreError>)
    ensures
        comes_to(r, done(granted("delete_reaction"@, parsed_view(p)))),
{
    finish(grant("delete_reaction", p))
}

/// What a text looks like in quotes, with what is special in it escaped.
pub uninterp spec fn quoted_text(s: Seq<char>) -> Seq<char>;

/// A text in quotes: what `format!` makes of it with `{:?}`.
#[verifier::external_body]
fn quoted(s: &str) -> (r: String)
    ensures
        r@ == quoted_text(s@),
{
    format!("{s:?}")
}

/// Whether a reminder was sent.
pub open spec fn reminder_sent(status: int, body: Seq<char>) -> Result<(), Seq<char>> {
    match json::parsed_text(body) {
        Some(v) => match refusal("urgent_app_buzz"@, v) {
            Some(m) => Err(m),
            None => Ok(()),
        },
        None => Err(
            "urgent_app_buzz: HTTP "@ + digits::dec(status) + " 非 JSON 响应: "@ + quoted_text(body),
        ),
    }
}

/// Whether a reminder was sent.
pub fn urgent_app_reply(status: u16, body: &str) -> (r: Result<(), CoreError>)
    ensures
        comes_to(r, reminder_sent(status as int, body@)),
{
    match parse_json_str(body) {
        Some(v) => match refused("urgent_app_buzz", &v) {
            Some(m) => Err(CoreError::Platform(m)),
            None => Ok(()),
        },
        None => Err(
            CoreError::Platform(
                cat4(
                    "urgent_app_buzz: HTTP ",
                    dec_u64(status as u64).as_str(),
                    " 非 JSON 响应: ",
                    quoted(body).as_str(),
                ),
            ),
        ),
    }
}

// ---------------------------------------------------------------------------
// Cards and messages
// ---------------------------------------------------------------------------

/// The identity of a card that was made.
pub fn create_card_entity_reply(status: u16, p: Parsed) -> (r: Result<String, CoreError>)
    ensures
        comes_to(
            r,
            needed_data(
                granted_with("create_card_entity"@, status as int, parsed_view(p)),
                "card_id"@,
                "create_card_entity: 响应缺 card_id"@,
            ),
        ),
{
    need(
        grant_with("create_card_entity", status, p),
        "data",
        "card_id",
        "create_card_entity: 响应缺 card_id",
    )
}

/// Whether a card took a change.
pub fn cardkit_reply(op: &str, status: u16, p: Parsed) -> (r: Result<(), CoreError>)
    ensures
        comes_to(r, done(granted_with(op@, status as int, parsed_view(p)))),
{
    finish(grant_with(op, status, p))
}

/// The identity of a message that was sent, where the reply tells.
pub fn sent_message_id(data: &Json) -> (r: Option<String>)
    ensures
        text::oview(r) == data@.str_at("message_id"@),
{
    own(data.str_at("message_id"))
}

/// Whether a comment was answered.
pub fn reply_comment_reply(status: u16, p: Parsed) -> (r: Result<(), CoreError>)
    ensures
        comes_to(r, done(granted_with("reply_comment"@, status as int, parsed_view(p)))),
{
    finish(grant_with("reply_comment", status, p))
}

/// The identity of an answer, where the reply tells.
pub open spec fn answer_id(p: Result<JsonV, Seq<char>>) -> Result<Option<Seq<char>>, Seq<char>> {
    match p {
        Ok(v) => Ok(v.at("data"@).str_at("message_id"@)),
        Err(e) => Err(e),
    }
}

/// The identity of an answer, where the reply tells.
pub fn reply_message_reply(status: u16, p: Parsed) -> (r: Result<Option<String>, CoreError>)
    ensures
        match (r, answer_id(granted_with("reply_message"@, status as int, parsed_view(p)))) {
            (Ok(a), Ok(b)) => text::oview(a) == b,
            (Err(e), Err(m)) => e is Platform && e@ == m,
            _ => false,
        },
{
    match grant_with("reply_message", status, p) {
        Ok(v) => Ok(own(v.at("data").str_at("message_id"))),
        Err(e) => Err(e),
    }
}

// ---------------------------------------------------------------------------
// Files
// ---------------------------------------------------------------------------

/// The largest file that is fetched.
pub const MEDIA_MAX_BYTES: u64 = 52428800;

/// Whether the body of a reply with a file is to be read: what the status and the announced
/// length say.
pub open spec fn download_welcome(status: int, status_text: Seq<char>, length: Option<u64>) -> Result<
    (),
    Seq<char>,
> {
    if status == 429 {
        Err("download resource: HTTP 429"@)
    } else if !(200 <= status < 300) {
        Err("download resource: HTTP "@ + status_text)
    } else {
        match length {
            Some(n) => if n > MEDIA_MAX_BYTES {
                Err(
                    "download resource too large: "@ + digits::dec(n as int) + " > "@ + digits::dec(
                        MEDIA_MAX_BYTES as int,
                    ) + " bytes"@,
                )
            } else {
                Ok(())
            },
            None => Ok(()),
        }
    }
}

/// Whether the body of a reply with a file is to be read.
pub fn download_start(status: u16, status_text: &str, length: Option<u64>) -> (r: Result<
    (),
    CoreError,
>)
    ensures
        comes_to(r, download_welcome(status as int, status_text@, length)),
{
    if status == 429 {
        return Err(CoreError::Platform("download resource: HTTP 429".to_owned()));
    }
    if status < 200 || status >= 300 {
        return Err(CoreError::Platform(cat2("download resource: HTTP ", status_text)));
    }
    match length {
        Some(n) => if n > MEDIA_MAX_BYTES {
            Err(
                CoreError::Platform(
                    cat5(
                        "download resource too large: ",
                        dec_u64(n).as_str(),
                        " > ",
                        dec_u64(MEDIA_MAX_BYTES).as_str(),
                        " bytes",
                    ),
                ),
            )
        } else {
            Ok(())
        },
        None => Ok(()),
    }
}

/// What has been read of a file. It never holds more than the limit.
#[derive(Debug)]
pub struct Download {
    bytes: Vec<u8>,
}

impl View for Download {
    type V = Seq<u8>;

    closed spec fn view(&self) -> Seq<u8> {
        self.bytes@
    }
}

impl Download {
    #[verifier::type_invariant]
    spec fn within_limit(self) -> bool {
        self.bytes@.len() <= MEDIA_MAX_BYTES
    }

    /// Nothing has been read yet.
    pub fn new() -> (r: Download)
        ensures
            r@ == Seq::<u8>::empty(),
    {
        Download { bytes: Vec::new() }
    }

    /// Takes the next piece of the file, unless the file then exceeds the limit.
    pub fn take(&mut self, chunk: &[u8]) -> (r: Result<(), CoreError>)
        ensures
            r is Ok <==> old(self)@.len() + chunk@.len() <= MEDIA_MAX_BYTES,
            r is Ok ==> final(self)@ == old(self)@ + chunk@,
            r matches Err(e) ==> final(self)@ == old(self)@ && e is Platform && e@
                == "download resource too large: > "@ + digits::dec(MEDIA_MAX_BYTES as int)
                + " bytes (streamed)"@,
    {
        proof {
            use_type_invariant(&*self);
        }
        if chunk.len() as u64 > MEDIA_MAX_BYTES - self.bytes.len() as u64 {
            return Err(
                CoreError::Platform(
                    cat3(
                        "download resource too large: > ",
                        dec_u64(MEDIA_MAX_BYTES).as_str(),
                        " bytes (streamed)",
                    ),
                ),
            );
        }
        let mut all: Vec<u8> = Vec::new();
        std::mem::swap(&mut all, &mut self.bytes);
        all.extend_from_slice(chunk);
        assert(all@ =~= old(self)@ + chunk@);
        self.bytes = all;
        Ok(())
    }

    /// The file as far as it has been read.
    pub fn finish(self) -> (r: Vec<u8>)
        ensures
            r@ == self@,
            r@.len() <= MEDIA_MAX_BYTES,
    {
        proof {
            use_type_invariant(&self);
        }
        self.bytes
    }
}

/// The key of a file that was sent.
pub fn upload_file_reply(status: u16, p: Parsed) -> (r: Result<String, CoreError>)
    ensures
        comes_to(
            r,
            needed_data(
                granted_with("upload_file"@, status as int, parsed_view(p)),
                "file_key"@,
                "upload_file: 响应缺 file_key"@,
            ),
        ),
{
    need(
        grant_with("upload_file", status, p),
        "data",
        "file_key",
        "upload_file: 响应缺 file_key",
    )
}

// ---------------------------------------------------------------------------
// Voices
// ---------------------------------------------------------------------------

/// A piece of a text for an error: cut off and marked as such where it is too long.
pub fn truncate_for_error(s: &str, max_chars: usize) -> (r: String)
    ensures
        r@ == markdown::shortened(s@, max_chars as nat),
{
    truncate_chars(s, max_chars)
}

/// What to check where the platform does not write voices down.
pub open spec fn asr_hint(code: int) -> Seq<char> {
    if code == 99991400 {
        "（检查飞书后台已开通「语音识别」权限并发布版本；免费版企业不支持本接口）"@
    } else {
        Seq::empty()
    }
}

/// What a voice says, as the platform wrote it down.
pub open spec fn heard(status: int, body: Seq<char>) -> Result<Seq<char>, Seq<char>> {
    match json::parsed_text(body) {
        Some(v) => match refusal("transcribe_audio"@, v) {
            Some(m) => Err(m + asr_hint(forward::reply_code(v))),
            None => match v.at("data"@).str_at("recognition_text"@) {
                Some(t) => if text::trim(t).len() > 0 {
                    Ok(text::trim(t))
                } else {
                    Err("transcribe_audio: 响应缺文本"@)
                },
                None => Err("transcribe_audio: 响应缺文本"@),
            },
        },
        None => Err(
            "transcribe_audio: HTTP "@ + digits::dec(status) + " 非 JSON 响应: "@ + markdown::shortened(body, 120),
        ),
    }
}

/// What a voice says, as the platform wrote it down.
pub fn parse_asr_response(status: u16, body: &str) -> (r: Result<String, CoreError>)
    ensures
        comes_to(r, heard(status as int, body@)),
{
    let v = match parse_json_str(body) {
        Some(v) => v,
        None => {
            return Err(
                CoreError::Platform(
                    cat4(
                        "transcribe_audio: HTTP ",
                        dec_u64(status as u64).as_str(),
                        " 非 JSON 响应: ",
                        truncate_for_error(body, 120).as_str(),
                    ),
                ),
            );
        },
    };
    match refused("transcribe_audio", &v) {
        Some(m) => {
            if code_of(&v) == 99991400 {
                return Err(
                    CoreError::Platform(
                        cat2(
                            m.as_str(),
                            "（检查飞书后台已开通「语音识别」权限并发布版本；免费版企业不支持本接口）",
                        ),
                    ),
                );
            }
            assert(m@ + asr_hint(forward::reply_code(v@)) =~= m@);
            return Err(CoreError::Platform(m));
        },
        None => {},
    }
    match v.at("data").str_at("recognition_text") {
        Some(t) => {
            let said = str_trim(t);
            if said.as_str().is_empty() {
                Err(CoreError::Platform("transcribe_audio: 响应缺文本".to_owned()))
            } else {
                Ok(said)
            }
        },
        None => Err(CoreError::Platform("transcribe_audio: 响应缺文本".to_owned())),
    }
}

/// What a voice says, by the reply and its text, or why there is no text. The status can also
/// say that requests come too fast.
pub open spec fn heard_with(status: int, body: Result<Seq<char>, Seq<char>>) -> Result<
    Seq<char>,
    Seq<char>,
> {
    if status == 429 {
        Err("transcribe_audio"@ + ": HTTP 429"@)
    } else {
        match body {
            Ok(b) => heard(status, b),
            Err(e) => Err("transcribe_audio"@ + ": "@ + e),
        }
    }
}

/// What a voice says, by the reply and its text, or why there is no text.
pub fn transcribe_reply(status: u16, body: Result<String, String>) -> (r: Result<String, CoreError>)
    ensures
        comes_to(
            r,
            heard_with(
                status as int,
                match body {
                    Ok(b) => Ok(b@),
                    Err(e) => Err(e@),
                },
            ),
        ),
{
    if status == 429 {
        return Err(CoreError::Platform(cat2("transcribe_audio", ": HTTP 429")));
    }
    match body {
        Ok(b) => parse_asr_response(status, b.as_str()),
        Err(e) => Err(CoreError::Platform(cat3("transcribe_audio", ": ", e.as_str()))),
    }
}

/// Bytes in base64, with padding.
pub uninterp spec fn base64_text(bytes: Seq<u8>) -> Seq<char>;

/// Bytes in base64: `Engine::encode` of the engine `STANDARD`. It panics where its result
/// would not fit in memory, so the bytes are bounded.
#[verifier::external_body]
fn encode_base64(bytes: &[u8]) -> (r: String)
    requires
        bytes@.len() <= usize::MAX / 4,
    ensures
        r@ == base64_text(bytes@),
{
    base64::engine::general_purpose::STANDARD.encode(bytes)
}

/// Whether a character is an ASCII letter or digit.
pub open spec fn is_alphanumeric(c: char) -> bool {
    let u = c as u32;
    48 <= u <= 57 || 65 <= u <= 90 || 97 <= u <= 122
}

/// Whether a text can name a voice: letters and digits, a given number of them.
pub open spec fn is_file_id(s: Seq<char>, n: nat) -> bool {
    s.len() == n && forall|i: int| 0 <= i < n ==> is_alphanumeric(#[trigger] s[i])
}

/// Random letters and digits: `n` samples of `Alphanumeric` from the generator of the
/// thread. Which ones come is left to chance.
#[verifier::external_body]
fn random_alphanumeric(n: usize) -> (r: String)
    ensures
        is_file_id(r@, n as nat),
{
    rand::thread_rng().sample_iter(rand::distributions::Alphanumeric).take(n).map(char::from).collect()
}

/// The document with which a voice is handed over.
pub open spec fn asr_body(speech: Seq<char>, file_id: Seq<char>) -> JsonV {
    JsonV::Obj(
        map![
            "speech"@ => JsonV::Obj(map!["speech"@ => JsonV::Str(speech)]),
            "config"@ => JsonV::Obj(
                map![
                    "file_id"@ => JsonV::Str(file_id),
                    "format"@ => JsonV::Str("pcm"@),
                    "engine_type"@ => JsonV::Str("16k_auto"@)
                ],
            )
        ],
    )
}

/// The document with which an encoded voice is handed over under a given name.
pub fn asr_body_json(speech: &str, file_id: &str) -> (r: Json)
    ensures
        r@ == asr_body(speech@, file_id@),
{
    let config = Obj::new().with("file_id", txt(file_id)).with("format", txt("pcm")).with(
        "engine_type",
        txt("16k_auto"),
    ).json();
    Obj::new().with("speech", Obj::new().with("speech", txt(speech)).json()).with(
        "config",
        config,
    ).json()
}

/// The document with which a voice is handed over, under a random name.
pub fn asr_request_body(pcm: &[u8]) -> (r: String)
    requires
        pcm@.len() <= usize::MAX / 4,
    ensures
        exists|id: Seq<char>|
            is_file_id(id, 16) && r@ == #[trigger] json::json_string(asr_body(base64_text(pcm@), id)),
{
    let speech = encode_base64(pcm);
    let file_id = random_alphanumeric(16);
    let r = json_to_string(&asr_body_json(speech.as_str(), file_id.as_str()));
    assert(r@ == json::json_string(asr_body(base64_text(pcm@), file_id@)));
    r
}

/// What came of having a voice converted: the samples, or what went wrong.
pub open spec fn converted(success: bool, samples: Seq<u8>, complaint: Seq<char>) -> Result<
    Seq<u8>,
    Seq<char>,
> {
    if !success {
        Err("ffmpeg 转码失败: "@ + markdown::shortened(complaint, 120))
    } else if samples.len() == 0 {
        Err("ffmpeg 转码产物为空"@)
    } else {
        Ok(samples)
    }
}

/// What came of having a voice converted.
pub fn pcm_outcome(success: bool, samples: Vec<u8>, complaint: &str) -> (r: Result<
    Vec<u8>,
    CoreError,
>)
    ensures
        comes_to(r, converted(success, samples@, complaint@)),
{
    if !success {
        Err(
            CoreError::Platform(
                cat2("ffmpeg 转码失败: ", truncate_for_error(complaint, 120).as_str()),
            ),
        )
    } else if samples.len() == 0 {
        Err(CoreError::Platform("ffmpeg 转码产物为空".to_owned()))
    } else {
        Ok(samples)
    }
}

// ---------------------------------------------------------------------------
// The bot and its chats
// ---------------------------------------------------------------------------

/// Where a reply tells who the bot is.
pub open spec fn bot_field(v: JsonV) -> Option<Seq<char>> {
    text::nonempty(
        if v.at("bot"@).has("open_id"@) {
            v.at("bot"@).str_at("open_id"@)
        } else {
            v.at("data"@).str_at("open_id"@)
        },
    )
}

/// Who the bot is.
pub open spec fn bot_identity(p: Result<JsonV, Seq<char>>) -> Result<Seq<char>, Seq<char>> {
    match p {
        Ok(v) => needed(p, bot_field(v), "fetch_bot_open_id: 响应缺 bot.open_id"@),
        Err(e) => Err(e),
    }
}

/// Who the bot is.
pub fn bot_open_id_reply(p: Parsed) -> (r: Result<String, CoreError>)
    ensures
        comes_to(r, bot_identity(granted("fetch_bot_open_id"@, parsed_view(p)))),
{
    match grant("fetch_bot_open_id", p) {
        Ok(v) => {
            let bot = v.at("bot");
            let id = match bot.get("open_id") {
                Some(id) => id.as_str(),
                None => v.at("data").str_at("open_id"),
            };
            match take_nonempty(id) {
                Some(id) => Ok(id.to_owned()),
                None => Err(
                    CoreError::Platform("fetch_bot_open_id: 响应缺 bot.open_id".to_owned()),
                ),
            }
        },
        Err(e) => Err(e),
    }
}

/// The most pages that are asked for.
pub const MAX_PAGES: u32 = 10;

/// The most chats that are listed.
pub const MAX_CHATS: usize = 200;

/// The most messages that are read of a forwarded conversation.
pub const MAX_FORWARDED: usize = 500;

/// A chat by its conversation and its name.
pub type ChatV = (Seq<char>, Seq<char>);

/// The chats among the items of a page. An item without an identity is passed over.
pub open spec fn chats_in(items: Seq<JsonV>) -> Seq<ChatV>
    decreases items.len(),
{
    if items.len() == 0 {
        Seq::empty()
    } else {
        let before = chats_in(items.drop_last());
        match text::nonempty(items.last().str_at("chat_id"@)) {
            Some(id) => before.push(
                (conv::conv_name(id), text::or_text(items.last().str_at("name"@), Seq::empty())),
            ),
            None => before,
        }
    }
}

/// The chats that have been listed so far, and which page to ask for next.
#[derive(Debug)]
pub struct ChatList {
    chats: Vec<(String, String)>,
    pages: u32,
    next: Option<String>,
}

#[verifier::ext_equal]
pub struct ChatListV {
    pub chats: Seq<ChatV>,
    pub pages: nat,
    pub next: Option<Seq<char>>,
}

impl View for ChatList {
    type V = ChatListV;

    closed spec fn view(&self) -> ChatListV {
        ChatListV { chats: model::pairs_of(self.chats@), pages: self.pages as nat, next: text::oview(self.next) }
    }
}

/// The list with one more page.
pub open spec fn with_chats(list: ChatListV, page: JsonV) -> ChatListV {
    ChatListV {
        chats: list.chats + chats_in(page.at("items"@).elements()),
        pages: list.pages + 1,
        next: text::nonempty(page.str_at("page_token"@)),
    }
}

/// Whether a further page is to be asked for behind a given one.
pub open spec fn more_chats(list: ChatListV, page: JsonV) -> bool {
    &&& page.at("has_more"@) == JsonV::Bool(true)
    &&& list.next is Some
    &&& list.chats.len() < MAX_CHATS
    &&& list.pages < MAX_PAGES
}

fn add_chats(chats: &mut Vec<(String, String)>, items: &Vec<Json>)
    ensures
        model::pairs_of(final(chats)@) == model::pairs_of(old(chats)@) + chats_in(json::items_view(items@)),
{
    proof {
        json::lemma_items_index(items@);
    }
    let ghost before = model::pairs_of(chats@);
    let ghost all = json::items_view(items@);
    let mut i: usize = 0;
    assert(before =~= before + chats_in(all.subrange(0, 0)));
    while i < items.len()
        invariant
            i <= items@.len(),
            all == json::items_view(items@),
            all.len() == items@.len(),
            forall|k: int| 0 <= k < items@.len() ==> #[trigger] all[k] == items@[k]@,
            model::pairs_of(chats@) == before + chats_in(all.subrange(0, i as int)),
        decreases items@.len() - i,
    {
        proof {
            assert(all.subrange(0, i + 1).drop_last() =~= all.subrange(0, i as int));
            assert(all.subrange(0, i + 1).last() == items@[i as int]@);
        }
        let ghost now = chats@;
        match take_nonempty(items[i].str_at("chat_id")) {
            Some(id) => {
                let name = match items[i].str_at("name") {
                    Some(n) => n.to_owned(),
                    None => String::new(),
                };
                let conv = conv_with(id);
                chats.push((conv, name));
                assert(model::pairs_of(chats@) =~= model::pairs_of(now).push((conv@, name@)));
            },
            None => {},
        }
        assert(model::pairs_of(chats@) =~= before + chats_in(all.subrange(0, i + 1)));
        i += 1;
    }
    assert(all.subrange(0, all.len() as int) =~= all);
}

fn flag(j: &Json, key: &str) -> (r: bool)
    ensures
        r == (j@.at(key@) == JsonV::Bool(true)),
{
    match j.at(key) {
        Json::Bool(b) => *b,
        _ => false,
    }
}

impl ChatList {
    /// Nothing has been listed yet.
    pub fn new() -> (r: ChatList)
        ensures
            r@ == (ChatListV { chats: Seq::empty(), pages: 0, next: None }),
    {
        let r = ChatList { chats: Vec::new(), pages: 0, next: None };
        assert(r@.chats =~= Seq::empty());
        r
    }

    /// Which page to ask for next; `None` for the first.
    pub fn next_page(&self) -> (r: Option<&str>)
        ensures
            text::sview(r) == self@.next,
    {
        crate::text::borrow(&self.next)
    }

    /// Takes a page, and tells whether to ask for a further one.
    pub fn take(&mut self, page: &Json) -> (r: bool)
        requires
            old(self)@.pages < MAX_PAGES,
        ensures
            final(self)@ == with_chats(old(self)@, page@),
            r == more_chats(final(self)@, page@),
    {
        let ghost before = self@;
        match page.at("items") {
            Json::Arr(items) => {
                add_chats(&mut self.chats, items);
            },
            _ => {
                assert(chats_in(page@.at("items"@).elements()) =~= Seq::empty());
                assert(before.chats + Seq::<ChatV>::empty() =~= before.chats);
            },
        }
        self.pages = self.pages + 1;
        self.next = own(take_nonempty(page.str_at("page_token")));
        assert(self@.chats.len() == self.chats@.len());
        flag(page, "has_more") && self.next.is_some() && self.chats.len() < MAX_CHATS && self.pages
            < MAX_PAGES
    }

    /// The chats that have been listed, up to the limit.
    pub fn finish(self) -> (r: Vec<(String, String)>)
        ensures
            model::pairs_of(r@) == if self@.chats.len() <= MAX_CHATS {
                self@.chats
            } else {
                self@.chats.subrange(0, MAX_CHATS as int)
            },
    {
        let mut out = self.chats;
        let ghost all = out@;
        assert(model::pairs_of(all).len() == all.len());
        if out.len() > MAX_CHATS {
            out.truncate(MAX_CHATS);
            assert(model::pairs_of(out@) =~= model::pairs_of(all).subrange(0, MAX_CHATS as int));
        }
        out
    }
}

/// A page of a forwarded conversation, by the reply.
pub fn merge_forward_reply(status: u16, p: Parsed) -> (r: Result<MergeForwardPage, CoreError>)
    ensures
        match (r, granted_with("list_merge_forward"@, status as int, parsed_view(p))) {
            (Ok(page), Ok(v)) => forward::holds_page(page, v),
            (Err(e), Err(m)) => e is Platform && e@ == m,
            _ => false,
        },
{
    match grant_with("list_merge_forward", status, p) {
        Ok(v) => parse_merge_forward_page(&v),
        Err(e) => Err(e),
    }
}

/// The messages that have been read of a forwarded conversation, and which page to ask for
/// next.
#[derive(Debug)]
pub struct ForwardList {
    items: Vec<MergedForwardItem>,
    pages: u32,
    next: Option<String>,
}

#[verifier::ext_equal]
pub struct ForwardListV {
    pub items: Seq<crate::forward::ItemV>,
    pub pages: nat,
    pub next: Option<Seq<char>>,
}

impl View for ForwardList {
    type V = ForwardListV;

    closed spec fn view(&self) -> ForwardListV {
        ForwardListV { items: model::listv(self.items@), pages: self.pages as nat, next: text::oview(self.next) }
    }
}

impl ForwardList {
    /// Nothing has been read yet.
    pub fn new() -> (r: ForwardList)
        ensures
            r@ == (ForwardListV { items: Seq::empty(), pages: 0, next: None }),
    {
        let r = ForwardList { items: Vec::new(), pages: 0, next: None };
        assert(r@.items =~= Seq::empty());
        r
    }

    /// Which page to ask for next; `None` for the first.
    pub fn next_page(&self) -> (r: Option<&str>)
        ensures
            text::sview(r) == self@.next,
    {
        crate::text::borrow(&self.next)
    }

    /// Takes a page, and tells whether to ask for a further one.
    pub fn take(&mut self, page: MergeForwardPage) -> (r: bool)
        requires
            old(self)@.pages < MAX_PAGES,
        ensures
            final(self)@ == (ForwardListV {
                items: old(self)@.items + model::listv(page.items@),
                pages: old(self)@.pages + 1,
                next: text::oview(page.page_token),
            }),
            r == (page.has_more && page.page_token is Some && final(self)@.items.len()
                < MAX_FORWARDED && final(self)@.pages < MAX_PAGES),
    {
        let ghost before = self.items@;
        let mut more = page.items;
        let ghost all = more@;
        self.items.append(&mut more);
        assert(model::listv(self.items@) =~= model::listv(before) + model::listv(all));
        assert(model::listv(self.items@).len() == self.items@.len());
        self.pages = self.pages + 1;
        self.next = page.page_token;
        page.has_more && self.next.is_some() && self.items.len() < MAX_FORWARDED && self.pages
            < MAX_PAGES
    }

    /// The messages that have been read, up to the limit.
    pub fn finish(self) -> (r: Vec<MergedForwardItem>)
        ensures
            model::listv(r@) == if self@.items.len() <= MAX_FORWARDED {
                self@.items
            } else {
                self@.items.subrange(0, MAX_FORWARDED as int)
            },
    {
        let mut out = self.items;
        let ghost all = out@;
        assert(model::listv(all).len() == all.len());
        if out.len() > MAX_FORWARDED {
            out.truncate(MAX_FORWARDED);
            assert(model::listv(out@) =~= model::listv(all).subrange(0, MAX_FORWARDED as int));
        }
        out
    }
}

// ---------------------------------------------------------------------------
// Laws
// ---------------------------------------------------------------------------

/// Every chat that is listed stands for a conversation.
pub proof fn law_chats_are_conversations(items: Seq<JsonV>)
    ensures
        forall|i: int|
            0 <= i < chats_in(items).len() ==> crate::text::begins(
                (#[trigger] chats_in(items)[i]).0,
                "feishu:"@,
            ),
    decreases items.len(),
{
    if items.len() > 0 {
        let before = chats_in(items.drop_last());
        law_chats_are_conversations(items.drop_last());
        assert forall|i: int| 0 <= i < chats_in(items).len() implies crate::text::begins(
            (#[trigger] chats_in(items)[i]).0,
            "feishu:"@,
        ) by {
            if i < before.len() {
                assert(chats_in(items)[i] == before[i]);
            } else {
                let id = text::nonempty(items.last().str_at("chat_id"@))->0;
                crate::text::lemma_after_own_prefix("feishu:"@, id);
            }
        }
    }
}

/// Every error that a reply with too many requests leads to is recognised as such.
pub proof fn law_throttled_is_recognised(
    op: Seq<char>,
    p: Result<JsonV, Seq<char>>,
    body: Result<Seq<char>, Seq<char>>,
)
    ensures
        granted_with(op, 429, p) matches Err(m) && crate::errors::rate_limited(m),
        heard_with(429, body) matches Err(m) && crate::errors::rate_limited(m),
{
    lemma_throttled(op);
    lemma_throttled("transcribe_audio"@);
}

proof fn lemma_throttled(op: Seq<char>)
    ensures
        crate::errors::rate_limited(op + ": HTTP 429"@),
{
    reveal_strlit(": HTTP 429");
    reveal_strlit("HTTP 429");
    let m = op + ": HTTP 429"@;
    assert(m.subrange(op.len() as int + 2, op.len() as int + 10) =~= "HTTP 429"@);
    assert(crate::text::occurs_at(m, "HTTP 429"@, op.len() as int + 2));
}

} // verus!
