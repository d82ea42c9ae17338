//! What is asked of the platform: the requests, and the contents of messages.
use vstd::prelude::*;

use crate::digits;
use crate::json;
use crate::json::{Arr, Json, json_to_string, JsonV, num, Obj, txt};
use crate::text;
use crate::text::{cat2, cat3, cat4, cat5, cat6, str_strip_end};

verus! {

/// How a request is made.
#[derive(Debug, Clone, Copy, PartialEq, Eq, Structural)]
pub enum Method {
    Get,
    Post,
    Patch,
    Delete,
}

/// A request: how and where it is made, the pairs that are added to the address, and the
/// document that goes with it.
#[derive(Debug, Clone, PartialEq, Eq)]
pub struct ApiRequest {
    pub method: Method,
    pub url: String,
    pub query: Vec<(String, String)>,
    pub body: Option<String>,
}

#[verifier::ext_equal]
pub struct ApiRequestV {
    pub method: Method,
    pub url: Seq<char>,
    pub query: Seq<(Seq<char>, Seq<char>)>,
    pub body: Option<Seq<char>>,
}

impl View for ApiRequest {
    type V = ApiRequestV;

    open spec fn view(&self) -> ApiRequestV {
        ApiRequestV {
            method: self.method,
            url: self.url@,
            query: crate::model::pairs_of(self.query@),
            body: text::oview(self.body),
        }
    }
}

/// A request without pairs.
pub open spec fn request(method: Method, url: Seq<char>, body: Option<JsonV>) -> ApiRequestV {
    ApiRequestV {
        method,
        url,
        query: Seq::empty(),
        body: match body {
            Some(j) => Some(json::json_string(j)),
            None => None,
        },
    }
}

/// The address of something in the platform's interface.
pub open spec fn api(base: Seq<char>, path: Seq<char>) -> Seq<char> {
    text::strip_end(base, '/') + "/open-apis"@ + path
}

fn make(method: Method, url: String, body: Option<Json>) -> (r: ApiRequest)
    ensures
        r@ == request(
            method,
            url@,
            match body {
                Some(j) => Some(j@),
                None => None,
            },
        ),
{
    let r = ApiRequest {
        method,
        url,
        query: Vec::new(),
        body: match body {
            Some(j) => Some(json_to_string(&j)),
            None => None,
        },
    };
    assert(r@.query =~= Seq::empty());
    r
}

fn at(base: &str, path: &str) -> (r: String)
    ensures
        r@ == api(base@, path@),
{
    cat3(str_strip_end(base, '/').as_str(), "/open-apis", path)
}

// ---------------------------------------------------------------------------
// Reactions and reminders
// ---------------------------------------------------------------------------

/// Adds a reaction to a message.
pub fn create_reaction_request(base: &str, message_id: &str, emoji_type: &str) -> (r: ApiRequest)
    ensures
        r@ == request(
            Method::Post,
            api(base@, "/im/v1/messages/"@ + message_id@ + "/reactions"@),
            Some(
                JsonV::Obj(
                    map![
                        "reaction_type"@ => JsonV::Obj(
                            map!["emoji_type"@ => JsonV::Str(emoji_type@)],
                        )
                    ],
                ),
            ),
        ),
{
    let kind = Obj::new().with("emoji_type", txt(emoji_type)).json();
    make(
        Method::Post,
        at(base, cat3("/im/v1/messages/", message_id, "/reactions").as_str()),
        Some(Obj::new().with("reaction_type", kind).json()),
    )
}

/// Takes a reaction away from a message.
pub fn delete_reaction_request(base: &str, message_id: &str, reaction_id: &str) -> (r: ApiRequest)
    ensures
        r@ == request(
            Method::Delete,
            api(base@, "/im/v1/messages/"@ + message_id@ + "/reactions/"@ + reaction_id@),
            None,
        ),
{
    make(
        Method::Delete,
        at(
            base,
            cat4("/im/v1/messages/", message_id, "/reactions/", reaction_id).as_str(),
        ),
        None,
    )
}

/// Reminds somebody of a message.
pub fn urgent_app_request(base: &str, message_id: &str, user_open_id: &str) -> (r: ApiRequest)
    ensures
        r@ == request(
            Method::Patch,
            api(
                base@,
                "/im/v1/messages/"@ + message_id@ + "/urgent_app?user_id_type=open_id"@,
            ),
            Some(
                JsonV::Obj(
                    map!["user_id_list"@ => JsonV::Arr(seq![JsonV::Str(user_open_id@)])],
                ),
            ),
        ),
{
    let users = Arr::new().with(txt(user_open_id)).json();
    make(
        Method::Patch,
        at(
            base,
            cat3("/im/v1/messages/", message_id, "/urgent_app?user_id_type=open_id").as_str(),
        ),
        Some(Obj::new().with("user_id_list", users).json()),
    )
}

// ---------------------------------------------------------------------------
// Cards that are written as they go
// ---------------------------------------------------------------------------

/// Where the cards are kept.
pub const CARDKIT_BASE: &'static str = "https://open.feishu.cn/open-apis/cardkit/v1";

/// Makes a card.
pub fn create_card_entity_request(card_json: &str) -> (r: ApiRequest)
    ensures
        r@ == request(
            Method::Post,
            CARDKIT_BASE@ + "/cards"@,
            Some(
                JsonV::Obj(
                    map!["type"@ => JsonV::Str("card_json"@), "data"@ => JsonV::Str(card_json@)],
                ),
            ),
        ),
{
    make(
        Method::Post,
        cat2(CARDKIT_BASE, "/cards"),
        Some(Obj::new().with("type", txt("card_json")).with("data", txt(card_json)).json()),
    )
}

/// Writes the whole text of a part of a card anew. The number must be larger with each
/// request for the same card.
pub fn patch_card_element_request(
    card_id: &str,
    element_id: &str,
    content: &str,
    sequence: i64,
) -> (r: ApiRequest)
    ensures
        r@ == request(
            Method::Patch,
            CARDKIT_BASE@ + "/cards/"@ + card_id@ + "/elements/"@ + element_id@,
            Some(
                JsonV::Obj(
                    map![
                        "partial_element"@ => JsonV::Str(
                            json::json_string(JsonV::Obj(map!["content"@ => JsonV::Str(content@)])),
                        ),
                        "sequence"@ => JsonV::Num(digits::dec(sequence as int))
                    ],
                ),
            ),
        ),
{
    let partial = json_to_string(&Obj::new().with("content", txt(content)).json());
    make(
        Method::Patch,
        cat5(CARDKIT_BASE, "/cards/", card_id, "/elements/", element_id),
        Some(
            Obj::new().with("partial_element", txt(partial.as_str())).with(
                "sequence",
                num(sequence),
            ).json(),
        ),
    )
}

/// Changes the settings of a card. The number must be larger with each request for the same
/// card.
pub fn patch_card_settings_request(card_id: &str, settings_json: &str, sequence: i64) -> (r:
    ApiRequest)
    ensures
        r@ == request(
            Method::Patch,
            CARDKIT_BASE@ + "/cards/"@ + card_id@ + "/settings"@,
            Some(
                JsonV::Obj(
                    map![
                        "settings"@ => JsonV::Str(settings_json@),
                        "sequence"@ => JsonV::Num(digits::dec(sequence as int))
                    ],
                ),
            ),
        ),
{
    make(
        Method::Patch,
        cat4(CARDKIT_BASE, "/cards/", card_id, "/settings"),
        Some(
            Obj::new().with("settings", txt(settings_json)).with(
                "sequence",
                num(sequence),
            ).json(),
        ),
    )
}

// ---------------------------------------------------------------------------
// Files, voices, the bot itself
// ---------------------------------------------------------------------------

/// Fetches a file of a message.
pub fn resource_request(base: &str, message_id: &str, file_key: &str, kind: &str) -> (r: ApiRequest)
    ensures
        r@ == request(
            Method::Get,
            api(
                base@,
                "/im/v1/messages/"@ + message_id@ + "/resources/"@ + file_key@ + "?type="@ + kind@,
            ),
            None,
        ),
{
    make(
        Method::Get,
        at(
            base,
            cat6(
                "/im/v1/messages/",
                message_id,
                "/resources/",
                file_key,
                "?type=",
                kind,
            ).as_str(),
        ),
        None,
    )
}

/// Sends a file. The file itself goes with the request as a form.
pub fn upload_file_request(base: &str) -> (r: ApiRequest)
    ensures
        r@ == request(Method::Post, api(base@, "/im/v1/files"@), None),
{
    make(Method::Post, at(base, "/im/v1/files"), None)
}

/// Has a voice written down. The document is made elsewhere.
pub fn transcribe_request(base: &str, body: String) -> (r: ApiRequest)
    ensures
        r@ == (ApiRequestV {
            body: Some(body@),
            ..request(
                Method::Post,
                api(base@, "/speech_to_text/v1/speech/file_recognize"@),
                None,
            )
        }),
{
    let mut r = make(Method::Post, at(base, "/speech_to_text/v1/speech/file_recognize"), None);
    r.body = Some(body);
    r
}

/// Asks who the bot is.
pub fn bot_info_request(base: &str) -> (r: ApiRequest)
    ensures
        r@ == request(Method::Get, api(base@, "/bot/v3/info"@), None),
{
    make(Method::Get, at(base, "/bot/v3/info"), None)
}

/// Asks for a page of a forwarded conversation.
pub fn merge_forward_request(base: &str, message_id: &str, page_token: Option<&str>) -> (r:
    ApiRequest)
    ensures
        r@ == (ApiRequestV {
            query: match text::sview(page_token) {
                Some(t) => seq![("page_size"@, "50"@), ("page_token"@, t)],
                None => seq![("page_size"@, "50"@)],
            },
            ..request(
                Method::Get,
                api(base@, "/im/v1/messages/"@ + message_id@ + "/merge_forward"@),
                None,
            )
        }),
{
    let mut r = make(
        Method::Get,
        at(base, cat3("/im/v1/messages/", message_id, "/merge_forward").as_str()),
        None,
    );
    let mut query: Vec<(String, String)> = Vec::new();
    query.push(("page_size".to_owned(), "50".to_owned()));
    assert(crate::model::pairs_of(query@) =~= seq![("page_size"@, "50"@)]);
    match page_token {
        Some(t) => {
            query.push(("page_token".to_owned(), t.to_owned()));
            assert(crate::model::pairs_of(query@) =~= seq![
                ("page_size"@, "50"@),
                ("page_token"@, t@),
            ]);
        },
        None => {},
    }
    r.query = query;
    r
}

// ---------------------------------------------------------------------------
// Replies
// ---------------------------------------------------------------------------

/// The content of a comment that is only a text.
pub open spec fn comment_text_v(text: Seq<char>) -> JsonV {
    JsonV::Arr(
        seq![JsonV::Obj(map!["type"@ => JsonV::Str("text"@), "text"@ => JsonV::Str(text)])],
    )
}

/// The content of a comment that is only a picture.
pub open spec fn comment_image_v(key: Seq<char>) -> JsonV {
    JsonV::Arr(
        seq![JsonV::Obj(map!["type"@ => JsonV::Str("img"@), "file_key"@ => JsonV::Str(key)])],
    )
}

/// The content of a comment that is only a text.
pub fn comment_text(text: &str) -> (r: Json)
    ensures
        r@ == comment_text_v(text@),
{
    Arr::new().with(Obj::new().with("type", txt("text")).with("text", txt(text)).json()).json()
}

/// The content of a comment that is only a picture.
pub fn comment_image(key: &str) -> (r: Json)
    ensures
        r@ == comment_image_v(key@),
{
    Arr::new().with(Obj::new().with("type", txt("img")).with("file_key", txt(key)).json()).json()
}

/// Answers a comment on a document.
pub fn reply_comment_request(base: &str, file_token: &str, comment_id: &str, nodes: Json) -> (r:
    ApiRequest)
    ensures
        r@ == request(
            Method::Post,
            api(
                base@,
                "/drive/v1/files/"@ + file_token@ + "/comments/"@ + comment_id@
                    + "/replies?user_id_type=open_id"@,
            ),
            Some(JsonV::Obj(map!["content"@ => nodes@])),
        ),
{
    make(
        Method::Post,
        at(
            base,
            cat5(
                "/drive/v1/files/",
                file_token,
                "/comments/",
                comment_id,
                "/replies?user_id_type=open_id",
            ).as_str(),
        ),
        Some(Obj::new().with("content", nodes).json()),
    )
}

/// Answers a message.
pub fn reply_message_request(base: &str, message_id: &str, msg_type: &str, content: &str) -> (r:
    ApiRequest)
    ensures
        r@ == request(
            Method::Post,
            api(base@, "/im/v1/messages/"@ + message_id@ + "/reply"@),
            Some(
                JsonV::Obj(
                    map!["msg_type"@ => JsonV::Str(msg_type@), "content"@ => JsonV::Str(content@)],
                ),
            ),
        ),
{
    make(
        Method::Post,
        at(base, cat3("/im/v1/messages/", message_id, "/reply").as_str()),
        Some(Obj::new().with("msg_type", txt(msg_type)).with("content", txt(content)).json()),
    )
}

// ---------------------------------------------------------------------------
// Contents of messages
// ---------------------------------------------------------------------------

/// The content of a text message. One that insists makes the reader's device ring.
pub open spec fn text_content_v(text: Seq<char>, buzz: bool) -> JsonV {
    if buzz {
        JsonV::Obj(map!["text"@ => JsonV::Str(text), "buzz"@ => JsonV::Bool(true)])
    } else {
        JsonV::Obj(map!["text"@ => JsonV::Str(text)])
    }
}

/// The content of a text message.
pub fn text_content(text: &str, buzz: bool) -> (r: String)
    ensures
        r@ == json::json_string(text_content_v(text@, buzz)),
{
    let o = Obj::new().with("text", txt(text));
    let j = if buzz {
        o.with("buzz", Json::Bool(true)).json()
    } else {
        o.json()
    };
    json_to_string(&j)
}

/// The content of a message with a file.
pub fn file_content(file_key: &str) -> (r: String)
    ensures
        r@ == json::json_string(JsonV::Obj(map!["file_key"@ => JsonV::Str(file_key@)])),
{
    json_to_string(&Obj::new().with("file_key", txt(file_key)).json())
}

/// The content of a message with a picture.
pub fn image_content(image_key: &str) -> (r: String)
    ensures
        r@ == json::json_string(JsonV::Obj(map!["image_key"@ => JsonV::Str(image_key@)])),
{
    json_to_string(&Obj::new().with("image_key", txt(image_key)).json())
}

/// The content of a message that shows a card made before.
pub fn card_ref_content(card_id: &str) -> (r: String)
    ensures
        r@ == json::json_string(
            JsonV::Obj(
                map![
                    "type"@ => JsonV::Str("card"@),
                    "data"@ => JsonV::Obj(map!["card_id"@ => JsonV::Str(card_id@)])
                ],
            ),
        ),
{
    let data = Obj::new().with("card_id", txt(card_id)).json();
    json_to_string(&Obj::new().with("type", txt("card")).with("data", data).json())
}

/// The document that replaces a card in a message.
pub fn patch_card_body(card_json: &str) -> (r: Json)
    ensures
        r@ == JsonV::Obj(map!["content"@ => JsonV::Str(card_json@)]),
{
    Obj::new().with("content", txt(card_json)).json()
}

} // verus!
