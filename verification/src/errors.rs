//! Errors, and what the texts of the platform's errors tell.
use vstd::prelude::*;

use crate::text;
use crate::text::{str_contains, str_lower};

verus! {

/// The name of the platform.
pub const PLATFORM: &'static str = "feishu";

/// What went wrong, and on which side.
#[derive(Debug, Clone, PartialEq, Eq)]
pub enum CoreError {
    Platform(String),
    Backend(String),
}

impl View for CoreError {
    type V = Seq<char>;

    open spec fn view(&self) -> Seq<char> {
        match self {
            CoreError::Platform(s) => s@,
            CoreError::Backend(s) => s@,
        }
    }
}

impl CoreError {
    /// The text of the error.
    pub fn message<'a>(&'a self) -> (r: &'a str)
        ensures
            r@ == self@,
    {
        match self {
            CoreError::Platform(s) => s.as_str(),
            CoreError::Backend(s) => s.as_str(),
        }
    }
}

/// Whether an error says that too many requests were made.
pub open spec fn rate_limited(msg: Seq<char>) -> bool {
    text::contains(msg, "HTTP 429"@) || text::contains(msg, "code=230020"@) || text::contains(msg, "API错误 429"@)
        || text::contains(msg, "API错误 230020"@) || text::contains(msg, "业务错误 TooManyRequests"@)
}

/// Whether an error says that a card, or the message that carries it, is gone.
pub open spec fn card_not_exist(msg: Seq<char>) -> bool {
    text::contains(msg, "code=230002"@) || text::contains(msg, "API错误 230002"@) || text::contains(
        text::lower(msg),
        "not exist"@,
    ) || text::contains(msg, "卡片不存在"@)
}

/// Whether an error says that the access token is no longer good.
pub open spec fn token_invalid(msg: Seq<char>) -> bool {
    text::contains(msg, "99991661"@) || text::contains(msg, "99991662"@) || text::contains(msg, "99991663"@)
        || text::contains(msg, "99991664"@) || text::contains(msg, "99991668"@) || text::contains(msg, "99991679"@)
        || text::contains(text::lower(msg), "invalid access token"@)
}

/// Whether an error says that too many requests were made.
pub fn is_rate_limited_msg(msg: &str) -> (r: bool)
    ensures
        r == rate_limited(msg@),
{
    str_contains(msg, "HTTP 429") || str_contains(msg, "code=230020") || str_contains(
        msg,
        "API错误 429",
    ) || str_contains(msg, "API错误 230020") || str_contains(msg, "业务错误 TooManyRequests")
}

/// Whether an error says that a card, or the message that carries it, is gone.
pub fn is_card_not_exist_msg(msg: &str) -> (r: bool)
    ensures
        r == card_not_exist(msg@),
{
    str_contains(msg, "code=230002") || str_contains(msg, "API错误 230002") || str_contains(
        str_lower(msg).as_str(),
        "not exist",
    ) || str_contains(msg, "卡片不存在")
}

/// Whether an error says that the access token is no longer good.
pub fn is_token_invalid_msg(msg: &str) -> (r: bool)
    ensures
        r == token_invalid(msg@),
{
    str_contains(msg, "99991661") || str_contains(msg, "99991662") || str_contains(msg, "99991663")
        || str_contains(msg, "99991664") || str_contains(msg, "99991668") || str_contains(
        msg,
        "99991679",
    ) || str_contains(str_lower(msg).as_str(), "invalid access token")
}

} // verus!
