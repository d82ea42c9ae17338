//! Conversation names: `feishu:<id>`, `feishu:<chat>:<root>` for a thread, and
//! `feishu:comment:<file>` for the comments of a document.
use vstd::prelude::*;

use crate::model::ConvId;
use crate::text;
use crate::text::{cat2, cat4, str_after_prefix, str_before_char, str_begins, str_behind_char};

verus! {

/// What the name of a comment conversation begins with.
pub const COMMENT_CONV_PREFIX: &'static str = "feishu:comment:";

/// The kind of a receiver of messages.
#[derive(Debug, Clone, Copy, PartialEq, Eq, Structural)]
pub enum ReceiveIdKind {
    /// A user.
    OpenId,
    /// A chat.
    ChatId,
}

/// The conversation with a user or a chat.
pub open spec fn conv_name(id: Seq<char>) -> Seq<char> {
    "feishu:"@ + id
}

/// The conversation of a thread in a chat.
pub open spec fn thread_name(chat: Seq<char>, root: Seq<char>) -> Seq<char> {
    "feishu:"@ + chat + ":"@ + root
}

/// The user or chat that a conversation is with: what stands between the platform's name
/// and the next colon.
pub open spec fn conv_peer(conv: Seq<char>) -> Option<Seq<char>> {
    match text::after_prefix(conv, "feishu:"@) {
        Some(rest) => Some(text::before_char(rest, ':')),
        None => None,
    }
}

/// Whether an identity is that of a user.
pub open spec fn is_user(id: Seq<char>) -> bool {
    text::begins(id, "ou_"@)
}

/// Whether a conversation is a private chat.
pub open spec fn private_conv(conv: Seq<char>) -> bool {
    conv_peer(conv) is Some && is_user(conv_peer(conv)->0)
}

/// Where a message to a conversation goes.
pub open spec fn receive_target_of(conv: Seq<char>) -> Option<(Seq<char>, ReceiveIdKind)> {
    match conv_peer(conv) {
        Some(id) => Some(
            (
                id,
                if is_user(id) {
                    ReceiveIdKind::OpenId
                } else {
                    ReceiveIdKind::ChatId
                },
            ),
        ),
        None => None,
    }
}

/// The chat and the root message of a thread.
pub open spec fn thread_target_of(conv: Seq<char>) -> Option<(Seq<char>, Seq<char>)> {
    match text::after_prefix(conv, "feishu:"@) {
        Some(rest) => match text::behind_char(rest, ':') {
            Some(root) => if text::before_char(rest, ':').len() > 0 && text::begins(root, "om_"@) {
                Some((text::before_char(rest, ':'), root))
            } else {
                None
            },
            None => None,
        },
        None => None,
    }
}

/// The document of a comment conversation, and the comment where the name holds one.
pub open spec fn comment_target_of(conv: Seq<char>) -> Option<(Seq<char>, Option<Seq<char>>)> {
    match text::after_prefix(conv, COMMENT_CONV_PREFIX@) {
        Some(rest) => if rest.len() == 0 {
            None
        } else {
            match text::behind_char(rest, ':') {
                Some(comment) => if text::before_char(rest, ':').len() > 0 && comment.len() > 0 {
                    Some((text::before_char(rest, ':'), Some(comment)))
                } else {
                    Some((rest, None))
                },
                None => Some((rest, None)),
            }
        },
        None => None,
    }
}

/// Whether a conversation is a private chat.
pub fn is_private_conv(conv: &str) -> (r: bool)
    ensures
        r == private_conv(conv@),
{
    match str_after_prefix(conv, "feishu:") {
        Some(rest) => str_begins(str_before_char(rest.as_str(), ':').as_str(), "ou_"),
        None => false,
    }
}

/// Where a message to a conversation goes; `None` for a conversation of another platform.
pub fn receive_target_from_conv(conv: &ConvId) -> (r: Option<(String, ReceiveIdKind)>)
    ensures
        match r {
            Some((id, kind)) => receive_target_of(conv@) == Some((id@, kind)),
            None => receive_target_of(conv@) is None,
        },
{
    match str_after_prefix(conv.0.as_str(), "feishu:") {
        Some(rest) => {
            let id = str_before_char(rest.as_str(), ':');
            let kind = if str_begins(id.as_str(), "ou_") {
                ReceiveIdKind::OpenId
            } else {
                ReceiveIdKind::ChatId
            };
            Some((id, kind))
        },
        None => None,
    }
}

/// The chat and the root message of a thread; `None` for any other conversation.
pub fn thread_target_from_conv(conv: &ConvId) -> (r: Option<(String, String)>)
    ensures
        match r {
            Some((chat, root)) => thread_target_of(conv@) == Some((chat@, root@)),
            None => thread_target_of(conv@) is None,
        },
{
    match str_after_prefix(conv.0.as_str(), "feishu:") {
        Some(rest) => match str_behind_char(rest.as_str(), ':') {
            Some(root) => {
                let chat = str_before_char(rest.as_str(), ':');
                if !chat.as_str().is_empty() && str_begins(root.as_str(), "om_") {
                    Some((chat, root))
                } else {
                    None
                }
            },
            None => None,
        },
        None => None,
    }
}

/// The document of a comment conversation, and the comment where the name holds one;
/// `None` for any other conversation.
pub fn comment_target_from_conv(conv: &ConvId) -> (r: Option<(String, Option<String>)>)
    ensures
        match r {
            Some((file, comment)) => comment_target_of(conv@) == Some((file@, text::oview(comment))),
            None => comment_target_of(conv@) is None,
        },
{
    match str_after_prefix(conv.0.as_str(), COMMENT_CONV_PREFIX) {
        Some(rest) => {
            if rest.as_str().is_empty() {
                return None;
            }
            match str_behind_char(rest.as_str(), ':') {
                Some(comment) => {
                    let file = str_before_char(rest.as_str(), ':');
                    if !file.as_str().is_empty() && !comment.as_str().is_empty() {
                        Some((file, Some(comment)))
                    } else {
                        Some((rest, None))
                    }
                },
                None => Some((rest, None)),
            }
        },
        None => None,
    }
}

/// The conversation with a user or a chat.
pub fn conv_with(id: &str) -> (r: String)
    ensures
        r@ == conv_name(id@),
{
    cat2("feishu:", id)
}

/// The conversation of a thread in a chat.
pub fn thread_conv(chat: &str, root: &str) -> (r: String)
    ensures
        r@ == thread_name(chat@, root@),
{
    cat4("feishu:", chat, ":", root)
}

/// A message to the conversation with a user or a chat goes to that user or chat.
pub proof fn law_conv_round_trip(id: Seq<char>)
    requires
        !id.contains(':'),
    ensures
        receive_target_of(conv_name(id)) == Some(
            (
                id,
                if is_user(id) {
                    ReceiveIdKind::OpenId
                } else {
                    ReceiveIdKind::ChatId
                },
            ),
        ),
        private_conv(conv_name(id)) == is_user(id),
        thread_target_of(conv_name(id)) is None,
{
    text::lemma_after_own_prefix("feishu:"@, id);
    text::lemma_position_at(id, ':', id.len() as int);
    assert(id.subrange(0, id.len() as int) =~= id);
}

/// A thread's conversation gives back its chat and its root message, and a message that is
/// not attached to the thread goes to the chat.
pub proof fn law_thread_round_trip(chat: Seq<char>, root: Seq<char>)
    requires
        chat.len() > 0,
        !chat.contains(':'),
        text::begins(root, "om_"@),
    ensures
        thread_target_of(thread_name(chat, root)) == Some((chat, root)),
        conv_peer(thread_name(chat, root)) == Some(chat),
{
    reveal_strlit(":");
    let rest = chat + ":"@ + root;
    assert("feishu:"@ + chat + ":"@ + root =~= "feishu:"@ + rest);
    text::lemma_after_own_prefix("feishu:"@, rest);
    assert forall|j: int| 0 <= j < chat.len() implies #[trigger] rest[j] != ':' by {
        assert(chat[j] == rest[j]);
    }
    text::lemma_position_at(rest, ':', chat.len() as int);
    assert(rest.subrange(0, chat.len() as int) =~= chat);
    assert(rest.subrange(chat.len() as int + 1, rest.len() as int) =~= root);
}

/// A comment conversation gives back its document, and is no thread.
pub proof fn law_comment_round_trip(file: Seq<char>)
    requires
        file.len() > 0,
        !file.contains(':'),
    ensures
        comment_target_of(COMMENT_CONV_PREFIX@ + file) == Some((file, None::<Seq<char>>)),
        !private_conv(COMMENT_CONV_PREFIX@ + file),
{
    text::lemma_after_own_prefix(COMMENT_CONV_PREFIX@, file);
    text::lemma_position_at(file, ':', file.len() as int);
    reveal_strlit("feishu:comment:");
    reveal_strlit("feishu:");
    reveal_strlit("ou_");
    let conv = COMMENT_CONV_PREFIX@ + file;
    let rest = conv.subrange(7, conv.len() as int);
    assert(conv.subrange(0, 7) =~= "feishu:"@);
    text::lemma_position_at(rest, ':', 7);
    assert(text::before_char(rest, ':')[0] == 'c');
    assert(!is_user(text::before_char(rest, ':'))) by {
        if is_user(text::before_char(rest, ':')) {
            assert(text::before_char(rest, ':').subrange(0, 3)[0] == 'o');
        }
    }
}

} // verus!
