//! How the files that come with a message are fetched, step by step.
use vstd::prelude::*;

use crate::errors;
use crate::errors::{is_token_invalid_msg, CoreError};
use crate::media;
use crate::media::{add_voice, media_fault, voice_fault, MediaFault, VOICE_OFF};
use crate::message::{PendingMedia, PendingV};
use crate::model;
use crate::model::{InboundMessage, InboundV, MediaRef, MediaRefV};
use crate::text;
use crate::text::{borrow, str_eq};

verus! {

/// The step that is under way for a file.
#[derive(Debug, Clone, Copy, PartialEq, Eq, Structural)]
pub enum Fetch {
    /// An access token is needed.
    Token,
    /// The file is fetched.
    Download,
    /// The token was no longer good: a new one is needed.
    FreshToken,
    /// The file is fetched with the new token.
    DownloadAgain,
    /// What is said in a voice is written down.
    Hear,
    /// The file is stored.
    Store,
    /// All is done.
    Done,
}

/// What an outside step came to: the text that was heard, the place where a file was stored,
/// or what went wrong.
pub open spec fn came_to(r: Result<String, CoreError>) -> Result<Seq<char>, Seq<char>> {
    match r {
        Ok(s) => Ok(s@),
        Err(e) => Err(e@),
    }
}

/// Whether there are files of such a kind.
pub open spec fn known_kind(kind: Seq<char>) -> bool {
    kind == "image"@ || kind == "file"@ || kind == "audio"@
}

/// The step that follows once a file is there. A voice is heard, where that is wanted, and not
/// stored.
pub open spec fn once_there(kind: Seq<char>, voices: bool) -> Fetch {
    if kind == "audio"@ {
        if voices {
            Fetch::Hear
        } else {
            Fetch::Done
        }
    } else {
        Fetch::Store
    }
}

/// The step that follows, by what the last one came to.
pub open spec fn next_fetch(
    s: Fetch,
    kind: Seq<char>,
    voices: bool,
    r: Result<Seq<char>, Seq<char>>,
) -> Fetch {
    match s {
        Fetch::Token => if r is Ok && known_kind(kind) {
            Fetch::Download
        } else {
            Fetch::Done
        },
        Fetch::Download => match r {
            Ok(_) => once_there(kind, voices),
            Err(e) => if errors::token_invalid(e) {
                Fetch::FreshToken
            } else {
                Fetch::Done
            },
        },
        Fetch::FreshToken => if r is Ok {
            Fetch::DownloadAgain
        } else {
            Fetch::Done
        },
        Fetch::DownloadAgain => if r is Ok {
            once_there(kind, voices)
        } else {
            Fetch::Done
        },
        _ => Fetch::Done,
    }
}

/// A message with one more thing that went wrong with its files.
pub open spec fn with_fault(m: InboundV, what: Seq<char>) -> InboundV {
    InboundV { media_errors: m.media_errors.push(what), ..m }
}

/// The message after a step: it gets the file, or what was said, or is told what went wrong.
pub open spec fn message_after(
    m: InboundV,
    s: Fetch,
    p: PendingV,
    voices: bool,
    r: Result<Seq<char>, Seq<char>>,
) -> InboundV {
    match (s, r) {
        (Fetch::Token, Err(e)) => with_fault(m, media::fault_text(p.key, MediaFault::Token, e)),
        (Fetch::Download, Err(e)) => if errors::token_invalid(e) {
            m
        } else {
            with_fault(m, media::fault_text(p.key, MediaFault::Download, e))
        },
        (Fetch::Download, Ok(_)) => if p.kind == "audio"@ && !voices {
            with_fault(m, VOICE_OFF@)
        } else {
            m
        },
        (Fetch::FreshToken, Err(e)) => with_fault(
            m,
            media::fault_text(p.key, MediaFault::FreshToken, e),
        ),
        (Fetch::DownloadAgain, Err(e)) => with_fault(
            m,
            media::fault_text(p.key, MediaFault::Download, e),
        ),
        (Fetch::DownloadAgain, Ok(_)) => if p.kind == "audio"@ && !voices {
            with_fault(m, VOICE_OFF@)
        } else {
            m
        },
        (Fetch::Hear, Ok(said)) => InboundV { text: Some(media::with_voice(m.text, said)), ..m },
        (Fetch::Hear, Err(e)) => with_fault(m, media::voice_fault_text(e)),
        (Fetch::Store, Ok(url)) => InboundV {
            media: m.media.push(MediaRefV { kind: p.kind, url }),
            ..m
        },
        (Fetch::Store, Err(e)) => with_fault(m, media::fault_text(p.key, MediaFault::Store, e)),
        _ => m,
    }
}

fn add_fault(msg: &mut InboundMessage, what: String)
    ensures
        final(msg)@ == with_fault(old(msg)@, what@),
{
    msg.media_errors.push(what);
    assert(text::views(msg.media_errors@) =~= text::views(old(msg).media_errors@).push(what@));
}

fn now_there(p: &PendingMedia, voices: bool, msg: &mut InboundMessage) -> (r: Fetch)
    ensures
        r == once_there(p@.kind, voices),
        final(msg)@ == if p@.kind == "audio"@ && !voices {
            with_fault(old(msg)@, VOICE_OFF@)
        } else {
            old(msg)@
        },
{
    if str_eq(p.kind, "audio") {
        if voices {
            Fetch::Hear
        } else {
            add_fault(msg, VOICE_OFF.to_owned());
            Fetch::Done
        }
    } else {
        Fetch::Store
    }
}

/// What follows for a file, by what the last step came to. The message gets what there is to
/// get, or is told what went wrong; it is never lost.
pub fn fetch_step(
    stage: Fetch,
    p: &PendingMedia,
    voices: bool,
    outcome: Result<String, CoreError>,
    msg: &mut InboundMessage,
) -> (r: Fetch)
    ensures
        r == next_fetch(stage, p@.kind, voices, came_to(outcome)),
        final(msg)@ == message_after(old(msg)@, stage, p@, voices, came_to(outcome)),
{
    let key = p.key.as_str();
    match stage {
        Fetch::Token => match outcome {
            Ok(_) => if str_eq(p.kind, "image") || str_eq(p.kind, "file") || str_eq(
                p.kind,
                "audio",
            ) {
                Fetch::Download
            } else {
                Fetch::Done
            },
            Err(e) => {
                add_fault(msg, media_fault(key, MediaFault::Token, e.message()));
                Fetch::Done
            },
        },
        Fetch::Download => match outcome {
            Ok(_) => now_there(p, voices, msg),
            Err(e) => if is_token_invalid_msg(e.message()) {
                Fetch::FreshToken
            } else {
                add_fault(msg, media_fault(key, MediaFault::Download, e.message()));
                Fetch::Done
            },
        },
        Fetch::FreshToken => match outcome {
            Ok(_) => Fetch::DownloadAgain,
            Err(e) => {
                add_fault(msg, media_fault(key, MediaFault::FreshToken, e.message()));
                Fetch::Done
            },
        },
        Fetch::DownloadAgain => match outcome {
            Ok(_) => now_there(p, voices, msg),
            Err(e) => {
                add_fault(msg, media_fault(key, MediaFault::Download, e.message()));
                Fetch::Done
            },
        },
        Fetch::Hear => {
            match outcome {
                Ok(said) => {
                    let all = add_voice(borrow(&msg.text), said.as_str());
                    msg.text = Some(all);
                },
                Err(e) => add_fault(msg, voice_fault(e.message())),
            }
            Fetch::Done
        },
        Fetch::Store => {
            match outcome {
                Ok(url) => {
                    let file = MediaRef { kind: p.kind.to_owned(), url };
                    msg.media.push(file);
                    assert(model::listv(msg.media@) =~= model::listv(old(msg).media@).push(file@));
                },
                Err(e) => add_fault(msg, media_fault(key, MediaFault::Store, e.message())),
            }
            Fetch::Done
        },
        Fetch::Done => Fetch::Done,
    }
}

// ---------------------------------------------------------------------------
// Laws
// ---------------------------------------------------------------------------

/// The most steps that can still follow.
pub open spec fn fetches_left(s: Fetch) -> nat {
    match s {
        Fetch::Token => 5,
        Fetch::Download => 4,
        Fetch::FreshToken => 3,
        Fetch::DownloadAgain => 2,
        Fetch::Hear => 1,
        Fetch::Store => 1,
        Fetch::Done => 0,
    }
}

/// Fetching a file comes to an end, whatever the platform answers.
pub proof fn law_fetching_ends(
    s: Fetch,
    kind: Seq<char>,
    voices: bool,
    r: Result<Seq<char>, Seq<char>>,
)
    requires
        !(s is Done),
    ensures
        fetches_left(next_fetch(s, kind, voices, r)) < fetches_left(s),
{
}

/// No file is passed over in silence: when all is done for it, the message holds one file
/// more, or what was said in it, or one more thing that went wrong; and before that it is as
/// it was.
pub proof fn law_no_silent_loss(
    m: InboundV,
    s: Fetch,
    p: PendingV,
    voices: bool,
    r: Result<Seq<char>, Seq<char>>,
)
    requires
        !(s is Done),
        known_kind(p.kind),
    ensures
        ({
            let after = message_after(m, s, p, voices, r);
            if next_fetch(s, p.kind, voices, r) is Done {
                ||| s is Store && r is Ok && after == InboundV {
                    media: m.media.push(MediaRefV { kind: p.kind, url: r->Ok_0 }),
                    ..m
                }
                ||| s is Hear && r is Ok && after == InboundV {
                    text: Some(media::with_voice(m.text, r->Ok_0)),
                    ..m
                }
                ||| after == InboundV { media_errors: after.media_errors, ..m }
                    && after.media_errors.len() == m.media_errors.len() + 1
                    && after.media_errors.drop_last() == m.media_errors
            } else {
                after == m
            }
        }),
{
    let after = message_after(m, s, p, voices, r);
    if after.media_errors.len() == m.media_errors.len() + 1 {
        assert(after.media_errors.drop_last() =~= m.media_errors);
    }
}

} // verus!
