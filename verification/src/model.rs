//! The platform-neutral messages, cards and conversations that the bridge exchanges with
//! its core.
use vstd::prelude::*;

use crate::text;

verus! {

/// An optional value by its view.
pub open spec fn optv<T: View>(o: Option<T>) -> Option<T::V> {
    match o {
        Some(x) => Some(x@),
        None => None,
    }
}

/// A list of values by their views.
pub open spec fn listv<T: View>(v: Seq<T>) -> Seq<T::V> {
    Seq::new(v.len(), |i: int| v[i]@)
}

/// A conversation, such as `feishu:oc_…` for a group or `feishu:ou_…` for a private chat.
#[derive(Debug, Clone, PartialEq, Eq, Hash)]
pub struct ConvId(pub String);

impl View for ConvId {
    type V = Seq<char>;

    open spec fn view(&self) -> Seq<char> {
        self.0@
    }
}

/// A user of the platform.
#[derive(Debug, Clone, PartialEq, Eq, Hash)]
pub struct UserId(pub String);

impl View for UserId {
    type V = Seq<char>;

    open spec fn view(&self) -> Seq<char> {
        self.0@
    }
}

/// A person mentioned in a message.
#[derive(Debug, Clone, PartialEq, Eq)]
pub struct Mention {
    pub user_id: String,
    pub name: String,
}

#[verifier::ext_equal]
pub struct MentionV {
    pub user_id: Seq<char>,
    pub name: Seq<char>,
}

impl View for Mention {
    type V = MentionV;

    open spec fn view(&self) -> MentionV {
        MentionV { user_id: self.user_id@, name: self.name@ }
    }
}

/// A media file that was stored for a message.
#[derive(Debug, Clone, PartialEq, Eq)]
pub struct MediaRef {
    pub kind: String,
    /// Where the file is kept.
    pub url: String,
}

#[verifier::ext_equal]
pub struct MediaRefV {
    pub kind: Seq<char>,
    pub url: Seq<char>,
}

impl View for MediaRef {
    type V = MediaRefV;

    open spec fn view(&self) -> MediaRefV {
        MediaRefV { kind: self.kind@, url: self.url@ }
    }
}

/// Where a reply to a message has to be attached.
#[derive(Debug, Clone, PartialEq, Eq)]
pub enum ReplyHint {
    Free,
    Anchor(String),
}

#[verifier::ext_equal]
pub enum ReplyHintV {
    Free,
    Anchor(Seq<char>),
}

impl View for ReplyHint {
    type V = ReplyHintV;

    open spec fn view(&self) -> ReplyHintV {
        match self {
            ReplyHint::Free => ReplyHintV::Free,
            ReplyHint::Anchor(s) => ReplyHintV::Anchor(s@),
        }
    }
}

/// A message that reports something about the conversation instead of carrying text.
#[derive(Debug, Clone, PartialEq, Eq)]
pub enum InboundControl {
    MessageRecalled { notify_conv: Option<ConvId>, probe_convs: Vec<ConvId> },
    BotRemovedFromChat,
}

#[verifier::ext_equal]
pub enum InboundControlV {
    MessageRecalled { notify_conv: Option<Seq<char>>, probe_convs: Seq<Seq<char>> },
    BotRemovedFromChat,
}

impl View for InboundControl {
    type V = InboundControlV;

    open spec fn view(&self) -> InboundControlV {
        match self {
            InboundControl::MessageRecalled { notify_conv, probe_convs } => {
                InboundControlV::MessageRecalled {
                    notify_conv: optv(*notify_conv),
                    probe_convs: listv(probe_convs@),
                }
            },
            InboundControl::BotRemovedFromChat => InboundControlV::BotRemovedFromChat,
        }
    }
}

/// A message on its way from the platform to the core.
#[derive(Debug, Clone, PartialEq, Eq)]
pub struct InboundMessage {
    pub conv_id: ConvId,
    pub sender: UserId,
    pub text: Option<String>,
    pub media: Vec<MediaRef>,
    pub media_errors: Vec<String>,
    pub mentions: Vec<Mention>,
    pub mentioned_bot: bool,
    /// The request that this message answers.
    pub ask_req: Option<String>,
    /// The message that this one quotes.
    pub reply_to: Option<String>,
    pub source_msg_id: Option<String>,
    pub control: Option<InboundControl>,
    pub reply_hint: ReplyHint,
}

#[verifier::ext_equal]
pub struct InboundV {
    pub conv_id: Seq<char>,
    pub sender: Seq<char>,
    pub text: Option<Seq<char>>,
    pub media: Seq<MediaRefV>,
    pub media_errors: Seq<Seq<char>>,
    pub mentions: Seq<MentionV>,
    pub mentioned_bot: bool,
    pub ask_req: Option<Seq<char>>,
    pub reply_to: Option<Seq<char>>,
    pub source_msg_id: Option<Seq<char>>,
    pub control: Option<InboundControlV>,
    pub reply_hint: ReplyHintV,
}

impl View for InboundMessage {
    type V = InboundV;

    open spec fn view(&self) -> InboundV {
        InboundV {
            conv_id: self.conv_id@,
            sender: self.sender@,
            text: text::oview(self.text),
            media: listv(self.media@),
            media_errors: text::views(self.media_errors@),
            mentions: listv(self.mentions@),
            mentioned_bot: self.mentioned_bot,
            ask_req: text::oview(self.ask_req),
            reply_to: text::oview(self.reply_to),
            source_msg_id: text::oview(self.source_msg_id),
            control: optv(self.control),
            reply_hint: self.reply_hint@,
        }
    }
}

/// A message with a conversation, a sender and perhaps a text, and nothing else.
pub open spec fn plain_message(
    conv: Seq<char>,
    sender: Seq<char>,
    text: Option<Seq<char>>,
) -> InboundV {
    InboundV {
        conv_id: conv,
        sender,
        text,
        media: Seq::empty(),
        media_errors: Seq::empty(),
        mentions: Seq::empty(),
        mentioned_bot: false,
        ask_req: None,
        reply_to: None,
        source_msg_id: None,
        control: None,
        reply_hint: ReplyHintV::Free,
    }
}

impl InboundMessage {
    /// A message with a conversation, a sender and perhaps a text, and nothing else.
    pub fn plain(conv: String, sender: String, text: Option<String>) -> (r: InboundMessage)
        ensures
            r@ == plain_message(conv@, sender@, text::oview(text)),
    {
        InboundMessage {
            conv_id: ConvId(conv),
            sender: UserId(sender),
            text,
            media: Vec::new(),
            media_errors: Vec::new(),
            mentions: Vec::new(),
            mentioned_bot: false,
            ask_req: None,
            reply_to: None,
            source_msg_id: None,
            control: None,
            reply_hint: ReplyHint::Free,
        }
    }
}

// ---------------------------------------------------------------------------
// Cards
// ---------------------------------------------------------------------------

/// What a running task is doing.
#[derive(Debug, Clone, Copy, PartialEq, Eq, Structural)]
pub enum CardPhase {
    Thinking,
    ToolRunning,
    Outputting,
}

/// Whether a task is running, and how it ended.
#[derive(Debug, Clone, PartialEq, Eq)]
pub enum CardTerminal {
    Running,
    Done,
    Error(String),
}

#[verifier::ext_equal]
pub enum TerminalV {
    Running,
    Done,
    Error(Seq<char>),
}

impl View for CardTerminal {
    type V = TerminalV;

    open spec fn view(&self) -> TerminalV {
        match self {
            CardTerminal::Running => TerminalV::Running,
            CardTerminal::Done => TerminalV::Done,
            CardTerminal::Error(e) => TerminalV::Error(e@),
        }
    }
}

/// A use of a tool.
#[derive(Debug, Clone, PartialEq, Eq)]
pub struct ToolCall {
    pub name: String,
    pub summary: String,
    pub done: bool,
    pub id: Option<String>,
}

#[verifier::ext_equal]
pub struct ToolCallV {
    pub name: Seq<char>,
    pub summary: Seq<char>,
    pub done: bool,
    pub id: Option<Seq<char>>,
}

impl View for ToolCall {
    type V = ToolCallV;

    open spec fn view(&self) -> ToolCallV {
        ToolCallV {
            name: self.name@,
            summary: self.summary@,
            done: self.done,
            id: text::oview(self.id),
        }
    }
}

/// The state of a step of a plan.
#[derive(Debug, Clone, Copy, PartialEq, Eq, Structural)]
pub enum TodoStatus {
    Pending,
    InProgress,
    Completed,
}

/// A step of a plan.
#[derive(Debug, Clone, PartialEq, Eq)]
pub struct TodoItem {
    pub id: Option<String>,
    pub text: String,
    pub status: TodoStatus,
}

#[verifier::ext_equal]
pub struct TodoV {
    pub id: Option<Seq<char>>,
    pub text: Seq<char>,
    pub status: TodoStatus,
}

impl View for TodoItem {
    type V = TodoV;

    open spec fn view(&self) -> TodoV {
        TodoV { id: text::oview(self.id), text: self.text@, status: self.status }
    }
}

/// What a card shows of a task.
#[derive(Debug, Clone, PartialEq, Eq)]
pub struct OutboundCard {
    pub text: String,
    pub tool_calls: Vec<ToolCall>,
    pub thoughts: Vec<String>,
    pub todos: Vec<TodoItem>,
    pub phase: CardPhase,
    pub queued_hint: Option<String>,
    pub run_secs: u64,
    pub usage_display: Option<String>,
    pub terminal: CardTerminal,
}

#[verifier::ext_equal]
pub struct OutboundV {
    pub text: Seq<char>,
    pub tool_calls: Seq<ToolCallV>,
    pub thoughts: Seq<Seq<char>>,
    pub todos: Seq<TodoV>,
    pub phase: CardPhase,
    pub queued_hint: Option<Seq<char>>,
    pub run_secs: nat,
    pub usage_display: Option<Seq<char>>,
    pub terminal: TerminalV,
}

impl View for OutboundCard {
    type V = OutboundV;

    open spec fn view(&self) -> OutboundV {
        OutboundV {
            text: self.text@,
            tool_calls: listv(self.tool_calls@),
            thoughts: text::views(self.thoughts@),
            todos: listv(self.todos@),
            phase: self.phase,
            queued_hint: text::oview(self.queued_hint),
            run_secs: self.run_secs as nat,
            usage_display: text::oview(self.usage_display),
            terminal: self.terminal@,
        }
    }
}

/// How much a button stands out.
#[derive(Debug, Clone, Copy, PartialEq, Eq, Structural)]
pub enum CardButtonStyle {
    Default,
    Primary,
    Danger,
}

/// A button that issues a command.
#[derive(Debug, Clone, PartialEq, Eq)]
pub struct CardButton {
    pub label: String,
    pub command: String,
    pub style: CardButtonStyle,
}

#[verifier::ext_equal]
pub struct CardButtonV {
    pub label: Seq<char>,
    pub command: Seq<char>,
    pub style: CardButtonStyle,
}

impl View for CardButton {
    type V = CardButtonV;

    open spec fn view(&self) -> CardButtonV {
        CardButtonV { label: self.label@, command: self.command@, style: self.style }
    }
}

/// A setting in a form, with the values it can take and their labels.
#[derive(Debug, Clone, PartialEq, Eq)]
pub struct ConfigFormField {
    pub key: String,
    pub label: String,
    pub current: String,
    pub options: Vec<(String, String)>,
}

#[verifier::ext_equal]
pub struct ConfigFieldV {
    pub key: Seq<char>,
    pub label: Seq<char>,
    pub current: Seq<char>,
    pub options: Seq<(Seq<char>, Seq<char>)>,
}

/// Pairs of texts by their views.
pub open spec fn pairs_of(v: Seq<(String, String)>) -> Seq<(Seq<char>, Seq<char>)> {
    Seq::new(v.len(), |i: int| (v[i].0@, v[i].1@))
}

impl View for ConfigFormField {
    type V = ConfigFieldV;

    open spec fn view(&self) -> ConfigFieldV {
        ConfigFieldV {
            key: self.key@,
            label: self.label@,
            current: self.current@,
            options: pairs_of(self.options@),
        }
    }
}

} // verus!
