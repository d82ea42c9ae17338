//! The events that the platform pushes, and how they are read from JSON.
use vstd::prelude::*;

use crate::json;
use crate::json::{Json, JsonV};
use crate::model;
use crate::text;
use crate::text::{borrow, either, own, take_nonempty};

verus! {

// ---------------------------------------------------------------------------
// Fields
// ---------------------------------------------------------------------------

/// A field that may be missing or null, and is a text otherwise; `None` where it is not.
pub open spec fn opt_field(j: JsonV, key: Seq<char>) -> Option<Option<Seq<char>>> {
    match j.at(key) {
        JsonV::Null => Some(None),
        JsonV::Str(s) => Some(Some(s)),
        _ => None,
    }
}

/// A field that may be missing, then empty, and is a text otherwise; `None` where it is not.
pub open spec fn default_field(j: JsonV, key: Seq<char>) -> Option<Seq<char>> {
    if j.has(key) {
        j.str_at(key)
    } else {
        Some(Seq::empty())
    }
}

/// Reads every element of a list; `None` where one cannot be read.
pub open spec fn read_all<T>(items: Seq<JsonV>, read: spec_fn(JsonV) -> Option<T>) -> Option<
    Seq<T>,
> {
    if forall|i: int| 0 <= i < items.len() ==> (#[trigger] read(items[i])) is Some {
        Some(Seq::new(items.len(), |i: int| read(items[i])->0))
    } else {
        None
    }
}

/// A field that may be missing, then empty, and is a list otherwise.
pub open spec fn list_field<T>(
    j: JsonV,
    key: Seq<char>,
    read: spec_fn(JsonV) -> Option<T>,
) -> Option<Seq<T>> {
    if j.has(key) {
        match j.at(key) {
            JsonV::Arr(items) => read_all(items, read),
            _ => None,
        }
    } else {
        Some(Seq::empty())
    }
}

/// A field that may be missing or null.
pub open spec fn opt_part<T>(
    j: JsonV,
    key: Seq<char>,
    read: spec_fn(JsonV) -> Option<T>,
) -> Option<Option<T>> {
    if j.at(key) is Null {
        Some(None)
    } else {
        match read(j.at(key)) {
            Some(x) => Some(Some(x)),
            None => None,
        }
    }
}

fn read_opt(j: &Json, key: &str) -> (r: Option<Option<String>>)
    ensures
        r is Some <==> opt_field(j@, key@) is Some,
        r matches Some(o) ==> opt_field(j@, key@) == Some(text::oview(o)),
{
    match j.at(key) {
        Json::Null => Some(None),
        Json::Str(s) => Some(Some(s.clone())),
        _ => None,
    }
}

fn read_default(j: &Json, key: &str) -> (r: Option<String>)
    ensures
        text::oview(r) == default_field(j@, key@),
{
    match j.get(key) {
        Some(v) => own(v.as_str()),
        None => Some(String::new()),
    }
}

fn read_text(j: &Json, key: &str) -> (r: Option<String>)
    ensures
        text::oview(r) == j@.str_at(key@),
{
    own(j.str_at(key))
}

// ---------------------------------------------------------------------------
// Shared parts
// ---------------------------------------------------------------------------

/// The header of every event.
#[derive(Debug)]
pub struct EventHeader {
    pub event_type: String,
    /// The first choice for recognising an event that was delivered twice.
    pub event_id: Option<String>,
}

#[verifier::ext_equal]
pub struct EventHeaderV {
    pub event_type: Seq<char>,
    pub event_id: Option<Seq<char>>,
}

impl View for EventHeader {
    type V = EventHeaderV;

    open spec fn view(&self) -> EventHeaderV {
        EventHeaderV { event_type: self.event_type@, event_id: text::oview(self.event_id) }
    }
}

/// The header that a document holds.
pub open spec fn header_of(j: JsonV) -> Option<EventHeaderV> {
    match (j.str_at("event_type"@), opt_field(j, "event_id"@)) {
        (Some(event_type), Some(event_id)) => Some(EventHeaderV { event_type, event_id }),
        _ => None,
    }
}

impl EventHeader {
    /// Reads a header.
    pub fn read(j: &Json) -> (r: Option<EventHeader>)
        ensures
            model::optv(r) == header_of(j@),
    {
        match (read_text(j, "event_type"), read_opt(j, "event_id")) {
            (Some(event_type), Some(event_id)) => Some(EventHeader { event_type, event_id }),
            _ => None,
        }
    }
}

/// The identity of a sender.
#[derive(Debug)]
pub struct SenderId {
    pub open_id: String,
}

/// The sender of a message.
#[derive(Debug)]
pub struct Sender {
    pub sender_id: SenderId,
}

impl View for Sender {
    type V = Seq<char>;

    open spec fn view(&self) -> Seq<char> {
        self.sender_id.open_id@
    }
}

/// The sender that a document holds.
pub open spec fn sender_of(j: JsonV) -> Option<Seq<char>> {
    j.at("sender_id"@).str_at("open_id"@)
}

impl Sender {
    /// Reads a sender.
    pub fn read(j: &Json) -> (r: Option<Sender>)
        ensures
            model::optv(r) == sender_of(j@),
    {
        match read_text(j.at("sender_id"), "open_id") {
            Some(open_id) => Some(Sender { sender_id: SenderId { open_id } }),
            None => None,
        }
    }
}

/// The chat of a group message.
#[derive(Debug)]
pub struct Chat {
    pub chat_id: String,
}

impl View for Chat {
    type V = Seq<char>;

    open spec fn view(&self) -> Seq<char> {
        self.chat_id@
    }
}

/// The chat that a document holds.
pub open spec fn chat_of(j: JsonV) -> Option<Seq<char>> {
    j.str_at("chat_id"@)
}

impl Chat {
    /// Reads a chat.
    pub fn read(j: &Json) -> (r: Option<Chat>)
        ensures
            model::optv(r) == chat_of(j@),
    {
        match read_text(j, "chat_id") {
            Some(chat_id) => Some(Chat { chat_id }),
            None => None,
        }
    }
}

// ---------------------------------------------------------------------------
// Messages
// ---------------------------------------------------------------------------

/// The nested identity of a mentioned person.
#[derive(Debug)]
pub struct MentionId {
    pub open_id: Option<String>,
}

impl View for MentionId {
    type V = Option<Seq<char>>;

    open spec fn view(&self) -> Option<Seq<char>> {
        text::oview(self.open_id)
    }
}

/// The identity that a document holds.
pub open spec fn mention_id_of(j: JsonV) -> Option<Option<Seq<char>>> {
    if j is Obj {
        opt_field(j, "open_id"@)
    } else {
        None
    }
}

/// A mention in a message, which stands in the text under a placeholder such as `@_user_1`.
#[derive(Debug)]
pub struct MessageMention {
    pub key: Option<String>,
    pub id: Option<MentionId>,
    pub name: Option<String>,
    /// The identity, where it is not nested.
    pub open_id: Option<String>,
    /// The identity under its older name.
    pub user_id: Option<String>,
}

#[verifier::ext_equal]
pub struct MessageMentionV {
    pub key: Option<Seq<char>>,
    pub id: Option<Option<Seq<char>>>,
    pub name: Option<Seq<char>>,
    pub open_id: Option<Seq<char>>,
    pub user_id: Option<Seq<char>>,
}

impl View for MessageMention {
    type V = MessageMentionV;

    open spec fn view(&self) -> MessageMentionV {
        MessageMentionV {
            key: text::oview(self.key),
            id: model::optv(self.id),
            name: text::oview(self.name),
            open_id: text::oview(self.open_id),
            user_id: text::oview(self.user_id),
        }
    }
}

impl MessageMentionV {
    /// Who is mentioned: the nested identity before the flat ones.
    pub open spec fn who(self) -> Option<Seq<char>> {
        let nested = match self.id {
            Some(id) => id,
            None => None,
        };
        text::nonempty(text::first_of(text::first_of(nested, self.open_id), self.user_id))
    }
}

/// The mention that a document holds.
pub open spec fn mention_of(j: JsonV) -> Option<MessageMentionV> {
    if j is Obj {
        match (
            opt_field(j, "key"@),
            opt_part(j, "id"@, |x: JsonV| mention_id_of(x)),
            opt_field(j, "name"@),
            opt_field(j, "open_id"@),
            opt_field(j, "user_id"@),
        ) {
            (Some(key), Some(id), Some(name), Some(open_id), Some(user_id)) => Some(
                MessageMentionV { key, id, name, open_id, user_id },
            ),
            _ => None,
        }
    } else {
        None
    }
}

impl MentionId {
    fn read(j: &Json) -> (r: Option<MentionId>)
        ensures
            model::optv(r) == mention_id_of(j@),
    {
        match j {
            Json::Obj(_) => match read_opt(j, "open_id") {
                Some(open_id) => Some(MentionId { open_id }),
                None => None,
            },
            _ => None,
        }
    }

    fn read_part(j: &Json, key: &str) -> (r: Option<Option<MentionId>>)
        ensures
            r is Some <==> opt_part(j@, key@, |x: JsonV| mention_id_of(x)) is Some,
            r matches Some(o) ==> opt_part(j@, key@, |x: JsonV| mention_id_of(x)) == Some(model::optv(o)),
    {
        match j.at(key) {
            Json::Null => Some(None),
            v => match MentionId::read(v) {
                Some(id) => Some(Some(id)),
                None => None,
            },
        }
    }
}

impl MessageMention {
    /// Who is mentioned: the nested identity before the flat ones, and never an empty one.
    pub fn open_id<'a>(&'a self) -> (r: Option<&'a str>)
        ensures
            text::sview(r) == self@.who(),
    {
        let nested = match &self.id {
            Some(id) => borrow(&id.open_id),
            None => None,
        };
        take_nonempty(either(either(nested, borrow(&self.open_id)), borrow(&self.user_id)))
    }

    /// Reads a mention.
    pub fn read(j: &Json) -> (r: Option<MessageMention>)
        ensures
            model::optv(r) == mention_of(j@),
    {
        match j {
            Json::Obj(_) => match (
                read_opt(j, "key"),
                MentionId::read_part(j, "id"),
                read_opt(j, "name"),
                read_opt(j, "open_id"),
                read_opt(j, "user_id"),
            ) {
                (Some(key), Some(id), Some(name), Some(open_id), Some(user_id)) => Some(
                    MessageMention { key, id, name, open_id, user_id },
                ),
                _ => None,
            },
            _ => None,
        }
    }
}

fn read_mentions(j: &Json, key: &str) -> (r: Option<Vec<MessageMention>>)
    ensures
        r is Some <==> list_field(j@, key@, |x: JsonV| mention_of(x)) is Some,
        r matches Some(v) ==> list_field(j@, key@, |x: JsonV| mention_of(x)) == Some(model::listv(v@)),
{
    match j.get(key) {
        Some(Json::Arr(items)) => {
            let ghost read = |x: JsonV| mention_of(x);
            let mut out: Vec<MessageMention> = Vec::new();
            proof {
                json::lemma_items_index(items@);
            }
            let ghost all = json::items_view(items@);
            let mut i: usize = 0;
            while i < items.len()
                invariant
                    i <= items@.len(),
                    all == json::items_view(items@),
                    all.len() == items@.len(),
                    forall|k: int| 0 <= k < items@.len() ==> #[trigger] all[k] == items@[k]@,
                    read == (|x: JsonV| mention_of(x)),
                    out@.len() == i,
                    forall|k: int| 0 <= k < i ==> #[trigger] read(all[k]) == Some(out@[k]@),
                    j@.has(key@) && j@.at(key@) == JsonV::Arr(all),
                decreases items@.len() - i,
            {
                match MessageMention::read(&items[i]) {
                    Some(m) => out.push(m),
                    None => {
                        assert(read(all[i as int]) is None);
                        return None;
                    },
                }
                i += 1;
            }
            assert(model::listv(out@) =~= Seq::new(all.len(), |k: int| read(all[k])->0));
            Some(out)
        },
        Some(_) => None,
        None => {
            let out: Vec<MessageMention> = Vec::new();
            assert(model::listv(out@) =~= Seq::empty());
            Some(out)
        },
    }
}

/// A message.
#[derive(Debug)]
pub struct Message {
    pub message_type: String,
    /// The content, itself a JSON document in text form.
    pub content: String,
    /// `p2p` for a private chat, `group` for a group.
    pub chat_type: String,
    pub chat_id: Option<String>,
    pub message_id: Option<String>,
    pub mentions: Vec<MessageMention>,
    /// The message that a thread started from.
    pub root_id: Option<String>,
    /// The message that this one quotes.
    pub parent_id: Option<String>,
}

#[verifier::ext_equal]
pub struct MessageV {
    pub message_type: Seq<char>,
    pub content: Seq<char>,
    pub chat_type: Seq<char>,
    pub chat_id: Option<Seq<char>>,
    pub message_id: Option<Seq<char>>,
    pub mentions: Seq<MessageMentionV>,
    pub root_id: Option<Seq<char>>,
    pub parent_id: Option<Seq<char>>,
}

impl View for Message {
    type V = MessageV;

    open spec fn view(&self) -> MessageV {
        MessageV {
            message_type: self.message_type@,
            content: self.content@,
            chat_type: self.chat_type@,
            chat_id: text::oview(self.chat_id),
            message_id: text::oview(self.message_id),
            mentions: model::listv(self.mentions@),
            root_id: text::oview(self.root_id),
            parent_id: text::oview(self.parent_id),
        }
    }
}

/// The message that a document holds.
pub open spec fn message_of(j: JsonV) -> Option<MessageV> {
    match (
        (j.str_at("message_type"@), j.str_at("content"@), j.str_at("chat_type"@)),
        (opt_field(j, "chat_id"@), opt_field(j, "message_id"@)),
        list_field(j, "mentions"@, |x: JsonV| mention_of(x)),
        (opt_field(j, "root_id"@), opt_field(j, "parent_id"@)),
    ) {
        (
            (Some(message_type), Some(content), Some(chat_type)),
            (Some(chat_id), Some(message_id)),
            Some(mentions),
            (Some(root_id), Some(parent_id)),
        ) => Some(
            MessageV {
                message_type,
                content,
                chat_type,
                chat_id,
                message_id,
                mentions,
                root_id,
                parent_id,
            },
        ),
        _ => None,
    }
}

impl Message {
    /// Reads a message.
    pub fn read(j: &Json) -> (r: Option<Message>)
        ensures
            model::optv(r) == message_of(j@),
    {
        match (
            (read_text(j, "message_type"), read_text(j, "content"), read_text(j, "chat_type")),
            (read_opt(j, "chat_id"), read_opt(j, "message_id")),
            read_mentions(j, "mentions"),
            (read_opt(j, "root_id"), read_opt(j, "parent_id")),
        ) {
            (
                (Some(message_type), Some(content), Some(chat_type)),
                (Some(chat_id), Some(message_id)),
                Some(mentions),
                (Some(root_id), Some(parent_id)),
            ) => Some(
                Message {
                    message_type,
                    content,
                    chat_type,
                    chat_id,
                    message_id,
                    mentions,
                    root_id,
                    parent_id,
                },
            ),
            _ => None,
        }
    }
}

/// What a message event reports.
#[derive(Debug)]
pub struct EventBody {
    pub sender: Sender,
    pub message: Message,
    pub chat: Option<Chat>,
}

/// A message event (`im.message.receive_v1`).
#[derive(Debug)]
pub struct FeishuEvent {
    pub header: EventHeader,
    pub event: EventBody,
}

#[verifier::ext_equal]
pub struct EventBodyV {
    pub sender: Seq<char>,
    pub message: MessageV,
    pub chat: Option<Seq<char>>,
}

#[verifier::ext_equal]
pub struct FeishuEventV {
    pub header: EventHeaderV,
    pub event: EventBodyV,
}

impl View for EventBody {
    type V = EventBodyV;

    open spec fn view(&self) -> EventBodyV {
        EventBodyV { sender: self.sender@, message: self.message@, chat: model::optv(self.chat) }
    }
}

impl View for FeishuEvent {
    type V = FeishuEventV;

    open spec fn view(&self) -> FeishuEventV {
        FeishuEventV { header: self.header@, event: self.event@ }
    }
}

/// The body of a message event that a document holds.
pub open spec fn event_body_of(j: JsonV) -> Option<EventBodyV> {
    match (
        sender_of(j.at("sender"@)),
        message_of(j.at("message"@)),
        opt_part(j, "chat"@, |x: JsonV| chat_of(x)),
    ) {
        (Some(sender), Some(message), Some(chat)) => Some(EventBodyV { sender, message, chat }),
        _ => None,
    }
}

/// The message event that a document holds.
pub open spec fn feishu_event_of(j: JsonV) -> Option<FeishuEventV> {
    match (header_of(j.at("header"@)), event_body_of(j.at("event"@))) {
        (Some(header), Some(event)) => Some(FeishuEventV { header, event }),
        _ => None,
    }
}

impl FeishuEvent {
    /// Reads a message event.
    pub fn read(j: &Json) -> (r: Option<FeishuEvent>)
        ensures
            model::optv(r) == feishu_event_of(j@),
    {
        let e = j.at("event");
        let chat = match e.at("chat") {
            Json::Null => Some(None),
            v => match Chat::read(v) {
                Some(c) => Some(Some(c)),
                None => None,
            },
        };
        match (
            EventHeader::read(j.at("header")),
            Sender::read(e.at("sender")),
            Message::read(e.at("message")),
            chat,
        ) {
            (Some(header), Some(sender), Some(message), Some(chat)) => Some(
                FeishuEvent { header, event: EventBody { sender, message, chat } },
            ),
            _ => None,
        }
    }
}

/// The content of a text message.
#[derive(Debug)]
pub struct TextContent {
    pub text: String,
}

impl View for TextContent {
    type V = Seq<char>;

    open spec fn view(&self) -> Seq<char> {
        self.text@
    }
}

impl TextContent {
    /// Reads the content of a text message.
    pub fn read(j: &Json) -> (r: Option<TextContent>)
        ensures
            model::optv(r) == j@.str_at("text"@),
    {
        match read_text(j, "text") {
            Some(text) => Some(TextContent { text }),
            None => None,
        }
    }
}

/// The content of an image message.
#[derive(Debug)]
pub struct ImageContent {
    pub image_key: String,
}

impl View for ImageContent {
    type V = Seq<char>;

    open spec fn view(&self) -> Seq<char> {
        self.image_key@
    }
}

impl ImageContent {
    /// Reads the content of an image message.
    pub fn read(j: &Json) -> (r: Option<ImageContent>)
        ensures
            model::optv(r) == j@.str_at("image_key"@),
    {
        match read_text(j, "image_key") {
            Some(image_key) => Some(ImageContent { image_key }),
            None => None,
        }
    }
}

/// The content of a file message.
#[derive(Debug)]
pub struct FileContent {
    pub file_key: String,
    pub file_name: Option<String>,
}

impl View for FileContent {
    type V = (Seq<char>, Option<Seq<char>>);

    open spec fn view(&self) -> (Seq<char>, Option<Seq<char>>) {
        (self.file_key@, text::oview(self.file_name))
    }
}

/// The content of a file message that a document holds.
pub open spec fn file_content_of(j: JsonV) -> Option<(Seq<char>, Option<Seq<char>>)> {
    match (j.str_at("file_key"@), opt_field(j, "file_name"@)) {
        (Some(key), Some(name)) => Some((key, name)),
        _ => None,
    }
}

impl FileContent {
    /// Reads the content of a file message.
    pub fn read(j: &Json) -> (r: Option<FileContent>)
        ensures
            model::optv(r) == file_content_of(j@),
    {
        match (read_text(j, "file_key"), read_opt(j, "file_name")) {
            (Some(file_key), Some(file_name)) => Some(FileContent { file_key, file_name }),
            _ => None,
        }
    }
}

/// A node of a rich-text message.
#[derive(Debug)]
pub struct PostNode {
    pub tag: String,
    pub text: Option<String>,
    pub image_key: Option<String>,
    pub href: Option<String>,
    pub user_id: Option<String>,
    pub user_name: Option<String>,
}

#[verifier::ext_equal]
pub struct PostNodeV {
    pub tag: Seq<char>,
    pub text: Option<Seq<char>>,
    pub image_key: Option<Seq<char>>,
    pub href: Option<Seq<char>>,
    pub user_id: Option<Seq<char>>,
    pub user_name: Option<Seq<char>>,
}

impl View for PostNode {
    type V = PostNodeV;

    open spec fn view(&self) -> PostNodeV {
        PostNodeV {
            tag: self.tag@,
            text: text::oview(self.text),
            image_key: text::oview(self.image_key),
            href: text::oview(self.href),
            user_id: text::oview(self.user_id),
            user_name: text::oview(self.user_name),
        }
    }
}

/// The node that a document holds.
pub open spec fn post_node_of(j: JsonV) -> Option<PostNodeV> {
    match (
        (j.str_at("tag"@), opt_field(j, "text"@), opt_field(j, "image_key"@)),
        (opt_field(j, "href"@), opt_field(j, "user_id"@), opt_field(j, "user_name"@)),
    ) {
        (
            (Some(tag), Some(text), Some(image_key)),
            (Some(href), Some(user_id), Some(user_name)),
        ) => Some(PostNodeV { tag, text, image_key, href, user_id, user_name }),
        _ => None,
    }
}

/// A row of nodes that a document holds.
pub open spec fn post_row_of(j: JsonV) -> Option<Seq<PostNodeV>> {
    match j {
        JsonV::Arr(items) => read_all(items, |x: JsonV| post_node_of(x)),
        _ => None,
    }
}

/// A rich-text message: a title and rows of nodes.
#[derive(Debug)]
pub struct PostContent {
    pub title: String,
    pub content: Vec<Vec<PostNode>>,
}

/// Rows of nodes by their views.
pub open spec fn rows_view(rows: Seq<Vec<PostNode>>) -> Seq<Seq<PostNodeV>> {
    Seq::new(rows.len(), |i: int| model::listv(rows[i]@))
}

#[verifier::ext_equal]
pub struct PostContentV {
    pub title: Seq<char>,
    pub content: Seq<Seq<PostNodeV>>,
}

impl View for PostContent {
    type V = PostContentV;

    open spec fn view(&self) -> PostContentV {
        PostContentV { title: self.title@, content: rows_view(self.content@) }
    }
}

/// The rich-text message that a document holds.
pub open spec fn post_of(j: JsonV) -> Option<PostContentV> {
    if j is Obj {
        match (
            default_field(j, "title"@),
            list_field(j, "content"@, |x: JsonV| post_row_of(x)),
        ) {
            (Some(title), Some(content)) => Some(PostContentV { title, content }),
            _ => None,
        }
    } else {
        None
    }
}

impl PostNode {
    fn read(j: &Json) -> (r: Option<PostNode>)
        ensures
            model::optv(r) == post_node_of(j@),
    {
        match (
            (read_text(j, "tag"), read_opt(j, "text"), read_opt(j, "image_key")),
            (read_opt(j, "href"), read_opt(j, "user_id"), read_opt(j, "user_name")),
        ) {
            (
                (Some(tag), Some(text), Some(image_key)),
                (Some(href), Some(user_id), Some(user_name)),
            ) => Some(PostNode { tag, text, image_key, href, user_id, user_name }),
            _ => None,
        }
    }

    fn read_row(j: &Json) -> (r: Option<Vec<PostNode>>)
        ensures
            r is Some <==> post_row_of(j@) is Some,
            r matches Some(v) ==> post_row_of(j@) == Some(model::listv(v@)),
    {
        match j {
            Json::Arr(items) => {
                let ghost read = |x: JsonV| post_node_of(x);
                let mut out: Vec<PostNode> = Vec::new();
                proof {
                    json::lemma_items_index(items@);
                }
                let ghost all = json::items_view(items@);
                let mut i: usize = 0;
                while i < items.len()
                    invariant
                        i <= items@.len(),
                        all == json::items_view(items@),
                        all.len() == items@.len(),
                        forall|k: int| 0 <= k < items@.len() ==> #[trigger] all[k] == items@[k]@,
                        read == (|x: JsonV| post_node_of(x)),
                        out@.len() == i,
                        forall|k: int| 0 <= k < i ==> #[trigger] read(all[k]) == Some(out@[k]@),
                        j@ == JsonV::Arr(all),
                    decreases items@.len() - i,
                {
                    match PostNode::read(&items[i]) {
                        Some(m) => out.push(m),
                        None => {
                            assert(read(all[i as int]) is None);
                            return None;
                        },
                    }
                    i += 1;
                }
                assert(model::listv(out@) =~= Seq::new(all.len(), |k: int| read(all[k])->0));
                Some(out)
            },
            _ => None,
        }
    }
}

impl PostContent {
    fn read_rows(j: &Json, key: &str) -> (r: Option<Vec<Vec<PostNode>>>)
        ensures
            r is Some <==> list_field(j@, key@, |x: JsonV| post_row_of(x)) is Some,
            r matches Some(v) ==> list_field(j@, key@, |x: JsonV| post_row_of(x)) == Some(
                rows_view(v@),
            ),
    {
        match j.get(key) {
            Some(Json::Arr(items)) => {
                let ghost read = |x: JsonV| post_row_of(x);
                let mut out: Vec<Vec<PostNode>> = Vec::new();
                proof {
                    json::lemma_items_index(items@);
                }
                let ghost all = json::items_view(items@);
                let mut i: usize = 0;
                while i < items.len()
                    invariant
                        i <= items@.len(),
                        all == json::items_view(items@),
                        all.len() == items@.len(),
                        forall|k: int| 0 <= k < items@.len() ==> #[trigger] all[k] == items@[k]@,
                        read == (|x: JsonV| post_row_of(x)),
                        out@.len() == i,
                        forall|k: int|
                            0 <= k < i ==> #[trigger] read(all[k]) == Some(model::listv(out@[k]@)),
                        j@.has(key@) && j@.at(key@) == JsonV::Arr(all),
                    decreases items@.len() - i,
                {
                    match PostNode::read_row(&items[i]) {
                        Some(m) => out.push(m),
                        None => {
                            assert(read(all[i as int]) is None);
                            return None;
                        },
                    }
                    i += 1;
                }
                assert(rows_view(out@) =~= Seq::new(all.len(), |k: int| read(all[k])->0));
                Some(out)
            },
            Some(_) => None,
            None => {
                let out: Vec<Vec<PostNode>> = Vec::new();
                assert(rows_view(out@) =~= Seq::empty());
                Some(out)
            },
        }
    }

    /// Reads a rich-text message.
    pub fn read(j: &Json) -> (r: Option<PostContent>)
        ensures
            model::optv(r) == post_of(j@),
    {
        match j {
            Json::Obj(_) => match (read_default(j, "title"), Self::read_rows(j, "content")) {
                (Some(title), Some(content)) => Some(PostContent { title, content }),
                _ => None,
            },
            _ => None,
        }
    }
}

// ---------------------------------------------------------------------------
// Operators, buttons and menus
// ---------------------------------------------------------------------------

/// The nested identity of an operator.
#[derive(Debug)]
pub struct CardOperatorId {
    pub open_id: Option<String>,
}

impl View for CardOperatorId {
    type V = Option<Seq<char>>;

    open spec fn view(&self) -> Option<Seq<char>> {
        text::oview(self.open_id)
    }
}

/// Whoever clicked a button or a menu.
#[derive(Debug)]
pub struct CardOperator {
    pub operator_id: Option<CardOperatorId>,
    pub open_id: Option<String>,
}

#[verifier::ext_equal]
pub struct CardOperatorV {
    pub operator_id: Option<Option<Seq<char>>>,
    pub open_id: Option<Seq<char>>,
}

impl View for CardOperator {
    type V = CardOperatorV;

    open spec fn view(&self) -> CardOperatorV {
        CardOperatorV { operator_id: model::optv(self.operator_id), open_id: text::oview(self.open_id) }
    }
}

impl CardOperatorV {
    /// The identity of the operator: the flat one before the nested one, and never an
    /// empty one.
    pub open spec fn who(self) -> Option<Seq<char>> {
        let nested = match self.operator_id {
            Some(id) => id,
            None => None,
        };
        text::nonempty(text::first_of(self.open_id, nested))
    }
}

/// The operator that a document holds.
pub open spec fn operator_of(j: JsonV) -> Option<CardOperatorV> {
    if j is Obj {
        match (
            opt_part(j, "operator_id"@, |x: JsonV| mention_id_of(x)),
            opt_field(j, "open_id"@),
        ) {
            (Some(operator_id), Some(open_id)) => Some(CardOperatorV { operator_id, open_id }),
            _ => None,
        }
    } else {
        None
    }
}

impl CardOperator {
    /// Reads an operator.
    pub fn read(j: &Json) -> (r: Option<CardOperator>)
        ensures
            model::optv(r) == operator_of(j@),
    {
        match j {
            Json::Obj(_) => match (
                MentionId::read_part(j, "operator_id"),
                read_opt(j, "open_id"),
            ) {
                (Some(id), Some(open_id)) => {
                    let operator_id = match id {
                        Some(m) => Some(CardOperatorId { open_id: m.open_id }),
                        None => None,
                    };
                    Some(CardOperator { operator_id, open_id })
                },
                _ => None,
            },
            _ => None,
        }
    }
}

/// The identity of an operator: the flat one before the nested one, and never an empty one.
pub fn operator_open_id(op: &CardOperator) -> (r: Option<String>)
    ensures
        text::oview(r) == op@.who(),
{
    let nested = match &op.operator_id {
        Some(id) => borrow(&id.open_id),
        None => None,
    };
    own(take_nonempty(either(borrow(&op.open_id), nested)))
}

/// What a click on a card reports.
#[derive(Debug)]
pub struct CardActionBody {
    pub operator: CardOperator,
    /// The action, with the value that the button carries.
    pub action: Json,
}

/// A click on a card (`card.action.trigger`).
#[derive(Debug)]
pub struct CardActionEvent {
    pub header: EventHeader,
    pub event: CardActionBody,
}

#[verifier::ext_equal]
pub struct CardActionEventV {
    pub header: EventHeaderV,
    pub operator: CardOperatorV,
    pub action: JsonV,
}

impl View for CardActionEvent {
    type V = CardActionEventV;

    open spec fn view(&self) -> CardActionEventV {
        CardActionEventV {
            header: self.header@,
            operator: self.event.operator@,
            action: self.event.action@,
        }
    }
}

/// The click that a document holds.
pub open spec fn card_action_event_of(j: JsonV) -> Option<CardActionEventV> {
    match (header_of(j.at("header"@)), operator_of(j.at("event"@).at("operator"@))) {
        (Some(header), Some(operator)) => if j.at("event"@).has("action"@) {
            Some(CardActionEventV { header, operator, action: j.at("event"@).at("action"@) })
        } else {
            None
        },
        _ => None,
    }
}

impl CardActionEvent {
    /// Reads a click on a card.
    pub fn read(j: &Json) -> (r: Option<CardActionEvent>)
        ensures
            model::optv(r) == card_action_event_of(j@),
    {
        let e = j.at("event");
        match (
            EventHeader::read(j.at("header")),
            CardOperator::read(e.at("operator")),
            e.get("action"),
        ) {
            (Some(header), Some(operator), Some(action)) => Some(
                CardActionEvent {
                    header,
                    event: CardActionBody { operator, action: action.copy() },
                },
            ),
            _ => None,
        }
    }
}

/// What a click on a menu reports.
#[derive(Debug)]
pub struct MenuBody {
    pub operator: Option<CardOperator>,
    pub chat_id: Option<String>,
}

/// A click on a menu (`application.url.menu_v6`).
#[derive(Debug)]
pub struct MenuEvent {
    pub header: EventHeader,
    pub event: MenuBody,
}

#[verifier::ext_equal]
pub struct MenuEventV {
    pub header: EventHeaderV,
    pub operator: Option<CardOperatorV>,
    pub chat_id: Option<Seq<char>>,
}

impl View for MenuEvent {
    type V = MenuEventV;

    open spec fn view(&self) -> MenuEventV {
        MenuEventV {
            header: self.header@,
            operator: model::optv(self.event.operator),
            chat_id: text::oview(self.event.chat_id),
        }
    }
}

/// The menu click that a document holds.
pub open spec fn menu_event_of(j: JsonV) -> Option<MenuEventV> {
    let e = j.at("event"@);
    if e is Obj {
        match (
            header_of(j.at("header"@)),
            opt_part(e, "operator"@, |x: JsonV| operator_of(x)),
            opt_field(e, "chat_id"@),
        ) {
            (Some(header), Some(operator), Some(chat_id)) => Some(
                MenuEventV { header, operator, chat_id },
            ),
            _ => None,
        }
    } else {
        None
    }
}

impl MenuEvent {
    /// Reads a click on a menu.
    pub fn read(j: &Json) -> (r: Option<MenuEvent>)
        ensures
            model::optv(r) == menu_event_of(j@),
    {
        let e = j.at("event");
        match e {
            Json::Obj(_) => {
                let operator = match e.at("operator") {
                    Json::Null => Some(None),
                    v => match CardOperator::read(v) {
                        Some(o) => Some(Some(o)),
                        None => None,
                    },
                };
                match (EventHeader::read(j.at("header")), operator, read_opt(e, "chat_id")) {
                    (Some(header), Some(operator), Some(chat_id)) => Some(
                        MenuEvent { header, event: MenuBody { operator, chat_id } },
                    ),
                    _ => None,
                }
            },
            _ => None,
        }
    }
}

// ---------------------------------------------------------------------------
// Recalls, comments and membership
// ---------------------------------------------------------------------------

fn read_sender_part(j: &Json) -> (r: Option<Option<Sender>>)
    ensures
        r is Some <==> opt_part(j@, "sender"@, |x: JsonV| sender_of(x)) is Some,
        r matches Some(o) ==> opt_part(j@, "sender"@, |x: JsonV| sender_of(x)) == Some(model::optv(o)),
{
    match j.at("sender") {
        Json::Null => Some(None),
        v => match Sender::read(v) {
            Some(s) => Some(Some(s)),
            None => None,
        },
    }
}

/// What a recall reports.
#[derive(Debug)]
pub struct RecallBody {
    pub message_id: String,
    pub chat_id: Option<String>,
    pub sender: Option<Sender>,
}

/// A message that its sender took back (`im.message.recalled_v1`).
#[derive(Debug)]
pub struct RecallEvent {
    pub header: EventHeader,
    pub event: RecallBody,
}

#[verifier::ext_equal]
pub struct RecallEventV {
    pub header: EventHeaderV,
    pub message_id: Seq<char>,
    pub chat_id: Option<Seq<char>>,
    pub sender: Option<Seq<char>>,
}

impl View for RecallEvent {
    type V = RecallEventV;

    open spec fn view(&self) -> RecallEventV {
        RecallEventV {
            header: self.header@,
            message_id: self.event.message_id@,
            chat_id: text::oview(self.event.chat_id),
            sender: model::optv(self.event.sender),
        }
    }
}

/// The recall that a document holds.
pub open spec fn recall_event_of(j: JsonV) -> Option<RecallEventV> {
    let e = j.at("event"@);
    if e is Obj {
        match (
            header_of(j.at("header"@)),
            default_field(e, "message_id"@),
            opt_field(e, "chat_id"@),
            opt_part(e, "sender"@, |x: JsonV| sender_of(x)),
        ) {
            (Some(header), Some(message_id), Some(chat_id), Some(sender)) => Some(
                RecallEventV { header, message_id, chat_id, sender },
            ),
            _ => None,
        }
    } else {
        None
    }
}

impl RecallEvent {
    /// Reads a recall.
    pub fn read(j: &Json) -> (r: Option<RecallEvent>)
        ensures
            model::optv(r) == recall_event_of(j@),
    {
        let e = j.at("event");
        match e {
            Json::Obj(_) => match (
                EventHeader::read(j.at("header")),
                read_default(e, "message_id"),
                read_opt(e, "chat_id"),
                read_sender_part(e),
            ) {
                (Some(header), Some(message_id), Some(chat_id), Some(sender)) => Some(
                    RecallEvent { header, event: RecallBody { message_id, chat_id, sender } },
                ),
                _ => None,
            },
            _ => None,
        }
    }
}

/// What a removal reports.
#[derive(Debug)]
pub struct BotRemovedBody {
    pub chat_id: String,
}

/// The bot was removed from a group (`im.chat.member.bot.deleted_v1`).
#[derive(Debug)]
pub struct BotRemovedEvent {
    pub header: EventHeader,
    pub event: BotRemovedBody,
}

#[verifier::ext_equal]
pub struct BotRemovedEventV {
    pub header: EventHeaderV,
    pub chat_id: Seq<char>,
}

impl View for BotRemovedEvent {
    type V = BotRemovedEventV;

    open spec fn view(&self) -> BotRemovedEventV {
        BotRemovedEventV { header: self.header@, chat_id: self.event.chat_id@ }
    }
}

/// The removal that a document holds.
pub open spec fn bot_removed_event_of(j: JsonV) -> Option<BotRemovedEventV> {
    let e = j.at("event"@);
    if e is Obj {
        match (header_of(j.at("header"@)), default_field(e, "chat_id"@)) {
            (Some(header), Some(chat_id)) => Some(BotRemovedEventV { header, chat_id }),
            _ => None,
        }
    } else {
        None
    }
}

impl BotRemovedEvent {
    /// Reads a removal.
    pub fn read(j: &Json) -> (r: Option<BotRemovedEvent>)
        ensures
            model::optv(r) == bot_removed_event_of(j@),
    {
        let e = j.at("event");
        match e {
            Json::Obj(_) => match (
                EventHeader::read(j.at("header")),
                read_default(e, "chat_id"),
            ) {
                (Some(header), Some(chat_id)) => Some(
                    BotRemovedEvent { header, event: BotRemovedBody { chat_id } },
                ),
                _ => None,
            },
            _ => None,
        }
    }
}

/// A node of a comment.
#[derive(Debug)]
pub struct CommentContentNode {
    pub kind: String,
    pub text: Option<String>,
    pub user_id: Option<String>,
    pub open_id: Option<String>,
}

#[verifier::ext_equal]
pub struct CommentNodeV {
    pub kind: Seq<char>,
    pub text: Option<Seq<char>>,
    pub user_id: Option<Seq<char>>,
    pub open_id: Option<Seq<char>>,
}

impl View for CommentContentNode {
    type V = CommentNodeV;

    open spec fn view(&self) -> CommentNodeV {
        CommentNodeV {
            kind: self.kind@,
            text: text::oview(self.text),
            user_id: text::oview(self.user_id),
            open_id: text::oview(self.open_id),
        }
    }
}

/// The node of a comment that a document holds.
pub open spec fn comment_node_of(j: JsonV) -> Option<CommentNodeV> {
    match (
        j.str_at("type"@),
        opt_field(j, "text"@),
        opt_field(j, "user_id"@),
        opt_field(j, "open_id"@),
    ) {
        (Some(kind), Some(text), Some(user_id), Some(open_id)) => Some(
            CommentNodeV { kind, text, user_id, open_id },
        ),
        _ => None,
    }
}

/// What a comment reports.
#[derive(Debug)]
pub struct CommentBody {
    pub comment_id: String,
    pub file_token: String,
    pub content: Vec<CommentContentNode>,
    pub sender: Option<Sender>,
}

/// A comment in a document (`drive.file.comment.created_v1`).
#[derive(Debug)]
pub struct CommentEvent {
    pub header: EventHeader,
    pub event: CommentBody,
}

#[verifier::ext_equal]
pub struct CommentEventV {
    pub header: EventHeaderV,
    pub comment_id: Seq<char>,
    pub file_token: Seq<char>,
    pub content: Seq<CommentNodeV>,
    pub sender: Option<Seq<char>>,
}

impl View for CommentEvent {
    type V = CommentEventV;

    open spec fn view(&self) -> CommentEventV {
        CommentEventV {
            header: self.header@,
            comment_id: self.event.comment_id@,
            file_token: self.event.file_token@,
            content: model::listv(self.event.content@),
            sender: model::optv(self.event.sender),
        }
    }
}

/// The comment that a document holds.
pub open spec fn comment_event_of(j: JsonV) -> Option<CommentEventV> {
    let e = j.at("event"@);
    if e is Obj {
        match (
            header_of(j.at("header"@)),
            (default_field(e, "comment_id"@), default_field(e, "file_token"@)),
            list_field(e, "content"@, |x: JsonV| comment_node_of(x)),
            opt_part(e, "sender"@, |x: JsonV| sender_of(x)),
        ) {
            (
                Some(header),
                (Some(comment_id), Some(file_token)),
                Some(content),
                Some(sender),
            ) => Some(CommentEventV { header, comment_id, file_token, content, sender }),
            _ => None,
        }
    } else {
        None
    }
}

impl CommentContentNode {
    fn read(j: &Json) -> (r: Option<CommentContentNode>)
        ensures
            model::optv(r) == comment_node_of(j@),
    {
        match (
            read_text(j, "type"),
            read_opt(j, "text"),
            read_opt(j, "user_id"),
            read_opt(j, "open_id"),
        ) {
            (Some(kind), Some(text), Some(user_id), Some(open_id)) => Some(
                CommentContentNode { kind, text, user_id, open_id },
            ),
            _ => None,
        }
    }

    fn read_list(j: &Json, key: &str) -> (r: Option<Vec<CommentContentNode>>)
        ensures
            r is Some <==> list_field(j@, key@, |x: JsonV| comment_node_of(x)) is Some,
            r matches Some(v) ==> list_field(j@, key@, |x: JsonV| comment_node_of(x)) == Some(
                model::listv(v@),
            ),
    {
        match j.get(key) {
            Some(Json::Arr(items)) => {
                let ghost read = |x: JsonV| comment_node_of(x);
                let mut out: Vec<CommentContentNode> = Vec::new();
                proof {
                    json::lemma_items_index(items@);
                }
                let ghost all = json::items_view(items@);
                let mut i: usize = 0;
                while i < items.len()
                    invariant
                        i <= items@.len(),
                        all == json::items_view(items@),
                        all.len() == items@.len(),
                        forall|k: int| 0 <= k < items@.len() ==> #[trigger] all[k] == items@[k]@,
                        read == (|x: JsonV| comment_node_of(x)),
                        out@.len() == i,
                        forall|k: int| 0 <= k < i ==> #[trigger] read(all[k]) == Some(out@[k]@),
                        j@.has(key@) && j@.at(key@) == JsonV::Arr(all),
                    decreases items@.len() - i,
                {
                    match CommentContentNode::read(&items[i]) {
                        Some(m) => out.push(m),
                        None => {
                            assert(read(all[i as int]) is None);
                            return None;
                        },
                    }
                    i += 1;
                }
                assert(model::listv(out@) =~= Seq::new(all.len(), |k: int| read(all[k])->0));
                Some(out)
            },
            Some(_) => None,
            None => {
                let out: Vec<CommentContentNode> = Vec::new();
                assert(model::listv(out@) =~= Seq::empty());
                Some(out)
            },
        }
    }
}

impl CommentEvent {
    /// Reads a comment.
    pub fn read(j: &Json) -> (r: Option<CommentEvent>)
        ensures
            model::optv(r) == comment_event_of(j@),
    {
        let e = j.at("event");
        match e {
            Json::Obj(_) => match (
                EventHeader::read(j.at("header")),
                (read_default(e, "comment_id"), read_default(e, "file_token")),
                CommentContentNode::read_list(e, "content"),
                read_sender_part(e),
            ) {
                (
                    Some(header),
                    (Some(comment_id), Some(file_token)),
                    Some(content),
                    Some(sender),
                ) => Some(
                    CommentEvent {
                        header,
                        event: CommentBody { comment_id, file_token, content, sender },
                    },
                ),
                _ => None,
            },
            _ => None,
        }
    }
}

} // verus!
