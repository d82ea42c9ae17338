//! A bridge between a chat platform and an agent: the part that decides.
//!
//! Events of the platform come in as bytes and are read into messages, clicks and notices
//! ([`events`], [`message`], [`forward`], [`card_action`], [`notices`]). [`drain`] says what
//! an event leads to, with what is remembered in [`session`] and [`asks`]. Cards are built in
//! [`task_card`], [`ask_card`] and [`command_card`]; [`clicks`] states what a click on their
//! buttons comes to. Requests and replies of the platform are formed and read in [`requests`]
//! and [`replies`]. [`flows`], [`card_flow`], [`fetching`], [`routing`] and [`retry`] decide, step by step,
//! where something is sent and what is tried next where it fails. [`gemini`] starts and
//! understands the command line agent.
//!
//! What all this is for is stated on its own: [`received`] and [`dealings`] say what an event
//! comes to, [`shown`], [`commands`] and [`reports`] what people see and what a click on it
//! does, [`delivery`] and [`upkeep`] where an answer goes and how a card is kept up to date,
//! [`fetched`] what becomes of files and replies, and [`wording`] what becomes of the words.
//!
//! Nothing here sends, reads or waits: each of these modules takes what happened and says what
//! to do.
//!
//! The contracts speak of views: a text is a `Seq<char>`, a document a [`json::JsonV`]. What is
//! taken on trust stands next to the wrapper that calls it: reading and printing documents
//! ([`json`]), replacing by a pattern ([`markdown`]), base64 and random letters ([`replies`]),
//! the clock and the local time ([`clock`], [`forward`], [`routing`]).

pub mod digits;
pub mod text;
pub mod json;
pub mod clock;
pub mod table;

pub mod model;
pub mod errors;
pub mod conv;
pub mod dedup;

pub mod events;
pub mod message;
pub mod forward;
pub mod card_action;
pub mod notices;
pub mod received;

pub mod markdown;
pub mod wording;
pub mod status;
pub mod parts;
pub mod task_card;
pub mod ask_card;
pub mod command_card;
pub mod clicks;
pub mod shown;
pub mod commands;
pub mod reports;

pub mod requests;
pub mod replies;
pub mod media;
pub mod fetching;

pub mod retry;
pub mod routing;
pub mod session;
pub mod asks;
pub mod drain;
pub mod dealings;
pub mod card_flow;
pub mod flows;
pub mod delivery;
pub mod upkeep;
pub mod fetched;

pub mod gemini;
