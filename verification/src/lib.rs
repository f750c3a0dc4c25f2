//! Nextcloud Talk channel in webhook mode.
//!
//! - `channel`: the channel, its configuration and its allowlist
//! - `webhook`: incoming payloads, turned into messages
//! - `webhook_laws`: what payloads are read as, in terms of the members that they hold
//! - `outgoing`: messages and reactions, turned into HTTP requests
//! - `signature`: HMAC-SHA256 signatures of both
//! - `json`, `timestamp`, `url`, `status`, `message`: the values these are made of
//! - `text`, `decimal`, `hexadecimal`: text primitives
//! - `clock`, `nonce`: the time and random identifiers
//! - `relation`: the relations between texts and values that the laws are stated in
//!
//! Nothing here talks to the network: requests are values that the caller performs.
pub mod channel;
pub mod clock;
pub mod decimal;
pub mod hexadecimal;
pub mod json;
pub mod message;
pub mod nonce;
pub mod outgoing;
pub mod relation;
pub mod signature;
pub mod status;
pub mod text;
pub mod timestamp;
pub mod url;
pub mod webhook;
pub mod webhook_laws;

pub use channel::NextcloudTalkChannel;
pub use json::{JsonNumber, JsonValue};
pub use message::{ChannelMessage, SendMessage};
pub use signature::verify_nextcloud_talk_signature;
