//! Verified core of a Satori protocol relay.
//!
//! The crate holds the protocol engine: the Signal wire codec over a JSON
//! value tree, the bot registry with batch-replace-by-owner semantics, the
//! routing logic for outbound API calls, and the connector and gateway state
//! machines. Transport (sockets, HTTP, timers) lives outside this crate and
//! exchanges plain values with it.

pub mod api;
pub mod codec;
pub mod connector;
pub mod gateway;
pub mod json;
pub mod registry;
pub mod structs;

pub use api::{ApiRequest, CallApiError};
pub use codec::{DecodeError, Identify, Logins, Signal};
pub use gateway::NetAPPConfig;
pub use json::JsonValue;
pub use registry::{NetSDKConfig, Registry};
pub use structs::{
    BotId, Channel, ChannelType, Event, Guild, GuildMember, GuildRole, Login, Message, Status, User,
};
