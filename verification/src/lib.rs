//! A UDP-tunneled virtual network switch: wire protocol codec, packet
//! address extraction, the hub's session and route tables, and the
//! relay decision logic for both the hub and the spoke roles.

pub mod config;
pub mod engine;
pub mod error;
pub mod packet;
pub mod protocol;
pub mod table;

pub use crate::config::{Config, Mode};
pub use crate::engine::{HubOutcome, SpokeAction};
pub use crate::error::{ProtocolFault, VswitchError};
pub use crate::packet::{Endpoint, IpAddress};
pub use crate::protocol::{Message, MessageType};
pub use crate::table::{PeerSession, SessionTable};
