//! Mesh chat protocol over Bluetooth Low Energy advertising frames.
//!
//! The protocol rides inside BLE advertisements: a legacy advertisement leaves
//! a frame of 22 bytes, an extended one up to 211, and everything here is
//! built around those budgets. Nothing here touches a radio, a socket, a clock
//! or a random number: the application hands in what it received and performs
//! what comes back.
//!
//! The protocol engine:
//!
//! * [`Packet`]: a message, made by [`Packet::hearsay`](packet::PacketN) for
//!   everyone or as a telegram for one node.
//! * [`Frame`]: its encoded on-air form, see [`wire`].
//! * [`WireId`] and [`NodeId`]: who a node is, on the wire and to people.
//! * [`Router`]: what to do with a received frame, with duplicates suppressed
//!   by a [`SeenCache`].
//! * [`rotation`]: who gets the single advertising slot next.
//! * [`codec`]: packets and frames as postcard bytes.
//! * [`advert`]: frames inside advertising data and service UUIDs.
//!
//! Errors explain themselves, see [`error`] and [`trace`].
//!
//! The decisions of the programs around it:
//!
//! * [`chat`] and [`transport`]: the console chat and its transports.
//! * [`board`], [`display`], [`keyer`] and [`morse`]: nodes that run as
//!   firmware.
//!
//! Public proof functions whose comments begin with "Law" state what holds of
//! these parts together.

pub mod advert;
pub mod board;
pub mod bytes;
pub mod chat;
pub mod codec;
pub mod display;
pub mod error;
pub mod keyer;
pub mod morse;
pub mod node_id;
pub mod packet;
pub mod rotation;
pub mod router;
pub mod seen;
pub mod text;
pub mod trace;
pub mod transport;
pub mod wire;

pub use advert::{manufacturer_frame, COMPANY_ID};
pub use error::{PacketError, WireError};
pub use node_id::{NodeId, NodeIdError, WireId};
pub use packet::{
    ExtPacket, Packet, PacketN, Payload, PayloadN, DEFAULT_TTL, MAX_EXT_PAYLOAD_HEARSAY,
    MAX_EXT_PAYLOAD_TELEGRAM, MAX_PAYLOAD_HEARSAY, MAX_PAYLOAD_TELEGRAM, MAX_TTL,
};
pub use router::{ExtRouteAction, IgnoreReason, RouteAction, RouteActionN, Router};
pub use seen::{fnv64, Ring, SeenCache, SEEN_CAPACITY};
pub use wire::{
    decode, encode, ExtFrame, Frame, FrameN, MAX_EXT_FRAME_LEN, MAX_FRAME_LEN, WIRE_VERSION,
    WIRE_VERSION_EXT,
};
