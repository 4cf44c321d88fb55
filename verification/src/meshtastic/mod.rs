use vstd::prelude::*;

pub mod admin;
pub mod node_db;
pub mod packet_history;

verus! {

/// The largest Meshtastic message this node builds.
pub const MAX_MESSAGE_SIZE: usize = 256;

} // verus!
