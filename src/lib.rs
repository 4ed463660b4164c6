use vstd::prelude::*;

/// Runtime settings: the ports the proxy listens on.
pub mod config;
/// The flag word of a game packet header.
pub mod packet_flag;
/// The interception pipeline: what becomes of each packet, and the bridge's events.
pub mod packet_handler;
/// The outer message types and the game packet sub-types.
pub mod packet_type;
/// The text side of the fake web endpoint: the form sent upstream and the reply to clients.
pub mod resolver;
/// The routing table the two sides share, and the commands the pipeline gives.
pub mod routing;
/// The fixed header of a game packet.
pub mod tank_packet;
/// Text records: `|`-separated lists and `key|value` lines.
pub mod text_parse;
/// The variant-list codec.
pub mod variant;
/// The rewriting of remote function calls.
pub mod variant_handler;
/// Little-endian integers on byte sequences.
pub mod wire;

verus! {

} // verus!
