//! Client-side control and transport core of a real-time call application:
//! a connection lifecycle state machine with heartbeat and peer-liveness
//! ticks, a bounded peer subscription manager, and the construction of
//! encrypted management and heartbeat wire packets.

pub mod connection;
pub mod crypto;
pub mod media_management_interface;
pub mod peer_subscribtion_manager;
pub mod send_packet;
pub mod wire;
