//! The sender capability: accept one wire packet for transmission.
//!
//! Packet producers (the subscription manager, the command interface) hand
//! finished wire packets to a [`SendPacket`] implementation.  The trait keeps
//! the packets it has accepted as its abstract state, so a producer's
//! contract can say exactly which packets were handed over.  [`PacketLog`]
//! is the in-memory implementation; an application wraps its own transport
//! the same way.

use vstd::prelude::*;

use crate::wire::PacketWrapper;
use crate::wire::WirePacketView;

verus! {

/// A sink that accepts wire packets for transmission, with no
/// acknowledgment.
pub trait SendPacket {
    /// The packets accepted so far, oldest first.
    spec fn sent(&self) -> Seq<WirePacketView>;

    /// Accepts one wire packet for transmission.
    fn send_packet(&mut self, packet: PacketWrapper)
        ensures
            final(self).sent() == old(self).sent().push(packet@),
    ;
}

/// An in-memory sender: it records every packet it accepts.
pub struct PacketLog {
    packets: Vec<PacketWrapper>,
}

impl PacketLog {
    pub fn new() -> (r: Self)
        ensures
            r.sent() == Seq::<WirePacketView>::empty(),
    {
        let log = PacketLog { packets: Vec::new() };
        proof {
            assert(log.sent() =~= Seq::<WirePacketView>::empty());
        }
        log
    }

    /// The packets accepted so far.
    pub fn packets(&self) -> (r: &Vec<PacketWrapper>)
        ensures
            r@.map_values(|p: PacketWrapper| p@) == self.sent(),
    {
        &self.packets
    }
}

impl SendPacket for PacketLog {
    closed spec fn sent(&self) -> Seq<WirePacketView> {
        self.packets@.map_values(|p: PacketWrapper| p@)
    }

    fn send_packet(&mut self, packet: PacketWrapper) {
        let ghost view = packet@;
        self.packets.push(packet);
        proof {
            assert(self.sent() =~= old(self).sent().push(view));
        }
    }
}

} // verus!
