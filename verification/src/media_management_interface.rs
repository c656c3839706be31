//! Construction of encrypted media-management wire packets.
//!
//! A semantic command is turned into an inner management message, the
//! message is serialized to its canonical byte form, the bytes are
//! encrypted, and the ciphertext is wrapped with the sender id into a
//! [`PacketWrapper`] of kind [`PacketType::MediaManagement`].  The payload
//! of every packet built here is the cipher's output over the serialized
//! inner message; no plaintext application data is ever wrapped.

use vstd::prelude::*;

use crate::crypto::Cipher;
use crate::crypto::CryptoError;
use crate::crypto::xor_bytes;
use crate::send_packet::SendPacket;
use crate::wire::EventType;
use crate::wire::MediaManagementPacket;
use crate::wire::PacketType;
use crate::wire::PacketWrapper;
use crate::wire::WirePacketView;
use crate::wire::encode_management;
use crate::wire::management_bytes;

verus! {

/// A semantic command consumed once by the packet builder.
pub enum ManagementCommand {
    SubscribeTo(String),
    UnSubscribeFrom(String),
    NotifyOngoinStream,
}

/// The event type a command maps to.
pub open spec fn command_event(cmd: &ManagementCommand) -> EventType {
    match cmd {
        ManagementCommand::SubscribeTo(_) => EventType::Subscribe,
        ManagementCommand::UnSubscribeFrom(_) => EventType::Unsubscribe,
        ManagementCommand::NotifyOngoinStream => EventType::OngoingStream,
    }
}

/// The peer a command addresses; a stream notification is self-addressed.
pub open spec fn command_target(cmd: &ManagementCommand, sender: Seq<char>) -> Seq<char> {
    match cmd {
        ManagementCommand::SubscribeTo(peer) => peer@,
        ManagementCommand::UnSubscribeFrom(peer) => peer@,
        ManagementCommand::NotifyOngoinStream => sender,
    }
}

/// The wire packet that a management build produces: the canonical bytes of
/// the inner message, encrypted under `key`, addressed from `sender`.
pub open spec fn management_packet_view(
    sender: Seq<char>,
    key: Seq<u8>,
    event: EventType,
    target: Seq<char>,
) -> WirePacketView {
    WirePacketView {
        data: xor_bytes(key, management_bytes(event, target)),
        email: sender,
        packet_type: PacketType::MediaManagement,
    }
}

/// Round trip: decrypting the payload of a built management packet under
/// the same key yields exactly the canonical bytes of the inner message,
/// for every sender, event and target.
pub proof fn lemma_management_payload_round_trip(
    sender: Seq<char>,
    key: Seq<u8>,
    event: EventType,
    target: Seq<char>,
)
    requires
        key.len() > 0,
    ensures
        xor_bytes(key, management_packet_view(sender, key, event, target).data)
            == management_bytes(event, target),
{
    crate::crypto::lemma_keystream_involution(key, management_bytes(event, target));
}

/// Builds the encrypted management packet for one event.
///
/// Fails exactly when the cipher is unusable; encryption failure is fatal
/// for the packet, there is no fallback to plaintext.
pub fn prepare_media_management_packet(
    aes: &Cipher,
    userid: String,
    email: String,
    event: EventType,
) -> (r: Result<PacketWrapper, CryptoError>)
    ensures
        aes.wf() ==> (r matches Ok(p) && p@ == management_packet_view(
            userid@,
            aes@,
            event,
            email@,
        )),
        !aes.wf() ==> r is Err,
{
    let inner = MediaManagementPacket { event_type: event, email };
    let bytes = encode_management(&inner);
    match aes.encrypt(bytes.as_slice()) {
        Ok(data) => Ok(
            PacketWrapper { data, email: userid, packet_type: PacketType::MediaManagement },
        ),
        Err(e) => Err(e),
    }
}

/// Builds the management packet for `event` and hands it to the sender.
fn send_media_management_packet<S: SendPacket>(
    packet_sender: &mut S,
    aes: &Cipher,
    userid: String,
    peer: String,
    event: EventType,
)
    requires
        aes.wf(),
    ensures
        final(packet_sender).sent() == old(packet_sender).sent().push(
            management_packet_view(userid@, aes@, event, peer@),
        ),
{
    match prepare_media_management_packet(aes, userid, peer, event) {
        Ok(packet) => packet_sender.send_packet(packet),
        Err(_) => {
            proof {
                assert(false);
            }
        },
    }
}

/// Turns one semantic command into an encrypted management packet and hands
/// it to the sender.
///
/// Subscribe and unsubscribe address the named peer; a stream notification
/// is self-addressed.
pub fn send_command<S: SendPacket>(
    packet_sender: &mut S,
    aes: &Cipher,
    userid: String,
    cmd: ManagementCommand,
)
    requires
        aes.wf(),
    ensures
        final(packet_sender).sent() == old(packet_sender).sent().push(
            management_packet_view(userid@, aes@, command_event(&cmd), command_target(&cmd, userid@)),
        ),
{
    match cmd {
        ManagementCommand::SubscribeTo(peer) => {
            send_media_management_packet(packet_sender, aes, userid, peer, EventType::Subscribe);
        },
        ManagementCommand::UnSubscribeFrom(peer) => {
            send_media_management_packet(packet_sender, aes, userid, peer, EventType::Unsubscribe);
        },
        ManagementCommand::NotifyOngoinStream => {
            let target = userid.clone();
            send_media_management_packet(
                packet_sender,
                aes,
                userid,
                target,
                EventType::OngoingStream,
            );
        },
    }
}

} // verus!
