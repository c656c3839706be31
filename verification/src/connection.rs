//! The connection lifecycle state machine.
//!
//! A [`Connection`] is in exactly one of three states: `Closed` holds no
//! resources; `Connecting` owns a fresh transport handle; `Connected` owns
//! the transport together with the two periodic timers, which exist only in
//! that state and are dropped with it.  Out-of-order calls fail closed: a
//! connect while connecting or connected, or a completion outside
//! `Connecting`, resolves to `Closed` and never to a second live transport.
//!
//! Timer scheduling is the host's: while connected, the application fires
//! [`Connection::heartbeat_tick`] every [`HEARTBEAT_PERIOD_MS`] and
//! [`Connection::monitor_tick`] every [`PEER_MONITOR_PERIOD_MS`].  Both
//! ticks are guarded by the current state, so a tick scheduled before a
//! disconnect and delivered after it has no effect.

use vstd::prelude::*;
use vstd::string::StrSliceExecFns;

use crate::crypto::Cipher;
use crate::crypto::CryptoError;
use crate::crypto::xor_bytes;
use crate::wire::MediaPacket;
use crate::wire::MediaType;
use crate::wire::PacketType;
use crate::wire::PacketWrapper;
use crate::wire::WirePacketView;
use crate::wire::encode_heartbeat;
use crate::wire::heartbeat_bytes;

verus! {

/// Period of the heartbeat timer, in milliseconds.
pub const HEARTBEAT_PERIOD_MS: u32 = 1000;

/// Period of the peer-liveness timer, in milliseconds.
pub const PEER_MONITOR_PERIOD_MS: u32 = 5000;

/// What a connect attempt needs: the client's own id and the endpoints of
/// the two transport flavours.
pub struct ConnectOptions {
    pub userid: String,
    pub websocket_url: String,
    pub webtransport_url: String,
}

/// Failure to establish the transport.
#[derive(Clone, Copy, Debug, PartialEq, Eq, Structural)]
pub enum ConnectError {
    InvalidEndpoint,
}

/// The endpoint a connect attempt uses.
pub open spec fn chosen_endpoint(webtransport: bool, options: &ConnectOptions) -> Seq<char> {
    if webtransport {
        options.webtransport_url@
    } else {
        options.websocket_url@
    }
}

/// Establishing the transport succeeds exactly when the chosen endpoint
/// names something.
pub open spec fn connect_ok(webtransport: bool, options: &ConnectOptions) -> bool {
    chosen_endpoint(webtransport, options).len() > 0
}

/// The transport handle.  Delivery is outside this core: the handle stands
/// for the established channel and keeps the packets handed to it, oldest
/// first.
pub struct Task {
    url: String,
    sent: Vec<PacketWrapper>,
}

impl View for Task {
    type V = Seq<WirePacketView>;

    closed spec fn view(&self) -> Seq<WirePacketView> {
        self.sent@.map_values(|p: PacketWrapper| p@)
    }
}

impl Task {
    /// Establishes a transport to the chosen endpoint; fails exactly when
    /// that endpoint is empty.
    pub fn connect(webtransport: bool, options: &ConnectOptions) -> (r: Result<Task, ConnectError>)
        ensures
            r is Ok <==> connect_ok(webtransport, options),
            r matches Ok(t) ==> t@ == Seq::<WirePacketView>::empty(),
    {
        let url = if webtransport {
            options.webtransport_url.clone()
        } else {
            options.websocket_url.clone()
        };
        if url.as_str().unicode_len() == 0 {
            Err(ConnectError::InvalidEndpoint)
        } else {
            let t = Task { url, sent: Vec::new() };
            proof {
                assert(t@ =~= Seq::<WirePacketView>::empty());
            }
            Ok(t)
        }
    }

    /// Accepts one wire packet for transmission.
    pub fn send_packet(&mut self, packet: PacketWrapper)
        ensures
            final(self)@ == old(self)@.push(packet@),
    {
        let ghost view = packet@;
        self.sent.push(packet);
        proof {
            assert(self@ =~= old(self)@.push(view));
        }
    }

    /// The packets handed to this transport so far.
    pub fn sent_packets(&self) -> (r: &Vec<PacketWrapper>)
        ensures
            r@.map_values(|p: PacketWrapper| p@) == self@,
    {
        &self.sent
    }
}

/// A periodic timer owned by the `Connected` state; the host schedules it
/// at this period for as long as the state lives.
pub struct Interval {
    period_ms: u32,
}

impl Interval {
    pub closed spec fn period(&self) -> u32 {
        self.period_ms
    }

    pub fn new(period_ms: u32) -> (r: Self)
        ensures
            r.period() == period_ms,
    {
        Interval { period_ms }
    }

    pub fn millis(&self) -> (r: u32)
        ensures
            r == self.period(),
    {
        self.period_ms
    }
}

/// No resources held.
pub struct Closed {}

/// Transport established but not yet confirmed usable.
pub struct Connecting {
    userid: String,
    task: Task,
    aes: Cipher,
}

/// Transport confirmed; the two periodic timers exist only here and are
/// dropped when this state is replaced.
pub struct Connected {
    userid: String,
    task: Task,
    aes: Cipher,
    heartbeat: Interval,
    heartbeat_monitor: Interval,
}

/// The state machine.  Exactly one state at any time; only `Connecting` and
/// `Connected` own a transport handle.
pub enum Connection {
    Closed(Closed),
    Connecting(Connecting),
    Connected(Connected),
}

/// Mathematical value of a connection.
#[verifier::ext_equal]
pub enum ConnectionView {
    Closed,
    Connecting { userid: Seq<char>, key: Seq<u8>, sent: Seq<WirePacketView> },
    Connected {
        userid: Seq<char>,
        key: Seq<u8>,
        sent: Seq<WirePacketView>,
        heartbeat_period_ms: u32,
        monitor_period_ms: u32,
    },
}

impl View for Connection {
    type V = ConnectionView;

    closed spec fn view(&self) -> ConnectionView {
        match self {
            Connection::Closed(_) => ConnectionView::Closed,
            Connection::Connecting(s) => ConnectionView::Connecting {
                userid: s.userid@,
                key: s.aes@,
                sent: s.task@,
            },
            Connection::Connected(s) => ConnectionView::Connected {
                userid: s.userid@,
                key: s.aes@,
                sent: s.task@,
                heartbeat_period_ms: s.heartbeat.period(),
                monitor_period_ms: s.heartbeat_monitor.period(),
            },
        }
    }
}

/// The sender id of a connection; empty when closed.
pub open spec fn view_userid(v: ConnectionView) -> Seq<char> {
    match v {
        ConnectionView::Closed => Seq::empty(),
        ConnectionView::Connecting { userid, .. } => userid,
        ConnectionView::Connected { userid, .. } => userid,
    }
}

/// The session key of a connection; empty when closed.
pub open spec fn view_key(v: ConnectionView) -> Seq<u8> {
    match v {
        ConnectionView::Closed => Seq::empty(),
        ConnectionView::Connecting { key, .. } => key,
        ConnectionView::Connected { key, .. } => key,
    }
}

/// What the owned transport has received; empty when closed.
pub open spec fn view_sent(v: ConnectionView) -> Seq<WirePacketView> {
    match v {
        ConnectionView::Closed => Seq::empty(),
        ConnectionView::Connecting { sent, .. } => sent,
        ConnectionView::Connected { sent, .. } => sent,
    }
}

/// A connection is well formed when any held cipher is usable.
pub open spec fn view_wf(v: ConnectionView) -> bool {
    v is Closed || view_key(v).len() > 0
}

/// The heartbeat wire packet sent at `timestamp`: the canonical heartbeat
/// bytes, encrypted under `key`, addressed from `userid`, of the mandatory
/// media kind.
pub open spec fn heartbeat_packet_view(userid: Seq<char>, key: Seq<u8>, timestamp: u64) -> WirePacketView {
    WirePacketView {
        data: xor_bytes(key, heartbeat_bytes(MediaType::Heartbeat, userid, timestamp)),
        email: userid,
        packet_type: PacketType::MediaMandatory,
    }
}

/// State after a connect attempt: from `Closed` it either reaches
/// `Connecting` with a fresh transport or stays `Closed`; from any other
/// state it is a forced reset to `Closed`.
pub open spec fn connect_step(
    v: ConnectionView,
    ok: bool,
    userid: Seq<char>,
    key: Seq<u8>,
) -> ConnectionView {
    match v {
        ConnectionView::Closed => {
            if ok {
                ConnectionView::Connecting { userid, key, sent: Seq::empty() }
            } else {
                ConnectionView::Closed
            }
        },
        _ => ConnectionView::Closed,
    }
}

/// State after completing the connection: `Connecting` becomes `Connected`
/// with both timers started; anything else fails closed.
pub open spec fn complete_step(v: ConnectionView) -> ConnectionView {
    match v {
        ConnectionView::Connecting { userid, key, sent } => ConnectionView::Connected {
            userid,
            key,
            sent,
            heartbeat_period_ms: HEARTBEAT_PERIOD_MS,
            monitor_period_ms: PEER_MONITOR_PERIOD_MS,
        },
        _ => ConnectionView::Closed,
    }
}

/// State after a disconnect: always `Closed`.
pub open spec fn disconnect_step(v: ConnectionView) -> ConnectionView {
    ConnectionView::Closed
}

/// State after handing one packet out: forwarded only while connected,
/// silently dropped otherwise.
pub open spec fn send_step(v: ConnectionView, p: WirePacketView) -> ConnectionView {
    match v {
        ConnectionView::Connected { userid, key, sent, heartbeat_period_ms, monitor_period_ms } => {
            ConnectionView::Connected {
                userid,
                key,
                sent: sent.push(p),
                heartbeat_period_ms,
                monitor_period_ms,
            }
        },
        _ => v,
    }
}

/// State after a heartbeat tick: exactly one heartbeat packet reaches the
/// transport while connected; a stale tick changes nothing.
pub open spec fn heartbeat_step(v: ConnectionView, timestamp: u64) -> ConnectionView {
    match v {
        ConnectionView::Connected { userid, key, sent, heartbeat_period_ms, monitor_period_ms } => {
            ConnectionView::Connected {
                userid,
                key,
                sent: sent.push(heartbeat_packet_view(userid, key, timestamp)),
                heartbeat_period_ms,
                monitor_period_ms,
            }
        },
        _ => v,
    }
}

/// Whether a liveness tick reaches the external callback.
pub open spec fn monitor_fires(v: ConnectionView) -> bool {
    v is Connected
}

/// The external liveness hook: a zero-argument notification sink.
pub trait PeerMonitor {
    /// How many notifications this sink has received.
    spec fn notified(&self) -> u64;

    /// Receives one liveness notification.
    fn notify(&mut self)
        requires
            old(self).notified() < u64::MAX,
        ensures
            final(self).notified() == old(self).notified() + 1,
    ;
}

/// A liveness sink that only counts its notifications.
pub struct CountingMonitor {
    count: u64,
}

impl CountingMonitor {
    pub fn new() -> (r: Self)
        ensures
            r.notified() == 0,
    {
        CountingMonitor { count: 0 }
    }

    /// The notifications received so far.
    pub fn count(&self) -> (r: u64)
        ensures
            r == self.notified(),
    {
        self.count
    }
}

impl PeerMonitor for CountingMonitor {
    closed spec fn notified(&self) -> u64 {
        self.count
    }

    fn notify(&mut self) {
        self.count = self.count + 1;
    }
}

/// Builds the encrypted heartbeat packet for `timestamp`.
///
/// Fails exactly when the cipher is unusable; there is no fallback to
/// plaintext.
pub fn prepare_heartbeat_packet(aes: &Cipher, userid: String, timestamp: u64) -> (r: Result<
    PacketWrapper,
    CryptoError,
>)
    ensures
        aes.wf() ==> (r matches Ok(p) && p@ == heartbeat_packet_view(userid@, aes@, timestamp)),
        !aes.wf() ==> r is Err,
{
    let inner = MediaPacket {
        media_type: MediaType::Heartbeat,
        email: userid.clone(),
        timestamp,
    };
    let bytes = encode_heartbeat(&inner);
    match aes.encrypt(bytes.as_slice()) {
        Ok(data) => Ok(PacketWrapper { data, email: userid, packet_type: PacketType::MediaMandatory }),
        Err(e) => Err(e),
    }
}

impl Connection {
    /// Any cipher this connection holds is usable.
    pub open spec fn wf(&self) -> bool {
        view_wf(self@)
    }

    /// A fresh connection: closed, no resources held.
    pub fn new() -> (r: Self)
        ensures
            r@ is Closed,
    {
        Connection::Closed(Closed {})
    }

    /// Attempts to establish a new session.
    ///
    /// Valid only from `Closed`: there it invokes the transport's connect
    /// operation and moves to `Connecting` on success, staying `Closed` on
    /// failure.  From any other state the call is invalid reentry and
    /// forces a reset to `Closed`; it never creates a second live
    /// transport.
    pub fn connect(self, webtransport: bool, options: ConnectOptions, aes: Cipher) -> (r: Self)
        requires
            aes.wf(),
        ensures
            r@ == connect_step(self@, connect_ok(webtransport, &options), options.userid@, aes@),
            r.wf(),
    {
        match self {
            Connection::Closed(_) => {
                let userid = options.userid.clone();
                match Task::connect(webtransport, &options) {
                    Ok(task) => Connection::Connecting(Connecting { userid, task, aes }),
                    Err(_) => Connection::Closed(Closed {}),
                }
            },
            other => other.disconnect(),
        }
    }

    /// Confirms the transport and starts the two periodic timers; from any
    /// state but `Connecting` the call is a misuse and fails closed.
    pub fn complate_connection(self) -> (r: Self)
        requires
            self.wf(),
        ensures
            r@ == complete_step(self@),
            r.wf(),
    {
        match self {
            Connection::Connecting(state) => Connection::Connected(Connected::from(state)),
            _ => Connection::Closed(Closed {}),
        }
    }

    /// Tears the session down: always succeeds, always `Closed`.  The
    /// transport handle and both timers are dropped with the old state, so
    /// nothing can be sent through them afterwards.
    pub fn disconnect(self) -> (r: Self)
        ensures
            r@ is Closed,
    {
        Connection::new()
    }

    /// True exactly while connected.
    pub fn is_connected(&self) -> (r: bool)
        ensures
            r == (self@ is Connected),
    {
        match self {
            Connection::Connected(_) => true,
            _ => false,
        }
    }

    /// Forwards one packet to the transport while connected; in any other
    /// state the packet is silently dropped, not queued.
    pub fn send_packet(&mut self, packet: PacketWrapper)
        ensures
            final(self)@ == send_step(old(self)@, packet@),
    {
        if let Connection::Connected(state) = self {
            state.task.send_packet(packet);
        }
    }

    /// One firing of the heartbeat timer: while connected, builds the
    /// heartbeat for `timestamp` and hands it to the transport; a stale
    /// tick after the state was left changes nothing.
    pub fn heartbeat_tick(&mut self, timestamp: u64)
        requires
            old(self).wf(),
        ensures
            final(self)@ == heartbeat_step(old(self)@, timestamp),
    {
        if let Connection::Connected(state) = self {
            match prepare_heartbeat_packet(&state.aes, state.userid.clone(), timestamp) {
                Ok(packet) => state.task.send_packet(packet),
                Err(_) => {
                    proof {
                        assert(false);
                    }
                },
            }
        }
    }

    /// One firing of the liveness timer: notifies the monitor exactly when
    /// connected; a stale tick notifies nothing.
    pub fn monitor_tick<M: PeerMonitor>(&self, monitor: &mut M)
        requires
            self@ is Connected ==> old(monitor).notified() < u64::MAX,
        ensures
            monitor_fires(self@) ==> final(monitor).notified() == old(monitor).notified() + 1,
            !monitor_fires(self@) ==> final(monitor).notified() == old(monitor).notified(),
    {
        if self.is_connected() {
            monitor.notify();
        }
    }

    /// The packets the owned transport has received, oldest first; `None`
    /// when no transport is held.
    pub fn sent_packets(&self) -> (r: Option<&Vec<PacketWrapper>>)
        ensures
            r is Some <==> !(self@ is Closed),
            r matches Some(v) ==> v@.map_values(|p: PacketWrapper| p@) == view_sent(self@),
    {
        match self {
            Connection::Closed(_) => None,
            Connection::Connecting(state) => Some(state.task.sent_packets()),
            Connection::Connected(state) => Some(state.task.sent_packets()),
        }
    }
}

impl Connected {
    /// Confirms a pending connection: takes over its transport and starts
    /// the heartbeat and liveness timers.
    fn from(val: Connecting) -> (r: Connected)
        ensures
            r.userid@ == val.userid@,
            r.aes@ == val.aes@,
            r.task@ == val.task@,
            r.heartbeat.period() == HEARTBEAT_PERIOD_MS,
            r.heartbeat_monitor.period() == PEER_MONITOR_PERIOD_MS,
    {
        let Connecting { userid, task, aes } = val;
        Connected {
            userid,
            task,
            aes,
            heartbeat: Interval::new(HEARTBEAT_PERIOD_MS),
            heartbeat_monitor: Interval::new(PEER_MONITOR_PERIOD_MS),
        }
    }
}

/// A connection is in exactly one of the three states.
pub proof fn lemma_connection_state_exclusive(v: ConnectionView)
    ensures
        v is Closed || v is Connecting || v is Connected,
        !(v is Closed && v is Connecting),
        !(v is Closed && v is Connected),
        !(v is Connecting && v is Connected),
{
}

/// Completing a connection anywhere but `Connecting` yields `Closed`, never
/// `Connected`.
pub proof fn lemma_complete_connection_fail_closed(v: ConnectionView)
    requires
        !(v is Connecting),
    ensures
        complete_step(v) is Closed,
{
}

/// A connect while connecting or connected yields `Closed`: there is never
/// a second live transport.
pub proof fn lemma_connect_reentry_forces_closed(
    v: ConnectionView,
    ok: bool,
    userid: Seq<char>,
    key: Seq<u8>,
)
    requires
        v is Connecting || v is Connected,
    ensures
        connect_step(v, ok, userid, key) is Closed,
{
}

/// Outside `Connected`, sending has no observable effect: nothing reaches
/// the transport.
pub proof fn lemma_send_dropped_unless_connected(v: ConnectionView, p: WirePacketView)
    requires
        !(v is Connected),
    ensures
        send_step(v, p) == v,
        view_sent(send_step(v, p)) == view_sent(v),
{
}

/// While connected, one heartbeat tick hands the transport exactly one
/// packet: the heartbeat of the mandatory media kind.
pub proof fn lemma_heartbeat_when_connected(v: ConnectionView, timestamp: u64)
    requires
        v is Connected,
    ensures
        heartbeat_step(v, timestamp) is Connected,
        view_sent(heartbeat_step(v, timestamp)) == view_sent(v).push(
            heartbeat_packet_view(view_userid(v), view_key(v), timestamp),
        ),
        heartbeat_packet_view(view_userid(v), view_key(v), timestamp).packet_type
            == PacketType::MediaMandatory,
{
}

/// After a disconnect, neither a stale heartbeat tick nor a stale liveness
/// tick nor a send has any effect.
pub proof fn lemma_quiet_after_disconnect(v: ConnectionView, timestamp: u64, p: WirePacketView)
    ensures
        disconnect_step(v) is Closed,
        heartbeat_step(disconnect_step(v), timestamp) == disconnect_step(v),
        !monitor_fires(disconnect_step(v)),
        send_step(disconnect_step(v), p) == disconnect_step(v),
{
}

} // verus!
