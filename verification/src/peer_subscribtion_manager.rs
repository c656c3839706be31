//! The bounded set of followed peers.
//!
//! The manager owns the set of peers this client is subscribed to, capped at
//! [`LIMIT`] members.  A subscribe first checks capacity, then membership,
//! and only then inserts the peer and issues the subscribe wire command; a
//! rejected subscribe changes nothing and sends nothing.  Unsubscribe is a
//! local bookkeeping operation and never sends a packet.

use vstd::prelude::*;

use crate::crypto::Cipher;
use crate::media_management_interface::ManagementCommand;
use crate::media_management_interface::management_packet_view;
use crate::media_management_interface::send_command;
use crate::send_packet::SendPacket;
use crate::wire::EventType;

verus! {

/// Most peers that can be followed at once.
pub const LIMIT: usize = 20;

/// Why a subscription is being attempted.
pub enum Reason {
    AutoSubscribe(String),
}

/// The peer a subscription attempt names.
pub open spec fn reason_peer(reason: &Reason) -> Seq<char> {
    match reason {
        Reason::AutoSubscribe(peer) => peer@,
    }
}

/// A subscribe is accepted when the set is below capacity and the peer is
/// not yet followed; the capacity check comes first.
pub open spec fn subscribe_accepted(peers: Set<Seq<char>>, peer: Seq<char>) -> bool {
    peers.len() < LIMIT as int && !peers.contains(peer)
}

/// The followed set after a subscribe attempt.
pub open spec fn subscribe_step(peers: Set<Seq<char>>, peer: Seq<char>) -> Set<Seq<char>> {
    if subscribe_accepted(peers, peer) {
        peers.insert(peer)
    } else {
        peers
    }
}

/// The followed set after an unsubscribe.
pub open spec fn unsubscribe_step(peers: Set<Seq<char>>, peer: Seq<char>) -> Set<Seq<char>> {
    peers.remove(peer)
}

/// Subscribing twice adds the peer once and is accepted only the first
/// time, so exactly one subscribe packet is issued for the pair of calls.
pub proof fn lemma_duplicate_subscribe(peers: Set<Seq<char>>, peer: Seq<char>)
    requires
        peers.finite(),
        subscribe_accepted(peers, peer),
    ensures
        subscribe_step(peers, peer) == peers.insert(peer),
        subscribe_step(peers, peer).contains(peer),
        !subscribe_accepted(subscribe_step(peers, peer), peer),
        subscribe_step(subscribe_step(peers, peer), peer) == subscribe_step(peers, peer),
{
}

/// A distinct peer beyond the capacity leaves the set unchanged and is not
/// accepted, so no packet is issued for it.
pub proof fn lemma_subscribe_at_capacity(peers: Set<Seq<char>>, peer: Seq<char>)
    requires
        peers.len() >= LIMIT as int,
    ensures
        !subscribe_accepted(peers, peer),
        subscribe_step(peers, peer) == peers,
{
}

/// Unsubscribing a peer that is not followed changes nothing, and the peer
/// is not a member before or after.
pub proof fn lemma_unsubscribe_non_member(peers: Set<Seq<char>>, peer: Seq<char>)
    requires
        !peers.contains(peer),
    ensures
        unsubscribe_step(peers, peer) == peers,
        !unsubscribe_step(peers, peer).contains(peer),
{
    assert(peers.remove(peer) =~= peers);
}

/// Mathematical value of the manager: its own id, the session key, and the
/// set of followed peers.
#[verifier::ext_equal]
pub struct SubscriptionView {
    pub userid: Seq<char>,
    pub key: Seq<u8>,
    pub followed_peers: Set<Seq<char>>,
}

/// Owns the bounded set of followed peers and issues subscribe commands.
pub struct PeerSubscribtionManager {
    userid: String,
    aes: Cipher,
    followed_peers: Vec<String>,
}

impl View for PeerSubscribtionManager {
    type V = SubscriptionView;

    closed spec fn view(&self) -> SubscriptionView {
        SubscriptionView {
            userid: self.userid@,
            key: self.aes@,
            followed_peers: peer_views(self.followed_peers@).to_set(),
        }
    }
}

/// The peer ids held by the vector, as character sequences.
spec fn peer_views(ps: Seq<String>) -> Seq<Seq<char>> {
    ps.map_values(|p: String| p@)
}

/// Appending a fresh value keeps a duplicate-free sequence duplicate-free
/// and inserts the value into the set it covers.
proof fn lemma_push_to_set(vs: Seq<Seq<char>>, p: Seq<char>)
    requires
        vs.no_duplicates(),
        !vs.contains(p),
    ensures
        vs.push(p).no_duplicates(),
        vs.push(p).to_set() == vs.to_set().insert(p),
{
    let r = vs.push(p);
    assert forall|m: int, n: int|
        0 <= m < r.len() && 0 <= n < r.len() && m != n implies r[m] != r[n] by {
        if m < vs.len() && n < vs.len() {
            assert(r[m] == vs[m] && r[n] == vs[n]);
        } else if m < vs.len() {
            assert(r[n] == p && r[m] == vs[m]);
            assert(vs.contains(vs[m]));
        } else {
            assert(r[m] == p && r[n] == vs[n]);
            assert(vs.contains(vs[n]));
        }
    }
    assert forall|a: Seq<char>| #[trigger] r.to_set().contains(a) implies vs.to_set().contains(a)
        || a == p by {
        let j = choose|j: int| 0 <= j < r.len() && r[j] == a;
        if j < vs.len() {
            assert(vs[j] == a);
            assert(vs.contains(a));
        }
    }
    assert forall|a: Seq<char>| vs.to_set().contains(a) || a == p implies #[trigger] r.to_set()
        .contains(a) by {
        if vs.contains(a) {
            let j = choose|j: int| 0 <= j < vs.len() && vs[j] == a;
            assert(r[j] == a);
        } else {
            assert(r[vs.len() as int] == p);
        }
    }
    assert(r.to_set() =~= vs.to_set().insert(p));
}

/// Removing the element at one index of a duplicate-free sequence removes
/// exactly that value from the set it covers.
proof fn lemma_remove_at(vs: Seq<Seq<char>>, i: int)
    requires
        vs.no_duplicates(),
        0 <= i < vs.len(),
    ensures
        vs.remove(i).no_duplicates(),
        vs.remove(i).to_set() == vs.to_set().remove(vs[i]),
{
    vs.remove_ensures(i);
    let r = vs.remove(i);
    assert forall|m: int, n: int|
        0 <= m < r.len() && 0 <= n < r.len() && m != n implies r[m] != r[n] by {
        let m0: int = if m < i {
            m
        } else {
            m + 1
        };
        let n0: int = if n < i {
            n
        } else {
            n + 1
        };
        assert(r[m] == vs[m0] && r[n] == vs[n0]);
    }
    assert forall|a: Seq<char>| #[trigger] r.to_set().contains(a) implies vs.to_set().contains(a)
        && a != vs[i] by {
        let j = choose|j: int| 0 <= j < r.len() && r[j] == a;
        let j0: int = if j < i {
            j
        } else {
            j + 1
        };
        assert(vs[j0] == a);
        assert(vs.contains(a));
    }
    assert forall|a: Seq<char>|
        vs.to_set().contains(a) && a != vs[i] implies #[trigger] r.to_set().contains(a) by {
        let k = choose|k: int| 0 <= k < vs.len() && vs[k] == a;
        if k < i {
            assert(r[k] == a);
        } else {
            assert(r[k - 1] == a);
        }
    }
    assert(r.to_set() =~= vs.to_set().remove(vs[i]));
}

impl PeerSubscribtionManager {
    /// The manager is well formed: its cipher is usable and each peer is
    /// held once.
    pub closed spec fn wf(&self) -> bool {
        &&& self.aes.wf()
        &&& peer_views(self.followed_peers@).no_duplicates()
    }

    /// The number of followed peers equals the length of the backing store.
    proof fn lemma_count(&self)
        requires
            self.wf(),
        ensures
            self@.followed_peers.finite(),
            self@.followed_peers.len() == self.followed_peers@.len(),
    {
        let vs = peer_views(self.followed_peers@);
        vs.unique_seq_to_set();
    }

    pub fn new(userid: String, aes: Cipher) -> (r: Self)
        requires
            aes.wf(),
        ensures
            r.wf(),
            r@.userid == userid@,
            r@.key == aes@,
            r@.followed_peers == Set::<Seq<char>>::empty(),
    {
        let r = PeerSubscribtionManager { userid, aes, followed_peers: Vec::new() };
        proof {
            assert(r@.followed_peers =~= Set::<Seq<char>>::empty());
        }
        r
    }

    /// True exactly when `peer` is currently followed.
    pub fn is_subscribed_to(&self, peer: &String) -> (r: bool)
        ensures
            r == self@.followed_peers.contains(peer@),
    {
        let ghost vs = peer_views(self.followed_peers@);
        let mut i: usize = 0;
        while i < self.followed_peers.len()
            invariant
                i <= self.followed_peers.len(),
                vs == peer_views(self.followed_peers@),
                forall|k: int| 0 <= k < i ==> vs[k] != peer@,
            decreases self.followed_peers.len() - i,
        {
            let hit = self.followed_peers[i] == *peer;
            proof {
                assert(vs[i as int] == self.followed_peers@[i as int]@);
            }
            if hit {
                proof {
                    assert(vs[i as int] == peer@);
                    assert(vs.contains(peer@));
                }
                return true;
            }
            i = i + 1;
        }
        proof {
            if vs.contains(peer@) {
                let j = choose|j: int| 0 <= j < vs.len() && vs[j] == peer@;
                assert(vs[j] != peer@);
            }
        }
        false
    }

    /// Attempts to follow one more peer.
    ///
    /// The attempt is rejected, with no state change and no packet, when
    /// the set is at capacity or the peer is already followed; otherwise
    /// the peer is inserted and exactly one subscribe command for it is
    /// handed to the sender.
    pub fn subscribe<S: SendPacket>(&mut self, reason: Reason, packet_sender: &mut S)
        requires
            old(self).wf(),
        ensures
            final(self).wf(),
            final(self)@.userid == old(self)@.userid,
            final(self)@.key == old(self)@.key,
            final(self)@.followed_peers == subscribe_step(
                old(self)@.followed_peers,
                reason_peer(&reason),
            ),
            subscribe_accepted(old(self)@.followed_peers, reason_peer(&reason))
                ==> final(packet_sender).sent() == old(packet_sender).sent().push(
                management_packet_view(
                    old(self)@.userid,
                    old(self)@.key,
                    EventType::Subscribe,
                    reason_peer(&reason),
                ),
            ),
            !subscribe_accepted(old(self)@.followed_peers, reason_peer(&reason))
                ==> final(packet_sender).sent() == old(packet_sender).sent(),
    {
        proof {
            self.lemma_count();
        }
        let Reason::AutoSubscribe(peer) = reason;
        if self.followed_peers.len() >= LIMIT {
            return ;
        }
        if self.is_subscribed_to(&peer) {
            return ;
        }
        let ghost vs = peer_views(self.followed_peers@);
        proof {
            if vs.contains(peer@) {
                let j = choose|j: int| 0 <= j < vs.len() && vs[j] == peer@;
                assert(vs.to_set().contains(peer@));
            }
            lemma_push_to_set(vs, peer@);
        }
        self.followed_peers.push(peer.clone());
        proof {
            assert(peer_views(self.followed_peers@) =~= vs.push(peer@));
        }
        send_command(
            packet_sender,
            &self.aes,
            self.userid.clone(),
            ManagementCommand::SubscribeTo(peer),
        );
    }

    /// Stops following `peer`; a no-op when it is not followed.  Never
    /// sends a packet.
    pub fn unsubscribe(&mut self, peer: &String)
        requires
            old(self).wf(),
        ensures
            final(self).wf(),
            final(self)@.userid == old(self)@.userid,
            final(self)@.key == old(self)@.key,
            final(self)@.followed_peers == unsubscribe_step(old(self)@.followed_peers, peer@),
    {
        let ghost vs = peer_views(old(self).followed_peers@);
        let mut i: usize = 0;
        while i < self.followed_peers.len()
            invariant
                old(self).wf(),
                self.wf(),
                self@ == old(self)@,
                i <= self.followed_peers.len(),
                vs == peer_views(self.followed_peers@),
                forall|k: int| 0 <= k < i ==> vs[k] != peer@,
            decreases self.followed_peers.len() - i,
        {
            let hit = self.followed_peers[i] == *peer;
            proof {
                assert(vs[i as int] == self.followed_peers@[i as int]@);
            }
            if hit {
                proof {
                    assert(vs[i as int] == peer@);
                    lemma_remove_at(vs, i as int);
                }
                self.followed_peers.remove(i);
                proof {
                    assert(peer_views(self.followed_peers@) =~= vs.remove(i as int));
                }
                return ;
            }
            i = i + 1;
        }
        proof {
            if vs.contains(peer@) {
                let j = choose|j: int| 0 <= j < vs.len() && vs[j] == peer@;
                assert(vs[j] != peer@);
            }
            if self@.followed_peers.contains(peer@) {
                assert(vs.contains(peer@));
            }
            assert(self@.followed_peers.remove(peer@) =~= self@.followed_peers);
        }
    }
}

} // verus!
