//! The shared room: every connected peer, the global readiness bit, and
//! the one-shot echo-suppression flag.
//!
//! One room exists per process, guarded by one lock outside this crate;
//! each connection's session and the player-event bridge mutate it only
//! through the operations here. Peers are keyed by a caller-chosen
//! numeric address and kept in arrival order, which is also the order
//! every broadcast visits them in.
use std::collections::VecDeque;
use vstd::prelude::*;

use crate::time::MAX_QUEUE_LATENCY;

verus! {

/// One connected peer: its username (empty until its handshake), its
/// last reported readiness, and its recent latency samples, most recent
/// first. The socket itself lives outside the crate.
pub struct Peer {
    pub username: String,
    pub ready: bool,
    pub latency: VecDeque<u64>,
}

/// Mathematical image of a [`Peer`].
pub struct PeerView {
    pub username: Seq<char>,
    pub ready: bool,
    pub latency: Seq<u64>,
}

impl View for Peer {
    type V = PeerView;

    open spec fn view(&self) -> PeerView {
        PeerView { username: self.username@, ready: self.ready, latency: self.latency@ }
    }
}

/// A peer as it is first registered: anonymous, not ready, no samples.
pub open spec fn fresh_peer() -> PeerView {
    PeerView { username: Seq::empty(), ready: false, latency: Seq::empty() }
}

/// The room: connected peers in arrival order, the echo-suppression
/// flag, and this process's own readiness (player not paused).
pub struct Shared {
    pub peers: Vec<(u64, Peer)>,
    pub ignore_next: bool,
    pub is_ready: bool,
}

/// Mathematical image of a [`Shared`] room.
pub struct SharedView {
    pub peers: Seq<(u64, PeerView)>,
    pub ignore_next: bool,
    pub is_ready: bool,
}

impl View for Shared {
    type V = SharedView;

    open spec fn view(&self) -> SharedView {
        SharedView {
            peers: self.peers@.map_values(|e: (u64, Peer)| (e.0, e.1@)),
            ignore_next: self.ignore_next,
            is_ready: self.is_ready,
        }
    }
}

impl SharedView {
    /// Addresses are distinct: one entry per connection.
    pub open spec fn wf(self) -> bool {
        forall|i: int, j: int|
            0 <= i < j < self.peers.len() ==> self.peers[i].0 != self.peers[j].0
    }

    /// Whether a peer with this address is connected.
    pub open spec fn has_peer(self, addr: u64) -> bool {
        exists|i: int| 0 <= i < self.peers.len() && self.peers[i].0 == addr
    }

    /// Index of the peer with this address.
    pub open spec fn peer_index(self, addr: u64) -> int
        recommends
            self.has_peer(addr),
    {
        choose|i: int| 0 <= i < self.peers.len() && self.peers[i].0 == addr
    }

    /// The peer with this address.
    pub open spec fn peer_at(self, addr: u64) -> PeerView
        recommends
            self.has_peer(addr),
    {
        self.peers[self.peer_index(addr)].1
    }

    /// Every connected peer has reported ready.
    pub open spec fn all_ready(self) -> bool {
        forall|i: int| 0 <= i < self.peers.len() ==> self.peers[i].1.ready
    }

    /// The room with the addressed peer's entries rewritten by `f`.
    pub open spec fn map_peer(self, addr: u64, f: spec_fn(PeerView) -> PeerView) -> SharedView {
        SharedView {
            peers: Seq::new(
                self.peers.len(),
                |i: int|
                    if self.peers[i].0 == addr {
                        (addr, f(self.peers[i].1))
                    } else {
                        self.peers[i]
                    },
            ),
            ..self
        }
    }

    /// The room with the addressed peer's readiness set.
    pub open spec fn set_peer_ready(self, addr: u64, flag: bool) -> SharedView {
        self.map_peer(addr, |p: PeerView| PeerView { ready: flag, ..p })
    }

    /// The room with the addressed peer's username set.
    pub open spec fn set_peer_username(self, addr: u64, name: Seq<char>) -> SharedView {
        self.map_peer(addr, |p: PeerView| PeerView { username: name, ..p })
    }

    /// A latency FIFO after taking one more sample: the sample goes to
    /// the front; when the FIFO is full the oldest sample leaves.
    pub open spec fn pushed_latency(l: Seq<u64>, sample: u64) -> Seq<u64> {
        if l.len() >= MAX_QUEUE_LATENCY {
            seq![sample] + l.drop_last()
        } else {
            seq![sample] + l
        }
    }

    /// The room with one more latency sample recorded for the addressed
    /// peer.
    pub open spec fn record_latency(self, addr: u64, sample: u64) -> SharedView {
        self.map_peer(
            addr,
            |p: PeerView| PeerView { latency: Self::pushed_latency(p.latency, sample), ..p },
        )
    }

    /// The room with a fresh peer registered under `addr`: appended in
    /// arrival order, or replacing a stale entry with the same address.
    pub open spec fn add_peer(self, addr: u64) -> SharedView {
        if self.has_peer(addr) {
            self.map_peer(addr, |p: PeerView| fresh_peer())
        } else {
            SharedView { peers: self.peers.push((addr, fresh_peer())), ..self }
        }
    }

    /// The room without the addressed peer.
    pub open spec fn remove_peer(self, addr: u64) -> SharedView
        recommends
            self.has_peer(addr),
    {
        SharedView { peers: self.peers.remove(self.peer_index(addr)), ..self }
    }

    /// The addresses every broadcast goes to, in room order.
    pub open spec fn all_addrs(self) -> Seq<u64> {
        self.peers.map_values(|e: (u64, PeerView)| e.0)
    }
}

/// The latency FIFO is bounded: taking a sample never grows it past
/// its capacity.
pub proof fn lemma_latency_bounded(l: Seq<u64>, sample: u64)
    requires
        l.len() <= MAX_QUEUE_LATENCY,
    ensures
        SharedView::pushed_latency(l, sample).len() <= MAX_QUEUE_LATENCY,
{
}

/// In a well-formed room two distinct entries never share an address.
pub proof fn lemma_wf_unique(r: SharedView, i: int, j: int)
    requires
        r.wf(),
        0 <= i < r.peers.len(),
        0 <= j < r.peers.len(),
        i != j,
    ensures
        r.peers[i].0 != r.peers[j].0,
{
    if i < j {
        assert(r.peers[i].0 != r.peers[j].0);
    } else {
        assert(r.peers[j].0 != r.peers[i].0);
    }
}

/// The addresses a broadcast that excludes `addr` goes to, in room
/// order.
pub open spec fn targets_excluding(peers: Seq<(u64, PeerView)>, addr: u64) -> Seq<u64>
    decreases peers.len(),
{
    if peers.len() == 0 {
        Seq::empty()
    } else {
        targets_excluding(peers.drop_last(), addr) + if peers.last().0 != addr {
            seq![peers.last().0]
        } else {
            Seq::empty()
        }
    }
}

/// Every peer other than the excluded one is among the targets.
pub proof fn lemma_targets_excluding_complete(peers: Seq<(u64, PeerView)>, addr: u64, i: int)
    requires
        0 <= i < peers.len(),
        peers[i].0 != addr,
    ensures
        targets_excluding(peers, addr).contains(peers[i].0),
    decreases peers.len(),
{
    if i == peers.len() - 1 {
        assert(targets_excluding(peers, addr).last() == peers[i].0);
    } else {
        lemma_targets_excluding_complete(peers.drop_last(), addr, i);
        let sub = targets_excluding(peers.drop_last(), addr);
        let j = choose|j: int| 0 <= j < sub.len() && sub[j] == peers.drop_last()[i].0;
        assert(targets_excluding(peers, addr)[j] == peers[i].0);
    }
}

/// No target is the excluded address, and every target is some peer's
/// address.
pub proof fn lemma_targets_excluding_sound(peers: Seq<(u64, PeerView)>, addr: u64, j: int)
    requires
        0 <= j < targets_excluding(peers, addr).len(),
    ensures
        targets_excluding(peers, addr)[j] != addr,
        exists|i: int| 0 <= i < peers.len() && peers[i].0 == targets_excluding(peers, addr)[j],
    decreases peers.len(),
{
    let sub = targets_excluding(peers.drop_last(), addr);
    if j < sub.len() {
        lemma_targets_excluding_sound(peers.drop_last(), addr, j);
        let i = choose|i: int|
            0 <= i < peers.drop_last().len() && peers.drop_last()[i].0 == sub[j];
        assert(peers[i].0 == targets_excluding(peers, addr)[j]);
    } else {
        assert(peers[peers.len() - 1].0 == targets_excluding(peers, addr)[j]);
    }
}

impl Shared {
    /// An empty room: nobody connected, no suppression pending, not
    /// ready.
    pub fn new() -> (s: Shared)
        ensures
            s@.peers == Seq::<(u64, PeerView)>::empty(),
            !s@.ignore_next,
            !s@.is_ready,
            s@.wf(),
    {
        let s = Shared { peers: Vec::new(), ignore_next: false, is_ready: false };
        proof {
            assert(s@.peers =~= Seq::<(u64, PeerView)>::empty());
        }
        s
    }

    /// Whether a peer with this address is connected.
    pub fn has_peer(&self, addr: u64) -> (r: bool)
        ensures
            r == self@.has_peer(addr),
    {
        let n: usize = self.peers.len();
        let mut i: usize = 0;
        while i < n
            invariant
                0 <= i <= n,
                n == self@.peers.len(),
                self@.peers =~= self.peers@.map_values(|e: (u64, Peer)| (e.0, e.1@)),
                forall|j: int| 0 <= j < i ==> self@.peers[j].0 != addr,
            decreases n - i,
        {
            if self.peers[i].0 == addr {
                assert(self@.peers[i as int].0 == addr);
                return true;
            }
            i = i + 1;
        }
        false
    }

    /// Registers a fresh peer under `addr`.
    pub fn add_peer(&mut self, addr: u64)
        requires
            old(self)@.wf(),
        ensures
            final(self)@ == old(self)@.add_peer(addr),
            final(self)@.wf(),
    {
        let n: usize = self.peers.len();
        let mut i: usize = 0;
        while i < n
            invariant
                0 <= i <= n,
                n == self.peers@.len(),
                self@ == old(self)@,
                old(self)@.wf(),
                forall|j: int| 0 <= j < i ==> self@.peers[j].0 != addr,
            decreases n - i,
        {
            if self.peers[i].0 == addr {
                assert(self@.peers[i as int].0 == addr);
                self.peers[i] = (
                    addr,
                    Peer { username: String::new(), ready: false, latency: VecDeque::new() },
                );
                proof {
                    assert(old(self)@.has_peer(addr));
                    let updated = old(self)@.add_peer(addr);
                    assert forall|j: int| 0 <= j < self@.peers.len() implies self@.peers[j]
                        == updated.peers[j] by {
                        if j != i as int {
                            lemma_wf_unique(old(self)@, i as int, j);
                            assert(old(self)@.peers[j].0 != addr);
                        } else {
                            assert(self@.peers[j] =~= (addr, fresh_peer()));
                        }
                    }
                    assert(self@.peers =~= updated.peers);
                    assert forall|a: int, b: int|
                        0 <= a < b < self@.peers.len() implies self@.peers[a].0
                        != self@.peers[b].0 by {
                        assert(self@.peers[a].0 == old(self)@.peers[a].0);
                        assert(self@.peers[b].0 == old(self)@.peers[b].0);
                        lemma_wf_unique(old(self)@, a, b);
                    }
                }
                return ;
            }
            i = i + 1;
        }
        assert(!old(self)@.has_peer(addr));
        self.peers.push(
            (addr, Peer { username: String::new(), ready: false, latency: VecDeque::new() }),
        );
        proof {
            assert(self@.peers =~= old(self)@.add_peer(addr).peers);
            assert forall|a: int, b: int|
                0 <= a < b < self@.peers.len() implies self@.peers[a].0 != self@.peers[b].0 by {
                if b == self@.peers.len() - 1 {
                    assert(old(self)@.peers[a].0 != addr);
                }
            }
        }
    }

    /// Removes and returns the addressed peer; `None` when no such peer
    /// is connected.
    pub fn remove_peer(&mut self, addr: u64) -> (r: Option<Peer>)
        requires
            old(self)@.wf(),
        ensures
            final(self)@.wf(),
            if old(self)@.has_peer(addr) {
                r matches Some(p) && p@ == old(self)@.peer_at(addr) && final(self)@ == old(
                    self,
                )@.remove_peer(addr)
            } else {
                r is None && final(self)@ == old(self)@
            },
    {
        let n: usize = self.peers.len();
        let mut i: usize = 0;
        while i < n
            invariant
                0 <= i <= n,
                n == self.peers@.len(),
                self@ == old(self)@,
                old(self)@.wf(),
                forall|j: int| 0 <= j < i ==> self@.peers[j].0 != addr,
            decreases n - i,
        {
            if self.peers[i].0 == addr {
                assert(self@.peers[i as int].0 == addr);
                proof {
                    let k = old(self)@.peer_index(addr);
                    assert(old(self)@.peers[k].0 == addr);
                    assert(k == i as int);
                }
                let (_, peer) = self.peers.remove(i);
                proof {
                    assert(self@.peers =~= old(self)@.remove_peer(addr).peers);
                    assert forall|a: int, b: int|
                        0 <= a < b < self@.peers.len() implies self@.peers[a].0
                        != self@.peers[b].0 by {
                        let old_a = if a < i as int {
                            a
                        } else {
                            a + 1
                        };
                        let old_b = if b < i as int {
                            b
                        } else {
                            b + 1
                        };
                        assert(old(self)@.peers[old_a].0 != old(self)@.peers[old_b].0);
                    }
                }
                return Some(peer);
            }
            i = i + 1;
        }
        None
    }

    /// Sets the addressed peer's readiness; a no-op when the peer is
    /// gone.
    pub fn set_peer_ready(&mut self, addr: u64, flag: bool)
        requires
            old(self)@.wf(),
        ensures
            final(self)@ == old(self)@.set_peer_ready(addr, flag),
            final(self)@.wf(),
    {
        let n: usize = self.peers.len();
        let mut i: usize = 0;
        while i < n
            invariant
                0 <= i <= n,
                n == self.peers@.len(),
                self@ == old(self)@,
                old(self)@.wf(),
                forall|j: int| 0 <= j < i ==> self@.peers[j].0 != addr,
            decreases n - i,
        {
            if self.peers[i].0 == addr {
                assert(self@.peers[i as int].0 == addr);
                self.peers[i].1.ready = flag;
                proof {
                    let updated = old(self)@.set_peer_ready(addr, flag);
                    assert forall|j: int| 0 <= j < self@.peers.len() implies self@.peers[j]
                        == updated.peers[j] by {
                        if j != i as int {
                            lemma_wf_unique(old(self)@, i as int, j);
                            assert(old(self)@.peers[j].0 != addr);
                        }
                    }
                    assert(self@.peers =~= updated.peers);
                    assert forall|a: int, b: int|
                        0 <= a < b < self@.peers.len() implies self@.peers[a].0
                        != self@.peers[b].0 by {
                        assert(self@.peers[a].0 == old(self)@.peers[a].0);
                        assert(self@.peers[b].0 == old(self)@.peers[b].0);
                        lemma_wf_unique(old(self)@, a, b);
                    }
                }
                return ;
            }
            i = i + 1;
        }
        proof {
            assert(self@.peers =~= old(self)@.set_peer_ready(addr, flag).peers);
        }
    }

    /// Stores the addressed peer's username, as its handshake gave it.
    pub fn set_peer_username(&mut self, addr: u64, name: String)
        requires
            old(self)@.wf(),
        ensures
            final(self)@ == old(self)@.set_peer_username(addr, name@),
            final(self)@.wf(),
    {
        let n: usize = self.peers.len();
        let mut i: usize = 0;
        while i < n
            invariant
                0 <= i <= n,
                n == self.peers@.len(),
                self@ == old(self)@,
                old(self)@.wf(),
                forall|j: int| 0 <= j < i ==> self@.peers[j].0 != addr,
            decreases n - i,
        {
            if self.peers[i].0 == addr {
                assert(self@.peers[i as int].0 == addr);
                self.peers[i].1.username = name;
                proof {
                    let updated = old(self)@.set_peer_username(addr, name@);
                    assert forall|j: int| 0 <= j < self@.peers.len() implies self@.peers[j]
                        == updated.peers[j] by {
                        if j != i as int {
                            lemma_wf_unique(old(self)@, i as int, j);
                            assert(old(self)@.peers[j].0 != addr);
                        }
                    }
                    assert(self@.peers =~= updated.peers);
                    assert forall|a: int, b: int|
                        0 <= a < b < self@.peers.len() implies self@.peers[a].0
                        != self@.peers[b].0 by {
                        assert(self@.peers[a].0 == old(self)@.peers[a].0);
                        assert(self@.peers[b].0 == old(self)@.peers[b].0);
                        lemma_wf_unique(old(self)@, a, b);
                    }
                }
                return ;
            }
            i = i + 1;
        }
        proof {
            assert(self@.peers =~= old(self)@.set_peer_username(addr, name@).peers);
        }
    }

    /// Records one latency sample for the addressed peer, newest first,
    /// dropping the oldest sample once the FIFO is full.
    pub fn record_latency(&mut self, addr: u64, sample: u64)
        requires
            old(self)@.wf(),
        ensures
            final(self)@ == old(self)@.record_latency(addr, sample),
            final(self)@.wf(),
    {
        let n: usize = self.peers.len();
        let mut i: usize = 0;
        while i < n
            invariant
                0 <= i <= n,
                n == self.peers@.len(),
                self@ == old(self)@,
                old(self)@.wf(),
                forall|j: int| 0 <= j < i ==> self@.peers[j].0 != addr,
            decreases n - i,
        {
            if self.peers[i].0 == addr {
                assert(self@.peers[i as int].0 == addr);
                let ghost before = self.peers@[i as int].1.latency@;
                if self.peers[i].1.latency.len() >= MAX_QUEUE_LATENCY {
                    let _ = self.peers[i].1.latency.pop_back();
                }
                self.peers[i].1.latency.push_front(sample);
                proof {
                    assert(self.peers@[i as int].1.latency@ =~= SharedView::pushed_latency(
                        before,
                        sample,
                    ));
                    let updated = old(self)@.record_latency(addr, sample);
                    assert forall|j: int| 0 <= j < self@.peers.len() implies self@.peers[j]
                        == updated.peers[j] by {
                        if j != i as int {
                            lemma_wf_unique(old(self)@, i as int, j);
                            assert(old(self)@.peers[j].0 != addr);
                        }
                    }
                    assert(self@.peers =~= updated.peers);
                    assert forall|a: int, b: int|
                        0 <= a < b < self@.peers.len() implies self@.peers[a].0
                        != self@.peers[b].0 by {
                        assert(self@.peers[a].0 == old(self)@.peers[a].0);
                        assert(self@.peers[b].0 == old(self)@.peers[b].0);
                        lemma_wf_unique(old(self)@, a, b);
                    }
                }
                return ;
            }
            i = i + 1;
        }
        proof {
            assert(self@.peers =~= old(self)@.record_latency(addr, sample).peers);
        }
    }

    /// Whether every connected peer has reported ready. Vacuously true
    /// of an empty room: with nobody to wait for, the barrier is open.
    pub fn all_ready(&self) -> (r: bool)
        ensures
            r == self@.all_ready(),
    {
        let n: usize = self.peers.len();
        let mut i: usize = 0;
        while i < n
            invariant
                0 <= i <= n,
                n == self@.peers.len(),
                self@.peers =~= self.peers@.map_values(|e: (u64, Peer)| (e.0, e.1@)),
                forall|j: int| 0 <= j < i ==> self@.peers[j].1.ready,
            decreases n - i,
        {
            if !self.peers[i].1.ready {
                assert(!self@.peers[i as int].1.ready);
                return false;
            }
            i = i + 1;
        }
        true
    }

    /// The addresses a broadcast goes to: every peer, in room order.
    pub fn broadcast_targets(&self) -> (r: Vec<u64>)
        ensures
            r@ == self@.all_addrs(),
    {
        let n: usize = self.peers.len();
        let mut r: Vec<u64> = Vec::new();
        let mut i: usize = 0;
        while i < n
            invariant
                0 <= i <= n,
                n == self@.peers.len(),
                self@.peers =~= self.peers@.map_values(|e: (u64, Peer)| (e.0, e.1@)),
                r@ =~= self@.peers.take(i as int).map_values(|e: (u64, PeerView)| e.0),
            decreases n - i,
        {
            r.push(self.peers[i].0);
            assert(r@ =~= self@.peers.take(i + 1).map_values(|e: (u64, PeerView)| e.0));
            i = i + 1;
        }
        proof {
            assert(self@.peers.take(n as int) =~= self@.peers);
        }
        r
    }

    /// The addresses a broadcast that excludes `addr` goes to: every
    /// other peer, in room order.
    pub fn broadcast_targets_excluding(&self, addr: u64) -> (r: Vec<u64>)
        ensures
            r@ == targets_excluding(self@.peers, addr),
    {
        let n: usize = self.peers.len();
        let mut r: Vec<u64> = Vec::new();
        let mut i: usize = 0;
        while i < n
            invariant
                0 <= i <= n,
                n == self@.peers.len(),
                self@.peers =~= self.peers@.map_values(|e: (u64, Peer)| (e.0, e.1@)),
                r@ =~= targets_excluding(self@.peers.take(i as int), addr),
            decreases n - i,
        {
            proof {
                assert(self@.peers.take(i + 1).drop_last() =~= self@.peers.take(i as int));
                assert(self@.peers.take(i + 1).last() == self@.peers[i as int]);
            }
            if self.peers[i].0 != addr {
                assert(self@.peers[i as int].0 != addr);
                r.push(self.peers[i].0);
            } else {
                assert(self@.peers[i as int].0 == addr);
            }
            assert(r@ =~= targets_excluding(self@.peers.take(i + 1), addr));
            i = i + 1;
        }
        proof {
            assert(self@.peers.take(n as int) =~= self@.peers);
        }
        r
    }
}

/// How this process behaves: hub or client, the username it announces,
/// whether it plays a source URL supplied by the hub, and standalone
/// mode.
#[derive(Clone, Debug)]
pub struct Settings {
    pub is_serving: bool,
    pub username: String,
    pub accept_source: bool,
    pub standalone: bool,
}

/// Mathematical image of [`Settings`].
pub struct SettingsView {
    pub is_serving: bool,
    pub username: Seq<char>,
    pub accept_source: bool,
    pub standalone: bool,
}

impl View for Settings {
    type V = SettingsView;

    open spec fn view(&self) -> SettingsView {
        SettingsView {
            is_serving: self.is_serving,
            username: self.username@,
            accept_source: self.accept_source,
            standalone: self.standalone,
        }
    }
}

} // verus!
