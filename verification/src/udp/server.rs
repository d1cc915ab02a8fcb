//! The relay server's side: the registry of peers eligible for broadcast,
//! the cooperative cancellation controller, and the decision logic of the
//! server pump.

use crate::packet::{
    header_bytes, seq_starts_with, spec_frame, spec_u64_from_be_bytes, wf_message, CodecError,
    VoipHeader, VoipPacket,
};
use crate::udp::PeerAddr;
use vstd::prelude::*;

verus! {

/// Holds when no address occurs twice.
pub open spec fn unique_addrs(s: Seq<PeerAddr>) -> bool {
    forall|i: int, j: int| 0 <= i < j < s.len() ==> s[i] != s[j]
}

/// What a registry's contents become when an address registers: an address
/// already present leaves the registry unchanged.
pub open spec fn spec_insert(s: Seq<PeerAddr>, addr: PeerAddr) -> Seq<PeerAddr> {
    if s.contains(addr) {
        s
    } else {
        s.push(addr)
    }
}

/// The set of peer addresses eligible for broadcast.  Entries are unique:
/// registering never duplicates, so one broadcast sends once per peer.
///
/// The list itself is a plain value; the owner shares it behind one exclusion
/// primitive, and never holds that primitive across a network call - sends
/// iterate over a [`ClientList::snapshot`].
#[derive(Debug)]
pub struct ClientList {
    addrs: Vec<PeerAddr>,
}

impl View for ClientList {
    type V = Seq<PeerAddr>;

    closed spec fn view(&self) -> Seq<PeerAddr> {
        self.addrs@
    }
}

impl ClientList {
    /// Entries are pairwise distinct.
    pub open spec fn wf(&self) -> bool {
        unique_addrs(self@)
    }

    /// An empty registry.
    pub fn new() -> (c: Self)
        ensures
            c@ == Seq::<PeerAddr>::empty(),
            c.wf(),
    {
        ClientList { addrs: Vec::new() }
    }

    /// How many peers are registered.
    pub fn len(&self) -> (n: usize)
        ensures
            n == self@.len(),
    {
        self.addrs.len()
    }

    /// Whether `addr` is registered.
    pub fn contains(&self, addr: &PeerAddr) -> (b: bool)
        ensures
            b == self@.contains(*addr),
    {
        let mut i: usize = 0;
        while i < self.addrs.len()
            invariant
                i <= self@.len(),
                forall|k: int| 0 <= k < i ==> self@[k] != *addr,
            decreases self@.len() - i,
        {
            if self.addrs[i] == *addr {
                return true;
            }
            i = i + 1;
        }
        false
    }

    /// Registers `addr`.  Idempotent: an address already present leaves the
    /// registry as it was.
    pub fn insert(&mut self, addr: PeerAddr)
        requires
            old(self).wf(),
        ensures
            final(self).wf(),
            final(self)@ == spec_insert(old(self)@, addr),
    {
        if !self.contains(&addr) {
            self.addrs.push(addr);
        }
    }

    /// Unregisters `addr`, reporting whether an entry existed and was
    /// removed.
    pub fn remove(&mut self, key: &PeerAddr) -> (removed: Option<PeerAddr>)
        requires
            old(self).wf(),
        ensures
            final(self).wf(),
            (removed is Some) <==> old(self)@.contains(*key),
            removed matches Some(a) ==> a == *key,
            forall|a: PeerAddr|
                final(self)@.contains(a) <==> (old(self)@.contains(a) && a != *key),
            old(self)@.contains(*key) ==> final(self)@.len() == old(self)@.len() - 1,
            !old(self)@.contains(*key) ==> final(self)@ == old(self)@,
    {
        let mut i: usize = 0;
        while i < self.addrs.len()
            invariant
                self@ == old(self)@,
                unique_addrs(old(self)@),
                i <= old(self)@.len(),
                forall|k: int| 0 <= k < i ==> old(self)@[k] != *key,
            decreases old(self)@.len() - i,
        {
            if self.addrs[i] == *key {
                let ghost prior = self@;
                let found = self.addrs.remove(i);
                proof {
                    assert(prior.contains(*key)) by {
                        assert(prior[i as int] == *key);
                    }
                    assert forall|a: PeerAddr|
                        self@.contains(a) <==> (prior.contains(a) && a != *key) by {
                        lemma_remove_at_unique(prior, i as int, a);
                    }
                }
                return Some(found);
            }
            i = i + 1;
        }
        None
    }

    /// An instantaneous copy of the registry for iteration, so that nothing
    /// holds the registry while datagrams go out.
    pub fn snapshot(&self) -> (copy: Vec<PeerAddr>)
        ensures
            copy@ == self@,
    {
        let mut copy: Vec<PeerAddr> = Vec::new();
        let mut i: usize = 0;
        while i < self.addrs.len()
            invariant
                i <= self@.len(),
                copy@ == self@.subrange(0, i as int),
            decreases self@.len() - i,
        {
            copy.push(self.addrs[i]);
            proof {
                assert(copy@ =~= self@.subrange(0, i + 1 as int));
            }
            i = i + 1;
        }
        proof {
            assert(copy@ =~= self@);
        }
        copy
    }
}

/// The two states of the cooperative shutdown signal.
#[derive(Clone, Copy, Debug, PartialEq, Eq, Structural)]
pub enum CancelState {
    /// No shutdown has been requested.
    Armed,
    /// Shutdown has been requested; the pump exits at its next wait point.
    Signalled,
}

/// The cooperative shutdown signal shared between a transport's owner and
/// its pump.  Signalling is one-way: once signalled, the controller never
/// re-arms, and the pump's next iteration exits.  An in-flight receive or
/// send is not interrupted; the pump observes the signal only at its wait
/// point.
#[derive(Clone, Copy, Debug, PartialEq, Eq, Structural)]
pub struct CancellationController {
    state: CancelState,
}

impl CancellationController {
    /// The current state.
    pub closed spec fn spec_state(self) -> CancelState {
        self.state
    }

    /// A fresh controller, not yet signalled.
    pub fn new() -> (c: Self)
        ensures
            c.spec_state() == CancelState::Armed,
    {
        CancellationController { state: CancelState::Armed }
    }

    /// Requests shutdown.  Idempotent: whatever the state was, it is
    /// Signalled afterwards, and stays so.
    pub fn signal(&mut self)
        ensures
            final(self).spec_state() == CancelState::Signalled,
    {
        self.state = CancelState::Signalled;
    }

    /// Whether shutdown has been requested.
    pub fn is_signalled(&self) -> (b: bool)
        ensures
            b == (self.spec_state() == CancelState::Signalled),
    {
        match self.state {
            CancelState::Armed => false,
            CancelState::Signalled => true,
        }
    }
}

/// One thing the server pump can wake up on.
#[derive(Debug)]
pub enum ServerEvent {
    /// One whole datagram arrived from the given peer.
    Datagram(Vec<u8>, PeerAddr),
    /// The application asked for a frame to be fanned out.
    Broadcast(VoipPacket),
    /// Shutdown was signalled.
    Cancelled,
}

/// What the server pump does in response, before waiting again.
#[derive(Debug)]
pub enum ServerAction {
    /// Queue the decoded message, with its sender, for the application.
    DeliverInbound(VoipHeader, Vec<u8>, PeerAddr),
    /// Drop this one datagram for the given reason and carry on.
    Discard(CodecError),
    /// Send the frame once to each listed address.  A failure towards one
    /// address must not keep the frame from the remaining addresses.
    SendToAll(Vec<PeerAddr>, VoipPacket),
    /// Leave the loop; no further iteration occurs.
    Exit,
}

/// One decision of the relay server's pump: what a single wake-up leads to.
///
/// Only cancellation ends the loop.  A broadcast request fans out to a
/// snapshot of the registry, one send per registered address, taken while
/// nothing else holds the registry.  A datagram that does not parse is
/// dropped alone; the pump itself carries on.
pub fn server_pump_step(registry: &ClientList, event: ServerEvent) -> (a: ServerAction)
    ensures
        (a is Exit) <==> (event is Cancelled),
        event matches ServerEvent::Broadcast(f) ==> (a matches ServerAction::SendToAll(
            targets,
            g,
        ) && targets@ == registry@ && g == f),
        (event is Broadcast && registry.wf()) ==> (a matches ServerAction::SendToAll(targets, g)
            && unique_addrs(targets@)),
        event matches ServerEvent::Datagram(d, src) ==> {
            &&& (a is DeliverInbound || a is Discard)
            &&& d@.len() < 8 ==> a == ServerAction::Discard(CodecError::TruncatedFrame)
            &&& d@.len() >= 8 ==> ((a == ServerAction::Discard(CodecError::OversizeDiscard))
                <==> spec_u64_from_be_bytes(d@.subrange(0, 8)) > crate::MTU_MAX_PACKET_SIZE
                    as u64)
            &&& (a matches ServerAction::DeliverInbound(h, p, s) ==> wf_message(h, p@) && s
                == src)
            &&& forall|tag: u8, declared_len: u64, author: u128|
                #![trigger header_bytes(tag, declared_len, author)]
                (d@.len() >= 8 && spec_u64_from_be_bytes(d@.subrange(0, 8))
                    <= crate::MTU_MAX_PACKET_SIZE as u64 && tag <= 1 && seq_starts_with(
                    d@.subrange(8, d@.len() as int),
                    header_bytes(tag, declared_len, author),
                ) && declared_len > d@.len() - 8 - header_bytes(
                    tag,
                    declared_len,
                    author,
                ).len() as int) ==> a == ServerAction::Discard(CodecError::TruncatedFrame)
            &&& (d@.len() >= 8 && spec_u64_from_be_bytes(d@.subrange(0, 8))
                <= crate::MTU_MAX_PACKET_SIZE as u64 && !(exists|
                tag: u8,
                declared_len: u64,
                author: u128,
            |
                tag <= 1 && seq_starts_with(
                    d@.subrange(8, d@.len() as int),
                    #[trigger] header_bytes(tag, declared_len, author),
                ))) ==> a == ServerAction::Discard(CodecError::DecodeFailure)
            &&& forall|h: VoipHeader, payload: Seq<u8>|
                #![trigger spec_frame(h, payload)]
                (d@ == spec_frame(h, payload) && wf_message(h, payload) && spec_frame(
                    h,
                    payload,
                ).len() <= crate::MTU_MAX_PACKET_SIZE) ==> (a
                    matches ServerAction::DeliverInbound(hh, pp, s) && hh == h && pp@ == payload
                    && s == src)
        },
{
    match event {
        ServerEvent::Cancelled => ServerAction::Exit,
        ServerEvent::Broadcast(frame) => ServerAction::SendToAll(registry.snapshot(), frame),
        ServerEvent::Datagram(datagram, source) => {
            match crate::packet::decode(datagram.as_slice()) {
                Ok((header, payload)) => ServerAction::DeliverInbound(header, payload, source),
                Err(err) => ServerAction::Discard(err),
            }
        },
    }
}

/// Registry law: a freshly registered address is present, so unregistering
/// it right after reports that it was present; unregistering an address a
/// registry does not hold reports absence (that much is
/// [`ClientList::remove`]'s own contract).
pub proof fn lemma_registry_insert_remove(s: Seq<PeerAddr>, addr: PeerAddr)
    ensures
        spec_insert(s, addr).contains(addr),
{
    if !s.contains(addr) {
        assert(s.push(addr)[s.len() as int] == addr);
    }
}

/// What a registry's contents become when a whole sequence of addresses
/// registers in order.
pub open spec fn spec_insert_all(s: Seq<PeerAddr>, items: Seq<PeerAddr>) -> Seq<PeerAddr>
    decreases items.len(),
{
    if items.len() == 0 {
        s
    } else {
        spec_insert_all(spec_insert(s, items[0]), items.drop_first())
    }
}

/// Registry law: registering any sequence of pairwise-distinct addresses in
/// an empty registry yields exactly as many entries, each address exactly
/// once.
pub proof fn lemma_registry_distinct_inserts(items: Seq<PeerAddr>)
    requires
        unique_addrs(items),
    ensures
        spec_insert_all(Seq::<PeerAddr>::empty(), items).len() == items.len(),
        unique_addrs(spec_insert_all(Seq::<PeerAddr>::empty(), items)),
        forall|a: PeerAddr| #[trigger]
            spec_insert_all(Seq::<PeerAddr>::empty(), items).contains(a) <==> items.contains(a),
{
    lemma_insert_all_disjoint(Seq::<PeerAddr>::empty(), items);
}

/// Generalization for the induction: registering pairwise-distinct addresses
/// none of which is present appends each exactly once.
proof fn lemma_insert_all_disjoint(s: Seq<PeerAddr>, items: Seq<PeerAddr>)
    requires
        unique_addrs(s),
        unique_addrs(items),
        forall|k: int| 0 <= k < items.len() ==> !s.contains(#[trigger] items[k]),
    ensures
        spec_insert_all(s, items).len() == s.len() + items.len(),
        unique_addrs(spec_insert_all(s, items)),
        forall|a: PeerAddr| #[trigger]
            spec_insert_all(s, items).contains(a) <==> (s.contains(a) || items.contains(a)),
    decreases items.len(),
{
    if items.len() == 0 {
        assert(spec_insert_all(s, items) == s);
        assert forall|a: PeerAddr| #[trigger]
            spec_insert_all(s, items).contains(a) <==> (s.contains(a) || items.contains(
                a,
            )) by {
            assert(!items.contains(a));
        }
    } else {
        let head = items[0];
        let tail = items.drop_first();
        assert(!s.contains(head));
        let s2 = s.push(head);
        assert(spec_insert(s, head) == s2);
        assert(unique_addrs(s2)) by {
            assert forall|i: int, j: int| 0 <= i < j < s2.len() implies s2[i] != s2[j] by {
                if j < s.len() {
                } else {
                    assert(s2[i] == s[i] && s.contains(s[i]));
                }
            }
        }
        assert forall|a: PeerAddr| s2.contains(a) implies (s.contains(a) || a == head) by {
            let k = choose|k: int| 0 <= k < s2.len() && s2[k] == a;
            if k < s.len() {
                assert(s[k] == a);
            }
        }
        assert forall|k: int| 0 <= k < tail.len() implies !s2.contains(#[trigger] tail[k]) by {
            assert(tail[k] == items[k + 1]);
            assert(!s.contains(items[k + 1]));
            assert(items[k + 1] != head);
        }
        lemma_insert_all_disjoint(s2, tail);
        assert(spec_insert_all(s, items) == spec_insert_all(s2, tail));
        assert forall|a: PeerAddr| #[trigger]
            spec_insert_all(s, items).contains(a) <==> (s.contains(a) || items.contains(
                a,
            )) by {
            if spec_insert_all(s, items).contains(a) {
                assert(spec_insert_all(s2, tail).contains(a));
                if tail.contains(a) {
                    let k = choose|k: int| 0 <= k < tail.len() && tail[k] == a;
                    assert(items[k + 1] == a);
                    assert(items.contains(a));
                } else {
                    assert(s2.contains(a));
                    let k = choose|k: int| 0 <= k < s2.len() && s2[k] == a;
                    if k < s.len() {
                        assert(s[k] == a);
                        assert(s.contains(a));
                    } else {
                        assert(a == head);
                        assert(items[0] == a);
                        assert(items.contains(a));
                    }
                }
            }
            if s.contains(a) {
                let k = choose|k: int| 0 <= k < s.len() && s[k] == a;
                assert(s2[k] == a);
                assert(s2.contains(a));
                assert(spec_insert_all(s2, tail).contains(a));
            }
            if items.contains(a) {
                let k = choose|k: int| 0 <= k < items.len() && items[k] == a;
                if k == 0 {
                    assert(s2[s.len() as int] == head);
                    assert(s2.contains(a));
                } else {
                    assert(tail[k - 1] == a);
                    assert(tail.contains(a));
                }
                assert(spec_insert_all(s2, tail).contains(a));
            }
        }
    }
}

/// In a duplicate-free sequence, removing the entry at `i` removes exactly
/// that one address from the contents.
proof fn lemma_remove_at_unique(s: Seq<PeerAddr>, i: int, a: PeerAddr)
    requires
        unique_addrs(s),
        0 <= i < s.len(),
    ensures
        s.remove(i).contains(a) <==> (s.contains(a) && a != s[i]),
{
    let t = s.remove(i);
    if t.contains(a) {
        let k = choose|k: int| 0 <= k < t.len() && t[k] == a;
        if k < i {
            assert(s[k] == a);
        } else {
            assert(s[k + 1] == a);
        }
    }
    if s.contains(a) && a != s[i] {
        let k = choose|k: int| 0 <= k < s.len() && s[k] == a;
        if k < i {
            assert(t[k] == a);
        } else {
            assert(t[k - 1] == a);
        }
    }
}

} // verus!
