//! The MQTT session state machine. It owns all protocol policy: pending
//! QoS 1/2 bookkeeping, packet identifier rotation, keep-alive decisions and
//! the connect/disconnect transitions. Every operation is a synchronous
//! function of the state and the event; the event loop around it only moves
//! packets between this machine, the transport and the queues.
//!
//! Instants are plain `u64` milliseconds of a monotonic clock, handed in by
//! the caller.

use vstd::prelude::*;

use crate::error::ErrorKind;
use crate::error::MqttError;
use crate::options::MqttOptions;
use crate::options::OptionsView;
use crate::packet::Connack;
use crate::packet::Connect;
use crate::packet::ConnectReturnCode;
use crate::packet::ConnectView;
use crate::packet::Packet;
use crate::packet::PacketView;
use crate::packet::Publish;
use crate::packet::PublishView;
use crate::packet::QoS;
use crate::packet::SubscribeView;
use crate::packet::UnsubscribeView;
use crate::packet::opt_packet_view;
use crate::packet::packets_view;

verus! {

/// Where the session stands with the broker.
#[derive(Clone, Copy, Debug, PartialEq, Eq, Structural)]
pub enum MqttConnectionStatus {
    Handshake,
    Connected,
    Disconnecting,
    Disconnected,
}

/// Mathematical image of an [`MqttState`].
pub struct StateView {
    pub opts: OptionsView,
    pub connection_status: MqttConnectionStatus,
    pub await_pingresp: bool,
    pub last_control_at: u64,
    pub last_pkid: u16,
    pub outgoing_pub: Seq<PublishView>,
    pub outgoing_rel: Seq<u16>,
    pub incoming_pub: Seq<u16>,
}

/// The packet identifier stored in a pending publish (0 when none is set;
/// pending publishes always have one, see [`wf`]).
pub open spec fn stored_pid(p: PublishView) -> u16 {
    match p.pid {
        Some(i) => i,
        None => 0,
    }
}

/// The identifiers of a pending-publish sequence, in order.
pub open spec fn outgoing_pub_pids(s: Seq<PublishView>) -> Seq<u16> {
    s.map_values(|p: PublishView| stored_pid(p))
}

/// Does some pending publish carry identifier `pid`?
pub open spec fn pub_contains_pid(s: Seq<PublishView>, pid: u16) -> bool {
    exists|i: int| 0 <= i < s.len() && stored_pid(#[trigger] s[i]) == pid
}

/// An identifier is in flight while a publish awaits its `PUBACK`/`PUBREC`
/// or a `PUBREL` awaits its `PUBCOMP`.
pub open spec fn in_flight(s: StateView, pkid: u16) -> bool {
    pub_contains_pid(s.outgoing_pub, pkid) || s.outgoing_rel.contains(pkid)
}

/// How many identifiers are in flight.
pub open spec fn inflight_count(s: StateView) -> int {
    s.outgoing_pub.len() + s.outgoing_rel.len() as int
}

/// Well-formedness of the session state, maintained by every operation:
/// every pending publish is acknowledgeable (it has an identifier and a QoS
/// above 0), identifiers are unique within `outgoing_pub`, unique within
/// `outgoing_rel`, disjoint between the two, and `incoming_pub` holds no
/// duplicates either.
pub open spec fn wf(s: StateView) -> bool {
    &&& forall|i: int|
        0 <= i < s.outgoing_pub.len() ==> (#[trigger] s.outgoing_pub[i]).pid is Some
            && s.outgoing_pub[i].qos != QoS::AtMostOnce
    &&& outgoing_pub_pids(s.outgoing_pub).no_duplicates()
    &&& s.outgoing_rel.no_duplicates()
    &&& s.incoming_pub.no_duplicates()
    &&& forall|pkid: u16|
        s.outgoing_rel.contains(pkid) ==> !pub_contains_pid(s.outgoing_pub, pkid)
}

/// The state after witnessing traffic at instant `now`.
pub open spec fn touched(s: StateView, now: u64) -> StateView {
    StateView { last_control_at: now, ..s }
}

/// The pending publishes without the one carrying `pid`; unchanged when no
/// pending publish carries it (an unknown ack is tolerated).
pub open spec fn remove_pub_at(s: Seq<PublishView>, pid: u16) -> Seq<PublishView> {
    if pub_contains_pid(s, pid) {
        s.remove(choose|i: int| 0 <= i < s.len() && stored_pid(#[trigger] s[i]) == pid)
    } else {
        s
    }
}

/// The identifier sequence without the first occurrence of `pid`; unchanged
/// when absent.
pub open spec fn remove_id(s: Seq<u16>, pid: u16) -> Seq<u16> {
    s.remove_value(pid)
}

/// The fresh session state created for a set of options.
pub open spec fn initial_state(o: OptionsView) -> StateView {
    StateView {
        opts: o,
        connection_status: MqttConnectionStatus::Disconnected,
        await_pingresp: false,
        last_control_at: 0,
        last_pkid: 0,
        outgoing_pub: Seq::empty(),
        outgoing_rel: Seq::empty(),
        incoming_pub: Seq::empty(),
    }
}

/// The `CONNECT` packet that a set of options prescribes.
pub open spec fn connect_packet_view(o: OptionsView) -> ConnectView {
    ConnectView {
        keep_alive: match o.keep_alive {
            Some(k) => k,
            None => 0,
        },
        client_id: o.client_id,
        clean_session: o.clean_session,
        last_will: o.last_will,
        username: match o.credentials {
            Some(c) => Some(c.username),
            None => None,
        },
        password: match o.credentials {
            Some(c) => Some(c.password),
            None => None,
        },
    }
}

/// Validating a `CONNACK`: an accepted code connects the session and counts
/// as traffic; any other code refuses the connection and leaves the state.
pub open spec fn connack_step(s: StateView, ck: Connack, now: u64) -> Result<
    StateView,
    ErrorKind,
> {
    if ck.code == ConnectReturnCode::Accepted {
        Ok(
            StateView {
                connection_status: MqttConnectionStatus::Connected,
                last_control_at: now,
                ..s
            },
        )
    } else {
        Err(ErrorKind::ConnectionRefused(ck.code))
    }
}

/// The disconnect transition: the status drops to `Disconnected`, the
/// outstanding ping is forgotten, and the retransmission buffers survive;
/// with a clean session the record of delivered inbound QoS 2 publishes is
/// cleared, since the broker forgets the session too.
pub open spec fn disconnect_step(s: StateView) -> StateView {
    StateView {
        connection_status: MqttConnectionStatus::Disconnected,
        await_pingresp: false,
        incoming_pub: if s.opts.clean_session {
            Seq::empty()
        } else {
            s.incoming_pub
        },
        ..s
    }
}

/// A duplicate delivery of a pending publish.
pub open spec fn dup_publish(p: PublishView) -> PublishView {
    PublishView { dup: true, ..p }
}

/// What a reconnect re-emits, in order: every pending publish flagged as a
/// duplicate, then a `PUBREL` for every identifier awaiting its `PUBCOMP`.
pub open spec fn reconnect_packets(s: StateView) -> Seq<PacketView> {
    s.outgoing_pub.map_values(|p: PublishView| PacketView::Publish(dup_publish(p)))
        + s.outgoing_rel.map_values(|pid: u16| PacketView::Pubrel(pid))
}

/// Has the keep-alive interval elapsed since the last control packet?
pub open spec fn keep_alive_elapsed(s: StateView, now: u64) -> bool {
    match s.opts.keep_alive {
        Some(k) => now >= s.last_control_at && now - s.last_control_at >= k as int * 1000,
        None => false,
    }
}

/// A ping is required exactly when the session is connected, a keep-alive
/// interval is configured and has elapsed without traffic, and no ping is
/// already outstanding.
pub open spec fn ping_required(s: StateView, now: u64) -> bool {
    &&& s.connection_status is Connected
    &&& keep_alive_elapsed(s, now)
    &&& !s.await_pingresp
}

/// The ping has timed out when the interval elapses again while the previous
/// `PINGREQ` is still unanswered; the connection must be torn down.
pub open spec fn ping_timed_out(s: StateView, now: u64) -> bool {
    &&& s.connection_status is Connected
    &&& keep_alive_elapsed(s, now)
    &&& s.await_pingresp
}

/// The next identifier in rotation order: 1 through 65535, wrapping past
/// 65535 back to 1.
pub open spec fn rotate_pkid(pk: u16) -> u16 {
    if pk >= 65535 {
        1u16
    } else {
        (pk + 1) as u16
    }
}

/// The first identifier at or after `cand` in rotation order that is not in
/// flight, giving up after `fuel` further steps. The fuel is never exhausted
/// while fewer than 65535 identifiers are in flight.
pub open spec fn scan_free_pkid(s: StateView, cand: u16, fuel: nat) -> u16
    decreases fuel,
{
    if fuel == 0 || !in_flight(s, cand) {
        cand
    } else {
        scan_free_pkid(s, rotate_pkid(cand), (fuel - 1) as nat)
    }
}

/// The identifier the rotation assigns next: the first one after
/// `last_pkid`, in rotation order, that is not still in flight.
pub open spec fn next_pkid_spec(s: StateView) -> u16 {
    scan_free_pkid(s, rotate_pkid(s.last_pkid), 65534nat)
}

/// The identifier reached after `n` rotation steps beyond `c0`.
pub open spec fn nth_candidate(c0: u16, n: nat) -> u16
    decreases n,
{
    if n == 0 {
        c0
    } else {
        rotate_pkid(nth_candidate(c0, (n - 1) as nat))
    }
}

/// Rotation walks the cycle 1..=65535: after `n` steps from `c0` it stands
/// at position `(c0 - 1 + n) % 65535` of that cycle.
proof fn lemma_nth_candidate_pos(c0: u16, n: nat)
    requires
        1 <= c0 <= 65535,
    ensures
        1 <= nth_candidate(c0, n) <= 65535,
        nth_candidate(c0, n) - 1 == (c0 - 1 + n) % 65535,
    decreases n,
{
    if n == 0 {
        vstd::arithmetic::div_mod::lemma_small_mod((c0 - 1) as nat, 65535nat);
    } else {
        lemma_nth_candidate_pos(c0, (n - 1) as nat);
        let prev = nth_candidate(c0, (n - 1) as nat);
        vstd::arithmetic::div_mod::lemma_add_mod_noop((c0 - 1 + n - 1) as int, 1int, 65535int);
        vstd::arithmetic::div_mod::lemma_small_mod(1nat, 65535nat);
        if prev == 65535 {
            vstd::arithmetic::div_mod::lemma_mod_self_0(65535int);
        } else {
            vstd::arithmetic::div_mod::lemma_small_mod(prev as nat, 65535nat);
        }
    }
}

/// Fewer than 65535 rotation steps never revisit an identifier.
proof fn lemma_candidates_distinct(c0: u16, m: nat, n: nat)
    requires
        1 <= c0 <= 65535,
        m < n,
        n < 65535,
    ensures
        nth_candidate(c0, m) != nth_candidate(c0, n),
{
    lemma_nth_candidate_pos(c0, m);
    lemma_nth_candidate_pos(c0, n);
    if nth_candidate(c0, m) == nth_candidate(c0, n) {
        vstd::arithmetic::div_mod::lemma_mod_equivalence(
            (c0 - 1 + n) as int,
            (c0 - 1 + m) as int,
            65535int,
        );
        vstd::arithmetic::div_mod::lemma_small_mod((n - m) as nat, 65535nat);
        assert(false);
    }
}

/// The set of identifiers in flight.
pub open spec fn inflight_set(s: StateView) -> Set<u16> {
    outgoing_pub_pids(s.outgoing_pub).to_set().union(s.outgoing_rel.to_set())
}

/// There are at most [`inflight_count`] identifiers in flight.
proof fn lemma_inflight_set(s: StateView)
    ensures
        inflight_set(s).finite(),
        inflight_set(s).len() <= inflight_count(s),
        forall|q: u16| in_flight(s, q) ==> inflight_set(s).contains(q),
{
    broadcast use vstd::seq_lib::seq_to_set_is_finite;

    let pids = outgoing_pub_pids(s.outgoing_pub);
    pids.lemma_cardinality_of_set();
    s.outgoing_rel.lemma_cardinality_of_set();
    vstd::set_lib::lemma_len_union(pids.to_set(), s.outgoing_rel.to_set());
    assert forall|q: u16| in_flight(s, q) implies inflight_set(s).contains(q) by {
        if pub_contains_pid(s.outgoing_pub, q) {
            let i = choose|i: int|
                0 <= i < s.outgoing_pub.len() && stored_pid(#[trigger] s.outgoing_pub[i]) == q;
            assert(pids[i] == q);
            assert(pids.contains(q));
        } else {
            assert(s.outgoing_rel.contains(q));
        }
    }
}

/// Pigeonhole: when `k` distinct successive rotation candidates are all in
/// flight, at least `k` identifiers are in flight.
pub(crate) proof fn lemma_candidate_pigeonhole(s: StateView, c0: u16, k: nat)
    requires
        1 <= c0 <= 65535,
        k <= 65535,
        forall|m: nat| m < k ==> in_flight(s, #[trigger] nth_candidate(c0, m)),
    ensures
        k <= inflight_count(s),
{
    broadcast use vstd::seq_lib::seq_to_set_is_finite;

    let cands = Seq::<u16>::new(k, |i: int| nth_candidate(c0, i as nat));
    assert forall|i: int, j: int|
        0 <= i < cands.len() && 0 <= j < cands.len() && i != j implies cands[i]
        != cands[j] by {
        if i < j {
            lemma_candidates_distinct(c0, i as nat, j as nat);
        } else {
            lemma_candidates_distinct(c0, j as nat, i as nat);
        }
    }
    assert(cands.no_duplicates());
    cands.unique_seq_to_set();
    lemma_inflight_set(s);
    assert forall|q: u16| cands.to_set().contains(q) implies inflight_set(s).contains(q) by {
        let i = choose|i: int| 0 <= i < cands.len() && cands[i] == q;
        assert(in_flight(s, nth_candidate(c0, i as nat)));
    }
    vstd::set_lib::lemma_len_subset(cands.to_set(), inflight_set(s));
}

/// The session state machine. Fields are public so that its mathematical
/// image stays in plain sight; every operation requires and preserves
/// [`wf`].
#[derive(Debug)]
pub struct MqttState {
    pub opts: MqttOptions,
    pub connection_status: MqttConnectionStatus,
    pub await_pingresp: bool,
    pub last_control_at: u64,
    pub last_pkid: u16,
    pub outgoing_pub: Vec<Publish>,
    pub outgoing_rel: Vec<u16>,
    pub incoming_pub: Vec<u16>,
}

/// View of a pending-publish vector.
pub open spec fn pubs_view(v: Seq<Publish>) -> Seq<PublishView> {
    v.map_values(|p: Publish| p@)
}

impl View for MqttState {
    type V = StateView;

    open spec fn view(&self) -> StateView {
        StateView {
            opts: self.opts@,
            connection_status: self.connection_status,
            await_pingresp: self.await_pingresp,
            last_control_at: self.last_control_at,
            last_pkid: self.last_pkid,
            outgoing_pub: pubs_view(self.outgoing_pub@),
            outgoing_rel: self.outgoing_rel@,
            incoming_pub: self.incoming_pub@,
        }
    }
}

impl MqttState {
    /// A fresh session for the given options: disconnected, nothing pending.
    pub fn new(opts: MqttOptions) -> (r: Self)
        ensures
            r@ == initial_state(opts@),
            wf(r@),
    {
        let r = MqttState {
            opts,
            connection_status: MqttConnectionStatus::Disconnected,
            await_pingresp: false,
            last_control_at: 0,
            last_pkid: 0,
            outgoing_pub: Vec::new(),
            outgoing_rel: Vec::new(),
            incoming_pub: Vec::new(),
        };
        proof {
            assert(pubs_view(r.outgoing_pub@) =~= Seq::<PublishView>::empty());
            assert(r@ =~= initial_state(opts@)) by {
                assert(r@.outgoing_rel =~= Seq::<u16>::empty());
                assert(r@.incoming_pub =~= Seq::<u16>::empty());
            }
        }
        r
    }

    /// Restart the idle clock, as the loop does right after the handshake.
    pub fn reset_last_control_at(&mut self, now: u64)
        ensures
            final(self)@ == touched(old(self)@, now),
    {
        self.last_control_at = now;
    }

    /// Builds the `CONNECT` packet from the options and puts the session
    /// into the handshake, with no ping outstanding. Always succeeds.
    pub fn handle_outgoing_connect(&mut self) -> (r: Result<Connect, MqttError>)
        ensures
            r matches Ok(c) && c@ == connect_packet_view(old(self)@.opts),
            final(self)@ == (StateView {
                connection_status: MqttConnectionStatus::Handshake,
                await_pingresp: false,
                ..old(self)@
            }),
            wf(old(self)@) ==> wf(final(self)@),
    {
        let keep_alive: u16 = match self.opts.keep_alive {
            Some(k) => k,
            None => 0,
        };
        let (username, password) = match &self.opts.credentials {
            Some(c) => (Some(c.username.clone()), Some(c.password.clone())),
            None => (None, None),
        };
        let last_will = match &self.opts.last_will {
            Some(w) => Some(w.clone()),
            None => None,
        };
        let connect = Connect {
            keep_alive,
            client_id: self.opts.client_id.clone(),
            clean_session: self.opts.clean_session,
            last_will,
            username,
            password,
        };
        self.connection_status = MqttConnectionStatus::Handshake;
        self.await_pingresp = false;
        Ok(connect)
    }

    /// Validates the broker's `CONNACK`: an accepted code marks the session
    /// connected and counts as traffic; any other code is a refusal.
    pub fn handle_incoming_connack(&mut self, connack: Connack, now: u64) -> (r: Result<
        (),
        MqttError,
    >)
        ensures
            match connack_step(old(self)@, connack, now) {
                Ok(s2) => r is Ok && final(self)@ == s2,
                Err(k) => r matches Err(e) && e.kind() == k && final(self)@ == old(self)@,
            },
            wf(old(self)@) ==> wf(final(self)@),
    {
        match connack.code {
            ConnectReturnCode::Accepted => {
                self.connection_status = MqttConnectionStatus::Connected;
                self.last_control_at = now;
                Ok(())
            },
            code => Err(MqttError::ConnectionRefused(code)),
        }
    }

    /// Decides the connect phase from what came back after `CONNECT` was
    /// sent: a `CONNACK` is validated; the stream ending is a transport
    /// failure; any other packet is a protocol error.
    pub fn handle_connect_response(&mut self, response: Option<Packet>, now: u64) -> (r: Result<
        (),
        MqttError,
    >)
        ensures
            match response {
                Some(p) => match p@ {
                    PacketView::Connack(ck) => match connack_step(old(self)@, ck, now) {
                        Ok(s2) => r is Ok && final(self)@ == s2,
                        Err(k) => r matches Err(e) && e.kind() == k && final(self)@ == old(
                            self,
                        )@,
                    },
                    _ => r matches Err(e) && e.kind() == ErrorKind::Protocol && final(self)@
                        == old(self)@,
                },
                None => r matches Err(e) && e.kind() == ErrorKind::Io && final(self)@ == old(
                    self,
                )@,
            },
            wf(old(self)@) ==> wf(final(self)@),
    {
        match response {
            Some(Packet::Connack(connack)) => self.handle_incoming_connack(connack, now),
            Some(_) => Err(
                MqttError::ProtocolError(String::from_str("expected CONNACK after CONNECT")),
            ),
            None => Err(MqttError::Io(String::from_str("connection closed by the broker"))),
        }
    }

    /// Snapshot of everything a fresh connection must re-emit before new
    /// user commands: the pending publishes, flagged as duplicates, in their
    /// insertion order, then a `PUBREL` for each identifier awaiting its
    /// `PUBCOMP`. The state itself is preserved identically.
    pub fn handle_reconnection(&mut self) -> (r: Vec<Packet>)
        ensures
            *final(self) == *old(self),
            packets_view(r@) == reconnect_packets(old(self)@),
    {
        let ghost s = self@;
        let mut packets: Vec<Packet> = Vec::new();
        let mut i: usize = 0;
        while i < self.outgoing_pub.len()
            invariant
                self == old(self),
                s == self@,
                i <= self.outgoing_pub@.len(),
                packets@.len() == i,
                forall|j: int|
                    0 <= j < i ==> (#[trigger] packets@[j])@ == PacketView::Publish(
                        dup_publish(s.outgoing_pub[j]),
                    ),
            decreases self.outgoing_pub@.len() - i,
        {
            let mut p = self.outgoing_pub[i].clone();
            p.dup = true;
            proof {
                assert(p@ == dup_publish(s.outgoing_pub[i as int]));
            }
            packets.push(Packet::Publish(p));
            i = i + 1;
        }
        let mut k: usize = 0;
        while k < self.outgoing_rel.len()
            invariant
                self == old(self),
                s == self@,
                k <= self.outgoing_rel@.len(),
                packets@.len() == s.outgoing_pub.len() + k,
                forall|j: int|
                    0 <= j < s.outgoing_pub.len() ==> (#[trigger] packets@[j])@
                        == PacketView::Publish(dup_publish(s.outgoing_pub[j])),
                forall|j: int|
                    0 <= j < k ==> (#[trigger] packets@[s.outgoing_pub.len() + j])@
                        == PacketView::Pubrel(s.outgoing_rel[j]),
            decreases self.outgoing_rel@.len() - k,
        {
            packets.push(Packet::Pubrel(self.outgoing_rel[k]));
            k = k + 1;
        }
        proof {
            let pv = packets_view(packets@);
            let rv = reconnect_packets(s);
            assert(pv.len() == rv.len());
            assert forall|j: int| 0 <= j < pv.len() implies pv[j] == rv[j] by {
                assert(pv[j] == packets@[j]@);
                if j < s.outgoing_pub.len() {
                    assert(rv[j] == PacketView::Publish(dup_publish(s.outgoing_pub[j])));
                } else {
                    let jj = j - s.outgoing_pub.len();
                    assert((#[trigger] packets@[s.outgoing_pub.len() + jj])@
                        == PacketView::Pubrel(s.outgoing_rel[jj]));
                    assert(rv[j] == PacketView::Pubrel(s.outgoing_rel[jj]));
                }
            }
            assert(packets_view(packets@) =~= reconnect_packets(s));
        }
        packets
    }

    /// The disconnect transition; see [`disconnect_step`].
    pub fn handle_disconnect(&mut self)
        ensures
            final(self)@ == disconnect_step(old(self)@),
            wf(old(self)@) ==> wf(final(self)@),
    {
        self.connection_status = MqttConnectionStatus::Disconnected;
        self.await_pingresp = false;
        if self.opts.clean_session {
            self.incoming_pub = Vec::new();
        }
        proof {
            if old(self)@.opts.clean_session {
                assert(self@.incoming_pub =~= Seq::<u16>::empty());
            }
        }
    }

    /// Exactly the condition of [`ping_required`].
    pub fn is_ping_required(&self, now: u64) -> (r: bool)
        ensures
            r == ping_required(self@, now),
    {
        match self.opts.keep_alive {
            Some(k) => matches!(self.connection_status, MqttConnectionStatus::Connected)
                && !self.await_pingresp && now >= self.last_control_at && now
                - self.last_control_at >= (k as u64) * 1000,
            None => false,
        }
    }

    /// Exactly the condition of [`ping_timed_out`].
    pub fn has_ping_timed_out(&self, now: u64) -> (r: bool)
        ensures
            r == ping_timed_out(self@, now),
    {
        match self.opts.keep_alive {
            Some(k) => matches!(self.connection_status, MqttConnectionStatus::Connected)
                && self.await_pingresp && now >= self.last_control_at && now
                - self.last_control_at >= (k as u64) * 1000,
            None => false,
        }
    }

    /// What the keep-alive tick must do at instant `now`: tear the
    /// connection down when the previous ping went unanswered for a full
    /// interval, enqueue a `PINGREQ` when the idle interval elapsed, and
    /// otherwise nothing.
    pub fn ping_tick_action(&self, now: u64) -> (r: Result<Option<Packet>, MqttError>)
        ensures
            ping_timed_out(self@, now) ==> (r matches Err(e) && e.kind()
                == ErrorKind::PingTimeout),
            ping_required(self@, now) ==> (r matches Ok(p) && opt_packet_view(p) == Some(
                PacketView::Pingreq,
            )),
            !ping_timed_out(self@, now) && !ping_required(self@, now) ==> (r matches Ok(p)
                && opt_packet_view(p) == Option::<PacketView>::None),
    {
        if self.has_ping_timed_out(now) {
            Err(MqttError::PingTimeout)
        } else if self.is_ping_required(now) {
            Ok(Some(Packet::Pingreq))
        } else {
            Ok(None)
        }
    }
}

/// Index of the pending publish carrying `pid`, when one does.
fn index_of_pub(v: &Vec<Publish>, pid: u16) -> (r: Option<usize>)
    requires
        forall|j: int| 0 <= j < v@.len() ==> (#[trigger] pubs_view(v@)[j]).pid is Some,
    ensures
        match r {
            Some(i) => i < v@.len() && stored_pid(pubs_view(v@)[i as int]) == pid,
            None => !pub_contains_pid(pubs_view(v@), pid),
        },
{
    let mut i: usize = 0;
    while i < v.len()
        invariant
            i <= v@.len(),
            forall|j: int| 0 <= j < v@.len() ==> (#[trigger] pubs_view(v@)[j]).pid is Some,
            forall|j: int| 0 <= j < i ==> stored_pid(#[trigger] pubs_view(v@)[j]) != pid,
        decreases v@.len() - i,
    {
        proof {
            assert(pubs_view(v@)[i as int] == v@[i as int]@);
        }
        let entry_pid = v[i].pid;
        proof {
            assert(entry_pid == v@[i as int]@.pid);
        }
        match entry_pid {
            Some(p) => {
                if p == pid {
                    return Some(i);
                }
                proof {
                    assert(stored_pid(pubs_view(v@)[i as int]) == p);
                }
            },
            None => {
                proof {
                    assert(false);
                }
            },
        }
        i = i + 1;
    }
    None
}

/// Index of the first occurrence of `pid` in an identifier vector.
fn index_of_id(v: &Vec<u16>, pid: u16) -> (r: Option<usize>)
    ensures
        match r {
            Some(i) => i < v@.len() && v@[i as int] == pid,
            None => !v@.contains(pid),
        },
{
    let mut i: usize = 0;
    while i < v.len()
        invariant
            i <= v@.len(),
            forall|j: int| 0 <= j < i ==> v@[j] != pid,
        decreases v@.len() - i,
    {
        if v[i] == pid {
            return Some(i);
        }
        i = i + 1;
    }
    None
}

/// Does an identifier vector hold `pid`?
fn contains_id(v: &Vec<u16>, pid: u16) -> (r: bool)
    ensures
        r == v@.contains(pid),
{
    match index_of_id(v, pid) {
        Some(_) => true,
        None => false,
    }
}

impl MqttState {
    /// Is `pkid` still awaiting a terminal acknowledgement?
    fn is_in_flight(&self, pkid: u16) -> (r: bool)
        requires
            wf(self@),
        ensures
            r == in_flight(self@, pkid),
    {
        match index_of_pub(&self.outgoing_pub, pkid) {
            Some(_) => true,
            None => contains_id(&self.outgoing_rel, pkid),
        }
    }

    /// Assign the next free packet identifier: rotate past `last_pkid`,
    /// skipping identifiers still in flight, wrapping past 65535 to 1.
    /// The machine limit of 65535 identifiers forces the in-flight bound.
    fn next_pkid(&mut self) -> (r: u16)
        requires
            wf(old(self)@),
            inflight_count(old(self)@) < 65535,
        ensures
            final(self)@ == (StateView { last_pkid: r, ..old(self)@ }),
            r == next_pkid_spec(old(self)@),
            !in_flight(old(self)@, r),
            1 <= r <= 65535,
    {
        let ghost s = old(self)@;
        let ghost c0 = rotate_pkid(s.last_pkid);
        let mut cand: u16 = if self.last_pkid >= 65535 {
            1
        } else {
            self.last_pkid + 1
        };
        let mut n: u16 = 0;
        proof {
            assert(cand == nth_candidate(c0, 0nat));
        }
        while self.is_in_flight(cand)
            invariant
                *self == *old(self),
                s == self@,
                wf(s),
                inflight_count(s) < 65535,
                c0 == rotate_pkid(s.last_pkid),
                1 <= c0 <= 65535,
                n < 65535,
                cand == nth_candidate(c0, n as nat),
                1 <= cand <= 65535,
                forall|m: nat| m < n ==> in_flight(s, #[trigger] nth_candidate(c0, m)),
                next_pkid_spec(s) == scan_free_pkid(s, cand, (65534 - n) as nat),
            decreases 65535 - n,
        {
            proof {
                assert(in_flight(s, nth_candidate(c0, n as nat)));
                lemma_candidate_pigeonhole(s, c0, (n + 1) as nat);
                assert(n < 65534);
                assert(scan_free_pkid(s, cand, (65534 - n) as nat) == scan_free_pkid(
                    s,
                    rotate_pkid(cand),
                    (65534 - (n + 1)) as nat,
                ));
            }
            cand = if cand >= 65535 {
                1
            } else {
                cand + 1
            };
            n = n + 1;
        }
        proof {
            assert(scan_free_pkid(s, cand, (65534 - n) as nat) == cand);
        }
        self.last_pkid = cand;
        cand
    }
}

/// Does the outgoing dispatch assign a fresh packet identifier to this
/// packet? True of a QoS 1/2 publish without one, and of every subscribe
/// and unsubscribe.
pub open spec fn needs_new_pkid(p: PacketView) -> bool {
    match p {
        PacketView::Publish(pb) => pb.qos != QoS::AtMostOnce && pb.pid is None,
        PacketView::Subscribe(_) => true,
        PacketView::Unsubscribe(_) => true,
        _ => false,
    }
}

/// The outgoing transition for a publish: an oversized payload is refused; a
/// QoS 0 publish passes through; a publish already carrying an identifier (a
/// republish) passes through without touching the pending set; a fresh
/// QoS 1/2 publish gets the next free identifier and joins `outgoing_pub`.
pub open spec fn outgoing_publish_step(s: StateView, pb: PublishView, now: u64) -> Result<
    (StateView, PacketView),
    ErrorKind,
> {
    if pb.payload.len() > s.opts.max_packet_size {
        Err(ErrorKind::PacketSizeLimit)
    } else if pb.qos is AtMostOnce {
        Ok((touched(s, now), PacketView::Publish(pb)))
    } else if pb.pid is Some {
        Ok((touched(s, now), PacketView::Publish(pb)))
    } else {
        let pkid = next_pkid_spec(s);
        let assigned = PublishView { pid: Some(pkid), ..pb };
        Ok(
            (
                StateView {
                    last_pkid: pkid,
                    last_control_at: now,
                    outgoing_pub: s.outgoing_pub.push(assigned),
                    ..s
                },
                PacketView::Publish(assigned),
            ),
        )
    }
}

/// The outgoing dispatch: publishes as above; subscribes and unsubscribes
/// get a fresh identifier and keep no retransmission state; a `PINGREQ` is
/// permitted only when connected with no ping outstanding, and marks one
/// outstanding; every other variant passes through. Every successful
/// emission counts as traffic.
pub open spec fn outgoing_step(s: StateView, p: PacketView, now: u64) -> Result<
    (StateView, PacketView),
    ErrorKind,
> {
    match p {
        PacketView::Publish(pb) => outgoing_publish_step(s, pb, now),
        PacketView::Subscribe(sub) => {
            let pkid = next_pkid_spec(s);
            Ok(
                (
                    StateView { last_pkid: pkid, last_control_at: now, ..s },
                    PacketView::Subscribe(SubscribeView { pid: pkid, ..sub }),
                ),
            )
        },
        PacketView::Unsubscribe(uns) => {
            let pkid = next_pkid_spec(s);
            Ok(
                (
                    StateView { last_pkid: pkid, last_control_at: now, ..s },
                    PacketView::Unsubscribe(UnsubscribeView { pid: pkid, ..uns }),
                ),
            )
        },
        PacketView::Pingreq => {
            if s.connection_status is Connected && !s.await_pingresp {
                Ok((StateView { await_pingresp: true, last_control_at: now, ..s }, p))
            } else {
                Err(ErrorKind::Protocol)
            }
        },
        _ => Ok((touched(s, now), p)),
    }
}

/// The incoming transition for a publish: QoS 0 is only a notification;
/// QoS 1 is a notification answered by `PUBACK`; a QoS 2 identifier not yet
/// recorded is notified, recorded and answered by `PUBREC`, while a
/// redelivered one is answered by `PUBREC` without a second notification.
/// A QoS 1/2 publish without an identifier is malformed.
pub open spec fn incoming_publish_step(t: StateView, pb: PublishView) -> Result<
    (StateView, Option<PacketView>, Option<PacketView>),
    ErrorKind,
> {
    match pb.qos {
        QoS::AtMostOnce => Ok((t, Some(PacketView::Publish(pb)), None)),
        QoS::AtLeastOnce => match pb.pid {
            Some(pid) => Ok(
                (t, Some(PacketView::Publish(pb)), Some(PacketView::Puback(pid))),
            ),
            None => Err(ErrorKind::Protocol),
        },
        QoS::ExactlyOnce => match pb.pid {
            Some(pid) => {
                if t.incoming_pub.contains(pid) {
                    Ok((t, None, Some(PacketView::Pubrec(pid))))
                } else {
                    Ok(
                        (
                            StateView { incoming_pub: t.incoming_pub.push(pid), ..t },
                            Some(PacketView::Publish(pb)),
                            Some(PacketView::Pubrec(pid)),
                        ),
                    )
                }
            },
            None => Err(ErrorKind::Protocol),
        },
    }
}

/// The incoming dispatch, as a function of the state, the packet and the
/// instant: the result is the new state, an optional notification for the
/// user, and an optional reply owed to the broker. Acknowledgements with an
/// unknown identifier are tolerated and change nothing; a `CONNACK` while
/// connected, or any packet a broker never sends, is a protocol error.
/// Every accepted packet counts as traffic.
pub open spec fn incoming_step(s: StateView, p: PacketView, now: u64) -> Result<
    (StateView, Option<PacketView>, Option<PacketView>),
    ErrorKind,
> {
    let t = touched(s, now);
    match p {
        PacketView::Publish(pb) => incoming_publish_step(t, pb),
        PacketView::Puback(pid) => Ok(
            (StateView { outgoing_pub: remove_pub_at(t.outgoing_pub, pid), ..t }, None, None),
        ),
        PacketView::Pubrec(pid) => Ok(
            (
                StateView {
                    outgoing_pub: remove_pub_at(t.outgoing_pub, pid),
                    outgoing_rel: if pub_contains_pid(t.outgoing_pub, pid) {
                        t.outgoing_rel.push(pid)
                    } else {
                        t.outgoing_rel
                    },
                    ..t
                },
                None,
                Some(PacketView::Pubrel(pid)),
            ),
        ),
        PacketView::Pubrel(pid) => Ok(
            (
                StateView { incoming_pub: remove_id(t.incoming_pub, pid), ..t },
                None,
                Some(PacketView::Pubcomp(pid)),
            ),
        ),
        PacketView::Pubcomp(pid) => Ok(
            (StateView { outgoing_rel: remove_id(t.outgoing_rel, pid), ..t }, None, None),
        ),
        PacketView::Pingresp => Ok((StateView { await_pingresp: false, ..t }, None, None)),
        PacketView::Suback(_) => Ok((t, Some(p), None)),
        PacketView::Unsuback(_) => Ok((t, Some(p), None)),
        PacketView::Connack(ck) => {
            if s.connection_status is Connected {
                Err(ErrorKind::Protocol)
            } else {
                match connack_step(s, ck, now) {
                    Ok(s2) => Ok((s2, None, None)),
                    Err(k) => Err(k),
                }
            }
        },
        _ => Err(ErrorKind::Protocol),
    }
}

/// Removing the entry at `i` from a duplicate-free pending set: identifiers
/// stay duplicate-free, membership loses exactly the removed identifier, and
/// [`remove_pub_at`] of that identifier is that removal.
pub(crate) proof fn lemma_pub_remove_facts(s: Seq<PublishView>, i: int)
    requires
        outgoing_pub_pids(s).no_duplicates(),
        0 <= i < s.len(),
    ensures
        remove_pub_at(s, stored_pid(s[i])) == s.remove(i),
        outgoing_pub_pids(s.remove(i)).no_duplicates(),
        forall|q: u16|
            pub_contains_pid(s.remove(i), q) <==> (pub_contains_pid(s, q) && q != stored_pid(
                s[i],
            )),
        forall|k: int|
            0 <= k < s.remove(i).len() ==> (#[trigger] s.remove(i)[k]) == (if k < i {
                s[k]
            } else {
                s[k + 1]
            }),
{
    s.remove_ensures(i);
    let s2 = s.remove(i);
    let pids = outgoing_pub_pids(s);
    let pids2 = outgoing_pub_pids(s2);
    assert(pub_contains_pid(s, stored_pid(s[i])));
    let j = choose|j: int| 0 <= j < s.len() && stored_pid(#[trigger] s[j]) == stored_pid(s[i]);
    assert(pids[j] == stored_pid(s[i]) && pids[i] == stored_pid(s[i]));
    assert(j == i);
    assert(remove_pub_at(s, stored_pid(s[i])) == s.remove(i));
    assert(pids2 =~= pids.remove(i)) by {
        pids.remove_ensures(i);
        assert forall|k: int| 0 <= k < pids2.len() implies pids2[k] == pids.remove(i)[k] by {
            if k < i {
                assert(s2[k] == s[k]);
            } else {
                assert(s2[k] == s[k + 1]);
            }
        }
    }
    assert forall|m: int, n: int|
        0 <= m < pids2.len() && 0 <= n < pids2.len() && m != n implies pids2[m] != pids2[n] by {
        let m0: int = if m < i {
            m
        } else {
            m + 1
        };
        let n0: int = if n < i {
            n
        } else {
            n + 1
        };
        assert(pids2[m] == pids[m0] && pids2[n] == pids[n0]);
        assert(m0 != n0);
    }
    assert(pids2.no_duplicates());
    assert forall|q: u16|
        pub_contains_pid(s2, q) <==> (pub_contains_pid(s, q) && q != stored_pid(s[i])) by {
        if pub_contains_pid(s2, q) {
            let k = choose|k: int| 0 <= k < s2.len() && stored_pid(#[trigger] s2[k]) == q;
            let k0: int = if k < i {
                k
            } else {
                k + 1
            };
            assert(stored_pid(s[k0]) == q);
            assert(pub_contains_pid(s, q));
            assert(pids[k0] == q && pids[i] == stored_pid(s[i]));
            assert(q != stored_pid(s[i]));
        }
        if pub_contains_pid(s, q) && q != stored_pid(s[i]) {
            let k = choose|k: int| 0 <= k < s.len() && stored_pid(#[trigger] s[k]) == q;
            assert(k != i);
            if k < i {
                assert(stored_pid(s2[k]) == q);
            } else {
                assert(stored_pid(s2[k - 1]) == q);
            }
            assert(pub_contains_pid(s2, q));
        }
    }
}

/// Removing the entry at `i` from a duplicate-free identifier sequence:
/// still duplicate-free, membership loses exactly that identifier, and
/// [`remove_id`] of that identifier is that removal.
pub(crate) proof fn lemma_id_remove_facts(v: Seq<u16>, i: int)
    requires
        v.no_duplicates(),
        0 <= i < v.len(),
    ensures
        remove_id(v, v[i]) == v.remove(i),
        v.remove(i).no_duplicates(),
        forall|q: u16| v.remove(i).contains(q) <==> (v.contains(q) && q != v[i]),
{
    v.remove_ensures(i);
    v.index_of_first_ensures(v[i]);
    let v2 = v.remove(i);
    assert(v.contains(v[i]));
    match v.index_of_first(v[i]) {
        Some(idx) => {
            assert(v[idx] == v[i]);
            assert(idx == i);
        },
        None => {
            assert(false);
        },
    }
    assert forall|m: int, n: int|
        0 <= m < v2.len() && 0 <= n < v2.len() && m != n implies v2[m] != v2[n] by {
        let m0: int = if m < i {
            m
        } else {
            m + 1
        };
        let n0: int = if n < i {
            n
        } else {
            n + 1
        };
        assert(v2[m] == v[m0] && v2[n] == v[n0]);
    }
    assert(v2.no_duplicates());
    assert forall|q: u16| v2.contains(q) <==> (v.contains(q) && q != v[i]) by {
        if v2.contains(q) {
            let k = choose|k: int| 0 <= k < v2.len() && v2[k] == q;
            let k0: int = if k < i {
                k
            } else {
                k + 1
            };
            assert(v[k0] == q);
            assert(v.contains(q));
            assert(q != v[i]);
        }
        if v.contains(q) && q != v[i] {
            let k = choose|k: int| 0 <= k < v.len() && v[k] == q;
            assert(k != i);
            if k < i {
                assert(v2[k] == q);
            } else {
                assert(v2[k - 1] == q);
            }
        }
    }
}

/// An identifier absent from a sequence removes to the same sequence.
pub(crate) proof fn lemma_remove_id_absent(v: Seq<u16>, pid: u16)
    requires
        !v.contains(pid),
    ensures
        remove_id(v, pid) == v,
{
    v.index_of_first_ensures(pid);
    match v.index_of_first(pid) {
        Some(idx) => {
            assert(false);
        },
        None => {
        },
    }
}

/// Pushing a fresh identifier keeps a sequence duplicate-free; membership
/// gains exactly that identifier.
pub(crate) proof fn lemma_id_push_facts(v: Seq<u16>, x: u16)
    requires
        v.no_duplicates(),
        !v.contains(x),
    ensures
        v.push(x).no_duplicates(),
        forall|q: u16| v.push(x).contains(q) <==> (v.contains(q) || q == x),
{
    let v2 = v.push(x);
    assert forall|m: int, n: int|
        0 <= m < v2.len() && 0 <= n < v2.len() && m != n implies v2[m] != v2[n] by {
        if m < v.len() && n < v.len() {
            assert(v2[m] == v[m] && v2[n] == v[n]);
        } else if m < v.len() {
            assert(v2[n] == x && v2[m] == v[m]);
            assert(v.contains(v[m]) || v[m] != x) by {
                assert(v.contains(v[m]));
            }
        } else {
            assert(v2[m] == x && v2[n] == v[n]);
            assert(v.contains(v[n]));
        }
    }
    assert(v2.no_duplicates());
    assert forall|q: u16| v2.contains(q) <==> (v.contains(q) || q == x) by {
        if v2.contains(q) {
            let k = choose|k: int| 0 <= k < v2.len() && v2[k] == q;
            if k < v.len() {
                assert(v[k] == q);
            }
        }
        if v.contains(q) {
            let k = choose|k: int| 0 <= k < v.len() && v[k] == q;
            assert(v2[k] == q);
        }
        if q == x {
            assert(v2[v.len() as int] == q);
        }
    }
}

/// The view of a vector of publishes commutes with removal.
proof fn lemma_pubs_view_remove(v: Seq<Publish>, i: int)
    requires
        0 <= i < v.len(),
    ensures
        pubs_view(v.remove(i)) == pubs_view(v).remove(i),
{
    v.remove_ensures(i);
    pubs_view(v).remove_ensures(i);
    assert(pubs_view(v.remove(i)) =~= pubs_view(v).remove(i)) by {
        assert forall|k: int| 0 <= k < v.remove(i).len() implies pubs_view(v.remove(i))[k]
            == pubs_view(v).remove(i)[k] by {
            if k < i {
                assert(v.remove(i)[k] == v[k]);
            } else {
                assert(v.remove(i)[k] == v[k + 1]);
            }
        }
    }
}

/// Appending a fresh acknowledgeable publish preserves well-formedness.
proof fn lemma_push_pub_wf(s: StateView, s2: StateView, pb: PublishView, pkid: u16)
    requires
        wf(s),
        !in_flight(s, pkid),
        pb.pid == Some(pkid),
        pb.qos != QoS::AtMostOnce,
        s2.outgoing_pub == s.outgoing_pub.push(pb),
        s2.outgoing_rel == s.outgoing_rel,
        s2.incoming_pub == s.incoming_pub,
    ensures
        wf(s2),
{
    let pids = outgoing_pub_pids(s.outgoing_pub);
    let pids2 = outgoing_pub_pids(s2.outgoing_pub);
    let n = s.outgoing_pub.len() as int;
    assert(pids2 =~= pids.push(pkid)) by {
        assert forall|k: int| 0 <= k < pids2.len() implies pids2[k] == pids.push(pkid)[k] by {
            if k < n {
                assert(s2.outgoing_pub[k] == s.outgoing_pub[k]);
            } else {
                assert(s2.outgoing_pub[k] == pb);
            }
        }
    }
    assert(!pids.contains(pkid)) by {
        if pids.contains(pkid) {
            let k = choose|k: int| 0 <= k < pids.len() && pids[k] == pkid;
            assert(stored_pid(s.outgoing_pub[k]) == pkid);
            assert(pub_contains_pid(s.outgoing_pub, pkid));
        }
    }
    assert forall|m: int, n2: int|
        0 <= m < pids2.len() && 0 <= n2 < pids2.len() && m != n2 implies pids2[m]
        != pids2[n2] by {
        if m < n && n2 < n {
        } else if m < n {
            assert(pids.contains(pids[m]));
        } else if n2 < n {
            assert(pids.contains(pids[n2]));
        }
    }
    assert(pids2.no_duplicates());
    assert forall|q: u16| s2.outgoing_rel.contains(q) implies !pub_contains_pid(
        s2.outgoing_pub,
        q,
    ) by {
        assert(!pub_contains_pid(s.outgoing_pub, q));
        assert(q != pkid);
        if pub_contains_pid(s2.outgoing_pub, q) {
            let k = choose|k: int|
                0 <= k < s2.outgoing_pub.len() && stored_pid(#[trigger] s2.outgoing_pub[k]) == q;
            if k < n {
                assert(stored_pid(s.outgoing_pub[k]) == q);
            } else {
                assert(s2.outgoing_pub[k] == pb);
            }
        }
    }
    assert forall|i: int| 0 <= i < s2.outgoing_pub.len() implies (#[trigger] s2.outgoing_pub[i]).pid
        is Some && s2.outgoing_pub[i].qos != QoS::AtMostOnce by {
        if i < n {
            assert(s2.outgoing_pub[i] == s.outgoing_pub[i]);
        } else {
            assert(s2.outgoing_pub[i] == pb);
        }
    }
}

impl MqttState {
    /// The outgoing publish path; see [`outgoing_publish_step`]. A fresh
    /// QoS 1/2 publish needs a free identifier, which the machine limit of
    /// 65535 concurrent identifiers forces the caller to leave room for.
    pub fn handle_outgoing_publish(&mut self, publish: Publish, now: u64) -> (r: Result<
        Publish,
        MqttError,
    >)
        requires
            wf(old(self)@),
            publish@.qos != QoS::AtMostOnce && publish@.pid is None ==> inflight_count(
                old(self)@,
            ) < 65535,
        ensures
            wf(final(self)@),
            match outgoing_publish_step(old(self)@, publish@, now) {
                Ok(t) => (r matches Ok(p) && final(self)@ == t.0 && PacketView::Publish(p@)
                    == t.1),
                Err(k) => (r matches Err(e) && e.kind() == k && final(self)@ == old(self)@),
            },
    {
        if publish.payload.len() > self.opts.max_packet_size {
            return Err(MqttError::MqttPacketSizeLimitExceeded);
        }
        match publish.qos {
            QoS::AtMostOnce => {
                self.last_control_at = now;
                Ok(publish)
            },
            _ => {
                if publish.pid.is_none() {
                    let ghost s = self@;
                    let pkid = self.next_pkid();
                    let mut assigned = publish;
                    assigned.pid = Some(pkid);
                    let copy = assigned.clone();
                    let ghost pre = self.outgoing_pub@;
                    proof {
                        assert(pubs_view(pre) == s.outgoing_pub);
                    }
                    self.outgoing_pub.push(copy);
                    self.last_control_at = now;
                    proof {
                        let t = outgoing_publish_step(s, publish@, now)->Ok_0;
                        assert(self.outgoing_pub@ == pre.push(copy));
                        assert(pubs_view(self.outgoing_pub@) =~= s.outgoing_pub.push(
                            assigned@,
                        )) by {
                            assert forall|k: int| 0 <= k < self.outgoing_pub@.len() implies
                                pubs_view(self.outgoing_pub@)[k] == s.outgoing_pub.push(
                                assigned@,
                            )[k] by {
                                if k < pre.len() {
                                    assert(self.outgoing_pub@[k] == pre[k]);
                                    assert(pubs_view(pre)[k] == s.outgoing_pub[k]);
                                } else {
                                    assert(self.outgoing_pub@[k] == copy);
                                }
                            }
                        }
                        assert(self@ == t.0);
                        lemma_push_pub_wf(s, self@, assigned@, pkid);
                    }
                    Ok(assigned)
                } else {
                    self.last_control_at = now;
                    Ok(publish)
                }
            },
        }
    }

    /// The outgoing dispatch; see [`outgoing_step`]. Exactly the packets of
    /// [`needs_new_pkid`] consume a free identifier.
    pub fn handle_outgoing_mqtt_packet(&mut self, packet: Packet, now: u64) -> (r: Result<
        Packet,
        MqttError,
    >)
        requires
            wf(old(self)@),
            needs_new_pkid(packet@) ==> inflight_count(old(self)@) < 65535,
        ensures
            wf(final(self)@),
            match outgoing_step(old(self)@, packet@, now) {
                Ok(t) => (r matches Ok(p) && final(self)@ == t.0 && p@ == t.1),
                Err(k) => (r matches Err(e) && e.kind() == k && final(self)@ == old(self)@),
            },
    {
        match packet {
            Packet::Publish(publish) => {
                match self.handle_outgoing_publish(publish, now) {
                    Ok(p) => Ok(Packet::Publish(p)),
                    Err(e) => Err(e),
                }
            },
            Packet::Subscribe(mut sub) => {
                let pkid = self.next_pkid();
                sub.pid = pkid;
                self.last_control_at = now;
                Ok(Packet::Subscribe(sub))
            },
            Packet::Unsubscribe(mut uns) => {
                let pkid = self.next_pkid();
                uns.pid = pkid;
                self.last_control_at = now;
                Ok(Packet::Unsubscribe(uns))
            },
            Packet::Pingreq => {
                if matches!(self.connection_status, MqttConnectionStatus::Connected)
                    && !self.await_pingresp {
                    self.await_pingresp = true;
                    self.last_control_at = now;
                    Ok(Packet::Pingreq)
                } else {
                    Err(
                        MqttError::ProtocolError(
                            String::from_str("PINGREQ is not permitted now"),
                        ),
                    )
                }
            },
            other => {
                self.last_control_at = now;
                Ok(other)
            },
        }
    }

    /// The incoming dispatch; see [`incoming_step`]. On success the first
    /// component is the notification owed to the user, the second the reply
    /// owed to the broker.
    pub fn handle_incoming_mqtt_packet(&mut self, packet: Packet, now: u64) -> (r: Result<
        (Option<Packet>, Option<Packet>),
        MqttError,
    >)
        requires
            wf(old(self)@),
        ensures
            wf(final(self)@),
            match incoming_step(old(self)@, packet@, now) {
                Ok(t) => (r matches Ok(nr) && final(self)@ == t.0 && opt_packet_view(nr.0)
                    == t.1 && opt_packet_view(nr.1) == t.2),
                Err(k) => (r matches Err(e) && e.kind() == k && final(self)@ == old(self)@),
            },
    {
        let ghost s = self@;
        match packet {
            Packet::Publish(publish) => {
                match publish.qos {
                    QoS::AtMostOnce => {
                        self.last_control_at = now;
                        Ok((Some(Packet::Publish(publish)), None))
                    },
                    QoS::AtLeastOnce => match publish.pid {
                        Some(pid) => {
                            self.last_control_at = now;
                            Ok((Some(Packet::Publish(publish)), Some(Packet::Puback(pid))))
                        },
                        None => Err(
                            MqttError::ProtocolError(
                                String::from_str("QoS 1 publish without an identifier"),
                            ),
                        ),
                    },
                    QoS::ExactlyOnce => match publish.pid {
                        Some(pid) => {
                            self.last_control_at = now;
                            if contains_id(&self.incoming_pub, pid) {
                                Ok((None, Some(Packet::Pubrec(pid))))
                            } else {
                                proof {
                                    lemma_id_push_facts(s.incoming_pub, pid);
                                }
                                self.incoming_pub.push(pid);
                                Ok((Some(Packet::Publish(publish)), Some(Packet::Pubrec(pid))))
                            }
                        },
                        None => Err(
                            MqttError::ProtocolError(
                                String::from_str("QoS 2 publish without an identifier"),
                            ),
                        ),
                    },
                }
            },
            Packet::Puback(pid) => {
                self.last_control_at = now;
                match index_of_pub(&self.outgoing_pub, pid) {
                    Some(i) => {
                        proof {
                            lemma_pub_remove_facts(pubs_view(self.outgoing_pub@), i as int);
                            lemma_pubs_view_remove(self.outgoing_pub@, i as int);
                        }
                        self.outgoing_pub.remove(i);
                    },
                    None => {},
                }
                Ok((None, None))
            },
            Packet::Pubrec(pid) => {
                self.last_control_at = now;
                match index_of_pub(&self.outgoing_pub, pid) {
                    Some(i) => {
                        proof {
                            lemma_pub_remove_facts(pubs_view(self.outgoing_pub@), i as int);
                            lemma_pubs_view_remove(self.outgoing_pub@, i as int);
                            lemma_id_push_facts(s.outgoing_rel, pid);
                        }
                        self.outgoing_pub.remove(i);
                        self.outgoing_rel.push(pid);
                        proof {
                            assert(stored_pid(s.outgoing_pub[i as int]) == pid);
                            assert forall|q: u16|
                                self@.outgoing_rel.contains(q) implies !pub_contains_pid(
                                self@.outgoing_pub,
                                q,
                            ) by {
                                assert(s.outgoing_rel.push(pid).contains(q));
                                if q != pid {
                                    assert(s.outgoing_rel.contains(q));
                                    assert(!pub_contains_pid(s.outgoing_pub, q));
                                }
                                assert(!pub_contains_pid(
                                    s.outgoing_pub.remove(i as int),
                                    q,
                                ));
                            }
                            assert(forall|i2: int|
                                0 <= i2 < self@.outgoing_pub.len() ==> (
                                #[trigger] self@.outgoing_pub[i2]).pid is Some
                                    && self@.outgoing_pub[i2].qos != QoS::AtMostOnce);
                            assert(wf(self@));
                        }
                    },
                    None => {},
                }
                Ok((None, Some(Packet::Pubrel(pid))))
            },
            Packet::Pubrel(pid) => {
                self.last_control_at = now;
                match index_of_id(&self.incoming_pub, pid) {
                    Some(i) => {
                        proof {
                            lemma_id_remove_facts(s.incoming_pub, i as int);
                        }
                        self.incoming_pub.remove(i);
                    },
                    None => {
                        proof {
                            lemma_remove_id_absent(s.incoming_pub, pid);
                        }
                    },
                }
                Ok((None, Some(Packet::Pubcomp(pid))))
            },
            Packet::Pubcomp(pid) => {
                self.last_control_at = now;
                match index_of_id(&self.outgoing_rel, pid) {
                    Some(i) => {
                        proof {
                            lemma_id_remove_facts(s.outgoing_rel, i as int);
                        }
                        self.outgoing_rel.remove(i);
                    },
                    None => {
                        proof {
                            lemma_remove_id_absent(s.outgoing_rel, pid);
                        }
                    },
                }
                Ok((None, None))
            },
            Packet::Pingresp => {
                self.last_control_at = now;
                self.await_pingresp = false;
                Ok((None, None))
            },
            Packet::Suback(suback) => {
                self.last_control_at = now;
                Ok((Some(Packet::Suback(suback)), None))
            },
            Packet::Unsuback(pid) => {
                self.last_control_at = now;
                Ok((Some(Packet::Unsuback(pid)), None))
            },
            Packet::Connack(connack) => {
                if matches!(self.connection_status, MqttConnectionStatus::Connected) {
                    Err(
                        MqttError::ProtocolError(
                            String::from_str("a second CONNACK during the session"),
                        ),
                    )
                } else {
                    match self.handle_incoming_connack(connack, now) {
                        Ok(()) => Ok((None, None)),
                        Err(e) => Err(e),
                    }
                }
            },
            _ => Err(
                MqttError::ProtocolError(
                    String::from_str("the broker sent a client-only packet"),
                ),
            ),
        }
    }
}

} // verus!
