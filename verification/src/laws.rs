//! The session laws: what holds of every state the machine can reach. Each
//! law is stated over the transition functions of [`crate::state`] and
//! proved once and for all; the handlers' own contracts tie the executable
//! code to those transitions.

use vstd::prelude::*;

use crate::error::ErrorKind;
use crate::packet::Connack;
use crate::packet::PacketView;
use crate::packet::PublishView;
use crate::packet::QoS;
use crate::state::StateView;
use crate::state::dup_publish;
use crate::state::in_flight;
use crate::state::incoming_step;
use crate::state::inflight_count;
use crate::state::lemma_id_remove_facts;
use crate::state::lemma_pub_remove_facts;
use crate::state::lemma_remove_id_absent;
use crate::state::next_pkid_spec;
use crate::state::nth_candidate;
use crate::state::outgoing_pub_pids;
use crate::state::outgoing_step;
use crate::state::ping_required;
use crate::state::ping_timed_out;
use crate::state::pub_contains_pid;
use crate::state::reconnect_packets;
use crate::state::remove_id;
use crate::state::remove_pub_at;
use crate::state::rotate_pkid;
use crate::state::scan_free_pkid;
use crate::state::stored_pid;
use crate::state::wf;

verus! {

/// Membership of [`remove_pub_at`]: exactly the named identifier leaves.
proof fn lemma_remove_pub_membership(spub: Seq<PublishView>, x: u16)
    requires
        outgoing_pub_pids(spub).no_duplicates(),
    ensures
        forall|q: u16|
            pub_contains_pid(remove_pub_at(spub, x), q) <==> (pub_contains_pid(spub, q) && q
                != x),
{
    if pub_contains_pid(spub, x) {
        let i = choose|i: int| 0 <= i < spub.len() && stored_pid(#[trigger] spub[i]) == x;
        lemma_pub_remove_facts(spub, i);
    }
}

/// Membership of [`remove_id`]: exactly the named identifier leaves.
proof fn lemma_remove_id_membership(v: Seq<u16>, x: u16)
    requires
        v.no_duplicates(),
    ensures
        forall|q: u16| remove_id(v, x).contains(q) <==> (v.contains(q) && q != x),
{
    if v.contains(x) {
        let i = choose|i: int| 0 <= i < v.len() && v[i] == x;
        lemma_id_remove_facts(v, i);
    } else {
        lemma_remove_id_absent(v, x);
    }
}

/// No packet identifier ever stands in `outgoing_pub` and `outgoing_rel` at
/// once: disjointness is part of [`wf`], which every operation of
/// [`crate::state::MqttState`] requires and re-establishes.
pub proof fn lemma_inflight_disjoint(s: StateView, pkid: u16)
    requires
        wf(s),
    ensures
        !(pub_contains_pid(s.outgoing_pub, pkid) && s.outgoing_rel.contains(pkid)),
{
    if pub_contains_pid(s.outgoing_pub, pkid) && s.outgoing_rel.contains(pkid) {
        assert(!pub_contains_pid(s.outgoing_pub, pkid));
    }
}

/// An identifier whose QoS 1 publish is pending is released from flight by
/// an incoming packet exactly when that packet is the matching `PUBACK`.
/// (A matching `PUBREC` moves it to `outgoing_rel`; it stays in flight.)
pub proof fn lemma_qos1_release_iff_puback(s: StateView, p: PacketView, now: u64, pkid: u16)
    requires
        wf(s),
        pub_contains_pid(s.outgoing_pub, pkid),
        incoming_step(s, p, now) is Ok,
    ensures
        ({
            let t = incoming_step(s, p, now)->Ok_0;
            !in_flight(t.0, pkid) <==> p == PacketView::Puback(pkid)
        }),
{
    match p {
        PacketView::Puback(x) => {
            lemma_remove_pub_membership(s.outgoing_pub, x);
            if x == pkid {
                if s.outgoing_rel.contains(pkid) {
                    assert(!pub_contains_pid(s.outgoing_pub, pkid));
                }
            }
        },
        PacketView::Pubrec(x) => {
            lemma_remove_pub_membership(s.outgoing_pub, x);
            if x == pkid {
                let rel2 = s.outgoing_rel.push(pkid);
                assert(rel2[s.outgoing_rel.len() as int] == pkid);
                assert(rel2.contains(pkid));
            }
        },
        PacketView::Pubcomp(x) => {
            lemma_remove_id_membership(s.outgoing_rel, x);
        },
        _ => {},
    }
}

/// An identifier awaiting its `PUBCOMP` (QoS 2, `PUBREC` already seen) is
/// released from flight by an incoming packet exactly when that packet is
/// the matching `PUBCOMP`.
pub proof fn lemma_qos2_release_iff_pubcomp(s: StateView, p: PacketView, now: u64, pkid: u16)
    requires
        wf(s),
        s.outgoing_rel.contains(pkid),
        incoming_step(s, p, now) is Ok,
    ensures
        ({
            let t = incoming_step(s, p, now)->Ok_0;
            !in_flight(t.0, pkid) <==> p == PacketView::Pubcomp(pkid)
        }),
{
    assert(!pub_contains_pid(s.outgoing_pub, pkid));
    match p {
        PacketView::Puback(x) => {
            lemma_remove_pub_membership(s.outgoing_pub, x);
        },
        PacketView::Pubrec(x) => {
            lemma_remove_pub_membership(s.outgoing_pub, x);
            if pub_contains_pid(s.outgoing_pub, x) {
                let rel2 = s.outgoing_rel.push(x);
                let k = choose|k: int|
                    0 <= k < s.outgoing_rel.len() && s.outgoing_rel[k] == pkid;
                assert(rel2[k] == pkid);
                assert(rel2.contains(pkid));
            }
        },
        PacketView::Pubcomp(x) => {
            lemma_remove_id_membership(s.outgoing_rel, x);
        },
        _ => {},
    }
}

/// A `PUBREL` is owed as reply exactly when the incoming packet is the
/// matching `PUBREC`.
pub proof fn lemma_pubrel_reply_iff_pubrec(s: StateView, p: PacketView, now: u64, x: u16)
    requires
        incoming_step(s, p, now) is Ok,
    ensures
        ({
            let t = incoming_step(s, p, now)->Ok_0;
            t.2 == Some(PacketView::Pubrel(x)) <==> p == PacketView::Pubrec(x)
        }),
{
}

/// Exactly-once delivery of an inbound QoS 2 publish: handling the same
/// publish twice yields one notification at most, and one at all exactly
/// when its identifier was not already recorded; both deliveries are
/// answered by the matching `PUBREC`.
pub proof fn lemma_incoming_qos2_dedup(
    s: StateView,
    pb: PublishView,
    x: u16,
    now1: u64,
    now2: u64,
)
    requires
        wf(s),
        pb.qos == QoS::ExactlyOnce,
        pb.pid == Some(x),
    ensures
        incoming_step(s, PacketView::Publish(pb), now1) is Ok,
        ({
            let t1 = incoming_step(s, PacketView::Publish(pb), now1)->Ok_0;
            let t2 = incoming_step(t1.0, PacketView::Publish(pb), now2)->Ok_0;
            &&& incoming_step(t1.0, PacketView::Publish(pb), now2) is Ok
            &&& (t1.1 is Some <==> !s.incoming_pub.contains(x))
            &&& t2.1 is None
            &&& t1.2 == Some(PacketView::Pubrec(x))
            &&& t2.2 == Some(PacketView::Pubrec(x))
        }),
{
    let t1 = incoming_step(s, PacketView::Publish(pb), now1)->Ok_0;
    if !s.incoming_pub.contains(x) {
        let inc2 = s.incoming_pub.push(x);
        assert(inc2[s.incoming_pub.len() as int] == x);
        assert(t1.0.incoming_pub.contains(x));
    }
}

/// While connected with a positive keep-alive interval, an idle stretch of
/// a full interval forces the tick to act: either a `PINGREQ` is due, or the
/// previous one is still unanswered and the connection has timed out.
pub proof fn lemma_keep_alive_acts(s: StateView, now: u64, k: u16)
    requires
        s.connection_status is Connected,
        s.opts.keep_alive == Some(k),
        k > 0,
        now >= s.last_control_at,
        now - s.last_control_at >= k as int * 1000,
    ensures
        ping_required(s, now) || ping_timed_out(s, now),
{
}

/// What a reconnect re-emits: first every pending publish, in insertion
/// order, flagged as a duplicate; then a `PUBREL` for every identifier
/// awaiting its `PUBCOMP`, in order. (That the state itself is preserved is
/// the contract of [`crate::state::MqttState::handle_reconnection`].)
pub proof fn lemma_reconnect_order(s: StateView)
    ensures
        reconnect_packets(s).len() == s.outgoing_pub.len() + s.outgoing_rel.len(),
        forall|i: int|
            0 <= i < s.outgoing_pub.len() ==> reconnect_packets(s)[i] == PacketView::Publish(
                dup_publish(#[trigger] s.outgoing_pub[i]),
            ),
        forall|j: int|
            0 <= j < s.outgoing_rel.len() ==> reconnect_packets(s)[s.outgoing_pub.len() + j]
                == PacketView::Pubrel(#[trigger] s.outgoing_rel[j]),
{
}

/// The rotation scan, started anywhere on the cycle with every identifier
/// so far in flight, ends at an identifier that is free.
proof fn lemma_scan_finds_free(s: StateView, c0: u16, n: nat)
    requires
        wf(s),
        inflight_count(s) < 65535,
        1 <= c0 <= 65535,
        n < 65535,
        forall|m: nat| m < n ==> in_flight(s, #[trigger] nth_candidate(c0, m)),
    ensures
        !in_flight(s, scan_free_pkid(s, nth_candidate(c0, n), (65534 - n) as nat)),
    decreases 65535 - n,
{
    let cand = nth_candidate(c0, n);
    if in_flight(s, cand) {
        crate::state::lemma_candidate_pigeonhole(s, c0, (n + 1) as nat);
        assert(n < 65534);
        lemma_scan_finds_free(s, c0, (n + 1) as nat);
        assert(scan_free_pkid(s, cand, (65534 - n) as nat) == scan_free_pkid(
            s,
            rotate_pkid(cand),
            (65534 - (n + 1)) as nat,
        ));
    }
}

/// The identifier the rotation assigns next is never one still in flight,
/// as long as the machine limit of 65535 identifiers leaves room.
pub proof fn lemma_next_pkid_is_free(s: StateView)
    requires
        wf(s),
        inflight_count(s) < 65535,
    ensures
        !in_flight(s, next_pkid_spec(s)),
{
    lemma_scan_finds_free(s, rotate_pkid(s.last_pkid), 0nat);
}

/// The rotation wraps past 65535 back to 1, and skips identifiers still in
/// flight there.
pub proof fn lemma_pkid_wraparound(s: StateView)
    requires
        s.last_pkid == 65535,
    ensures
        rotate_pkid(s.last_pkid) == 1,
        !in_flight(s, 1) ==> next_pkid_spec(s) == 1,
        in_flight(s, 1) && !in_flight(s, 2) ==> next_pkid_spec(s) == 2,
{
    if in_flight(s, 1) && !in_flight(s, 2) {
        assert(scan_free_pkid(s, 1, 65534nat) == scan_free_pkid(s, 2, 65533nat));
        assert(scan_free_pkid(s, 2, 65533nat) == 2);
    }
}

/// A `CONNACK` while the session is already connected is a protocol error.
pub proof fn lemma_second_connack_is_protocol_error(s: StateView, ck: Connack, now: u64)
    requires
        s.connection_status is Connected,
    ensures
        (incoming_step(s, PacketView::Connack(ck), now) matches Err(k) && k
            == ErrorKind::Protocol),
{
}

/// While a ping is outstanding no further `PINGREQ` is due, and emitting one
/// anyway is refused as a protocol error.
pub proof fn lemma_pingreq_suppressed(s: StateView, now: u64)
    requires
        s.await_pingresp,
    ensures
        !ping_required(s, now),
        (outgoing_step(s, PacketView::Pingreq, now) matches Err(k) && k == ErrorKind::Protocol),
{
}

} // verus!
