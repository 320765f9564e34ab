use vstd::prelude::*;

use crate::callback::Message;
use crate::error::{ClientError, ConnectReturnCode};
use crate::publisher::{
    ack_position, after_connect_sent, after_event, after_next_to_send, after_packet, after_ping,
    after_publish, after_puback, after_unbind, is_first_match, lemma_first_match_unique,
    next_pkid_after, pending_contents, pkid_after, queue_wf, unstamped, with_pkid,
    IncomingPacket, PacketOutcome, PublisherView, RunEvent,
};
use crate::MqttState;

verus! {

/// Counting from an identifier in use, the `n`-th identifier handed out is
/// `((last - 1 + n) mod 65535) + 1`.
pub proof fn lemma_pkid_cycle(last: u16, n: nat)
    requires
        1 <= last,
    ensures
        pkid_after(last, n) as int == (last - 1 + n) % 65535 + 1,
    decreases n,
{
    if n == 0 {
        vstd::arithmetic::div_mod::lemma_small_mod((last - 1) as nat, 65535);
    } else {
        lemma_pkid_cycle(last, (n - 1) as nat);
        let a: int = last - 1 + n - 1;
        vstd::arithmetic::div_mod::lemma_add_mod_noop(a, 1, 65535);
        vstd::arithmetic::div_mod::lemma_mod_bound(a, 65535);
        let x = a % 65535;
        if x == 65534 {
            vstd::arithmetic::div_mod::lemma_mod_self_0(65535);
        } else {
            vstd::arithmetic::div_mod::lemma_small_mod((x + 1) as nat, 65535);
        }
    }
}

/// From the initial identifier 0 the sequence is the one that starts at 1.
proof fn lemma_pkid_from_zero(n: nat)
    ensures
        pkid_after(0, n + 1) == pkid_after(1, n),
    decreases n,
{
    assert(pkid_after(0, n + 1) == next_pkid_after(pkid_after(0, n)));
    if n > 0 {
        lemma_pkid_from_zero((n - 1) as nat);
        assert(pkid_after(1, n) == next_pkid_after(pkid_after(1, (n - 1) as nat)));
    }
}

/// The identifiers that fewer than 65535 consecutive publishes take are
/// pairwise distinct (the initial identifier 0 itself is never handed out).
pub proof fn lemma_pkids_distinct(last: u16, i: nat, j: nat)
    requires
        i < j < i + 65535,
        1 <= last || 1 <= i,
    ensures
        pkid_after(last, i) != pkid_after(last, j),
    decreases
            if last == 0 {
                1int
            } else {
                0int
            },
{
    if last == 0 {
        lemma_pkid_from_zero((i - 1) as nat);
        lemma_pkid_from_zero((j - 1) as nat);
        lemma_pkids_distinct(1, (i - 1) as nat, (j - 1) as nat);
    } else {
        lemma_pkid_cycle(last, i);
        lemma_pkid_cycle(last, j);
        let a: int = last - 1 + i;
        let b: int = last - 1 + j;
        vstd::arithmetic::div_mod::lemma_mod_equivalence(b, a, 65535);
        vstd::arithmetic::div_mod::lemma_small_mod((j - i) as nat, 65535);
    }
}

/// Identifiers repeat with period 65535.
pub proof fn lemma_pkid_period(last: u16, n: nat)
    requires
        1 <= last,
    ensures
        pkid_after(last, n + 65535) == pkid_after(last, n),
{
    lemma_pkid_cycle(last, n);
    lemma_pkid_cycle(last, n + 65535);
    vstd::arithmetic::div_mod::lemma_mod_add_multiples_vanish(last - 1 + n, 65535);
}

/// Acknowledging the identifier that a publish was given releases exactly
/// that publish and leaves the queue as it was before the publish, when the
/// publish went straight to the memory queue and no older queued publish
/// carries the same identifier.
pub proof fn lemma_ack_releases_publish(v: PublisherView, m: Message)
    requires
        v.state == MqttState::Connected,
        v.backlog.len() == 0,
        v.queue.len() < v.opts.queue_limit,
        m.payload@.len() <= v.opts.storepack_sz,
        forall|i: int|
            0 <= i < v.queue.len() ==> (#[trigger] v.queue[i]).pkid != Some(
                next_pkid_after(v.last_pkid),
            ),
    ensures
        ({
            let pkid = next_pkid_after(v.last_pkid);
            let stamped = Box::new(with_pkid(m, pkid));
            let (published, sent) = after_publish(v, m);
            let (acked, outcome) = after_packet(published, IncomingPacket::Puback(pkid));
            &&& sent == Ok::<Option<Box<Message>>, ClientError>(Some(stamped))
            &&& outcome == Ok::<PacketOutcome, ClientError>(PacketOutcome::Acked(stamped))
            &&& acked == (PublisherView { last_pkid: pkid, ..v })
        }),
{
    let pkid = next_pkid_after(v.last_pkid);
    let stamped = Box::new(with_pkid(m, pkid));
    let (published, _) = after_publish(v, m);
    let q = published.queue;
    assert(q == v.queue.push(stamped));
    assert(is_first_match(q, pkid, v.queue.len() as int)) by {
        assert forall|j: int| 0 <= j < v.queue.len() implies q[j].pkid != Some(pkid) by {
            assert(q[j] == v.queue[j]);
        }
    }
    lemma_first_match_unique(q, pkid, v.queue.len() as int);
    assert(q.remove(v.queue.len() as int) =~= v.queue);
}

/// With a persistent session, dropping the connection and completing a new
/// handshake keeps every unacknowledged publish: those that were in flight
/// move, in order, to the front of the backlog, ahead of what waited there.
pub proof fn lemma_persistent_session_retransmits(v: PublisherView, session_present: bool)
    requires
        !v.opts.clean_session,
    ensures
        after_packet(
            after_connect_sent(after_unbind(v)),
            IncomingPacket::Connack { session_present, code: ConnectReturnCode::Accepted },
        ) == (
            PublisherView {
                state: MqttState::Connected,
                initial_connect: false,
                await_pingresp: false,
                queue: Seq::empty(),
                backlog: v.queue + v.backlog,
                ..v
            },
            Ok::<PacketOutcome, ClientError>(PacketOutcome::Connected),
        ),
{
}

/// With a clean session, dropping the connection forgets the publishes in
/// flight, keeps the backlog, and a new handshake connects.
pub proof fn lemma_clean_session_forgets(v: PublisherView, session_present: bool)
    requires
        v.opts.clean_session,
    ensures
        after_unbind(v).queue.len() == 0,
        after_unbind(v).backlog == v.backlog,
        after_packet(
            after_connect_sent(after_unbind(v)),
            IncomingPacket::Connack { session_present, code: ConnectReturnCode::Accepted },
        ).1 == Ok::<PacketOutcome, ClientError>(PacketOutcome::Connected),
{
}

/// A due ping is sent only when the previous one was answered: after a
/// PINGREQ, the next due check before the answer reports `AwaitPingResp`,
/// and once the PINGRESP came the next due check sends again.
pub proof fn lemma_ping_needs_answer(v: PublisherView, first_ms: u64, next_ms: u64)
    requires
        v.state == MqttState::Connected,
        v.opts.keep_alive is Some,
        !v.await_pingresp,
        ping_window(v.opts.keep_alive.unwrap(), first_ms),
        ping_window(v.opts.keep_alive.unwrap(), next_ms),
    ensures
        ({
            let (pinged, sent) = after_ping(v, first_ms);
            &&& sent == Ok::<bool, ClientError>(true)
            &&& after_ping(pinged, next_ms).1 == Err::<bool, ClientError>(
                ClientError::AwaitPingResp,
            )
            &&& after_ping(after_packet(pinged, IncomingPacket::Pingresp).0, next_ms).1 == Ok::<
                bool,
                ClientError,
            >(true)
        }),
{
}

/// Due and not yet expired.
pub open spec fn ping_window(keep_alive: u16, elapsed_ms: u64) -> bool {
    crate::publisher::ping_due(keep_alive, elapsed_ms) && !crate::publisher::ping_expired(
        keep_alive,
        elapsed_ms,
    )
}

/// `n` calls of `next_to_send`.
pub open spec fn after_sends(v: PublisherView, n: nat) -> PublisherView
    decreases n,
{
    if n == 0 {
        v
    } else {
        after_next_to_send(after_sends(v, (n - 1) as nat)).0
    }
}

/// The backlog is sent oldest first: while connected and the memory queue
/// has room, `n` sends move the first `n` backlog entries, in order, to the
/// queue, each under the next identifier.
pub proof fn lemma_backlog_sent_in_order(v: PublisherView, n: nat)
    requires
        v.state == MqttState::Connected,
        v.queue.len() + n <= v.opts.queue_limit,
        n <= v.backlog.len(),
    ensures
        after_sends(v, n).queue == v.queue + Seq::new(
            n,
            |k: int| Box::new(with_pkid(*v.backlog[k], pkid_after(v.last_pkid, (k + 1) as nat))),
        ),
        after_sends(v, n).backlog == v.backlog.skip(n as int),
        after_sends(v, n).last_pkid == pkid_after(v.last_pkid, n),
        after_sends(v, n).state == MqttState::Connected,
        after_sends(v, n).opts == v.opts,
    decreases n,
{
    if n > 0 {
        let m = (n - 1) as nat;
        lemma_backlog_sent_in_order(v, m);
        let prev = after_sends(v, m);
        let f = |k: int| Box::new(with_pkid(*v.backlog[k], pkid_after(v.last_pkid, (k + 1) as nat)));
        assert(prev.backlog[0] == v.backlog[m as int]);
        assert(pkid_after(v.last_pkid, n) == next_pkid_after(pkid_after(v.last_pkid, m)));
        assert(after_sends(v, n).queue =~= v.queue + Seq::new(n, f)) by {
            assert forall|k: int| 0 <= k < m implies Seq::new(m, f)[k] == Seq::new(n, f)[k] by {}
        }
        assert(after_sends(v, n).backlog =~= v.backlog.skip(n as int));
    }
}

/// The bounds: every step keeps the memory queue within `queue_limit`
/// holding only publishes that carry an identifier, and a publish never
/// lets the backlog grow past `backlog_limit`.
pub proof fn lemma_queue_wf_preserved(
    v: PublisherView,
    m: Message,
    packet: IncomingPacket,
    elapsed_ms: u64,
    event: RunEvent,
)
    requires
        queue_wf(v),
    ensures
        queue_wf(after_publish(v, m).0),
        queue_wf(after_next_to_send(v).0),
        queue_wf(after_packet(v, packet).0),
        queue_wf(after_unbind(v)),
        queue_wf(after_connect_sent(v)),
        queue_wf(after_ping(v, elapsed_ms).0),
        queue_wf(after_event(v, event).0),
        after_publish(v, m).0.backlog.len() <= v.backlog.len() || after_publish(v, m).0.backlog.len()
            <= v.opts.backlog_limit,
{
    lemma_wf_publish(v, m);
    let (sent, _) = after_next_to_send(v);
    assert forall|i: int| 0 <= i < sent.queue.len() implies (#[trigger] sent.queue[i]).pkid is Some by {
        if i < v.queue.len() {
            assert(sent.queue[i] == v.queue[i]);
        }
    }
    if let IncomingPacket::Puback(pkid) = packet {
        lemma_wf_puback(v, pkid);
    }
    if let RunEvent::Request(crate::publisher::PublishRequest::Publish(mm)) = event {
        lemma_wf_publish(v, *mm);
    }
}

proof fn lemma_wf_publish(v: PublisherView, m: Message)
    requires
        queue_wf(v),
    ensures
        queue_wf(after_publish(v, m).0),
{
    let (published, _) = after_publish(v, m);
    assert forall|i: int| 0 <= i < published.queue.len() implies (
    #[trigger] published.queue[i]).pkid is Some by {
        if i < v.queue.len() {
            assert(published.queue[i] == v.queue[i]);
        }
    }
}

proof fn lemma_wf_puback(v: PublisherView, pkid: u16)
    requires
        queue_wf(v),
    ensures
        queue_wf(after_puback(v, pkid).0),
{
    let (acked, _) = after_puback(v, pkid);
    assert forall|i: int| 0 <= i < acked.queue.len() implies (#[trigger] acked.queue[i]).pkid is Some by {
        if let Some(p) = ack_position(v.queue, pkid) {
            if i < p {
                assert(acked.queue[i] == v.queue[i]);
            } else {
                assert(acked.queue[i] == v.queue[i + 1]);
            }
        }
    }
}

/// At least once: the unacknowledged publishes, in publish order, change
/// only by a publish appending its message, by a PUBACK removing the
/// publish it acknowledges, and by a clean-session disconnection dropping
/// those in flight. Sending from the backlog, resuming a session, losing the
/// connection of a persistent session, pings and refused packets keep them
/// all, in order.
pub proof fn lemma_pending_contents(
    v: PublisherView,
    m: Message,
    packet: IncomingPacket,
    elapsed_ms: u64,
)
    ensures
        after_publish(v, m).1 is Ok ==> pending_contents(after_publish(v, m).0) == pending_contents(
            v,
        ).push(Message { pkid: None, ..m }),
        after_publish(v, m).1 is Err ==> pending_contents(after_publish(v, m).0)
            == pending_contents(v),
        pending_contents(after_next_to_send(v).0) == pending_contents(v),
        !v.opts.clean_session ==> pending_contents(after_unbind(v)) == pending_contents(v),
        v.opts.clean_session ==> pending_contents(after_unbind(v)) == v.backlog.map_values(
            |b: Box<Message>| unstamped(b),
        ),
        pending_contents(after_connect_sent(v)) == pending_contents(v),
        pending_contents(after_ping(v, elapsed_ms).0) == pending_contents(v),
        match packet {
            IncomingPacket::Puback(pkid) => match ack_position(v.queue, pkid) {
                Some(i) => pending_contents(after_packet(v, packet).0) == if v.state
                    == MqttState::Connected {
                    pending_contents(v).remove(i)
                } else {
                    pending_contents(v)
                },
                None => pending_contents(after_packet(v, packet).0) == pending_contents(v),
            },
            _ => pending_contents(after_packet(v, packet).0) == pending_contents(v),
        },
{
    let (published, r) = after_publish(v, m);
    if r is Ok {
        assert(published.queue + published.backlog =~= (v.queue + v.backlog).push(
            if published.backlog.len() > v.backlog.len() {
                Box::new(m)
            } else {
                Box::new(with_pkid(m, next_pkid_after(v.last_pkid)))
            },
        ));
        assert(pending_contents(published) =~= pending_contents(v).push(Message { pkid: None, ..m }));
    }
    let (sent, o) = after_next_to_send(v);
    if o is Some {
        assert(sent.queue + sent.backlog =~= (v.queue + v.backlog).update(
            v.queue.len() as int,
            sent.queue[v.queue.len() as int],
        ));
        assert(pending_contents(sent) =~= pending_contents(v));
    }
    if v.opts.clean_session {
        assert(after_unbind(v).queue + after_unbind(v).backlog =~= v.backlog);
    }
    let (after, _) = after_packet(v, packet);
    match packet {
        IncomingPacket::Puback(pkid) => {
            if let Some(i) = ack_position(v.queue, pkid) {
                if v.state == MqttState::Connected {
                    assert(after.queue + after.backlog =~= (v.queue + v.backlog).remove(i));
                    assert(pending_contents(after) =~= pending_contents(v).remove(i));
                }
            }
        },
        IncomingPacket::Connack { session_present: _, code } => {
            if v.state == MqttState::Handshake && code == ConnectReturnCode::Accepted
                && !v.opts.clean_session {
                assert(after.queue + after.backlog =~= v.queue + v.backlog);
            }
        },
        _ => {},
    }
}

/// A retransmission cut short loses nothing: with a persistent session,
/// however many backlog entries were sent before the connection broke, the
/// unacknowledged publishes are all still there, in publish order, for the
/// next connection.
pub proof fn lemma_interrupted_sending_loses_nothing(v: PublisherView, n: nat)
    requires
        !v.opts.clean_session,
    ensures
        pending_contents(after_unbind(after_sends(v, n))) == pending_contents(v),
{
    lemma_sends_keep_contents(v, n);
    let m: Message = arbitrary();
    lemma_pending_contents(after_sends(v, n), m, IncomingPacket::Other, 0);
    lemma_sends_keep_opts(v, n);
}

proof fn lemma_sends_keep_contents(v: PublisherView, n: nat)
    ensures
        pending_contents(after_sends(v, n)) == pending_contents(v),
    decreases n,
{
    if n > 0 {
        lemma_sends_keep_contents(v, (n - 1) as nat);
        let m: Message = arbitrary();
        lemma_pending_contents(after_sends(v, (n - 1) as nat), m, IncomingPacket::Other, 0);
    }
}

proof fn lemma_sends_keep_opts(v: PublisherView, n: nat)
    ensures
        after_sends(v, n).opts == v.opts,
    decreases n,
{
    if n > 0 {
        lemma_sends_keep_opts(v, (n - 1) as nat);
    }
}

/// Resuming a persistent session sends every unacknowledged publish again,
/// oldest first and before anything that waited in the backlog: the first
/// sends after the handshake put exactly the publishes that were in flight
/// back in flight, in order, under fresh identifiers.
pub proof fn lemma_reconnect_resends_unacked_first(v: PublisherView, session_present: bool)
    requires
        !v.opts.clean_session,
        queue_wf(v),
    ensures
        ({
            let (resumed, outcome) = after_packet(
                after_connect_sent(after_unbind(v)),
                IncomingPacket::Connack { session_present, code: ConnectReturnCode::Accepted },
            );
            let resent = after_sends(resumed, v.queue.len());
            &&& outcome == Ok::<PacketOutcome, ClientError>(PacketOutcome::Connected)
            &&& resent.queue == Seq::new(
                v.queue.len(),
                |k: int| Box::new(with_pkid(*v.queue[k], pkid_after(v.last_pkid, (k + 1) as nat))),
            )
            &&& resent.backlog == v.backlog
        }),
{
    lemma_persistent_session_retransmits(v, session_present);
    let (resumed, _) = after_packet(
        after_connect_sent(after_unbind(v)),
        IncomingPacket::Connack { session_present, code: ConnectReturnCode::Accepted },
    );
    let n = v.queue.len();
    lemma_backlog_sent_in_order(resumed, n);
    let f = |k: int| Box::new(with_pkid(*resumed.backlog[k], pkid_after(v.last_pkid, (k + 1) as nat)));
    let g = |k: int| Box::new(with_pkid(*v.queue[k], pkid_after(v.last_pkid, (k + 1) as nat)));
    assert(Seq::<Box<Message>>::empty() + Seq::new(n, f) =~= Seq::new(n, g)) by {
        assert forall|k: int| 0 <= k < n implies resumed.backlog[k] == v.queue[k] by {}
    }
    assert((v.queue + v.backlog).skip(n as int) =~= v.backlog);
}

} // verus!
