//! What each step of the publisher does, stated over its inputs and
//! results.

use vstd::prelude::*;

use crate::callback::Message;
use crate::error::{ClientError, ConnectReturnCode};
use crate::publisher::{
    after_connect_sent, after_event, after_next_to_send, after_packet, after_ping, after_publish,
    after_unbind, next_pkid_after, with_valid_topics, IncomingPacket, PacketOutcome,
    PublishRequest, PublisherView, RunAction, RunEvent,
};
use crate::topic::{is_wildcard, topic_path_valid};
use crate::MqttState;

verus! {

/// Packet identifiers count up by one and wrap from 65535 to 1.
pub proof fn law_next_pkid(last: u16)
    ensures
        next_pkid_after(last) as int == last as int % 65535 + 1,
{
}

/// A publish that goes straight to the memory queue (the backlog is empty
/// and the queue has room) takes the next identifier. Within the size limit
/// it joins the back of the queue, and it is handed back to be written
/// exactly when connected; over the limit it is dropped with
/// `PacketSizeLimitExceeded`. Nothing else changes.
pub proof fn law_publish_direct(v: PublisherView, m: Message)
    requires
        v.backlog.len() == 0,
        v.queue.len() < v.opts.queue_limit,
    ensures
        ({
            let (w, r) = after_publish(v, m);
            let pkid: u16 = if v.last_pkid == 65535 {
                1
            } else {
                (v.last_pkid + 1) as u16
            };
            let stamped = Message { pkid: Some(pkid), ..m };
            &&& w.last_pkid == pkid
            &&& w.opts == v.opts
            &&& w.state == v.state
            &&& w.initial_connect == v.initial_connect
            &&& w.await_pingresp == v.await_pingresp
            &&& w.backlog == v.backlog
            &&& w.no_of_reconnections == v.no_of_reconnections
            &&& m.payload@.len() > v.opts.storepack_sz ==> {
                &&& r == Err::<Option<Box<Message>>, ClientError>(
                    ClientError::PacketSizeLimitExceeded,
                )
                &&& w.queue == v.queue
            }
            &&& m.payload@.len() <= v.opts.storepack_sz ==> {
                &&& w.queue == v.queue.push(Box::new(stamped))
                &&& (v.state == MqttState::Connected ==> r == Ok::<
                    Option<Box<Message>>,
                    ClientError,
                >(Some(Box::new(stamped))))
                &&& (v.state != MqttState::Connected ==> r == Ok::<
                    Option<Box<Message>>,
                    ClientError,
                >(None))
            }
        }),
{
}

/// A publish that meets older publishes in the backlog or a full memory
/// queue goes, unchanged and without taking an identifier, to the back of
/// the backlog exactly while the backlog holds fewer than `backlog_limit`
/// publishes, and is dropped with `BacklogFull` only once it holds that
/// many. Nothing is written, and nothing else changes.
pub proof fn law_publish_backed_up(v: PublisherView, m: Message)
    requires
        v.backlog.len() > 0 || v.queue.len() >= v.opts.queue_limit,
        m.payload@.len() <= v.opts.storepack_sz,
    ensures
        v.backlog.len() < v.opts.backlog_limit ==> after_publish(v, m) == (
            PublisherView { backlog: v.backlog.push(Box::new(m)), ..v },
            Ok::<Option<Box<Message>>, ClientError>(None),
        ),
        v.backlog.len() >= v.opts.backlog_limit ==> after_publish(v, m) == (
            v,
            Err::<Option<Box<Message>>, ClientError>(ClientError::BacklogFull),
        ),
{
}

/// An oversized payload on the way to the backlog is dropped with
/// `PacketSizeLimitExceeded` and changes nothing.
pub proof fn law_publish_backed_up_oversized(v: PublisherView, m: Message)
    requires
        v.backlog.len() > 0 || v.queue.len() >= v.opts.queue_limit,
        m.payload@.len() > v.opts.storepack_sz,
    ensures
        after_publish(v, m) == (
            v,
            Err::<Option<Box<Message>>, ClientError>(ClientError::PacketSizeLimitExceeded),
        ),
{
}

/// Sending from the backlog: when connected with room in the memory queue,
/// the oldest backlog entry leaves the backlog, takes the next identifier,
/// joins the back of the queue and is the one handed back to be written;
/// otherwise nothing is sent and nothing changes.
pub proof fn law_next_to_send(v: PublisherView)
    ensures
        ({
            let (w, r) = after_next_to_send(v);
            if v.state == MqttState::Connected && v.queue.len() < v.opts.queue_limit
                && v.backlog.len() > 0 {
                let pkid: u16 = if v.last_pkid == 65535 {
                    1
                } else {
                    (v.last_pkid + 1) as u16
                };
                let stamped = Box::new(Message { pkid: Some(pkid), ..*v.backlog[0] });
                &&& r == Some(stamped)
                &&& w == PublisherView {
                    last_pkid: pkid,
                    queue: v.queue.push(stamped),
                    backlog: v.backlog.subrange(1, v.backlog.len() as int),
                    ..v
                }
            } else {
                r is None && w == v
            }
        }),
{
    let (w, _) = after_next_to_send(v);
    if v.state == MqttState::Connected && v.queue.len() < v.opts.queue_limit && v.backlog.len()
        > 0 {
        assert(w.backlog =~= v.backlog.subrange(1, v.backlog.len() as int));
    }
}

/// The network loop's decision for each event: a timeout checks the
/// keep-alive and waits, a shutdown or disconnect request is carried out,
/// a closed channel stops the loop, all without changing the state; a
/// publish request is published, and the action writes exactly the message
/// that the publish hands back (the request's own message, stamped), waits
/// when the publish was only queued, and skips the wait when it was refused.
pub proof fn law_on_event(v: PublisherView, m: Box<Message>)
    ensures
        after_event(v, RunEvent::TimedOut) == (v, RunAction::PingThenAwait),
        after_event(v, RunEvent::ChannelClosed) == (v, RunAction::Stop),
        after_event(v, RunEvent::Request(PublishRequest::Shutdown)) == (
            v,
            RunAction::ShutdownStream,
        ),
        after_event(v, RunEvent::Request(PublishRequest::Disconnect)) == (
            v,
            RunAction::SendDisconnect,
        ),
        ({
            let (w, a) = after_event(v, RunEvent::Request(PublishRequest::Publish(m)));
            let (pw, pr) = after_publish(v, *m);
            &&& w == pw
            &&& match pr {
                Ok(Some(s)) => a == RunAction::WriteThenAwait(s),
                Ok(None) => a is Await,
                Err(_) => a is SkipWait,
            }
        }),
{
}

/// A publish request handled while connected, with an empty backlog and
/// room in the memory queue, writes the request's own message under the
/// next packet identifier and then waits.
pub proof fn law_on_event_writes_new_publish(v: PublisherView, m: Box<Message>)
    requires
        v.state == MqttState::Connected,
        v.backlog.len() == 0,
        v.queue.len() < v.opts.queue_limit,
        m.payload@.len() <= v.opts.storepack_sz,
    ensures
        ({
            let pkid: u16 = if v.last_pkid == 65535 {
                1
            } else {
                (v.last_pkid + 1) as u16
            };
            let stamped = Box::new(Message { pkid: Some(pkid), ..*m });
            let (w, a) = after_event(v, RunEvent::Request(PublishRequest::Publish(m)));
            &&& a == RunAction::WriteThenAwait(stamped)
            &&& w.queue == v.queue.push(stamped)
            &&& w.last_pkid == pkid
        }),
{
    law_publish_direct(v, *m);
}

/// Restoring keeps exactly the publishes whose topic path is valid, in
/// their order (whatever their topics repeat): the backlog is the pending
/// list filtered by topic validity.
pub proof fn law_restore_keeps_valid(q: Seq<Box<Message>>)
    ensures
        with_valid_topics(q) == q.filter(|m: Box<Message>| topic_path_valid(m.topic@)),
    decreases q.len(),
{
    reveal(Seq::filter);
    if q.len() > 0 {
        law_restore_keeps_valid(q.drop_last());
    }
}

/// When every pending publish has a valid topic, restoring keeps them all,
/// in order.
pub proof fn law_restore_keeps_all_valid(q: Seq<Box<Message>>)
    requires
        forall|i: int| 0 <= i < q.len() ==> topic_path_valid(#[trigger] q[i].topic@),
    ensures
        with_valid_topics(q) == q,
    decreases q.len(),
{
    if q.len() > 0 {
        let p = q.drop_last();
        assert forall|i: int| 0 <= i < p.len() implies topic_path_valid(#[trigger] p[i].topic@) by {
            assert(p[i] == q[i]);
        }
        law_restore_keeps_all_valid(p);
        assert(p.push(q.last()) =~= q);
    }
}

/// The keep-alive check. It does nothing unless connected with a keep-alive
/// of `k` seconds and `k * 900` ms have passed since the last write. Once
/// `(k + 1) * 1000` ms have passed, it reports `PingTimeout`, whether or not
/// a ping is awaited; before that, an unanswered ping gives `AwaitPingResp`,
/// and otherwise a PINGREQ is to be sent and its answer awaited. Only that
/// last case changes the state.
pub proof fn law_ping(v: PublisherView, elapsed_ms: u64)
    ensures
        ({
            let (w, r) = after_ping(v, elapsed_ms);
            match (v.state, v.opts.keep_alive) {
                (MqttState::Connected, Some(k)) => {
                    if elapsed_ms < k as int * 900 {
                        w == v && r == Ok::<bool, ClientError>(false)
                    } else if elapsed_ms >= (k as int + 1) * 1000 {
                        w == v && r == Err::<bool, ClientError>(ClientError::PingTimeout)
                    } else if v.await_pingresp {
                        w == v && r == Err::<bool, ClientError>(ClientError::AwaitPingResp)
                    } else {
                        w == PublisherView { await_pingresp: true, ..v } && r == Ok::<
                            bool,
                            ClientError,
                        >(true)
                    }
                },
                _ => w == v && r == Ok::<bool, ClientError>(false),
            }
        }),
{
}

/// Losing the connection: disconnected, no ping awaited, the publishes in
/// flight dropped only for a clean session; the backlog, the identifiers,
/// the options and whether the first connection was ever made all stay, so
/// every later connection waits out the reconnect delay.
pub proof fn law_unbind(v: PublisherView)
    ensures
        ({
            let w = after_unbind(v);
            &&& w.state == MqttState::Disconnected
            &&& !w.await_pingresp
            &&& w.initial_connect == v.initial_connect
            &&& w.opts == v.opts
            &&& w.last_pkid == v.last_pkid
            &&& w.backlog == v.backlog
            &&& w.no_of_reconnections == v.no_of_reconnections
            &&& (v.opts.clean_session ==> w.queue.len() == 0)
            &&& (!v.opts.clean_session ==> w.queue == v.queue)
        }),
{
}

/// After a completed handshake, losing the connection and starting a new
/// handshake never brings back the first-connection state: the reconnect
/// waits, whatever the session kind.
pub proof fn law_reconnect_after_handshake(v: PublisherView, session_present: bool)
    requires
        v.state == MqttState::Handshake,
    ensures
        ({
            let connected = after_packet(
                v,
                IncomingPacket::Connack { session_present, code: ConnectReturnCode::Accepted },
            ).0;
            &&& !connected.initial_connect
            &&& !after_connect_sent(after_unbind(connected)).initial_connect
        }),
{
}

/// A CONNACK during the handshake: a refusal is reported with its code and
/// changes nothing; an acceptance connects, marks the first connection as
/// made, keeps the identifiers, options and ping flag, and keeps every
/// unacknowledged publish: for a clean session where it was, for a
/// persistent one moved, in order, in front of the backlog.
pub proof fn law_connack(v: PublisherView, session_present: bool, code: ConnectReturnCode)
    requires
        v.state == MqttState::Handshake,
    ensures
        ({
            let (w, r) = after_packet(v, IncomingPacket::Connack { session_present, code });
            &&& code != ConnectReturnCode::Accepted ==> w == v && r == Err::<
                PacketOutcome,
                ClientError,
            >(ClientError::MqttConnectionRefused(code))
            &&& code == ConnectReturnCode::Accepted ==> {
                &&& r == Ok::<PacketOutcome, ClientError>(PacketOutcome::Connected)
                &&& w.state == MqttState::Connected
                &&& !w.initial_connect
                &&& w.opts == v.opts
                &&& w.last_pkid == v.last_pkid
                &&& w.await_pingresp == v.await_pingresp
                &&& w.no_of_reconnections == v.no_of_reconnections
                &&& (v.opts.clean_session ==> w.queue == v.queue && w.backlog == v.backlog)
                &&& (!v.opts.clean_session ==> w.queue.len() == 0 && w.backlog == v.queue
                    + v.backlog)
            }
        }),
{
}

/// Packets outside what a state allows: every packet is refused with
/// `ConnectionAbort` while disconnected, and every packet but a CONNACK
/// during the handshake; neither changes anything.
pub proof fn law_packet_refused(v: PublisherView, packet: IncomingPacket)
    requires
        v.state == MqttState::Disconnected || (v.state == MqttState::Handshake
            && !(packet is Connack)),
    ensures
        after_packet(v, packet) == (
            v,
            Err::<PacketOutcome, ClientError>(ClientError::ConnectionAbort),
        ),
{
}

/// Packets while connected: a PINGREQ's answer ends the wait for it and
/// changes nothing else; a PUBACK releases the oldest queued publish with
/// its identifier and hands it back, keeping the rest of the queue in
/// order, or, when none carries it, changes nothing; anything else is
/// ignored.
pub proof fn law_packet_connected(v: PublisherView, packet: IncomingPacket)
    requires
        v.state == MqttState::Connected,
    ensures
        ({
            let (w, r) = after_packet(v, packet);
            match packet {
                IncomingPacket::Pingresp => w == PublisherView { await_pingresp: false, ..v }
                    && r == Ok::<PacketOutcome, ClientError>(PacketOutcome::Handled),
                IncomingPacket::Puback(pkid) => {
                    ||| {
                        &&& forall|j: int| 0 <= j < v.queue.len() ==> v.queue[j].pkid != Some(pkid)
                        &&& w == v
                        &&& r == Ok::<PacketOutcome, ClientError>(PacketOutcome::Handled)
                    }
                    ||| exists|i: int|
                        {
                            &&& 0 <= i < v.queue.len()
                            &&& (#[trigger] v.queue[i]).pkid == Some(pkid)
                            &&& forall|j: int| 0 <= j < i ==> v.queue[j].pkid != Some(pkid)
                            &&& r == Ok::<PacketOutcome, ClientError>(
                                PacketOutcome::Acked(v.queue[i]),
                            )
                            &&& w == PublisherView { queue: v.queue.remove(i), ..v }
                        }
                },
                _ => w == v && r == Ok::<PacketOutcome, ClientError>(PacketOutcome::Handled),
            }
        }),
{
    if let IncomingPacket::Puback(pkid) = packet {
        let (w, r) = after_packet(v, packet);
        match crate::publisher::ack_position(v.queue, pkid) {
            Some(i) => {
                let k = choose|k: int| crate::publisher::is_first_match(v.queue, pkid, k);
                assert(crate::publisher::is_first_match(v.queue, pkid, k));
                assert(w == PublisherView { queue: v.queue.remove(k), ..v });
            },
            None => {
                assert forall|j: int| 0 <= j < v.queue.len() implies v.queue[j].pkid != Some(
                    pkid,
                ) by {
                    if v.queue[j].pkid == Some(pkid) {
                        let j0 = first_with(v.queue, pkid, j);
                        assert(crate::publisher::is_first_match(v.queue, pkid, j0));
                    }
                }
            },
        }
    }
}

/// Some position at or before `j` holds the oldest publish with `pkid`.
proof fn first_with(q: Seq<Box<Message>>, pkid: u16, j: int) -> (i: int)
    requires
        0 <= j < q.len(),
        q[j].pkid == Some(pkid),
    ensures
        crate::publisher::is_first_match(q, pkid, i),
    decreases j,
{
    if exists|k: int| 0 <= k < j && q[k].pkid == Some(pkid) {
        let k = choose|k: int| 0 <= k < j && q[k].pkid == Some(pkid);
        first_with(q, pkid, k)
    } else {
        j
    }
}

/// Starting a handshake changes only the state, to `Handshake`.
pub proof fn law_connect_sent(v: PublisherView)
    ensures
        after_connect_sent(v).state == MqttState::Handshake,
        after_connect_sent(v) == (PublisherView { state: after_connect_sent(v).state, ..v }),
{
}

/// Topic paths: one without `+` or `#` is always valid; a lone `+` or `#`
/// is valid; a `+` or `#` next to anything but a `/` (inside a level) makes
/// the path invalid.
pub proof fn law_topic_path(path: Seq<char>)
    ensures
        (forall|i: int| 0 <= i < path.len() ==> !is_wildcard(#[trigger] path[i]))
            ==> topic_path_valid(path),
        topic_path_valid(seq!['+']),
        topic_path_valid(seq!['#']),
        (exists|i: int|
            0 < i < path.len() && #[trigger] is_wildcard(path[i]) && path[i - 1] != '/')
            ==> !topic_path_valid(path),
        (exists|i: int|
            0 <= i && i + 1 < path.len() && #[trigger] is_wildcard(path[i]) && path[i + 1]
                != '/') ==> !topic_path_valid(path),
{
}

} // verus!
