use std::collections::VecDeque;
use vstd::prelude::*;

use crate::callback::Message;
use crate::clientoptions::MqttOptions;
use crate::error::{ClientError, ConnectReturnCode, Result};
use crate::topic::{topic_path_from_str, topic_path_valid};
use crate::MqttState;

verus! {

/// What the user side of the client asks the network side to do.
#[derive(Debug)]
pub enum PublishRequest {
    Publish(Box<Message>),
    Shutdown,
    Disconnect,
}

/// The fields of an MQTT 3.1.1 CONNECT packet (protocol level 4, no last will).
#[derive(Debug)]
pub struct ConnectPacket {
    pub keep_alive: u16,
    pub client_id: String,
    pub clean_session: bool,
    pub username: Option<String>,
    pub password: Option<String>,
}

/// A packet read from the broker, as far as the publishing side looks at it.
#[derive(Debug, Clone, Copy, PartialEq, Eq, Structural)]
pub enum IncomingPacket {
    Connack { session_present: bool, code: ConnectReturnCode },
    Puback(u16),
    Pingresp,
    Disconnect,
    /// Any other packet type.
    Other,
}

/// Where the network loop is: handing requests to the broker, or making
/// the connection again.
#[derive(Debug, Clone, Copy, PartialEq, Eq, Structural)]
pub enum RunPhase {
    Publishing,
    Reconnecting,
}

/// What the network loop is told to do next.
#[derive(Debug)]
pub enum RunEvent {
    /// A request from the user side.
    Request(PublishRequest),
    /// No request came within the keep-alive interval.
    TimedOut,
    /// The user side is gone.
    ChannelClosed,
}

/// What the network loop does for an event.
#[derive(Debug)]
pub enum RunAction {
    /// Check the keep-alive (see `ping`), then wait for a packet.
    PingThenAwait,
    /// Shut the network stream down.
    ShutdownStream,
    /// Write a DISCONNECT packet.
    SendDisconnect,
    /// Write this publish; when the write succeeds, wait for a packet.
    WriteThenAwait(Box<Message>),
    /// Nothing to write now; wait for a packet.
    Await,
    /// The publish was refused; go on without waiting.
    SkipWait,
    /// Leave the loop with an error.
    Stop,
}

/// What is left to do after a packet from the broker was handled.
#[derive(Debug)]
pub enum PacketOutcome {
    /// Nothing.
    Handled,
    /// The broker acknowledged this publish, which left the queue.
    Acked(Box<Message>),
    /// The handshake completed; what waits in the backlog (for a resumed
    /// session, the unacknowledged publishes first) is to be sent with
    /// `next_to_send`.
    Connected,
}

/// The publishing side of the client: connection state, packet identifiers,
/// the bounded queue of publishes that wait for their PUBACK, and the
/// backlog of publishes not sent yet, oldest first.
#[derive(Debug)]
pub struct Publisher {
    pub opts: MqttOptions,
    pub state: MqttState,
    pub initial_connect: bool,
    pub await_pingresp: bool,
    pub last_pkid: u16,
    pub outgoing_pub: VecDeque<Box<Message>>,
    pub backlog: VecDeque<Box<Message>>,
    pub no_of_reconnections: u32,
}

impl View for Publisher {
    type V = PublisherView;

    open spec fn view(&self) -> PublisherView {
        PublisherView {
            opts: self.opts,
            state: self.state,
            initial_connect: self.initial_connect,
            await_pingresp: self.await_pingresp,
            last_pkid: self.last_pkid,
            queue: self.outgoing_pub@,
            backlog: self.backlog@,
            no_of_reconnections: self.no_of_reconnections,
        }
    }
}

/// The abstract state of a `Publisher`: its fields, with the queue of
/// unacknowledged publishes and the backlog as sequences, oldest first.
pub struct PublisherView {
    pub opts: MqttOptions,
    pub state: MqttState,
    pub initial_connect: bool,
    pub await_pingresp: bool,
    pub last_pkid: u16,
    pub queue: Seq<Box<Message>>,
    pub backlog: Seq<Box<Message>>,
    pub no_of_reconnections: u32,
}

/// The packet identifier that follows `last`: identifiers run from 1 to
/// 65535 and then start again at 1; 0 is never used.
pub open spec fn next_pkid_after(last: u16) -> u16 {
    if last == 65535 {
        1
    } else {
        (last + 1) as u16
    }
}

/// The identifier handed out by the `n`-th call of `next_pkid` after `last`.
pub open spec fn pkid_after(last: u16, n: nat) -> u16
    decreases n,
{
    if n == 0 {
        last
    } else {
        next_pkid_after(pkid_after(last, (n - 1) as nat))
    }
}

/// The publishes of `q` whose topic path is valid, in order.
pub open spec fn with_valid_topics(q: Seq<Box<Message>>) -> Seq<Box<Message>>
    decreases q.len(),
{
    if q.len() == 0 {
        q
    } else {
        let rest = with_valid_topics(q.drop_last());
        if topic_path_valid(q.last().topic@) {
            rest.push(q.last())
        } else {
            rest
        }
    }
}

/// `m` carrying the packet identifier `pkid`.
pub open spec fn with_pkid(m: Message, pkid: u16) -> Message {
    Message { pkid: Some(pkid), ..m }
}

/// `i` is the position of the oldest queued publish with identifier `pkid`.
pub open spec fn is_first_match(q: Seq<Box<Message>>, pkid: u16, i: int) -> bool {
    &&& 0 <= i < q.len()
    &&& q[i].pkid == Some(pkid)
    &&& forall|j: int| 0 <= j < i ==> q[j].pkid != Some(pkid)
}

/// The position of the oldest queued publish with identifier `pkid`, if any.
pub open spec fn ack_position(q: Seq<Box<Message>>, pkid: u16) -> Option<int> {
    if exists|i: int| is_first_match(q, pkid, i) {
        Some(choose|i: int| is_first_match(q, pkid, i))
    } else {
        None
    }
}

/// A ping is due once 90% of the keep-alive interval has passed.
pub open spec fn ping_due(keep_alive: u16, elapsed_ms: u64) -> bool {
    elapsed_ms >= keep_alive as int * 900
}

/// The connection is given up once the keep-alive interval plus one second
/// has passed without a write.
pub open spec fn ping_expired(keep_alive: u16, elapsed_ms: u64) -> bool {
    elapsed_ms >= (keep_alive as int + 1) * 1000
}

/// The memory queue stays within its limit and holds only publishes that
/// carry an identifier.
pub open spec fn queue_wf(v: PublisherView) -> bool {
    &&& v.queue.len() <= v.opts.queue_limit
    &&& forall|i: int| 0 <= i < v.queue.len() ==> (#[trigger] v.queue[i]).pkid is Some
}

/// `m` without a packet identifier: the message as the user handed it over.
pub open spec fn unstamped(m: Box<Message>) -> Message {
    Message { pkid: None, ..*m }
}

/// Every publish not yet acknowledged, in publish order: those in flight,
/// then the backlog.
pub open spec fn pending_contents(v: PublisherView) -> Seq<Message> {
    (v.queue + v.backlog).map_values(|m: Box<Message>| unstamped(m))
}

/// `publish`. While the backlog is empty and the memory queue has room, the
/// message takes the next identifier; an oversized payload is dropped, any
/// other joins the back of the queue and is to be written at once when
/// connected. Otherwise the message goes, without an identifier, to the
/// back of the backlog, unless its payload is oversized or the backlog is
/// full (`BacklogFull`): then it is dropped.
pub open spec fn after_publish(v: PublisherView, m: Message) -> (
    PublisherView,
    Result<Option<Box<Message>>>,
) {
    let pkid = next_pkid_after(v.last_pkid);
    let stamped = Box::new(with_pkid(m, pkid));
    if v.backlog.len() > 0 || v.queue.len() >= v.opts.queue_limit {
        if m.payload@.len() > v.opts.storepack_sz {
            (v, Err(ClientError::PacketSizeLimitExceeded))
        } else if v.backlog.len() >= v.opts.backlog_limit {
            (v, Err(ClientError::BacklogFull))
        } else {
            (PublisherView { backlog: v.backlog.push(Box::new(m)), ..v }, Ok(None))
        }
    } else if m.payload@.len() > v.opts.storepack_sz {
        (PublisherView { last_pkid: pkid, ..v }, Err(ClientError::PacketSizeLimitExceeded))
    } else {
        (
            PublisherView { last_pkid: pkid, queue: v.queue.push(stamped), ..v },
            Ok(
                if v.state == MqttState::Connected {
                    Some(stamped)
                } else {
                    None
                },
            ),
        )
    }
}

/// A PUBACK: the oldest publish with that identifier leaves the queue.
pub open spec fn after_puback(v: PublisherView, pkid: u16) -> (PublisherView, Option<
    Box<Message>,
>) {
    match ack_position(v.queue, pkid) {
        Some(i) => (PublisherView { queue: v.queue.remove(i), ..v }, Some(v.queue[i])),
        None => (v, None),
    }
}

/// `unbind`: disconnected, no ping awaited, the memory queue dropped only
/// for a clean session; the backlog stays.
pub open spec fn after_unbind(v: PublisherView) -> PublisherView {
    PublisherView {
        await_pingresp: false,
        state: MqttState::Disconnected,
        queue: if v.opts.clean_session {
            Seq::empty()
        } else {
            v.queue
        },
        ..v
    }
}

/// `connect_sent`: the handshake has begun.
pub open spec fn after_connect_sent(v: PublisherView) -> PublisherView {
    PublisherView { state: MqttState::Handshake, ..v }
}

/// `next_to_send`: when connected and the memory queue has room, the oldest
/// backlog entry takes the next identifier, joins the queue and is to be
/// written.
pub open spec fn after_next_to_send(v: PublisherView) -> (PublisherView, Option<Box<Message>>) {
    if v.state == MqttState::Connected && v.queue.len() < v.opts.queue_limit && v.backlog.len()
        > 0 {
        let pkid = next_pkid_after(v.last_pkid);
        let stamped = Box::new(with_pkid(*v.backlog[0], pkid));
        (
            PublisherView {
                last_pkid: pkid,
                queue: v.queue.push(stamped),
                backlog: v.backlog.drop_first(),
                ..v
            },
            Some(stamped),
        )
    } else {
        (v, None)
    }
}

/// A CONNACK during the handshake. On acceptance of a persistent session,
/// the unacknowledged publishes move, in order, to the front of the backlog
/// to be sent again before anything newer.
pub open spec fn after_connack(v: PublisherView, code: ConnectReturnCode) -> (
    PublisherView,
    Result<PacketOutcome>,
) {
    if code != ConnectReturnCode::Accepted {
        (v, Err(ClientError::MqttConnectionRefused(code)))
    } else {
        let connected = PublisherView {
            initial_connect: false,
            state: MqttState::Connected,
            ..v
        };
        if v.opts.clean_session {
            (connected, Ok(PacketOutcome::Connected))
        } else {
            (
                PublisherView { queue: Seq::empty(), backlog: v.queue + v.backlog, ..connected },
                Ok(PacketOutcome::Connected),
            )
        }
    }
}

/// `handle_packet`.
pub open spec fn after_packet(v: PublisherView, packet: IncomingPacket) -> (
    PublisherView,
    Result<PacketOutcome>,
) {
    match v.state {
        MqttState::Handshake => match packet {
            IncomingPacket::Connack { session_present: _, code } => after_connack(v, code),
            _ => (v, Err(ClientError::ConnectionAbort)),
        },
        MqttState::Connected => match packet {
            IncomingPacket::Pingresp => (
                PublisherView { await_pingresp: false, ..v },
                Ok(PacketOutcome::Handled),
            ),
            IncomingPacket::Puback(pkid) => {
                let (acked, m) = after_puback(v, pkid);
                (
                    acked,
                    match m {
                        Some(m) => Ok(PacketOutcome::Acked(m)),
                        None => Ok(PacketOutcome::Handled),
                    },
                )
            },
            _ => (v, Ok(PacketOutcome::Handled)),
        },
        MqttState::Disconnected => (v, Err(ClientError::ConnectionAbort)),
    }
}

/// `ping`: `Ok(true)` to send a PINGREQ, `Ok(false)` to do nothing.
pub open spec fn after_ping(v: PublisherView, elapsed_ms: u64) -> (PublisherView, Result<bool>) {
    match (v.state, v.opts.keep_alive) {
        (MqttState::Connected, Some(k)) => {
            if !ping_due(k, elapsed_ms) {
                (v, Ok(false))
            } else if ping_expired(k, elapsed_ms) {
                (v, Err(ClientError::PingTimeout))
            } else if v.await_pingresp {
                (v, Err(ClientError::AwaitPingResp))
            } else {
                (PublisherView { await_pingresp: true, ..v }, Ok(true))
            }
        },
        _ => (v, Ok(false)),
    }
}

/// The network loop's action for an event while publishing.
pub open spec fn after_event(v: PublisherView, event: RunEvent) -> (PublisherView, RunAction) {
    match event {
        RunEvent::TimedOut => (v, RunAction::PingThenAwait),
        RunEvent::ChannelClosed => (v, RunAction::Stop),
        RunEvent::Request(PublishRequest::Shutdown) => (v, RunAction::ShutdownStream),
        RunEvent::Request(PublishRequest::Disconnect) => (v, RunAction::SendDisconnect),
        RunEvent::Request(PublishRequest::Publish(m)) => {
            let (published, r) = after_publish(v, *m);
            (
                published,
                match r {
                    Err(_) => RunAction::SkipWait,
                    Ok(Some(stamped)) => RunAction::WriteThenAwait(stamped),
                    Ok(None) => RunAction::Await,
                },
            )
        },
    }
}

/// An acknowledgement lands on the oldest queued publish with its identifier.
pub proof fn lemma_first_match_unique(q: Seq<Box<Message>>, pkid: u16, i: int)
    requires
        is_first_match(q, pkid, i),
    ensures
        ack_position(q, pkid) == Some(i),
{
    let k = choose|k: int| is_first_match(q, pkid, k);
    assert(is_first_match(q, pkid, k));
    if k < i {
        assert(q[k].pkid != Some(pkid));
    } else if k > i {
        assert(q[i].pkid != Some(pkid));
    }
}


impl Publisher {
    /// A publisher that is not connected yet, with an empty queue and an
    /// empty backlog.
    pub fn new(opts: MqttOptions) -> (p: Publisher)
        ensures
            p@ == (PublisherView {
                opts,
                state: MqttState::Disconnected,
                initial_connect: true,
                await_pingresp: false,
                last_pkid: 0,
                queue: Seq::empty(),
                backlog: Seq::empty(),
                no_of_reconnections: 0,
            }),
    {
        Self::restore(opts, VecDeque::new())
    }

    /// A publisher that is not connected yet, whose backlog holds `pending`
    /// (publishes kept from an earlier run), in order, to be sent before
    /// anything published later; entries whose topic mqtt3 refuses are
    /// left out.
    pub fn restore(opts: MqttOptions, pending: VecDeque<Box<Message>>) -> (p: Publisher)
        ensures
            p@ == (PublisherView {
                opts,
                state: MqttState::Disconnected,
                initial_connect: true,
                await_pingresp: false,
                last_pkid: 0,
                queue: Seq::empty(),
                backlog: with_valid_topics(pending@),
                no_of_reconnections: 0,
            }),
    {
        let ghost all = pending@;
        let mut rest = pending;
        let mut kept: VecDeque<Box<Message>> = VecDeque::new();
        let n = rest.len();
        let mut i: usize = 0;
        while i < n
            invariant
                n == all.len(),
                i <= n,
                rest@ == all.skip(i as int),
                kept@ == with_valid_topics(all.take(i as int)),
            decreases n - i,
        {
            let ghost before = rest@;
            let next = rest.pop_front();
            proof {
                assert(before.len() > 0);
                assert(all.take(i + 1).drop_last() =~= all.take(i as int));
                assert(all.take(i + 1).last() == all[i as int]);
                assert(rest@ =~= all.skip(i + 1));
            }
            match next {
                Some(m) => {
                    if topic_path_from_str(m.topic.as_str()).is_ok() {
                        kept.push_back(m);
                    }
                },
                None => {},
            }
            i += 1;
        }
        proof {
            assert(all.take(n as int) =~= all);
        }
        Publisher {
            opts,
            state: MqttState::Disconnected,
            initial_connect: true,
            await_pingresp: false,
            last_pkid: 0,
            outgoing_pub: VecDeque::new(),
            backlog: kept,
            no_of_reconnections: 0,
        }
    }

    /// Takes the next packet identifier.
    pub fn next_pkid(&mut self) -> (pkid: u16)
        ensures
            pkid == next_pkid_after(old(self).last_pkid),
            1 <= pkid,
            final(self)@ == (PublisherView { last_pkid: pkid, ..old(self)@ }),
    {
        let mut pkid = self.last_pkid;
        if pkid == 65535 {
            pkid = 0;
        }
        self.last_pkid = pkid + 1;
        self.last_pkid
    }

    /// Removes the oldest queued publish that carries `pkid` and hands it
    /// back; an acknowledgement that matches nothing changes nothing.
    fn handle_puback(&mut self, pkid: u16) -> (r: Option<Box<Message>>)
        ensures
            (final(self)@, r) == after_puback(old(self)@, pkid),
    {
        let n = self.outgoing_pub.len();
        let mut i: usize = 0;
        while i < n
            invariant
                n == self.outgoing_pub@.len(),
                i <= n,
                *self == *old(self),
                forall|j: int| 0 <= j < i ==> self.outgoing_pub@[j].pkid != Some(pkid),
            decreases n - i,
        {
            let hit = match self.outgoing_pub[i].pkid {
                Some(p) => p == pkid,
                None => false,
            };
            if hit {
                proof {
                    lemma_first_match_unique(self.outgoing_pub@, pkid, i as int);
                }
                return self.outgoing_pub.remove(i);
            }
            i += 1;
        }
        proof {
            if exists|k: int| is_first_match(old(self).outgoing_pub@, pkid, k) {
                let k = choose|k: int| is_first_match(old(self).outgoing_pub@, pkid, k);
                assert(old(self).outgoing_pub@[k].pkid != Some(pkid));
            }
        }
        None
    }

    /// Gives `message` the next packet identifier and queues it until its
    /// PUBACK comes. A payload over `storepack_sz` bytes is dropped with
    /// `PacketSizeLimitExceeded` (its identifier is used up all the same).
    /// When connected, the stamped message is handed back to be written to
    /// the network; otherwise it only waits in the queue.
    /// When the memory queue is full, or older publishes wait in the
    /// backlog, the message joins the backlog instead, and is dropped with
    /// `BacklogFull` when the backlog is full too.
    pub fn publish(&mut self, message: Box<Message>) -> (r: Result<Option<Box<Message>>>)
        ensures
            (final(self)@, r) == after_publish(old(self)@, *message),
    {
        if self.backlog.len() > 0 || self.outgoing_pub.len() >= self.opts.queue_limit {
            if message.payload.len() > self.opts.storepack_sz {
                return Err(ClientError::PacketSizeLimitExceeded);
            }
            if self.backlog.len() >= self.opts.backlog_limit {
                return Err(ClientError::BacklogFull);
            }
            self.backlog.push_back(message);
            return Ok(None);
        }
        let pkid = self.next_pkid();
        let message = message.set_pkid(Some(pkid));
        let payload_len = message.payload.len();
        if payload_len > self.opts.storepack_sz {
            return Err(ClientError::PacketSizeLimitExceeded);
        }
        self.outgoing_pub.push_back(message.clone());
        match self.state {
            MqttState::Connected => Ok(Some(message)),
            _ => Ok(None),
        }
    }

    /// Forgets the connection: no ping is awaited any more, the state is
    /// `Disconnected`, and with a clean session the unacknowledged publishes
    /// are dropped (with a persistent session they are kept for
    /// retransmission).
    pub fn unbind(&mut self)
        ensures
            final(self)@ == after_unbind(old(self)@),
    {
        self.await_pingresp = false;
        self.state = MqttState::Disconnected;
        if self.opts.clean_session {
            self.outgoing_pub.clear();
        }
    }

    /// Takes the oldest backlog entry into the memory queue under the next
    /// packet identifier and hands it back to be written, when connected
    /// and the queue has room; otherwise changes nothing.
    pub fn next_to_send(&mut self) -> (r: Option<Box<Message>>)
        ensures
            (final(self)@, r) == after_next_to_send(old(self)@),
    {
        match self.state {
            MqttState::Connected => {},
            _ => return None,
        }
        if self.outgoing_pub.len() >= self.opts.queue_limit || self.backlog.len() == 0 {
            return None;
        }
        let ghost old_backlog = self.backlog@;
        let oldest = self.backlog.pop_front();
        assert(self.backlog@ =~= old_backlog.drop_first());
        match oldest {
            Some(message) => {
                let pkid = self.next_pkid();
                let stamped = message.set_pkid(Some(pkid));
                self.outgoing_pub.push_back(stamped.clone());
                Some(stamped)
            },
            None => None,
        }
    }

    /// What connecting reports once the first wait for a packet is over:
    /// its error, if it failed, and otherwise success only when the broker
    /// accepted the connection (`ConnectionAbort` when the handshake did
    /// not complete).
    pub fn connect_result(&self, awaited: Result<()>) -> (r: Result<()>)
        ensures
            r is Ok <==> (awaited is Ok && self.state == MqttState::Connected),
            awaited is Err ==> r == awaited,
            awaited is Ok && self.state != MqttState::Connected ==> r == Err::<(), ClientError>(
                ClientError::ConnectionAbort,
            ),
    {
        match awaited {
            Err(e) => Err(e),
            Ok(()) => match self.state {
                MqttState::Connected => Ok(()),
                _ => Err(ClientError::ConnectionAbort),
            },
        }
    }

    /// Decides what the network loop does for `event` while publishing: a
    /// timeout checks the keep-alive and waits; a request to shut down or
    /// disconnect is carried out; a publish goes through `publish`, and is
    /// written and waited for, only waited for when nothing is to be
    /// written, or skipped without waiting when it was refused; a closed
    /// request channel stops the loop.
    pub fn on_event(&mut self, event: RunEvent) -> (a: RunAction)
        ensures
            (final(self)@, a) == after_event(old(self)@, event),
    {
        match event {
            RunEvent::TimedOut => RunAction::PingThenAwait,
            RunEvent::ChannelClosed => RunAction::Stop,
            RunEvent::Request(PublishRequest::Shutdown) => RunAction::ShutdownStream,
            RunEvent::Request(PublishRequest::Disconnect) => RunAction::SendDisconnect,
            RunEvent::Request(PublishRequest::Publish(m)) => match self.publish(m) {
                Err(_) => RunAction::SkipWait,
                Ok(Some(stamped)) => RunAction::WriteThenAwait(stamped),
                Ok(None) => RunAction::Await,
            },
        }
    }

    /// The keep-alive check, `elapsed_ms` milliseconds after the last write.
    /// `Ok(true)` means a PINGREQ is to be written now.
    pub fn ping(&mut self, elapsed_ms: u64) -> (r: Result<bool>)
        ensures
            (final(self)@, r) == after_ping(old(self)@, elapsed_ms),
    {
        match self.state {
            MqttState::Connected => {
                match self.opts.keep_alive {
                    Some(keep_alive) => {
                        let due_ms: u64 = keep_alive as u64 * 900;
                        if elapsed_ms >= due_ms {
                            let expiry_ms: u64 = (keep_alive as u64 + 1) * 1000;
                            if elapsed_ms >= expiry_ms {
                                return Err(ClientError::PingTimeout);
                            }
                            if self.await_pingresp {
                                return Err(ClientError::AwaitPingResp);
                            }
                            self.await_pingresp = true;
                            return Ok(true);
                        }
                        Ok(false)
                    },
                    None => Ok(false),
                }
            },
            _ => Ok(false),
        }
    }

    /// Checks the broker's CONNACK: a refusal is an error and changes
    /// nothing; an acceptance makes the client `Connected` and, for a
    /// persistent session, puts the unacknowledged publishes back in front
    /// of the backlog, to be sent again first.
    fn handle_connack(&mut self, code: ConnectReturnCode) -> (r: Result<PacketOutcome>)
        ensures
            (final(self)@, r) == after_connack(old(self)@, code),
    {
        if code != ConnectReturnCode::Accepted {
            return Err(ClientError::MqttConnectionRefused(code));
        }
        self.initial_connect = false;
        self.state = MqttState::Connected;
        if !self.opts.clean_session {
            let mut in_flight: VecDeque<Box<Message>> = VecDeque::new();
            std::mem::swap(&mut in_flight, &mut self.outgoing_pub);
            let mut older = in_flight;
            older.append(&mut self.backlog);
            self.backlog = older;
        }
        Ok(PacketOutcome::Connected)
    }

    /// Handles a packet from the broker according to the connection state.
    /// While the handshake runs only a CONNACK is allowed (see
    /// `handle_connack`); when connected,
    /// a PINGRESP ends the wait for a ping answer and a PUBACK releases the
    /// publish it acknowledges; other packets are ignored. Nothing is
    /// allowed while disconnected.
    pub fn handle_packet(&mut self, packet: IncomingPacket) -> (r: Result<PacketOutcome>)
        ensures
            (final(self)@, r) == after_packet(old(self)@, packet),
    {
        match self.state {
            MqttState::Handshake => {
                match packet {
                    IncomingPacket::Connack { session_present: _, code } => self.handle_connack(code),
                    _ => Err(ClientError::ConnectionAbort),
                }
            },
            MqttState::Connected => {
                match packet {
                    IncomingPacket::Pingresp => {
                        self.await_pingresp = false;
                        Ok(PacketOutcome::Handled)
                    },
                    IncomingPacket::Puback(pkid) => {
                        match self.handle_puback(pkid) {
                            Some(m) => Ok(PacketOutcome::Acked(m)),
                            None => Ok(PacketOutcome::Handled),
                        }
                    },
                    _ => Ok(PacketOutcome::Handled),
                }
            },
            MqttState::Disconnected => Err(ClientError::ConnectionAbort),
        }
    }

    /// What waiting for a packet reports, given how handling the packet
    /// went: only a refused connection is passed on; every other failure
    /// has already left its mark on the state and is reported as success.
    pub fn await_outcome(handled: Result<()>) -> (r: Result<()>)
        ensures
            match handled {
                Err(ClientError::MqttConnectionRefused(c)) => r == Err::<(), ClientError>(
                    ClientError::MqttConnectionRefused(c),
                ),
                _ => r is Ok,
            },
    {
        match handled {
            Err(ClientError::MqttConnectionRefused(c)) => Err(ClientError::MqttConnectionRefused(c)),
            _ => Ok(()),
        }
    }

    /// Reading from the network failed: the connection is dropped (see
    /// `unbind`) and must be made again.
    pub fn on_read_error(&mut self) -> (e: ClientError)
        ensures
            e == ClientError::Reconnect,
            final(self)@ == after_unbind(old(self)@),
    {
        self.unbind();
        ClientError::Reconnect
    }

    /// Whether a failed wait for a packet ends the publishing loop and
    /// starts reconnecting (otherwise the loop goes on).
    pub fn requires_reconnect(e: &ClientError) -> (b: bool)
        ensures
            b == (e is PingTimeout || e is Reconnect || e is MqttConnectionRefused),
    {
        match e {
            ClientError::PingTimeout | ClientError::Reconnect => true,
            ClientError::MqttConnectionRefused(_) => true,
            _ => false,
        }
    }

    /// The loop's next phase once a wait for a packet finished with
    /// `awaited`: while publishing, a failure that needs a new connection
    /// (see `requires_reconnect`) starts reconnecting and any other result
    /// goes on publishing; while reconnecting, success resumes publishing
    /// and any failure tries again.
    pub fn phase_after_await(phase: RunPhase, awaited: &Result<()>) -> (next: RunPhase)
        ensures
            phase == RunPhase::Publishing ==> next == match awaited {
                Err(e) => if e is PingTimeout || e is Reconnect || e is MqttConnectionRefused {
                    RunPhase::Reconnecting
                } else {
                    RunPhase::Publishing
                },
                Ok(_) => RunPhase::Publishing,
            },
            phase == RunPhase::Reconnecting ==> next == match awaited {
                Err(_) => RunPhase::Reconnecting,
                Ok(_) => RunPhase::Publishing,
            },
    {
        match awaited {
            Ok(_) => RunPhase::Publishing,
            Err(e) => {
                match phase {
                    RunPhase::Publishing => {
                        if Self::requires_reconnect(e) {
                            RunPhase::Reconnecting
                        } else {
                            RunPhase::Publishing
                        }
                    },
                    RunPhase::Reconnecting => RunPhase::Reconnecting,
                }
            },
        }
    }

    /// The publishing loop only runs on a connection that completed its
    /// handshake.
    pub fn can_run(&self) -> (b: bool)
        ensures
            b == (self.state == MqttState::Connected),
    {
        match self.state {
            MqttState::Connected => true,
            _ => false,
        }
    }

    /// Seconds to wait before connecting: none the first time, five for
    /// every reconnection.
    pub fn reconnect_delay_secs(&self) -> (secs: u64)
        ensures
            secs == if self.initial_connect {
                0u64
            } else {
                5u64
            },
    {
        if self.initial_connect {
            0
        } else {
            5
        }
    }

    /// The CONNECT packet for these options: keep-alive 0 when none is set.
    pub fn connect_packet(&self) -> (c: ConnectPacket)
        requires
            self.opts.client_id is Some,
        ensures
            c.keep_alive == match self.opts.keep_alive {
                Some(k) => k,
                None => 0u16,
            },
            c.client_id == self.opts.client_id.unwrap(),
            c.clean_session == self.opts.clean_session,
            c.username == match self.opts.credentials {
                Some((u, _)) => Some(u),
                None => None::<String>,
            },
            c.password == match self.opts.credentials {
                Some((_, p)) => Some(p),
                None => None::<String>,
            },
    {
        let keep_alive = match self.opts.keep_alive {
            Some(k) => k,
            None => 0,
        };
        let client_id = match &self.opts.client_id {
            Some(id) => id.clone(),
            None => String::new(),
        };
        let (username, password) = match &self.opts.credentials {
            Some((u, p)) => (Some(u.clone()), Some(p.clone())),
            None => (None, None),
        };
        ConnectPacket {
            keep_alive,
            client_id,
            clean_session: self.opts.clean_session,
            username,
            password,
        }
    }

    /// The CONNECT packet went out: the handshake has begun.
    pub fn connect_sent(&mut self)
        ensures
            final(self)@ == after_connect_sent(old(self)@),
    {
        self.state = MqttState::Handshake;
    }
}

} // verus!
