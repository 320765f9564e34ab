use std::sync::Arc;

use cloudpubsub::callback::Message;
use cloudpubsub::error::{ClientError, ConnectReturnCode};
use std::collections::VecDeque;

use cloudpubsub::publisher::{
    IncomingPacket, PacketOutcome, PublishRequest, Publisher, RunAction, RunEvent, RunPhase,
};
use cloudpubsub::{MqttOptions, MqttState};

fn msg(topic: &str, len: usize) -> Box<Message> {
    Box::new(Message {
        topic: topic.to_string(),
        payload: Arc::new(vec![7u8; len]),
        pkid: None,
        userdata: None,
    })
}

fn connected(clean_session: bool) -> Publisher {
    let opts = MqttOptions::new().set_client_id("c1").set_clean_session(clean_session);
    let mut p = Publisher::new(opts);
    p.connect_sent();
    let r = p.handle_packet(IncomingPacket::Connack {
        session_present: false,
        code: ConnectReturnCode::Accepted,
    });
    assert!(matches!(r, Ok(PacketOutcome::Connected)));
    p
}

fn queued_pkids(p: &Publisher) -> Vec<Option<u16>> {
    p.outgoing_pub.iter().map(|m| m.pkid).collect()
}

fn backlog_topics(p: &Publisher) -> Vec<String> {
    p.backlog.iter().map(|m| m.topic.clone()).collect()
}

#[test]
fn new_publisher_is_disconnected_and_empty() {
    let p = Publisher::new(MqttOptions::new());
    assert_eq!(p.state, MqttState::Disconnected);
    assert!(p.initial_connect);
    assert!(!p.await_pingresp);
    assert_eq!(p.last_pkid, 0);
    assert!(p.outgoing_pub.is_empty());
    assert_eq!(p.no_of_reconnections, 0);
}

#[test]
fn pkids_start_at_one_and_wrap_to_one() {
    let mut p = Publisher::new(MqttOptions::new());
    assert_eq!(p.next_pkid(), 1);
    assert_eq!(p.next_pkid(), 2);
    p.last_pkid = 65534;
    assert_eq!(p.next_pkid(), 65535);
    assert_eq!(p.next_pkid(), 1);
    assert_eq!(p.last_pkid, 1);
}

#[test]
fn pkids_distinct_over_a_full_cycle() {
    let mut p = Publisher::new(MqttOptions::new());
    let mut seen = vec![false; 65536];
    for _ in 0..65535 {
        let id = p.next_pkid() as usize;
        assert!(id != 0);
        assert!(!seen[id]);
        seen[id] = true;
    }
    // the next identifier starts the cycle again
    assert_eq!(p.next_pkid(), 1);
}

#[test]
fn publish_when_connected_hands_back_stamped_message() {
    let mut p = connected(true);
    let r = p.publish(msg("a/b", 3));
    match r {
        Ok(Some(m)) => {
            assert_eq!(m.pkid, Some(1));
            assert_eq!(m.topic, "a/b");
            assert_eq!(*m.payload, vec![7u8; 3]);
        }
        other => panic!("unexpected {:?}", other),
    }
    assert_eq!(queued_pkids(&p), vec![Some(1)]);
}

#[test]
fn publish_when_disconnected_only_queues() {
    let mut p = Publisher::new(MqttOptions::new());
    let r = p.publish(msg("a", 1));
    assert!(matches!(r, Ok(None)));
    let r = p.publish(msg("b", 1));
    assert!(matches!(r, Ok(None)));
    assert_eq!(queued_pkids(&p), vec![Some(1), Some(2)]);
    assert_eq!(p.outgoing_pub[0].topic, "a");
    assert_eq!(p.outgoing_pub[1].topic, "b");
}

#[test]
fn oversized_publish_is_dropped_but_uses_an_identifier() {
    let opts = MqttOptions::new().set_storepack_sz(4);
    let mut p = Publisher::new(opts);
    let r = p.publish(msg("a", 5));
    assert!(matches!(r, Err(ClientError::PacketSizeLimitExceeded)));
    assert!(p.outgoing_pub.is_empty());
    assert_eq!(p.last_pkid, 1);
    // exactly at the limit is accepted
    let r = p.publish(msg("a", 4));
    assert!(matches!(r, Ok(None)));
    assert_eq!(queued_pkids(&p), vec![Some(2)]);
}

#[test]
fn puback_releases_the_acknowledged_publish() {
    let mut p = connected(true);
    for t in ["x", "y", "z"] {
        let _ = p.publish(msg(t, 1));
    }
    let r = p.handle_packet(IncomingPacket::Puback(2));
    match r {
        Ok(PacketOutcome::Acked(m)) => {
            assert_eq!(m.topic, "y");
            assert_eq!(m.pkid, Some(2));
        }
        other => panic!("unexpected {:?}", other),
    }
    assert_eq!(queued_pkids(&p), vec![Some(1), Some(3)]);
}

#[test]
fn unsolicited_puback_changes_nothing() {
    let mut p = connected(true);
    let _ = p.publish(msg("x", 1));
    let r = p.handle_packet(IncomingPacket::Puback(9));
    assert!(matches!(r, Ok(PacketOutcome::Handled)));
    assert_eq!(queued_pkids(&p), vec![Some(1)]);
}

#[test]
fn puback_with_repeated_identifier_releases_the_oldest() {
    let mut p = connected(true);
    let _ = p.publish(msg("old", 1));
    p.last_pkid = 0;
    let _ = p.publish(msg("new", 1));
    assert_eq!(queued_pkids(&p), vec![Some(1), Some(1)]);
    match p.handle_packet(IncomingPacket::Puback(1)) {
        Ok(PacketOutcome::Acked(m)) => assert_eq!(m.topic, "old"),
        other => panic!("unexpected {:?}", other),
    }
    assert_eq!(p.outgoing_pub.len(), 1);
    assert_eq!(p.outgoing_pub[0].topic, "new");
}

#[test]
fn publish_then_ack_restores_queue() {
    let mut p = connected(true);
    let _ = p.publish(msg("first", 1));
    let before = queued_pkids(&p);
    let r = p.publish(msg("second", 2));
    let id = match r {
        Ok(Some(m)) => m.pkid.unwrap(),
        other => panic!("unexpected {:?}", other),
    };
    match p.handle_packet(IncomingPacket::Puback(id)) {
        Ok(PacketOutcome::Acked(m)) => assert_eq!(m.topic, "second"),
        other => panic!("unexpected {:?}", other),
    }
    assert_eq!(queued_pkids(&p), before);
}

#[test]
fn connack_accepted_connects() {
    let mut p = Publisher::new(MqttOptions::new());
    p.connect_sent();
    assert_eq!(p.state, MqttState::Handshake);
    let r = p.handle_packet(IncomingPacket::Connack {
        session_present: true,
        code: ConnectReturnCode::Accepted,
    });
    assert!(matches!(r, Ok(PacketOutcome::Connected)));
    assert_eq!(p.state, MqttState::Connected);
    assert!(!p.initial_connect);
}

#[test]
fn connack_refused_is_an_error_and_changes_nothing() {
    let mut p = Publisher::new(MqttOptions::new());
    p.connect_sent();
    let r = p.handle_packet(IncomingPacket::Connack {
        session_present: false,
        code: ConnectReturnCode::BadUsernamePassword,
    });
    assert!(matches!(
        r,
        Err(ClientError::MqttConnectionRefused(ConnectReturnCode::BadUsernamePassword))
    ));
    assert_eq!(p.state, MqttState::Handshake);
    assert!(p.initial_connect);
}

#[test]
fn other_packet_during_handshake_aborts() {
    let mut p = Publisher::new(MqttOptions::new());
    p.connect_sent();
    let r = p.handle_packet(IncomingPacket::Pingresp);
    assert!(matches!(r, Err(ClientError::ConnectionAbort)));
    let r = p.handle_packet(IncomingPacket::Puback(1));
    assert!(matches!(r, Err(ClientError::ConnectionAbort)));
    assert_eq!(p.state, MqttState::Handshake);
}

#[test]
fn every_packet_is_refused_while_disconnected() {
    let mut p = Publisher::new(MqttOptions::new());
    for packet in [
        IncomingPacket::Connack { session_present: false, code: ConnectReturnCode::Accepted },
        IncomingPacket::Puback(1),
        IncomingPacket::Pingresp,
        IncomingPacket::Disconnect,
        IncomingPacket::Other,
    ] {
        let r = p.handle_packet(packet);
        assert!(matches!(r, Err(ClientError::ConnectionAbort)));
        assert_eq!(p.state, MqttState::Disconnected);
    }
}

#[test]
fn connected_ignores_other_packets() {
    let mut p = connected(true);
    let _ = p.publish(msg("x", 1));
    for packet in [
        IncomingPacket::Disconnect,
        IncomingPacket::Other,
        IncomingPacket::Connack { session_present: false, code: ConnectReturnCode::Accepted },
    ] {
        let r = p.handle_packet(packet);
        assert!(matches!(r, Ok(PacketOutcome::Handled)));
    }
    assert_eq!(p.state, MqttState::Connected);
    assert_eq!(queued_pkids(&p), vec![Some(1)]);
}

#[test]
fn persistent_session_keeps_and_retransmits_in_order() {
    let mut p = connected(false);
    for t in ["a", "b", "c"] {
        let _ = p.publish(msg(t, 1));
    }
    let _ = p.handle_packet(IncomingPacket::Puback(2));
    p.unbind();
    assert_eq!(p.state, MqttState::Disconnected);
    assert_eq!(queued_pkids(&p), vec![Some(1), Some(3)]);
    assert_eq!(p.reconnect_delay_secs(), 5);
    // while disconnected, a new publish goes to the queue without being sent
    let _ = p.publish(msg("d", 1));
    p.connect_sent();
    let r = p.handle_packet(IncomingPacket::Connack {
        session_present: true,
        code: ConnectReturnCode::Accepted,
    });
    assert!(matches!(r, Ok(PacketOutcome::Connected)));
    assert!(p.outgoing_pub.is_empty());
    assert_eq!(backlog_topics(&p), vec!["a", "c", "d"]);
    // sending from the backlog keeps the order, with fresh identifiers
    let mut sent = Vec::new();
    while let Some(m) = p.next_to_send() {
        sent.push((m.topic.clone(), m.pkid));
    }
    assert_eq!(
        sent,
        vec![("a".to_string(), Some(5)), ("c".to_string(), Some(6)), ("d".to_string(), Some(7))]
    );
    assert!(p.backlog.is_empty());
    assert_eq!(queued_pkids(&p), vec![Some(5), Some(6), Some(7)]);
}

#[test]
fn interrupted_retransmission_loses_nothing() {
    let mut p = connected(false);
    for t in ["a", "b", "c"] {
        let _ = p.publish(msg(t, 1));
    }
    p.unbind();
    p.connect_sent();
    let _ = p.handle_packet(IncomingPacket::Connack {
        session_present: true,
        code: ConnectReturnCode::Accepted,
    });
    let first = p.next_to_send().unwrap();
    assert_eq!(first.topic, "a");
    // the wait after the first resend fails
    let e = p.on_read_error();
    assert!(matches!(e, ClientError::Reconnect));
    let in_flight: Vec<String> = p.outgoing_pub.iter().map(|m| m.topic.clone()).collect();
    assert_eq!(in_flight, vec!["a".to_string()]);
    assert_eq!(backlog_topics(&p), vec!["b", "c"]);
    p.connect_sent();
    let _ = p.handle_packet(IncomingPacket::Connack {
        session_present: true,
        code: ConnectReturnCode::Accepted,
    });
    assert_eq!(backlog_topics(&p), vec!["a", "b", "c"]);
}

#[test]
fn clean_session_forgets_on_unbind() {
    let mut p = connected(true);
    let _ = p.publish(msg("a", 1));
    p.await_pingresp = true;
    p.unbind();
    assert!(p.outgoing_pub.is_empty());
    assert!(!p.await_pingresp);
    assert_eq!(p.state, MqttState::Disconnected);
    p.connect_sent();
    let r = p.handle_packet(IncomingPacket::Connack {
        session_present: false,
        code: ConnectReturnCode::Accepted,
    });
    assert!(matches!(r, Ok(PacketOutcome::Connected)));
}

#[test]
fn ping_thresholds() {
    // keep-alive 5 s: due from 4500 ms, expired from 6000 ms
    let mut p = connected(true);
    assert!(matches!(p.ping(4499), Ok(false)));
    assert!(!p.await_pingresp);
    assert!(matches!(p.ping(4500), Ok(true)));
    assert!(p.await_pingresp);
    assert!(matches!(p.ping(5000), Err(ClientError::AwaitPingResp)));
    let r = p.handle_packet(IncomingPacket::Pingresp);
    assert!(matches!(r, Ok(PacketOutcome::Handled)));
    assert!(!p.await_pingresp);
    assert!(matches!(p.ping(5999), Ok(true)));
    assert!(matches!(p.ping(6000), Err(ClientError::PingTimeout)));
}

#[test]
fn ping_does_nothing_unless_connected_with_keep_alive() {
    let mut p = Publisher::new(MqttOptions::new());
    assert!(matches!(p.ping(100_000), Ok(false)));
    p.connect_sent();
    assert!(matches!(p.ping(100_000), Ok(false)));
    assert!(!p.await_pingresp);
    let mut q = connected(true);
    q.opts.keep_alive = None;
    assert!(matches!(q.ping(100_000), Ok(false)));
}

#[test]
fn ping_with_zero_keep_alive() {
    let opts = MqttOptions::new().set_keep_alive(0);
    let mut p = Publisher::new(opts);
    p.connect_sent();
    let _ = p.handle_packet(IncomingPacket::Connack {
        session_present: false,
        code: ConnectReturnCode::Accepted,
    });
    assert!(matches!(p.ping(0), Ok(true)));
    assert!(matches!(p.ping(1000), Err(ClientError::PingTimeout)));
}

#[test]
fn await_outcome_passes_on_only_refusals() {
    assert!(Publisher::await_outcome(Ok(())).is_ok());
    assert!(Publisher::await_outcome(Err(ClientError::ConnectionAbort)).is_ok());
    assert!(Publisher::await_outcome(Err(ClientError::Reconnect)).is_ok());
    let r = Publisher::await_outcome(Err(ClientError::MqttConnectionRefused(
        ConnectReturnCode::NotAuthorized,
    )));
    assert!(matches!(
        r,
        Err(ClientError::MqttConnectionRefused(ConnectReturnCode::NotAuthorized))
    ));
}

#[test]
fn read_error_unbinds_and_asks_for_reconnect() {
    let mut p = connected(false);
    let _ = p.publish(msg("a", 1));
    p.await_pingresp = true;
    let e = p.on_read_error();
    assert!(matches!(e, ClientError::Reconnect));
    assert_eq!(p.state, MqttState::Disconnected);
    assert!(!p.await_pingresp);
    assert_eq!(queued_pkids(&p), vec![Some(1)]);
}

#[test]
fn reconnect_classification() {
    assert!(Publisher::requires_reconnect(&ClientError::PingTimeout));
    assert!(Publisher::requires_reconnect(&ClientError::Reconnect));
    assert!(Publisher::requires_reconnect(&ClientError::MqttConnectionRefused(
        ConnectReturnCode::ServerUnavailable
    )));
    assert!(!Publisher::requires_reconnect(&ClientError::ConnectionAbort));
    assert!(!Publisher::requires_reconnect(&ClientError::AwaitPingResp));
    assert!(!Publisher::requires_reconnect(&ClientError::PacketSizeLimitExceeded));
    assert!(!Publisher::requires_reconnect(&ClientError::NoConnectionThread));
}

#[test]
fn run_only_when_connected() {
    let mut p = Publisher::new(MqttOptions::new());
    assert!(!p.can_run());
    p.connect_sent();
    assert!(!p.can_run());
    let p = connected(true);
    assert!(p.can_run());
}

#[test]
fn first_connect_has_no_delay() {
    let p = Publisher::new(MqttOptions::new());
    assert_eq!(p.reconnect_delay_secs(), 0);
    let q = connected(true);
    assert_eq!(q.reconnect_delay_secs(), 5);
}

#[test]
fn connect_packet_from_options() {
    let opts = MqttOptions::new()
        .set_client_id("dev-7")
        .set_credentials("user", "secret")
        .set_clean_session(false)
        .set_keep_alive(30);
    let c = Publisher::new(opts).connect_packet();
    assert_eq!(c.keep_alive, 30);
    assert_eq!(c.client_id, "dev-7");
    assert!(!c.clean_session);
    assert_eq!(c.username.as_deref(), Some("user"));
    assert_eq!(c.password.as_deref(), Some("secret"));

    let mut opts = MqttOptions::new().set_client_id("x");
    opts.keep_alive = None;
    let c = Publisher::new(opts).connect_packet();
    assert_eq!(c.keep_alive, 0);
    assert!(c.clean_session);
    assert!(c.username.is_none());
    assert!(c.password.is_none());
}

#[test]
fn loop_phase_after_waiting() {
    let publishing = RunPhase::Publishing;
    let reconnecting = RunPhase::Reconnecting;
    assert_eq!(Publisher::phase_after_await(publishing, &Ok(())), RunPhase::Publishing);
    assert_eq!(
        Publisher::phase_after_await(publishing, &Err(ClientError::Reconnect)),
        RunPhase::Reconnecting
    );
    assert_eq!(
        Publisher::phase_after_await(publishing, &Err(ClientError::PingTimeout)),
        RunPhase::Reconnecting
    );
    assert_eq!(
        Publisher::phase_after_await(
            publishing,
            &Err(ClientError::MqttConnectionRefused(ConnectReturnCode::NotAuthorized))
        ),
        RunPhase::Reconnecting
    );
    assert_eq!(
        Publisher::phase_after_await(publishing, &Err(ClientError::ConnectionAbort)),
        RunPhase::Publishing
    );
    assert_eq!(Publisher::phase_after_await(reconnecting, &Ok(())), RunPhase::Publishing);
    assert_eq!(
        Publisher::phase_after_await(reconnecting, &Err(ClientError::ConnectionAbort)),
        RunPhase::Reconnecting
    );
}

#[test]
fn memory_queue_is_bounded_and_overflows_to_backlog() {
    let opts = MqttOptions::new().set_queue_limit(2).set_backlog_limit(2).set_storepack_sz(3);
    let mut p = Publisher::new(opts);
    p.connect_sent();
    let _ = p.handle_packet(IncomingPacket::Connack {
        session_present: false,
        code: ConnectReturnCode::Accepted,
    });
    assert!(matches!(p.publish(msg("q1", 1)), Ok(Some(_))));
    assert!(matches!(p.publish(msg("q2", 1)), Ok(Some(_))));
    // queue full: the next ones are backed up, without an identifier
    assert!(matches!(p.publish(msg("b1", 1)), Ok(None)));
    // oversized payloads are dropped on this path too, without using an identifier
    assert!(matches!(p.publish(msg("big", 4)), Err(ClientError::PacketSizeLimitExceeded)));
    assert!(matches!(p.publish(msg("b2", 1)), Ok(None)));
    assert!(matches!(p.publish(msg("b3", 1)), Err(ClientError::BacklogFull)));
    assert_eq!(p.outgoing_pub.len(), 2);
    assert_eq!(backlog_topics(&p), vec!["b1", "b2"]);
    assert!(p.backlog.iter().all(|m| m.pkid.is_none()));
    assert_eq!(p.last_pkid, 2);
    // no room: nothing to send
    assert!(p.next_to_send().is_none());
    // an acknowledgement frees room; the oldest backed-up publish goes next
    let _ = p.handle_packet(IncomingPacket::Puback(1));
    let m = p.next_to_send().unwrap();
    assert_eq!(m.topic, "b1");
    assert_eq!(m.pkid, Some(3));
    assert!(p.next_to_send().is_none());
    // older publishes wait in the backlog, so a new one queues behind them
    let _ = p.handle_packet(IncomingPacket::Puback(2));
    assert!(matches!(p.publish(msg("n1", 1)), Ok(None)));
    assert_eq!(backlog_topics(&p), vec!["b2", "n1"]);
    assert_eq!(p.next_to_send().unwrap().topic, "b2");
    assert!(p.outgoing_pub.len() <= 2);
}

#[test]
fn nothing_is_sent_from_the_backlog_unless_connected() {
    let mut pending = VecDeque::new();
    pending.push_back(msg("old1", 1));
    pending.push_back(msg("old2", 1));
    let mut p = Publisher::restore(MqttOptions::new(), pending);
    assert!(p.next_to_send().is_none());
    p.connect_sent();
    assert!(p.next_to_send().is_none());
    assert_eq!(backlog_topics(&p), vec!["old1", "old2"]);
}

#[test]
fn restored_backlog_goes_before_new_publishes() {
    let mut pending = VecDeque::new();
    pending.push_back(msg("old1", 1));
    pending.push_back(msg("old2", 2));
    let mut p = Publisher::restore(MqttOptions::new().set_client_id("c"), pending);
    assert_eq!(p.state, MqttState::Disconnected);
    assert!(p.outgoing_pub.is_empty());
    assert_eq!(backlog_topics(&p), vec!["old1", "old2"]);
    assert!(matches!(p.publish(msg("new", 1)), Ok(None)));
    p.connect_sent();
    let _ = p.handle_packet(IncomingPacket::Connack {
        session_present: false,
        code: ConnectReturnCode::Accepted,
    });
    let mut order = Vec::new();
    while let Some(m) = p.next_to_send() {
        order.push(m.topic.clone());
    }
    assert_eq!(order, vec!["old1", "old2", "new"]);
}

#[test]
fn connect_result_needs_a_completed_handshake() {
    let mut p = Publisher::new(MqttOptions::new());
    p.connect_sent();
    // first packet was not a CONNACK: the wait reported success, the handshake did not complete
    let r = p.handle_packet(IncomingPacket::Pingresp);
    assert!(Publisher::await_outcome(r.map(|_| ())).is_ok());
    assert!(matches!(p.connect_result(Ok(())), Err(ClientError::ConnectionAbort)));
    assert!(matches!(p.connect_result(Err(ClientError::Reconnect)), Err(ClientError::Reconnect)));
    let _ = p.handle_packet(IncomingPacket::Connack {
        session_present: false,
        code: ConnectReturnCode::Accepted,
    });
    assert!(p.connect_result(Ok(())).is_ok());
    assert!(matches!(p.connect_result(Err(ClientError::Reconnect)), Err(ClientError::Reconnect)));
}

#[test]
fn loop_actions_for_events() {
    let mut p = connected(true);
    assert!(matches!(p.on_event(RunEvent::TimedOut), RunAction::PingThenAwait));
    assert!(matches!(p.on_event(RunEvent::ChannelClosed), RunAction::Stop));
    assert!(matches!(
        p.on_event(RunEvent::Request(PublishRequest::Shutdown)),
        RunAction::ShutdownStream
    ));
    assert!(matches!(
        p.on_event(RunEvent::Request(PublishRequest::Disconnect)),
        RunAction::SendDisconnect
    ));
    match p.on_event(RunEvent::Request(PublishRequest::Publish(msg("t", 1)))) {
        RunAction::WriteThenAwait(m) => assert_eq!(m.pkid, Some(1)),
        other => panic!("unexpected {:?}", other),
    }
    p.opts.storepack_sz = 0;
    assert!(matches!(
        p.on_event(RunEvent::Request(PublishRequest::Publish(msg("t", 1)))),
        RunAction::SkipWait
    ));
    let mut q = Publisher::new(MqttOptions::new());
    assert!(matches!(
        q.on_event(RunEvent::Request(PublishRequest::Publish(msg("t", 1)))),
        RunAction::Await
    ));
    assert_eq!(q.outgoing_pub.len(), 1);
}

#[test]
fn reconnecting_resumes_only_after_a_completed_handshake() {
    let mut p = Publisher::new(MqttOptions::new());
    p.connect_sent();
    let _ = p.handle_packet(IncomingPacket::Pingresp);
    let r = p.connect_result(Ok(()));
    assert_eq!(Publisher::phase_after_await(RunPhase::Reconnecting, &r), RunPhase::Reconnecting);
    let _ = p.handle_packet(IncomingPacket::Connack {
        session_present: false,
        code: ConnectReturnCode::Accepted,
    });
    let r = p.connect_result(Ok(()));
    assert_eq!(Publisher::phase_after_await(RunPhase::Reconnecting, &r), RunPhase::Publishing);
}
