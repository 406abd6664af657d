use rumqtt::error::MqttError;
use rumqtt::options::ConnectionMethod;
use rumqtt::options::Credentials;
use rumqtt::options::MqttOptions;
use rumqtt::options::ReconnectOptions;
use rumqtt::options::host_prefix_len;
use rumqtt::packet::Connack;
use rumqtt::packet::ConnectReturnCode;
use rumqtt::packet::Packet;
use rumqtt::packet::Publish;
use rumqtt::packet::QoS;
use rumqtt::state::MqttConnectionStatus;
use rumqtt::state::MqttState;

fn base_opts() -> MqttOptions {
    MqttOptions {
        broker_addr: "localhost:1883".to_string(),
        keep_alive: Some(10),
        client_id: "test-client".to_string(),
        clean_session: true,
        credentials: None,
        last_will: None,
        inflight: 50,
        max_packet_size: 100 * 1024,
        connection_method: ConnectionMethod::Tcp,
        reconnect: ReconnectOptions::Never,
    }
}

fn connected_state(opts: MqttOptions) -> MqttState {
    let mut state = MqttState::new(opts);
    state
        .handle_incoming_connack(
            Connack { session_present: false, code: ConnectReturnCode::Accepted },
            0,
        )
        .expect("accepted CONNACK must connect");
    state
}

fn publish(qos: QoS, payload: &[u8]) -> Publish {
    Publish {
        dup: false,
        qos,
        retain: false,
        topic_name: "a/b".to_string(),
        pid: None,
        payload: payload.to_vec(),
    }
}

#[test]
fn qos0_publish_passes_through_without_id() {
    let mut state = connected_state(base_opts());
    let out = state
        .handle_outgoing_mqtt_packet(Packet::Publish(publish(QoS::AtMostOnce, b"hi")), 1)
        .unwrap();
    match out {
        Packet::Publish(p) => {
            assert_eq!(p.pid, None);
            assert_eq!(p.qos, QoS::AtMostOnce);
            assert_eq!(p.payload, b"hi".to_vec());
        }
        other => panic!("expected a publish, got {:?}", other),
    }
    assert!(state.outgoing_pub.is_empty());
}

#[test]
fn qos1_publish_gets_id_1_and_puback_releases_it() {
    let mut state = connected_state(base_opts());
    let out = state
        .handle_outgoing_mqtt_packet(Packet::Publish(publish(QoS::AtLeastOnce, b"hi")), 1)
        .unwrap();
    match out {
        Packet::Publish(p) => assert_eq!(p.pid, Some(1)),
        other => panic!("expected a publish, got {:?}", other),
    }
    assert_eq!(state.outgoing_pub.len(), 1);
    let (notification, reply) = state
        .handle_incoming_mqtt_packet(Packet::Puback(1), 2)
        .unwrap();
    assert!(notification.is_none());
    assert!(reply.is_none());
    assert!(state.outgoing_pub.is_empty());
}

#[test]
fn qos2_flow_moves_id_through_rel_until_pubcomp() {
    let mut state = connected_state(base_opts());
    let out = state
        .handle_outgoing_mqtt_packet(Packet::Publish(publish(QoS::ExactlyOnce, b"hi")), 1)
        .unwrap();
    match out {
        Packet::Publish(p) => assert_eq!(p.pid, Some(1)),
        other => panic!("expected a publish, got {:?}", other),
    }
    let (notification, reply) = state
        .handle_incoming_mqtt_packet(Packet::Pubrec(1), 2)
        .unwrap();
    assert!(notification.is_none());
    assert!(matches!(reply, Some(Packet::Pubrel(1))));
    assert!(state.outgoing_pub.is_empty());
    assert_eq!(state.outgoing_rel, vec![1]);
    let (notification, reply) = state
        .handle_incoming_mqtt_packet(Packet::Pubcomp(1), 3)
        .unwrap();
    assert!(notification.is_none());
    assert!(reply.is_none());
    assert!(state.outgoing_rel.is_empty());
}

#[test]
fn reconnect_republishes_pending_in_order_with_dup() {
    let mut opts = base_opts();
    opts.clean_session = false;
    let mut state = connected_state(opts);
    state
        .handle_outgoing_mqtt_packet(Packet::Publish(publish(QoS::AtLeastOnce, b"one")), 1)
        .unwrap();
    state
        .handle_outgoing_mqtt_packet(Packet::Publish(publish(QoS::AtLeastOnce, b"two")), 2)
        .unwrap();
    state.handle_disconnect();
    assert!(matches!(state.connection_status, MqttConnectionStatus::Disconnected));
    assert!(!state.await_pingresp);
    assert_eq!(state.outgoing_pub.len(), 2);

    let packets = state.handle_reconnection();
    assert_eq!(packets.len(), 2);
    match &packets[0] {
        Packet::Publish(p) => {
            assert_eq!(p.pid, Some(1));
            assert!(p.dup);
            assert_eq!(p.payload, b"one".to_vec());
        }
        other => panic!("expected a publish, got {:?}", other),
    }
    match &packets[1] {
        Packet::Publish(p) => {
            assert_eq!(p.pid, Some(2));
            assert!(p.dup);
            assert_eq!(p.payload, b"two".to_vec());
        }
        other => panic!("expected a publish, got {:?}", other),
    }
    // The snapshot leaves the pending set itself untouched.
    assert_eq!(state.outgoing_pub.len(), 2);
    assert_eq!(state.outgoing_pub[0].pid, Some(1));
    assert_eq!(state.outgoing_pub[1].pid, Some(2));
}

#[test]
fn reconnect_reemits_pubrel_after_the_publishes() {
    let mut state = connected_state(base_opts());
    state
        .handle_outgoing_mqtt_packet(Packet::Publish(publish(QoS::AtLeastOnce, b"one")), 1)
        .unwrap();
    state.outgoing_rel = vec![9, 11];
    let packets = state.handle_reconnection();
    assert_eq!(packets.len(), 3);
    assert!(matches!(packets[0], Packet::Publish(_)));
    assert!(matches!(packets[1], Packet::Pubrel(9)));
    assert!(matches!(packets[2], Packet::Pubrel(11)));
}

#[test]
fn keep_alive_tick_pings_then_times_out() {
    let mut opts = base_opts();
    opts.keep_alive = Some(2);
    let mut state = connected_state(opts);
    state.reset_last_control_at(0);

    // Not yet idle for a full interval: nothing to do.
    assert!(matches!(state.ping_tick_action(1999), Ok(None)));

    // Two idle seconds: a ping is due.
    assert!(state.is_ping_required(2000));
    match state.ping_tick_action(2000) {
        Ok(Some(Packet::Pingreq)) => {}
        other => panic!("expected a PINGREQ, got {:?}", other),
    }
    let out = state.handle_outgoing_mqtt_packet(Packet::Pingreq, 2000).unwrap();
    assert!(matches!(out, Packet::Pingreq));
    assert!(state.await_pingresp);

    // The broker answers within the interval: no disconnect.
    state.handle_incoming_mqtt_packet(Packet::Pingresp, 3000).unwrap();
    assert!(!state.await_pingresp);
    assert!(matches!(state.ping_tick_action(4000), Ok(None)));

    // A ping left unanswered for a full further interval is fatal.
    state.handle_outgoing_mqtt_packet(Packet::Pingreq, 5000).unwrap();
    assert!(state.has_ping_timed_out(7000));
    assert!(matches!(state.ping_tick_action(7000), Err(MqttError::PingTimeout)));
}

#[test]
fn inbound_qos2_notifies_once_but_acks_every_delivery() {
    let mut state = connected_state(base_opts());
    let mut incoming = publish(QoS::ExactlyOnce, b"hi");
    incoming.pid = Some(7);

    let (notification, reply) = state
        .handle_incoming_mqtt_packet(Packet::Publish(incoming.clone()), 1)
        .unwrap();
    assert!(matches!(notification, Some(Packet::Publish(_))));
    assert!(matches!(reply, Some(Packet::Pubrec(7))));
    assert_eq!(state.incoming_pub, vec![7]);

    let (notification, reply) = state
        .handle_incoming_mqtt_packet(Packet::Publish(incoming), 2)
        .unwrap();
    assert!(notification.is_none());
    assert!(matches!(reply, Some(Packet::Pubrec(7))));
    assert_eq!(state.incoming_pub, vec![7]);
}

#[test]
fn inbound_pubrel_releases_incoming_id_and_answers_pubcomp() {
    let mut state = connected_state(base_opts());
    let mut incoming = publish(QoS::ExactlyOnce, b"hi");
    incoming.pid = Some(7);
    state
        .handle_incoming_mqtt_packet(Packet::Publish(incoming), 1)
        .unwrap();
    let (notification, reply) = state
        .handle_incoming_mqtt_packet(Packet::Pubrel(7), 2)
        .unwrap();
    assert!(notification.is_none());
    assert!(matches!(reply, Some(Packet::Pubrec(7))) == false);
    assert!(matches!(reply, Some(Packet::Pubcomp(7))));
    assert!(state.incoming_pub.is_empty());
}

#[test]
fn inbound_qos1_notifies_and_answers_puback() {
    let mut state = connected_state(base_opts());
    let mut incoming = publish(QoS::AtLeastOnce, b"hi");
    incoming.pid = Some(3);
    let (notification, reply) = state
        .handle_incoming_mqtt_packet(Packet::Publish(incoming), 1)
        .unwrap();
    assert!(matches!(notification, Some(Packet::Publish(_))));
    assert!(matches!(reply, Some(Packet::Puback(3))));
    assert!(state.incoming_pub.is_empty());
}

#[test]
fn pkid_rotates_past_65535_to_1_skipping_inflight() {
    // Nothing in flight: the id after 65535 is 1.
    let mut state = connected_state(base_opts());
    state.last_pkid = 65535;
    let out = state
        .handle_outgoing_mqtt_packet(Packet::Publish(publish(QoS::AtLeastOnce, b"x")), 1)
        .unwrap();
    match out {
        Packet::Publish(p) => assert_eq!(p.pid, Some(1)),
        other => panic!("expected a publish, got {:?}", other),
    }

    // Id 1 still in flight: the rotation skips to 2.
    let mut state = connected_state(base_opts());
    state.last_pkid = 65535;
    state.outgoing_rel = vec![1];
    let out = state
        .handle_outgoing_mqtt_packet(Packet::Publish(publish(QoS::AtLeastOnce, b"x")), 1)
        .unwrap();
    match out {
        Packet::Publish(p) => assert_eq!(p.pid, Some(2)),
        other => panic!("expected a publish, got {:?}", other),
    }
}

#[test]
fn second_connack_is_a_protocol_error() {
    let mut state = connected_state(base_opts());
    let result = state.handle_incoming_mqtt_packet(
        Packet::Connack(Connack { session_present: false, code: ConnectReturnCode::Accepted }),
        5,
    );
    assert!(matches!(result, Err(MqttError::ProtocolError(_))));
    // The failure leaves the session state alone.
    assert!(matches!(state.connection_status, MqttConnectionStatus::Connected));
}

#[test]
fn pingreq_is_suppressed_while_awaiting_pingresp() {
    let mut opts = base_opts();
    opts.keep_alive = Some(1);
    let mut state = connected_state(opts);
    state.reset_last_control_at(0);
    state.handle_outgoing_mqtt_packet(Packet::Pingreq, 1000).unwrap();
    assert!(state.await_pingresp);
    assert!(!state.is_ping_required(5000));
    let result = state.handle_outgoing_mqtt_packet(Packet::Pingreq, 5000);
    assert!(matches!(result, Err(MqttError::ProtocolError(_))));
}

#[test]
fn refused_connack_reports_the_code() {
    let mut state = MqttState::new(base_opts());
    let result = state.handle_incoming_connack(
        Connack { session_present: false, code: ConnectReturnCode::BadUsernamePassword },
        0,
    );
    match result {
        Err(MqttError::ConnectionRefused(code)) => {
            assert_eq!(code, ConnectReturnCode::BadUsernamePassword);
        }
        other => panic!("expected a refusal, got {:?}", other),
    }
    assert!(matches!(state.connection_status, MqttConnectionStatus::Disconnected));
}

#[test]
fn connect_response_paths() {
    // The stream ending before any packet is a transport failure.
    let mut state = MqttState::new(base_opts());
    assert!(matches!(state.handle_connect_response(None, 0), Err(MqttError::Io(_))));

    // A packet other than CONNACK is a protocol error.
    let mut state = MqttState::new(base_opts());
    let result = state.handle_connect_response(Some(Packet::Pingresp), 0);
    assert!(matches!(result, Err(MqttError::ProtocolError(_))));

    // An accepted CONNACK connects.
    let mut state = MqttState::new(base_opts());
    state
        .handle_connect_response(
            Some(Packet::Connack(Connack {
                session_present: false,
                code: ConnectReturnCode::Accepted,
            })),
            42,
        )
        .unwrap();
    assert!(matches!(state.connection_status, MqttConnectionStatus::Connected));
    assert_eq!(state.last_control_at, 42);
}

#[test]
fn oversized_publish_is_refused() {
    let mut opts = base_opts();
    opts.max_packet_size = 4;
    let mut state = connected_state(opts);
    let result =
        state.handle_outgoing_mqtt_packet(Packet::Publish(publish(QoS::AtMostOnce, b"hello")), 1);
    assert!(matches!(result, Err(MqttError::MqttPacketSizeLimitExceeded)));
    assert!(state.outgoing_pub.is_empty());
}

#[test]
fn outgoing_connect_is_built_from_the_options() {
    let mut opts = base_opts();
    opts.keep_alive = Some(7);
    opts.clean_session = false;
    opts.credentials = Some(Credentials {
        username: "user".to_string(),
        password: "pass".to_string(),
    });
    let mut state = MqttState::new(opts);
    let connect = state.handle_outgoing_connect().unwrap();
    assert_eq!(connect.keep_alive, 7);
    assert_eq!(connect.client_id, "test-client");
    assert!(!connect.clean_session);
    assert_eq!(connect.username.as_deref(), Some("user"));
    assert_eq!(connect.password.as_deref(), Some("pass"));
    assert!(matches!(state.connection_status, MqttConnectionStatus::Handshake));
    assert!(!state.await_pingresp);
}

#[test]
fn disconnect_preserves_session_buffers() {
    // With a persistent session the inbound QoS 2 record survives too.
    let mut opts = base_opts();
    opts.clean_session = false;
    let mut state = connected_state(opts);
    let mut incoming = publish(QoS::ExactlyOnce, b"hi");
    incoming.pid = Some(7);
    state
        .handle_incoming_mqtt_packet(Packet::Publish(incoming), 1)
        .unwrap();
    state
        .handle_outgoing_mqtt_packet(Packet::Publish(publish(QoS::AtLeastOnce, b"x")), 2)
        .unwrap();
    state.outgoing_rel = vec![4];
    state.await_pingresp = true;
    let last_pkid = state.last_pkid;
    state.handle_disconnect();
    assert!(matches!(state.connection_status, MqttConnectionStatus::Disconnected));
    assert!(!state.await_pingresp);
    assert_eq!(state.outgoing_pub.len(), 1);
    assert_eq!(state.outgoing_rel, vec![4]);
    assert_eq!(state.incoming_pub, vec![7]);
    assert_eq!(state.last_pkid, last_pkid);

    // With a clean session the inbound record is cleared, the rest survives.
    let mut state = connected_state(base_opts());
    let mut incoming = publish(QoS::ExactlyOnce, b"hi");
    incoming.pid = Some(7);
    state
        .handle_incoming_mqtt_packet(Packet::Publish(incoming), 1)
        .unwrap();
    state
        .handle_outgoing_mqtt_packet(Packet::Publish(publish(QoS::AtLeastOnce, b"x")), 2)
        .unwrap();
    state.handle_disconnect();
    assert!(state.incoming_pub.is_empty());
    assert_eq!(state.outgoing_pub.len(), 1);
}

#[test]
fn unknown_acks_are_tolerated() {
    let mut state = connected_state(base_opts());
    let (n, r) = state.handle_incoming_mqtt_packet(Packet::Puback(42), 1).unwrap();
    assert!(n.is_none() && r.is_none());
    let (n, r) = state.handle_incoming_mqtt_packet(Packet::Pubcomp(42), 2).unwrap();
    assert!(n.is_none() && r.is_none());
    let (n, r) = state.handle_incoming_mqtt_packet(Packet::Pubrec(42), 3).unwrap();
    assert!(n.is_none());
    assert!(matches!(r, Some(Packet::Pubrel(42))));
    // An unknown PUBREC adds nothing to the pending release set.
    assert!(state.outgoing_rel.is_empty());
}

#[test]
fn broker_side_packets_are_protocol_errors() {
    let mut state = connected_state(base_opts());
    let result = state.handle_incoming_mqtt_packet(Packet::Pingreq, 1);
    assert!(matches!(result, Err(MqttError::ProtocolError(_))));
    assert!(matches!(state.connection_status, MqttConnectionStatus::Connected));
}

#[test]
fn subscribe_and_unsubscribe_get_fresh_ids() {
    let mut state = connected_state(base_opts());
    let out = state
        .handle_outgoing_mqtt_packet(
            Packet::Subscribe(rumqtt::packet::Subscribe {
                pid: 0,
                topics: vec![rumqtt::packet::SubscribeTopic {
                    topic_path: "a/b".to_string(),
                    qos: QoS::AtLeastOnce,
                }],
            }),
            1,
        )
        .unwrap();
    match out {
        Packet::Subscribe(s) => assert_eq!(s.pid, 1),
        other => panic!("expected a subscribe, got {:?}", other),
    }
    assert!(state.outgoing_pub.is_empty());
    let out = state
        .handle_outgoing_mqtt_packet(
            Packet::Unsubscribe(rumqtt::packet::Unsubscribe {
                pid: 0,
                topics: vec!["a/b".to_string()],
            }),
            2,
        )
        .unwrap();
    match out {
        Packet::Unsubscribe(u) => assert_eq!(u.pid, 2),
        other => panic!("expected an unsubscribe, got {:?}", other),
    }
}

#[test]
fn qos1_id_survives_everything_but_its_puback() {
    let mut state = connected_state(base_opts());
    state
        .handle_outgoing_mqtt_packet(Packet::Publish(publish(QoS::AtLeastOnce, b"x")), 1)
        .unwrap();
    state.handle_incoming_mqtt_packet(Packet::Puback(9), 2).unwrap();
    state.handle_incoming_mqtt_packet(Packet::Pubcomp(1), 3).unwrap();
    state.handle_incoming_mqtt_packet(Packet::Pingresp, 4).unwrap();
    assert_eq!(state.outgoing_pub.len(), 1);
    state.handle_incoming_mqtt_packet(Packet::Puback(1), 5).unwrap();
    assert!(state.outgoing_pub.is_empty());
    assert!(state.outgoing_rel.is_empty());
}

#[test]
fn host_prefix_splits_address_at_first_colon() {
    assert_eq!(host_prefix_len(b"example.com:8883"), 11);
    assert_eq!(host_prefix_len(b"localhost"), 9);
    assert_eq!(host_prefix_len(b":1883"), 0);
}

#[test]
fn peer_verification_follows_client_identity() {
    assert!(!ConnectionMethod::Tcp.use_peer_verification());
    assert!(!ConnectionMethod::Tls("ca.crt".to_string(), None).use_peer_verification());
    assert!(ConnectionMethod::Tls(
        "ca.crt".to_string(),
        Some(("client.crt".to_string(), "client.key".to_string()))
    )
    .use_peer_verification());
}
