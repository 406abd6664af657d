//! The byte-level framing is delegated to the `mqtt3` codec collaborator;
//! these tests witness that encoding then decoding a control packet through
//! it is the identity, which the session core's contracts build on when the
//! unverified edge moves its packets onto the wire.

use std::io::Cursor;
use std::sync::Arc;

use mqtt3::{
    Connack, Connect, ConnectReturnCode, MqttRead, MqttWrite, Packet, PacketIdentifier, Protocol,
    Publish, QoS, Suback, Subscribe, SubscribeReturnCodes, SubscribeTopic,
};

fn round_trip(packet: Packet) {
    let mut buffer = Cursor::new(Vec::new());
    buffer.write_packet(&packet).expect("encoding must succeed");
    buffer.set_position(0);
    let decoded = buffer.read_packet().expect("decoding must succeed");
    assert_eq!(decoded, packet);
}

#[test]
fn publish_packets_round_trip_at_every_qos() {
    for (qos, pid) in [
        (QoS::AtMostOnce, None),
        (QoS::AtLeastOnce, Some(PacketIdentifier(1))),
        (QoS::ExactlyOnce, Some(PacketIdentifier(65535))),
    ] {
        round_trip(Packet::Publish(Box::new(Publish {
            dup: false,
            qos,
            retain: true,
            topic_name: "a/b".to_string(),
            pid,
            payload: Arc::new(b"hi".to_vec()),
        })));
    }
}

#[test]
fn acknowledgement_packets_round_trip() {
    round_trip(Packet::Puback(PacketIdentifier(7)));
    round_trip(Packet::Pubrec(PacketIdentifier(8)));
    round_trip(Packet::Pubrel(PacketIdentifier(9)));
    round_trip(Packet::Pubcomp(PacketIdentifier(10)));
    round_trip(Packet::Unsuback(PacketIdentifier(11)));
}

#[test]
fn session_packets_round_trip() {
    round_trip(Packet::Connect(Box::new(Connect {
        protocol: Protocol::MQTT(4),
        keep_alive: 30,
        client_id: "client".to_string(),
        clean_session: true,
        last_will: None,
        username: Some("user".to_string()),
        password: None,
    })));
    round_trip(Packet::Connack(Connack {
        session_present: false,
        code: ConnectReturnCode::Accepted,
    }));
    round_trip(Packet::Subscribe(Box::new(Subscribe {
        pid: PacketIdentifier(2),
        topics: vec![SubscribeTopic {
            topic_path: "a/b".to_string(),
            qos: QoS::AtLeastOnce,
        }],
    })));
    round_trip(Packet::Suback(Box::new(Suback {
        pid: PacketIdentifier(2),
        return_codes: vec![SubscribeReturnCodes::Success(QoS::AtLeastOnce)],
    })));
    round_trip(Packet::Pingreq);
    round_trip(Packet::Pingresp);
    // A client only ever sends DISCONNECT, and the codec only encodes it:
    // its decoder rejects payload-less packets other than the two pings.
    let mut buffer = Cursor::new(Vec::new());
    buffer
        .write_packet(&Packet::Disconnect)
        .expect("encoding must succeed");
    assert_eq!(buffer.into_inner(), vec![0b1110_0000, 0]);
}
