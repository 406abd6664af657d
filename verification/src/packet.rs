//! The MQTT 3.1.1 control packets, as plain data. Byte-level framing is the
//! business of a codec collaborator outside this crate; the session logic
//! here works on these typed values alone.

use vstd::prelude::*;

verus! {

/// Delivery guarantee of a publish: at most once, at least once, exactly once.
#[derive(Clone, Copy, Debug, PartialEq, Eq, Structural)]
pub enum QoS {
    AtMostOnce,
    AtLeastOnce,
    ExactlyOnce,
}

/// Return code carried by a `CONNACK`.
#[derive(Clone, Copy, Debug, PartialEq, Eq, Structural)]
pub enum ConnectReturnCode {
    Accepted,
    RefusedProtocolVersion,
    RefusedIdentifierRejected,
    ServerUnavailable,
    BadUsernamePassword,
    NotAuthorized,
}

/// An application message, possibly carrying a packet identifier when its
/// QoS level asks for acknowledgement.
#[derive(Debug)]
pub struct Publish {
    pub dup: bool,
    pub qos: QoS,
    pub retain: bool,
    pub topic_name: String,
    pub pid: Option<u16>,
    pub payload: Vec<u8>,
}

/// Mathematical image of a [`Publish`].
pub struct PublishView {
    pub dup: bool,
    pub qos: QoS,
    pub retain: bool,
    pub topic_name: Seq<char>,
    pub pid: Option<u16>,
    pub payload: Seq<u8>,
}

impl View for Publish {
    type V = PublishView;

    open spec fn view(&self) -> PublishView {
        PublishView {
            dup: self.dup,
            qos: self.qos,
            retain: self.retain,
            topic_name: self.topic_name@,
            pid: self.pid,
            payload: self.payload@,
        }
    }
}

impl Clone for Publish {
    /// A clone carries the same message: equal views.
    fn clone(&self) -> (r: Self)
        ensures
            r@ == self@,
    {
        let r = Publish {
            dup: self.dup,
            qos: self.qos,
            retain: self.retain,
            topic_name: self.topic_name.clone(),
            pid: self.pid,
            payload: self.payload.clone(),
        };
        proof {
            assert(r@.payload =~= self@.payload);
        }
        r
    }
}

/// The will record a client registers at connect time.
#[derive(Debug)]
pub struct LastWill {
    pub topic: String,
    pub message: String,
    pub qos: QoS,
    pub retain: bool,
}

/// Mathematical image of a [`LastWill`].
pub struct LastWillView {
    pub topic: Seq<char>,
    pub message: Seq<char>,
    pub qos: QoS,
    pub retain: bool,
}

impl View for LastWill {
    type V = LastWillView;

    open spec fn view(&self) -> LastWillView {
        LastWillView {
            topic: self.topic@,
            message: self.message@,
            qos: self.qos,
            retain: self.retain,
        }
    }
}

impl Clone for LastWill {
    fn clone(&self) -> (r: Self)
        ensures
            r@ == self@,
    {
        LastWill {
            topic: self.topic.clone(),
            message: self.message.clone(),
            qos: self.qos,
            retain: self.retain,
        }
    }
}

/// The `CONNECT` packet a client opens a session with.
#[derive(Clone, Debug)]
pub struct Connect {
    pub keep_alive: u16,
    pub client_id: String,
    pub clean_session: bool,
    pub last_will: Option<LastWill>,
    pub username: Option<String>,
    pub password: Option<String>,
}

/// Mathematical image of a [`Connect`].
pub struct ConnectView {
    pub keep_alive: u16,
    pub client_id: Seq<char>,
    pub clean_session: bool,
    pub last_will: Option<LastWillView>,
    pub username: Option<Seq<char>>,
    pub password: Option<Seq<char>>,
}

pub open spec fn opt_string_view(o: Option<String>) -> Option<Seq<char>> {
    match o {
        Some(s) => Some(s@),
        None => None,
    }
}

pub open spec fn opt_will_view(o: Option<LastWill>) -> Option<LastWillView> {
    match o {
        Some(w) => Some(w@),
        None => None,
    }
}

impl View for Connect {
    type V = ConnectView;

    open spec fn view(&self) -> ConnectView {
        ConnectView {
            keep_alive: self.keep_alive,
            client_id: self.client_id@,
            clean_session: self.clean_session,
            last_will: opt_will_view(self.last_will),
            username: opt_string_view(self.username),
            password: opt_string_view(self.password),
        }
    }
}

/// The broker's answer to a `CONNECT`.
#[derive(Clone, Copy, Debug, PartialEq, Eq, Structural)]
pub struct Connack {
    pub session_present: bool,
    pub code: ConnectReturnCode,
}

/// One topic filter requested by a `SUBSCRIBE`.
#[derive(Clone, Debug)]
pub struct SubscribeTopic {
    pub topic_path: String,
    pub qos: QoS,
}

/// Mathematical image of a [`SubscribeTopic`].
pub struct SubscribeTopicView {
    pub topic_path: Seq<char>,
    pub qos: QoS,
}

impl View for SubscribeTopic {
    type V = SubscribeTopicView;

    open spec fn view(&self) -> SubscribeTopicView {
        SubscribeTopicView { topic_path: self.topic_path@, qos: self.qos }
    }
}

/// A subscription request; the session assigns its packet identifier.
#[derive(Clone, Debug)]
pub struct Subscribe {
    pub pid: u16,
    pub topics: Vec<SubscribeTopic>,
}

/// Mathematical image of a [`Subscribe`].
pub struct SubscribeView {
    pub pid: u16,
    pub topics: Seq<SubscribeTopicView>,
}

impl View for Subscribe {
    type V = SubscribeView;

    open spec fn view(&self) -> SubscribeView {
        SubscribeView {
            pid: self.pid,
            topics: self.topics@.map_values(|t: SubscribeTopic| t@),
        }
    }
}

/// The broker's per-topic answer to a `SUBSCRIBE`.
#[derive(Clone, Copy, Debug, PartialEq, Eq, Structural)]
pub enum SubscribeReturnCode {
    Success(QoS),
    Failure,
}

/// The broker's answer to a `SUBSCRIBE`.
#[derive(Clone, Debug)]
pub struct Suback {
    pub pid: u16,
    pub return_codes: Vec<SubscribeReturnCode>,
}

/// Mathematical image of a [`Suback`].
pub struct SubackView {
    pub pid: u16,
    pub return_codes: Seq<SubscribeReturnCode>,
}

impl View for Suback {
    type V = SubackView;

    open spec fn view(&self) -> SubackView {
        SubackView { pid: self.pid, return_codes: self.return_codes@ }
    }
}

/// An unsubscription request; the session assigns its packet identifier.
#[derive(Clone, Debug)]
pub struct Unsubscribe {
    pub pid: u16,
    pub topics: Vec<String>,
}

/// Mathematical image of an [`Unsubscribe`].
pub struct UnsubscribeView {
    pub pid: u16,
    pub topics: Seq<Seq<char>>,
}

impl View for Unsubscribe {
    type V = UnsubscribeView;

    open spec fn view(&self) -> UnsubscribeView {
        UnsubscribeView {
            pid: self.pid,
            topics: self.topics@.map_values(|t: String| t@),
        }
    }
}

/// Sum of the MQTT 3.1.1 control packets.
#[derive(Clone, Debug)]
pub enum Packet {
    Connect(Connect),
    Connack(Connack),
    Publish(Publish),
    Puback(u16),
    Pubrec(u16),
    Pubrel(u16),
    Pubcomp(u16),
    Subscribe(Subscribe),
    Suback(Suback),
    Unsubscribe(Unsubscribe),
    Unsuback(u16),
    Pingreq,
    Pingresp,
    Disconnect,
}

/// Mathematical image of a [`Packet`].
pub enum PacketView {
    Connect(ConnectView),
    Connack(Connack),
    Publish(PublishView),
    Puback(u16),
    Pubrec(u16),
    Pubrel(u16),
    Pubcomp(u16),
    Subscribe(SubscribeView),
    Suback(SubackView),
    Unsubscribe(UnsubscribeView),
    Unsuback(u16),
    Pingreq,
    Pingresp,
    Disconnect,
}

impl View for Packet {
    type V = PacketView;

    open spec fn view(&self) -> PacketView {
        match self {
            Packet::Connect(c) => PacketView::Connect(c@),
            Packet::Connack(c) => PacketView::Connack(*c),
            Packet::Publish(p) => PacketView::Publish(p@),
            Packet::Puback(pid) => PacketView::Puback(*pid),
            Packet::Pubrec(pid) => PacketView::Pubrec(*pid),
            Packet::Pubrel(pid) => PacketView::Pubrel(*pid),
            Packet::Pubcomp(pid) => PacketView::Pubcomp(*pid),
            Packet::Subscribe(s) => PacketView::Subscribe(s@),
            Packet::Suback(s) => PacketView::Suback(s@),
            Packet::Unsubscribe(u) => PacketView::Unsubscribe(u@),
            Packet::Unsuback(pid) => PacketView::Unsuback(*pid),
            Packet::Pingreq => PacketView::Pingreq,
            Packet::Pingresp => PacketView::Pingresp,
            Packet::Disconnect => PacketView::Disconnect,
        }
    }
}

/// View of an optional packet, used by the incoming dispatch contracts.
pub open spec fn opt_packet_view(o: Option<Packet>) -> Option<PacketView> {
    match o {
        Some(p) => Some(p@),
        None => None,
    }
}

/// View of a packet sequence, used by the reconnection contract.
pub open spec fn packets_view(s: Seq<Packet>) -> Seq<PacketView> {
    s.map_values(|p: Packet| p@)
}

} // verus!
