//! Immutable client configuration. Construction of these value objects is
//! plain data plumbing; the session logic reads the keep-alive interval, the
//! clean-session flag, the identity fields and the size cap.

use vstd::prelude::*;

use crate::packet::LastWill;
use crate::packet::LastWillView;
use crate::packet::opt_will_view;

verus! {

/// Username and password handed to the broker at connect time.
#[derive(Clone, Debug)]
pub struct Credentials {
    pub username: String,
    pub password: String,
}

/// Mathematical image of [`Credentials`].
pub struct CredentialsView {
    pub username: Seq<char>,
    pub password: Seq<char>,
}

impl View for Credentials {
    type V = CredentialsView;

    open spec fn view(&self) -> CredentialsView {
        CredentialsView { username: self.username@, password: self.password@ }
    }
}

/// How the transport reaches the broker: plain TCP, or TLS with a CA
/// certificate path and an optional client certificate/key pair (paths).
#[derive(Clone, Debug)]
pub enum ConnectionMethod {
    Tcp,
    Tls(String, Option<(String, String)>),
}

/// Mathematical image of a [`ConnectionMethod`].
pub enum ConnectionMethodView {
    Tcp,
    Tls(Seq<char>, Option<(Seq<char>, Seq<char>)>),
}

impl View for ConnectionMethod {
    type V = ConnectionMethodView;

    open spec fn view(&self) -> ConnectionMethodView {
        match self {
            ConnectionMethod::Tcp => ConnectionMethodView::Tcp,
            ConnectionMethod::Tls(ca, pair) => ConnectionMethodView::Tls(
                ca@,
                match pair {
                    Some(p) => Some((p.0@, p.1@)),
                    None => None,
                },
            ),
        }
    }
}

impl ConnectionMethod {
    /// Peer verification is enabled exactly when a client certificate and
    /// key were supplied; without a client identity it is switched off.
    pub fn use_peer_verification(&self) -> (r: bool)
        ensures
            r == (self@ matches ConnectionMethodView::Tls(_, pair) && pair is Some),
    {
        match self {
            ConnectionMethod::Tcp => false,
            ConnectionMethod::Tls(_, pair) => pair.is_some(),
        }
    }
}

/// Reconnection policy, consulted by the supervising caller and never by the
/// session core itself.
#[derive(Clone, Copy, Debug, PartialEq, Eq, Structural)]
pub enum ReconnectOptions {
    Never,
    AfterFirstSuccess(u64),
    Always(u64),
}

/// Immutable configuration of one client session.
#[derive(Clone, Debug)]
pub struct MqttOptions {
    /// `host:port`; the host part is used for DNS and as the SNI domain.
    pub broker_addr: String,
    /// Keep-alive interval in seconds; `None` means no pings are sent.
    pub keep_alive: Option<u16>,
    pub client_id: String,
    pub clean_session: bool,
    pub credentials: Option<Credentials>,
    pub last_will: Option<LastWill>,
    /// Cap on the number of unacknowledged outgoing publishes; enforced as
    /// the bound of the command queue, outside the session core.
    pub inflight: usize,
    /// Largest accepted outbound publish payload, in bytes.
    pub max_packet_size: usize,
    pub connection_method: ConnectionMethod,
    pub reconnect: ReconnectOptions,
}

/// Mathematical image of [`MqttOptions`].
pub struct OptionsView {
    pub broker_addr: Seq<char>,
    pub keep_alive: Option<u16>,
    pub client_id: Seq<char>,
    pub clean_session: bool,
    pub credentials: Option<CredentialsView>,
    pub last_will: Option<LastWillView>,
    pub inflight: usize,
    pub max_packet_size: usize,
    pub connection_method: ConnectionMethodView,
    pub reconnect: ReconnectOptions,
}

impl View for MqttOptions {
    type V = OptionsView;

    open spec fn view(&self) -> OptionsView {
        OptionsView {
            broker_addr: self.broker_addr@,
            keep_alive: self.keep_alive,
            client_id: self.client_id@,
            clean_session: self.clean_session,
            credentials: match self.credentials {
                Some(c) => Some(c@),
                None => None,
            },
            last_will: opt_will_view(self.last_will),
            inflight: self.inflight,
            max_packet_size: self.max_packet_size,
            connection_method: self.connection_method@,
            reconnect: self.reconnect,
        }
    }
}

/// Length of the host part of a `host:port` broker address given as bytes:
/// the index of the first `:`, or the whole length when none occurs. The
/// unverified edge slices the address with this to obtain the DNS name and
/// the SNI domain.
pub fn host_prefix_len(addr: &[u8]) -> (r: usize)
    ensures
        r <= addr@.len(),
        forall|i: int| 0 <= i < r ==> addr@[i] != 58u8,
        r < addr@.len() ==> addr@[r as int] == 58u8,
{
    let mut i: usize = 0;
    while i < addr.len()
        invariant
            i <= addr@.len(),
            forall|j: int| 0 <= j < i ==> addr@[j] != 58u8,
        decreases addr@.len() - i,
    {
        if addr[i] == 58u8 {
            return i;
        }
        i = i + 1;
    }
    i
}

} // verus!
