//! The plain values that connectors, tunnels and peers are described by.

use vstd::prelude::*;

verus! {

/// Which IP version a connector may use.
#[derive(Clone, Copy, Debug, PartialEq, Eq, Structural)]
pub enum IpVersion {
    V4,
    V6,
    Both,
}

/// The kind of a resolved address.
#[derive(Clone, Copy, Debug, PartialEq, Eq, Structural)]
pub enum AddrFamily {
    V4,
    V6,
}

/// What a tunnel tells of itself.
#[derive(Debug)]
pub struct TunnelInfo {
    /// The URL of the other end.
    pub remote_addr: Option<String>,
}

/// The connection to a peer, as far as the connector manager looks at it.
#[derive(Debug)]
pub struct PeerConnInfo {
    /// Did this side open the connection?
    pub is_client: bool,
    pub tunnel: Option<TunnelInfo>,
}

impl PeerConnInfo {
    /// The URL of the peer, where the tunnel tells it.
    pub open spec fn remote_addr(self) -> Option<Seq<char>> {
        match self.tunnel {
            Some(TunnelInfo { remote_addr: Some(addr) }) => Some(addr@),
            _ => None,
        }
    }
}

/// What the rest of the node reports.
#[derive(Debug)]
pub enum GlobalCtxEvent {
    PeerConnAdded(PeerConnInfo),
    PeerConnRemoved(PeerConnInfo),
    /// Any event that does not concern connectors.
    Other,
}

/// The state of a connector.
#[derive(Clone, Copy, Debug, PartialEq, Eq, Structural)]
pub enum ConnectorStatus {
    Connected,
    Disconnected,
    Connecting,
}

/// One line of the list of connectors.
#[derive(Debug)]
pub struct Connector {
    pub url: Option<String>,
    pub status: ConnectorStatus,
}

/// `Connector` as contracts speak of it.
pub struct ConnectorView {
    pub url: Option<Seq<char>>,
    pub status: ConnectorStatus,
}

impl View for Connector {
    type V = ConnectorView;

    open spec fn view(&self) -> ConnectorView {
        ConnectorView {
            url: match self.url {
                Some(url) => Some(url@),
                None => None,
            },
            status: self.status,
        }
    }
}

/// A reconnection that succeeded.
#[derive(Debug)]
pub struct ReconnResult {
    pub dead_url: String,
    pub peer_id: u32,
    pub conn_id: u128,
}

/// `ReconnResult` as contracts speak of it.
pub struct ReconnResultView {
    pub dead_url: Seq<char>,
    pub peer_id: u32,
    pub conn_id: u128,
}

impl View for ReconnResult {
    type V = ReconnResultView;

    open spec fn view(&self) -> ReconnResultView {
        ReconnResultView {
            dead_url: self.dead_url@,
            peer_id: self.peer_id,
            conn_id: self.conn_id,
        }
    }
}

} // verus!
