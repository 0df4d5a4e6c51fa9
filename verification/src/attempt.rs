//! One attempt to connect with a given IP version.
//!
//! An `AttemptState` says what is to be done outside; the `AttemptEvent` that comes
//! of it leads to the next state.

use crate::types::{IpVersion, ReconnResult, ReconnResultView, TunnelInfo};
use vstd::prelude::*;

verus! {

/// How the remote address of a new tunnel compares with the URL that was asked for.
#[derive(Debug)]
pub enum RemoteCheck {
    /// The tunnel leads to the URL itself.
    Same,
    /// The tunnel leads elsewhere.
    Changed { actual: String },
    /// The tunnel does not tell its remote address.
    NoRemoteAddr,
    /// The tunnel tells nothing of itself.
    NoInfo,
}

/// `RemoteCheck` as contracts speak of it.
pub enum RemoteCheckView {
    Same,
    Changed { actual: Seq<char> },
    NoRemoteAddr,
    NoInfo,
}

impl View for RemoteCheck {
    type V = RemoteCheckView;

    open spec fn view(&self) -> RemoteCheckView {
        match *self {
            RemoteCheck::Same => RemoteCheckView::Same,
            RemoteCheck::Changed { actual } => RemoteCheckView::Changed { actual: actual@ },
            RemoteCheck::NoRemoteAddr => RemoteCheckView::NoRemoteAddr,
            RemoteCheck::NoInfo => RemoteCheckView::NoInfo,
        }
    }
}

/// What the information of a tunnel to `dead_url` says of its remote address.
pub open spec fn checked(dead_url: Seq<char>, info: Option<TunnelInfo>) -> RemoteCheckView {
    match info {
        None => RemoteCheckView::NoInfo,
        Some(info) => match info.remote_addr {
            None => RemoteCheckView::NoRemoteAddr,
            Some(addr) => if addr@ == dead_url {
                RemoteCheckView::Same
            } else {
                RemoteCheckView::Changed { actual: addr@ }
            },
        },
    }
}

/// What is to be done next in an attempt.
#[derive(Debug)]
pub enum AttemptState<E> {
    /// Hold the connector to this IP version.
    SetIpVersion { dead_url: String, ip_version: IpVersion },
    /// Bind the connector to the addresses of the local devices, of version 4 or not.
    BindAddrs { dead_url: String, is_ipv4: bool },
    /// Ask the connector for the URL that it connects to.
    ReadRemoteUrl { dead_url: String },
    /// Tell the rest of the node that a connection to this URL begins.
    Announce { dead_url: String, remote_url: String },
    /// Connect.
    Connect { dead_url: String },
    /// Hand the tunnel to the peer manager.
    AddTunnel { dead_url: String, remote: RemoteCheck },
    /// The attempt is over.
    Finished { result: Result<ReconnResult, E> },
}

/// `AttemptState` as contracts speak of it.
pub enum AttemptView<E> {
    SetIpVersion { dead_url: Seq<char>, ip_version: IpVersion },
    BindAddrs { dead_url: Seq<char>, is_ipv4: bool },
    ReadRemoteUrl { dead_url: Seq<char> },
    Announce { dead_url: Seq<char>, remote_url: Seq<char> },
    Connect { dead_url: Seq<char> },
    AddTunnel { dead_url: Seq<char>, remote: RemoteCheckView },
    Finished { result: Result<ReconnResultView, E> },
}

impl<E> View for AttemptState<E> {
    type V = AttemptView<E>;

    open spec fn view(&self) -> AttemptView<E> {
        match *self {
            AttemptState::SetIpVersion { dead_url, ip_version } => AttemptView::SetIpVersion {
                dead_url: dead_url@,
                ip_version,
            },
            AttemptState::BindAddrs { dead_url, is_ipv4 } => AttemptView::BindAddrs {
                dead_url: dead_url@,
                is_ipv4,
            },
            AttemptState::ReadRemoteUrl { dead_url } => AttemptView::ReadRemoteUrl {
                dead_url: dead_url@,
            },
            AttemptState::Announce { dead_url, remote_url } => AttemptView::Announce {
                dead_url: dead_url@,
                remote_url: remote_url@,
            },
            AttemptState::Connect { dead_url } => AttemptView::Connect { dead_url: dead_url@ },
            AttemptState::AddTunnel { dead_url, remote } => AttemptView::AddTunnel {
                dead_url: dead_url@,
                remote: remote@,
            },
            AttemptState::Finished { result: Ok(done) } => AttemptView::Finished {
                result: Ok(done@),
            },
            AttemptState::Finished { result: Err(error) } => AttemptView::Finished {
                result: Err(error),
            },
        }
    }
}

/// What came of it.
#[derive(Debug)]
pub enum AttemptEvent<E> {
    /// The connector is held to the IP version; are connectors bound to devices?
    IpVersionSet { bind_device: bool },
    /// The connector is bound.
    AddrsBound,
    /// The connector connects to this URL.
    RemoteUrl(String),
    /// The beginning was told.
    Announced,
    /// There is a tunnel, which tells this of itself.
    Connected(Option<TunnelInfo>),
    /// There is no tunnel.
    ConnectFailed(E),
    /// The peer manager took the tunnel.
    TunnelAdded { peer_id: u32, conn_id: u128 },
    /// The peer manager did not take the tunnel.
    TunnelRefused(E),
}

/// `AttemptEvent` as contracts speak of it.
pub enum AttemptEventView<E> {
    IpVersionSet { bind_device: bool },
    AddrsBound,
    RemoteUrl(Seq<char>),
    Announced,
    Connected(Option<TunnelInfo>),
    ConnectFailed(E),
    TunnelAdded { peer_id: u32, conn_id: u128 },
    TunnelRefused(E),
}

impl<E> View for AttemptEvent<E> {
    type V = AttemptEventView<E>;

    open spec fn view(&self) -> AttemptEventView<E> {
        match *self {
            AttemptEvent::IpVersionSet { bind_device } => AttemptEventView::IpVersionSet {
                bind_device,
            },
            AttemptEvent::AddrsBound => AttemptEventView::AddrsBound,
            AttemptEvent::RemoteUrl(url) => AttemptEventView::RemoteUrl(url@),
            AttemptEvent::Announced => AttemptEventView::Announced,
            AttemptEvent::Connected(info) => AttemptEventView::Connected(info),
            AttemptEvent::ConnectFailed(error) => AttemptEventView::ConnectFailed(error),
            AttemptEvent::TunnelAdded { peer_id, conn_id } => AttemptEventView::TunnelAdded {
                peer_id,
                conn_id,
            },
            AttemptEvent::TunnelRefused(error) => AttemptEventView::TunnelRefused(error),
        }
    }
}

impl<E> AttemptView<E> {
    /// Where an event leads. One that does not belong to the state changes nothing.
    pub open spec fn step(self, event: AttemptEventView<E>) -> AttemptView<E> {
        match (self, event) {
            (
                AttemptView::SetIpVersion { dead_url, ip_version },
                AttemptEventView::IpVersionSet { bind_device },
            ) => if bind_device {
                AttemptView::BindAddrs { dead_url, is_ipv4: ip_version == IpVersion::V4 }
            } else {
                AttemptView::ReadRemoteUrl { dead_url }
            },
            (
                AttemptView::BindAddrs { dead_url, .. },
                AttemptEventView::AddrsBound,
            ) => AttemptView::ReadRemoteUrl { dead_url },
            (
                AttemptView::ReadRemoteUrl { dead_url },
                AttemptEventView::RemoteUrl(remote_url),
            ) => AttemptView::Announce { dead_url, remote_url },
            (
                AttemptView::Announce { dead_url, .. },
                AttemptEventView::Announced,
            ) => AttemptView::Connect { dead_url },
            (
                AttemptView::Connect { dead_url },
                AttemptEventView::Connected(info),
            ) => AttemptView::AddTunnel { dead_url, remote: checked(dead_url, info) },
            (
                AttemptView::Connect { .. },
                AttemptEventView::ConnectFailed(error),
            ) => AttemptView::Finished { result: Err(error) },
            (
                AttemptView::AddTunnel { dead_url, .. },
                AttemptEventView::TunnelAdded { peer_id, conn_id },
            ) => AttemptView::Finished {
                result: Ok(ReconnResultView { dead_url, peer_id, conn_id }),
            },
            (
                AttemptView::AddTunnel { .. },
                AttemptEventView::TunnelRefused(error),
            ) => AttemptView::Finished { result: Err(error) },
            _ => self,
        }
    }

    /// Where these events lead, one after the other.
    pub open spec fn run(self, events: Seq<AttemptEventView<E>>) -> AttemptView<E>
        decreases events.len(),
    {
        if events.len() == 0 {
            self
        } else {
            self.step(events[0]).run(events.skip(1))
        }
    }

    /// The URL that the attempt is made for, while it lasts.
    pub open spec fn target(self) -> Option<Seq<char>> {
        match self {
            AttemptView::SetIpVersion { dead_url, .. } => Some(dead_url),
            AttemptView::BindAddrs { dead_url, .. } => Some(dead_url),
            AttemptView::ReadRemoteUrl { dead_url } => Some(dead_url),
            AttemptView::Announce { dead_url, .. } => Some(dead_url),
            AttemptView::Connect { dead_url } => Some(dead_url),
            AttemptView::AddTunnel { dead_url, .. } => Some(dead_url),
            AttemptView::Finished { .. } => None,
        }
    }

    /// A bound on how many more events the attempt can take.
    pub open spec fn events_left(self) -> nat {
        match self {
            AttemptView::SetIpVersion { .. } => 6,
            AttemptView::BindAddrs { .. } => 5,
            AttemptView::ReadRemoteUrl { .. } => 4,
            AttemptView::Announce { .. } => 3,
            AttemptView::Connect { .. } => 2,
            AttemptView::AddTunnel { .. } => 1,
            AttemptView::Finished { .. } => 0,
        }
    }
}

/// Compares the remote address of a tunnel with the URL that was asked for.
pub fn check_remote_addr(dead_url: &String, info: Option<TunnelInfo>) -> (remote: RemoteCheck)
    ensures
        remote@ == checked(dead_url@, info),
{
    match info {
        None => RemoteCheck::NoInfo,
        Some(info) => match info.remote_addr {
            None => RemoteCheck::NoRemoteAddr,
            Some(actual) => if *dead_url != actual {
                RemoteCheck::Changed { actual }
            } else {
                RemoteCheck::Same
            },
        },
    }
}

impl<E> AttemptState<E> {
    /// Starts an attempt to connect to `dead_url` with this IP version.
    pub fn start(dead_url: String, ip_version: IpVersion) -> (state: Self)
        ensures
            state@ == (AttemptView::<E>::SetIpVersion { dead_url: dead_url@, ip_version }),
    {
        AttemptState::SetIpVersion { dead_url, ip_version }
    }

    /// Takes what came of the last state, and says what to do next.
    pub fn step(self, event: AttemptEvent<E>) -> (next: Self)
        ensures
            next@ == self@.step(event@),
    {
        match (self, event) {
            (
                AttemptState::SetIpVersion { dead_url, ip_version },
                AttemptEvent::IpVersionSet { bind_device },
            ) => if bind_device {
                AttemptState::BindAddrs { dead_url, is_ipv4: ip_version == IpVersion::V4 }
            } else {
                AttemptState::ReadRemoteUrl { dead_url }
            },
            (
                AttemptState::BindAddrs { dead_url, .. },
                AttemptEvent::AddrsBound,
            ) => AttemptState::ReadRemoteUrl { dead_url },
            (
                AttemptState::ReadRemoteUrl { dead_url },
                AttemptEvent::RemoteUrl(remote_url),
            ) => AttemptState::Announce { dead_url, remote_url },
            (
                AttemptState::Announce { dead_url, .. },
                AttemptEvent::Announced,
            ) => AttemptState::Connect { dead_url },
            (AttemptState::Connect { dead_url }, AttemptEvent::Connected(info)) => {
                let remote = check_remote_addr(&dead_url, info);
                AttemptState::AddTunnel { dead_url, remote }
            },
            (
                AttemptState::Connect { .. },
                AttemptEvent::ConnectFailed(error),
            ) => AttemptState::Finished { result: Err(error) },
            (
                AttemptState::AddTunnel { dead_url, .. },
                AttemptEvent::TunnelAdded { peer_id, conn_id },
            ) => AttemptState::Finished {
                result: Ok(ReconnResult { dead_url, peer_id, conn_id }),
            },
            (
                AttemptState::AddTunnel { .. },
                AttemptEvent::TunnelRefused(error),
            ) => AttemptState::Finished { result: Err(error) },
            (state, _) => state,
        }
    }
}

/// Every attempt ends: each event that belongs to its state leaves fewer to come, and
/// none is left exactly when the attempt is over.
pub proof fn law_attempt_ends<E>(state: AttemptView<E>, event: AttemptEventView<E>)
    ensures
        state.step(event) == state || state.step(event).events_left() < state.events_left(),
        state.events_left() == 0 <==> state is Finished,
{
}

/// An attempt that succeeds reports the URL that it was made for.
pub proof fn law_attempt_reports_its_url<E>(
    state: AttemptView<E>,
    events: Seq<AttemptEventView<E>>,
)
    requires
        !(state is Finished),
    ensures
        match state.run(events) {
            AttemptView::Finished { result: Ok(done) } => state.target() == Some(done.dead_url),
            AttemptView::Finished { result: Err(_) } => true,
            later => later.target() == state.target(),
        },
    decreases events.len(),
{
    if events.len() > 0 {
        let next = state.step(events[0]);
        if next is Finished {
            lemma_finished_stays(next, events.skip(1));
        } else {
            law_attempt_reports_its_url(next, events.skip(1));
        }
    }
}

proof fn lemma_finished_stays<E>(state: AttemptView<E>, events: Seq<AttemptEventView<E>>)
    requires
        state is Finished,
    ensures
        state.run(events) == state,
    decreases events.len(),
{
    if events.len() > 0 {
        lemma_finished_stays(state, events.skip(1));
    }
}

/// No connection is opened before its beginning was told, and no tunnel is handed on
/// that was not opened.
pub proof fn law_attempt_order<E>(state: AttemptView<E>, event: AttemptEventView<E>)
    ensures
        state.step(event) is Connect ==> state is Connect || (state is Announce && event
            is Announced),
        state.step(event) is AddTunnel ==> state is AddTunnel || (state is Connect && event
            is Connected),
{
}

/// An attempt that is connecting and gets its tunnel goes on to hand it over for the same
/// URL, whatever the tunnel tells of itself; without a tunnel it ends with the error.
pub proof fn law_open_tunnel_is_handed_over<E>(
    dead_url: Seq<char>,
    info: Option<TunnelInfo>,
    error: E,
)
    ensures
        ({
            let opened = (AttemptView::<E>::Connect { dead_url }).step(
                AttemptEventView::Connected(info),
            );
            &&& opened is AddTunnel
            &&& opened->AddTunnel_dead_url == dead_url
        }),
        (AttemptView::<E>::Connect { dead_url }).step(AttemptEventView::ConnectFailed(error)) == (
        AttemptView::<E>::Finished { result: Err(error) }),
{
}

/// A tunnel that the peer manager takes makes the attempt succeed with the URL, the peer and
/// the connection; one that it refuses makes it fail with the reason. What the tunnel told
/// of its remote address does not matter.
pub proof fn law_peer_manager_decides<E>(
    dead_url: Seq<char>,
    remote: RemoteCheckView,
    peer_id: u32,
    conn_id: u128,
    error: E,
)
    ensures
        ({
            let state = AttemptView::<E>::AddTunnel { dead_url, remote };
            &&& state.step(AttemptEventView::TunnelAdded { peer_id, conn_id }) == (AttemptView::<
                E,
            >::Finished { result: Ok(ReconnResultView { dead_url, peer_id, conn_id }) })
            &&& state.step(AttemptEventView::TunnelRefused(error)) == (AttemptView::<
                E,
            >::Finished { result: Err(error) })
        }),
{
}

/// An attempt in which every step succeeds sets the version, binds the connector where
/// connectors are bound, announces the URL that the connector connects to, connects, hands
/// over the tunnel, and ends with the URL, the peer and the connection.
pub proof fn law_attempt_runs_its_course<E>(
    dead_url: Seq<char>,
    ip_version: IpVersion,
    bind_device: bool,
    remote_url: Seq<char>,
    info: Option<TunnelInfo>,
    peer_id: u32,
    conn_id: u128,
)
    ensures
        ({
            let begun = (AttemptView::<E>::SetIpVersion { dead_url, ip_version }).step(
                AttemptEventView::IpVersionSet { bind_device },
            );
            let bound = if bind_device {
                begun.step(AttemptEventView::AddrsBound)
            } else {
                begun
            };
            let read = bound.step(AttemptEventView::RemoteUrl(remote_url));
            let told = read.step(AttemptEventView::Announced);
            let opened = told.step(AttemptEventView::Connected(info));
            &&& bind_device ==> begun == (AttemptView::<E>::BindAddrs {
                dead_url,
                is_ipv4: ip_version == IpVersion::V4,
            })
            &&& bound == (AttemptView::<E>::ReadRemoteUrl { dead_url })
            &&& read == (AttemptView::<E>::Announce { dead_url, remote_url })
            &&& told == (AttemptView::<E>::Connect { dead_url })
            &&& opened is AddTunnel
            &&& opened.step(AttemptEventView::TunnelAdded { peer_id, conn_id }) == (AttemptView::<
                E,
            >::Finished { result: Ok(ReconnResultView { dead_url, peer_id, conn_id }) })
        }),
{
}

/// A connector that was bound, to addresses of whichever version, is asked for its URL; and
/// whatever URL was announced, connecting comes next.
pub proof fn law_binding_and_announcing_lead_on<E>(
    dead_url: Seq<char>,
    is_ipv4: bool,
    remote_url: Seq<char>,
)
    ensures
        (AttemptView::<E>::BindAddrs { dead_url, is_ipv4 }).step(AttemptEventView::AddrsBound) == (
        AttemptView::<E>::ReadRemoteUrl { dead_url }),
        (AttemptView::<E>::Announce { dead_url, remote_url }).step(AttemptEventView::Announced)
            == (AttemptView::<E>::Connect { dead_url }),
{
}

/// An event that does not belong to the state changes nothing.
pub proof fn law_events_out_of_place_change_nothing<E>(
    state: AttemptView<E>,
    event: AttemptEventView<E>,
)
    requires
        state is SetIpVersion ==> !(event is IpVersionSet),
        state is BindAddrs ==> !(event is AddrsBound),
        state is ReadRemoteUrl ==> !(event is RemoteUrl),
        state is Announce ==> !(event is Announced),
        state is Connect ==> !(event is Connected) && !(event is ConnectFailed),
        state is AddTunnel ==> !(event is TunnelAdded) && !(event is TunnelRefused),
    ensures
        state.step(event) == state,
{
}

/// A tunnel leads to the URL itself exactly when it tells that very address; another address
/// that it tells is passed on, and what it does not tell is told apart.
pub proof fn law_remote_address_is_compared(dead_url: Seq<char>, addr: String)
    ensures
        ({
            let told = checked(dead_url, Some(TunnelInfo { remote_addr: Some(addr) }));
            &&& told is Same <==> addr@ == dead_url
            &&& addr@ != dead_url ==> told == (RemoteCheckView::Changed { actual: addr@ })
        }),
        checked(dead_url, Some(TunnelInfo { remote_addr: None })) is NoRemoteAddr,
        checked(dead_url, None) is NoInfo,
{
}

/// A state, and what a tunnel told of its remote address, are shown with all that they hold.
pub proof fn law_attempt_is_shown_in_full<E>(state: AttemptState<E>, remote: RemoteCheck)
    ensures
        match state {
            AttemptState::SetIpVersion { dead_url, ip_version } => state@ == (AttemptView::<
                E,
            >::SetIpVersion { dead_url: dead_url@, ip_version }),
            AttemptState::BindAddrs { dead_url, is_ipv4 } => state@ == (AttemptView::<
                E,
            >::BindAddrs { dead_url: dead_url@, is_ipv4 }),
            AttemptState::ReadRemoteUrl { dead_url } => state@ == (AttemptView::<
                E,
            >::ReadRemoteUrl { dead_url: dead_url@ }),
            AttemptState::Announce { dead_url, remote_url } => state@ == (AttemptView::<
                E,
            >::Announce { dead_url: dead_url@, remote_url: remote_url@ }),
            AttemptState::Connect { dead_url } => state@ == (AttemptView::<E>::Connect {
                dead_url: dead_url@,
            }),
            AttemptState::AddTunnel { dead_url, remote: told } => state@ == (AttemptView::<
                E,
            >::AddTunnel { dead_url: dead_url@, remote: told@ }),
            AttemptState::Finished { result: Ok(done) } => state@ == (AttemptView::<
                E,
            >::Finished { result: Ok(done@) }),
            AttemptState::Finished { result: Err(error) } => state@ == (AttemptView::<
                E,
            >::Finished { result: Err(error) }),
        },
        match remote {
            RemoteCheck::Same => remote@ is Same,
            RemoteCheck::Changed { actual } => remote@ == (RemoteCheckView::Changed {
                actual: actual@,
            }),
            RemoteCheck::NoRemoteAddr => remote@ is NoRemoteAddr,
            RemoteCheck::NoInfo => remote@ is NoInfo,
        },
{
}

/// An event is shown with all that it holds.
pub proof fn law_attempt_event_is_shown_in_full<E>(event: AttemptEvent<E>)
    ensures
        match event {
            AttemptEvent::IpVersionSet { bind_device } => event@ == (AttemptEventView::<
                E,
            >::IpVersionSet { bind_device }),
            AttemptEvent::AddrsBound => event@ is AddrsBound,
            AttemptEvent::RemoteUrl(url) => event@ == AttemptEventView::<E>::RemoteUrl(url@),
            AttemptEvent::Announced => event@ is Announced,
            AttemptEvent::Connected(info) => event@ == AttemptEventView::<E>::Connected(info),
            AttemptEvent::ConnectFailed(error) => event@ == AttemptEventView::<E>::ConnectFailed(
                error,
            ),
            AttemptEvent::TunnelAdded { peer_id, conn_id } => event@ == (AttemptEventView::<
                E,
            >::TunnelAdded { peer_id, conn_id }),
            AttemptEvent::TunnelRefused(error) => event@ == AttemptEventView::<E>::TunnelRefused(
                error,
            ),
        },
{
}

} // verus!
