use manual_connector::attempt::{check_remote_addr, AttemptEvent, AttemptState, RemoteCheck};
use manual_connector::reconnect::{
    attempt_outcome, ip_versions, needs_redirect_lookup, next_attempt, plan_connection,
    ReconnectError, ReconnectEvent, ReconnectState, ATTEMPT_TIMEOUT_SECS, DEFAULT_PORT,
};
use manual_connector::types::{AddrFamily, IpVersion, ReconnResult, TunnelInfo};

type State = ReconnectState<&'static str>;
type Attempt = AttemptState<&'static str>;

fn done(url: &str) -> ReconnResult {
    ReconnResult { dead_url: url.to_string(), peer_id: 7, conn_id: 8 }
}

#[test]
fn constants() {
    assert_eq!(DEFAULT_PORT, 1000);
    assert_eq!(ATTEMPT_TIMEOUT_SECS, 3);
}

#[test]
fn versions_follow_the_addresses() {
    assert_eq!(ip_versions(&vec![]), vec![]);
    assert_eq!(ip_versions(&vec![AddrFamily::V6, AddrFamily::V6]), vec![IpVersion::V6]);
    assert_eq!(ip_versions(&vec![AddrFamily::V4, AddrFamily::V4]), vec![IpVersion::V4]);
    assert_eq!(
        ip_versions(&vec![AddrFamily::V6, AddrFamily::V4, AddrFamily::V6]),
        vec![IpVersion::V4, IpVersion::V6]
    );
}

#[test]
fn only_urls_with_a_slash_are_looked_up() {
    assert!(matches!(
        State::start("tcp://aa.com/".to_string()),
        ReconnectState::FetchRedirect { dead_url } if dead_url == "tcp://aa.com/"
    ));
    assert!(matches!(
        State::start("tcp://aa.com".to_string()),
        ReconnectState::Resolve { url } if url == "tcp://aa.com"
    ));
    assert!(matches!(
        State::start("aa.com/".to_string()),
        ReconnectState::Finished { result: Err(ReconnectError::InvalidUrl { .. }) }
    ));
    assert!(needs_redirect_lookup("x/", &Ok("tcp".to_string())));
    assert!(!needs_redirect_lookup("x", &Ok("tcp".to_string())));
    assert!(!needs_redirect_lookup("", &Ok("tcp".to_string())));
    assert!(!needs_redirect_lookup("x/", &Err("bad".to_string())));
}

#[test]
fn ring_needs_no_address() {
    match State::start("RING://peer".to_string()) {
        ReconnectState::Attempt { url, ip_version, remaining } => {
            assert_eq!(url, "RING://peer");
            assert_eq!(ip_version, IpVersion::Both);
            assert!(remaining.is_empty());
        }
        other => panic!("unexpected state {:?}", other),
    }
}

#[test]
fn text_that_is_no_url_is_refused() {
    match State::start("no url".to_string()) {
        ReconnectState::Finished { result: Err(ReconnectError::InvalidUrl { url, reason }) } => {
            assert_eq!(url, "no url");
            assert_eq!(reason, "relative URL without a base");
        }
        other => panic!("unexpected state {:?}", other),
    }
}

#[test]
fn plan_follows_the_scheme() {
    let state: State = plan_connection("u".to_string(), Ok("ring".to_string()));
    assert!(matches!(state, ReconnectState::Attempt { ip_version: IpVersion::Both, .. }));
    let state: State = plan_connection("u".to_string(), Ok("rings".to_string()));
    assert!(matches!(state, ReconnectState::Resolve { .. }));
    let state: State = plan_connection("u".to_string(), Err("why".to_string()));
    assert!(matches!(
        state,
        ReconnectState::Finished { result: Err(ReconnectError::InvalidUrl { url, reason }) }
            if url == "u" && reason == "why"
    ));
}

#[test]
fn redirect_replaces_the_url() {
    let state = State::start("tcp://aa.com/".to_string());
    let state = state.step(ReconnectEvent::Redirected(Some("tcp://bb.com:1".to_string())));
    assert!(matches!(state, ReconnectState::Resolve { url } if url == "tcp://bb.com:1"));

    let state = State::start("tcp://aa.com/".to_string());
    let state = state.step(ReconnectEvent::Redirected(None));
    assert!(matches!(state, ReconnectState::Resolve { url } if url == "tcp://aa.com/"));

    let state = State::start("tcp://aa.com/".to_string());
    let state = state.step(ReconnectEvent::Redirected(Some("aa.com/".to_string())));
    assert!(matches!(
        state,
        ReconnectState::Finished { result: Err(ReconnectError::InvalidUrl { url, .. }) }
            if url == "aa.com/"
    ));
}

#[test]
fn unresolved_host_ends_the_reconnection() {
    let state = State::start("tcp://aa.com".to_string());
    let state = state.step(ReconnectEvent::ResolveFailed("dns"));
    assert!(matches!(
        state,
        ReconnectState::Finished { result: Err(ReconnectError::Unresolved("dns")) }
    ));
}

#[test]
fn host_without_address_ends_the_reconnection() {
    let state = State::start("tcp://aa.com".to_string());
    let state = state.step(ReconnectEvent::Resolved(vec![]));
    assert!(matches!(state, ReconnectState::Finished { result: Err(ReconnectError::NoAddress) }));
}

#[test]
fn last_failure_is_the_result() {
    let state = State::start("tcp://aa.com".to_string());
    let state = state.step(ReconnectEvent::Resolved(vec![AddrFamily::V6, AddrFamily::V4]));
    assert!(matches!(&state, ReconnectState::Attempt { ip_version: IpVersion::V4, .. }));
    let state = state.step(attempt_outcome(Some(Err("refused"))));
    assert!(matches!(
        &state,
        ReconnectState::Report {
            ip_version: IpVersion::V4,
            error: ReconnectError::Failed("refused"),
            ..
        }
    ));
    let state = state.step(ReconnectEvent::Reported);
    assert!(matches!(&state, ReconnectState::Attempt { ip_version: IpVersion::V6, .. }));
    let state = state.step(attempt_outcome(None));
    assert!(matches!(
        &state,
        ReconnectState::Report { ip_version: IpVersion::V6, error: ReconnectError::TimedOut, .. }
    ));
    let state = state.step(ReconnectEvent::Reported);
    assert!(matches!(state, ReconnectState::Finished { result: Err(ReconnectError::TimedOut) }));
}

#[test]
fn first_success_is_the_result() {
    let state = State::start("tcp://aa.com".to_string());
    let state = state.step(ReconnectEvent::Resolved(vec![AddrFamily::V6, AddrFamily::V4]));
    let state = state.step(ReconnectEvent::TimedOut).step(ReconnectEvent::Reported);
    let state = state.step(attempt_outcome(Some(Ok(done("tcp://aa.com")))));
    match state {
        ReconnectState::Finished { result: Ok(result) } => {
            assert_eq!(result.dead_url, "tcp://aa.com");
            assert_eq!(result.peer_id, 7);
            assert_eq!(result.conn_id, 8);
        }
        other => panic!("unexpected state {:?}", other),
    }
}

#[test]
fn events_out_of_place_change_nothing() {
    let state = State::start("tcp://aa.com".to_string());
    let state = state.step(ReconnectEvent::Reported).step(ReconnectEvent::TimedOut);
    assert!(matches!(&state, ReconnectState::Resolve { .. }));
    assert!(state.begin_attempt().is_none());
    let state = state.step(ReconnectEvent::ResolveFailed("dns"));
    let state = state.step(ReconnectEvent::Connected(done("x")));
    assert!(matches!(
        state,
        ReconnectState::Finished { result: Err(ReconnectError::Unresolved("dns")) }
    ));
}

#[test]
fn versions_run_out() {
    let state: State =
        next_attempt("u".to_string(), vec![IpVersion::V4, IpVersion::V6], ReconnectError::NoAddress);
    match state {
        ReconnectState::Attempt { url, ip_version, remaining } => {
            assert_eq!(url, "u");
            assert_eq!(ip_version, IpVersion::V4);
            assert_eq!(remaining, vec![IpVersion::V6]);
        }
        other => panic!("unexpected state {:?}", other),
    }
    let state: State = next_attempt("u".to_string(), vec![], ReconnectError::Failed("last"));
    assert!(matches!(
        state,
        ReconnectState::Finished { result: Err(ReconnectError::Failed("last")) }
    ));
}

#[test]
fn attempt_runs_its_course() {
    let state = State::start("tcp://aa.com".to_string());
    let state = state.step(ReconnectEvent::Resolved(vec![AddrFamily::V4]));
    let attempt = state.begin_attempt().unwrap();
    assert!(matches!(
        &attempt,
        AttemptState::SetIpVersion { dead_url, ip_version: IpVersion::V4 }
            if dead_url == "tcp://aa.com"
    ));
    let attempt = attempt.step(AttemptEvent::IpVersionSet { bind_device: true });
    assert!(matches!(&attempt, AttemptState::BindAddrs { is_ipv4: true, .. }));
    let attempt = attempt.step(AttemptEvent::AddrsBound);
    assert!(matches!(&attempt, AttemptState::ReadRemoteUrl { .. }));
    let attempt = attempt.step(AttemptEvent::RemoteUrl("tcp://aa.com:11010".to_string()));
    assert!(matches!(
        &attempt,
        AttemptState::Announce { remote_url, .. } if remote_url == "tcp://aa.com:11010"
    ));
    let attempt = attempt.step(AttemptEvent::Announced);
    assert!(matches!(&attempt, AttemptState::Connect { .. }));
    let attempt = attempt.step(AttemptEvent::Connected(None));
    assert!(matches!(&attempt, AttemptState::AddTunnel { remote: RemoteCheck::NoInfo, .. }));
    match attempt.step(AttemptEvent::TunnelAdded { peer_id: 1, conn_id: 2 }) {
        AttemptState::Finished { result: Ok(result) } => {
            assert_eq!(result.dead_url, "tcp://aa.com");
            assert_eq!(result.peer_id, 1);
            assert_eq!(result.conn_id, 2);
        }
        other => panic!("unexpected state {:?}", other),
    }
}

#[test]
fn attempt_binds_only_where_asked() {
    let attempt = Attempt::start("u".to_string(), IpVersion::V6);
    let attempt = attempt.step(AttemptEvent::IpVersionSet { bind_device: true });
    assert!(matches!(&attempt, AttemptState::BindAddrs { is_ipv4: false, .. }));
    let attempt = Attempt::start("u".to_string(), IpVersion::V4);
    let attempt = attempt.step(AttemptEvent::IpVersionSet { bind_device: false });
    assert!(matches!(&attempt, AttemptState::ReadRemoteUrl { .. }));
}

#[test]
fn attempt_fails_where_connecting_or_adding_fails() {
    let attempt: Attempt = AttemptState::Connect { dead_url: "u".to_string() };
    let attempt = attempt.step(AttemptEvent::ConnectFailed("refused"));
    assert!(matches!(attempt, AttemptState::Finished { result: Err("refused") }));
    let attempt: Attempt =
        AttemptState::AddTunnel { dead_url: "u".to_string(), remote: RemoteCheck::Same };
    let attempt = attempt.step(AttemptEvent::TunnelRefused("full"));
    assert!(matches!(&attempt, AttemptState::Finished { result: Err("full") }));
    let attempt = attempt.step(AttemptEvent::Announced);
    assert!(matches!(attempt, AttemptState::Finished { result: Err("full") }));
}

#[test]
fn remote_address_is_compared() {
    let url = "tcp://a".to_string();
    let info = |addr: Option<&str>| Some(TunnelInfo { remote_addr: addr.map(|a| a.to_string()) });
    assert!(matches!(check_remote_addr(&url, None), RemoteCheck::NoInfo));
    assert!(matches!(check_remote_addr(&url, info(None)), RemoteCheck::NoRemoteAddr));
    assert!(matches!(check_remote_addr(&url, info(Some("tcp://a"))), RemoteCheck::Same));
    assert!(matches!(
        check_remote_addr(&url, info(Some("tcp://b"))),
        RemoteCheck::Changed { actual } if actual == "tcp://b"
    ));
}
