use manual_connector::manager::{Error, ManualConnectorManager, ReconnTask};
use manual_connector::reconnect::{attempt_outcome, ReconnectError, ReconnectEvent, ReconnectState};
use manual_connector::types::{
    AddrFamily, Connector, ConnectorStatus, GlobalCtxEvent, IpVersion, PeerConnInfo, TunnelInfo,
};

fn lines(list: Vec<Connector>) -> Vec<(String, ConnectorStatus)> {
    list.into_iter().map(|c| (c.url.unwrap(), c.status)).collect()
}

fn line(url: &str, status: ConnectorStatus) -> (String, ConnectorStatus) {
    (url.to_string(), status)
}

fn conn(url: &str, is_client: bool) -> PeerConnInfo {
    PeerConnInfo {
        is_client,
        tunnel: Some(TunnelInfo { remote_addr: Some(url.to_string()) }),
    }
}

fn tasks(started: Option<Vec<ReconnTask>>) -> Vec<(String, u64)> {
    started.unwrap().into_iter().map(|t| (t.dead_url, t.connector)).collect()
}

fn task(url: &str, connector: u64) -> ReconnTask {
    ReconnTask { dead_url: url.to_string(), connector }
}

#[test]
fn test_reconnect_with_connecting_addr() {
    let mut mgr = ManualConnectorManager::new();
    mgr.add_connector("tcp://aa.com".to_string(), 10);
    for _ in 0..100 {
        let mut started = mgr.reconn_tick().unwrap();
        assert_eq!(started.len(), 1);
        let out = started.pop().unwrap();
        assert_eq!(out.dead_url, "tcp://aa.com");
        assert_eq!(out.connector, 10);
        assert_eq!(
            lines(mgr.list_connectors()),
            vec![line("tcp://aa.com", ConnectorStatus::Connecting)]
        );

        let state: ReconnectState<String> = ReconnectState::start(out.dead_url.clone());
        assert!(matches!(&state, ReconnectState::Resolve { url } if url == "tcp://aa.com"));
        let state = state.step(ReconnectEvent::Resolved(vec![AddrFamily::V4]));
        assert!(state.begin_attempt().is_some());
        let state = state.step(attempt_outcome(Some(Err("fake error".to_string()))));
        match &state {
            ReconnectState::Report { url, ip_version, error, remaining } => {
                assert_eq!(url, "tcp://aa.com");
                assert_eq!(*ip_version, IpVersion::V4);
                assert!(matches!(error, ReconnectError::Failed(e) if e == "fake error"));
                assert!(remaining.is_empty());
            }
            other => panic!("unexpected state {:?}", other),
        }
        let state = state.step(ReconnectEvent::Reported);
        assert!(matches!(
            &state,
            ReconnectState::Finished { result: Err(ReconnectError::Failed(e)) } if e == "fake error"
        ));

        assert!(mgr.is_reconnecting(&out.dead_url));
        mgr.finish_reconnect(out);
    }
    assert_eq!(
        lines(mgr.list_connectors()),
        vec![line("tcp://aa.com", ConnectorStatus::Disconnected)]
    );
}

#[test]
fn new_manager_is_empty() {
    let mut mgr = ManualConnectorManager::new();
    assert!(mgr.list_connectors().is_empty());
    assert!(mgr.collect_dead_conns().is_empty());
    assert!(tasks(mgr.reconn_tick()).is_empty());
}

#[test]
fn connectors_are_listed_in_descending_order() {
    let mut mgr = ManualConnectorManager::new();
    for (i, url) in ["tcp://b", "tcp://c", "tcp://a", "udp://a", "tcp://ab"].iter().enumerate() {
        mgr.add_connector(url.to_string(), i as u64);
    }
    mgr.handle_event(&GlobalCtxEvent::PeerConnAdded(conn("tcp://c", true)));
    assert_eq!(
        lines(mgr.list_connectors()),
        vec![
            line("udp://a", ConnectorStatus::Disconnected),
            line("tcp://c", ConnectorStatus::Connected),
            line("tcp://b", ConnectorStatus::Disconnected),
            line("tcp://ab", ConnectorStatus::Disconnected),
            line("tcp://a", ConnectorStatus::Disconnected),
        ]
    );
}

#[test]
fn reconnecting_connectors_are_listed_first() {
    let mut mgr = ManualConnectorManager::new();
    mgr.add_connector("tcp://a".to_string(), 1);
    mgr.add_connector("tcp://b".to_string(), 2);
    mgr.add_connector("tcp://z".to_string(), 3);
    mgr.handle_event(&GlobalCtxEvent::PeerConnAdded(conn("tcp://z", true)));
    assert_eq!(
        tasks(mgr.reconn_tick()),
        vec![("tcp://a".to_string(), 1), ("tcp://b".to_string(), 2)]
    );
    assert_eq!(
        lines(mgr.list_connectors()),
        vec![
            line("tcp://b", ConnectorStatus::Connecting),
            line("tcp://a", ConnectorStatus::Connecting),
            line("tcp://z", ConnectorStatus::Connected),
        ]
    );
}

#[test]
fn order_goes_by_characters() {
    let mut mgr = ManualConnectorManager::new();
    for url in ["\u{10000}", "\u{ffff}", "z", "Z", "\u{e9}"] {
        mgr.add_connector(url.to_string(), 0);
    }
    assert_eq!(mgr.collect_dead_conns(), vec!["Z", "z", "\u{e9}", "\u{ffff}", "\u{10000}"]);
}

#[test]
fn adding_twice_replaces_the_connector() {
    let mut mgr = ManualConnectorManager::new();
    mgr.add_connector("tcp://a".to_string(), 1);
    mgr.add_connector("tcp://a".to_string(), 2);
    assert_eq!(tasks(mgr.reconn_tick()), vec![("tcp://a".to_string(), 2)]);
}

#[test]
fn created_connector_is_added() {
    let mut mgr = ManualConnectorManager::new();
    let created: Result<(String, u64), String> = Ok(("tcp://a".to_string(), 4));
    assert_eq!(mgr.add_connector_by_url(created), Ok(()));
    let failed: Result<(String, u64), String> = Err("no such scheme".to_string());
    assert_eq!(mgr.add_connector_by_url(failed), Err("no such scheme".to_string()));
    assert_eq!(mgr.collect_dead_conns(), vec!["tcp://a"]);
}

#[test]
fn unknown_connector_is_not_found() {
    let mut mgr = ManualConnectorManager::new();
    mgr.add_connector("tcp://a".to_string(), 1);
    assert_eq!(mgr.remove_connector("tcp://b".to_string()), Err(Error::NotFound));
    assert_eq!(mgr.list_connectors().len(), 1);
}

#[test]
fn removed_connector_is_listed_one_last_time() {
    let mut mgr = ManualConnectorManager::new();
    mgr.add_connector("tcp://a".to_string(), 1);
    assert_eq!(mgr.remove_connector("tcp://a".to_string()), Ok(()));
    assert_eq!(
        lines(mgr.list_connectors()),
        vec![line("tcp://a", ConnectorStatus::Connected)]
    );
    assert!(mgr.list_connectors().is_empty());
    assert_eq!(mgr.remove_connector("tcp://a".to_string()), Err(Error::NotFound));
}

#[test]
fn removal_during_reconnection_waits() {
    let mut mgr = ManualConnectorManager::new();
    mgr.add_connector("tcp://a".to_string(), 1);
    assert_eq!(mgr.reconn_tick().unwrap().len(), 1);
    assert_eq!(mgr.remove_connector("tcp://a".to_string()), Ok(()));
    mgr.handle_remove_connector();
    mgr.handle_remove_connector();
    assert_eq!(
        lines(mgr.list_connectors()),
        vec![line("tcp://a", ConnectorStatus::Connecting)]
    );
    mgr.finish_reconnect(task("tcp://a", 1));
    mgr.handle_remove_connector();
    assert!(mgr.list_connectors().is_empty());
    mgr.add_connector("tcp://a".to_string(), 2);
    mgr.handle_remove_connector();
    assert_eq!(mgr.list_connectors().len(), 1);
}

#[test]
fn removal_of_other_connectors_leaves_the_rest() {
    let mut mgr = ManualConnectorManager::new();
    mgr.add_connector("tcp://a".to_string(), 1);
    mgr.add_connector("tcp://b".to_string(), 2);
    assert_eq!(mgr.remove_connector("tcp://a".to_string()), Ok(()));
    assert_eq!(tasks(mgr.reconn_tick()), vec![("tcp://b".to_string(), 2)]);
}

#[test]
fn live_connections_are_not_dead() {
    let mut mgr = ManualConnectorManager::new();
    mgr.add_connector("tcp://a".to_string(), 1);
    assert_eq!(mgr.collect_dead_conns(), vec!["tcp://a"]);
    mgr.handle_event(&GlobalCtxEvent::PeerConnAdded(conn("tcp://a", true)));
    assert!(mgr.collect_dead_conns().is_empty());
    mgr.handle_event(&GlobalCtxEvent::Other);
    assert!(mgr.collect_dead_conns().is_empty());
    mgr.handle_event(&GlobalCtxEvent::PeerConnRemoved(conn("tcp://a", true)));
    assert_eq!(mgr.collect_dead_conns(), vec!["tcp://a"]);
}

#[test]
fn connections_from_peers_do_not_count() {
    let mut mgr = ManualConnectorManager::new();
    mgr.add_connector("tcp://a".to_string(), 1);
    mgr.handle_event(&GlobalCtxEvent::PeerConnAdded(conn("tcp://a", false)));
    assert_eq!(mgr.collect_dead_conns(), vec!["tcp://a"]);
    mgr.handle_event(&GlobalCtxEvent::PeerConnAdded(conn("tcp://a", true)));
    mgr.handle_event(&GlobalCtxEvent::PeerConnRemoved(conn("tcp://a", false)));
    assert!(mgr.collect_dead_conns().is_empty());
    mgr.handle_event(&GlobalCtxEvent::PeerConnAdded(PeerConnInfo {
        is_client: false,
        tunnel: None,
    }));
    assert!(mgr.collect_dead_conns().is_empty());
}

#[test]
fn tick_sends_each_dead_connector_once() {
    let mut mgr = ManualConnectorManager::new();
    mgr.add_connector("tcp://b".to_string(), 2);
    mgr.add_connector("tcp://a".to_string(), 1);
    assert_eq!(mgr.reconn_tick().unwrap().len(), 2);
    assert!(mgr.collect_dead_conns().is_empty());
    assert!(mgr.reconn_tick().unwrap().is_empty());
    assert!(mgr.is_reconnecting(&"tcp://a".to_string()));
    mgr.finish_reconnect(task("tcp://b", 2));
    mgr.finish_reconnect(task("tcp://a", 1));
    assert!(!mgr.is_reconnecting(&"tcp://a".to_string()));
    assert_eq!(
        tasks(mgr.reconn_tick()),
        vec![("tcp://a".to_string(), 1), ("tcp://b".to_string(), 2)]
    );
}

#[test]
fn tick_refuses_a_url_that_is_out_already() {
    let mut mgr = ManualConnectorManager::new();
    mgr.add_connector("tcp://a".to_string(), 1);
    assert_eq!(mgr.reconn_tick().unwrap().len(), 1);
    mgr.add_connector("tcp://a".to_string(), 2);
    mgr.add_connector("tcp://b".to_string(), 3);
    assert!(mgr.reconn_tick().is_none());
    assert_eq!(
        lines(mgr.list_connectors()),
        vec![
            line("tcp://a", ConnectorStatus::Connecting),
            line("tcp://b", ConnectorStatus::Disconnected),
            line("tcp://a", ConnectorStatus::Disconnected),
        ]
    );
}

#[test]
fn chosen_connectors_go_out() {
    let mut mgr = ManualConnectorManager::new();
    mgr.add_connector("tcp://a".to_string(), 1);
    mgr.add_connector("tcp://b".to_string(), 2);
    let out = mgr.start_reconnects(&vec!["tcp://b".to_string()]);
    assert_eq!(tasks(Some(out)), vec![("tcp://b".to_string(), 2)]);
    assert_eq!(mgr.collect_dead_conns(), vec!["tcp://a"]);
}

#[test]
fn removal_undoes_addition() {
    let mut mgr = ManualConnectorManager::new();
    mgr.add_connector("tcp://a".to_string(), 1);
    mgr.add_connector("tcp://b".to_string(), 2);
    assert_eq!(mgr.list_connectors().len(), 2);
    assert_eq!(mgr.remove_connector("tcp://b".to_string()), Ok(()));
    mgr.handle_remove_connector();
    assert_eq!(
        lines(mgr.list_connectors()),
        vec![line("tcp://a", ConnectorStatus::Disconnected)]
    );
    assert_eq!(tasks(mgr.reconn_tick()), vec![("tcp://a".to_string(), 1)]);
    assert_eq!(mgr.remove_connector("tcp://b".to_string()), Err(Error::NotFound));
}

#[test]
fn removal_that_waits_takes_a_new_connector_too() {
    let mut mgr = ManualConnectorManager::new();
    mgr.add_connector("tcp://a".to_string(), 1);
    assert_eq!(mgr.remove_connector("tcp://a".to_string()), Ok(()));
    mgr.add_connector("tcp://a".to_string(), 2);
    mgr.handle_remove_connector();
    assert!(mgr.list_connectors().is_empty());
}
