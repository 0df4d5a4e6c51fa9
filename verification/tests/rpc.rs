use manual_connector::manager::{Error, ManualConnectorManager};
use manual_connector::rpc::{
    ConnectorManageAction, ConnectorManagerRpcService, ManageConnectorRequest, ManageStep, RpcError,
};
use manual_connector::types::ConnectorStatus;

type Step = ManageStep<&'static str>;

fn service(urls: &[&str]) -> ConnectorManagerRpcService {
    let mut mgr = ManualConnectorManager::new();
    for url in urls {
        mgr.add_connector(url.to_string(), 1);
    }
    ConnectorManagerRpcService(mgr)
}

fn request(url: &str, action: ConnectorManageAction) -> ManageConnectorRequest {
    ManageConnectorRequest { url: Some(url.to_string()), action }
}

#[test]
fn request_without_url_is_refused() {
    let mut service = service(&["tcp://a"]);
    let step: Step = service.manage_connector(ManageConnectorRequest {
        url: None,
        action: ConnectorManageAction::Remove,
    });
    assert!(matches!(step, ManageStep::Reply(Err(RpcError::UrlEmpty))));
    assert_eq!(service.list_connector().unwrap().connectors.len(), 1);
}

#[test]
fn removal_of_a_known_url_is_met() {
    let mut service = service(&["tcp://a", "tcp://b"]);
    let step: Step =
        service.manage_connector(request("tcp://a", ConnectorManageAction::Remove));
    assert!(matches!(step, ManageStep::Reply(Ok(_))));
    assert_eq!(service.list_connector().unwrap().connectors.len(), 2);
    let rest = service.list_connector().unwrap().connectors;
    assert_eq!(rest.len(), 1);
    assert_eq!(rest[0].url, Some("tcp://b".to_string()));
    assert_eq!(rest[0].status, ConnectorStatus::Disconnected);
}

#[test]
fn removal_of_an_unknown_url_is_refused() {
    let mut service = service(&["tcp://a"]);
    let step: Step =
        service.manage_connector(request("tcp://b", ConnectorManageAction::Remove));
    assert!(matches!(
        step,
        ManageStep::Reply(Err(RpcError::RemoveFailed { url, error: Error::NotFound }))
            if url == "tcp://b"
    ));
}

#[test]
fn any_other_action_adds() {
    for action in [ConnectorManageAction::Add, ConnectorManageAction::Unknown(9)] {
        let mut service = service(&[]);
        let step: Step = service.manage_connector(request("tcp://a", action));
        let url = match step {
            ManageStep::CreateConnector { url } => url,
            other => panic!("unexpected step {:?}", other),
        };
        assert_eq!(url, "tcp://a");
        assert!(service.list_connector().unwrap().connectors.is_empty());
        let created: Result<(String, u64), &str> = Ok(("tcp://a:1".to_string(), 5));
        assert!(service.connector_created(url, created).is_ok());
        let list = service.list_connector().unwrap().connectors;
        assert_eq!(list[0].url, Some("tcp://a:1".to_string()));
    }
}

#[test]
fn failed_creation_is_reported() {
    let mut service = service(&[]);
    let refused = service.connector_created("tcp://a".to_string(), Err("no such scheme"));
    assert!(matches!(
        refused,
        Err(RpcError::AddFailed { url, cause: "no such scheme" }) if url == "tcp://a"
    ));
    assert!(service.list_connector().unwrap().connectors.is_empty());
}
