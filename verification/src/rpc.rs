//! The remote interface to the connector manager.

use crate::manager::{self, Error, ManagerView, ManualConnectorManager};
use crate::order;
use crate::types::Connector;
use vstd::prelude::*;

verus! {

/// What a caller wants done with a URL.
#[derive(Clone, Copy, Debug, PartialEq, Eq, Structural)]
pub enum ConnectorManageAction {
    Add,
    Remove,
    /// An action that this version does not know, by its number on the wire.
    Unknown(i32),
}

/// A request to add or remove a connector.
#[derive(Debug)]
pub struct ManageConnectorRequest {
    pub url: Option<String>,
    pub action: ConnectorManageAction,
}

/// The answer to a request that was met.
#[derive(Clone, Copy, Debug, PartialEq, Eq, Structural)]
pub struct ManageConnectorResponse {}

/// The list of connectors, for a caller.
#[derive(Debug)]
pub struct ListConnectorResponse {
    pub connectors: Vec<Connector>,
}

/// Why a request was not met.
#[derive(Debug)]
pub enum RpcError<E> {
    /// The request names no URL.
    UrlEmpty,
    /// The connector could not be removed.
    RemoveFailed { url: String, error: Error },
    /// The connector could not be created.
    AddFailed { url: String, cause: E },
}

/// `RpcError` as contracts speak of it.
pub enum RpcErrorView<E> {
    UrlEmpty,
    RemoveFailed { url: Seq<char>, error: Error },
    AddFailed { url: Seq<char>, cause: E },
}

impl<E> View for RpcError<E> {
    type V = RpcErrorView<E>;

    open spec fn view(&self) -> RpcErrorView<E> {
        match *self {
            RpcError::UrlEmpty => RpcErrorView::UrlEmpty,
            RpcError::RemoveFailed { url, error } => RpcErrorView::RemoveFailed {
                url: url@,
                error,
            },
            RpcError::AddFailed { url, cause } => RpcErrorView::AddFailed { url: url@, cause },
        }
    }
}

/// What comes of a request.
#[derive(Debug)]
pub enum ManageStep<E> {
    /// Answer the caller.
    Reply(Result<ManageConnectorResponse, RpcError<E>>),
    /// Create a connector for this URL, and hand it to `connector_created`.
    CreateConnector { url: String },
}

/// `ManageStep` as contracts speak of it.
pub enum ManageStepView<E> {
    Reply(Result<ManageConnectorResponse, RpcErrorView<E>>),
    CreateConnector { url: Seq<char> },
}

impl<E> View for ManageStep<E> {
    type V = ManageStepView<E>;

    open spec fn view(&self) -> ManageStepView<E> {
        match *self {
            ManageStep::Reply(Ok(response)) => ManageStepView::Reply(Ok(response)),
            ManageStep::Reply(Err(error)) => ManageStepView::Reply(Err(error@)),
            ManageStep::CreateConnector { url } => ManageStepView::CreateConnector { url: url@ },
        }
    }
}

/// What comes of a request to a manager in this state. Whatever is not a removal adds.
pub open spec fn managed<E>(
    manager: ManagerView,
    url: Option<Seq<char>>,
    action: ConnectorManageAction,
) -> ManageStepView<E> {
    match url {
        None => ManageStepView::Reply(Err(RpcErrorView::UrlEmpty)),
        Some(url) => if action != ConnectorManageAction::Remove {
            ManageStepView::CreateConnector { url }
        } else if manager.knows(url) {
            ManageStepView::Reply(Ok(ManageConnectorResponse {  }))
        } else {
            ManageStepView::Reply(
                Err(RpcErrorView::RemoveFailed { url, error: Error::NotFound }),
            )
        },
    }
}

/// What a request makes of a manager in this state.
pub open spec fn after_request(
    manager: ManagerView,
    url: Option<Seq<char>>,
    action: ConnectorManageAction,
) -> ManagerView {
    match url {
        None => manager,
        Some(url) => if action != ConnectorManageAction::Remove {
            manager
        } else if manager.knows(url) {
            manager.with_removal(url)
        } else {
            manager.swept()
        },
    }
}

impl ManageConnectorRequest {
    /// The URL that the request names.
    pub open spec fn target(self) -> Option<Seq<char>> {
        match self.url {
            Some(url) => Some(url@),
            None => None,
        }
    }
}

/// Answers callers on behalf of a connector manager.
pub struct ConnectorManagerRpcService(pub ManualConnectorManager);

impl View for ConnectorManagerRpcService {
    type V = ManagerView;

    open spec fn view(&self) -> ManagerView {
        self.0@
    }
}

impl ConnectorManagerRpcService {
    /// Lists the connectors.
    pub fn list_connector(&mut self) -> (result: Result<ListConnectorResponse, Error>)
        ensures
            final(self)@ == old(self)@.swept(),
            result is Ok,
            manager::lines(result->Ok_0.connectors@) == old(self)@.listed(),
            order::is_listing(
                order::listing(old(self)@.connectors.dom()),
                old(self)@.connectors.dom(),
            ),
            order::is_listing(
                order::listing(old(self)@.reconnecting),
                old(self)@.reconnecting,
            ),
    {
        let connectors = self.0.list_connectors();
        Ok(ListConnectorResponse { connectors })
    }

    /// Takes a request: removes a connector, or asks for one to be created.
    pub fn manage_connector<E>(&mut self, req: ManageConnectorRequest) -> (step: ManageStep<E>)
        ensures
            step@ == managed::<E>(old(self)@, req.target(), req.action),
            final(self)@ == after_request(old(self)@, req.target(), req.action),
    {
        let url = match req.url {
            Some(url) => url,
            None => {
                return ManageStep::Reply(Err(RpcError::UrlEmpty));
            },
        };
        if req.action == ConnectorManageAction::Remove {
            match self.0.remove_connector(url.clone()) {
                Ok(_) => ManageStep::Reply(Ok(ManageConnectorResponse {  })),
                Err(error) => ManageStep::Reply(Err(RpcError::RemoveFailed { url, error })),
            }
        } else {
            ManageStep::CreateConnector { url }
        }
    }

    /// Takes the connector that was created for a request, or the reason why there is none.
    pub fn connector_created<E>(
        &mut self,
        url: String,
        created: Result<(String, u64), E>,
    ) -> (result: Result<ManageConnectorResponse, RpcError<E>>)
        ensures
            match created {
                Ok(connector) => {
                    &&& result is Ok
                    &&& final(self)@ == old(self)@.with_connector(connector.0@, connector.1)
                },
                Err(error) => {
                    &&& result matches Err(refusal) && refusal@ == (RpcErrorView::AddFailed {
                        url: url@,
                        cause: error,
                    })
                    &&& final(self)@ == old(self)@
                },
            },
    {
        match self.0.add_connector_by_url(created) {
            Ok(_) => Ok(ManageConnectorResponse {  }),
            Err(cause) => Err(RpcError::AddFailed { url, cause }),
        }
    }
}

/// A request that names a URL and is no removal always leads to the creation of a connector
/// for that URL, whatever the state of the manager, and is not answered before.
pub proof fn law_every_addition_creates_a_connector<E>(
    manager: ManagerView,
    url: Seq<char>,
    action: ConnectorManageAction,
)
    requires
        action != ConnectorManageAction::Remove,
    ensures
        managed::<E>(manager, Some(url), action) == (ManageStepView::<E>::CreateConnector { url }),
        !(managed::<E>(manager, Some(url), action) is Reply),
        after_request(manager, Some(url), action) == manager,
{
}

/// A removal is answered at once: with success exactly where a connector with the URL is at
/// rest or out for reconnection, and the removal is then pending; else it is refused with
/// the URL, and nothing new is pending. Either way earlier removals are carried out.
pub proof fn law_removal_is_answered<E>(manager: ManagerView, url: Seq<char>, other: Seq<char>)
    ensures
        ({
            let step = managed::<E>(manager, Some(url), ConnectorManageAction::Remove);
            let after = after_request(manager, Some(url), ConnectorManageAction::Remove);
            let known = manager.connectors.contains_key(url) || manager.reconnecting.contains(url);
            &&& known ==> step == ManageStepView::<E>::Reply(Ok(ManageConnectorResponse {  }))
            &&& known ==> after.removed.contains(url)
            &&& !known ==> step == ManageStepView::<E>::Reply(
                Err(RpcErrorView::RemoveFailed { url, error: Error::NotFound }),
            )
            &&& after.removed.contains(other) <==> (known && other == url) || (
            manager.removed.contains(other) && manager.reconnecting.contains(other)
                && !manager.connectors.contains_key(other))
            &&& after.connectors.contains_key(other) <==> manager.connectors.contains_key(other)
                && !manager.removed.contains(other)
            &&& after.connectors.contains_key(other) ==> after.connectors[other]
                == manager.connectors[other]
            &&& after.reconnecting == manager.reconnecting
            &&& after.alive == manager.alive
        }),
{
}

/// A request without a URL is refused, whatever it asks for, and changes nothing.
pub proof fn law_request_without_url_is_refused<E>(
    manager: ManagerView,
    action: ConnectorManageAction,
)
    ensures
        managed::<E>(manager, None, action) == ManageStepView::<E>::Reply(
            Err(RpcErrorView::UrlEmpty),
        ),
        after_request(manager, None, action) == manager,
{
}

/// A connector that was added through a request can be removed through one, and is gone
/// after the next sweep.
pub proof fn law_added_connector_can_be_removed<E>(
    manager: ManagerView,
    url: Seq<char>,
    connector: u64,
)
    requires
        !manager.reconnecting.contains(url),
    ensures
        managed::<E>(
            manager.with_connector(url, connector),
            Some(url),
            ConnectorManageAction::Remove,
        ) == ManageStepView::<E>::Reply(Ok(ManageConnectorResponse {  })),
        !after_request(
            manager.with_connector(url, connector),
            Some(url),
            ConnectorManageAction::Remove,
        ).swept().knows(url),
{
}

/// A request is for the URL that it names, if it names one.
pub proof fn law_request_names_its_url(url: String, action: ConnectorManageAction)
    ensures
        (ManageConnectorRequest { url: Some(url), action }).target() == Some(url@),
        (ManageConnectorRequest { url: None, action }).target() is None,
{
}

/// What comes of a request is shown with its answer, its reason and its URL.
pub proof fn law_manage_step_is_shown_in_full<E>(step: ManageStep<E>, error: RpcError<E>)
    ensures
        match step {
            ManageStep::Reply(Ok(response)) => step@ == ManageStepView::<E>::Reply(Ok(response)),
            ManageStep::Reply(Err(refusal)) => step@ == ManageStepView::<E>::Reply(Err(refusal@)),
            ManageStep::CreateConnector { url } => step@ == (ManageStepView::<
                E,
            >::CreateConnector { url: url@ }),
        },
        match error {
            RpcError::UrlEmpty => error@ is UrlEmpty,
            RpcError::RemoveFailed { url, error: reason } => error@ == (RpcErrorView::<
                E,
            >::RemoveFailed { url: url@, error: reason }),
            RpcError::AddFailed { url, cause } => error@ == (RpcErrorView::<E>::AddFailed {
                url: url@,
                cause,
            }),
        },
{
}

} // verus!
