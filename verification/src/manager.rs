//! The connector manager: which URLs have a connector, which are being reconnected,
//! which have a live connection, and which the user has removed.

use crate::dash;
use crate::order;
use crate::types::{Connector, ConnectorStatus, ConnectorView, GlobalCtxEvent, TunnelInfo};
use dashmap::{DashMap, DashSet};
use vstd::prelude::*;

verus! {

/// What can go wrong when connectors are managed.
#[derive(Clone, Copy, Debug, PartialEq, Eq, Structural)]
pub enum Error {
    /// There is no connector with that URL.
    NotFound,
}

/// A connector that is out for reconnection.
#[derive(Debug)]
pub struct ReconnTask {
    pub dead_url: String,
    pub connector: u64,
}

/// `ReconnTask` as contracts speak of it.
pub struct ReconnTaskView {
    pub dead_url: Seq<char>,
    pub connector: u64,
}

impl View for ReconnTask {
    type V = ReconnTaskView;

    open spec fn view(&self) -> ReconnTaskView {
        ReconnTaskView { dead_url: self.dead_url@, connector: self.connector }
    }
}

/// `ManualConnectorManager` as contracts speak of it.
#[verifier::ext_equal]
pub struct ManagerView {
    /// The connectors at rest, by URL.
    pub connectors: Map<Seq<char>, u64>,
    /// The URLs whose connectors are out for reconnection.
    pub reconnecting: Set<Seq<char>>,
    /// The URLs with a live connection.
    pub alive: Set<Seq<char>>,
    /// The URLs that the user removed and that still wait for it.
    pub removed: Set<Seq<char>>,
}

impl ManagerView {
    /// A manager without connectors.
    pub open spec fn empty() -> ManagerView {
        ManagerView {
            connectors: Map::empty(),
            reconnecting: Set::empty(),
            alive: Set::empty(),
            removed: Set::empty(),
        }
    }

    /// After a connector was added; it takes the place of another with its URL.
    pub open spec fn with_connector(self, url: Seq<char>, connector: u64) -> ManagerView {
        ManagerView { connectors: self.connectors.insert(url, connector), ..self }
    }

    /// After the pending removals were carried out. Connectors at rest are dropped; the
    /// removal of one that is only out for reconnection keeps waiting; any other removal
    /// is forgotten.
    pub open spec fn swept(self) -> ManagerView {
        ManagerView {
            connectors: self.connectors.remove_keys(self.removed),
            removed: self.removed.filter(
                |url: Seq<char>|
                    !self.connectors.contains_key(url) && self.reconnecting.contains(url),
            ),
            ..self
        }
    }

    /// The URLs of connectors at rest that have no live connection.
    pub open spec fn dead(self) -> Set<Seq<char>> {
        self.connectors.dom().difference(self.alive)
    }

    /// There is a connector with this URL, at rest or out for reconnection.
    pub open spec fn knows(self, url: Seq<char>) -> bool {
        self.connectors.contains_key(url) || self.reconnecting.contains(url)
    }

    /// After the user removed a known URL: earlier removals are carried out, and this one
    /// waits for the next time.
    pub open spec fn with_removal(self, url: Seq<char>) -> ManagerView {
        ManagerView { removed: self.swept().removed.insert(url), ..self.swept() }
    }

    /// The state that is listed for a connector at rest: disconnected where the URL is dead
    /// once pending removals are carried out.
    pub open spec fn status(self, url: Seq<char>) -> ConnectorStatus {
        if self.swept().dead().contains(url) {
            ConnectorStatus::Disconnected
        } else {
            ConnectorStatus::Connected
        }
    }

    /// The list of connectors: those out for reconnection first, each part in descending
    /// order of the URLs.
    pub open spec fn listed(self) -> Seq<ConnectorView> {
        connecting_lines(order::listing(self.reconnecting)) + self.status_lines(
            order::listing(self.connectors.dom()),
        )
    }

    /// The lines of these connectors at rest, in reverse.
    pub open spec fn status_lines(self, urls: Seq<Seq<char>>) -> Seq<ConnectorView> {
        urls.reverse().map_values(
            |url: Seq<char>| ConnectorView { url: Some(url), status: self.status(url) },
        )
    }

    /// An event of a connection that this side opened tells the URL of the peer.
    pub open spec fn accepts(event: GlobalCtxEvent) -> bool {
        match event {
            GlobalCtxEvent::PeerConnAdded(info) => info.is_client ==> info.remote_addr() is Some,
            GlobalCtxEvent::PeerConnRemoved(info) => info.is_client ==> info.remote_addr()
                is Some,
            GlobalCtxEvent::Other => true,
        }
    }

    /// After an event. Only connections that this side opened count.
    pub open spec fn after_event(self, event: GlobalCtxEvent) -> ManagerView {
        match event {
            GlobalCtxEvent::PeerConnAdded(info) => if info.is_client {
                ManagerView { alive: self.alive.insert(info.remote_addr()->0), ..self }
            } else {
                self
            },
            GlobalCtxEvent::PeerConnRemoved(info) => if info.is_client {
                ManagerView { alive: self.alive.remove(info.remote_addr()->0), ..self }
            } else {
                self
            },
            GlobalCtxEvent::Other => self,
        }
    }

    /// After the connectors of these URLs went out for reconnection.
    pub open spec fn started(self, urls: Set<Seq<char>>) -> ManagerView {
        ManagerView {
            connectors: self.connectors.remove_keys(urls),
            reconnecting: self.reconnecting.union(urls),
            ..self
        }
    }

    /// The connectors of these URLs, as they go out for reconnection.
    pub open spec fn tasks(self, urls: Seq<Seq<char>>) -> Seq<ReconnTaskView> {
        urls.map_values(
            |url: Seq<char>| ReconnTaskView { dead_url: url, connector: self.connectors[url] },
        )
    }

    /// After a connector came back from reconnection.
    pub open spec fn finished(self, task: ReconnTaskView) -> ManagerView {
        ManagerView {
            connectors: self.connectors.insert(task.dead_url, task.connector),
            reconnecting: self.reconnecting.remove(task.dead_url),
            ..self
        }
    }

    /// After these connectors came back from reconnection, one after the other.
    pub open spec fn finished_all(self, tasks: Seq<ReconnTaskView>) -> ManagerView
        decreases tasks.len(),
    {
        if tasks.len() == 0 {
            self
        } else {
            self.finished_all(tasks.drop_last()).finished(tasks.last())
        }
    }
}

/// The lines of these connectors out for reconnection, in reverse.
pub open spec fn connecting_lines(urls: Seq<Seq<char>>) -> Seq<ConnectorView> {
    urls.reverse().map_values(
        |url: Seq<char>| ConnectorView { url: Some(url), status: ConnectorStatus::Connecting },
    )
}

/// The lines of a list of connectors, as contracts speak of them.
pub open spec fn lines(list: Seq<Connector>) -> Seq<ConnectorView> {
    list.map_values(|connector: Connector| connector@)
}

/// A list of connectors out for reconnection, as contracts speak of it.
pub open spec fn task_views(list: Seq<ReconnTask>) -> Seq<ReconnTaskView> {
    list.map_values(|task: ReconnTask| task@)
}

/// Keeps the connectors, and the URLs that decide what becomes of them. A connector is a
/// handle that its owner chose.
pub struct ManualConnectorManager {
    connectors: DashMap<String, u64>,
    reconnecting: DashSet<String>,
    alive_conn_urls: DashSet<String>,
    removed_conn_urls: DashSet<String>,
}

impl View for ManualConnectorManager {
    type V = ManagerView;

    closed spec fn view(&self) -> ManagerView {
        ManagerView {
            connectors: dash::map_contents(self.connectors),
            reconnecting: dash::set_contents(self.reconnecting),
            alive: dash::set_contents(self.alive_conn_urls),
            removed: dash::set_contents(self.removed_conn_urls),
        }
    }
}

impl ManualConnectorManager {
    /// A manager without connectors.
    pub fn new() -> (manager: Self)
        ensures
            manager@ == ManagerView::empty(),
    {
        ManualConnectorManager {
            connectors: dash::map_new(),
            reconnecting: dash::set_new(),
            alive_conn_urls: dash::set_new(),
            removed_conn_urls: dash::set_new(),
        }
    }

    /// Adds a connector under the URL that it connects to.
    pub fn add_connector(&mut self, remote_url: String, connector: u64)
        ensures
            final(self)@ == old(self)@.with_connector(remote_url@, connector),
    {
        dash::map_insert(&mut self.connectors, remote_url, connector);
    }

    /// Adds the connector that was created for a URL, unless its creation failed: then the
    /// error is handed on.
    pub fn add_connector_by_url<E>(&mut self, created: Result<(String, u64), E>) -> (result: Result<
        (),
        E,
    >)
        ensures
            match created {
                Ok(connector) => result is Ok && final(self)@ == old(self)@.with_connector(
                    connector.0@,
                    connector.1,
                ),
                Err(error) => result == Err::<(), E>(error) && final(self)@ == old(self)@,
            },
    {
        match created {
            Ok((remote_url, connector)) => {
                self.add_connector(remote_url, connector);
                Ok(())
            },
            Err(error) => Err(error),
        }
    }

    /// Carries out the removals that the user asked for, as far as connectors are at rest.
    pub fn handle_remove_connector(&mut self)
        ensures
            final(self)@ == old(self)@.swept(),
    {
        let mut remove_later = dash::set_new();
        let urls = dash::set_items(&self.removed_conn_urls);
        let ghost all = dash::texts(urls@);
        let ghost before = self@;
        let ghost waits = |url: Seq<char>|
            !before.connectors.contains_key(url) && before.reconnecting.contains(url);
        let mut i: usize = 0;
        assert(all.take(0).to_set() =~= Set::empty());
        assert(self@.connectors =~= before.connectors.remove_keys(all.take(0).to_set()));
        assert(dash::set_contents(remove_later) =~= all.take(0).to_set().filter(waits));
        while i < urls.len()
            invariant
                i <= urls.len(),
                all == dash::texts(urls@),
                all.no_duplicates(),
                all.to_set() == before.removed,
                waits == (|url: Seq<char>|
                    !before.connectors.contains_key(url) && before.reconnecting.contains(url)),
                self@.connectors == before.connectors.remove_keys(all.take(i as int).to_set()),
                self@.reconnecting == before.reconnecting,
                self@.alive == before.alive,
                dash::set_contents(remove_later) == all.take(i as int).to_set().filter(waits),
            decreases urls.len() - i,
        {
            let url = &urls[i];
            proof {
                order::lemma_take_to_set(all, i as int);
            }
            let ghost taken = all.take(i as int).to_set();
            if let Some(_) = dash::map_remove(&mut self.connectors, url) {
            } else if dash::set_contains(&self.reconnecting, url) {
                dash::set_insert(&mut remove_later, url.clone());
            }
            assert(self@.connectors =~= before.connectors.remove_keys(taken.insert(url@)));
            assert(dash::set_contents(remove_later) =~= taken.insert(url@).filter(waits));
            i += 1;
        }
        assert(all.take(all.len() as int) =~= all);
        dash::set_clear(&mut self.removed_conn_urls);
        let later = dash::set_items(&remove_later);
        let ghost kept = dash::texts(later@);
        let ghost swept = self@;
        let mut k: usize = 0;
        assert(kept.take(0).to_set() =~= Set::empty());
        while k < later.len()
            invariant
                k <= later.len(),
                kept == dash::texts(later@),
                self@ == (ManagerView { removed: kept.take(k as int).to_set(), ..swept }),
            decreases later.len() - k,
        {
            proof {
                order::lemma_take_to_set(kept, k as int);
            }
            dash::set_insert(&mut self.removed_conn_urls, later[k].clone());
            k += 1;
        }
        assert(kept.take(kept.len() as int) =~= kept);
    }

    /// Carries out the removals that wait, and lists the URLs of connectors at rest that
    /// have no live connection, in ascending order.
    pub fn collect_dead_conns(&mut self) -> (dead_urls: Vec<String>)
        ensures
            final(self)@ == old(self)@.swept(),
            order::is_listing(dash::texts(dead_urls@), old(self)@.swept().dead()),
            dash::texts(dead_urls@) == order::listing(old(self)@.swept().dead()),
    {
        self.handle_remove_connector();
        let all_urls = order::sort_texts(&dash::map_keys(&self.connectors));
        let ghost all = dash::texts(all_urls@);
        let mut dead_urls: Vec<String> = Vec::new();
        let mut i: usize = 0;
        assert(all.take(0).to_set() =~= Set::empty());
        assert(dash::texts(dead_urls@).to_set() =~= all.take(0).to_set().difference(self@.alive));
        while i < all_urls.len()
            invariant
                i <= all_urls.len(),
                all == dash::texts(all_urls@),
                order::ascends(all),
                order::is_listing(
                    dash::texts(dead_urls@),
                    all.take(i as int).to_set().difference(self@.alive),
                ),
            decreases all_urls.len() - i,
        {
            let url = &all_urls[i];
            let ghost taken = all.take(i as int).to_set();
            let ghost some = dash::texts(dead_urls@);
            proof {
                order::lemma_take_to_set(all, i as int);
            }
            if !dash::set_contains(&self.alive_conn_urls, url) {
                dead_urls.push(url.clone());
                proof {
                    order::lemma_push_next(some, all, i as int);
                    assert(dash::texts(dead_urls@) =~= some.push(all[i as int]));
                    assert(taken.insert(url@).difference(self@.alive) =~= some.to_set().insert(
                        url@,
                    ));
                }
            } else {
                assert(taken.insert(url@).difference(self@.alive) =~= some.to_set());
            }
            i += 1;
        }
        proof {
            assert(all.take(all.len() as int) =~= all);
            order::lemma_is_listing(dash::texts(dead_urls@), self@.dead());
        }
        dead_urls
    }

    /// Lists all connectors, after the removals that wait were carried out. A connector that
    /// such a removal drops is listed one last time.
    pub fn list_connectors(&mut self) -> (list: Vec<Connector>)
        ensures
            final(self)@ == old(self)@.swept(),
            lines(list@) == old(self)@.listed(),
            order::is_listing(
                order::listing(old(self)@.connectors.dom()),
                old(self)@.connectors.dom(),
            ),
            order::is_listing(
                order::listing(old(self)@.reconnecting),
                old(self)@.reconnecting,
            ),
    {
        let ghost before = self@;
        let conn_urls = order::sort_texts(&dash::map_keys(&self.connectors));
        let dead_urls = self.collect_dead_conns();
        let ghost conns = dash::texts(conn_urls@);
        let mut list: Vec<Connector> = Vec::new();
        let mut i: usize = 0;
        assert(lines(list@) =~= before.status_lines(conns.take(0)));
        while i < conn_urls.len()
            invariant
                i <= conn_urls.len(),
                conns == dash::texts(conn_urls@),
                dash::texts(dead_urls@).to_set() == before.swept().dead(),
                lines(list@) == before.status_lines(conns.take(i as int)),
            decreases conn_urls.len() - i,
        {
            let mut status = ConnectorStatus::Connected;
            if contains_text(&dead_urls, &conn_urls[i]) {
                status = ConnectorStatus::Disconnected;
            }
            let ghost shorter = list@;
            list.insert(0, Connector { url: Some(conn_urls[i].clone()), status });
            proof {
                let line = seq![ConnectorView { url: Some(conns[i as int]), status }];
                assert(lines(list@) =~= line + lines(shorter));
                assert(before.status_lines(conns.take(i + 1)) =~= line + before.status_lines(
                    conns.take(i as int),
                ));
            }
            i += 1;
        }
        assert(conns.take(conns.len() as int) =~= conns);
        let reconnecting_urls = order::sort_texts(&dash::set_items(&self.reconnecting));
        let ghost reconns = dash::texts(reconnecting_urls@);
        let ghost rest = lines(list@);
        let mut k: usize = 0;
        assert(lines(list@) =~= connecting_lines(reconns.take(0)) + rest);
        while k < reconnecting_urls.len()
            invariant
                k <= reconnecting_urls.len(),
                reconns == dash::texts(reconnecting_urls@),
                lines(list@) == connecting_lines(reconns.take(k as int)) + rest,
            decreases reconnecting_urls.len() - k,
        {
            let ghost shorter = list@;
            let status = ConnectorStatus::Connecting;
            list.insert(0, Connector { url: Some(reconnecting_urls[k].clone()), status });
            proof {
                let line = seq![ConnectorView { url: Some(reconns[k as int]), status }];
                assert(lines(list@) =~= line + lines(shorter));
                assert(connecting_lines(reconns.take(k + 1)) =~= line + connecting_lines(
                    reconns.take(k as int),
                ));
                assert(lines(list@) =~= connecting_lines(reconns.take(k + 1)) + rest);
            }
            k += 1;
        }
        assert(reconns.take(reconns.len() as int) =~= reconns);
        list
    }

    /// Asks for the removal of a connector, which is carried out the next time.
    pub fn remove_connector(&mut self, url: String) -> (result: Result<(), Error>)
        ensures
            result == (if old(self)@.knows(url@) {
                Ok(())
            } else {
                Err::<(), Error>(Error::NotFound)
            }),
            final(self)@ == (if old(self)@.knows(url@) {
                old(self)@.with_removal(url@)
            } else {
                old(self)@.swept()
            }),
    {
        let ghost before = self@;
        let list = self.list_connectors();
        let mut found = false;
        let mut i: usize = 0;
        while i < list.len()
            invariant
                i <= list.len(),
                found <==> exists|k: int| 0 <= k < i && lines(list@)[k].url == Some(url@),
            decreases list.len() - i,
        {
            if let Some(listed) = &list[i].url {
                if *listed == url {
                    found = true;
                    assert(lines(list@)[i as int].url == Some(url@));
                }
            }
            i += 1;
        }
        proof {
            lemma_listed_is_known(before, url@);
        }
        if !found {
            return Err(Error::NotFound);
        }
        dash::set_insert(&mut self.removed_conn_urls, url);
        Ok(())
    }

    /// Takes note of an event.
    pub fn handle_event(&mut self, event: &GlobalCtxEvent)
        requires
            ManagerView::accepts(*event),
        ensures
            final(self)@ == old(self)@.after_event(*event),
    {
        match event {
            GlobalCtxEvent::PeerConnAdded(info) => {
                if !info.is_client {
                    return ;
                }
                if let Some(TunnelInfo { remote_addr: Some(addr) }) = &info.tunnel {
                    dash::set_insert(&mut self.alive_conn_urls, addr.clone());
                }
            },
            GlobalCtxEvent::PeerConnRemoved(info) => {
                if !info.is_client {
                    return ;
                }
                if let Some(TunnelInfo { remote_addr: Some(addr) }) = &info.tunnel {
                    dash::set_remove(&mut self.alive_conn_urls, addr);
                }
            },
            GlobalCtxEvent::Other => {},
        }
    }

    /// Is the connector of this URL out for reconnection?
    pub fn is_reconnecting(&self, url: &String) -> (answer: bool)
        ensures
            answer == self@.reconnecting.contains(url@),
    {
        dash::set_contains(&self.reconnecting, url)
    }

    /// Sends the connectors of these URLs out for reconnection.
    pub fn start_reconnects(&mut self, dead_urls: &Vec<String>) -> (tasks: Vec<ReconnTask>)
        requires
            dash::texts(dead_urls@).no_duplicates(),
            dash::texts(dead_urls@).to_set().subset_of(old(self)@.connectors.dom()),
            dash::texts(dead_urls@).to_set().disjoint(old(self)@.reconnecting),
        ensures
            final(self)@ == old(self)@.started(dash::texts(dead_urls@).to_set()),
            task_views(tasks@) == old(self)@.tasks(
                dash::texts(dead_urls@),
            ),
    {
        let ghost before = self@;
        let ghost all = dash::texts(dead_urls@);
        let mut tasks: Vec<ReconnTask> = Vec::new();
        let mut i: usize = 0;
        assert(all.take(0).to_set() =~= Set::empty());
        assert(self@ =~= before.started(all.take(0).to_set()));
        assert(task_views(tasks@) =~= before.tasks(all.take(0)));
        while i < dead_urls.len()
            invariant
                i <= dead_urls.len(),
                all == dash::texts(dead_urls@),
                all.no_duplicates(),
                all.to_set().subset_of(before.connectors.dom()),
                self@ == before.started(all.take(i as int).to_set()),
                task_views(tasks@) == before.tasks(all.take(i as int)),
            decreases dead_urls.len() - i,
        {
            let dead_url = &dead_urls[i];
            let ghost earlier = tasks@;
            let ghost taken = all.take(i as int).to_set();
            proof {
                order::lemma_take_to_set(all, i as int);
                assert(all.to_set().contains(all[i as int]));
            }
            if let Some((_, connector)) = dash::map_remove(&mut self.connectors, dead_url) {
                dash::set_insert(&mut self.reconnecting, dead_url.clone());
                tasks.push(ReconnTask { dead_url: dead_url.clone(), connector });
            }
            assert(self@ =~= before.started(taken.insert(dead_url@)));
            proof {
                let task = ReconnTaskView {
                    dead_url: dead_url@,
                    connector: before.connectors[dead_url@],
                };
                assert(task_views(tasks@) =~= task_views(earlier).push(task));
                assert(before.tasks(all.take(i + 1)) =~= before.tasks(all.take(i as int)).push(
                    task,
                ));
            }
            i += 1;
        }
        assert(all.take(all.len() as int) =~= all);
        tasks
    }

    /// Carries out the removals that wait, then sends every connector out for reconnection
    /// whose URL is dead, in ascending order of the URLs. None is sent where one of these
    /// URLs is out already.
    pub fn reconn_tick(&mut self) -> (started: Option<Vec<ReconnTask>>)
        ensures
            ({
                let swept = old(self)@.swept();
                match started {
                    None => {
                        &&& !swept.dead().disjoint(swept.reconnecting)
                        &&& final(self)@ == swept
                    },
                    Some(tasks) => {
                        &&& swept.dead().disjoint(swept.reconnecting)
                        &&& final(self)@ == swept.started(swept.dead())
                        &&& order::is_listing(order::listing(swept.dead()), swept.dead())
                        &&& task_views(tasks@) == swept.tasks(
                            order::listing(swept.dead()),
                        )
                    },
                }
            }),
    {
        let dead_urls = self.collect_dead_conns();
        let ghost dead = dash::texts(dead_urls@);
        let mut i: usize = 0;
        while i < dead_urls.len()
            invariant
                i <= dead_urls.len(),
                dead == dash::texts(dead_urls@),
                dead.to_set() == self@.dead(),
                self@ == old(self)@.swept(),
                dead.take(i as int).to_set().disjoint(self@.reconnecting),
            decreases dead_urls.len() - i,
        {
            proof {
                order::lemma_take_to_set(dead, i as int);
                assert(dead.to_set().contains(dead[i as int]));
            }
            if self.is_reconnecting(&dead_urls[i]) {
                return None;
            }
            i += 1;
        }
        proof {
            assert(dead.take(dead.len() as int) =~= dead);
            order::lemma_ascends_no_duplicates(dead);
        }
        Some(self.start_reconnects(&dead_urls))
    }

    /// Takes a connector back from reconnection.
    pub fn finish_reconnect(&mut self, task: ReconnTask)
        requires
            old(self)@.reconnecting.contains(task.dead_url@),
        ensures
            final(self)@ == old(self)@.finished(task@),
    {
        dash::set_remove(&mut self.reconnecting, &task.dead_url);
        dash::map_insert(&mut self.connectors, task.dead_url, task.connector);
    }
}

/// Is this text in the list?
fn contains_text(list: &Vec<String>, item: &String) -> (found: bool)
    ensures
        found == dash::texts(list@).to_set().contains(item@),
{
    let mut i: usize = 0;
    while i < list.len()
        invariant
            i <= list.len(),
            forall|k: int| 0 <= k < i ==> dash::texts(list@)[k] != item@,
        decreases list.len() - i,
    {
        if list[i] == *item {
            assert(dash::texts(list@)[i as int] == item@);
            return true;
        }
        i += 1;
    }
    false
}

pub(crate) proof fn lemma_listed_is_known(manager: ManagerView, url: Seq<char>)
    requires
        order::is_listing(order::listing(manager.connectors.dom()), manager.connectors.dom()),
        order::is_listing(order::listing(manager.reconnecting), manager.reconnecting),
    ensures
        manager.knows(url) <==> exists|k: int|
            0 <= k < manager.listed().len() && manager.listed()[k].url == Some(url),
{
    let conns = order::listing(manager.connectors.dom());
    let reconns = order::listing(manager.reconnecting);
    let listed = manager.listed();
    if manager.connectors.contains_key(url) {
        assert(conns.to_set().contains(url));
        let i = choose|i: int| 0 <= i < conns.len() && conns[i] == url;
        let k = reconns.len() + conns.len() - 1 - i;
        assert(listed[k].url == Some(url));
    }
    if manager.reconnecting.contains(url) {
        assert(reconns.to_set().contains(url));
        let i = choose|i: int| 0 <= i < reconns.len() && reconns[i] == url;
        let k = reconns.len() - 1 - i;
        assert(listed[k].url == Some(url));
    }
    if exists|k: int| 0 <= k < listed.len() && listed[k].url == Some(url) {
        let k = choose|k: int| 0 <= k < listed.len() && listed[k].url == Some(url);
        if k < reconns.len() {
            assert(reconns[reconns.len() - 1 - k] == url);
            assert(reconns.to_set().contains(url));
        } else {
            let i = conns.len() - 1 - (k - reconns.len());
            assert(conns[i] == url);
            assert(conns.to_set().contains(url));
        }
    }
}

} // verus!
