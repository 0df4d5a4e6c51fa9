//! What holds of a connector manager across its operations.

use crate::manager::{self, ManagerView, ReconnTask, ReconnTaskView};
use crate::order;
use crate::types::{
    Connector, ConnectorStatus, ConnectorView, GlobalCtxEvent, PeerConnInfo, TunnelInfo,
};
use vstd::prelude::*;

verus! {

/// Every connector is either at rest or out for reconnection, never both.
pub open spec fn at_rest_or_out(manager: ManagerView) -> bool {
    manager.connectors.dom().disjoint(manager.reconnecting)
}

/// A connector that was added is known, and the only one with its URL; no other connector
/// is touched.
pub proof fn law_added_connector_is_known(
    manager: ManagerView,
    url: Seq<char>,
    connector: u64,
    other: Seq<char>,
)
    ensures
        manager.with_connector(url, connector).knows(url),
        manager.with_connector(url, connector).connectors[url] == connector,
        manager.with_connector(url, connector).connectors.contains_key(url),
        manager.with_connector(url, connector).reconnecting == manager.reconnecting,
        manager.with_connector(url, connector).alive == manager.alive,
        manager.with_connector(url, connector).removed == manager.removed,
        other != url ==> {
            &&& manager.with_connector(url, connector).connectors.contains_key(other)
                <==> manager.connectors.contains_key(other)
            &&& manager.with_connector(url, connector).knows(other) <==> manager.knows(other)
            &&& manager.connectors.contains_key(other) ==> manager.with_connector(
                url,
                connector,
            ).connectors[other] == manager.connectors[other]
        },
{
}

/// A connector that takes the place of another with its URL leaves no trace of it.
pub proof fn law_last_addition_counts(
    manager: ManagerView,
    url: Seq<char>,
    earlier: u64,
    connector: u64,
)
    ensures
        manager.with_connector(url, earlier).with_connector(url, connector)
            == manager.with_connector(url, connector),
{
    assert(manager.with_connector(url, earlier).with_connector(url, connector)
        =~= manager.with_connector(url, connector));
}

/// The removal of a connector undoes its addition once it is carried out.
pub proof fn law_removal_undoes_addition(manager: ManagerView, url: Seq<char>, connector: u64)
    requires
        !manager.knows(url),
    ensures
        manager.with_connector(url, connector).with_removal(url).swept() == manager.swept(),
{
    assert(manager.with_connector(url, connector).with_removal(url).swept() =~= manager.swept());
}

/// Carrying out the pending removals a second time changes nothing.
pub proof fn law_sweep_is_idempotent(manager: ManagerView)
    ensures
        manager.swept().swept() == manager.swept(),
{
    assert(manager.swept().swept() =~= manager.swept());
}

/// Once the pending removals are carried out, the ones that still wait are of URLs that
/// are out for reconnection and have no connector at rest.
pub proof fn law_only_reconnecting_urls_wait(manager: ManagerView, url: Seq<char>)
    requires
        manager.swept().removed.contains(url),
    ensures
        manager.removed.contains(url),
        manager.reconnecting.contains(url),
        !manager.swept().connectors.contains_key(url),
{
}

/// A connector that the user removes is no longer at rest after the next sweep, and no
/// other connector is touched by its removal.
pub proof fn law_removal_takes_effect(manager: ManagerView, url: Seq<char>)
    requires
        manager.knows(url),
    ensures
        !manager.with_removal(url).swept().connectors.contains_key(url),
        manager.with_removal(url).swept().connectors == manager.swept().connectors.remove(url),
        manager.with_removal(url).swept().reconnecting == manager.reconnecting,
        manager.with_removal(url).swept().alive == manager.alive,
{
    assert(manager.with_removal(url).swept().connectors =~= manager.swept().connectors.remove(
        url,
    ));
}

/// The removal of a connector that is out for reconnection waits until it is back, and
/// then takes effect: the URL is unknown and nothing waits for it any more.
pub proof fn law_removal_waits_for_reconnection(manager: ManagerView, task: ReconnTaskView)
    requires
        manager.reconnecting.contains(task.dead_url),
        !manager.connectors.contains_key(task.dead_url),
        manager.removed.contains(task.dead_url),
    ensures
        manager.swept().removed.contains(task.dead_url),
        !manager.swept().finished(task).swept().knows(task.dead_url),
        !manager.swept().finished(task).swept().removed.contains(task.dead_url),
{
}

/// A sweep drops the connectors at rest that the user removed, and no others.
pub proof fn law_sweep_drops_removed_connectors(manager: ManagerView, url: Seq<char>)
    ensures
        manager.swept().connectors.contains_key(url) <==> manager.connectors.contains_key(url)
            && !manager.removed.contains(url),
        manager.swept().connectors.contains_key(url) ==> manager.swept().connectors[url]
            == manager.connectors[url],
{
}

/// A tick leaves no dead connector at rest, and loses none: the same URLs are known as
/// after the sweep.
pub proof fn law_tick_sends_all_dead(manager: ManagerView, url: Seq<char>)
    ensures
        manager.started(manager.dead()).dead() == Set::<Seq<char>>::empty(),
        manager.started(manager.dead()).knows(url) <==> manager.knows(url),
{
    assert(manager.started(manager.dead()).dead() =~= Set::<Seq<char>>::empty());
}

/// A connector that comes back from reconnection is at rest as it was before it went out.
pub proof fn law_finish_undoes_start(manager: ManagerView, url: Seq<char>)
    requires
        manager.connectors.contains_key(url),
        !manager.reconnecting.contains(url),
    ensures
        manager.started(set![url]).finished(
            ReconnTaskView { dead_url: url, connector: manager.connectors[url] },
        ) == manager,
{
    assert(manager.started(set![url]).finished(
        ReconnTaskView { dead_url: url, connector: manager.connectors[url] },
    ) =~= manager);
}

/// When all connectors that went out together are back, in whatever order, the manager is
/// as it was before.
pub proof fn law_all_come_back(manager: ManagerView, urls: Seq<Seq<char>>)
    requires
        urls.no_duplicates(),
        urls.to_set().subset_of(manager.connectors.dom()),
        urls.to_set().disjoint(manager.reconnecting),
    ensures
        manager.started(urls.to_set()).finished_all(manager.tasks(urls)) == manager,
{
    lemma_some_come_back(manager, urls, urls.len() as int);
    assert(urls.take(urls.len() as int) =~= urls);
    assert(manager.started(urls.to_set().difference(urls.to_set())) =~= manager);
}

proof fn lemma_some_come_back(manager: ManagerView, urls: Seq<Seq<char>>, count: int)
    requires
        urls.no_duplicates(),
        urls.to_set().subset_of(manager.connectors.dom()),
        urls.to_set().disjoint(manager.reconnecting),
        0 <= count <= urls.len(),
    ensures
        manager.started(urls.to_set()).finished_all(manager.tasks(urls.take(count)))
            == manager.started(urls.to_set().difference(urls.take(count).to_set())),
    decreases count,
{
    let out = urls.to_set();
    if count == 0 {
        assert(urls.take(0).to_set() =~= Set::empty());
        assert(out.difference(urls.take(0).to_set()) =~= out);
    } else {
        let last = urls[count - 1];
        let back = urls.take(count - 1).to_set();
        lemma_some_come_back(manager, urls, count - 1);
        order::lemma_take_to_set(urls, count - 1);
        assert(out.contains(last)) by {
            assert(urls.contains(last));
        }
        let tasks = manager.tasks(urls.take(count));
        assert(tasks.drop_last() =~= manager.tasks(urls.take(count - 1)));
        assert(tasks.last() == ReconnTaskView {
            dead_url: last,
            connector: manager.connectors[last],
        });
        assert(manager.started(out.difference(back)).finished(tasks.last()) =~= manager.started(
            out.difference(back.insert(last)),
        ));
    }
}

/// Every operation keeps each connector either at rest or out for reconnection, except
/// that of adding a connector whose URL is out for reconnection.
pub proof fn law_at_rest_or_out(
    manager: ManagerView,
    url: Seq<char>,
    connector: u64,
    event: GlobalCtxEvent,
    task: ReconnTaskView,
)
    requires
        at_rest_or_out(manager),
    ensures
        at_rest_or_out(ManagerView::empty()),
        !manager.reconnecting.contains(url) ==> at_rest_or_out(
            manager.with_connector(url, connector),
        ),
        at_rest_or_out(manager.swept()),
        at_rest_or_out(manager.with_removal(url)),
        at_rest_or_out(manager.after_event(event)),
        at_rest_or_out(manager.swept().started(manager.swept().dead())),
        at_rest_or_out(manager.finished(task)),
{
}

/// While each connector is either at rest or out for reconnection, no dead URL is out
/// already, so every tick can send all of them.
pub proof fn law_tick_can_send(manager: ManagerView)
    requires
        at_rest_or_out(manager),
    ensures
        manager.swept().dead().disjoint(manager.swept().reconnecting),
{
}

/// A URL whose connection was added is not dead; when the connection is removed again,
/// it is not alive any more, and nothing else has changed.
pub proof fn law_connection_comes_and_goes(manager: ManagerView, info: PeerConnInfo)
    requires
        info.is_client,
        info.remote_addr() is Some,
    ensures
        !manager.after_event(GlobalCtxEvent::PeerConnAdded(info)).dead().contains(
            info.remote_addr()->0,
        ),
        manager.after_event(GlobalCtxEvent::PeerConnAdded(info)).after_event(
            GlobalCtxEvent::PeerConnRemoved(info),
        ) == manager.after_event(GlobalCtxEvent::PeerConnRemoved(info)),
        !manager.after_event(GlobalCtxEvent::PeerConnRemoved(info)).alive.contains(
            info.remote_addr()->0,
        ),
{
    assert(manager.after_event(GlobalCtxEvent::PeerConnAdded(info)).after_event(
        GlobalCtxEvent::PeerConnRemoved(info),
    ) =~= manager.after_event(GlobalCtxEvent::PeerConnRemoved(info)));
}

/// Events touch nothing but the set of live URLs, and connections that the other side
/// opened touch not even that.
pub proof fn law_events_touch_only_live_urls(manager: ManagerView, event: GlobalCtxEvent)
    ensures
        manager.after_event(event) == (ManagerView {
            alive: manager.after_event(event).alive,
            ..manager
        }),
        event matches GlobalCtxEvent::PeerConnAdded(info) && !info.is_client
            ==> manager.after_event(event) == manager,
        event matches GlobalCtxEvent::PeerConnRemoved(info) && !info.is_client
            ==> manager.after_event(event) == manager,
{
}

/// The list of connectors names exactly the known URLs.
pub proof fn law_listed_is_known(manager: ManagerView, url: Seq<char>)
    requires
        manager.connectors.dom().finite(),
        manager.reconnecting.finite(),
    ensures
        manager.knows(url) <==> exists|k: int|
            0 <= k < manager.listed().len() && manager.listed()[k].url == Some(url),
{
    order::lemma_listing_exists(manager.connectors.dom());
    order::lemma_listing_exists(manager.reconnecting);
    manager::lemma_listed_is_known(manager, url);
}

/// The list begins with the connectors that are out for reconnection, and within both
/// parts the URLs descend.
pub proof fn law_list_order(manager: ManagerView, i: int, j: int)
    requires
        manager.connectors.dom().finite(),
        manager.reconnecting.finite(),
        0 <= i < j < manager.listed().len(),
    ensures
        manager.listed()[j].status == ConnectorStatus::Connecting ==> manager.listed()[i].status
            == ConnectorStatus::Connecting,
        (manager.listed()[i].status == ConnectorStatus::Connecting) == (manager.listed()[j].status
            == ConnectorStatus::Connecting) ==> order::precedes(
            manager.listed()[j].url->0,
            manager.listed()[i].url->0,
        ),
{
    order::lemma_listing_exists(manager.connectors.dom());
    order::lemma_listing_exists(manager.reconnecting);
    let conns = order::listing(manager.connectors.dom());
    let reconns = order::listing(manager.reconnecting);
    let outs = reconns.len();
    let listed = manager.listed();
    if j < outs {
        assert(listed[i].url->0 == reconns[outs - 1 - i]);
        assert(listed[j].url->0 == reconns[outs - 1 - j]);
        assert(order::precedes(reconns[outs - 1 - j], reconns[outs - 1 - i]));
    } else if i >= outs {
        let ci = conns.len() - 1 - (i - outs);
        let cj = conns.len() - 1 - (j - outs);
        assert(listed[i].url->0 == conns[ci]);
        assert(listed[j].url->0 == conns[cj]);
        assert(order::precedes(conns[cj], conns[ci]));
    }
}

/// A connector at rest that the user removed is listed as connected, one last time: after
/// that listing it is gone.
pub proof fn law_removed_connector_is_listed_once_more(manager: ManagerView, url: Seq<char>)
    requires
        manager.connectors.contains_key(url),
        manager.removed.contains(url),
    ensures
        manager.status(url) == ConnectorStatus::Connected,
        !manager.swept().connectors.contains_key(url),
{
}

/// A connector that is not about to be removed is listed as disconnected exactly when its
/// URL has no live connection.
pub proof fn law_status_tells_live_connections(manager: ManagerView, url: Seq<char>)
    requires
        manager.connectors.contains_key(url),
        !manager.removed.contains(url),
    ensures
        manager.status(url) == ConnectorStatus::Disconnected <==> !manager.alive.contains(url),
        manager.status(url) == ConnectorStatus::Connected <==> manager.alive.contains(url),
{
}

/// A new manager knows, awaits and lists nothing.
pub proof fn law_new_manager_is_empty(url: Seq<char>)
    ensures
        !ManagerView::empty().connectors.contains_key(url),
        !ManagerView::empty().reconnecting.contains(url),
        !ManagerView::empty().alive.contains(url),
        !ManagerView::empty().removed.contains(url),
        ManagerView::empty().listed().len() == 0,
{
    let empty = ManagerView::empty();
    assert(empty.connectors.dom() =~= Set::<Seq<char>>::empty());
    law_list_tells_each_connector(empty, url);
}

/// A URL is known exactly when a connector with it is at rest or out for reconnection.
pub proof fn law_known_is_at_rest_or_out(manager: ManagerView, url: Seq<char>)
    ensures
        manager.knows(url) <==> manager.connectors.dom().contains(url)
            || manager.reconnecting.contains(url),
{
}

/// A URL is dead exactly when its connector is at rest and it has no live connection.
pub proof fn law_dead_is_at_rest_without_connection(manager: ManagerView, url: Seq<char>)
    ensures
        manager.dead().contains(url) <==> manager.connectors.dom().contains(url)
            && !manager.alive.contains(url),
{
}

/// After a sweep a removal still waits exactly if it waited before, of a URL that is out
/// for reconnection and not at rest; what is out and what is alive stays.
pub proof fn law_sweep_keeps_what_must_wait(manager: ManagerView, url: Seq<char>)
    ensures
        manager.swept().removed.contains(url) <==> {
            &&& manager.removed.contains(url)
            &&& manager.reconnecting.contains(url)
            &&& !manager.connectors.contains_key(url)
        },
        manager.swept().reconnecting == manager.reconnecting,
        manager.swept().alive == manager.alive,
{
}

/// The removal of a known URL is pending right after, whether its connector is at rest or
/// out for reconnection; of other URLs, what an earlier removal left waiting is pending.
/// Nothing but the pending removals tells the state from one that was only swept.
pub proof fn law_removal_is_pending(manager: ManagerView, url: Seq<char>, other: Seq<char>)
    requires
        manager.knows(url),
    ensures
        manager.with_removal(url).removed.contains(url),
        other != url ==> (manager.with_removal(url).removed.contains(other) <==> {
            &&& manager.removed.contains(other)
            &&& manager.reconnecting.contains(other)
            &&& !manager.connectors.contains_key(other)
        }),
        manager.with_removal(url).connectors == manager.swept().connectors,
        manager.with_removal(url).reconnecting == manager.reconnecting,
        manager.with_removal(url).alive == manager.alive,
{
}

/// A connector that is removed while it is out for reconnection is gone after it came back
/// and the removals were carried out, however often they were carried out in between and
/// whatever other connectors there are.
pub proof fn law_removal_while_out_takes_effect(manager: ManagerView, task: ReconnTaskView)
    requires
        manager.reconnecting.contains(task.dead_url),
        !manager.connectors.contains_key(task.dead_url),
    ensures
        manager.with_removal(task.dead_url).removed.contains(task.dead_url),
        manager.with_removal(task.dead_url).swept().removed.contains(task.dead_url),
        !manager.with_removal(task.dead_url).finished(task).swept().knows(task.dead_url),
        !manager.with_removal(task.dead_url).swept().finished(task).swept().knows(task.dead_url),
        !manager.with_removal(task.dead_url).finished(task).swept().removed.contains(
            task.dead_url,
        ),
{
}

/// A connector that is removed while it is at rest is unknown after the next sweep, unless
/// it is out for reconnection as well.
pub proof fn law_removal_at_rest_takes_effect(manager: ManagerView, url: Seq<char>)
    requires
        manager.connectors.contains_key(url),
        !manager.reconnecting.contains(url),
    ensures
        !manager.with_removal(url).swept().knows(url),
        !manager.with_removal(url).swept().removed.contains(url),
{
}

/// The URL of the peer is the one that its tunnel tells; there is none where the tunnel, or
/// what it tells, is missing.
pub proof fn law_peer_url_is_told_by_the_tunnel(is_client: bool, addr: String)
    ensures
        (PeerConnInfo {
            is_client,
            tunnel: Some(TunnelInfo { remote_addr: Some(addr) }),
        }).remote_addr() == Some(addr@),
        (PeerConnInfo {
            is_client,
            tunnel: Some(TunnelInfo { remote_addr: None }),
        }).remote_addr() is None,
        (PeerConnInfo { is_client, tunnel: None }).remote_addr() is None,
{
}

/// An event can be taken unless it is of a connection that this side opened and whose URL
/// is not told.
pub proof fn law_events_that_can_be_taken(info: PeerConnInfo)
    ensures
        ManagerView::accepts(GlobalCtxEvent::PeerConnAdded(info)) <==> !(info.is_client
            && info.remote_addr() is None),
        ManagerView::accepts(GlobalCtxEvent::PeerConnRemoved(info)) <==> !(info.is_client
            && info.remote_addr() is None),
        ManagerView::accepts(GlobalCtxEvent::Other),
{
}

/// After a connection that this side opened was added, the live URLs are exactly the earlier
/// ones and that of the peer; after it was removed, the earlier ones but that of the peer.
/// It does not matter what connectors there are.
pub proof fn law_live_urls_follow_connections(
    manager: ManagerView,
    info: PeerConnInfo,
    peer: Seq<char>,
    url: Seq<char>,
)
    requires
        info.is_client,
        info.remote_addr() == Some(peer),
    ensures
        manager.after_event(GlobalCtxEvent::PeerConnAdded(info)).alive.contains(url) <==> url
            == peer || manager.alive.contains(url),
        manager.after_event(GlobalCtxEvent::PeerConnRemoved(info)).alive.contains(url) <==> url
            != peer && manager.alive.contains(url),
        manager.after_event(GlobalCtxEvent::Other) == manager,
{
}

/// A connector whose connection is added while it is out for reconnection is alive once it
/// is back: it is not dead, the next tick leaves it at rest, and it is listed as connected.
pub proof fn law_reconnected_connector_is_left_alone(
    manager: ManagerView,
    info: PeerConnInfo,
    task: ReconnTaskView,
)
    requires
        info.is_client,
        info.remote_addr() == Some(task.dead_url),
        manager.reconnecting.contains(task.dead_url),
        !manager.removed.contains(task.dead_url),
    ensures
        ({
            let back = manager.after_event(GlobalCtxEvent::PeerConnAdded(info)).finished(task);
            let ticked = back.swept().started(back.swept().dead());
            &&& back.alive.contains(task.dead_url)
            &&& !back.dead().contains(task.dead_url)
            &&& back.status(task.dead_url) == ConnectorStatus::Connected
            &&& ticked.connectors.contains_key(task.dead_url)
            &&& ticked.connectors[task.dead_url] == task.connector
            &&& !ticked.reconnecting.contains(task.dead_url)
        }),
{
}

/// A connector whose connection is removed again is sent out by the next tick.
pub proof fn law_lost_connection_is_reconnected(
    manager: ManagerView,
    info: PeerConnInfo,
    url: Seq<char>,
)
    requires
        info.is_client,
        info.remote_addr() == Some(url),
        manager.connectors.contains_key(url),
        !manager.removed.contains(url),
    ensures
        ({
            let lost = manager.after_event(GlobalCtxEvent::PeerConnRemoved(info));
            &&& lost.swept().dead().contains(url)
            &&& lost.swept().started(lost.swept().dead()).reconnecting.contains(url)
            &&& lost.status(url) == ConnectorStatus::Disconnected
        }),
{
}

/// Connectors that go out are no longer at rest but out; all others stay where they are, and
/// neither the live URLs nor the pending removals change.
pub proof fn law_going_out(manager: ManagerView, urls: Set<Seq<char>>, url: Seq<char>)
    ensures
        manager.started(urls).connectors.contains_key(url) <==> manager.connectors.contains_key(url)
            && !urls.contains(url),
        manager.started(urls).connectors.contains_key(url) ==> manager.started(urls).connectors[url]
            == manager.connectors[url],
        manager.started(urls).reconnecting.contains(url) <==> manager.reconnecting.contains(url)
            || urls.contains(url),
        manager.started(urls).alive == manager.alive,
        manager.started(urls).removed == manager.removed,
{
}

/// Every URL that goes out does so with its own connector, in the order given.
pub proof fn law_each_goes_out_with_its_connector(
    manager: ManagerView,
    urls: Seq<Seq<char>>,
    i: int,
)
    ensures
        manager.tasks(urls).len() == urls.len(),
        0 <= i < urls.len() ==> {
            &&& manager.tasks(urls)[i].dead_url == urls[i]
            &&& manager.tasks(urls)[i].connector == manager.connectors[urls[i]]
        },
{
}

/// A connector that comes back is at rest under its URL and no longer out; all others stay
/// where they are, and neither the live URLs nor the pending removals change.
pub proof fn law_coming_back(manager: ManagerView, task: ReconnTaskView, other: Seq<char>)
    ensures
        manager.finished(task).connectors.contains_key(task.dead_url),
        manager.finished(task).connectors[task.dead_url] == task.connector,
        !manager.finished(task).reconnecting.contains(task.dead_url),
        other != task.dead_url ==> {
            &&& manager.finished(task).connectors.contains_key(other)
                <==> manager.connectors.contains_key(other)
            &&& manager.connectors.contains_key(other) ==> manager.finished(task).connectors[other]
                == manager.connectors[other]
            &&& manager.finished(task).reconnecting.contains(other)
                <==> manager.reconnecting.contains(other)
        },
        manager.finished(task).alive == manager.alive,
        manager.finished(task).removed == manager.removed,
{
}

/// A tick sends out exactly the connectors at rest that are neither removed nor alive; it
/// drops those that are removed, and leaves those that are alive.
pub proof fn law_tick_decides_each_connector(manager: ManagerView, url: Seq<char>)
    ensures
        ({
            let ticked = manager.swept().started(manager.swept().dead());
            &&& ticked.reconnecting.contains(url) <==> manager.reconnecting.contains(url) || (
            manager.connectors.contains_key(url) && !manager.removed.contains(url)
                && !manager.alive.contains(url))
            &&& ticked.connectors.contains_key(url) <==> manager.connectors.contains_key(url)
                && !manager.removed.contains(url) && manager.alive.contains(url)
            &&& ticked.connectors.contains_key(url) ==> ticked.connectors[url]
                == manager.connectors[url]
            &&& ticked.alive == manager.alive
        }),
{
}

/// The list has one line for every connector that is out and one for every connector at
/// rest. A connector at rest is disconnected where it is neither alive nor removed, else
/// connected.
pub proof fn law_list_tells_each_connector(manager: ManagerView, url: Seq<char>)
    requires
        manager.connectors.dom().finite(),
        manager.reconnecting.finite(),
    ensures
        manager.listed().contains(
            ConnectorView { url: Some(url), status: ConnectorStatus::Connecting },
        ) <==> manager.reconnecting.contains(url),
        manager.listed().contains(
            ConnectorView { url: Some(url), status: ConnectorStatus::Disconnected },
        ) <==> manager.connectors.contains_key(url) && !manager.alive.contains(url)
            && !manager.removed.contains(url),
        manager.listed().contains(
            ConnectorView { url: Some(url), status: ConnectorStatus::Connected },
        ) <==> manager.connectors.contains_key(url) && (manager.alive.contains(url)
            || manager.removed.contains(url)),
        manager.listed().len() == manager.reconnecting.len() + manager.connectors.dom().len(),
        forall|k: int| 0 <= k < manager.listed().len() ==> (#[trigger] manager.listed()[k]).url
            is Some,
{
    let outs = order::listing(manager.reconnecting);
    let rests = order::listing(manager.connectors.dom());
    let listed = manager.listed();
    order::law_listing(manager.reconnecting, url, 0, 0);
    order::law_listing(manager.connectors.dom(), url, 0, 0);
    if outs.contains(url) {
        let i = choose|i: int| 0 <= i < outs.len() && outs[i] == url;
        let k = outs.len() - 1 - i;
        assert(listed[k] == ConnectorView { url: Some(url), status: ConnectorStatus::Connecting });
    }
    if rests.contains(url) {
        let i = choose|i: int| 0 <= i < rests.len() && rests[i] == url;
        let k = outs.len() + rests.len() - 1 - i;
        assert(listed[k] == ConnectorView { url: Some(url), status: manager.status(url) });
    }
    assert forall|k: int| 0 <= k < listed.len() implies {
        &&& (#[trigger] listed[k]).url is Some
        &&& k < outs.len() ==> listed[k].status == ConnectorStatus::Connecting && outs.contains(
            listed[k].url->0,
        )
        &&& k >= outs.len() ==> listed[k].status == manager.status(listed[k].url->0)
            && rests.contains(listed[k].url->0)
    } by {
        if k < outs.len() {
            assert(listed[k].url == Some(outs[outs.len() - 1 - k]));
        } else {
            assert(listed[k].url == Some(rests[rests.len() - 1 - (k - outs.len())]));
        }
    }
}

/// A line of the list shows the URL and the status of its connector.
pub proof fn law_line_shows_the_connector(list: Seq<Connector>, k: int)
    requires
        0 <= k < list.len(),
    ensures
        manager::lines(list).len() == list.len(),
        manager::lines(list)[k].status == list[k].status,
        list[k].url is Some <==> manager::lines(list)[k].url is Some,
        list[k].url is Some ==> manager::lines(list)[k].url->0 == list[k].url->0@,
{
}

/// A connector that goes out is shown with its URL and its handle.
pub proof fn law_task_shows_the_connector(list: Seq<ReconnTask>, k: int)
    requires
        0 <= k < list.len(),
    ensures
        manager::task_views(list).len() == list.len(),
        manager::task_views(list)[k].dead_url == list[k].dead_url@,
        manager::task_views(list)[k].connector == list[k].connector,
{
}

} // verus!
