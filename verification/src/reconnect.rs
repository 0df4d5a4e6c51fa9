//! Reconnecting to a dead URL: which address to use, which IP versions to try, and
//! when to give up.
//!
//! A `ReconnectState` says what is to be done outside; the `ReconnectEvent` that
//! comes of it leads to the next state.

use crate::attempt::{self, AttemptEventView, AttemptState, AttemptView};
use crate::net;
use crate::text;
use crate::types::{AddrFamily, IpVersion, ReconnResult, ReconnResultView};
use vstd::prelude::*;

verus! {

/// The port to use where neither the URL nor its scheme has one.
pub const DEFAULT_PORT: u16 = 1000;

/// How long one attempt may take, in seconds.
pub const ATTEMPT_TIMEOUT_SECS: u64 = 3;

/// Why a reconnection failed.
#[derive(Debug)]
pub enum ReconnectError<E> {
    /// The text is not a URL, for this reason.
    InvalidUrl { url: String, reason: String },
    /// The host could not be resolved.
    Unresolved(E),
    /// The host has no address.
    NoAddress,
    /// The last attempt took too long.
    TimedOut,
    /// The last attempt failed.
    Failed(E),
}

/// `ReconnectError` as contracts speak of it.
pub enum ReconnectErrorView<E> {
    InvalidUrl { url: Seq<char>, reason: Seq<char> },
    Unresolved(E),
    NoAddress,
    TimedOut,
    Failed(E),
}

impl<E> View for ReconnectError<E> {
    type V = ReconnectErrorView<E>;

    open spec fn view(&self) -> ReconnectErrorView<E> {
        match *self {
            ReconnectError::InvalidUrl { url, reason } => ReconnectErrorView::InvalidUrl {
                url: url@,
                reason: reason@,
            },
            ReconnectError::Unresolved(error) => ReconnectErrorView::Unresolved(error),
            ReconnectError::NoAddress => ReconnectErrorView::NoAddress,
            ReconnectError::TimedOut => ReconnectErrorView::TimedOut,
            ReconnectError::Failed(error) => ReconnectErrorView::Failed(error),
        }
    }
}

/// What is to be done next for a dead URL.
#[derive(Debug)]
pub enum ReconnectState<E> {
    /// Find out where the URL redirects to.
    FetchRedirect { dead_url: String },
    /// Resolve the host of the URL, with `DEFAULT_PORT` as its port of last resort.
    Resolve { url: String },
    /// Connect to the URL with this IP version, within `ATTEMPT_TIMEOUT_SECS`; the
    /// other versions are left to try.
    Attempt { url: String, ip_version: IpVersion, remaining: Vec<IpVersion> },
    /// Tell the rest of the node that this attempt failed.
    Report {
        url: String,
        ip_version: IpVersion,
        error: ReconnectError<E>,
        remaining: Vec<IpVersion>,
    },
    /// The reconnection is over.
    Finished { result: Result<ReconnResult, ReconnectError<E>> },
}

/// `ReconnectState` as contracts speak of it.
pub enum ReconnectView<E> {
    FetchRedirect { dead_url: Seq<char> },
    Resolve { url: Seq<char> },
    Attempt { url: Seq<char>, ip_version: IpVersion, remaining: Seq<IpVersion> },
    Report {
        url: Seq<char>,
        ip_version: IpVersion,
        error: ReconnectErrorView<E>,
        remaining: Seq<IpVersion>,
    },
    Finished { result: Result<ReconnResultView, ReconnectErrorView<E>> },
}

impl<E> View for ReconnectState<E> {
    type V = ReconnectView<E>;

    open spec fn view(&self) -> ReconnectView<E> {
        match *self {
            ReconnectState::FetchRedirect { dead_url } => ReconnectView::FetchRedirect {
                dead_url: dead_url@,
            },
            ReconnectState::Resolve { url } => ReconnectView::Resolve { url: url@ },
            ReconnectState::Attempt { url, ip_version, remaining } => ReconnectView::Attempt {
                url: url@,
                ip_version,
                remaining: remaining@,
            },
            ReconnectState::Report { url, ip_version, error, remaining } => ReconnectView::Report {
                url: url@,
                ip_version,
                error: error@,
                remaining: remaining@,
            },
            ReconnectState::Finished { result: Ok(done) } => ReconnectView::Finished {
                result: Ok(done@),
            },
            ReconnectState::Finished { result: Err(error) } => ReconnectView::Finished {
                result: Err(error@),
            },
        }
    }
}

/// What came of it.
#[derive(Debug)]
pub enum ReconnectEvent<E> {
    /// The URL redirects there, or nowhere that could be found out.
    Redirected(Option<String>),
    /// The host has these addresses.
    Resolved(Vec<AddrFamily>),
    /// The host could not be resolved.
    ResolveFailed(E),
    /// The attempt succeeded.
    Connected(ReconnResult),
    /// The attempt failed.
    ConnectFailed(E),
    /// The attempt took too long.
    TimedOut,
    /// The failure was told.
    Reported,
}

/// `ReconnectEvent` as contracts speak of it.
pub enum ReconnectEventView<E> {
    Redirected(Option<Seq<char>>),
    Resolved(Seq<AddrFamily>),
    ResolveFailed(E),
    Connected(ReconnResultView),
    ConnectFailed(E),
    TimedOut,
    Reported,
}

impl<E> View for ReconnectEvent<E> {
    type V = ReconnectEventView<E>;

    open spec fn view(&self) -> ReconnectEventView<E> {
        match *self {
            ReconnectEvent::Redirected(Some(url)) => ReconnectEventView::Redirected(Some(url@)),
            ReconnectEvent::Redirected(None) => ReconnectEventView::Redirected(None),
            ReconnectEvent::Resolved(addrs) => ReconnectEventView::Resolved(addrs@),
            ReconnectEvent::ResolveFailed(error) => ReconnectEventView::ResolveFailed(error),
            ReconnectEvent::Connected(done) => ReconnectEventView::Connected(done@),
            ReconnectEvent::ConnectFailed(error) => ReconnectEventView::ConnectFailed(error),
            ReconnectEvent::TimedOut => ReconnectEventView::TimedOut,
            ReconnectEvent::Reported => ReconnectEventView::Reported,
        }
    }
}

/// The IP versions to try for these addresses: version 4 first, then version 6, each
/// if there is an address of its kind.
pub open spec fn versions_of(addrs: Seq<AddrFamily>) -> Seq<IpVersion> {
    (if addrs.contains(AddrFamily::V4) {
        seq![IpVersion::V4]
    } else {
        seq![]
    }) + (if addrs.contains(AddrFamily::V6) {
        seq![IpVersion::V6]
    } else {
        seq![]
    })
}

/// A dead URL is looked up for redirects where it is a URL that ends in a slash.
pub open spec fn wants_redirect(
    dead_url: Seq<char>,
    parsed: Result<Seq<char>, Seq<char>>,
) -> bool {
    parsed is Ok && dead_url.len() > 0 && dead_url.last() == '/'
}

/// How to connect to a URL that parses to this. A `ring` URL has no host to resolve.
pub open spec fn planned<E>(
    url: Seq<char>,
    parsed: Result<Seq<char>, Seq<char>>,
) -> ReconnectView<E> {
    match parsed {
        Err(reason) => ReconnectView::Finished {
            result: Err(ReconnectErrorView::InvalidUrl { url, reason }),
        },
        Ok(scheme) => if scheme == "ring"@ {
            ReconnectView::Attempt { url, ip_version: IpVersion::Both, remaining: Seq::empty() }
        } else {
            ReconnectView::Resolve { url }
        },
    }
}

/// Tries the next version, or gives up with this error where none is left.
pub open spec fn attempt_next<E>(
    url: Seq<char>,
    versions: Seq<IpVersion>,
    error: ReconnectErrorView<E>,
) -> ReconnectView<E> {
    if versions.len() == 0 {
        ReconnectView::Finished { result: Err(error) }
    } else {
        ReconnectView::Attempt { url, ip_version: versions[0], remaining: versions.skip(1) }
    }
}

impl<E> ReconnectView<E> {
    /// Where the reconnection to `dead_url` starts.
    pub open spec fn start(dead_url: Seq<char>) -> ReconnectView<E> {
        let parsed = net::parsed_scheme(dead_url);
        if wants_redirect(dead_url, parsed) {
            ReconnectView::FetchRedirect { dead_url }
        } else {
            planned(dead_url, parsed)
        }
    }

    /// Where an event leads. One that does not belong to the state changes nothing.
    pub open spec fn step(self, event: ReconnectEventView<E>) -> ReconnectView<E> {
        match (self, event) {
            (
                ReconnectView::FetchRedirect { dead_url },
                ReconnectEventView::Redirected(resolved),
            ) => {
                let url = match resolved {
                    Some(url) => url,
                    None => dead_url,
                };
                planned(url, net::parsed_scheme(url))
            },
            (ReconnectView::Resolve { url }, ReconnectEventView::Resolved(addrs)) => attempt_next(
                url,
                versions_of(addrs),
                ReconnectErrorView::NoAddress,
            ),
            (
                ReconnectView::Resolve { url },
                ReconnectEventView::ResolveFailed(error),
            ) => ReconnectView::Finished { result: Err(ReconnectErrorView::Unresolved(error)) },
            (
                ReconnectView::Attempt { .. },
                ReconnectEventView::Connected(done),
            ) => ReconnectView::Finished { result: Ok(done) },
            (
                ReconnectView::Attempt { url, ip_version, remaining },
                ReconnectEventView::ConnectFailed(error),
            ) => ReconnectView::Report {
                url,
                ip_version,
                error: ReconnectErrorView::Failed(error),
                remaining,
            },
            (
                ReconnectView::Attempt { url, ip_version, remaining },
                ReconnectEventView::TimedOut,
            ) => ReconnectView::Report {
                url,
                ip_version,
                error: ReconnectErrorView::TimedOut,
                remaining,
            },
            (
                ReconnectView::Report { url, ip_version, error, remaining },
                ReconnectEventView::Reported,
            ) => attempt_next(url, remaining, error),
            _ => self,
        }
    }

    /// Where these events lead, one after the other.
    pub open spec fn run(self, events: Seq<ReconnectEventView<E>>) -> ReconnectView<E>
        decreases events.len(),
    {
        if events.len() == 0 {
            self
        } else {
            self.step(events[0]).run(events.skip(1))
        }
    }

    /// What holds of every state of a reconnection: no more than one IP version is
    /// left beside the one that is tried.
    pub open spec fn valid(self) -> bool {
        match self {
            ReconnectView::Attempt { remaining, .. } => remaining.len() <= 1,
            ReconnectView::Report { remaining, .. } => remaining.len() <= 1,
            _ => true,
        }
    }

    /// A bound on how many more events the reconnection can take.
    pub open spec fn events_left(self) -> nat {
        match self {
            ReconnectView::FetchRedirect { .. } => 6,
            ReconnectView::Resolve { .. } => 5,
            ReconnectView::Attempt { remaining, .. } => 2 + 2 * remaining.len(),
            ReconnectView::Report { remaining, .. } => 1 + 2 * remaining.len(),
            ReconnectView::Finished { .. } => 0,
        }
    }
}

/// The events of attempts that failed one after the other, each told after it failed:
/// with an error, or by taking too long where there is none.
pub open spec fn failures<E>(errors: Seq<Option<E>>) -> Seq<ReconnectEventView<E>>
    decreases errors.len(),
{
    if errors.len() == 0 {
        seq![]
    } else {
        seq![
            match errors[0] {
                Some(error) => ReconnectEventView::ConnectFailed(error),
                None => ReconnectEventView::TimedOut,
            },
            ReconnectEventView::Reported,
        ] + failures(errors.skip(1))
    }
}

/// What is told of an attempt that failed like this.
pub open spec fn failure<E>(error: Option<E>) -> ReconnectErrorView<E> {
    match error {
        Some(error) => ReconnectErrorView::Failed(error),
        None => ReconnectErrorView::TimedOut,
    }
}

/// What an attempt came to: its result, or nothing where it took too long.
pub open spec fn outcome<E>(result: Option<Result<ReconnResultView, E>>) -> ReconnectEventView<E> {
    match result {
        Some(Ok(done)) => ReconnectEventView::Connected(done),
        Some(Err(error)) => ReconnectEventView::ConnectFailed(error),
        None => ReconnectEventView::TimedOut,
    }
}

/// What an attempt came to: its result, or nothing where it took too long.
pub fn attempt_outcome<E>(result: Option<Result<ReconnResult, E>>) -> (event: ReconnectEvent<E>)
    ensures
        event@ == outcome::<E>(
            match result {
                Some(Ok(done)) => Some(Ok(done@)),
                Some(Err(error)) => Some(Err(error)),
                None => None,
            },
        ),
{
    match result {
        Some(Ok(done)) => ReconnectEvent::Connected(done),
        Some(Err(error)) => ReconnectEvent::ConnectFailed(error),
        None => ReconnectEvent::TimedOut,
    }
}

/// The IP versions to try for these addresses.
pub fn ip_versions(addrs: &Vec<AddrFamily>) -> (versions: Vec<IpVersion>)
    ensures
        versions@ == versions_of(addrs@),
{
    let mut versions: Vec<IpVersion> = Vec::new();
    let mut has_ipv4 = false;
    let mut has_ipv6 = false;
    let mut i: usize = 0;
    while i < addrs.len()
        invariant
            i <= addrs.len(),
            has_ipv4 == addrs@.take(i as int).contains(AddrFamily::V4),
            has_ipv6 == addrs@.take(i as int).contains(AddrFamily::V6),
            versions@ == versions_of(addrs@.take(i as int)),
        decreases addrs.len() - i,
    {
        let ghost seen = addrs@.take(i as int);
        proof {
            assert(addrs@.take(i + 1) =~= seen.push(addrs@[i as int]));
            lemma_push_contains(seen, addrs@[i as int], AddrFamily::V4);
            lemma_push_contains(seen, addrs@[i as int], AddrFamily::V6);
        }
        match addrs[i] {
            AddrFamily::V4 => {
                if !has_ipv4 {
                    versions.insert(0, IpVersion::V4);
                }
                has_ipv4 = true;
            },
            AddrFamily::V6 => {
                if !has_ipv6 {
                    versions.push(IpVersion::V6);
                }
                has_ipv6 = true;
            },
        }
        i += 1;
    }
    assert(addrs@.take(addrs@.len() as int) =~= addrs@);
    versions
}

proof fn lemma_push_contains(addrs: Seq<AddrFamily>, last: AddrFamily, kind: AddrFamily)
    ensures
        addrs.push(last).contains(kind) <==> addrs.contains(kind) || last == kind,
{
    let pushed = addrs.push(last);
    assert(pushed[addrs.len() as int] == last);
    assert(forall|i: int| 0 <= i < addrs.len() ==> pushed[i] == addrs[i]);
}

/// Is a dead URL that parses to this looked up for redirects?
pub fn needs_redirect_lookup(dead_url: &str, parsed: &Result<String, String>) -> (answer: bool)
    ensures
        answer == (parsed is Ok && dead_url@.len() > 0 && dead_url@.last() == '/'),
{
    match parsed {
        Ok(_) => text::ends_with_char(dead_url, '/'),
        Err(_) => false,
    }
}

/// How to connect to a URL that parses to this.
pub fn plan_connection<E>(url: String, parsed: Result<String, String>) -> (state: ReconnectState<E>)
    ensures
        match parsed {
            Ok(scheme) => state@ == planned::<E>(url@, Ok(scheme@)),
            Err(reason) => state@ == planned::<E>(url@, Err(reason@)),
        },
{
    match parsed {
        Err(reason) => ReconnectState::Finished {
            result: Err(ReconnectError::InvalidUrl { url, reason }),
        },
        Ok(scheme) => if scheme == "ring".to_owned() {
            ReconnectState::Attempt { url, ip_version: IpVersion::Both, remaining: Vec::new() }
        } else {
            ReconnectState::Resolve { url }
        },
    }
}

/// Tries the next version, or gives up with this error where none is left.
pub fn next_attempt<E>(
    url: String,
    versions: Vec<IpVersion>,
    error: ReconnectError<E>,
) -> (state: ReconnectState<E>)
    ensures
        state@ == attempt_next(url@, versions@, error@),
{
    let mut remaining = versions;
    if remaining.len() == 0 {
        ReconnectState::Finished { result: Err(error) }
    } else {
        let ip_version = remaining.remove(0);
        assert(remaining@ =~= versions@.skip(1));
        ReconnectState::Attempt { url, ip_version, remaining }
    }
}

impl<E> ReconnectState<E> {
    /// Starts the reconnection to a dead URL.
    pub fn start(dead_url: String) -> (state: Self)
        ensures
            state@ == ReconnectView::<E>::start(dead_url@),
    {
        let parsed = net::parse_scheme(dead_url.as_str());
        if needs_redirect_lookup(dead_url.as_str(), &parsed) {
            ReconnectState::FetchRedirect { dead_url }
        } else {
            plan_connection(dead_url, parsed)
        }
    }

    /// The attempt to be made in this state, if any.
    pub fn begin_attempt(&self) -> (attempt: Option<AttemptState<E>>)
        ensures
            attempt is Some <==> self@ is Attempt,
            attempt matches Some(attempt) ==> attempt@ == (AttemptView::<E>::SetIpVersion {
                dead_url: self@->Attempt_url,
                ip_version: self@->Attempt_ip_version,
            }),
    {
        match self {
            ReconnectState::Attempt { url, ip_version, .. } => Some(
                AttemptState::start(url.clone(), *ip_version),
            ),
            _ => None,
        }
    }

    /// Takes what came of the last state, and says what to do next.
    pub fn step(self, event: ReconnectEvent<E>) -> (next: Self)
        ensures
            next@ == self@.step(event@),
    {
        match (self, event) {
            (ReconnectState::FetchRedirect { dead_url }, ReconnectEvent::Redirected(resolved)) => {
                let url = match resolved {
                    Some(url) => url,
                    None => dead_url,
                };
                let parsed = net::parse_scheme(url.as_str());
                plan_connection(url, parsed)
            },
            (ReconnectState::Resolve { url }, ReconnectEvent::Resolved(addrs)) => next_attempt(
                url,
                ip_versions(&addrs),
                ReconnectError::NoAddress,
            ),
            (
                ReconnectState::Resolve { url },
                ReconnectEvent::ResolveFailed(error),
            ) => ReconnectState::Finished { result: Err(ReconnectError::Unresolved(error)) },
            (
                ReconnectState::Attempt { .. },
                ReconnectEvent::Connected(done),
            ) => ReconnectState::Finished { result: Ok(done) },
            (
                ReconnectState::Attempt { url, ip_version, remaining },
                ReconnectEvent::ConnectFailed(error),
            ) => ReconnectState::Report {
                url,
                ip_version,
                error: ReconnectError::Failed(error),
                remaining,
            },
            (
                ReconnectState::Attempt { url, ip_version, remaining },
                ReconnectEvent::TimedOut,
            ) => ReconnectState::Report {
                url,
                ip_version,
                error: ReconnectError::TimedOut,
                remaining,
            },
            (
                ReconnectState::Report { url, ip_version, error, remaining },
                ReconnectEvent::Reported,
            ) => next_attempt(url, remaining, error),
            (state, _) => state,
        }
    }
}

/// Every reconnection ends: it starts in a valid state, events lead from valid states
/// to valid states, and each event that belongs to its state leaves fewer to come.
pub proof fn law_reconnection_ends<E>(
    dead_url: Seq<char>,
    state: ReconnectView<E>,
    event: ReconnectEventView<E>,
)
    requires
        state.valid(),
    ensures
        ReconnectView::<E>::start(dead_url).valid(),
        ReconnectView::<E>::start(dead_url).events_left() <= 6,
        state.step(event).valid(),
        state.step(event) == state || state.step(event).events_left() < state.events_left(),
        state.events_left() == 0 <==> state is Finished,
{
}

/// A finished reconnection stays as it is.
pub proof fn law_finished_is_final<E>(state: ReconnectView<E>, events: Seq<ReconnectEventView<E>>)
    requires
        state is Finished,
    ensures
        state.run(events) == state,
    decreases events.len(),
{
    if events.len() > 0 {
        law_finished_is_final(state, events.skip(1));
    }
}

/// The IP versions to try: version 4 comes before version 6, none comes twice, and
/// there is none if and only if there is no address.
pub proof fn law_versions_in_order(addrs: Seq<AddrFamily>)
    ensures
        versions_of(addrs).no_duplicates(),
        versions_of(addrs).contains(IpVersion::V4) <==> addrs.contains(AddrFamily::V4),
        versions_of(addrs).contains(IpVersion::V6) <==> addrs.contains(AddrFamily::V6),
        !versions_of(addrs).contains(IpVersion::Both),
        versions_of(addrs).contains(IpVersion::V4) ==> versions_of(addrs)[0] == IpVersion::V4,
        versions_of(addrs).len() == 0 <==> addrs.len() == 0,
{
    let versions = versions_of(addrs);
    if addrs.contains(AddrFamily::V4) {
        assert(versions[0] == IpVersion::V4);
    }
    if addrs.contains(AddrFamily::V6) {
        assert(versions[versions.len() - 1] == IpVersion::V6);
    }
    if addrs.len() > 0 {
        assert(addrs.contains(addrs[0]));
    }
}

/// The versions are tried in order: after some failed attempts comes the next
/// version, and when all have failed the reconnection ends with the last failure.
pub proof fn law_versions_are_tried_in_order<E>(
    url: Seq<char>,
    versions: Seq<IpVersion>,
    errors: Seq<Option<E>>,
    before: ReconnectErrorView<E>,
)
    requires
        errors.len() <= versions.len(),
    ensures
        attempt_next(url, versions, before).run(failures(errors)) == attempt_next(
            url,
            versions.skip(errors.len() as int),
            if errors.len() == 0 {
                before
            } else {
                failure(errors.last())
            },
        ),
    decreases errors.len(),
{
    if errors.len() == 0 {
        assert(versions.skip(0) =~= versions);
    } else {
        let events = failures(errors);
        let later = failures(errors.skip(1));
        let first = attempt_next(url, versions, before);
        let told = first.step(events[0]);
        assert(events.skip(1).skip(1) =~= later);
        assert(told.step(events[1]) == attempt_next(url, versions.skip(1), failure(errors[0])));
        assert(first.run(events) == told.run(events.skip(1)));
        assert(events.skip(1)[0] == events[1]);
        assert(told.run(events.skip(1)) == told.step(events[1]).run(later));
        law_versions_are_tried_in_order(
            url,
            versions.skip(1),
            errors.skip(1),
            failure(errors[0]),
        );
        assert(versions.skip(1).skip(errors.skip(1).len() as int) =~= versions.skip(
            errors.len() as int,
        ));
    }
}

/// The first attempt that succeeds ends the reconnection with its result, however
/// many failed before it.
pub proof fn law_first_success_wins<E>(
    url: Seq<char>,
    versions: Seq<IpVersion>,
    errors: Seq<Option<E>>,
    before: ReconnectErrorView<E>,
    done: ReconnResultView,
)
    requires
        errors.len() < versions.len(),
    ensures
        attempt_next(url, versions, before).run(failures(errors)).step(
            ReconnectEventView::Connected(done),
        ) == (ReconnectView::<E>::Finished { result: Ok(done) }),
{
    law_versions_are_tried_in_order(url, versions, errors, before);
}

/// A reconnection that succeeds reports the URL that its last attempt was made for.
pub proof fn law_success_reports_the_url<E>(
    url: Seq<char>,
    ip_version: IpVersion,
    remaining: Seq<IpVersion>,
    events: Seq<AttemptEventView<E>>,
)
    ensures
        (AttemptView::<E>::SetIpVersion { dead_url: url, ip_version }).run(events) matches
            AttemptView::Finished { result } ==> ({
            let state = ReconnectView::<E>::Attempt { url, ip_version, remaining };
            match result {
                Ok(done) => {
                    &&& state.step(outcome::<E>(Some(result))) == (ReconnectView::<E>::Finished {
                        result: Ok(done),
                    })
                    &&& done.dead_url == url
                },
                Err(error) => state.step(outcome::<E>(Some(result))) == (ReconnectView::<
                    E,
                >::Report { url, ip_version, error: ReconnectErrorView::Failed(error), remaining }),
            }
        }),
{
    attempt::law_attempt_reports_its_url(
        AttemptView::<E>::SetIpVersion { dead_url: url, ip_version },
        events,
    );
}

/// Redirects are looked up exactly for URLs that end in a slash; any other text is used
/// as it is.
pub proof fn law_only_a_slash_is_redirected<E>(dead_url: Seq<char>)
    ensures
        ReconnectView::<E>::start(dead_url) is FetchRedirect <==> {
            &&& net::parsed_scheme(dead_url) is Ok
            &&& dead_url.len() > 0
            &&& dead_url.last() == '/'
        },
        ReconnectView::<E>::start(dead_url) is FetchRedirect ==> ReconnectView::<E>::start(dead_url)
            == (ReconnectView::<E>::FetchRedirect { dead_url }),
        ReconnectView::<E>::start(dead_url) is FetchRedirect || ReconnectView::<E>::start(dead_url)
            == planned::<E>(dead_url, net::parsed_scheme(dead_url)),
{
}

/// A URL for which no redirect could be found out is used as it is.
pub proof fn law_without_redirect_the_url_stays<E>(dead_url: Seq<char>)
    ensures
        (ReconnectView::<E>::FetchRedirect { dead_url }).step(ReconnectEventView::Redirected(None))
            == planned::<E>(dead_url, net::parsed_scheme(dead_url)),
{
}

/// Resolved addresses are tried, all kinds of them: version 4 first where there is such an
/// address, with version 6 left over where there is one of that kind too, and version 6
/// alone where there is no other. The reconnection gives up only where there is no address.
pub proof fn law_resolved_addresses_are_tried<E>(url: Seq<char>, addrs: Seq<AddrFamily>)
    ensures
        ({
            let next = (ReconnectView::<E>::Resolve { url }).step(
                ReconnectEventView::Resolved(addrs),
            );
            let has_v4 = exists|i: int| 0 <= i < addrs.len() && addrs[i] == AddrFamily::V4;
            let has_v6 = exists|i: int| 0 <= i < addrs.len() && addrs[i] == AddrFamily::V6;
            &&& addrs.len() > 0 ==> next is Attempt && next->Attempt_url == url
            &&& has_v4 ==> next->Attempt_ip_version == IpVersion::V4
            &&& has_v4 && has_v6 ==> next->Attempt_remaining
                == seq![IpVersion::V6]
            &&& has_v4 && !has_v6 ==> next->Attempt_remaining.len() == 0
            &&& !has_v4 && has_v6 ==> {
                &&& next->Attempt_ip_version == IpVersion::V6
                &&& next->Attempt_remaining.len() == 0
            }
            &&& addrs.len() == 0 <==> next == (ReconnectView::<E>::Finished {
                result: Err(ReconnectErrorView::NoAddress),
            })
        }),
{
    let versions = versions_of(addrs);
    law_versions_in_order(addrs);
    if addrs.len() > 0 {
        assert(addrs[0] == AddrFamily::V4 || addrs[0] == AddrFamily::V6);
    }
    if addrs.contains(AddrFamily::V4) {
        assert(addrs.contains(AddrFamily::V6) ==> versions.skip(1) =~= seq![IpVersion::V6]);
    }
}

/// Where the host cannot be resolved, the reconnection ends with the error.
pub proof fn law_unresolved_host_ends_the_reconnection<E>(url: Seq<char>, error: E)
    ensures
        (ReconnectView::<E>::Resolve { url }).step(ReconnectEventView::ResolveFailed(error)) == (
        ReconnectView::<E>::Finished { result: Err(ReconnectErrorView::Unresolved(error)) }),
{
}

/// What the text of a URL decides: text that is no URL ends the reconnection with the
/// reason, a `ring` URL is tried at once with both versions, and the host of any other is
/// resolved. The text itself is kept.
pub proof fn law_text_of_the_url_decides<E>(
    url: Seq<char>,
    scheme: Seq<char>,
    reason: Seq<char>,
)
    ensures
        planned::<E>(url, Err(reason)) == (ReconnectView::<E>::Finished {
            result: Err(ReconnectErrorView::InvalidUrl { url, reason }),
        }),
        scheme == seq!['r', 'i', 'n', 'g'] ==> {
            let state = planned::<E>(url, Ok(scheme));
            &&& state is Attempt
            &&& state->Attempt_url == url
            &&& state->Attempt_ip_version == IpVersion::Both
            &&& state->Attempt_remaining.len() == 0
        },
        scheme != seq!['r', 'i', 'n', 'g'] ==> planned::<E>(url, Ok(scheme)) == (
        ReconnectView::<E>::Resolve { url }),
{
    reveal_strlit("ring");
    assert("ring"@ =~= seq!['r', 'i', 'n', 'g']);
}

/// A redirect replaces the URL: from then on everything goes by what the new text parses
/// to, and no further redirect is looked up.
pub proof fn law_redirect_replaces_the_url<E>(dead_url: Seq<char>, url: Seq<char>)
    ensures
        ({
            let next = (ReconnectView::<E>::FetchRedirect { dead_url }).step(
                ReconnectEventView::Redirected(Some(url)),
            );
            &&& next == planned::<E>(url, net::parsed_scheme(url))
            &&& !(next is FetchRedirect)
            &&& net::parsed_scheme(url) is Ok ==> next is Attempt || next is Resolve
            &&& next is Finished <==> net::parsed_scheme(url) is Err
            &&& next is Attempt ==> next->Attempt_url == url
            &&& next is Resolve ==> next->Resolve_url == url
        }),
{
}

/// The next version is tried for the same URL with the others left over; the reconnection
/// gives up with the error at hand exactly where none is left.
pub proof fn law_next_version_is_tried<E>(
    url: Seq<char>,
    versions: Seq<IpVersion>,
    error: ReconnectErrorView<E>,
)
    ensures
        versions.len() == 0 ==> attempt_next(url, versions, error) == (ReconnectView::<
            E,
        >::Finished { result: Err(error) }),
        versions.len() > 0 ==> {
            let state = attempt_next(url, versions, error);
            &&& state is Attempt
            &&& state->Attempt_url == url
            &&& seq![state->Attempt_ip_version] + state->Attempt_remaining == versions
        },
{
    if versions.len() > 0 {
        assert(seq![versions[0]] + versions.skip(1) =~= versions);
    }
}

/// An attempt that succeeds ends the reconnection with its result; one that fails or takes
/// too long is told, with the URL, the version and the failure, and leaves the other
/// versions to try.
pub proof fn law_attempt_decides<E>(
    url: Seq<char>,
    ip_version: IpVersion,
    remaining: Seq<IpVersion>,
    done: ReconnResultView,
    error: E,
)
    ensures
        ({
            let state = ReconnectView::<E>::Attempt { url, ip_version, remaining };
            &&& state.step(ReconnectEventView::Connected(done)) == (ReconnectView::<E>::Finished {
                result: Ok(done),
            })
            &&& state.step(ReconnectEventView::ConnectFailed(error)) == (ReconnectView::<
                E,
            >::Report { url, ip_version, error: ReconnectErrorView::Failed(error), remaining })
            &&& state.step(ReconnectEventView::TimedOut) == (ReconnectView::<E>::Report {
                url,
                ip_version,
                error: ReconnectErrorView::TimedOut,
                remaining,
            })
        }),
{
}

/// Once a failure was told, the next version is tried for the same URL; where none is left,
/// the reconnection ends with that failure.
pub proof fn law_told_failure_leads_on<E>(
    url: Seq<char>,
    ip_version: IpVersion,
    error: ReconnectErrorView<E>,
    remaining: Seq<IpVersion>,
)
    ensures
        ({
            let next = (ReconnectView::<E>::Report { url, ip_version, error, remaining }).step(
                ReconnectEventView::Reported,
            );
            &&& remaining.len() > 0 ==> {
                &&& next is Attempt
                &&& next->Attempt_url == url
                &&& seq![next->Attempt_ip_version] + next->Attempt_remaining == remaining
            }
            &&& remaining.len() == 0 ==> next == (ReconnectView::<E>::Finished {
                result: Err(error),
            })
        }),
{
    law_next_version_is_tried(url, remaining, error);
}

/// An event that does not belong to the state changes nothing.
pub proof fn law_events_out_of_place_change_nothing<E>(
    state: ReconnectView<E>,
    event: ReconnectEventView<E>,
)
    requires
        state is FetchRedirect ==> !(event is Redirected),
        state is Resolve ==> !(event is Resolved) && !(event is ResolveFailed),
        state is Attempt ==> !(event is Connected) && !(event is ConnectFailed) && !(event
            is TimedOut),
        state is Report ==> !(event is Reported),
    ensures
        state.step(event) == state,
{
}

/// The IPv6 address of a host is reached in the end: where its version 4 fails or it has
/// none, version 6 is tried, and its success is the result.
pub proof fn law_version_6_is_reached<E>(
    url: Seq<char>,
    addrs: Seq<AddrFamily>,
    error: Option<E>,
    done: ReconnResultView,
)
    requires
        exists|i: int| 0 <= i < addrs.len() && addrs[i] == AddrFamily::V6,
    ensures
        ({
            let first = (ReconnectView::<E>::Resolve { url }).step(
                ReconnectEventView::Resolved(addrs),
            );
            let failed = match error {
                Some(error) => ReconnectEventView::ConnectFailed(error),
                None => ReconnectEventView::TimedOut,
            };
            let last = if first->Attempt_ip_version == IpVersion::V6 {
                first
            } else {
                first.step(failed).step(ReconnectEventView::Reported)
            };
            &&& last is Attempt
            &&& last->Attempt_url == url
            &&& last->Attempt_ip_version == IpVersion::V6
            &&& last.step(ReconnectEventView::Connected(done)) == (ReconnectView::<E>::Finished {
                result: Ok(done),
            })
        }),
{
    law_resolved_addresses_are_tried::<E>(url, addrs);
    assert(addrs.contains(AddrFamily::V6));
    assert(addrs.contains(AddrFamily::V4) || !addrs.contains(AddrFamily::V4));
}

/// What an attempt came to is its own result, or that it took too long where there is none.
pub proof fn law_outcome_of_an_attempt<E>(done: ReconnResultView, error: E)
    ensures
        outcome::<E>(Some(Ok(done))) == ReconnectEventView::<E>::Connected(done),
        outcome::<E>(Some(Err(error))) == ReconnectEventView::<E>::ConnectFailed(error),
        outcome::<E>(None) == ReconnectEventView::<E>::TimedOut,
{
}

/// A result is shown with its URL, its peer and its connection.
pub proof fn law_result_is_shown_in_full(done: ReconnResult)
    ensures
        done@.dead_url == done.dead_url@,
        done@.peer_id == done.peer_id,
        done@.conn_id == done.conn_id,
{
}

/// A state, and why a reconnection failed, are shown with all that they hold.
pub proof fn law_reconnection_is_shown_in_full<E>(
    state: ReconnectState<E>,
    error: ReconnectError<E>,
)
    ensures
        match state {
            ReconnectState::FetchRedirect { dead_url } => state@ == (ReconnectView::<
                E,
            >::FetchRedirect { dead_url: dead_url@ }),
            ReconnectState::Resolve { url } => state@ == (ReconnectView::<E>::Resolve {
                url: url@,
            }),
            ReconnectState::Attempt { url, ip_version, remaining } => state@ == (ReconnectView::<
                E,
            >::Attempt { url: url@, ip_version, remaining: remaining@ }),
            ReconnectState::Report { url, ip_version, error: failure, remaining } => state@ == (
            ReconnectView::<E>::Report {
                url: url@,
                ip_version,
                error: failure@,
                remaining: remaining@,
            }),
            ReconnectState::Finished { result: Ok(done) } => state@ == (ReconnectView::<
                E,
            >::Finished { result: Ok(done@) }),
            ReconnectState::Finished { result: Err(failure) } => state@ == (ReconnectView::<
                E,
            >::Finished { result: Err(failure@) }),
        },
        match error {
            ReconnectError::InvalidUrl { url, reason } => error@ == (ReconnectErrorView::<
                E,
            >::InvalidUrl { url: url@, reason: reason@ }),
            ReconnectError::Unresolved(cause) => error@ == ReconnectErrorView::<E>::Unresolved(
                cause,
            ),
            ReconnectError::NoAddress => error@ is NoAddress,
            ReconnectError::TimedOut => error@ is TimedOut,
            ReconnectError::Failed(cause) => error@ == ReconnectErrorView::<E>::Failed(cause),
        },
{
}

/// An event is shown with all that it holds.
pub proof fn law_reconnect_event_is_shown_in_full<E>(event: ReconnectEvent<E>)
    ensures
        match event {
            ReconnectEvent::Redirected(Some(url)) => event@ == ReconnectEventView::<E>::Redirected(
                Some(url@),
            ),
            ReconnectEvent::Redirected(None) => event@ == ReconnectEventView::<E>::Redirected(None),
            ReconnectEvent::Resolved(addrs) => event@ == ReconnectEventView::<E>::Resolved(addrs@),
            ReconnectEvent::ResolveFailed(error) => event@ == ReconnectEventView::<
                E,
            >::ResolveFailed(error),
            ReconnectEvent::Connected(done) => event@ == ReconnectEventView::<E>::Connected(done@),
            ReconnectEvent::ConnectFailed(error) => event@ == ReconnectEventView::<
                E,
            >::ConnectFailed(error),
            ReconnectEvent::TimedOut => event@ is TimedOut,
            ReconnectEvent::Reported => event@ is Reported,
        },
{
}

} // verus!
