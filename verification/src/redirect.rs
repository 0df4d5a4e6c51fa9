//! Following HTTP redirects from a connector's URL to the address that it stands
//! for.

use crate::net;
use crate::text;
use vstd::prelude::*;
use vstd::string::{StrSliceExecFns, StringExecFns};

verus! {

/// How many redirects are too many.
pub const MAX_REDIRECTS: u32 = 3;

/// How long one request may take, in seconds.
pub const REQUEST_TIMEOUT_SECS: u64 = 5;

/// The text between a scheme and the rest of a URL.
pub open spec fn separator() -> Seq<char> {
    "://"@
}

pub open spec fn http() -> Seq<char> {
    "http://"@
}

pub open spec fn https() -> Seq<char> {
    "https://"@
}

/// `url` names a web server in full.
pub open spec fn is_absolute(url: Seq<char>) -> bool {
    text::begins_with(url, http()) || text::begins_with(url, https())
}

/// `url`, or `url` behind `http://` where it does not name a web server in full.
pub open spec fn absolute(url: Seq<char>) -> Seq<char> {
    if is_absolute(url) {
        url
    } else {
        http() + url
    }
}

/// The address that requests start from: a connector's URL, its scheme replaced.
pub open spec fn first_target(original_url: Seq<char>) -> Seq<char> {
    absolute(text::after_first(original_url, separator()))
}

/// The text of a `Location` header; empty where it has none.
pub open spec fn location_text(location: Seq<u8>) -> Seq<char> {
    match net::header_text(location) {
        Some(text) => text,
        None => Seq::empty(),
    }
}

/// There is room for a scheme of three letters before the last `://`, if any.
pub open spec fn has_scheme_room(location: Seq<char>) -> bool {
    text::last_position(location, separator()) matches Some(i) ==> i >= 3
}

/// The address that a `Location` header points at: what starts three characters
/// before its last `://`, or all of it where it has none.
pub open spec fn next_target(location: Seq<char>) -> Seq<char> {
    absolute(
        match text::last_position(location, separator()) {
            Some(i) => location.skip(i - 3),
            None => location,
        },
    )
}

/// An address without the first `http://` and then without the first `https://`.
pub open spec fn stripped(url: Seq<char>) -> Seq<char> {
    text::without_first(text::without_first(url, http()), https())
}

/// What one request came to.
pub enum FetchOutcome {
    /// A response with a `Location` header, whose raw value this is.
    Redirect(Vec<u8>),
    /// A response without a `Location` header.
    NoLocation,
    /// The request failed.
    RequestFailed,
    /// No response came in time.
    TimedOut,
}

/// `FetchOutcome` as contracts speak of it.
pub enum FetchView {
    Redirect(Seq<u8>),
    NoLocation,
    RequestFailed,
    TimedOut,
}

impl View for FetchOutcome {
    type V = FetchView;

    open spec fn view(&self) -> FetchView {
        match self {
            FetchOutcome::Redirect(location) => FetchView::Redirect(location@),
            FetchOutcome::NoLocation => FetchView::NoLocation,
            FetchOutcome::RequestFailed => FetchView::RequestFailed,
            FetchOutcome::TimedOut => FetchView::TimedOut,
        }
    }
}

impl FetchView {
    /// A redirect can be followed where its location has room for a scheme.
    pub open spec fn can_follow(self) -> bool {
        self matches FetchView::Redirect(location) ==> has_scheme_room(location_text(location))
    }
}

impl FetchOutcome {
    /// Can `RedirectWalk::step` take this outcome?
    pub fn can_follow(&self) -> (answer: bool)
        ensures
            answer == self@.can_follow(),
    {
        match self {
            FetchOutcome::Redirect(location) => match text::rfind(
                location_to_string(location).as_str(),
                "://",
            ) {
                Some(position) => position >= 3,
                None => true,
            },
            _ => true,
        }
    }
}

/// A walk along redirects, between two requests.
pub struct RedirectWalk {
    url: String,
    redirects: u32,
}

/// `RedirectWalk` as contracts speak of it: the address to request next, and how
/// many redirects led to it.
#[verifier::ext_equal]
pub struct WalkView {
    pub url: Seq<char>,
    pub redirects: nat,
}

impl View for RedirectWalk {
    type V = WalkView;

    closed spec fn view(&self) -> WalkView {
        WalkView { url: self.url@, redirects: self.redirects as nat }
    }
}

/// Where a walk stands after a request.
pub enum WalkStep {
    /// Request the address of this walk.
    Request(RedirectWalk),
    /// The walk is over; there is an address unless there were too many redirects.
    Finished(Option<String>),
}

/// `WalkStep` as contracts speak of it.
pub enum StepView {
    Request(WalkView),
    Finished(Option<Seq<char>>),
}

impl View for WalkStep {
    type V = StepView;

    open spec fn view(&self) -> StepView {
        match self {
            WalkStep::Request(walk) => StepView::Request(walk@),
            WalkStep::Finished(Some(url)) => StepView::Finished(Some(url@)),
            WalkStep::Finished(None) => StepView::Finished(None),
        }
    }
}

impl WalkView {
    /// The start of the walk from a connector's URL.
    pub open spec fn start(original_url: Seq<char>) -> WalkView {
        WalkView { url: first_target(original_url), redirects: 0 }
    }

    /// What holds of every walk that still has a request to make.
    pub open spec fn valid(self) -> bool {
        &&& is_absolute(self.url)
        &&& self.redirects < MAX_REDIRECTS
    }

    /// What becomes of the walk after a request.
    pub open spec fn step(self, outcome: FetchView) -> StepView {
        match outcome {
            FetchView::Redirect(location) => if self.redirects + 1 >= MAX_REDIRECTS {
                StepView::Finished(None)
            } else {
                StepView::Request(
                    WalkView {
                        url: next_target(location_text(location)),
                        redirects: self.redirects + 1,
                    },
                )
            },
            _ => StepView::Finished(Some(stripped(self.url))),
        }
    }

    /// What the walk comes to when its requests have these outcomes, one after the
    /// other: `None` while it waits for another, else the address, if any.
    pub open spec fn run(self, outcomes: Seq<FetchView>) -> Option<Option<Seq<char>>>
        decreases outcomes.len(),
    {
        if outcomes.len() == 0 {
            None
        } else {
            match self.step(outcomes[0]) {
                StepView::Request(walk) => walk.run(outcomes.skip(1)),
                StepView::Finished(result) => Some(result),
            }
        }
    }
}

/// The text of a `Location` header; empty where it has none.
pub fn location_to_string(location: &Vec<u8>) -> (text: String)
    ensures
        text@ == location_text(location@),
{
    match net::header_to_str(location.as_slice()) {
        Some(text) => text,
        None => String::new(),
    }
}

/// `url`, or `url` behind `http://` where it does not name a web server in full.
pub fn ensure_absolute(url: String) -> (full: String)
    ensures
        full@ == absolute(url@),
        is_absolute(full@),
{
    if !text::starts_with(url.as_str(), "http://") && !text::starts_with(url.as_str(), "https://") {
        let full = "http://".to_owned().concat(url.as_str());
        assert(full@.subrange(0, http().len() as int) =~= http());
        full
    } else {
        url
    }
}

impl RedirectWalk {
    #[verifier::type_invariant]
    spec fn has_valid_view(self) -> bool {
        self@.valid()
    }

    /// Starts at the address that the URL of a connector holds behind its scheme.
    pub fn start(original_url: &str) -> (walk: RedirectWalk)
        ensures
            walk@ == WalkView::start(original_url@),
            walk@.valid(),
    {
        let url = match text::find(original_url, "://") {
            Some(position) => {
                proof {
                    reveal_strlit("://");
                }
                let length: usize = original_url.unicode_len();
                assert(position + 3 <= length);
                text::tail(original_url, position + 3)
            },
            None => original_url.to_owned(),
        };
        RedirectWalk { url: ensure_absolute(url), redirects: 0 }
    }

    /// The address to request.
    pub fn url(&self) -> (url: &str)
        ensures
            url@ == self@.url,
            self@.valid(),
    {
        proof {
            use_type_invariant(self);
        }
        self.url.as_str()
    }

    /// Takes the outcome of the request, and says what to do next.
    pub fn step(self, outcome: FetchOutcome) -> (next: WalkStep)
        requires
            outcome@.can_follow(),
        ensures
            next@ == self@.step(outcome@),
            next@ matches StepView::Request(walk) ==> walk.valid(),
    {
        proof {
            use_type_invariant(&self);
        }
        match outcome {
            FetchOutcome::Redirect(location) => {
                let location = location_to_string(&location);
                let target = match text::rfind(location.as_str(), "://") {
                    Some(position) => text::tail(location.as_str(), position - 3),
                    None => location,
                };
                let url = ensure_absolute(target);
                let redirects: u32 = self.redirects + 1;
                if redirects >= MAX_REDIRECTS {
                    WalkStep::Finished(None)
                } else {
                    WalkStep::Request(RedirectWalk { url, redirects })
                }
            },
            _ => WalkStep::Finished(
                Some(
                    text::remove_first(
                        text::remove_first(self.url.as_str(), "http://").as_str(),
                        "https://",
                    ),
                ),
            ),
        }
    }
}

proof fn lemma_run_from(walk: WalkView, outcomes: Seq<FetchView>)
    requires
        walk.redirects < MAX_REDIRECTS,
    ensures
        outcomes.len() >= MAX_REDIRECTS - walk.redirects ==> walk.run(outcomes) is Some,
        walk.run(outcomes) == Some(None::<Seq<char>>) <==> {
            &&& outcomes.len() >= MAX_REDIRECTS - walk.redirects
            &&& forall|i: int|
                0 <= i < MAX_REDIRECTS - walk.redirects ==> (#[trigger] outcomes[i]) is Redirect
        },
    decreases outcomes.len(),
{
    if outcomes.len() > 0 {
        if let StepView::Request(next) = walk.step(outcomes[0]) {
            let later = outcomes.skip(1);
            lemma_run_from(next, later);
            assert(forall|i: int| 0 <= i < later.len() ==> later[i] == outcomes[i + 1]);
            assert(forall|i: int| 0 < i < outcomes.len() ==> outcomes[i] == later[i - 1]);
        }
    }
}

proof fn lemma_absolute(url: Seq<char>)
    ensures
        is_absolute(absolute(url)),
{
    assert((http() + url).subrange(0, http().len() as int) =~= http());
}

/// Text that holds `http://` or `https://` holds `://` behind it.
proof fn lemma_separator_inside(url: Seq<char>, i: int)
    ensures
        text::occurs_at(url, http(), i) ==> text::occurs_at(url, separator(), i + 4),
        text::occurs_at(url, https(), i) ==> text::occurs_at(url, separator(), i + 5),
{
    reveal_strlit("://");
    reveal_strlit("http://");
    reveal_strlit("https://");
    if text::occurs_at(url, http(), i) {
        let found = url.subrange(i, i + 7);
        assert(url.subrange(i + 4, i + 7) =~= found.subrange(4, 7));
        assert(found.subrange(4, 7) =~= separator());
    }
    if text::occurs_at(url, https(), i) {
        let found = url.subrange(i, i + 8);
        assert(url.subrange(i + 5, i + 8) =~= found.subrange(5, 8));
        assert(found.subrange(5, 8) =~= separator());
    }
}

proof fn lemma_strip_undoes_absolute(url: Seq<char>)
    requires
        forall|i: int| i > 3 ==> !text::occurs_at(url, separator(), i),
    ensures
        stripped(absolute(url)) == url,
{
    assert forall|i: int|
        !text::occurs_at(url, http(), i) && !text::occurs_at(url, https(), i) by {
        lemma_separator_inside(url, i);
    }
    let full = http() + url;
    assert(full.subrange(0, http().len() as int) =~= http());
    text::lemma_without_first_of_beginning(full, http());
    assert(full.skip(http().len() as int) =~= url);
}

/// A walk is over after at most `MAX_REDIRECTS` requests, whatever they come to.
pub proof fn law_walk_ends(original_url: Seq<char>, outcomes: Seq<FetchView>)
    requires
        outcomes.len() >= MAX_REDIRECTS,
    ensures
        WalkView::start(original_url).run(outcomes) is Some,
{
    lemma_run_from(WalkView::start(original_url), outcomes);
}

/// A walk ends without an address if and only if its first `MAX_REDIRECTS` requests
/// are all redirected.
pub proof fn law_too_many_redirects(original_url: Seq<char>, outcomes: Seq<FetchView>)
    ensures
        WalkView::start(original_url).run(outcomes) == Some(None::<Seq<char>>) <==> {
            &&& outcomes.len() >= MAX_REDIRECTS
            &&& forall|i: int| 0 <= i < MAX_REDIRECTS ==> (#[trigger] outcomes[i]) is Redirect
        },
{
    lemma_run_from(WalkView::start(original_url), outcomes);
}

/// A walk that meets fewer redirects hands back the last address it was led to,
/// stripped of `http://` and `https://`: whether the last request was answered,
/// failed or timed out makes no difference.
pub proof fn law_last_address_is_handed_back(
    original_url: Seq<char>,
    outcomes: Seq<FetchView>,
    redirects: int,
)
    requires
        0 <= redirects < MAX_REDIRECTS,
        redirects < outcomes.len(),
        forall|i: int| 0 <= i < redirects ==> (#[trigger] outcomes[i]) is Redirect,
        !(outcomes[redirects] is Redirect),
    ensures
        WalkView::start(original_url).run(outcomes) == Some(
            Some(
                stripped(
                    if redirects == 0 {
                        first_target(original_url)
                    } else {
                        next_target(location_text(outcomes[redirects - 1]->Redirect_0))
                    },
                ),
            ),
        ),
{
    reveal_with_fuel(WalkView::run, 4);
}

/// The address of every walk that the library hands out names a web server in full.
pub proof fn law_targets_are_absolute(url: Seq<char>)
    ensures
        is_absolute(first_target(url)),
        is_absolute(next_target(url)),
{
    lemma_absolute(text::after_first(url, separator()));
    let target = match text::last_position(url, separator()) {
        Some(i) => url.skip(i - 3),
        None => url,
    };
    lemma_absolute(target);
}

/// A server that redirects nowhere gives back what stands behind the scheme of the
/// connector's URL.
pub proof fn law_no_redirect_drops_the_scheme(scheme: Seq<char>, rest: Seq<char>, outcome: FetchView)
    requires
        forall|i: int| i < scheme.len() ==> !text::occurs_at(scheme + separator() + rest, separator(), i),
        forall|i: int| !text::occurs_at(rest, separator(), i),
        !(outcome is Redirect),
    ensures
        WalkView::start(scheme + separator() + rest).step(outcome) == StepView::Finished(Some(rest)),
{
    reveal_strlit("://");
    let url = scheme + separator() + rest;
    let at = scheme.len() as int;
    assert(url.subrange(at, at + 3) =~= separator());
    assert(text::occurs_first_at(url, separator(), at));
    text::lemma_first_position(url, separator(), at);
    assert(url.skip(at + 3) =~= rest);
    lemma_strip_undoes_absolute(rest);
}

/// A location that ends in the URL of a scheme of three letters, such as `tcp`, is
/// resolved to that URL.
pub proof fn law_location_names_a_connector(before: Seq<char>, scheme: Seq<char>, rest: Seq<char>)
    requires
        scheme.len() == 3,
        forall|i: int|
            i > 3 ==> !text::occurs_at(scheme + separator() + rest, separator(), i),
    ensures
        has_scheme_room(before + scheme + separator() + rest),
        stripped(next_target(before + scheme + separator() + rest)) == scheme + separator() + rest,
{
    reveal_strlit("://");
    let url = scheme + separator() + rest;
    let location = before + scheme + separator() + rest;
    let at = (before.len() + 3) as int;
    assert(location.subrange(at, at + 3) =~= separator());
    assert forall|j: int| at < j implies !text::occurs_at(location, separator(), j) by {
        let k = j - before.len();
        if text::occurs_at(location, separator(), j) {
            assert(url.subrange(k, k + 3) =~= location.subrange(j, j + 3));
            assert(text::occurs_at(url, separator(), k));
        }
    }
    assert(text::occurs_last_at(location, separator(), at));
    text::lemma_last_position(location, separator(), at);
    assert(location.skip(at - 3) =~= url);
    lemma_strip_undoes_absolute(url);
}

/// How web addresses begin, and what ends a scheme.
pub proof fn law_marks_of_a_url()
    ensures
        separator() == seq![':', '/', '/'],
        http() == seq!['h', 't', 't', 'p'] + separator(),
        https() == seq!['h', 't', 't', 'p', 's'] + separator(),
{
    reveal_strlit("://");
    reveal_strlit("http://");
    reveal_strlit("https://");
    assert(separator() =~= seq![':', '/', '/']);
    assert(http() =~= seq!['h', 't', 't', 'p'] + separator());
    assert(https() =~= seq!['h', 't', 't', 'p', 's'] + separator());
}

/// An address names a web server in full exactly when it is made up of `http://` or
/// `https://` and some rest. Such an address is requested as it is, and any other behind
/// `http://`.
pub proof fn law_address_is_completed(url: Seq<char>)
    ensures
        is_absolute(url) <==> (exists|rest: Seq<char>| url == #[trigger] (http() + rest)) || (
        exists|rest: Seq<char>| url == #[trigger] (https() + rest)),
        is_absolute(url) ==> absolute(url) == url,
        !is_absolute(url) ==> absolute(url) == http() + url,
        is_absolute(absolute(url)),
{
    text::law_beginning(url, http());
    text::law_beginning(url, https());
    lemma_absolute(url);
}

/// Requests start from what stands behind the first `://` of the connector's URL, completed
/// to a web address; from all of it where it has none.
pub proof fn law_requests_start_behind_the_scheme(scheme: Seq<char>, rest: Seq<char>)
    requires
        forall|i: int|
            i < scheme.len() ==> !text::occurs_at(
                scheme + separator() + rest,
                separator(),
                i,
            ),
    ensures
        WalkView::start(scheme + separator() + rest).url == absolute(rest),
        WalkView::start(scheme + separator() + rest).redirects == 0,
        (forall|i: int| !text::occurs_at(rest, separator(), i)) ==> WalkView::start(rest).url
            == absolute(rest),
{
    text::law_cut_at_first(scheme, separator(), rest);
    if forall|i: int| !text::occurs_at(rest, separator(), i) {
        text::law_nothing_to_cut(rest, separator());
    }
}

/// A location points at what starts three characters before its last `://`, completed to a
/// web address, and there is room for these three exactly where as many stand before it.
pub proof fn law_location_points_at_its_last_url(before: Seq<char>, rest: Seq<char>)
    requires
        forall|i: int|
            i > before.len() ==> !text::occurs_at(
                before + separator() + rest,
                separator(),
                i,
            ),
    ensures
        has_scheme_room(before + separator() + rest) <==> before.len() >= 3,
        before.len() >= 3 ==> next_target(before + separator() + rest) == absolute(
            before.skip(before.len() - 3) + separator() + rest,
        ),
{
    let location = before + separator() + rest;
    text::law_put_text_occurs(before, separator(), rest);
    assert(text::occurs_last_at(location, separator(), before.len() as int));
    text::lemma_last_position(location, separator(), before.len() as int);
    if before.len() >= 3 {
        assert(location.skip(before.len() - 3) =~= before.skip(before.len() - 3) + separator()
            + rest);
    }
}

/// A location without `://` can always be followed, to all of it, completed to a web
/// address.
pub proof fn law_location_without_scheme(location: Seq<char>)
    requires
        forall|i: int| !text::occurs_at(location, separator(), i),
    ensures
        has_scheme_room(location),
        next_target(location) == absolute(location),
{
}

/// The text of a location shows its bytes one by one where all of them are visible ASCII,
/// spaces or tabs, and is empty otherwise.
pub proof fn law_location_is_read_as_ascii(location: Seq<u8>)
    ensures
        ({
            let readable = forall|i: int|
                0 <= i < location.len() ==> (32 <= #[trigger] location[i] <= 126 || location[i]
                    == 9);
            &&& readable ==> location_text(location).len() == location.len()
            &&& readable ==> forall|i: int|
                0 <= i < location.len() ==> (#[trigger] location_text(location)[i]) as int
                    == location[i] as int
            &&& !readable ==> location_text(location).len() == 0
        }),
{
    let readable = forall|i: int|
        0 <= i < location.len() ==> (32 <= #[trigger] location[i] <= 126 || location[i] == 9);
    if readable {
        assert(forall|i: int| 0 <= i < location.len() ==> net::is_visible(#[trigger] location[i]));
    } else {
        let i = choose|i: int|
            0 <= i < location.len() && !(32 <= #[trigger] location[i] <= 126 || location[i] == 9);
        assert(!net::is_visible(location[i]));
    }
}

/// What is handed back lacks the first `http://` of an address, and then the first
/// `https://` of what is left.
pub proof fn law_schemes_are_stripped(before: Seq<char>, after: Seq<char>)
    ensures
        (forall|i: int|
            i < before.len() ==> !text::occurs_at(before + http() + after, http(), i))
            ==> stripped(before + http() + after) == text::without_first(before + after, https()),
        (forall|i: int| !text::occurs_at(before, http(), i)) ==> stripped(before)
            == text::without_first(before, https()),
{
    if forall|i: int| i < before.len() ==> !text::occurs_at(before + http() + after, http(), i) {
        text::law_cut_at_first(before, http(), after);
    }
    if forall|i: int| !text::occurs_at(before, http(), i) {
        text::law_nothing_to_cut(before, http());
    }
}

/// A redirect is followed to where it points while there were not too many, and counted;
/// the last one too many ends the walk without an address.
pub proof fn law_redirect_is_followed(walk: WalkView, location: Seq<u8>)
    ensures
        ({
            let next = walk.step(FetchView::Redirect(location));
            &&& walk.redirects + 1 < MAX_REDIRECTS ==> {
                &&& next is Request
                &&& next->Request_0.url == next_target(location_text(location))
                &&& next->Request_0.redirects == walk.redirects + 1
            }
            &&& walk.redirects + 1 >= MAX_REDIRECTS ==> next == StepView::Finished(None)
        }),
{
}

/// A request that is not redirected ends the walk with the address that was requested,
/// stripped: an answer, a failure and a lack of time all count the same.
pub proof fn law_anything_else_ends_the_walk(walk: WalkView)
    ensures
        walk.step(FetchView::NoLocation) == StepView::Finished(Some(stripped(walk.url))),
        walk.step(FetchView::RequestFailed) == StepView::Finished(Some(stripped(walk.url))),
        walk.step(FetchView::TimedOut) == StepView::Finished(Some(stripped(walk.url))),
{
}

/// Only a redirect whose location lacks room for a scheme cannot be followed.
pub proof fn law_outcomes_that_can_be_followed(location: Seq<u8>)
    ensures
        FetchView::Redirect(location).can_follow() <==> has_scheme_room(location_text(location)),
        FetchView::NoLocation.can_follow(),
        FetchView::RequestFailed.can_follow(),
        FetchView::TimedOut.can_follow(),
{
}

/// An outcome, and where a walk stands, are shown with all that they hold.
pub proof fn law_walk_is_shown_in_full(outcome: FetchOutcome, step: WalkStep)
    ensures
        match outcome {
            FetchOutcome::Redirect(location) => outcome@ == FetchView::Redirect(location@),
            FetchOutcome::NoLocation => outcome@ is NoLocation,
            FetchOutcome::RequestFailed => outcome@ is RequestFailed,
            FetchOutcome::TimedOut => outcome@ is TimedOut,
        },
        match step {
            WalkStep::Request(walk) => step@ == StepView::Request(walk@),
            WalkStep::Finished(Some(url)) => step@ == StepView::Finished(Some(url@)),
            WalkStep::Finished(None) => step@ == StepView::Finished(None),
        },
{
}

} // verus!
