use manual_connector::redirect::{
    ensure_absolute, location_to_string, FetchOutcome, RedirectWalk, WalkStep, MAX_REDIRECTS,
};
use manual_connector::text::{ends_with_char, find, remove_first, rfind, starts_with, tail};

fn redirect(location: &str) -> FetchOutcome {
    FetchOutcome::Redirect(location.as_bytes().to_vec())
}

fn walk_on(step: WalkStep) -> RedirectWalk {
    match step {
        WalkStep::Request(walk) => walk,
        WalkStep::Finished(result) => panic!("the walk is over: {:?}", result),
    }
}

fn result(step: WalkStep) -> Option<String> {
    match step {
        WalkStep::Request(walk) => panic!("the walk goes on to {}", walk.url()),
        WalkStep::Finished(result) => result,
    }
}

#[test]
fn walk_starts_behind_the_scheme() {
    assert_eq!(RedirectWalk::start("tcp://example.org/").url(), "http://example.org/");
    assert_eq!(RedirectWalk::start("example.org/").url(), "http://example.org/");
    assert_eq!(RedirectWalk::start("tcp://https://example.org/").url(), "https://example.org/");
    assert_eq!(RedirectWalk::start("tcp://http://example.org/").url(), "http://example.org/");
    assert_eq!(RedirectWalk::start("").url(), "http://");
    assert_eq!(RedirectWalk::start("tcp://b\u{fc}cher/").url(), "http://b\u{fc}cher/");
}

#[test]
fn walk_without_redirect_drops_the_scheme() {
    for outcome in [FetchOutcome::NoLocation, FetchOutcome::RequestFailed, FetchOutcome::TimedOut] {
        let walk = RedirectWalk::start("tcp://example.org/");
        assert_eq!(result(walk.step(outcome)), Some("example.org/".to_string()));
    }
}

#[test]
fn location_of_a_connector_is_resolved() {
    let walk = RedirectWalk::start("tcp://example.org/");
    let walk = walk_on(walk.step(redirect("http://tcp://public.easytier.cn:11010")));
    assert_eq!(walk.url(), "http://tcp://public.easytier.cn:11010");
    assert_eq!(
        result(walk.step(FetchOutcome::RequestFailed)),
        Some("tcp://public.easytier.cn:11010".to_string())
    );
}

#[test]
fn location_keeps_three_letters_of_its_scheme() {
    let walk = RedirectWalk::start("tcp://example.org/");
    let walk = walk_on(walk.step(redirect("https://example.com/")));
    assert_eq!(walk.url(), "http://tps://example.com/");
    let walk = walk_on(walk.step(redirect("elsewhere.example")));
    assert_eq!(walk.url(), "http://elsewhere.example");
    assert_eq!(
        result(walk.step(FetchOutcome::NoLocation)),
        Some("elsewhere.example".to_string())
    );
}

#[test]
fn three_redirects_are_too_many() {
    assert_eq!(MAX_REDIRECTS, 3);
    let walk = RedirectWalk::start("tcp://example.org/");
    let walk = walk_on(walk.step(redirect("tcp://one")));
    let walk = walk_on(walk.step(redirect("tcp://two")));
    assert_eq!(walk.url(), "http://tcp://two");
    assert_eq!(result(walk.step(redirect("tcp://three"))), None);
}

#[test]
fn two_redirects_are_followed() {
    let walk = RedirectWalk::start("tcp://example.org/");
    let walk = walk_on(walk.step(redirect("tcp://one")));
    let walk = walk_on(walk.step(redirect("tcp://two")));
    assert_eq!(result(walk.step(FetchOutcome::TimedOut)), Some("tcp://two".to_string()));
}

#[test]
fn both_schemes_are_stripped_once() {
    let walk = RedirectWalk::start("tcp://https://a/http://b/https://c/http://d");
    assert_eq!(
        result(walk.step(FetchOutcome::NoLocation)),
        Some("a/b/https://c/http://d".to_string())
    );
}

#[test]
fn location_that_is_no_text_is_empty() {
    let walk = RedirectWalk::start("tcp://example.org/");
    let walk = walk_on(walk.step(FetchOutcome::Redirect(vec![b't', 0xfc])));
    assert_eq!(walk.url(), "http://");
    assert_eq!(location_to_string(&vec![b'a', b'\n']), "");
    assert_eq!(location_to_string(&vec![127]), "");
    assert_eq!(location_to_string(&vec![b'a', b'\t', b' ', b'~']), "a\t ~");
    assert_eq!(location_to_string(&vec![]), "");
}

#[test]
fn locations_without_room_cannot_be_followed() {
    assert!(!redirect("://x").can_follow());
    assert!(!redirect("ab://x").can_follow());
    assert!(redirect("abc://x").can_follow());
    assert!(redirect("ab://x://y").can_follow());
    assert!(redirect("no scheme").can_follow());
    assert!(FetchOutcome::Redirect(vec![b':', b'/', b'/', 200]).can_follow());
    assert!(FetchOutcome::NoLocation.can_follow());
}

#[test]
fn absolute_addresses_are_left_alone() {
    assert_eq!(ensure_absolute("http://a".to_string()), "http://a");
    assert_eq!(ensure_absolute("https://a".to_string()), "https://a");
    assert_eq!(ensure_absolute("httpx://a".to_string()), "http://httpx://a");
    assert_eq!(ensure_absolute("HTTP://a".to_string()), "http://HTTP://a");
}

#[test]
fn text_is_searched_and_cut() {
    assert_eq!(find("a://b://c", "://"), Some(1));
    assert_eq!(rfind("a://b://c", "://"), Some(5));
    assert_eq!(find("a:/", "://"), None);
    assert_eq!(rfind("", "://"), None);
    assert_eq!(find("", ""), Some(0));
    assert_eq!(rfind("ab", ""), Some(2));
    assert!(starts_with("http://", "http://"));
    assert!(!starts_with("http:/", "http://"));
    assert!(ends_with_char("tcp://a/", '/'));
    assert!(!ends_with_char("", '/'));
    assert_eq!(tail("\u{e9}bc", 1), "bc");
    assert_eq!(tail("abc", 3), "");
    assert_eq!(remove_first("xaxa", "a"), "xxa");
    assert_eq!(remove_first("xx", "a"), "xx");
}
