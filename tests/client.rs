use libaoc::scrape::{answer_url, mkurl};
use libaoc::{Cache, CacheFile, Client, Event, Request, State, Submit};

const ID: (u16, u8) = (2017, 8);

fn client() -> Client {
    Client::new(Cache::new("/c".to_string()))
}

fn file(path: &str, content: &str) -> CacheFile {
    CacheFile { path: path.to_string(), content: content.to_string() }
}

const PAGE: &str = "<html><body><main>\
<article class=\"day-desc\"><p>Part one.</p></article>\
<p>Your puzzle answer was <code>42</code>.</p>\
<article class=\"day-desc\"><p>Part two.</p></article>\
</main></body></html>";

#[test]
fn cached_consistent_puzzle_is_returned() {
    let c = client();
    let (state, request) = c.get_puzzle(&ID);
    assert!(matches!(request, Request::ReadEntry { .. }));
    let entry = Some(vec![file("/c/2017/8/q1", "Part one.")]);
    let (state, request) = c.step(state, Event::Entry(entry));
    assert!(matches!(request, Request::Done));
    match state {
        State::Retrieved { puzzle } => assert_eq!(puzzle.q1, Some("Part one.".to_string())),
        other => panic!("unexpected {other:?}"),
    }
}

#[test]
fn stale_cached_puzzle_is_fetched_again() {
    let c = client();
    for entry in [
        vec![file("/c/2017/8/q1", "one"), file("/c/2017/8/a1", "42")],
        vec![file("/c/2017/8/q1", "one"), file("/c/2017/8/q2", "two")],
    ] {
        let (state, _) = c.get_puzzle(&ID);
        let (state, request) = c.step(state, Event::Entry(Some(entry)));
        assert!(matches!(state, State::Download { id: ID }));
        match request {
            Request::Get { url } => assert_eq!(url, mkurl(&ID)),
            other => panic!("unexpected {other:?}"),
        }
    }
}

#[test]
fn missing_puzzle_is_downloaded_and_stored() {
    let c = client();
    let (state, _) = c.get_puzzle(&ID);
    let (state, request) = c.step(state, Event::Entry(None));
    assert!(matches!(request, Request::Get { .. }));
    let (state, request) = c.step(state, Event::Body(PAGE.to_string()));
    match &request {
        Request::Save { dir, files } => {
            assert_eq!(dir, "/c/2017/8");
            let paths: Vec<&str> = files.iter().map(|f| f.path.as_str()).collect();
            assert_eq!(paths, vec!["/c/2017/8/q1", "/c/2017/8/q2", "/c/2017/8/a1"]);
        }
        other => panic!("unexpected {other:?}"),
    }
    let (state, request) = c.step(state, Event::Written);
    assert!(matches!(request, Request::Done));
    match state {
        State::Retrieved { puzzle } => assert_eq!(puzzle.a1, Some("42".to_string())),
        other => panic!("unexpected {other:?}"),
    }
}

#[test]
fn failed_download_fails() {
    let c = client();
    let (state, _) = c.download_puzzle(&ID);
    let (state, request) = c.step(state, Event::Failed);
    assert!(matches!(state, State::Failed));
    assert!(matches!(request, Request::Done));
}

#[test]
fn input_from_cache_or_site() {
    let c = client();
    let (state, _) = c.get_input(&ID);
    let (state, _) = c.step(state, Event::Entry(Some(vec![file("/c/2017/8/in", "1 2 3")])));
    assert!(matches!(state, State::InputRetrieved { input } if input == "1 2 3"));

    let (state, _) = c.get_input(&ID);
    let (state, request) = c.step(state, Event::Entry(Some(Vec::new())));
    assert!(matches!(request, Request::Get { url } if url == "https://adventofcode.com/2017/day/8/input"));
    let (state, request) = c.step(state, Event::Body("4 5 6".to_string()));
    match request {
        Request::Save { files, .. } => {
            assert_eq!(files.len(), 1);
            assert_eq!(files[0].path, "/c/2017/8/in");
            assert_eq!(files[0].content, "4 5 6");
        }
        other => panic!("unexpected {other:?}"),
    }
    let (state, _) = c.step(state, Event::Written);
    assert!(matches!(state, State::InputRetrieved { input } if input == "4 5 6"));
}

fn posted_form(c: &Client, entry: Option<Vec<CacheFile>>) -> Vec<(String, String)> {
    let (state, request) = c.submit(&ID, None, "99".to_string());
    assert!(matches!(request, Request::ReadEntry { .. }));
    let (_, request) = c.step(state, Event::Entry(entry));
    match request {
        Request::Post { url, form } => {
            assert_eq!(url, answer_url(&ID));
            form
        }
        other => panic!("unexpected {other:?}"),
    }
}

#[test]
fn part_inference() {
    let c = client();
    let form = |level: &str| {
        vec![("level".to_string(), level.to_string()), ("answer".to_string(), "99".to_string())]
    };
    assert_eq!(posted_form(&c, None), form("1"));
    assert_eq!(posted_form(&c, Some(Vec::new())), form("1"));
    assert_eq!(posted_form(&c, Some(vec![file("/c/2017/8/a1", "")])), form("1"));
    assert_eq!(posted_form(&c, Some(vec![file("/c/2017/8/a1", "42")])), form("2"));
}

#[test]
fn correct_part_one_records_once_and_refetches_once() {
    let c = client();
    let (state, request) = c.submit(&ID, Some(1), "42".to_string());
    let mut requests = vec![request];
    let events = vec![
        Event::Body("<p>That's the right answer! </p>".to_string()),
        Event::Written,
        Event::Body(PAGE.to_string()),
        Event::Written,
        Event::Written,
    ];
    let mut state = state;
    for event in events {
        let (next, request) = c.step(state, event);
        state = next;
        requests.push(request);
    }
    let saves = requests.iter().filter(|r| matches!(r, Request::SaveAnswer { .. })).count();
    let fetches = requests.iter().filter(|r| matches!(r, Request::Get { .. })).count();
    assert_eq!(saves, 1);
    assert_eq!(fetches, 1);
    match &requests[1] {
        Request::SaveAnswer { file, .. } => {
            assert_eq!(file.path, "/c/2017/8/a1");
            assert_eq!(file.content, "42");
        }
        other => panic!("unexpected {other:?}"),
    }
    match state {
        State::Submitted { outcome, puzzle } => {
            assert_eq!(outcome, Submit::Correct);
            assert!(puzzle.expect("refreshed").q2.unwrap().contains("Part two."));
        }
        other => panic!("unexpected {other:?}"),
    }
}

#[test]
fn refresh_failure_is_not_fatal() {
    let c = client();
    let (state, _) = c.submit(&ID, Some(1), "42".to_string());
    let (state, _) = c.step(state, Event::Body("That's the right answer".to_string()));
    let (state, _) = c.step(state, Event::Written);
    let (state, request) = c.step(state, Event::Failed);
    assert!(matches!(request, Request::Done));
    assert!(matches!(state, State::Submitted { outcome: Submit::Correct, puzzle: None }));
}

#[test]
fn correct_part_two_records_without_refetch() {
    let c = client();
    let (state, _) = c.submit(&ID, Some(2), "7".to_string());
    let (state, request) = c.step(state, Event::Body("That's the right answer".to_string()));
    assert!(matches!(&request, Request::SaveAnswer { file, .. } if file.path == "/c/2017/8/a2"));
    let (state, request) = c.step(state, Event::Written);
    assert!(matches!(request, Request::Done));
    assert!(matches!(state, State::Submitted { outcome: Submit::Correct, puzzle: None }));
}

#[test]
fn other_outcomes_leave_cache_alone() {
    let c = client();
    for (body, expected) in [
        ("That's not the right answer", Submit::Incorrect),
        ("You gave an answer too recently", Submit::Wait),
        ("???", Submit::Error),
    ] {
        let (state, _) = c.submit(&ID, Some(1), "1".to_string());
        let (state, request) = c.step(state, Event::Body(body.to_string()));
        assert!(matches!(request, Request::Done));
        assert!(matches!(state, State::Submitted { outcome, puzzle: None } if outcome == expected));
    }
}
