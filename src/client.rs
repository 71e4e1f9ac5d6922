//! The client: cache-first retrieval, and submission with part inference and
//! a refresh after a correct answer.
//!
//! Each operation is a run of steps. The client hands out a [`Request`] (read
//! an entry, fetch or post to the site, write files); the caller carries it
//! out and reports back an [`Event`]; [`Client::step`] decides what follows,
//! until the request is [`Request::Done`] and the state holds the result.
use vstd::prelude::*;
use crate::cache::{
    answer_field, entry_dir, entry_files, entry_model, entry_puzzle, entry_text, field_path,
    files_model, puzzle_writes, Cache, CacheFile, Field,
};
use crate::id::PuzzleId;
use crate::puzzle::{stale, text_of, Puzzle};
use crate::scrape::{
    answer_url, input_url, mkurl, outcome_of, page_puzzle, scrape_puzzle, puzzle_url,
    fields_model, submission_fields, submission_form, submission_outcome, Submit,
};

verus! {

/// What the caller is asked to do next.
#[derive(Debug)]
pub enum Request {
    /// Read the files of a cache entry that exist; report [`Event::Entry`]
    /// (`None` where the directory does not exist).
    ReadEntry { dir: String, paths: Vec<String> },
    /// Fetch a page of the site; report [`Event::Body`], or
    /// [`Event::Failed`] on a transport error or a status other than success.
    Get { url: String },
    /// Post a form to the site, its fields form-encoded
    /// (`application/x-www-form-urlencoded`); report as for `Get`.
    Post { url: String, form: Vec<(String, String)> },
    /// Write files into a cache entry, creating its directory; failures are
    /// only logged. Report [`Event::Written`].
    Save { dir: String, files: Vec<CacheFile> },
    /// Record a confirmed answer in a cache entry, as for `Save`.
    SaveAnswer { dir: String, file: CacheFile },
    /// Nothing more to do: the state holds the result.
    Done,
}

/// What came of a request.
#[derive(Debug)]
pub enum Event {
    Entry(Option<Vec<CacheFile>>),
    Body(String),
    Failed,
    Written,
}

/// Where an operation stands.
#[derive(Debug)]
pub enum State {
    /// Retrieval: the cache entry has been asked for.
    Lookup { id: PuzzleId },
    /// Retrieval: the puzzle's page has been asked for.
    Download { id: PuzzleId },
    /// Retrieval: the fresh puzzle is being stored.
    Store { puzzle: Puzzle },
    /// Input retrieval: the cache entry has been asked for.
    InputLookup { id: PuzzleId },
    /// Input retrieval: the input has been asked for.
    InputDownload { id: PuzzleId },
    /// Input retrieval: the fresh input is being stored.
    InputStore { input: String },
    /// Submission: the cache entry has been asked for, to infer the part.
    Infer { id: PuzzleId, answer: String },
    /// Submission: the answer has been posted.
    Posted { id: PuzzleId, part: u8, answer: String },
    /// Submission: the confirmed answer is being recorded.
    Record { id: PuzzleId, part: u8 },
    /// Submission: the page has been asked for again after part one.
    Refresh { id: PuzzleId },
    /// Submission: the refreshed puzzle is being stored.
    RefreshStore { puzzle: Puzzle },
    /// Retrieval ended with this puzzle.
    Retrieved { puzzle: Puzzle },
    /// Input retrieval ended with this input.
    InputRetrieved { input: String },
    /// Submission ended: the outcome, and the refreshed puzzle if there is one.
    Submitted { outcome: Submit, puzzle: Option<Puzzle> },
    /// The site could not be reached, or answered with an error.
    Failed,
}

/// A state that the steps can go on from: a posted part is one or two.
pub open spec fn well_formed(s: State) -> bool {
    s matches State::Posted { part, .. } ==> part == 1 || part == 2
}

/// The part that a submission answers when none is given: two once a
/// non-empty answer to part one is cached, else one.
pub open spec fn inferred_part(a1: Option<Seq<char>>) -> u8 {
    match a1 {
        Some(a) => if a.len() > 0 {
            2
        } else {
            1
        },
        None => 1,
    }
}

/// A request to read the entry of `id`.
pub open spec fn is_read_entry(root: Seq<char>, id: PuzzleId, r: Request) -> bool {
    r matches Request::ReadEntry { dir, paths } && dir@ == entry_dir(root, id) && paths@.map_values(
        |s: String| s@,
    ) == entry_files(root, id)
}

/// A request to fetch the page at `url`.
pub open spec fn is_get(r: Request, url: Seq<char>) -> bool {
    r matches Request::Get { url: u } && u@ == url
}

/// A request to store `p` in the entry of `id`.
pub open spec fn is_save_puzzle(root: Seq<char>, id: PuzzleId, r: Request, p: Puzzle) -> bool {
    r matches Request::Save { dir, files } && dir@ == entry_dir(root, id) && files_model(files@)
        == puzzle_writes(root, id, p.model())
}

/// A fresh puzzle read from the page of `id`.
pub open spec fn from_page(id: PuzzleId, html: Seq<char>, p: Puzzle) -> bool {
    p.id == id && p.model() == page_puzzle(id, html)
}

/// A request to post `answer` to part `part` of `id`.
pub open spec fn is_post(r: Request, id: PuzzleId, part: u8, answer: Seq<char>) -> bool {
    r matches Request::Post { url, form } && url@ == puzzle_url(id) + "/answer"@ && fields_model(
        form@,
    ) == submission_fields(part, answer)
}

/// One step of an operation: from state `s`, on event `e`, to state `s2`
/// with request `r`.
pub open spec fn transition(root: Seq<char>, s: State, e: Event, s2: State, r: Request) -> bool {
    match s {
        State::Lookup { id } => {
            let cached = match e {
                Event::Entry(entry) => entry_puzzle(root, id, entry_model(entry)),
                _ => None,
            };
            match cached {
                Some(p) if !stale(p) => s2 matches State::Retrieved { puzzle } && puzzle.model() == p
                    && r is Done,
                _ => s2 == (State::Download { id }) && is_get(r, puzzle_url(id)),
            }
        },
        State::Download { id } => match e {
            Event::Body(html) => s2 matches State::Store { puzzle } && from_page(id, html@, puzzle)
                && is_save_puzzle(root, id, r, puzzle),
            _ => s2 is Failed && r is Done,
        },
        State::Store { puzzle } => s2 == (State::Retrieved { puzzle }) && r is Done,
        State::InputLookup { id } => {
            let cached = match e {
                Event::Entry(entry) => entry_text(root, id, entry_model(entry), Field::Input),
                _ => None,
            };
            match cached {
                Some(t) => s2 matches State::InputRetrieved { input } && input@ == t && r is Done,
                None => s2 == (State::InputDownload { id }) && is_get(r, puzzle_url(id) + "/input"@),
            }
        },
        State::InputDownload { id } => match e {
            Event::Body(text) => {
                &&& s2 matches State::InputStore { input } && input@ == text@
                &&& r matches Request::Save { dir, files } && dir@ == entry_dir(root, id)
                    && files_model(files@) == seq![(field_path(root, id, Field::Input), text@)]
            },
            _ => s2 is Failed && r is Done,
        },
        State::InputStore { input } => s2 == (State::InputRetrieved { input }) && r is Done,
        State::Infer { id, answer } => {
            let a1 = match e {
                Event::Entry(entry) => entry_text(root, id, entry_model(entry), Field::A1),
                _ => None,
            };
            let part = inferred_part(a1);
            s2 matches State::Posted { id: i, part: p, answer: a } && i == id && p == part && a@
                == answer@ && is_post(r, id, part, answer@)
        },
        State::Posted { id, part, answer } => match e {
            Event::Body(html) => if outcome_of(html@) == Submit::Correct {
                &&& s2 == (State::Record { id, part })
                &&& r matches Request::SaveAnswer { dir, file } && dir@ == entry_dir(root, id)
                    && file.path@ == field_path(root, id, answer_field(part)) && file.content@ == answer@
            } else {
                s2 == (State::Submitted { outcome: outcome_of(html@), puzzle: None }) && r is Done
            },
            _ => s2 is Failed && r is Done,
        },
        State::Record { id, part } => if part == 1 {
            s2 == (State::Refresh { id }) && is_get(r, puzzle_url(id))
        } else {
            s2 == (State::Submitted { outcome: Submit::Correct, puzzle: None }) && r is Done
        },
        State::Refresh { id } => match e {
            Event::Body(html) => s2 matches State::RefreshStore { puzzle } && from_page(id, html@, puzzle)
                && is_save_puzzle(root, id, r, puzzle),
            _ => s2 == (State::Submitted { outcome: Submit::Correct, puzzle: None }) && r is Done,
        },
        State::RefreshStore { puzzle } => s2 == (State::Submitted {
            outcome: Submit::Correct,
            puzzle: Some(puzzle),
        }) && r is Done,
        _ => s2 == s && r is Done,
    }
}

/// The `Advent of Code` client handles puzzle retrieval and cache.
#[derive(Debug, Clone)]
pub struct Client {
    pub cache: Cache,
}

impl Client {
    pub fn new(cache: Cache) -> (r: Client)
        ensures
            r.cache.root@ == cache.root@,
    {
        Client { cache }
    }

    fn read_entry(&self, id: &PuzzleId) -> (r: Request)
        ensures
            is_read_entry(self.cache.root@, *id, r),
    {
        Request::ReadEntry { dir: self.cache.mkpath(id), paths: self.cache.entry_paths(id) }
    }

    fn save_puzzle(&self, id: &PuzzleId, puzzle: &Puzzle) -> (r: Request)
        ensures
            is_save_puzzle(self.cache.root@, *id, r, *puzzle),
    {
        Request::Save { dir: self.cache.mkpath(id), files: self.cache.insert(id, puzzle) }
    }

    /// Get a puzzle from cache, or by scraping the website where it is not
    /// cached or its cached state is stale.
    pub fn get_puzzle(&self, id: &PuzzleId) -> (r: (State, Request))
        ensures
            r.0 == (State::Lookup { id: *id }),
            is_read_entry(self.cache.root@, *id, r.1),
    {
        (State::Lookup { id: *id }, self.read_entry(id))
    }

    /// Scrape a puzzle and store it in cache.
    pub fn download_puzzle(&self, id: &PuzzleId) -> (r: (State, Request))
        ensures
            r.0 == (State::Download { id: *id }),
            is_get(r.1, puzzle_url(*id)),
    {
        (State::Download { id: *id }, Request::Get { url: mkurl(id) })
    }

    /// Get the puzzle's input from cache or by requesting the server.
    pub fn get_input(&self, id: &PuzzleId) -> (r: (State, Request))
        ensures
            r.0 == (State::InputLookup { id: *id }),
            is_read_entry(self.cache.root@, *id, r.1),
    {
        (State::InputLookup { id: *id }, self.read_entry(id))
    }

    /// Retrieve the puzzle's input from the server and cache it.
    pub fn download_input(&self, id: &PuzzleId) -> (r: (State, Request))
        ensures
            r.0 == (State::InputDownload { id: *id }),
            is_get(r.1, puzzle_url(*id) + "/input"@),
    {
        (State::InputDownload { id: *id }, Request::Get { url: input_url(id) })
    }

    /// Submit a puzzle's answer for a part; without a part, the part is
    /// inferred from the cached answers first.
    pub fn submit(&self, id: &PuzzleId, part: Option<u8>, answer: String) -> (r: (State, Request))
        requires
            part matches Some(p) ==> p == 1 || p == 2,
        ensures
            match part {
                Some(p) => r.0 matches State::Posted { id: i, part: q, answer: a } && i == *id && q == p
                    && a@ == answer@ && is_post(r.1, *id, p, answer@),
                None => r.0 matches State::Infer { id: i, answer: a } && i == *id && a@ == answer@
                    && is_read_entry(self.cache.root@, *id, r.1),
            },
    {
        match part {
            Some(p) => {
                let request = Request::Post {
                    url: answer_url(id),
                    form: submission_form(p, answer.as_str()),
                };
                (State::Posted { id: *id, part: p, answer }, request)
            },
            None => (State::Infer { id: *id, answer }, self.read_entry(id)),
        }
    }

    /// Decide what follows `state` now that its request came to `event`.
    pub fn step(&self, state: State, event: Event) -> (r: (State, Request))
        requires
            well_formed(state),
        ensures
            transition(self.cache.root@, state, event, r.0, r.1),
            well_formed(r.0),
    {
        match state {
            State::Lookup { id } => {
                let cached = match &event {
                    Event::Entry(entry) => self.cache.get(&id, entry),
                    _ => None,
                };
                match cached {
                    Some(puzzle) => {
                        if puzzle.is_stale() {
                            self.download_puzzle(&id)
                        } else {
                            (State::Retrieved { puzzle }, Request::Done)
                        }
                    },
                    None => self.download_puzzle(&id),
                }
            },
            State::Download { id } => match event {
                Event::Body(html) => {
                    let puzzle = scrape_puzzle(id, html.as_str());
                    let request = self.save_puzzle(&id, &puzzle);
                    (State::Store { puzzle }, request)
                },
                _ => (State::Failed, Request::Done),
            },
            State::Store { puzzle } => (State::Retrieved { puzzle }, Request::Done),
            State::InputLookup { id } => {
                let cached = match &event {
                    Event::Entry(entry) => self.cache.get_input(&id, entry),
                    _ => None,
                };
                match cached {
                    Some(input) => (State::InputRetrieved { input }, Request::Done),
                    None => self.download_input(&id),
                }
            },
            State::InputDownload { id } => match event {
                Event::Body(text) => {
                    let mut files: Vec<CacheFile> = Vec::new();
                    files.push(self.cache.insert_input(&id, text.as_str()));
                    assert(files_model(files@) =~= seq![
                        (field_path(self.cache.root@, id, Field::Input), text@),
                    ]);
                    let request = Request::Save { dir: self.cache.mkpath(&id), files };
                    (State::InputStore { input: text }, request)
                },
                _ => (State::Failed, Request::Done),
            },
            State::InputStore { input } => (State::InputRetrieved { input }, Request::Done),
            State::Infer { id, answer } => {
                let a1 = match &event {
                    Event::Entry(entry) => self.cache.get_answers(&id, entry).0,
                    _ => None,
                };
                let part: u8 = match &a1 {
                    Some(a) => if a.as_str().is_empty() {
                        1
                    } else {
                        2
                    },
                    None => 1,
                };
                self.submit(&id, Some(part), answer)
            },
            State::Posted { id, part, answer } => match event {
                Event::Body(html) => {
                    let outcome = submission_outcome(html.as_str());
                    match outcome {
                        Submit::Correct => {
                            let file = self.cache.update_answer(&id, part, answer.as_str());
                            let request = Request::SaveAnswer { dir: self.cache.mkpath(&id), file };
                            (State::Record { id, part }, request)
                        },
                        _ => (State::Submitted { outcome, puzzle: None }, Request::Done),
                    }
                },
                _ => (State::Failed, Request::Done),
            },
            State::Record { id, part } => {
                if part == 1 {
                    (State::Refresh { id }, Request::Get { url: mkurl(&id) })
                } else {
                    (State::Submitted { outcome: Submit::Correct, puzzle: None }, Request::Done)
                }
            },
            State::Refresh { id } => match event {
                Event::Body(html) => {
                    let puzzle = scrape_puzzle(id, html.as_str());
                    let request = self.save_puzzle(&id, &puzzle);
                    (State::RefreshStore { puzzle }, request)
                },
                _ => (State::Submitted { outcome: Submit::Correct, puzzle: None }, Request::Done),
            },
            State::RefreshStore { puzzle } => (
                State::Submitted { outcome: Submit::Correct, puzzle: Some(puzzle) },
                Request::Done,
            ),
            other => (other, Request::Done),
        }
    }
}


/// A cached puzzle that is stale (part one answered without part two shown,
/// or part two shown without an answer to part one) is never handed out:
/// retrieval fetches the page again. What retrieval takes from the cache is
/// never stale.
pub proof fn lemma_stale_entry_refreshed(root: Seq<char>, id: PuzzleId, e: Event, s2: State, r: Request)
    requires
        transition(root, State::Lookup { id }, e, s2, r),
    ensures
        e matches Event::Entry(entry) && entry_puzzle(root, id, entry_model(entry)) matches Some(p)
            && stale(p) ==> s2 == (State::Download { id }) && is_get(r, puzzle_url(id)),
        s2 matches State::Retrieved { puzzle } ==> !stale(puzzle.model()),
{
}

/// The part that a posted answer is for.
pub open spec fn posted_part(s: State) -> Option<u8> {
    match s {
        State::Posted { part, .. } => Some(part),
        _ => None,
    }
}

/// Without a given part, a submission answers part one when no answer to
/// part one is cached, and part two when a non-empty one is.
pub proof fn lemma_part_inference(root: Seq<char>, id: PuzzleId, answer: String, e: Event, s2: State, r: Request)
    requires
        transition(root, State::Infer { id, answer }, e, s2, r),
    ensures
        ({
            let a1 = match e {
                Event::Entry(entry) => entry_text(root, id, entry_model(entry), Field::A1),
                _ => None,
            };
            &&& a1 is None ==> posted_part(s2) == Some(1u8)
            &&& a1 is Some && a1->0.len() > 0 ==> posted_part(s2) == Some(2u8)
        }),
{
}

/// A run of steps: `states[i]` goes to `states[i + 1]` on `events[i]`,
/// handing out `reqs[i]`.
pub open spec fn is_run(root: Seq<char>, states: Seq<State>, events: Seq<Event>, reqs: Seq<Request>) -> bool {
    &&& states.len() == events.len() + 1
    &&& reqs.len() == events.len()
    &&& forall|i: int|
        0 <= i < events.len() ==> transition(root, #[trigger] states[i], events[i], states[i + 1], reqs[i])
}

/// How many of the requests record an answer.
pub open spec fn answer_saves(reqs: Seq<Request>) -> nat
    decreases reqs.len(),
{
    if reqs.len() == 0 {
        0
    } else {
        (if reqs[0] is SaveAnswer {
            1nat
        } else {
            0nat
        }) + answer_saves(reqs.drop_first())
    }
}

/// How many of the requests fetch a page.
pub open spec fn page_fetches(reqs: Seq<Request>) -> nat
    decreases reqs.len(),
{
    if reqs.len() == 0 {
        0
    } else {
        (if reqs[0] is Get {
            1nat
        } else {
            0nat
        }) + page_fetches(reqs.drop_first())
    }
}

proof fn lemma_no_saves_or_fetches(reqs: Seq<Request>)
    requires
        forall|j: int| 0 <= j < reqs.len() ==> !(#[trigger] reqs[j] is SaveAnswer) && !(reqs[j] is Get),
    ensures
        answer_saves(reqs) == 0,
        page_fetches(reqs) == 0,
    decreases reqs.len(),
{
    if reqs.len() > 0 {
        assert forall|j: int| 0 <= j < reqs.drop_first().len() implies !(
        #[trigger] reqs.drop_first()[j] is SaveAnswer) && !(reqs.drop_first()[j] is Get) by {
            assert(reqs.drop_first()[j] == reqs[j + 1]);
        }
        lemma_no_saves_or_fetches(reqs.drop_first());
    }
}

/// Once a refreshed page has been asked for, no answer is recorded and no
/// page fetched any more.
proof fn lemma_after_refresh(root: Seq<char>, states: Seq<State>, events: Seq<Event>, reqs: Seq<Request>, i: int)
    requires
        is_run(root, states, events, reqs),
        0 <= i <= events.len(),
        states[i] is Refresh || states[i] is RefreshStore || states[i] is Submitted,
    ensures
        forall|j: int| i <= j < reqs.len() ==> !(#[trigger] reqs[j] is SaveAnswer) && !(reqs[j] is Get),
    decreases events.len() - i,
{
    if i < events.len() {
        assert(transition(root, states[i], events[i], states[i + 1], reqs[i]));
        lemma_after_refresh(root, states, events, reqs, i + 1);
    }
}

/// A correct answer to part one is recorded exactly once and brings exactly
/// one fetch of the puzzle's page again, whatever happens after.
pub proof fn lemma_correct_part_one(
    root: Seq<char>,
    id: PuzzleId,
    answer: String,
    states: Seq<State>,
    events: Seq<Event>,
    reqs: Seq<Request>,
)
    requires
        is_run(root, states, events, reqs),
        states[0] == (State::Posted { id, part: 1, answer }),
        events.len() >= 2,
        events[0] matches Event::Body(html) && outcome_of(html@) == Submit::Correct,
    ensures
        answer_saves(reqs) == 1,
        page_fetches(reqs) == 1,
{
    assert(transition(root, states[0], events[0], states[1], reqs[0]));
    assert(states[1] == (State::Record { id, part: 1 }));
    assert(transition(root, states[1], events[1], states[2], reqs[1]));
    assert(states[2] == (State::Refresh { id }));
    assert(reqs[1] is Get);
    assert(reqs[0] is SaveAnswer);
    lemma_after_refresh(root, states, events, reqs, 2);
    let rest = reqs.drop_first().drop_first();
    assert forall|j: int| 0 <= j < rest.len() implies !(#[trigger] rest[j] is SaveAnswer) && !(
    rest[j] is Get) by {
        assert(rest[j] == reqs[j + 2]);
    }
    lemma_no_saves_or_fetches(rest);
    assert(reqs.drop_first()[0] == reqs[1]);
    assert(answer_saves(reqs.drop_first()) == answer_saves(rest));
    assert(page_fetches(reqs.drop_first()) == 1 + page_fetches(rest));
}

} // verus!
