//! What the puzzle site is asked, and what its pages say.
use vstd::prelude::*;
use vstd::string::StringExecFns;
use crate::id::{decimal, decimal_string, PuzzleId};
use crate::puzzle::{copy_text, text_of, Puzzle, PuzzleModel};

verus! {

/// The puzzle site.
pub const AOC_URL: &'static str = "https://adventofcode.com";

/// The elements that hold the prompts, one per part, in page order.
pub const PROMPT_SELECTOR: &'static str = "article.day-desc";

/// The elements that hold the answers given, each under its prompt.
pub const ANSWER_SELECTOR: &'static str = "article.day-desc + p code";

/// The width at which prompts are wrapped.
pub const WRAP_WIDTH: usize = 80;

/// What a response to a submission says of the answer.
pub const CORRECT_TEXT: &'static str = "That's the right answer";

pub const INCORRECT_TEXT: &'static str = "not the right answer";

pub const WAIT_TEXT: &'static str = "too recently";

/// The outcome of a puzzle submission.
#[derive(Debug, Clone, Copy, PartialEq, Eq, Structural)]
pub enum Submit {
    Correct,
    Incorrect,
    /// An answer was given too recently: the site asks to wait.
    Wait,
    /// The response says none of the above.
    Error,
}

/// Whether `pat` occurs in `s`.
pub open spec fn occurs_in(s: Seq<char>, pat: Seq<char>) -> bool {
    exists|i: int| 0 <= i <= s.len() - pat.len() && #[trigger] s.subrange(i, i + pat.len()) == pat
}

/// Relies on `str::contains`: whether `pat` occurs in `s` as a substring.
#[verifier::external_body]
fn str_contains(s: &str, pat: &str) -> (r: bool)
    ensures
        r == occurs_in(s@, pat@),
{
    s.contains(pat)
}

/// The outcome that a response body tells, by the first of its phrases that
/// it holds.
pub open spec fn outcome_of(body: Seq<char>) -> Submit {
    if occurs_in(body, CORRECT_TEXT@) {
        Submit::Correct
    } else if occurs_in(body, INCORRECT_TEXT@) {
        Submit::Incorrect
    } else if occurs_in(body, WAIT_TEXT@) {
        Submit::Wait
    } else {
        Submit::Error
    }
}

/// Classify the site's response to a submission.
pub fn submission_outcome(response: &str) -> (r: Submit)
    ensures
        r == outcome_of(response@),
{
    if str_contains(response, CORRECT_TEXT) {
        Submit::Correct
    } else if str_contains(response, INCORRECT_TEXT) {
        Submit::Incorrect
    } else if str_contains(response, WAIT_TEXT) {
        Submit::Wait
    } else {
        Submit::Error
    }
}

/// The address of a puzzle's page.
pub open spec fn puzzle_url(id: PuzzleId) -> Seq<char> {
    AOC_URL@ + "/"@ + decimal(id.0 as nat) + "/day/"@ + decimal(id.1 as nat)
}

/// The address of a puzzle's page.
pub fn mkurl(id: &PuzzleId) -> (r: String)
    ensures
        r@ == puzzle_url(*id),
{
    let mut url = String::from_str(AOC_URL);
    url.append("/");
    url.append(decimal_string(id.0 as u64).as_str());
    url.append("/day/");
    url.append(decimal_string(id.1 as u64).as_str());
    assert(url@ =~= puzzle_url(*id));
    url
}

/// The address of a puzzle's input.
pub fn input_url(id: &PuzzleId) -> (r: String)
    ensures
        r@ == puzzle_url(*id) + "/input"@,
{
    let mut url = mkurl(id);
    url.append("/input");
    url
}

/// The address that answers are posted to.
pub fn answer_url(id: &PuzzleId) -> (r: String)
    ensures
        r@ == puzzle_url(*id) + "/answer"@,
{
    let mut url = mkurl(id);
    url.append("/answer");
    url
}

/// The fields of a form as `(name, value)` pairs.
pub open spec fn fields_model(v: Seq<(String, String)>) -> Seq<(Seq<char>, Seq<char>)> {
    v.map_values(|f: (String, String)| (f.0@, f.1@))
}

/// The form fields that submit `answer` for `part`: `level`, then `answer`.
/// They are sent form-encoded; the values are given here as they are.
pub open spec fn submission_fields(part: u8, answer: Seq<char>) -> Seq<(Seq<char>, Seq<char>)> {
    seq![("level"@, decimal(part as nat)), ("answer"@, answer)]
}

/// The form fields that submit `answer` for `part`.
pub fn submission_form(part: u8, answer: &str) -> (r: Vec<(String, String)>)
    ensures
        fields_model(r@) == submission_fields(part, answer@),
{
    let mut form: Vec<(String, String)> = Vec::new();
    form.push((String::from_str("level"), decimal_string(part as u64)));
    form.push((String::from_str("answer"), String::from_str(answer)));
    assert(fields_model(form@) =~= submission_fields(part, answer@));
    form
}


/// Whether `scraper::Selector::parse` accepts a selector.
pub uninterp spec fn selector_parses(selector: Seq<char>) -> bool;

/// The inner markup of each element of a document that a selector matches,
/// in document order.
pub uninterp spec fn selected_inner_html(html: Seq<char>, selector: Seq<char>) -> Seq<Seq<char>>;

/// The text of each element of a document that a selector matches, in
/// document order.
pub uninterp spec fn selected_text(html: Seq<char>, selector: Seq<char>) -> Seq<Seq<char>>;

/// Markup rendered as plain text wrapped at `width` columns, if it renders.
pub uninterp spec fn rendered_text(html: Seq<char>, width: nat) -> Option<Seq<char>>;

pub open spec fn texts_of(v: Seq<String>) -> Seq<Seq<char>> {
    v.map_values(|s: String| s@)
}

/// Relies on scraper: `Selector::parse` to read the selector, then
/// `Html::parse_document`, `Html::select` and `ElementRef::inner_html` for the
/// inner markup of each match, in document order.
#[verifier::external_body]
fn select_inner_html(html: &str, selector: &str) -> (r: Option<Vec<String>>)
    ensures
        r is Some <==> selector_parses(selector@),
        r matches Some(v) ==> texts_of(v@) == selected_inner_html(html@, selector@),
{
    let query = scraper::Selector::parse(selector).ok()?;
    let doc = scraper::Html::parse_document(html);
    Some(doc.select(&query).map(|el| el.inner_html()).collect())
}

/// Relies on scraper: `Selector::parse` to read the selector, then
/// `Html::parse_document`, `Html::select` and `ElementRef::text` for the text
/// of each match, in document order.
#[verifier::external_body]
fn select_text(html: &str, selector: &str) -> (r: Option<Vec<String>>)
    ensures
        r is Some <==> selector_parses(selector@),
        r matches Some(v) ==> texts_of(v@) == selected_text(html@, selector@),
{
    let query = scraper::Selector::parse(selector).ok()?;
    let doc = scraper::Html::parse_document(html);
    Some(doc.select(&query).map(|el| el.text().collect::<String>()).collect())
}

/// Relies on `html2text::from_read`: markup rendered as wrapped plain text,
/// or an error.
#[verifier::external_body]
fn render_text(html: &str, width: usize) -> (r: Option<String>)
    ensures
        text_of(r) == rendered_text(html@, width as nat),
{
    html2text::from_read(html.as_bytes(), width).ok()
}

/// The `i`-th text of `v`, if there is one.
pub open spec fn nth_text(v: Seq<Seq<char>>, i: int) -> Option<Seq<char>> {
    if 0 <= i < v.len() {
        Some(v[i])
    } else {
        None
    }
}

/// The puzzle that a page shows: the first two prompts, and the answers
/// printed under them, each as it comes.
pub open spec fn assembled(id: PuzzleId, prompts: Seq<Option<Seq<char>>>, answers: Seq<Seq<char>>) -> PuzzleModel {
    PuzzleModel {
        id,
        q1: if prompts.len() > 0 { prompts[0] } else { None },
        q2: if prompts.len() > 1 { prompts[1] } else { None },
        a1: nth_text(answers, 0),
        a2: nth_text(answers, 1),
    }
}

fn nth_copy(v: &Vec<String>, i: usize) -> (r: Option<String>)
    ensures
        text_of(r) == nth_text(texts_of(v@), i as int),
{
    if i < v.len() {
        Some(v[i].clone())
    } else {
        None
    }
}

/// The puzzle made of the prompts of a page, rendered in page order, and
/// the answers shown under them.
pub fn assemble_puzzle(id: PuzzleId, prompts: &Vec<Option<String>>, answers: &Vec<String>) -> (r: Puzzle)
    ensures
        r.model() == assembled(id, prompts@.map_values(|t: Option<String>| text_of(t)), texts_of(answers@)),
{
    let q1 = if prompts.len() > 0 { copy_text(&prompts[0]) } else { None };
    let q2 = if prompts.len() > 1 { copy_text(&prompts[1]) } else { None };
    Puzzle { id, q1, q2, a1: nth_copy(answers, 0), a2: nth_copy(answers, 1) }
}

/// The prompt elements of a page: none where the selector does not parse.
pub open spec fn page_articles(html: Seq<char>) -> Seq<Seq<char>> {
    if selector_parses(PROMPT_SELECTOR@) {
        selected_inner_html(html, PROMPT_SELECTOR@)
    } else {
        Seq::empty()
    }
}

/// The rendered prompts of a page: the first two prompt elements, each
/// rendered at the wrap width (absent where rendering fails).
pub open spec fn page_prompts(html: Seq<char>) -> Seq<Option<Seq<char>>> {
    let arts = page_articles(html);
    let n = if arts.len() < 2 {
        arts.len()
    } else {
        2
    };
    Seq::new(n, |i: int| rendered_text(arts[i], WRAP_WIDTH as nat))
}

/// The answers shown on a page: none where the selector does not parse.
pub open spec fn page_answers(html: Seq<char>) -> Seq<Seq<char>> {
    if selector_parses(ANSWER_SELECTOR@) {
        selected_text(html, ANSWER_SELECTOR@)
    } else {
        Seq::empty()
    }
}

/// The puzzle that a page shows.
pub open spec fn page_puzzle(id: PuzzleId, html: Seq<char>) -> PuzzleModel {
    assembled(id, page_prompts(html), page_answers(html))
}

/// Read a puzzle's prompts and answers from its page. A part that the page
/// does not show yet stays absent.
pub fn scrape_puzzle(id: PuzzleId, html: &str) -> (r: Puzzle)
    ensures
        r.model() == page_puzzle(id, html@),
{
    let arts = match select_inner_html(html, PROMPT_SELECTOR) {
        Some(v) => v,
        None => Vec::new(),
    };
    assert(texts_of(arts@) == page_articles(html@));
    let n: usize = if arts.len() < 2 { arts.len() } else { 2 };
    let mut prompts: Vec<Option<String>> = Vec::new();
    let mut i: usize = 0;
    while i < n
        invariant
            n <= arts@.len(),
            texts_of(arts@) == page_articles(html@),
            i <= n,
            prompts@.len() == i,
            forall|k: int| 0 <= k < i ==> text_of(#[trigger] prompts@[k]) == rendered_text(
                arts@[k]@,
                WRAP_WIDTH as nat,
            ),
        decreases n - i,
    {
        prompts.push(render_text(arts[i].as_str(), WRAP_WIDTH));
        i = i + 1;
    }
    let answers = match select_text(html, ANSWER_SELECTOR) {
        Some(v) => v,
        None => Vec::new(),
    };
    let r = assemble_puzzle(id, &prompts, &answers);
    assert(texts_of(answers@) == page_answers(html@));
    assert(prompts@.map_values(|t: Option<String>| text_of(t)) =~= page_prompts(html@));
    r
}


/// The value of the cookie header that authenticates every request.
pub fn session_cookie(token: &str) -> (r: String)
    ensures
        r@ == "session="@ + token@,
{
    let mut cookie = String::from_str("session=");
    cookie.append(token);
    cookie
}

} // verus!
