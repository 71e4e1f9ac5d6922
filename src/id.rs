//! Puzzle identity: a `(year, day)` pair, given explicitly or read from a path.
use vstd::prelude::*;
use vstd::string::StringExecFns;

verus! {

/// A `(year, day)` pair to identify a puzzle.
pub type PuzzleId = (u16, u8);

/// The first year with puzzles.
pub const FIRST_YEAR: u16 = 2015;

/// The last year with puzzles.
pub const LAST_YEAR: u16 = 2024;

/// The last day of a year's series.
pub const LAST_DAY: u8 = 25;

/// A year and a day that name an existing puzzle.
pub open spec fn valid_id(year: int, day: int) -> bool {
    &&& FIRST_YEAR <= year <= LAST_YEAR
    &&& 1 <= day <= LAST_DAY
}

/// An ASCII decimal digit.
pub open spec fn is_digit(c: char) -> bool {
    '0' <= c && c <= '9'
}

/// The value of a decimal digit.
pub open spec fn digit_value(c: char) -> nat {
    (c as u32 - '0' as u32) as nat
}

/// The number that a run of decimal digits spells.
pub open spec fn digits_value(s: Seq<char>) -> nat
    decreases s.len(),
{
    if s.len() == 0 {
        0
    } else {
        digits_value(s.drop_last()) * 10 + digit_value(s.last())
    }
}

/// The first index at or after `i` that holds a digit, or `s.len()`.
pub open spec fn next_digit(s: Seq<char>, i: int) -> int
    decreases s.len() - i,
{
    if i < 0 || i >= s.len() {
        s.len() as int
    } else if is_digit(s[i]) {
        i
    } else {
        next_digit(s, i + 1)
    }
}

/// The first index at or after `i` that holds no digit, or `s.len()`.
pub open spec fn next_non_digit(s: Seq<char>, i: int) -> int
    decreases s.len() - i,
{
    if i < 0 || i >= s.len() {
        s.len() as int
    } else if !is_digit(s[i]) {
        i
    } else {
        next_non_digit(s, i + 1)
    }
}

/// The leftmost maximal run of digits in a path segment (empty if none).
pub open spec fn first_run(seg: Seq<char>) -> Seq<char> {
    let a = next_digit(seg, 0);
    seg.subrange(a, next_non_digit(seg, a))
}

/// Where the segment that ends at `end` starts: just past the last `/`
/// before `end`, or 0.
pub open spec fn segment_start(p: Seq<char>, end: int) -> int
    decreases end,
{
    if end <= 0 || end > p.len() {
        0
    } else if p[end - 1] == '/' {
        end
    } else {
        segment_start(p, end - 1)
    }
}

/// The walk from the deepest segment of `p[0..end]` toward the root. The
/// first digit run met is the day; the next one with a positive value is
/// the year, and the walk stops there. Gives `(year run, day run)`.
pub open spec fn scan_runs(p: Seq<char>, end: int, day: Option<Seq<char>>) -> Option<(Seq<char>, Seq<char>)>
    decreases end,
{
    if end <= 0 || end > p.len() {
        None
    } else {
        let st = segment_start(p, end);
        let r = first_run(p.subrange(st, end));
        if r.len() > 0 && day is Some && digits_value(r) > 0 {
            Some((r, day->0))
        } else if st == 0 {
            None
        } else {
            proof {
                lemma_segment_start_bounds(p, end);
            }
            scan_runs(p, st - 1, if r.len() > 0 && day is None { Some(r) } else { day })
        }
    }
}

/// The digit runs that a path names as `(year, day)`, if it names two.
pub open spec fn path_runs(p: Seq<char>) -> Option<(Seq<char>, Seq<char>)> {
    scan_runs(p, p.len() as int, None)
}

/// The `(year, day)` numbers that a path names.
pub open spec fn path_id(p: Seq<char>) -> Option<(nat, nat)> {
    match path_runs(p) {
        Some((y, d)) => Some((digits_value(y), digits_value(d))),
        None => None,
    }
}

pub open spec fn saturate(v: nat, cap: nat) -> nat {
    if v <= cap {
        v
    } else {
        cap
    }
}

/// The id that a path names, each number capped at the largest value of its
/// field (a value no valid id has).
pub open spec fn path_puzzle_id(p: Seq<char>) -> Option<PuzzleId> {
    match path_id(p) {
        Some((y, d)) => Some((saturate(y, u16::MAX as nat) as u16, saturate(d, u8::MAX as nat) as u8)),
        None => None,
    }
}

pub proof fn lemma_segment_start_bounds(p: Seq<char>, end: int)
    ensures
        0 <= segment_start(p, end),
        0 < end <= p.len() ==> segment_start(p, end) <= end,
        0 < end <= p.len() && segment_start(p, end) > 0 ==> p[segment_start(p, end) - 1] == '/',
    decreases end,
{
    if 0 < end <= p.len() && p[end - 1] != '/' {
        lemma_segment_start_bounds(p, end - 1);
    }
}


/// The characters of a string, one by one.
pub fn chars_of(s: &str) -> (r: Vec<char>)
    ensures
        r@ == s@,
{
    let n = s.unicode_len();
    let mut r: Vec<char> = Vec::new();
    let mut i: usize = 0;
    while i < n
        invariant
            n == s@.len(),
            i <= n,
            r@ == s@.subrange(0, i as int),
        decreases n - i,
    {
        r.push(s.get_char(i));
        i = i + 1;
        assert(r@ =~= s@.subrange(0, i as int));
    }
    assert(r@ =~= s@);
    r
}

fn find_segment_start(p: &Vec<char>, end: usize) -> (st: usize)
    requires
        end <= p@.len(),
    ensures
        st == segment_start(p@, end as int),
        st <= end,
{
    let mut i: usize = end;
    while i > 0 && p[i - 1] != '/'
        invariant
            i <= end <= p@.len(),
            segment_start(p@, end as int) == segment_start(p@, i as int),
        decreases i,
    {
        i = i - 1;
    }
    i
}

/// Bounds `(a, b)` of the first digit run of `p[st..end]`.
fn find_first_run(p: &Vec<char>, st: usize, end: usize) -> (r: (usize, usize))
    requires
        st <= end <= p@.len(),
    ensures
        st <= r.0 <= r.1 <= end,
        p@.subrange(r.0 as int, r.1 as int) == first_run(p@.subrange(st as int, end as int)),
        forall|k: int| r.0 <= k < r.1 ==> is_digit(#[trigger] p@[k]),
{
    let ghost seg = p@.subrange(st as int, end as int);
    let mut a: usize = st;
    while a < end && !('0' <= p[a] && p[a] <= '9')
        invariant
            st <= a <= end <= p@.len(),
            seg == p@.subrange(st as int, end as int),
            next_digit(seg, 0) == next_digit(seg, a - st),
        decreases end - a,
    {
        a = a + 1;
    }
    let mut b: usize = a;
    while b < end && '0' <= p[b] && p[b] <= '9'
        invariant
            st <= a <= b <= end <= p@.len(),
            seg == p@.subrange(st as int, end as int),
            next_digit(seg, 0) == a - st,
            next_non_digit(seg, a - st) == next_non_digit(seg, b - st),
            forall|k: int| a <= k < b ==> is_digit(#[trigger] p@[k]),
        decreases end - b,
    {
        b = b + 1;
    }
    assert(p@.subrange(a as int, b as int) =~= seg.subrange(a - st, b - st));
    (a, b)
}

proof fn lemma_saturate_step(v: nat, d: nat, cap: nat)
    ensures
        saturate(saturate(v, cap) * 10 + d, cap) == saturate(v * 10 + d, cap),
{
    if v > cap {
        assert(v * 10 + d >= cap) by (nonlinear_arith)
            requires
                v > cap,
        ;
        assert(cap * 10 + d >= cap) by (nonlinear_arith);
    }
}

/// The value of the digit run `p[a..b]`, capped at `cap`.
fn run_value(p: &Vec<char>, a: usize, b: usize, cap: u64) -> (r: u64)
    requires
        a <= b <= p@.len(),
        cap <= u16::MAX,
        forall|k: int| a <= k < b ==> is_digit(#[trigger] p@[k]),
    ensures
        r == saturate(digits_value(p@.subrange(a as int, b as int)), cap as nat),
{
    let mut acc: u64 = 0;
    let mut i: usize = a;
    while i < b
        invariant
            a <= i <= b <= p@.len(),
            cap <= u16::MAX,
            forall|k: int| a <= k < b ==> is_digit(#[trigger] p@[k]),
            acc == saturate(digits_value(p@.subrange(a as int, i as int)), cap as nat),
        decreases b - i,
    {
        let c = p[i];
        assert(is_digit(p@[i as int]));
        let d = (c as u32 - '0' as u32) as u64;
        let ghost prev = p@.subrange(a as int, i as int);
        let ghost next = p@.subrange(a as int, i + 1);
        assert(next.drop_last() =~= prev);
        assert(next.last() == c);
        proof {
            lemma_saturate_step(digits_value(prev), d as nat, cap as nat);
        }
        let v = acc * 10 + d;
        acc = if v <= cap { v } else { cap };
        i = i + 1;
    }
    acc
}

/// Determine the puzzle's year and day from a path.
///
/// The path is walked from its deepest segment toward the root; in each
/// segment only its leftmost run of digits counts. The first run met is the
/// day, the next one with a positive value the year. A number too large for
/// its field reads as the field's largest value.
pub fn puzzle_id_from_path(path: &str) -> (r: Option<PuzzleId>)
    ensures
        r == path_puzzle_id(path@),
{
    let p = chars_of(path);
    let ghost ps = path@;
    let mut end: usize = p.len();
    let mut day: Option<(usize, usize)> = None;
    while end > 0
        invariant
            p@ == ps,
            ps == path@,
            end <= p@.len(),
            path_runs(ps) == scan_runs(ps, end as int, match day {
                Some((a, b)) => Some(ps.subrange(a as int, b as int)),
                None => None,
            }),
            day matches Some((a, b)) ==> a <= b <= p@.len() && b > a && forall|k: int|
                a <= k < b ==> is_digit(#[trigger] ps[k]),
        decreases end,
    {
        let st = find_segment_start(&p, end);
        let (a, b) = find_first_run(&p, st, end);
        let ghost dv = match day {
            Some((a, b)) => Some(ps.subrange(a as int, b as int)),
            None => None,
        };
        let ghost run = ps.subrange(a as int, b as int);
        assert(scan_runs(ps, end as int, dv) == if run.len() > 0 && dv is Some && digits_value(run)
            > 0 {
            Some((run, dv->0))
        } else if st == 0 {
            None
        } else {
            scan_runs(ps, st - 1, if run.len() > 0 && dv is None { Some(run) } else { dv })
        });
        if a < b {
            match day {
                None => {
                    day = Some((a, b));
                },
                Some((da, db)) => {
                    let year = run_value(&p, a, b, u16::MAX as u64);
                    if year > 0 {
                        let d = run_value(&p, da, db, u8::MAX as u64);
                        return Some((year as u16, d as u8));
                    }
                },
            }
        }
        if st == 0 {
            return None;
        }
        end = st - 1;
    }
    None
}


/// Why no puzzle id could be settled on.
#[derive(Debug, Clone, Copy, PartialEq, Eq, Structural)]
pub enum IdError {
    /// The year or the day lies outside the accepted bounds.
    InvalidRange,
    /// The path holds no two digit runs to read a year and a day from.
    UnresolvedPuzzle,
}

/// What validating an id gives.
pub open spec fn validated(year: int, day: int) -> Result<PuzzleId, IdError> {
    if valid_id(year, day) {
        Ok((year as u16, day as u8))
    } else {
        Err(IdError::InvalidRange)
    }
}

/// The id that explicit values, or else the path, settle on.
pub open spec fn resolved_id(year: Option<u16>, day: Option<u8>, p: Seq<char>) -> Result<PuzzleId, IdError> {
    match (year, day) {
        (Some(y), Some(d)) => validated(y as int, d as int),
        _ => match path_id(p) {
            Some((y, d)) => validated(y as int, d as int),
            None => Err(IdError::UnresolvedPuzzle),
        },
    }
}

/// Accept an id whose year and day lie within the accepted bounds.
pub fn validate_puzzle_id(id: PuzzleId) -> (r: Result<PuzzleId, IdError>)
    ensures
        r == validated(id.0 as int, id.1 as int),
{
    let (year, day) = id;
    if FIRST_YEAR <= year && year <= LAST_YEAR && 1 <= day && day <= LAST_DAY {
        Ok((year, day))
    } else {
        Err(IdError::InvalidRange)
    }
}

/// Settle on a puzzle id: the explicit year and day when both are given,
/// else the ones that `path` (most often the working directory) names.
pub fn derive_id(year: Option<u16>, day: Option<u8>, path: &str) -> (r: Result<PuzzleId, IdError>)
    ensures
        r == resolved_id(year, day, path@),
{
    match (year, day) {
        (Some(y), Some(d)) => validate_puzzle_id((y, d)),
        _ => match puzzle_id_from_path(path) {
            Some(id) => validate_puzzle_id(id),
            None => Err(IdError::UnresolvedPuzzle),
        },
    }
}

/// Explicit values within the accepted bounds come back unchanged, whatever
/// the path.
pub proof fn lemma_explicit_id_unchanged(year: u16, day: u8, p: Seq<char>)
    requires
        valid_id(year as int, day as int),
    ensures
        resolved_id(Some(year), Some(day), p) == Ok::<PuzzleId, IdError>((year, day)),
{
}


/// The character of a decimal digit.
pub open spec fn digit_char(d: nat) -> char {
    seq!['0', '1', '2', '3', '4', '5', '6', '7', '8', '9'][d as int]
}

/// A number in decimal notation, without leading zeros.
pub open spec fn decimal(n: nat) -> Seq<char>
    decreases n,
{
    if n < 10 {
        seq![digit_char(n)]
    } else {
        decimal(n / 10).push(digit_char(n % 10))
    }
}

fn digit_str(d: u64) -> (r: &'static str)
    requires
        d < 10,
    ensures
        r@ == seq![digit_char(d as nat)],
{
    proof {
        reveal_strlit("0");
        reveal_strlit("1");
        reveal_strlit("2");
        reveal_strlit("3");
        reveal_strlit("4");
        reveal_strlit("5");
        reveal_strlit("6");
        reveal_strlit("7");
        reveal_strlit("8");
        reveal_strlit("9");
    }
    let r = if d == 0 {
        "0"
    } else if d == 1 {
        "1"
    } else if d == 2 {
        "2"
    } else if d == 3 {
        "3"
    } else if d == 4 {
        "4"
    } else if d == 5 {
        "5"
    } else if d == 6 {
        "6"
    } else if d == 7 {
        "7"
    } else if d == 8 {
        "8"
    } else {
        "9"
    };
    assert(r@ =~= seq![digit_char(d as nat)]);
    r
}

/// `n` in decimal notation.
pub fn decimal_string(n: u64) -> (r: String)
    ensures
        r@ == decimal(n as nat),
    decreases n,
{
    if n < 10 {
        String::from_str(digit_str(n))
    } else {
        let mut s = decimal_string(n / 10);
        s.append(digit_str(n % 10));
        s
    }
}


/// The directory `{year}/dNN` that a puzzle is laid out in, its day written
/// with two digits.
pub open spec fn day_dir(id: PuzzleId) -> Seq<char> {
    decimal(id.0 as nat) + "/d"@ + (if id.1 < 10 {
        "0"@
    } else {
        Seq::empty()
    }) + decimal(id.1 as nat)
}

/// The directory `{year}/dNN` for a puzzle, when one is to be built.
pub fn build_path(id: &PuzzleId, build: bool) -> (r: Option<String>)
    ensures
        build ==> r is Some && r->0@ == day_dir(*id),
        !build ==> r is None,
{
    if build {
        let mut path = decimal_string(id.0 as u64);
        path.append("/d");
        if id.1 < 10 {
            path.append("0");
        }
        path.append(decimal_string(id.1 as u64).as_str());
        assert(path@ =~= day_dir(*id));
        Some(path)
    } else {
        None
    }
}

} // verus!
