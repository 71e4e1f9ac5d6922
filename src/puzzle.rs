//! A puzzle's known state: its prompts and the answers given so far.
use vstd::prelude::*;
use vstd::string::StringExecFns;
use crate::id::PuzzleId;

verus! {

/// One puzzle as far as it is known. Each text is absent until it has been
/// fetched (prompts) or solved (answers); an empty text is not an absent one.
#[derive(Debug)]
pub struct Puzzle {
    pub id: PuzzleId,
    pub q1: Option<String>,
    pub q2: Option<String>,
    pub a1: Option<String>,
    pub a2: Option<String>,
}

impl Clone for Puzzle {
    fn clone(&self) -> (r: Puzzle) {
        self.duplicate()
    }
}

/// A copy of an optional text.
pub fn copy_text(t: &Option<String>) -> (r: Option<String>)
    ensures
        text_of(r) == text_of(*t),
{
    match t {
        Some(s) => Some(s.clone()),
        None => None,
    }
}

/// A puzzle with its texts as character sequences.
pub struct PuzzleModel {
    pub id: PuzzleId,
    pub q1: Option<Seq<char>>,
    pub q2: Option<Seq<char>>,
    pub a1: Option<Seq<char>>,
    pub a2: Option<Seq<char>>,
}

pub open spec fn text_of(t: Option<String>) -> Option<Seq<char>> {
    match t {
        Some(s) => Some(s@),
        None => None,
    }
}

impl Puzzle {
    pub open spec fn model(&self) -> PuzzleModel {
        PuzzleModel {
            id: self.id,
            q1: text_of(self.q1),
            q2: text_of(self.q2),
            a1: text_of(self.a1),
            a2: text_of(self.a2),
        }
    }

    /// A copy of the puzzle.
    pub fn duplicate(&self) -> (r: Puzzle)
        ensures
            r.model() == self.model(),
    {
        Puzzle {
            id: self.id,
            q1: copy_text(&self.q1),
            q2: copy_text(&self.q2),
            a1: copy_text(&self.a1),
            a2: copy_text(&self.a2),
        }
    }

    /// Whether the puzzle breaks the rule that part two shows exactly when
    /// part one is answered: an answer to part one without the prompt of part
    /// two (part two has become visible since), or the reverse (invalid).
    pub fn is_stale(&self) -> (r: bool)
        ensures
            r == stale(self.model()),
    {
        self.a1.is_some() != self.q2.is_some()
    }

    /// The prompts as text, each followed by its answer when `show_answers`
    /// holds and the answer is known.
    pub fn view(&self, show_answers: bool) -> (r: String)
        ensures
            r@ == view_text(self.model(), show_answers),
    {
        let mut buf = String::new();
        append_part(&mut buf, &self.q1, &self.a1, show_answers, "");
        append_part(&mut buf, &self.q2, &self.a2, show_answers, "\n");
        buf
    }
}

/// Stale: part one answered but part two not shown, or the reverse.
pub open spec fn stale(m: PuzzleModel) -> bool {
    (m.a1 is Some) != (m.q2 is Some)
}

/// One part of the view: the prompt after `lead`, then the answer line.
pub open spec fn part_text(q: Option<Seq<char>>, a: Option<Seq<char>>, show: bool, lead: Seq<char>) -> Seq<char> {
    match q {
        Some(q) => lead + q + "\n"@ + match a {
            Some(a) if show => "**Answer**: `"@ + a + "`.\n"@,
            _ => Seq::<char>::empty(),
        },
        None => Seq::<char>::empty(),
    }
}

pub open spec fn view_text(m: PuzzleModel, show: bool) -> Seq<char> {
    part_text(m.q1, m.a1, show, ""@) + part_text(m.q2, m.a2, show, "\n"@)
}

fn append_part(buf: &mut String, q: &Option<String>, a: &Option<String>, show: bool, lead: &str)
    ensures
        final(buf)@ == old(buf)@ + part_text(text_of(*q), text_of(*a), show, lead@),
{
    if let Some(qs) = q {
        buf.append(lead);
        buf.append(qs.as_str());
        buf.append("\n");
        if show {
            if let Some(ans) = a {
                buf.append("**Answer**: `");
                buf.append(ans.as_str());
                buf.append("`.\n");
            }
        }
    }
    assert(buf@ =~= old(buf)@ + part_text(text_of(*q), text_of(*a), show, lead@));
}

} // verus!
