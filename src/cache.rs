//! The local cache: where each puzzle's texts are kept, and how an entry is
//! read back. One directory per puzzle, `root/{year}/{day}`, holds up to five
//! files, each present or not on its own.
use vstd::prelude::*;
use vstd::string::StringExecFns;
use crate::id::{decimal, decimal_string, PuzzleId};
use crate::puzzle::{text_of, Puzzle, PuzzleModel};

verus! {

/// A file of a cache entry: where it lies and what it holds.
#[derive(Debug, Clone)]
pub struct CacheFile {
    pub path: String,
    pub content: String,
}

/// The files of an entry as `(path, content)` pairs.
pub open spec fn files_model(v: Seq<CacheFile>) -> Seq<(Seq<char>, Seq<char>)> {
    v.map_values(|f: CacheFile| (f.path@, f.content@))
}

/// The texts that an entry keeps, one file each.
#[derive(Debug, Clone, Copy, PartialEq, Eq, Structural)]
pub enum Field {
    Q1,
    Q2,
    A1,
    A2,
    Input,
}

pub open spec fn field_name(f: Field) -> Seq<char> {
    match f {
        Field::Q1 => "q1"@,
        Field::Q2 => "q2"@,
        Field::A1 => "a1"@,
        Field::A2 => "a2"@,
        Field::Input => "in"@,
    }
}

/// The directory of a puzzle's entry.
pub open spec fn entry_dir(root: Seq<char>, id: PuzzleId) -> Seq<char> {
    root + "/"@ + decimal(id.0 as nat) + "/"@ + decimal(id.1 as nat)
}

/// The file that keeps one text of a puzzle.
pub open spec fn field_path(root: Seq<char>, id: PuzzleId, f: Field) -> Seq<char> {
    entry_dir(root, id) + "/"@ + field_name(f)
}

/// Every file that an entry may hold, in the order of the fields.
pub open spec fn entry_files(root: Seq<char>, id: PuzzleId) -> Seq<Seq<char>> {
    seq![
        field_path(root, id, Field::Q1),
        field_path(root, id, Field::Q2),
        field_path(root, id, Field::A1),
        field_path(root, id, Field::A2),
        field_path(root, id, Field::Input),
    ]
}

/// The write of one optional text: nothing when it is absent.
pub open spec fn text_write(root: Seq<char>, id: PuzzleId, f: Field, t: Option<Seq<char>>) -> Seq<(Seq<char>, Seq<char>)> {
    match t {
        Some(t) => seq![(field_path(root, id, f), t)],
        None => Seq::empty(),
    }
}

/// The files that storing a puzzle writes: one per present text.
pub open spec fn puzzle_writes(root: Seq<char>, id: PuzzleId, p: PuzzleModel) -> Seq<(Seq<char>, Seq<char>)> {
    text_write(root, id, Field::Q1, p.q1) + text_write(root, id, Field::Q2, p.q2) + text_write(
        root,
        id,
        Field::A1,
        p.a1,
    ) + text_write(root, id, Field::A2, p.a2)
}

/// What the files say lies at `path`: the last one written there.
pub open spec fn lookup(files: Seq<(Seq<char>, Seq<char>)>, path: Seq<char>) -> Option<Seq<char>>
    decreases files.len(),
{
    if files.len() == 0 {
        None
    } else if files.last().0 == path {
        Some(files.last().1)
    } else {
        lookup(files.drop_last(), path)
    }
}

/// The puzzle that an entry holds; `None` for an entry that does not exist.
pub open spec fn entry_puzzle(root: Seq<char>, id: PuzzleId, entry: Option<Seq<(Seq<char>, Seq<char>)>>) -> Option<PuzzleModel> {
    match entry {
        Some(fs) => Some(
            PuzzleModel {
                id,
                q1: lookup(fs, field_path(root, id, Field::Q1)),
                q2: lookup(fs, field_path(root, id, Field::Q2)),
                a1: lookup(fs, field_path(root, id, Field::A1)),
                a2: lookup(fs, field_path(root, id, Field::A2)),
            },
        ),
        None => None,
    }
}

pub open spec fn entry_model(entry: Option<Vec<CacheFile>>) -> Option<Seq<(Seq<char>, Seq<char>)>> {
    match entry {
        Some(v) => Some(files_model(v@)),
        None => None,
    }
}

/// File system cache to store downloaded puzzles, rooted at a directory.
#[derive(Debug, Clone)]
pub struct Cache {
    pub root: String,
}

fn field_str(f: Field) -> (r: &'static str)
    ensures
        r@ == field_name(f),
{
    match f {
        Field::Q1 => "q1",
        Field::Q2 => "q2",
        Field::A1 => "a1",
        Field::A2 => "a2",
        Field::Input => "in",
    }
}

fn find_file(files: &Vec<CacheFile>, path: &String) -> (r: Option<String>)
    ensures
        text_of(r) == lookup(files_model(files@), path@),
{
    let mut i: usize = files.len();
    assert(files@.subrange(0, i as int) =~= files@);
    while i > 0
        invariant
            i <= files@.len(),
            lookup(files_model(files@), path@) == lookup(files_model(files@.subrange(0, i as int)), path@),
        decreases i,
    {
        let ghost prefix = files_model(files@.subrange(0, i as int));
        assert(prefix.last() == (files@[i - 1].path@, files@[i - 1].content@));
        assert(prefix.drop_last() =~= files_model(files@.subrange(0, i - 1)));
        if files[i - 1].path == *path {
            return Some(files[i - 1].content.clone());
        }
        i = i - 1;
    }
    None
}

impl Cache {
    pub fn new(root: String) -> (r: Cache)
        ensures
            r.root@ == root@,
    {
        Cache { root }
    }

    /// The directory of a puzzle's entry.
    pub fn mkpath(&self, id: &PuzzleId) -> (r: String)
        ensures
            r@ == entry_dir(self.root@, *id),
    {
        let mut path = self.root.clone();
        path.append("/");
        path.append(decimal_string(id.0 as u64).as_str());
        path.append("/");
        path.append(decimal_string(id.1 as u64).as_str());
        assert(path@ =~= entry_dir(self.root@, *id));
        path
    }

    /// The file that keeps one text of a puzzle.
    pub fn file_path(&self, id: &PuzzleId, field: Field) -> (r: String)
        ensures
            r@ == field_path(self.root@, *id, field),
    {
        let mut path = self.mkpath(id);
        path.append("/");
        path.append(field_str(field));
        path
    }

    /// Every file that an entry may hold.
    pub fn entry_paths(&self, id: &PuzzleId) -> (r: Vec<String>)
        ensures
            r@.map_values(|s: String| s@) == entry_files(self.root@, *id),
    {
        let mut r: Vec<String> = Vec::new();
        r.push(self.file_path(id, Field::Q1));
        r.push(self.file_path(id, Field::Q2));
        r.push(self.file_path(id, Field::A1));
        r.push(self.file_path(id, Field::A2));
        r.push(self.file_path(id, Field::Input));
        assert(r@.map_values(|s: String| s@) =~= entry_files(self.root@, *id));
        r
    }

    fn push_text(&self, files: &mut Vec<CacheFile>, id: &PuzzleId, field: Field, t: &Option<String>)
        ensures
            files_model(final(files)@) == files_model(old(files)@) + text_write(
                self.root@,
                *id,
                field,
                text_of(*t),
            ),
    {
        if let Some(text) = t {
            files.push(CacheFile { path: self.file_path(id, field), content: text.clone() });
        }
        assert(files_model(files@) =~= files_model(old(files)@) + text_write(
            self.root@,
            *id,
            field,
            text_of(*t),
        ));
    }

    /// The files to write to store a puzzle under `id`: one per present text;
    /// an absent text is not written at all.
    pub fn insert(&self, id: &PuzzleId, puzzle: &Puzzle) -> (r: Vec<CacheFile>)
        ensures
            files_model(r@) == puzzle_writes(self.root@, *id, puzzle.model()),
    {
        let mut files: Vec<CacheFile> = Vec::new();
        assert(files_model(files@) =~= Seq::empty());
        self.push_text(&mut files, id, Field::Q1, &puzzle.q1);
        self.push_text(&mut files, id, Field::Q2, &puzzle.q2);
        self.push_text(&mut files, id, Field::A1, &puzzle.a1);
        self.push_text(&mut files, id, Field::A2, &puzzle.a2);
        files
    }

    /// The file to write to store a puzzle's input.
    pub fn insert_input(&self, id: &PuzzleId, input: &str) -> (r: CacheFile)
        ensures
            r.path@ == field_path(self.root@, *id, Field::Input),
            r.content@ == input@,
    {
        CacheFile { path: self.file_path(id, Field::Input), content: String::from_str(input) }
    }

    /// The file to write to record a confirmed answer to one part.
    pub fn update_answer(&self, id: &PuzzleId, part: u8, answer: &str) -> (r: CacheFile)
        requires
            part == 1 || part == 2,
        ensures
            r.path@ == field_path(self.root@, *id, answer_field(part)),
            r.content@ == answer@,
    {
        let field = if part == 1 { Field::A1 } else { Field::A2 };
        CacheFile { path: self.file_path(id, field), content: String::from_str(answer) }
    }

    /// The puzzle that an entry holds, from whichever of its texts are
    /// present; `None` where the entry does not exist.
    pub fn get(&self, id: &PuzzleId, entry: &Option<Vec<CacheFile>>) -> (r: Option<Puzzle>)
        ensures
            match r {
                Some(p) => entry_puzzle(self.root@, *id, entry_model(*entry)) == Some(p.model()),
                None => entry_puzzle(self.root@, *id, entry_model(*entry)) is None,
            },
    {
        match entry {
            Some(files) => Some(
                Puzzle {
                    id: *id,
                    q1: find_file(files, &self.file_path(id, Field::Q1)),
                    q2: find_file(files, &self.file_path(id, Field::Q2)),
                    a1: find_file(files, &self.file_path(id, Field::A1)),
                    a2: find_file(files, &self.file_path(id, Field::A2)),
                },
            ),
            None => None,
        }
    }

    /// The input that an entry holds.
    pub fn get_input(&self, id: &PuzzleId, entry: &Option<Vec<CacheFile>>) -> (r: Option<String>)
        ensures
            text_of(r) == match entry_model(*entry) {
                Some(fs) => lookup(fs, field_path(self.root@, *id, Field::Input)),
                None => None,
            },
    {
        match entry {
            Some(files) => find_file(files, &self.file_path(id, Field::Input)),
            None => None,
        }
    }

    /// The answers that an entry holds, part one first.
    pub fn get_answers(&self, id: &PuzzleId, entry: &Option<Vec<CacheFile>>) -> (r: (
        Option<String>,
        Option<String>,
    ))
        ensures
            text_of(r.0) == entry_text(self.root@, *id, entry_model(*entry), Field::A1),
            text_of(r.1) == entry_text(self.root@, *id, entry_model(*entry), Field::A2),
    {
        match entry {
            Some(files) => (
                find_file(files, &self.file_path(id, Field::A1)),
                find_file(files, &self.file_path(id, Field::A2)),
            ),
            None => (None, None),
        }
    }
}

/// The field that keeps the answer to a part.
pub open spec fn answer_field(part: u8) -> Field {
    if part == 1 {
        Field::A1
    } else {
        Field::A2
    }
}

/// One text of an entry, absent where the entry or its file is.
pub open spec fn entry_text(root: Seq<char>, id: PuzzleId, entry: Option<Seq<(Seq<char>, Seq<char>)>>, f: Field) -> Option<Seq<char>> {
    match entry {
        Some(fs) => lookup(fs, field_path(root, id, f)),
        None => None,
    }
}


proof fn lemma_lookup_concat(a: Seq<(Seq<char>, Seq<char>)>, b: Seq<(Seq<char>, Seq<char>)>, k: Seq<char>)
    ensures
        lookup(a + b, k) == if lookup(b, k) is Some {
            lookup(b, k)
        } else {
            lookup(a, k)
        },
    decreases b.len(),
{
    if b.len() == 0 {
        assert(a + b =~= a);
    } else {
        assert((a + b).drop_last() =~= a + b.drop_last());
        assert((a + b).last() == b.last());
        lemma_lookup_concat(a, b.drop_last(), k);
    }
}

proof fn lemma_lookup_absent(a: Seq<(Seq<char>, Seq<char>)>, k: Seq<char>)
    requires
        forall|i: int| 0 <= i < a.len() ==> (#[trigger] a[i]).0 != k,
    ensures
        lookup(a, k) is None,
    decreases a.len(),
{
    if a.len() > 0 {
        assert(a.last() == a[a.len() - 1]);
        assert forall|i: int| 0 <= i < a.drop_last().len() implies (#[trigger] a.drop_last()[i]).0 != k by {
            assert(a.drop_last()[i] == a[i]);
        }
        lemma_lookup_absent(a.drop_last(), k);
    }
}

proof fn lemma_field_paths_distinct(root: Seq<char>, id: PuzzleId, f: Field, g: Field)
    requires
        f != g,
    ensures
        field_path(root, id, f) != field_path(root, id, g),
{
    reveal_strlit("q1");
    reveal_strlit("q2");
    reveal_strlit("a1");
    reveal_strlit("a2");
    reveal_strlit("in");
    let x = entry_dir(root, id) + "/"@;
    let n = x.len() as int;
    assert(field_path(root, id, f) =~= x + field_name(f));
    assert(field_path(root, id, g) =~= x + field_name(g));
    if field_path(root, id, f) == field_path(root, id, g) {
        assert((x + field_name(f)).subrange(n, n + 2) =~= field_name(f));
        assert((x + field_name(g)).subrange(n, n + 2) =~= field_name(g));
        assert(field_name(f) == field_name(g));
        assert(field_name(f)[0] == field_name(g)[0]);
        assert(field_name(f)[1] == field_name(g)[1]);
    }
}

proof fn lemma_lookup_text_write(root: Seq<char>, id: PuzzleId, f: Field, t: Option<Seq<char>>, g: Field)
    ensures
        lookup(text_write(root, id, f, t), field_path(root, id, g)) == if f == g {
            t
        } else {
            None
        },
{
    if f != g {
        lemma_field_paths_distinct(root, id, f, g);
    }
    let k = field_path(root, id, g);
    assert(lookup(Seq::<(Seq<char>, Seq<char>)>::empty(), k) is None);
    if t is Some {
        assert(text_write(root, id, f, t).drop_last() =~= Seq::<(Seq<char>, Seq<char>)>::empty());
        assert(text_write(root, id, f, t).last() == (field_path(root, id, f), t->0));
    }
}

proof fn lemma_lookup_puzzle_writes(root: Seq<char>, id: PuzzleId, p: PuzzleModel, prior: Seq<(Seq<char>, Seq<char>)>, g: Field)
    requires
        g != Field::Input,
        lookup(prior, field_path(root, id, g)) is None,
    ensures
        lookup(prior + puzzle_writes(root, id, p), field_path(root, id, g)) == match g {
            Field::Q1 => p.q1,
            Field::Q2 => p.q2,
            Field::A1 => p.a1,
            _ => p.a2,
        },
{
    let k = field_path(root, id, g);
    let w1 = text_write(root, id, Field::Q1, p.q1);
    let w2 = text_write(root, id, Field::Q2, p.q2);
    let w3 = text_write(root, id, Field::A1, p.a1);
    let w4 = text_write(root, id, Field::A2, p.a2);
    lemma_lookup_text_write(root, id, Field::Q1, p.q1, g);
    lemma_lookup_text_write(root, id, Field::Q2, p.q2, g);
    lemma_lookup_text_write(root, id, Field::A1, p.a1, g);
    lemma_lookup_text_write(root, id, Field::A2, p.a2, g);
    assert(prior + puzzle_writes(root, id, p) =~= prior + w1 + w2 + w3 + w4);
    lemma_lookup_concat(prior, w1, k);
    lemma_lookup_concat(prior + w1, w2, k);
    lemma_lookup_concat(prior + w1 + w2, w3, k);
    lemma_lookup_concat(prior + w1 + w2 + w3, w4, k);
}

/// Whether `path` is the file of one of a puzzle's four texts.
pub open spec fn is_puzzle_file(root: Seq<char>, id: PuzzleId, path: Seq<char>) -> bool {
    ||| path == field_path(root, id, Field::Q1)
    ||| path == field_path(root, id, Field::Q2)
    ||| path == field_path(root, id, Field::A1)
    ||| path == field_path(root, id, Field::A2)
}

/// Storing a puzzle and reading its entry back gives the same puzzle, for
/// any set of present texts, provided the entry held no puzzle text before
/// (a text left out is not written, so an older file would show through).
pub proof fn lemma_cache_round_trip(root: Seq<char>, id: PuzzleId, p: PuzzleModel, prior: Seq<(Seq<char>, Seq<char>)>)
    requires
        p.id == id,
        forall|i: int| 0 <= i < prior.len() ==> !is_puzzle_file(root, id, (#[trigger] prior[i]).0),
    ensures
        entry_puzzle(root, id, Some(prior + puzzle_writes(root, id, p))) == Some(p),
{
    assert forall|g: Field| g != Field::Input implies lookup(prior, field_path(root, id, g)) is None by {
        assert forall|i: int| 0 <= i < prior.len() implies (#[trigger] prior[i]).0 != field_path(root, id, g) by {
            assert(!is_puzzle_file(root, id, prior[i].0));
        }
        lemma_lookup_absent(prior, field_path(root, id, g));
    }
    lemma_lookup_puzzle_writes(root, id, p, prior, Field::Q1);
    lemma_lookup_puzzle_writes(root, id, p, prior, Field::Q2);
    lemma_lookup_puzzle_writes(root, id, p, prior, Field::A1);
    lemma_lookup_puzzle_writes(root, id, p, prior, Field::A2);
}

} // verus!
