use libaoc::{Cache, CacheFile, Field, Puzzle};

fn cache() -> Cache {
    Cache::new("/home/me/.cache/aoc".to_string())
}

fn puzzle(q1: Option<&str>, q2: Option<&str>, a1: Option<&str>, a2: Option<&str>) -> Puzzle {
    Puzzle {
        id: (2017, 8),
        q1: q1.map(String::from),
        q2: q2.map(String::from),
        a1: a1.map(String::from),
        a2: a2.map(String::from),
    }
}

fn same(a: &Puzzle, b: &Puzzle) -> bool {
    a.id == b.id && a.q1 == b.q1 && a.q2 == b.q2 && a.a1 == b.a1 && a.a2 == b.a2
}

#[test]
fn entry_layout() {
    let c = cache();
    assert_eq!(c.mkpath(&(2017, 8)), "/home/me/.cache/aoc/2017/8");
    assert_eq!(c.file_path(&(2017, 8), Field::Q1), "/home/me/.cache/aoc/2017/8/q1");
    assert_eq!(c.file_path(&(2017, 8), Field::Input), "/home/me/.cache/aoc/2017/8/in");
    assert_eq!(
        c.entry_paths(&(2015, 25)),
        vec![
            "/home/me/.cache/aoc/2015/25/q1",
            "/home/me/.cache/aoc/2015/25/q2",
            "/home/me/.cache/aoc/2015/25/a1",
            "/home/me/.cache/aoc/2015/25/a2",
            "/home/me/.cache/aoc/2015/25/in",
        ]
    );
}

#[test]
fn insert_writes_present_texts_only() {
    let c = cache();
    let files = c.insert(&(2017, 8), &puzzle(Some("first"), None, Some(""), None));
    assert_eq!(files.len(), 2);
    assert_eq!(files[0].path, "/home/me/.cache/aoc/2017/8/q1");
    assert_eq!(files[0].content, "first");
    assert_eq!(files[1].path, "/home/me/.cache/aoc/2017/8/a1");
    assert_eq!(files[1].content, "");
}

#[test]
fn round_trip_every_subset() {
    let c = cache();
    let texts = ["prompt one", "prompt two", "111", "222"];
    for mask in 0u32..16 {
        let pick = |i: usize| if mask & (1 << i) != 0 { Some(texts[i]) } else { None };
        let p = puzzle(pick(0), pick(1), pick(2), pick(3));
        let files = c.insert(&(2017, 8), &p);
        let back = c.get(&(2017, 8), &Some(files)).expect("entry exists");
        assert!(same(&back, &p), "mask {mask}");
    }
}

#[test]
fn missing_entry_reads_as_none() {
    assert!(cache().get(&(2017, 8), &None).is_none());
}

#[test]
fn empty_entry_reads_as_empty_puzzle() {
    let p = cache().get(&(2017, 8), &Some(Vec::new())).expect("entry exists");
    assert!(same(&p, &puzzle(None, None, None, None)));
}

#[test]
fn later_file_wins_and_other_entries_ignored() {
    let c = cache();
    let files = vec![
        CacheFile { path: "/home/me/.cache/aoc/2017/8/q1".to_string(), content: "old".to_string() },
        CacheFile { path: "/home/me/.cache/aoc/2017/9/q2".to_string(), content: "other".to_string() },
        CacheFile { path: "/home/me/.cache/aoc/2017/8/q1".to_string(), content: "new".to_string() },
    ];
    let p = c.get(&(2017, 8), &Some(files)).unwrap();
    assert_eq!(p.q1, Some("new".to_string()));
    assert_eq!(p.q2, None);
}

#[test]
fn input_and_answers() {
    let c = cache();
    let input = c.insert_input(&(2020, 1), "1721\n979\n");
    assert_eq!(input.path, "/home/me/.cache/aoc/2020/1/in");
    let answer = c.update_answer(&(2020, 1), 2, "241861950");
    assert_eq!(answer.path, "/home/me/.cache/aoc/2020/1/a2");
    let entry = Some(vec![input, answer]);
    assert_eq!(c.get_input(&(2020, 1), &entry), Some("1721\n979\n".to_string()));
    assert_eq!(c.get_answers(&(2020, 1), &entry), (None, Some("241861950".to_string())));
    assert_eq!(c.get_input(&(2020, 1), &None), None);
}

#[test]
fn view_with_and_without_answers() {
    let p = puzzle(Some("Q1"), Some("Q2"), Some("7"), None);
    assert_eq!(p.view(false), "Q1\n\nQ2\n");
    assert_eq!(p.view(true), "Q1\n**Answer**: `7`.\n\nQ2\n");
    assert_eq!(puzzle(None, None, Some("7"), None).view(true), "");
}

#[test]
fn staleness() {
    assert!(!puzzle(Some("q"), None, None, None).is_stale());
    assert!(puzzle(Some("q"), None, Some("1"), None).is_stale());
    assert!(puzzle(Some("q"), Some("r"), None, None).is_stale());
    assert!(!puzzle(Some("q"), Some("r"), Some("1"), None).is_stale());
}
