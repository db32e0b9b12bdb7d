use ollama_workflows::entry::Entry;
use ollama_workflows::errors::FileSystemError;
use ollama_workflows::memory::{FileSystem, MemoryInputType, ProgramMemory, transform_query};

fn text(s: &str) -> Entry {
    Entry::Text(s.to_owned())
}

#[test]
fn read_after_write_returns_value() {
    let mut m = ProgramMemory::new();
    m.write("k", text("v"));
    assert_eq!(m.read("k").unwrap().to_string(), "v");
    m.write("k", text("v2"));
    assert_eq!(m.read("k").unwrap().to_string(), "v2");
    assert!(m.read("other").is_none());
}

#[test]
fn stack_is_lifo() {
    let mut m = ProgramMemory::new();
    m.push("s", text("a"));
    m.push("s", text("b"));
    assert_eq!(m.pop("s").unwrap().to_string(), "b");
    assert_eq!(m.pop("s").unwrap().to_string(), "a");
    assert!(m.pop("s").is_none());
}

#[test]
fn size_counts_pushes_minus_pops() {
    let mut m = ProgramMemory::new();
    assert_eq!(m.size("s"), 0);
    m.push("s", text("a"));
    m.push("s", text("b"));
    m.push("s", text("c"));
    assert_eq!(m.size("s"), 3);
    m.pop("s");
    assert_eq!(m.size("s"), 2);
    m.pop("s");
    m.pop("s");
    assert_eq!(m.size("s"), 0);
    m.pop("s");
    assert_eq!(m.size("s"), 0);
}

#[test]
fn peek_past_end_returns_none() {
    let mut m = ProgramMemory::new();
    m.push("s", text("a"));
    assert_eq!(m.peek("s", 0).unwrap().to_string(), "a");
    assert!(m.peek("s", 1).is_none());
    assert!(m.peek("missing", 0).is_none());
}

#[test]
fn pop_of_missing_stack_returns_none() {
    let mut m = ProgramMemory::new();
    assert!(m.pop("nothing").is_none());
}

#[test]
fn get_all_snapshots_in_order() {
    let mut m = ProgramMemory::new();
    assert!(m.get_all("s").is_none());
    m.push("s", text("a"));
    m.push("s", text("b"));
    let all = m.get_all("s").unwrap();
    assert_eq!(all.len(), 2);
    assert_eq!(all[0].to_string(), "a");
    assert_eq!(all[1].to_string(), "b");
}

#[test]
fn external_memory_seeds_cache_and_stacks() {
    let mut m = ProgramMemory::new();
    let ext = vec![
        ("single".to_owned(), MemoryInputType::Entry(text("one"))),
        (
            "stacked".to_owned(),
            MemoryInputType::Page(vec![text("a"), text("b")]),
        ),
    ];
    m.read_external_memory(&ext);
    assert_eq!(m.read("single").unwrap().to_string(), "one");
    assert_eq!(m.size("stacked"), 2);
    assert_eq!(m.pop("stacked").unwrap().to_string(), "b");
}

#[test]
fn insert_skips_short_chunks() {
    let mut m = ProgramMemory::new();
    m.insert(&text("tiny chunk")).unwrap();
    assert_eq!(m.chunks().len(), 0);
    m.insert(&text(
        "This sentence is comfortably longer than twenty five bytes and is kept.",
    ))
    .unwrap();
    assert_eq!(m.chunks().len(), 1);
}

#[test]
fn insert_rejects_non_string_json() {
    let mut m = ProgramMemory::new();
    let doc = Entry::try_value_or_str("{\"a\":1}");
    assert!(m.insert(&doc).is_err());
    assert_eq!(m.chunks().len(), 0);
}

#[test]
fn have_similar_rejects_invalid_threshold() {
    let fs = FileSystem::new();
    let scores: Vec<i64> = Vec::new();
    match fs.have_similar(&scores, Some(1000001)) {
        Err(FileSystemError::InvalidThreshold(t)) => assert_eq!(t, 1000001),
        _ => panic!("expected an invalid-threshold error"),
    }
    // at the facade, the error folds to nothing
    let m = ProgramMemory::new();
    assert!(m.have_similar(&scores, Some(2000000)).is_none());
}

#[test]
fn have_similar_compares_against_threshold() {
    let mut fs = FileSystem::new();
    fs.add(&text(
        "A passage that is long enough to be stored as one retrievable chunk.",
    ))
    .unwrap();
    assert_eq!(fs.have_similar(&vec![900000], Some(850000)).unwrap(), true);
    assert_eq!(fs.have_similar(&vec![800000], Some(850000)).unwrap(), false);
    assert_eq!(fs.have_similar(&vec![900000], None).unwrap(), true);
}

#[test]
fn search_orders_by_descending_score() {
    let mut fs = FileSystem::new();
    fs.add(&text(
        "First passage, long enough to be stored as one chunk on its own.",
    ))
    .unwrap();
    fs.add(&text(
        "Second passage, also long enough to be stored as another chunk.",
    ))
    .unwrap();
    let hits = fs.search(&vec![100000, 900000]);
    assert_eq!(hits.len(), 2);
    let first = hits[0].to_string();
    assert!(first.contains("Second passage"));
    assert!(first.contains("\"similarity\":0.900000"));
    let second = hits[1].to_string();
    assert!(second.contains("First passage"));
    assert!(second.contains("\"similarity\":0.100000"));
}

#[test]
fn query_transform_prefixes_instruction() {
    assert_eq!(
        transform_query("why is the sky blue"),
        "Represent this sentence for searching relevant passages: why is the sky blue"
    );
}
