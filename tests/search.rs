use explorer_core::path::clean_path;
use explorer_core::search::{
    matches_lowered, name_matches_query, search_files, SearchEngine, SearchEvent, WalkEntry,
};

fn entry(name: &str, path: &str, is_file: bool) -> WalkEntry {
    WalkEntry {
        name: name.to_string(),
        path: path.to_string(),
        is_file,
        size: 7,
        modified: 1_700_000_000,
    }
}

fn result_count(evs: &[SearchEvent]) -> usize {
    evs.iter().filter(|e| matches!(e, SearchEvent::Result { .. })).count()
}

fn finished(evs: &[SearchEvent]) -> (u32, usize, bool) {
    match evs.last() {
        Some(SearchEvent::Finished { search_id, total_matches, has_more }) => {
            (*search_id, *total_matches, *has_more)
        }
        _ => panic!("stream does not end with Finished"),
    }
}

fn result_names(evs: &[SearchEvent]) -> Vec<String> {
    evs.iter()
        .filter_map(|e| match e {
            SearchEvent::Result { name, .. } => Some(name.clone()),
            _ => None,
        })
        .collect()
}

fn project_walk() -> Vec<WalkEntry> {
    vec![
        entry("proj", "/tmp/proj", false),
        entry("readme.txt", "/tmp/proj/readme.txt", true),
        entry("Reader.go", "/tmp/proj/Reader.go", true),
        entry("src", "/tmp/proj/src", false),
        entry("reader_test.rs", "/tmp/proj/src/reader_test.rs", true),
    ]
}

fn many_matches(n: usize) -> Vec<WalkEntry> {
    (0..n)
        .map(|i| {
            let name = format!("match_{}.txt", i);
            let path = format!("/data/{}", name);
            entry(&name, &path, true)
        })
        .collect()
}

#[test]
fn project_scenario_matches_case_insensitively() {
    let evs = search_files("read".to_string(), 7, project_walk());
    assert_eq!(
        evs[0],
        SearchEvent::Started { query: "read".to_string(), search_id: 7 }
    );
    assert_eq!(result_names(&evs), vec!["readme.txt", "Reader.go", "reader_test.rs"]);
    assert_eq!(finished(&evs), (7, 3, false));
    assert_eq!(evs.len(), 5);
}

#[test]
fn result_event_carries_entry_fields() {
    let evs = search_files("READ".to_string(), 1, project_walk());
    assert_eq!(
        evs[1],
        SearchEvent::Result {
            search_id: 1,
            path: "/tmp/proj/readme.txt".to_string(),
            name: "readme.txt".to_string(),
            is_file: true,
            size: 7,
            modified: 1_700_000_000,
        }
    );
}

#[test]
fn under_cap_everything_is_delivered() {
    let evs = search_files("match".to_string(), 2, many_matches(45));
    assert_eq!(result_count(&evs), 45);
    assert_eq!(finished(&evs), (2, 45, false));
}

#[test]
fn exactly_at_cap_nothing_left_over() {
    let evs = search_files("match".to_string(), 2, many_matches(100));
    assert_eq!(result_count(&evs), 100);
    assert_eq!(finished(&evs), (2, 100, false));
}

#[test]
fn one_over_cap_reports_more() {
    let evs = search_files("match".to_string(), 2, many_matches(101));
    assert_eq!(result_count(&evs), 100);
    assert_eq!(finished(&evs), (2, 101, true));
}

#[test]
fn hundred_fifty_matches_are_capped() {
    let evs = search_files("MATCH".to_string(), 9, many_matches(150));
    assert_eq!(result_count(&evs), 100);
    assert_eq!(finished(&evs), (9, 150, true));
    let names = result_names(&evs);
    assert_eq!(names[0], "match_0.txt");
    assert_eq!(names[99], "match_99.txt");
}

#[test]
fn no_match_gives_start_and_finish_only() {
    let evs = search_files("zzz".to_string(), 4, project_walk());
    assert_eq!(evs.len(), 2);
    assert!(matches!(evs[0], SearchEvent::Started { .. }));
    assert_eq!(finished(&evs), (4, 0, false));
}

#[test]
fn empty_walk_gives_start_and_finish_only() {
    let evs = search_files("x".to_string(), 4, Vec::new());
    assert_eq!(evs.len(), 2);
    assert_eq!(finished(&evs), (4, 0, false));
}

#[test]
fn results_sit_between_start_and_finish() {
    let evs = search_files("match".to_string(), 3, many_matches(30));
    let last = evs.len() - 1;
    for (i, e) in evs.iter().enumerate() {
        match e {
            SearchEvent::Started { .. } => assert_eq!(i, 0),
            SearchEvent::Finished { .. } => assert_eq!(i, last),
            SearchEvent::Result { .. } => assert!(i > 0 && i < last),
        }
    }
}

#[test]
fn engine_sends_full_batches_while_walking() {
    let mut engine = SearchEngine::new(5, "match".to_string());
    let walk = many_matches(45);
    let mut batches = Vec::new();
    for e in walk {
        let out = engine.on_entry(e);
        if !out.is_empty() {
            batches.push(out.len());
        }
    }
    assert_eq!(batches, vec![20, 20]);
    assert_eq!(engine.total_matches(), 45);
    let tail = engine.finish();
    assert_eq!(result_count(&tail), 5);
    assert_eq!(finished(&tail), (5, 45, false));
}

#[test]
fn engine_keeps_counting_past_cap() {
    let mut engine = SearchEngine::new(5, "match".to_string());
    let mut sent = 0;
    for e in many_matches(130) {
        sent += engine.on_entry(e).len();
    }
    assert_eq!(sent, 100);
    assert_eq!(engine.total_matches(), 130);
    let tail = engine.finish();
    assert_eq!(tail.len(), 1);
    assert_eq!(finished(&tail), (5, 130, true));
}

#[test]
fn interleaved_searches_keep_their_own_ids() {
    let mut a = SearchEngine::new(1, "match".to_string());
    let mut b = SearchEngine::new(2, "match".to_string());
    let mut got_a = vec![a.started_event()];
    let mut got_b = vec![b.started_event()];
    for (x, y) in many_matches(40).into_iter().zip(many_matches(40)) {
        got_a.extend(a.on_entry(x));
        got_b.extend(b.on_entry(y));
    }
    got_a.extend(a.finish());
    got_b.extend(b.finish());
    let id_of = |e: &SearchEvent| match e {
        SearchEvent::Started { search_id, .. } => *search_id,
        SearchEvent::Result { search_id, .. } => *search_id,
        SearchEvent::Finished { search_id, .. } => *search_id,
    };
    assert!(got_a.iter().all(|e| id_of(e) == 1));
    assert!(got_b.iter().all(|e| id_of(e) == 2));
    assert_eq!(got_a, search_files("match".to_string(), 1, many_matches(40)));
}

#[test]
fn windows_paths_are_cleaned_in_results() {
    let walk = vec![entry("Notes.md", "\\\\?\\C:\\Users\\me\\Notes.md", true)];
    let evs = search_files("notes".to_string(), 6, walk);
    match &evs[1] {
        SearchEvent::Result { path, .. } => assert_eq!(path, "C:/Users/me/Notes.md"),
        other => panic!("unexpected {:?}", other),
    }
}

#[test]
fn clean_path_strips_prefix_and_flips_separators() {
    assert_eq!(clean_path("\\\\?\\C:\\a\\b".to_string()), "C:/a/b");
    assert_eq!(clean_path("/usr/local/bin".to_string()), "/usr/local/bin");
    assert_eq!(clean_path("dir\\sub\\file".to_string()), "dir/sub/file");
    assert_eq!(clean_path(String::new()), "");
    assert!(!clean_path("\\\\?\\UNC\\srv\\share".to_string()).contains('\\'));
    assert_eq!(clean_path("C:\\x\\\\?\\y".to_string()), "C:/x//?/y");
    assert_eq!(clean_path("/\\?\\x".to_string()), "//?/x");
}

#[test]
fn name_matching_lowercases_the_name() {
    assert!(name_matches_query("read", "README.TXT"));
    assert!(name_matches_query("ader", "Reader.go"));
    assert!(!name_matches_query("read", "rEd.txt"));
    assert!(name_matches_query("", "anything"));
}

#[test]
fn lowered_matching_is_a_substring_test() {
    assert!(matches_lowered("reader.go", "read"));
    assert!(matches_lowered("reader.go", "r.go"));
    assert!(!matches_lowered("reader.go", "READ"));
    assert!(!matches_lowered("ab", "abc"));
}
