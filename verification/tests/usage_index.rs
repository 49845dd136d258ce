use codex_xray::storage::{UsageIndexEvent, UsageIndexFile, UsageIndexTurn};
use codex_xray::usage_index::read_usage_index;

fn index_file(path: &str, length: u64) -> UsageIndexFile {
    UsageIndexFile {
        path: path.to_string(),
        length,
        modified_ms: 1,
        malformed_lines: 0,
        session_id: Some(format!("id-{path}")),
        parent_id: None,
        forked_at_ms: None,
        cwd: None,
        started_at_ms: None,
        updated_at_ms: None,
        project_metadata_indexed: true,
        turns: Vec::new(),
        events: Vec::new(),
    }
}

fn index_turn(id: &str) -> UsageIndexTurn {
    UsageIndexTurn { id: id.to_string(), started_at_ms: Some(1), updated_at_ms: None }
}

fn index_event(event_index: usize) -> UsageIndexEvent {
    UsageIndexEvent {
        event_index,
        timestamp_ms: 10,
        date: "2026-07-26".to_string(),
        turn_id: "t".to_string(),
        model: "gpt-5.4".to_string(),
        input_tokens: 1,
        cached_input_tokens: 0,
        cache_write_input_tokens: 0,
        output_tokens: 1,
        total_tokens: 2,
    }
}

#[test]
fn groups_turns_and_events_under_their_files_in_path_order() {
    let files = vec![(7, index_file("/b.jsonl", 20)), (3, index_file("/a.jsonl", 10))];
    let turns = vec![(3, index_turn("t1")), (7, index_turn("t2")), (9, index_turn("orphan")), (3, index_turn("t3"))];
    let events = vec![(7, index_event(0)), (3, index_event(0)), (3, index_event(1))];
    let index = read_usage_index(files, turns, events);
    let paths: Vec<&str> = index.iter().map(|f| f.path.as_str()).collect();
    assert_eq!(paths, vec!["/a.jsonl", "/b.jsonl"]);
    let a_turns: Vec<&str> = index[0].turns.iter().map(|t| t.id.as_str()).collect();
    assert_eq!(a_turns, vec!["t1", "t3"]);
    assert_eq!(index[1].turns.len(), 1);
    assert_eq!(index[0].events.iter().map(|e| e.event_index).collect::<Vec<_>>(), vec![0, 1]);
    assert_eq!(index[1].events.len(), 1);
    assert_eq!(index[1].length, 20);
}

#[test]
fn a_repeated_path_keeps_its_last_row() {
    let files = vec![(1, index_file("/a.jsonl", 10)), (2, index_file("/a.jsonl", 30))];
    let turns = vec![(1, index_turn("old")), (2, index_turn("new"))];
    let index = read_usage_index(files, turns, Vec::new());
    assert_eq!(index.len(), 1);
    assert_eq!(index[0].length, 30);
    // Both IDs name the same path, so both turns land on the one file.
    assert_eq!(index[0].turns.len(), 2);
    assert!(read_usage_index(Vec::new(), vec![(1, index_turn("x"))], Vec::new()).is_empty());
}
