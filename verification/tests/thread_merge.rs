use codex_xray::codex::ThreadMetadata;
use codex_xray::thread_merge::{
    add_local_session, apply_session_index, attach_session_path, sort_threads, LocalSessionIndexEntry,
    LocalSessionMetadata,
};

fn thread(id: &str, name: Option<&str>, updated_at: i64) -> ThreadMetadata {
    ThreadMetadata {
        id: id.to_string(),
        name: name.map(str::to_string),
        cwd: "/work".to_string(),
        status: None,
        path: None,
        created_at: 10,
        updated_at,
        parent_thread_id: None,
    }
}

fn entry(id: &str, name: Option<&str>, updated_at: Option<i64>) -> (String, LocalSessionIndexEntry) {
    (id.to_string(), LocalSessionIndexEntry { name: name.map(str::to_string), updated_at })
}

fn local(id: &str, source: &str) -> LocalSessionMetadata {
    LocalSessionMetadata {
        id: id.to_string(),
        cwd: "/cli".to_string(),
        source: source.to_string(),
        created_at: 50,
        parent_thread_id: Some("parent".to_string()),
    }
}

#[test]
fn session_index_fills_names_and_later_times() {
    let mut threads = vec![thread("a", None, 100), thread("b", Some("kept"), 300), thread("c", None, 5)];
    let index = vec![
        entry("a", Some("old"), Some(90)),
        entry("a", Some("Named"), Some(200)),
        entry("b", Some("ignored"), Some(250)),
    ];
    apply_session_index(&mut threads, &index);
    assert_eq!(threads[0].name.as_deref(), Some("Named"));
    assert_eq!(threads[0].updated_at, 200);
    assert_eq!(threads[1].name.as_deref(), Some("kept"));
    assert_eq!(threads[1].updated_at, 300);
    assert_eq!(threads[2].name, None);
    assert_eq!(threads[2].updated_at, 5);
}

#[test]
fn session_files_attach_paths_or_add_cli_threads() {
    let mut threads = vec![thread("a", None, 100)];
    assert!(!attach_session_path(&mut threads, "/s/rollout-a.jsonl", Some("a")));
    assert_eq!(threads[0].path.as_deref(), Some("/s/rollout-a.jsonl"));
    assert!(!attach_session_path(&mut threads, "/s/other.jsonl", Some("a")));
    assert_eq!(threads[0].path.as_deref(), Some("/s/rollout-a.jsonl"));
    assert!(attach_session_path(&mut threads, "/s/new.jsonl", Some("zzz")));
    assert!(attach_session_path(&mut threads, "/s/new.jsonl", None));

    let index = vec![entry("n", Some("From index"), Some(70))];
    assert!(!add_local_session(&mut threads, "/s/app.jsonl", local("n", "exec"), &index, Some(80)));
    assert_eq!(threads.len(), 1);
    assert!(add_local_session(&mut threads, "/s/n.jsonl", local("n", "cli"), &index, Some(80)));
    assert_eq!(threads.len(), 2);
    let added = &threads[1];
    assert_eq!(added.name.as_deref(), Some("From index"));
    assert_eq!(added.updated_at, 80);
    assert_eq!(added.path.as_deref(), Some("/s/n.jsonl"));
    assert_eq!(added.parent_thread_id.as_deref(), Some("parent"));
    assert!(!add_local_session(&mut threads, "/s/n2.jsonl", local("n", "vscode"), &index, None));
    assert_eq!(threads.len(), 2);
    assert!(add_local_session(&mut threads, "/s/m.jsonl", local("m", "vscode"), &index, None));
    assert_eq!(threads[2].updated_at, 50);
}

#[test]
fn threads_sort_by_latest_change_then_id() {
    let sorted = sort_threads(vec![thread("b", None, 5), thread("c", None, 9), thread("a", None, 5)]);
    let ids: Vec<&str> = sorted.iter().map(|t| t.id.as_str()).collect();
    assert_eq!(ids, vec!["c", "a", "b"]);
}
