use ai_switch::log_viewer::LogViewerWindow;
use ai_switch::logs::is_log_file;
use ai_switch::logs::latest_log;
use ai_switch::logs::log_file_name;
use ai_switch::logs::log_file_path;
use ai_switch::logs::new_log_file;
use ai_switch::logs::outdated_logs;
use ai_switch::logs::resolve_log_file;
use ai_switch::paths::join_path;
use ai_switch::paths::script_stem;
use ai_switch::process_manager::ProcessManager;

fn names(list: &[&str]) -> Vec<String> {
    list.iter().map(|n| n.to_string()).collect()
}

#[test]
fn test_resolve_log_file_fallback() {
    // When no log files exist, it should return a sensible fallback path.
    let temp_dir = "/tmp/ai-switch-test-logs";
    let result = resolve_log_file("/tmp/test-model.sh", temp_dir, Some(&vec![]));

    assert!(result.starts_with("/tmp/ai-switch-test-logs/"));
    let filename = &result["/tmp/ai-switch-test-logs/".len()..];
    assert!(filename.starts_with("test-model_"));
    assert!(result.ends_with(".log"));

    let unread = resolve_log_file("/tmp/test-model.sh", temp_dir, None);
    assert!(unread.starts_with("/tmp/ai-switch-test-logs/test-model_"));
}

#[test]
fn a_new_log_file_bears_the_time() {
    let path = new_log_file("/s/run.tar.sh", "/l");
    let name = &path["/l/".len()..];
    assert!(is_log_file(name, "run.tar"));
    let stamp = &name["run.tar_".len()..name.len() - ".log".len()];
    assert_eq!(stamp.len(), 15);
    assert_eq!(&stamp[8..9], "_");
    let month: u32 = stamp[4..6].parse().unwrap();
    assert!(1 <= month && month <= 12);
}

#[test]
fn log_files_are_named_by_stem_and_stamp() {
    assert_eq!(log_file_name("run", "20260724_143022"), "run_20260724_143022.log");
    assert_eq!(log_file_path("/l", "run", "20260724_143022"), "/l/run_20260724_143022.log");
    assert!(is_log_file("run_20260724_143022.log", "run"));
    assert!(!is_log_file("run_20260724_143022.log", "ru"));
    assert!(!is_log_file("run_fast_20260724_143022.log", "run"));
    assert!(!is_log_file("run_20260724-143022.log", "run"));
    assert!(!is_log_file("run_2026072x_143022.log", "run"));
    assert!(!is_log_file("run_20260724_143022.txt", "run"));
    assert!(!is_log_file("run.log", "run"));
    assert!(!is_log_file("", ""));
}

#[test]
fn the_most_recent_log_file_is_shown() {
    let list = names(&[
        "run_20260101_000000.log",
        "other_20270101_000000.log",
        "run_20260724_143022.log",
        "run_20260724_143021.log",
        "run_notes.log",
    ]);
    assert_eq!(latest_log(&list, "run"), Some("run_20260724_143022.log".to_string()));
    assert_eq!(latest_log(&list, "none"), None);
    assert_eq!(
        resolve_log_file("/s/run.sh", "/l", Some(&list)),
        "/l/run_20260724_143022.log"
    );
}

#[test]
fn rotation_keeps_the_twenty_most_recent() {
    let mut list: Vec<String> = (10..33)
        .map(|day: u32| format!("run_202601{:02}_000000.log", day))
        .collect();
    list.push("other_20200101_000000.log".to_string());
    list.push("run_notes.log".to_string());
    let deleted = ProcessManager::rotate_logs("/s/run.sh", &list);
    assert_eq!(
        deleted,
        names(&["run_20260110_000000.log", "run_20260111_000000.log", "run_20260112_000000.log"])
    );
    let few = list[0..20].to_vec();
    assert_eq!(outdated_logs("run", &few), Vec::<String>::new());
    assert_eq!(outdated_logs("run", &list[0..21].to_vec()), names(&["run_20260110_000000.log"]));
}

#[test]
fn stems_and_paths() {
    assert_eq!(script_stem("/a/run-llama.sh"), "run-llama");
    assert_eq!(script_stem("/a/.hidden"), ".hidden");
    assert_eq!(script_stem(".."), "");
    assert_eq!(join_path("/a", "b"), "/a/b");
    assert_eq!(join_path("/a/", "b"), "/a/b");
    assert_eq!(join_path("/a", "/b"), "/b");
    assert_eq!(join_path("", "b"), "b");
}

#[test]
fn a_viewer_shows_what_is_appended() {
    let list = names(&["run_20260724_143022.log"]);
    let mut viewer = LogViewerWindow::new("Llama", "/s/run.sh", "/l", Some(&list));
    assert_eq!(viewer.title, "Logs — Llama");
    assert_eq!(viewer.log_file, "/l/run_20260724_143022.log");
    assert_eq!(viewer.look(""), None);
    assert_eq!(viewer.look("première\n"), Some("première\n".to_string()));
    assert_eq!(viewer.look("première\n"), None);
    assert_eq!(viewer.look("première\nzweite\n"), Some("zweite\n".to_string()));
    assert_eq!(viewer.text, "première\nzweite\n");
    assert_eq!(viewer.last_offset, "première\nzweite\n".len());
}

#[test]
fn a_cleared_viewer_starts_afresh() {
    let mut viewer = LogViewerWindow::new("m", "/s/run.sh", "/l", None);
    viewer.look("one two three\n");
    viewer.clear();
    assert_eq!(viewer.text, "");
    assert_eq!(viewer.look("four\n"), None);
    assert_eq!(viewer.look(""), None);
    assert_eq!(viewer.last_offset, 0);
    assert_eq!(viewer.look("five\n"), Some("five\n".to_string()));
    assert_eq!(viewer.text, "five\n");
}
