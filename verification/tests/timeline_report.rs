use zos_server::timeline::{
    analyze_repository, commit_count_from_output, is_original_work, repo_dirs_in, RepoInfo, RepoProbe,
    TimelineBuilder, TimelineEntry,
};

fn probe(remote: Option<&str>, author: Option<&str>, date: Option<&str>, count: Option<&str>, files: Option<&str>) -> RepoProbe {
    RepoProbe {
        remote_output: remote.map(|s| s.to_string()),
        author_log: author.map(|s| s.to_string()),
        pattern_log: None,
        last_commit_output: date.map(|s| s.to_string()),
        count_output: count.map(|s| s.to_string()),
        rust_file_list: files.map(|s| s.to_string()),
    }
}

#[test]
fn original_repo_is_recorded_from_probe() {
    let mut t = TimelineBuilder::new();
    let p = probe(
        Some("  https://github.com/meta-introspector/zos  \n"),
        Some("a\nb\n"),
        Some("2024-05-01T10:00:00+02:00\n"),
        Some(" 42\n"),
        Some("src/main.rs\nsrc/lib/util.rs\n"),
    );
    t.analyze_git_repo("zos", "/home/u/zos", false, &p);
    assert_eq!(t.repositories.len(), 1);
    let r = &t.repositories[0];
    assert_eq!(r.remote_url, "https://github.com/meta-introspector/zos");
    assert!(r.is_original);
    assert!(!r.is_fork);
    assert_eq!(r.last_commit_date, Some((1714550400, 0)));
    assert_eq!(r.commit_count, 42);
    assert_eq!(r.rust_files, vec!["src/main.rs".to_string(), "src/lib/util.rs".to_string()]);
}

#[test]
fn repo_without_commits_is_dropped_unless_linked() {
    let mut t = TimelineBuilder::new();
    let p = probe(None, None, None, Some("0\n"), None);
    t.analyze_git_repo("x", "/x", false, &p);
    assert_eq!(t.repositories.len(), 0);
    t.analyze_git_repo("x", "/x", true, &p);
    assert_eq!(t.repositories.len(), 1);
    assert_eq!(t.repositories[0].remote_url, "local");
    assert!(!t.repositories[0].is_original);
}

#[test]
fn six_commits_of_ours_make_original_work() {
    let mut t = TimelineBuilder::new();
    let p = probe(Some("https://example.org/r.git"), Some("1\n2\n3\n4\n5\n6\n"), None, None, None);
    t.analyze_git_repo("r", "/r", false, &p);
    assert!(t.repositories[0].is_original);
    assert_eq!(t.repositories[0].commit_count, 0);
    let five = probe(Some("https://example.org/r.git"), Some("1\n2\n3\n4\n5\n"), None, Some("3"), None);
    t.analyze_git_repo("s", "/s", false, &five);
    assert!(!t.repositories[1].is_original);
}

#[test]
fn commit_count_reads_a_trimmed_number() {
    assert_eq!(commit_count_from_output(&Some("  17 \n".to_string())), 17);
    assert_eq!(commit_count_from_output(&Some("seventeen".to_string())), 0);
    assert_eq!(commit_count_from_output(&None), 0);
}

#[test]
fn original_work_needs_our_organisation_and_patterns() {
    let log = Some("abc1 nixify the build\n".to_string());
    assert!(!is_original_work("https://github.com/other/x", &log));
    assert!(is_original_work("https://github.com/meta-introspector/x", &log));
    assert!(!is_original_work("https://github.com/meta-introspector/x", &Some("fix\n".to_string())));
    let many: String = (0..11).map(|i| format!("c{} fix\n", i)).collect();
    assert!(is_original_work("https://github.com/meta-introspector/x", &Some(many)));
    assert!(!is_original_work("https://github.com/meta-introspector/x", &None));
}

#[test]
fn missing_path_gives_no_repository() {
    let p = probe(None, None, None, Some("5"), None);
    assert!(analyze_repository("a", "/a", "https://github.com/meta-introspector/a", false, &None, &p).is_none());
    let r = analyze_repository("a", "/a", "https://github.com/meta-introspector/a", true, &None, &p).unwrap();
    assert!(r.is_fork);
    assert!(!r.is_original);
    assert_eq!(r.commit_count, 5);
}

fn repo(name: &str, original: bool, fork: bool, date: Option<(i64, u32)>, commits: usize, files: &[&str]) -> RepoInfo {
    RepoInfo {
        name: name.to_string(),
        path: format!("/p/{}", name),
        remote_url: "local".to_string(),
        is_fork: fork,
        is_original: original,
        last_commit_date: date,
        commit_count: commits,
        rust_files: files.iter().map(|f| f.to_string()).collect(),
    }
}

#[test]
fn timeline_is_newest_first_and_stable() {
    let mut t = TimelineBuilder::new();
    t.repositories.push(repo("old", true, false, Some((100, 0)), 3, &["a/x.rs"]));
    t.repositories.push(repo("none", false, false, None, 1, &[]));
    t.repositories.push(repo("new", false, true, Some((200, 5)), 7, &[]));
    t.repositories.push(repo("tie", false, false, Some((100, 0)), 1, &[]));
    t.build_timeline();
    let names: Vec<&str> = t.timeline_entries.iter().map(|e| e.repo_name.as_str()).collect();
    assert_eq!(names, vec!["new", "old", "tie"]);
    let e: &TimelineEntry = &t.timeline_entries[1];
    assert_eq!(e.event_type, "original_work");
    assert_eq!(e.description, "old - 3 commits, 1 Rust files");
    assert_eq!(t.timeline_entries[0].event_type, "fork");
    assert_eq!(t.timeline_entries[2].event_type, "external");
    assert_eq!(t.identify_original_work(), (1, 1));
}

#[test]
fn report_lists_entries_and_original_work() {
    let mut t = TimelineBuilder::new();
    t.repositories.push(repo("zos", true, false, Some((1714550400, 0)), 42, &["src/main.rs", "src/lib/util.rs"]));
    t.repositories.push(repo("fk", false, true, None, 2, &[]));
    t.build_timeline();
    let r = t.generate_report(0);
    let expected = "# Meta-Introspector Development Timeline\n\n\
Generated: 1970-01-01 00:00:00 UTC\n\n\
## Summary\n\n\
- **Original Repositories**: 1\n\
- **Total Rust Files**: 2\n\
- **Total Commits**: 42\n\
- **Forks Managed**: 1\n\
\n## Timeline (Reverse Chronological)\n\n\
### ✨ 2024-05-01 - zos\n\
**Type**: original_work\n\
**Description**: zos - 42 commits, 2 Rust files\n\
**Key Files**:\n\
- `main.rs`\n\
- `util.rs`\n\
\n\
## Original Work Repositories\n\n\
### zos\n\
- **Path**: `/p/zos`\n\
- **Commits**: 42\n\
- **Rust Files**: 2\n\
- **Last Activity**: 2024-05-01\n\
\n";
    assert_eq!(r, expected);
}

#[test]
fn json_summary_lists_repositories() {
    let mut t = TimelineBuilder::new();
    assert_eq!(
        t.generate_json(0, 0),
        "{\n  \"generated_at\": \"1970-01-01T00:00:00+00:00\",\n  \"repositories\": [\n\n  ]\n}"
    );
    t.repositories.push(repo("a", true, false, None, 1, &["x.rs"]));
    t.repositories.push(repo("b", false, false, None, 0, &[]));
    let j = t.generate_json(0, 0);
    assert_eq!(
        j,
        "{\n  \"generated_at\": \"1970-01-01T00:00:00+00:00\",\n  \"repositories\": [\n    {\n      \"name\": \"a\",\n      \"is_original\": true,\n      \"commit_count\": 1,\n      \"rust_files\": 1\n    },\n    {\n      \"name\": \"b\",\n      \"is_original\": false,\n      \"commit_count\": 0,\n      \"rust_files\": 0\n    }\n  ]\n}"
    );
}

#[test]
fn git_directories_give_repositories() {
    let dirs = repo_dirs_in("/home/u/nix/zos/.git\n/home/u/other\n/srv/.git\n");
    assert_eq!(
        dirs,
        vec![
            ("zos".to_string(), "/home/u/nix/zos".to_string()),
            ("srv".to_string(), "/srv".to_string()),
        ]
    );
    assert!(repo_dirs_in("/.git\n").is_empty());
}
