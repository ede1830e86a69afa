use zos_server::spectral::{filtered_file_content, spectral_output_name, trim_end_matches_str};
use zos_server::url_extract::{extract_urls_from_records, insert_unique, RepoRecord};

fn record(name: &str, with_urls: bool) -> RepoRecord {
    let url = |kind: &str| if with_urls { Some(format!("{}://github.com/o/{}", kind, name)) } else { None };
    RepoRecord {
        clone_url: url("https"),
        html_url: url("html"),
        git_url: url("git"),
        ssh_url: url("ssh"),
        svn_url: url("https"),
        full_name: Some(format!("o/{}", name)),
        name: Some(name.to_string()),
    }
}

#[test]
fn urls_and_names_are_collected_once() {
    let mut urls = Vec::new();
    let mut repos = Vec::new();
    extract_urls_from_records(&vec![record("a", true), record("a", true), record("b", false)], &mut urls, &mut repos);
    let mut u = urls.clone();
    u.sort();
    assert_eq!(
        u,
        vec![
            "git://github.com/o/a".to_string(),
            "html://github.com/o/a".to_string(),
            "https://github.com/o/a".to_string(),
            "ssh://github.com/o/a".to_string(),
        ]
    );
    let mut r = repos.clone();
    r.sort();
    assert_eq!(r, vec!["a".to_string(), "b".to_string(), "o/a".to_string(), "o/b".to_string()]);
}

#[test]
fn insert_unique_skips_present_and_absent() {
    let mut v = vec!["x".to_string()];
    insert_unique(&mut v, &Some("x".to_string()));
    insert_unique(&mut v, &None);
    insert_unique(&mut v, &Some("y".to_string()));
    assert_eq!(v, vec!["x".to_string(), "y".to_string()]);
}

#[test]
fn output_name_drops_every_rs_ending() {
    assert_eq!(spectral_output_name("src/main.rs", "fn"), "src/main.fn.rs");
    assert_eq!(spectral_output_name("a.rs.rs", "enum"), "a.enum.rs");
    assert_eq!(spectral_output_name("notes.txt", "impl"), "notes.txt.impl.rs");
    assert_eq!(trim_end_matches_str("abab", "ab"), "");
    assert_eq!(trim_end_matches_str("abc", ""), "abc");
}

#[test]
fn filtered_file_numbers_its_items() {
    let items = vec!["fn a() {}".to_string(), "fn b() {}".to_string()];
    assert_eq!(
        filtered_file_content(&items, "fn"),
        "// Spectral compilation output\n// Filter class: fn\n// Generated items: 2\n\n// === Item 1 ===\nfn a() {}\n\n// === Item 2 ===\nfn b() {}\n\n"
    );
    assert_eq!(
        filtered_file_content(&Vec::new(), "x"),
        "// Spectral compilation output\n// Filter class: x\n// Generated items: 0\n\n"
    );
}
