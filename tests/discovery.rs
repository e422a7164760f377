use local_brain::discovery::{choose_mode, split_file_list, DiscoveryMode, GitDiff, ModeError};
use local_brain::pattern::{classify_entry, matches_pattern, should_skip_dir, DirEntryInfo, EntryAction};

#[test]
fn test_pattern_matching() {
    assert!(matches_pattern("test.rs", "*.rs"));
    assert!(!matches_pattern("test.js", "*.rs"));

    assert!(matches_pattern("anything.txt", "*"));

    assert!(matches_pattern("test.js", "*.{js,ts}"));
    assert!(matches_pattern("test.ts", "*.{js,ts}"));
    assert!(!matches_pattern("test.rs", "*.{js,ts}"));
}

#[test]
fn pattern_edge_cases() {
    assert!(matches_pattern("a.js", "*.{js,ts}"));
    assert!(matches_pattern("a.ts", "*.{js,ts}"));
    assert!(!matches_pattern("a.rs", "*.{js,ts}"));
    assert!(matches_pattern("", "*"));
    assert!(matches_pattern("Makefile", "Makefile"));
    assert!(!matches_pattern("Makefile.bak", "Makefile"));
    assert!(!matches_pattern("rs", "*.rs"));
    assert!(matches_pattern("x.tar.gz", "*.gz"));
    // a list without braces is taken as one extension
    assert!(matches_pattern("a.js,ts", "*.js,ts"));
    assert!(!matches_pattern("a.js", "*.js,ts"));
}

fn entry(path: &str, name: &str, is_dir: bool) -> DirEntryInfo {
    DirEntryInfo {
        path: String::from(path),
        name: String::from(name),
        is_dir,
        is_file: !is_dir,
    }
}

#[test]
fn test_dir_skips_hidden_directories() {
    assert_eq!(classify_entry(&entry("d/.hidden", ".hidden", true), "*.rs"), EntryAction::Skip);
    assert_eq!(classify_entry(&entry("d/visible.rs", "visible.rs", false), "*.rs"), EntryAction::Collect);
    assert!(should_skip_dir(".git"));
    assert!(should_skip_dir("target"));
    assert!(should_skip_dir("node_modules"));
    assert!(!should_skip_dir("src"));
    assert_eq!(classify_entry(&entry("d/src", "src", true), "*.rs"), EntryAction::Descend);
}

#[test]
fn test_dir_pattern_matching() {
    assert_eq!(classify_entry(&entry("d/file1.rs", "file1.rs", false), "*.rs"), EntryAction::Collect);
    assert_eq!(classify_entry(&entry("d/file2.rs", "file2.rs", false), "*.rs"), EntryAction::Collect);
    assert_eq!(classify_entry(&entry("d/file3.js", "file3.js", false), "*.rs"), EntryAction::Skip);
}

#[test]
fn split_list_trims_and_keeps_order() {
    let v = split_file_list(" zzz.rs, aaa.rs ,mmm.rs ");
    assert_eq!(v, vec!["zzz.rs", "aaa.rs", "mmm.rs"]);
    assert_eq!(split_file_list(""), vec![""]);
    assert_eq!(split_file_list("a,,b"), vec!["a", "", "b"]);
}

#[test]
fn repeated_paths_are_kept_once() {
    assert_eq!(split_file_list("a.rs, b.rs ,a.rs,c.rs,b.rs"), vec!["a.rs", "b.rs", "c.rs"]);
    assert_eq!(split_file_list("a.rs,a.rs"), vec!["a.rs"]);
    let g = GitDiff { stdout: String::from("x.rs\ny.rs\nx.rs\n") };
    assert_eq!(g.parse_changed_files(), vec!["x.rs", "y.rs"]);
}

#[test]
fn test_no_mode_specified_error() {
    let r = choose_mode(false, &None, &None, &None);
    assert!(matches!(r, Err(ModeError::NoMode)));
}

#[test]
fn mode_precedence() {
    let files = Some(String::from("a.rs,b.rs"));
    let dir = Some(String::from("src"));
    assert!(matches!(choose_mode(true, &files, &dir, &None), Ok(DiscoveryMode::GitDiff)));
    match choose_mode(false, &files, &dir, &None) {
        Ok(DiscoveryMode::Files(v)) => assert_eq!(v, vec!["a.rs", "b.rs"]),
        _ => panic!("explicit list expected"),
    }
    match choose_mode(false, &None, &dir, &None) {
        Ok(DiscoveryMode::Dir { root, pattern }) => {
            assert_eq!(root, "src");
            assert_eq!(pattern, "*");
        }
        _ => panic!("directory expected"),
    }
    match choose_mode(false, &None, &dir, &Some(String::from("*.rs"))) {
        Ok(DiscoveryMode::Dir { pattern, .. }) => assert_eq!(pattern, "*.rs"),
        _ => panic!("directory expected"),
    }
}

#[test]
fn git_output_lines() {
    let g = GitDiff { stdout: String::from("src/main.rs\n\n  src/lib.rs \r\n\t\nREADME.md\n") };
    assert_eq!(g.parse_changed_files(), vec!["src/main.rs", "src/lib.rs", "README.md"]);
    let empty = GitDiff { stdout: String::new() };
    assert!(empty.parse_changed_files().is_empty());
    assert!(GitDiff::needs_fallback(" \n"));
    assert!(!GitDiff::needs_fallback("a.rs\n"));
}

#[test]
fn no_mode_message() {
    match choose_mode(false, &None, &None, &None) {
        Err(e) => assert_eq!(e.message(), "Must specify one of: --files, --git-diff, or --dir"),
        Ok(_) => panic!("no mode was given"),
    }
}

#[test]
fn test_empty_files_list() {
    match choose_mode(false, &Some(String::new()), &None, &None) {
        Ok(DiscoveryMode::Files(v)) => assert_eq!(v, vec![""]),
        _ => panic!("explicit list expected"),
    }
}
