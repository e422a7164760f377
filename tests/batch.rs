use local_brain::discovery::{split_file_list, DiscoveryMode};
use local_brain::review::{
    batch_title, collect_reviews, format_runs, format_validation_report, review_banner, start_batch,
    summarize_runs, BatchReport, BatchStart, ReviewError, RunRecord,
};
use local_brain::text::decimal_text;

#[test]
fn test_files_mode_preserves_order() {
    let files = split_file_list("zzz.rs,aaa.rs,mmm.rs");
    let mut batch = BatchReport::new();
    for f in &files {
        batch.add_review(f, "ok");
    }
    let doc = batch.render("Code Review");
    let z = doc.find("zzz.rs").expect("Should contain zzz.rs");
    let a = doc.find("aaa.rs").expect("Should contain aaa.rs");
    let m = doc.find("mmm.rs").expect("Should contain mmm.rs");
    assert!(z < a, "zzz.rs should appear before aaa.rs");
    assert!(a < m, "aaa.rs should appear before mmm.rs");
}

#[test]
fn test_multiple_files_aggregation() {
    let mut batch = BatchReport::new();
    batch.add_review("test1.rs", "first");
    batch.add_review("test2.rs", "second");
    assert_eq!(
        batch.render("Code Review"),
        "# Code Review\n\n### test1.rs\n\nfirst\n\n### test2.rs\n\nsecond\n\n"
    );
}

#[test]
fn all_failed_batch_has_marker() {
    let batch = BatchReport::new();
    assert_eq!(batch.render("Code Review"), "# No Reviews Generated\n\n");
}

fn no_model() -> ModelRequest {
    ModelRequest { model: None, task: None, env_model: None }
}

#[test]
fn test_empty_dir_no_matches() {
    let mode = DiscoveryMode::Dir { root: String::from("empty"), pattern: String::from("*.rs") };
    match start_batch(&mode, &Vec::new(), &no_model(), &registry()) {
        BatchStart::NothingFound(m) => assert_eq!(m, "No files found matching pattern '*.rs' in empty"),
        _ => panic!("nothing to review"),
    }
    match start_batch(&DiscoveryMode::GitDiff, &Vec::new(), &no_model(), &Err(String::from("x"))) {
        BatchStart::NothingFound(m) => assert_eq!(m, "No changed files found"),
        _ => panic!("nothing to review, and no model is chosen"),
    }
    match start_batch(&DiscoveryMode::GitDiff, &vec![String::from("a")], &no_model(), &registry()) {
        BatchStart::Review { count, selection } => {
            assert_eq!(count, 1);
            assert_eq!(selection.model, "qwen2.5-coder:7b");
        }
        _ => panic!("one file to review"),
    }
}

#[test]
fn unknown_task_is_fatal_to_batch() {
    let req = ModelRequest { model: None, task: Some(String::from("nope")), env_model: None };
    let files = vec![String::from("a.rs"), String::from("b.rs")];
    match start_batch(&DiscoveryMode::Files(files.clone()), &files, &req, &registry()) {
        BatchStart::Fatal(e) => assert_eq!(e.message(), "Unknown task type: 'nope'. Available tasks: quick-review"),
        _ => panic!("unknown task must end the batch"),
    }
    match start_batch(&DiscoveryMode::Files(files.clone()), &files, &no_model(), &Err(String::from("no registry"))) {
        BatchStart::Fatal(e) => assert_eq!(e.message(), "no registry"),
        _ => panic!("missing registry must end the batch"),
    }
}

#[test]
fn banner_names_changed_files() {
    assert_eq!(review_banner(&DiscoveryMode::GitDiff, 3), "Reviewing 3 changed file(s)...");
    assert_eq!(review_banner(&DiscoveryMode::Files(Vec::new()), 2), "Reviewing 2 file(s)...");
}

#[test]
fn collected_reviews_keep_order_and_skip_failures() {
    let outcomes = vec![
        (String::from("zzz.rs"), Ok(String::from("z"))),
        (String::from("bad.rs"), Err(ReviewError::AllRunsFailed)),
        (String::from("aaa.rs"), Ok(String::from("a"))),
    ];
    assert_eq!(
        collect_reviews(&outcomes).render("Code Review"),
        "# Code Review\n\n### zzz.rs\n\nz\n\n### aaa.rs\n\na\n\n"
    );
    let failed = vec![(String::from("x.rs"), Err(ReviewError::AllRunsFailed))];
    assert_eq!(collect_reviews(&failed).render("Code Review"), "# No Reviews Generated\n\n");
}

#[test]
fn titles() {
    assert_eq!(batch_title(&DiscoveryMode::GitDiff), "Git Diff Review");
    assert_eq!(batch_title(&DiscoveryMode::Files(Vec::new())), "Code Review");
}

#[test]
fn runs_joined_with_rules() {
    let t = vec![String::from("A"), String::from("B")];
    assert_eq!(format_runs(&t), "## Run 1\n\nA\n---\n\n## Run 2\n\nB");
}

#[test]
fn validation_report_exact() {
    let t = vec![String::from("A"), String::from("B")];
    let d = vec![1000u64, 2250];
    assert_eq!(
        format_validation_report(&t, &d, false),
        "## Validation Report\n\n- **Total Runs**: 2\n- **Average Duration**: 1.6s\n\n## All Runs\n\n### Run 1\n\nA\n\n### Run 2\n\nB\n\n"
    );
    let with_metrics = format_validation_report(&t, &d, true);
    assert!(with_metrics.contains("| Run | Duration | Status |\n|-----|----------|--------|\n| 1 | 1.0s | ✓ |\n| 2 | 2.3s | ✓ |\n"));
}

#[test]
fn failed_runs_are_left_out() {
    let rs = vec![
        RunRecord { markdown: None, duration_ms: 50 },
        RunRecord { markdown: Some(String::from("ok")), duration_ms: 1500 },
    ];
    assert_eq!(summarize_runs(&rs, false, false).unwrap(), "## Run 1\n\nok");
    let v = summarize_runs(&rs, true, false).unwrap();
    assert!(v.contains("- **Total Runs**: 1\n- **Average Duration**: 1.5s\n"));
    let none = vec![RunRecord { markdown: None, duration_ms: 10 }];
    assert!(matches!(summarize_runs(&none, true, true), Err(ReviewError::AllRunsFailed)));
}

#[test]
fn decimal_digits() {
    assert_eq!(decimal_text(0), "0");
    assert_eq!(decimal_text(120), "120");
    assert_eq!(decimal_text(u64::MAX), u64::MAX.to_string());
}

use local_brain::model::{select_model_adaptive, ModelRegistry, ModelRequest};
use local_brain::review::{ReviewSettings, ReviewStep};

fn dry_settings(kind: Option<&str>, focus: Option<&str>) -> ReviewSettings {
    ReviewSettings {
        kind: kind.map(String::from),
        review_focus: focus.map(String::from),
        dry_run: true,
        timeout_secs: None,
        runs: 1,
        validation_mode: false,
        show_metrics: false,
    }
}

fn registry() -> Result<ModelRegistry, String> {
    Ok(ModelRegistry {
        models: Vec::new(),
        task_mappings: vec![(String::from("quick-review"), String::from("qwen2.5-coder:3b"))],
        default_model: String::from("qwen2.5-coder:7b"),
    })
}

fn dry_review(task: Option<&str>, settings: &ReviewSettings, file: &str) -> String {
    let req = ModelRequest { model: None, task: task.map(String::from), env_model: None };
    let sel = select_model_adaptive(&req, &registry(), 1).unwrap();
    match settings.plan_review(&sel.model, file, "function f() { var a = 1; }") {
        ReviewStep::Report(t) => t,
        ReviewStep::Send(_) => panic!("a dry run sends nothing"),
    }
}

#[test]
fn test_dry_run_files_mode() {
    let t = dry_review(None, &dry_settings(None, None), "code_smells.js");
    assert!(t.contains("## Dry Run Information"));
    assert!(t.contains("Model:"));
    assert!(t.contains("code_smells.js"));
}

#[test]
fn test_dry_run_with_task_selection() {
    let t = dry_review(Some("quick-review"), &dry_settings(None, None), "code_smells.js");
    assert!(t.contains("Model: qwen2.5-coder:3b"));
}

#[test]
fn test_dry_run_with_kind_and_review_focus() {
    let t = dry_review(None, &dry_settings(Some("design-doc"), Some("security")), "code_smells.js");
    assert!(t.contains("## Dry Run Information"));
}

#[test]
fn test_output_is_valid_markdown() {
    let t = dry_review(None, &dry_settings(None, None), "code_smells.js");
    let mut batch = BatchReport::new();
    batch.add_review("code_smells.js", &t);
    let doc = batch.render("Code Review");
    assert!(doc.contains("# Code Review"), "Missing main heading");
    assert!(doc.contains("## Dry Run Information"), "Missing dry run section");
}

#[test]
fn test_multiple_files_with_mixed_results() {
    let outcomes: Vec<(&str, Result<String, ReviewError>)> = vec![
        ("exists.rs", Ok(String::from("fine"))),
        (
            "nonexistent.rs",
            Err(ReviewError::ReadFile { path: String::from("nonexistent.rs"), detail: String::from("missing") }),
        ),
    ];
    let mut batch = BatchReport::new();
    for (name, outcome) in &outcomes {
        if let Ok(md) = outcome {
            batch.add_review(name, md);
        }
    }
    let doc = batch.render("Code Review");
    assert!(doc.contains("### exists.rs"));
    assert!(!doc.contains("nonexistent.rs"));
}
