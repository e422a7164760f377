use local_brain::model::{
    determine_model_priority, resolve_model_priority, select_model, select_model_adaptive, ModelInfo,
    ModelPriority, ModelRegistry, ModelRequest, Notice, SelectError, SpeedClass,
};

fn info(name: &str, speed: SpeedClass) -> ModelInfo {
    ModelInfo {
        name: String::from(name),
        size_tenths_gb: 47,
        parameters: String::from("7B"),
        speed,
    }
}

fn registry() -> ModelRegistry {
    ModelRegistry {
        models: vec![
            info("big:14b", SpeedClass::Slow),
            info("mid:7b", SpeedClass::Moderate),
            info("small:3b", SpeedClass::Fast),
            info("tiny:1b", SpeedClass::VeryFast),
        ],
        task_mappings: vec![
            (String::from("quick-review"), String::from("small:3b")),
            (String::from("security"), String::from("big:14b")),
        ],
        default_model: String::from("mid:7b"),
    }
}

fn req(model: Option<&str>, task: Option<&str>, env: Option<&str>) -> ModelRequest {
    ModelRequest {
        model: model.map(String::from),
        task: task.map(String::from),
        env_model: env.map(String::from),
    }
}

fn pick(r: &ModelRequest) -> String {
    select_model(r, &Ok(registry())).unwrap_or_else(|e| e.message())
}

#[test]
fn test_model_flag_priority() {
    assert_eq!(pick(&req(Some("override-model"), Some("quick-review"), None)), "override-model");
}

#[test]
fn test_task_overrides_default() {
    assert_eq!(pick(&req(None, Some("quick-review"), None)), "small:3b");
}

#[test]
fn test_default_model_when_no_flags() {
    assert_eq!(pick(&req(None, None, None)), "mid:7b");
}

#[test]
fn priority_over_every_combination() {
    for mask in 0..8u32 {
        let m = if mask & 1 != 0 { Some("explicit") } else { None };
        let t = if mask & 2 != 0 { Some("security") } else { None };
        let e = if mask & 4 != 0 { Some("from-env") } else { None };
        let want = if m.is_some() {
            "explicit"
        } else if t.is_some() {
            "big:14b"
        } else if e.is_some() {
            "from-env"
        } else {
            "mid:7b"
        };
        assert_eq!(pick(&req(m, t, e)), want, "sources {}", mask);
    }
}

#[test]
fn test_invalid_task_type() {
    let r = select_model(&req(None, Some("nonexistent-task"), None), &Ok(registry()));
    match r {
        Err(e) => {
            assert!(matches!(&e, SelectError::UnknownTask { .. }));
            assert_eq!(
                e.message(),
                "Unknown task type: 'nonexistent-task'. Available tasks: quick-review, security"
            );
        }
        Ok(_) => panic!("unknown task accepted"),
    }
}

#[test]
fn registry_needed_only_when_used() {
    let missing: Result<ModelRegistry, String> = Err(String::from("no registry"));
    assert_eq!(select_model(&req(Some("x"), None, None), &missing).unwrap(), "x");
    assert_eq!(select_model(&req(None, None, Some("y")), &missing).unwrap(), "y");
    match select_model(&req(None, None, None), &missing) {
        Err(SelectError::Registry(m)) => assert_eq!(m, "no registry"),
        _ => panic!("registry error expected"),
    }
}

#[test]
fn explicit_model_needs_no_registry() {
    let missing: Result<ModelRegistry, String> = Err(String::from("no registry"));
    let s = select_model_adaptive(&req(Some("mine"), None, None), &missing, 4).unwrap();
    assert_eq!(s.model, "mine");
    assert!(s.notice.is_none());
    assert!(select_model_adaptive(&req(None, None, Some("env")), &missing, 4).is_err());
}

#[test]
fn priorities_resolve() {
    assert!(matches!(determine_model_priority(&req(None, None, None)), ModelPriority::Default));
    match determine_model_priority(&req(None, Some("t"), Some("e"))) {
        ModelPriority::Task(t) => assert_eq!(t, "t"),
        _ => panic!("task expected"),
    }
    let p = ModelPriority::EnvVar(String::from("e"));
    assert_eq!(resolve_model_priority(&p, &Ok(registry())).unwrap(), "e");
}

#[test]
fn adaptive_substitutes_first_quick_model() {
    let reg = Ok(registry());
    let s = select_model_adaptive(&req(None, None, None), &reg, 3).unwrap();
    assert_eq!(s.model, "small:3b");
    match s.notice {
        Some(Notice::Substituted { original, replacement, file_count }) => {
            assert_eq!(original, "mid:7b");
            assert_eq!(replacement, "small:3b");
            assert_eq!(file_count, 3);
        }
        _ => panic!("substitution notice expected"),
    }
}

#[test]
fn adaptive_keeps_single_file_and_explicit() {
    let reg = Ok(registry());
    let single = select_model_adaptive(&req(None, None, None), &reg, 1).unwrap();
    assert_eq!(single.model, "mid:7b");
    assert!(single.notice.is_none());
    let explicit = select_model_adaptive(&req(Some("big:14b"), None, None), &reg, 5).unwrap();
    assert_eq!(explicit.model, "big:14b");
    match explicit.notice {
        Some(Notice::SlowExplicit { model, speed, file_count, .. }) => {
            assert_eq!(model, "big:14b");
            assert_eq!(speed, SpeedClass::Slow);
            assert_eq!(file_count, 5);
        }
        _ => panic!("slow-model advisory expected"),
    }
}

#[test]
fn adaptive_leaves_unknown_and_quick_models() {
    let reg = Ok(registry());
    let unknown = select_model_adaptive(&req(None, None, Some("not-listed")), &reg, 4).unwrap();
    assert_eq!(unknown.model, "not-listed");
    assert!(unknown.notice.is_none());
    let quick = select_model_adaptive(&req(None, Some("quick-review"), None), &reg, 4).unwrap();
    assert_eq!(quick.model, "small:3b");
    assert!(quick.notice.is_none());
    let mut only_slow = registry();
    only_slow.models = vec![info("mid:7b", SpeedClass::Moderate)];
    let kept = select_model_adaptive(&req(None, None, None), &Ok(only_slow), 4).unwrap();
    assert_eq!(kept.model, "mid:7b");
    assert!(kept.notice.is_none());
}

#[test]
fn speed_labels() {
    assert_eq!(SpeedClass::from_label("very-fast"), SpeedClass::VeryFast);
    assert_eq!(SpeedClass::from_label("fast"), SpeedClass::Fast);
    assert_eq!(SpeedClass::from_label("moderate"), SpeedClass::Moderate);
    assert_eq!(SpeedClass::from_label("slow"), SpeedClass::Slow);
    assert_eq!(SpeedClass::from_label("glacial"), SpeedClass::Unrated);
    assert!(SpeedClass::Moderate.is_slow());
    assert!(!SpeedClass::Unrated.is_slow());
    assert!(SpeedClass::VeryFast.is_quick());
}
