use terraform_settings_mapper::config::{Defaults, WorkspaceTarget};
use terraform_settings_mapper::progress::Progress;
use terraform_settings_mapper::run::{output_dir, plan_target, record_outcome, TargetStep};

fn target(token: Option<&str>, api_url: Option<&str>) -> WorkspaceTarget {
    WorkspaceTarget {
        org: "acme".to_string(),
        workspace: "prod".to_string(),
        token: token.map(str::to_string),
        api_url: api_url.map(str::to_string),
        output_file: None,
    }
}

fn defaults(token: Option<&str>, api_url: Option<&str>, dir: Option<&str>) -> Defaults {
    Defaults {
        token: token.map(str::to_string),
        api_url: api_url.map(str::to_string),
        output_dir: dir.map(str::to_string),
    }
}

#[test]
fn done_targets_are_skipped() {
    let p = Progress::from_keys(vec!["acme/prod".to_string()], vec![]);
    assert!(matches!(plan_target(&p, &target(Some("t"), None), Some("cli"), None), TargetStep::Skip));
}

#[test]
fn targets_without_a_token_fail() {
    let p = Progress::from_keys(vec![], vec!["acme/prod".to_string()]);
    let d = defaults(None, Some("https://cfg.example"), None);
    assert!(matches!(plan_target(&p, &target(None, None), None, Some(&d)), TargetStep::Fail));
    assert!(matches!(plan_target(&p, &target(None, None), None, None), TargetStep::Fail));
}

#[test]
fn targets_are_fetched_with_the_resolved_settings() {
    let p = Progress::from_keys(vec!["other/ws".to_string()], vec![]);
    let d = defaults(Some("cfg-tok"), Some("https://cfg.example/"), None);
    match plan_target(&p, &target(None, None), Some("cli-tok"), Some(&d)) {
        TargetStep::Fetch { token, api_url } => {
            assert_eq!(token, "cfg-tok");
            assert_eq!(api_url, "https://cfg.example");
        }
        other => panic!("expected a fetch, got {other:?}"),
    }
    match plan_target(&p, &target(Some("own"), Some("https://own.example")), Some("cli-tok"), Some(&d)) {
        TargetStep::Fetch { token, api_url } => {
            assert_eq!(token, "own");
            assert_eq!(api_url, "https://own.example");
        }
        other => panic!("expected a fetch, got {other:?}"),
    }
    match plan_target(&p, &target(None, None), Some("cli-tok"), None) {
        TargetStep::Fetch { token, api_url } => {
            assert_eq!(token, "cli-tok");
            assert_eq!(api_url, "https://app.terraform.io");
        }
        other => panic!("expected a fetch, got {other:?}"),
    }
}

#[test]
fn output_dir_prefers_the_configured_one() {
    assert_eq!(output_dir(Some(&defaults(None, None, Some("out"))), "."), "out");
    assert_eq!(output_dir(Some(&defaults(None, None, None)), "cli-dir"), "cli-dir");
    assert_eq!(output_dir(None, "."), ".");
}

#[test]
fn a_run_resumes_where_it_stopped() {
    let mut p = Progress::from_keys(vec![], vec![]);
    record_outcome(&mut p, "a/1", true);
    record_outcome(&mut p, "a/2", false);
    assert!(p.is_done("a/1"));
    assert!(!p.is_done("a/2"));
    assert_eq!(p.failed_keys(), vec!["a/2"]);
    let t = WorkspaceTarget {
        org: "a".to_string(),
        workspace: "1".to_string(),
        token: Some("t".to_string()),
        api_url: None,
        output_file: None,
    };
    assert!(matches!(plan_target(&p, &t, None, None), TargetStep::Skip));
    record_outcome(&mut p, "a/2", true);
    assert!(p.is_done("a/2"));
    assert!(p.failed_keys().is_empty());
}
