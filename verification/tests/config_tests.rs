use terraform_settings_mapper::config::{Config, Defaults, WorkspaceTarget};

fn target(token: Option<&str>, api_url: Option<&str>, output_file: Option<&str>) -> WorkspaceTarget {
    WorkspaceTarget {
        org: "my-org".to_string(),
        workspace: "production".to_string(),
        token: token.map(str::to_string),
        api_url: api_url.map(str::to_string),
        output_file: output_file.map(str::to_string),
    }
}

#[test]
fn key_joins_org_and_workspace() {
    assert_eq!(target(None, None, None).key(), "my-org/production");
}

#[test]
fn token_prefers_workspace_then_config_then_cli() {
    let own = target(Some("ws-tok"), None, None);
    assert_eq!(own.effective_token(Some("cli"), Some("cfg")).as_deref(), Some("ws-tok"));
    let none = target(None, None, None);
    assert_eq!(none.effective_token(Some("cli"), Some("cfg")).as_deref(), Some("cfg"));
    assert_eq!(none.effective_token(Some("cli"), None).as_deref(), Some("cli"));
    assert_eq!(none.effective_token(None, None), None);
}

#[test]
fn api_url_prefers_workspace_then_config_then_terraform_cloud() {
    let own = target(None, Some("https://tfe.mycompany.com/"), None);
    assert_eq!(own.effective_api_url(Some("https://other.example")), "https://tfe.mycompany.com");
    let none = target(None, None, None);
    assert_eq!(none.effective_api_url(Some("https://cfg.example//")), "https://cfg.example");
    assert_eq!(none.effective_api_url(None), "https://app.terraform.io");
    assert_eq!(target(None, Some("///"), None).effective_api_url(None), "");
}

#[test]
fn output_filename_is_custom_or_derived() {
    assert_eq!(target(None, None, Some("custom.tf")).output_filename(), "custom.tf");
    assert_eq!(target(None, None, None).output_filename(), "my-org__production.tf");
}

#[test]
fn defaults_are_empty() {
    let d = Defaults::default();
    assert!(d.token.is_none() && d.api_url.is_none() && d.output_dir.is_none());
    let c = Config { defaults: d, workspaces: vec![target(None, None, None)] };
    assert_eq!(c.workspaces.len(), 1);
}
