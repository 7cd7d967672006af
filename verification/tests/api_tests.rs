use terraform_settings_mapper::api::{
    is_success, FetchAction, FetchErrorKind, FetchEvent, FetchState, FetchStep, TfcClient,
};

fn client() -> TfcClient {
    TfcClient::new("tok", "https://app.terraform.io//").expect("client builds")
}

fn sent_url(a: &FetchAction) -> String {
    match a {
        FetchAction::Send { url, authorization, content_type } => {
            assert_eq!(authorization, "Bearer tok");
            assert_eq!(content_type, "application/vnd.api+json");
            url.clone()
        }
        other => panic!("expected a request, got {other:?}"),
    }
}

#[test]
fn success_status_range() {
    assert!(is_success(200));
    assert!(is_success(299));
    assert!(!is_success(199));
    assert!(!is_success(300));
    assert!(!is_success(404));
}

#[test]
fn download_walks_three_requests() {
    let c = client();
    let (st, act) = c.begin_fetch("my-org", "prod");
    assert_eq!(sent_url(&act), "https://app.terraform.io/api/v2/organizations/my-org/workspaces/prod");

    assert!(st.accepts(&FetchEvent::Status(200)));
    assert!(!st.accepts(&FetchEvent::StateReceived));
    let (st, act) = c.advance_fetch(st, FetchEvent::Status(200));
    assert!(matches!(act, FetchAction::Decode));
    let (st, act) = c.advance_fetch(st, FetchEvent::WorkspaceId("ws-123".to_string()));
    assert_eq!(sent_url(&act), "https://app.terraform.io/api/v2/workspaces/ws-123/current-state-version");

    let (st, _) = c.advance_fetch(st, FetchEvent::Status(201));
    assert!(!st.accepts(&FetchEvent::WorkspaceId("x".to_string())));
    let (st, act) = c.advance_fetch(st, FetchEvent::DownloadUrl("https://archivist.example/s".to_string()));
    assert_eq!(sent_url(&act), "https://archivist.example/s");

    let (st, _) = c.advance_fetch(st, FetchEvent::Status(200));
    let (st, act) = c.advance_fetch(st, FetchEvent::StateReceived);
    assert!(matches!(act, FetchAction::Finish));
    assert!(matches!(st, FetchState::Finished));
    assert!(!st.accepts(&FetchEvent::Status(200)));
}

#[test]
fn error_status_fails_the_step() {
    let c = client();
    let (st, _) = c.begin_fetch("o", "w");
    let (st, act) = c.advance_fetch(st, FetchEvent::Status(404));
    assert!(matches!(st, FetchState::Failed));
    match act {
        FetchAction::Fail(e) => {
            assert_eq!(e.step, FetchStep::Workspace);
            assert_eq!(e.kind, FetchErrorKind::Status(404));
            assert_eq!(e.url, "https://app.terraform.io/api/v2/organizations/o/workspaces/w");
        }
        other => panic!("expected a failure, got {other:?}"),
    }
}

#[test]
fn send_and_body_failures() {
    let c = client();
    let (st, _) = c.begin_fetch("o", "w");
    let (_, act) = c.advance_fetch(st, FetchEvent::SendFailed);
    assert!(matches!(act, FetchAction::Fail(ref e) if e.kind == FetchErrorKind::Send));

    let (st, _) = c.begin_fetch("o", "w");
    let (st, _) = c.advance_fetch(st, FetchEvent::Status(200));
    let (st, _) = c.advance_fetch(st, FetchEvent::WorkspaceId("id".to_string()));
    let (st, _) = c.advance_fetch(st, FetchEvent::Status(200));
    let (st, act) = c.advance_fetch(st, FetchEvent::BodyInvalid);
    assert!(matches!(st, FetchState::Failed));
    match act {
        FetchAction::Fail(e) => {
            assert_eq!(e.step, FetchStep::StateVersion);
            assert_eq!(e.kind, FetchErrorKind::Body);
            assert_eq!(e.url, "https://app.terraform.io/api/v2/workspaces/id/current-state-version");
        }
        other => panic!("expected a failure, got {other:?}"),
    }
}

#[test]
fn base_url_without_trailing_slash_is_kept() {
    let c = TfcClient::new("t", "https://tfe.example").expect("client builds");
    let (_, act) = c.begin_fetch("a", "b");
    match act {
        FetchAction::Send { url, authorization, .. } => {
            assert_eq!(url, "https://tfe.example/api/v2/organizations/a/workspaces/b");
            assert_eq!(authorization, "Bearer t");
        }
        other => panic!("expected a request, got {other:?}"),
    }
}

#[test]
fn from_http_keeps_a_built_client() {
    let http = reqwest::Client::builder().build();
    assert!(http.is_ok());
    let c = TfcClient::from_http(http, "tok", "https://tfe.example/").expect("client kept");
    let (_, act) = c.begin_fetch("o", "w");
    assert_eq!(sent_url(&act), "https://tfe.example/api/v2/organizations/o/workspaces/w");
    let _ = c.http();
}

#[test]
fn from_http_reports_a_build_error() {
    let http = reqwest::Client::builder().user_agent("bad\nagent").build();
    assert!(http.is_err());
    let res = TfcClient::from_http(http, "tok", "https://tfe.example");
    assert!(matches!(res, Err(terraform_settings_mapper::api::ApiError::ClientBuild(_))));
}

fn failure(c: &TfcClient, st: FetchState, ev: FetchEvent) -> terraform_settings_mapper::api::FetchError {
    match c.advance_fetch(st, ev).1 {
        FetchAction::Fail(e) => e,
        other => panic!("expected a failure, got {other:?}"),
    }
}

#[test]
fn download_404_after_three_requests_reports_its_status() {
    let c = client();
    let (st, act) = c.begin_fetch("acme", "prod");
    let mut requests = vec![sent_url(&act)];
    let (st, _) = c.advance_fetch(st, FetchEvent::Status(200));
    let (st, act) = c.advance_fetch(st, FetchEvent::WorkspaceId("ws-1".to_string()));
    requests.push(sent_url(&act));
    let (st, _) = c.advance_fetch(st, FetchEvent::Status(200));
    let (st, act) = c.advance_fetch(st, FetchEvent::DownloadUrl("https://dl.example/s".to_string()));
    requests.push(sent_url(&act));
    let e = failure(&c, st, FetchEvent::Status(404));
    assert_eq!(requests.len(), 3);
    assert_eq!(e.contexts(), vec!["State download failed with status 404 Not Found".to_string()]);
}

#[test]
fn request_failures_name_the_request() {
    let c = client();
    let (st, _) = c.begin_fetch("o", "w");
    let e = failure(&c, st, FetchEvent::Status(500));
    assert_eq!(
        e.contexts(),
        vec![
            "Failed to fetch workspace".to_string(),
            "HTTP 500 Internal Server Error for https://app.terraform.io/api/v2/organizations/o/workspaces/w".to_string(),
        ]
    );

    let (st, _) = c.begin_fetch("o", "w");
    let e = failure(&c, st, FetchEvent::SendFailed);
    assert_eq!(
        e.contexts(),
        vec![
            "Failed to fetch workspace".to_string(),
            "GET https://app.terraform.io/api/v2/organizations/o/workspaces/w".to_string(),
        ]
    );

    let (st, _) = c.begin_fetch("o", "w");
    let (st, _) = c.advance_fetch(st, FetchEvent::Status(200));
    let (st, _) = c.advance_fetch(st, FetchEvent::WorkspaceId("id".to_string()));
    let (st, _) = c.advance_fetch(st, FetchEvent::Status(200));
    let e = failure(&c, st, FetchEvent::BodyInvalid);
    assert_eq!(
        e.contexts(),
        vec![
            "Failed to fetch current state version".to_string(),
            "Parsing JSON from https://app.terraform.io/api/v2/workspaces/id/current-state-version".to_string(),
        ]
    );
}

#[test]
fn download_send_and_body_failures() {
    let c = client();
    let (st, _) = c.begin_fetch("o", "w");
    let (st, _) = c.advance_fetch(st, FetchEvent::Status(200));
    let (st, _) = c.advance_fetch(st, FetchEvent::WorkspaceId("id".to_string()));
    let (st, _) = c.advance_fetch(st, FetchEvent::Status(200));
    let (st, _) = c.advance_fetch(st, FetchEvent::DownloadUrl("https://dl.example/s".to_string()));
    let e = failure(&c, st, FetchEvent::SendFailed);
    assert_eq!(e.contexts(), vec!["Failed to download state file".to_string()]);

    let (st, _) = c.begin_fetch("o", "w");
    let (st, _) = c.advance_fetch(st, FetchEvent::Status(200));
    let (st, _) = c.advance_fetch(st, FetchEvent::WorkspaceId("id".to_string()));
    let (st, _) = c.advance_fetch(st, FetchEvent::Status(200));
    let (st, _) = c.advance_fetch(st, FetchEvent::DownloadUrl("https://dl.example/s".to_string()));
    let (st, _) = c.advance_fetch(st, FetchEvent::Status(200));
    let e = failure(&c, st, FetchEvent::BodyInvalid);
    assert_eq!(e.contexts(), vec!["Failed to parse state JSON".to_string()]);
}

#[test]
fn client_build_error_message() {
    let http = reqwest::Client::builder().user_agent("bad\nagent").build();
    match TfcClient::from_http(http, "tok", "https://tfe.example") {
        Err(e) => assert_eq!(e.context(), "Failed to build HTTP client"),
        Ok(_) => panic!("expected a build error"),
    }
}
