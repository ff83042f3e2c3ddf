use shc_core::auth::{ApiError, AuthFlow, RefreshAction, RefreshOutcome, ResponseAction, StartAction};
use shc_core::config::AppConfig;
use shc_core::request::Descriptor;

fn logged_in_config() -> AppConfig {
    let mut cfg = AppConfig::new();
    cfg.set_session(
        "access-1".to_string(),
        "refresh-1".to_string(),
        "user@example.com".to_string(),
        "User".to_string(),
        "uid-1".to_string(),
    );
    cfg
}

fn renewed_outcome() -> RefreshOutcome {
    RefreshOutcome::Renewed {
        access_token: "access-2".to_string(),
        refresh_token: "refresh-2".to_string(),
        email: "user@example.com".to_string(),
        name: "User".to_string(),
        user_id: "uid-1".to_string(),
    }
}

#[test]
fn list_with_valid_token_succeeds_without_refresh() {
    let d = Descriptor::list_files("");
    assert_eq!(d.path, "/api/files?search=&page=1&limit=100");
    assert!(d.requires_auth);

    let (mut flow, start) = AuthFlow::start(logged_in_config(), d.requires_auth);
    match start {
        StartAction::Send { auth } => assert_eq!(auth.as_deref(), Some("access-1")),
        StartAction::Fail { .. } => panic!("a valid token must send at once"),
    }
    match flow.on_response(200) {
        ResponseAction::Succeed => {}
        _ => panic!("a 2xx must succeed with no refresh"),
    }
    let cfg = flow.into_config();
    assert_eq!(cfg.access_token.as_deref(), Some("access-1"));
    assert_eq!(cfg.refresh_token.as_deref(), Some("refresh-1"));
}

#[test]
fn expired_token_refreshes_once_and_retries() {
    let d = Descriptor::list_files("report");
    assert_eq!(d.path, "/api/files?search=report&page=1&limit=100");

    let (mut flow, start) = AuthFlow::start(logged_in_config(), d.requires_auth);
    match start {
        StartAction::Send { auth } => assert_eq!(auth.as_deref(), Some("access-1")),
        StartAction::Fail { .. } => panic!("a valid token must send at once"),
    }
    match flow.on_response(401) {
        ResponseAction::SendRefresh { refresh } => assert_eq!(refresh, "refresh-1"),
        _ => panic!("the first 401 must ask for a refresh"),
    }
    match flow.on_refresh(renewed_outcome()) {
        RefreshAction::PersistAndRetry { auth } => assert_eq!(auth, "access-2"),
        _ => panic!("a renewal must persist and retry"),
    }
    // The store already holds the fresh pair before the retry goes out.
    assert_eq!(flow.config.access_token.as_deref(), Some("access-2"));
    assert_eq!(flow.config.refresh_token.as_deref(), Some("refresh-2"));
    match flow.on_response(200) {
        ResponseAction::Succeed => {}
        _ => panic!("the retried request must succeed transparently"),
    }
}

#[test]
fn both_tokens_invalid_escalates_and_clears() {
    let d = Descriptor::remove_file("file123");
    assert_eq!(d.path, "/api/files/remove/file123");

    let (mut flow, _start) = AuthFlow::start(logged_in_config(), d.requires_auth);
    match flow.on_response(401) {
        ResponseAction::SendRefresh { refresh } => assert_eq!(refresh, "refresh-1"),
        _ => panic!("the first 401 must ask for a refresh"),
    }
    match flow.on_refresh(RefreshOutcome::Rejected { status: 401 }) {
        RefreshAction::Escalate { error } => {
            assert_eq!(error, ApiError::ReauthenticationRequired)
        }
        _ => panic!("a rejected refresh must escalate"),
    }
    let cfg = flow.into_config();
    assert_eq!(cfg.access_token, None);
    assert_eq!(cfg.refresh_token, None);
    assert_eq!(cfg.email, None);
    assert_eq!(cfg.name, None);
    assert_eq!(cfg.user_id, None);
}

#[test]
fn second_401_after_refresh_escalates_and_clears() {
    let (mut flow, _start) = AuthFlow::start(logged_in_config(), true);
    match flow.on_response(401) {
        ResponseAction::SendRefresh { .. } => {}
        _ => panic!("the first 401 must ask for a refresh"),
    }
    match flow.on_refresh(renewed_outcome()) {
        RefreshAction::PersistAndRetry { .. } => {}
        _ => panic!("a renewal must persist and retry"),
    }
    match flow.on_response(401) {
        ResponseAction::Escalate { error } => {
            assert_eq!(error, ApiError::ReauthenticationRequired)
        }
        _ => panic!("a second 401 must escalate, not refresh again"),
    }
    assert_eq!(flow.config.access_token, None);
    assert_eq!(flow.config.refresh_token, None);
}

#[test]
fn start_without_token_fails_fast() {
    let (flow, start) = AuthFlow::start(AppConfig::new(), true);
    match start {
        StartAction::Fail { error } => assert_eq!(error, ApiError::NotAuthenticated),
        StartAction::Send { .. } => panic!("no token: nothing may be sent"),
    }
    assert_eq!(flow.into_config(), AppConfig::new());
}

#[test]
fn unauthorized_operation_sends_no_token() {
    let d = Descriptor::upload_payload("https://bucket.example/presigned");
    assert!(!d.requires_auth);
    let (mut flow, start) = AuthFlow::start(AppConfig::new(), d.requires_auth);
    match start {
        StartAction::Send { auth } => assert_eq!(auth, None),
        StartAction::Fail { .. } => panic!("an unauthorized request needs no token"),
    }
    // A 401 on an unauthorized request is not refreshed: it surfaces verbatim.
    match flow.on_response(401) {
        ResponseAction::Fail { error } => assert_eq!(error, ApiError::Unexpected { status: 401 }),
        _ => panic!("no refresh without a token requirement"),
    }
}

#[test]
fn other_statuses_surface_verbatim() {
    let (mut flow, _start) = AuthFlow::start(logged_in_config(), true);
    match flow.on_response(500) {
        ResponseAction::Fail { error } => assert_eq!(error, ApiError::Unexpected { status: 500 }),
        _ => panic!("a 500 is neither retried nor refreshed"),
    }
    // The credentials stay as they were.
    assert_eq!(flow.config.access_token.as_deref(), Some("access-1"));
}

#[test]
fn refresh_transport_and_decode_failures_propagate() {
    let (mut flow, _start) = AuthFlow::start(logged_in_config(), true);
    flow.on_response(401);
    match flow.on_refresh(RefreshOutcome::TransportFailed) {
        RefreshAction::Fail { error } => assert_eq!(error, ApiError::Transport),
        _ => panic!("a transport failure propagates"),
    }
    assert_eq!(flow.config.access_token.as_deref(), Some("access-1"));

    let (mut flow2, _start2) = AuthFlow::start(logged_in_config(), true);
    flow2.on_response(401);
    match flow2.on_refresh(RefreshOutcome::DecodeFailed) {
        RefreshAction::Fail { error } => assert_eq!(error, ApiError::Decode),
        _ => panic!("a decode failure propagates"),
    }
    assert_eq!(flow2.config.refresh_token.as_deref(), Some("refresh-1"));
}
