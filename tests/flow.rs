use modern_auth_service::device_code_flow::{
    access_step, cancel, failure_error, logout_result, plan_login, read_token, refresh_step,
    registration, session_result, AccessStep, DeleteOutcome, ExchangeFailure, RefreshStep,
};
use modern_auth_service::error::ErrorCodes;
use modern_auth_service::provider::{make_filename, DeviceCodeFlowParam, InputParameters};
use modern_auth_service::shared_object::{method_of, Method};
use modern_auth_service::task_manager::TaskMessage;
use modern_auth_service::token_keeper::{TokenRecord, TokenResponse};

fn build_mock_provider() -> InputParameters {
    InputParameters {
        authorization_endpoint: Some(
            "https://login.microsoftonline.com/common/oauth2/v2.0/authorize".to_string(),
        ),
        token_endpoint: Some("https://login.microsoftonline.com/common/oauth2/v2.0/token".to_string()),
        device_auth_endpoint: Some(
            "https://login.microsoftonline.com/common/oauth2/v2.0/devicecode".to_string(),
        ),
        scopes: Some(vec![
            "offline_access".to_string(),
            "https://outlook.office.com/SMTP.Send".to_string(),
            "https://outlook.office.com/User.Read".to_string(),
        ]),
        client_id: Some("64c5d510-4b7e-4a18-8869-89778461c266".to_string()),
        client_secret: None,
        process: Some("Process Name".to_string()),
        provider: Some("Microsoft".to_string()),
        id_token: None,
    }
}

fn record(expires_at: Option<u64>, refresh: Option<&str>) -> TokenRecord {
    TokenRecord {
        access_token: "access-1".to_string(),
        refresh_token: refresh.map(|s| s.to_string()),
        token_type: "Bearer".to_string(),
        expires_at,
        id_token: None,
    }
}

fn response(refresh: Option<&str>, expires_in: Option<u64>) -> TokenResponse {
    TokenResponse {
        access_token: "access-2".to_string(),
        refresh_token: refresh.map(|s| s.to_string()),
        token_type: "Bearer".to_string(),
        expires_in,
        id_token: Some("header.payload.signature".to_string()),
    }
}

#[test]
fn task_key_joins_process_provider_and_flow() {
    let key = make_filename(&build_mock_provider()).unwrap();
    assert_eq!(key, "Process NameMicrosoftDeviceCodeFlow");
}

#[test]
fn task_key_needs_process_and_provider() {
    let mut p = build_mock_provider();
    p.process = None;
    let e = make_filename(&p).err().unwrap();
    assert_eq!(e.error_code, ErrorCodes::ConfigError);
    assert_eq!(e.message, "No Process Name supplied.");
    let mut p = build_mock_provider();
    p.provider = None;
    let e = make_filename(&p).err().unwrap();
    assert_eq!(e.error_code, ErrorCodes::ConfigError);
    assert_eq!(e.message, "No Provider Name supplied.");
}

#[test]
fn login_plan_carries_the_descriptor() {
    let plan = plan_login(&build_mock_provider()).unwrap();
    assert_eq!(plan.key, "Process NameMicrosoftDeviceCodeFlow");
    assert_eq!(plan.flow.client_id(), "64c5d510-4b7e-4a18-8869-89778461c266");
    assert_eq!(plan.flow.client_secret(), &None);
    assert_eq!(
        plan.flow.token_endpoint(),
        "https://login.microsoftonline.com/common/oauth2/v2.0/token"
    );
    assert_eq!(
        plan.flow.device_auth_endpoint(),
        "https://login.microsoftonline.com/common/oauth2/v2.0/devicecode"
    );
    assert_eq!(plan.scopes.len(), 3);
    assert_eq!(plan.scopes[0], "offline_access");
}

#[test]
fn login_without_required_fields_is_a_config_error() {
    for field in 0..4 {
        let mut p = build_mock_provider();
        match field {
            0 => p.client_id = None,
            1 => p.device_auth_endpoint = None,
            2 => p.token_endpoint = None,
            _ => p.scopes = None,
        }
        assert_eq!(plan_login(&p).err().unwrap().error_code, ErrorCodes::ConfigError);
    }
}

#[test]
fn token_request_does_not_need_scopes() {
    let mut p = build_mock_provider();
    p.scopes = None;
    p.client_secret = Some("secret".to_string());
    let (key, flow) = registration(&p).unwrap();
    assert_eq!(key, "Process NameMicrosoftDeviceCodeFlow");
    assert_eq!(flow.client_secret(), &Some("secret".to_string()));
}

#[test]
fn cancel_aborts_the_session_of_the_key() {
    match cancel(&build_mock_provider()).unwrap() {
        TaskMessage::Abort(k) => assert_eq!(k, "Process NameMicrosoftDeviceCodeFlow"),
        _ => panic!("cancel must abort"),
    }
    let mut p = build_mock_provider();
    p.provider = None;
    assert_eq!(cancel(&p).err().unwrap().error_code, ErrorCodes::ConfigError);
}

#[test]
fn missing_token_file_is_no_token() {
    assert_eq!(read_token(None).err().unwrap().error_code, ErrorCodes::NoToken);
}

#[test]
fn corrupt_token_file_is_a_serialization_error() {
    assert_eq!(
        read_token(Some("{\"access_token\": 1}")).err().unwrap().error_code,
        ErrorCodes::SerializationError
    );
}

#[test]
fn valid_token_is_handed_out() {
    match access_step(record(Some(2000), Some("r")), 1999) {
        AccessStep::Ready(r) => assert_eq!(r.access_token, "access-1"),
        _ => panic!("token is still valid"),
    }
}

#[test]
fn expired_token_with_refresh_token_is_refreshed() {
    match access_step(record(Some(2000), Some("refresh-1")), 2000) {
        AccessStep::Refresh(t) => assert_eq!(t, "refresh-1"),
        _ => panic!("token must be refreshed"),
    }
}

#[test]
fn expired_token_without_refresh_token_is_discarded() {
    match access_step(record(Some(2000), None), 2500) {
        AccessStep::Discard(e) => assert_eq!(e.error_code, ErrorCodes::NoToken),
        _ => panic!("token must be discarded"),
    }
}

#[test]
fn refresh_saves_the_answer_as_sent() {
    match refresh_step(Ok(response(None, Some(3600))), 100) {
        RefreshStep::Save(r) => {
            assert_eq!(r.access_token, "access-2");
            assert_eq!(r.refresh_token, None);
            assert_eq!(r.expires_at, Some(3700));
            assert_eq!(r.id_token, Some("header.payload.signature".to_string()));
        }
        _ => panic!("token must be saved"),
    }
    match refresh_step(Ok(response(Some("refresh-2"), None)), 100) {
        RefreshStep::Save(r) => {
            assert_eq!(r.refresh_token, Some("refresh-2".to_string()));
            assert_eq!(r.expires_at, None);
        }
        _ => panic!("token must be saved"),
    }
}

#[test]
fn invalid_grant_discards_and_other_errors_fail() {
    match refresh_step(Err(ExchangeFailure::InvalidGrant), 0) {
        RefreshStep::Discard(e) => assert_eq!(e.error_code, ErrorCodes::NoToken),
        _ => panic!("invalid_grant must discard"),
    }
    match refresh_step(Err(ExchangeFailure::Server("server_error".to_string())), 0) {
        RefreshStep::Fail(e) => {
            assert_eq!(e.error_code, ErrorCodes::ProviderError);
            assert_eq!(e.message, "server_error");
        }
        _ => panic!("a server error must fail"),
    }
    match refresh_step(Err(ExchangeFailure::Transport("connection refused".to_string())), 0) {
        RefreshStep::Fail(e) => {
            assert_eq!(e.error_code, ErrorCodes::TransportError);
            assert_eq!(e.message, "connection refused");
        }
        _ => panic!("a transport error must fail"),
    }
}

#[test]
fn exchange_failures_map_to_error_kinds() {
    let denied = failure_error(ExchangeFailure::AccessDenied);
    assert_eq!(denied.error_code, ErrorCodes::ProviderError);
    assert_eq!(denied.message, "access_denied");
    let expired = failure_error(ExchangeFailure::ExpiredToken);
    assert_eq!(expired.error_code, ErrorCodes::ProviderError);
    assert_eq!(expired.message, "expired_token");
    let refused = failure_error(ExchangeFailure::InvalidGrant);
    assert_eq!(refused.error_code, ErrorCodes::ProviderError);
    assert_eq!(refused.message, "invalid_grant");
    assert_eq!(failure_error(ExchangeFailure::Malformed).error_code, ErrorCodes::ProviderError);
    let lost = failure_error(ExchangeFailure::Transport("timed out".to_string()));
    assert_eq!(lost.error_code, ErrorCodes::TransportError);
    assert_eq!(lost.message, "timed out");
}

#[test]
fn session_result_keeps_token_with_absolute_expiry() {
    let r = session_result(Ok(response(Some("refresh-9"), Some(20))), 1_000).unwrap();
    assert_eq!(r.expires_at, Some(1_020));
    assert_eq!(r.refresh_token, Some("refresh-9".to_string()));
    let e = session_result(Err(ExchangeFailure::AccessDenied), 1_000).err().unwrap();
    assert_eq!(e.error_code, ErrorCodes::ProviderError);
    assert_eq!(e.message, "access_denied");
    let e = session_result(Err(ExchangeFailure::Server("slow_down".to_string())), 1_000).err().unwrap();
    assert_eq!(e.message, "slow_down");
}

#[test]
fn logout_twice_without_token_succeeds() {
    assert!(logout_result(DeleteOutcome::Absent).unwrap());
    assert!(logout_result(DeleteOutcome::Absent).unwrap());
    assert!(logout_result(DeleteOutcome::Removed).unwrap());
    assert_eq!(
        logout_result(DeleteOutcome::Failed).err().unwrap().error_code,
        ErrorCodes::ConfigError
    );
}

#[test]
fn method_names_resolve() {
    assert_eq!(method_of("login").unwrap(), Method::Login);
    assert_eq!(method_of("cancel").unwrap(), Method::Cancel);
    assert_eq!(method_of("requestToken").unwrap(), Method::RequestToken);
    assert_eq!(method_of("logout").unwrap(), Method::Logout);
    let e = method_of("refresh").err().unwrap();
    assert_eq!(e.error_code, ErrorCodes::InvalidParameters);
    assert_eq!(e.message, "refresh method not found.");
}

#[test]
fn flow_param_label_is_process_then_provider() {
    let p = DeviceCodeFlowParam::new(
        "Process Name".to_string(),
        "Microsoft".to_string(),
        vec!["offline_access".to_string()],
    );
    assert_eq!(p.label(), "Process NameMicrosoft");
}
