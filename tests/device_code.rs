use std::time::Duration;

use modern_auth_service::device_code_flow::plan_login;
use modern_auth_service::provider::InputParameters;
use oauth2::basic::BasicClient;
use oauth2::http::{HeaderValue, StatusCode};
use oauth2::{
    AuthType, ClientId, DeviceAuthorizationUrl, HttpRequest, HttpResponse, Scope,
    StandardDeviceAuthorizationResponse, TokenUrl,
};

fn descriptor() -> InputParameters {
    InputParameters {
        authorization_endpoint: Some(
            "https://login.microsoftonline.com/common/oauth2/v2.0/authorize".to_string(),
        ),
        token_endpoint: Some("https://login.microsoftonline.com/common/oauth2/v2.0/token".to_string()),
        device_auth_endpoint: Some(
            "https://login.microsoftonline.com/common/oauth2/v2.0/devicecode".to_string(),
        ),
        scopes: Some(vec![
            "offline_access".to_string(),
            "https://outlook.office.com/SMTP.Send".to_string(),
            "https://outlook.office.com/User.Read".to_string(),
        ]),
        client_id: Some("64c5d510-4b7e-4a18-8869-89778461c266".to_string()),
        client_secret: None,
        process: Some("Process Name".to_string()),
        provider: Some("Microsoft".to_string()),
        id_token: None,
    }
}

fn scripted_server(request: HttpRequest) -> Result<HttpResponse, std::io::Error> {
    assert_eq!(
        request.uri().to_string(),
        "https://login.microsoftonline.com/common/oauth2/v2.0/devicecode"
    );
    let sent = String::from_utf8(request.body().clone()).unwrap();
    assert!(sent.contains("client_id=64c5d510-4b7e-4a18-8869-89778461c266"));
    assert!(sent.contains("offline_access"));
    let body = r#"{"user_code":"usercode-123","device_code":"devicecode-123","verification_uri":"https://verification_url","expires_in":20,"interval":1,"message":"Mock message"}"#.as_bytes().to_vec();
    let mut response = HttpResponse::new(body);
    *response.status_mut() = StatusCode::OK;
    response.headers_mut().insert(
        "content-type",
        HeaderValue::from_static("application/json; charset=utf-8"),
    );
    Ok(response)
}

#[test]
fn device_code_answer_keeps_server_values() {
    let plan = match plan_login(&descriptor()) {
        Ok(plan) => plan,
        Err(e) => panic!("{}", e.message),
    };
    let client = BasicClient::new(ClientId::new(plan.flow.client_id().clone()))
        .set_auth_type(AuthType::RequestBody)
        .set_token_uri(TokenUrl::new(plan.flow.token_endpoint().clone()).unwrap())
        .set_device_authorization_url(
            DeviceAuthorizationUrl::new(plan.flow.device_auth_endpoint().clone()).unwrap(),
        );
    let result: StandardDeviceAuthorizationResponse = client
        .exchange_device_code()
        .add_scopes(plan.scopes.into_iter().map(Scope::new))
        .request(&scripted_server)
        .unwrap();

    assert_eq!(result.device_code().secret(), "devicecode-123");
    assert_eq!(result.expires_in(), Duration::from_secs(20));
    assert_eq!(result.user_code().secret(), "usercode-123");
    assert_eq!(result.verification_uri().as_str(), "https://verification_url");
    assert_eq!(result.interval(), Duration::from_secs(1));
}
