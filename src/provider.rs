use vstd::prelude::*;
use crate::error::{ErrorCodes, OAuth2Error};

verus! {

/// Host name of a provider's SMTP relay.
#[derive(Clone, Debug, Default, PartialEq, Eq, Hash)]
pub struct SmtpHostName(pub String);

/// Port of a provider's SMTP relay.
#[derive(Clone, Copy, Debug, Default, PartialEq, Eq, Structural)]
pub struct SmtpPort(pub u16);

/// Address of a provider's user-profile endpoint.
#[derive(Clone, Debug)]
pub struct ProfileUrl(pub String);

/// One provider / app registration as a caller describes it.  Every field
/// may be absent; the operations say which ones they need.
#[derive(Clone)]
pub struct InputParameters {
    pub process: Option<String>,
    pub provider: Option<String>,
    pub authorization_endpoint: Option<String>,
    pub token_endpoint: Option<String>,
    pub device_auth_endpoint: Option<String>,
    pub scopes: Option<Vec<String>>,
    pub client_id: Option<String>,
    pub client_secret: Option<String>,
    pub id_token: Option<String>,
}

/// The task key of a process and a provider: the two names followed by the
/// name of the flow.  It names the token file and the running session.
pub open spec fn task_key(process: Seq<char>, provider: Seq<char>) -> Seq<char> {
    process + provider + "DeviceCodeFlow"@
}

impl InputParameters {
    /// Both names that make up the task key are present.
    pub open spec fn has_identity(&self) -> bool {
        self.process is Some && self.provider is Some
    }

    /// The task key of this descriptor, meaningful when `has_identity` holds.
    pub open spec fn key_view(&self) -> Seq<char> {
        task_key(self.process->0@, self.provider->0@)
    }
}

/// Derives the task key (also the token file name) of a descriptor; a
/// descriptor without a process or provider name is a configuration error.
pub fn make_filename(param: &InputParameters) -> (r: Result<String, OAuth2Error>)
    ensures
        r is Ok <==> param.has_identity(),
        r matches Ok(k) ==> k@ == param.key_view(),
        r matches Err(e) ==> e.error_code == ErrorCodes::ConfigError,
        param.process is None ==> (r matches Err(e) && e.message@ == "No Process Name supplied."@),
        param.process is Some && param.provider is None ==> (r matches Err(e) && e.message@
            == "No Provider Name supplied."@),
{
    let process = match &param.process {
        Some(p) => p,
        None => {
            return Err(
                OAuth2Error::new(ErrorCodes::ConfigError, String::from_str("No Process Name supplied.")),
            );
        },
    };
    let provider = match &param.provider {
        Some(p) => p,
        None => {
            return Err(
                OAuth2Error::new(ErrorCodes::ConfigError, String::from_str("No Provider Name supplied.")),
            );
        },
    };
    let key = process.clone().concat(provider.as_str()).concat("DeviceCodeFlow");
    Ok(key)
}

/// The identity and scopes of a login request.
#[derive(Clone, Debug)]
pub struct DeviceCodeFlowParam {
    process: String,
    provider: String,
    scopes: Vec<String>,
}

impl DeviceCodeFlowParam {
    pub closed spec fn process_view(&self) -> Seq<char> {
        self.process@
    }

    pub closed spec fn provider_view(&self) -> Seq<char> {
        self.provider@
    }

    pub closed spec fn scopes_view(&self) -> Seq<Seq<char>> {
        self.scopes@.map_values(|s: String| s@)
    }

    pub fn new(process: String, provider: String, scopes: Vec<String>) -> (r: Self)
        ensures
            r.process_view() == process@,
            r.provider_view() == provider@,
            r.scopes_view() == scopes@.map_values(|s: String| s@),
    {
        DeviceCodeFlowParam { process, provider, scopes }
    }

    /// The process name followed by the provider name.
    pub fn label(&self) -> (r: String)
        ensures
            r@ == self.process_view() + self.provider_view(),
    {
        self.process.clone().concat(self.provider.as_str())
    }
}

} // verus!
