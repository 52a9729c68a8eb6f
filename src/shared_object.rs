use vstd::prelude::*;
use crate::error::{ErrorCodes, OAuth2Error};

verus! {

/// The operations that callers can invoke on the device-code-flow object.
#[derive(Clone, Copy, Debug, PartialEq, Eq, Structural)]
pub enum Method {
    Login,
    Cancel,
    RequestToken,
    Logout,
}

/// The operation that a method name calls, if any.
pub open spec fn method_named(name: Seq<char>) -> Option<Method> {
    if name == "login"@ {
        Some(Method::Login)
    } else if name == "cancel"@ {
        Some(Method::Cancel)
    } else if name == "requestToken"@ {
        Some(Method::RequestToken)
    } else if name == "logout"@ {
        Some(Method::Logout)
    } else {
        None
    }
}

fn named(name: &String, literal: &str) -> (r: bool)
    ensures
        r == (name@ == literal@),
{
    *name == literal.to_owned()
}

/// Resolves the name of an inbound call; an unknown name is an invalid
/// call.
pub fn method_of(name: &str) -> (r: Result<Method, OAuth2Error>)
    ensures
        match method_named(name@) {
            Some(m) => r matches Ok(x) && x == m,
            None => r matches Err(e) && e.error_code == ErrorCodes::InvalidParameters && e.message@ == name@
                + " method not found."@,
        },
{
    let name = name.to_owned();
    if named(&name, "login") {
        Ok(Method::Login)
    } else if named(&name, "cancel") {
        Ok(Method::Cancel)
    } else if named(&name, "requestToken") {
        Ok(Method::RequestToken)
    } else if named(&name, "logout") {
        Ok(Method::Logout)
    } else {
        Err(OAuth2Error::new(ErrorCodes::InvalidParameters, name.concat(" method not found.")))
    }
}

} // verus!
