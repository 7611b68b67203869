//! The push-notification channel's credentials and the interpretation of a
//! delivery response. Sending itself is outbound network work and stays
//! with the caller; the decision of what a response means is made here.

use vstd::prelude::*;

verus! {

/// A rejected notification: the errors the delivery service reported.
pub struct PushoverFailure {
    pub errors: Vec<String>,
}

/// Credentials for the push-notification channel.
pub struct Pushover {
    pub user_key: String,
    pub app_token: String,
}

impl Pushover {
    /// Bundle the channel's credentials.
    pub fn new(user_key: String, app_token: String) -> (r: Pushover)
        ensures
            r.user_key == user_key,
            r.app_token == app_token,
    {
        Pushover { user_key, app_token }
    }

    /// Interpret a delivery response: a response without errors is
    /// success, one with errors is a failure carrying exactly them.
    pub fn send_outcome(errors: Option<Vec<String>>) -> (r: Result<(), PushoverFailure>)
        ensures
            r is Ok <==> errors is None,
            r matches Err(f) ==> errors == Some(f.errors),
    {
        match errors {
            None => Ok(()),
            Some(errs) => Err(PushoverFailure { errors: errs }),
        }
    }
}

} // verus!
