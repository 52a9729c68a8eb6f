use vstd::prelude::*;
use crate::device_code_flow::{failure_code, failure_message, received, session_result, ExchangeFailure};
use crate::error::OAuth2Error;
use crate::task_manager::TaskMessage;
use crate::token_keeper::{TokenRecord, TokenResponse};

verus! {

/// Where a login stands.
pub enum LoginStage {
    /// Asking the task manager whether a session runs for the key.
    Checking,
    /// Asking the authorization server for a device code.
    Requesting,
    /// The background session polls for the token.
    Polling,
    /// The token is being saved.
    Saving(TokenRecord),
    /// Nothing is left to do.
    Finished,
}

/// What the host reports back to a login.
pub enum LoginEvent {
    /// The task manager answered the check.
    CheckAnswered(bool),
    /// The device-code request succeeded (`true`) or failed.
    DeviceCodeAnswered(bool),
    /// Polling ended with this outcome at the given time in seconds.
    Polled(Result<TokenResponse, ExchangeFailure>, u64),
    /// Saving the token came to this.
    Saved(Result<(), OAuth2Error>),
}

/// What the host has to do for a login, in order.
pub enum LoginAction {
    /// Send this message to the task manager and report its answer.
    Ask(TaskMessage),
    /// Send this message to the task manager.
    Tell(TaskMessage),
    /// Ask the authorization server for a device code and report the outcome.
    RequestDeviceCode,
    /// Start the background session that polls for the token.
    StartPolling,
    /// Save this token under the key and report the outcome.
    Save(TokenRecord),
    /// Publish the result of the login to the subscribers.
    Report(Result<TokenRecord, OAuth2Error>),
}

/// One login for a task key, run as the background session `session`.
pub struct LoginFlow {
    pub key: String,
    pub session: u64,
    pub stage: LoginStage,
}

impl LoginFlow {
    /// A login that first asks whether a session already runs for its key.
    pub fn start(key: String, session: u64) -> (r: (Self, Vec<LoginAction>))
        ensures
            r.0.key == key,
            r.0.session == session,
            r.0.stage is Checking,
            r.1@ == seq![LoginAction::Ask(TaskMessage::Check(key))],
    {
        let ask = LoginAction::Ask(TaskMessage::Check(key.clone()));
        (LoginFlow { key, session, stage: LoginStage::Checking }, vec![ask])
    }

    /// Takes one event and says what to do next.  A running session for the
    /// key is aborted before a new device code is asked for; the new session
    /// is registered only once the device code came; a finished session
    /// reports its result and then retires.  An event that does not fit the
    /// stage changes nothing.
    pub fn step(self, event: LoginEvent) -> (r: (Self, Vec<LoginAction>))
        ensures
            r.0.key == self.key,
            r.0.session == self.session,
            ({
                let key = self.key;
                let id = self.session;
                let done = LoginAction::Tell(TaskMessage::PollingDone(key, id));
                match (self.stage, event) {
                    (LoginStage::Checking, LoginEvent::CheckAnswered(running)) => {
                        &&& r.0.stage is Requesting
                        &&& r.1@ == if running {
                            seq![LoginAction::Tell(TaskMessage::Abort(key)), LoginAction::RequestDeviceCode]
                        } else {
                            seq![LoginAction::RequestDeviceCode]
                        }
                    },
                    (LoginStage::Requesting, LoginEvent::DeviceCodeAnswered(ok)) => if ok {
                        &&& r.0.stage is Polling
                        &&& r.1@ == seq![LoginAction::StartPolling, LoginAction::Tell(TaskMessage::Add(key, id))]
                    } else {
                        &&& r.0.stage is Finished
                        &&& r.1@ == Seq::<LoginAction>::empty()
                    },
                    (LoginStage::Polling, LoginEvent::Polled(outcome, now)) => match outcome {
                        Ok(resp) => {
                            &&& r.0.stage matches LoginStage::Saving(rec) && rec.view() == received(resp, now)
                            &&& r.1@.len() == 1
                            &&& r.1@[0] matches LoginAction::Save(rec) && rec.view() == received(resp, now)
                        },
                        Err(f) => {
                            &&& r.0.stage is Finished
                            &&& r.1@.len() == 2
                            &&& r.1@[0] matches LoginAction::Report(Err(e)) && e.error_code == failure_code(f)
                                && e.message@ == failure_message(f)
                            &&& r.1@[1] == done
                        },
                    },
                    (LoginStage::Saving(kept), LoginEvent::Saved(saved)) => {
                        &&& r.0.stage is Finished
                        &&& r.1@.len() == 2
                        &&& match saved {
                            Ok(_) => r.1@[0] matches LoginAction::Report(Ok(rec)) && rec.view() == kept.view(),
                            Err(e) => r.1@[0] == LoginAction::Report(Err(e)),
                        }
                        &&& r.1@[1] == done
                    },
                    _ => {
                        &&& r.0.stage == self.stage
                        &&& r.1@ == Seq::<LoginAction>::empty()
                    },
                }
            }),
    {
        let LoginFlow { key, session, stage } = self;
        match (stage, event) {
            (LoginStage::Checking, LoginEvent::CheckAnswered(running)) => {
                let actions = if running {
                    vec![LoginAction::Tell(TaskMessage::Abort(key.clone())), LoginAction::RequestDeviceCode]
                } else {
                    vec![LoginAction::RequestDeviceCode]
                };
                (LoginFlow { key, session, stage: LoginStage::Requesting }, actions)
            },
            (LoginStage::Requesting, LoginEvent::DeviceCodeAnswered(ok)) => {
                if ok {
                    let actions = vec![LoginAction::StartPolling, LoginAction::Tell(TaskMessage::Add(key.clone(), session))];
                    (LoginFlow { key, session, stage: LoginStage::Polling }, actions)
                } else {
                    (LoginFlow { key, session, stage: LoginStage::Finished }, Vec::new())
                }
            },
            (LoginStage::Polling, LoginEvent::Polled(outcome, now)) => {
                match session_result(outcome, now) {
                    Ok(rec) => {
                        let copy = rec.duplicate();
                        (LoginFlow { key, session, stage: LoginStage::Saving(rec) }, vec![LoginAction::Save(copy)])
                    },
                    Err(e) => {
                        let actions = vec![
                            LoginAction::Report(Err(e)),
                            LoginAction::Tell(TaskMessage::PollingDone(key.clone(), session)),
                        ];
                        (LoginFlow { key, session, stage: LoginStage::Finished }, actions)
                    },
                }
            },
            (LoginStage::Saving(kept), LoginEvent::Saved(saved)) => {
                let report = match saved {
                    Ok(_) => LoginAction::Report(Ok(kept)),
                    Err(e) => LoginAction::Report(Err(e)),
                };
                let actions = vec![report, LoginAction::Tell(TaskMessage::PollingDone(key.clone(), session))];
                (LoginFlow { key, session, stage: LoginStage::Finished }, actions)
            },
            (stage, _) => (LoginFlow { key, session, stage }, Vec::new()),
        }
    }
}

} // verus!
