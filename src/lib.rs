//! Verified core of a local OAuth2 device-authorization daemon: the
//! descriptor and key rules, the token keeper and its file format, the
//! decisions of the device-code flow and the session registry that the
//! task manager owns.

pub mod device_code_flow;
pub mod error;
pub mod login;
pub mod provider;
pub mod shared_object;
pub mod task_manager;
pub mod token_codec;
pub mod token_keeper;
