//! What can go wrong.
use crate::text::joined;
use vstd::prelude::*;
use vstd::string::*;

verus! {

/// An error of the bridge. Errors of the system, of the operating system interface and of the
/// JSON reader are kept by their message.
#[derive(Debug)]
pub enum McubError {
    Io(String),
    Nix(String),
    Json(String),
    Config(String),
    Serial(String),
    Mpd(String),
    DeviceNotFound,
    Timeout,
    Disconnected,
}

pub type McubResult<T> = Result<T, McubError>;

impl McubError {
    /// The message of the error.
    pub open spec fn text(self) -> Seq<char> {
        match self {
            McubError::Io(e) => "io: "@ + e@,
            McubError::Nix(e) => "nix: "@ + e@,
            McubError::Json(e) => "json: "@ + e@,
            McubError::Config(e) => "config: "@ + e@,
            McubError::Serial(e) => "serial: "@ + e@,
            McubError::Mpd(e) => "mpd: "@ + e@,
            McubError::DeviceNotFound => "device not found"@,
            McubError::Timeout => "timeout"@,
            McubError::Disconnected => "disconnected"@,
        }
    }

    /// The message of the error.
    pub fn message(&self) -> (r: String)
        ensures
            r@ == self.text(),
    {
        match self {
            McubError::Io(e) => joined("io: ", e.as_str()),
            McubError::Nix(e) => joined("nix: ", e.as_str()),
            McubError::Json(e) => joined("json: ", e.as_str()),
            McubError::Config(e) => joined("config: ", e.as_str()),
            McubError::Serial(e) => joined("serial: ", e.as_str()),
            McubError::Mpd(e) => joined("mpd: ", e.as_str()),
            McubError::DeviceNotFound => "device not found".to_owned(),
            McubError::Timeout => "timeout".to_owned(),
            McubError::Disconnected => "disconnected".to_owned(),
        }
    }
}

} // verus!
