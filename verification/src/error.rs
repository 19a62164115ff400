//! Crate error type.
//!
//! Errors raised by outside libraries (HID, I/O, TOML, JSON, D-Bus) are carried
//! as their rendered message, so that the type stays plain data.
use vstd::prelude::*;

verus! {

/// Everything that can go wrong while talking to the keyboard or its daemon.
#[derive(Debug, Clone, PartialEq, Eq)]
pub enum Error {
    Hid(String),
    DeviceNotFound,
    NoResponse,
    UnknownKey(String),
    Config(String),
    Io(String),
    TomlDe(String),
    TomlSer(String),
    Json(String),
    Dbus(String),
    Daemon(String),
}

impl Error {
    /// The human-readable text of this error.
    pub open spec fn spec_message(&self) -> Seq<char> {
        match self {
            Error::Hid(s) => "HID error: "@ + s@,
            Error::DeviceNotFound => "no DrunkDeer keyboard found (looked for vendor 0x352d)"@,
            Error::NoResponse => "device did not respond to identity handshake"@,
            Error::UnknownKey(s) => "unknown key name: "@ + s@,
            Error::Config(s) => "config error: "@ + s@,
            Error::Io(s) => "I/O error: "@ + s@,
            Error::TomlDe(s) => "TOML parse error: "@ + s@,
            Error::TomlSer(s) => "TOML write error: "@ + s@,
            Error::Json(s) => "JSON error: "@ + s@,
            Error::Dbus(s) => "D-Bus error: "@ + s@,
            Error::Daemon(s) => "daemon: "@ + s@,
        }
    }

    /// Render this error as text (what `to_string` gives for the error).
    pub fn message(&self) -> (m: String)
        ensures
            m@ == self.spec_message(),
    {
        let (prefix, detail): (&str, Option<&String>) = match self {
            Error::Hid(s) => ("HID error: ", Some(s)),
            Error::DeviceNotFound => ("no DrunkDeer keyboard found (looked for vendor 0x352d)", None),
            Error::NoResponse => ("device did not respond to identity handshake", None),
            Error::UnknownKey(s) => ("unknown key name: ", Some(s)),
            Error::Config(s) => ("config error: ", Some(s)),
            Error::Io(s) => ("I/O error: ", Some(s)),
            Error::TomlDe(s) => ("TOML parse error: ", Some(s)),
            Error::TomlSer(s) => ("TOML write error: ", Some(s)),
            Error::Json(s) => ("JSON error: ", Some(s)),
            Error::Dbus(s) => ("D-Bus error: ", Some(s)),
            Error::Daemon(s) => ("daemon: ", Some(s)),
        };
        let mut m = String::from_str(prefix);
        if let Some(s) = detail {
            m.append(s.as_str());
        }
        m
    }
}

} // verus!
