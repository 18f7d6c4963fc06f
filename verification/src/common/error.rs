//! Errors reported by the shared crate.

use crate::common::text::joined;
use vstd::prelude::*;

verus! {

#[derive(Debug)]
pub enum VeilaError {
    /// A theme name holds characters that cannot stand in a file name.
    InvalidThemeName(String),
    /// No theme file of that name exists.
    ThemeNotFound(String),
    /// The configuration cannot be read, written or understood.
    ConfigIo(String),
    /// The configuration is no TOML.
    ConfigParse(String),
    /// A control message is not a well-formed line.
    IpcFraming(String),
}

pub type Result<T> = core::result::Result<T, VeilaError>;

/// The message shown for an error.
pub open spec fn error_text(error: VeilaError) -> Seq<char> {
    match error {
        VeilaError::InvalidThemeName(name) => "invalid theme name: "@ + name@,
        VeilaError::ThemeNotFound(name) => "theme not found: "@ + name@,
        VeilaError::ConfigIo(message) => message@,
        VeilaError::ConfigParse(message) => message@,
        VeilaError::IpcFraming(message) => message@,
    }
}

impl VeilaError {
    /// The message shown for this error.
    pub fn to_string(&self) -> (text: String)
        ensures
            text@ == error_text(*self),
    {
        match self {
            VeilaError::InvalidThemeName(name) => joined("invalid theme name: ", name.as_str()),
            VeilaError::ThemeNotFound(name) => joined("theme not found: ", name.as_str()),
            VeilaError::ConfigIo(message) => message.clone(),
            VeilaError::ConfigParse(message) => message.clone(),
            VeilaError::IpcFraming(message) => message.clone(),
        }
    }
}

/// An error about a theme names the theme; other errors say what they were given to say.
pub proof fn law_theme_errors_name_the_theme(error: VeilaError)
    ensures
        match error {
            VeilaError::InvalidThemeName(name) => error_text(error).len() > name@.len()
                && error_text(error).skip(error_text(error).len() - name@.len()) == name@,
            VeilaError::ThemeNotFound(name) => error_text(error).len() > name@.len() && error_text(
                error,
            ).skip(error_text(error).len() - name@.len()) == name@,
            VeilaError::ConfigIo(message) => error_text(error) == message@,
            VeilaError::ConfigParse(message) => error_text(error) == message@,
            VeilaError::IpcFraming(message) => error_text(error) == message@,
        },
{
    reveal_strlit("invalid theme name: ");
    reveal_strlit("theme not found: ");
}

} // verus!
