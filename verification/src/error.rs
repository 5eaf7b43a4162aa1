//! The one error that building a configuration can end in.

use vstd::prelude::*;
use vstd::string::*;

verus! {

/// A failed configuration step, described by a message for the user.
#[derive(Debug)]
pub struct ConfigError {
    message: String,
}

impl View for ConfigError {
    type V = Seq<char>;

    /// The message, as a sequence of characters.
    closed spec fn view(&self) -> Seq<char> {
        self.message@
    }
}

/// What [`ConfigError::to_text`] puts in front of the message.
pub open spec fn error_heading() -> Seq<char> {
    "error during config parsing: "@
}

impl ConfigError {
    /// An error that carries `message`.
    pub fn new(message: String) -> (error: Self)
        ensures
            error@ == message@,
    {
        Self { message }
    }

    /// The message that the error carries.
    pub fn message(&self) -> (text: &str)
        ensures
            text@ == self@,
    {
        self.message.as_str()
    }

    /// The text shown to the user: the heading, then the message.
    pub fn to_text(&self) -> (text: String)
        ensures
            text@ == error_heading() + self@,
    {
        let mut text = String::from_str("error during config parsing: ");
        text.append(self.message.as_str());
        text
    }
}

} // verus!
