//! The ways in which a lookup can fail.

use vstd::prelude::*;
use vstd::string::*;

verus! {

/// Why a colour given as text was turned down.
#[derive(Clone, Copy, Debug, PartialEq, Eq, Structural)]
pub enum ParseError {
    /// The text does not have the shape of the notation.
    InvalidFormat,
    /// The shape is right, but a component is not an integer from 0 to 255.
    InvalidNumber,
}

/// Why a lookup ended without a name. Every one of these ends the lookup:
/// nothing is tried again.
#[derive(Clone, Copy, Debug, PartialEq, Eq, Structural)]
pub enum ColorError {
    /// Not exactly one of the two notations was given.
    Usage,
    /// The colour given could not be read.
    Parse(ParseError),
    /// The naming service could not be reached.
    Network,
    /// The naming service answered with something other than a name.
    ResponseFormat,
    /// The clipboard could not be written.
    Clipboard,
}

/// The one message shown for each error.
pub open spec fn message_text(e: ColorError) -> Seq<char> {
    match e {
        ColorError::Usage => "exactly one of --hex and --rgb must be given"@,
        ColorError::Parse(ParseError::InvalidFormat) => "a valid color was not detected"@,
        ColorError::Parse(ParseError::InvalidNumber) =>
            "a color component is not an integer from 0 to 255"@,
        ColorError::Network => "the naming service could not be reached"@,
        ColorError::ResponseFormat => "the naming service did not answer with a name"@,
        ColorError::Clipboard => "the clipboard could not be written"@,
    }
}

impl ColorError {
    /// The message to show for this error.
    pub fn message(&self) -> (text: String)
        ensures
            text@ == message_text(*self),
    {
        let text = match self {
            ColorError::Usage => "exactly one of --hex and --rgb must be given",
            ColorError::Parse(ParseError::InvalidFormat) => "a valid color was not detected",
            ColorError::Parse(ParseError::InvalidNumber) =>
                "a color component is not an integer from 0 to 255",
            ColorError::Network => "the naming service could not be reached",
            ColorError::ResponseFormat => "the naming service did not answer with a name",
            ColorError::Clipboard => "the clipboard could not be written",
        };
        String::from_str(text)
    }
}

} // verus!
