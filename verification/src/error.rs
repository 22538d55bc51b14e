//! The one kind of failure a caller can meet.

use vstd::prelude::*;
use vstd::string::*;

verus! {

/// Input that no theme can be derived from.
#[derive(Clone, Copy, Debug, PartialEq, Eq, Structural)]
pub enum InvalidInput {
    /// The pixel sequence handed to the quantizer was empty.
    EmptyImage,
    /// The text is not a colour in hexadecimal notation.
    MalformedColor,
}

impl InvalidInput {
    /// A sentence for the user.
    pub open spec fn sentence(self) -> Seq<char> {
        match self {
            InvalidInput::EmptyImage => "the image holds no pixels"@,
            InvalidInput::MalformedColor => "the text is not a hexadecimal colour"@,
        }
    }

    /// A sentence for the user.
    pub fn message(&self) -> (text: String)
        ensures
            text@ == self.sentence(),
    {
        match self {
            InvalidInput::EmptyImage => String::from_str("the image holds no pixels"),
            InvalidInput::MalformedColor => String::from_str("the text is not a hexadecimal colour"),
        }
    }
}

} // verus!
