//! The ways in which a conversion can fail.

use vstd::prelude::*;
use vstd::string::*;

verus! {

/// Why a conversion stopped. Every error ends the conversion it occurs in.
#[derive(Debug, Clone, PartialEq, Eq)]
pub enum ConversionError {
    /// The input is not one JSON value. Holds the parser's description of
    /// the fault, with its position.
    Parse(String),
    /// The document is neither an object nor an array that starts with an
    /// object.
    UnsupportedStructure,
    /// Some row does not have one cell for each column, or the CSV bytes are
    /// not UTF-8 text.
    Serialize,
}

/// An error as a mathematical value.
pub enum ErrorView {
    Parse(Seq<char>),
    UnsupportedStructure,
    Serialize,
}

impl View for ConversionError {
    type V = ErrorView;

    open spec fn view(&self) -> ErrorView {
        match self {
            ConversionError::Parse(reason) => ErrorView::Parse(reason@),
            ConversionError::UnsupportedStructure => ErrorView::UnsupportedStructure,
            ConversionError::Serialize => ErrorView::Serialize,
        }
    }
}

/// The status text of an error.
pub open spec fn message_of(error: ErrorView) -> Seq<char> {
    match error {
        ErrorView::Parse(reason) => "JSON parsing error: "@ + reason,
        ErrorView::UnsupportedStructure => "Unsupported JSON structure"@,
        ErrorView::Serialize => "CSV generation error: the table is ragged or its text is not UTF-8"@,
    }
}

impl ConversionError {
    /// The text shown to the user when a conversion fails with this error.
    pub fn message(&self) -> (text: String)
        ensures
            text@ == message_of(self@),
    {
        match self {
            ConversionError::Parse(reason) => {
                let mut text = String::from_str("JSON parsing error: ");
                text.append(reason.as_str());
                text
            },
            ConversionError::UnsupportedStructure => String::from_str("Unsupported JSON structure"),
            ConversionError::Serialize => String::from_str(
                "CSV generation error: the table is ragged or its text is not UTF-8",
            ),
        }
    }
}

} // verus!
