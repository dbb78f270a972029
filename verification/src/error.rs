//! What can go wrong while the overlay is loaded.

use vstd::prelude::*;
use vstd::string::*;

verus! {

#[verifier::external_type_specification]
#[verifier::external_body]
pub struct ExDecodingError(png::DecodingError);

/// Why the sprites of the overlay could not be loaded.
#[derive(Debug)]
pub enum EngineError {
    /// The sheet is no PNG image that the decoder can open.
    PngDecodeErr(png::DecodingError),
    /// The sheet was opened, but its pixels could not be read or are in a layout
    /// that the overlay does not take.
    GUILoadErr,
}

/// The words that stand before a decoder's own words for its failure.
pub open spec fn decode_lead() -> Seq<char> {
    "Failed to decode PNG: "@
}

/// The words for a sheet that could not be loaded.
pub open spec fn load_text() -> Seq<char> {
    "Failed to load GUI"@
}

/// A decoder's failure in words: the lead-in, then the decoder's own words.
pub fn decode_message(reason: &str) -> (text: String)
    ensures
        text@ == decode_lead() + reason@,
{
    String::from_str("Failed to decode PNG: ").concat(reason)
}

impl EngineError {
    /// Whether `text` says this failure: the fixed words for a sheet that could
    /// not be loaded, or the lead-in followed by what the decoder says of its
    /// failure.
    pub open spec fn is_said_by(&self, text: Seq<char>) -> bool {
        match self {
            EngineError::PngDecodeErr(cause) => exists|reason: String|
                #[trigger] to_string_from_display_ensures::<png::DecodingError>(cause, reason)
                    && text == decode_lead() + reason@,
            EngineError::GUILoadErr => text == load_text(),
        }
    }

    /// The failure in words.
    pub fn message(&self) -> (text: String)
        ensures
            self.is_said_by(text@),
    {
        match self {
            EngineError::PngDecodeErr(cause) => {
                let reason = cause.to_string();
                decode_message(reason.as_str())
            },
            EngineError::GUILoadErr => String::from_str("Failed to load GUI"),
        }
    }
}

} // verus!
