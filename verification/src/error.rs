//! The error types of this crate.

use vstd::prelude::*;

verus! {

/// All possible errors a lookup or measurement call can cause.
#[derive(Debug, Clone, Copy, PartialEq, Eq, Structural)]
pub enum LookupError {
    /// The font does not contain the given character.
    GlyphNotFound(char),
    /// The font blob is malformed or truncated.
    InternalError,
}

/// All possible errors a draw call can cause.
#[derive(Debug, Clone, Copy, PartialEq, Eq)]
pub enum Error<DisplayError> {
    /// The font does not support a background color.
    BackgroundColorNotSupported,
    /// The font does not contain the given character.
    GlyphNotFound(char),
    /// The font blob is malformed or truncated.
    InternalError,
    /// Writing to the display failed.
    DisplayError(DisplayError),
}

impl LookupError {
    /// A human-readable description of this error. The text for an unmapped
    /// character is built by core's formatting machinery and carries the
    /// character itself; the other text is fixed.
    pub fn message(&self) -> (r: String)
        ensures
            self is InternalError ==> r@ == "The font data is malformed or truncated."@,
    {
        match self {
            LookupError::GlyphNotFound(c) => glyph_not_found_message(*c),
            LookupError::InternalError => internal_error_message(),
        }
    }
}

impl<DisplayError> Error<DisplayError> {
    /// Converts a lookup error into the matching draw error, keeping the
    /// offending character.
    pub fn from_lookup(e: LookupError) -> (r: Self)
        ensures
            r == lookup_to_error::<DisplayError>(e),
    {
        match e {
            LookupError::GlyphNotFound(g) => Error::GlyphNotFound(g),
            LookupError::InternalError => Error::InternalError,
        }
    }

    /// A human-readable description of this error. Display errors are
    /// described generically, as their payload is opaque to this crate, and
    /// the text for an unmapped character is built by core's formatting
    /// machinery; the other texts are fixed.
    pub fn message(&self) -> (r: String)
        ensures
            self is BackgroundColorNotSupported ==> r@
                == "This font does not support a background color."@,
            self is InternalError ==> r@ == "The font data is malformed or truncated."@,
            self is DisplayError ==> r@ == "Writing to display failed."@,
    {
        match self {
            Error::BackgroundColorNotSupported => background_color_message(),
            Error::GlyphNotFound(c) => glyph_not_found_message(*c),
            Error::InternalError => internal_error_message(),
            Error::DisplayError(_) => display_error_message(),
        }
    }
}

/// How lookup errors map into draw errors.
pub open spec fn lookup_to_error<DisplayError>(e: LookupError) -> Error<DisplayError> {
    match e {
        LookupError::GlyphNotFound(g) => Error::GlyphNotFound(g),
        LookupError::InternalError => Error::InternalError,
    }
}

/// Relies on `format!` of core to splice the offending character into the
/// message text.
#[verifier::external_body]
fn glyph_not_found_message(c: char) -> String {
    format!("This font does not support the character '{}'.", c)
}

fn background_color_message() -> (r: String)
    ensures
        r@ == "This font does not support a background color."@,
{
    "This font does not support a background color.".to_owned()
}

fn internal_error_message() -> (r: String)
    ensures
        r@ == "The font data is malformed or truncated."@,
{
    "The font data is malformed or truncated.".to_owned()
}

fn display_error_message() -> (r: String)
    ensures
        r@ == "Writing to display failed."@,
{
    "Writing to display failed.".to_owned()
}

} // verus!
