//! The abstract font interface.

use vstd::prelude::*;

verus! {

/// The number of bytes of the fixed metadata block at the start of a font
/// blob.
pub const FONT_HEADER_SIZE: usize = 23;

/// A well-formed font blob: it carries the complete metadata block, every
/// bit-field width it declares is between 1 and 8, and the declared bounding
/// box height is not negative.
///
/// Font blobs are produced by a build-time tool and embedded into the binary;
/// this predicate is what the rest of the crate relies on. Everything beyond
/// it — the glyph table itself — is validated at run time and never trusted.
pub open spec fn valid_font_blob(data: Seq<u8>) -> bool {
    &&& data.len() >= FONT_HEADER_SIZE
    &&& 1 <= data[2] <= 8  // background run length bit width
    &&& 1 <= data[3] <= 8  // foreground run length bit width
    &&& 1 <= data[4] <= 8  // glyph width bit width
    &&& 1 <= data[5] <= 8  // glyph height bit width
    &&& 1 <= data[6] <= 8  // glyph x-offset bit width
    &&& 1 <= data[7] <= 8  // glyph y-offset bit width
    &&& 1 <= data[8] <= 8  // glyph advance bit width
    &&& data[10] < 128  // bounding box height, a non-negative signed byte
}

/// An abstract font: a type that hands out the packed font blob.
///
/// Implementors promise that the blob is well formed in the sense of
/// [`valid_font_blob`]; the blobs are emitted by a build-time extraction tool
/// that validates them, so the promise is on that tool, not on run-time input.
pub trait Font {
    /// The packed font data.
    fn data() -> (d: &'static [u8])
        ensures
            valid_font_blob(d@),
    ;
}

} // verus!
