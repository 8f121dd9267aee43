//! The glyph searcher: walks the glyph table, a singly-linked chain of
//! variable-length records inside the font blob, to find the record of a
//! requested codepoint.

use crate::error::LookupError;
use crate::font::FONT_HEADER_SIZE;
use crate::font_reader::{be16, FontReader};
use crate::glyph_reader::GlyphReader;
use crate::unicode_jumptable_reader::UnicodeJumptableReader;
use vstd::prelude::*;
use vstd::slice::slice_subrange;

verus! {

/// What a walk of the glyph chain can end in: the payload bytes of the
/// requested glyph, the conclusion that the font lacks the glyph, or the
/// conclusion that the chain itself is broken.
pub enum GlyphSearchResult {
    /// The glyph record was found; these are the bytes from its bit-packed
    /// header onwards.
    Found {
        /// The glyph record's bytes, header first.
        payload: Seq<u8>,
    },
    /// The chain ended without the requested codepoint.
    NotFound,
    /// A read or a jump left the chain's bytes: the blob is malformed.
    Corrupt,
}

/// The record code stored at the head of the chain position `data`: one byte
/// in ASCII mode (`cw == 1`), a big-endian pair in Unicode mode (`cw == 2`).
pub open spec fn chain_code(data: Seq<u8>, cw: int) -> nat
    recommends
        cw == 1 || cw == 2,
        data.len() >= cw,
{
    if cw == 1 {
        data[0] as nat
    } else {
        be16(data, 0) as nat
    }
}

/// The outcome of walking the glyph chain at `data` for the codepoint `enc`.
///
/// A record is `[code][total record length][payload]`; a stored length of
/// zero ends the chain. In Unicode mode (`cw == 2`) a record code of zero
/// also ends the chain. Any read or jump beyond the chain's bytes makes the
/// walk report a corrupt blob.
pub open spec fn chain_search(data: Seq<u8>, cw: int, enc: nat) -> GlyphSearchResult
    recommends
        cw == 1 || cw == 2,
    decreases data.len(),
{
    if data.len() < cw {
        GlyphSearchResult::Corrupt
    } else if cw == 2 && chain_code(data, cw) == 0 {
        GlyphSearchResult::NotFound
    } else if chain_code(data, cw) == enc {
        if data.len() < cw + 1 {
            GlyphSearchResult::Corrupt
        } else {
            GlyphSearchResult::Found { payload: data.skip(cw + 1) }
        }
    } else if data.len() < cw + 1 {
        GlyphSearchResult::Corrupt
    } else {
        let off = data[cw] as int;
        if off == 0 {
            GlyphSearchResult::NotFound
        } else if off > data.len() {
            GlyphSearchResult::Corrupt
        } else {
            chain_search(data.skip(off), cw, enc)
        }
    }
}

/// A cursor over the glyph chain. `CHAR_WIDTH` is the record code width in
/// bytes: 1 for the ASCII part of the table, 2 for the Unicode part.
pub struct GlyphSearcher<'a, const CHAR_WIDTH: usize> {
    /// The chain bytes from the cursor position to the end of the blob.
    pub data: &'static [u8],
    /// The font whose table is walked.
    pub font: &'a FontReader,
}

impl<'a, const CHAR_WIDTH: usize> GlyphSearcher<'a, CHAR_WIDTH> {
    /// Advances the cursor by `offset` bytes. Fails, leaving the cursor in
    /// place, when the jump would leave the chain's bytes.
    pub fn jump_by(&mut self, offset: usize) -> (ok: bool)
        ensures
            final(self).font == old(self).font,
            ok == (offset <= old(self).data@.len()),
            ok ==> final(self).data@ == old(self).data@.skip(offset as int),
            !ok ==> *final(self) == *old(self),
    {
        if offset <= self.data.len() {
            self.data = slice_subrange(self.data, offset, self.data.len());
            true
        } else {
            false
        }
    }

    /// The stored total length of the record at the cursor.
    fn get_offset(&self) -> (r: Result<u8, LookupError>)
        ensures
            match r {
                Ok(v) => self.data@.len() > CHAR_WIDTH && v == self.data@[CHAR_WIDTH as int],
                Err(e) => e == LookupError::InternalError && self.data@.len() <= CHAR_WIDTH,
            },
    {
        if CHAR_WIDTH < self.data.len() {
            Ok(self.data[CHAR_WIDTH])
        } else {
            Err(LookupError::InternalError)
        }
    }

    /// Steps to the next record of the chain. Returns `Ok(false)` when the
    /// stored record length is zero, which terminates the chain; fails when
    /// the length byte is unreadable or the jump would leave the chain.
    pub fn jump_to_next(&mut self) -> (r: Result<bool, LookupError>)
        ensures
            final(self).font == old(self).font,
            match r {
                Ok(true) => {
                    &&& old(self).data@.len() > CHAR_WIDTH
                    &&& old(self).data@[CHAR_WIDTH as int] != 0
                    &&& old(self).data@[CHAR_WIDTH as int] <= old(self).data@.len()
                    &&& final(self).data@ == old(self).data@.skip(
                        old(self).data@[CHAR_WIDTH as int] as int,
                    )
                },
                Ok(false) => {
                    &&& old(self).data@.len() > CHAR_WIDTH
                    &&& old(self).data@[CHAR_WIDTH as int] == 0
                    &&& *final(self) == *old(self)
                },
                Err(e) => {
                    &&& e == LookupError::InternalError
                    &&& (old(self).data@.len() <= CHAR_WIDTH || (old(self).data@[
                        CHAR_WIDTH as int] as int > old(self).data@.len()))
                },
            },
    {
        let offset = match self.get_offset() {
            Ok(v) => v,
            Err(e) => {
                return Err(e);
            },
        };
        if offset == 0 {
            Ok(false)
        } else if self.jump_by(offset as usize) {
            Ok(true)
        } else {
            Err(LookupError::InternalError)
        }
    }

    /// Hands the record's payload to a glyph reader, which decodes the glyph
    /// header. Fails when the record or its header is truncated.
    pub fn into_glyph_reader(self) -> (r: Result<GlyphReader, LookupError>)
        requires
            self.font.wf(),
        ensures
            match r {
                Ok(g) => {
                    &&& self.data@.len() > CHAR_WIDTH
                    &&& {
                        let bits = crate::bitstream::blob_bits(
                            self.data@.skip(CHAR_WIDTH as int + 1),
                        );
                        &&& bits.len() >= crate::glyph_reader::glyph_header_bits(*self.font)
                        &&& g.wf()
                        &&& g.bitcount_0 == self.font.m0
                        &&& g.bitcount_1 == self.font.m1
                        &&& g.glyph_width == crate::glyph_reader::spec_glyph_width(
                            *self.font,
                            bits,
                        )
                        &&& g.glyph_height == crate::glyph_reader::spec_glyph_height(
                            *self.font,
                            bits,
                        )
                        &&& g.offset_x == crate::glyph_reader::spec_offset_x(*self.font, bits)
                        &&& g.offset_y == crate::glyph_reader::spec_offset_y(*self.font, bits)
                        &&& g.advance == crate::glyph_reader::spec_advance(*self.font, bits)
                        &&& g.stream() =~= bits.skip(
                            crate::glyph_reader::glyph_header_bits(*self.font),
                        )
                    }
                },
                Err(e) => {
                    &&& e == LookupError::InternalError
                    &&& (self.data@.len() <= CHAR_WIDTH || crate::bitstream::blob_bits(
                        self.data@.skip(CHAR_WIDTH as int + 1),
                    ).len() < crate::glyph_reader::glyph_header_bits(*self.font))
                },
            },
    {
        if CHAR_WIDTH < self.data.len() {
            let payload = slice_subrange(self.data, CHAR_WIDTH + 1, self.data.len());
            GlyphReader::new(payload, self.font)
        } else {
            Err(LookupError::InternalError)
        }
    }
}

impl<'a> GlyphSearcher<'a, 1> {
    /// Starts a walk at the head of the glyph table, just past the metadata
    /// block.
    pub fn new(font: &'a FontReader) -> (r: Self)
        requires
            font.wf(),
        ensures
            r.font == font,
            r.data@ == font.data@.skip(FONT_HEADER_SIZE as int),
    {
        GlyphSearcher { data: slice_subrange(font.data, FONT_HEADER_SIZE, font.data.len()), font }
    }

    /// The one-byte record code at the cursor.
    pub fn get_ch(&self) -> (r: Result<u8, LookupError>)
        ensures
            match r {
                Ok(v) => self.data@.len() >= 1 && v == self.data@[0],
                Err(e) => e == LookupError::InternalError && self.data@.len() == 0,
            },
    {
        if self.data.len() >= 1 {
            Ok(self.data[0])
        } else {
            Err(LookupError::InternalError)
        }
    }

    /// Jumps to the Unicode part of the table and pairs the cursor with a
    /// reader of the jump table that starts there. Fails when the stored
    /// table offset leaves the blob.
    pub fn into_unicode_mode(self, offset: u16) -> (r: Result<
        (GlyphSearcher<'a, 2>, UnicodeJumptableReader),
        LookupError,
    >)
        ensures
            match r {
                Ok((g, jt)) => {
                    &&& offset <= self.data@.len()
                    &&& g.font == self.font
                    &&& g.data@ == self.data@.skip(offset as int)
                    &&& jt.data@ == self.data@.skip(offset as int)
                },
                Err(e) => {
                    &&& e == LookupError::InternalError
                    &&& offset > self.data@.len()
                },
            },
    {
        let mut this = self;
        if this.jump_by(offset as usize) {
            let jt = UnicodeJumptableReader::new(this.data);
            Ok((GlyphSearcher { data: this.data, font: this.font }, jt))
        } else {
            Err(LookupError::InternalError)
        }
    }
}

impl<'a> GlyphSearcher<'a, 2> {
    /// The two-byte big-endian record code at the cursor.
    pub fn get_ch(&self) -> (r: Result<u16, LookupError>)
        ensures
            match r {
                Ok(v) => self.data@.len() >= 2 && v == be16(self.data@, 0),
                Err(e) => e == LookupError::InternalError && self.data@.len() < 2,
            },
    {
        if self.data.len() >= 2 {
            Ok((self.data[0] as u16) * 256 + (self.data[1] as u16))
        } else {
            Err(LookupError::InternalError)
        }
    }
}

} // verus!
