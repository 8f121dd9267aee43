//! The parsed font metadata block, together with the per-renderer
//! configuration.

use crate::bitstream::blob_bits;
use crate::error::LookupError;
use crate::font::{valid_font_blob, Font, FONT_HEADER_SIZE};
use crate::glyph_reader::{
    glyph_header_bits, spec_advance, spec_glyph_height, spec_glyph_width, spec_offset_x,
    spec_offset_y, GlyphReader,
};
use crate::glyph_searcher::{chain_code, chain_search, GlyphSearchResult, GlyphSearcher};
use crate::unicode_jumptable_reader::jump_offset_spec;
use vstd::prelude::*;

verus! {

/// The metadata block of a font blob, decoded once per renderer, plus the
/// renderer configuration (unknown-glyph handling and line height).
#[derive(Debug, Clone)]
pub struct FontReader {
    /// The whole font blob, header included.
    pub data: &'static [u8],
    /// Whether opaque (box-fill) rendering is legal for this font.
    pub supports_background_color: bool,
    /// The number of glyphs in the font; informational only.
    pub glyph_count: u8,
    /// Bit width of a background run length in a glyph bitmap.
    pub m0: u8,
    /// Bit width of a foreground run length in a glyph bitmap.
    pub m1: u8,
    /// Bit width of the glyph width field.
    pub bitcnt_w: u8,
    /// Bit width of the glyph height field.
    pub bitcnt_h: u8,
    /// Bit width of the glyph x-offset field.
    pub bitcnt_x: u8,
    /// Bit width of the glyph y-offset field.
    pub bitcnt_y: u8,
    /// Bit width of the glyph advance field.
    pub bitcnt_d: u8,
    /// Width of the maximal glyph bounding box of the font.
    pub font_bounding_box_width: i8,
    /// Height of the maximal glyph bounding box of the font.
    pub font_bounding_box_height: i8,
    /// X offset of the maximal glyph bounding box of the font.
    pub font_bounding_box_x_offset: i8,
    /// Y offset of the maximal glyph bounding box of the font.
    pub font_bounding_box_y_offset: i8,
    /// Distance from the baseline to the top of the tallest letter.
    pub ascent: i8,
    /// Distance from the baseline to the bottom of the deepest letter;
    /// conventionally negative.
    pub descent: i8,
    /// Ascent of the parenthesis glyphs.
    pub ascent_of_parentheses: i8,
    /// Descent of the parenthesis glyphs.
    pub descent_of_parentheses: i8,
    /// Byte offset into the glyph table that skips just before `'A'`.
    pub array_offset_upper_a: u16,
    /// Byte offset into the glyph table that skips just before `'a'`.
    pub array_offset_lower_a: u16,
    /// Byte offset into the glyph table of the jump table for codepoints
    /// above 255.
    pub array_offset_0x0100: u16,
    /// Whether unmapped characters are skipped instead of reported.
    pub ignore_unknown_glyphs: bool,
    /// The vertical distance between the baselines of two adjacent lines.
    pub line_height: u32,
}

/// The big-endian 16-bit value stored at byte offset `i` of a blob.
pub open spec fn be16(data: Seq<u8>, i: int) -> u16
    recommends
        0 <= i,
        i + 2 <= data.len(),
{
    (data[i] as u16 * 256 + data[i + 1] as u16) as u16
}

impl FontReader {
    /// The structural invariant of a font reader: the blob holds the full
    /// metadata block, all bit-field widths are usable, the bounding box
    /// height is not negative, and the line height stays within layout
    /// arithmetic range.
    pub open spec fn wf(&self) -> bool {
        &&& self.data@.len() >= FONT_HEADER_SIZE
        &&& 1 <= self.m0 <= 8
        &&& 1 <= self.m1 <= 8
        &&& 1 <= self.bitcnt_w <= 8
        &&& 1 <= self.bitcnt_h <= 8
        &&& 1 <= self.bitcnt_x <= 8
        &&& 1 <= self.bitcnt_y <= 8
        &&& 1 <= self.bitcnt_d <= 8
        &&& self.font_bounding_box_height >= 0
        &&& self.line_height < 0x8000_0000
    }

    /// Whether the decoded fields agree with the metadata block of the blob
    /// this reader holds.
    pub open spec fn matches_header(&self) -> bool {
        let data = self.data@;
        &&& self.glyph_count == data[0]
        &&& self.supports_background_color == (data[1] != 0)
        &&& self.m0 == data[2]
        &&& self.m1 == data[3]
        &&& self.bitcnt_w == data[4]
        &&& self.bitcnt_h == data[5]
        &&& self.bitcnt_x == data[6]
        &&& self.bitcnt_y == data[7]
        &&& self.bitcnt_d == data[8]
        &&& self.font_bounding_box_width == data[9] as i8
        &&& self.font_bounding_box_height == data[10] as i8
        &&& self.font_bounding_box_x_offset == data[11] as i8
        &&& self.font_bounding_box_y_offset == data[12] as i8
        &&& self.ascent == data[13] as i8
        &&& self.descent == data[14] as i8
        &&& self.ascent_of_parentheses == data[15] as i8
        &&& self.descent_of_parentheses == data[16] as i8
        &&& self.array_offset_upper_a == be16(data, 17)
        &&& self.array_offset_lower_a == be16(data, 19)
        &&& self.array_offset_0x0100 == be16(data, 21)
    }

    /// Decodes the metadata block of the given font.
    pub fn new<F: Font>() -> (r: Self)
        ensures
            r.wf(),
            r.matches_header(),
            valid_font_blob(r.data@),
            !r.ignore_unknown_glyphs,
            r.line_height == r.font_bounding_box_height + 1,
    {
        let data = F::data();

        let mut this = FontReader {
            data,
            glyph_count: data[0],
            supports_background_color: data[1] != 0,
            m0: data[2],
            m1: data[3],
            bitcnt_w: data[4],
            bitcnt_h: data[5],
            bitcnt_x: data[6],
            bitcnt_y: data[7],
            bitcnt_d: data[8],
            font_bounding_box_width: data[9] as i8,
            font_bounding_box_height: data[10] as i8,
            font_bounding_box_x_offset: data[11] as i8,
            font_bounding_box_y_offset: data[12] as i8,
            ascent: data[13] as i8,
            descent: data[14] as i8,
            ascent_of_parentheses: data[15] as i8,
            descent_of_parentheses: data[16] as i8,
            array_offset_upper_a: (data[17] as u16) * 256 + (data[18] as u16),
            array_offset_lower_a: (data[19] as u16) * 256 + (data[20] as u16),
            array_offset_0x0100: (data[21] as u16) * 256 + (data[22] as u16),
            ignore_unknown_glyphs: false,
            line_height: 0,
        };
        let default_height = this.get_default_line_height();
        this.line_height = default_height as u32;
        this
    }

    /// Configures whether unmapped characters are skipped instead of
    /// reported as [`LookupError::GlyphNotFound`](crate::LookupError).
    pub fn with_ignore_unknown_glyphs(self, ignore: bool) -> (r: Self)
        ensures
            r == (FontReader { ignore_unknown_glyphs: ignore, ..self }),
    {
        FontReader { ignore_unknown_glyphs: ignore, ..self }
    }

    /// Overrides the line height. The line height must stay within the range
    /// of layout arithmetic.
    pub fn with_line_height(self, line_height: u32) -> (r: Self)
        requires
            line_height < 0x8000_0000,
        ensures
            r == (FontReader { line_height, ..self }),
    {
        FontReader { line_height, ..self }
    }

    /// The outcome of looking up the codepoint `enc` in this font's glyph
    /// table, as the byte-level table layout defines it.
    ///
    /// Codepoints up to 255 are searched by a linear walk of the chain,
    /// entered at the stored fast-forward offset for letters. Larger
    /// codepoints go through the jump table of the Unicode section.
    pub open spec fn lookup(&self, enc: nat) -> GlyphSearchResult {
        let table = self.data@.skip(FONT_HEADER_SIZE as int);
        if enc <= 255 {
            let start: int = if enc >= 97 {
                self.array_offset_lower_a as int
            } else if enc >= 65 {
                self.array_offset_upper_a as int
            } else {
                0
            };
            if start > table.len() {
                GlyphSearchResult::Corrupt
            } else {
                chain_search(table.skip(start), 1, enc)
            }
        } else {
            if self.array_offset_0x0100 > table.len() {
                GlyphSearchResult::Corrupt
            } else {
                let udata = table.skip(self.array_offset_0x0100 as int);
                match jump_offset_spec(udata, enc, 0) {
                    Option::None => GlyphSearchResult::NotFound,
                    Option::Some(j) => {
                        if j > udata.len() {
                            GlyphSearchResult::Corrupt
                        } else {
                            chain_search(udata.skip(j as int), 2, enc)
                        }
                    },
                }
            }
        }
    }

    /// Whether the glyph payload `payload` holds a complete glyph header for
    /// this font.
    pub open spec fn glyph_decodable(&self, payload: Seq<u8>) -> bool {
        blob_bits(payload).len() >= glyph_header_bits(*self)
    }

    /// Whether the glyph reader `g` holds exactly the glyph decoded from
    /// `payload` with this font's bit-field widths, with its cursor at the
    /// first bitmap bit.
    pub open spec fn decodes_to(&self, payload: Seq<u8>, g: GlyphReader) -> bool {
        let bits = blob_bits(payload);
        &&& g.wf()
        &&& g.bitcount_0 == self.m0
        &&& g.bitcount_1 == self.m1
        &&& g.glyph_width == spec_glyph_width(*self, bits)
        &&& g.glyph_height == spec_glyph_height(*self, bits)
        &&& g.offset_x == spec_offset_x(*self, bits)
        &&& g.offset_y == spec_offset_y(*self, bits)
        &&& g.advance == spec_advance(*self, bits)
        &&& g.stream() == bits.skip(glyph_header_bits(*self))
    }

    /// Locates and decodes the glyph for `ch`.
    ///
    /// Returns exactly: the decoded glyph when the table maps `ch` to a
    /// complete record; `GlyphNotFound(ch)` when `ch` lies outside the
    /// 16-bit range or the table does not map it; `InternalError` when the
    /// blob is malformed.
    pub fn retrieve_glyph_data(&self, ch: char) -> (r: Result<GlyphReader, LookupError>)
        requires
            self.wf(),
        ensures
            match r {
                Ok(g) => {
                    &&& ch as nat <= 0xffff
                    &&& (self.lookup(ch as nat) matches GlyphSearchResult::Found { payload }
                        && self.glyph_decodable(payload) && self.decodes_to(payload, g))
                },
                Err(e) => match e {
                    LookupError::GlyphNotFound(c) => {
                        &&& c == ch
                        &&& (ch as nat > 0xffff || self.lookup(ch as nat)
                            is NotFound)
                    },
                    LookupError::InternalError => {
                        &&& ch as nat <= 0xffff
                        &&& (self.lookup(ch as nat) is Corrupt || (self.lookup(ch as nat)
                            matches GlyphSearchResult::Found { payload }
                            && !self.glyph_decodable(payload)))
                    },
                },
            },
    {
        let code = ch as u32;
        if code > 0xffff {
            return Err(LookupError::GlyphNotFound(ch));
        }
        let encoding = code as u16;
        let ghost enc = encoding as nat;
        let ghost table = self.data@.skip(FONT_HEADER_SIZE as int);

        let mut glyph = GlyphSearcher::new(self);

        if encoding <= 255 {
            let ghost start: int = if enc >= 97 {
                self.array_offset_lower_a as int
            } else if enc >= 65 {
                self.array_offset_upper_a as int
            } else {
                0
            };
            if encoding >= 97 {
                if !glyph.jump_by(self.array_offset_lower_a as usize) {
                    return Err(LookupError::InternalError);
                }
            } else if encoding >= 65 {
                if !glyph.jump_by(self.array_offset_upper_a as usize) {
                    return Err(LookupError::InternalError);
                }
            }
            proof {
                assert(glyph.data@ =~= table.skip(start));
                assert(self.lookup(enc) == chain_search(glyph.data@, 1, enc));
            }

            loop
                invariant
                    self.wf(),
                    glyph.font == self,
                    enc == ch as nat,
                    enc == encoding as nat,
                    enc <= 255,
                    self.lookup(enc) == chain_search(glyph.data@, 1, enc),
                decreases glyph.data@.len(),
            {
                let ghost pre = glyph.data@;
                let glyph_ch = match glyph.get_ch() {
                    Ok(v) => v,
                    Err(e) => {
                        return Err(e);
                    },
                };
                if glyph_ch as u16 == encoding {
                    assert(chain_code(pre, 1) == enc);
                    return match glyph.into_glyph_reader() {
                        Ok(g) => Ok(g),
                        Err(e) => Err(e),
                    };
                }
                assert(chain_code(pre, 1) != enc);
                match glyph.jump_to_next() {
                    Ok(true) => {
                        assert(chain_search(pre, 1, enc) == chain_search(glyph.data@, 1, enc));
                    },
                    Ok(false) => {
                        return Err(LookupError::GlyphNotFound(ch));
                    },
                    Err(e) => {
                        return Err(e);
                    },
                }
            }
        } else {
            let (mut glyph, unicode_jump_table) = match glyph.into_unicode_mode(
                self.array_offset_0x0100,
            ) {
                Ok(v) => v,
                Err(e) => {
                    return Err(e);
                },
            };
            let ghost udata = glyph.data@;
            assert(udata =~= table.skip(self.array_offset_0x0100 as int));

            let jump_offset = match unicode_jump_table.calculate_jump_offset(encoding) {
                Some(j) => j,
                None => {
                    return Err(LookupError::GlyphNotFound(ch));
                },
            };
            let ghost joff = jump_offset_spec(udata, enc, 0)->Some_0;

            if jump_offset == usize::MAX {
                // the exact cumulative offset cannot point at a record that
                // still has room for a code and a length byte
                let remaining = glyph.data.len();
                proof {
                    assert(udata.len() == remaining <= usize::MAX);
                    if joff <= udata.len() {
                        assert(udata.skip(joff as int).len() < 2);
                    }
                }
                return Err(LookupError::InternalError);
            }
            assert(jump_offset == joff);

            if !glyph.jump_by(jump_offset) {
                assert(joff > udata.len());
                return Err(LookupError::InternalError);
            }
            proof {
                assert(glyph.data@ == udata.skip(joff as int));
                assert(self.lookup(enc) == chain_search(glyph.data@, 2, enc));
            }

            loop
                invariant
                    self.wf(),
                    glyph.font == self,
                    enc == ch as nat,
                    enc == encoding as nat,
                    enc > 255,
                    self.lookup(enc) == chain_search(glyph.data@, 2, enc),
                decreases glyph.data@.len(),
            {
                let ghost pre = glyph.data@;
                let glyph_ch = match glyph.get_ch() {
                    Ok(v) => v,
                    Err(e) => {
                        return Err(e);
                    },
                };
                if glyph_ch == 0 {
                    assert(chain_code(pre, 2) == 0);
                    return Err(LookupError::GlyphNotFound(ch));
                }
                if glyph_ch == encoding {
                    assert(chain_code(pre, 2) == enc);
                    return match glyph.into_glyph_reader() {
                        Ok(g) => Ok(g),
                        Err(e) => Err(e),
                    };
                }
                assert(chain_code(pre, 2) != enc);
                match glyph.jump_to_next() {
                    Ok(true) => {
                        assert(chain_search(pre, 2, enc) == chain_search(glyph.data@, 2, enc));
                    },
                    Ok(false) => {
                        return Err(LookupError::GlyphNotFound(ch));
                    },
                    Err(e) => {
                        return Err(e);
                    },
                }
            }
        }
    }

    /// Looks up a glyph like [`retrieve_glyph_data`](Self::retrieve_glyph_data),
    /// but reports an unmapped character as `Ok(None)` when this reader was
    /// configured to ignore unknown glyphs.
    pub fn try_retrieve_glyph_data(&self, ch: char) -> (r: Result<
        Option<GlyphReader>,
        LookupError,
    >)
        requires
            self.wf(),
        ensures
            match r {
                Ok(Some(g)) => {
                    &&& ch as nat <= 0xffff
                    &&& (self.lookup(ch as nat) matches GlyphSearchResult::Found { payload }
                        && self.glyph_decodable(payload) && self.decodes_to(payload, g))
                },
                Ok(None) => {
                    &&& self.ignore_unknown_glyphs
                    &&& (ch as nat > 0xffff || self.lookup(ch as nat) is NotFound)
                },
                Err(e) => match e {
                    LookupError::GlyphNotFound(c) => {
                        &&& !self.ignore_unknown_glyphs
                        &&& c == ch
                        &&& (ch as nat > 0xffff || self.lookup(ch as nat)
                            is NotFound)
                    },
                    LookupError::InternalError => {
                        &&& ch as nat <= 0xffff
                        &&& (self.lookup(ch as nat) is Corrupt || (self.lookup(ch as nat)
                            matches GlyphSearchResult::Found { payload }
                            && !self.glyph_decodable(payload)))
                    },
                },
            },
    {
        match self.retrieve_glyph_data(ch) {
            Ok(g) => Ok(Some(g)),
            Err(LookupError::GlyphNotFound(c)) => {
                if self.ignore_unknown_glyphs {
                    Ok(None)
                } else {
                    Err(LookupError::GlyphNotFound(c))
                }
            },
            Err(e) => Err(e),
        }
    }

    /// The default line height of this font: the height of the font bounding
    /// box plus one pixel.
    pub fn get_default_line_height(&self) -> (r: u8)
        requires
            self.font_bounding_box_height >= 0,
        ensures
            r == self.font_bounding_box_height + 1,
    {
        self.font_bounding_box_height as u8 + 1
    }
}

} // verus!
