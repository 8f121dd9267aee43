//! The bit-stream cursor over a glyph record: decodes the bit-packed glyph
//! header and then hands out the run lengths of the glyph bitmap.

use crate::bitstream::{
    bits_value, blob_bits, lemma_bits_value_append, lemma_bits_value_bound,
    lemma_bits_value_of_byte_range, lemma_blob_bits_skip_head, u8_bit,
};
use crate::error::LookupError;
use crate::font_reader::FontReader;
use vstd::arithmetic::div_mod::{lemma_multiply_divide_lt, lemma_small_mod};
use vstd::arithmetic::power2::{lemma2_to64, lemma_pow2_adds, lemma_pow2_pos, pow2};
use vstd::bits::{lemma_u16_shl_is_mul, lemma_u8_low_bits_mask_is_mod, lemma_u8_shr_is_div,
    low_bits_mask};
use vstd::prelude::*;
use vstd::slice::slice_subrange;

verus! {

/// A cursor that reads bit fields out of a glyph record, together with the
/// glyph header it decoded on construction.
///
/// The cursor holds the not-yet-consumed byte slice, the byte most recently
/// fetched from it, and the index of the next unread bit within that byte
/// (8 meaning that the byte is used up).
#[derive(Debug, Clone, Copy)]
pub struct GlyphReader {
    /// The bytes that have not been fetched yet.
    pub data: &'static [u8],
    /// The index of the next unread bit of `current_byte`; 8 when the byte is
    /// exhausted.
    pub bit_pos: u8,
    /// The byte the cursor is currently reading from.
    pub current_byte: u8,
    /// The decoded width of the glyph bitmap.
    pub glyph_width: u8,
    /// The decoded height of the glyph bitmap.
    pub glyph_height: u8,
    /// The decoded horizontal offset of the bitmap, relative to the pen.
    pub offset_x: i8,
    /// The decoded vertical offset of the bitmap, relative to the pen.
    pub offset_y: i8,
    /// The decoded pen advance of the glyph.
    pub advance: i8,
    /// The bit width of a background run length, taken from the font header.
    pub bitcount_0: u8,
    /// The bit width of a foreground run length, taken from the font header.
    pub bitcount_1: u8,
}

/// The total bit width of the five glyph header fields of a font.
pub open spec fn glyph_header_bits(font: FontReader) -> int {
    font.bitcnt_w + font.bitcnt_h + font.bitcnt_x + font.bitcnt_y + font.bitcnt_d
}

/// The unsigned value of the `width`-bit field starting at bit `off`.
pub open spec fn unsigned_field(bits: Seq<bool>, off: int, width: int) -> nat
    recommends
        0 <= off,
        0 <= width,
        off + width <= bits.len(),
{
    bits_value(bits.subrange(off, off + width))
}

/// The signed value of the `width`-bit field starting at bit `off`:
/// the unsigned value shifted down by half the field's range.
pub open spec fn signed_field(bits: Seq<bool>, off: int, width: int) -> int
    recommends
        0 <= off,
        1 <= width,
        off + width <= bits.len(),
{
    unsigned_field(bits, off, width) - pow2((width - 1) as nat)
}

/// The decoded glyph width of a glyph record with bits `bits`.
pub open spec fn spec_glyph_width(font: FontReader, bits: Seq<bool>) -> nat {
    unsigned_field(bits, 0, font.bitcnt_w as int)
}

/// The decoded glyph height of a glyph record with bits `bits`.
pub open spec fn spec_glyph_height(font: FontReader, bits: Seq<bool>) -> nat {
    unsigned_field(bits, font.bitcnt_w as int, font.bitcnt_h as int)
}

/// The decoded x offset of a glyph record with bits `bits`.
pub open spec fn spec_offset_x(font: FontReader, bits: Seq<bool>) -> int {
    signed_field(bits, font.bitcnt_w + font.bitcnt_h, font.bitcnt_x as int)
}

/// The decoded y offset of a glyph record with bits `bits`.
pub open spec fn spec_offset_y(font: FontReader, bits: Seq<bool>) -> int {
    signed_field(bits, font.bitcnt_w + font.bitcnt_h + font.bitcnt_x, font.bitcnt_y as int)
}

/// The decoded advance of a glyph record with bits `bits`.
pub open spec fn spec_advance(font: FontReader, bits: Seq<bool>) -> int {
    signed_field(
        bits,
        font.bitcnt_w + font.bitcnt_h + font.bitcnt_x + font.bitcnt_y,
        font.bitcnt_d as int,
    )
}

impl GlyphReader {
    /// The structural invariant of the cursor.
    pub open spec fn wf(&self) -> bool {
        &&& self.bit_pos <= 8
        &&& 1 <= self.bitcount_0 <= 8
        &&& 1 <= self.bitcount_1 <= 8
    }

    /// The not-yet-consumed bits of the glyph record, in reading order.
    pub open spec fn stream(&self) -> Seq<bool> {
        Seq::new((8 - self.bit_pos as int) as nat, |i: int| u8_bit(self.current_byte, self.bit_pos + i))
            + blob_bits(self.data@)
    }

    /// Everything of the cursor but its reading position: the decoded header
    /// and the configured run-length widths.
    pub open spec fn same_glyph(&self, other: &Self) -> bool {
        &&& self.glyph_width == other.glyph_width
        &&& self.glyph_height == other.glyph_height
        &&& self.offset_x == other.offset_x
        &&& self.offset_y == other.offset_y
        &&& self.advance == other.advance
        &&& self.bitcount_0 == other.bitcount_0
        &&& self.bitcount_1 == other.bitcount_1
    }

    /// Decodes the glyph header at the start of `data`, using the bit-field
    /// widths of `font`, and leaves the cursor at the first bitmap bit.
    pub fn new(data: &'static [u8], font: &FontReader) -> (r: Result<Self, LookupError>)
        requires
            font.wf(),
        ensures
            match r {
                Ok(g) => {
                    let bits = blob_bits(data@);
                    &&& bits.len() >= glyph_header_bits(*font)
                    &&& g.wf()
                    &&& g.bitcount_0 == font.m0
                    &&& g.bitcount_1 == font.m1
                    &&& g.glyph_width == spec_glyph_width(*font, bits)
                    &&& g.glyph_height == spec_glyph_height(*font, bits)
                    &&& g.offset_x == spec_offset_x(*font, bits)
                    &&& g.offset_y == spec_offset_y(*font, bits)
                    &&& g.advance == spec_advance(*font, bits)
                    &&& g.stream() =~= bits.skip(glyph_header_bits(*font))
                },
                Err(e) => {
                    &&& e == LookupError::InternalError
                    &&& blob_bits(data@).len() < glyph_header_bits(*font)
                },
            },
    {
        let ghost bits = blob_bits(data@);
        let mut this = GlyphReader {
            data,
            // start at 8 to mark current_byte as used up
            bit_pos: 8,
            current_byte: 0,
            glyph_width: 0,
            glyph_height: 0,
            offset_x: 0,
            offset_y: 0,
            advance: 0,
            bitcount_0: font.m0,
            bitcount_1: font.m1,
        };
        assert(this.stream() =~= bits);

        let w = match this.read_unsigned(font.bitcnt_w) {
            Ok(v) => v,
            Err(e) => {
                return Err(e);
            },
        };
        let h = match this.read_unsigned(font.bitcnt_h) {
            Ok(v) => v,
            Err(e) => {
                return Err(e);
            },
        };
        let x = match this.read_signed(font.bitcnt_x) {
            Ok(v) => v,
            Err(e) => {
                return Err(e);
            },
        };
        let y = match this.read_signed(font.bitcnt_y) {
            Ok(v) => v,
            Err(e) => {
                return Err(e);
            },
        };
        let d = match this.read_signed(font.bitcnt_d) {
            Ok(v) => v,
            Err(e) => {
                return Err(e);
            },
        };

        this.glyph_width = w;
        this.glyph_height = h;
        this.offset_x = x;
        this.offset_y = y;
        this.advance = d;

        proof {
            lemma_subrange_of_skip(bits, 0, font.bitcnt_w as int);
            lemma_subrange_of_skip(bits, font.bitcnt_w as int, font.bitcnt_h as int);
            lemma_subrange_of_skip(bits, font.bitcnt_w + font.bitcnt_h, font.bitcnt_x as int);
            lemma_subrange_of_skip(
                bits,
                font.bitcnt_w + font.bitcnt_h + font.bitcnt_x,
                font.bitcnt_y as int,
            );
            lemma_subrange_of_skip(
                bits,
                font.bitcnt_w + font.bitcnt_h + font.bitcnt_x + font.bitcnt_y,
                font.bitcnt_d as int,
            );
        }

        Ok(this)
    }

    /// Reads `bits` bits (1 to 8) from the stream, least-significant first.
    ///
    /// Fails with [`LookupError::InternalError`], leaving the cursor
    /// untouched, exactly when fewer than `bits` bits remain.
    pub fn read_unsigned(&mut self, bits: u8) -> (r: Result<u8, LookupError>)
        requires
            1 <= bits <= 8,
            old(self).wf(),
        ensures
            final(self).wf(),
            final(self).same_glyph(old(self)),
            final(self).data@.len() <= old(self).data@.len(),
            match r {
                Ok(v) => {
                    &&& old(self).stream().len() >= bits
                    &&& v as nat == bits_value(old(self).stream().take(bits as int))
                    &&& (v as nat) < pow2(bits as nat)
                    &&& final(self).stream() =~= old(self).stream().skip(bits as int)
                },
                Err(e) => {
                    &&& e == LookupError::InternalError
                    &&& old(self).stream().len() < bits
                    &&& *final(self) == *old(self)
                },
            },
    {
        proof {
            lemma2_to64();
        }
        let ghost os = old(self).stream();
        let bit_start = self.bit_pos;
        let avail = 8 - bit_start;
        let ghost cur_bits = Seq::new(
            avail as nat,
            |i: int| u8_bit(old(self).current_byte, bit_start + i),
        );
        assert(os =~= cur_bits + blob_bits(old(self).data@));
        let va: u8 = if bit_start < 8 {
            self.current_byte >> bit_start
        } else {
            0
        };
        proof {
            lemma_pow2_pos(bit_start as nat);
            if bit_start < 8 {
                lemma_u8_shr_is_div(self.current_byte, bit_start);
            } else {
                vstd::arithmetic::div_mod::lemma_basic_div(
                    self.current_byte as int,
                    pow2(8) as int,
                );
            }
            assert(va as nat == old(self).current_byte as nat / pow2(bit_start as nat));
            // va < 2^avail, because current_byte < 2^8 == 2^bit_start * 2^avail
            lemma_pow2_adds(bit_start as nat, avail as nat);
            lemma_pow2_pos(avail as nat);
            lemma_multiply_divide_lt(
                old(self).current_byte as int,
                pow2(bit_start as nat) as int,
                pow2(avail as nat) as int,
            );
            lemma_bits_value_of_byte_range(old(self).current_byte, bit_start as nat, avail as nat);
            lemma_small_mod(va as nat, pow2(avail as nat));
            assert(bits_value(cur_bits) == va as nat);
        }
        proof {
            if (bits as nat) < 8 {
                vstd::arithmetic::power2::lemma_pow2_strictly_increases(bits as nat, 8);
            }
            lemma_u16_shl_is_mul(1u16, bits as u16);
        }
        let mask: u8 = ((1u16 << bits) - 1) as u8;
        proof {
            assert(mask == low_bits_mask(bits as nat));
        }

        if bits <= avail {
            // the current byte holds all requested bits; bit_start <= 7 here
            self.bit_pos = bit_start + bits;
            let out = va & mask;
            proof {
                lemma_pow2_pos(bits as nat);
                if bits < 8 {
                    lemma_u8_low_bits_mask_is_mod(va, bits as nat);
                } else {
                    assert(va & 0xff == va) by (bit_vector);
                    lemma_small_mod(va as nat, pow2(8));
                }
                assert(out as nat == va as nat % pow2(bits as nat));
                assert(os.take(bits as int) =~= Seq::new(
                    bits as nat,
                    |i: int| u8_bit(old(self).current_byte, bit_start + i),
                ));
                lemma_bits_value_of_byte_range(
                    old(self).current_byte,
                    bit_start as nat,
                    bits as nat,
                );
                vstd::arithmetic::div_mod::lemma_mod_mod(
                    old(self).current_byte as int / pow2(bit_start as nat) as int,
                    pow2(bits as nat) as int,
                    1,
                );
                assert((va as nat % pow2(bits as nat)) % pow2(bits as nat) == va as nat % pow2(
                    bits as nat,
                ));
                assert(out as nat == bits_value(os.take(bits as int)));
                assert(self.stream() =~= os.skip(bits as int));
                vstd::arithmetic::div_mod::lemma_mod_bound(va as int, pow2(bits as nat) as int);
            }
            return Ok(out);
        }

        // a new byte is needed
        if self.data.len() == 0 {
            assert(os.len() == avail < bits);
            return Err(LookupError::InternalError);
        }
        let value2 = self.data[0];
        let needed = bits - avail;
        self.data = slice_subrange(self.data, 1, self.data.len());
        self.current_byte = value2;
        self.bit_pos = needed;

        proof {
            lemma_blob_bits_skip_head(old(self).data@, needed as nat);
            assert(self.stream() =~= os.skip(bits as int));
        }

        if avail == 0 {
            // the old byte was used up; the new byte holds all requested bits
            let out = value2 & mask;
            proof {
                lemma_pow2_pos(bits as nat);
                if bits < 8 {
                    lemma_u8_low_bits_mask_is_mod(value2, bits as nat);
                } else {
                    assert(value2 & 0xff == value2) by (bit_vector);
                    lemma_small_mod(value2 as nat, pow2(8));
                }
                assert(out as nat == value2 as nat % pow2(bits as nat));
                assert(os.take(bits as int) =~= Seq::new(
                    bits as nat,
                    |i: int| u8_bit(value2, i),
                ));
                lemma_bits_value_of_byte_range(value2, 0, bits as nat);
                assert(Seq::new(bits as nat, |i: int| u8_bit(value2, 0 + i)) =~= Seq::new(
                    bits as nat,
                    |i: int| u8_bit(value2, i),
                ));
                vstd::arithmetic::div_mod::lemma_basic_div_specific_divisor(1);
                assert(pow2(0) == 1);
                assert(out as nat == bits_value(os.take(bits as int)));
                vstd::arithmetic::div_mod::lemma_mod_bound(value2 as int, pow2(bits as nat) as int);
            }
            Ok(out)
        } else {
            // split read: low bits from the old byte, high bits from the new one
            proof {
                vstd::arithmetic::power2::lemma_pow2_strictly_increases(needed as nat, 8);
                lemma_u16_shl_is_mul(1u16, needed as u16);
            }
            let mask2: u8 = ((1u16 << needed) - 1) as u8;
            let vc = value2 & mask2;
            proof {
                assert(mask2 == low_bits_mask(needed as nat));
                lemma_pow2_pos(needed as nat);
                lemma_u8_low_bits_mask_is_mod(value2, needed as nat);
                assert(vc as nat == value2 as nat % pow2(needed as nat));
                vstd::arithmetic::div_mod::lemma_mod_bound(
                    value2 as int,
                    pow2(needed as nat) as int,
                );
            }
            // vc < 2^needed and needed + avail == 8, so the shift keeps all bits
            let out = va | (vc << avail);
            proof {
                let k = avail;
                assert((1u8 << k) as nat == pow2(k as nat)) by {
                    vstd::bits::lemma_u8_shl_is_mul(1u8, k);
                }
                assert((1u8 << needed) as nat == pow2(needed as nat)) by {
                    vstd::bits::lemma_u8_shl_is_mul(1u8, needed);
                }
                assert(va < (1u8 << k) && vc < (1u8 << needed) && k < 8 && needed < 8 && needed
                    + k <= 8 ==> ((va | (vc << k)) == va + (vc << k) && (vc << k) == vc * (1u8
                    << k))) by (bit_vector);
                assert(va < (1u8 << k) && vc < (1u8 << needed) && k < 8 && needed < 8 && needed
                    + k <= 8);
                assert(out as nat == va as nat + vc as nat * pow2(k as nat));
                let second = Seq::new(needed as nat, |i: int| u8_bit(value2, i));
                assert(os.take(bits as int) =~= cur_bits + second);
                lemma_bits_value_append(cur_bits, second);
                lemma_bits_value_of_byte_range(value2, 0, needed as nat);
                assert(Seq::new(needed as nat, |i: int| u8_bit(value2, 0 + i)) =~= second);
                vstd::arithmetic::div_mod::lemma_basic_div_specific_divisor(1);
                assert(pow2(0) == 1);
                assert(bits_value(second) == value2 as nat % pow2(needed as nat));
                assert(bits_value(os.take(bits as int)) == va as nat + pow2(k as nat) * bits_value(
                    second,
                ));
                assert(pow2(k as nat) * bits_value(second) == bits_value(second) * pow2(k as nat))
                    by (nonlinear_arith);
                assert(out as nat == bits_value(os.take(bits as int)));
                // the result is bounded by the field width
                lemma_bits_value_bound(os.take(bits as int));
                lemma_pow2_pos(bits as nat);
            }
            Ok(out)
        }
    }
    /// Reads a signed bit field: the unsigned value shifted down by half the
    /// field's range (two's complement with the stated width).
    pub fn read_signed(&mut self, bits: u8) -> (r: Result<i8, LookupError>)
        requires
            1 <= bits <= 8,
            old(self).wf(),
        ensures
            final(self).wf(),
            final(self).same_glyph(old(self)),
            final(self).data@.len() <= old(self).data@.len(),
            match r {
                Ok(v) => {
                    &&& old(self).stream().len() >= bits
                    &&& v as int == bits_value(old(self).stream().take(bits as int)) - pow2(
                        (bits - 1) as nat,
                    )
                    &&& final(self).stream() =~= old(self).stream().skip(bits as int)
                },
                Err(e) => {
                    &&& e == LookupError::InternalError
                    &&& old(self).stream().len() < bits
                    &&& *final(self) == *old(self)
                },
            },
    {
        let v = match self.read_unsigned(bits) {
            Ok(v) => v,
            Err(e) => {
                return Err(e);
            },
        };
        proof {
            lemma2_to64();
            vstd::arithmetic::power2::lemma_pow2_strictly_increases((bits - 1) as nat, 8);
            lemma_u16_shl_is_mul(1u16, (bits - 1) as u16);
        }
        let offset_u: u16 = 1u16 << (bits - 1);
        proof {
            assert(offset_u == pow2((bits - 1) as nat));
            lemma_pow2_adds((bits - 1) as nat, 1);
            lemma2_to64();
            assert(pow2(bits as nat) == pow2((bits - 1) as nat) * 2);
        }
        let offset: i16 = offset_u as i16;
        let shifted: i16 = v as i16 - offset;
        assert(-128 <= shifted < 128);
        Ok(shifted as i8)
    }

    /// The top-left corner of the glyph's bounding box, for a pen position
    /// `pos` on the baseline.
    pub fn topleft(&self, pos: &crate::types::Point) -> (r: crate::types::Point)
        requires
            i32::MIN <= pos.x + self.offset_x <= i32::MAX,
            i32::MIN <= pos.y - (self.glyph_height + self.offset_y) <= i32::MAX,
        ensures
            r.x == pos.x + self.offset_x,
            r.y == pos.y - (self.glyph_height + self.offset_y),
    {
        crate::types::Point {
            x: pos.x + self.offset_x as i32,
            y: pos.y - (self.glyph_height as i32 + self.offset_y as i32),
        }
    }

    /// The size of the glyph's bitmap.
    pub fn size(&self) -> (r: crate::types::Size)
        ensures
            r.width == self.glyph_width,
            r.height == self.glyph_height,
    {
        crate::types::Size { width: self.glyph_width as u32, height: self.glyph_height as u32 }
    }

    /// The pen advance of the glyph.
    pub fn advance(&self) -> (r: i8)
        ensures
            r == self.advance,
    {
        self.advance
    }

    /// Starts a renderer for this glyph's bitmap. Fails when the bitmap's
    /// first pair of run lengths is truncated.
    pub fn create_renderer(&self) -> (r: Result<
        crate::glyph_renderer::GlyphRenderer,
        LookupError,
    >)
        requires
            self.wf(),
        ensures
            match r {
                Ok(g) => g.wf() && g.glyph.same_glyph(self),
                Err(e) => e == LookupError::InternalError,
            },
    {
        crate::glyph_renderer::GlyphRenderer::new(self)
    }

    /// Reads the length of a background run.
    pub fn read_runlength_0(&mut self) -> (r: Result<u8, LookupError>)
        requires
            old(self).wf(),
        ensures
            final(self).wf(),
            final(self).same_glyph(old(self)),
            match r {
                Ok(v) => {
                    &&& old(self).stream().len() >= old(self).bitcount_0
                    &&& v as nat == bits_value(
                        old(self).stream().take(old(self).bitcount_0 as int),
                    )
                    &&& final(self).stream() =~= old(self).stream().skip(old(self).bitcount_0 as int)
                },
                Err(e) => {
                    &&& e == LookupError::InternalError
                    &&& old(self).stream().len() < old(self).bitcount_0
                    &&& *final(self) == *old(self)
                },
            },
    {
        let bits = self.bitcount_0;
        self.read_unsigned(bits)
    }

    /// Reads the length of a foreground run.
    pub fn read_runlength_1(&mut self) -> (r: Result<u8, LookupError>)
        requires
            old(self).wf(),
        ensures
            final(self).wf(),
            final(self).same_glyph(old(self)),
            match r {
                Ok(v) => {
                    &&& old(self).stream().len() >= old(self).bitcount_1
                    &&& v as nat == bits_value(
                        old(self).stream().take(old(self).bitcount_1 as int),
                    )
                    &&& final(self).stream() =~= old(self).stream().skip(old(self).bitcount_1 as int)
                },
                Err(e) => {
                    &&& e == LookupError::InternalError
                    &&& old(self).stream().len() < old(self).bitcount_1
                    &&& *final(self) == *old(self)
                },
            },
    {
        let bits = self.bitcount_1;
        self.read_unsigned(bits)
    }
}

/// Reading a field of `width` bits from position `off` consumes exactly the
/// bits of that field: taking `width` bits after skipping `off` is the
/// subrange from `off` to `off + width`.
pub proof fn lemma_subrange_of_skip(bits: Seq<bool>, off: int, width: int)
    requires
        0 <= off,
        0 <= width,
        off + width <= bits.len(),
    ensures
        bits.skip(off).take(width) =~= bits.subrange(off, off + width),
        bits.skip(off).skip(width) =~= bits.skip(off + width),
{
}

} // verus!
