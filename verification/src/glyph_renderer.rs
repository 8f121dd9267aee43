//! The run-length glyph bitmap decoder and its two rendering modes:
//! transparent (foreground pixels only) and box fill (every pixel of the
//! glyph rectangle). Everything a rendering mode hands to the surface is
//! produced first by a decoding function with an exact contract and then
//! forwarded unchanged.

use crate::draw_target::DrawTarget;
use crate::error::{Error, LookupError};
use crate::glyph_reader::GlyphReader;
use crate::types::{Point, Rectangle, Size};
use vstd::prelude::*;

verus! {

/// The state of the run-length decoder: the remaining bit stream, the current
/// pair of run lengths, and how much of that pair is still to be emitted.
#[verifier::ext_equal]
pub struct RleState {
    /// The bits not consumed yet.
    pub bits: Seq<bool>,
    /// The background run length of the current pair.
    pub z: nat,
    /// The foreground run length of the current pair.
    pub o: nat,
    /// How many background pixels of the current pair are still to be
    /// emitted.
    pub zl: nat,
    /// How many foreground pixels of the current pair are still to be
    /// emitted.
    pub ol: nat,
}

/// One step of the run-length decoder: the next pixel (true for foreground)
/// and the following state, or `None` when the bit stream is exhausted.
///
/// When the current pair is used up, a single repeat bit decides whether the
/// same pair is emitted again (bit set) or a new pair of run lengths is read
/// (bit clear).
pub open spec fn rle_step(st: RleState, m0: nat, m1: nat) -> Option<(bool, RleState)>
    recommends
        1 <= m0 <= 8,
        1 <= m1 <= 8,
    decreases st.bits.len(),
{
    if st.zl > 0 {
        Some((false, RleState { zl: (st.zl - 1) as nat, ..st }))
    } else if st.ol > 0 {
        Some((true, RleState { ol: (st.ol - 1) as nat, ..st }))
    } else if st.bits.len() < 1 {
        None
    } else if st.bits[0] {
        rle_step(RleState { bits: st.bits.skip(1), zl: st.z, ol: st.o, ..st }, m0, m1)
    } else if st.bits.len() < 1 + m0 + m1 {
        None
    } else {
        let z = crate::bitstream::bits_value(st.bits.subrange(1, 1 + m0 as int));
        let o = crate::bitstream::bits_value(st.bits.subrange(1 + m0 as int, (1 + m0 + m1) as int));
        rle_step(
            RleState { bits: st.bits.skip((1 + m0 + m1) as int), z, o, zl: z, ol: o },
            m0,
            m1,
        )
    }
}

/// The first `n` pixels the decoder emits from state `st`, or `None` when the
/// bit stream runs out first.
pub open spec fn rle_decode(st: RleState, m0: nat, m1: nat, n: nat) -> Option<Seq<bool>>
    decreases n,
{
    if n == 0 {
        Some(Seq::empty())
    } else {
        match rle_step(st, m0, m1) {
            None => None,
            Some((px, st2)) => match rle_decode(st2, m0, m1, (n - 1) as nat) {
                None => None,
                Some(s) => Some(seq![px] + s),
            },
        }
    }
}

/// The bitmap bits of the glyph the font maps `ch` to: the bits of the
/// glyph's record past its bit-packed header.
pub open spec fn bitmap_bits(font: crate::font_reader::FontReader, ch: char) -> Seq<bool> {
    match font.lookup(ch as nat) {
        crate::glyph_searcher::GlyphSearchResult::Found { payload } =>
            crate::bitstream::blob_bits(payload).skip(
            crate::glyph_reader::glyph_header_bits(font),
        ),
        _ => Seq::empty(),
    }
}

/// Whether the bitmap of the glyph of `ch` decodes to the glyph's full pixel
/// count. Holds vacuously for characters without a visible glyph.
pub open spec fn bitmap_decodes(font: crate::font_reader::FontReader, ch: char) -> bool {
    match crate::layout::glyph_of(font, ch) {
        crate::layout::GlyphOutcome::Glyph { width, height, .. } => width == 0 || height == 0 || {
            let bits = bitmap_bits(font, ch);
            let m0 = font.m0 as nat;
            let m1 = font.m1 as nat;
            &&& bits.len() >= m0 + m1
            &&& {
                let z = crate::bitstream::bits_value(bits.subrange(0, m0 as int));
                let o = crate::bitstream::bits_value(bits.subrange(m0 as int, (m0 + m1) as int));
                rle_decode(
                    RleState { bits: bits.skip((m0 + m1) as int), z, o, zl: z, ol: o },
                    m0,
                    m1,
                    (width * height) as nat,
                ) is Some
            }
        },
        _ => true,
    }
}

/// Whether every character of `chars` has a bitmap that decodes fully.
pub open spec fn content_renderable(font: crate::font_reader::FontReader, chars: Seq<char>)
    -> bool {
    forall|i: int| 0 <= i < chars.len() ==> bitmap_decodes(font, #[trigger] chars[i])
}

/// Renders the bitmap of one glyph. Holds the cursor into the glyph's bit
/// stream and the run-length decoder state.
#[derive(Debug, Clone, Copy)]
pub struct GlyphRenderer {
    /// The cursor over the glyph's bitmap bits, past the glyph header.
    pub glyph: GlyphReader,
    /// The background run length of the current pair.
    pub num_zeros: u8,
    /// The foreground run length of the current pair.
    pub num_ones: u8,
    /// Background pixels of the current pair still to be emitted.
    pub zeros_leftover: u8,
    /// Foreground pixels of the current pair still to be emitted.
    pub ones_leftover: u8,
}

impl GlyphRenderer {
    /// The structural invariant of the renderer.
    pub open spec fn wf(&self) -> bool {
        &&& self.glyph.wf()
        &&& self.zeros_leftover <= self.num_zeros
        &&& self.ones_leftover <= self.num_ones
    }

    /// The decoder-state view of the renderer.
    pub open spec fn state(&self) -> RleState {
        RleState {
            bits: self.glyph.stream(),
            z: self.num_zeros as nat,
            o: self.num_ones as nat,
            zl: self.zeros_leftover as nat,
            ol: self.ones_leftover as nat,
        }
    }

    /// Starts decoding a glyph bitmap: reads the first pair of run lengths.
    /// Fails when the bit stream is too short for them.
    pub fn new(glyph: &GlyphReader) -> (r: Result<Self, LookupError>)
        requires
            glyph.wf(),
        ensures
            match r {
                Ok(g) => {
                    &&& g.wf()
                    &&& g.glyph.same_glyph(glyph)
                    &&& glyph.stream().len() >= glyph.bitcount_0 + glyph.bitcount_1
                    &&& g.num_zeros == crate::bitstream::bits_value(
                        glyph.stream().subrange(0, glyph.bitcount_0 as int),
                    )
                    &&& g.num_ones == crate::bitstream::bits_value(
                        glyph.stream().subrange(
                            glyph.bitcount_0 as int,
                            glyph.bitcount_0 + glyph.bitcount_1,
                        ),
                    )
                    &&& g.zeros_leftover == g.num_zeros
                    &&& g.ones_leftover == g.num_ones
                    &&& g.glyph.stream() == glyph.stream().skip(
                        glyph.bitcount_0 + glyph.bitcount_1,
                    )
                },
                Err(e) => {
                    &&& e == LookupError::InternalError
                    &&& glyph.stream().len() < glyph.bitcount_0 + glyph.bitcount_1
                },
            },
    {
        let mut reader = *glyph;
        let ghost bits0 = glyph.stream();
        let num_zeros = match reader.read_runlength_0() {
            Ok(v) => v,
            Err(e) => {
                return Err(e);
            },
        };
        let num_ones = match reader.read_runlength_1() {
            Ok(v) => v,
            Err(e) => {
                return Err(e);
            },
        };
        proof {
            crate::glyph_reader::lemma_subrange_of_skip(
                bits0,
                glyph.bitcount_0 as int,
                glyph.bitcount_1 as int,
            );
        }
        Ok(
            GlyphRenderer {
                glyph: reader,
                num_zeros,
                num_ones,
                zeros_leftover: num_zeros,
                ones_leftover: num_ones,
            },
        )
    }

    /// Decodes the next pixel of the bitmap: `true` for a foreground pixel.
    /// Fails, exactly when the model does, on an exhausted bit stream.
    pub fn next_pixel(&mut self) -> (r: Result<bool, LookupError>)
        requires
            old(self).wf(),
        ensures
            final(self).wf(),
            final(self).glyph.same_glyph(&old(self).glyph),
            match r {
                Ok(px) => rle_step(
                    old(self).state(),
                    old(self).glyph.bitcount_0 as nat,
                    old(self).glyph.bitcount_1 as nat,
                ) == Some((px, final(self).state())),
                Err(e) => {
                    &&& e == LookupError::InternalError
                    &&& rle_step(
                        old(self).state(),
                        old(self).glyph.bitcount_0 as nat,
                        old(self).glyph.bitcount_1 as nat,
                    ) is None
                },
            },
    {
        let ghost m0 = self.glyph.bitcount_0 as nat;
        let ghost m1 = self.glyph.bitcount_1 as nat;

        while self.zeros_leftover == 0 && self.ones_leftover == 0
            invariant
                self.wf(),
                m0 == self.glyph.bitcount_0 as nat,
                m1 == self.glyph.bitcount_1 as nat,
                self.glyph.same_glyph(&old(self).glyph),
                rle_step(old(self).state(), m0, m1) == rle_step(self.state(), m0, m1),
            decreases self.glyph.stream().len(),
        {
            let ghost pre = self.state();
            let repeat = match self.glyph.read_unsigned(1) {
                Ok(v) => v,
                Err(e) => {
                    return Err(e);
                },
            };
            proof {
                crate::bitstream::lemma_bits_value_one(pre.bits.take(1));
            }
            if repeat == 0 {
                let ghost mid = self.state();
                let nz = match self.glyph.read_runlength_0() {
                    Ok(v) => v,
                    Err(e) => {
                        proof {
                            assert(pre.bits.len() < 1 + m0 + m1);
                        }
                        return Err(e);
                    },
                };
                let no = match self.glyph.read_runlength_1() {
                    Ok(v) => v,
                    Err(e) => {
                        proof {
                            assert(pre.bits.len() < 1 + m0 + m1);
                        }
                        return Err(e);
                    },
                };
                self.num_zeros = nz;
                self.num_ones = no;
                self.zeros_leftover = nz;
                self.ones_leftover = no;
                proof {
                    crate::glyph_reader::lemma_subrange_of_skip(mid.bits, m0 as int, m1 as int);
                    crate::glyph_reader::lemma_subrange_of_skip(pre.bits, 1, m0 as int);
                    crate::glyph_reader::lemma_subrange_of_skip(pre.bits, (1 + m0) as int, m1 as int);
                    assert(pre.bits.skip(1).subrange(0, m0 as int) =~= pre.bits.subrange(
                        1,
                        1 + m0 as int,
                    ));
                    assert(pre.bits.skip(1).subrange(m0 as int, (m0 + m1) as int)
                        =~= pre.bits.subrange(1 + m0 as int, (1 + m0 + m1) as int));
                    assert(pre.bits.skip(1).skip((m0 + m1) as int) =~= pre.bits.skip((1 + m0 + m1) as int));
                }
            } else {
                self.zeros_leftover = self.num_zeros;
                self.ones_leftover = self.num_ones;
                proof {
                    assert(self.state() == (RleState {
                        bits: pre.bits.skip(1),
                        zl: pre.z,
                        ol: pre.o,
                        ..pre
                    }));
                }
            }
        }

        if self.zeros_leftover > 0 {
            self.zeros_leftover = self.zeros_leftover - 1;
            Ok(false)
        } else {
            self.ones_leftover = self.ones_leftover - 1;
            Ok(true)
        }
    }

    /// The bounding rectangle of the glyph, for a pen position `position` on
    /// the baseline.
    pub fn get_glyph_bounding_box(&self, position: Point) -> (r: Rectangle)
        requires
            -0x4000_0300 <= position.x <= 0x4000_0300,
            -0x4000_0300 <= position.y <= 0x4000_0300,
        ensures
            r.top_left.x == position.x + self.glyph.offset_x,
            r.top_left.y == position.y - (self.glyph.glyph_height + self.glyph.offset_y),
            r.size.width == self.glyph.glyph_width,
            r.size.height == self.glyph.glyph_height,
    {
        Rectangle {
            top_left: self.glyph.topleft(&position),
            size: self.glyph.size(),
        }
    }

    /// Decodes the whole bitmap and collects the positions of its foreground
    /// pixels: exactly the pixels that transparent rendering hands to the
    /// surface, row-major within the glyph's box, for a pen at `position`.
    ///
    /// Fails with [`LookupError::InternalError`] exactly when the bitmap does
    /// not decode to the glyph's full pixel count.
    pub fn decode_foreground_pixels(self, position: Point) -> (r: Result<Vec<Point>, LookupError>)
        requires
            self.wf(),
            -0x4000_0300 <= position.x <= 0x4000_0300,
            -0x4000_0300 <= position.y <= 0x4000_0300,
        ensures
            match r {
                Ok(v) => rle_decode(
                    self.state(),
                    self.glyph.bitcount_0 as nat,
                    self.glyph.bitcount_1 as nat,
                    (self.glyph.glyph_width * self.glyph.glyph_height) as nat,
                ) matches Some(px) && v@ == foreground_points(
                    px,
                    px.len() as int,
                    position.x + self.glyph.offset_x,
                    position.y - (self.glyph.glyph_height + self.glyph.offset_y),
                    self.glyph.glyph_width as int,
                ),
                Err(e) => {
                    &&& e == LookupError::InternalError
                    &&& rle_decode(
                        self.state(),
                        self.glyph.bitcount_0 as nat,
                        self.glyph.bitcount_1 as nat,
                        (self.glyph.glyph_width * self.glyph.glyph_height) as nat,
                    ) is None
                },
            },
    {
        let ghost m0 = self.glyph.bitcount_0 as nat;
        let ghost m1 = self.glyph.bitcount_1 as nat;
        let ghost st0 = self.state();
        let width = self.glyph.glyph_width as u32;
        let height = self.glyph.glyph_height as u32;
        assert(width * height <= 65025) by (nonlinear_arith)
            requires
                width <= 255,
                height <= 255,
        ;
        let total: u32 = width * height;
        let left = position.x + self.glyph.offset_x as i32;
        let top = position.y - (self.glyph.glyph_height as i32 + self.glyph.offset_y as i32);
        proof {
            lemma_rle_decode_len(st0, m0, m1, total as nat);
            match rle_decode(st0, m0, m1, total as nat) {
                Option::Some(px) => {
                    assert(px.skip(0) =~= px);
                    assert(foreground_points(px, 0, left as int, top as int, width as int)
                        =~= Seq::<Point>::empty());
                },
                Option::None => {},
            }
        }

        let mut renderer = self;
        let mut pixels: Vec<Point> = Vec::new();
        let mut i: u32 = 0;
        let mut x: u32 = 0;
        let mut y: u32 = 0;

        while i < total
            invariant
                renderer.wf(),
                renderer.glyph.same_glyph(&self.glyph),
                m0 == renderer.glyph.bitcount_0 as nat,
                m1 == renderer.glyph.bitcount_1 as nat,
                st0 == self.state(),
                i <= total,
                total == self.glyph.glyph_width * self.glyph.glyph_height,
                total <= 65025,
                width == self.glyph.glyph_width,
                width == 0 ==> total == 0,
                x <= width,
                x < width || width == 0,
                y <= i,
                i == y * width + x,
                -0x4000_0300 <= position.x <= 0x4000_0300,
                -0x4000_0300 <= position.y <= 0x4000_0300,
                left == position.x + self.glyph.offset_x,
                top == position.y - (self.glyph.glyph_height + self.glyph.offset_y),
                match rle_decode(st0, m0, m1, total as nat) {
                    Option::Some(px) => {
                        &&& px.len() == total
                        &&& rle_decode(renderer.state(), m0, m1, (total - i) as nat) == Some(
                            px.skip(i as int),
                        )
                        &&& pixels@ == foreground_points(
                            px,
                            i as int,
                            left as int,
                            top as int,
                            width as int,
                        )
                    },
                    Option::None => rle_decode(renderer.state(), m0, m1, (total - i) as nat)
                        is None,
                },
            decreases total - i,
        {
            let ghost pre = renderer.state();
            let ghost remaining = (total - i) as nat;
            let px = match renderer.next_pixel() {
                Ok(v) => v,
                Err(_) => {
                    proof {
                        assert(rle_decode(pre, m0, m1, remaining) is None);
                        if rle_decode(st0, m0, m1, total as nat) matches Some(d) {
                            assert(false);
                        }
                    }
                    return Err(LookupError::InternalError);
                },
            };
            proof {
                lemma_rle_decode_advance(
                    st0,
                    pre,
                    renderer.state(),
                    m0,
                    m1,
                    total as nat,
                    i as int,
                    px,
                );
            }
            if px {
                pixels.push(Point { x: left + x as i32, y: top + y as i32 });
                proof {
                    assert(width >= 1);
                    vstd::arithmetic::div_mod::lemma_fundamental_div_mod_converse(
                        i as int,
                        width as int,
                        y as int,
                        x as int,
                    );
                    if rle_decode(st0, m0, m1, total as nat) is Some {
                        let full = rle_decode(st0, m0, m1, total as nat)->Some_0;
                        assert(foreground_points(full, i + 1, left as int, top as int, width as int)
                            =~= foreground_points(
                            full,
                            i as int,
                            left as int,
                            top as int,
                            width as int,
                        ).push(Point { x: (left + x) as i32, y: (top + y) as i32 }));
                    }
                }
            } else {
                proof {
                    if rle_decode(st0, m0, m1, total as nat) is Some {
                        let full = rle_decode(st0, m0, m1, total as nat)->Some_0;
                        assert(foreground_points(full, i + 1, left as int, top as int, width as int)
                            =~= foreground_points(
                            full,
                            i as int,
                            left as int,
                            top as int,
                            width as int,
                        ));
                    }
                }
            }
            x = x + 1;
            if x >= width {
                proof {
                    assert((y + 1) * width == y * width + width) by (nonlinear_arith);
                }
                x = 0;
                y = y + 1;
            }
            i = i + 1;
        }
        proof {
            match rle_decode(st0, m0, m1, total as nat) {
                Option::Some(d) => {
                    assert(d.len() as int == total as int);
                },
                Option::None => {
                    assert(rle_decode(renderer.state(), m0, m1, 0) is Some);
                    assert(false);
                },
            }
        }
        Ok(pixels)
    }

    /// Renders the glyph transparently: only its foreground pixels are drawn,
    /// row-major from the glyph's top-left corner; background runs advance
    /// the cursor without drawing.
    ///
    /// What reaches the surface is exactly the pixel list of
    /// [`decode_foreground_pixels`](Self::decode_foreground_pixels), each
    /// position with the foreground color, handed over unchanged one by one.
    /// Succeeds, up to surface failures, exactly when the bitmap decodes to
    /// the glyph's full pixel count.
    pub fn render_transparent<D: DrawTarget>(
        self,
        position: Point,
        display: &mut D,
        foreground_color: D::Color,
    ) -> (r: Result<Rectangle, Error<D::Error>>)
        requires
            self.wf(),
            -0x4000_0300 <= position.x <= 0x4000_0300,
            -0x4000_0300 <= position.y <= 0x4000_0300,
        ensures
            match r {
                Ok(rect) => {
                    &&& rect.top_left.x == position.x + self.glyph.offset_x
                    &&& rect.top_left.y == position.y - (self.glyph.glyph_height
                        + self.glyph.offset_y)
                    &&& rect.size.width == self.glyph.glyph_width
                    &&& rect.size.height == self.glyph.glyph_height
                    &&& rle_decode(
                        self.state(),
                        self.glyph.bitcount_0 as nat,
                        self.glyph.bitcount_1 as nat,
                        (self.glyph.glyph_width * self.glyph.glyph_height) as nat,
                    ) is Some
                },
                Err(Error::InternalError) => rle_decode(
                    self.state(),
                    self.glyph.bitcount_0 as nat,
                    self.glyph.bitcount_1 as nat,
                    (self.glyph.glyph_width * self.glyph.glyph_height) as nat,
                ) is None,
                Err(Error::DisplayError(_)) => true,
                _ => false,
            },
    {
        let width = self.glyph.glyph_width as u32;
        let height = self.glyph.glyph_height as u32;
        let rect = Rectangle {
            top_left: Point {
                x: position.x + self.glyph.offset_x as i32,
                y: position.y - (self.glyph.glyph_height as i32 + self.glyph.offset_y as i32),
            },
            size: Size { width, height },
        };

        let pixels = match self.decode_foreground_pixels(position) {
            Ok(v) => v,
            Err(_) => {
                return Err(Error::InternalError);
            },
        };

        // hand the produced pixels to the surface, unchanged and in order
        let mut i: usize = 0;
        while i < pixels.len()
            invariant
                i <= pixels.len(),
            decreases pixels.len() - i,
        {
            match display.draw_pixel(pixels[i], foreground_color) {
                Ok(()) => (),
                Err(e) => {
                    return Err(Error::DisplayError(e));
                },
            }
            i = i + 1;
        }
        Ok(rect)
    }

    /// Decodes the whole bitmap into the color sequence of a box fill:
    /// exactly the colors that box-fill rendering hands to the surface,
    /// row-major, the foreground color for set pixels and the background
    /// color for clear ones.
    ///
    /// Fails with [`LookupError::InternalError`] exactly when the bitmap does
    /// not decode to the glyph's full pixel count.
    pub fn decode_box_colors<Color: Copy>(self, foreground: Color, background: Color) -> (r:
        Result<Vec<Color>, LookupError>)
        requires
            self.wf(),
        ensures
            match r {
                Ok(v) => (rle_decode(
                    self.state(),
                    self.glyph.bitcount_0 as nat,
                    self.glyph.bitcount_1 as nat,
                    (self.glyph.glyph_width * self.glyph.glyph_height) as nat,
                ) matches Some(px) && v@ == box_fill_colors(px, foreground, background))
                    && v@.len() == self.glyph.glyph_width * self.glyph.glyph_height,
                Err(e) => {
                    &&& e == LookupError::InternalError
                    &&& rle_decode(
                        self.state(),
                        self.glyph.bitcount_0 as nat,
                        self.glyph.bitcount_1 as nat,
                        (self.glyph.glyph_width * self.glyph.glyph_height) as nat,
                    ) is None
                },
            },
    {
        let ghost m0 = self.glyph.bitcount_0 as nat;
        let ghost m1 = self.glyph.bitcount_1 as nat;
        let ghost st0 = self.state();
        let width = self.glyph.glyph_width as u32;
        let height = self.glyph.glyph_height as u32;
        assert(width * height <= 65025) by (nonlinear_arith)
            requires
                width <= 255,
                height <= 255,
        ;
        let total: u32 = width * height;
        proof {
            lemma_rle_decode_len(st0, m0, m1, total as nat);
            match rle_decode(st0, m0, m1, total as nat) {
                Option::Some(px) => {
                    assert(px.skip(0) =~= px);
                    assert(box_fill_colors(px.take(0), foreground, background)
                        =~= Seq::<Color>::empty());
                },
                Option::None => {},
            }
        }

        let mut renderer = self;
        let mut colors: Vec<Color> = Vec::new();
        let mut i: u32 = 0;

        while i < total
            invariant
                renderer.wf(),
                renderer.glyph.same_glyph(&self.glyph),
                m0 == renderer.glyph.bitcount_0 as nat,
                m1 == renderer.glyph.bitcount_1 as nat,
                st0 == self.state(),
                i <= total,
                total == self.glyph.glyph_width * self.glyph.glyph_height,
                total <= 65025,
                colors@.len() == i,
                match rle_decode(st0, m0, m1, total as nat) {
                    Option::Some(px) => {
                        &&& px.len() == total
                        &&& rle_decode(renderer.state(), m0, m1, (total - i) as nat) == Some(
                            px.skip(i as int),
                        )
                        &&& colors@ == box_fill_colors(px.take(i as int), foreground, background)
                    },
                    Option::None => rle_decode(renderer.state(), m0, m1, (total - i) as nat)
                        is None,
                },
            decreases total - i,
        {
            let ghost pre = renderer.state();
            let ghost remaining = (total - i) as nat;
            let px = match renderer.next_pixel() {
                Ok(v) => v,
                Err(_) => {
                    proof {
                        assert(rle_decode(pre, m0, m1, remaining) is None);
                        if rle_decode(st0, m0, m1, total as nat) matches Some(d) {
                            assert(false);
                        }
                    }
                    return Err(LookupError::InternalError);
                },
            };
            proof {
                lemma_rle_decode_advance(
                    st0,
                    pre,
                    renderer.state(),
                    m0,
                    m1,
                    total as nat,
                    i as int,
                    px,
                );
            }
            if px {
                colors.push(foreground);
            } else {
                colors.push(background);
            }
            proof {
                match rle_decode(st0, m0, m1, total as nat) {
                    Option::Some(full) => {
                        assert(colors@ =~= box_fill_colors(full.take(i + 1), foreground, background));
                    },
                    Option::None => {},
                }
            }
            i = i + 1;
        }

        proof {
            match rle_decode(st0, m0, m1, total as nat) {
                Option::Some(full) => {
                    assert(full.take(total as int) =~= full);
                    assert(colors@ == box_fill_colors(full, foreground, background));
                },
                Option::None => {
                    assert(rle_decode(renderer.state(), m0, m1, 0) is Some);
                    assert(false);
                },
            }
        }
        Ok(colors)
    }

    /// Renders the glyph as a filled box: every pixel of its bounding
    /// rectangle is drawn, background runs in the background color.
    ///
    /// What reaches the surface is exactly one contiguous fill of the glyph's
    /// rectangle with the color sequence of
    /// [`decode_box_colors`](Self::decode_box_colors), handed over unchanged.
    /// Succeeds, up to surface failures, exactly when the bitmap decodes to
    /// the glyph's full pixel count.
    pub fn render_as_box_fill<D: DrawTarget>(
        self,
        position: Point,
        display: &mut D,
        foreground_color: D::Color,
        background_color: D::Color,
    ) -> (r: Result<Rectangle, Error<D::Error>>)
        requires
            self.wf(),
            -0x4000_0300 <= position.x <= 0x4000_0300,
            -0x4000_0300 <= position.y <= 0x4000_0300,
        ensures
            match r {
                Ok(rect) => {
                    &&& rect.top_left.x == position.x + self.glyph.offset_x
                    &&& rect.top_left.y == position.y - (self.glyph.glyph_height
                        + self.glyph.offset_y)
                    &&& rect.size.width == self.glyph.glyph_width
                    &&& rect.size.height == self.glyph.glyph_height
                    &&& rle_decode(
                        self.state(),
                        self.glyph.bitcount_0 as nat,
                        self.glyph.bitcount_1 as nat,
                        (self.glyph.glyph_width * self.glyph.glyph_height) as nat,
                    ) is Some
                },
                Err(Error::InternalError) => rle_decode(
                    self.state(),
                    self.glyph.bitcount_0 as nat,
                    self.glyph.bitcount_1 as nat,
                    (self.glyph.glyph_width * self.glyph.glyph_height) as nat,
                ) is None,
                Err(Error::DisplayError(_)) => true,
                _ => false,
            },
    {
        let width = self.glyph.glyph_width as u32;
        let height = self.glyph.glyph_height as u32;
        let rect = Rectangle {
            top_left: Point {
                x: position.x + self.glyph.offset_x as i32,
                y: position.y - (self.glyph.glyph_height as i32 + self.glyph.offset_y as i32),
            },
            size: Size { width, height },
        };

        let colors = match self.decode_box_colors(foreground_color, background_color) {
            Ok(v) => v,
            Err(_) => {
                return Err(Error::InternalError);
            },
        };

        // hand the produced colors to the surface as one contiguous fill
        match display.fill_contiguous(&rect, &colors) {
            Ok(()) => Ok(rect),
            Err(e) => Err(Error::DisplayError(e)),
        }
    }
}

/// The colors a box fill hands to the surface for the decoded pixels `px`:
/// the foreground color where the pixel is set, the background color where it
/// is not.
pub open spec fn box_fill_colors<Color>(px: Seq<bool>, foreground: Color, background: Color)
    -> Seq<Color> {
    Seq::new(px.len(), |i: int| if px[i] {
        foreground
    } else {
        background
    })
}

/// The positions transparent rendering hands to the surface for the first
/// `n` decoded pixels of a `w`-wide bitmap whose top-left corner is at
/// `(left, top)`: the set pixels, in row-major order.
pub open spec fn foreground_points(px: Seq<bool>, n: int, left: int, top: int, w: int) -> Seq<
    Point,
>
    recommends
        w >= 1,
    decreases n,
{
    if n <= 0 {
        Seq::empty()
    } else {
        let prev = foreground_points(px, n - 1, left, top, w);
        if 0 <= n - 1 < px.len() && px[n - 1] {
            prev.push(Point { x: (left + (n - 1) % w) as i32, y: (top + (n - 1) / w) as i32 })
        } else {
            prev
        }
    }
}

/// A successful decode of `n` pixels yields exactly `n` pixels.
pub proof fn lemma_rle_decode_len(st: RleState, m0: nat, m1: nat, n: nat)
    ensures
        rle_decode(st, m0, m1, n) matches Some(px) ==> px.len() == n,
    decreases n,
{
    if n > 0 {
        match rle_step(st, m0, m1) {
            Some((b, st2)) => {
                lemma_rle_decode_len(st2, m0, m1, (n - 1) as nat);
            },
            None => {},
        }
    }
}

/// One decoder step advances the decoded sequence by one pixel: if the whole
/// bitmap decodes to `px`, then after `i` steps the step's pixel is `px[i]`
/// and the following state decodes the rest.
pub proof fn lemma_rle_decode_advance(
    st0: RleState,
    pre: RleState,
    post: RleState,
    m0: nat,
    m1: nat,
    total: nat,
    i: int,
    b: bool,
)
    requires
        0 <= i < total,
        rle_step(pre, m0, m1) == Some((b, post)),
        match rle_decode(st0, m0, m1, total) {
            Some(px) => px.len() == total && rle_decode(pre, m0, m1, (total - i) as nat) == Some(
                px.skip(i),
            ),
            None => rle_decode(pre, m0, m1, (total - i) as nat) is None,
        },
    ensures
        match rle_decode(st0, m0, m1, total) {
            Some(px) => {
                &&& px[i] == b
                &&& rle_decode(post, m0, m1, (total - i - 1) as nat) == Some(px.skip(i + 1))
            },
            None => rle_decode(post, m0, m1, (total - i - 1) as nat) is None,
        },
{
    let k = (total - i) as nat;
    match rle_decode(st0, m0, m1, total) {
        Some(px) => {
            assert(rle_decode(post, m0, m1, (k - 1) as nat) is Some) by {
                if rle_decode(post, m0, m1, (k - 1) as nat) is None {
                    assert(rle_decode(pre, m0, m1, k) is None);
                }
            }
            let s2 = rle_decode(post, m0, m1, (k - 1) as nat)->Some_0;
            assert(px.skip(i) == seq![b] + s2);
            assert(px[i] == (seq![b] + s2)[0]);
            assert(s2 =~= px.skip(i).skip(1));
            assert(px.skip(i).skip(1) =~= px.skip(i + 1));
        },
        None => {
            if rle_decode(post, m0, m1, (k - 1) as nat) is Some {
                assert(rle_decode(pre, m0, m1, k) is Some);
            }
        },
    }
}

} // verus!
