//! General properties of the layout engine, stated and proved once for all
//! inputs: measurement/draw parity, the symmetry of vertical centering, the
//! run-length round trip, and the ordering of the alignment offsets.

use crate::combine_bounding_boxes::opt_rect_model;
use crate::font_reader::FontReader;
use crate::glyph_renderer::{rle_decode, rle_step, RleState};
use crate::layout::{
    aligned_layout_of, aligned_prefix, combine_rects, glyph_box, glyph_of, horizontal_offset_spec,
    layout_of, line_metrics, vertical_offset_spec, GlyphOutcome, LayoutOutcome, LayoutRect,
};
use crate::render_actions::{dims_match, glyph_dims_spec};
use crate::types::{HorizontalAlignment, Rectangle, RenderedDimensions, VerticalPosition};
use vstd::prelude::*;

verus! {

/// Two optional pixel rectangles with the same exact-integer model are the
/// same rectangle.
pub proof fn lemma_opt_rect_model_injective(a: Option<Rectangle>, b: Option<Rectangle>)
    requires
        opt_rect_model(a) == opt_rect_model(b),
    ensures
        a == b,
{
    match (a, b) {
        (Some(ra), Some(rb)) => {
            assert(ra.top_left.x == rb.top_left.x);
            assert(ra.top_left.y == rb.top_left.y);
            assert(ra.size.width == rb.size.width);
            assert(ra.size.height == rb.size.height);
        },
        _ => {},
    }
}

/// Measurement/draw parity for a single glyph: the dimensions that the pure
/// measurement path reports and the dimensions that the drawing path reports
/// are pinned to the same value, for every character the font maps and every
/// pen position.
pub proof fn lemma_glyph_measure_draw_parity(
    font: FontReader,
    ch: char,
    pos_x: int,
    pos_y: int,
    measured: RenderedDimensions,
    drawn: RenderedDimensions,
)
    requires
        glyph_dims_spec(font, ch, pos_x, pos_y, measured),
        glyph_dims_spec(font, ch, pos_x, pos_y, drawn),
    ensures
        measured == drawn,
{
    lemma_opt_rect_model_injective(measured.bounding_box, drawn.bounding_box);
}

/// Rendering and measuring the same content at the same anchor produce the
/// same advance and the same bounding box: both are pinned to the one layout
/// outcome of the content.
pub proof fn lemma_render_measure_parity(
    font: FontReader,
    chars: Seq<char>,
    pos_x: int,
    pos_y: int,
    rendered: RenderedDimensions,
    measured: RenderedDimensions,
)
    requires
        layout_of(font, chars, pos_x, pos_y) matches LayoutOutcome::Done(st) && dims_match(
            rendered,
            st,
        ) && dims_match(measured, st),
    ensures
        rendered == measured,
{
    let st = layout_of(font, chars, pos_x, pos_y)->Done_0;
    assert(rendered.advance == measured.advance);
    match (rendered.bounding_box, measured.bounding_box, st.bbox) {
        (Some(a), Some(b), Some(r)) => {
            assert(a.top_left.x == r.x && b.top_left.x == r.x);
            assert(a == b);
        },
        _ => {},
    }
}

/// Rendering and measuring the same content under the same alignment produce
/// the same bounding box.
pub proof fn lemma_aligned_render_measure_parity(
    font: FontReader,
    chars: Seq<char>,
    pos_x: int,
    pos_y: int,
    align: HorizontalAlignment,
    rendered: Option<Rectangle>,
    measured: Option<Rectangle>,
)
    requires
        aligned_layout_of(font, chars, pos_x, pos_y, align) matches LayoutOutcome::Done(st)
            && opt_rect_model(rendered) == st.bbox && opt_rect_model(measured) == st.bbox,
    ensures
        rendered == measured,
{
    lemma_opt_rect_model_injective(rendered, measured);
}

/// Vertical centering is symmetric: the distance from the top anchor to the
/// center anchor and the distance from the center anchor to the bottom
/// anchor differ exactly by the parity of the anchored span, so by at most
/// one pixel of integer truncation, for any number of lines.
pub proof fn lemma_vertical_centering_symmetry(font: FontReader, newlines: int)
    requires
        0 <= newlines,
        font.ascent >= font.descent,
        font.line_height >= 0,
    ensures
        ({
            let top = vertical_offset_spec(font, VerticalPosition::Top, newlines);
            let center = vertical_offset_spec(font, VerticalPosition::Center, newlines);
            let bottom = vertical_offset_spec(font, VerticalPosition::Bottom, newlines);
            let span = newlines * font.line_height + font.ascent - font.descent + 1;
            &&& (top - center) - (center - bottom) == span % 2
            &&& 0 <= (top - center) - (center - bottom) <= 1
        }),
{
    let t = newlines * font.line_height;
    assert(newlines * font.line_height >= 0) by (nonlinear_arith)
        requires
            newlines >= 0,
            font.line_height >= 0,
    ;
    let span = t + font.ascent - font.descent + 1;
    assert(span >= 1);
    assert(span == 2 * (span / 2) + span % 2);
}

/// Centering a single line puts the baseline at the integer midpoint of the
/// top and bottom anchors: twice the center offset reaches the sum of the
/// two anchors up to the span's parity.
pub proof fn lemma_vertical_centering_single_line(font: FontReader)
    requires
        font.ascent >= font.descent,
    ensures
        ({
            let top = vertical_offset_spec(font, VerticalPosition::Top, 0);
            let center = vertical_offset_spec(font, VerticalPosition::Center, 0);
            let bottom = vertical_offset_spec(font, VerticalPosition::Bottom, 0);
            &&& 0 <= (top + bottom) - 2 * center <= 1
        }),
{
    let span = font.ascent - font.descent + 1;
    assert(span >= 1);
    assert(span == 2 * (span / 2) + span % 2);
}

/// The run of pixels a single pair of run lengths stands for: the background
/// pixels first, then the foreground pixels.
pub open spec fn run_seq(z: nat, o: nat) -> Seq<bool> {
    Seq::new(z, |i: int| false) + Seq::new(o, |i: int| true)
}

/// Emitting the rest of the current pair needs no further bits: the decoder
/// yields exactly the remaining background and foreground pixels.
pub proof fn lemma_rle_emit(
    bits: Seq<bool>,
    z: nat,
    o: nat,
    zl: nat,
    ol: nat,
    m0: nat,
    m1: nat,
)
    ensures
        rle_decode(RleState { bits, z, o, zl, ol }, m0, m1, zl + ol) == Some(run_seq(zl, ol)),
    decreases zl + ol,
{
    let st = RleState { bits, z, o, zl, ol };
    if zl > 0 {
        lemma_rle_emit(bits, z, o, (zl - 1) as nat, ol, m0, m1);
        assert(rle_step(st, m0, m1) == Some(
            (false, RleState { bits, z, o, zl: (zl - 1) as nat, ol }),
        ));
        assert(seq![false] + run_seq((zl - 1) as nat, ol) =~= run_seq(zl, ol));
    } else if ol > 0 {
        lemma_rle_emit(bits, z, o, 0, (ol - 1) as nat, m0, m1);
        assert(rle_step(st, m0, m1) == Some(
            (true, RleState { bits, z, o, zl: 0, ol: (ol - 1) as nat }),
        ));
        assert(seq![true] + run_seq(0, (ol - 1) as nat) =~= run_seq(0, ol));
        assert(run_seq(0, ol) =~= run_seq(zl, ol));
    } else {
        assert(run_seq(0, 0) =~= Seq::<bool>::empty());
    }
}

/// The run-length round trip: a bitmap whose remaining bits start with a set
/// repeat bit emits the rest of the current pair, then the whole pair once
/// more — `zl + ol + z + o` pixels in total, in the expected pattern. In
/// particular, right after reading a pair `(z, o)` followed by a repeat bit,
/// exactly `2 * (z + o)` pixels come out: `z` background, `o` foreground,
/// twice.
pub proof fn lemma_rle_round_trip(
    tail: Seq<bool>,
    z: nat,
    o: nat,
    zl: nat,
    ol: nat,
    m0: nat,
    m1: nat,
)
    requires
        z + o >= 1,
    ensures
        rle_decode(RleState { bits: seq![true] + tail, z, o, zl, ol }, m0, m1, zl + ol + z + o)
            == Some(run_seq(zl, ol) + run_seq(z, o)),
    decreases zl + ol,
{
    let bits = seq![true] + tail;
    let st = RleState { bits, z, o, zl, ol };
    if zl > 0 {
        lemma_rle_round_trip(tail, z, o, (zl - 1) as nat, ol, m0, m1);
        assert(rle_step(st, m0, m1) == Some(
            (false, RleState { bits, z, o, zl: (zl - 1) as nat, ol }),
        ));
        assert(seq![false] + (run_seq((zl - 1) as nat, ol) + run_seq(z, o)) =~= run_seq(zl, ol)
            + run_seq(z, o));
    } else if ol > 0 {
        lemma_rle_round_trip(tail, z, o, 0, (ol - 1) as nat, m0, m1);
        assert(rle_step(st, m0, m1) == Some(
            (true, RleState { bits, z, o, zl: 0, ol: (ol - 1) as nat }),
        ));
        assert(seq![true] + (run_seq(0, (ol - 1) as nat) + run_seq(z, o)) =~= run_seq(0, ol)
            + run_seq(z, o));
        assert(run_seq(0, ol) + run_seq(z, o) =~= run_seq(zl, ol) + run_seq(z, o));
    } else {
        // the repeat bit reloads the pair; the reloaded state emits it
        let reloaded = RleState { bits: tail, z, o, zl: z, ol: o };
        assert(bits[0]);
        assert(bits.skip(1) =~= tail);
        assert(rle_step(st, m0, m1) == rle_step(reloaded, m0, m1));
        lemma_rle_emit(tail, z, o, z, o, m0, m1);
        lemma_rle_decode_same_step(st, reloaded, m0, m1, z + o);
        assert(run_seq(0, 0) + run_seq(z, o) =~= run_seq(z, o));
        assert(run_seq(zl, ol) + run_seq(z, o) =~= run_seq(z, o));
    }
}

/// Two decoder states with the same step behavior decode alike.
proof fn lemma_rle_decode_same_step(a: RleState, b: RleState, m0: nat, m1: nat, n: nat)
    requires
        rle_step(a, m0, m1) == rle_step(b, m0, m1),
        n >= 1,
    ensures
        rle_decode(a, m0, m1, n) == rle_decode(b, m0, m1, n),
{
}

/// Whether two optional boxes are equal up to a fixed horizontal shift `d`:
/// same width, same height, same vertical position.
pub open spec fn shifted_boxes(b1: Option<LayoutRect>, b2: Option<LayoutRect>, d: int) -> bool {
    match (b1, b2) {
        (Some(r1), Some(r2)) => r1.w == r2.w && r1.h == r2.h && r1.y == r2.y && r1.x == r2.x + d,
        (None, None) => true,
        _ => false,
    }
}

/// The horizontal shift between two alignments of the same content: the
/// difference of their first-line offsets.
pub open spec fn alignment_delta(
    font: FontReader,
    chars: Seq<char>,
    a1: HorizontalAlignment,
    a2: HorizontalAlignment,
) -> int {
    match line_metrics(font, chars, 0) {
        LayoutOutcome::Done(l) => horizontal_offset_spec(a1, l.adv_x, l.bbox)
            - horizontal_offset_spec(a2, l.adv_x, l.bbox),
        _ => 0,
    }
}

/// Two aligned layout passes over the same single-line content run in
/// lockstep: they fail alike, and when they finish, their states differ only
/// by the fixed horizontal shift of their alignment offsets — in particular
/// the bounding boxes have the same width, height and vertical position.
pub proof fn lemma_aligned_prefix_parallel(
    font: FontReader,
    chars: Seq<char>,
    pos_x: int,
    pos_y: int,
    a1: HorizontalAlignment,
    a2: HorizontalAlignment,
    n: int,
)
    requires
        0 <= n <= chars.len(),
        forall|j: int| 0 <= j < chars.len() ==> chars[j] != '\n',
    ensures
        ({
            let d = alignment_delta(font, chars, a1, a2);
            match (
                aligned_prefix(font, chars, pos_x, pos_y, a1, n),
                aligned_prefix(font, chars, pos_x, pos_y, a2, n),
            ) {
                (LayoutOutcome::Done(s1), LayoutOutcome::Done(s2)) => {
                    &&& s1.adv_y == s2.adv_y
                    &&& s1.adv_x == s2.adv_x + d
                    &&& shifted_boxes(s1.bbox, s2.bbox, d)
                },
                (LayoutOutcome::NotFound(c1), LayoutOutcome::NotFound(c2)) => c1 == c2,
                (LayoutOutcome::Corrupt, LayoutOutcome::Corrupt) => true,
                _ => false,
            }
        }),
    decreases n,
{
    let d = alignment_delta(font, chars, a1, a2);
    if n == 0 {
        match line_metrics(font, chars, 0) {
            LayoutOutcome::Done(l) => {},
            _ => {},
        }
    } else {
        lemma_aligned_prefix_parallel(font, chars, pos_x, pos_y, a1, a2, n - 1);
        let p1 = aligned_prefix(font, chars, pos_x, pos_y, a1, n - 1);
        let p2 = aligned_prefix(font, chars, pos_x, pos_y, a2, n - 1);
        match (p1, p2) {
            (LayoutOutcome::Done(s1), LayoutOutcome::Done(s2)) => {
                let ch = chars[n - 1];
                assert(ch != '\n');
                match glyph_of(font, ch) {
                    GlyphOutcome::Glyph { width, height, off_x, off_y, adv } => {
                        let g1 = glyph_box(
                            width,
                            height,
                            off_x,
                            off_y,
                            pos_x + s1.adv_x,
                            pos_y + s1.adv_y,
                        );
                        let g2 = glyph_box(
                            width,
                            height,
                            off_x,
                            off_y,
                            pos_x + s2.adv_x,
                            pos_y + s2.adv_y,
                        );
                        assert(shifted_boxes(g1, g2, d));
                        lemma_combine_rects_shift(s1.bbox, s2.bbox, g1, g2, d);
                    },
                    GlyphOutcome::Missing => {},
                    GlyphOutcome::Corrupt => {},
                }
            },
            _ => {},
        }
    }
}

/// Uniting boxes that are pairwise equal up to one horizontal shift gives
/// boxes equal up to the same shift.
pub proof fn lemma_combine_rects_shift(
    a1: Option<LayoutRect>,
    a2: Option<LayoutRect>,
    b1: Option<LayoutRect>,
    b2: Option<LayoutRect>,
    d: int,
)
    requires
        shifted_boxes(a1, a2, d),
        shifted_boxes(b1, b2, d),
    ensures
        shifted_boxes(combine_rects(a1, b1), combine_rects(a2, b2), d),
{
}

/// For single-line content the three alignments agree on everything but the
/// horizontal position: when an aligned layout finishes under one alignment,
/// it finishes under any other, and the two bounding boxes have the same
/// width, the same height and the same vertical position, their horizontal
/// positions differing exactly by the difference of the alignment offsets.
pub proof fn lemma_aligned_boxes_differ_only_in_x(
    font: FontReader,
    chars: Seq<char>,
    pos_x: int,
    pos_y: int,
    a1: HorizontalAlignment,
    a2: HorizontalAlignment,
)
    requires
        forall|j: int| 0 <= j < chars.len() ==> chars[j] != '\n',
        aligned_layout_of(font, chars, pos_x, pos_y, a1) is Done,
    ensures
        aligned_layout_of(font, chars, pos_x, pos_y, a2) is Done,
        shifted_boxes(
            aligned_layout_of(font, chars, pos_x, pos_y, a1)->Done_0.bbox,
            aligned_layout_of(font, chars, pos_x, pos_y, a2)->Done_0.bbox,
            alignment_delta(font, chars, a1, a2),
        ),
{
    lemma_aligned_prefix_parallel(font, chars, pos_x, pos_y, a1, a2, chars.len() as int);
}

/// The three alignments order a line's bounding box from right to left: with
/// the box placed at `x + offset`, the right-aligned box starts leftmost, the
/// centered box in the middle, the left-aligned box rightmost — and the
/// offsets only shift the box, so its width is the same under all three.
pub proof fn lemma_alignment_offsets_ordered(adv: int, r: LayoutRect)
    requires
        0 <= r.x,
        1 <= r.w,
        r.x + r.w <= adv,
    ensures
        ({
            let left = r.x + horizontal_offset_spec(HorizontalAlignment::Left, adv, Some(r));
            let center = r.x + horizontal_offset_spec(HorizontalAlignment::Center, adv, Some(r));
            let right = r.x + horizontal_offset_spec(HorizontalAlignment::Right, adv, Some(r));
            &&& right <= center
            &&& center <= left
        }),
{
    assert(r.w / 2 >= 0);
    assert(r.w - r.w / 2 >= 1);
}

} // verus!
