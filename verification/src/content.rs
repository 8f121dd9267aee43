//! The content types a renderer can lay out: single characters and strings,
//! seen uniformly as a sequence of characters.

use crate::font_reader::FontReader;
use crate::layout::{newline_count, vertical_offset_spec};
use crate::types::VerticalPosition;
use vstd::prelude::*;
use vstd::string::StrSliceExecFns;

verus! {

/// Anything the renderer can lay out: a finite sequence of characters with
/// indexed access.
pub trait Content {
    /// The characters of this content, in order.
    spec fn chars(&self) -> Seq<char>;

    /// The number of characters.
    fn length(&self) -> (n: usize)
        ensures
            n == self.chars().len(),
    ;

    /// The character at index `i`.
    fn char_at(&self, i: usize) -> (c: char)
        requires
            i < self.chars().len(),
        ensures
            c == self.chars()[i as int],
    ;
}

impl Content for char {
    open spec fn chars(&self) -> Seq<char> {
        seq![*self]
    }

    fn length(&self) -> (n: usize) {
        1
    }

    fn char_at(&self, i: usize) -> (c: char) {
        *self
    }
}

impl<'a> Content for &'a str {
    open spec fn chars(&self) -> Seq<char> {
        self@
    }

    fn length(&self) -> (n: usize) {
        self.unicode_len()
    }

    fn char_at(&self, i: usize) -> (c: char) {
        self.get_char(i)
    }
}

/// Counts the newlines of the content.
pub fn get_newline_count<C: Content>(content: &C) -> (n: u32)
    requires
        content.chars().len() <= u32::MAX,
    ensures
        n == newline_count(content.chars()),
{
    let len = content.length();
    let mut count: u32 = 0;
    let mut i: usize = 0;
    proof {
        assert(content.chars().take(0) =~= Seq::<char>::empty());
    }
    while i < len
        invariant
            len == content.chars().len() <= u32::MAX,
            i <= len,
            count == newline_count(content.chars().take(i as int)),
            count <= i,
        decreases len - i,
    {
        let ch = content.char_at(i);
        proof {
            let pre = content.chars().take(i as int);
            let post = content.chars().take(i + 1);
            assert(post.drop_last() =~= pre);
            assert(post.last() == content.chars()[i as int]);
        }
        if ch == '\n' {
            count = count + 1;
        }
        i = i + 1;
    }
    proof {
        assert(content.chars().take(len as int) =~= content.chars());
    }
    count
}

/// Computes the vertical offset for the given anchoring, counting the
/// content's newlines only when the anchoring needs them.
pub fn compute_vertical_offset_from_dynamic_newlines<C: Content>(
    font: &FontReader,
    vertical_pos: VerticalPosition,
    content: &C,
) -> (r: i32)
    requires
        font.wf(),
        content.chars().len() <= u32::MAX,
        newline_count(content.chars()) < 0x4000_0000,
        newline_count(content.chars()) * font.line_height < 0x4000_0000,
    ensures
        r == vertical_offset_spec(*font, vertical_pos, newline_count(content.chars()) as int),
{
    match vertical_pos {
        VerticalPosition::Baseline | VerticalPosition::Top => {
            crate::vertical_offset::compute_vertical_offset_from_static_newlines(
                font,
                vertical_pos,
                0,
            )
        },
        VerticalPosition::Center | VerticalPosition::Bottom => {
            let newlines = get_newline_count(content);
            crate::vertical_offset::compute_vertical_offset_from_static_newlines(
                font,
                vertical_pos,
                newlines as i32,
            )
        },
    }
}

} // verus!
