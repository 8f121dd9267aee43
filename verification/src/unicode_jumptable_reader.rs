//! The sparse jump table used to skip near a codepoint's glyph record without
//! scanning every glyph, for codepoints above 255.

use crate::font_reader::be16;
use vstd::prelude::*;

verus! {

/// One entry of the jump table: how far to jump, and the largest codepoint
/// covered by the glyph-chain segment the jump lands in.
pub struct UnicodeJumptableEntry {
    /// How many bytes this entry adds to the cumulative jump.
    pub jump_distance: u16,
    /// The largest codepoint covered up to and including this entry's segment.
    pub character_upper_limit: u16,
}

/// A reader over the jump table bytes.
pub struct UnicodeJumptableReader {
    /// The jump table bytes, followed by whatever comes after the table.
    pub data: &'static [u8],
}

/// The cumulative byte offset the jump table assigns to `enc`, starting from
/// an already accumulated offset `acc`: entries are read in order, each
/// jump distance is added, and accumulation stops with the first entry whose
/// upper limit reaches `enc`. A table that runs out of entries first does not
/// cover `enc`.
pub open spec fn jump_offset_spec(data: Seq<u8>, enc: nat, acc: nat) -> Option<nat>
    decreases data.len(),
{
    if data.len() < 4 {
        None
    } else {
        let acc2 = (acc + be16(data, 0)) as nat;
        if be16(data, 2) >= enc {
            Some(acc2)
        } else {
            jump_offset_spec(data.skip(4), enc, acc2)
        }
    }
}

/// The exact cumulative offset clipped to what a `usize` can hold. A clipped
/// offset is larger than any slice, so a jump by it fails exactly when the
/// jump by the exact offset would.
pub open spec fn clip_to_usize(j: nat) -> usize {
    if j > usize::MAX {
        usize::MAX
    } else {
        j as usize
    }
}

impl UnicodeJumptableReader {
    /// Wraps the jump table bytes.
    pub fn new(data: &'static [u8]) -> (r: Self)
        ensures
            r.data@ == data@,
    {
        UnicodeJumptableReader { data }
    }

    /// Computes the cumulative byte offset for `encoding`, or `None` when the
    /// table does not cover it. An offset beyond `usize` is reported as
    /// `usize::MAX`; it exceeds every slice length just as the exact offset
    /// would.
    pub fn calculate_jump_offset(self, encoding: u16) -> (r: Option<usize>)
        ensures
            match jump_offset_spec(self.data@, encoding as nat, 0) {
                Some(j) => r == Some(clip_to_usize(j)),
                None => r is None,
            },
    {
        let mut data = self.data;
        let mut jump_offset: usize = 0;
        let ghost enc = encoding as nat;
        let ghost mut acc: nat = 0nat;
        let ghost table = self.data@;

        loop
            invariant
                table == self.data@,
                enc == encoding as nat,
                jump_offset == clip_to_usize(acc),
                jump_offset_spec(table, enc, 0) == jump_offset_spec(data@, enc, acc),
            decreases data@.len(),
        {
            if data.len() < 4 {
                assert(jump_offset_spec(data@, enc, acc) is None);
                return None;
            }
            let entry = UnicodeJumptableEntry {
                jump_distance: (data[0] as u16) * 256 + (data[1] as u16),
                character_upper_limit: (data[2] as u16) * 256 + (data[3] as u16),
            };
            let jump_distance = entry.jump_distance;
            let character_upper_limit = entry.character_upper_limit;
            let ghost prev_acc = acc;
            let ghost prev_data = data@;
            proof {
                assert(jump_distance == be16(prev_data, 0));
                assert(character_upper_limit == be16(prev_data, 2));
                assert(jump_offset_spec(prev_data, enc, prev_acc) == (if be16(prev_data, 2) >= enc {
                    Some((prev_acc + be16(prev_data, 0)) as nat)
                } else {
                    jump_offset_spec(
                        prev_data.skip(4),
                        enc,
                        (prev_acc + be16(prev_data, 0)) as nat,
                    )
                }));
            }

            // saturating accumulation: a clipped offset still exceeds every
            // slice length
            if jump_distance as usize <= usize::MAX - jump_offset {
                jump_offset = jump_offset + jump_distance as usize;
            } else {
                jump_offset = usize::MAX;
            }
            proof {
                acc = (acc + jump_distance as nat) as nat;
                assert(jump_offset == clip_to_usize(acc));
            }

            if character_upper_limit >= encoding {
                return Some(jump_offset);
            }

            data = vstd::slice::slice_subrange(data, 4, data.len());
        }
    }
}

} // verus!
