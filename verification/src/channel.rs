use vstd::prelude::*;

verus! {

/// Index of the red byte within a pixel's four channel bytes.
pub const R_IDX: u8 = 0;

/// Index of the green byte within a pixel's four channel bytes.
pub const G_IDX: u8 = 1;

/// Index of the blue byte within a pixel's four channel bytes.
pub const B_IDX: u8 = 2;

/// Index of the alpha byte within a pixel's four channel bytes.
pub const A_IDX: u8 = 3;

/// Flag selecting the red channel.
pub const R: u8 = 1;

/// Flag selecting the green channel.
pub const G: u8 = 2;

/// Flag selecting the blue channel.
pub const B: u8 = 4;

/// Flag selecting the alpha channel.
pub const A: u8 = 8;

/// The flag bit of the channel with index `c`: red 1, green 2, blue 4, alpha 8.
pub open spec fn flag_of(c: int) -> u8 {
    if c == 0 {
        1u8
    } else if c == 1 {
        2u8
    } else if c == 2 {
        4u8
    } else {
        8u8
    }
}

/// Whether `mask` selects the channel with index `c`.
pub open spec fn channel_selected(mask: u8, c: int) -> bool {
    mask & flag_of(c) == flag_of(c)
}

/// The bit flag that selects the channel with index `idx`: `1 << idx`.
pub fn channel_to_flag(idx: u8) -> (r: u8)
    requires
        idx < 8,
    ensures
        r == (1u8 << idx),
        idx < 4 ==> r == flag_of(idx as int),
{
    proof {
        assert(idx < 4 ==> (1u8 << idx) == (if idx == 0 {
            1u8
        } else if idx == 1 {
            2u8
        } else if idx == 2 {
            4u8
        } else {
            8u8
        })) by (bit_vector);
    }
    1u8 << idx
}

/// Each single-channel flag selects exactly its own channel.
pub proof fn lemma_single_flag_channels()
    ensures
        forall|c: int| 0 <= c < 4 ==> (channel_selected(1u8, c) <==> c == 0),
        forall|c: int| 0 <= c < 4 ==> (channel_selected(2u8, c) <==> c == 1),
        forall|c: int| 0 <= c < 4 ==> (channel_selected(4u8, c) <==> c == 2),
        forall|c: int| 0 <= c < 4 ==> (channel_selected(8u8, c) <==> c == 3),
{
    assert((1u8 & 1u8 == 1u8) && !(1u8 & 2u8 == 2u8) && !(1u8 & 4u8 == 4u8) && !(1u8 & 8u8
        == 8u8)) by (bit_vector);
    assert(!(2u8 & 1u8 == 1u8) && (2u8 & 2u8 == 2u8) && !(2u8 & 4u8 == 4u8) && !(2u8 & 8u8
        == 8u8)) by (bit_vector);
    assert(!(4u8 & 1u8 == 1u8) && !(4u8 & 2u8 == 2u8) && (4u8 & 4u8 == 4u8) && !(4u8 & 8u8
        == 8u8)) by (bit_vector);
    assert(!(8u8 & 1u8 == 1u8) && !(8u8 & 2u8 == 2u8) && !(8u8 & 4u8 == 4u8) && (8u8 & 8u8
        == 8u8)) by (bit_vector);
}

} // verus!
