//! Transformations, by the bits of their single-precision entries.
use vstd::prelude::*;

verus! {

/// The bits of the number one.
pub const ONE: u32 = 0x3f80_0000;

/// Whether these are the bits of a number that equals zero: zero and negative zero do.
pub open spec fn equals_zero(bits: u32) -> bool {
    bits == 0 || bits == 0x8000_0000
}

/// Whether a matrix, given by its columns, equals the identity matrix, and a zoom equals one.
pub open spec fn spec_is_identity(transform: [[u32; 4]; 4], zoom: u32) -> bool {
    &&& forall|i: int, j: int|
        0 <= i < 4 && 0 <= j < 4 ==> if i == j {
            #[trigger] transform[i][j] == ONE
        } else {
            equals_zero(transform[i][j])
        }
    &&& zoom == ONE
}

/// Whether `entry` equals the entry of the identity matrix at this place.
fn is_identity_entry(entry: u32, column: usize, row: usize) -> (equal: bool)
    ensures
        equal == if column == row {
            entry == ONE
        } else {
            equals_zero(entry)
        },
{
    if column == row {
        entry == ONE
    } else {
        entry == 0 || entry == 0x8000_0000
    }
}

/// Decides whether text is drawn as it is laid out: its transformation equals the identity matrix
/// and its zoom equals one.
pub fn is_identity(transform: &[[u32; 4]; 4], zoom: u32) -> (identity: bool)
    ensures
        identity == spec_is_identity(*transform, zoom),
{
    let mut column: usize = 0;
    while column < 4
        invariant
            column <= 4,
            forall|i: int, j: int|
                0 <= i < column && 0 <= j < 4 ==> if i == j {
                    #[trigger] transform[i][j] == ONE
                } else {
                    equals_zero(transform[i][j])
                },
        decreases 4 - column,
    {
        let mut row: usize = 0;
        while row < 4
            invariant
                column < 4,
                row <= 4,
                forall|j: int|
                    0 <= j < row ==> if column == j {
                        #[trigger] transform[column as int][j] == ONE
                    } else {
                        equals_zero(transform[column as int][j])
                    },
            decreases 4 - row,
        {
            if !is_identity_entry(transform[column][row], column, row) {
                return false;
            }
            row = row + 1;
        }
        column = column + 1;
    }
    zoom == ONE
}

/// Text is drawn as it is laid out just where each of the sixteen entries of its transformation,
/// the translation among them, is that of the identity matrix, and its zoom is one. A zero may have
/// either sign.
pub proof fn identity_has_ones_and_zeros(transform: [[u32; 4]; 4], zoom: u32)
    ensures
        spec_is_identity(transform, zoom) <==> {
            &&& zoom == 0x3f80_0000u32
            &&& forall|column: int, row: int|
                0 <= column < 4 && 0 <= row < 4 ==> {
                    &&& column == row ==> #[trigger] transform[column][row] == 0x3f80_0000u32
                    &&& column != row ==> transform[column][row] == 0
                        || transform[column][row] == 0x8000_0000u32
                }
        },
{
}

/// There is one transformation and one zoom with which text is drawn as it is laid out, but for the
/// signs of zeros: two of them differ in no other entry.
pub proof fn identity_is_unique(
    transform: [[u32; 4]; 4],
    zoom: u32,
    other: [[u32; 4]; 4],
    other_zoom: u32,
    column: int,
    row: int,
)
    requires
        spec_is_identity(transform, zoom),
        spec_is_identity(other, other_zoom),
        0 <= column < 4,
        0 <= row < 4,
    ensures
        zoom == other_zoom,
        transform[column][row] == other[column][row] || (transform[column][row] % 0x8000_0000u32
            == 0 && other[column][row] % 0x8000_0000u32 == 0),
{
    identity_has_ones_and_zeros(transform, zoom);
    identity_has_ones_and_zeros(other, other_zoom);
}

/// Text that is moved, whatever else is done to it, is not drawn as it is laid out.
pub proof fn moved_text_is_transformed(transform: [[u32; 4]; 4], zoom: u32, row: int)
    requires
        0 <= row < 3,
        transform[3][row] != 0,
        transform[3][row] != 0x8000_0000u32,
    ensures
        !spec_is_identity(transform, zoom),
{
    identity_has_ones_and_zeros(transform, zoom);
}

} // verus!
