//! Matrix layout conversion between the importer's and the engine's convention.
use vstd::prelude::*;

verus! {

/// Bit pattern of the single-precision value `1.0`.
pub const ONE_BITS: u32 = 0x3f80_0000;

/// A 4x4 matrix as the importer names it: `rows[r][c]` is the element of
/// row `r` (letters a..d) and column `c` (digits 1..4), as bit patterns.
#[derive(Clone, Copy, Debug, PartialEq, Eq)]
pub struct ImporterMatrix {
    pub rows: [[u32; 4]; 4],
}

/// A column-major 4x4 matrix: `raw[col][row]`, as bit patterns.
pub type RawMatrix = [[u32; 4]; 4];

/// The column-major matrix whose element `[col][row]` is the importer's
/// element of row `row`, column `col`.
pub open spec fn transposed(m: ImporterMatrix) -> RawMatrix {
    [
        [m.rows[0][0], m.rows[1][0], m.rows[2][0], m.rows[3][0]],
        [m.rows[0][1], m.rows[1][1], m.rows[2][1], m.rows[3][1]],
        [m.rows[0][2], m.rows[1][2], m.rows[2][2], m.rows[3][2]],
        [m.rows[0][3], m.rows[1][3], m.rows[2][3], m.rows[3][3]],
    ]
}

/// Re-lays an importer matrix into the engine's column-major array:
/// element `[col][row]` of the result is the importer's row `row`, column `col`.
pub fn matrix_to_raw(matrix: ImporterMatrix) -> (result: RawMatrix)
    ensures
        result == transposed(matrix),
        forall|c: int, r: int| 0 <= c < 4 && 0 <= r < 4 ==> #[trigger] result[c][r] == matrix.rows[r][c],
{
    let m = matrix.rows;
    [
        [m[0][0], m[1][0], m[2][0], m[3][0]],
        [m[0][1], m[1][1], m[2][1], m[3][1]],
        [m[0][2], m[1][2], m[2][2], m[3][2]],
        [m[0][3], m[1][3], m[2][3], m[3][3]],
    ]
}

} // verus!
