//! Merging the two halves' scans into the logical grid.
//!
//! The logical grid is 5x12. The primary's own scan occupies columns 0..6,
//! mirrored left-to-right to match its physical handedness; the decoded
//! remote scan occupies columns 6..12 in scan order. Merging one half never
//! touches the other half's columns, so an absent remote update leaves the
//! remote region stale rather than clearing it.

use vstd::prelude::*;
use crate::rows_view;

verus! {

/// Place the primary's local 5x6 scan into columns 0..6 of the logical
/// grid, mirrored: logical column `c` holds local column `5 - c`.
pub fn merge_local(grid: &mut [[bool; 12]; 5], local: &[[bool; 6]; 5])
    ensures
        forall|r: int, c: int|
            0 <= r < 5 && 0 <= c < 6 ==> rows_view(*final(grid))[r][c] == rows_view(*local)[r][5
                - c],
        forall|r: int, c: int|
            0 <= r < 5 && 6 <= c < 12 ==> rows_view(*final(grid))[r][c] == rows_view(
                *old(grid),
            )[r][c],
{
    let mut r: usize = 0;
    while r < 5
        invariant
            r <= 5,
            forall|r2: int, c2: int|
                0 <= r2 < r && 0 <= c2 < 6 ==> rows_view(*grid)[r2][c2] == rows_view(
                    *local,
                )[r2][5 - c2],
            forall|r2: int, c2: int|
                0 <= r2 < 5 && 6 <= c2 < 12 ==> rows_view(*grid)[r2][c2] == rows_view(
                    *old(grid),
                )[r2][c2],
            forall|r2: int, c2: int|
                r <= r2 < 5 && 0 <= c2 < 6 ==> rows_view(*grid)[r2][c2] == rows_view(
                    *old(grid),
                )[r2][c2],
        decreases 5 - r,
    {
        let mut c: usize = 0;
        let mut row = grid[r];
        let ghost gpre = *grid;
        while c < 6
            invariant
                r < 5,
                c <= 6,
                *grid == gpre,
                forall|c2: int| 0 <= c2 < c ==> row@[c2] == rows_view(*local)[r as int][5 - c2],
                forall|c2: int| c <= c2 < 12 ==> row@[c2] == rows_view(gpre)[r as int][c2],
            decreases 6 - c,
        {
            row[c] = local[r][5 - c];
            c += 1;
        }
        grid[r] = row;
        proof {
            assert(grid@ == gpre@.update(r as int, row));
            assert forall|r2: int, c2: int| 0 <= r2 < 5 && 0 <= c2 < 12 && r2 != r implies
                rows_view(*grid)[r2][c2] == rows_view(gpre)[r2][c2] by {
                assert(grid@[r2] == gpre@[r2]);
            }
            assert forall|c2: int| 0 <= c2 < 12 implies rows_view(*grid)[r as int][c2] == row@[c2] by {
                assert(grid@[r as int] == row);
            }
            assert forall|r2: int, c2: int|
                0 <= r2 < r + 1 && 0 <= c2 < 6 implies rows_view(*grid)[r2][c2] == rows_view(
                *local)[r2][5 - c2] by {
                if r2 == r {
                    assert(rows_view(*grid)[r2][c2] == row@[c2]);
                } else {
                    assert(rows_view(*grid)[r2][c2] == rows_view(gpre)[r2][c2]);
                }
            }
            assert forall|r2: int, c2: int|
                0 <= r2 < 5 && 6 <= c2 < 12 implies rows_view(*grid)[r2][c2] == rows_view(
                *old(grid))[r2][c2] by {
                if r2 == r {
                    assert(rows_view(*grid)[r2][c2] == row@[c2]);
                    assert(row@[c2] == rows_view(gpre)[r2][c2]);
                } else {
                    assert(rows_view(*grid)[r2][c2] == rows_view(gpre)[r2][c2]);
                }
            }
            assert forall|r2: int, c2: int|
                r + 1 <= r2 < 5 && 0 <= c2 < 6 implies rows_view(*grid)[r2][c2] == rows_view(
                *old(grid))[r2][c2] by {
                assert(rows_view(*grid)[r2][c2] == rows_view(gpre)[r2][c2]);
            }
        }
        r += 1;
    }
}

/// Place the decoded remote 5x6 scan into columns 6..12 of the logical
/// grid: logical column `c` holds remote column `c - 6`.
pub fn merge_remote(grid: &mut [[bool; 12]; 5], remote: &[[bool; 6]; 5])
    ensures
        forall|r: int, c: int|
            0 <= r < 5 && 6 <= c < 12 ==> rows_view(*final(grid))[r][c] == rows_view(*remote)[r][c
                - 6],
        forall|r: int, c: int|
            0 <= r < 5 && 0 <= c < 6 ==> rows_view(*final(grid))[r][c] == rows_view(
                *old(grid),
            )[r][c],
{
    let mut r: usize = 0;
    while r < 5
        invariant
            r <= 5,
            forall|r2: int, c2: int|
                0 <= r2 < r && 6 <= c2 < 12 ==> rows_view(*grid)[r2][c2] == rows_view(
                    *remote,
                )[r2][c2 - 6],
            forall|r2: int, c2: int|
                0 <= r2 < 5 && 0 <= c2 < 6 ==> rows_view(*grid)[r2][c2] == rows_view(
                    *old(grid),
                )[r2][c2],
            forall|r2: int, c2: int|
                r <= r2 < 5 && 6 <= c2 < 12 ==> rows_view(*grid)[r2][c2] == rows_view(
                    *old(grid),
                )[r2][c2],
        decreases 5 - r,
    {
        let mut c: usize = 0;
        let mut row = grid[r];
        let ghost gpre = *grid;
        while c < 6
            invariant
                r < 5,
                c <= 6,
                *grid == gpre,
                forall|c2: int| 6 <= c2 < 6 + c ==> row@[c2] == rows_view(*remote)[r as int][c2 - 6],
                forall|c2: int| 6 + c <= c2 < 12 ==> row@[c2] == rows_view(gpre)[r as int][c2],
                forall|c2: int| 0 <= c2 < 6 ==> row@[c2] == rows_view(gpre)[r as int][c2],
            decreases 6 - c,
        {
            row[6 + c] = remote[r][c];
            c += 1;
        }
        grid[r] = row;
        proof {
            assert(grid@ == gpre@.update(r as int, row));
            assert forall|r2: int, c2: int| 0 <= r2 < 5 && 0 <= c2 < 12 && r2 != r implies
                rows_view(*grid)[r2][c2] == rows_view(gpre)[r2][c2] by {
                assert(grid@[r2] == gpre@[r2]);
            }
            assert forall|c2: int| 0 <= c2 < 12 implies rows_view(*grid)[r as int][c2] == row@[c2] by {
                assert(grid@[r as int] == row);
            }
            assert forall|r2: int, c2: int|
                0 <= r2 < r + 1 && 6 <= c2 < 12 implies rows_view(*grid)[r2][c2] == rows_view(
                *remote)[r2][c2 - 6] by {
                if r2 == r {
                    assert(rows_view(*grid)[r2][c2] == row@[c2]);
                } else {
                    assert(rows_view(*grid)[r2][c2] == rows_view(gpre)[r2][c2]);
                }
            }
            assert forall|r2: int, c2: int|
                0 <= r2 < 5 && 0 <= c2 < 6 implies rows_view(*grid)[r2][c2] == rows_view(
                *old(grid))[r2][c2] by {
                if r2 == r {
                    assert(rows_view(*grid)[r2][c2] == row@[c2]);
                    assert(row@[c2] == rows_view(gpre)[r2][c2]);
                } else {
                    assert(rows_view(*grid)[r2][c2] == rows_view(gpre)[r2][c2]);
                }
            }
            assert forall|r2: int, c2: int|
                r + 1 <= r2 < 5 && 6 <= c2 < 12 implies rows_view(*grid)[r2][c2] == rows_view(
                *old(grid))[r2][c2] by {
                assert(rows_view(*grid)[r2][c2] == rows_view(gpre)[r2][c2]);
            }
        }
        r += 1;
    }
}

/// The primary's reserved reset chord: three corner switches of its local
/// scan held together hand control to the firmware-update entry.
pub fn reset_chord_primary(local: &[[bool; 6]; 5]) -> (r: bool)
    ensures
        r == (rows_view(*local)[4][0] && rows_view(*local)[0][5] && rows_view(*local)[0][0]),
{
    local[4][0] && local[0][5] && local[0][0]
}

/// The secondary's reserved reset switch in its local scan.
pub fn reset_chord_secondary(local: &[[bool; 6]; 5]) -> (r: bool)
    ensures
        r == rows_view(*local)[4][0],
{
    local[4][0]
}

} // verus!
