//! Grid merge: placement, mirroring and staleness.

use splitkb::grid::{merge_local, merge_remote, reset_chord_primary, reset_chord_secondary};

#[test]
fn local_half_is_mirrored_into_low_columns() {
    let mut grid = [[false; 12]; 5];
    let mut local = [[false; 6]; 5];
    local[0][0] = true;
    local[2][5] = true;
    local[4][2] = true;
    merge_local(&mut grid, &local);
    // Logical column c holds local column 5 - c.
    assert!(grid[0][5]);
    assert!(grid[2][0]);
    assert!(grid[4][3]);
    let set: usize = grid.iter().flatten().filter(|&&b| b).count();
    assert_eq!(set, 3);
}

#[test]
fn remote_half_lands_in_high_columns() {
    let mut grid = [[false; 12]; 5];
    let mut remote = [[false; 6]; 5];
    remote[1][0] = true;
    remote[3][5] = true;
    merge_remote(&mut grid, &remote);
    assert!(grid[1][6]);
    assert!(grid[3][11]);
    let set: usize = grid.iter().flatten().filter(|&&b| b).count();
    assert_eq!(set, 2);
}

#[test]
fn merging_one_half_leaves_the_other_stale() {
    let mut grid = [[false; 12]; 5];
    grid[2][8] = true; // stale remote data
    grid[2][1] = true; // stale local data
    merge_local(&mut grid, &[[false; 6]; 5]);
    assert!(grid[2][8], "local merge must not clear the remote region");
    assert!(!grid[2][1], "local merge rewrites the local region");
    let mut grid = [[false; 12]; 5];
    grid[2][8] = true;
    grid[2][1] = true;
    merge_remote(&mut grid, &[[false; 6]; 5]);
    assert!(grid[2][1], "remote merge must not clear the local region");
    assert!(!grid[2][8], "remote merge rewrites the remote region");
}

#[test]
fn reset_chords() {
    let mut local = [[false; 6]; 5];
    assert!(!reset_chord_primary(&local));
    assert!(!reset_chord_secondary(&local));
    local[4][0] = true;
    assert!(reset_chord_secondary(&local));
    assert!(!reset_chord_primary(&local));
    local[0][5] = true;
    local[0][0] = true;
    assert!(reset_chord_primary(&local));
}
