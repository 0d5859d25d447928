//! The bit codec: wire layout and round trips.

use splitkb::encoding::{decode, encode};

fn roundtrip(grid: [[bool; 6]; 5]) {
    let encoded = encode(&grid);
    let mut back = [[false; 6]; 5];
    decode(&encoded, &mut back);
    assert_eq!(back, grid);
}

#[test]
fn encode_empty_grid_is_zero() {
    let grid = [[false; 6]; 5];
    assert_eq!(encode(&grid), [0, 0, 0, 0]);
}

#[test]
fn encode_full_grid_sets_all_grid_bits() {
    let grid = [[true; 6]; 5];
    // 30 bits set: three full bytes and the low six bits of the last.
    assert_eq!(encode(&grid), [0xFF, 0xFF, 0xFF, 0x3F]);
}

#[test]
fn encode_is_column_major() {
    // Cell (row, col) lands on flattened bit row + 5 * col.
    let mut grid = [[false; 6]; 5];
    grid[0][0] = true;
    assert_eq!(encode(&grid), [0x01, 0, 0, 0]);

    let mut grid = [[false; 6]; 5];
    grid[2][1] = true; // bit 7
    assert_eq!(encode(&grid), [0x80, 0, 0, 0]);

    let mut grid = [[false; 6]; 5];
    grid[3][1] = true; // bit 8
    assert_eq!(encode(&grid), [0, 0x01, 0, 0]);

    let mut grid = [[false; 6]; 5];
    grid[4][5] = true; // bit 29
    assert_eq!(encode(&grid), [0, 0, 0, 0x20]);
}

#[test]
fn decode_reads_the_same_layout() {
    let mut grid = [[false; 6]; 5];
    decode(&[0x01, 0, 0, 0], &mut grid);
    let mut expected = [[false; 6]; 5];
    expected[0][0] = true;
    assert_eq!(grid, expected);

    let mut grid = [[false; 6]; 5];
    decode(&[0, 0x01, 0, 0], &mut grid);
    let mut expected = [[false; 6]; 5];
    expected[3][1] = true;
    assert_eq!(grid, expected);
}

#[test]
fn decode_overwrites_previous_contents() {
    let mut grid = [[true; 6]; 5];
    decode(&[0, 0, 0, 0], &mut grid);
    assert_eq!(grid, [[false; 6]; 5]);
}

#[test]
fn decode_ignores_the_two_bits_past_the_grid() {
    let mut with_junk = [[false; 6]; 5];
    decode(&[0x12, 0x34, 0x56, 0xF8], &mut with_junk);
    let mut without = [[false; 6]; 5];
    decode(&[0x12, 0x34, 0x56, 0x38], &mut without);
    assert_eq!(with_junk, without);
}

#[test]
fn grid_roundtrip() {
    roundtrip([[false; 6]; 5]);
    roundtrip([[true; 6]; 5]);
    let mut grid = [[false; 6]; 5];
    grid[1][0] = true;
    grid[4][5] = true;
    grid[2][3] = true;
    roundtrip(grid);
    // Alternating pattern.
    let mut grid = [[false; 6]; 5];
    for r in 0..5 {
        for c in 0..6 {
            grid[r][c] = (r + c) % 2 == 0;
        }
    }
    roundtrip(grid);
}

#[test]
fn bytes_roundtrip() {
    // Every well-formed wire image (final byte below 64) survives
    // decoding and re-encoding unchanged.
    for pattern in [[0u8, 0, 0, 0], [0xFF, 0xFF, 0xFF, 0x3F], [0x12, 0x34, 0x56, 0x08], [
        0xA5, 0x5A, 0xC3, 0x3C,
    ]] {
        let mut grid = [[false; 6]; 5];
        decode(&pattern, &mut grid);
        assert_eq!(encode(&grid), pattern);
    }
}
