//! The key-resolution engine: layers, locks, taps, combos.

use splitkb::engine::{compute_active_layer, compute_fallback_layer, KeyboardLogic};
use splitkb::layout::{
    default_keymap, Key, KeyMap, KEY_A, KEY_ESCAPE, KEY_LEFT_CONTROL, KEY_LEFT_SHIFT,
    KEY_RIGHT_SHIFT, KEY_S, KEY_SPACE, KEY_X, KEY_2, KEY_3, PLACEHOLDER_KEY,
};

/// One resolution cycle: the hold set and the batches as plain vectors.
fn run_cycle(
    logic: &mut KeyboardLogic,
    grid: &[[bool; 12]; 5],
    now: u64,
) -> (Vec<u8>, Vec<Vec<u8>>) {
    let mut holds = Vec::new();
    let mut actions = Vec::new();
    logic.update(grid, now, &mut holds, &mut actions);
    let batches = actions.iter().map(|b| b.codes.to_vec()).collect();
    (holds, batches)
}

/// A key map of `n` layers of nothing, to be filled cell by cell.
fn empty_layers(n: usize) -> Vec<Vec<Vec<Key>>> {
    (0..n).map(|_| (0..5).map(|_| vec![Key::Empty; 12]).collect()).collect()
}

#[test]
fn tap_scenario() {
    // Grid all clear except cell [1][0], the OnClick(Escape, LeftShift, 150)
    // of the shipped layout: press at t = 0, release at t = 100 ms with no
    // other press. The batches stay empty until the release, which emits
    // one batch holding Escape alone.
    let mut logic = KeyboardLogic::new(default_keymap(), 0);
    let mut grid = [[false; 12]; 5];
    grid[1][0] = true;
    let (holds, batches) = run_cycle(&mut logic, &grid, 0);
    assert_eq!(batches, vec![Vec::<u8>::new()]);
    assert_eq!(holds, vec![KEY_LEFT_SHIFT]);
    let (holds, batches) = run_cycle(&mut logic, &grid, 50_000);
    assert_eq!(batches, vec![Vec::<u8>::new()]);
    assert_eq!(holds, vec![KEY_LEFT_SHIFT]);
    grid[1][0] = false;
    let (holds, batches) = run_cycle(&mut logic, &grid, 100_000);
    assert_eq!(batches, vec![vec![KEY_ESCAPE]]);
    assert_eq!(holds, Vec::<u8>::new());
    // And only once: the next cycle is quiet.
    let (holds, batches) = run_cycle(&mut logic, &grid, 101_000);
    assert_eq!(batches, vec![Vec::<u8>::new()]);
    assert_eq!(holds, Vec::<u8>::new());
}

#[test]
fn holding_past_the_window_gives_no_tap() {
    let mut logic = KeyboardLogic::new(default_keymap(), 0);
    let mut grid = [[false; 12]; 5];
    grid[1][0] = true;
    let (holds, _) = run_cycle(&mut logic, &grid, 0);
    assert_eq!(holds, vec![KEY_LEFT_SHIFT]);
    // Still held past the 150 ms window: the hold code keeps coming.
    let (holds, batches) = run_cycle(&mut logic, &grid, 200_000);
    assert_eq!(holds, vec![KEY_LEFT_SHIFT]);
    assert_eq!(batches, vec![Vec::<u8>::new()]);
    grid[1][0] = false;
    let (holds, batches) = run_cycle(&mut logic, &grid, 250_000);
    assert_eq!(batches, vec![Vec::<u8>::new()]);
    assert_eq!(holds, Vec::<u8>::new());
}

#[test]
fn release_exactly_at_the_window_gives_no_tap() {
    let mut logic = KeyboardLogic::new(default_keymap(), 0);
    let mut grid = [[false; 12]; 5];
    grid[1][0] = true;
    run_cycle(&mut logic, &grid, 0);
    grid[1][0] = false;
    let (_, batches) = run_cycle(&mut logic, &grid, 150_000);
    assert_eq!(batches, vec![Vec::<u8>::new()]);
}

#[test]
fn another_key_suppresses_the_tap() {
    let mut logic = KeyboardLogic::new(default_keymap(), 0);
    let mut grid = [[false; 12]; 5];
    grid[1][0] = true;
    run_cycle(&mut logic, &grid, 0);
    // An ordinary key fires while the dual-role cell is down.
    grid[1][1] = true; // Press(A) in the shipped layout
    let (_, batches) = run_cycle(&mut logic, &grid, 40_000);
    assert_eq!(batches, vec![vec![KEY_A]]);
    grid[1][1] = false;
    run_cycle(&mut logic, &grid, 60_000);
    // Release within the window: the tap is vetoed all the same.
    grid[1][0] = false;
    let (_, batches) = run_cycle(&mut logic, &grid, 100_000);
    assert_eq!(batches, vec![Vec::<u8>::new()]);
}

#[test]
fn combo_fires_once_on_the_rising_edge() {
    // Hold the layer-1 key and press the cell bound there to the shifted
    // "2" combo.
    let mut logic = KeyboardLogic::new(default_keymap(), 0);
    let mut grid = [[false; 12]; 5];
    grid[3][7] = true; // LayerChange(1)
    grid[0][1] = true; // layer 1: Combo(LeftShift, 2)
    let (holds, batches) = run_cycle(&mut logic, &grid, 0);
    assert_eq!(batches, vec![vec![KEY_LEFT_SHIFT, KEY_2], Vec::<u8>::new()]);
    assert_eq!(holds, Vec::<u8>::new());
    // Held: nothing more fires.
    let (_, batches) = run_cycle(&mut logic, &grid, 10_000);
    assert_eq!(batches, vec![Vec::<u8>::new()]);
    // Released: nothing either.
    grid[0][1] = false;
    let (_, batches) = run_cycle(&mut logic, &grid, 20_000);
    assert_eq!(batches, vec![Vec::<u8>::new()]);
}

#[test]
fn layer_change_cells_stack() {
    // Layer-0 [3][4] = LayerChange(2) together with [3][7] = LayerChange(1)
    // puts the cycle on layer 3.
    let km = default_keymap();
    let mut grid = [[false; 12]; 5];
    grid[3][4] = true;
    grid[3][7] = true;
    assert_eq!(compute_active_layer(&km, &grid), 3);
    grid[3][7] = false;
    assert_eq!(compute_active_layer(&km, &grid), 2);
    grid[3][4] = false;
    assert_eq!(compute_active_layer(&km, &grid), 0);
}

#[test]
fn fallback_resolves_through_drop() {
    // Cell [2][3] bound to Drop on layer 2 but Press(X) on layer 1: with
    // the active layer at 2 it resolves through layer 1 and pressing
    // emits X.
    let mut layers = empty_layers(3);
    layers[0][0][0] = Key::LayerChange(2);
    layers[1][2][3] = Key::Press(KEY_X);
    layers[2][2][3] = Key::Drop;
    let km = KeyMap { layers };
    let mut grid = [[false; 12]; 5];
    grid[0][0] = true; // raise the active layer to 2
    assert_eq!(compute_active_layer(&km, &grid), 2);
    assert_eq!(compute_fallback_layer(&km, 2, 2, 3), 1);
    let mut logic = KeyboardLogic::new(km, 0);
    run_cycle(&mut logic, &grid, 0);
    grid[2][3] = true;
    let (_, batches) = run_cycle(&mut logic, &grid, 1_000);
    assert_eq!(batches, vec![vec![KEY_X]]);
}

#[test]
fn layer_lock_freezes_a_held_key() {
    // Hold an ordinary key, then shift the active layer under it: the held
    // cell must not be remapped to the new layer's binding; it goes quiet
    // instead, and its release resolves to nothing.
    let mut logic = KeyboardLogic::new(default_keymap(), 0);
    let mut grid = [[false; 12]; 5];
    grid[1][1] = true; // Press(A) on layer 0
    let (_, batches) = run_cycle(&mut logic, &grid, 0);
    assert_eq!(batches, vec![vec![KEY_A]]);
    // Layer key joins while A's cell is still held; layer 1 binds that
    // cell to a combo, which must not fire.
    grid[3][7] = true;
    let (_, batches) = run_cycle(&mut logic, &grid, 10_000);
    assert_eq!(batches, vec![Vec::<u8>::new()]);
    let (_, batches) = run_cycle(&mut logic, &grid, 20_000);
    assert_eq!(batches, vec![Vec::<u8>::new()]);
    grid[1][1] = false;
    let (_, batches) = run_cycle(&mut logic, &grid, 30_000);
    assert_eq!(batches, vec![Vec::<u8>::new()]);
}

#[test]
fn release_never_fires_the_release_time_layer() {
    // A cell bound Press(X) on layer 0 and OnClick on layer 1: press it at
    // layer 0, raise the layer mid-hold, release within the window. The
    // release resolves the press-time binding (an ordinary key, so
    // nothing), never the shifted layer's tap.
    let mut layers = empty_layers(2);
    layers[0][0][0] = Key::LayerChange(1);
    layers[0][2][3] = Key::Press(KEY_X);
    layers[1][2][3] = Key::OnClick(KEY_A, KEY_LEFT_SHIFT, 150);
    let mut logic = KeyboardLogic::new(KeyMap { layers }, 0);
    let mut grid = [[false; 12]; 5];
    grid[2][3] = true;
    let (_, batches) = run_cycle(&mut logic, &grid, 0);
    assert_eq!(batches, vec![vec![KEY_X]]);
    grid[0][0] = true; // layer shifts to 1 while the cell is held
    let (holds, batches) = run_cycle(&mut logic, &grid, 10_000);
    assert_eq!(batches, vec![Vec::<u8>::new()]);
    assert_eq!(holds, Vec::<u8>::new());
    grid[2][3] = false; // release inside the 150 ms window
    let (holds, batches) = run_cycle(&mut logic, &grid, 50_000);
    assert_eq!(batches, vec![Vec::<u8>::new()], "the shifted layer's tap must not fire");
    assert_eq!(holds, Vec::<u8>::new());
}

#[test]
fn release_resolves_the_press_time_binding() {
    // The mirror image: the cell is OnClick on layer 0 and Press on layer
    // 1. Pressed at layer 0 and released within the window after a layer
    // shift, the release still resolves the press-time tap-or-hold and
    // fires its click code.
    let mut layers = empty_layers(2);
    layers[0][0][0] = Key::LayerChange(1);
    layers[0][2][3] = Key::OnClick(KEY_ESCAPE, KEY_LEFT_SHIFT, 150);
    layers[1][2][3] = Key::Press(KEY_X);
    let mut logic = KeyboardLogic::new(KeyMap { layers }, 0);
    let mut grid = [[false; 12]; 5];
    grid[2][3] = true;
    let (holds, batches) = run_cycle(&mut logic, &grid, 0);
    assert_eq!(batches, vec![Vec::<u8>::new()]);
    assert_eq!(holds, vec![KEY_LEFT_SHIFT]);
    grid[0][0] = true; // layer shifts to 1 while the cell is held
    let (holds, batches) = run_cycle(&mut logic, &grid, 10_000);
    // Frozen while the lock does not match: no hold code, no X.
    assert_eq!(batches, vec![Vec::<u8>::new()]);
    assert_eq!(holds, Vec::<u8>::new());
    grid[2][3] = false; // release inside the 150 ms window
    let (_, batches) = run_cycle(&mut logic, &grid, 50_000);
    assert_eq!(batches, vec![vec![KEY_ESCAPE]], "the press-time tap fires");
}

#[test]
fn unchanged_grid_resolves_identically() {
    let mut logic = KeyboardLogic::new(default_keymap(), 0);
    let mut grid = [[false; 12]; 5];
    grid[1][1] = true; // Press(A)
    grid[1][3] = true; // Press(S)
    grid[2][0] = true; // Hold(LeftControl)
    let first = run_cycle(&mut logic, &grid, 0);
    let second = run_cycle(&mut logic, &grid, 10_000);
    let third = run_cycle(&mut logic, &grid, 20_000);
    assert_eq!(second, first);
    assert_eq!(third, first);
    assert_eq!(second.1, vec![vec![KEY_A, KEY_S]]);
}

#[test]
fn steady_keys_report_every_cycle() {
    let mut logic = KeyboardLogic::new(default_keymap(), 0);
    let mut grid = [[false; 12]; 5];
    grid[3][5] = true; // Press(Space)
    for t in [0u64, 500, 1_000, 1_500] {
        let (_, batches) = run_cycle(&mut logic, &grid, t);
        assert_eq!(batches, vec![vec![KEY_SPACE]]);
    }
}

#[test]
fn one_shot_batches_come_before_the_steady_batch() {
    // Two combos pressed in the same cycle, on layer 1, with an ordinary
    // key held: their one-shot batches come first, in cell order, and the
    // steady batch closes the list.
    let mut logic = KeyboardLogic::new(default_keymap(), 0);
    let mut grid = [[false; 12]; 5];
    grid[3][5] = true; // Press(Space), layer 1 has Drop there -> falls to 0
    let (_, batches) = run_cycle(&mut logic, &grid, 0);
    assert_eq!(batches, vec![vec![KEY_SPACE]]);
    grid[3][7] = true; // LayerChange(1)
    grid[0][1] = true; // layer 1: Combo(LeftShift, 2)
    grid[0][4] = true; // layer 1: Combo(LeftShift, 3)
    let (_, batches) = run_cycle(&mut logic, &grid, 1_000);
    // Space's cell now falls back through layer 1's Drop to layer 0, but
    // its lock from the press at layer 0 still matches, so it keeps
    // reporting in the steady batch.
    assert_eq!(
        batches,
        vec![vec![KEY_LEFT_SHIFT, KEY_2], vec![KEY_LEFT_SHIFT, KEY_3], vec![KEY_SPACE]]
    );
}

#[test]
fn hold_codes_collect_in_cell_order() {
    let mut logic = KeyboardLogic::new(default_keymap(), 0);
    let mut grid = [[false; 12]; 5];
    grid[2][0] = true; // Hold(LeftControl)
    grid[3][6] = true; // Hold(RightShift)
    let (holds, batches) = run_cycle(&mut logic, &grid, 0);
    assert_eq!(holds, vec![KEY_LEFT_CONTROL, KEY_RIGHT_SHIFT]);
    assert_eq!(batches, vec![Vec::<u8>::new()]);
}

#[test]
fn out_of_range_layer_degrades_to_the_placeholder() {
    // A single-layer map whose layer key jumps past every defined layer:
    // pressed cells degrade to the placeholder code instead of failing.
    let mut layers = empty_layers(1);
    layers[0][0][0] = Key::LayerChange(5);
    let km = KeyMap { layers };
    let mut logic = KeyboardLogic::new(km, 0);
    let mut grid = [[false; 12]; 5];
    grid[0][0] = true;
    let (_, batches) = run_cycle(&mut logic, &grid, 0);
    assert_eq!(batches, vec![vec![PLACEHOLDER_KEY]]);
}
