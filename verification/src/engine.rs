//! The key-resolution engine.
//!
//! Each cycle the engine reads the merged 5x12 logical grid and resolves
//! every cell through the layered key map: the pressed layer-change cells
//! of the base layer fix the active layer; each cell falls back through
//! `Drop` bindings to the highest defined layer at or below it; the layer
//! captured at a cell's press governs it until its release — held cycles
//! and the release edge alike — so a key cannot be remapped by a layer
//! shift underneath it, and its release resolves the binding it was
//! pressed with. The engine
//! appends the cycle's one-shot batches (combos, taps) followed by the
//! steady batch of codes currently down, and collects the modifier-hold
//! set separately.
//!
//! Timestamps are the scan clock's microsecond ticks. The whole cycle is
//! modelled by the spec functions `cell_step` (one cell) and `cycle` (the
//! row-major fold over all 60 cells), which the contracts below pin the
//! executable code to.

use vstd::prelude::*;
use crate::batch::{batch_seq, batches_view, Batch};
use crate::layout::{Key, KeyMap, PLACEHOLDER_KEY};
use crate::rows_view;

verus! {

/// What one cell remembers across cycles.
#[derive(Clone, Copy, Debug)]
pub struct ButtonState {
    /// Whether the cell was down in the last resolved cycle.
    pub pressed: bool,
    /// The time of the cell's most recent press/release edge.
    pub t_change: u64,
    /// The layer the cell resolved through at that edge.
    pub pressed_layer: usize,
}

/// One cell's outcome within a cycle: its new state and its contributions
/// to the cycle's outputs.
pub ghost struct CellOut {
    /// The cell's state after the cycle.
    pub state: ButtonState,
    /// Codes the cell adds to the modifier-hold set.
    pub holds: Seq<u8>,
    /// Codes the cell adds to the steady batch.
    pub presses: Seq<u8>,
    /// Standalone one-shot batches the cell fires.
    pub shots: Seq<Seq<u8>>,
    /// The time a key was last sent, after this cell.
    pub t_last: u64,
}

/// A whole cycle's outcome.
pub ghost struct CycleOut {
    /// Every cell's state after the cycle.
    pub states: Seq<Seq<ButtonState>>,
    /// The modifier-hold set, in cell order.
    pub holds: Seq<u8>,
    /// The steady batch: codes down right now, in cell order.
    pub presses: Seq<u8>,
    /// The one-shot batches, in cell order.
    pub shots: Seq<Seq<u8>>,
    /// The time a key was last sent, after the cycle.
    pub t_last: u64,
}

/// What a pressed cell of the grid adds to the active layer: the amount of
/// a `LayerChange` binding on the base layer, else nothing. Cells are
/// numbered row-major, `k = 12 * row + col`.
pub open spec fn layer_contrib(km: KeyMap, g: Seq<Seq<bool>>, k: int) -> int {
    if g[k / 12][k % 12] {
        match km.binding(0, k / 12, k % 12) {
            Key::LayerChange(n) => n as int,
            _ => 0,
        }
    } else {
        0
    }
}

/// The active-layer sum over the first `k` cells.
pub open spec fn active_layer_upto(km: KeyMap, g: Seq<Seq<bool>>, k: int) -> int
    decreases k,
{
    if k <= 0 {
        0
    } else {
        active_layer_upto(km, g, k - 1) + layer_contrib(km, g, k - 1)
    }
}

/// The active layer of a cycle: the sum of the amounts of all pressed
/// base-layer `LayerChange` cells. It is a pure function of the grid and
/// does not persist across cycles.
pub open spec fn active_layer(km: KeyMap, g: Seq<Seq<bool>>) -> int {
    active_layer_upto(km, g, 60)
}

/// The layer cell `(r, c)` resolves through when the active layer is
/// `from`: the highest layer at or below `from` whose binding there is not
/// `Drop`, stopping at the base layer. A `from` at or past the layer count
/// stands as it is; resolution then degrades to the placeholder key.
pub open spec fn fallback_layer(km: KeyMap, from: int, r: int, c: int) -> int
    decreases from,
{
    if from <= 0 {
        0
    } else if from < km.n_layers() && km.binding(from, r, c) == Key::Drop {
        fallback_layer(km, from - 1, r, c)
    } else {
        from
    }
}

/// A cell's outcome for one cycle. `cur` is the cell's state in the grid,
/// `prev` its remembered state, `t_last` the running time-of-last-sent-key.
///
/// Exactly one locked layer governs a cell between its press and its
/// release: a rising edge locks the cell to the layer it resolves through
/// at that instant, and from then on — held cycles and the release edge
/// alike — the cell is read through that press-time lock. A held cell
/// whose lock no longer matches the layer it would resolve through today
/// is frozen and contributes nothing. A governing layer past the defined
/// layers degrades to the placeholder key.
pub open spec fn cell_step(
    km: KeyMap,
    active: int,
    r: int,
    c: int,
    cur: bool,
    prev: ButtonState,
    now: u64,
    t_last: u64,
) -> CellOut {
    let used = fallback_layer(km, active, r, c);
    let edge = cur != prev.pressed;
    let governing: int = if cur && !prev.pressed {
        used
    } else {
        prev.pressed_layer as int
    };
    let st = ButtonState {
        pressed: cur,
        t_change: if edge {
            now
        } else {
            prev.t_change
        },
        pressed_layer: if edge {
            used as usize
        } else {
            prev.pressed_layer
        },
    };
    let none = CellOut {
        state: st,
        holds: Seq::empty(),
        presses: Seq::empty(),
        shots: Seq::empty(),
        t_last,
    };
    if !edge && prev.pressed_layer as int != used {
        none
    } else if governing >= km.n_layers() {
        if cur {
            CellOut { presses: seq![PLACEHOLDER_KEY], t_last: now, ..none }
        } else {
            none
        }
    } else {
        match km.binding(governing, r, c) {
            Key::Press(key) => if cur {
                CellOut { presses: seq![key], t_last: now, ..none }
            } else {
                none
            },
            Key::Combo(k1, k2) => if cur && !prev.pressed {
                CellOut { shots: seq![seq![k1, k2]], t_last: now, ..none }
            } else {
                none
            },
            Key::Hold(key) => if cur {
                CellOut { holds: seq![key], ..none }
            } else {
                none
            },
            Key::OnClick(click, hold, window) => if cur {
                CellOut { holds: seq![hold], ..none }
            } else if prev.pressed && now - prev.t_change < window * 1000 && prev.t_change
                >= t_last {
                CellOut { presses: seq![click], t_last: now, ..none }
            } else {
                none
            },
            Key::LayerChange(_) => none,
            Key::Drop => none,
            Key::Empty => none,
        }
    }
}

/// The cycle's fold over its first `k` cells, row-major.
pub open spec fn cycle_upto(
    km: KeyMap,
    g: Seq<Seq<bool>>,
    states: Seq<Seq<ButtonState>>,
    now: u64,
    t_last0: u64,
    k: int,
) -> CycleOut
    decreases k,
{
    if k <= 0 {
        CycleOut {
            states,
            holds: Seq::empty(),
            presses: Seq::empty(),
            shots: Seq::empty(),
            t_last: t_last0,
        }
    } else {
        let sofar = cycle_upto(km, g, states, now, t_last0, k - 1);
        let r = (k - 1) / 12;
        let c = (k - 1) % 12;
        let step = cell_step(km, active_layer(km, g), r, c, g[r][c], states[r][c], now, sofar.t_last);
        CycleOut {
            states: sofar.states.update(r, sofar.states[r].update(c, step.state)),
            holds: sofar.holds + step.holds,
            presses: sofar.presses + step.presses,
            shots: sofar.shots + step.shots,
            t_last: step.t_last,
        }
    }
}

/// One whole resolution cycle over the 60 cells.
pub open spec fn cycle(
    km: KeyMap,
    g: Seq<Seq<bool>>,
    states: Seq<Seq<ButtonState>>,
    now: u64,
    t_last0: u64,
) -> CycleOut {
    cycle_upto(km, g, states, now, t_last0, 60)
}

/// Every remembered edge time lies at or before `t`.
pub open spec fn states_time_le(states: Seq<Seq<ButtonState>>, t: u64) -> bool {
    forall|r: int, c: int|
        0 <= r < 5 && 0 <= c < 12 ==> (#[trigger] states[r][c]).t_change <= t
}

/// The engine: the key map, each cell's remembered state, and the time a
/// key was last sent.
pub struct KeyboardLogic {
    pub keymap: KeyMap,
    pub prev_pressed: [[ButtonState; 12]; 5],
    pub t_last_key_sent: u64,
}

impl KeyboardLogic {
    /// The engine is well-formed when its key map is.
    pub open spec fn wf(&self) -> bool {
        self.keymap.wf()
    }

    /// The remembered cell states as a sequence of rows.
    pub open spec fn states(&self) -> Seq<Seq<ButtonState>> {
        rows_view(self.prev_pressed)
    }

    /// No remembered time lies in the future of `t`. The caller's clock is
    /// monotone, so handing the engine the current time keeps this.
    pub open spec fn time_le(&self, t: u64) -> bool {
        states_time_le(self.states(), t) && self.t_last_key_sent <= t
    }

    /// A fresh engine at time `now`: nothing pressed, every cell locked to
    /// the base layer.
    pub fn new(keymap: KeyMap, now: u64) -> (r: KeyboardLogic)
        requires
            keymap.wf(),
        ensures
            r.wf(),
            r.keymap == keymap,
            r.time_le(now),
            r.t_last_key_sent == now,
            forall|ri: int, ci: int|
                0 <= ri < 5 && 0 <= ci < 12 ==> (#[trigger] r.states()[ri][ci]) == (ButtonState {
                    pressed: false,
                    t_change: now,
                    pressed_layer: 0,
                }),
    {
        let cell = ButtonState { pressed: false, t_change: now, pressed_layer: 0 };
        let row: [ButtonState; 12] = vstd::array::array_fill_for_copy_types::<ButtonState, 12>(
            cell,
        );
        let all: [[ButtonState; 12]; 5] = vstd::array::array_fill_for_copy_types::<
            [ButtonState; 12],
            5,
        >(row);
        KeyboardLogic { keymap, prev_pressed: all, t_last_key_sent: now }
    }
}


/// The fallback layer lies between the base layer and the layer it
/// started from.
pub proof fn lemma_fallback_range(km: KeyMap, from: int, r: int, c: int)
    ensures
        0 <= fallback_layer(km, from, r, c),
        from >= 0 ==> fallback_layer(km, from, r, c) <= from,
    decreases from,
{
    if from > 0 && from < km.n_layers() && km.binding(from, r, c) == Key::Drop {
        lemma_fallback_range(km, from - 1, r, c);
    }
}

/// The fallback layer is the highest defined layer at or below the
/// active one whose binding is not `Drop`: everything strictly between
/// them reads `Drop`, and only the base layer may still resolve to a
/// `Drop` cell.
pub proof fn lemma_fallback_is_highest_non_drop(km: KeyMap, active: int, r: int, c: int)
    requires
        0 <= active < km.n_layers(),
    ensures
        0 <= fallback_layer(km, active, r, c) <= active,
        km.binding(active, r, c) != Key::Drop ==> fallback_layer(km, active, r, c) == active,
        fallback_layer(km, active, r, c) > 0 ==> km.binding(fallback_layer(km, active, r, c), r, c)
            != Key::Drop,
        forall|l: int|
            fallback_layer(km, active, r, c) < l <= active ==> km.binding(l, r, c) == Key::Drop,
    decreases active,
{
    if active > 0 && km.binding(active, r, c) == Key::Drop {
        lemma_fallback_is_highest_non_drop(km, active - 1, r, c);
    }
}

/// A cycle's fold touches only the cells before `k`: the rest keep their
/// remembered state; and it keeps every remembered time at or before the
/// cycle's clock.
pub proof fn lemma_cycle_upto_states(
    km: KeyMap,
    g: Seq<Seq<bool>>,
    states: Seq<Seq<ButtonState>>,
    now: u64,
    t_last0: u64,
    k: int,
)
    requires
        0 <= k <= 60,
        states.len() == 5,
        forall|r: int| 0 <= r < 5 ==> (#[trigger] states[r]).len() == 12,
    ensures
        cycle_upto(km, g, states, now, t_last0, k).states.len() == 5,
        forall|r: int|
            0 <= r < 5 ==> (#[trigger] cycle_upto(km, g, states, now, t_last0, k).states[r]).len()
                == 12,
        forall|r: int, c: int|
            0 <= r < 5 && 0 <= c < 12 && 12 * r + c >= k ==> (#[trigger] cycle_upto(
                km,
                g,
                states,
                now,
                t_last0,
                k,
            ).states[r][c]) == states[r][c],
        states_time_le(states, now) ==> states_time_le(
            cycle_upto(km, g, states, now, t_last0, k).states,
            now,
        ),
        cycle_upto(km, g, states, now, t_last0, k).t_last == t_last0 || cycle_upto(
            km,
            g,
            states,
            now,
            t_last0,
            k,
        ).t_last == now,
    decreases k,
{
    if k > 0 {
        lemma_cycle_upto_states(km, g, states, now, t_last0, k - 1);
        let sofar = cycle_upto(km, g, states, now, t_last0, k - 1);
        let out = cycle_upto(km, g, states, now, t_last0, k);
        let r = (k - 1) / 12;
        let c = (k - 1) % 12;
        assert(0 <= r < 5 && 0 <= c < 12) by (nonlinear_arith)
            requires
                0 < k <= 12 * 5,
                r == (k - 1) / 12,
                c == (k - 1) % 12,
        ;
        assert(12 * r + c == k - 1);
        assert forall|r2: int, c2: int|
            0 <= r2 < 5 && 0 <= c2 < 12 && 12 * r2 + c2 >= k implies (#[trigger] out.states[r2][c2])
            == states[r2][c2] by {
            assert(!(r2 == r && c2 == c));
            if r2 == r {
                assert(out.states[r2][c2] == sofar.states[r2][c2]);
            }
        }
        if states_time_le(states, now) {
            assert forall|r2: int, c2: int| 0 <= r2 < 5 && 0 <= c2 < 12 implies (#[trigger] out
                .states[r2][c2]).t_change <= now by {
                if !(r2 == r && c2 == c) {
                    assert(out.states[r2][c2] == sofar.states[r2][c2]);
                }
            }
        }
    }
}

/// The active layer of the cycle, from the pressed base-layer
/// `LayerChange` cells of the grid.
pub fn compute_active_layer(km: &KeyMap, grid: &[[bool; 12]; 5]) -> (n: usize)
    requires
        km.wf(),
    ensures
        n as int == active_layer(*km, rows_view(*grid)),
{
    let ghost gv = rows_view(*grid);
    let mut sum: usize = 0;
    let mut k: usize = 0;
    while k < 60
        invariant
            km.wf(),
            k <= 60,
            gv == rows_view(*grid),
            sum as int == active_layer_upto(*km, gv, k as int),
            sum <= 255 * k,
        decreases 60 - k,
    {
        let r = k / 12;
        let c = k % 12;
        proof {
            assert(r < 5 && c < 12) by (nonlinear_arith)
                requires
                    k < 60 && r == k / 12 && c == k % 12,
            ;
        }
        if grid[r][c] {
            let key = km.layers[0][r][c];
            match key {
                Key::LayerChange(n) => {
                    sum = sum + (n as usize);
                },
                _ => {},
            }
        }
        proof {
            assert(active_layer_upto(*km, gv, k as int + 1) == active_layer_upto(*km, gv, k as int)
                + layer_contrib(*km, gv, k as int));
        }
        k += 1;
    }
    sum
}

/// The layer a cell resolves through, walking down from `active` while the
/// bindings read `Drop`.
pub fn compute_fallback_layer(km: &KeyMap, active: usize, r: usize, c: usize) -> (u: usize)
    requires
        km.wf(),
        r < 5,
        c < 12,
    ensures
        u as int == fallback_layer(*km, active as int, r as int, c as int),
        u <= active,
{
    let mut cur = active;
    while cur > 0 && cur < km.layers.len() && km.layers[cur][r][c] == Key::Drop
        invariant
            km.wf(),
            r < 5,
            c < 12,
            cur <= active,
            fallback_layer(*km, active as int, r as int, c as int) == fallback_layer(
                *km,
                cur as int,
                r as int,
                c as int,
            ),
        decreases cur,
    {
        cur = cur - 1;
    }
    cur
}


/// One cell of the cycle: appends the cell's contributions to the hold
/// set, the steady batch and the one-shot batches, and hands back the
/// cell's new state and the updated time-of-last-sent-key.
fn cell_step_exec(
    km: &KeyMap,
    active: usize,
    r: usize,
    c: usize,
    cur: bool,
    prev: ButtonState,
    now: u64,
    t_last: u64,
    holds: &mut Vec<u8>,
    normal: &mut Batch,
    actions: &mut Vec<Batch>,
) -> (res: (ButtonState, u64))
    requires
        km.wf(),
        r < 5,
        c < 12,
        prev.t_change <= now,
        t_last <= now,
    ensures
        ({
            let step = cell_step(*km, active as int, r as int, c as int, cur, prev, now, t_last);
            &&& res.0 == step.state
            &&& res.1 == step.t_last
            &&& res.1 <= now
            &&& final(holds)@ == old(holds)@ + step.holds
            &&& batch_seq(*final(normal)) == batch_seq(*old(normal)) + step.presses
            &&& batches_view(final(actions)@) == batches_view(old(actions)@) + step.shots
        }),
{
    proof {
        lemma_fallback_range(*km, active as int, r as int, c as int);
    }
    let used = compute_fallback_layer(km, active, r, c);
    let edge = cur != prev.pressed;
    let governing: usize = if cur && !prev.pressed {
        used
    } else {
        prev.pressed_layer
    };
    let st = ButtonState {
        pressed: cur,
        t_change: if edge {
            now
        } else {
            prev.t_change
        },
        pressed_layer: if edge {
            used
        } else {
            prev.pressed_layer
        },
    };
    let mut t_out = t_last;
    if !edge && prev.pressed_layer != used {
        // off an edge the cell resolves only while its lock matches;
        // a held cell whose layer shifted underneath it stays frozen
    } else if governing >= km.layers.len() {
        if cur {
            normal.push(PLACEHOLDER_KEY);
            t_out = now;
        }
    } else {
        let key = km.layers[governing][r][c];
        match key {
            Key::Press(k) => {
                if cur {
                    normal.push(k);
                    t_out = now;
                }
            },
            Key::Combo(k1, k2) => {
                if cur && !prev.pressed {
                    let mut shot = Batch::new();
                    shot.push(k1);
                    shot.push(k2);
                    proof {
                        assert(batch_seq(shot) =~= seq![k1, k2]);
                    }
                    actions.push(shot);
                    t_out = now;
                }
            },
            Key::Hold(k) => {
                if cur {
                    holds.push(k);
                }
            },
            Key::OnClick(click, hold, window) => {
                if cur {
                    holds.push(hold);
                } else if prev.pressed {
                    let elapsed = now - prev.t_change;
                    if (elapsed as u128) < (window as u128) * 1000 && prev.t_change >= t_last {
                        normal.push(click);
                        t_out = now;
                    }
                }
            },
            Key::LayerChange(_) => {},
            Key::Drop => {},
            Key::Empty => {},
        }
    }
    proof {
        let step = cell_step(*km, active as int, r as int, c as int, cur, prev, now, t_last);
        assert(holds@ =~= old(holds)@ + step.holds);
        assert(batch_seq(*normal) =~= batch_seq(*old(normal)) + step.presses);
        assert(batches_view(actions@) =~= batches_view(old(actions)@) + step.shots);
    }
    (st, t_out)
}


impl KeyboardLogic {
    /// Resolve one cycle of the logical grid at time `now` (microsecond
    /// ticks of a monotone clock, so no remembered time lies in the
    /// future). Appends the modifier-hold codes to `holds` and the cycle's
    /// batches to `actions`: first the one-shot batches (combos and taps),
    /// then the steady batch of every code currently down. The whole
    /// outcome, state change included, is the fold `cycle` of `cell_step`
    /// over the 60 cells in row-major order.
    pub fn update(
        &mut self,
        new_state: &[[bool; 12]; 5],
        now: u64,
        holds: &mut Vec<u8>,
        actions: &mut Vec<Batch>,
    )
        requires
            old(self).wf(),
            old(self).time_le(now),
        ensures
            final(self).wf(),
            final(self).keymap == old(self).keymap,
            final(self).time_le(now),
            ({
                let out = cycle(
                    old(self).keymap,
                    rows_view(*new_state),
                    old(self).states(),
                    now,
                    old(self).t_last_key_sent,
                );
                &&& final(self).states() == out.states
                &&& final(self).t_last_key_sent == out.t_last
                &&& final(holds)@ == old(holds)@ + out.holds
                &&& batches_view(final(actions)@) == batches_view(old(actions)@) + out.shots.push(
                    out.presses,
                )
            }),
    {
        let ghost km0 = self.keymap;
        let ghost gv = rows_view(*new_state);
        let ghost states0 = self.states();
        let ghost t0 = self.t_last_key_sent;
        let ghost holds0 = holds@;
        let ghost acts0 = batches_view(actions@);
        let active = compute_active_layer(&self.keymap, new_state);
        let mut normal = Batch::new();
        let mut t_last = self.t_last_key_sent;
        let mut k: usize = 0;
        while k < 60
            invariant
                k <= 60,
                self.keymap == km0,
                km0.wf(),
                gv == rows_view(*new_state),
                states0.len() == 5,
                forall|r: int| 0 <= r < 5 ==> (#[trigger] states0[r]).len() == 12,
                active as int == active_layer(km0, gv),
                states_time_le(states0, now),
                t0 <= now,
                t_last <= now,
                holds0 == old(holds)@,
                acts0 == batches_view(old(actions)@),
                ({
                    let out = cycle_upto(km0, gv, states0, now, t0, k as int);
                    &&& rows_view(self.prev_pressed) == out.states
                    &&& t_last == out.t_last
                    &&& holds@ == holds0 + out.holds
                    &&& batch_seq(normal) == out.presses
                    &&& batches_view(actions@) == acts0 + out.shots
                }),
            decreases 60 - k,
        {
            let ghost out_k = cycle_upto(km0, gv, states0, now, t0, k as int);
            let r = k / 12;
            let c = k % 12;
            proof {
                assert(r < 5 && c < 12 && 12 * (r as int) + c as int == k as int)
                    by (nonlinear_arith)
                    requires
                        k < 60 && r == k / 12 && c == k % 12,
                ;
                lemma_cycle_upto_states(km0, gv, states0, now, t0, k as int);
            }
            let cur = new_state[r][c];
            let prev = self.prev_pressed[r][c];
            proof {
                assert(rows_view(self.prev_pressed)[r as int][c as int] == prev);
                assert(prev == states0[r as int][c as int]);
                assert(prev.t_change <= now);
                assert(cur == gv[r as int][c as int]);
            }
            let (st, t2) = cell_step_exec(
                &self.keymap,
                active,
                r,
                c,
                cur,
                prev,
                now,
                t_last,
                holds,
                &mut normal,
                actions,
            );
            let mut rowv = self.prev_pressed[r];
            let ghost spre = self.prev_pressed;
            rowv[c] = st;
            self.prev_pressed[r] = rowv;
            t_last = t2;
            proof {
                let out_k1 = cycle_upto(km0, gv, states0, now, t0, k as int + 1);
                let step = cell_step(
                    km0,
                    active as int,
                    r as int,
                    c as int,
                    cur,
                    prev,
                    now,
                    out_k.t_last,
                );
                assert((k as int + 1 - 1) / 12 == r as int && (k as int + 1 - 1) % 12 == c as int);
                assert(out_k1.states == out_k.states.update(
                    r as int,
                    out_k.states[r as int].update(c as int, step.state),
                ));
                assert(self.prev_pressed@ == spre@.update(r as int, rowv));
                assert(rowv@ == spre@[r as int]@.update(c as int, st));
                assert forall|r2: int, c2: int| 0 <= r2 < 5 && 0 <= c2 < 12 implies rows_view(
                    self.prev_pressed,
                )[r2][c2] == out_k1.states[r2][c2] by {
                    if r2 == r {
                        if c2 == c {
                            assert(rows_view(self.prev_pressed)[r2][c2] == st);
                        } else {
                            assert(rows_view(self.prev_pressed)[r2][c2] == rows_view(
                                spre,
                            )[r2][c2]);
                        }
                    } else {
                        assert(rows_view(self.prev_pressed)[r2][c2] == rows_view(spre)[r2][c2]);
                    }
                }
                lemma_cycle_upto_states(km0, gv, states0, now, t0, k as int + 1);
                assert(rows_view(self.prev_pressed) =~~= out_k1.states);
                assert(holds@ =~= holds0 + out_k1.holds);
                assert(batch_seq(normal) =~= out_k1.presses);
                assert(batches_view(actions@) =~= acts0 + out_k1.shots);
            }
            k += 1;
        }
        self.t_last_key_sent = t_last;
        let ghost apre = actions@;
        let ghost nseq = batch_seq(normal);
        actions.push(normal);
        proof {
            let out = cycle(km0, gv, states0, now, t0);
            assert(nseq == out.presses);
            assert(actions@ == apre.push(actions@[apre.len() as int]));
            assert(batch_seq(actions@[apre.len() as int]) == nseq);
            let rhs = acts0 + out.shots.push(out.presses);
            assert forall|i: int| 0 <= i < actions@.len() implies batches_view(actions@)[i] == rhs[i] by {
                if i < apre.len() {
                    assert(actions@[i] == apre[i]);
                    assert(batches_view(apre)[i] == batch_seq(apre[i]));
                    assert(batches_view(apre)[i] == (acts0 + out.shots)[i]);
                    if i < acts0.len() {
                        assert(rhs[i] == acts0[i]);
                    } else {
                        assert(rhs[i] == out.shots.push(out.presses)[i - acts0.len()]);
                        assert((acts0 + out.shots)[i] == out.shots[i - acts0.len()]);
                    }
                } else {
                    assert(i == apre.len());
                    assert(rhs[i] == out.presses);
                }
            }
            assert(batches_view(actions@) =~= rhs);
            lemma_cycle_upto_states(km0, gv, states0, now, t0, 60);
        }
    }
}


/// Well-shaped remembered state: 5 rows of 12 cells.
pub open spec fn states_wf(states: Seq<Seq<ButtonState>>) -> bool {
    states.len() == 5 && forall|r: int| 0 <= r < 5 ==> (#[trigger] states[r]).len() == 12
}

/// No cell is on an edge: the remembered pressed flags already match the
/// grid.
pub open spec fn no_edges(states: Seq<Seq<ButtonState>>, g: Seq<Seq<bool>>) -> bool {
    forall|r: int, c: int|
        0 <= r < 5 && 0 <= c < 12 ==> (#[trigger] states[r][c]).pressed == g[r][c]
}

/// After a cycle every cell remembers the grid it just resolved.
pub proof fn lemma_cycle_upto_pressed(
    km: KeyMap,
    g: Seq<Seq<bool>>,
    states: Seq<Seq<ButtonState>>,
    now: u64,
    t_last0: u64,
    k: int,
)
    requires
        0 <= k <= 60,
        states_wf(states),
    ensures
        forall|r: int, c: int|
            0 <= r < 5 && 0 <= c < 12 && 12 * r + c < k ==> (#[trigger] cycle_upto(
                km,
                g,
                states,
                now,
                t_last0,
                k,
            ).states[r][c]).pressed == g[r][c],
    decreases k,
{
    if k > 0 {
        lemma_cycle_upto_pressed(km, g, states, now, t_last0, k - 1);
        lemma_cycle_upto_states(km, g, states, now, t_last0, k - 1);
        let sofar = cycle_upto(km, g, states, now, t_last0, k - 1);
        let out = cycle_upto(km, g, states, now, t_last0, k);
        let r = (k - 1) / 12;
        let c = (k - 1) % 12;
        assert(0 <= r < 5 && 0 <= c < 12) by (nonlinear_arith)
            requires
                0 < k <= 60,
                r == (k - 1) / 12,
                c == (k - 1) % 12,
        ;
        assert(12 * r + c == k - 1);
        assert forall|r2: int, c2: int|
            0 <= r2 < 5 && 0 <= c2 < 12 && 12 * r2 + c2 < k implies (#[trigger] out
            .states[r2][c2]).pressed == g[r2][c2] by {
            if r2 == r && c2 == c {
                assert(out.states[r2][c2].pressed == g[r][c]);
            } else {
                assert(out.states[r2][c2] == sofar.states[r2][c2]);
            }
        }
    }
}

/// The heart of idempotence: on a cycle without edges, the remembered
/// state stays exactly as it is, no one-shot batch fires, and the hold
/// set and steady batch do not depend on the clock or on the
/// time-of-last-sent-key.
proof fn lemma_no_edge_cycle(
    km: KeyMap,
    g: Seq<Seq<bool>>,
    states: Seq<Seq<ButtonState>>,
    now1: u64,
    t1: u64,
    now2: u64,
    t2: u64,
    k: int,
)
    requires
        0 <= k <= 60,
        states_wf(states),
        no_edges(states, g),
    ensures
        cycle_upto(km, g, states, now1, t1, k).states == states,
        cycle_upto(km, g, states, now1, t1, k).holds == cycle_upto(
            km,
            g,
            states,
            now2,
            t2,
            k,
        ).holds,
        cycle_upto(km, g, states, now1, t1, k).presses == cycle_upto(
            km,
            g,
            states,
            now2,
            t2,
            k,
        ).presses,
        cycle_upto(km, g, states, now1, t1, k).shots == Seq::<Seq<u8>>::empty(),
        cycle_upto(km, g, states, now2, t2, k).shots == Seq::<Seq<u8>>::empty(),
    decreases k,
{
    if k > 0 {
        lemma_no_edge_cycle(km, g, states, now1, t1, now2, t2, k - 1);
        let r = (k - 1) / 12;
        let c = (k - 1) % 12;
        assert(0 <= r < 5 && 0 <= c < 12) by (nonlinear_arith)
            requires
                0 < k <= 60,
                r == (k - 1) / 12,
                c == (k - 1) % 12,
        ;
        let a = active_layer(km, g);
        let p1 = cycle_upto(km, g, states, now1, t1, k - 1);
        let p2 = cycle_upto(km, g, states, now2, t2, k - 1);
        let s1 = cell_step(km, a, r, c, g[r][c], states[r][c], now1, p1.t_last);
        let s2 = cell_step(km, a, r, c, g[r][c], states[r][c], now2, p2.t_last);
        assert(states[r][c].pressed == g[r][c]);
        assert(s1.state == states[r][c]);
        assert(s1.holds == s2.holds);
        assert(s1.presses == s2.presses);
        assert(s1.shots == Seq::<Seq<u8>>::empty());
        assert(s2.shots == Seq::<Seq<u8>>::empty());
        assert(states[r].update(c, states[r][c]) =~= states[r]);
        assert(states.update(r, states[r]) =~= states);
        assert(cycle_upto(km, g, states, now1, t1, k).states == states);
        assert(p1.holds + s1.holds =~= p2.holds + s2.holds);
        assert(p1.presses + s1.presses =~= p2.presses + s2.presses);
        assert(p1.shots + s1.shots =~= Seq::<Seq<u8>>::empty());
        assert(p2.shots + s2.shots =~= Seq::<Seq<u8>>::empty());
    }
}

/// Idempotence: resolving a cycle whose grid is unchanged from what the
/// state already reflects, twice in a row, fires no one-shot batch either
/// time and gives the same hold set and the same steady batch both times,
/// whatever the two cycles' clock readings.
pub proof fn lemma_cycle_idempotent(
    km: KeyMap,
    g: Seq<Seq<bool>>,
    states: Seq<Seq<ButtonState>>,
    now1: u64,
    t1: u64,
    now2: u64,
    t2: u64,
)
    requires
        states_wf(states),
        no_edges(states, g),
    ensures
        ({
            let o1 = cycle(km, g, states, now1, t1);
            let o2 = cycle(km, g, o1.states, now2, t2);
            &&& o2.holds == o1.holds
            &&& o2.presses == o1.presses
            &&& o1.shots == Seq::<Seq<u8>>::empty()
            &&& o2.shots == Seq::<Seq<u8>>::empty()
        }),
{
    lemma_no_edge_cycle(km, g, states, now1, t1, now2, t2, 60);
}

/// A cycle on a grid unchanged from the previous cycle re-fires no
/// edge-triggered one-shot batch, whatever state the previous cycle
/// started from.
pub proof fn lemma_second_cycle_no_oneshots(
    km: KeyMap,
    g: Seq<Seq<bool>>,
    states: Seq<Seq<ButtonState>>,
    now1: u64,
    t1: u64,
    now2: u64,
    t2: u64,
)
    requires
        states_wf(states),
    ensures
        cycle(km, g, cycle(km, g, states, now1, t1).states, now2, t2).shots == Seq::<
            Seq<u8>,
        >::empty(),
{
    let s1 = cycle(km, g, states, now1, t1).states;
    lemma_cycle_upto_states(km, g, states, now1, t1, 60);
    lemma_cycle_upto_pressed(km, g, states, now1, t1, 60);
    assert(states_wf(s1));
    assert(no_edges(s1, g));
    lemma_no_edge_cycle(km, g, s1, now2, t2, now2, t2, 60);
}

/// A press or release edge stamps the cell's lock with the layer it
/// resolves through at that instant: the press-time stamp governs the
/// cell until its release, while the release-time stamp lies dormant
/// until the next press overwrites it. Off an edge the lock and the edge
/// time are left alone.
pub proof fn lemma_edge_locks_layer(
    km: KeyMap,
    active: int,
    r: int,
    c: int,
    cur: bool,
    prev: ButtonState,
    now: u64,
    t_last: u64,
)
    ensures
        cur != prev.pressed ==> cell_step(km, active, r, c, cur, prev, now, t_last).state == (
        ButtonState {
            pressed: cur,
            t_change: now,
            pressed_layer: fallback_layer(km, active, r, c) as usize,
        }),
        cur == prev.pressed ==> cell_step(km, active, r, c, cur, prev, now, t_last).state == (
        ButtonState { pressed: cur, t_change: prev.t_change, pressed_layer: prev.pressed_layer }),
{
}

/// Layer lock: a held cell whose locked layer no longer matches the layer
/// it would resolve through contributes nothing at all this cycle — its
/// binding is frozen from the press instant, never remapped mid-hold —
/// and it keeps its lock and edge time.
pub proof fn lemma_layer_lock_frozen(
    km: KeyMap,
    active: int,
    r: int,
    c: int,
    prev: ButtonState,
    now: u64,
    t_last: u64,
)
    requires
        prev.pressed,
        prev.pressed_layer as int != fallback_layer(km, active, r, c),
    ensures
        ({
            let step = cell_step(km, active, r, c, true, prev, now, t_last);
            &&& step.state == prev
            &&& step.holds == Seq::<u8>::empty()
            &&& step.presses == Seq::<u8>::empty()
            &&& step.shots == Seq::<Seq<u8>>::empty()
            &&& step.t_last == t_last
        }),
{
}

/// A held cell that still resolves through its locked layer is read from
/// that layer and no other: its whole outcome is fixed by the binding at
/// the lock, not by the active layer that may have shifted since.
pub proof fn lemma_held_cell_reads_locked_binding(
    km: KeyMap,
    active1: int,
    active2: int,
    r: int,
    c: int,
    prev: ButtonState,
    now: u64,
    t_last: u64,
)
    requires
        prev.pressed,
        fallback_layer(km, active1, r, c) == prev.pressed_layer as int,
        fallback_layer(km, active2, r, c) == prev.pressed_layer as int,
    ensures
        cell_step(km, active1, r, c, true, prev, now, t_last) == cell_step(
            km,
            active2,
            r,
            c,
            true,
            prev,
            now,
            t_last,
        ),
{
}

/// Combo: on the rising edge the cell fires exactly one standalone batch
/// holding the two codes, and nothing else.
pub proof fn lemma_combo_rising_edge(
    km: KeyMap,
    active: int,
    r: int,
    c: int,
    prev: ButtonState,
    now: u64,
    t_last: u64,
    k1: u8,
    k2: u8,
)
    requires
        !prev.pressed,
        0 <= fallback_layer(km, active, r, c) < km.n_layers(),
        km.binding(fallback_layer(km, active, r, c), r, c) == Key::Combo(k1, k2),
    ensures
        ({
            let step = cell_step(km, active, r, c, true, prev, now, t_last);
            &&& step.shots == seq![seq![k1, k2]]
            &&& step.holds == Seq::<u8>::empty()
            &&& step.presses == Seq::<u8>::empty()
            &&& step.t_last == now
        }),
{
}

/// Combo: while held past the rising edge, and on release, the cell emits
/// nothing.
pub proof fn lemma_combo_quiet(
    km: KeyMap,
    active: int,
    r: int,
    c: int,
    cur: bool,
    prev: ButtonState,
    now: u64,
    t_last: u64,
    k1: u8,
    k2: u8,
)
    requires
        prev.pressed,
        prev.pressed_layer < km.n_layers(),
        km.binding(prev.pressed_layer as int, r, c) == Key::Combo(k1, k2),
    ensures
        ({
            let step = cell_step(km, active, r, c, cur, prev, now, t_last);
            &&& step.shots == Seq::<Seq<u8>>::empty()
            &&& step.holds == Seq::<u8>::empty()
            &&& step.presses == Seq::<u8>::empty()
            &&& step.t_last == t_last
        }),
{
}

/// Layer lock at the release: a falling edge is read through the layer
/// locked at the press, so what it emits does not depend on the layer
/// active at release time.
pub proof fn lemma_release_resolves_press_layer(
    km: KeyMap,
    active1: int,
    active2: int,
    r: int,
    c: int,
    prev: ButtonState,
    now: u64,
    t_last: u64,
)
    requires
        prev.pressed,
    ensures
        ({
            let s1 = cell_step(km, active1, r, c, false, prev, now, t_last);
            let s2 = cell_step(km, active2, r, c, false, prev, now, t_last);
            &&& s1.holds == s2.holds
            &&& s1.presses == s2.presses
            &&& s1.shots == s2.shots
            &&& s1.t_last == s2.t_last
        }),
{
}


/// A batch that is the pair of some combo cell standing on a rising edge
/// of this cycle.
pub open spec fn shot_from_combo(
    km: KeyMap,
    g: Seq<Seq<bool>>,
    states: Seq<Seq<ButtonState>>,
    batch: Seq<u8>,
) -> bool {
    exists|r: int, c: int, k1: u8, k2: u8|
        #![auto]
        {
            &&& 0 <= r < 5 && 0 <= c < 12
            &&& g[r][c] && !states[r][c].pressed
            &&& km.binding(fallback_layer(km, active_layer(km, g), r, c), r, c) == Key::Combo(
                k1,
                k2,
            )
            &&& batch == seq![k1, k2]
        }
}

/// The one-shot batches of a cycle come from combos alone: each batch a
/// cycle fires is the pair of some combo cell on its rising edge. Nothing
/// else — holds, taps, steady keys — ever contributes a standalone batch.
pub proof fn lemma_shots_are_combo_edges(
    km: KeyMap,
    g: Seq<Seq<bool>>,
    states: Seq<Seq<ButtonState>>,
    now: u64,
    t_last0: u64,
    k: int,
)
    requires
        0 <= k <= 60,
    ensures
        forall|i: int|
            0 <= i < cycle_upto(km, g, states, now, t_last0, k).shots.len()
                ==> #[trigger] shot_from_combo(
                km,
                g,
                states,
                cycle_upto(km, g, states, now, t_last0, k).shots[i],
            ),
    decreases k,
{
    if k > 0 {
        lemma_shots_are_combo_edges(km, g, states, now, t_last0, k - 1);
        let sofar = cycle_upto(km, g, states, now, t_last0, k - 1);
        let out = cycle_upto(km, g, states, now, t_last0, k);
        let r = (k - 1) / 12;
        let c = (k - 1) % 12;
        assert(0 <= r < 5 && 0 <= c < 12) by (nonlinear_arith)
            requires
                0 < k <= 60,
                r == (k - 1) / 12,
                c == (k - 1) % 12,
        ;
        let a = active_layer(km, g);
        let step = cell_step(km, a, r, c, g[r][c], states[r][c], now, sofar.t_last);
        let used = fallback_layer(km, a, r, c);
        assert forall|i: int| 0 <= i < out.shots.len() implies #[trigger] shot_from_combo(
            km,
            g,
            states,
            out.shots[i],
        ) by {
            if i < sofar.shots.len() {
                assert(out.shots[i] == sofar.shots[i]);
                assert(shot_from_combo(km, g, states, sofar.shots[i]));
            } else {
                assert(step.shots.len() > 0);
                if used < km.n_layers() {
                    match km.binding(used, r, c) {
                        Key::Combo(k1, k2) => {
                            assert(g[r][c] && !states[r][c].pressed);
                            assert(out.shots[i] == seq![k1, k2]);
                        },
                        _ => {
                            assert(false);
                        },
                    }
                } else {
                    assert(false);
                }
            }
        }
    }
}

/// Tap-or-hold, the tap: a release within the window, with no key sent
/// since the press began, is read through the layer locked at the press
/// and emits that binding's click code once in the steady batch — neither
/// the hold code nor any one-shot batch.
pub proof fn lemma_onclick_tap(
    km: KeyMap,
    active: int,
    r: int,
    c: int,
    prev: ButtonState,
    now: u64,
    t_last: u64,
    click: u8,
    hold: u8,
    window: u64,
)
    requires
        prev.pressed,
        prev.pressed_layer < km.n_layers(),
        km.binding(prev.pressed_layer as int, r, c) == Key::OnClick(click, hold, window),
        prev.t_change <= now,
        now - prev.t_change < window * 1000,
        prev.t_change >= t_last,
    ensures
        ({
            let step = cell_step(km, active, r, c, false, prev, now, t_last);
            &&& step.presses == seq![click]
            &&& step.holds == Seq::<u8>::empty()
            &&& step.shots == Seq::<Seq<u8>>::empty()
            &&& step.t_last == now
        }),
{
}

/// Tap-or-hold, the hold: while the cell is down its hold code joins the
/// hold set every cycle and the click code is never emitted.
pub proof fn lemma_onclick_hold(
    km: KeyMap,
    active: int,
    r: int,
    c: int,
    prev: ButtonState,
    now: u64,
    t_last: u64,
    click: u8,
    hold: u8,
    window: u64,
)
    requires
        0 <= fallback_layer(km, active, r, c) < km.n_layers(),
        km.binding(fallback_layer(km, active, r, c), r, c) == Key::OnClick(click, hold, window),
        !prev.pressed || prev.pressed_layer as int == fallback_layer(km, active, r, c),
    ensures
        ({
            let step = cell_step(km, active, r, c, true, prev, now, t_last);
            &&& step.holds == seq![hold]
            &&& step.presses == Seq::<u8>::empty()
            &&& step.shots == Seq::<Seq<u8>>::empty()
            &&& step.t_last == t_last
        }),
{
}

/// Tap-or-hold, the vetoes: a release past the window, or one that comes
/// after some other key fired since this press began, emits nothing.
pub proof fn lemma_onclick_no_tap(
    km: KeyMap,
    active: int,
    r: int,
    c: int,
    prev: ButtonState,
    now: u64,
    t_last: u64,
    click: u8,
    hold: u8,
    window: u64,
)
    requires
        prev.pressed,
        prev.pressed_layer < km.n_layers(),
        km.binding(prev.pressed_layer as int, r, c) == Key::OnClick(click, hold, window),
        prev.t_change <= now,
        now - prev.t_change >= window * 1000 || prev.t_change < t_last,
    ensures
        ({
            let step = cell_step(km, active, r, c, false, prev, now, t_last);
            &&& step.presses == Seq::<u8>::empty()
            &&& step.holds == Seq::<u8>::empty()
            &&& step.shots == Seq::<Seq<u8>>::empty()
            &&& step.t_last == t_last
        }),
{
}

} // verus!
