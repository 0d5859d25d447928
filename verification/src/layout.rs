//! Key bindings and the compiled key map.
//!
//! A key map is a stack of layers, each a 5x12 table of bindings, one per
//! logical-grid cell. Keycodes are HID keyboard usage IDs carried as plain
//! bytes; the report emitter turns them into its own keycode type at the
//! boundary.

use vstd::prelude::*;

verus! {

pub const KEY_A: u8 = 0x04;

pub const KEY_B: u8 = 0x05;

pub const KEY_C: u8 = 0x06;

pub const KEY_D: u8 = 0x07;

pub const KEY_E: u8 = 0x08;

pub const KEY_F: u8 = 0x09;

pub const KEY_G: u8 = 0x0A;

pub const KEY_H: u8 = 0x0B;

pub const KEY_I: u8 = 0x0C;

pub const KEY_J: u8 = 0x0D;

pub const KEY_K: u8 = 0x0E;

pub const KEY_L: u8 = 0x0F;

pub const KEY_M: u8 = 0x10;

pub const KEY_N: u8 = 0x11;

pub const KEY_O: u8 = 0x12;

pub const KEY_P: u8 = 0x13;

pub const KEY_Q: u8 = 0x14;

pub const KEY_R: u8 = 0x15;

pub const KEY_S: u8 = 0x16;

pub const KEY_T: u8 = 0x17;

pub const KEY_U: u8 = 0x18;

pub const KEY_V: u8 = 0x19;

pub const KEY_W: u8 = 0x1A;

pub const KEY_X: u8 = 0x1B;

pub const KEY_Y: u8 = 0x1C;

pub const KEY_Z: u8 = 0x1D;

pub const KEY_1: u8 = 0x1E;

pub const KEY_2: u8 = 0x1F;

pub const KEY_3: u8 = 0x20;

pub const KEY_4: u8 = 0x21;

pub const KEY_5: u8 = 0x22;

pub const KEY_6: u8 = 0x23;

pub const KEY_7: u8 = 0x24;

pub const KEY_8: u8 = 0x25;

pub const KEY_9: u8 = 0x26;

pub const KEY_0: u8 = 0x27;

pub const KEY_RETURN_ENTER: u8 = 0x28;

pub const KEY_ESCAPE: u8 = 0x29;

pub const KEY_DELETE_BACKSPACE: u8 = 0x2A;

pub const KEY_TAB: u8 = 0x2B;

pub const KEY_SPACE: u8 = 0x2C;

pub const KEY_MINUS: u8 = 0x2D;

pub const KEY_EQUAL: u8 = 0x2E;

pub const KEY_LEFT_BRACE: u8 = 0x2F;

pub const KEY_RIGHT_BRACE: u8 = 0x30;

pub const KEY_BACKSLASH: u8 = 0x31;

pub const KEY_SEMICOLON: u8 = 0x33;

pub const KEY_APOSTROPHE: u8 = 0x34;

pub const KEY_GRAVE: u8 = 0x35;

pub const KEY_COMMA: u8 = 0x36;

pub const KEY_DOT: u8 = 0x37;

pub const KEY_FORWARD_SLASH: u8 = 0x38;

pub const KEY_F1: u8 = 0x3A;

pub const KEY_F2: u8 = 0x3B;

pub const KEY_F3: u8 = 0x3C;

pub const KEY_F4: u8 = 0x3D;

pub const KEY_F5: u8 = 0x3E;

pub const KEY_F6: u8 = 0x3F;

pub const KEY_F7: u8 = 0x40;

pub const KEY_F8: u8 = 0x41;

pub const KEY_F9: u8 = 0x42;

pub const KEY_F10: u8 = 0x43;

pub const KEY_F11: u8 = 0x44;

pub const KEY_F12: u8 = 0x45;

pub const KEY_PRINT_SCREEN: u8 = 0x46;

pub const KEY_HOME: u8 = 0x4A;

pub const KEY_PAGE_UP: u8 = 0x4B;

pub const KEY_END: u8 = 0x4D;

pub const KEY_PAGE_DOWN: u8 = 0x4E;

pub const KEY_RIGHT_ARROW: u8 = 0x4F;

pub const KEY_LEFT_ARROW: u8 = 0x50;

pub const KEY_DOWN_ARROW: u8 = 0x51;

pub const KEY_UP_ARROW: u8 = 0x52;

pub const KEY_KEYPAD_SUBTRACT: u8 = 0x56;

pub const KEY_KEYPAD_ADD: u8 = 0x57;

pub const KEY_LEFT_CONTROL: u8 = 0xE0;

pub const KEY_LEFT_SHIFT: u8 = 0xE1;

pub const KEY_LEFT_ALT: u8 = 0xE2;

pub const KEY_LEFT_GUI: u8 = 0xE3;

pub const KEY_RIGHT_SHIFT: u8 = 0xE5;

pub const KEY_RIGHT_ALT: u8 = 0xE6;

/// The placeholder keycode a misconfigured cell degrades to when its
/// resolved layer lies past the defined layers.
pub const PLACEHOLDER_KEY: u8 = 0x14;

/// One cell's binding on one layer.
#[derive(Clone, Copy, PartialEq, Eq, Structural)]
pub enum Key {
    /// Ordinary key: its code is emitted every cycle while the cell is down.
    Press(u8),
    /// While held, adds its amount to the active-layer accumulator.
    LayerChange(u8),
    /// Tap-or-hold: the hold code joins the hold set while down; the click
    /// code is emitted on a release within the window (in milliseconds)
    /// when no other key fired since the press began.
    OnClick(u8, u8, u64),
    /// On the rising edge only, emits a standalone batch of its two codes.
    Combo(u8, u8),
    /// While held, adds its code to the modifier-hold set.
    Hold(u8),
    /// No binding here: resolution falls through to the next lower layer.
    Drop,
    /// A binding that intentionally does nothing.
    Empty,
}

/// The compiled key map: at least one layer, each 5 rows of 12 bindings.
pub struct KeyMap {
    pub layers: Vec<Vec<Vec<Key>>>,
}

impl KeyMap {
    /// Shape invariant: one or more layers, each 5x12.
    pub open spec fn wf(&self) -> bool {
        &&& self.layers@.len() >= 1
        &&& forall|l: int|
            0 <= l < self.layers@.len() ==> (#[trigger] self.layers@[l])@.len() == 5
        &&& forall|l: int, r: int|
            0 <= l < self.layers@.len() && 0 <= r < 5 ==> (#[trigger] self.layers@[l]@[r])@.len()
                == 12
    }

    /// How many layers are defined.
    pub open spec fn n_layers(&self) -> int {
        self.layers@.len() as int
    }

    /// The binding of cell `(r, c)` on layer `l`.
    pub open spec fn binding(&self, l: int, r: int, c: int) -> Key {
        self.layers@[l]@[r]@[c]
    }
}

// In the tables below: PR = Press, CB = Combo; the shifted symbols of the
// number row are combos with the left shift modifier.
fn default_layer0() -> (rows: Vec<Vec<Key>>)
    ensures
        rows@.len() == 5,
        forall|r: int| 0 <= r < 5 ==> (#[trigger] rows@[r])@.len() == 12,
        rows@[1]@[0] == Key::OnClick(KEY_ESCAPE, KEY_LEFT_SHIFT, 150),
        rows@[3]@[4] == Key::LayerChange(2),
        rows@[3]@[7] == Key::LayerChange(1),
{
    let r0: Vec<Key> = vec![
        Key::Empty, Key::Press(KEY_Q), Key::Press(KEY_W), Key::Press(KEY_F), Key::Press(KEY_P),
        Key::Press(KEY_G), Key::Press(KEY_J), Key::Press(KEY_L), Key::Press(KEY_U),
        Key::Press(KEY_Y), Key::Press(KEY_SEMICOLON), Key::Press(KEY_DELETE_BACKSPACE),
    ];
    let r1: Vec<Key> = vec![
        Key::OnClick(KEY_ESCAPE, KEY_LEFT_SHIFT, 150), Key::Press(KEY_A), Key::Press(KEY_R),
        Key::Press(KEY_S), Key::Press(KEY_T), Key::Press(KEY_D), Key::Press(KEY_H),
        Key::Press(KEY_N), Key::Press(KEY_E), Key::Press(KEY_I), Key::Press(KEY_O),
        Key::Press(KEY_APOSTROPHE),
    ];
    let r2: Vec<Key> = vec![
        Key::Hold(KEY_LEFT_CONTROL), Key::Press(KEY_Z), Key::Press(KEY_X), Key::Press(KEY_C),
        Key::Press(KEY_V), Key::Press(KEY_B), Key::Press(KEY_K), Key::Press(KEY_M),
        Key::Press(KEY_COMMA), Key::Press(KEY_DOT), Key::Press(KEY_FORWARD_SLASH),
        Key::Press(KEY_RETURN_ENTER),
    ];
    let r3: Vec<Key> = vec![
        Key::Empty, Key::Empty, Key::Empty, Key::Empty, Key::LayerChange(2),
        Key::Press(KEY_SPACE), Key::Hold(KEY_RIGHT_SHIFT), Key::LayerChange(1), Key::Empty,
        Key::Empty, Key::Empty, Key::Empty,
    ];
    let r4: Vec<Key> = vec![
        Key::Empty, Key::Empty, Key::Empty, Key::Empty, Key::Empty, Key::Hold(KEY_LEFT_GUI),
        Key::Hold(KEY_LEFT_ALT), Key::Empty, Key::Empty, Key::Empty, Key::Empty, Key::Empty,
    ];
    vec![r0, r1, r2, r3, r4]
}

fn default_layer1() -> (rows: Vec<Vec<Key>>)
    ensures
        rows@.len() == 5,
        forall|r: int| 0 <= r < 5 ==> (#[trigger] rows@[r])@.len() == 12,
        rows@[3]@[4] == Key::Drop,
        rows@[3]@[7] == Key::Drop,
{
    let r0: Vec<Key> = vec![
        Key::Drop, Key::Combo(KEY_LEFT_SHIFT, KEY_2), Key::Combo(KEY_LEFT_SHIFT, KEY_5),
        Key::Press(KEY_GRAVE), Key::Combo(KEY_LEFT_SHIFT, KEY_3), Key::Press(KEY_LEFT_BRACE),
        Key::Press(KEY_RIGHT_BRACE), Key::Press(KEY_7), Key::Press(KEY_8), Key::Press(KEY_9),
        Key::Press(KEY_KEYPAD_ADD), Key::Drop,
    ];
    let r1: Vec<Key> = vec![
        Key::Combo(KEY_LEFT_SHIFT, KEY_BACKSLASH), Key::Combo(KEY_LEFT_SHIFT, KEY_MINUS),
        Key::Combo(KEY_LEFT_SHIFT, KEY_7), Key::Combo(KEY_LEFT_SHIFT, KEY_8),
        Key::Press(KEY_EQUAL), Key::Combo(KEY_LEFT_SHIFT, KEY_9),
        Key::Combo(KEY_LEFT_SHIFT, KEY_0), Key::Press(KEY_4), Key::Press(KEY_5),
        Key::Press(KEY_6), Key::Press(KEY_0), Key::Drop,
    ];
    let r2: Vec<Key> = vec![
        Key::Drop, Key::Combo(KEY_LEFT_SHIFT, KEY_6), Key::Press(KEY_BACKSLASH),
        Key::Combo(KEY_LEFT_SHIFT, KEY_1), Key::Combo(KEY_LEFT_SHIFT, KEY_4),
        Key::Combo(KEY_LEFT_SHIFT, KEY_LEFT_BRACE), Key::Combo(KEY_LEFT_SHIFT, KEY_RIGHT_BRACE),
        Key::Press(KEY_1), Key::Press(KEY_2), Key::Press(KEY_3), Key::Press(KEY_KEYPAD_SUBTRACT),
        Key::Drop,
    ];
    let r3: Vec<Key> = vec![
        Key::Empty, Key::Empty, Key::Empty, Key::Empty, Key::Drop, Key::Drop, Key::Drop,
        Key::Drop, Key::Empty, Key::Empty, Key::Empty, Key::Empty,
    ];
    let r4: Vec<Key> = vec![
        Key::Empty, Key::Empty, Key::Empty, Key::Empty, Key::Empty, Key::Drop, Key::Drop,
        Key::Empty, Key::Empty, Key::Empty, Key::Empty, Key::Empty,
    ];
    vec![r0, r1, r2, r3, r4]
}

fn default_function_layer(shift_held: bool) -> (rows: Vec<Vec<Key>>)
    ensures
        rows@.len() == 5,
        forall|r: int| 0 <= r < 5 ==> (#[trigger] rows@[r])@.len() == 12,
        rows@[3]@[4] == Key::Drop,
        rows@[3]@[7] == Key::Drop,
{
    let r0: Vec<Key> = vec![
        Key::Drop, Key::Press(KEY_F1), Key::Press(KEY_F2), Key::Press(KEY_F3), Key::Press(KEY_F4),
        Key::Press(KEY_F5), Key::Press(KEY_F10), Key::Press(KEY_F11), Key::Press(KEY_F12),
        Key::Press(KEY_PRINT_SCREEN), Key::Empty, Key::Drop,
    ];
    let shift_cell: Key = if shift_held {
        Key::Hold(KEY_RIGHT_SHIFT)
    } else {
        Key::Press(KEY_RIGHT_SHIFT)
    };
    let r1: Vec<Key> = vec![
        Key::Drop, Key::Combo(KEY_Q, KEY_RIGHT_ALT), Key::Combo(KEY_W, KEY_RIGHT_ALT),
        Key::Combo(KEY_P, KEY_RIGHT_ALT), shift_cell, Key::Press(KEY_F6), Key::Press(KEY_F9),
        Key::Press(KEY_LEFT_ARROW), Key::Press(KEY_DOWN_ARROW), Key::Press(KEY_UP_ARROW),
        Key::Press(KEY_RIGHT_ARROW), Key::Drop,
    ];
    let r2: Vec<Key> = vec![
        Key::Drop, Key::Empty, Key::Combo(KEY_LEFT_CONTROL, KEY_TAB), Key::Press(KEY_TAB),
        Key::Empty, Key::Press(KEY_F7), Key::Press(KEY_F8), Key::Press(KEY_HOME),
        Key::Press(KEY_PAGE_DOWN), Key::Press(KEY_PAGE_UP), Key::Press(KEY_END), Key::Drop,
    ];
    let r3: Vec<Key> = vec![
        Key::Drop, Key::Empty, Key::Empty, Key::Empty, Key::Drop, Key::Drop, Key::Drop, Key::Drop,
        Key::Empty, Key::Empty, Key::Empty, Key::Empty,
    ];
    let r4: Vec<Key> = vec![
        Key::Empty, Key::Empty, Key::Empty, Key::Empty, Key::Empty, Key::Drop, Key::Drop,
        Key::Empty, Key::Empty, Key::Empty, Key::Empty, Key::Empty,
    ];
    vec![r0, r1, r2, r3, r4]
}

/// The key map this keyboard ships with: a base layer, a symbol/number
/// layer, and two function layers (one holding the shift modifier, one
/// pressing it).
pub fn default_keymap() -> (km: KeyMap)
    ensures
        km.wf(),
        km.n_layers() == 4,
        km.binding(0, 1, 0) == Key::OnClick(KEY_ESCAPE, KEY_LEFT_SHIFT, 150),
        km.binding(0, 3, 4) == Key::LayerChange(2),
        km.binding(0, 3, 7) == Key::LayerChange(1),
        forall|l: int| 1 <= l < 4 ==> #[trigger] km.binding(l, 3, 4) == Key::Drop,
        forall|l: int| 1 <= l < 4 ==> #[trigger] km.binding(l, 3, 7) == Key::Drop,
{
    let l0 = default_layer0();
    let l1 = default_layer1();
    let l2 = default_function_layer(true);
    let l3 = default_function_layer(false);
    let km = KeyMap { layers: vec![l0, l1, l2, l3] };
    proof {
        assert forall|l: int| 0 <= l < km.layers@.len() implies (#[trigger] km.layers@[l])@.len()
            == 5 by {
            assert(l == 0 || l == 1 || l == 2 || l == 3);
        }
        assert forall|l: int, r: int|
            0 <= l < km.layers@.len() && 0 <= r < 5 implies (#[trigger] km.layers@[l]@[r])@.len()
            == 12 by {
            assert(l == 0 || l == 1 || l == 2 || l == 3);
        }
    }
    km
}

} // verus!
