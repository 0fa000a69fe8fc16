//! Virtual keycodes of macOS and the PS/2 scancodes that travel between peers.
use vstd::prelude::*;

verus! {

/// The PS/2 scancode of a macOS virtual keycode, and zero for a key that has none.
pub open spec fn mac_scancode(vk: u16) -> u16 {
    match vk {
        0x00 => 0x1E,  // A
        0x01 => 0x1F,  // S
        0x02 => 0x20,  // D
        0x03 => 0x21,  // F
        0x04 => 0x23,  // H
        0x05 => 0x22,  // G
        0x06 => 0x2C,  // Z
        0x07 => 0x2D,  // X
        0x08 => 0x2E,  // C
        0x09 => 0x2F,  // V
        0x0B => 0x30,  // B
        0x0C => 0x10,  // Q
        0x0D => 0x11,  // W
        0x0E => 0x12,  // E
        0x0F => 0x13,  // R
        0x10 => 0x15,  // Y
        0x11 => 0x14,  // T
        0x12 => 0x02,  // 1
        0x13 => 0x03,  // 2
        0x14 => 0x04,  // 3
        0x15 => 0x05,  // 4
        0x16 => 0x07,  // 6
        0x17 => 0x06,  // 5
        0x18 => 0x0D,  // =
        0x19 => 0x0A,  // 9
        0x1A => 0x08,  // 7
        0x1B => 0x0C,  // -
        0x1C => 0x09,  // 8
        0x1D => 0x0B,  // 0
        0x1E => 0x1B,  // ]
        0x1F => 0x18,  // O
        0x20 => 0x16,  // U
        0x21 => 0x1A,  // [
        0x22 => 0x17,  // I
        0x23 => 0x19,  // P
        0x24 => 0x1C,  // Return
        0x25 => 0x26,  // L
        0x26 => 0x24,  // J
        0x27 => 0x28,  // '
        0x28 => 0x25,  // K
        0x29 => 0x27,  // ;
        0x2A => 0x2B,  // backslash
        0x2B => 0x33,  // ,
        0x2C => 0x35,  // /
        0x2D => 0x31,  // N
        0x2E => 0x32,  // M
        0x2F => 0x34,  // .
        0x30 => 0x0F,  // Tab
        0x31 => 0x39,  // Space
        0x32 => 0x29,  // `
        0x33 => 0x0E,  // Backspace
        0x35 => 0x01,  // Escape
        0x37 => 0x15B,  // Command -> Windows/Super
        0x38 => 0x2A,  // Left Shift
        0x39 => 0x3A,  // Caps Lock
        0x3A => 0x38,  // Left Option -> Left Alt
        0x3B => 0x1D,  // Left Control
        0x3C => 0x36,  // Right Shift
        0x3D => 0x138,  // Right Option -> Right Alt
        0x3E => 0x11D,  // Right Control
        0x41 => 0x53,  // Keypad .
        0x43 => 0x37,  // Keypad *
        0x45 => 0x4E,  // Keypad +
        0x47 => 0x45,  // Keypad Clear -> Num Lock
        0x4B => 0x135,  // Keypad /
        0x4C => 0x11C,  // Keypad Enter
        0x4E => 0x4A,  // Keypad -
        0x52 => 0x52,  // Keypad 0
        0x53 => 0x4F,  // Keypad 1
        0x54 => 0x50,  // Keypad 2
        0x55 => 0x51,  // Keypad 3
        0x56 => 0x4B,  // Keypad 4
        0x57 => 0x4C,  // Keypad 5
        0x58 => 0x4D,  // Keypad 6
        0x59 => 0x47,  // Keypad 7
        0x5B => 0x48,  // Keypad 8
        0x5C => 0x49,  // Keypad 9
        0x60 => 0x3F,  // F5
        0x61 => 0x40,  // F6
        0x62 => 0x41,  // F7
        0x63 => 0x3D,  // F3
        0x64 => 0x42,  // F8
        0x65 => 0x43,  // F9
        0x67 => 0x57,  // F11
        0x6D => 0x44,  // F10
        0x6F => 0x58,  // F12
        0x73 => 0x147,  // Home
        0x74 => 0x149,  // Page Up
        0x75 => 0x153,  // Forward Delete
        0x76 => 0x3E,  // F4
        0x77 => 0x14F,  // End
        0x78 => 0x3C,  // F2
        0x79 => 0x151,  // Page Down
        0x7A => 0x3B,  // F1
        0x7B => 0x14B,  // Left Arrow
        0x7C => 0x14D,  // Right Arrow
        0x7D => 0x150,  // Down Arrow
        0x7E => 0x148,  // Up Arrow
        _ => 0,
    }
}

/// Convert macOS virtual keycode to PS/2 scancode (used in our protocol). Zero is no valid
/// scancode: it stands for a key without one.
pub fn mac_vk_to_scancode(vk: u16) -> (r: u16)
    ensures
        r == mac_scancode(vk),
{
    match vk {
        0x00 => 0x1E,
        0x01 => 0x1F,
        0x02 => 0x20,
        0x03 => 0x21,
        0x04 => 0x23,
        0x05 => 0x22,
        0x06 => 0x2C,
        0x07 => 0x2D,
        0x08 => 0x2E,
        0x09 => 0x2F,
        0x0B => 0x30,
        0x0C => 0x10,
        0x0D => 0x11,
        0x0E => 0x12,
        0x0F => 0x13,
        0x10 => 0x15,
        0x11 => 0x14,
        0x12 => 0x02,
        0x13 => 0x03,
        0x14 => 0x04,
        0x15 => 0x05,
        0x16 => 0x07,
        0x17 => 0x06,
        0x18 => 0x0D,
        0x19 => 0x0A,
        0x1A => 0x08,
        0x1B => 0x0C,
        0x1C => 0x09,
        0x1D => 0x0B,
        0x1E => 0x1B,
        0x1F => 0x18,
        0x20 => 0x16,
        0x21 => 0x1A,
        0x22 => 0x17,
        0x23 => 0x19,
        0x24 => 0x1C,
        0x25 => 0x26,
        0x26 => 0x24,
        0x27 => 0x28,
        0x28 => 0x25,
        0x29 => 0x27,
        0x2A => 0x2B,
        0x2B => 0x33,
        0x2C => 0x35,
        0x2D => 0x31,
        0x2E => 0x32,
        0x2F => 0x34,
        0x30 => 0x0F,
        0x31 => 0x39,
        0x32 => 0x29,
        0x33 => 0x0E,
        0x35 => 0x01,
        0x37 => 0x15B,
        0x38 => 0x2A,
        0x39 => 0x3A,
        0x3A => 0x38,
        0x3B => 0x1D,
        0x3C => 0x36,
        0x3D => 0x138,
        0x3E => 0x11D,
        0x41 => 0x53,
        0x43 => 0x37,
        0x45 => 0x4E,
        0x47 => 0x45,
        0x4B => 0x135,
        0x4C => 0x11C,
        0x4E => 0x4A,
        0x52 => 0x52,
        0x53 => 0x4F,
        0x54 => 0x50,
        0x55 => 0x51,
        0x56 => 0x4B,
        0x57 => 0x4C,
        0x58 => 0x4D,
        0x59 => 0x47,
        0x5B => 0x48,
        0x5C => 0x49,
        0x60 => 0x3F,
        0x61 => 0x40,
        0x62 => 0x41,
        0x63 => 0x3D,
        0x64 => 0x42,
        0x65 => 0x43,
        0x67 => 0x57,
        0x6D => 0x44,
        0x6F => 0x58,
        0x73 => 0x147,
        0x74 => 0x149,
        0x75 => 0x153,
        0x76 => 0x3E,
        0x77 => 0x14F,
        0x78 => 0x3C,
        0x79 => 0x151,
        0x7A => 0x3B,
        0x7B => 0x14B,
        0x7C => 0x14D,
        0x7D => 0x150,
        0x7E => 0x148,
        _ => 0,
    }
}

/// Right Shift with an erroneous extended flag, as Windows may send it.
pub const SC_RSHIFT_EXTENDED: u16 = 0x136;

/// The virtual keycode of Right Shift.
pub const VK_RSHIFT: u16 = 0x3C;

/// The macOS virtual keycode of a PS/2 scancode: that of the key that has the scancode.
pub open spec fn mac_vk(sc: u16) -> Option<u16> {
    if sc == SC_RSHIFT_EXTENDED {
        Some(VK_RSHIFT)
    } else if sc != 0 && exists|vk: u16| #[trigger] mac_scancode(vk) == sc {
        Some(choose|vk: u16| #[trigger] mac_scancode(vk) == sc)
    } else {
        None
    }
}

/// Convert PS/2 scancode to macOS virtual keycode (for injection).
pub fn scancode_to_mac_vk(sc: u16) -> (r: Option<u16>)
    ensures
        r == mac_vk(sc),
{
    let r: Option<u16> = match sc {
        0x1E => Some(0x00),
        0x1F => Some(0x01),
        0x20 => Some(0x02),
        0x21 => Some(0x03),
        0x23 => Some(0x04),
        0x22 => Some(0x05),
        0x2C => Some(0x06),
        0x2D => Some(0x07),
        0x2E => Some(0x08),
        0x2F => Some(0x09),
        0x30 => Some(0x0B),
        0x10 => Some(0x0C),
        0x11 => Some(0x0D),
        0x12 => Some(0x0E),
        0x13 => Some(0x0F),
        0x15 => Some(0x10),
        0x14 => Some(0x11),
        0x02 => Some(0x12),
        0x03 => Some(0x13),
        0x04 => Some(0x14),
        0x05 => Some(0x15),
        0x07 => Some(0x16),
        0x06 => Some(0x17),
        0x0D => Some(0x18),
        0x0A => Some(0x19),
        0x08 => Some(0x1A),
        0x0C => Some(0x1B),
        0x09 => Some(0x1C),
        0x0B => Some(0x1D),
        0x1B => Some(0x1E),
        0x18 => Some(0x1F),
        0x16 => Some(0x20),
        0x1A => Some(0x21),
        0x17 => Some(0x22),
        0x19 => Some(0x23),
        0x1C => Some(0x24),
        0x26 => Some(0x25),
        0x24 => Some(0x26),
        0x28 => Some(0x27),
        0x25 => Some(0x28),
        0x27 => Some(0x29),
        0x2B => Some(0x2A),
        0x33 => Some(0x2B),
        0x35 => Some(0x2C),
        0x31 => Some(0x2D),
        0x32 => Some(0x2E),
        0x34 => Some(0x2F),
        0x0F => Some(0x30),
        0x39 => Some(0x31),
        0x29 => Some(0x32),
        0x0E => Some(0x33),
        0x01 => Some(0x35),
        0x15B => Some(0x37),
        0x2A => Some(0x38),
        0x3A => Some(0x39),
        0x38 => Some(0x3A),
        0x1D => Some(0x3B),
        0x36 => Some(0x3C),
        0x136 => Some(0x3C),
        0x138 => Some(0x3D),
        0x11D => Some(0x3E),
        0x53 => Some(0x41),
        0x37 => Some(0x43),
        0x4E => Some(0x45),
        0x45 => Some(0x47),
        0x135 => Some(0x4B),
        0x11C => Some(0x4C),
        0x4A => Some(0x4E),
        0x52 => Some(0x52),
        0x4F => Some(0x53),
        0x50 => Some(0x54),
        0x51 => Some(0x55),
        0x4B => Some(0x56),
        0x4C => Some(0x57),
        0x4D => Some(0x58),
        0x47 => Some(0x59),
        0x48 => Some(0x5B),
        0x49 => Some(0x5C),
        0x3F => Some(0x60),
        0x40 => Some(0x61),
        0x41 => Some(0x62),
        0x3D => Some(0x63),
        0x42 => Some(0x64),
        0x43 => Some(0x65),
        0x57 => Some(0x67),
        0x44 => Some(0x6D),
        0x58 => Some(0x6F),
        0x147 => Some(0x73),
        0x149 => Some(0x74),
        0x153 => Some(0x75),
        0x3E => Some(0x76),
        0x14F => Some(0x77),
        0x3C => Some(0x78),
        0x151 => Some(0x79),
        0x3B => Some(0x7A),
        0x14B => Some(0x7B),
        0x14D => Some(0x7C),
        0x150 => Some(0x7D),
        0x148 => Some(0x7E),
        _ => None,
    };
    proof {
        if let Some(vk) = r {
            if sc != SC_RSHIFT_EXTENDED {
                assert(mac_scancode(vk) == sc);
                lemma_key_round_trip(vk);
            }
        }
    }
    r
}

/// No two keys have the same scancode.
pub proof fn lemma_scancodes_differ(a: u16, b: u16)
    requires
        mac_scancode(a) == mac_scancode(b),
        mac_scancode(a) != 0,
    ensures
        a == b,
{
}

/// A key that has a scancode comes back from it: what is pressed on one Mac is what is injected on
/// another.
pub proof fn lemma_key_round_trip(vk: u16)
    requires
        mac_scancode(vk) != 0,
    ensures
        mac_vk(mac_scancode(vk)) == Some(vk),
{
    let sc = mac_scancode(vk);
    let back = choose|v: u16| #[trigger] mac_scancode(v) == sc;
    lemma_scancodes_differ(vk, back);
}

/// The keys of a row, from left to right, have scancodes that follow one another, and each of those
/// scancodes is that of its key.
pub open spec fn in_a_row(first: u16, keys: Seq<u16>) -> bool {
    forall|i: int|
        0 <= i < keys.len() ==> mac_scancode(#[trigger] keys[i]) == first + i && mac_vk(
            (first + i) as u16,
        ) == Some(keys[i])
}

/// The scancodes of two keys differ by the prefix of the extended keys alone.
pub open spec fn extends(extended: u16, plain: u16) -> bool {
    &&& mac_scancode(plain) != 0
    &&& mac_scancode(extended) == mac_scancode(plain) + 0x100
    &&& mac_vk((mac_scancode(plain) + 0x100) as u16) == Some(extended)
}

/// A key is the same key on a Mac and on a PC: the scancodes count up along the rows of a PC
/// keyboard, and the keys of a Mac, given here by their virtual keycodes, stand in the same rows.
pub proof fn lemma_rows_agree()
    ensures
        // Escape, the digits from 1 to 0, minus, equals and Backspace.
        in_a_row(0x01, seq![0x35, 0x12, 0x13, 0x14, 0x15, 0x17, 0x16, 0x1A, 0x1C, 0x19, 0x1D, 0x1B, 0x18, 0x33]),
        // Tab, Q W E R T Y U I O P, the brackets and Return.
        in_a_row(0x0F, seq![0x30, 0x0C, 0x0D, 0x0E, 0x0F, 0x11, 0x10, 0x20, 0x22, 0x1F, 0x23, 0x21, 0x1E, 0x24]),
        // Left Control, A S D F G H J K L, semicolon, quote and backtick.
        in_a_row(0x1D, seq![0x3B, 0x00, 0x01, 0x02, 0x03, 0x05, 0x04, 0x26, 0x28, 0x25, 0x29, 0x27, 0x32]),
        // Left Shift, backslash, Z X C V B N M, comma, period, slash and Right Shift.
        in_a_row(0x2A, seq![0x38, 0x2A, 0x06, 0x07, 0x08, 0x09, 0x0B, 0x2D, 0x2E, 0x2B, 0x2F, 0x2C, 0x3C]),
        // The asterisk of the keypad, Left Option, Space and Caps Lock.
        in_a_row(0x37, seq![0x43, 0x3A, 0x31, 0x39]),
        // F1 to F10, and Num Lock, which is Clear on a Mac.
        in_a_row(0x3B, seq![0x7A, 0x78, 0x63, 0x76, 0x60, 0x61, 0x62, 0x64, 0x65, 0x6D, 0x47]),
        // The keypad: 7 8 9 minus, 4 5 6 plus, 1 2 3, 0 and the period.
        in_a_row(0x47, seq![0x59, 0x5B, 0x5C, 0x4E, 0x56, 0x57, 0x58, 0x45, 0x53, 0x54, 0x55, 0x52, 0x41]),
        // F11 and F12.
        in_a_row(0x57, seq![0x67, 0x6F]),
        // Command, which is the Windows key of a PC.
        in_a_row(0x15B, seq![0x37]),
{
    lemma_row_digits();
    lemma_row_top_letters();
    lemma_row_home_letters();
    lemma_row_bottom_letters();
    lemma_row_space();
    lemma_row_functions();
    lemma_row_keypad();
    lemma_row_more_functions();
    lemma_row_command();
}

proof fn lemma_row_digits()
    ensures
        in_a_row(0x01, seq![0x35, 0x12, 0x13, 0x14, 0x15, 0x17, 0x16, 0x1A, 0x1C, 0x19, 0x1D, 0x1B, 0x18, 0x33]),
{
    lemma_key_round_trip(0x35);
    lemma_key_round_trip(0x12);
    lemma_key_round_trip(0x13);
    lemma_key_round_trip(0x14);
    lemma_key_round_trip(0x15);
    lemma_key_round_trip(0x17);
    lemma_key_round_trip(0x16);
    lemma_key_round_trip(0x1A);
    lemma_key_round_trip(0x1C);
    lemma_key_round_trip(0x19);
    lemma_key_round_trip(0x1D);
    lemma_key_round_trip(0x1B);
    lemma_key_round_trip(0x18);
    lemma_key_round_trip(0x33);
}

proof fn lemma_row_top_letters()
    ensures
        in_a_row(0x0F, seq![0x30, 0x0C, 0x0D, 0x0E, 0x0F, 0x11, 0x10, 0x20, 0x22, 0x1F, 0x23, 0x21, 0x1E, 0x24]),
{
    lemma_key_round_trip(0x30);
    lemma_key_round_trip(0x0C);
    lemma_key_round_trip(0x0D);
    lemma_key_round_trip(0x0E);
    lemma_key_round_trip(0x0F);
    lemma_key_round_trip(0x11);
    lemma_key_round_trip(0x10);
    lemma_key_round_trip(0x20);
    lemma_key_round_trip(0x22);
    lemma_key_round_trip(0x1F);
    lemma_key_round_trip(0x23);
    lemma_key_round_trip(0x21);
    lemma_key_round_trip(0x1E);
    lemma_key_round_trip(0x24);
}

proof fn lemma_row_home_letters()
    ensures
        in_a_row(0x1D, seq![0x3B, 0x00, 0x01, 0x02, 0x03, 0x05, 0x04, 0x26, 0x28, 0x25, 0x29, 0x27, 0x32]),
{
    lemma_key_round_trip(0x3B);
    lemma_key_round_trip(0x00);
    lemma_key_round_trip(0x01);
    lemma_key_round_trip(0x02);
    lemma_key_round_trip(0x03);
    lemma_key_round_trip(0x05);
    lemma_key_round_trip(0x04);
    lemma_key_round_trip(0x26);
    lemma_key_round_trip(0x28);
    lemma_key_round_trip(0x25);
    lemma_key_round_trip(0x29);
    lemma_key_round_trip(0x27);
    lemma_key_round_trip(0x32);
}

proof fn lemma_row_bottom_letters()
    ensures
        in_a_row(0x2A, seq![0x38, 0x2A, 0x06, 0x07, 0x08, 0x09, 0x0B, 0x2D, 0x2E, 0x2B, 0x2F, 0x2C, 0x3C]),
{
    lemma_key_round_trip(0x38);
    lemma_key_round_trip(0x2A);
    lemma_key_round_trip(0x06);
    lemma_key_round_trip(0x07);
    lemma_key_round_trip(0x08);
    lemma_key_round_trip(0x09);
    lemma_key_round_trip(0x0B);
    lemma_key_round_trip(0x2D);
    lemma_key_round_trip(0x2E);
    lemma_key_round_trip(0x2B);
    lemma_key_round_trip(0x2F);
    lemma_key_round_trip(0x2C);
    lemma_key_round_trip(0x3C);
}

proof fn lemma_row_space()
    ensures
        in_a_row(0x37, seq![0x43, 0x3A, 0x31, 0x39]),
{
    lemma_key_round_trip(0x43);
    lemma_key_round_trip(0x3A);
    lemma_key_round_trip(0x31);
    lemma_key_round_trip(0x39);
}

proof fn lemma_row_functions()
    ensures
        in_a_row(0x3B, seq![0x7A, 0x78, 0x63, 0x76, 0x60, 0x61, 0x62, 0x64, 0x65, 0x6D, 0x47]),
{
    lemma_key_round_trip(0x7A);
    lemma_key_round_trip(0x78);
    lemma_key_round_trip(0x63);
    lemma_key_round_trip(0x76);
    lemma_key_round_trip(0x60);
    lemma_key_round_trip(0x61);
    lemma_key_round_trip(0x62);
    lemma_key_round_trip(0x64);
    lemma_key_round_trip(0x65);
    lemma_key_round_trip(0x6D);
    lemma_key_round_trip(0x47);
}

proof fn lemma_row_keypad()
    ensures
        in_a_row(0x47, seq![0x59, 0x5B, 0x5C, 0x4E, 0x56, 0x57, 0x58, 0x45, 0x53, 0x54, 0x55, 0x52, 0x41]),
{
    lemma_key_round_trip(0x59);
    lemma_key_round_trip(0x5B);
    lemma_key_round_trip(0x5C);
    lemma_key_round_trip(0x4E);
    lemma_key_round_trip(0x56);
    lemma_key_round_trip(0x57);
    lemma_key_round_trip(0x58);
    lemma_key_round_trip(0x45);
    lemma_key_round_trip(0x53);
    lemma_key_round_trip(0x54);
    lemma_key_round_trip(0x55);
    lemma_key_round_trip(0x52);
    lemma_key_round_trip(0x41);
}

proof fn lemma_row_more_functions()
    ensures
        in_a_row(0x57, seq![0x67, 0x6F]),
{
    lemma_key_round_trip(0x67);
    lemma_key_round_trip(0x6F);
}

proof fn lemma_row_command()
    ensures
        in_a_row(0x15B, seq![0x37]),
{
    lemma_key_round_trip(0x37);
}

/// The keys that a PC keyboard has beyond those of the first ones have the scancodes of the keys
/// that they double, with a prefix: the block of the cursor keys those of the keypad, the keys on
/// the right those on the left, and the keys of the keypad those of the main block.
pub proof fn lemma_extended_keys()
    ensures
        // Home, Up and Page Up: 7, 8 and 9 of the keypad.
        extends(0x73, 0x59) && extends(0x7E, 0x5B) && extends(0x74, 0x5C),
        // Left and Right: 4 and 6.
        extends(0x7B, 0x56) && extends(0x7C, 0x58),
        // End, Down and Page Down: 1, 2 and 3.
        extends(0x77, 0x53) && extends(0x7D, 0x54) && extends(0x79, 0x55),
        // Forward Delete: the period of the keypad.
        extends(0x75, 0x41),
        // Enter and the slash of the keypad: Return and the slash.
        extends(0x4C, 0x24) && extends(0x4B, 0x2C),
        // Right Control and Right Option: those on the left.
        extends(0x3E, 0x3B) && extends(0x3D, 0x3A),
        // Right Shift is no extended key, but may come as one.
        mac_vk((mac_scancode(0x3C) + 0x100) as u16) == Some(0x3Cu16),
{
    lemma_key_round_trip(0x73);
    lemma_key_round_trip(0x7E);
    lemma_key_round_trip(0x74);
    lemma_key_round_trip(0x7B);
    lemma_key_round_trip(0x7C);
    lemma_key_round_trip(0x77);
    lemma_key_round_trip(0x7D);
    lemma_key_round_trip(0x79);
    lemma_key_round_trip(0x75);
    lemma_key_round_trip(0x4C);
    lemma_key_round_trip(0x4B);
    lemma_key_round_trip(0x3E);
    lemma_key_round_trip(0x3D);
}

/// A key that a PC keyboard does not have has no scancode, rather than that of another key, and a
/// scancode that no key of a Mac has is injected as none.
pub proof fn lemma_unknown_keys(vk: u16, sc: u16)
    ensures
        vk > 0x7E ==> mac_scancode(vk) == 0,
        mac_scancode(0x0A) == 0 && mac_scancode(0x34) == 0 && mac_scancode(0x36) == 0,
        mac_vk(0) is None,
        0x46 == sc || 0x54 <= sc <= 0x56 || 0x59 <= sc <= 0x11B || sc > 0x15B ==> mac_vk(sc) is None,
        mac_vk(sc) matches Some(key) ==> sc == 0x136 || mac_scancode(key) == sc,
{
}

} // verus!
