//! The mapping between macOS virtual key codes and Windows virtual-key codes.
//!
//! Key events travel over the wire as Windows virtual-key codes. A macOS
//! capture converts before sending, a macOS sink converts back before
//! injecting. Both directions are given by one table; a code outside the table
//! passes through unchanged.

use vstd::prelude::*;

verus! {

/// The Windows virtual-key code that stands for the macOS key code `macos_code`.
pub open spec fn spec_macos_to_windows_vk(macos_code: u32) -> u32 {
    match macos_code {
        0 => 0x41u32,  // A
        1 => 0x53u32,  // S
        2 => 0x44u32,  // D
        3 => 0x46u32,  // F
        4 => 0x48u32,  // H
        5 => 0x47u32,  // G
        6 => 0x5Au32,  // Z
        7 => 0x58u32,  // X
        8 => 0x43u32,  // C
        9 => 0x56u32,  // V
        11 => 0x42u32,  // B
        12 => 0x51u32,  // Q
        13 => 0x57u32,  // W
        14 => 0x45u32,  // E
        15 => 0x52u32,  // R
        16 => 0x59u32,  // Y
        17 => 0x54u32,  // T
        18 => 0x31u32,  // 1
        19 => 0x32u32,  // 2
        20 => 0x33u32,  // 3
        21 => 0x34u32,  // 4
        22 => 0x36u32,  // 6
        23 => 0x35u32,  // 5
        24 => 0xBBu32,  // =
        25 => 0x39u32,  // 9
        26 => 0x37u32,  // 7
        27 => 0xBDu32,  // -
        28 => 0x38u32,  // 8
        29 => 0x30u32,  // 0
        30 => 0xDDu32,  // ]
        31 => 0x4Fu32,  // O
        32 => 0x55u32,  // U
        33 => 0xDBu32,  // [
        34 => 0x49u32,  // I
        35 => 0x50u32,  // P
        36 => 0x0Du32,  // Enter
        37 => 0x4Cu32,  // L
        38 => 0x4Au32,  // J
        39 => 0xDEu32,  // '
        40 => 0x4Bu32,  // K
        41 => 0xBAu32,  // ;
        42 => 0xDCu32,  // \\
        43 => 0xBCu32,  // ,
        44 => 0xBFu32,  // /
        45 => 0x4Eu32,  // N
        46 => 0x4Du32,  // M
        47 => 0xBEu32,  // .
        48 => 0x09u32,  // Tab
        49 => 0x20u32,  // Space
        50 => 0xC0u32,  // `
        51 => 0x08u32,  // Backspace
        53 => 0x1Bu32,  // Escape
        55 => 0x5Bu32,  // Command / Windows key
        56 => 0x10u32,  // Shift
        57 => 0x14u32,  // Caps Lock
        58 => 0x12u32,  // Option / Alt
        59 => 0x11u32,  // Control
        123 => 0x25u32,  // Left
        124 => 0x27u32,  // Right
        125 => 0x28u32,  // Down
        126 => 0x26u32,  // Up
        _ => macos_code,
    }
}

/// The macOS key code that stands for the Windows virtual-key code `win_vk`.
/// A code outside the table is cut to its low 16 bits.
pub open spec fn spec_windows_to_macos_keycode(win_vk: u32) -> u16 {
    match win_vk {
        0x41 => 0u16,  // A
        0x53 => 1u16,  // S
        0x44 => 2u16,  // D
        0x46 => 3u16,  // F
        0x48 => 4u16,  // H
        0x47 => 5u16,  // G
        0x5A => 6u16,  // Z
        0x58 => 7u16,  // X
        0x43 => 8u16,  // C
        0x56 => 9u16,  // V
        0x42 => 11u16,  // B
        0x51 => 12u16,  // Q
        0x57 => 13u16,  // W
        0x45 => 14u16,  // E
        0x52 => 15u16,  // R
        0x59 => 16u16,  // Y
        0x54 => 17u16,  // T
        0x31 => 18u16,  // 1
        0x32 => 19u16,  // 2
        0x33 => 20u16,  // 3
        0x34 => 21u16,  // 4
        0x36 => 22u16,  // 6
        0x35 => 23u16,  // 5
        0xBB => 24u16,  // =
        0x39 => 25u16,  // 9
        0x37 => 26u16,  // 7
        0xBD => 27u16,  // -
        0x38 => 28u16,  // 8
        0x30 => 29u16,  // 0
        0xDD => 30u16,  // ]
        0x4F => 31u16,  // O
        0x55 => 32u16,  // U
        0xDB => 33u16,  // [
        0x49 => 34u16,  // I
        0x50 => 35u16,  // P
        0x0D => 36u16,  // Enter
        0x4C => 37u16,  // L
        0x4A => 38u16,  // J
        0xDE => 39u16,  // '
        0x4B => 40u16,  // K
        0xBA => 41u16,  // ;
        0xDC => 42u16,  // \\
        0xBC => 43u16,  // ,
        0xBF => 44u16,  // /
        0x4E => 45u16,  // N
        0x4D => 46u16,  // M
        0xBE => 47u16,  // .
        0x09 => 48u16,  // Tab
        0x20 => 49u16,  // Space
        0xC0 => 50u16,  // `
        0x08 => 51u16,  // Backspace
        0x1B => 53u16,  // Escape
        0x5B => 55u16,  // Command / Windows key
        0x10 => 56u16,  // Shift
        0x14 => 57u16,  // Caps Lock
        0x12 => 58u16,  // Option / Alt
        0x11 => 59u16,  // Control
        0x25 => 123u16,  // Left
        0x27 => 124u16,  // Right
        0x28 => 125u16,  // Down
        0x26 => 126u16,  // Up
        _ => (win_vk % 0x1_0000) as u16,
    }
}

/// Whether the table has an entry for the macOS key code `macos_code`.
pub open spec fn is_mapped_macos_code(macos_code: u32) -> bool {
    macos_code <= 126 && spec_macos_to_windows_vk(macos_code) != macos_code
}

/// Whether the table has an entry for the Windows virtual-key code `win_vk`.
pub open spec fn is_mapped_windows_vk(win_vk: u32) -> bool {
    exists|c: u32| c <= 126 && is_mapped_macos_code(c) && #[trigger] spec_macos_to_windows_vk(c) == win_vk
}

/// The Windows virtual-key code for a macOS key code.
pub fn macos_to_windows_vk(macos_code: u32) -> (vk: u32)
    ensures
        vk == spec_macos_to_windows_vk(macos_code),
{
    match macos_code {
        0 => 0x41u32,  // A
        1 => 0x53u32,  // S
        2 => 0x44u32,  // D
        3 => 0x46u32,  // F
        4 => 0x48u32,  // H
        5 => 0x47u32,  // G
        6 => 0x5Au32,  // Z
        7 => 0x58u32,  // X
        8 => 0x43u32,  // C
        9 => 0x56u32,  // V
        11 => 0x42u32,  // B
        12 => 0x51u32,  // Q
        13 => 0x57u32,  // W
        14 => 0x45u32,  // E
        15 => 0x52u32,  // R
        16 => 0x59u32,  // Y
        17 => 0x54u32,  // T
        18 => 0x31u32,  // 1
        19 => 0x32u32,  // 2
        20 => 0x33u32,  // 3
        21 => 0x34u32,  // 4
        22 => 0x36u32,  // 6
        23 => 0x35u32,  // 5
        24 => 0xBBu32,  // =
        25 => 0x39u32,  // 9
        26 => 0x37u32,  // 7
        27 => 0xBDu32,  // -
        28 => 0x38u32,  // 8
        29 => 0x30u32,  // 0
        30 => 0xDDu32,  // ]
        31 => 0x4Fu32,  // O
        32 => 0x55u32,  // U
        33 => 0xDBu32,  // [
        34 => 0x49u32,  // I
        35 => 0x50u32,  // P
        36 => 0x0Du32,  // Enter
        37 => 0x4Cu32,  // L
        38 => 0x4Au32,  // J
        39 => 0xDEu32,  // '
        40 => 0x4Bu32,  // K
        41 => 0xBAu32,  // ;
        42 => 0xDCu32,  // \\
        43 => 0xBCu32,  // ,
        44 => 0xBFu32,  // /
        45 => 0x4Eu32,  // N
        46 => 0x4Du32,  // M
        47 => 0xBEu32,  // .
        48 => 0x09u32,  // Tab
        49 => 0x20u32,  // Space
        50 => 0xC0u32,  // `
        51 => 0x08u32,  // Backspace
        53 => 0x1Bu32,  // Escape
        55 => 0x5Bu32,  // Command / Windows key
        56 => 0x10u32,  // Shift
        57 => 0x14u32,  // Caps Lock
        58 => 0x12u32,  // Option / Alt
        59 => 0x11u32,  // Control
        123 => 0x25u32,  // Left
        124 => 0x27u32,  // Right
        125 => 0x28u32,  // Down
        126 => 0x26u32,  // Up
        _ => macos_code,
    }
}

/// The macOS key code for a Windows virtual-key code.
pub fn windows_to_macos_keycode(win_vk: u32) -> (code: u16)
    ensures
        code == spec_windows_to_macos_keycode(win_vk),
{
    match win_vk {
        0x41 => 0u16,  // A
        0x53 => 1u16,  // S
        0x44 => 2u16,  // D
        0x46 => 3u16,  // F
        0x48 => 4u16,  // H
        0x47 => 5u16,  // G
        0x5A => 6u16,  // Z
        0x58 => 7u16,  // X
        0x43 => 8u16,  // C
        0x56 => 9u16,  // V
        0x42 => 11u16,  // B
        0x51 => 12u16,  // Q
        0x57 => 13u16,  // W
        0x45 => 14u16,  // E
        0x52 => 15u16,  // R
        0x59 => 16u16,  // Y
        0x54 => 17u16,  // T
        0x31 => 18u16,  // 1
        0x32 => 19u16,  // 2
        0x33 => 20u16,  // 3
        0x34 => 21u16,  // 4
        0x36 => 22u16,  // 6
        0x35 => 23u16,  // 5
        0xBB => 24u16,  // =
        0x39 => 25u16,  // 9
        0x37 => 26u16,  // 7
        0xBD => 27u16,  // -
        0x38 => 28u16,  // 8
        0x30 => 29u16,  // 0
        0xDD => 30u16,  // ]
        0x4F => 31u16,  // O
        0x55 => 32u16,  // U
        0xDB => 33u16,  // [
        0x49 => 34u16,  // I
        0x50 => 35u16,  // P
        0x0D => 36u16,  // Enter
        0x4C => 37u16,  // L
        0x4A => 38u16,  // J
        0xDE => 39u16,  // '
        0x4B => 40u16,  // K
        0xBA => 41u16,  // ;
        0xDC => 42u16,  // \\
        0xBC => 43u16,  // ,
        0xBF => 44u16,  // /
        0x4E => 45u16,  // N
        0x4D => 46u16,  // M
        0xBE => 47u16,  // .
        0x09 => 48u16,  // Tab
        0x20 => 49u16,  // Space
        0xC0 => 50u16,  // `
        0x08 => 51u16,  // Backspace
        0x1B => 53u16,  // Escape
        0x5B => 55u16,  // Command / Windows key
        0x10 => 56u16,  // Shift
        0x14 => 57u16,  // Caps Lock
        0x12 => 58u16,  // Option / Alt
        0x11 => 59u16,  // Control
        0x25 => 123u16,  // Left
        0x27 => 124u16,  // Right
        0x28 => 125u16,  // Down
        0x26 => 126u16,  // Up
        _ => (win_vk % 0x1_0000) as u16,
    }
}

/// A key of the table comes back unchanged from a conversion to Windows and
/// back to macOS.
pub proof fn lemma_macos_key_round_trip(macos_code: u32)
    requires
        is_mapped_macos_code(macos_code),
    ensures
        spec_windows_to_macos_keycode(spec_macos_to_windows_vk(macos_code)) == macos_code,
{
}

/// A virtual-key code of the table comes back unchanged from a conversion to
/// macOS and back to Windows.
pub proof fn lemma_windows_key_round_trip(win_vk: u32)
    requires
        is_mapped_windows_vk(win_vk),
    ensures
        spec_macos_to_windows_vk(spec_windows_to_macos_keycode(win_vk) as u32) == win_vk,
{
    let c = choose|c: u32| c <= 126 && is_mapped_macos_code(c) && #[trigger] spec_macos_to_windows_vk(c) == win_vk;
    lemma_macos_key_round_trip(c);
}

/// Two different keys of the table never share a Windows virtual-key code.
pub proof fn lemma_macos_to_windows_injective(a: u32, b: u32)
    requires
        is_mapped_macos_code(a),
        is_mapped_macos_code(b),
        spec_macos_to_windows_vk(a) == spec_macos_to_windows_vk(b),
    ensures
        a == b,
{
    lemma_macos_key_round_trip(a);
    lemma_macos_key_round_trip(b);
}

} // verus!
