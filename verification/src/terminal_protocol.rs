use vstd::prelude::*;
use vstd::utf8::encode_utf8;
use vstd::string::StrSliceExecFns;

use crate::input::{KeyCode, KeyEvent, KeyModifiers, MouseButton, MouseEventKind};
use crate::text::string_push;

verus! {

/// The escape byte.
pub const ESC: u8 = 0x1b;

pub open spec fn is_ascii_alpha(c: char) -> bool {
    ('a' <= c && c <= 'z') || ('A' <= c && c <= 'Z')
}

/// `char::to_ascii_lowercase`.
pub open spec fn ascii_lower(c: char) -> char {
    if 'A' <= c && c <= 'Z' {
        ((c as u32) + 32) as char
    } else {
        c
    }
}

/// The ASCII digit for `d` (0..=9).
pub open spec fn digit(d: int) -> u8 {
    (48 + d) as u8
}

/// Bytes a char key sends: Ctrl folds a letter to its control byte and `_`
/// (or Shift+`-`) to 0x1f, otherwise the char's UTF-8; Alt prefixes ESC.
pub open spec fn char_key_bytes_spec(c: char, m: KeyModifiers) -> Seq<u8> {
    let base = if m.control && is_ascii_alpha(c) {
        seq![((ascii_lower(c) as u32) - 96) as u8]
    } else if m.control && (c == '_' || (c == '-' && m.shift)) {
        seq![0x1fu8]
    } else {
        encode_utf8(seq![c])
    };
    if m.alt {
        seq![ESC] + base
    } else {
        base
    }
}

/// Enter: `\r` alone, or CSI-u `ESC [ 1 3 ; N u` with Shift/Alt.
pub open spec fn enter_bytes_spec(m: KeyModifiers) -> Seq<u8> {
    if !m.shift && !m.alt {
        seq![13u8]
    } else {
        let code = 1 + (if m.shift { 1int } else { 0 }) + (if m.alt { 2int } else { 0 });
        seq![ESC, 91u8, 49u8, 51u8, 59u8, digit(code), 117u8]
    }
}

/// Cursor keys: `ESC [ F` unmodified, `ESC [ 1 ; N F` with any modifier.
pub open spec fn csi_bytes_spec(final_byte: u8, m: KeyModifiers) -> Seq<u8> {
    if m.is_empty_spec() {
        seq![ESC, 91u8, final_byte]
    } else {
        let code = 1 + (if m.shift { 1int } else { 0 }) + (if m.alt { 2int } else { 0 }) + (if m.control {
            4int
        } else {
            0
        });
        seq![ESC, 91u8, 49u8, 59u8, digit(code), final_byte]
    }
}

/// Function keys F1..F12; any other number sends nothing.
pub open spec fn function_key_spec(n: u8) -> Option<Seq<u8>> {
    if n == 1 {
        Some(seq![ESC, 79u8, 80u8])
    } else if n == 2 {
        Some(seq![ESC, 79u8, 81u8])
    } else if n == 3 {
        Some(seq![ESC, 79u8, 82u8])
    } else if n == 4 {
        Some(seq![ESC, 79u8, 83u8])
    } else if n == 5 {
        Some(seq![ESC, 91u8, 49u8, 53u8, 126u8])
    } else if n == 6 {
        Some(seq![ESC, 91u8, 49u8, 55u8, 126u8])
    } else if n == 7 {
        Some(seq![ESC, 91u8, 49u8, 56u8, 126u8])
    } else if n == 8 {
        Some(seq![ESC, 91u8, 49u8, 57u8, 126u8])
    } else if n == 9 {
        Some(seq![ESC, 91u8, 50u8, 48u8, 126u8])
    } else if n == 10 {
        Some(seq![ESC, 91u8, 50u8, 49u8, 126u8])
    } else if n == 11 {
        Some(seq![ESC, 91u8, 50u8, 51u8, 126u8])
    } else if n == 12 {
        Some(seq![ESC, 91u8, 50u8, 52u8, 126u8])
    } else {
        None
    }
}

/// `r` is `Some` of exactly the bytes `b`.
pub open spec fn sends(r: Option<Vec<u8>>, b: Seq<u8>) -> bool {
    r matches Some(v) && v@ == b
}

/// The bytes a real terminal sends for `key`, `None` for keys it ignores.
pub open spec fn key_bytes_spec(key: KeyEvent) -> Option<Seq<u8>> {
    let m = key.modifiers;
    match key.code {
        KeyCode::Char(c) => Some(char_key_bytes_spec(c, m)),
        KeyCode::Enter => Some(enter_bytes_spec(m)),
        KeyCode::Backspace => Some(if m.alt { seq![ESC, 0x7fu8] } else { seq![0x7fu8] }),
        KeyCode::Tab => Some(seq![9u8]),
        KeyCode::BackTab => Some(seq![ESC, 91u8, 90u8]),
        KeyCode::Esc => Some(seq![ESC]),
        KeyCode::Up => Some(csi_bytes_spec(65u8, m)),
        KeyCode::Down => Some(csi_bytes_spec(66u8, m)),
        KeyCode::Right => Some(csi_bytes_spec(67u8, m)),
        KeyCode::Left => Some(csi_bytes_spec(68u8, m)),
        KeyCode::Home => Some(csi_bytes_spec(72u8, m)),
        KeyCode::End => Some(csi_bytes_spec(70u8, m)),
        KeyCode::PageUp => Some(seq![ESC, 91u8, 53u8, 126u8]),
        KeyCode::PageDown => Some(seq![ESC, 91u8, 54u8, 126u8]),
        KeyCode::Delete => Some(seq![ESC, 91u8, 51u8, 126u8]),
        KeyCode::Insert => Some(seq![ESC, 91u8, 50u8, 126u8]),
        KeyCode::F(n) => function_key_spec(n),
        _ => None,
    }
}

/// The UTF-8 encoding of one char.
pub fn utf8_of_char(c: char) -> (r: Vec<u8>)
    ensures
        r@ == encode_utf8(seq![c]),
{
    let mut s = String::new();
    string_push(&mut s, c);
    assert(s@ == seq![c]);
    s.as_str().as_bytes_vec()
}

/// Encodes a char key with its modifiers.
pub fn char_key_bytes(c: char, modifiers: KeyModifiers) -> (r: Vec<u8>)
    ensures
        r@ == char_key_bytes_spec(c, modifiers),
{
    let ctrl = modifiers.control;
    let shift = modifiers.shift;
    let alt = modifiers.alt;
    let lower = if 'A' <= c && c <= 'Z' {
        ((c as u8) + 32) as char
    } else {
        c
    };
    let mut bytes = if ctrl && 'a' <= lower && lower <= 'z' {
        vec![(lower as u8) - 96]
    } else if ctrl && (c == '_' || (c == '-' && shift)) {
        vec![0x1f]
    } else {
        utf8_of_char(c)
    };
    if alt {
        bytes.insert(0, ESC);
    }
    bytes
}

/// Plain Enter is `\r`; Shift/Alt/Shift+Alt Enter use CSI-u with code 13.
pub fn modified_enter_bytes(modifiers: KeyModifiers) -> (r: Vec<u8>)
    ensures
        r@ == enter_bytes_spec(modifiers),
{
    let shift = modifiers.shift;
    let alt = modifiers.alt;
    if !shift && !alt {
        return vec![13];
    }
    let code: u8 = 1 + (if shift { 1u8 } else { 0 }) + (if alt { 2u8 } else { 0 });
    vec![ESC, 91, 49, 51, 59, 48 + code, 117]
}

/// Cursor-movement keys: `CSI <final>` unmodified, `CSI 1;<code><final>` otherwise.
pub fn modified_csi_bytes(final_byte: u8, modifiers: KeyModifiers) -> (r: Vec<u8>)
    ensures
        r@ == csi_bytes_spec(final_byte, modifiers),
{
    if modifiers.is_empty() {
        return vec![ESC, 91, final_byte];
    }
    let code: u8 = 1 + (if modifiers.shift { 1u8 } else { 0 }) + (if modifiers.alt { 2u8 } else { 0 }) + (
    if modifiers.control {
        4u8
    } else {
        0
    });
    vec![ESC, 91, 49, 59, 48 + code, final_byte]
}

/// F1..F12 escape sequences; `None` beyond that range.
pub fn function_key_bytes(n: u8) -> (r: Option<Vec<u8>>)
    ensures
        match function_key_spec(n) {
            Some(b) => r is Some && r->0@ == b,
            None => r is None,
        },
{
    match n {
        1 => Some(vec![ESC, 79, 80]),
        2 => Some(vec![ESC, 79, 81]),
        3 => Some(vec![ESC, 79, 82]),
        4 => Some(vec![ESC, 79, 83]),
        5 => Some(vec![ESC, 91, 49, 53, 126]),
        6 => Some(vec![ESC, 91, 49, 55, 126]),
        7 => Some(vec![ESC, 91, 49, 56, 126]),
        8 => Some(vec![ESC, 91, 49, 57, 126]),
        9 => Some(vec![ESC, 91, 50, 48, 126]),
        10 => Some(vec![ESC, 91, 50, 49, 126]),
        11 => Some(vec![ESC, 91, 50, 51, 126]),
        12 => Some(vec![ESC, 91, 50, 52, 126]),
        _ => None,
    }
}

/// Translates a key press into the bytes a real terminal would send.
pub fn key_to_bytes(key: &KeyEvent) -> (r: Option<Vec<u8>>)
    ensures
        match key_bytes_spec(*key) {
            Some(b) => r is Some && r->0@ == b,
            None => r is None,
        },
        key.code == KeyCode::PageUp ==> sends(r, seq![0x1bu8, 0x5bu8, 0x35u8, 0x7eu8]),
        key.code == KeyCode::PageDown ==> sends(r, seq![0x1bu8, 0x5bu8, 0x36u8, 0x7eu8]),
        key.code == KeyCode::Delete ==> sends(r, seq![0x1bu8, 0x5bu8, 0x33u8, 0x7eu8]),
        key.code == KeyCode::Insert ==> sends(r, seq![0x1bu8, 0x5bu8, 0x32u8, 0x7eu8]),
        key.code == KeyCode::Tab ==> sends(r, seq![0x09u8]),
        key.code == KeyCode::BackTab ==> sends(r, seq![0x1bu8, 0x5bu8, 0x5au8]),
        key.code == KeyCode::Esc ==> sends(r, seq![0x1bu8]),
        key.code == KeyCode::Backspace ==> sends(r, if key.modifiers.alt {
            seq![0x1bu8, 0x7fu8]
        } else {
            seq![0x7fu8]
        }),
        key.code == KeyCode::Enter && !key.modifiers.shift && !key.modifiers.alt ==> sends(r, seq![0x0du8]),
        key.code == KeyCode::Enter && key.modifiers.shift && !key.modifiers.alt ==> sends(
            r,
            seq![0x1bu8, 0x5bu8, 0x31u8, 0x33u8, 0x3bu8, 0x32u8, 0x75u8],
        ),
        key.code == KeyCode::Enter && !key.modifiers.shift && key.modifiers.alt ==> sends(
            r,
            seq![0x1bu8, 0x5bu8, 0x31u8, 0x33u8, 0x3bu8, 0x33u8, 0x75u8],
        ),
        key.code == KeyCode::Enter && key.modifiers.shift && key.modifiers.alt ==> sends(
            r,
            seq![0x1bu8, 0x5bu8, 0x31u8, 0x33u8, 0x3bu8, 0x34u8, 0x75u8],
        ),
        key.modifiers.is_empty_spec() && key.code == KeyCode::Up ==> sends(r, seq![0x1bu8, 0x5bu8, 0x41u8]),
        key.modifiers.is_empty_spec() && key.code == KeyCode::Down ==> sends(r, seq![0x1bu8, 0x5bu8, 0x42u8]),
        key.modifiers.is_empty_spec() && key.code == KeyCode::Right ==> sends(r, seq![0x1bu8, 0x5bu8, 0x43u8]),
        key.modifiers.is_empty_spec() && key.code == KeyCode::Left ==> sends(r, seq![0x1bu8, 0x5bu8, 0x44u8]),
        key.modifiers.is_empty_spec() && key.code == KeyCode::Home ==> sends(r, seq![0x1bu8, 0x5bu8, 0x48u8]),
        key.modifiers.is_empty_spec() && key.code == KeyCode::End ==> sends(r, seq![0x1bu8, 0x5bu8, 0x46u8]),
        key.modifiers.control && !key.modifiers.shift && !key.modifiers.alt && key.code == KeyCode::Up ==> sends(
            r,
            seq![0x1bu8, 0x5bu8, 0x31u8, 0x3bu8, 0x35u8, 0x41u8],
        ),
        key.modifiers.shift && !key.modifiers.control && !key.modifiers.alt && key.code == KeyCode::Right
            ==> sends(r, seq![0x1bu8, 0x5bu8, 0x31u8, 0x3bu8, 0x32u8, 0x43u8]),
        key.code == KeyCode::F(1) ==> sends(r, seq![0x1bu8, 0x4fu8, 0x50u8]),
        key.code == KeyCode::F(2) ==> sends(r, seq![0x1bu8, 0x4fu8, 0x51u8]),
        key.code == KeyCode::F(3) ==> sends(r, seq![0x1bu8, 0x4fu8, 0x52u8]),
        key.code == KeyCode::F(4) ==> sends(r, seq![0x1bu8, 0x4fu8, 0x53u8]),
        key.code == KeyCode::F(5) ==> sends(r, seq![0x1bu8, 0x5bu8, 0x31u8, 0x35u8, 0x7eu8]),
        key.code == KeyCode::F(6) ==> sends(r, seq![0x1bu8, 0x5bu8, 0x31u8, 0x37u8, 0x7eu8]),
        key.code == KeyCode::F(7) ==> sends(r, seq![0x1bu8, 0x5bu8, 0x31u8, 0x38u8, 0x7eu8]),
        key.code == KeyCode::F(8) ==> sends(r, seq![0x1bu8, 0x5bu8, 0x31u8, 0x39u8, 0x7eu8]),
        key.code == KeyCode::F(9) ==> sends(r, seq![0x1bu8, 0x5bu8, 0x32u8, 0x30u8, 0x7eu8]),
        key.code == KeyCode::F(10) ==> sends(r, seq![0x1bu8, 0x5bu8, 0x32u8, 0x31u8, 0x7eu8]),
        key.code == KeyCode::F(11) ==> sends(r, seq![0x1bu8, 0x5bu8, 0x32u8, 0x33u8, 0x7eu8]),
        key.code == KeyCode::F(12) ==> sends(r, seq![0x1bu8, 0x5bu8, 0x32u8, 0x34u8, 0x7eu8]),
        (key.code matches KeyCode::F(n) && (n == 0 || n > 12)) ==> r is None,
        (key.code matches KeyCode::Char(c) && !key.modifiers.control && !key.modifiers.alt) ==> sends(
            r,
            encode_utf8(seq![key.code->Char_0]),
        ),
        key.code is Char && key.modifiers.control && !key.modifiers.alt && 'a' <= key.code->Char_0 <= 'z'
            ==> sends(r, seq![((key.code->Char_0 as u32) - 96) as u8]),
        key.code is Char && key.modifiers.control && !key.modifiers.alt && 'A' <= key.code->Char_0 <= 'Z'
            ==> sends(r, seq![((key.code->Char_0 as u32) - 64) as u8]),
        (key.code matches KeyCode::Char(c) && key.modifiers.alt && !key.modifiers.control) ==> sends(
            r,
            seq![0x1bu8] + encode_utf8(seq![key.code->Char_0]),
        ),
        key.code == KeyCode::Null || key.code == KeyCode::CapsLock || key.code == KeyCode::Menu ==> r is None,
{
    let m = key.modifiers;
    match key.code {
        KeyCode::Char(c) => Some(char_key_bytes(c, m)),
        KeyCode::Enter => Some(modified_enter_bytes(m)),
        KeyCode::Backspace => {
            if m.alt {
                Some(vec![ESC, 0x7f])
            } else {
                Some(vec![0x7f])
            }
        },
        KeyCode::Tab => Some(vec![9]),
        KeyCode::BackTab => Some(vec![ESC, 91, 90]),
        KeyCode::Esc => Some(vec![ESC]),
        KeyCode::Up => Some(modified_csi_bytes(65, m)),
        KeyCode::Down => Some(modified_csi_bytes(66, m)),
        KeyCode::Right => Some(modified_csi_bytes(67, m)),
        KeyCode::Left => Some(modified_csi_bytes(68, m)),
        KeyCode::Home => Some(modified_csi_bytes(72, m)),
        KeyCode::End => Some(modified_csi_bytes(70, m)),
        KeyCode::PageUp => Some(vec![ESC, 91, 53, 126]),
        KeyCode::PageDown => Some(vec![ESC, 91, 54, 126]),
        KeyCode::Delete => Some(vec![ESC, 91, 51, 126]),
        KeyCode::Insert => Some(vec![ESC, 91, 50, 126]),
        KeyCode::F(n) => function_key_bytes(n),
        _ => None,
    }
}

pub open spec fn sgr_button_base(b: MouseButton) -> u8 {
    match b {
        MouseButton::Left => 0u8,
        MouseButton::Middle => 1u8,
        MouseButton::Right => 2u8,
    }
}

/// SGR `(button code, is release)` of a mouse event kind.
pub open spec fn sgr_mouse_button_spec(kind: MouseEventKind) -> (u8, bool) {
    match kind {
        MouseEventKind::Down(b) => (sgr_button_base(b), false),
        MouseEventKind::Drag(b) => ((sgr_button_base(b) + 32) as u8, false),
        MouseEventKind::Up(b) => (sgr_button_base(b), true),
        MouseEventKind::Moved => (35u8, false),
        MouseEventKind::ScrollUp => (64u8, false),
        MouseEventKind::ScrollDown => (65u8, false),
        MouseEventKind::ScrollLeft => (66u8, false),
        MouseEventKind::ScrollRight => (67u8, false),
    }
}

/// Maps a mouse event kind to its SGR button code and release flag: drags
/// add the motion offset 32, hover reports button 3 plus motion, wheel ticks
/// are the pseudo-buttons 64..67.
pub fn sgr_mouse_button(kind: MouseEventKind) -> (r: Option<(u8, bool)>)
    ensures
        r == Some(sgr_mouse_button_spec(kind)),
{
    let base = |b: MouseButton| -> (r: u8)
        ensures
            r == sgr_button_base(b),
        {
            match b {
                MouseButton::Left => 0,
                MouseButton::Middle => 1,
                MouseButton::Right => 2,
            }
        };
    match kind {
        MouseEventKind::Down(b) => Some((base(b), false)),
        MouseEventKind::Drag(b) => Some((base(b) + 32, false)),
        MouseEventKind::Up(b) => Some((base(b), true)),
        MouseEventKind::Moved => Some((3 + 32, false)),
        MouseEventKind::ScrollUp => Some((64, false)),
        MouseEventKind::ScrollDown => Some((65, false)),
        MouseEventKind::ScrollLeft => Some((66, false)),
        MouseEventKind::ScrollRight => Some((67, false)),
    }
}

} // verus!
