//! The embedded terminal's input side: which program runs in it, and the
//! bytes a key press is written to it as.

use vstd::prelude::*;
use crate::keymap::{KeyCode, KeyModifiers, KeyStroke};
use crate::text::{ascii_lower, to_ascii_lowercase};

verus! {

/// The program running inside the overlay.
#[derive(Debug, Clone, Copy, PartialEq, Eq, Structural)]
pub enum PtyKind {
    /// The configured git TUI (lazygit by default).
    LazyGit,
    /// The user's shell in the selected worktree.
    Terminal,
    /// The configured review launcher.
    Review,
    /// An exec profile's command.
    Exec,
}

/// The UTF-8 encoding of `c`.
pub open spec fn utf8_bytes(c: char) -> Seq<u8> {
    let n = c as u32;
    if n < 0x80 {
        seq![n as u8]
    } else if n < 0x800 {
        seq![(0xC0 + n / 64) as u8, (0x80 + n % 64) as u8]
    } else if n < 0x10000 {
        seq![(0xE0 + n / 4096) as u8, (0x80 + (n / 64) % 64) as u8, (0x80 + n % 64) as u8]
    } else {
        seq![
            (0xF0 + n / 262144) as u8,
            (0x80 + (n / 4096) % 64) as u8,
            (0x80 + (n / 64) % 64) as u8,
            (0x80 + n % 64) as u8,
        ]
    }
}

fn encode_utf8(c: char) -> (r: Vec<u8>)
    ensures
        r@ == utf8_bytes(c),
{
    let n = c as u32;
    proof {
        assert(n <= 0x10FFFF);
    }
    let r = if n < 0x80 {
        vec![n as u8]
    } else if n < 0x800 {
        vec![(0xC0 + n / 64) as u8, (0x80 + n % 64) as u8]
    } else if n < 0x10000 {
        vec![(0xE0 + n / 4096) as u8, (0x80 + (n / 64) % 64) as u8, (0x80 + n % 64) as u8]
    } else {
        vec![(0xF0 + n / 262144) as u8, (0x80 + (n / 4096) % 64) as u8, (0x80 + (n / 64) % 64) as u8, (0x80 + n % 64) as u8]
    };
    proof {
        assert(r@ =~= utf8_bytes(c));
    }
    r
}

/// The escape sequence a function key sends (`F1`–`F12`; nothing else).
pub open spec fn f_key_seq(n: u8) -> Seq<u8> {
    if n == 1 {
        seq![27, 79, 80]
    } else if n == 2 {
        seq![27, 79, 81]
    } else if n == 3 {
        seq![27, 79, 82]
    } else if n == 4 {
        seq![27, 79, 83]
    } else if n == 5 {
        seq![27, 91, 49, 53, 126]
    } else if n == 6 {
        seq![27, 91, 49, 55, 126]
    } else if n == 7 {
        seq![27, 91, 49, 56, 126]
    } else if n == 8 {
        seq![27, 91, 49, 57, 126]
    } else if n == 9 {
        seq![27, 91, 50, 48, 126]
    } else if n == 10 {
        seq![27, 91, 50, 49, 126]
    } else if n == 11 {
        seq![27, 91, 50, 51, 126]
    } else if n == 12 {
        seq![27, 91, 50, 52, 126]
    } else {
        Seq::empty()
    }
}

fn f_key_bytes(n: u8) -> (r: Vec<u8>)
    ensures
        r@ == f_key_seq(n),
{
    let r = match n {
        1 => vec![27u8, 79u8, 80u8],
        2 => vec![27u8, 79u8, 81u8],
        3 => vec![27u8, 79u8, 82u8],
        4 => vec![27u8, 79u8, 83u8],
        5 => vec![27u8, 91u8, 49u8, 53u8, 126u8],
        6 => vec![27u8, 91u8, 49u8, 55u8, 126u8],
        7 => vec![27u8, 91u8, 49u8, 56u8, 126u8],
        8 => vec![27u8, 91u8, 49u8, 57u8, 126u8],
        9 => vec![27u8, 91u8, 50u8, 48u8, 126u8],
        10 => vec![27u8, 91u8, 50u8, 49u8, 126u8],
        11 => vec![27u8, 91u8, 50u8, 51u8, 126u8],
        12 => vec![27u8, 91u8, 50u8, 52u8, 126u8],
        _ => Vec::new(),
    };
    proof {
        assert(r@ =~= f_key_seq(n));
    }
    r
}

/// The bytes a key press is sent to the child as: a control letter as its
/// control code (other control chords as nothing), a character as UTF-8
/// (after an escape when Alt is held), the named keys as their VT escape
/// sequences, and nothing for keys without one.
pub open spec fn key_bytes(k: KeyStroke) -> Seq<u8> {
    match k.code {
        KeyCode::Char(c) => if k.modifiers.ctrl {
            let l = ascii_lower(c);
            if 'a' <= l && l <= 'z' {
                seq![((l as u32) - 96) as u8]
            } else {
                Seq::empty()
            }
        } else if k.modifiers.alt {
            seq![27u8] + utf8_bytes(c)
        } else {
            utf8_bytes(c)
        },
        KeyCode::Enter => seq![13],
        KeyCode::Backspace => seq![127],
        KeyCode::Esc => seq![27],
        KeyCode::Tab => seq![9],
        KeyCode::BackTab => seq![27, 91, 90],
        KeyCode::Up => seq![27, 91, 65],
        KeyCode::Down => seq![27, 91, 66],
        KeyCode::Right => seq![27, 91, 67],
        KeyCode::Left => seq![27, 91, 68],
        KeyCode::Home => seq![27, 91, 72],
        KeyCode::End => seq![27, 91, 70],
        KeyCode::Delete => seq![27, 91, 51, 126],
        KeyCode::Insert => seq![27, 91, 50, 126],
        KeyCode::PageUp => seq![27, 91, 53, 126],
        KeyCode::PageDown => seq![27, 91, 54, 126],
        KeyCode::F(n) => f_key_seq(n),
        KeyCode::Other => Seq::empty(),
    }
}

/// Translate a key press into what the child reads.
pub fn key_to_bytes(key: KeyStroke) -> (r: Vec<u8>)
    ensures
        r@ == key_bytes(key),
{
    let r = match key.code {
        KeyCode::Char(c) => {
            if key.modifiers.ctrl {
                let l = to_ascii_lowercase(c);
                if 'a' <= l && l <= 'z' {
                    return vec![((l as u32) - 96) as u8];
                }
                return Vec::new();
            }
            let bytes = encode_utf8(c);
            if key.modifiers.alt {
                let mut out = vec![27u8];
                let mut i: usize = 0;
                while i < bytes.len()
                    invariant
                        i <= bytes@.len(),
                        out@ == seq![27u8] + bytes@.take(i as int),
                    decreases bytes.len() - i,
                {
                    out.push(bytes[i]);
                    proof {
                        assert(bytes@.take(i + 1) =~= bytes@.take(i as int).push(bytes@[i as int]));
                    }
                    i += 1;
                }
                proof {
                    assert(bytes@.take(bytes@.len() as int) =~= bytes@);
                }
                return out;
            }
            bytes
        },
        KeyCode::Enter => vec![13u8],
        KeyCode::Backspace => vec![127u8],
        KeyCode::Esc => vec![27u8],
        KeyCode::Tab => vec![9u8],
        KeyCode::BackTab => vec![27u8, 91u8, 90u8],
        KeyCode::Up => vec![27u8, 91u8, 65u8],
        KeyCode::Down => vec![27u8, 91u8, 66u8],
        KeyCode::Right => vec![27u8, 91u8, 67u8],
        KeyCode::Left => vec![27u8, 91u8, 68u8],
        KeyCode::Home => vec![27u8, 91u8, 72u8],
        KeyCode::End => vec![27u8, 91u8, 70u8],
        KeyCode::Delete => vec![27u8, 91u8, 51u8, 126u8],
        KeyCode::Insert => vec![27u8, 91u8, 50u8, 126u8],
        KeyCode::PageUp => vec![27u8, 91u8, 53u8, 126u8],
        KeyCode::PageDown => vec![27u8, 91u8, 54u8, 126u8],
        KeyCode::F(n) => f_key_bytes(n),
        KeyCode::Other => Vec::new(),
    };
    proof {
        assert(r@ =~= key_bytes(key));
    }
    r
}


/// The key a terminal program reads from a VT byte sequence: the control
/// codes for Enter, Backspace, Esc and Tab, the CSI cursor keys (`ESC [ A`
/// up, `B` down, `C` forward, `D` back), the CSI editing and paging keys,
/// and the SS3 / CSI function keys.
pub open spec fn vt_key(b: Seq<u8>) -> Option<KeyCode> {
    if b == seq![13u8] {
        Some(KeyCode::Enter)
    } else if b == seq![127u8] {
        Some(KeyCode::Backspace)
    } else if b == seq![27u8] {
        Some(KeyCode::Esc)
    } else if b == seq![9u8] {
        Some(KeyCode::Tab)
    } else if b == seq![27u8, 91u8, 90u8] {
        Some(KeyCode::BackTab)
    } else if b == seq![27u8, 91u8, 65u8] {
        Some(KeyCode::Up)
    } else if b == seq![27u8, 91u8, 66u8] {
        Some(KeyCode::Down)
    } else if b == seq![27u8, 91u8, 67u8] {
        Some(KeyCode::Right)
    } else if b == seq![27u8, 91u8, 68u8] {
        Some(KeyCode::Left)
    } else if b == seq![27u8, 91u8, 72u8] {
        Some(KeyCode::Home)
    } else if b == seq![27u8, 91u8, 70u8] {
        Some(KeyCode::End)
    } else if b == seq![27u8, 91u8, 51u8, 126u8] {
        Some(KeyCode::Delete)
    } else if b == seq![27u8, 91u8, 50u8, 126u8] {
        Some(KeyCode::Insert)
    } else if b == seq![27u8, 91u8, 53u8, 126u8] {
        Some(KeyCode::PageUp)
    } else if b == seq![27u8, 91u8, 54u8, 126u8] {
        Some(KeyCode::PageDown)
    } else if b == seq![27u8, 79u8, 80u8] {
        Some(KeyCode::F(1))
    } else if b == seq![27u8, 79u8, 81u8] {
        Some(KeyCode::F(2))
    } else if b == seq![27u8, 79u8, 82u8] {
        Some(KeyCode::F(3))
    } else if b == seq![27u8, 79u8, 83u8] {
        Some(KeyCode::F(4))
    } else if b == seq![27u8, 91u8, 49u8, 53u8, 126u8] {
        Some(KeyCode::F(5))
    } else if b == seq![27u8, 91u8, 49u8, 55u8, 126u8] {
        Some(KeyCode::F(6))
    } else if b == seq![27u8, 91u8, 49u8, 56u8, 126u8] {
        Some(KeyCode::F(7))
    } else if b == seq![27u8, 91u8, 49u8, 57u8, 126u8] {
        Some(KeyCode::F(8))
    } else if b == seq![27u8, 91u8, 50u8, 48u8, 126u8] {
        Some(KeyCode::F(9))
    } else if b == seq![27u8, 91u8, 50u8, 49u8, 126u8] {
        Some(KeyCode::F(10))
    } else if b == seq![27u8, 91u8, 50u8, 51u8, 126u8] {
        Some(KeyCode::F(11))
    } else if b == seq![27u8, 91u8, 50u8, 52u8, 126u8] {
        Some(KeyCode::F(12))
    } else {
        None
    }
}

/// Every named key reaches the program as the VT sequence for that key,
/// whatever modifiers are held: read back, the bytes name the key that
/// was pressed. The cursor keys in particular go as `ESC [ A` (up),
/// `ESC [ B` (down), `ESC [ C` (right) and `ESC [ D` (left).
pub proof fn law_named_keys_read_back(k: KeyStroke)
    requires
        !(k.code is Char),
        k.code != KeyCode::Other,
        k.code matches KeyCode::F(n) ==> 1 <= n <= 12,
    ensures
        vt_key(key_bytes(k)) == Some(k.code),
{
    match k.code {
        KeyCode::Enter => {
            assert(key_bytes(k) =~= seq![13u8]);
        },
        KeyCode::Backspace => {
            assert(seq![127u8][0] != seq![13u8][0]);
            assert(key_bytes(k) =~= seq![127u8]);
        },
        KeyCode::Esc => {
            assert(seq![27u8][0] != seq![13u8][0]);
            assert(seq![27u8][0] != seq![127u8][0]);
            assert(key_bytes(k) =~= seq![27u8]);
        },
        KeyCode::Tab => {
            assert(seq![9u8][0] != seq![13u8][0]);
            assert(seq![9u8][0] != seq![127u8][0]);
            assert(seq![9u8][0] != seq![27u8][0]);
            assert(key_bytes(k) =~= seq![9u8]);
        },
        KeyCode::BackTab => {
            assert(seq![27u8, 91u8, 90u8].len() != seq![13u8].len());
            assert(seq![27u8, 91u8, 90u8].len() != seq![127u8].len());
            assert(seq![27u8, 91u8, 90u8].len() != seq![27u8].len());
            assert(seq![27u8, 91u8, 90u8].len() != seq![9u8].len());
            assert(key_bytes(k) =~= seq![27u8, 91u8, 90u8]);
        },
        KeyCode::Up => {
            assert(seq![27u8, 91u8, 65u8].len() != seq![13u8].len());
            assert(seq![27u8, 91u8, 65u8].len() != seq![127u8].len());
            assert(seq![27u8, 91u8, 65u8].len() != seq![27u8].len());
            assert(seq![27u8, 91u8, 65u8].len() != seq![9u8].len());
            assert(seq![27u8, 91u8, 65u8][2] != seq![27u8, 91u8, 90u8][2]);
            assert(key_bytes(k) =~= seq![27u8, 91u8, 65u8]);
        },
        KeyCode::Down => {
            assert(seq![27u8, 91u8, 66u8].len() != seq![13u8].len());
            assert(seq![27u8, 91u8, 66u8].len() != seq![127u8].len());
            assert(seq![27u8, 91u8, 66u8].len() != seq![27u8].len());
            assert(seq![27u8, 91u8, 66u8].len() != seq![9u8].len());
            assert(seq![27u8, 91u8, 66u8][2] != seq![27u8, 91u8, 90u8][2]);
            assert(seq![27u8, 91u8, 66u8][2] != seq![27u8, 91u8, 65u8][2]);
            assert(key_bytes(k) =~= seq![27u8, 91u8, 66u8]);
        },
        KeyCode::Right => {
            assert(seq![27u8, 91u8, 67u8].len() != seq![13u8].len());
            assert(seq![27u8, 91u8, 67u8].len() != seq![127u8].len());
            assert(seq![27u8, 91u8, 67u8].len() != seq![27u8].len());
            assert(seq![27u8, 91u8, 67u8].len() != seq![9u8].len());
            assert(seq![27u8, 91u8, 67u8][2] != seq![27u8, 91u8, 90u8][2]);
            assert(seq![27u8, 91u8, 67u8][2] != seq![27u8, 91u8, 65u8][2]);
            assert(seq![27u8, 91u8, 67u8][2] != seq![27u8, 91u8, 66u8][2]);
            assert(key_bytes(k) =~= seq![27u8, 91u8, 67u8]);
        },
        KeyCode::Left => {
            assert(seq![27u8, 91u8, 68u8].len() != seq![13u8].len());
            assert(seq![27u8, 91u8, 68u8].len() != seq![127u8].len());
            assert(seq![27u8, 91u8, 68u8].len() != seq![27u8].len());
            assert(seq![27u8, 91u8, 68u8].len() != seq![9u8].len());
            assert(seq![27u8, 91u8, 68u8][2] != seq![27u8, 91u8, 90u8][2]);
            assert(seq![27u8, 91u8, 68u8][2] != seq![27u8, 91u8, 65u8][2]);
            assert(seq![27u8, 91u8, 68u8][2] != seq![27u8, 91u8, 66u8][2]);
            assert(seq![27u8, 91u8, 68u8][2] != seq![27u8, 91u8, 67u8][2]);
            assert(key_bytes(k) =~= seq![27u8, 91u8, 68u8]);
        },
        KeyCode::Home => {
            assert(seq![27u8, 91u8, 72u8].len() != seq![13u8].len());
            assert(seq![27u8, 91u8, 72u8].len() != seq![127u8].len());
            assert(seq![27u8, 91u8, 72u8].len() != seq![27u8].len());
            assert(seq![27u8, 91u8, 72u8].len() != seq![9u8].len());
            assert(seq![27u8, 91u8, 72u8][2] != seq![27u8, 91u8, 90u8][2]);
            assert(seq![27u8, 91u8, 72u8][2] != seq![27u8, 91u8, 65u8][2]);
            assert(seq![27u8, 91u8, 72u8][2] != seq![27u8, 91u8, 66u8][2]);
            assert(seq![27u8, 91u8, 72u8][2] != seq![27u8, 91u8, 67u8][2]);
            assert(seq![27u8, 91u8, 72u8][2] != seq![27u8, 91u8, 68u8][2]);
            assert(key_bytes(k) =~= seq![27u8, 91u8, 72u8]);
        },
        KeyCode::End => {
            assert(seq![27u8, 91u8, 70u8].len() != seq![13u8].len());
            assert(seq![27u8, 91u8, 70u8].len() != seq![127u8].len());
            assert(seq![27u8, 91u8, 70u8].len() != seq![27u8].len());
            assert(seq![27u8, 91u8, 70u8].len() != seq![9u8].len());
            assert(seq![27u8, 91u8, 70u8][2] != seq![27u8, 91u8, 90u8][2]);
            assert(seq![27u8, 91u8, 70u8][2] != seq![27u8, 91u8, 65u8][2]);
            assert(seq![27u8, 91u8, 70u8][2] != seq![27u8, 91u8, 66u8][2]);
            assert(seq![27u8, 91u8, 70u8][2] != seq![27u8, 91u8, 67u8][2]);
            assert(seq![27u8, 91u8, 70u8][2] != seq![27u8, 91u8, 68u8][2]);
            assert(seq![27u8, 91u8, 70u8][2] != seq![27u8, 91u8, 72u8][2]);
            assert(key_bytes(k) =~= seq![27u8, 91u8, 70u8]);
        },
        KeyCode::Delete => {
            assert(seq![27u8, 91u8, 51u8, 126u8].len() != seq![13u8].len());
            assert(seq![27u8, 91u8, 51u8, 126u8].len() != seq![127u8].len());
            assert(seq![27u8, 91u8, 51u8, 126u8].len() != seq![27u8].len());
            assert(seq![27u8, 91u8, 51u8, 126u8].len() != seq![9u8].len());
            assert(seq![27u8, 91u8, 51u8, 126u8].len() != seq![27u8, 91u8, 90u8].len());
            assert(seq![27u8, 91u8, 51u8, 126u8].len() != seq![27u8, 91u8, 65u8].len());
            assert(seq![27u8, 91u8, 51u8, 126u8].len() != seq![27u8, 91u8, 66u8].len());
            assert(seq![27u8, 91u8, 51u8, 126u8].len() != seq![27u8, 91u8, 67u8].len());
            assert(seq![27u8, 91u8, 51u8, 126u8].len() != seq![27u8, 91u8, 68u8].len());
            assert(seq![27u8, 91u8, 51u8, 126u8].len() != seq![27u8, 91u8, 72u8].len());
            assert(seq![27u8, 91u8, 51u8, 126u8].len() != seq![27u8, 91u8, 70u8].len());
            assert(key_bytes(k) =~= seq![27u8, 91u8, 51u8, 126u8]);
        },
        KeyCode::Insert => {
            assert(seq![27u8, 91u8, 50u8, 126u8].len() != seq![13u8].len());
            assert(seq![27u8, 91u8, 50u8, 126u8].len() != seq![127u8].len());
            assert(seq![27u8, 91u8, 50u8, 126u8].len() != seq![27u8].len());
            assert(seq![27u8, 91u8, 50u8, 126u8].len() != seq![9u8].len());
            assert(seq![27u8, 91u8, 50u8, 126u8].len() != seq![27u8, 91u8, 90u8].len());
            assert(seq![27u8, 91u8, 50u8, 126u8].len() != seq![27u8, 91u8, 65u8].len());
            assert(seq![27u8, 91u8, 50u8, 126u8].len() != seq![27u8, 91u8, 66u8].len());
            assert(seq![27u8, 91u8, 50u8, 126u8].len() != seq![27u8, 91u8, 67u8].len());
            assert(seq![27u8, 91u8, 50u8, 126u8].len() != seq![27u8, 91u8, 68u8].len());
            assert(seq![27u8, 91u8, 50u8, 126u8].len() != seq![27u8, 91u8, 72u8].len());
            assert(seq![27u8, 91u8, 50u8, 126u8].len() != seq![27u8, 91u8, 70u8].len());
            assert(seq![27u8, 91u8, 50u8, 126u8][2] != seq![27u8, 91u8, 51u8, 126u8][2]);
            assert(key_bytes(k) =~= seq![27u8, 91u8, 50u8, 126u8]);
        },
        KeyCode::PageUp => {
            assert(seq![27u8, 91u8, 53u8, 126u8].len() != seq![13u8].len());
            assert(seq![27u8, 91u8, 53u8, 126u8].len() != seq![127u8].len());
            assert(seq![27u8, 91u8, 53u8, 126u8].len() != seq![27u8].len());
            assert(seq![27u8, 91u8, 53u8, 126u8].len() != seq![9u8].len());
            assert(seq![27u8, 91u8, 53u8, 126u8].len() != seq![27u8, 91u8, 90u8].len());
            assert(seq![27u8, 91u8, 53u8, 126u8].len() != seq![27u8, 91u8, 65u8].len());
            assert(seq![27u8, 91u8, 53u8, 126u8].len() != seq![27u8, 91u8, 66u8].len());
            assert(seq![27u8, 91u8, 53u8, 126u8].len() != seq![27u8, 91u8, 67u8].len());
            assert(seq![27u8, 91u8, 53u8, 126u8].len() != seq![27u8, 91u8, 68u8].len());
            assert(seq![27u8, 91u8, 53u8, 126u8].len() != seq![27u8, 91u8, 72u8].len());
            assert(seq![27u8, 91u8, 53u8, 126u8].len() != seq![27u8, 91u8, 70u8].len());
            assert(seq![27u8, 91u8, 53u8, 126u8][2] != seq![27u8, 91u8, 51u8, 126u8][2]);
            assert(seq![27u8, 91u8, 53u8, 126u8][2] != seq![27u8, 91u8, 50u8, 126u8][2]);
            assert(key_bytes(k) =~= seq![27u8, 91u8, 53u8, 126u8]);
        },
        KeyCode::PageDown => {
            assert(seq![27u8, 91u8, 54u8, 126u8].len() != seq![13u8].len());
            assert(seq![27u8, 91u8, 54u8, 126u8].len() != seq![127u8].len());
            assert(seq![27u8, 91u8, 54u8, 126u8].len() != seq![27u8].len());
            assert(seq![27u8, 91u8, 54u8, 126u8].len() != seq![9u8].len());
            assert(seq![27u8, 91u8, 54u8, 126u8].len() != seq![27u8, 91u8, 90u8].len());
            assert(seq![27u8, 91u8, 54u8, 126u8].len() != seq![27u8, 91u8, 65u8].len());
            assert(seq![27u8, 91u8, 54u8, 126u8].len() != seq![27u8, 91u8, 66u8].len());
            assert(seq![27u8, 91u8, 54u8, 126u8].len() != seq![27u8, 91u8, 67u8].len());
            assert(seq![27u8, 91u8, 54u8, 126u8].len() != seq![27u8, 91u8, 68u8].len());
            assert(seq![27u8, 91u8, 54u8, 126u8].len() != seq![27u8, 91u8, 72u8].len());
            assert(seq![27u8, 91u8, 54u8, 126u8].len() != seq![27u8, 91u8, 70u8].len());
            assert(seq![27u8, 91u8, 54u8, 126u8][2] != seq![27u8, 91u8, 51u8, 126u8][2]);
            assert(seq![27u8, 91u8, 54u8, 126u8][2] != seq![27u8, 91u8, 50u8, 126u8][2]);
            assert(seq![27u8, 91u8, 54u8, 126u8][2] != seq![27u8, 91u8, 53u8, 126u8][2]);
            assert(key_bytes(k) =~= seq![27u8, 91u8, 54u8, 126u8]);
        },
        KeyCode::F(n) => {
            if n == 1 {
                assert(seq![27u8, 79u8, 80u8].len() != seq![13u8].len());
                assert(seq![27u8, 79u8, 80u8].len() != seq![127u8].len());
                assert(seq![27u8, 79u8, 80u8].len() != seq![27u8].len());
                assert(seq![27u8, 79u8, 80u8].len() != seq![9u8].len());
                assert(seq![27u8, 79u8, 80u8][1] != seq![27u8, 91u8, 90u8][1]);
                assert(seq![27u8, 79u8, 80u8][1] != seq![27u8, 91u8, 65u8][1]);
                assert(seq![27u8, 79u8, 80u8][1] != seq![27u8, 91u8, 66u8][1]);
                assert(seq![27u8, 79u8, 80u8][1] != seq![27u8, 91u8, 67u8][1]);
                assert(seq![27u8, 79u8, 80u8][1] != seq![27u8, 91u8, 68u8][1]);
                assert(seq![27u8, 79u8, 80u8][1] != seq![27u8, 91u8, 72u8][1]);
                assert(seq![27u8, 79u8, 80u8][1] != seq![27u8, 91u8, 70u8][1]);
                assert(seq![27u8, 79u8, 80u8].len() != seq![27u8, 91u8, 51u8, 126u8].len());
                assert(seq![27u8, 79u8, 80u8].len() != seq![27u8, 91u8, 50u8, 126u8].len());
                assert(seq![27u8, 79u8, 80u8].len() != seq![27u8, 91u8, 53u8, 126u8].len());
                assert(seq![27u8, 79u8, 80u8].len() != seq![27u8, 91u8, 54u8, 126u8].len());
                assert(key_bytes(k) =~= seq![27u8, 79u8, 80u8]);
            } else if n == 2 {
                assert(seq![27u8, 79u8, 81u8].len() != seq![13u8].len());
                assert(seq![27u8, 79u8, 81u8].len() != seq![127u8].len());
                assert(seq![27u8, 79u8, 81u8].len() != seq![27u8].len());
                assert(seq![27u8, 79u8, 81u8].len() != seq![9u8].len());
                assert(seq![27u8, 79u8, 81u8][1] != seq![27u8, 91u8, 90u8][1]);
                assert(seq![27u8, 79u8, 81u8][1] != seq![27u8, 91u8, 65u8][1]);
                assert(seq![27u8, 79u8, 81u8][1] != seq![27u8, 91u8, 66u8][1]);
                assert(seq![27u8, 79u8, 81u8][1] != seq![27u8, 91u8, 67u8][1]);
                assert(seq![27u8, 79u8, 81u8][1] != seq![27u8, 91u8, 68u8][1]);
                assert(seq![27u8, 79u8, 81u8][1] != seq![27u8, 91u8, 72u8][1]);
                assert(seq![27u8, 79u8, 81u8][1] != seq![27u8, 91u8, 70u8][1]);
                assert(seq![27u8, 79u8, 81u8].len() != seq![27u8, 91u8, 51u8, 126u8].len());
                assert(seq![27u8, 79u8, 81u8].len() != seq![27u8, 91u8, 50u8, 126u8].len());
                assert(seq![27u8, 79u8, 81u8].len() != seq![27u8, 91u8, 53u8, 126u8].len());
                assert(seq![27u8, 79u8, 81u8].len() != seq![27u8, 91u8, 54u8, 126u8].len());
                assert(seq![27u8, 79u8, 81u8][2] != seq![27u8, 79u8, 80u8][2]);
                assert(key_bytes(k) =~= seq![27u8, 79u8, 81u8]);
            } else if n == 3 {
                assert(seq![27u8, 79u8, 82u8].len() != seq![13u8].len());
                assert(seq![27u8, 79u8, 82u8].len() != seq![127u8].len());
                assert(seq![27u8, 79u8, 82u8].len() != seq![27u8].len());
                assert(seq![27u8, 79u8, 82u8].len() != seq![9u8].len());
                assert(seq![27u8, 79u8, 82u8][1] != seq![27u8, 91u8, 90u8][1]);
                assert(seq![27u8, 79u8, 82u8][1] != seq![27u8, 91u8, 65u8][1]);
                assert(seq![27u8, 79u8, 82u8][1] != seq![27u8, 91u8, 66u8][1]);
                assert(seq![27u8, 79u8, 82u8][1] != seq![27u8, 91u8, 67u8][1]);
                assert(seq![27u8, 79u8, 82u8][1] != seq![27u8, 91u8, 68u8][1]);
                assert(seq![27u8, 79u8, 82u8][1] != seq![27u8, 91u8, 72u8][1]);
                assert(seq![27u8, 79u8, 82u8][1] != seq![27u8, 91u8, 70u8][1]);
                assert(seq![27u8, 79u8, 82u8].len() != seq![27u8, 91u8, 51u8, 126u8].len());
                assert(seq![27u8, 79u8, 82u8].len() != seq![27u8, 91u8, 50u8, 126u8].len());
                assert(seq![27u8, 79u8, 82u8].len() != seq![27u8, 91u8, 53u8, 126u8].len());
                assert(seq![27u8, 79u8, 82u8].len() != seq![27u8, 91u8, 54u8, 126u8].len());
                assert(seq![27u8, 79u8, 82u8][2] != seq![27u8, 79u8, 80u8][2]);
                assert(seq![27u8, 79u8, 82u8][2] != seq![27u8, 79u8, 81u8][2]);
                assert(key_bytes(k) =~= seq![27u8, 79u8, 82u8]);
            } else if n == 4 {
                assert(seq![27u8, 79u8, 83u8].len() != seq![13u8].len());
                assert(seq![27u8, 79u8, 83u8].len() != seq![127u8].len());
                assert(seq![27u8, 79u8, 83u8].len() != seq![27u8].len());
                assert(seq![27u8, 79u8, 83u8].len() != seq![9u8].len());
                assert(seq![27u8, 79u8, 83u8][1] != seq![27u8, 91u8, 90u8][1]);
                assert(seq![27u8, 79u8, 83u8][1] != seq![27u8, 91u8, 65u8][1]);
                assert(seq![27u8, 79u8, 83u8][1] != seq![27u8, 91u8, 66u8][1]);
                assert(seq![27u8, 79u8, 83u8][1] != seq![27u8, 91u8, 67u8][1]);
                assert(seq![27u8, 79u8, 83u8][1] != seq![27u8, 91u8, 68u8][1]);
                assert(seq![27u8, 79u8, 83u8][1] != seq![27u8, 91u8, 72u8][1]);
                assert(seq![27u8, 79u8, 83u8][1] != seq![27u8, 91u8, 70u8][1]);
                assert(seq![27u8, 79u8, 83u8].len() != seq![27u8, 91u8, 51u8, 126u8].len());
                assert(seq![27u8, 79u8, 83u8].len() != seq![27u8, 91u8, 50u8, 126u8].len());
                assert(seq![27u8, 79u8, 83u8].len() != seq![27u8, 91u8, 53u8, 126u8].len());
                assert(seq![27u8, 79u8, 83u8].len() != seq![27u8, 91u8, 54u8, 126u8].len());
                assert(seq![27u8, 79u8, 83u8][2] != seq![27u8, 79u8, 80u8][2]);
                assert(seq![27u8, 79u8, 83u8][2] != seq![27u8, 79u8, 81u8][2]);
                assert(seq![27u8, 79u8, 83u8][2] != seq![27u8, 79u8, 82u8][2]);
                assert(key_bytes(k) =~= seq![27u8, 79u8, 83u8]);
            } else if n == 5 {
                assert(seq![27u8, 91u8, 49u8, 53u8, 126u8].len() != seq![13u8].len());
                assert(seq![27u8, 91u8, 49u8, 53u8, 126u8].len() != seq![127u8].len());
                assert(seq![27u8, 91u8, 49u8, 53u8, 126u8].len() != seq![27u8].len());
                assert(seq![27u8, 91u8, 49u8, 53u8, 126u8].len() != seq![9u8].len());
                assert(seq![27u8, 91u8, 49u8, 53u8, 126u8].len() != seq![27u8, 91u8, 90u8].len());
                assert(seq![27u8, 91u8, 49u8, 53u8, 126u8].len() != seq![27u8, 91u8, 65u8].len());
                assert(seq![27u8, 91u8, 49u8, 53u8, 126u8].len() != seq![27u8, 91u8, 66u8].len());
                assert(seq![27u8, 91u8, 49u8, 53u8, 126u8].len() != seq![27u8, 91u8, 67u8].len());
                assert(seq![27u8, 91u8, 49u8, 53u8, 126u8].len() != seq![27u8, 91u8, 68u8].len());
                assert(seq![27u8, 91u8, 49u8, 53u8, 126u8].len() != seq![27u8, 91u8, 72u8].len());
                assert(seq![27u8, 91u8, 49u8, 53u8, 126u8].len() != seq![27u8, 91u8, 70u8].len());
                assert(seq![27u8, 91u8, 49u8, 53u8, 126u8].len() != seq![27u8, 91u8, 51u8, 126u8].len());
                assert(seq![27u8, 91u8, 49u8, 53u8, 126u8].len() != seq![27u8, 91u8, 50u8, 126u8].len());
                assert(seq![27u8, 91u8, 49u8, 53u8, 126u8].len() != seq![27u8, 91u8, 53u8, 126u8].len());
                assert(seq![27u8, 91u8, 49u8, 53u8, 126u8].len() != seq![27u8, 91u8, 54u8, 126u8].len());
                assert(seq![27u8, 91u8, 49u8, 53u8, 126u8].len() != seq![27u8, 79u8, 80u8].len());
                assert(seq![27u8, 91u8, 49u8, 53u8, 126u8].len() != seq![27u8, 79u8, 81u8].len());
                assert(seq![27u8, 91u8, 49u8, 53u8, 126u8].len() != seq![27u8, 79u8, 82u8].len());
                assert(seq![27u8, 91u8, 49u8, 53u8, 126u8].len() != seq![27u8, 79u8, 83u8].len());
                assert(key_bytes(k) =~= seq![27u8, 91u8, 49u8, 53u8, 126u8]);
            } else if n == 6 {
                assert(seq![27u8, 91u8, 49u8, 55u8, 126u8].len() != seq![13u8].len());
                assert(seq![27u8, 91u8, 49u8, 55u8, 126u8].len() != seq![127u8].len());
                assert(seq![27u8, 91u8, 49u8, 55u8, 126u8].len() != seq![27u8].len());
                assert(seq![27u8, 91u8, 49u8, 55u8, 126u8].len() != seq![9u8].len());
                assert(seq![27u8, 91u8, 49u8, 55u8, 126u8].len() != seq![27u8, 91u8, 90u8].len());
                assert(seq![27u8, 91u8, 49u8, 55u8, 126u8].len() != seq![27u8, 91u8, 65u8].len());
                assert(seq![27u8, 91u8, 49u8, 55u8, 126u8].len() != seq![27u8, 91u8, 66u8].len());
                assert(seq![27u8, 91u8, 49u8, 55u8, 126u8].len() != seq![27u8, 91u8, 67u8].len());
                assert(seq![27u8, 91u8, 49u8, 55u8, 126u8].len() != seq![27u8, 91u8, 68u8].len());
                assert(seq![27u8, 91u8, 49u8, 55u8, 126u8].len() != seq![27u8, 91u8, 72u8].len());
                assert(seq![27u8, 91u8, 49u8, 55u8, 126u8].len() != seq![27u8, 91u8, 70u8].len());
                assert(seq![27u8, 91u8, 49u8, 55u8, 126u8].len() != seq![27u8, 91u8, 51u8, 126u8].len());
                assert(seq![27u8, 91u8, 49u8, 55u8, 126u8].len() != seq![27u8, 91u8, 50u8, 126u8].len());
                assert(seq![27u8, 91u8, 49u8, 55u8, 126u8].len() != seq![27u8, 91u8, 53u8, 126u8].len());
                assert(seq![27u8, 91u8, 49u8, 55u8, 126u8].len() != seq![27u8, 91u8, 54u8, 126u8].len());
                assert(seq![27u8, 91u8, 49u8, 55u8, 126u8].len() != seq![27u8, 79u8, 80u8].len());
                assert(seq![27u8, 91u8, 49u8, 55u8, 126u8].len() != seq![27u8, 79u8, 81u8].len());
                assert(seq![27u8, 91u8, 49u8, 55u8, 126u8].len() != seq![27u8, 79u8, 82u8].len());
                assert(seq![27u8, 91u8, 49u8, 55u8, 126u8].len() != seq![27u8, 79u8, 83u8].len());
                assert(seq![27u8, 91u8, 49u8, 55u8, 126u8][3] != seq![27u8, 91u8, 49u8, 53u8, 126u8][3]);
                assert(key_bytes(k) =~= seq![27u8, 91u8, 49u8, 55u8, 126u8]);
            } else if n == 7 {
                assert(seq![27u8, 91u8, 49u8, 56u8, 126u8].len() != seq![13u8].len());
                assert(seq![27u8, 91u8, 49u8, 56u8, 126u8].len() != seq![127u8].len());
                assert(seq![27u8, 91u8, 49u8, 56u8, 126u8].len() != seq![27u8].len());
                assert(seq![27u8, 91u8, 49u8, 56u8, 126u8].len() != seq![9u8].len());
                assert(seq![27u8, 91u8, 49u8, 56u8, 126u8].len() != seq![27u8, 91u8, 90u8].len());
                assert(seq![27u8, 91u8, 49u8, 56u8, 126u8].len() != seq![27u8, 91u8, 65u8].len());
                assert(seq![27u8, 91u8, 49u8, 56u8, 126u8].len() != seq![27u8, 91u8, 66u8].len());
                assert(seq![27u8, 91u8, 49u8, 56u8, 126u8].len() != seq![27u8, 91u8, 67u8].len());
                assert(seq![27u8, 91u8, 49u8, 56u8, 126u8].len() != seq![27u8, 91u8, 68u8].len());
                assert(seq![27u8, 91u8, 49u8, 56u8, 126u8].len() != seq![27u8, 91u8, 72u8].len());
                assert(seq![27u8, 91u8, 49u8, 56u8, 126u8].len() != seq![27u8, 91u8, 70u8].len());
                assert(seq![27u8, 91u8, 49u8, 56u8, 126u8].len() != seq![27u8, 91u8, 51u8, 126u8].len());
                assert(seq![27u8, 91u8, 49u8, 56u8, 126u8].len() != seq![27u8, 91u8, 50u8, 126u8].len());
                assert(seq![27u8, 91u8, 49u8, 56u8, 126u8].len() != seq![27u8, 91u8, 53u8, 126u8].len());
                assert(seq![27u8, 91u8, 49u8, 56u8, 126u8].len() != seq![27u8, 91u8, 54u8, 126u8].len());
                assert(seq![27u8, 91u8, 49u8, 56u8, 126u8].len() != seq![27u8, 79u8, 80u8].len());
                assert(seq![27u8, 91u8, 49u8, 56u8, 126u8].len() != seq![27u8, 79u8, 81u8].len());
                assert(seq![27u8, 91u8, 49u8, 56u8, 126u8].len() != seq![27u8, 79u8, 82u8].len());
                assert(seq![27u8, 91u8, 49u8, 56u8, 126u8].len() != seq![27u8, 79u8, 83u8].len());
                assert(seq![27u8, 91u8, 49u8, 56u8, 126u8][3] != seq![27u8, 91u8, 49u8, 53u8, 126u8][3]);
                assert(seq![27u8, 91u8, 49u8, 56u8, 126u8][3] != seq![27u8, 91u8, 49u8, 55u8, 126u8][3]);
                assert(key_bytes(k) =~= seq![27u8, 91u8, 49u8, 56u8, 126u8]);
            } else if n == 8 {
                assert(seq![27u8, 91u8, 49u8, 57u8, 126u8].len() != seq![13u8].len());
                assert(seq![27u8, 91u8, 49u8, 57u8, 126u8].len() != seq![127u8].len());
                assert(seq![27u8, 91u8, 49u8, 57u8, 126u8].len() != seq![27u8].len());
                assert(seq![27u8, 91u8, 49u8, 57u8, 126u8].len() != seq![9u8].len());
                assert(seq![27u8, 91u8, 49u8, 57u8, 126u8].len() != seq![27u8, 91u8, 90u8].len());
                assert(seq![27u8, 91u8, 49u8, 57u8, 126u8].len() != seq![27u8, 91u8, 65u8].len());
                assert(seq![27u8, 91u8, 49u8, 57u8, 126u8].len() != seq![27u8, 91u8, 66u8].len());
                assert(seq![27u8, 91u8, 49u8, 57u8, 126u8].len() != seq![27u8, 91u8, 67u8].len());
                assert(seq![27u8, 91u8, 49u8, 57u8, 126u8].len() != seq![27u8, 91u8, 68u8].len());
                assert(seq![27u8, 91u8, 49u8, 57u8, 126u8].len() != seq![27u8, 91u8, 72u8].len());
                assert(seq![27u8, 91u8, 49u8, 57u8, 126u8].len() != seq![27u8, 91u8, 70u8].len());
                assert(seq![27u8, 91u8, 49u8, 57u8, 126u8].len() != seq![27u8, 91u8, 51u8, 126u8].len());
                assert(seq![27u8, 91u8, 49u8, 57u8, 126u8].len() != seq![27u8, 91u8, 50u8, 126u8].len());
                assert(seq![27u8, 91u8, 49u8, 57u8, 126u8].len() != seq![27u8, 91u8, 53u8, 126u8].len());
                assert(seq![27u8, 91u8, 49u8, 57u8, 126u8].len() != seq![27u8, 91u8, 54u8, 126u8].len());
                assert(seq![27u8, 91u8, 49u8, 57u8, 126u8].len() != seq![27u8, 79u8, 80u8].len());
                assert(seq![27u8, 91u8, 49u8, 57u8, 126u8].len() != seq![27u8, 79u8, 81u8].len());
                assert(seq![27u8, 91u8, 49u8, 57u8, 126u8].len() != seq![27u8, 79u8, 82u8].len());
                assert(seq![27u8, 91u8, 49u8, 57u8, 126u8].len() != seq![27u8, 79u8, 83u8].len());
                assert(seq![27u8, 91u8, 49u8, 57u8, 126u8][3] != seq![27u8, 91u8, 49u8, 53u8, 126u8][3]);
                assert(seq![27u8, 91u8, 49u8, 57u8, 126u8][3] != seq![27u8, 91u8, 49u8, 55u8, 126u8][3]);
                assert(seq![27u8, 91u8, 49u8, 57u8, 126u8][3] != seq![27u8, 91u8, 49u8, 56u8, 126u8][3]);
                assert(key_bytes(k) =~= seq![27u8, 91u8, 49u8, 57u8, 126u8]);
            } else if n == 9 {
                assert(seq![27u8, 91u8, 50u8, 48u8, 126u8].len() != seq![13u8].len());
                assert(seq![27u8, 91u8, 50u8, 48u8, 126u8].len() != seq![127u8].len());
                assert(seq![27u8, 91u8, 50u8, 48u8, 126u8].len() != seq![27u8].len());
                assert(seq![27u8, 91u8, 50u8, 48u8, 126u8].len() != seq![9u8].len());
                assert(seq![27u8, 91u8, 50u8, 48u8, 126u8].len() != seq![27u8, 91u8, 90u8].len());
                assert(seq![27u8, 91u8, 50u8, 48u8, 126u8].len() != seq![27u8, 91u8, 65u8].len());
                assert(seq![27u8, 91u8, 50u8, 48u8, 126u8].len() != seq![27u8, 91u8, 66u8].len());
                assert(seq![27u8, 91u8, 50u8, 48u8, 126u8].len() != seq![27u8, 91u8, 67u8].len());
                assert(seq![27u8, 91u8, 50u8, 48u8, 126u8].len() != seq![27u8, 91u8, 68u8].len());
                assert(seq![27u8, 91u8, 50u8, 48u8, 126u8].len() != seq![27u8, 91u8, 72u8].len());
                assert(seq![27u8, 91u8, 50u8, 48u8, 126u8].len() != seq![27u8, 91u8, 70u8].len());
                assert(seq![27u8, 91u8, 50u8, 48u8, 126u8].len() != seq![27u8, 91u8, 51u8, 126u8].len());
                assert(seq![27u8, 91u8, 50u8, 48u8, 126u8].len() != seq![27u8, 91u8, 50u8, 126u8].len());
                assert(seq![27u8, 91u8, 50u8, 48u8, 126u8].len() != seq![27u8, 91u8, 53u8, 126u8].len());
                assert(seq![27u8, 91u8, 50u8, 48u8, 126u8].len() != seq![27u8, 91u8, 54u8, 126u8].len());
                assert(seq![27u8, 91u8, 50u8, 48u8, 126u8].len() != seq![27u8, 79u8, 80u8].len());
                assert(seq![27u8, 91u8, 50u8, 48u8, 126u8].len() != seq![27u8, 79u8, 81u8].len());
                assert(seq![27u8, 91u8, 50u8, 48u8, 126u8].len() != seq![27u8, 79u8, 82u8].len());
                assert(seq![27u8, 91u8, 50u8, 48u8, 126u8].len() != seq![27u8, 79u8, 83u8].len());
                assert(seq![27u8, 91u8, 50u8, 48u8, 126u8][2] != seq![27u8, 91u8, 49u8, 53u8, 126u8][2]);
                assert(seq![27u8, 91u8, 50u8, 48u8, 126u8][2] != seq![27u8, 91u8, 49u8, 55u8, 126u8][2]);
                assert(seq![27u8, 91u8, 50u8, 48u8, 126u8][2] != seq![27u8, 91u8, 49u8, 56u8, 126u8][2]);
                assert(seq![27u8, 91u8, 50u8, 48u8, 126u8][2] != seq![27u8, 91u8, 49u8, 57u8, 126u8][2]);
                assert(key_bytes(k) =~= seq![27u8, 91u8, 50u8, 48u8, 126u8]);
            } else if n == 10 {
                assert(seq![27u8, 91u8, 50u8, 49u8, 126u8].len() != seq![13u8].len());
                assert(seq![27u8, 91u8, 50u8, 49u8, 126u8].len() != seq![127u8].len());
                assert(seq![27u8, 91u8, 50u8, 49u8, 126u8].len() != seq![27u8].len());
                assert(seq![27u8, 91u8, 50u8, 49u8, 126u8].len() != seq![9u8].len());
                assert(seq![27u8, 91u8, 50u8, 49u8, 126u8].len() != seq![27u8, 91u8, 90u8].len());
                assert(seq![27u8, 91u8, 50u8, 49u8, 126u8].len() != seq![27u8, 91u8, 65u8].len());
                assert(seq![27u8, 91u8, 50u8, 49u8, 126u8].len() != seq![27u8, 91u8, 66u8].len());
                assert(seq![27u8, 91u8, 50u8, 49u8, 126u8].len() != seq![27u8, 91u8, 67u8].len());
                assert(seq![27u8, 91u8, 50u8, 49u8, 126u8].len() != seq![27u8, 91u8, 68u8].len());
                assert(seq![27u8, 91u8, 50u8, 49u8, 126u8].len() != seq![27u8, 91u8, 72u8].len());
                assert(seq![27u8, 91u8, 50u8, 49u8, 126u8].len() != seq![27u8, 91u8, 70u8].len());
                assert(seq![27u8, 91u8, 50u8, 49u8, 126u8].len() != seq![27u8, 91u8, 51u8, 126u8].len());
                assert(seq![27u8, 91u8, 50u8, 49u8, 126u8].len() != seq![27u8, 91u8, 50u8, 126u8].len());
                assert(seq![27u8, 91u8, 50u8, 49u8, 126u8].len() != seq![27u8, 91u8, 53u8, 126u8].len());
                assert(seq![27u8, 91u8, 50u8, 49u8, 126u8].len() != seq![27u8, 91u8, 54u8, 126u8].len());
                assert(seq![27u8, 91u8, 50u8, 49u8, 126u8].len() != seq![27u8, 79u8, 80u8].len());
                assert(seq![27u8, 91u8, 50u8, 49u8, 126u8].len() != seq![27u8, 79u8, 81u8].len());
                assert(seq![27u8, 91u8, 50u8, 49u8, 126u8].len() != seq![27u8, 79u8, 82u8].len());
                assert(seq![27u8, 91u8, 50u8, 49u8, 126u8].len() != seq![27u8, 79u8, 83u8].len());
                assert(seq![27u8, 91u8, 50u8, 49u8, 126u8][2] != seq![27u8, 91u8, 49u8, 53u8, 126u8][2]);
                assert(seq![27u8, 91u8, 50u8, 49u8, 126u8][2] != seq![27u8, 91u8, 49u8, 55u8, 126u8][2]);
                assert(seq![27u8, 91u8, 50u8, 49u8, 126u8][2] != seq![27u8, 91u8, 49u8, 56u8, 126u8][2]);
                assert(seq![27u8, 91u8, 50u8, 49u8, 126u8][2] != seq![27u8, 91u8, 49u8, 57u8, 126u8][2]);
                assert(seq![27u8, 91u8, 50u8, 49u8, 126u8][3] != seq![27u8, 91u8, 50u8, 48u8, 126u8][3]);
                assert(key_bytes(k) =~= seq![27u8, 91u8, 50u8, 49u8, 126u8]);
            } else if n == 11 {
                assert(seq![27u8, 91u8, 50u8, 51u8, 126u8].len() != seq![13u8].len());
                assert(seq![27u8, 91u8, 50u8, 51u8, 126u8].len() != seq![127u8].len());
                assert(seq![27u8, 91u8, 50u8, 51u8, 126u8].len() != seq![27u8].len());
                assert(seq![27u8, 91u8, 50u8, 51u8, 126u8].len() != seq![9u8].len());
                assert(seq![27u8, 91u8, 50u8, 51u8, 126u8].len() != seq![27u8, 91u8, 90u8].len());
                assert(seq![27u8, 91u8, 50u8, 51u8, 126u8].len() != seq![27u8, 91u8, 65u8].len());
                assert(seq![27u8, 91u8, 50u8, 51u8, 126u8].len() != seq![27u8, 91u8, 66u8].len());
                assert(seq![27u8, 91u8, 50u8, 51u8, 126u8].len() != seq![27u8, 91u8, 67u8].len());
                assert(seq![27u8, 91u8, 50u8, 51u8, 126u8].len() != seq![27u8, 91u8, 68u8].len());
                assert(seq![27u8, 91u8, 50u8, 51u8, 126u8].len() != seq![27u8, 91u8, 72u8].len());
                assert(seq![27u8, 91u8, 50u8, 51u8, 126u8].len() != seq![27u8, 91u8, 70u8].len());
                assert(seq![27u8, 91u8, 50u8, 51u8, 126u8].len() != seq![27u8, 91u8, 51u8, 126u8].len());
                assert(seq![27u8, 91u8, 50u8, 51u8, 126u8].len() != seq![27u8, 91u8, 50u8, 126u8].len());
                assert(seq![27u8, 91u8, 50u8, 51u8, 126u8].len() != seq![27u8, 91u8, 53u8, 126u8].len());
                assert(seq![27u8, 91u8, 50u8, 51u8, 126u8].len() != seq![27u8, 91u8, 54u8, 126u8].len());
                assert(seq![27u8, 91u8, 50u8, 51u8, 126u8].len() != seq![27u8, 79u8, 80u8].len());
                assert(seq![27u8, 91u8, 50u8, 51u8, 126u8].len() != seq![27u8, 79u8, 81u8].len());
                assert(seq![27u8, 91u8, 50u8, 51u8, 126u8].len() != seq![27u8, 79u8, 82u8].len());
                assert(seq![27u8, 91u8, 50u8, 51u8, 126u8].len() != seq![27u8, 79u8, 83u8].len());
                assert(seq![27u8, 91u8, 50u8, 51u8, 126u8][2] != seq![27u8, 91u8, 49u8, 53u8, 126u8][2]);
                assert(seq![27u8, 91u8, 50u8, 51u8, 126u8][2] != seq![27u8, 91u8, 49u8, 55u8, 126u8][2]);
                assert(seq![27u8, 91u8, 50u8, 51u8, 126u8][2] != seq![27u8, 91u8, 49u8, 56u8, 126u8][2]);
                assert(seq![27u8, 91u8, 50u8, 51u8, 126u8][2] != seq![27u8, 91u8, 49u8, 57u8, 126u8][2]);
                assert(seq![27u8, 91u8, 50u8, 51u8, 126u8][3] != seq![27u8, 91u8, 50u8, 48u8, 126u8][3]);
                assert(seq![27u8, 91u8, 50u8, 51u8, 126u8][3] != seq![27u8, 91u8, 50u8, 49u8, 126u8][3]);
                assert(key_bytes(k) =~= seq![27u8, 91u8, 50u8, 51u8, 126u8]);
            } else if n == 12 {
                assert(seq![27u8, 91u8, 50u8, 52u8, 126u8].len() != seq![13u8].len());
                assert(seq![27u8, 91u8, 50u8, 52u8, 126u8].len() != seq![127u8].len());
                assert(seq![27u8, 91u8, 50u8, 52u8, 126u8].len() != seq![27u8].len());
                assert(seq![27u8, 91u8, 50u8, 52u8, 126u8].len() != seq![9u8].len());
                assert(seq![27u8, 91u8, 50u8, 52u8, 126u8].len() != seq![27u8, 91u8, 90u8].len());
                assert(seq![27u8, 91u8, 50u8, 52u8, 126u8].len() != seq![27u8, 91u8, 65u8].len());
                assert(seq![27u8, 91u8, 50u8, 52u8, 126u8].len() != seq![27u8, 91u8, 66u8].len());
                assert(seq![27u8, 91u8, 50u8, 52u8, 126u8].len() != seq![27u8, 91u8, 67u8].len());
                assert(seq![27u8, 91u8, 50u8, 52u8, 126u8].len() != seq![27u8, 91u8, 68u8].len());
                assert(seq![27u8, 91u8, 50u8, 52u8, 126u8].len() != seq![27u8, 91u8, 72u8].len());
                assert(seq![27u8, 91u8, 50u8, 52u8, 126u8].len() != seq![27u8, 91u8, 70u8].len());
                assert(seq![27u8, 91u8, 50u8, 52u8, 126u8].len() != seq![27u8, 91u8, 51u8, 126u8].len());
                assert(seq![27u8, 91u8, 50u8, 52u8, 126u8].len() != seq![27u8, 91u8, 50u8, 126u8].len());
                assert(seq![27u8, 91u8, 50u8, 52u8, 126u8].len() != seq![27u8, 91u8, 53u8, 126u8].len());
                assert(seq![27u8, 91u8, 50u8, 52u8, 126u8].len() != seq![27u8, 91u8, 54u8, 126u8].len());
                assert(seq![27u8, 91u8, 50u8, 52u8, 126u8].len() != seq![27u8, 79u8, 80u8].len());
                assert(seq![27u8, 91u8, 50u8, 52u8, 126u8].len() != seq![27u8, 79u8, 81u8].len());
                assert(seq![27u8, 91u8, 50u8, 52u8, 126u8].len() != seq![27u8, 79u8, 82u8].len());
                assert(seq![27u8, 91u8, 50u8, 52u8, 126u8].len() != seq![27u8, 79u8, 83u8].len());
                assert(seq![27u8, 91u8, 50u8, 52u8, 126u8][2] != seq![27u8, 91u8, 49u8, 53u8, 126u8][2]);
                assert(seq![27u8, 91u8, 50u8, 52u8, 126u8][2] != seq![27u8, 91u8, 49u8, 55u8, 126u8][2]);
                assert(seq![27u8, 91u8, 50u8, 52u8, 126u8][2] != seq![27u8, 91u8, 49u8, 56u8, 126u8][2]);
                assert(seq![27u8, 91u8, 50u8, 52u8, 126u8][2] != seq![27u8, 91u8, 49u8, 57u8, 126u8][2]);
                assert(seq![27u8, 91u8, 50u8, 52u8, 126u8][3] != seq![27u8, 91u8, 50u8, 48u8, 126u8][3]);
                assert(seq![27u8, 91u8, 50u8, 52u8, 126u8][3] != seq![27u8, 91u8, 50u8, 49u8, 126u8][3]);
                assert(seq![27u8, 91u8, 50u8, 52u8, 126u8][3] != seq![27u8, 91u8, 50u8, 51u8, 126u8][3]);
                assert(key_bytes(k) =~= seq![27u8, 91u8, 50u8, 52u8, 126u8]);
            }
        },
        _ => {},
    }
}

/// Distinct named keys send distinct bytes, so the program can always
/// tell which one was pressed.
pub proof fn law_named_keys_distinct(a: KeyStroke, b: KeyStroke)
    requires
        !(a.code is Char) && a.code != KeyCode::Other,
        !(b.code is Char) && b.code != KeyCode::Other,
        a.code matches KeyCode::F(n) ==> 1 <= n <= 12,
        b.code matches KeyCode::F(n) ==> 1 <= n <= 12,
        a.code != b.code,
    ensures
        key_bytes(a) != key_bytes(b),
{
    law_named_keys_read_back(a);
    law_named_keys_read_back(b);
}

/// The code point a UTF-8 sequence of one to four bytes encodes (lead
/// byte `0xxxxxxx`, `110xxxxx`, `1110xxxx` or `11110xxx`, then `10xxxxxx`
/// continuation bytes).
pub open spec fn utf8_value(b: Seq<u8>) -> Option<int> {
    if b.len() == 1 && b[0] < 0x80 {
        Some(b[0] as int)
    } else if b.len() == 2 && 0xC0 <= b[0] < 0xE0 && 0x80 <= b[1] < 0xC0 {
        Some((b[0] - 0xC0) * 64 + (b[1] - 0x80))
    } else if b.len() == 3 && 0xE0 <= b[0] < 0xF0 && 0x80 <= b[1] < 0xC0 && 0x80 <= b[2] < 0xC0 {
        Some((b[0] - 0xE0) * 4096 + (b[1] - 0x80) * 64 + (b[2] - 0x80))
    } else if b.len() == 4 && 0xF0 <= b[0] < 0xF8 && 0x80 <= b[1] < 0xC0 && 0x80 <= b[2] < 0xC0 && 0x80 <= b[3] < 0xC0 {
        Some((b[0] - 0xF0) * 262144 + (b[1] - 0x80) * 4096 + (b[2] - 0x80) * 64 + (b[3] - 0x80))
    } else {
        None
    }
}

/// A plain character is sent as its UTF-8 encoding, in the shortest form:
/// the bytes decode back to the character, one byte below U+0080, two
/// below U+0800, three below U+10000, four above.
pub proof fn law_chars_sent_as_utf8(k: KeyStroke, c: char)
    requires
        k.code == KeyCode::Char(c),
        !k.modifiers.ctrl,
        !k.modifiers.alt,
    ensures
        utf8_value(key_bytes(k)) == Some(c as int),
        key_bytes(k).len() == (if (c as u32) < 0x80 { 1int } else if (c as u32) < 0x800 { 2int } else if (c as u32)
            < 0x10000 { 3int } else { 4int }),
{
    let n = c as u32;
    assert(n <= 0x10FFFF);
    let b = utf8_bytes(c);
    if n < 0x80 {
    } else if n < 0x800 {
        assert((0xC0 + n / 64) as u8 == 0xC0 + n / 64);
        assert((0x80 + n % 64) as u8 == 0x80 + n % 64);
        assert((n / 64) * 64 + n % 64 == n);
    } else if n < 0x10000 {
        assert((n / 4096) * 4096 + ((n / 64) % 64) * 64 + n % 64 == n) by (nonlinear_arith)
            requires n < 0x10000;
        assert((0xE0 + n / 4096) as u8 == 0xE0 + n / 4096);
        assert((0x80 + (n / 64) % 64) as u8 == 0x80 + (n / 64) % 64);
        assert((0x80 + n % 64) as u8 == 0x80 + n % 64);
    } else {
        assert((n / 262144) * 262144 + ((n / 4096) % 64) * 4096 + ((n / 64) % 64) * 64 + n % 64 == n) by (nonlinear_arith)
            requires n <= 0x10FFFF;
        assert((0xF0 + n / 262144) as u8 == 0xF0 + n / 262144);
        assert((0x80 + (n / 4096) % 64) as u8 == 0x80 + (n / 4096) % 64);
        assert((0x80 + (n / 64) % 64) as u8 == 0x80 + (n / 64) % 64);
        assert((0x80 + n % 64) as u8 == 0x80 + n % 64);
    }
}

/// Alt and a character send an escape, then what the character alone
/// sends.
pub proof fn law_alt_prefixes_escape(k: KeyStroke, c: char)
    requires
        k.code == KeyCode::Char(c),
        !k.modifiers.ctrl,
        k.modifiers.alt,
    ensures
        key_bytes(k) == seq![27u8] + key_bytes(KeyStroke { code: k.code, modifiers: KeyModifiers { ctrl: false, alt: false, shift: k.modifiers.shift } }),
{
}

/// Ctrl and a letter, of either case, send the letter's control code: its
/// place in the alphabet, `a` being 1 and `z` 26. Ctrl with any other
/// character sends nothing.
pub proof fn law_ctrl_letters_send_control_codes(k: KeyStroke, c: char)
    requires
        k.code == KeyCode::Char(c),
        k.modifiers.ctrl,
    ensures
        'a' <= c <= 'z' ==> key_bytes(k) == seq![((c as u32) - ('a' as u32) + 1) as u8],
        'A' <= c <= 'Z' ==> key_bytes(k) == seq![((c as u32) - ('A' as u32) + 1) as u8],
        !('a' <= c <= 'z' || 'A' <= c <= 'Z') ==> key_bytes(k).len() == 0,
{
}

} // verus!
