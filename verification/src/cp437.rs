//! Decoding of legacy code-page text.
//!
//! Entry names and comments whose UTF-8 flag bit is clear are decoded with
//! the classic IBM PC code page: bytes below `0x80` are the matching ASCII
//! characters, and each high byte maps to one fixed character.

use vstd::prelude::*;

verus! {

/// The character a single code-page byte decodes to.
pub open spec fn cp437_char(b: u8) -> char {
    if b < 0x80 {
        b as char
    } else {
        match b {
            0x80 => '\u{00C7}',
            0x81 => '\u{00FC}',
            0x82 => '\u{00E9}',
            0x83 => '\u{00E2}',
            0x84 => '\u{00E4}',
            0x85 => '\u{00E0}',
            0x86 => '\u{00E5}',
            0x87 => '\u{00E7}',
            0x88 => '\u{00EA}',
            0x89 => '\u{00EB}',
            0x8A => '\u{00E8}',
            0x8B => '\u{00EF}',
            0x8C => '\u{00EE}',
            0x8D => '\u{00EC}',
            0x8E => '\u{00C4}',
            0x8F => '\u{00C5}',
            0x90 => '\u{00C9}',
            0x91 => '\u{00E6}',
            0x92 => '\u{00C6}',
            0x93 => '\u{00F4}',
            0x94 => '\u{00F6}',
            0x95 => '\u{00F2}',
            0x96 => '\u{00FB}',
            0x97 => '\u{00F9}',
            0x98 => '\u{00FF}',
            0x99 => '\u{00D6}',
            0x9A => '\u{00DC}',
            0x9B => '\u{00A2}',
            0x9C => '\u{00A3}',
            0x9D => '\u{00A5}',
            0x9E => '\u{20A7}',
            0x9F => '\u{0192}',
            0xA0 => '\u{00E1}',
            0xA1 => '\u{00ED}',
            0xA2 => '\u{00F3}',
            0xA3 => '\u{00FA}',
            0xA4 => '\u{00F1}',
            0xA5 => '\u{00D1}',
            0xA6 => '\u{00AA}',
            0xA7 => '\u{00BA}',
            0xA8 => '\u{00BF}',
            0xA9 => '\u{2310}',
            0xAA => '\u{00AC}',
            0xAB => '\u{00BD}',
            0xAC => '\u{00BC}',
            0xAD => '\u{00A1}',
            0xAE => '\u{00AB}',
            0xAF => '\u{00BB}',
            0xB0 => '\u{2591}',
            0xB1 => '\u{2592}',
            0xB2 => '\u{2593}',
            0xB3 => '\u{2502}',
            0xB4 => '\u{2524}',
            0xB5 => '\u{2561}',
            0xB6 => '\u{2562}',
            0xB7 => '\u{2556}',
            0xB8 => '\u{2555}',
            0xB9 => '\u{2563}',
            0xBA => '\u{2551}',
            0xBB => '\u{2557}',
            0xBC => '\u{255D}',
            0xBD => '\u{255C}',
            0xBE => '\u{255B}',
            0xBF => '\u{2510}',
            0xC0 => '\u{2514}',
            0xC1 => '\u{2534}',
            0xC2 => '\u{252C}',
            0xC3 => '\u{251C}',
            0xC4 => '\u{2500}',
            0xC5 => '\u{253C}',
            0xC6 => '\u{255E}',
            0xC7 => '\u{255F}',
            0xC8 => '\u{255A}',
            0xC9 => '\u{2554}',
            0xCA => '\u{2569}',
            0xCB => '\u{2566}',
            0xCC => '\u{2560}',
            0xCD => '\u{2550}',
            0xCE => '\u{256C}',
            0xCF => '\u{2567}',
            0xD0 => '\u{2568}',
            0xD1 => '\u{2564}',
            0xD2 => '\u{2565}',
            0xD3 => '\u{2559}',
            0xD4 => '\u{2558}',
            0xD5 => '\u{2552}',
            0xD6 => '\u{2553}',
            0xD7 => '\u{256B}',
            0xD8 => '\u{256A}',
            0xD9 => '\u{2518}',
            0xDA => '\u{250C}',
            0xDB => '\u{2588}',
            0xDC => '\u{2584}',
            0xDD => '\u{258C}',
            0xDE => '\u{2590}',
            0xDF => '\u{2580}',
            0xE0 => '\u{03B1}',
            0xE1 => '\u{00DF}',
            0xE2 => '\u{0393}',
            0xE3 => '\u{03C0}',
            0xE4 => '\u{03A3}',
            0xE5 => '\u{03C3}',
            0xE6 => '\u{00B5}',
            0xE7 => '\u{03C4}',
            0xE8 => '\u{03A6}',
            0xE9 => '\u{0398}',
            0xEA => '\u{03A9}',
            0xEB => '\u{03B4}',
            0xEC => '\u{221E}',
            0xED => '\u{03C6}',
            0xEE => '\u{03B5}',
            0xEF => '\u{2229}',
            0xF0 => '\u{2261}',
            0xF1 => '\u{00B1}',
            0xF2 => '\u{2265}',
            0xF3 => '\u{2264}',
            0xF4 => '\u{2320}',
            0xF5 => '\u{2321}',
            0xF6 => '\u{00F7}',
            0xF7 => '\u{2248}',
            0xF8 => '\u{00B0}',
            0xF9 => '\u{2219}',
            0xFA => '\u{00B7}',
            0xFB => '\u{221A}',
            0xFC => '\u{207F}',
            0xFD => '\u{00B2}',
            0xFE => '\u{25A0}',
            0xFF => '\u{00A0}',
            _ => ' ',
        }
    }
}

/// Decodes one code-page byte.
pub fn decode_cp437_byte(b: u8) -> (r: char)
    ensures
        r == cp437_char(b),
{
    if b < 0x80 {
        b as char
    } else {
        match b {
                0x80 => '\u{00C7}',
                0x81 => '\u{00FC}',
                0x82 => '\u{00E9}',
                0x83 => '\u{00E2}',
                0x84 => '\u{00E4}',
                0x85 => '\u{00E0}',
                0x86 => '\u{00E5}',
                0x87 => '\u{00E7}',
                0x88 => '\u{00EA}',
                0x89 => '\u{00EB}',
                0x8A => '\u{00E8}',
                0x8B => '\u{00EF}',
                0x8C => '\u{00EE}',
                0x8D => '\u{00EC}',
                0x8E => '\u{00C4}',
                0x8F => '\u{00C5}',
                0x90 => '\u{00C9}',
                0x91 => '\u{00E6}',
                0x92 => '\u{00C6}',
                0x93 => '\u{00F4}',
                0x94 => '\u{00F6}',
                0x95 => '\u{00F2}',
                0x96 => '\u{00FB}',
                0x97 => '\u{00F9}',
                0x98 => '\u{00FF}',
                0x99 => '\u{00D6}',
                0x9A => '\u{00DC}',
                0x9B => '\u{00A2}',
                0x9C => '\u{00A3}',
                0x9D => '\u{00A5}',
                0x9E => '\u{20A7}',
                0x9F => '\u{0192}',
                0xA0 => '\u{00E1}',
                0xA1 => '\u{00ED}',
                0xA2 => '\u{00F3}',
                0xA3 => '\u{00FA}',
                0xA4 => '\u{00F1}',
                0xA5 => '\u{00D1}',
                0xA6 => '\u{00AA}',
                0xA7 => '\u{00BA}',
                0xA8 => '\u{00BF}',
                0xA9 => '\u{2310}',
                0xAA => '\u{00AC}',
                0xAB => '\u{00BD}',
                0xAC => '\u{00BC}',
                0xAD => '\u{00A1}',
                0xAE => '\u{00AB}',
                0xAF => '\u{00BB}',
                0xB0 => '\u{2591}',
                0xB1 => '\u{2592}',
                0xB2 => '\u{2593}',
                0xB3 => '\u{2502}',
                0xB4 => '\u{2524}',
                0xB5 => '\u{2561}',
                0xB6 => '\u{2562}',
                0xB7 => '\u{2556}',
                0xB8 => '\u{2555}',
                0xB9 => '\u{2563}',
                0xBA => '\u{2551}',
                0xBB => '\u{2557}',
                0xBC => '\u{255D}',
                0xBD => '\u{255C}',
                0xBE => '\u{255B}',
                0xBF => '\u{2510}',
                0xC0 => '\u{2514}',
                0xC1 => '\u{2534}',
                0xC2 => '\u{252C}',
                0xC3 => '\u{251C}',
                0xC4 => '\u{2500}',
                0xC5 => '\u{253C}',
                0xC6 => '\u{255E}',
                0xC7 => '\u{255F}',
                0xC8 => '\u{255A}',
                0xC9 => '\u{2554}',
                0xCA => '\u{2569}',
                0xCB => '\u{2566}',
                0xCC => '\u{2560}',
                0xCD => '\u{2550}',
                0xCE => '\u{256C}',
                0xCF => '\u{2567}',
                0xD0 => '\u{2568}',
                0xD1 => '\u{2564}',
                0xD2 => '\u{2565}',
                0xD3 => '\u{2559}',
                0xD4 => '\u{2558}',
                0xD5 => '\u{2552}',
                0xD6 => '\u{2553}',
                0xD7 => '\u{256B}',
                0xD8 => '\u{256A}',
                0xD9 => '\u{2518}',
                0xDA => '\u{250C}',
                0xDB => '\u{2588}',
                0xDC => '\u{2584}',
                0xDD => '\u{258C}',
                0xDE => '\u{2590}',
                0xDF => '\u{2580}',
                0xE0 => '\u{03B1}',
                0xE1 => '\u{00DF}',
                0xE2 => '\u{0393}',
                0xE3 => '\u{03C0}',
                0xE4 => '\u{03A3}',
                0xE5 => '\u{03C3}',
                0xE6 => '\u{00B5}',
                0xE7 => '\u{03C4}',
                0xE8 => '\u{03A6}',
                0xE9 => '\u{0398}',
                0xEA => '\u{03A9}',
                0xEB => '\u{03B4}',
                0xEC => '\u{221E}',
                0xED => '\u{03C6}',
                0xEE => '\u{03B5}',
                0xEF => '\u{2229}',
                0xF0 => '\u{2261}',
                0xF1 => '\u{00B1}',
                0xF2 => '\u{2265}',
                0xF3 => '\u{2264}',
                0xF4 => '\u{2320}',
                0xF5 => '\u{2321}',
                0xF6 => '\u{00F7}',
                0xF7 => '\u{2248}',
                0xF8 => '\u{00B0}',
                0xF9 => '\u{2219}',
                0xFA => '\u{00B7}',
                0xFB => '\u{221A}',
                0xFC => '\u{207F}',
                0xFD => '\u{00B2}',
                0xFE => '\u{25A0}',
                0xFF => '\u{00A0}',
                _ => ' ',
            }
    }
}

/// Decodes a whole code-page byte string.
pub fn decode_cp437(bytes: &Vec<u8>) -> (r: Vec<char>)
    ensures
        r@ == bytes@.map_values(|b: u8| cp437_char(b)),
{
    let mut out: Vec<char> = Vec::new();
    let n = bytes.len();
    for i in 0..n
        invariant
            n == bytes@.len(),
            out@.len() == i,
            forall|j: int| 0 <= j < i ==> out@[j] == cp437_char(bytes@[j]),
    {
        out.push(decode_cp437_byte(bytes[i]));
    }
    proof {
        assert(out@ =~= bytes@.map_values(|b: u8| cp437_char(b)));
    }
    out
}

} // verus!
