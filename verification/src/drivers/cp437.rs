//! Code page 437: the character set of the VGA text mode. ASCII maps to
//! itself; the box-drawing, block and arrow characters used by the console
//! map to their code-page positions; anything else becomes '?'.
use vstd::prelude::*;

verus! {

pub open spec fn cp437(c: char) -> u8 {
    if (c as u32) < 0x80 {
        (c as u32) as u8
    } else {
        match c {
            '░' => 0xB0u8,
            '▒' => 0xB1u8,
            '▓' => 0xB2u8,
            '│' => 0xB3u8,
            '┤' => 0xB4u8,
            '╡' => 0xB5u8,
            '╢' => 0xB6u8,
            '╖' => 0xB7u8,
            '╕' => 0xB8u8,
            '╣' => 0xB9u8,
            '║' => 0xBAu8,
            '╗' => 0xBBu8,
            '╝' => 0xBCu8,
            '╜' => 0xBDu8,
            '╛' => 0xBEu8,
            '┐' => 0xBFu8,
            '└' => 0xC0u8,
            '┴' => 0xC1u8,
            '┬' => 0xC2u8,
            '├' => 0xC3u8,
            '─' => 0xC4u8,
            '┼' => 0xC5u8,
            '╞' => 0xC6u8,
            '╟' => 0xC7u8,
            '╚' => 0xC8u8,
            '╔' => 0xC9u8,
            '╩' => 0xCAu8,
            '╦' => 0xCBu8,
            '╠' => 0xCCu8,
            '═' => 0xCDu8,
            '╬' => 0xCEu8,
            '╧' => 0xCFu8,
            '╨' => 0xD0u8,
            '╤' => 0xD1u8,
            '╥' => 0xD2u8,
            '╙' => 0xD3u8,
            '╘' => 0xD4u8,
            '╒' => 0xD5u8,
            '╓' => 0xD6u8,
            '╫' => 0xD7u8,
            '╪' => 0xD8u8,
            '┘' => 0xD9u8,
            '┌' => 0xDAu8,
            '█' => 0xDBu8,
            '▄' => 0xDCu8,
            '▌' => 0xDDu8,
            '▐' => 0xDEu8,
            '▀' => 0xDFu8,
            '↑' => 0x18u8,
            '↓' => 0x19u8,
            '→' => 0x1Au8,
            '←' => 0x1Bu8,
            _ => 0x3Fu8,
        }
    }
}

/// The code-page byte that displays `c`.
pub fn encode(c: char) -> (r: u8)
    ensures
        r == cp437(c),
{
    let v: u32 = c as u32;
    if v < 0x80 {
        v as u8
    } else {
        match c {
            '░' => 0xB0u8,
            '▒' => 0xB1u8,
            '▓' => 0xB2u8,
            '│' => 0xB3u8,
            '┤' => 0xB4u8,
            '╡' => 0xB5u8,
            '╢' => 0xB6u8,
            '╖' => 0xB7u8,
            '╕' => 0xB8u8,
            '╣' => 0xB9u8,
            '║' => 0xBAu8,
            '╗' => 0xBBu8,
            '╝' => 0xBCu8,
            '╜' => 0xBDu8,
            '╛' => 0xBEu8,
            '┐' => 0xBFu8,
            '└' => 0xC0u8,
            '┴' => 0xC1u8,
            '┬' => 0xC2u8,
            '├' => 0xC3u8,
            '─' => 0xC4u8,
            '┼' => 0xC5u8,
            '╞' => 0xC6u8,
            '╟' => 0xC7u8,
            '╚' => 0xC8u8,
            '╔' => 0xC9u8,
            '╩' => 0xCAu8,
            '╦' => 0xCBu8,
            '╠' => 0xCCu8,
            '═' => 0xCDu8,
            '╬' => 0xCEu8,
            '╧' => 0xCFu8,
            '╨' => 0xD0u8,
            '╤' => 0xD1u8,
            '╥' => 0xD2u8,
            '╙' => 0xD3u8,
            '╘' => 0xD4u8,
            '╒' => 0xD5u8,
            '╓' => 0xD6u8,
            '╫' => 0xD7u8,
            '╪' => 0xD8u8,
            '┘' => 0xD9u8,
            '┌' => 0xDAu8,
            '█' => 0xDBu8,
            '▄' => 0xDCu8,
            '▌' => 0xDDu8,
            '▐' => 0xDEu8,
            '▀' => 0xDFu8,
            '↑' => 0x18u8,
            '↓' => 0x19u8,
            '→' => 0x1Au8,
            '←' => 0x1Bu8,
            _ => 0x3Fu8,
        }
    }
}

} // verus!
