//! Terminal colouring of text with 24-bit ANSI escapes, through `owo_colors`.

use owo_colors::OwoColorize;
use vstd::prelude::*;

verus! {

/// The character of the decimal digit `d` (`0 <= d < 10`).
pub open spec fn digit_char(d: int) -> char {
    (d + 48) as char
}

/// `v` written with exactly three decimal digits, zero-padded on the left.
pub open spec fn decimal3(v: u8) -> Seq<char> {
    seq![digit_char(v as int / 100), digit_char((v as int / 10) % 10), digit_char(v as int % 10)]
}

/// The colour part `;rrr;ggg;bbbm` of a 24-bit colour escape.
pub open spec fn rgb_tail(r: u8, g: u8, b: u8) -> Seq<char> {
    seq![';'] + decimal3(r) + seq![';'] + decimal3(g) + seq![';'] + decimal3(b) + seq!['m']
}

/// `text` with the foreground colour `(r, g, b)`: `ESC[38;2;rrr;ggg;bbbm`, the text, `ESC[39m`.
pub open spec fn fg_rgb_text(text: Seq<char>, r: u8, g: u8, b: u8) -> Seq<char> {
    seq!['\x1b', '[', '3', '8', ';', '2'] + rgb_tail(r, g, b) + text + seq!['\x1b', '[', '3', '9', 'm']
}

/// `text` with the background colour `(r, g, b)`: `ESC[48;2;rrr;ggg;bbbm`, the text, `ESC[49m`.
pub open spec fn bg_rgb_text(text: Seq<char>, r: u8, g: u8, b: u8) -> Seq<char> {
    seq!['\x1b', '[', '4', '8', ';', '2'] + rgb_tail(r, g, b) + text + seq!['\x1b', '[', '4', '9', 'm']
}

/// Calls `OwoColorize::fg_rgb::<R, G, B>` on `text` and writes the result out with `to_string`.
/// In owo-colors 3.5 that display writes `CustomColor::<R, G, B>::ANSI_FG` (the escape
/// `ESC[38;2;` followed by each channel as three zero-padded decimal digits, separated by `;`,
/// and `m`), then the text, then `ESC[39m`; the contract claims exactly that string.
#[verifier::external_body]
pub fn fg_rgb_string<const R: u8, const G: u8, const B: u8>(text: &str) -> (s: String)
    ensures
        s@ == fg_rgb_text(text@, R, G, B),
{
    text.fg_rgb::<R, G, B>().to_string()
}

/// Calls `OwoColorize::bg_rgb::<R, G, B>` on `text` and writes the result out with `to_string`.
/// In owo-colors 3.5 that display writes `CustomColor::<R, G, B>::ANSI_BG` (`ESC[48;2;`, the three
/// channels as zero-padded three-digit decimals separated by `;`, and `m`), then the text, then
/// `ESC[49m`; the contract claims exactly that string.
#[verifier::external_body]
pub fn bg_rgb_string<const R: u8, const G: u8, const B: u8>(text: &str) -> (s: String)
    ensures
        s@ == bg_rgb_text(text@, R, G, B),
{
    text.bg_rgb::<R, G, B>().to_string()
}

} // verus!
