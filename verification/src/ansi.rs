//! The escape sequences that the timer sends to the console.
//!
//! Every function here returns the text of one sequence; nothing is written
//! anywhere. A sequence starts with the escape character, and all but the reset
//! continue with `[`, parameters in decimal, and one final letter.

use crate::decimal::{decimal, decimal_digits};
use vstd::prelude::*;
use vstd::string::*;

verus! {

/// The renditions that the timer switches on and off.
#[derive(Clone, Copy, Debug, PartialEq, Eq, Structural)]
pub enum TextMode {
    Bold,
    Negative,
    Positive,
    DisableBold,
    Black,
    Red,
    DefaultColor,
}

impl TextMode {
    /// The parameter that selects this rendition.
    pub open spec fn spec_code(self) -> nat {
        match self {
            TextMode::Bold => 1,
            TextMode::Negative => 7,
            TextMode::Positive => 27,
            TextMode::DisableBold => 22,
            TextMode::Black => 30,
            TextMode::Red => 31,
            TextMode::DefaultColor => 39,
        }
    }

    /// The parameter that selects this rendition.
    pub fn code(self) -> (r: u8)
        ensures
            r == self.spec_code(),
    {
        match self {
            TextMode::Bold => 1,
            TextMode::Negative => 7,
            TextMode::Positive => 27,
            TextMode::DisableBold => 22,
            TextMode::Black => 30,
            TextMode::Red => 31,
            TextMode::DefaultColor => 39,
        }
    }
}

/// The two characters that introduce a control sequence.
pub open spec fn csi() -> Seq<char> {
    seq!['\u{1b}', '[']
}

/// The sequence that selects the rendition `mode`.
pub open spec fn text_mode_text(mode: TextMode) -> Seq<char> {
    csi() + decimal_digits(mode.spec_code()) + seq!['m']
}

/// The sequence that moves the cursor to the position `x`;`y`.
pub open spec fn cursor_position_text(x: nat, y: nat) -> Seq<char> {
    csi() + decimal_digits(x) + seq![';'] + decimal_digits(y) + seq!['H']
}

/// The sequence that resets the console.
pub open spec fn clear_console_text() -> Seq<char> {
    seq!['\u{1b}', 'c']
}

/// The sequence that erases from the cursor to the end of the screen.
pub open spec fn clear_line_text() -> Seq<char> {
    csi() + seq!['J']
}

/// The sequence that hides the cursor.
pub open spec fn hide_cursor_text() -> Seq<char> {
    csi() + seq!['?', '2', '5', 'l']
}

/// The sequence that moves the cursor to the position `x`;`y`.
pub fn set_cursor_position(x: u32, y: u32) -> (r: String)
    ensures
        r@ == cursor_position_text(x as nat, y as nat),
{
    proof {
        reveal_strlit("\u{1b}[");
        reveal_strlit(";");
        reveal_strlit("H");
    }
    let mut r: String = String::from_str("\u{1b}[");
    let column: String = decimal(x as u64);
    r.append(column.as_str());
    r.append(";");
    let row: String = decimal(y as u64);
    r.append(row.as_str());
    r.append("H");
    assert(r@ =~= cursor_position_text(x as nat, y as nat));
    r
}

/// The sequence that selects the rendition `mode`.
pub fn text_mode(mode: TextMode) -> (r: String)
    ensures
        r@ == text_mode_text(mode),
{
    proof {
        reveal_strlit("\u{1b}[");
        reveal_strlit("m");
    }
    let mut r: String = String::from_str("\u{1b}[");
    let code: String = decimal(mode.code() as u64);
    r.append(code.as_str());
    r.append("m");
    assert(r@ =~= text_mode_text(mode));
    r
}

/// The sequence that resets the console.
pub fn clear_console() -> (r: String)
    ensures
        r@ == clear_console_text(),
{
    proof {
        reveal_strlit("\u{1b}c");
    }
    let r: String = String::from_str("\u{1b}c");
    assert(r@ =~= clear_console_text());
    r
}

/// The sequence that erases from the cursor to the end of the screen.
pub fn clear_line() -> (r: String)
    ensures
        r@ == clear_line_text(),
{
    proof {
        reveal_strlit("\u{1b}[J");
    }
    let r: String = String::from_str("\u{1b}[J");
    assert(r@ =~= clear_line_text());
    r
}

/// The sequence that hides the cursor.
pub fn hide_cursor() -> (r: String)
    ensures
        r@ == hide_cursor_text(),
{
    proof {
        reveal_strlit("\u{1b}[?25l");
    }
    let r: String = String::from_str("\u{1b}[?25l");
    assert(r@ =~= hide_cursor_text());
    r
}

} // verus!
