//! Colours of bars and of the values printed after them.

use vstd::prelude::*;

verus! {

/// A 24-bit colour: red, green and blue.
#[derive(Debug, Clone, Copy, PartialEq, Eq, Structural)]
pub struct Color(pub u8, pub u8, pub u8);

impl Default for Color {
    /// White.
    fn default() -> (c: Self)
        ensures
            c == Color(255, 255, 255),
    {
        Color(255, 255, 255)
    }
}

/// The character of a digit.
pub open spec fn digit(n: int) -> char {
    if n == 0 {
        '0'
    } else if n == 1 {
        '1'
    } else if n == 2 {
        '2'
    } else if n == 3 {
        '3'
    } else if n == 4 {
        '4'
    } else if n == 5 {
        '5'
    } else if n == 6 {
        '6'
    } else if n == 7 {
        '7'
    } else if n == 8 {
        '8'
    } else {
        '9'
    }
}

/// A byte in decimal notation.
pub open spec fn digits(byte: u8) -> Seq<char> {
    let n = byte as int;
    if n < 10 {
        seq![digit(n)]
    } else if n < 100 {
        seq![digit(n / 10), digit(n % 10)]
    } else {
        seq![digit(n / 100), digit(n / 10 % 10), digit(n % 10)]
    }
}

/// The escape sequence that sets the foreground colour: `ESC [ 38 ; 2 ;`, the
/// three parts of the colour in decimal with `;` between them, and `m`.
pub open spec fn color_on(c: Color) -> Seq<char> {
    seq!['\u{1b}', '[', '3', '8', ';', '2', ';'] + digits(c.0) + seq![';'] + digits(c.1)
        + seq![';'] + digits(c.2) + seq!['m']
}

/// The escape sequence that sets the foreground colour back: `ESC [ 39 m`.
pub open spec fn color_off() -> Seq<char> {
    seq!['\u{1b}', '[', '3', '9', 'm']
}

/// `text` in the colour `c`: the text between the two escape sequences.
pub open spec fn painted(text: Seq<char>, c: Color) -> Seq<char> {
    color_on(c) + text + color_off()
}

impl Color {
    /// `text` in this colour.
    pub fn paint(&self, text: &str) -> (s: String)
        ensures
            s@ == painted(text@, *self),
    {
        truecolor(text, self.0, self.1, self.2)
    }
}

/// Calls `OwoColorize::truecolor` and writes the result to a `String`. The
/// contract claims that the result is the escape sequence that sets the
/// colour, the text as it is, and the escape sequence that sets the colour
/// back.
#[verifier::external_body]
fn truecolor(text: &str, red: u8, green: u8, blue: u8) -> (s: String)
    ensures
        s@ == painted(text@, Color(red, green, blue)),
{
    owo_colors::OwoColorize::truecolor(&text, red, green, blue).to_string()
}

} // verus!
