//! The table of formatting codes: sixteen colours and six styles, each picked by
//! one selector character.
use vstd::prelude::*;

verus! {

/// The character that starts a formatting code.
pub const MARKER: char = '§';

/// The style codes, in the order of their selectors `k` to `o`, then `r`.
#[derive(Clone, Copy, Debug, PartialEq, Eq, Structural)]
pub enum Extras {
    K,
    L,
    M,
    N,
    O,
    R,
}

/// The sixteen colour codes.
#[derive(Clone, Copy, Debug, PartialEq, Eq, Structural)]
pub enum CodeToHex {
    Black,
    White,
    DarkBlue,
    Blue,
    DarkGreen,
    Green,
    DarkAqua,
    Aqua,
    DarkRed,
    Red,
    DarkPurple,
    LightPurple,
    Gold,
    Yellow,
    DarkGray,
    Gray,
}

/// The declaration a style code stands for.
pub open spec fn declaration(e: Extras) -> Seq<char> {
    match e {
        Extras::K => "obfuscated;"@,
        Extras::L => "font-weight: bold;"@,
        Extras::M => "text-decoration: line-through;"@,
        Extras::N => "text-decoration: underline;"@,
        Extras::O => "font-style: italic;"@,
        Extras::R => "color: inherit;text-decoration: none !important;font-weight:normal!important;font-style: normal!important;"@,
    }
}

/// The style picked by a lower-case selector.
pub open spec fn style_of_lower(c: char) -> Option<Extras> {
    if c == 'k' {
        Some(Extras::K)
    } else if c == 'l' {
        Some(Extras::L)
    } else if c == 'm' {
        Some(Extras::M)
    } else if c == 'n' {
        Some(Extras::N)
    } else if c == 'o' {
        Some(Extras::O)
    } else if c == 'r' {
        Some(Extras::R)
    } else {
        None
    }
}

/// The style picked by a selector of either case.
pub open spec fn style_of(c: char) -> Option<Extras> {
    style_of_lower(fold_case(c))
}

/// The ASCII upper-case letters among the selectors, taken to lower case; any
/// other character is kept.
pub open spec fn fold_case(c: char) -> char {
    if c == 'A' {
        'a'
    } else if c == 'B' {
        'b'
    } else if c == 'C' {
        'c'
    } else if c == 'D' {
        'd'
    } else if c == 'E' {
        'e'
    } else if c == 'F' {
        'f'
    } else if c == 'K' {
        'k'
    } else if c == 'L' {
        'l'
    } else if c == 'M' {
        'm'
    } else if c == 'N' {
        'n'
    } else if c == 'O' {
        'o'
    } else if c == 'R' {
        'r'
    } else {
        c
    }
}

/// The colour number (0 to 15) that a lower-case hexadecimal digit selects.
pub open spec fn digit_of_lower(c: char) -> Option<u8> {
    if '0' <= c && c <= '9' {
        Some((c as u32 - '0' as u32) as u8)
    } else if 'a' <= c && c <= 'f' {
        Some((c as u32 - 'a' as u32 + 10) as u8)
    } else {
        None
    }
}

/// The colour number that a selector of either case selects.
pub open spec fn digit_of(c: char) -> Option<u8> {
    digit_of_lower(fold_case(c))
}

/// A character that may follow the marker to form a code.
pub open spec fn is_selector(c: char) -> bool {
    digit_of(c) is Some || style_of(c) is Some
}

/// The colour with the given number; white for any number above 15.
pub open spec fn color_of_number(n: int) -> CodeToHex {
    if n == 0 {
        CodeToHex::Black
    } else if n == 1 {
        CodeToHex::DarkBlue
    } else if n == 2 {
        CodeToHex::DarkGreen
    } else if n == 3 {
        CodeToHex::DarkAqua
    } else if n == 4 {
        CodeToHex::DarkRed
    } else if n == 5 {
        CodeToHex::DarkPurple
    } else if n == 6 {
        CodeToHex::Gold
    } else if n == 7 {
        CodeToHex::Gray
    } else if n == 8 {
        CodeToHex::DarkGray
    } else if n == 9 {
        CodeToHex::Blue
    } else if n == 10 {
        CodeToHex::Green
    } else if n == 11 {
        CodeToHex::Aqua
    } else if n == 12 {
        CodeToHex::Red
    } else if n == 13 {
        CodeToHex::LightPurple
    } else if n == 14 {
        CodeToHex::Yellow
    } else {
        CodeToHex::White
    }
}

/// The hexadecimal value of a colour, as `#RRGGBB`.
pub open spec fn hex(c: CodeToHex) -> Seq<char> {
    match c {
        CodeToHex::Black => "#000000"@,
        CodeToHex::DarkBlue => "#0000AA"@,
        CodeToHex::DarkGreen => "#00AA00"@,
        CodeToHex::DarkAqua => "#00AAAA"@,
        CodeToHex::DarkRed => "#AA0000"@,
        CodeToHex::DarkPurple => "#AA00AA"@,
        CodeToHex::Gold => "#FFAA00"@,
        CodeToHex::Gray => "#AAAAAA"@,
        CodeToHex::DarkGray => "#555555"@,
        CodeToHex::Blue => "#5555FF"@,
        CodeToHex::Green => "#55FF55"@,
        CodeToHex::Aqua => "#55FFFF"@,
        CodeToHex::Red => "#FF5555"@,
        CodeToHex::LightPurple => "#FF55FF"@,
        CodeToHex::Yellow => "#FFFF55"@,
        CodeToHex::White => "#FFFFFF"@,
    }
}

/// The declaration of the style that a two-character symbol (marker and
/// lower-case selector) names; empty for any other text.
pub open spec fn style_text_of_symbol(t: Seq<char>) -> Seq<char> {
    if t.len() == 2 && t[0] == MARKER && style_of_lower(t[1]) is Some {
        declaration(style_of_lower(t[1])->0)
    } else {
        Seq::empty()
    }
}

/// The hexadecimal value of the colour that a two-character symbol (marker and
/// lower-case digit) names; white's for any other text.
pub open spec fn hex_of_symbol(t: Seq<char>) -> Seq<char> {
    if t.len() == 2 && t[0] == MARKER && digit_of_lower(t[1]) is Some {
        hex(color_of_number(digit_of_lower(t[1])->0 as int))
    } else {
        hex(CodeToHex::White)
    }
}

/// The style that a selector of either case picks, if any.
pub fn style_for(c: char) -> (r: Option<Extras>)
    ensures
        r == style_of(c),
{
    let l = fold_selector_case(c);
    if l == 'k' {
        Some(Extras::K)
    } else if l == 'l' {
        Some(Extras::L)
    } else if l == 'm' {
        Some(Extras::M)
    } else if l == 'n' {
        Some(Extras::N)
    } else if l == 'o' {
        Some(Extras::O)
    } else if l == 'r' {
        Some(Extras::R)
    } else {
        None
    }
}

/// The colour number that a selector of either case picks, if any.
pub fn digit_for(c: char) -> (r: Option<u8>)
    ensures
        r == digit_of(c),
{
    let l = fold_selector_case(c);
    if '0' <= l && l <= '9' {
        Some((l as u32 - '0' as u32) as u8)
    } else if 'a' <= l && l <= 'f' {
        Some((l as u32 - 'a' as u32 + 10) as u8)
    } else {
        None
    }
}

/// Whether a character may follow the marker to form a code.
pub fn selector_check(c: char) -> (r: bool)
    ensures
        r == is_selector(c),
{
    digit_for(c).is_some() || style_for(c).is_some()
}

/// Takes the upper-case selector letters to lower case.
pub fn fold_selector_case(c: char) -> (r: char)
    ensures
        r == fold_case(c),
{
    if c == 'A' {
        'a'
    } else if c == 'B' {
        'b'
    } else if c == 'C' {
        'c'
    } else if c == 'D' {
        'd'
    } else if c == 'E' {
        'e'
    } else if c == 'F' {
        'f'
    } else if c == 'K' {
        'k'
    } else if c == 'L' {
        'l'
    } else if c == 'M' {
        'm'
    } else if c == 'N' {
        'n'
    } else if c == 'O' {
        'o'
    } else if c == 'R' {
        'r'
    } else {
        c
    }
}

/// Whether `s` holds exactly the marker followed by `c`.
fn is_symbol(s: &String, c: char) -> (r: bool)
    ensures
        r == (s@ == seq![MARKER, c]),
{
    let t = s.as_str();
    if t.unicode_len() != 2 {
        return false;
    }
    let ok = t.get_char(0) == MARKER && t.get_char(1) == c;
    proof {
        if ok {
            assert(s@ =~= seq![MARKER, c]);
        }
    }
    ok
}

/// Whether `s` holds exactly the one character `c`.
fn is_single(s: &String, c: char) -> (r: bool)
    ensures
        r == (s@ == seq![c]),
{
    let t = s.as_str();
    if t.unicode_len() != 1 {
        return false;
    }
    let ok = t.get_char(0) == c;
    proof {
        if ok {
            assert(s@ =~= seq![c]);
        }
    }
    ok
}

impl Extras {
    /// The declaration this style stands for.
    pub fn get(&self) -> (r: &'static str)
        ensures
            r@ == declaration(*self),
    {
        match self {
            Extras::K => "obfuscated;",
            Extras::L => "font-weight: bold;",
            Extras::M => "text-decoration: line-through;",
            Extras::N => "text-decoration: underline;",
            Extras::O => "font-style: italic;",
            Extras::R => "color: inherit;text-decoration: none !important;font-weight:normal!important;font-style: normal!important;",
        }
    }

    /// The declaration of the style named by a marker and a lower-case
    /// selector (`"§l"`); empty for any other text.
    pub fn get_from_symbol(symbol: &String) -> (r: &'static str)
        ensures
            r@ == style_text_of_symbol(symbol@),
    {
        proof {
            reveal_strlit("");
        }
        if is_symbol(symbol, 'k') {
            Extras::K.get()
        } else if is_symbol(symbol, 'l') {
            Extras::L.get()
        } else if is_symbol(symbol, 'm') {
            Extras::M.get()
        } else if is_symbol(symbol, 'n') {
            Extras::N.get()
        } else if is_symbol(symbol, 'o') {
            Extras::O.get()
        } else if is_symbol(symbol, 'r') {
            Extras::R.get()
        } else {
            proof {
                if symbol@.len() == 2 {
                    assert(symbol@ =~= seq![symbol@[0], symbol@[1]]);
                }
                assert(""@ =~= Seq::<char>::empty());
            }
            ""
        }
    }

    /// The declaration of the style named by a lone lower-case selector
    /// (`"l"`); empty for any other text.
    pub fn get_from_code(code: &String) -> (r: &'static str)
        ensures
            r@ == (if code@.len() == 1 && style_of_lower(code@[0]) is Some {
                declaration(style_of_lower(code@[0])->0)
            } else {
                Seq::empty()
            }),
    {
        proof {
            reveal_strlit("");
        }
        if is_single(code, 'k') {
            Extras::K.get()
        } else if is_single(code, 'l') {
            Extras::L.get()
        } else if is_single(code, 'm') {
            Extras::M.get()
        } else if is_single(code, 'n') {
            Extras::N.get()
        } else if is_single(code, 'o') {
            Extras::O.get()
        } else if is_single(code, 'r') {
            Extras::R.get()
        } else {
            proof {
                if code@.len() == 1 {
                    assert(code@ =~= seq![code@[0]]);
                }
                assert(""@ =~= Seq::<char>::empty());
            }
            ""
        }
    }
}

impl CodeToHex {
    /// The hexadecimal value of this colour.
    pub fn get(&self) -> (r: &'static str)
        ensures
            r@ == hex(*self),
    {
        match self {
            CodeToHex::Black => "#000000",
            CodeToHex::DarkBlue => "#0000AA",
            CodeToHex::DarkGreen => "#00AA00",
            CodeToHex::DarkAqua => "#00AAAA",
            CodeToHex::DarkRed => "#AA0000",
            CodeToHex::DarkPurple => "#AA00AA",
            CodeToHex::Gold => "#FFAA00",
            CodeToHex::Gray => "#AAAAAA",
            CodeToHex::DarkGray => "#555555",
            CodeToHex::Blue => "#5555FF",
            CodeToHex::Green => "#55FF55",
            CodeToHex::Aqua => "#55FFFF",
            CodeToHex::Red => "#FF5555",
            CodeToHex::LightPurple => "#FF55FF",
            CodeToHex::Yellow => "#FFFF55",
            CodeToHex::White => "#FFFFFF",
        }
    }

    /// The colour with the given number; white above 15.
    pub fn from_number(n: u8) -> (r: CodeToHex)
        ensures
            r == color_of_number(n as int),
    {
        if n == 0 {
            CodeToHex::Black
        } else if n == 1 {
            CodeToHex::DarkBlue
        } else if n == 2 {
            CodeToHex::DarkGreen
        } else if n == 3 {
            CodeToHex::DarkAqua
        } else if n == 4 {
            CodeToHex::DarkRed
        } else if n == 5 {
            CodeToHex::DarkPurple
        } else if n == 6 {
            CodeToHex::Gold
        } else if n == 7 {
            CodeToHex::Gray
        } else if n == 8 {
            CodeToHex::DarkGray
        } else if n == 9 {
            CodeToHex::Blue
        } else if n == 10 {
            CodeToHex::Green
        } else if n == 11 {
            CodeToHex::Aqua
        } else if n == 12 {
            CodeToHex::Red
        } else if n == 13 {
            CodeToHex::LightPurple
        } else if n == 14 {
            CodeToHex::Yellow
        } else {
            CodeToHex::White
        }
    }

    /// The hexadecimal value of the colour named by a marker and a lower-case
    /// digit (`"§a"`); white's for any other text.
    pub fn get_from_symbol(symbol: &String) -> (r: &'static str)
        ensures
            r@ == hex_of_symbol(symbol@),
    {
        let t = symbol.as_str();
        if t.unicode_len() == 2 && t.get_char(0) == MARKER {
            let c = t.get_char(1);
            let d = if '0' <= c && c <= '9' {
                Some((c as u32 - '0' as u32) as u8)
            } else if 'a' <= c && c <= 'f' {
                Some((c as u32 - 'a' as u32 + 10) as u8)
            } else {
                None
            };
            match d {
                Some(n) => CodeToHex::from_number(n).get(),
                None => CodeToHex::White.get(),
            }
        } else {
            CodeToHex::White.get()
        }
    }

    /// The hexadecimal value of the colour with the given number; white's
    /// above 15.
    pub fn get_from_code(code: &u8) -> (r: &'static str)
        ensures
            r@ == hex(color_of_number(*code as int)),
    {
        CodeToHex::from_number(*code).get()
    }
}

} // verus!
