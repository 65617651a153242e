//! The catalog of box-drawing styles.
use vstd::prelude::*;
use crate::error::Error;
use crate::text::str_eq;

verus! {

/// The eleven glyphs that draw a table's frame.
#[derive(Debug, Clone, Copy, PartialEq, Eq, Structural)]
pub struct Border {
    pub corner_up_left: char,
    pub corner_up_right: char,
    pub corner_bottom_left: char,
    pub corner_bottom_right: char,
    pub division_up: char,
    pub division_bottom: char,
    pub horizontal: char,
    pub vertical: char,
    pub intersection: char,
    pub vertical_left: char,
    pub vertical_right: char,
}

/// A named set of glyphs.
#[derive(Debug, Clone, Copy, PartialEq, Eq, Structural)]
pub enum BorderStyle {
    Default,
    Simple,
    Rounded,
    Double,
    SimpleDouble,
}

pub open spec fn glyphs(
    ul: char, ur: char, bl: char, br: char, du: char, db: char,
    h: char, v: char, x: char, vl: char, vr: char,
) -> Border {
    Border {
        corner_up_left: ul,
        corner_up_right: ur,
        corner_bottom_left: bl,
        corner_bottom_right: br,
        division_up: du,
        division_bottom: db,
        horizontal: h,
        vertical: v,
        intersection: x,
        vertical_left: vl,
        vertical_right: vr,
    }
}

/// The border that each style resolves to.
pub open spec fn border_of(s: BorderStyle) -> Border {
    match s {
        BorderStyle::Default => glyphs('┏', '┓', '┗', '┛', '┳', '┻', '━', '┃', '╋', '┣', '┫'),
        BorderStyle::Simple => glyphs('┌', '┐', '└', '┘', '┬', '┴', '─', '│', '┼', '├', '┤'),
        BorderStyle::Rounded => glyphs('╭', '╮', '╰', '╯', '┬', '┴', '─', '│', '┼', '├', '┤'),
        BorderStyle::Double => glyphs('╔', '╗', '╚', '╝', '╦', '╩', '═', '║', '╬', '╠', '╣'),
        BorderStyle::SimpleDouble => glyphs('╒', '╕', '╘', '╛', '╤', '╧', '═', '│', '╪', '╞', '╡'),
    }
}

/// The style that a configuration code selects.
pub open spec fn style_of_code(code: Seq<char>) -> Option<BorderStyle> {
    if code == seq!['1'] {
        Some(BorderStyle::Default)
    } else if code == seq!['2'] {
        Some(BorderStyle::Simple)
    } else if code == seq!['3'] {
        Some(BorderStyle::Rounded)
    } else if code == seq!['4'] {
        Some(BorderStyle::Double)
    } else if code == seq!['5'] {
        Some(BorderStyle::SimpleDouble)
    } else {
        None
    }
}

impl Default for BorderStyle {
    fn default() -> (r: BorderStyle)
        ensures
            r == BorderStyle::Default,
    {
        BorderStyle::Default
    }
}

impl BorderStyle {
    /// The glyphs of this style.
    pub fn get(&self) -> (r: Border)
        ensures
            r == border_of(*self),
    {
        match self {
            BorderStyle::Default => Border {
                corner_up_left: '┏',
                corner_up_right: '┓',
                corner_bottom_left: '┗',
                corner_bottom_right: '┛',
                division_up: '┳',
                division_bottom: '┻',
                horizontal: '━',
                vertical: '┃',
                intersection: '╋',
                vertical_left: '┣',
                vertical_right: '┫',
            },
            BorderStyle::Simple => Border {
                corner_up_left: '┌',
                corner_up_right: '┐',
                corner_bottom_left: '└',
                corner_bottom_right: '┘',
                division_up: '┬',
                division_bottom: '┴',
                horizontal: '─',
                vertical: '│',
                intersection: '┼',
                vertical_left: '├',
                vertical_right: '┤',
            },
            BorderStyle::Rounded => Border {
                corner_up_left: '╭',
                corner_up_right: '╮',
                corner_bottom_left: '╰',
                corner_bottom_right: '╯',
                division_up: '┬',
                division_bottom: '┴',
                horizontal: '─',
                vertical: '│',
                intersection: '┼',
                vertical_left: '├',
                vertical_right: '┤',
            },
            BorderStyle::Double => Border {
                corner_up_left: '╔',
                corner_up_right: '╗',
                corner_bottom_left: '╚',
                corner_bottom_right: '╝',
                division_up: '╦',
                division_bottom: '╩',
                horizontal: '═',
                vertical: '║',
                intersection: '╬',
                vertical_left: '╠',
                vertical_right: '╣',
            },
            BorderStyle::SimpleDouble => Border {
                corner_up_left: '╒',
                corner_up_right: '╕',
                corner_bottom_left: '╘',
                corner_bottom_right: '╛',
                division_up: '╤',
                division_bottom: '╧',
                horizontal: '═',
                vertical: '│',
                intersection: '╪',
                vertical_left: '╞',
                vertical_right: '╡',
            },
        }
    }

    /// The style selected by a configuration code, `"1"` to `"5"`; any other code
    /// is a configuration error.
    pub fn from_code(code: &str) -> (r: Result<BorderStyle, Error>)
        ensures
            style_of_code(code@) matches Some(s) ==> r == Ok::<BorderStyle, Error>(s),
            style_of_code(code@) is None ==> r matches Err(Error::Config(_)),
    {
        proof {
            reveal_strlit("1");
            assert("1"@ =~= seq!['1']);
            reveal_strlit("2");
            assert("2"@ =~= seq!['2']);
            reveal_strlit("3");
            assert("3"@ =~= seq!['3']);
            reveal_strlit("4");
            assert("4"@ =~= seq!['4']);
            reveal_strlit("5");
            assert("5"@ =~= seq!['5']);
        }
        if str_eq(code, "1") {
            Ok(BorderStyle::Default)
        } else if str_eq(code, "2") {
            Ok(BorderStyle::Simple)
        } else if str_eq(code, "3") {
            Ok(BorderStyle::Rounded)
        } else if str_eq(code, "4") {
            Ok(BorderStyle::Double)
        } else if str_eq(code, "5") {
            Ok(BorderStyle::SimpleDouble)
        } else {
            let mut m = String::from_str("unknown border style code: ");
            m.append(code);
            Err(Error::Config(m))
        }
    }
}

/// Resolving a style has no hidden state: two resolutions of one style give the
/// same glyphs.
pub proof fn lemma_resolve_deterministic(a: BorderStyle, b: BorderStyle)
    requires
        a == b,
    ensures
        border_of(a) == border_of(b),
{
}

/// In every style the glyphs that separate cells differ from the space that pads them.
pub proof fn lemma_frame_not_space(s: BorderStyle)
    ensures
        border_of(s).vertical != ' ',
        border_of(s).horizontal != ' ',
{
}

} // verus!
