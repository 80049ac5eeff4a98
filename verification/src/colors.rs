//! Command colors: turning a declared color into a terminal color.
//!
//! A color is declared by RGB triple, by ANSI code, or by one of the
//! named palette colors; declaring more than one of the three is an
//! error, as is an unknown name.

use vstd::prelude::*;
use vstd::string::StrSliceExecFns;

use crate::command_definitions::{ColorDefinition, CommandDefinition};
use crate::errors::Error;

verus! {

/// A terminal color, as the drawing layer understands it.
#[derive(Debug, Clone, Copy, PartialEq, Eq, Structural)]
pub enum TermColor {
    Rgb(u8, u8, u8),
    Ansi(u8),
    Black,
    DarkGrey,
    Red,
    DarkRed,
    Green,
    DarkGreen,
    Yellow,
    DarkYellow,
    Blue,
    DarkBlue,
    Magenta,
    DarkMagenta,
    Cyan,
    DarkCyan,
    White,
    Grey,
}

/// What `str::to_lowercase` returns; the Unicode lowercase mapping is
/// not restated here.
pub uninterp spec fn lower_of(s: Seq<char>) -> Seq<char>;

/// Relies on str::to_lowercase: the lowercase form of the string, a
/// function of its characters alone.
#[verifier::external_body]
pub fn lowercase_string(s: &str) -> (r: String)
    ensures
        r@ == lower_of(s@),
{
    s.to_lowercase()
}

/// Compares two strings character by character.
pub fn str_eq(a: &str, b: &str) -> (r: bool)
    ensures
        r == (a@ == b@),
{
    let n = a.unicode_len();
    let m = b.unicode_len();
    if n != m {
        proof {
            assert(a@ != b@) by {
                if a@ == b@ {
                    assert(a@.len() == b@.len());
                }
            }
        }
        return false;
    }
    let mut i: usize = 0;
    while i < n
        invariant
            i <= n,
            n == a@.len(),
            n == b@.len(),
            forall|k: int| 0 <= k < i ==> a@[k] == b@[k],
        decreases n - i,
    {
        if a.get_char(i) != b.get_char(i) {
            proof {
                assert(a@[i as int] != b@[i as int]);
            }
            return false;
        }
        i += 1;
    }
    proof {
        assert(a@ =~= b@);
    }
    true
}

/// The palette color of a lowercased name, if the name is known.
pub open spec fn spec_named_color(lower: Seq<char>) -> Option<TermColor> {
    if lower == "black"@ {
        Some(TermColor::Black)
    } else if lower == "darkgrey"@ {
        Some(TermColor::DarkGrey)
    } else if lower == "red"@ {
        Some(TermColor::Red)
    } else if lower == "darkred"@ {
        Some(TermColor::DarkRed)
    } else if lower == "green"@ {
        Some(TermColor::Green)
    } else if lower == "darkgreen"@ {
        Some(TermColor::DarkGreen)
    } else if lower == "yellow"@ {
        Some(TermColor::Yellow)
    } else if lower == "darkyellow"@ {
        Some(TermColor::DarkYellow)
    } else if lower == "blue"@ {
        Some(TermColor::Blue)
    } else if lower == "darkblue"@ {
        Some(TermColor::DarkBlue)
    } else if lower == "magenta"@ {
        Some(TermColor::Magenta)
    } else if lower == "darkmagenta"@ {
        Some(TermColor::DarkMagenta)
    } else if lower == "cyan"@ {
        Some(TermColor::Cyan)
    } else if lower == "darkcyan"@ {
        Some(TermColor::DarkCyan)
    } else if lower == "white"@ {
        Some(TermColor::White)
    } else if lower == "grey"@ {
        Some(TermColor::Grey)
    } else {
        None
    }
}

/// How a declared color can be wrong.
pub enum ColorFailure {
    /// More than one of the three kinds was declared.
    TooMany,
    /// The named color is unknown; carries the declared name.
    Unknown(Seq<char>),
}

/// What a declared color means: nothing when nothing is declared, an
/// error when more than one kind is declared or a name is unknown, else
/// the terminal color.
pub open spec fn spec_as_term_color(c: &ColorDefinition) -> Result<Option<TermColor>, ColorFailure> {
    let defined = (if c.rgb is Some {
        1int
    } else {
        0
    }) + (if c.ansi is Some {
        1int
    } else {
        0
    }) + (if c.name is Some {
        1int
    } else {
        0
    });
    if defined > 1 {
        Err(ColorFailure::TooMany)
    } else {
        match (c.rgb, c.ansi, c.name) {
            (Some(t), _, _) => Ok(Some(TermColor::Rgb(t.0, t.1, t.2))),
            (_, Some(a), _) => Ok(Some(TermColor::Ansi(a))),
            (_, _, Some(name)) => match spec_named_color(lower_of(name@)) {
                Some(col) => Ok(Some(col)),
                None => Err(ColorFailure::Unknown(name@)),
            },
            _ => Ok(None),
        }
    }
}

/// Turns one declared color into a terminal color: exactly one of the
/// three kinds may be declared; a named color must be one of the known
/// palette names, compared after lowercasing.
pub fn as_term_color(c: &ColorDefinition) -> (r: Result<Option<TermColor>, Error>)
    ensures
        (match spec_as_term_color(c) {
            Ok(col) => r matches Ok(rc) && rc == col,
            Err(f) => r matches Err(e) && (match f {
                ColorFailure::TooMany => e is MultipleColorTypes,
                ColorFailure::Unknown(name) => e matches Error::UnknownColorName(s) && s@ == name,
            }),
        }),
{
    let mut defined: u32 = 0;
    if c.rgb.is_some() {
        defined = defined + 1;
    }
    if c.ansi.is_some() {
        defined = defined + 1;
    }
    if c.name.is_some() {
        defined = defined + 1;
    }
    if defined > 1 {
        return Err(Error::MultipleColorTypes);
    }
    match (&c.rgb, &c.ansi, &c.name) {
        (Some(t), _, _) => Ok(Some(TermColor::Rgb(t.0, t.1, t.2))),
        (_, Some(a), _) => Ok(Some(TermColor::Ansi(*a))),
        (_, _, Some(name)) => {
            let low = lowercase_string(name.as_str());
            let l = low.as_str();
            if str_eq(l, "black") {
                Ok(Some(TermColor::Black))
            } else if str_eq(l, "darkgrey") {
                Ok(Some(TermColor::DarkGrey))
            } else if str_eq(l, "red") {
                Ok(Some(TermColor::Red))
            } else if str_eq(l, "darkred") {
                Ok(Some(TermColor::DarkRed))
            } else if str_eq(l, "green") {
                Ok(Some(TermColor::Green))
            } else if str_eq(l, "darkgreen") {
                Ok(Some(TermColor::DarkGreen))
            } else if str_eq(l, "yellow") {
                Ok(Some(TermColor::Yellow))
            } else if str_eq(l, "darkyellow") {
                Ok(Some(TermColor::DarkYellow))
            } else if str_eq(l, "blue") {
                Ok(Some(TermColor::Blue))
            } else if str_eq(l, "darkblue") {
                Ok(Some(TermColor::DarkBlue))
            } else if str_eq(l, "magenta") {
                Ok(Some(TermColor::Magenta))
            } else if str_eq(l, "darkmagenta") {
                Ok(Some(TermColor::DarkMagenta))
            } else if str_eq(l, "cyan") {
                Ok(Some(TermColor::Cyan))
            } else if str_eq(l, "darkcyan") {
                Ok(Some(TermColor::DarkCyan))
            } else if str_eq(l, "white") {
                Ok(Some(TermColor::White))
            } else if str_eq(l, "grey") {
                Ok(Some(TermColor::Grey))
            } else {
                Err(Error::UnknownColorName(name.clone()))
            }
        },
        _ => Ok(None),
    }
}

/// The color behind an optional declaration: nothing when none is
/// declared.
pub fn color_from_metadata_attribute(color_definition: &Option<ColorDefinition>) -> (r: Result<
    Option<TermColor>,
    Error,
>)
    ensures
        (match color_definition {
            None => r matches Ok(c) && c is None,
            Some(cd) => (match spec_as_term_color(cd) {
                Ok(col) => r matches Ok(rc) && rc == col,
                Err(f) => r matches Err(e) && (match f {
                    ColorFailure::TooMany => e is MultipleColorTypes,
                    ColorFailure::Unknown(name) => e matches Error::UnknownColorName(s) && s@
                        == name,
                }),
            }),
        }),
{
    match color_definition {
        None => Ok(None),
        Some(cd) => as_term_color(cd),
    }
}

/// The declared text color of a command, if any.
pub fn foreground_color(cmd: &CommandDefinition) -> (r: Result<Option<TermColor>, Error>)
    ensures
        (match cmd.metadata {
            None => r matches Ok(c) && c is None,
            Some(md) => (match md.foreground_color {
                None => r matches Ok(c) && c is None,
                Some(cd) => (match spec_as_term_color(&cd) {
                    Ok(col) => r matches Ok(rc) && rc == col,
                    Err(f) => r matches Err(e) && (match f {
                        ColorFailure::TooMany => e is MultipleColorTypes,
                        ColorFailure::Unknown(name) => e matches Error::UnknownColorName(s) && s@
                            == name,
                    }),
                }),
            }),
        }),
{
    match &cmd.metadata {
        Some(metadata) => color_from_metadata_attribute(&metadata.foreground_color),
        None => Ok(None),
    }
}

/// The declared background color of a command, if any.
pub fn background_color(cmd: &CommandDefinition) -> (r: Result<Option<TermColor>, Error>)
    ensures
        (match cmd.metadata {
            None => r matches Ok(c) && c is None,
            Some(md) => (match md.background_color {
                None => r matches Ok(c) && c is None,
                Some(cd) => (match spec_as_term_color(&cd) {
                    Ok(col) => r matches Ok(rc) && rc == col,
                    Err(f) => r matches Err(e) && (match f {
                        ColorFailure::TooMany => e is MultipleColorTypes,
                        ColorFailure::Unknown(name) => e matches Error::UnknownColorName(s) && s@
                            == name,
                    }),
                }),
            }),
        }),
{
    match &cmd.metadata {
        Some(metadata) => color_from_metadata_attribute(&metadata.background_color),
        None => Ok(None),
    }
}

} // verus!
