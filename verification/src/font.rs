//! Text faces: styles, underlines, and the errors of reading them from
//! configuration values.

use vstd::prelude::*;

use crate::text::str_eq;
use crate::types::{Rgba, TomlToRgbaError};

verus! {

/// How a face's glyphs are drawn.
#[derive(Copy, Clone, PartialEq, Eq, Debug, Structural)]
pub enum Style {
    Plain,
    Bold,
    Italic,
    BoldItalic,
    Oblique,
}

/// How a face is underlined, and in what color.
#[derive(Copy, Clone, PartialEq, Eq, Debug)]
pub enum Underline {
    Plain,
    Normal(Rgba),
    Squiggly(Rgba),
}

/// A style name that no style carries.
#[derive(Debug)]
pub struct StringToStyleError(pub String);

/// The style a configuration word names, if any.  The words are matched
/// exactly, lower case.
pub open spec fn parse_style(s: Seq<char>) -> Option<Style> {
    if s == "none"@ {
        Some(Style::Plain)
    } else if s == "bold"@ {
        Some(Style::Bold)
    } else if s == "italic"@ {
        Some(Style::Italic)
    } else if s == "bolditalic"@ || s == "italicbold"@ || s == "bold_italic"@ || s
        == "italic_bold"@ {
        Some(Style::BoldItalic)
    } else if s == "oblique"@ {
        Some(Style::Oblique)
    } else {
        None
    }
}

impl Style {
    /// Reads a style from its configuration word; an unknown word comes
    /// back inside the error.
    pub fn try_from_string(value: String) -> (r: Result<Style, StringToStyleError>)
        ensures
            match r {
                Ok(st) => parse_style(value@) == Some(st),
                Err(StringToStyleError(w)) => parse_style(value@) is None && w@ == value@,
            },
    {
        let s = value.as_str();
        if str_eq(s, "none") {
            Ok(Style::Plain)
        } else if str_eq(s, "bold") {
            Ok(Style::Bold)
        } else if str_eq(s, "italic") {
            Ok(Style::Italic)
        } else if str_eq(s, "bolditalic") || str_eq(s, "italicbold") || str_eq(s, "bold_italic")
            || str_eq(s, "italic_bold") {
            Ok(Style::BoldItalic)
        } else if str_eq(s, "oblique") {
            Ok(Style::Oblique)
        } else {
            Err(StringToStyleError(value))
        }
    }
}

impl Default for Style {
    /// No particular style.
    fn default() -> (s: Style)
        ensures
            s == Style::Plain,
    {
        Style::Plain
    }
}

/// Reading an underline from configuration failed.
#[derive(Debug)]
pub enum TomlToUnderlineError {
    ColorFieldMissing,
    TypeFieldMissing,
    RgbaParseError(TomlToRgbaError),
    TypeParseError,
}

impl From<TomlToRgbaError> for TomlToUnderlineError {
    /// A color that would not read wraps its error.
    fn from(value: TomlToRgbaError) -> (r: TomlToUnderlineError) {
        TomlToUnderlineError::RgbaParseError(value)
    }
}

impl vstd::std_specs::convert::FromSpecImpl<TomlToRgbaError> for TomlToUnderlineError {
    open spec fn obeys_from_spec() -> bool {
        true
    }

    open spec fn from_spec(v: TomlToRgbaError) -> TomlToUnderlineError {
        TomlToUnderlineError::RgbaParseError(v)
    }
}

/// The underline a configuration word names, given the color that goes
/// with it.
pub open spec fn parse_underline(kind: Seq<char>, color: Rgba) -> Option<Underline> {
    if kind == "none"@ {
        Some(Underline::Plain)
    } else if kind == "normal"@ {
        Some(Underline::Normal(color))
    } else if kind == "squiggly"@ {
        Some(Underline::Squiggly(color))
    } else {
        None
    }
}

impl Underline {
    /// Reads an underline from its configuration word and color; an
    /// unknown word is a type-parse failure.
    pub fn from_parts(kind: &str, color: Rgba) -> (r: Result<Underline, TomlToUnderlineError>)
        ensures
            match r {
                Ok(u) => parse_underline(kind@, color) == Some(u),
                Err(e) => parse_underline(kind@, color) is None && e
                    == TomlToUnderlineError::TypeParseError,
            },
    {
        if str_eq(kind, "none") {
            Ok(Underline::Plain)
        } else if str_eq(kind, "normal") {
            Ok(Underline::Normal(color))
        } else if str_eq(kind, "squiggly") {
            Ok(Underline::Squiggly(color))
        } else {
            Err(TomlToUnderlineError::TypeParseError)
        }
    }
}

impl Default for Underline {
    /// No underline.
    fn default() -> (u: Underline)
        ensures
            u == Underline::Plain,
    {
        Underline::Plain
    }
}

/// The fields a face configuration may lack.
#[derive(Debug)]
pub enum TomlFaceFields {
    Foreground,
    Background,
    Scale,
}

/// Reading a whole face from configuration failed.
#[derive(Debug)]
pub enum TomlFaceParseError {
    RgbaParse(TomlToRgbaError),
    FieldMissing(TomlFaceFields),
    StringParse(String),
    UnderLineParse(TomlToUnderlineError),
}

impl From<TomlToUnderlineError> for TomlFaceParseError {
    /// An underline that would not read wraps its error.
    fn from(value: TomlToUnderlineError) -> (r: TomlFaceParseError) {
        TomlFaceParseError::UnderLineParse(value)
    }
}

impl vstd::std_specs::convert::FromSpecImpl<TomlToUnderlineError> for TomlFaceParseError {
    open spec fn obeys_from_spec() -> bool {
        true
    }

    open spec fn from_spec(v: TomlToUnderlineError) -> TomlFaceParseError {
        TomlFaceParseError::UnderLineParse(v)
    }
}

impl From<TomlToRgbaError> for TomlFaceParseError {
    /// A color that would not read wraps its error.
    fn from(value: TomlToRgbaError) -> (r: TomlFaceParseError) {
        TomlFaceParseError::RgbaParse(value)
    }
}

impl vstd::std_specs::convert::FromSpecImpl<TomlToRgbaError> for TomlFaceParseError {
    open spec fn obeys_from_spec() -> bool {
        true
    }

    open spec fn from_spec(v: TomlToRgbaError) -> TomlFaceParseError {
        TomlFaceParseError::RgbaParse(v)
    }
}

impl From<StringToStyleError> for TomlFaceParseError {
    /// A style word that no style carries comes back as text.
    fn from(value: StringToStyleError) -> (r: TomlFaceParseError) {
        match value {
            StringToStyleError(s) => TomlFaceParseError::StringParse(s),
        }
    }
}

impl vstd::std_specs::convert::FromSpecImpl<StringToStyleError> for TomlFaceParseError {
    open spec fn obeys_from_spec() -> bool {
        true
    }

    open spec fn from_spec(v: StringToStyleError) -> TomlFaceParseError {
        match v {
            StringToStyleError(s) => TomlFaceParseError::StringParse(s),
        }
    }
}

/// A font file that would not open.
#[derive(Debug)]
pub struct FontOpenError {
    error: &'static str,
}

impl FontOpenError {
    /// The loader's message.
    pub closed spec fn spec_message(&self) -> Seq<char> {
        self.error@
    }

    /// Wraps the loader's message.
    pub fn new(error: &'static str) -> (e: FontOpenError)
        ensures
            e.spec_message() == error@,
    {
        FontOpenError { error }
    }

    /// The loader's message.
    pub fn message(&self) -> (r: &'static str)
        ensures
            r@ == self.spec_message(),
    {
        self.error
    }
}

} // verus!
