//! The colour grammar: a named preset or four channel values.

use crate::error::GrammarError;
use crate::render::{
    call, is_identifier, lemma_bare_roundtrip, lemma_call_roundtrip, lemma_lowercase_idempotent,
    write_call,
};
use crate::text::{
    arguments, find, first_index, is_word, lowercase, lowercase_chars, parse_arguments, trim,
    trim_range,
};
use vstd::prelude::*;
use vstd::string::*;

verus! {

/// A colour: one of five presets, or red, green, blue and alpha.
#[derive(Clone, Copy, Debug, PartialEq, Eq, Structural)]
pub enum Color {
    White,
    Black,
    Red,
    Green,
    Blue,
    Rgba(u8, u8, u8, u8),
}

impl Default for Color {
    fn default() -> (r: Color)
        ensures
            r == Color::White,
    {
        Color::White
    }
}

/// The preset that an identifier names.
pub open spec fn preset_named(name: Seq<char>) -> Option<Color> {
    if name == "white"@ {
        Some(Color::White)
    } else if name == "black"@ {
        Some(Color::Black)
    } else if name == "red"@ {
        Some(Color::Red)
    } else if name == "green"@ {
        Some(Color::Green)
    } else if name == "blue"@ {
        Some(Color::Blue)
    } else {
        None
    }
}

/// The colour that an identifier and its arguments denote.
pub open spec fn color_from(name: Seq<char>, args: Seq<u64>) -> Result<Color, GrammarError> {
    if name == "rgba"@ {
        if args.len() == 4 {
            Ok(Color::Rgba(args[0] as u8, args[1] as u8, args[2] as u8, args[3] as u8))
        } else {
            Err(GrammarError::ArityMismatch)
        }
    } else if preset_named(name) is Some {
        Err(GrammarError::ArityMismatch)
    } else {
        Err(GrammarError::UnknownIdentifier)
    }
}

/// What a colour string denotes. Letter case is ignored. A string without
/// `(` must be the identifier of a preset, exactly. Otherwise it is an
/// identifier, `(`, a comma-separated list of numbers up to 255, and `)`;
/// whitespace may surround the identifier and each number. Of several
/// faults the first of these is reported: no `)` at the end, the first
/// argument that is no number or is too large, an unknown identifier, a
/// wrong number of arguments.
pub open spec fn parse_color(input: Seq<char>) -> Result<Color, GrammarError> {
    let s = lowercase(input);
    let open = first_index(s, '(');
    if open >= s.len() {
        match preset_named(s) {
            Some(color) => Ok(color),
            None => Err(GrammarError::UnknownIdentifier),
        }
    } else {
        match arguments(s.skip((open + 1) as int), u8::MAX as u64) {
            Err(e) => Err(e),
            Ok(args) => color_from(trim(s.take(open as int)), args),
        }
    }
}

/// The canonical text of a colour: its identifier in lower case and its
/// numbers in decimal, without whitespace.
pub open spec fn render_color(color: Color) -> Seq<char> {
    match color {
        Color::White => "white"@,
        Color::Black => "black"@,
        Color::Red => "red"@,
        Color::Green => "green"@,
        Color::Blue => "blue"@,
        Color::Rgba(r, g, b, a) => call("rgba"@, seq![r as u64, g as u64, b as u64, a as u64]),
    }
}

fn preset(chars: &Vec<char>, from: usize, to: usize) -> (r: Option<Color>)
    requires
        from <= to <= chars.len(),
    ensures
        r == preset_named(chars@.subrange(from as int, to as int)),
{
    if is_word(chars, from, to, "white") {
        Some(Color::White)
    } else if is_word(chars, from, to, "black") {
        Some(Color::Black)
    } else if is_word(chars, from, to, "red") {
        Some(Color::Red)
    } else if is_word(chars, from, to, "green") {
        Some(Color::Green)
    } else if is_word(chars, from, to, "blue") {
        Some(Color::Blue)
    } else {
        None
    }
}

impl Color {
    /// Red, green, blue and alpha. The presets are opaque.
    pub open spec fn channels(self) -> (u8, u8, u8, u8) {
        match self {
            Color::White => (255, 255, 255, 255),
            Color::Black => (0, 0, 0, 255),
            Color::Red => (255, 0, 0, 255),
            Color::Green => (0, 255, 0, 255),
            Color::Blue => (0, 0, 255, 255),
            Color::Rgba(r, g, b, a) => (r, g, b, a),
        }
    }

    /// Red, green, blue and alpha, as a pixel holds them.
    pub fn to_rgba(self) -> (r: [u8; 4])
        ensures
            (r[0], r[1], r[2], r[3]) == self.channels(),
    {
        match self {
            Color::White => [255, 255, 255, 255],
            Color::Black => [0, 0, 0, 255],
            Color::Red => [255, 0, 0, 255],
            Color::Green => [0, 255, 0, 255],
            Color::Blue => [0, 0, 255, 255],
            Color::Rgba(r, g, b, a) => [r, g, b, a],
        }
    }

    /// The canonical text of the colour, which [`Color::from_str`] reads
    /// back.
    pub fn to_string(&self) -> (r: String)
        ensures
            r@ == render_color(*self),
            parse_color(r@) == Ok::<Color, GrammarError>(*self),
    {
        proof {
            lemma_color_roundtrip(*self);
        }
        match *self {
            Color::White => "white".to_owned(),
            Color::Black => "black".to_owned(),
            Color::Red => "red".to_owned(),
            Color::Green => "green".to_owned(),
            Color::Blue => "blue".to_owned(),
            Color::Rgba(r, g, b, a) => {
                let args = vec![r as u64, g as u64, b as u64, a as u64];
                assert(args@ =~= seq![r as u64, g as u64, b as u64, a as u64]);
                write_call("rgba", &args)
            },
        }
    }

    /// Parses a colour string such as `white` or `rgba(255,0,128,64)`.
    pub fn from_str(s: &str) -> (r: Result<Color, GrammarError>)
        ensures
            r == parse_color(s@),
    {
        let chars = lowercase_chars(s);
        let len = chars.len();
        let open = find(&chars, 0, len, '(');
        proof {
            assert(chars@.subrange(0, len as int) =~= chars@);
            assert(chars@.skip(open + 1) =~= chars@.subrange(open + 1, len as int));
            assert(chars@.take(open as int) =~= chars@.subrange(0, open as int));
        }
        if open == len {
            return match preset(&chars, 0, len) {
                Some(color) => Ok(color),
                None => Err(GrammarError::UnknownIdentifier),
            };
        }
        let args = match parse_arguments(&chars, open + 1, u8::MAX as u64) {
            Err(e) => {
                return Err(e);
            },
            Ok(args) => args,
        };
        let (start, end) = trim_range(&chars, 0, open);
        if is_word(&chars, start, end, "rgba") {
            if args.len() == 4 {
                Ok(Color::Rgba(args[0] as u8, args[1] as u8, args[2] as u8, args[3] as u8))
            } else {
                Err(GrammarError::ArityMismatch)
            }
        } else if preset(&chars, start, end).is_some() {
            Err(GrammarError::ArityMismatch)
        } else {
            Err(GrammarError::UnknownIdentifier)
        }
    }
}

/// The colour identifiers are identifiers, each preset is named by its own
/// text, and none of them is `rgba`.
pub proof fn lemma_color_names(color: Color)
    requires
        !(color is Rgba),
    ensures
        is_identifier(render_color(color)),
        is_identifier("rgba"@),
        preset_named(render_color(color)) == Some(color),
        render_color(color) != "rgba"@,
{
    reveal_strlit("white");
    reveal_strlit("black");
    reveal_strlit("red");
    reveal_strlit("green");
    reveal_strlit("blue");
    reveal_strlit("rgba");
    assert("white"@.len() == 5 && "white"@[0] == 'w');
    assert("black"@.len() == 5 && "black"@[0] == 'b');
    assert("red"@.len() == 3);
    assert("green"@.len() == 5 && "green"@[0] == 'g');
    assert("blue"@.len() == 4 && "blue"@[0] == 'b');
    assert("rgba"@.len() == 4 && "rgba"@[0] == 'r');
}

/// Parsing ignores letter case.
pub proof fn lemma_color_ignores_case(input: Seq<char>)
    ensures
        parse_color(lowercase(input)) == parse_color(input),
{
    lemma_lowercase_idempotent(input);
}

/// Round trip: the canonical text of a colour is parsed as that colour.
pub proof fn lemma_color_roundtrip(color: Color)
    ensures
        parse_color(render_color(color)) == Ok::<Color, GrammarError>(color),
{
    match color {
        Color::Rgba(r, g, b, a) => {
            lemma_color_names(Color::White);
            lemma_call_roundtrip(
                "rgba"@,
                seq![r as u64, g as u64, b as u64, a as u64],
                u8::MAX as u64,
            );
        },
        _ => {
            lemma_color_names(color);
            lemma_bare_roundtrip(render_color(color));
        },
    }
}

} // verus!
