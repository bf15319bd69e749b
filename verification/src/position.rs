//! The placement grammar: where a watermark goes on the canvas.

use crate::anchor::{lemma_opposite_anchor, lemma_opposite_offsets_mirror, Align, Anchor};
use crate::error::{GeometryError, GrammarError};
use crate::render::{
    call, is_identifier, lemma_bare_roundtrip, lemma_call_roundtrip, lemma_lowercase_idempotent,
    write_call,
};
use crate::text::{
    arguments, find, first_index, is_word, lowercase, lowercase_chars, parse_arguments, trim,
    trim_range,
};
use vstd::prelude::*;
use vstd::string::*;

verus! {

/// Where a watermark is placed: at one of the nine anchors, at a pixel
/// offset, or repeated over the whole canvas with a given spacing.
#[derive(Clone, Copy, Debug, PartialEq, Eq, Structural)]
pub enum Position {
    Center,
    TopLeft,
    TopCenter,
    TopRight,
    MiddleLeft,
    MiddleRight,
    BottomLeft,
    BottomCenter,
    BottomRight,
    Custom(u32, u32),
    FlatLay(usize),
}

impl Default for Position {
    fn default() -> (r: Position)
        ensures
            r == Position::Center,
    {
        Position::Center
    }
}

/// The anchor that a placement identifier names.
pub open spec fn position_anchor_named(name: Seq<char>) -> Option<Anchor> {
    if name == "center"@ {
        Some(Anchor::Center)
    } else if name == "top-left"@ {
        Some(Anchor::TopLeft)
    } else if name == "top-center"@ {
        Some(Anchor::TopCenter)
    } else if name == "top-right"@ {
        Some(Anchor::TopRight)
    } else if name == "middle-left"@ {
        Some(Anchor::MiddleLeft)
    } else if name == "middle-right"@ {
        Some(Anchor::MiddleRight)
    } else if name == "bottom-left"@ {
        Some(Anchor::BottomLeft)
    } else if name == "bottom-center"@ {
        Some(Anchor::BottomCenter)
    } else if name == "bottom-right"@ {
        Some(Anchor::BottomRight)
    } else {
        None
    }
}

/// The identifier that names an anchor in the placement grammar.
pub open spec fn position_name(anchor: Anchor) -> Seq<char> {
    match anchor {
        Anchor::Center => "center"@,
        Anchor::TopLeft => "top-left"@,
        Anchor::TopCenter => "top-center"@,
        Anchor::TopRight => "top-right"@,
        Anchor::MiddleLeft => "middle-left"@,
        Anchor::MiddleRight => "middle-right"@,
        Anchor::BottomLeft => "bottom-left"@,
        Anchor::BottomCenter => "bottom-center"@,
        Anchor::BottomRight => "bottom-right"@,
    }
}

/// The largest number that an argument of the identifier may hold: a
/// spacing is a `usize`, a coordinate a `u32`.
pub open spec fn placement_limit(name: Seq<char>) -> u64 {
    if name == "flat-lay"@ {
        usize::MAX as u64
    } else {
        u32::MAX as u64
    }
}

/// The placement that an identifier and its arguments denote.
pub open spec fn placement_from(name: Seq<char>, args: Seq<u64>) -> Result<
    Position,
    GrammarError,
> {
    if name == "custom"@ {
        if args.len() == 2 {
            Ok(Position::Custom(args[0] as u32, args[1] as u32))
        } else {
            Err(GrammarError::ArityMismatch)
        }
    } else if name == "flat-lay"@ {
        if args.len() == 1 {
            Ok(Position::FlatLay(args[0] as usize))
        } else {
            Err(GrammarError::ArityMismatch)
        }
    } else if position_anchor_named(name) is Some {
        Err(GrammarError::ArityMismatch)
    } else {
        Err(GrammarError::UnknownIdentifier)
    }
}

/// What a placement string denotes. Letter case is ignored. A string
/// without `(` must be the identifier of an anchor, exactly. Otherwise it
/// is an identifier, `(`, a comma-separated list of numbers, and `)`;
/// whitespace may surround the identifier and each number. Of several
/// faults the first of these is reported: no `)` at the end, the first
/// argument that is no number or is too large, an unknown identifier, a
/// wrong number of arguments.
pub open spec fn parse_placement(input: Seq<char>) -> Result<Position, GrammarError> {
    let s = lowercase(input);
    let open = first_index(s, '(');
    if open >= s.len() {
        match position_anchor_named(s) {
            Some(anchor) => Ok(Position::anchored(anchor)),
            None => Err(GrammarError::UnknownIdentifier),
        }
    } else {
        let name = trim(s.take(open as int));
        match arguments(s.skip((open + 1) as int), placement_limit(name)) {
            Err(e) => Err(e),
            Ok(args) => placement_from(name, args),
        }
    }
}

/// The canonical text of a placement: its identifier in lower case and its
/// numbers in decimal, without whitespace.
pub open spec fn render_placement(position: Position) -> Seq<char> {
    match position {
        Position::Custom(x, y) => call("custom"@, seq![x as u64, y as u64]),
        Position::FlatLay(spacing) => call("flat-lay"@, seq![spacing as u64]),
        _ => position_name(position.anchor().unwrap()),
    }
}

/// The top-left corner `(x, y)` at which an overlay of the given size is
/// placed on a canvas of the given size. At an anchor the overlay, with the
/// margin that separates it from the edges it is aligned against, must lie
/// within the canvas; a custom offset is taken as it is. Tiling has no
/// single corner.
pub open spec fn placement(
    position: Position,
    canvas_width: u32,
    canvas_height: u32,
    overlay_width: u32,
    overlay_height: u32,
    margin: u32,
) -> Result<(u32, u32), GeometryError> {
    match position {
        Position::Custom(x, y) => Ok((x, y)),
        Position::FlatLay(_) => arbitrary(),
        _ => {
            let anchor = position.anchor().unwrap();
            let horizontal = anchor.horizontal();
            let vertical = anchor.vertical();
            if !horizontal.fits(canvas_width as int, overlay_width as int, margin as int) {
                Err(GeometryError::WidthExceedsCanvas)
            } else if !vertical.fits(canvas_height as int, overlay_height as int, margin as int) {
                Err(GeometryError::HeightExceedsCanvas)
            } else {
                Ok(
                    (
                        horizontal.offset(
                            canvas_width as int,
                            overlay_width as int,
                            margin as int,
                        ) as u32,
                        vertical.offset(
                            canvas_height as int,
                            overlay_height as int,
                            margin as int,
                        ) as u32,
                    ),
                )
            }
        },
    }
}

fn position_anchor(chars: &Vec<char>, from: usize, to: usize) -> (r: Option<Anchor>)
    requires
        from <= to <= chars.len(),
    ensures
        r == position_anchor_named(chars@.subrange(from as int, to as int)),
{
    if is_word(chars, from, to, "center") {
        Some(Anchor::Center)
    } else if is_word(chars, from, to, "top-left") {
        Some(Anchor::TopLeft)
    } else if is_word(chars, from, to, "top-center") {
        Some(Anchor::TopCenter)
    } else if is_word(chars, from, to, "top-right") {
        Some(Anchor::TopRight)
    } else if is_word(chars, from, to, "middle-left") {
        Some(Anchor::MiddleLeft)
    } else if is_word(chars, from, to, "middle-right") {
        Some(Anchor::MiddleRight)
    } else if is_word(chars, from, to, "bottom-left") {
        Some(Anchor::BottomLeft)
    } else if is_word(chars, from, to, "bottom-center") {
        Some(Anchor::BottomCenter)
    } else if is_word(chars, from, to, "bottom-right") {
        Some(Anchor::BottomRight)
    } else {
        None
    }
}

impl Position {
    /// The anchor of the placement; `None` for an offset and for tiling.
    pub open spec fn anchor(self) -> Option<Anchor> {
        match self {
            Position::Center => Some(Anchor::Center),
            Position::TopLeft => Some(Anchor::TopLeft),
            Position::TopCenter => Some(Anchor::TopCenter),
            Position::TopRight => Some(Anchor::TopRight),
            Position::MiddleLeft => Some(Anchor::MiddleLeft),
            Position::MiddleRight => Some(Anchor::MiddleRight),
            Position::BottomLeft => Some(Anchor::BottomLeft),
            Position::BottomCenter => Some(Anchor::BottomCenter),
            Position::BottomRight => Some(Anchor::BottomRight),
            Position::Custom(..) => None,
            Position::FlatLay(_) => None,
        }
    }

    /// The placement at the given anchor.
    pub open spec fn spec_anchored(anchor: Anchor) -> Position {
        match anchor {
            Anchor::Center => Position::Center,
            Anchor::TopLeft => Position::TopLeft,
            Anchor::TopCenter => Position::TopCenter,
            Anchor::TopRight => Position::TopRight,
            Anchor::MiddleLeft => Position::MiddleLeft,
            Anchor::MiddleRight => Position::MiddleRight,
            Anchor::BottomLeft => Position::BottomLeft,
            Anchor::BottomCenter => Position::BottomCenter,
            Anchor::BottomRight => Position::BottomRight,
        }
    }

    /// The placement at the given anchor.
    #[verifier::when_used_as_spec(spec_anchored)]
    pub fn anchored(anchor: Anchor) -> (r: Position)
        ensures
            r == Position::spec_anchored(anchor),
    {
        match anchor {
            Anchor::Center => Position::Center,
            Anchor::TopLeft => Position::TopLeft,
            Anchor::TopCenter => Position::TopCenter,
            Anchor::TopRight => Position::TopRight,
            Anchor::MiddleLeft => Position::MiddleLeft,
            Anchor::MiddleRight => Position::MiddleRight,
            Anchor::BottomLeft => Position::BottomLeft,
            Anchor::BottomCenter => Position::BottomCenter,
            Anchor::BottomRight => Position::BottomRight,
        }
    }

    /// The placement mirrored about the centre of the canvas; an offset and
    /// tiling are their own opposites.
    pub open spec fn opposite(self) -> Position {
        match self.anchor() {
            Some(anchor) => Position::anchored(anchor.opposite()),
            None => self,
        }
    }

    /// The canonical text of the placement, which [`Position::from_str`]
    /// reads back.
    pub fn to_string(&self) -> (r: String)
        ensures
            r@ == render_placement(*self),
            parse_placement(r@) == Ok::<Position, GrammarError>(*self),
    {
        proof {
            lemma_placement_roundtrip(*self);
        }
        match *self {
            Position::Center => "center".to_owned(),
            Position::TopLeft => "top-left".to_owned(),
            Position::TopCenter => "top-center".to_owned(),
            Position::TopRight => "top-right".to_owned(),
            Position::MiddleLeft => "middle-left".to_owned(),
            Position::MiddleRight => "middle-right".to_owned(),
            Position::BottomLeft => "bottom-left".to_owned(),
            Position::BottomCenter => "bottom-center".to_owned(),
            Position::BottomRight => "bottom-right".to_owned(),
            Position::Custom(x, y) => {
                let args = vec![x as u64, y as u64];
                assert(args@ =~= seq![x as u64, y as u64]);
                write_call("custom", &args)
            },
            Position::FlatLay(spacing) => {
                let args = vec![spacing as u64];
                assert(args@ =~= seq![spacing as u64]);
                write_call("flat-lay", &args)
            },
        }
    }

    /// Parses a placement string such as `top-right`, `custom(10,20)` or
    /// `flat-lay(40)`.
    pub fn from_str(s: &str) -> (r: Result<Position, GrammarError>)
        ensures
            r == parse_placement(s@),
    {
        let chars = lowercase_chars(s);
        let len = chars.len();
        let open = find(&chars, 0, len, '(');
        proof {
            assert(chars@.subrange(0, len as int) =~= chars@);
            assert(chars@.skip(open + 1) =~= chars@.subrange(open + 1, len as int));
            assert(chars@.take(open as int) =~= chars@.subrange(0, open as int));
        }
        if open == len {
            return match position_anchor(&chars, 0, len) {
                Some(anchor) => Ok(Position::anchored(anchor)),
                None => Err(GrammarError::UnknownIdentifier),
            };
        }
        let (start, end) = trim_range(&chars, 0, open);
        let tiled = is_word(&chars, start, end, "flat-lay");
        let limit: u64 = if tiled {
            usize::MAX as u64
        } else {
            u32::MAX as u64
        };
        let args = match parse_arguments(&chars, open + 1, limit) {
            Err(e) => {
                return Err(e);
            },
            Ok(args) => args,
        };
        if is_word(&chars, start, end, "custom") {
            if args.len() == 2 {
                Ok(Position::Custom(args[0] as u32, args[1] as u32))
            } else {
                Err(GrammarError::ArityMismatch)
            }
        } else if tiled {
            if args.len() == 1 {
                Ok(Position::FlatLay(args[0] as usize))
            } else {
                Err(GrammarError::ArityMismatch)
            }
        } else if position_anchor(&chars, start, end).is_some() {
            Err(GrammarError::ArityMismatch)
        } else {
            Err(GrammarError::UnknownIdentifier)
        }
    }
}

/// Resolves a placement against a canvas and an overlay: the top-left
/// corner of the overlay. At an anchor, an overlay that does not fit the
/// canvas together with its margin is an error, first by width; one that is
/// resolved lies within the canvas. Tiling is not resolved to one corner.
pub fn resolve_placement(
    position: Position,
    canvas_width: u32,
    canvas_height: u32,
    overlay_width: u32,
    overlay_height: u32,
    margin: u32,
) -> (r: Result<(u32, u32), GeometryError>)
    requires
        !(position is FlatLay),
    ensures
        r == placement(
            position,
            canvas_width,
            canvas_height,
            overlay_width,
            overlay_height,
            margin,
        ),
        position.anchor() is Some ==> (r matches Ok(corner) ==> corner.0 + overlay_width
            <= canvas_width && corner.1 + overlay_height <= canvas_height),
{
    let anchor = match position {
        Position::Custom(x, y) => {
            return Ok((x, y));
        },
        Position::FlatLay(_) => {
            return Ok((0, 0));
        },
        Position::Center => Anchor::Center,
        Position::TopLeft => Anchor::TopLeft,
        Position::TopCenter => Anchor::TopCenter,
        Position::TopRight => Anchor::TopRight,
        Position::MiddleLeft => Anchor::MiddleLeft,
        Position::MiddleRight => Anchor::MiddleRight,
        Position::BottomLeft => Anchor::BottomLeft,
        Position::BottomCenter => Anchor::BottomCenter,
        Position::BottomRight => Anchor::BottomRight,
    };
    let (horizontal, vertical) = anchor.axes();
    match horizontal.place(canvas_width, overlay_width, margin) {
        None => Err(GeometryError::WidthExceedsCanvas),
        Some(x) => match vertical.place(canvas_height, overlay_height, margin) {
            None => Err(GeometryError::HeightExceedsCanvas),
            Some(y) => Ok((x, y)),
        },
    }
}

/// The placement identifiers are identifiers, each names its own anchor,
/// and none of them is `custom` or `flat-lay`.
pub proof fn lemma_position_names(anchor: Anchor)
    ensures
        is_identifier(position_name(anchor)),
        is_identifier("custom"@),
        is_identifier("flat-lay"@),
        position_anchor_named(position_name(anchor)) == Some(anchor),
        position_name(anchor) != "custom"@,
        position_name(anchor) != "flat-lay"@,
        "custom"@ != "flat-lay"@,
{
    reveal_strlit("center");
    reveal_strlit("top-left");
    reveal_strlit("top-center");
    reveal_strlit("top-right");
    reveal_strlit("middle-left");
    reveal_strlit("middle-right");
    reveal_strlit("bottom-left");
    reveal_strlit("bottom-center");
    reveal_strlit("bottom-right");
    reveal_strlit("custom");
    reveal_strlit("flat-lay");
    assert("center"@.len() == 6 && "center"@[1] == 'e');
    assert("top-left"@.len() == 8 && "top-left"@[0] == 't');
    assert("top-center"@.len() == 10);
    assert("top-right"@.len() == 9);
    assert("middle-left"@.len() == 11 && "middle-left"@[0] == 'm');
    assert("middle-right"@.len() == 12 && "middle-right"@[0] == 'm');
    assert("bottom-left"@.len() == 11 && "bottom-left"@[0] == 'b');
    assert("bottom-center"@.len() == 13);
    assert("bottom-right"@.len() == 12 && "bottom-right"@[0] == 'b');
    assert("custom"@.len() == 6 && "custom"@[1] == 'u');
    assert("flat-lay"@.len() == 8 && "flat-lay"@[0] == 'f');
}

/// Parsing ignores letter case.
pub proof fn lemma_placement_ignores_case(input: Seq<char>)
    ensures
        parse_placement(lowercase(input)) == parse_placement(input),
{
    lemma_lowercase_idempotent(input);
}

/// Round trip: the canonical text of a placement is parsed as that
/// placement.
pub proof fn lemma_placement_roundtrip(position: Position)
    ensures
        parse_placement(render_placement(position)) == Ok::<Position, GrammarError>(position),
{
    lemma_position_names(Anchor::Center);
    match position {
        Position::Custom(x, y) => {
            lemma_call_roundtrip("custom"@, seq![x as u64, y as u64], u32::MAX as u64);
        },
        Position::FlatLay(spacing) => {
            lemma_call_roundtrip("flat-lay"@, seq![spacing as u64], usize::MAX as u64);
        },
        _ => {
            let anchor = position.anchor().unwrap();
            lemma_position_names(anchor);
            lemma_bare_roundtrip(position_name(anchor));
        },
    }
}

/// An overlay that fits at an anchor fits at the opposite anchor, and the
/// two placements mirror each other about the centre of the canvas: on each
/// axis the gap before the one is the gap after the other, up to one pixel
/// of rounding where the overlay is centred on that axis.
pub proof fn lemma_opposite_placements_mirror(
    position: Position,
    canvas_width: u32,
    canvas_height: u32,
    overlay_width: u32,
    overlay_height: u32,
    margin: u32,
)
    requires
        position.anchor() is Some,
        placement(
            position,
            canvas_width,
            canvas_height,
            overlay_width,
            overlay_height,
            margin,
        ) is Ok,
    ensures
        placement(
            position.opposite(),
            canvas_width,
            canvas_height,
            overlay_width,
            overlay_height,
            margin,
        ) is Ok,
        ({
            let a = placement(
                position,
                canvas_width,
                canvas_height,
                overlay_width,
                overlay_height,
                margin,
            )->Ok_0;
            let b = placement(
                position.opposite(),
                canvas_width,
                canvas_height,
                overlay_width,
                overlay_height,
                margin,
            )->Ok_0;
            &&& canvas_width - 1 <= a.0 + b.0 + overlay_width <= canvas_width
            &&& canvas_height - 1 <= a.1 + b.1 + overlay_height <= canvas_height
            &&& position.anchor().unwrap().horizontal() != Align::Middle ==> a.0 + b.0
                + overlay_width == canvas_width
            &&& position.anchor().unwrap().vertical() != Align::Middle ==> a.1 + b.1
                + overlay_height == canvas_height
        }),
{
    let anchor = position.anchor().unwrap();
    lemma_opposite_anchor(anchor);
    lemma_opposite_offsets_mirror(
        anchor.horizontal(),
        canvas_width as int,
        overlay_width as int,
        margin as int,
    );
    lemma_opposite_offsets_mirror(
        anchor.vertical(),
        canvas_height as int,
        overlay_height as int,
        margin as int,
    );
}

} // verus!
