//! The crop grammar: a region of the canvas, anchored or given outright.

use crate::anchor::{lemma_opposite_anchor, lemma_opposite_offsets_mirror, Anchor};
use crate::error::{GeometryError, GrammarError};
use crate::render::{
    call, is_identifier, lemma_call_roundtrip, lemma_lowercase_idempotent, write_call,
};
use crate::text::{
    arguments, find, first_index, is_word, lowercase, lowercase_chars, parse_arguments, trim,
    trim_range,
};
use vstd::prelude::*;

verus! {

/// A rectangular region to crop: a size at one of the nine anchors, or a
/// rectangle given by its corner and size.
#[derive(Clone, Copy, Debug, PartialEq, Eq, Structural)]
pub enum Crop {
    Center(u32, u32),
    TopLeft(u32, u32),
    TopCenter(u32, u32),
    TopRight(u32, u32),
    MiddleLeft(u32, u32),
    MiddleRight(u32, u32),
    BottomLeft(u32, u32),
    BottomCenter(u32, u32),
    BottomRight(u32, u32),
    Custom(u32, u32, u32, u32),
}

/// The anchor that a crop identifier names.
pub open spec fn crop_anchor_named(name: Seq<char>) -> Option<Anchor> {
    if name == "center"@ {
        Some(Anchor::Center)
    } else if name == "topleft"@ {
        Some(Anchor::TopLeft)
    } else if name == "topcenter"@ {
        Some(Anchor::TopCenter)
    } else if name == "topright"@ {
        Some(Anchor::TopRight)
    } else if name == "middleleft"@ {
        Some(Anchor::MiddleLeft)
    } else if name == "middleright"@ {
        Some(Anchor::MiddleRight)
    } else if name == "bottomleft"@ {
        Some(Anchor::BottomLeft)
    } else if name == "bottomcenter"@ {
        Some(Anchor::BottomCenter)
    } else if name == "bottomright"@ {
        Some(Anchor::BottomRight)
    } else {
        None
    }
}

/// The region that an identifier and its arguments denote.
pub open spec fn region_from(name: Seq<char>, args: Seq<u64>) -> Result<Crop, GrammarError> {
    if name == "custom"@ {
        if args.len() == 4 {
            Ok(Crop::Custom(args[0] as u32, args[1] as u32, args[2] as u32, args[3] as u32))
        } else {
            Err(GrammarError::ArityMismatch)
        }
    } else {
        match crop_anchor_named(name) {
            Some(anchor) => if args.len() == 2 {
                Ok(Crop::anchored(anchor, args[0] as u32, args[1] as u32))
            } else {
                Err(GrammarError::ArityMismatch)
            },
            None => Err(GrammarError::UnknownIdentifier),
        }
    }
}

/// What a crop string denotes. Letter case is ignored. The string is an
/// identifier, `(`, a comma-separated list of `u32` numbers, and `)`;
/// whitespace may surround the identifier and each number. A string
/// without `(` names no region. Of several faults the first of these is
/// reported: no `)` at the end, the first argument that is no number or is
/// too large, an unknown identifier, a wrong number of arguments.
pub open spec fn parse_region(input: Seq<char>) -> Result<Crop, GrammarError> {
    let s = lowercase(input);
    let open = first_index(s, '(');
    if open >= s.len() {
        Err(GrammarError::UnknownIdentifier)
    } else {
        match arguments(s.skip((open + 1) as int), u32::MAX as u64) {
            Err(e) => Err(e),
            Ok(args) => region_from(trim(s.take(open as int)), args),
        }
    }
}

/// The identifier that names an anchor in the crop grammar.
pub open spec fn crop_name(anchor: Anchor) -> Seq<char> {
    match anchor {
        Anchor::Center => "center"@,
        Anchor::TopLeft => "topleft"@,
        Anchor::TopCenter => "topcenter"@,
        Anchor::TopRight => "topright"@,
        Anchor::MiddleLeft => "middleleft"@,
        Anchor::MiddleRight => "middleright"@,
        Anchor::BottomLeft => "bottomleft"@,
        Anchor::BottomCenter => "bottomcenter"@,
        Anchor::BottomRight => "bottomright"@,
    }
}

/// The canonical text of a region: its identifier in lower case and its
/// numbers in decimal, without whitespace.
pub open spec fn render_region(crop: Crop) -> Seq<char> {
    match crop {
        Crop::Custom(x, y, w, h) => call(
            "custom"@,
            seq![x as u64, y as u64, w as u64, h as u64],
        ),
        _ => call(
            crop_name(crop.anchor().unwrap()),
            seq![crop.size().0 as u64, crop.size().1 as u64],
        ),
    }
}

/// The rectangle `(x, y, width, height)` that a region denotes on a canvas
/// of the given size. An anchored region must not be larger than the
/// canvas; a custom rectangle is taken as it is.
pub open spec fn region(crop: Crop, canvas_width: u32, canvas_height: u32) -> Result<
    (u32, u32, u32, u32),
    GeometryError,
> {
    match crop {
        Crop::Custom(x, y, w, h) => Ok((x, y, w, h)),
        _ => {
            let anchor = crop.anchor().unwrap();
            let (w, h) = crop.size();
            if w > canvas_width {
                Err(GeometryError::WidthExceedsCanvas)
            } else if h > canvas_height {
                Err(GeometryError::HeightExceedsCanvas)
            } else {
                Ok(
                    (
                        anchor.horizontal().offset(canvas_width as int, w as int, 0) as u32,
                        anchor.vertical().offset(canvas_height as int, h as int, 0) as u32,
                        w,
                        h,
                    ),
                )
            }
        },
    }
}

fn crop_anchor(chars: &Vec<char>, from: usize, to: usize) -> (r: Option<Anchor>)
    requires
        from <= to <= chars.len(),
    ensures
        r == crop_anchor_named(chars@.subrange(from as int, to as int)),
{
    if is_word(chars, from, to, "center") {
        Some(Anchor::Center)
    } else if is_word(chars, from, to, "topleft") {
        Some(Anchor::TopLeft)
    } else if is_word(chars, from, to, "topcenter") {
        Some(Anchor::TopCenter)
    } else if is_word(chars, from, to, "topright") {
        Some(Anchor::TopRight)
    } else if is_word(chars, from, to, "middleleft") {
        Some(Anchor::MiddleLeft)
    } else if is_word(chars, from, to, "middleright") {
        Some(Anchor::MiddleRight)
    } else if is_word(chars, from, to, "bottomleft") {
        Some(Anchor::BottomLeft)
    } else if is_word(chars, from, to, "bottomcenter") {
        Some(Anchor::BottomCenter)
    } else if is_word(chars, from, to, "bottomright") {
        Some(Anchor::BottomRight)
    } else {
        None
    }
}

impl Crop {
    /// The anchor of the region; `None` for a custom rectangle.
    pub open spec fn anchor(self) -> Option<Anchor> {
        match self {
            Crop::Center(..) => Some(Anchor::Center),
            Crop::TopLeft(..) => Some(Anchor::TopLeft),
            Crop::TopCenter(..) => Some(Anchor::TopCenter),
            Crop::TopRight(..) => Some(Anchor::TopRight),
            Crop::MiddleLeft(..) => Some(Anchor::MiddleLeft),
            Crop::MiddleRight(..) => Some(Anchor::MiddleRight),
            Crop::BottomLeft(..) => Some(Anchor::BottomLeft),
            Crop::BottomCenter(..) => Some(Anchor::BottomCenter),
            Crop::BottomRight(..) => Some(Anchor::BottomRight),
            Crop::Custom(..) => None,
        }
    }

    /// The width and height of the region.
    pub open spec fn size(self) -> (u32, u32) {
        match self {
            Crop::Center(w, h)
            | Crop::TopLeft(w, h)
            | Crop::TopCenter(w, h)
            | Crop::TopRight(w, h)
            | Crop::MiddleLeft(w, h)
            | Crop::MiddleRight(w, h)
            | Crop::BottomLeft(w, h)
            | Crop::BottomCenter(w, h)
            | Crop::BottomRight(w, h)
            | Crop::Custom(_, _, w, h) => (w, h),
        }
    }

    /// The region of the given size at the given anchor.
    #[verifier::when_used_as_spec(spec_anchored)]
    pub fn anchored(anchor: Anchor, width: u32, height: u32) -> (r: Crop)
        ensures
            r == Crop::spec_anchored(anchor, width, height),
    {
        match anchor {
            Anchor::Center => Crop::Center(width, height),
            Anchor::TopLeft => Crop::TopLeft(width, height),
            Anchor::TopCenter => Crop::TopCenter(width, height),
            Anchor::TopRight => Crop::TopRight(width, height),
            Anchor::MiddleLeft => Crop::MiddleLeft(width, height),
            Anchor::MiddleRight => Crop::MiddleRight(width, height),
            Anchor::BottomLeft => Crop::BottomLeft(width, height),
            Anchor::BottomCenter => Crop::BottomCenter(width, height),
            Anchor::BottomRight => Crop::BottomRight(width, height),
        }
    }

    /// The region of the given size at the given anchor.
    pub open spec fn spec_anchored(anchor: Anchor, width: u32, height: u32) -> Crop {
        match anchor {
            Anchor::Center => Crop::Center(width, height),
            Anchor::TopLeft => Crop::TopLeft(width, height),
            Anchor::TopCenter => Crop::TopCenter(width, height),
            Anchor::TopRight => Crop::TopRight(width, height),
            Anchor::MiddleLeft => Crop::MiddleLeft(width, height),
            Anchor::MiddleRight => Crop::MiddleRight(width, height),
            Anchor::BottomLeft => Crop::BottomLeft(width, height),
            Anchor::BottomCenter => Crop::BottomCenter(width, height),
            Anchor::BottomRight => Crop::BottomRight(width, height),
        }
    }

    /// The same size at the anchor mirrored about the centre of the canvas;
    /// a custom rectangle is its own opposite.
    pub open spec fn opposite(self) -> Crop {
        match self.anchor() {
            Some(anchor) => Crop::anchored(anchor.opposite(), self.size().0, self.size().1),
            None => self,
        }
    }

    /// The canonical text of the region, which [`Crop::from_str`] reads back.
    pub fn to_string(&self) -> (r: String)
        ensures
            r@ == render_region(*self),
            parse_region(r@) == Ok::<Crop, GrammarError>(*self),
    {
        proof {
            lemma_region_roundtrip(*self);
        }
        let (name, w, h): (&str, u32, u32) = match *self {
            Crop::Custom(x, y, w, h) => {
                let args = vec![x as u64, y as u64, w as u64, h as u64];
                assert(args@ =~= seq![x as u64, y as u64, w as u64, h as u64]);
                return write_call("custom", &args);
            },
            Crop::Center(w, h) => ("center", w, h),
            Crop::TopLeft(w, h) => ("topleft", w, h),
            Crop::TopCenter(w, h) => ("topcenter", w, h),
            Crop::TopRight(w, h) => ("topright", w, h),
            Crop::MiddleLeft(w, h) => ("middleleft", w, h),
            Crop::MiddleRight(w, h) => ("middleright", w, h),
            Crop::BottomLeft(w, h) => ("bottomleft", w, h),
            Crop::BottomCenter(w, h) => ("bottomcenter", w, h),
            Crop::BottomRight(w, h) => ("bottomright", w, h),
        };
        let args = vec![w as u64, h as u64];
        assert(args@ =~= seq![w as u64, h as u64]);
        write_call(name, &args)
    }

    /// Parses a crop string such as `center(100,200)` or
    /// `custom(10,20,100,200)`.
    pub fn from_str(s: &str) -> (r: Result<Crop, GrammarError>)
        ensures
            r == parse_region(s@),
    {
        let chars = lowercase_chars(s);
        let len = chars.len();
        let open = find(&chars, 0, len, '(');
        proof {
            assert(chars@.subrange(0, len as int) =~= chars@);
            assert(chars@.skip(open + 1) =~= chars@.subrange(open + 1, len as int));
            assert(chars@.take(open as int) =~= chars@.subrange(0, open as int));
        }
        if open == len {
            return Err(GrammarError::UnknownIdentifier);
        }
        let args = match parse_arguments(&chars, open + 1, u32::MAX as u64) {
            Err(e) => {
                return Err(e);
            },
            Ok(args) => args,
        };
        let (start, end) = trim_range(&chars, 0, open);
        if is_word(&chars, start, end, "custom") {
            if args.len() == 4 {
                Ok(Crop::Custom(args[0] as u32, args[1] as u32, args[2] as u32, args[3] as u32))
            } else {
                Err(GrammarError::ArityMismatch)
            }
        } else {
            match crop_anchor(&chars, start, end) {
                Some(anchor) => {
                    if args.len() == 2 {
                        Ok(Crop::anchored(anchor, args[0] as u32, args[1] as u32))
                    } else {
                        Err(GrammarError::ArityMismatch)
                    }
                },
                None => Err(GrammarError::UnknownIdentifier),
            }
        }
    }
}

/// Resolves a region against a canvas: the rectangle `(x, y, width,
/// height)` to crop. An anchored region larger than the canvas is an
/// error, first by width; one that is resolved lies within the canvas.
pub fn resolve_region(crop: Crop, canvas_width: u32, canvas_height: u32) -> (r: Result<
    (u32, u32, u32, u32),
    GeometryError,
>)
    ensures
        r == region(crop, canvas_width, canvas_height),
        crop.anchor() is Some ==> (r matches Ok(rect) ==> rect.0 + rect.2 <= canvas_width
            && rect.1 + rect.3 <= canvas_height),
{
    let (anchor, w, h): (Anchor, u32, u32) = match crop {
        Crop::Custom(x, y, w, h) => {
            return Ok((x, y, w, h));
        },
        Crop::Center(w, h) => (Anchor::Center, w, h),
        Crop::TopLeft(w, h) => (Anchor::TopLeft, w, h),
        Crop::TopCenter(w, h) => (Anchor::TopCenter, w, h),
        Crop::TopRight(w, h) => (Anchor::TopRight, w, h),
        Crop::MiddleLeft(w, h) => (Anchor::MiddleLeft, w, h),
        Crop::MiddleRight(w, h) => (Anchor::MiddleRight, w, h),
        Crop::BottomLeft(w, h) => (Anchor::BottomLeft, w, h),
        Crop::BottomCenter(w, h) => (Anchor::BottomCenter, w, h),
        Crop::BottomRight(w, h) => (Anchor::BottomRight, w, h),
    };
    let (horizontal, vertical) = anchor.axes();
    match horizontal.place(canvas_width, w, 0) {
        None => Err(GeometryError::WidthExceedsCanvas),
        Some(x) => match vertical.place(canvas_height, h, 0) {
            None => Err(GeometryError::HeightExceedsCanvas),
            Some(y) => Ok((x, y, w, h)),
        },
    }
}

/// The crop identifiers are identifiers, each names its own anchor, and
/// none of them is `custom`.
pub proof fn lemma_crop_names(anchor: Anchor)
    ensures
        is_identifier(crop_name(anchor)),
        is_identifier("custom"@),
        crop_anchor_named(crop_name(anchor)) == Some(anchor),
        crop_name(anchor) != "custom"@,
{
    reveal_strlit("center");
    reveal_strlit("topleft");
    reveal_strlit("topcenter");
    reveal_strlit("topright");
    reveal_strlit("middleleft");
    reveal_strlit("middleright");
    reveal_strlit("bottomleft");
    reveal_strlit("bottomcenter");
    reveal_strlit("bottomright");
    reveal_strlit("custom");
    assert("center"@.len() == 6 && "center"@[1] == 'e');
    assert("topleft"@.len() == 7);
    assert("topcenter"@.len() == 9);
    assert("topright"@.len() == 8);
    assert("middleleft"@.len() == 10 && "middleleft"@[0] == 'm');
    assert("middleright"@.len() == 11 && "middleright"@[0] == 'm');
    assert("bottomleft"@.len() == 10 && "bottomleft"@[0] == 'b');
    assert("bottomcenter"@.len() == 12);
    assert("bottomright"@.len() == 11 && "bottomright"@[0] == 'b');
    assert("custom"@.len() == 6 && "custom"@[1] == 'u');
}

/// Parsing ignores letter case.
pub proof fn lemma_region_ignores_case(input: Seq<char>)
    ensures
        parse_region(lowercase(input)) == parse_region(input),
{
    lemma_lowercase_idempotent(input);
}

/// Round trip: the canonical text of a region is parsed as that region.
pub proof fn lemma_region_roundtrip(crop: Crop)
    ensures
        parse_region(render_region(crop)) == Ok::<Crop, GrammarError>(crop),
{
    match crop {
        Crop::Custom(x, y, w, h) => {
            let args = seq![x as u64, y as u64, w as u64, h as u64];
            lemma_crop_names(Anchor::Center);
            lemma_call_roundtrip("custom"@, args, u32::MAX as u64);
        },
        _ => {
            let anchor = crop.anchor().unwrap();
            let args = seq![crop.size().0 as u64, crop.size().1 as u64];
            lemma_crop_names(anchor);
            lemma_call_roundtrip(crop_name(anchor), args, u32::MAX as u64);
        },
    }
}

/// An anchored region that fits the canvas and the same size at the
/// opposite anchor mirror each other about the centre of the canvas: on
/// each axis the gap before the one is the gap after the other, up to one
/// pixel of rounding where the region is centred on that axis.
pub proof fn lemma_opposite_regions_mirror(crop: Crop, canvas_width: u32, canvas_height: u32)
    requires
        crop.anchor() is Some,
        region(crop, canvas_width, canvas_height) is Ok,
    ensures
        region(crop.opposite(), canvas_width, canvas_height) is Ok,
        ({
            let a = region(crop, canvas_width, canvas_height)->Ok_0;
            let b = region(crop.opposite(), canvas_width, canvas_height)->Ok_0;
            &&& a.2 == b.2 && a.3 == b.3
            &&& canvas_width - 1 <= a.0 + b.0 + a.2 <= canvas_width
            &&& canvas_height - 1 <= a.1 + b.1 + a.3 <= canvas_height
            &&& crop.anchor().unwrap().horizontal() != crate::anchor::Align::Middle ==> a.0 + b.0
                + a.2 == canvas_width
            &&& crop.anchor().unwrap().vertical() != crate::anchor::Align::Middle ==> a.1 + b.1
                + a.3 == canvas_height
        }),
{
    let anchor = crop.anchor().unwrap();
    let (w, h) = crop.size();
    lemma_opposite_anchor(anchor);
    lemma_opposite_offsets_mirror(anchor.horizontal(), canvas_width as int, w as int, 0);
    lemma_opposite_offsets_mirror(anchor.vertical(), canvas_height as int, h as int, 0);
}

} // verus!
