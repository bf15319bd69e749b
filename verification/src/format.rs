//! The plain keywords of the command line: output format, quarter-turn
//! rotation and resampling filter.

use crate::render::{is_identifier, lemma_bare_roundtrip};
use crate::text::{is_word, lowercase, lowercase_chars};
use vstd::prelude::*;
use vstd::string::*;

verus! {

/// An image file format.
#[derive(Clone, Copy, Debug, PartialEq, Eq, Structural)]
pub enum Format {
    Png,
    Jpeg,
    WebP,
    Bmp,
    Avif,
    Tiff,
}

/// A rotation by quarter turns.
#[derive(Clone, Copy, Debug, PartialEq, Eq, Structural)]
pub enum Rotate {
    Rotate90,
    Rotate180,
    Rotate270,
}

/// A resampling filter for resizing.
#[derive(Clone, Copy, Debug, PartialEq, Eq, Structural)]
pub enum Filter {
    Nearest,
    Triangle,
    CatmullRom,
    Gaussian,
    Lanczos3,
}

impl Default for Format {
    fn default() -> (r: Format)
        ensures
            r == Format::Png,
    {
        Format::Png
    }
}

impl Default for Rotate {
    fn default() -> (r: Rotate)
        ensures
            r == Rotate::Rotate90,
    {
        Rotate::Rotate90
    }
}

impl Default for Filter {
    fn default() -> (r: Filter)
        ensures
            r == Filter::Nearest,
    {
        Filter::Nearest
    }
}

/// The format that a lower-case keyword names.
pub open spec fn format_named(name: Seq<char>) -> Option<Format> {
    if name == "png"@ {
        Some(Format::Png)
    } else if name == "jpeg"@ || name == "jpg"@ {
        Some(Format::Jpeg)
    } else if name == "webp"@ {
        Some(Format::WebP)
    } else if name == "bmp"@ {
        Some(Format::Bmp)
    } else if name == "avif"@ {
        Some(Format::Avif)
    } else if name == "tiff"@ {
        Some(Format::Tiff)
    } else {
        None
    }
}

/// The rotation that a lower-case keyword names.
pub open spec fn rotate_named(name: Seq<char>) -> Option<Rotate> {
    if name == "90"@ || name == "rotate-90"@ {
        Some(Rotate::Rotate90)
    } else if name == "180"@ || name == "rotate-180"@ {
        Some(Rotate::Rotate180)
    } else if name == "270"@ || name == "rotate-270"@ {
        Some(Rotate::Rotate270)
    } else {
        None
    }
}

/// The filter that a lower-case keyword names.
pub open spec fn filter_named(name: Seq<char>) -> Option<Filter> {
    if name == "nearest"@ {
        Some(Filter::Nearest)
    } else if name == "triangle"@ {
        Some(Filter::Triangle)
    } else if name == "catmullrom"@ || name == "catmull-rom"@ {
        Some(Filter::CatmullRom)
    } else if name == "gaussian"@ {
        Some(Filter::Gaussian)
    } else if name == "lanczos3"@ {
        Some(Filter::Lanczos3)
    } else {
        None
    }
}

impl Format {
    /// The file extension of the format.
    pub open spec fn extension(self) -> Seq<char> {
        match self {
            Format::Png => "png"@,
            Format::Jpeg => "jpeg"@,
            Format::WebP => "webp"@,
            Format::Bmp => "bmp"@,
            Format::Avif => "avif"@,
            Format::Tiff => "tiff"@,
        }
    }

    /// Reads a format keyword, ignoring letter case.
    pub fn from_str(s: &str) -> (r: Result<Format, &'static str>)
        ensures
            match format_named(lowercase(s@)) {
                Some(format) => r == Ok::<Format, &'static str>(format),
                None => r matches Err(message) && message@ == "Unsupported image formats"@,
            },
    {
        let chars = lowercase_chars(s);
        let len = chars.len();
        assert(chars@.subrange(0, len as int) =~= chars@);
        if is_word(&chars, 0, len, "png") {
            Ok(Format::Png)
        } else if is_word(&chars, 0, len, "jpeg") || is_word(&chars, 0, len, "jpg") {
            Ok(Format::Jpeg)
        } else if is_word(&chars, 0, len, "webp") {
            Ok(Format::WebP)
        } else if is_word(&chars, 0, len, "bmp") {
            Ok(Format::Bmp)
        } else if is_word(&chars, 0, len, "avif") {
            Ok(Format::Avif)
        } else if is_word(&chars, 0, len, "tiff") {
            Ok(Format::Tiff)
        } else {
            Err("Unsupported image formats")
        }
    }

    /// The file extension of the format, which [`Format::from_str`] reads
    /// back.
    pub fn to_string(&self) -> (r: String)
        ensures
            r@ == self.extension(),
            format_named(lowercase(r@)) == Some(*self),
    {
        proof {
            lemma_format_roundtrip(*self);
        }
        match self {
            Format::Png => "png".to_owned(),
            Format::Jpeg => "jpeg".to_owned(),
            Format::WebP => "webp".to_owned(),
            Format::Bmp => "bmp".to_owned(),
            Format::Avif => "avif".to_owned(),
            Format::Tiff => "tiff".to_owned(),
        }
    }
}

impl Rotate {
    /// Reads a rotation keyword, ignoring letter case.
    pub fn from_str(s: &str) -> (r: Result<Rotate, &'static str>)
        ensures
            match rotate_named(lowercase(s@)) {
                Some(rotate) => r == Ok::<Rotate, &'static str>(rotate),
                None => r matches Err(message) && message@
                    == "Unsupported rotation angle, only supports 90/180/270 degree rotation"@,
            },
    {
        let chars = lowercase_chars(s);
        let len = chars.len();
        assert(chars@.subrange(0, len as int) =~= chars@);
        if is_word(&chars, 0, len, "90") || is_word(&chars, 0, len, "rotate-90") {
            Ok(Rotate::Rotate90)
        } else if is_word(&chars, 0, len, "180") || is_word(&chars, 0, len, "rotate-180") {
            Ok(Rotate::Rotate180)
        } else if is_word(&chars, 0, len, "270") || is_word(&chars, 0, len, "rotate-270") {
            Ok(Rotate::Rotate270)
        } else {
            Err("Unsupported rotation angle, only supports 90/180/270 degree rotation")
        }
    }
}

impl Filter {
    /// Reads a filter keyword, ignoring letter case.
    pub fn from_str(s: &str) -> (r: Result<Filter, &'static str>)
        ensures
            match filter_named(lowercase(s@)) {
                Some(filter) => r == Ok::<Filter, &'static str>(filter),
                None => r matches Err(message) && message@
                    == "Unsupported filter types, only nearest/triangle/catmullrom/gaussian/lanczos3"@,
            },
    {
        let chars = lowercase_chars(s);
        let len = chars.len();
        assert(chars@.subrange(0, len as int) =~= chars@);
        if is_word(&chars, 0, len, "nearest") {
            Ok(Filter::Nearest)
        } else if is_word(&chars, 0, len, "triangle") {
            Ok(Filter::Triangle)
        } else if is_word(&chars, 0, len, "catmullrom") || is_word(&chars, 0, len, "catmull-rom") {
            Ok(Filter::CatmullRom)
        } else if is_word(&chars, 0, len, "gaussian") {
            Ok(Filter::Gaussian)
        } else if is_word(&chars, 0, len, "lanczos3") {
            Ok(Filter::Lanczos3)
        } else {
            Err("Unsupported filter types, only nearest/triangle/catmullrom/gaussian/lanczos3")
        }
    }
}

/// The extension of a format is read back as that format.
pub proof fn lemma_format_roundtrip(format: Format)
    ensures
        format_named(lowercase(format.extension())) == Some(format),
{
    reveal_strlit("png");
    reveal_strlit("jpeg");
    reveal_strlit("jpg");
    reveal_strlit("webp");
    reveal_strlit("bmp");
    reveal_strlit("avif");
    reveal_strlit("tiff");
    assert("png"@.len() == 3 && "png"@[0] == 'p');
    assert("jpeg"@.len() == 4 && "jpeg"@[0] == 'j');
    assert("jpg"@.len() == 3 && "jpg"@[0] == 'j');
    assert("webp"@.len() == 4 && "webp"@[0] == 'w');
    assert("bmp"@.len() == 3 && "bmp"@[0] == 'b');
    assert("avif"@.len() == 4 && "avif"@[0] == 'a');
    assert("tiff"@.len() == 4 && "tiff"@[0] == 't');
    assert(is_identifier(format.extension()));
    lemma_bare_roundtrip(format.extension());
}

} // verus!
