//! The closed set of compression formats accepted by the external tool,
//! the vocabulary of recognized file-name hint tokens, and the fixed
//! hint-to-format lookup.
use vstd::prelude::*;

use crate::text::str_eq;

verus! {

/// A block-compression format tag accepted by the external tool.
#[derive(Debug, Clone, Copy, PartialEq, Eq, Structural)]
pub enum ImageFileFormat {
    Bc1,
    Bc3,
    Bc4,
    Bc5,
}

/// The tag under which the external tool knows the format.
pub open spec fn format_tag(f: ImageFileFormat) -> Seq<char> {
    match f {
        ImageFileFormat::Bc1 => "bc1"@,
        ImageFileFormat::Bc3 => "bc3"@,
        ImageFileFormat::Bc4 => "bc4"@,
        ImageFileFormat::Bc5 => "bc5"@,
    }
}

impl ImageFileFormat {
    /// The tag under which the external tool knows this format.
    pub fn as_str(&self) -> (r: &'static str)
        ensures
            r@ == format_tag(*self),
    {
        match self {
            ImageFileFormat::Bc1 => "bc1",
            ImageFileFormat::Bc3 => "bc3",
            ImageFileFormat::Bc4 => "bc4",
            ImageFileFormat::Bc5 => "bc5",
        }
    }
}

/// Whether `s` is one of the recognized hint tokens.
pub open spec fn is_recognized_hint(s: Seq<char>) -> bool {
    ||| s == "ao"@
    ||| s == "rg"@
    ||| s == "mt"@
    ||| s == "hm"@
    ||| s == "nm"@
    ||| s == "lm"@
    ||| s == "dirt"@
}

/// The format a recognized hint resolves to: the normal-map hint to Bc5,
/// the dirt-mask hint to Bc1, every other (single-channel) hint to Bc4.
pub open spec fn hint_format(s: Seq<char>) -> ImageFileFormat {
    if s == "nm"@ {
        ImageFileFormat::Bc5
    } else if s == "dirt"@ {
        ImageFileFormat::Bc1
    } else {
        ImageFileFormat::Bc4
    }
}

/// The extra tool flags a recognized hint carries: none for the dirt-mask
/// hint, the gamma-correct-mips-off flag for every other one.
pub open spec fn hint_extra_args(s: Seq<char>) -> Seq<Seq<char>> {
    if s == "dirt"@ {
        Seq::<Seq<char>>::empty()
    } else {
        seq!["--no-mip-gamma-correct"@]
    }
}

/// Whether `s` is one of the recognized hint tokens.
pub fn is_valid_suffix(s: &str) -> (r: bool)
    ensures
        r == is_recognized_hint(s@),
{
    str_eq(s, "ao") || str_eq(s, "rg") || str_eq(s, "mt") || str_eq(s, "hm") || str_eq(s, "nm")
        || str_eq(s, "lm") || str_eq(s, "dirt")
}

/// The format a recognized hint resolves to.
pub fn get_nvtools_format(suffix: &str) -> (r: ImageFileFormat)
    requires
        is_recognized_hint(suffix@),
    ensures
        r == hint_format(suffix@),
{
    if str_eq(suffix, "nm") {
        ImageFileFormat::Bc5
    } else if str_eq(suffix, "dirt") {
        ImageFileFormat::Bc1
    } else {
        ImageFileFormat::Bc4
    }
}

/// The extra tool flags a recognized hint carries.
pub fn get_nvtools_arguments(suffix: &str) -> (r: Vec<String>)
    requires
        is_recognized_hint(suffix@),
    ensures
        r.deep_view() == hint_extra_args(suffix@),
{
    if str_eq(suffix, "dirt") {
        let r = Vec::new();
        proof {
            assert(r.deep_view() =~= hint_extra_args(suffix@));
        }
        r
    } else {
        let mut r = Vec::new();
        r.push(String::from_str("--no-mip-gamma-correct"));
        proof {
            assert(r.deep_view() =~= hint_extra_args(suffix@));
        }
        r
    }
}

/// The two formats offered when a file carries no hint, in the order they
/// are offered; the first is the default.
pub fn prompt_format_choices() -> (r: Vec<ImageFileFormat>)
    ensures
        r@ == seq![ImageFileFormat::Bc1, ImageFileFormat::Bc3],
{
    let mut r = Vec::new();
    r.push(ImageFileFormat::Bc1);
    r.push(ImageFileFormat::Bc3);
    proof {
        assert(r@ =~= seq![ImageFileFormat::Bc1, ImageFileFormat::Bc3]);
    }
    r
}

} // verus!
