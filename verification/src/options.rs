//! The policy knobs of a conversion.

use vstd::prelude::*;

verus! {

/// What a conversion keeps, what it breaks words on and how long the result
/// may get.
///
/// Nothing is validated when a value is built: the conversion itself replaces
/// a separator outside `- _ + ~` by `-`, and takes any byte limit as it comes.
/// A limit of zero leaves room for no character at all, so every input then
/// yields the fallback.
#[derive(Clone, Copy, Debug)]
pub struct SlugOptions {
    /// Written once for every run of characters that part words.
    pub separator: char,
    /// Lowercase what is kept.
    pub lowercase: bool,
    /// Upper bound on the UTF-8 length of the slug, in bytes.
    pub max_len_bytes: usize,
    /// Keep letters and digits beyond ASCII as they are. Takes effect only
    /// where `unicode_support` is set.
    pub allow_unicode: bool,
    /// Keep `_`; otherwise it parts words like a space.
    pub keep_underscore: bool,
    /// Put `_` before a result that would begin with a dot.
    pub avoid_leading_dot: bool,
    /// Returned in place of an empty result, `.` or `..`.
    pub fallback: &'static str,
    /// Whether letters and digits beyond ASCII can be kept at all.
    pub unicode_support: bool,
    /// Whether characters beyond ASCII are replaced by ASCII look-alikes
    /// where the table has one.
    pub transliterate: bool,
}

/// The separators that a slug may be written with.
pub open spec fn is_separator(c: char) -> bool {
    c == '-' || c == '_' || c == '+' || c == '~'
}

/// The separator that is written for a requested one: itself where it is
/// allowed, `-` otherwise.
pub open spec fn sanitized(sep: char) -> char {
    if is_separator(sep) {
        sep
    } else {
        '-'
    }
}

/// The options that `SlugOptions::default` returns.
pub open spec fn default_options() -> SlugOptions {
    SlugOptions {
        separator: '-',
        lowercase: true,
        max_len_bytes: 255,
        allow_unicode: false,
        keep_underscore: true,
        avoid_leading_dot: true,
        fallback: "file",
        unicode_support: true,
        transliterate: true,
    }
}

impl SlugOptions {
    /// The separator that the conversion writes.
    pub open spec fn sep(&self) -> char {
        sanitized(self.separator)
    }

    /// Whether letters and digits beyond ASCII are kept as they are.
    pub open spec fn passes_unicode(&self) -> bool {
        self.unicode_support && self.allow_unicode
    }

    /// Whether the conversion writes the lowercase mappings of characters
    /// beyond ASCII. What such a mapping holds is the standard library's
    /// business; nothing here says that it is free of separators, dots or
    /// spaces.
    pub open spec fn writes_lowercase_mappings(&self) -> bool {
        self.passes_unicode() && self.lowercase
    }

    /// Whether `_` is both kept as a word character and written as the
    /// separator. A slug then cannot show which is which.
    pub open spec fn underscore_is_both(&self) -> bool {
        self.sep() == '_' && self.keep_underscore
    }
}

impl Default for SlugOptions {
    /// `-` between words, lowercase, at most 255 bytes, ASCII only, `_` kept,
    /// no leading dot, `file` as the fallback, both optional capabilities
    /// available.
    fn default() -> (r: Self)
        ensures
            r == default_options(),
    {
        SlugOptions {
            separator: '-',
            lowercase: true,
            max_len_bytes: 255,
            allow_unicode: false,
            keep_underscore: true,
            avoid_leading_dot: true,
            fallback: "file",
            unicode_support: true,
            transliterate: true,
        }
    }
}

/// Replaces a separator that is not one of `- _ + ~` by `-`.
pub fn sanitize_separator(sep: char) -> (r: char)
    ensures
        r == sanitized(sep),
        is_separator(r),
{
    if sep == '-' || sep == '_' || sep == '+' || sep == '~' {
        sep
    } else {
        '-'
    }
}

} // verus!
