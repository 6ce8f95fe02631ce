//! Filesystem-safe slugs from arbitrary text.
//!
//! A slug is a short name that is safe as a file name on Windows and Unix and
//! as a segment of a URL path. `slugify` makes one with the default options,
//! `slugify_with` with options of the caller's. No input is refused: what
//! collapses to nothing comes back as the fallback of the options.

use vstd::prelude::*;

pub mod chars;
pub mod finish;
pub mod laws;
pub mod options;
pub mod scan;
pub mod translit;

pub use options::SlugOptions;

use chars::utf8_len;
use finish::{
    finish, finished, is_degenerate, lemma_trim_end, lemma_truncated, lemma_utf8_len_prefix,
    trim_end, truncated, unbounded,
};
use laws::{clean_end, is_stable, law_default_idempotent, law_default_slug_is_stable};
use options::default_options;
use scan::{scan, scan_char, Scan};

verus! {

/// The slug of `input` under `opt`: the characters that the pass over the
/// input writes, made into a file name.
pub open spec fn slug(input: Seq<char>, opt: SlugOptions) -> Seq<char> {
    finished(scan(input, opt).out, opt)
}

/// Gathers characters into a string.
pub fn to_string(v: &Vec<char>) -> (s: String)
    ensures
        s@ == v@,
{
    let mut s = String::new();
    for i in 0..v.len()
        invariant
            s@ == v@.take(i as int),
    {
        s.push(v[i]);
        proof {
            assert(v@.take(i as int).push(v[i as int]) == v@.take(i + 1));
        }
    }
    proof {
        assert(v@.take(v@.len() as int) == v@);
    }
    s
}

/// Converts `input` into a slug under `opt`.
///
/// Every input gives a slug. Unless the slug is the fallback of the options,
/// it names a file, fits in the byte limit and ends with no separator, dot
/// or space; `laws` says what more holds, and under which options.
pub fn slugify_with(input: &str, opt: SlugOptions) -> (r: String)
    ensures
        r@ == slug(input@, opt),
        r@ == opt.fallback@ || (!is_degenerate(r@) && utf8_len(r@) <= opt.max_len_bytes
            && clean_end(r@, opt.sep())),
{
    let mut out: Vec<char> = Vec::new();
    let mut last_was_sep = true;
    for ch in it: input.chars()
        invariant
            it.seq() == input@,
            (Scan { out: out@, at_boundary: last_was_sep }) == scan(input@.take(it.index()), opt),
    {
        proof {
            assert(input@.take(it.index() + 1).drop_last() == input@.take(it.index()));
        }
        scan_char(&mut out, &mut last_was_sep, ch, &opt);
    }
    proof {
        assert(input@.take(input@.len() as int) == input@);
    }
    finish(&mut out, &opt);
    proof {
        lemma_truncated(unbounded(scan(input@, opt).out, opt), opt.max_len_bytes as nat);
        let cut = truncated(unbounded(scan(input@, opt).out, opt), opt.max_len_bytes as nat);
        lemma_trim_end(cut, opt.sep());
        lemma_utf8_len_prefix(cut, trim_end(cut, opt.sep()).len() as int);
    }
    to_string(&out)
}

/// Converts `input` into a slug under the default options.
///
/// The slug is stable: it is not empty, is made of ASCII small letters,
/// digits, `_` and `-`, begins and ends with no `-`, has no two `-` side by
/// side, is no device name of Windows and takes 255 bytes at most. Converting
/// it once more gives it back.
pub fn slugify(input: &str) -> (r: String)
    ensures
        r@ == slug(input@, default_options()),
        is_stable(r@, default_options()),
        slug(r@, default_options()) == r@,
{
    proof {
        law_default_slug_is_stable(input@);
        law_default_idempotent(input@);
    }
    slugify_with(input, SlugOptions::default())
}

} // verus!
