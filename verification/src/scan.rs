//! The pass over the input: every character is kept, replaced, or folded
//! into a word boundary.

use crate::chars::{
    is_ascii_alnum, is_ascii_alphanumeric, is_forbidden, is_forbidden_filename_char,
    is_separatorish, lower_ascii, to_ascii_lowercase, to_lowercase, unicode_alphanumeric,
    unicode_lowercase, unicode_uppercase,
};
use crate::options::{sanitize_separator, SlugOptions};
use crate::translit::{lemma_ascii_has_no_replacement, text_of, transliterate, transliteration};
use vstd::prelude::*;

verus! {

/// What the pass has written, and whether it stands at a word boundary: at the
/// start, or right after a separator that a boundary wrote.
pub struct Scan {
    pub out: Seq<char>,
    pub at_boundary: bool,
}

/// Nothing written yet. Starting at a boundary keeps separators off the front.
pub open spec fn start() -> Scan {
    Scan { out: Seq::empty(), at_boundary: true }
}

/// One character is written.
pub open spec fn keep(st: Scan, c: char) -> Scan {
    Scan { out: st.out.push(c), at_boundary: false }
}

/// Several characters are written.
pub open spec fn keep_all(st: Scan, s: Seq<char>) -> Scan {
    Scan { out: st.out + s, at_boundary: false }
}

/// A word boundary: one separator is written, unless nothing was written yet
/// or the pass already stands at a boundary.
pub open spec fn boundary(st: Scan, sep: char) -> Scan {
    if !st.at_boundary && st.out.len() > 0 {
        Scan { out: st.out.push(sep), at_boundary: true }
    } else {
        st
    }
}

/// `c` in the case that the options ask for.
pub open spec fn cased(c: char, lowercase: bool) -> char {
    if lowercase {
        lower_ascii(c)
    } else {
        c
    }
}

/// ASCII letters and digits are always kept, `_` where the options keep it.
pub open spec fn is_word_char(c: char, opt: SlugOptions) -> bool {
    is_ascii_alnum(c) || (c == '_' && opt.keep_underscore)
}

/// What a kept ASCII character is written as.
pub open spec fn written(c: char, opt: SlugOptions) -> char {
    if is_ascii_alnum(c) {
        cased(c, opt.lowercase)
    } else {
        c
    }
}

/// The step for one character of a stand-in: kept if it is a word character,
/// a boundary otherwise.
pub open spec fn plain_step(st: Scan, c: char, opt: SlugOptions) -> Scan {
    if is_word_char(c, opt) {
        keep(st, written(c, opt))
    } else {
        boundary(st, opt.sep())
    }
}

/// The pass over a stand-in. An empty stand-in changes nothing.
pub open spec fn scan_substitution(st: Scan, s: Seq<char>, opt: SlugOptions) -> Scan
    decreases s.len(),
{
    if s.len() == 0 {
        st
    } else {
        plain_step(scan_substitution(st, s.drop_last(), opt), s.last(), opt)
    }
}

/// Whether some character of `s` is a word character.
pub open spec fn any_word_char(s: Seq<char>, opt: SlugOptions) -> bool {
    exists|i: int| 0 <= i < s.len() && is_word_char(#[trigger] s[i], opt)
}

/// The step for one input character, given what the standard library and the
/// table say of it: whether it is a letter or digit, its lowercase mapping,
/// and its stand-in. The rules apply in this order; the first that fits
/// decides.
///
/// - A character that no file name may hold is a word boundary.
/// - A word character is kept.
/// - A letter or digit beyond ASCII passes, in lowercase if the options ask
///   for it, where the options let such characters through.
/// - A character with a stand-in is replaced by it, where the options
///   transliterate.
/// - Everything else is a word boundary, white space and punctuation like
///   any other character.
pub open spec fn step_given(
    st: Scan,
    c: char,
    opt: SlugOptions,
    alphanumeric: bool,
    lowered: Seq<char>,
    stand_in: Option<Seq<char>>,
) -> Scan {
    if is_forbidden(c) {
        boundary(st, opt.sep())
    } else if is_word_char(c, opt) {
        keep(st, written(c, opt))
    } else if opt.passes_unicode() && c > '\u{7f}' && alphanumeric {
        keep_all(
            st,
            if opt.lowercase {
                lowered
            } else {
                seq![c]
            },
        )
    } else if opt.transliterate && stand_in is Some {
        scan_substitution(st, stand_in->0, opt)
    } else {
        boundary(st, opt.sep())
    }
}

/// The step for one input character. An uppercase character gets a
/// capitalized stand-in unless the options lowercase.
pub open spec fn scan_step(st: Scan, c: char, opt: SlugOptions) -> Scan {
    step_given(
        st,
        c,
        opt,
        unicode_alphanumeric(c),
        unicode_lowercase(c),
        transliteration(c, unicode_uppercase(c) && !opt.lowercase),
    )
}

/// The pass over the whole input.
pub open spec fn scan(input: Seq<char>, opt: SlugOptions) -> Scan
    decreases input.len(),
{
    if input.len() == 0 {
        start()
    } else {
        scan_step(scan(input.drop_last(), opt), input.last(), opt)
    }
}

/// A stand-in without a word character amounts to one boundary, or to
/// nothing if it is empty.
pub proof fn lemma_wordless_substitution(st: Scan, s: Seq<char>, opt: SlugOptions)
    requires
        !any_word_char(s, opt),
    ensures
        scan_substitution(st, s, opt) == if s.len() == 0 {
            st
        } else {
            boundary(st, opt.sep())
        },
    decreases s.len(),
{
    if s.len() > 0 {
        let front = s.drop_last();
        assert(!any_word_char(front, opt)) by {
            if any_word_char(front, opt) {
                let i = choose|i: int| 0 <= i < front.len() && is_word_char(#[trigger] front[i], opt);
                assert(is_word_char(s[i], opt));
            }
        }
        lemma_wordless_substitution(st, front, opt);
        assert(!is_word_char(s[s.len() - 1], opt));
    }
}

/// What the pass can write under `opt` when it writes no lowercase mapping:
/// the separator, an ASCII letter or digit in the case that the options ask
/// for, `_` where it is kept, and characters beyond ASCII where they pass.
pub open spec fn is_written(c: char, opt: SlugOptions) -> bool {
    ||| c == opt.sep()
    ||| (is_ascii_alnum(c) && cased(c, opt.lowercase) == c)
    ||| (c == '_' && opt.keep_underscore)
    ||| (opt.passes_unicode() && c > '\u{7f}')
}

/// Whether `s` holds nothing but what the pass can write.
pub open spec fn all_written(s: Seq<char>, opt: SlugOptions) -> bool {
    forall|i: int| 0 <= i < s.len() ==> is_written(#[trigger] s[i], opt)
}

/// Whether no two separators stand side by side in `s`.
pub open spec fn no_double_sep(s: Seq<char>, sep: char) -> bool {
    forall|i: int| 0 <= i < s.len() - 1 ==> !(#[trigger] s[i] == sep && s[i + 1] == sep)
}

/// Whether separators stand only between words: none at the start, no two
/// side by side, and the pass is at a boundary exactly when nothing is
/// written or a separator was written last.
pub open spec fn well_parted(st: Scan, sep: char) -> bool {
    &&& st.at_boundary == (st.out.len() == 0 || st.out.last() == sep)
    &&& (st.out.len() > 0 ==> st.out[0] != sep)
    &&& no_double_sep(st.out, sep)
}

/// What holds of the pass at every point, as far as the options allow it to
/// be known.
pub open spec fn tidy(st: Scan, opt: SlugOptions) -> bool {
    &&& (!opt.writes_lowercase_mappings() ==> all_written(st.out, opt))
    &&& (!opt.writes_lowercase_mappings() && !opt.underscore_is_both() ==> well_parted(
        st,
        opt.sep(),
    ))
}

/// A boundary keeps the pass tidy.
pub proof fn lemma_boundary_tidy(st: Scan, opt: SlugOptions)
    requires
        tidy(st, opt),
    ensures
        tidy(boundary(st, opt.sep()), opt),
{
    let sep = opt.sep();
    let next = boundary(st, sep);
    if next != st {
        assert forall|i: int| 0 <= i < next.out.len() && all_written(st.out, opt) implies is_written(
            #[trigger] next.out[i],
            opt,
        ) by {
            if i < st.out.len() {
                assert(next.out[i] == st.out[i]);
            }
        }
        if well_parted(st, sep) {
            assert forall|i: int| 0 <= i < next.out.len() - 1 implies !(#[trigger] next.out[i]
                == sep && next.out[i + 1] == sep) by {
                if i < st.out.len() - 1 {
                    assert(next.out[i] == st.out[i]);
                    assert(next.out[i + 1] == st.out[i + 1]);
                }
            }
            assert(next.out[0] == st.out[0]);
        }
    }
}

/// Writing one character that the pass can write, and that is no separator,
/// keeps the pass tidy.
pub proof fn lemma_keep_tidy(st: Scan, c: char, opt: SlugOptions)
    requires
        tidy(st, opt),
        is_written(c, opt),
        !opt.underscore_is_both() ==> c != opt.sep(),
    ensures
        tidy(keep(st, c), opt),
{
    let sep = opt.sep();
    let next = keep(st, c);
    assert forall|i: int| 0 <= i < next.out.len() && all_written(st.out, opt) implies is_written(
        #[trigger] next.out[i],
        opt,
    ) by {
        if i < st.out.len() {
            assert(next.out[i] == st.out[i]);
        }
    }
    if !opt.writes_lowercase_mappings() && !opt.underscore_is_both() {
        assert forall|i: int| 0 <= i < next.out.len() - 1 implies !(#[trigger] next.out[i] == sep
            && next.out[i + 1] == sep) by {
            if i < st.out.len() - 1 {
                assert(next.out[i] == st.out[i]);
                assert(next.out[i + 1] == st.out[i + 1]);
            }
        }
        if st.out.len() > 0 {
            assert(next.out[0] == st.out[0]);
        }
    }
}

/// A kept word character is written as something the pass can write.
pub proof fn lemma_word_char_written(c: char, opt: SlugOptions)
    requires
        is_word_char(c, opt),
    ensures
        is_written(written(c, opt), opt),
        !opt.underscore_is_both() ==> written(c, opt) != opt.sep(),
        is_ascii_alnum(c) ==> is_ascii_alnum(written(c, opt)),
{
}

/// The step for a character of a stand-in keeps the pass tidy.
pub proof fn lemma_plain_step_tidy(st: Scan, c: char, opt: SlugOptions)
    requires
        tidy(st, opt),
    ensures
        tidy(plain_step(st, c, opt), opt),
{
    if is_word_char(c, opt) {
        lemma_word_char_written(c, opt);
        lemma_keep_tidy(st, written(c, opt), opt);
    } else {
        lemma_boundary_tidy(st, opt);
    }
}

/// The pass over a stand-in keeps the pass tidy.
pub proof fn lemma_substitution_tidy(st: Scan, s: Seq<char>, opt: SlugOptions)
    requires
        tidy(st, opt),
    ensures
        tidy(scan_substitution(st, s, opt), opt),
    decreases s.len(),
{
    if s.len() > 0 {
        lemma_substitution_tidy(st, s.drop_last(), opt);
        lemma_plain_step_tidy(scan_substitution(st, s.drop_last(), opt), s.last(), opt);
    }
}

/// The step for an input character keeps the pass tidy, whatever is said of
/// the character.
pub proof fn lemma_step_tidy(
    st: Scan,
    c: char,
    opt: SlugOptions,
    alphanumeric: bool,
    lowered: Seq<char>,
    stand_in: Option<Seq<char>>,
)
    requires
        tidy(st, opt),
    ensures
        tidy(step_given(st, c, opt, alphanumeric, lowered, stand_in), opt),
{
    if is_forbidden(c) {
        lemma_boundary_tidy(st, opt);
    } else if is_word_char(c, opt) {
        lemma_word_char_written(c, opt);
        lemma_keep_tidy(st, written(c, opt), opt);
    } else if opt.passes_unicode() && c > '\u{7f}' && alphanumeric {
        if !opt.writes_lowercase_mappings() {
            assert(keep_all(st, seq![c]) == keep(st, c)) by {
                assert(st.out + seq![c] == st.out.push(c));
            }
            lemma_keep_tidy(st, c, opt);
        }
    } else if opt.transliterate && stand_in is Some {
        lemma_substitution_tidy(st, stand_in->0, opt);
    } else {
        lemma_boundary_tidy(st, opt);
    }
}

/// The pass is tidy at its end.
pub proof fn lemma_scan_tidy(input: Seq<char>, opt: SlugOptions)
    ensures
        tidy(scan(input, opt), opt),
    decreases input.len(),
{
    if input.len() > 0 {
        lemma_scan_tidy(input.drop_last(), opt);
        let c = input.last();
        lemma_step_tidy(
            scan(input.drop_last(), opt),
            c,
            opt,
            unicode_alphanumeric(c),
            unicode_lowercase(c),
            transliteration(c, unicode_uppercase(c) && !opt.lowercase),
        );
    }
}

/// Writes the separator for a word boundary, unless the output is empty or
/// already ends in one.
pub fn push_sep(out: &mut Vec<char>, sep: char, last_was_sep: &mut bool)
    ensures
        (Scan { out: final(out)@, at_boundary: *final(last_was_sep) }) == boundary(
            Scan { out: old(out)@, at_boundary: *old(last_was_sep) },
            sep,
        ),
{
    if !*last_was_sep && out.len() > 0 {
        out.push(sep);
        *last_was_sep = true;
    }
}

/// Appends `ch`, lowered to its ASCII small letter on request.
pub fn push_ascii_alnum(out: &mut Vec<char>, ch: char, lowercase: bool)
    ensures
        final(out)@ == old(out)@.push(cased(ch, lowercase)),
{
    if lowercase {
        out.push(to_ascii_lowercase(ch));
    } else {
        out.push(ch);
    }
}

/// Appends `ch` if it is a word character and says whether it was.
pub fn push_word_char(
    out: &mut Vec<char>,
    last_was_sep: &mut bool,
    ch: char,
    opt: &SlugOptions,
) -> (kept: bool)
    ensures
        kept == is_word_char(ch, *opt),
        (Scan { out: final(out)@, at_boundary: *final(last_was_sep) }) == if kept {
            keep(Scan { out: old(out)@, at_boundary: *old(last_was_sep) }, written(ch, *opt))
        } else {
            Scan { out: old(out)@, at_boundary: *old(last_was_sep) }
        },
{
    if is_ascii_alphanumeric(ch) {
        push_ascii_alnum(out, ch, opt.lowercase);
        *last_was_sep = false;
        true
    } else if ch == '_' && opt.keep_underscore {
        out.push('_');
        *last_was_sep = false;
        true
    } else {
        false
    }
}

/// Runs the pass over a stand-in and says whether any of it was kept.
pub fn push_substitution(
    out: &mut Vec<char>,
    last_was_sep: &mut bool,
    s: &str,
    opt: &SlugOptions,
) -> (pushed_any: bool)
    ensures
        (Scan { out: final(out)@, at_boundary: *final(last_was_sep) }) == scan_substitution(
            Scan { out: old(out)@, at_boundary: *old(last_was_sep) },
            s@,
            *opt,
        ),
        pushed_any == any_word_char(s@, *opt),
{
    let sep = sanitize_separator(opt.separator);
    let mut pushed_any = false;
    let ghost before = Scan { out: out@, at_boundary: *last_was_sep };
    for t in it: s.chars()
        invariant
            it.seq() == s@,
            sep == opt.sep(),
            (Scan { out: out@, at_boundary: *last_was_sep }) == scan_substitution(
                before,
                s@.take(it.index()),
                *opt,
            ),
            pushed_any == any_word_char(s@.take(it.index()), *opt),
    {
        let ghost seen = s@.take(it.index());
        let ghost next = s@.take(it.index() + 1);
        proof {
            assert(next.drop_last() == seen);
            assert(next.last() == t);
        }
        if push_word_char(out, last_was_sep, t, opt) {
            pushed_any = true;
            proof {
                assert(is_word_char(next[it.index()], *opt));
            }
        } else {
            push_sep(out, sep, last_was_sep);
            proof {
                if any_word_char(next, *opt) {
                    let i = choose|i: int|
                        0 <= i < next.len() && is_word_char(#[trigger] next[i], *opt);
                    assert(is_word_char(seen[i], *opt));
                }
                if any_word_char(seen, *opt) {
                    let i = choose|i: int|
                        0 <= i < seen.len() && is_word_char(#[trigger] seen[i], *opt);
                    assert(is_word_char(next[i], *opt));
                }
            }
        }
    }
    proof {
        assert(s@.take(s@.len() as int) == s@);
    }
    pushed_any
}

/// Appends every character of `s`.
pub fn push_all(out: &mut Vec<char>, s: &Vec<char>)
    ensures
        final(out)@ == old(out)@ + s@,
{
    for i in 0..s.len()
        invariant
            out@ == old(out)@ + s@.take(i as int),
    {
        out.push(s[i]);
        proof {
            assert(s@.take(i as int).push(s[i as int]) == s@.take(i + 1));
        }
    }
    proof {
        assert(s@.take(s@.len() as int) == s@);
    }
}

/// Applies the rules to one input character, given what is known of it:
/// whether it is a letter or digit, its lowercase mapping, and its stand-in.
pub fn scan_char_given(
    out: &mut Vec<char>,
    last_was_sep: &mut bool,
    ch: char,
    opt: &SlugOptions,
    alphanumeric: bool,
    lowered: &Vec<char>,
    stand_in: &Option<String>,
)
    ensures
        (Scan { out: final(out)@, at_boundary: *final(last_was_sep) }) == step_given(
            Scan { out: old(out)@, at_boundary: *old(last_was_sep) },
            ch,
            *opt,
            alphanumeric,
            lowered@,
            text_of(*stand_in),
        ),
{
    let sep = sanitize_separator(opt.separator);
    if is_forbidden_filename_char(ch) {
        push_sep(out, sep, last_was_sep);
        return ;
    }
    if push_word_char(out, last_was_sep, ch, opt) {
        return ;
    }
    if opt.unicode_support && opt.allow_unicode && ch > '\u{7f}' && alphanumeric {
        if opt.lowercase {
            push_all(out, lowered);
        } else {
            out.push(ch);
            proof {
                assert(out@ == old(out)@ + seq![ch]);
            }
        }
        *last_was_sep = false;
        return ;
    }
    if opt.transliterate {
        if let Some(s) = stand_in {
            let text = s.as_str();
            if text.is_empty() {
                return ;
            }
            let pushed_any = push_substitution(out, last_was_sep, text, opt);
            if pushed_any {
                return ;
            }
            proof {
                lemma_wordless_substitution(
                    Scan { out: old(out)@, at_boundary: *old(last_was_sep) },
                    s@,
                    *opt,
                );
            }
        }
    }
    if is_separatorish(ch) {
        push_sep(out, sep, last_was_sep);
        return ;
    }
    push_sep(out, sep, last_was_sep);
}

/// Applies the rules to one input character. The standard library and the
/// table are asked only about characters beyond ASCII, and only where the
/// options need the answer.
pub fn scan_char(out: &mut Vec<char>, last_was_sep: &mut bool, ch: char, opt: &SlugOptions)
    ensures
        (Scan { out: final(out)@, at_boundary: *final(last_was_sep) }) == scan_step(
            Scan { out: old(out)@, at_boundary: *old(last_was_sep) },
            ch,
            *opt,
        ),
{
    let nothing: Vec<char> = Vec::new();
    if ch <= '\u{7f}' {
        proof {
            lemma_ascii_has_no_replacement(ch);
        }
        scan_char_given(out, last_was_sep, ch, opt, false, &nothing, &None);
        return ;
    }
    let alphanumeric = opt.unicode_support && opt.allow_unicode && ch.is_alphanumeric();
    let lowered = if alphanumeric && opt.lowercase {
        to_lowercase(ch)
    } else {
        nothing
    };
    let stand_in = if !alphanumeric && opt.transliterate {
        transliterate(ch, opt.lowercase)
    } else {
        None
    };
    scan_char_given(out, last_was_sep, ch, opt, alphanumeric, &lowered, &stand_in);
}

} // verus!
