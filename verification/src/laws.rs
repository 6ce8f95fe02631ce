//! What holds of every slug.
//!
//! The fallback is the caller's: where a conversion returns it, the slug is
//! as good as the fallback is. So each law asks of the fallback what it
//! promises of the slug.

use crate::chars::{
    is_ascii_alnum, lemma_utf8_len_bounds, lemma_utf8_len_concat, lemma_utf8_len_push, utf8_len,
};
use crate::finish::{
    guard_dot, guard_reserved, guarded, is_degenerate, is_hidden, is_loose_end, is_reserved,
    lemma_guarded_not_reserved, lemma_guards, lemma_reserved_is_short, lemma_trim_end,
    lemma_trimmed, lemma_truncated, lemma_utf8_len_prefix, named, trim_end, trimmed, truncated,
    unbounded, upper,
};
use crate::options::{default_options, is_separator, SlugOptions};
use crate::scan::{
    all_written, boundary, is_word_char, is_written, keep, lemma_scan_tidy, no_double_sep, scan,
    scan_step, written, Scan,
};
use crate::translit::lemma_ascii_has_no_replacement;
use crate::slug;
use vstd::prelude::*;
use vstd::utf8::{is_ascii_chars, is_ascii_chars_encode_utf8};

verus! {

/// Whether `s` begins with no separator, dot or space.
pub open spec fn clean_start(s: Seq<char>, sep: char) -> bool {
    s.len() > 0 ==> s[0] != sep && s[0] != '.' && s[0] != ' '
}

/// Whether `s` ends with no separator, dot or space.
pub open spec fn clean_end(s: Seq<char>, sep: char) -> bool {
    s.len() > 0 ==> !is_loose_end(s.last(), sep)
}

/// A slug is the fallback, or what is left of the guarded name when whole
/// characters are taken off its end.
pub proof fn law_slug_is_prefix_or_fallback(input: Seq<char>, opt: SlugOptions)
    ensures
        slug(input, opt) == opt.fallback@ || (slug(input, opt).len() <= unbounded(
            scan(input, opt).out,
            opt,
        ).len() && slug(input, opt) == unbounded(scan(input, opt).out, opt).take(
            slug(input, opt).len() as int,
        )),
{
    let whole = unbounded(scan(input, opt).out, opt);
    let cut = truncated(whole, opt.max_len_bytes as nat);
    lemma_truncated(whole, opt.max_len_bytes as nat);
    lemma_trim_end(cut, opt.sep());
    let t = trim_end(cut, opt.sep());
    assert(cut.take(t.len() as int) == whole.take(t.len() as int));
}

/// With a fallback that names a file, the slug is never empty, `.` or `..`.
pub proof fn law_never_degenerate(input: Seq<char>, opt: SlugOptions)
    requires
        !is_degenerate(opt.fallback@),
    ensures
        !is_degenerate(slug(input, opt)),
{
}

/// Under a byte limit of zero every slug is the fallback.
pub proof fn law_zero_limit_gives_fallback(input: Seq<char>, opt: SlugOptions)
    requires
        opt.max_len_bytes == 0,
    ensures
        slug(input, opt) == opt.fallback@,
{
    let whole = unbounded(scan(input, opt).out, opt);
    let cut = truncated(whole, 0);
    lemma_truncated(whole, 0);
    lemma_utf8_len_bounds(cut);
    assert(cut.len() == 0);
}

/// With a fallback that fits in the byte limit, the slug fits in it.
pub proof fn law_fits(input: Seq<char>, opt: SlugOptions)
    requires
        utf8_len(opt.fallback@) <= opt.max_len_bytes,
    ensures
        utf8_len(slug(input, opt)) <= opt.max_len_bytes,
{
    let whole = unbounded(scan(input, opt).out, opt);
    let cut = truncated(whole, opt.max_len_bytes as nat);
    lemma_truncated(whole, opt.max_len_bytes as nat);
    lemma_trim_end(cut, opt.sep());
    lemma_utf8_len_prefix(cut, trim_end(cut, opt.sep()).len() as int);
}

/// With a fallback that ends with no separator, dot or space, the slug ends
/// with none.
pub proof fn law_clean_end(input: Seq<char>, opt: SlugOptions)
    requires
        clean_end(opt.fallback@, opt.sep()),
    ensures
        clean_end(slug(input, opt), opt.sep()),
{
    let whole = unbounded(scan(input, opt).out, opt);
    let cut = truncated(whole, opt.max_len_bytes as nat);
    lemma_trim_end(cut, opt.sep());
}

/// A stretch of characters that the pass can write holds only such.
proof fn lemma_all_written_subrange(s: Seq<char>, from: int, to: int, opt: SlugOptions)
    requires
        all_written(s, opt),
        0 <= from <= to <= s.len(),
    ensures
        all_written(s.subrange(from, to), opt),
{
    let t = s.subrange(from, to);
    assert forall|i: int| 0 <= i < t.len() implies is_written(#[trigger] t[i], opt) by {
        assert(t[i] == s[from + i]);
    }
}

/// A stretch has no two separators side by side if the whole has none.
proof fn lemma_no_double_sep_subrange(s: Seq<char>, from: int, to: int, sep: char)
    requires
        no_double_sep(s, sep),
        0 <= from <= to <= s.len(),
    ensures
        no_double_sep(s.subrange(from, to), sep),
{
    let t = s.subrange(from, to);
    assert forall|i: int| 0 <= i < t.len() - 1 implies !(#[trigger] t[i] == sep && t[i + 1]
        == sep) by {
        assert(t[i] == s[from + i]);
        assert(t[i + 1] == s[from + i + 1]);
    }
}

/// What the pass can write is no dot and no space.
proof fn lemma_written_is_no_dot_or_space(c: char, opt: SlugOptions)
    requires
        is_written(c, opt),
    ensures
        c != '.' && c != ' ',
{
}

/// What the pass wrote, trimmed at both ends, holds only what the pass can
/// write, begins and ends cleanly and, where `_` is not both kept and the
/// separator, has no two separators side by side.
proof fn lemma_trimmed_scan(input: Seq<char>, opt: SlugOptions)
    requires
        !opt.writes_lowercase_mappings(),
    ensures
        all_written(trimmed(scan(input, opt).out, opt.sep()), opt),
        clean_start(trimmed(scan(input, opt).out, opt.sep()), opt.sep()),
        clean_end(trimmed(scan(input, opt).out, opt.sep()), opt.sep()),
        !opt.underscore_is_both() ==> no_double_sep(
            trimmed(scan(input, opt).out, opt.sep()),
            opt.sep(),
        ),
{
    let sep = opt.sep();
    let raw = scan(input, opt).out;
    let t = trimmed(raw, sep);
    lemma_scan_tidy(input, opt);
    let from = lemma_trimmed(raw, sep);
    lemma_all_written_subrange(raw, from, from + t.len(), opt);
    if t.len() > 0 {
        lemma_written_is_no_dot_or_space(t[0], opt);
    }
    if !opt.underscore_is_both() {
        lemma_no_double_sep_subrange(raw, from, from + t.len(), sep);
    }
}

/// A prefix has no two separators side by side if the whole has none.
proof fn lemma_no_double_sep_take(s: Seq<char>, k: int, sep: char)
    requires
        no_double_sep(s, sep),
        0 <= k <= s.len(),
    ensures
        no_double_sep(s.take(k), sep),
{
    let p = s.take(k);
    assert forall|i: int| 0 <= i < p.len() - 1 implies !(#[trigger] p[i] == sep && p[i + 1]
        == sep) by {
        assert(p[i] == s[i]);
        assert(p[i + 1] == s[i + 1]);
    }
}

/// An underscore before a name that begins with no separator puts no two
/// separators side by side.
proof fn lemma_no_double_sep_guarded(s: Seq<char>, sep: char)
    requires
        no_double_sep(s, sep),
        s.len() > 0 ==> s[0] != sep,
    ensures
        no_double_sep(guarded(s), sep),
{
    let g = guarded(s);
    assert forall|i: int| 0 <= i < g.len() - 1 implies !(#[trigger] g[i] == sep && g[i + 1]
        == sep) by {
        if i > 0 {
            assert(g[i] == s[i - 1]);
            assert(g[i + 1] == s[i]);
        } else {
            assert(g[1] == s[0]);
        }
    }
}

/// The guards put no two separators side by side.
proof fn lemma_no_double_sep_guards(s: Seq<char>, avoid_leading_dot: bool, sep: char)
    requires
        no_double_sep(s, sep),
        is_separator(sep),
    ensures
        no_double_sep(guard_reserved(guard_dot(s, avoid_leading_dot)), sep),
{
    let d = guard_dot(s, avoid_leading_dot);
    if avoid_leading_dot && is_hidden(s) {
        lemma_no_double_sep_guarded(s, sep);
        lemma_guarded_not_reserved(s);
    } else if is_reserved(d) {
        lemma_reserved_is_short(d);
        assert(is_ascii_alnum(d[0]));
        lemma_no_double_sep_guarded(d, sep);
    }
}

/// With a fallback that begins with no separator, dot or space, the slug
/// begins with none.
///
/// Two kinds of conversion are left out. One writes lowercase mappings of
/// characters beyond ASCII, of which nothing is known here. The other has `_`
/// for its separator and a device name to guard: the guard is an underscore,
/// so that slug does begin with the separator.
pub proof fn law_clean_start(input: Seq<char>, opt: SlugOptions)
    requires
        clean_start(opt.fallback@, opt.sep()),
        !opt.writes_lowercase_mappings(),
        opt.sep() == '_' ==> !is_reserved(named(scan(input, opt).out, opt)),
    ensures
        clean_start(slug(input, opt), opt.sep()),
{
    let sep = opt.sep();
    let raw = scan(input, opt).out;
    lemma_trimmed_scan(input, opt);
    let n = named(raw, opt);
    assert(clean_start(n, sep));
    let whole = unbounded(raw, opt);
    assert(clean_start(whole, sep)) by {
        assert(guard_dot(n, opt.avoid_leading_dot) == n);
        if is_reserved(n) {
            assert(guarded(n)[0] == '_');
        }
    }
    law_slug_is_prefix_or_fallback(input, opt);
}

/// With a fallback that has no two separators side by side, the slug has
/// none.
///
/// Two kinds of options are left out. One writes lowercase mappings of
/// characters beyond ASCII, of which nothing is known here. The other keeps
/// `_` and writes it as the separator too: a kept underscore next to a word
/// boundary then gives two in a row.
pub proof fn law_no_double_separator(input: Seq<char>, opt: SlugOptions)
    requires
        no_double_sep(opt.fallback@, opt.sep()),
        !opt.writes_lowercase_mappings(),
        !opt.underscore_is_both(),
    ensures
        no_double_sep(slug(input, opt), opt.sep()),
{
    let sep = opt.sep();
    let raw = scan(input, opt).out;
    lemma_trimmed_scan(input, opt);
    let n = named(raw, opt);
    assert(no_double_sep(n, sep));
    lemma_no_double_sep_guards(n, opt.avoid_leading_dot, sep);
    let whole = unbounded(raw, opt);
    law_slug_is_prefix_or_fallback(input, opt);
    if slug(input, opt) != opt.fallback@ {
        lemma_no_double_sep_take(whole, slug(input, opt).len() as int, sep);
    }
}

/// The guarded name does not end loosely if the fallback does not.
proof fn lemma_unbounded_clean_end(raw: Seq<char>, opt: SlugOptions)
    requires
        clean_end(opt.fallback@, opt.sep()),
    ensures
        clean_end(unbounded(raw, opt), opt.sep()),
{
    let sep = opt.sep();
    let n = named(raw, opt);
    let from = lemma_trimmed(raw, sep);
    assert(clean_end(n, sep));
    let d = guard_dot(n, opt.avoid_leading_dot);
    if opt.avoid_leading_dot && is_hidden(n) {
        assert(guarded(n).last() == n.last());
    }
    assert(clean_end(d, sep));
    if is_reserved(d) {
        lemma_reserved_is_short(d);
        assert(guarded(d).last() == d.last());
    }
}

/// With a fallback that is no device name and does not end loosely, a slug
/// that the byte limit did not cut is no device name.
///
/// The byte limit can cut a longer name down to a device name, as `con-x`
/// to `con` under a limit of three bytes.
pub proof fn law_never_reserved_uncut(input: Seq<char>, opt: SlugOptions)
    requires
        !is_reserved(opt.fallback@),
        clean_end(opt.fallback@, opt.sep()),
        utf8_len(unbounded(scan(input, opt).out, opt)) <= opt.max_len_bytes,
    ensures
        !is_reserved(slug(input, opt)),
{
    let raw = scan(input, opt).out;
    let whole = unbounded(raw, opt);
    lemma_guards(named(raw, opt), opt.avoid_leading_dot);
    lemma_unbounded_clean_end(raw, opt);
    assert(truncated(whole, opt.max_len_bytes as nat) == whole);
    assert(trim_end(whole, opt.sep()) == whole);
}

/// Whether `s` holds no dot and no space.
pub open spec fn dotless(s: Seq<char>) -> bool {
    forall|i: int| 0 <= i < s.len() ==> #[trigger] s[i] != '.' && s[i] != ' '
}

/// What the pass can write holds no dot and no space.
proof fn lemma_written_is_dotless(s: Seq<char>, opt: SlugOptions)
    requires
        all_written(s, opt),
    ensures
        dotless(s),
{
    assert forall|i: int| 0 <= i < s.len() implies #[trigger] s[i] != '.' && s[i] != ' ' by {
        lemma_written_is_no_dot_or_space(s[i], opt);
    }
}

/// The guards add at most an underscore, which is no dot and no space, and
/// at most one byte.
proof fn lemma_guards_dotless(s: Seq<char>, avoid_leading_dot: bool)
    requires
        dotless(s),
    ensures
        dotless(guard_reserved(guard_dot(s, avoid_leading_dot))),
        utf8_len(guard_reserved(guard_dot(s, avoid_leading_dot))) <= utf8_len(s) + 1,
{
    if s.len() > 0 {
        assert(s[0] != '.');
    }
    assert(guard_dot(s, avoid_leading_dot) == s);
    if is_reserved(s) {
        let g = guarded(s);
        assert forall|i: int| 0 <= i < g.len() implies #[trigger] g[i] != '.' && g[i] != ' ' by {
            if i > 0 {
                assert(g[i] == s[i - 1]);
            }
        }
        lemma_utf8_len_guarded(s);
    }
}

/// An underscore before a name adds one byte.
proof fn lemma_utf8_len_guarded(s: Seq<char>)
    ensures
        utf8_len(guarded(s)) == utf8_len(s) + 1,
{
    lemma_utf8_len_concat(seq!['_'], s);
    lemma_utf8_len_push(Seq::<char>::empty(), '_');
    assert(Seq::<char>::empty().push('_') == seq!['_']);
}

/// Trimming the end of a name without dots, spaces and doubled separators
/// takes off one separator at most, and leaves the rest as it is.
proof fn lemma_trim_end_takes_one(s: Seq<char>, sep: char)
    requires
        dotless(s),
        no_double_sep(s, sep),
        is_separator(sep),
        s.len() >= 2,
    ensures
        trim_end(s, sep).len() >= s.len() - 1,
        utf8_len(trim_end(s, sep)) + 1 >= utf8_len(s),
        trim_end(s, sep)[0] == s[0],
{
    if is_loose_end(s.last(), sep) {
        let front = s.drop_last();
        assert(s[s.len() - 1] == sep);
        assert(s[s.len() - 2] != sep);
        assert(front.last() == s[s.len() - 2]);
        assert(trim_end(front, sep) == front);
        lemma_utf8_len_push(front, sep);
        assert(front.push(sep) == s);
    }
}

/// With a fallback that is no device name, does not end loosely and fits in
/// the byte limit behind its guard, and with room for nine bytes or more, no
/// slug is a device name.
///
/// Under a smaller limit a cut can leave a device name, as `con` of `con-x`
/// under a limit of three bytes. The options that write lowercase mappings
/// of characters beyond ASCII, of which nothing is known here, are left out,
/// and so are those that keep `_` and write it as the separator too.
pub proof fn law_never_reserved(input: Seq<char>, opt: SlugOptions)
    requires
        !is_reserved(opt.fallback@),
        clean_end(opt.fallback@, opt.sep()),
        utf8_len(guard_dot(opt.fallback@, opt.avoid_leading_dot)) <= opt.max_len_bytes,
        opt.max_len_bytes >= 9,
        !opt.writes_lowercase_mappings(),
        !opt.underscore_is_both(),
    ensures
        !is_reserved(slug(input, opt)),
{
    let sep = opt.sep();
    let max = opt.max_len_bytes as nat;
    let raw = scan(input, opt).out;
    let t = trimmed(raw, sep);
    let whole = unbounded(raw, opt);
    if utf8_len(whole) <= max {
        law_never_reserved_uncut(input, opt);
    } else {
        lemma_guarded_not_reserved(opt.fallback@);
        assert(!is_degenerate(t));
        lemma_trimmed_scan(input, opt);
        lemma_written_is_dotless(t, opt);
        lemma_guards_dotless(t, opt.avoid_leading_dot);
        lemma_no_double_sep_guards(t, opt.avoid_leading_dot, sep);
        let cut = truncated(whole, max);
        lemma_truncated(whole, max);
        assert(cut.len() < whole.len()) by {
            assert(whole.take(whole.len() as int) == whole);
        }
        assert(utf8_len(cut) + 4 > max);
        lemma_utf8_len_bounds(cut);
        lemma_no_double_sep_take(whole, cut.len() as int, sep);
        assert(dotless(cut)) by {
            assert forall|i: int| 0 <= i < cut.len() implies #[trigger] cut[i] != '.' && cut[i]
                != ' ' by {
                assert(cut[i] == whole[i]);
            }
        }
        lemma_trim_end_takes_one(cut, sep);
        let e = trim_end(cut, sep);
        assert(utf8_len(e) >= 5);
        assert(e[0] == whole[0]);
        assert(!is_degenerate(e));
        if is_reserved(e) {
            lemma_reserved_is_short(e);
        }
    }
}

/// A slug that a second conversion under the same options leaves as it is:
/// not empty, made of what the pass can write, with separators only between
/// words, no device name, and within the byte limit.
pub open spec fn is_stable(s: Seq<char>, opt: SlugOptions) -> bool {
    &&& s.len() > 0
    &&& all_written(s, opt)
    &&& s[0] != opt.sep()
    &&& s.last() != opt.sep()
    &&& no_double_sep(s, opt.sep())
    &&& !is_reserved(s)
    &&& utf8_len(s) <= opt.max_len_bytes
}

/// The pass over the first `k` characters of a stable slug writes them as
/// they are.
proof fn lemma_rescan(y: Seq<char>, k: int, opt: SlugOptions)
    requires
        !opt.passes_unicode(),
        !opt.underscore_is_both(),
        all_written(y, opt),
        y.len() > 0 ==> y[0] != opt.sep(),
        no_double_sep(y, opt.sep()),
        0 <= k <= y.len(),
    ensures
        scan(y.take(k), opt) == (Scan {
            out: y.take(k),
            at_boundary: k == 0 || y[k - 1] == opt.sep(),
        }),
    decreases k,
{
    let sep = opt.sep();
    if k == 0 {
        assert(y.take(0) == Seq::<char>::empty());
    } else {
        let p = y.take(k);
        let c = y[k - 1];
        lemma_rescan(y, k - 1, opt);
        assert(p.drop_last() == y.take(k - 1));
        assert(p.last() == c);
        let st = scan(y.take(k - 1), opt);
        assert(is_written(c, opt));
        assert(y.take(k - 1).push(c) == p);
        if c == sep {
            lemma_ascii_has_no_replacement(c);
            assert(k - 1 > 0);
            assert(y[k - 2] != sep);
            assert(scan_step(st, c, opt) == boundary(st, sep));
        } else {
            assert(is_word_char(c, opt));
            assert(written(c, opt) == c);
            assert(scan_step(st, c, opt) == keep(st, c));
        }
    }
}

/// A stable slug is its own slug.
///
/// The options that let characters beyond ASCII through are left out: nothing
/// is known here of how the standard library classes them. So are those that
/// keep `_` and write it as the separator too.
pub proof fn law_stable_is_fixed(y: Seq<char>, opt: SlugOptions)
    requires
        !opt.passes_unicode(),
        !opt.underscore_is_both(),
        is_stable(y, opt),
    ensures
        slug(y, opt) == y,
{
    let sep = opt.sep();
    lemma_rescan(y, y.len() as int, opt);
    assert(y.take(y.len() as int) == y);
    assert(scan(y, opt).out == y);
    lemma_written_is_no_dot_or_space(y[0], opt);
    lemma_written_is_no_dot_or_space(y.last(), opt);
    assert(trim_end(y, sep) == y);
    assert(trimmed(y, sep) == y);
    assert(named(y, opt) == y);
    assert(unbounded(y, opt) == y);
    assert(truncated(y, opt.max_len_bytes as nat) == y);
}

/// An underscore before a name that the pass can write is itself something
/// the pass can write, where `_` is kept.
proof fn lemma_guards_written(s: Seq<char>, opt: SlugOptions)
    requires
        all_written(s, opt),
        opt.keep_underscore,
    ensures
        all_written(guard_reserved(guard_dot(s, opt.avoid_leading_dot)), opt),
{
    let d = guard_dot(s, opt.avoid_leading_dot);
    assert(all_written(d, opt)) by {
        if d != s {
            assert forall|i: int| 0 <= i < d.len() implies is_written(#[trigger] d[i], opt) by {
                if i > 0 {
                    assert(d[i] == s[i - 1]);
                }
            }
        }
    }
    let g = guard_reserved(d);
    if g != d {
        assert forall|i: int| 0 <= i < g.len() implies is_written(#[trigger] g[i], opt) by {
            if i > 0 {
                assert(g[i] == d[i - 1]);
            }
        }
    }
}

/// With a stable fallback, room for nine bytes or more, `_` kept and a
/// separator other than `_`, every slug is stable.
///
/// The options that let characters beyond ASCII through are left out, as in
/// `law_stable_is_fixed`.
pub proof fn law_slug_is_stable(input: Seq<char>, opt: SlugOptions)
    requires
        !opt.passes_unicode(),
        opt.keep_underscore,
        opt.sep() != '_',
        opt.max_len_bytes >= 9,
        is_stable(opt.fallback@, opt),
    ensures
        is_stable(slug(input, opt), opt),
{
    let sep = opt.sep();
    let fallback = opt.fallback@;
    let raw = scan(input, opt).out;
    let r = slug(input, opt);
    lemma_written_is_no_dot_or_space(fallback[0], opt);
    lemma_written_is_no_dot_or_space(fallback.last(), opt);
    law_never_degenerate(input, opt);
    law_fits(input, opt);
    law_clean_end(input, opt);
    law_clean_start(input, opt);
    law_no_double_separator(input, opt);
    law_never_reserved(input, opt);
    assert(all_written(r, opt)) by {
        lemma_trimmed_scan(input, opt);
        lemma_guards_written(named(raw, opt), opt);
        law_slug_is_prefix_or_fallback(input, opt);
        if r != fallback {
            lemma_all_written_subrange(unbounded(raw, opt), 0, r.len() as int, opt);
        }
    }
}

/// Under the conditions of `law_slug_is_stable`, converting a slug again
/// changes nothing.
pub proof fn law_idempotent(input: Seq<char>, opt: SlugOptions)
    requires
        !opt.passes_unicode(),
        opt.keep_underscore,
        opt.sep() != '_',
        opt.max_len_bytes >= 9,
        is_stable(opt.fallback@, opt),
    ensures
        slug(slug(input, opt), opt) == slug(input, opt),
{
    law_slug_is_stable(input, opt);
    law_stable_is_fixed(slug(input, opt), opt);
}

/// The default fallback is stable under the default options.
pub proof fn lemma_default_fallback_is_stable()
    ensures
        is_stable(default_options().fallback@, default_options()),
{
    let opt = default_options();
    let f = opt.fallback@;
    reveal_strlit("file");
    assert(f =~= seq!['f', 'i', 'l', 'e']);
    assert(all_written(f, opt));
    assert(no_double_sep(f, opt.sep()));
    assert(!is_reserved(f)) by {
        let u = upper(f);
        assert(u[0] == 'F');
        if u.len() >= 3 {
            assert(u.take(3)[0] == u[0]);
        }
    }
    assert(utf8_len(f) == 4) by {
        assert(is_ascii_chars(f));
        is_ascii_chars_encode_utf8(f);
    }
}

/// Under the default options every slug is stable: it is not empty and
/// neither `.` nor `..`, has no two `-` side by side, begins and ends with no
/// `-`, dot or space, takes 255 bytes at most and is no device name.
pub proof fn law_default_slug_is_stable(input: Seq<char>)
    ensures
        is_stable(slug(input, default_options()), default_options()),
{
    lemma_default_fallback_is_stable();
    law_slug_is_stable(input, default_options());
}

/// Under the default options, converting a slug again changes nothing.
pub proof fn law_default_idempotent(input: Seq<char>)
    ensures
        slug(slug(input, default_options()), default_options()) == slug(
            input,
            default_options(),
        ),
{
    lemma_default_fallback_is_stable();
    law_idempotent(input, default_options());
}

} // verus!
