//! What is done to the written characters before they are a file name:
//! trimming, the fallback, the two guards and the byte limit.

use crate::chars::{
    is_ascii_alnum, lemma_utf8_len_push, len_utf8, to_ascii_uppercase, upper_ascii, utf8_len,
    utf8_width,
};
use crate::options::{sanitize_separator, SlugOptions};
use vstd::prelude::*;
use vstd::utf8::{is_ascii_chars, is_ascii_chars_encode_utf8};

verus! {

/// What may not end a file name: the separator, a dot, a space.
pub open spec fn is_loose_end(c: char, sep: char) -> bool {
    c == sep || c == '.' || c == ' '
}

/// `s` without the separators, dots and spaces at its end.
pub open spec fn trim_end(s: Seq<char>, sep: char) -> Seq<char>
    decreases s.len(),
{
    if s.len() > 0 && is_loose_end(s.last(), sep) {
        trim_end(s.drop_last(), sep)
    } else {
        s
    }
}

/// `s` without the separators at its start.
pub open spec fn trim_start(s: Seq<char>, sep: char) -> Seq<char>
    decreases s.len(),
{
    if s.len() > 0 && s[0] == sep {
        trim_start(s.drop_first(), sep)
    } else {
        s
    }
}

/// The names that stand for no file: the empty one, `.` and `..`.
pub open spec fn is_degenerate(s: Seq<char>) -> bool {
    s.len() == 0 || (s.len() == 1 && s[0] == '.') || (s.len() == 2 && s[0] == '.' && s[1] == '.')
}

/// `s`, or the fallback where `s` stands for no file.
pub open spec fn or_fallback(s: Seq<char>, fallback: Seq<char>) -> Seq<char> {
    if is_degenerate(s) {
        fallback
    } else {
        s
    }
}

/// `s` with every ASCII small letter raised.
pub open spec fn upper(s: Seq<char>) -> Seq<char> {
    Seq::new(s.len(), |i: int| upper_ascii(s[i]))
}

/// Exactly one digit from 1 to 9.
pub open spec fn is_1_to_9(s: Seq<char>) -> bool {
    s.len() == 1 && '1' <= s[0] && s[0] <= '9'
}

/// The device names of Windows, in any mix of cases: `CON`, `PRN`, `AUX`,
/// `NUL`, and `COM` or `LPT` with one digit from 1 to 9. `COM0` and `COM10`
/// are ordinary names.
pub open spec fn is_reserved(s: Seq<char>) -> bool {
    let u = upper(s);
    ||| u =~= seq!['C', 'O', 'N']
    ||| u =~= seq!['P', 'R', 'N']
    ||| u =~= seq!['A', 'U', 'X']
    ||| u =~= seq!['N', 'U', 'L']
    ||| (u.len() >= 3 && u.take(3) =~= seq!['C', 'O', 'M'] && is_1_to_9(u.skip(3)))
    ||| (u.len() >= 3 && u.take(3) =~= seq!['L', 'P', 'T'] && is_1_to_9(u.skip(3)))
}

/// `s` behind an underscore.
pub open spec fn guarded(s: Seq<char>) -> Seq<char> {
    seq!['_'] + s
}

/// Whether `s` begins with a dot.
pub open spec fn is_hidden(s: Seq<char>) -> bool {
    s.len() > 0 && s[0] == '.'
}

/// `s`, behind an underscore if it would be a hidden file and the options
/// avoid that.
pub open spec fn guard_dot(s: Seq<char>, avoid_leading_dot: bool) -> Seq<char> {
    if avoid_leading_dot && is_hidden(s) {
        guarded(s)
    } else {
        s
    }
}

/// `s`, behind an underscore if it is a device name.
pub open spec fn guard_reserved(s: Seq<char>) -> Seq<char> {
    if is_reserved(s) {
        guarded(s)
    } else {
        s
    }
}

/// `s` with characters taken off its end until it fits in `max` bytes of
/// UTF-8. Only whole characters leave.
pub open spec fn truncated(s: Seq<char>, max: nat) -> Seq<char>
    decreases s.len(),
{
    if s.len() == 0 || utf8_len(s) <= max {
        s
    } else {
        truncated(s.drop_last(), max)
    }
}

/// `raw` trimmed at both ends.
pub open spec fn trimmed(raw: Seq<char>, sep: char) -> Seq<char> {
    trim_start(trim_end(raw, sep), sep)
}

/// The written characters trimmed at both ends, or the fallback if that
/// leaves no name.
pub open spec fn named(raw: Seq<char>, opt: SlugOptions) -> Seq<char> {
    or_fallback(trimmed(raw, opt.sep()), opt.fallback@)
}

/// The name before the byte limit is applied: guarded against a leading dot
/// where the options ask for it, and against the device names.
pub open spec fn unbounded(raw: Seq<char>, opt: SlugOptions) -> Seq<char> {
    guard_reserved(guard_dot(named(raw, opt), opt.avoid_leading_dot))
}

/// The file name made of the written characters `raw`: cut to the byte limit,
/// trimmed once more at its end, and replaced by the fallback if that left
/// nothing.
pub open spec fn finished(raw: Seq<char>, opt: SlugOptions) -> Seq<char> {
    let cut = truncated(unbounded(raw, opt), opt.max_len_bytes as nat);
    or_fallback(trim_end(cut, opt.sep()), opt.fallback@)
}

/// A prefix takes no more bytes than the whole.
pub proof fn lemma_utf8_len_prefix(s: Seq<char>, k: int)
    requires
        0 <= k <= s.len(),
    ensures
        utf8_len(s.take(k)) <= utf8_len(s),
    decreases s.len() - k,
{
    if k < s.len() {
        lemma_utf8_len_prefix(s, k + 1);
        lemma_utf8_len_push(s.take(k), s[k]);
        assert(s.take(k).push(s[k]) == s.take(k + 1));
    } else {
        assert(s.take(k) == s);
    }
}

/// Cutting to the byte limit leaves the longest prefix that fits.
pub proof fn lemma_truncated_is_longest_prefix(s: Seq<char>, max: nat, k: int)
    requires
        0 <= k <= s.len(),
        utf8_len(s.take(k)) <= max,
        k < s.len() ==> utf8_len(s.take(k + 1)) > max,
    ensures
        truncated(s, max) == s.take(k),
    decreases s.len(),
{
    if k == s.len() {
        assert(s.take(k) == s);
    } else {
        lemma_utf8_len_prefix(s, k + 1);
        let front = s.drop_last();
        assert(front.take(k) == s.take(k));
        if k < front.len() {
            assert(front.take(k + 1) == s.take(k + 1));
        }
        lemma_truncated_is_longest_prefix(front, max, k);
    }
}

/// Trimming the end leaves the longest prefix that does not end loosely:
/// every character behind it is a separator, a dot or a space.
pub proof fn lemma_trim_end(s: Seq<char>, sep: char)
    ensures
        trim_end(s, sep).len() <= s.len(),
        trim_end(s, sep) == s.take(trim_end(s, sep).len() as int),
        trim_end(s, sep).len() > 0 ==> !is_loose_end(trim_end(s, sep).last(), sep),
        forall|i: int| trim_end(s, sep).len() <= i < s.len() ==> is_loose_end(#[trigger] s[i], sep),
    decreases s.len(),
{
    if s.len() > 0 && is_loose_end(s.last(), sep) {
        let front = s.drop_last();
        lemma_trim_end(front, sep);
        let t = trim_end(front, sep);
        assert(front.take(t.len() as int) == s.take(t.len() as int));
        assert forall|i: int| t.len() <= i < s.len() implies is_loose_end(
            #[trigger] s[i],
            sep,
        ) by {
            if i < front.len() {
                assert(s[i] == front[i]);
            }
        }
    } else {
        assert(s.take(s.len() as int) == s);
    }
}

/// Trimming the start leaves the longest suffix that begins with no
/// separator: every character before it is one.
pub proof fn lemma_trim_start(s: Seq<char>, sep: char)
    ensures
        trim_start(s, sep).len() <= s.len(),
        trim_start(s, sep) == s.skip(s.len() - trim_start(s, sep).len()),
        trim_start(s, sep).len() > 0 ==> trim_start(s, sep)[0] != sep,
        forall|i: int| 0 <= i < s.len() - trim_start(s, sep).len() ==> #[trigger] s[i] == sep,
    decreases s.len(),
{
    if s.len() > 0 && s[0] == sep {
        let rest = s.drop_first();
        lemma_trim_start(rest, sep);
        let t = trim_start(rest, sep);
        assert(rest.skip(rest.len() - t.len()) == s.skip(s.len() - t.len()));
        assert forall|i: int| 0 <= i < s.len() - t.len() implies #[trigger] s[i] == sep by {
            if i > 0 {
                assert(s[i] == rest[i - 1]);
            }
        }
    } else {
        assert(s.skip(0) == s);
    }
}

/// Trimming both ends leaves a stretch of the characters that begins with no
/// separator and does not end loosely.
pub proof fn lemma_trimmed(raw: Seq<char>, sep: char) -> (from: int)
    ensures
        0 <= from,
        from + trimmed(raw, sep).len() <= raw.len(),
        trimmed(raw, sep) == raw.subrange(from, from + trimmed(raw, sep).len()),
        trimmed(raw, sep).len() > 0 ==> trimmed(raw, sep)[0] != sep && !is_loose_end(
            trimmed(raw, sep).last(),
            sep,
        ),
{
    let e = trim_end(raw, sep);
    let t = trim_start(e, sep);
    lemma_trim_end(raw, sep);
    lemma_trim_start(e, sep);
    let from = e.len() - t.len();
    assert(t == raw.subrange(from, from + t.len()));
    if t.len() > 0 {
        assert(t.last() == e.last());
    }
    from
}

/// Cutting to the byte limit leaves a prefix that fits, and one to which the
/// next character could not be added.
pub proof fn lemma_truncated(s: Seq<char>, max: nat)
    ensures
        truncated(s, max).len() <= s.len(),
        truncated(s, max) == s.take(truncated(s, max).len() as int),
        utf8_len(truncated(s, max)) <= max,
        truncated(s, max).len() < s.len() ==> utf8_len(truncated(s, max)) + utf8_width(
            s[truncated(s, max).len() as int],
        ) > max,
    decreases s.len(),
{
    if s.len() == 0 || utf8_len(s) <= max {
        assert(s.take(s.len() as int) == s);
    } else {
        let front = s.drop_last();
        lemma_truncated(front, max);
        let t = truncated(front, max);
        assert(front.take(t.len() as int) == s.take(t.len() as int));
        if t.len() == front.len() {
            lemma_utf8_len_push(front, s.last());
            assert(front.push(s.last()) == s);
        }
    }
}

/// A device name is three or four ASCII letters and digits.
pub proof fn lemma_reserved_is_short(s: Seq<char>)
    requires
        is_reserved(s),
    ensures
        3 <= s.len() <= 4,
        utf8_len(s) == s.len(),
        forall|i: int| 0 <= i < s.len() ==> is_ascii_alnum(#[trigger] s[i]),
{
    let u = upper(s);
    assert(u.len() == s.len());
    assert forall|i: int| 0 <= i < s.len() implies is_ascii_alnum(#[trigger] s[i]) by {
        assert(u[i] == upper_ascii(s[i]));
        if u.len() >= 3 && i < 3 {
            assert(u.take(3)[i] == u[i]);
        }
        if u.len() >= 3 && i >= 3 {
            assert(u.skip(3)[i - 3] == u[i]);
        }
    }
    assert(is_ascii_chars(s)) by {
        assert forall|i: int| 0 <= i < s.len() implies '\0' <= #[trigger] s[i] <= '\u{7f}' by {
            assert(is_ascii_alnum(s[i]));
        }
    }
    is_ascii_chars_encode_utf8(s);
}

/// A name behind an underscore is no device name.
pub proof fn lemma_guarded_not_reserved(s: Seq<char>)
    ensures
        !is_reserved(guarded(s)),
{
    if is_reserved(guarded(s)) {
        lemma_reserved_is_short(guarded(s));
        assert(guarded(s)[0] == '_');
    }
}

/// The guards leave a name that is no device name and, where the options ask
/// for it, no hidden file.
pub proof fn lemma_guards(s: Seq<char>, avoid_leading_dot: bool)
    ensures
        !is_reserved(guard_reserved(guard_dot(s, avoid_leading_dot))),
        avoid_leading_dot ==> !is_hidden(guard_reserved(guard_dot(s, avoid_leading_dot))),
{
    let d = guard_dot(s, avoid_leading_dot);
    lemma_guarded_not_reserved(d);
    if is_reserved(d) {
        assert(guarded(d)[0] == '_');
    }
    if avoid_leading_dot && is_hidden(s) {
        assert(guarded(s)[0] == '_');
    }
}

/// Removes separators, dots and spaces from the end.
pub fn trim_end_seps_dots_spaces(s: &mut Vec<char>, sep: char)
    ensures
        final(s)@ == trim_end(old(s)@, sep),
{
    while s.len() > 0 && (s[s.len() - 1] == sep || s[s.len() - 1] == '.' || s[s.len() - 1] == ' ')
        invariant
            trim_end(s@, sep) == trim_end(old(s)@, sep),
        decreases s.len(),
    {
        proof {
            assert(s@.subrange(0, s@.len() - 1) == s@.drop_last());
        }
        s.pop();
    }
}

/// Removes separators from the start.
pub fn trim_start_seps(s: &mut Vec<char>, sep: char)
    ensures
        final(s)@ == trim_start(old(s)@, sep),
{
    let mut k: usize = 0;
    proof {
        assert(s@.skip(0) == s@);
    }
    while k < s.len() && s[k] == sep
        invariant
            k <= s.len(),
            s@ == old(s)@,
            trim_start(s@.skip(k as int), sep) == trim_start(s@, sep),
        decreases s.len() - k,
    {
        proof {
            assert(s@.skip(k as int).drop_first() == s@.skip(k + 1));
        }
        k += 1;
    }
    if k > 0 {
        let rest = s.split_off(k);
        *s = rest;
    }
    proof {
        assert(old(s)@.subrange(k as int, old(s)@.len() as int) == old(s)@.skip(k as int));
    }
}

/// Whether `s` is empty, `.` or `..`.
pub fn is_empty_or_dots(s: &Vec<char>) -> (r: bool)
    ensures
        r == is_degenerate(s@),
{
    s.len() == 0 || (s.len() == 1 && s[0] == '.') || (s.len() == 2 && s[0] == '.' && s[1] == '.')
}

/// Replaces what `s` holds by the characters of `fallback`.
pub fn replace_with(s: &mut Vec<char>, fallback: &str)
    ensures
        final(s)@ == fallback@,
{
    s.clear();
    for c in it: fallback.chars()
        invariant
            it.seq() == fallback@,
            s@ == fallback@.take(it.index()),
    {
        s.push(c);
    }
}

/// Copies `s` with every ASCII small letter raised.
pub fn ascii_upper(s: &Vec<char>) -> (r: Vec<char>)
    ensures
        r@ == upper(s@),
{
    let mut out: Vec<char> = Vec::new();
    for i in 0..s.len()
        invariant
            out@ == upper(s@.take(i as int)),
    {
        out.push(to_ascii_uppercase(s[i]));
        proof {
            assert(out@ == upper(s@.take(i + 1)));
        }
    }
    proof {
        assert(s@.take(s@.len() as int) == s@);
    }
    out
}

/// Whether what follows the first `from` characters of `s` is exactly one
/// digit from 1 to 9.
pub fn is_1_to_9_suffix(s: &Vec<char>, from: usize) -> (r: bool)
    ensures
        r == (from <= s.len() && is_1_to_9(s@.skip(from as int))),
{
    from < s.len() && s.len() - from == 1 && '1' <= s[from] && s[from] <= '9'
}

/// Whether `s` is exactly the three characters given.
fn is_word(s: &Vec<char>, a: char, b: char, c: char) -> (r: bool)
    ensures
        r == (s@ =~= seq![a, b, c]),
{
    s.len() == 3 && s[0] == a && s[1] == b && s[2] == c
}

/// Whether `s` begins with the three characters given.
fn has_prefix(s: &Vec<char>, a: char, b: char, c: char) -> (r: bool)
    ensures
        r == (s.len() >= 3 && s@.take(3) =~= seq![a, b, c]),
{
    let r = s.len() >= 3 && s[0] == a && s[1] == b && s[2] == c;
    proof {
        if s.len() >= 3 {
            let p = s@.take(3);
            assert(p[0] == s[0] && p[1] == s[1] && p[2] == s[2]);
        }
    }
    r
}

/// Whether `name` is a device name of Windows, whatever its case.
pub fn is_windows_reserved_name(name: &Vec<char>) -> (r: bool)
    ensures
        r == is_reserved(name@),
{
    let u = ascii_upper(name);
    is_word(&u, 'C', 'O', 'N') || is_word(&u, 'P', 'R', 'N') || is_word(&u, 'A', 'U', 'X')
        || is_word(&u, 'N', 'U', 'L') || (has_prefix(&u, 'C', 'O', 'M') && is_1_to_9_suffix(&u, 3))
        || (has_prefix(&u, 'L', 'P', 'T') && is_1_to_9_suffix(&u, 3))
}

/// How many characters of `s`, from its start, fit in `max` bytes together.
pub fn fitting_prefix(s: &Vec<char>, max: usize) -> (k: usize)
    ensures
        k <= s.len(),
        utf8_len(s@.take(k as int)) <= max,
        k < s.len() ==> utf8_len(s@.take(k + 1)) > max,
{
    let mut used: usize = 0;
    let mut k: usize = 0;
    while k < s.len()
        invariant
            k <= s.len(),
            used == utf8_len(s@.take(k as int)),
            used <= max,
        decreases s.len() - k,
    {
        let width = len_utf8(s[k]);
        proof {
            lemma_utf8_len_push(s@.take(k as int), s[k as int]);
            assert(s@.take(k as int).push(s[k as int]) == s@.take(k + 1));
        }
        if width > max - used {
            return k;
        }
        used += width;
        k += 1;
    }
    k
}

/// Takes characters off the end of `s` until it fits in `max` bytes.
pub fn truncate_to_bytes(s: &mut Vec<char>, max: usize)
    ensures
        final(s)@ == truncated(old(s)@, max as nat),
        utf8_len(final(s)@) <= max,
{
    let k = fitting_prefix(s, max);
    proof {
        lemma_truncated_is_longest_prefix(s@, max as nat, k as int);
        assert(s@.subrange(0, k as int) == s@.take(k as int));
    }
    s.truncate(k);
}

/// Turns the written characters into the file name.
pub fn finish(out: &mut Vec<char>, opt: &SlugOptions)
    ensures
        final(out)@ == finished(old(out)@, *opt),
{
    let sep = sanitize_separator(opt.separator);
    trim_end_seps_dots_spaces(out, sep);
    trim_start_seps(out, sep);
    if is_empty_or_dots(out) {
        replace_with(out, opt.fallback);
    }
    let ghost named = out@;
    if opt.avoid_leading_dot && out.len() > 0 && out[0] == '.' {
        out.insert(0, '_');
        proof {
            assert(out@ == guarded(named));
        }
    }
    let ghost dotless = out@;
    if is_windows_reserved_name(out) {
        out.insert(0, '_');
        proof {
            assert(out@ == guarded(dotless));
        }
    }
    truncate_to_bytes(out, opt.max_len_bytes);
    trim_end_seps_dots_spaces(out, sep);
    if is_empty_or_dots(out) {
        replace_with(out, opt.fallback);
    }
}

} // verus!
