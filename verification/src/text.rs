//! Character-level string operations with exact specifications over `Seq<char>`.
use vstd::prelude::*;

verus! {

broadcast use vstd::string::group_string_axioms;

/// `pat` occurs in `s` starting at index `i`.
pub open spec fn occurs_at(s: Seq<char>, pat: Seq<char>, i: int) -> bool {
    0 <= i && i + pat.len() <= s.len() && s.subrange(i, i + pat.len()) == pat
}

/// `pat` occurs somewhere in `s` (`str::contains`).
pub open spec fn has_substring(s: Seq<char>, pat: Seq<char>) -> bool {
    exists|i: int| occurs_at(s, pat, i)
}

/// `s` ends with `pat` (`str::ends_with`).
pub open spec fn has_suffix(s: Seq<char>, pat: Seq<char>) -> bool {
    pat.len() <= s.len() && s.subrange(s.len() - pat.len(), s.len() as int) == pat
}

/// `s` starts with `pat` (`str::starts_with`).
pub open spec fn has_prefix(s: Seq<char>, pat: Seq<char>) -> bool {
    pat.len() <= s.len() && s.subrange(0, pat.len() as int) == pat
}

/// Drops leading characters that satisfy `p`.
pub open spec fn trim_start_by(s: Seq<char>, p: spec_fn(char) -> bool) -> Seq<char>
    decreases s.len(),
{
    if s.len() > 0 && p(s[0]) {
        trim_start_by(s.drop_first(), p)
    } else {
        s
    }
}

/// Drops trailing characters that satisfy `p`.
pub open spec fn trim_end_by(s: Seq<char>, p: spec_fn(char) -> bool) -> Seq<char>
    decreases s.len(),
{
    if s.len() > 0 && p(s.last()) {
        trim_end_by(s.drop_last(), p)
    } else {
        s
    }
}

/// The character sequences of a list of strings.
pub open spec fn str_views(s: Seq<String>) -> Seq<Seq<char>> {
    s.map_values(|v: String| v@)
}

/// Every character of `s` is ASCII.
pub open spec fn is_ascii_text(s: Seq<char>) -> bool {
    forall|i: int| 0 <= i < s.len() ==> (#[trigger] s[i] as int) < 128
}

/// The lower-case letter of an ASCII upper-case letter; any other character as it is.
pub open spec fn ascii_lower(c: char) -> char {
    if 'A' <= c <= 'Z' {
        ((c as int) + 32) as char
    } else {
        c
    }
}

/// Every ASCII upper-case letter of `s` replaced by its lower-case letter.
pub open spec fn ascii_lowercase(s: Seq<char>) -> Seq<char> {
    s.map_values(|c: char| ascii_lower(c))
}

/// What `str::to_lowercase` returns for text that is not all ASCII (the
/// Unicode lower-case mapping).
pub uninterp spec fn unicode_lowercase(s: Seq<char>) -> Seq<char>;

/// What `str::to_lowercase` returns for `s`: for ASCII text, its letters
/// lower-cased one by one; otherwise the Unicode lower-case mapping.
pub open spec fn lowercase(s: Seq<char>) -> Seq<char> {
    if is_ascii_text(s) {
        ascii_lowercase(s)
    } else {
        unicode_lowercase(s)
    }
}

/// Lower-casing ASCII text gives ASCII text, and lower-casing it again changes nothing.
pub proof fn lemma_ascii_lowercase_idempotent(s: Seq<char>)
    requires
        is_ascii_text(s),
    ensures
        is_ascii_text(lowercase(s)),
        lowercase(lowercase(s)) == lowercase(s),
{
    let l = ascii_lowercase(s);
    assert forall|i: int| 0 <= i < l.len() implies (#[trigger] l[i] as int) < 128 by {
        assert(l[i] == ascii_lower(s[i]));
    }
    assert(ascii_lowercase(l) =~= l);
}

/// Whether `char::is_whitespace` holds of `c`: the Unicode `White_Space`
/// property, which holds of U+0009 to U+000D, U+0020, U+0085, U+00A0, U+1680,
/// U+2000 to U+200A, U+2028, U+2029, U+202F, U+205F and U+3000.
pub open spec fn white_space(c: char) -> bool {
    ||| '\u{9}' <= c <= '\u{d}'
    ||| c == ' '
    ||| c == '\u{85}'
    ||| c == '\u{a0}'
    ||| c == '\u{1680}'
    ||| '\u{2000}' <= c <= '\u{200a}'
    ||| c == '\u{2028}'
    ||| c == '\u{2029}'
    ||| c == '\u{202f}'
    ||| c == '\u{205f}'
    ||| c == '\u{3000}'
}

/// `str::trim`: leading and trailing white space removed.
pub open spec fn trimmed(s: Seq<char>) -> Seq<char> {
    trim_end_by(trim_start_by(s, |c: char| white_space(c)), |c: char| white_space(c))
}

/// A sequence of white space trims to nothing.
pub proof fn lemma_trim_all_white_space(s: Seq<char>)
    requires
        forall|i: int| 0 <= i < s.len() ==> white_space(#[trigger] s[i]),
    ensures
        trimmed(s).len() == 0,
    decreases s.len(),
{
    if s.len() > 0 {
        lemma_trim_all_white_space(s.drop_first());
        assert(white_space(s[0]));
    }
}

proof fn lemma_trim_start_white(s: Seq<char>)
    ensures
        trim_start_by(s, |c: char| white_space(c)).len() == 0 ==> forall|i: int|
            0 <= i < s.len() ==> white_space(#[trigger] s[i]),
        trim_start_by(s, |c: char| white_space(c)).len() > 0 ==> !white_space(
            trim_start_by(s, |c: char| white_space(c))[0],
        ),
    decreases s.len(),
{
    if s.len() > 0 && white_space(s[0]) {
        lemma_trim_start_white(s.drop_first());
        assert forall|i: int| 1 <= i < s.len() implies s[i] == s.drop_first()[i - 1] by {}
    }
}

proof fn lemma_trim_end_white(s: Seq<char>)
    ensures
        trim_end_by(s, |c: char| white_space(c)).len() == 0 ==> forall|i: int|
            0 <= i < s.len() ==> white_space(#[trigger] s[i]),
    decreases s.len(),
{
    if s.len() > 0 && white_space(s.last()) {
        lemma_trim_end_white(s.drop_last());
        assert forall|i: int| 0 <= i < s.len() - 1 implies s[i] == s.drop_last()[i] by {}
    }
}

/// Trimming leaves something exactly when some character is not white space.
pub proof fn lemma_trimmed_empty_iff_white_space(s: Seq<char>)
    ensures
        (trimmed(s).len() == 0) == (forall|i: int| 0 <= i < s.len() ==> white_space(#[trigger] s[i])),
{
    lemma_trim_start_white(s);
    let t = trim_start_by(s, |c: char| white_space(c));
    lemma_trim_end_white(t);
    if trimmed(s).len() == 0 && t.len() > 0 {
        assert(white_space(t[0]));
    }
    if forall|i: int| 0 <= i < s.len() ==> white_space(#[trigger] s[i]) {
        lemma_trim_all_white_space(s);
    }
}

/// Lexicographic order on character sequences by code point, which is the
/// order of `str`'s `Ord` (byte order of the UTF-8 encoding).
pub open spec fn lex_le(a: Seq<char>, b: Seq<char>) -> bool
    decreases a.len(),
{
    if a.len() == 0 {
        true
    } else if b.len() == 0 {
        false
    } else if a[0] != b[0] {
        (a[0] as int) < (b[0] as int)
    } else {
        lex_le(a.drop_first(), b.drop_first())
    }
}

pub proof fn lemma_lex_le_total(a: Seq<char>, b: Seq<char>)
    ensures
        lex_le(a, b) || lex_le(b, a),
    decreases a.len(),
{
    if a.len() > 0 && b.len() > 0 && a[0] == b[0] {
        lemma_lex_le_total(a.drop_first(), b.drop_first());
    }
}

pub proof fn lemma_lex_le_transitive(a: Seq<char>, b: Seq<char>, c: Seq<char>)
    requires
        lex_le(a, b),
        lex_le(b, c),
    ensures
        lex_le(a, c),
    decreases a.len(),
{
    if a.len() > 0 && b.len() > 0 && c.len() > 0 && a[0] == b[0] && b[0] == c[0] {
        lemma_lex_le_transitive(a.drop_first(), b.drop_first(), c.drop_first());
    }
}

/// `str::to_lowercase`: the Unicode lower-case mapping; on ASCII text it
/// lower-cases the letters A to Z and keeps every other character.
#[verifier::external_body]
pub(crate) fn to_lowercase(s: &str) -> (r: String)
    ensures
        is_ascii_text(s@) ==> r@ == ascii_lowercase(s@),
        !is_ascii_text(s@) ==> r@ == unicode_lowercase(s@),
        r@ == lowercase(s@),
{
    s.to_lowercase()
}

/// Whether `c` has the Unicode `White_Space` property, as `char::is_whitespace` tells.
pub(crate) fn is_whitespace(c: char) -> (r: bool)
    ensures
        r == white_space(c),
{
    ('\u{9}' <= c && c <= '\u{d}') || c == ' ' || c == '\u{85}' || c == '\u{a0}' || c
        == '\u{1680}' || ('\u{2000}' <= c && c <= '\u{200a}') || c == '\u{2028}' || c
        == '\u{2029}' || c == '\u{202f}' || c == '\u{205f}' || c == '\u{3000}'
}

/// `String::push`: appends one character.
#[verifier::external_body]
pub(crate) fn push_char(s: &mut String, c: char)
    ensures
        final(s)@ == old(s)@.push(c),
{
    s.push(c)
}

/// The characters of `s`, in order.
pub fn chars_of(s: &str) -> (r: Vec<char>)
    ensures
        r@ == s@,
{
    let mut r: Vec<char> = Vec::new();
    for c in it: s.chars()
        invariant
            it.seq() == s@,
            r@ == it.seq().take(it.index() as int),
    {
        r.push(c);
    }
    r
}

/// The string made of the characters `cs[from..to]`.
pub fn string_from_range(cs: &Vec<char>, from: usize, to: usize) -> (r: String)
    requires
        from <= to <= cs.len(),
    ensures
        r@ == cs@.subrange(from as int, to as int),
{
    let mut r = String::new();
    let mut i = from;
    while i < to
        invariant
            from <= i <= to <= cs.len(),
            r@ == cs@.subrange(from as int, i as int),
        decreases to - i,
    {
        push_char(&mut r, cs[i]);
        assert(cs@.subrange(from as int, i + 1) =~= cs@.subrange(from as int, i as int).push(cs@[i as int]));
        i = i + 1;
    }
    r
}

/// The string made of all the characters of `cs`.
pub fn string_from_chars(cs: &Vec<char>) -> (r: String)
    ensures
        r@ == cs@,
{
    let r = string_from_range(cs, 0, cs.len());
    assert(cs@.subrange(0, cs@.len() as int) =~= cs@);
    r
}

/// A copy of `s` as an owned string.
pub fn owned(s: &str) -> (r: String)
    ensures
        r@ == s@,
{
    let cs = chars_of(s);
    string_from_chars(&cs)
}

/// `s` followed by `t`.
pub fn str_concat(s: &str, t: &str) -> (r: String)
    ensures
        r@ == s@ + t@,
{
    let mut r = owned(s);
    r.append(t);
    r
}

/// Whether `pat` occurs in `s` at index `i`.
fn matches_at(s: &Vec<char>, pat: &Vec<char>, i: usize) -> (r: bool)
    requires
        i + pat.len() <= s.len(),
    ensures
        r == occurs_at(s@, pat@, i as int),
{
    let mut j: usize = 0;
    while j < pat.len()
        invariant
            i + pat.len() <= s.len(),
            j <= pat.len(),
            forall|k: int| 0 <= k < j ==> s@[i + k] == pat@[k],
        decreases pat.len() - j,
    {
        if s[i + j] != pat[j] {
            assert(s@.subrange(i as int, i + pat.len())[j as int] != pat@[j as int]);
            return false;
        }
        j = j + 1;
    }
    assert(s@.subrange(i as int, i + pat.len()) =~= pat@);
    true
}

/// Whether the character sequence `pat` occurs in `s`.
pub fn seq_contains(s: &Vec<char>, pat: &Vec<char>) -> (r: bool)
    ensures
        r == has_substring(s@, pat@),
{
    if pat.len() > s.len() {
        return false;
    }
    let last = s.len() - pat.len();
    let mut i: usize = 0;
    while i < last
        invariant
            last + pat.len() == s.len(),
            i <= last,
            forall|k: int| 0 <= k < i ==> !occurs_at(s@, pat@, k),
        decreases last - i,
    {
        if matches_at(s, pat, i) {
            return true;
        }
        i = i + 1;
    }
    matches_at(s, pat, last)
}

/// `str::contains`.
pub fn str_contains(s: &str, pat: &str) -> (r: bool)
    ensures
        r == has_substring(s@, pat@),
{
    let sc = chars_of(s);
    let pc = chars_of(pat);
    seq_contains(&sc, &pc)
}

/// `str::ends_with`.
pub fn str_ends_with(s: &str, pat: &str) -> (r: bool)
    ensures
        r == has_suffix(s@, pat@),
{
    let sc = chars_of(s);
    let pc = chars_of(pat);
    if pc.len() > sc.len() {
        return false;
    }
    let r = matches_at(&sc, &pc, sc.len() - pc.len());
    r
}

/// `str::starts_with`.
pub fn str_starts_with(s: &str, pat: &str) -> (r: bool)
    ensures
        r == has_prefix(s@, pat@),
{
    let sc = chars_of(s);
    let pc = chars_of(pat);
    if pc.len() > sc.len() {
        return false;
    }
    matches_at(&sc, &pc, 0)
}

/// Character-wise equality of two strings.
pub fn str_eq(a: &str, b: &str) -> (r: bool)
    ensures
        r == (a@ == b@),
{
    let ac = chars_of(a);
    let bc = chars_of(b);
    if ac.len() != bc.len() {
        return false;
    }
    let r = matches_at(&ac, &bc, 0);
    assert(ac@.subrange(0, bc@.len() as int) =~= ac@);
    r
}

/// `str::contains` for a single character.
pub fn str_contains_char(s: &str, c: char) -> (r: bool)
    ensures
        r == s@.contains(c),
{
    let sc = chars_of(s);
    let mut i: usize = 0;
    while i < sc.len()
        invariant
            sc@ == s@,
            forall|k: int| 0 <= k < i ==> sc@[k] != c,
        decreases sc.len() - i,
    {
        if sc[i] == c {
            return true;
        }
        i = i + 1;
    }
    false
}

/// `str::trim`.
pub fn trim(s: &str) -> (r: String)
    ensures
        r@ == trimmed(s@),
{
    let cs = chars_of(s);
    let ghost p = |c: char| white_space(c);
    let mut a: usize = 0;
    assert(cs@.subrange(0, cs.len() as int) =~= cs@);
    while a < cs.len() && is_whitespace(cs[a])
        invariant
            a <= cs.len(),
            forall|x: char| #[trigger] p(x) == white_space(x),
            trim_start_by(cs@, p) == trim_start_by(cs@.subrange(a as int, cs.len() as int), p),
        decreases cs.len() - a,
    {
        assert(cs@.subrange(a as int, cs.len() as int).drop_first() =~= cs@.subrange(
            a + 1,
            cs.len() as int,
        ));
        assert(cs@.subrange(a as int, cs.len() as int)[0] == cs@[a as int]);
        assert(p(cs@[a as int]));
        a = a + 1;
    }
    let mut b: usize = cs.len();
    while b > a && is_whitespace(cs[b - 1])
        invariant
            a <= b <= cs.len(),
            forall|x: char| #[trigger] p(x) == white_space(x),
            trim_start_by(cs@, p) == cs@.subrange(a as int, cs.len() as int),
            trim_end_by(cs@.subrange(a as int, cs.len() as int), p) == trim_end_by(
                cs@.subrange(a as int, b as int),
                p,
            ),
        decreases b - a,
    {
        assert(cs@.subrange(a as int, b as int).drop_last() =~= cs@.subrange(
            a as int,
            b - 1,
        ));
        assert(cs@.subrange(a as int, b as int).last() == cs@[b - 1]);
        assert(p(cs@[b - 1]));
        b = b - 1;
    }
    string_from_range(&cs, a, b)
}

/// `str::trim_end_matches` for a single character.
pub fn trim_end_char(s: &str, c: char) -> (r: String)
    ensures
        r@ == trim_end_by(s@, |x: char| x == c),
{
    let cs = chars_of(s);
    let ghost p = |x: char| x == c;
    let mut b: usize = cs.len();
    assert(cs@.subrange(0, cs.len() as int) =~= cs@);
    while b > 0 && cs[b - 1] == c
        invariant
            b <= cs.len(),
            cs@ == s@,
            forall|x: char| #[trigger] p(x) == (x == c),
            trim_end_by(s@, p) == trim_end_by(cs@.subrange(0, b as int), p),
        decreases b,
    {
        assert(cs@.subrange(0, b as int).drop_last() =~= cs@.subrange(0, b - 1));
        assert(cs@.subrange(0, b as int).last() == cs@[b - 1]);
        assert(p(cs@[b - 1]));
        b = b - 1;
    }
    string_from_range(&cs, 0, b)
}

/// Whether `a` orders before or equal to `b` under `str`'s `Ord`.
pub fn str_le(a: &str, b: &str) -> (r: bool)
    ensures
        r == lex_le(a@, b@),
{
    let ac = chars_of(a);
    let bc = chars_of(b);
    let mut i: usize = 0;
    assert(ac@.skip(0) =~= ac@);
    assert(bc@.skip(0) =~= bc@);
    while i < ac.len() && i < bc.len() && ac[i] == bc[i]
        invariant
            i <= ac.len(),
            i <= bc.len(),
            lex_le(a@, b@) == lex_le(ac@.skip(i as int), bc@.skip(i as int)),
        decreases ac.len() - i,
    {
        assert(ac@.skip(i as int).drop_first() =~= ac@.skip(i + 1));
        assert(bc@.skip(i as int).drop_first() =~= bc@.skip(i + 1));
        i = i + 1;
    }
    if i == ac.len() {
        true
    } else if i == bc.len() {
        false
    } else {
        ac[i] < bc[i]
    }
}

} // verus!
