//! Character-level text helpers and the display normalization of group names.
use vstd::prelude::*;
use vstd::string::*;

verus! {

/// What `str::to_lowercase` makes of a text.
pub uninterp spec fn lower_of(s: Seq<char>) -> Seq<char>;

/// What `change_case::title_case` makes of a text.
pub uninterp spec fn title_of(s: Seq<char>) -> Seq<char>;

/// What `change_case::sentence_case` makes of a text.
pub uninterp spec fn sentence_of(s: Seq<char>) -> Seq<char>;

/// Whether a character has the Unicode `White_Space` property, which is what
/// `char::is_whitespace` tests.
pub open spec fn white_of(c: char) -> bool {
    ('\u{9}' <= c && c <= '\u{d}') || c == ' ' || c == '\u{85}' || c == '\u{a0}' || c == '\u{1680}'
        || ('\u{2000}' <= c && c <= '\u{200a}') || c == '\u{2028}' || c == '\u{2029}' || c
        == '\u{202f}' || c == '\u{205f}' || c == '\u{3000}'
}

/// The longest text handed to `change_case::title_case`. The crate matches
/// each word against a look-ahead pattern in fancy-regex's backtracking
/// engine, which panics past a million backtracks; a few backtracks per
/// character keep a word of this length well below that limit.
pub const TITLE_CASE_LIMIT: usize = 100000;

/// Relies on `str::to_lowercase`: the lowercase mapping of each character,
/// which depends on the text alone.
#[verifier::external_body]
pub(crate) fn lowercase(s: &str) -> (r: String)
    ensures
        r@ == lower_of(s@),
{
    s.to_lowercase()
}

/// Relies on `change_case::title_case`: capitalises the words of a text,
/// which depends on the text alone. Longer texts could exhaust the
/// backtracking limit of its regex engine, on which it panics.
#[verifier::external_body]
fn title_case(s: &str) -> (r: String)
    requires
        s@.len() <= TITLE_CASE_LIMIT,
    ensures
        r@ == title_of(s@),
{
    change_case::title_case(s)
}

/// Relies on `change_case::sentence_case`: capitalises the first word of a
/// text and lowercases the rest, which depends on the text alone. It splits
/// the first word after its first byte, so a long s (U+017F), whose case
/// folds into the letters it keeps, must not occur.
#[verifier::external_body]
pub(crate) fn sentence_case(s: &str) -> (r: String)
    requires
        !s@.contains('\u{17f}'),
    ensures
        r@ == sentence_of(s@),
{
    change_case::sentence_case(s)
}

/// Whether a character has the Unicode `White_Space` property.
pub fn is_white(c: char) -> (r: bool)
    ensures
        r == white_of(c),
{
    ('\u{9}' <= c && c <= '\u{d}') || c == ' ' || c == '\u{85}' || c == '\u{a0}' || c == '\u{1680}'
        || ('\u{2000}' <= c && c <= '\u{200a}') || c == '\u{2028}' || c == '\u{2029}' || c
        == '\u{202f}' || c == '\u{205f}' || c == '\u{3000}'
}

/// A text title-cased, when it is short enough to be handed to the title
/// casing; a longer one is kept as it is.
pub open spec fn titled(s: Seq<char>) -> Seq<char> {
    if s.len() <= TITLE_CASE_LIMIT {
        title_of(s)
    } else {
        s
    }
}

/// The text title-cased, or kept as it is when longer than
/// `TITLE_CASE_LIMIT`.
pub fn title_or_keep(s: &str) -> (r: String)
    ensures
        r@ == titled(s@),
{
    if s.unicode_len() <= TITLE_CASE_LIMIT {
        title_case(s)
    } else {
        String::from_str(s)
    }
}

pub open spec fn starts_with(s: Seq<char>, p: Seq<char>) -> bool {
    p.len() <= s.len() && s.subrange(0, p.len() as int) == p
}

pub open spec fn ends_with(s: Seq<char>, p: Seq<char>) -> bool {
    p.len() <= s.len() && s.subrange(s.len() - p.len(), s.len() as int) == p
}

/// `s` with every leading repetition of a non-empty `p` removed.
pub open spec fn strip_leading(s: Seq<char>, p: Seq<char>) -> Seq<char>
    decreases s.len(),
{
    if p.len() > 0 && starts_with(s, p) {
        strip_leading(s.subrange(p.len() as int, s.len() as int), p)
    } else {
        s
    }
}

/// `s` with every trailing repetition of a non-empty `p` removed.
pub open spec fn strip_trailing(s: Seq<char>, p: Seq<char>) -> Seq<char>
    decreases s.len(),
{
    if p.len() > 0 && ends_with(s, p) {
        strip_trailing(s.subrange(0, s.len() - p.len()), p)
    } else {
        s
    }
}

/// `s` without its leading whitespace.
pub open spec fn trim_leading_white(s: Seq<char>) -> Seq<char>
    decreases s.len(),
{
    if s.len() > 0 && white_of(s[0]) {
        trim_leading_white(s.subrange(1, s.len() as int))
    } else {
        s
    }
}

/// `s` without its trailing whitespace.
pub open spec fn trim_trailing_white(s: Seq<char>) -> Seq<char>
    decreases s.len(),
{
    if s.len() > 0 && white_of(s[s.len() - 1]) {
        trim_trailing_white(s.subrange(0, s.len() - 1))
    } else {
        s
    }
}

/// The lowercase text of a group name with its qualifiers removed: a leading
/// "true", "false" or "typical", a trailing "and allies", surrounding
/// whitespace and trailing commas.
pub open spec fn strip_qualifiers(s: Seq<char>) -> Seq<char> {
    let a = strip_leading(s, "true"@);
    let b = strip_leading(a, "false"@);
    let c = strip_leading(b, "typical"@);
    let d = strip_trailing(c, "and allies"@);
    let e = trim_white(d);
    strip_trailing(e, ","@)
}

/// The display form of a group name's text: the stripped lowercase text,
/// title-cased when it is short enough.
pub open spec fn display_text(s: Seq<char>) -> Seq<char> {
    titled(strip_qualifiers(lower_of(s)))
}

/// Whether the characters of `s` at `i` spell out `p`.
fn matches_at(s: &str, i: usize, hi: usize, p: &str) -> (r: bool)
    requires
        i <= hi <= s@.len(),
    ensures
        r == starts_with(s@.subrange(i as int, hi as int), p@),
{
    let plen = p.unicode_len();
    if plen > hi - i {
        return false;
    }
    let mut j: usize = 0;
    while j < plen
        invariant
            plen == p@.len(),
            i + plen <= hi <= s@.len(),
            j <= plen,
            forall|k: int| 0 <= k < j ==> s@[i + k] == p@[k],
        decreases plen - j,
    {
        if s.get_char(i + j) != p.get_char(j) {
            assert(s@.subrange(i as int, hi as int).subrange(0, plen as int)[j as int] != p@[j as int]);
            return false;
        }
        j = j + 1;
    }
    assert(s@.subrange(i as int, hi as int).subrange(0, plen as int) =~= p@);
    true
}

/// Whether the characters of `s` ending at `hi` spell out `p`.
fn matches_before(s: &str, lo: usize, hi: usize, p: &str) -> (r: bool)
    requires
        lo <= hi <= s@.len(),
    ensures
        r == ends_with(s@.subrange(lo as int, hi as int), p@),
{
    let plen = p.unicode_len();
    if plen > hi - lo {
        return false;
    }
    let start = hi - plen;
    let r = matches_at(s, start, hi, p);
    proof {
        let w = s@.subrange(lo as int, hi as int);
        let t = s@.subrange(start as int, hi as int);
        assert(w.subrange(w.len() - plen, w.len() as int) =~= t);
        assert(t.subrange(0, plen as int) =~= t);
    }
    r
}

/// Moves `lo` past every leading repetition of `p` within `s[lo..hi]`.
fn skip_leading(s: &str, lo: usize, hi: usize, p: &str) -> (r: usize)
    requires
        lo <= hi <= s@.len(),
    ensures
        lo <= r <= hi,
        s@.subrange(r as int, hi as int) == strip_leading(s@.subrange(lo as int, hi as int), p@),
{
    let plen = p.unicode_len();
    if plen == 0 {
        return lo;
    }
    let mut i = lo;
    while matches_at(s, i, hi, p)
        invariant
            lo <= i <= hi <= s@.len(),
            plen == p@.len(),
            plen > 0,
            strip_leading(s@.subrange(i as int, hi as int), p@) == strip_leading(
                s@.subrange(lo as int, hi as int),
                p@,
            ),
        decreases hi - i,
    {
        proof {
            let w = s@.subrange(i as int, hi as int);
            assert(w.subrange(plen as int, w.len() as int) =~= s@.subrange(i + plen, hi as int));
        }
        i = i + plen;
    }
    i
}

/// Moves `hi` before every trailing repetition of `p` within `s[lo..hi]`.
fn skip_trailing(s: &str, lo: usize, hi: usize, p: &str) -> (r: usize)
    requires
        lo <= hi <= s@.len(),
    ensures
        lo <= r <= hi,
        s@.subrange(lo as int, r as int) == strip_trailing(s@.subrange(lo as int, hi as int), p@),
{
    let plen = p.unicode_len();
    if plen == 0 {
        return hi;
    }
    let mut i = hi;
    while matches_before(s, lo, i, p)
        invariant
            lo <= i <= hi <= s@.len(),
            plen == p@.len(),
            plen > 0,
            strip_trailing(s@.subrange(lo as int, i as int), p@) == strip_trailing(
                s@.subrange(lo as int, hi as int),
                p@,
            ),
        decreases i - lo,
    {
        proof {
            let w = s@.subrange(lo as int, i as int);
            assert(w.subrange(0, w.len() - plen) =~= s@.subrange(lo as int, i - plen));
        }
        i = i - plen;
    }
    i
}

/// Moves `lo` past the leading whitespace of `s[lo..hi]`.
fn skip_leading_white(s: &str, lo: usize, hi: usize) -> (r: usize)
    requires
        lo <= hi <= s@.len(),
    ensures
        lo <= r <= hi,
        s@.subrange(r as int, hi as int) == trim_leading_white(s@.subrange(lo as int, hi as int)),
{
    let mut i = lo;
    while i < hi && is_white(s.get_char(i))
        invariant
            lo <= i <= hi <= s@.len(),
            trim_leading_white(s@.subrange(i as int, hi as int)) == trim_leading_white(
                s@.subrange(lo as int, hi as int),
            ),
        decreases hi - i,
    {
        proof {
            let w = s@.subrange(i as int, hi as int);
            assert(w.subrange(1, w.len() as int) =~= s@.subrange(i + 1, hi as int));
        }
        i = i + 1;
    }
    i
}

/// Moves `hi` before the trailing whitespace of `s[lo..hi]`.
fn skip_trailing_white(s: &str, lo: usize, hi: usize) -> (r: usize)
    requires
        lo <= hi <= s@.len(),
    ensures
        lo <= r <= hi,
        s@.subrange(lo as int, r as int) == trim_trailing_white(s@.subrange(lo as int, hi as int)),
{
    let mut i = hi;
    while i > lo && is_white(s.get_char(i - 1))
        invariant
            lo <= i <= hi <= s@.len(),
            trim_trailing_white(s@.subrange(lo as int, i as int)) == trim_trailing_white(
                s@.subrange(lo as int, hi as int),
            ),
        decreases i - lo,
    {
        proof {
            let w = s@.subrange(lo as int, i as int);
            assert(w.subrange(0, w.len() - 1) =~= s@.subrange(lo as int, i - 1));
        }
        i = i - 1;
    }
    i
}

/// Whether two texts hold the same characters.
pub fn text_eq(a: &str, b: &str) -> (r: bool)
    ensures
        r == (a@ == b@),
{
    let n = a.unicode_len();
    if n != b.unicode_len() {
        return false;
    }
    let mut i: usize = 0;
    while i < n
        invariant
            n == a@.len(),
            n == b@.len(),
            i <= n,
            forall|k: int| 0 <= k < i ==> a@[k] == b@[k],
        decreases n - i,
    {
        if a.get_char(i) != b.get_char(i) {
            return false;
        }
        i = i + 1;
    }
    assert(a@ =~= b@);
    true
}

/// Whether the character `c` occurs in the text.
pub fn contains_char(s: &str, c: char) -> (r: bool)
    ensures
        r == s@.contains(c),
{
    let n = s.unicode_len();
    let mut i: usize = 0;
    while i < n
        invariant
            n == s@.len(),
            i <= n,
            forall|k: int| 0 <= k < i ==> s@[k] != c,
        decreases n - i,
    {
        if s.get_char(i) == c {
            assert(s@[i as int] == c);
            return true;
        }
        i = i + 1;
    }
    false
}

/// `s` without its leading and trailing whitespace.
pub open spec fn trim_white(s: Seq<char>) -> Seq<char> {
    trim_trailing_white(trim_leading_white(s))
}

/// The text without its leading and trailing whitespace.
pub fn trim(s: &str) -> (r: String)
    ensures
        r@ == trim_white(s@),
{
    let n = s.unicode_len();
    proof {
        assert(s@.subrange(0, n as int) =~= s@);
    }
    let lo = skip_leading_white(s, 0, n);
    let hi = skip_trailing_white(s, lo, n);
    String::from_str(s.substring_char(lo, hi))
}

/// The text with every trailing repetition of `p` removed.
pub fn strip_suffixes(s: &str, p: &str) -> (r: String)
    ensures
        r@ == strip_trailing(s@, p@),
{
    let n = s.unicode_len();
    proof {
        assert(s@.subrange(0, n as int) =~= s@);
    }
    let hi = skip_trailing(s, 0, n, p);
    String::from_str(s.substring_char(0, hi))
}

/// The display form of a group name's text: lowercased, stripped of its
/// qualifiers, then title-cased (kept as it is past `TITLE_CASE_LIMIT`).
pub fn normalize(name: &str) -> (r: String)
    ensures
        r@ == display_text(name@),
{
    let lowered = lowercase(name);
    let l = lowered.as_str();
    let n = l.unicode_len();
    proof {
        assert(l@.subrange(0, n as int) =~= l@);
    }
    let lo = skip_leading(l, 0, n, "true");
    let lo = skip_leading(l, lo, n, "false");
    let lo = skip_leading(l, lo, n, "typical");
    let hi = skip_trailing(l, lo, n, "and allies");
    let lo = skip_leading_white(l, lo, hi);
    let hi = skip_trailing_white(l, lo, hi);
    let hi = skip_trailing(l, lo, hi, ",");
    let core = l.substring_char(lo, hi);
    title_or_keep(core)
}

/// Display normalization is stable on its own output for every text whose
/// title-cased form lowercases back to the stripped text, and whose stripped
/// text carries no further qualifier.
pub proof fn lemma_normalize_stable(s: Seq<char>)
    requires
        lower_of(display_text(s)) == strip_qualifiers(lower_of(s)),
        strip_qualifiers(strip_qualifiers(lower_of(s))) == strip_qualifiers(lower_of(s)),
    ensures
        display_text(display_text(s)) == display_text(s),
{
}

} // verus!
