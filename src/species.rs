//! Sanitizing species names as they are logged: the words of the name are
//! kept, a "cf." qualifier is dropped, and a trailing range of unnamed species
//! ("sp.1 - sp.4") or of numbers ("1 - 4") ends the name.
use vstd::prelude::*;
use vstd::string::*;

verus! {

pub open spec fn is_space(c: char) -> bool {
    c == ' ' || c == '\t' || c == '\r' || c == '\n'
}

pub open spec fn is_digit(c: char) -> bool {
    '0' <= c && c <= '9'
}

pub open spec fn is_alnum(c: char) -> bool {
    ('a' <= c && c <= 'z') || ('A' <= c && c <= 'Z') || is_digit(c)
}

/// The first position from `i` on that holds no space.
pub open spec fn skip_spaces(s: Seq<char>, i: int) -> int
    decreases s.len() - i,
{
    if 0 <= i < s.len() && is_space(s[i]) {
        skip_spaces(s, i + 1)
    } else {
        i
    }
}

/// The first position from `i` on that holds no digit.
pub open spec fn digits_end(s: Seq<char>, i: int) -> int
    decreases s.len() - i,
{
    if 0 <= i < s.len() && is_digit(s[i]) {
        digits_end(s, i + 1)
    } else {
        i
    }
}

/// The first position from `i` on that holds no ASCII letter or digit.
pub open spec fn alnum_end(s: Seq<char>, i: int) -> int
    decreases s.len() - i,
{
    if 0 <= i < s.len() && is_alnum(s[i]) {
        alnum_end(s, i + 1)
    } else {
        i
    }
}

/// Whether `t` occurs in `s` at position `i`.
pub open spec fn tag_at(s: Seq<char>, i: int, t: Seq<char>) -> bool {
    0 <= i && i + t.len() <= s.len() && s.subrange(i, i + t.len()) == t
}

/// "sp." or "spp." at `i` and the spaces after it: where it ends, and the term.
pub open spec fn sp_term(s: Seq<char>, i: int) -> Option<(int, Seq<char>)> {
    if tag_at(s, i, "sp."@) {
        Some((skip_spaces(s, i + "sp."@.len()), "sp."@))
    } else if tag_at(s, i, "spp."@) {
        Some((skip_spaces(s, i + "spp."@.len()), "spp."@))
    } else {
        None
    }
}

/// A term with its optional index ("sp.1"), written without spaces.
pub open spec fn sp_index(s: Seq<char>, i: int) -> Option<(int, Seq<char>)> {
    match sp_term(s, i) {
        None => None,
        Some((j, t)) => {
            let k = skip_spaces(s, j);
            let e = digits_end(s, k);
            Some((e, t + s.subrange(k, e)))
        },
    }
}

/// A term, optionally followed by a dash and a second term: where it ends,
/// and its compact form ("sp.1-sp.4").
pub open spec fn sp_range_at(s: Seq<char>, i: int) -> Option<(int, Seq<char>)> {
    match sp_index(s, i) {
        None => None,
        Some((j, a)) => {
            let k = skip_spaces(s, j);
            let j2 = if k < s.len() && s[k] == '-' {
                skip_spaces(s, k + 1)
            } else {
                j
            };
            match sp_index(s, j2) {
                Some((e, b)) => Some((e, a + "-"@ + b)),
                None => Some((j2, a)),
            }
        },
    }
}

/// Where a range of numbers ("1 - 4") starting at `i` ends, if there is one.
pub open spec fn number_range_end(s: Seq<char>, i: int) -> Option<int> {
    let k = skip_spaces(s, i);
    let d = digits_end(s, k);
    if d == k {
        None
    } else {
        let k2 = skip_spaces(s, d);
        if k2 < s.len() && s[k2] == '-' {
            let k3 = skip_spaces(s, k2 + 1);
            let d2 = digits_end(s, k3);
            if d2 == k3 {
                None
            } else {
                Some(skip_spaces(s, d2))
            }
        } else {
            None
        }
    }
}

/// Where a "cf." qualifier with its surrounding spaces, starting at `i`, ends.
pub open spec fn stop_word_end(s: Seq<char>, i: int) -> Option<int> {
    let k = skip_spaces(s, i);
    if tag_at(s, k, "cf."@) {
        Some(skip_spaces(s, k + "cf."@.len()))
    } else {
        None
    }
}

/// A word at `i`: where it ends with what follows it (a qualifier or
/// spaces), and the word.
pub open spec fn word_at(s: Seq<char>, i: int) -> Option<(int, Seq<char>)> {
    let k = skip_spaces(s, i);
    let e = alnum_end(s, k);
    if e == k {
        None
    } else {
        let p = match stop_word_end(s, e) {
            Some(p) => p,
            None => skip_spaces(s, e),
        };
        Some((p, s.subrange(k, e)))
    }
}

/// Where the end of a name starting at `i` ends: a species range, a number
/// range, or the end of the text.
pub open spec fn terminator_end(s: Seq<char>, i: int) -> Option<int> {
    match sp_range_at(s, i) {
        Some((e, _)) => Some(e),
        None => match number_range_end(s, i) {
            Some(e) => Some(e),
            None => if i == s.len() {
                Some(i)
            } else {
                None
            },
        },
    }
}

/// The words of the name from `i` on, if the rest of the text is a name.
pub open spec fn name_words(s: Seq<char>, i: int) -> Option<Seq<Seq<char>>>
    decreases s.len() - i,
{
    if !(0 <= i <= s.len()) {
        None
    } else {
        match terminator_end(s, i) {
            Some(e) => if e == s.len() {
                Some(Seq::empty())
            } else {
                None
            },
            None => match word_at(s, i) {
                None => None,
                Some((p, w)) => if p <= i || p > s.len() {
                    None
                } else {
                    match name_words(s, p) {
                        Some(ws) => Some(seq![w] + ws),
                        None => None,
                    }
                },
            },
        }
    }
}

/// Words joined by single spaces.
pub open spec fn join_words(ws: Seq<Seq<char>>) -> Seq<char>
    decreases ws.len(),
{
    if ws.len() == 0 {
        Seq::empty()
    } else if ws.len() == 1 {
        ws[0]
    } else {
        join_words(ws.drop_last()) + " "@ + ws.last()
    }
}

/// A text that is not a species name.
#[derive(Debug)]
pub struct NameParseError {
    pub input: String,
}

fn space_at(s: &str, i: usize) -> (r: bool)
    requires
        i <= s@.len(),
    ensures
        r == (i < s@.len() && is_space(s@[i as int])),
{
    if i < s.unicode_len() {
        let c = s.get_char(i);
        c == ' ' || c == '\t' || c == '\r' || c == '\n'
    } else {
        false
    }
}

fn digit_at(s: &str, i: usize) -> (r: bool)
    requires
        i <= s@.len(),
    ensures
        r == (i < s@.len() && is_digit(s@[i as int])),
{
    if i < s.unicode_len() {
        let c = s.get_char(i);
        '0' <= c && c <= '9'
    } else {
        false
    }
}

fn alnum_at(s: &str, i: usize) -> (r: bool)
    requires
        i <= s@.len(),
    ensures
        r == (i < s@.len() && is_alnum(s@[i as int])),
{
    if i < s.unicode_len() {
        let c = s.get_char(i);
        ('a' <= c && c <= 'z') || ('A' <= c && c <= 'Z') || ('0' <= c && c <= '9')
    } else {
        false
    }
}

fn skip_spaces_from(s: &str, i: usize) -> (r: usize)
    requires
        i <= s@.len(),
    ensures
        r == skip_spaces(s@, i as int),
        i <= r <= s@.len(),
{
    let n = s.unicode_len();
    let mut j = i;
    while space_at(s, j)
        invariant
            n == s@.len(),
            i <= j <= s@.len(),
            skip_spaces(s@, j as int) == skip_spaces(s@, i as int),
        decreases s@.len() - j,
    {
        j = j + 1;
    }
    j
}

fn digits_end_from(s: &str, i: usize) -> (r: usize)
    requires
        i <= s@.len(),
    ensures
        r == digits_end(s@, i as int),
        i <= r <= s@.len(),
{
    let n = s.unicode_len();
    let mut j = i;
    while digit_at(s, j)
        invariant
            n == s@.len(),
            i <= j <= n,
            digits_end(s@, j as int) == digits_end(s@, i as int),
        decreases n - j,
    {
        j = j + 1;
    }
    j
}

fn alnum_end_from(s: &str, i: usize) -> (r: usize)
    requires
        i <= s@.len(),
    ensures
        r == alnum_end(s@, i as int),
        i <= r <= s@.len(),
{
    let n = s.unicode_len();
    let mut j = i;
    while alnum_at(s, j)
        invariant
            n == s@.len(),
            i <= j <= n,
            alnum_end(s@, j as int) == alnum_end(s@, i as int),
        decreases n - j,
    {
        j = j + 1;
    }
    j
}

fn tag_at_pos(s: &str, i: usize, t: &str) -> (r: bool)
    requires
        i <= s@.len(),
    ensures
        r == tag_at(s@, i as int, t@),
{
    let n = s.unicode_len();
    let m = t.unicode_len();
    if m > n - i {
        return false;
    }
    let mut j: usize = 0;
    while j < m
        invariant
            n == s@.len(),
            m == t@.len(),
            i + m <= n,
            j <= m,
            forall|k: int| 0 <= k < j ==> s@[i + k] == t@[k],
        decreases m - j,
    {
        if s.get_char(i + j) != t.get_char(j) {
            assert(s@.subrange(i as int, i + m)[j as int] != t@[j as int]);
            return false;
        }
        j = j + 1;
    }
    assert(s@.subrange(i as int, i + m) =~= t@);
    true
}

fn dash_at(s: &str, i: usize) -> (r: bool)
    requires
        i <= s@.len(),
    ensures
        r == (i < s@.len() && s@[i as int] == '-'),
{
    i < s.unicode_len() && s.get_char(i) == '-'
}

fn sp_term_from(s: &str, i: usize) -> (r: Option<(usize, &'static str)>)
    requires
        i <= s@.len(),
    ensures
        match sp_term(s@, i as int) {
            Some((e, t)) => r.is_some() && r.unwrap().0 == e && r.unwrap().1@ == t && e <= s@.len(),
            None => r.is_none(),
        },
{
    let _len = s.unicode_len();
    if tag_at_pos(s, i, "sp.") {
        let n = "sp.".unicode_len();
        Some((skip_spaces_from(s, i + n), "sp."))
    } else if tag_at_pos(s, i, "spp.") {
        let n = "spp.".unicode_len();
        Some((skip_spaces_from(s, i + n), "spp."))
    } else {
        None
    }
}

fn sp_index_from(s: &str, i: usize) -> (r: Option<(usize, String)>)
    requires
        i <= s@.len(),
    ensures
        match sp_index(s@, i as int) {
            Some((e, t)) => r.is_some() && r.unwrap().0 == e && r.unwrap().1@ == t && e <= s@.len(),
            None => r.is_none(),
        },
{
    match sp_term_from(s, i) {
        None => None,
        Some((j, t)) => {
            let k = skip_spaces_from(s, j);
            let e = digits_end_from(s, k);
            let term = String::from_str(t).concat(s.substring_char(k, e));
            Some((e, term))
        },
    }
}

fn sp_range_from(s: &str, i: usize) -> (r: Option<(usize, String)>)
    requires
        i <= s@.len(),
    ensures
        match sp_range_at(s@, i as int) {
            Some((e, t)) => r.is_some() && r.unwrap().0 == e && r.unwrap().1@ == t && e <= s@.len(),
            None => r.is_none(),
        },
{
    let _len = s.unicode_len();
    match sp_index_from(s, i) {
        None => None,
        Some((j, a)) => {
            let k = skip_spaces_from(s, j);
            let j2 = if dash_at(s, k) {
                skip_spaces_from(s, k + 1)
            } else {
                j
            };
            match sp_index_from(s, j2) {
                Some((e, b)) => Some((e, a.concat("-").concat(b.as_str()))),
                None => Some((j2, a)),
            }
        },
    }
}

fn number_range_from(s: &str, i: usize) -> (r: Option<usize>)
    requires
        i <= s@.len(),
    ensures
        match r {
            Some(e) => number_range_end(s@, i as int) == Some(e as int) && e <= s@.len(),
            None => number_range_end(s@, i as int).is_none(),
        },
{
    let _len = s.unicode_len();
    let k = skip_spaces_from(s, i);
    let d = digits_end_from(s, k);
    if d == k {
        return None;
    }
    let k2 = skip_spaces_from(s, d);
    if !dash_at(s, k2) {
        return None;
    }
    let k3 = skip_spaces_from(s, k2 + 1);
    let d2 = digits_end_from(s, k3);
    if d2 == k3 {
        None
    } else {
        Some(skip_spaces_from(s, d2))
    }
}

fn terminator_from(s: &str, i: usize) -> (r: Option<usize>)
    requires
        i <= s@.len(),
    ensures
        match r {
            Some(e) => terminator_end(s@, i as int) == Some(e as int) && e <= s@.len(),
            None => terminator_end(s@, i as int).is_none(),
        },
{
    match sp_range_from(s, i) {
        Some((e, _)) => Some(e),
        None => match number_range_from(s, i) {
            Some(e) => Some(e),
            None => if i == s.unicode_len() {
                Some(i)
            } else {
                None
            },
        },
    }
}

fn word_from(s: &str, i: usize) -> (r: Option<(usize, String)>)
    requires
        i <= s@.len(),
    ensures
        match word_at(s@, i as int) {
            Some((p, w)) => r.is_some() && r.unwrap().0 == p && r.unwrap().1@ == w && p <= s@.len(),
            None => r.is_none(),
        },
{
    let _len = s.unicode_len();
    let k = skip_spaces_from(s, i);
    let e = alnum_end_from(s, k);
    if e == k {
        return None;
    }
    let q = skip_spaces_from(s, e);
    let p = if tag_at_pos(s, q, "cf.") {
        let n = "cf.".unicode_len();
        skip_spaces_from(s, q + n)
    } else {
        q
    };
    Some((p, String::from_str(s.substring_char(k, e))))
}

/// The species range at the start of `input` in its compact form
/// ("sp. 1 - sp. 4" gives "sp.1-sp.4"), if it starts with one.
pub fn sp_range(input: &str) -> (r: Option<String>)
    ensures
        match sp_range_at(input@, 0) {
            Some((_, t)) => r.is_some() && r.unwrap()@ == t,
            None => r.is_none(),
        },
{
    match sp_range_from(input, 0) {
        Some((_, t)) => Some(t),
        None => None,
    }
}

pub open spec fn word_views(ws: Seq<String>) -> Seq<Seq<char>> {
    ws.map_values(|w: String| w@)
}

/// The species name in a logged name: its words joined by single spaces,
/// without a "cf." qualifier or a trailing range; an error when the text is
/// not of that form.
pub fn sanitize_species_name(input: &str) -> (r: Result<String, NameParseError>)
    ensures
        match name_words(input@, 0) {
            Some(ws) => r.is_ok() && r.unwrap()@ == join_words(ws),
            None => r.is_err(),
        },
{
    let n = input.unicode_len();
    let mut words: Vec<String> = Vec::new();
    let mut i: usize = 0;
    loop
        invariant
            n == input@.len(),
            i <= n,
            name_words(input@, 0) == match name_words(input@, i as int) {
                Some(rest) => Some(word_views(words@) + rest),
                None => None::<Seq<Seq<char>>>,
            },
        ensures
            name_words(input@, 0) == Some(word_views(words@)),
        decreases n - i,
    {
        match terminator_from(input, i) {
            Some(e) => {
                if e == n {
                    proof {
                        assert(word_views(words@) + Seq::<Seq<char>>::empty() =~= word_views(words@));
                    }
                    break ;
                } else {
                    return Err(NameParseError { input: String::from_str(input) });
                }
            },
            None => {},
        }
        match word_from(input, i) {
            None => {
                return Err(NameParseError { input: String::from_str(input) });
            },
            Some((p, w)) => {
                if p <= i {
                    return Err(NameParseError { input: String::from_str(input) });
                }
                let ghost before = words@;
                words.push(w);
                proof {
                    let rest = name_words(input@, p as int);
                    if rest.is_some() {
                        assert(word_views(words@) + rest.unwrap() =~= word_views(before) + (seq![w@]
                            + rest.unwrap()));
                    }
                }
                i = p;
            },
        }
    }
    Ok(join_all(&words))
}

/// The texts of `words` joined by single spaces.
fn join_all(words: &Vec<String>) -> (r: String)
    ensures
        r@ == join_words(word_views(words@)),
{
    if words.len() == 0 {
        return String::new();
    }
    let mut acc = words[0].clone();
    let mut i: usize = 1;
    proof {
        assert(word_views(words@).subrange(0, 1) =~= seq![words@[0]@]);
    }
    while i < words.len()
        invariant
            1 <= i <= words@.len(),
            acc@ == join_words(word_views(words@).subrange(0, i as int)),
        decreases words@.len() - i,
    {
        acc = acc.concat(" ").concat(words[i].as_str());
        proof {
            let next = word_views(words@).subrange(0, i + 1);
            assert(next.drop_last() =~= word_views(words@).subrange(0, i as int));
            assert(next.last() == words@[i as int]@);
        }
        i = i + 1;
    }
    proof {
        assert(word_views(words@).subrange(0, i as int) =~= word_views(words@));
    }
    acc
}

} // verus!
