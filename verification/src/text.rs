//! Character-sequence utilities shared by the parser and the store: scanning
//! for separators, tokenising, and prefix tests, all specified over
//! `Seq<char>`.

use vstd::prelude::*;

verus! {

broadcast use vstd::string::next_postcondition, vstd::string::axiom_spec_iter;

/// Collects the characters of a string slice into a vector.
pub fn str_to_chars(s: &str) -> (r: Vec<char>)
    ensures
        r@ == s@,
{
    let mut it = s.chars();
    let mut out: Vec<char> = Vec::new();
    loop
        invariant
            out@ + vstd::std_specs::iter::IteratorSpec::remaining(&it) == s@,
            vstd::std_specs::iter::IteratorSpec::decrease(&it) is Some,
        ensures
            out@ == s@,
        decreases vstd::std_specs::iter::IteratorSpec::decrease(&it)->0,
    {
        match it.next() {
            Some(c) => {
                out.push(c);
            },
            None => {
                proof {
                    assert(out@ =~= s@);
                }
                break;
            },
        }
    }
    out
}

/// Relies on `String`'s `FromIterator<char>` impl, through `Iterator::collect`:
/// the collected string holds exactly the iterated characters, in order.
#[verifier::external_body]
pub(crate) fn chars_to_string(v: &[char]) -> (r: String)
    ensures
        r@ == v@,
{
    v.iter().collect()
}

/// Builds the string made of the characters of `cs` from `from` (inclusive)
/// to `to` (exclusive).
pub fn chars_range_to_string(cs: &Vec<char>, from: usize, to: usize) -> (r: String)
    requires
        from <= to <= cs@.len(),
    ensures
        r@ == cs@.subrange(from as int, to as int),
{
    chars_to_string(vstd::slice::slice_subrange(cs.as_slice(), from, to))
}

/// The characters that the dictionary grammar treats as whitespace: the
/// characters with the Unicode `White_Space` property.
pub open spec fn is_space(c: char) -> bool {
    ||| c == ' '
    ||| c == '\t'
    ||| c == '\n'
    ||| c == '\u{b}'
    ||| c == '\u{c}'
    ||| c == '\r'
    ||| c == '\u{85}'
    ||| c == '\u{a0}'
    ||| c == '\u{1680}'
    ||| ('\u{2000}' <= c && c <= '\u{200a}')
    ||| c == '\u{2028}'
    ||| c == '\u{2029}'
    ||| c == '\u{202f}'
    ||| c == '\u{205f}'
    ||| c == '\u{3000}'
}

/// A class of separator characters that tokenising splits on.
#[derive(Clone, Copy)]
pub enum Sep {
    /// Split on whitespace, as between pinyin syllables.
    Whitespace,
    /// Split on `/`, as between definitions.
    Slash,
}

/// Whether `c` belongs to the separator class `sep`.
pub open spec fn is_sep(sep: Sep, c: char) -> bool {
    match sep {
        Sep::Whitespace => is_space(c),
        Sep::Slash => c == '/',
    }
}

/// Executable test for membership in a separator class.
pub fn sep_char(sep: Sep, c: char) -> (r: bool)
    ensures
        r == is_sep(sep, c),
{
    match sep {
        Sep::Whitespace => c == ' ' || c == '\t' || c == '\n' || c == '\u{b}' || c == '\u{c}'
            || c == '\r' || c == '\u{85}' || c == '\u{a0}' || c == '\u{1680}' || ('\u{2000}' <= c
            && c <= '\u{200a}') || c == '\u{2028}' || c == '\u{2029}' || c == '\u{202f}' || c
            == '\u{205f}' || c == '\u{3000}',
        Sep::Slash => c == '/',
    }
}

/// The first index in `[from, to)` at which `c` occurs in `s`, if any.
pub open spec fn find_in(s: Seq<char>, from: int, to: int, c: char) -> Option<int>
    decreases to - from,
{
    if from < 0 || to > s.len() || from >= to {
        None
    } else if s[from] == c {
        Some(from)
    } else {
        find_in(s, from + 1, to, c)
    }
}

/// What a successful or failed scan means: the found index holds `c` and
/// nothing before it in the scanned range does.
pub proof fn lemma_find_in(s: Seq<char>, from: int, to: int, c: char)
    requires
        0 <= from <= to <= s.len(),
    ensures
        match find_in(s, from, to, c) {
            Some(i) => from <= i < to && s[i] == c && (forall|j: int|
                from <= j < i ==> s[j] != c),
            None => forall|j: int| from <= j < to ==> s[j] != c,
        },
    decreases to - from,
{
    if from < to && s[from] != c {
        lemma_find_in(s, from + 1, to, c);
    }
}

/// Scans `cs` in `[from, to)` for the first occurrence of `c`.
pub fn find_char(cs: &Vec<char>, from: usize, to: usize, c: char) -> (r: Option<usize>)
    requires
        from <= to <= cs@.len(),
    ensures
        match r {
            Some(i) => from <= i < to && find_in(cs@, from as int, to as int, c) == Some(i as int),
            None => find_in(cs@, from as int, to as int, c) is None,
        },
{
    let mut i = from;
    while i < to
        invariant
            from <= i <= to <= cs@.len(),
            find_in(cs@, from as int, to as int, c) == find_in(cs@, i as int, to as int, c),
        decreases to - i,
    {
        if cs[i] == c {
            return Some(i);
        }
        i = i + 1;
    }
    None
}

/// The end of the token that starts at `from`: the first index in `[from, to)`
/// holding a separator of class `sep`, or `to` if there is none.
pub open spec fn token_end(sep: Sep, s: Seq<char>, from: int, to: int) -> int
    decreases to - from,
{
    if from < 0 || to > s.len() || from >= to {
        to
    } else if is_sep(sep, s[from]) {
        from
    } else {
        token_end(sep, s, from + 1, to)
    }
}

/// The token end lies between `from` and `to`, separators lie at or beyond
/// it, and every character before it is a non-separator.
pub proof fn lemma_token_end(sep: Sep, s: Seq<char>, from: int, to: int)
    requires
        0 <= from <= to <= s.len(),
    ensures
        from <= token_end(sep, s, from, to) <= to,
        forall|j: int| from <= j < token_end(sep, s, from, to) ==> !is_sep(sep, s[j]),
        token_end(sep, s, from, to) < to ==> is_sep(sep, s[token_end(sep, s, from, to)]),
    decreases to - from,
{
    if from < to && !is_sep(sep, s[from]) {
        lemma_token_end(sep, s, from + 1, to);
    }
}

/// The tokens of `s` in `[from, to)`: the maximal non-empty runs of
/// non-separator characters, in order. Splitting on a separator and
/// discarding empty segments yields exactly these runs.
pub open spec fn split_tokens(sep: Sep, s: Seq<char>, from: int, to: int) -> Seq<Seq<char>>
    decreases to - from,
    via split_tokens_decreases
{
    if from < 0 || to > s.len() || from >= to {
        Seq::empty()
    } else if is_sep(sep, s[from]) {
        split_tokens(sep, s, from + 1, to)
    } else {
        seq![s.subrange(from, token_end(sep, s, from, to))] + split_tokens(
            sep,
            s,
            token_end(sep, s, from, to),
            to,
        )
    }
}

#[via_fn]
proof fn split_tokens_decreases(sep: Sep, s: Seq<char>, from: int, to: int) {
    if !(from < 0 || to > s.len() || from >= to) && !is_sep(sep, s[from]) {
        lemma_token_end(sep, s, from + 1, to);
    }
}

/// Splits the characters of `cs` in `[from, to)` into the strings of its
/// non-empty runs of non-separator characters.
pub fn split_tokens_range(sep: Sep, cs: &Vec<char>, from: usize, to: usize) -> (r: Vec<String>)
    requires
        from <= to <= cs@.len(),
    ensures
        r.deep_view() == split_tokens(sep, cs@, from as int, to as int),
{
    let mut out: Vec<String> = Vec::new();
    let mut i = from;
    while i < to
        invariant
            from <= i <= to <= cs@.len(),
            out.deep_view() + split_tokens(sep, cs@, i as int, to as int) == split_tokens(
                sep,
                cs@,
                from as int,
                to as int,
            ),
        decreases to - i,
    {
        if sep_char(sep, cs[i]) {
            i = i + 1;
        } else {
            let ghost prev = out.deep_view();
            let mut j = i + 1;
            while j < to
                invariant
                    i < j <= to <= cs@.len(),
                    token_end(sep, cs@, i as int, to as int) == token_end(
                        sep,
                        cs@,
                        j as int,
                        to as int,
                    ),
                ensures
                    i < j <= to,
                    j as int == token_end(sep, cs@, i as int, to as int),
                decreases to - j,
            {
                if sep_char(sep, cs[j]) {
                    break;
                }
                j = j + 1;
            }
            let tok = chars_range_to_string(cs, i, j);
            out.push(tok);
            proof {
                assert(out.deep_view() =~= prev + seq![cs@.subrange(i as int, j as int)]);
                assert(prev + seq![cs@.subrange(i as int, j as int)] + split_tokens(
                    sep,
                    cs@,
                    j as int,
                    to as int,
                ) =~= prev + (seq![cs@.subrange(i as int, j as int)] + split_tokens(
                    sep,
                    cs@,
                    j as int,
                    to as int,
                )));
            }
            i = j;
        }
    }
    proof {
        assert(out.deep_view() + split_tokens(sep, cs@, to as int, to as int) =~= out.deep_view());
    }
    out
}

/// Copies the characters of `cs` in `[from, to)` into a new vector.
pub fn subvec_chars(cs: &Vec<char>, from: usize, to: usize) -> (r: Vec<char>)
    requires
        from <= to <= cs@.len(),
    ensures
        r@ == cs@.subrange(from as int, to as int),
{
    let mut out: Vec<char> = Vec::new();
    let mut i = from;
    while i < to
        invariant
            from <= i <= to <= cs@.len(),
            out@ == cs@.subrange(from as int, i as int),
        decreases to - i,
    {
        out.push(cs[i]);
        proof {
            assert(out@ =~= cs@.subrange(from as int, i as int + 1));
        }
        i = i + 1;
    }
    out
}

/// `p` is an initial segment of `s`.
pub open spec fn is_prefix_of(p: Seq<char>, s: Seq<char>) -> bool {
    p.len() <= s.len() && s.subrange(0, p.len() as int) == p
}

/// Executable prefix test over character vectors.
pub fn starts_with_chars(s: &Vec<char>, p: &Vec<char>) -> (r: bool)
    ensures
        r == is_prefix_of(p@, s@),
{
    if p.len() > s.len() {
        proof {
            assert(!is_prefix_of(p@, s@));
        }
        return false;
    }
    let mut i: usize = 0;
    while i < p.len()
        invariant
            0 <= i <= p@.len() <= s@.len(),
            forall|j: int| 0 <= j < i ==> s@[j] == p@[j],
        decreases p@.len() - i,
    {
        if s[i] != p[i] {
            proof {
                assert(s@.subrange(0, p@.len() as int)[i as int] == s@[i as int]);
                assert(!is_prefix_of(p@, s@));
            }
            return false;
        }
        i = i + 1;
    }
    proof {
        assert(s@.subrange(0, p@.len() as int) =~= p@);
    }
    true
}

} // verus!
