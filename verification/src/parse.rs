//! The CC-CEDICT line grammar and the import driver.
//!
//! Each entry is one line of the form
//! `TRADITIONAL SPACE SIMPLIFIED SPACE [PINYIN] /DEF1/DEF2/.../`.
//! The driver numbers lines by their original 0-based position, skips leading
//! `#` comment lines, and aborts the whole import on the first failure.

use vstd::prelude::*;

use crate::text::{
    chars_range_to_string, find_char, find_in, split_tokens, split_tokens_range, str_to_chars,
    subvec_chars, Sep,
};
use crate::words::{WordDef, WordDefView};

verus! {

/// Why a dictionary line failed to parse.
#[derive(Clone, Copy, PartialEq, Eq, Structural, Debug)]
pub enum ParseError {
    /// The line lacks one of the two spaces that end the headword fields.
    MissingSimplified,
    /// No `[` immediately follows the second space.
    ExpectedBracket,
    /// The `] /` delimiter that ends the pinyin field is missing.
    MissingPinyin,
}

impl ParseError {
    /// The human-readable cause of this failure.
    pub open spec fn spec_message(self) -> Seq<char> {
        match self {
            ParseError::MissingSimplified => "Could not read simplified"@,
            ParseError::ExpectedBracket => "Expected ["@,
            ParseError::MissingPinyin => "Could not read pinyin"@,
        }
    }

    /// Renders the cause.
    pub fn message(&self) -> (r: String)
        ensures
            r@ == self.spec_message(),
    {
        match self {
            ParseError::MissingSimplified => "Could not read simplified".to_owned(),
            ParseError::ExpectedBracket => "Expected [".to_owned(),
            ParseError::MissingPinyin => "Could not read pinyin".to_owned(),
        }
    }
}

/// An import failure: the 0-based index of the offending line in the original
/// text, comment lines included, and the underlying cause.
#[derive(Clone, Copy, PartialEq, Eq, Structural, Debug)]
pub struct ImportError {
    pub line: usize,
    pub cause: ParseError,
}

/// The first index at or after `from` where the three-character delimiter
/// `] /` that ends the pinyin field occurs in `s`.
pub open spec fn find_delim(s: Seq<char>, from: int) -> Option<int>
    decreases s.len() - from,
{
    if from < 0 || from + 3 > s.len() {
        None
    } else if s[from] == ']' && s[from + 1] == ' ' && s[from + 2] == '/' {
        Some(from)
    } else {
        find_delim(s, from + 1)
    }
}

/// Scans `cs` from `from` for the delimiter `] /`.
pub fn find_delim3(cs: &Vec<char>, from: usize) -> (r: Option<usize>)
    requires
        from <= cs@.len(),
    ensures
        match r {
            Some(i) => from <= i && i + 3 <= cs@.len() && find_delim(cs@, from as int) == Some(
                i as int,
            ),
            None => find_delim(cs@, from as int) is None,
        },
{
    let n = cs.len();
    if n < 3 || from > n - 3 {
        return None;
    }
    let last = n - 3;
    let mut i = from;
    while i <= last
        invariant
            from <= i <= last + 1,
            last == n - 3,
            n == cs@.len(),
            3 <= n,
            find_delim(cs@, from as int) == find_delim(cs@, i as int),
        decreases last + 1 - i,
    {
        if cs[i] == ']' && cs[i + 1] == ' ' && cs[i + 2] == '/' {
            return Some(i);
        }
        i = i + 1;
    }
    None
}

/// Parses one dictionary line. The grammar, left to right: the traditional
/// headword runs to the first space, the simplified headword to the next
/// space, a literal `[` must follow at once, the pinyin text runs to the
/// first `] /`, and the remainder splits on `/` into definitions, empty
/// segments discarded. The pinyin text splits on whitespace into syllables.
pub open spec fn parse_line_spec(s: Seq<char>) -> Result<WordDefView, ParseError> {
    match find_in(s, 0, s.len() as int, ' ') {
        None => Err(ParseError::MissingSimplified),
        Some(i) => match find_in(s, i + 1, s.len() as int, ' ') {
            None => Err(ParseError::MissingSimplified),
            Some(j) => if !(j + 1 < s.len() && s[j + 1] == '[') {
                Err(ParseError::ExpectedBracket)
            } else {
                match find_delim(s, j + 2) {
                    None => Err(ParseError::MissingPinyin),
                    Some(k) => Ok(
                        WordDefView {
                            traditional: s.subrange(0, i),
                            simplified: s.subrange(i + 1, j),
                            pinyin: split_tokens(Sep::Whitespace, s, j + 2, k),
                            defs: split_tokens(Sep::Slash, s, k + 3, s.len() as int),
                        },
                    ),
                }
            },
        },
    }
}

/// Parses one line given as a character vector.
pub fn parse_line_chars(cs: &Vec<char>) -> (r: Result<WordDef, ParseError>)
    ensures
        match r {
            Ok(w) => parse_line_spec(cs@) matches Ok(m) && m == w@,
            Err(e) => parse_line_spec(cs@) matches Err(pe) && pe == e,
        },
{
    let n = cs.len();
    let sp1 = match find_char(cs, 0, n, ' ') {
        Some(i) => i,
        None => {
            return Err(ParseError::MissingSimplified);
        },
    };
    let sp2 = match find_char(cs, sp1 + 1, n, ' ') {
        Some(i) => i,
        None => {
            return Err(ParseError::MissingSimplified);
        },
    };
    if !(sp2 + 1 < n && cs[sp2 + 1] == '[') {
        return Err(ParseError::ExpectedBracket);
    }
    let d = match find_delim3(cs, sp2 + 2) {
        Some(i) => i,
        None => {
            return Err(ParseError::MissingPinyin);
        },
    };
    let traditional = chars_range_to_string(cs, 0, sp1);
    let simplified = chars_range_to_string(cs, sp1 + 1, sp2);
    let pinyin = split_tokens_range(Sep::Whitespace, cs, sp2 + 2, d);
    let defs = split_tokens_range(Sep::Slash, cs, d + 3, n);
    Ok(WordDef { simplified, traditional, pinyin, defs })
}

/// Parses one dictionary line given as a string slice.
pub fn parse_cc_cedict_line(line: &str) -> (r: Result<WordDef, ParseError>)
    ensures
        match r {
            Ok(w) => parse_line_spec(line@) matches Ok(m) && m == w@,
            Err(e) => parse_line_spec(line@) matches Err(pe) && pe == e,
        },
{
    let cs = str_to_chars(line);
    parse_line_chars(&cs)
}

/// The end of the line beginning at `from`: the first newline at or after it,
/// or the end of the text.
pub open spec fn line_end(s: Seq<char>, from: int) -> int {
    match find_in(s, from, s.len() as int, '\n') {
        Some(i) => i,
        None => s.len() as int,
    }
}

/// The line `[from, to)` with one trailing carriage return removed.
pub open spec fn strip_cr(s: Seq<char>, from: int, to: int) -> Seq<char> {
    if from < to && s[to - 1] == '\r' {
        s.subrange(from, to - 1)
    } else {
        s.subrange(from, to)
    }
}

/// The lines of `s` from `from` on: split at newlines, a carriage return
/// before a newline removed, a final line ending optional.
pub open spec fn lines_from(s: Seq<char>, from: int) -> Seq<Seq<char>>
    decreases s.len() + 1 - from,
    via lines_from_decreases
{
    if from < 0 || from >= s.len() {
        Seq::empty()
    } else {
        seq![strip_cr(s, from, line_end(s, from))] + lines_from(s, line_end(s, from) + 1)
    }
}

#[via_fn]
proof fn lines_from_decreases(s: Seq<char>, from: int) {
    if 0 <= from < s.len() {
        crate::text::lemma_find_in(s, from, s.len() as int, '\n');
    }
}

/// Whether a line is a comment line.
pub open spec fn is_comment(l: Seq<char>) -> bool {
    l.len() > 0 && l[0] == '#'
}

/// The index of the first line at or after `i` that is not a comment line.
pub open spec fn skip_from(ls: Seq<Seq<char>>, i: int) -> int
    decreases ls.len() - i,
{
    if i < 0 || i >= ls.len() {
        i
    } else if is_comment(ls[i]) {
        skip_from(ls, i + 1)
    } else {
        i
    }
}

/// Parses every line from `i` on; the first failure aborts the whole import
/// with the index of the offending line and the cause.
pub open spec fn parse_rest(ls: Seq<Seq<char>>, i: int) -> Result<
    Seq<WordDefView>,
    (int, ParseError),
>
    decreases ls.len() - i,
{
    if i < 0 || i >= ls.len() {
        Ok(Seq::empty())
    } else {
        match parse_line_spec(ls[i]) {
            Err(e) => Err((i, e)),
            Ok(w) => match parse_rest(ls, i + 1) {
                Err(p) => Err(p),
                Ok(ws) => Ok(seq![w] + ws),
            },
        }
    }
}

/// Parses full dictionary source text. Lines are numbered by their original
/// 0-based position, leading comment lines included; the leading comment
/// lines are skipped; every remaining line must parse, and the first failure
/// aborts the whole import.
pub open spec fn parse_text_spec(s: Seq<char>) -> Result<Seq<WordDefView>, (int, ParseError)> {
    parse_rest(lines_from(s, 0), skip_from(lines_from(s, 0), 0))
}

/// Parses full dictionary source text into word-definition records.
pub fn parse_cc_cedict(text: &str) -> (r: Result<Vec<WordDef>, ImportError>)
    ensures
        match r {
            Ok(ws) => parse_text_spec(text@) matches Ok(ms) && ms == ws.deep_view(),
            Err(e) => parse_text_spec(text@) matches Err(p) && p.0 == e.line as int && p.1
                == e.cause,
        },
{
    let cs = str_to_chars(text);
    let n = cs.len();
    let ghost ls = lines_from(cs@, 0);
    let mut out: Vec<WordDef> = Vec::new();
    let mut pos: usize = 0;
    let mut idx: usize = 0;
    let mut skipping = true;
    let ghost mut k0: int = 0;
    proof {
        assert(ls.subrange(0, ls.len() as int) =~= ls);
    }
    while pos < n
        invariant
            n == cs@.len(),
            cs@ == text@,
            pos <= n,
            idx <= pos,
            idx <= ls.len(),
            ls == lines_from(cs@, 0),
            lines_from(cs@, pos as int) == ls.subrange(idx as int, ls.len() as int),
            skipping ==> out@.len() == 0 && skip_from(ls, 0) == skip_from(ls, idx as int),
            !skipping ==> k0 == skip_from(ls, 0) && (match parse_rest(ls, idx as int) {
                Ok(tail) => parse_rest(ls, k0) == Ok::<Seq<WordDefView>, (int, ParseError)>(
                    out.deep_view() + tail,
                ),
                Err(p) => parse_rest(ls, k0) == Err::<Seq<WordDefView>, (int, ParseError)>(p),
            }),
        decreases n - pos,
    {
        let le = match find_char(&cs, pos, n, '\n') {
            Some(i) => i,
            None => n,
        };
        proof {
            assert(le as int == line_end(cs@, pos as int));
        }
        let mut lend = le;
        if lend > pos && cs[lend - 1] == '\r' {
            lend = lend - 1;
        }
        let line = subvec_chars(&cs, pos, lend);
        proof {
            assert(line@ == strip_cr(cs@, pos as int, le as int));
            assert(lines_from(cs@, pos as int) == seq![strip_cr(cs@, pos as int, le as int)]
                + lines_from(cs@, le as int + 1));
            assert(idx < ls.len()) by {
                assert(lines_from(cs@, pos as int).len() >= 1);
            }
            assert(ls[idx as int] == ls.subrange(idx as int, ls.len() as int)[0]);
            assert(ls[idx as int] == line@);
            let rest = lines_from(cs@, le as int + 1);
            let tail = ls.subrange(idx as int + 1, ls.len() as int);
            assert(rest.len() == tail.len());
            assert forall|m: int| 0 <= m < rest.len() implies rest[m] == tail[m] by {
                assert(rest[m] == (seq![strip_cr(cs@, pos as int, le as int)] + rest)[m + 1]);
                assert(ls.subrange(idx as int, ls.len() as int)[m + 1] == ls[idx as int + 1 + m]);
                assert(tail[m] == ls[idx as int + 1 + m]);
            }
            assert(rest =~= tail);
        }
        let next_pos = if le < n {
            le + 1
        } else {
            n
        };
        proof {
            if le >= n {
                assert(lines_from(cs@, n as int) =~= lines_from(cs@, le as int + 1));
            }
        }
        let is_cmt = line.len() > 0 && line[0] == '#';
        if skipping && is_cmt {
            proof {
                assert(is_comment(ls[idx as int]));
                assert(skip_from(ls, idx as int) == skip_from(ls, idx as int + 1));
            }
            idx = idx + 1;
            pos = next_pos;
        } else {
            if skipping {
                skipping = false;
                proof {
                    assert(!is_comment(ls[idx as int]));
                    assert(skip_from(ls, idx as int) == idx as int);
                    k0 = idx as int;
                    match parse_rest(ls, idx as int) {
                        Ok(tail) => {
                            assert(out.deep_view() + tail =~= tail);
                        },
                        Err(p) => {},
                    }
                }
            }
            match parse_line_chars(&line) {
                Ok(w) => {
                    proof {
                        let prev = out.deep_view();
                        match parse_rest(ls, idx as int + 1) {
                            Ok(ws) => {
                                assert(parse_rest(ls, idx as int) == Ok::<
                                    Seq<WordDefView>,
                                    (int, ParseError),
                                >(seq![w@] + ws));
                                assert(prev + (seq![w@] + ws) =~= (prev + seq![w@]) + ws);
                            },
                            Err(p) => {
                                assert(parse_rest(ls, idx as int) == Err::<
                                    Seq<WordDefView>,
                                    (int, ParseError),
                                >(p));
                            },
                        }
                    }
                    let ghost prev = out.deep_view();
                    out.push(w);
                    proof {
                        assert(out.deep_view() =~= prev + seq![w@]);
                    }
                    idx = idx + 1;
                    pos = next_pos;
                },
                Err(e) => {
                    proof {
                        assert(parse_rest(ls, idx as int) == Err::<
                            Seq<WordDefView>,
                            (int, ParseError),
                        >((idx as int, e)));
                    }
                    return Err(ImportError { line: idx, cause: e });
                },
            }
        }
    }
    proof {
        assert(ls.subrange(idx as int, ls.len() as int).len() == 0);
        assert(idx == ls.len());
        if skipping {
            assert(skip_from(ls, idx as int) == idx as int);
            assert(out.deep_view() =~= Seq::<WordDefView>::empty());
        } else {
            match parse_rest(ls, idx as int) {
                Ok(tail) => {
                    assert(out.deep_view() + tail =~= out.deep_view());
                },
                Err(p) => {},
            }
        }
    }
    Ok(out)
}

} // verus!
