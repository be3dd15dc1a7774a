//! Splitting JSON text into pieces to colour: strings, numbers, words, punctuation.
use vstd::prelude::*;

use crate::text::{chars_of, lines, lines_vec, string_of_range};

verus! {

/// Whether `char::is_numeric` holds of `c`.
pub uninterp spec fn spec_is_numeric(c: char) -> bool;

/// `char::is_numeric` (std); the answer is left to the name `spec_is_numeric`.
#[verifier::external_body]
pub(crate) fn is_numeric(c: char) -> (r: bool)
    ensures
        r == spec_is_numeric(c),
{
    c.is_numeric()
}

/// Whether `char::is_alphabetic` holds of `c`.
pub uninterp spec fn spec_is_alphabetic(c: char) -> bool;

/// `char::is_alphabetic` (std); the answer is left to the name `spec_is_alphabetic`.
#[verifier::external_body]
pub(crate) fn is_alphabetic(c: char) -> (r: bool)
    ensures
        r == spec_is_alphabetic(c),
{
    c.is_alphabetic()
}

/// What a piece of JSON text is, for its colour.
#[derive(Debug, Clone, Copy, PartialEq, Eq, Structural)]
pub enum TokenKind {
    /// A quoted string, quotes included.
    Str,
    Number,
    /// `true` or `false`.
    Bool,
    Null,
    /// Any other run of letters.
    Word,
    /// One of `{}[],:`.
    Punct,
    /// Anything else, one character at a time.
    Plain,
}

/// Where a string that started before `j` ends: after its closing quote, or at the end of
/// the line; a backslash takes the next character with it.
pub open spec fn string_end(s: Seq<char>, j: nat) -> nat
    decreases s.len() - j,
{
    if j >= s.len() {
        s.len()
    } else if s[j as int] == '\\' {
        if j + 1 < s.len() {
            string_end(s, j + 2)
        } else {
            s.len()
        }
    } else if s[j as int] == '"' {
        j + 1
    } else {
        string_end(s, j + 1)
    }
}

/// Where a number that started before `j` ends: after its digits and dots.
pub open spec fn number_end(s: Seq<char>, j: nat) -> nat
    decreases s.len() - j,
{
    if j < s.len() && (spec_is_numeric(s[j as int]) || s[j as int] == '.') {
        number_end(s, j + 1)
    } else {
        if j < s.len() { j } else { s.len() }
    }
}

/// Where a word that started before `j` ends: after its letters.
pub open spec fn word_end(s: Seq<char>, j: nat) -> nat
    decreases s.len() - j,
{
    if j < s.len() && spec_is_alphabetic(s[j as int]) {
        word_end(s, j + 1)
    } else {
        if j < s.len() { j } else { s.len() }
    }
}

/// The kind of a word.
pub open spec fn word_kind(w: Seq<char>) -> TokenKind {
    if w == "true"@ || w == "false"@ {
        TokenKind::Bool
    } else if w == "null"@ {
        TokenKind::Null
    } else {
        TokenKind::Word
    }
}

/// Whether `c` is JSON punctuation.
pub open spec fn is_punct(c: char) -> bool {
    c == '{' || c == '}' || c == '[' || c == ']' || c == ',' || c == ':'
}

/// Where the piece starting at `i` ends, and what it is.
pub open spec fn piece_at(s: Seq<char>, i: nat) -> (nat, TokenKind) {
    let c = s[i as int];
    if c == '"' {
        (string_end(s, i + 1), TokenKind::Str)
    } else if spec_is_numeric(c) || (c == '-' && i + 1 < s.len() && spec_is_numeric(s[i + 1 as int])) {
        (number_end(s, i + 1), TokenKind::Number)
    } else if spec_is_alphabetic(c) {
        let e = word_end(s, i + 1);
        (e, word_kind(s.subrange(i as int, e as int)))
    } else if is_punct(c) {
        (i + 1, TokenKind::Punct)
    } else {
        (i + 1, TokenKind::Plain)
    }
}

proof fn lemma_ends(s: Seq<char>, j: nat)
    ensures
        j <= s.len() ==> j <= string_end(s, j) <= s.len(),
        j <= s.len() ==> j <= number_end(s, j) <= s.len(),
        j <= s.len() ==> j <= word_end(s, j) <= s.len(),
    decreases s.len() - j,
{
    if j < s.len() {
        lemma_ends(s, j + 1);
        if j + 2 <= s.len() {
            lemma_ends(s, j + 2);
        }
    }
}

/// The pieces of a line from position `i` on.
pub open spec fn pieces_from(s: Seq<char>, i: nat) -> Seq<(Seq<char>, TokenKind)>
    decreases s.len() - i,
{
    if i >= s.len() {
        Seq::empty()
    } else {
        let (e, k) = piece_at(s, i);
        if i < e <= s.len() {
            seq![(s.subrange(i as int, e as int), k)] + pieces_from(s, e)
        } else {
            Seq::empty()
        }
    }
}

/// Pieces as plain data.
pub open spec fn pieces_view(v: Seq<(String, TokenKind)>) -> Seq<(Seq<char>, TokenKind)> {
    v.map_values(|p: (String, TokenKind)| (p.0@, p.1))
}

/// Where a string that started before `j` ends: see `string_end`.
fn scan_string(v: &Vec<char>, j: usize) -> (r: usize)
    requires
        j <= v.len(),
    ensures
        r == string_end(v@, j as nat),
{
    let mut k = j;
    while k < v.len()
        invariant
            j <= k <= v.len(),
            string_end(v@, j as nat) == string_end(v@, k as nat),
        decreases v.len() - k,
    {
        if v[k] == '\\' {
            if k + 1 < v.len() {
                k = k + 2;
            } else {
                return v.len();
            }
        } else if v[k] == '"' {
            return k + 1;
        } else {
            k = k + 1;
        }
    }
    v.len()
}

/// The pieces of one line, in order.
pub fn line_pieces(line: &Vec<char>) -> (r: Vec<(String, TokenKind)>)
    ensures
        pieces_view(r@) == pieces_from(line@, 0),
{
    let mut r: Vec<(String, TokenKind)> = Vec::new();
    let mut i: usize = 0;
    while i < line.len()
        invariant
            i <= line.len(),
            pieces_from(line@, 0) == pieces_view(r@) + pieces_from(line@, i as nat),
        decreases line.len() - i,
    {
        proof {
            lemma_ends(line@, (i + 1) as nat);
        }
        let c = line[i];
        let (e, k) = if c == '"' {
            (scan_string(line, i + 1), TokenKind::Str)
        } else if is_numeric(c) || (c == '-' && i + 1 < line.len() && is_numeric(line[i + 1])) {
            let mut e = i + 1;
            while e < line.len() && (is_numeric(line[e]) || line[e] == '.')
                invariant
                    i + 1 <= e <= line.len(),
                    number_end(line@, (i + 1) as nat) == number_end(line@, e as nat),
                decreases line.len() - e,
            {
                e = e + 1;
            }
            (e, TokenKind::Number)
        } else if is_alphabetic(c) {
            let mut e = i + 1;
            while e < line.len() && is_alphabetic(line[e])
                invariant
                    i + 1 <= e <= line.len(),
                    word_end(line@, (i + 1) as nat) == word_end(line@, e as nat),
                decreases line.len() - e,
            {
                e = e + 1;
            }
            let w = string_of_range(line, i, e);
            proof {
                reveal_strlit("true");
                reveal_strlit("false");
                reveal_strlit("null");
            }
            let k = if crate::text::str_eq(w.as_str(), "true") || crate::text::str_eq(w.as_str(), "false") {
                TokenKind::Bool
            } else if crate::text::str_eq(w.as_str(), "null") {
                TokenKind::Null
            } else {
                TokenKind::Word
            };
            (e, k)
        } else if c == '{' || c == '}' || c == '[' || c == ']' || c == ',' || c == ':' {
            (i + 1, TokenKind::Punct)
        } else {
            (i + 1, TokenKind::Plain)
        };
        assert(piece_at(line@, i as nat) == (e as nat, k));
        let piece = string_of_range(line, i, e);
        let ghost r0 = r@;
        r.push((piece, k));
        assert(pieces_view(r@) =~= pieces_view(r0).push((piece@, k)));
        assert(pieces_view(r0) + pieces_from(line@, i as nat) =~= pieces_view(r@) + pieces_from(line@, e as nat));
        i = e;
    }
    assert(pieces_view(r@) + pieces_from(line@, i as nat) =~= pieces_view(r@));
    r
}

/// The pieces of each line of a JSON text (lines as `str::lines` splits them).
pub fn highlight_json(text: &str) -> (r: Vec<Vec<(String, TokenKind)>>)
    ensures
        r@.len() == lines(text@).len(),
        forall|i: int| 0 <= i < r@.len() ==> pieces_view(#[trigger] r@[i]@) == pieces_from(lines(text@)[i], 0),
{
    let v = chars_of(text);
    let ls = lines_vec(&v);
    let mut r: Vec<Vec<(String, TokenKind)>> = Vec::new();
    let mut i: usize = 0;
    while i < ls.len()
        invariant
            i <= ls.len(),
            ls.deep_view() == lines(text@),
            r@.len() == i,
            forall|j: int| 0 <= j < i ==> pieces_view(#[trigger] r@[j]@) == pieces_from(lines(text@)[j], 0),
        decreases ls.len() - i,
    {
        assert(ls.deep_view()[i as int] == ls@[i as int]@);
        r.push(line_pieces(&ls[i]));
        i = i + 1;
    }
    r
}

/// How long ago something happened, from the seconds since then: `just now` under a minute,
/// then whole minutes, hours or days.
pub open spec fn age_text(secs: int) -> Seq<char> {
    if secs < 60 {
        "just now"@
    } else if secs < 3600 {
        crate::text::decimal((secs / 60) as nat) + "m ago"@
    } else if secs < 86400 {
        crate::text::decimal((secs / 3600) as nat) + "h ago"@
    } else {
        crate::text::decimal((secs / 86400) as nat) + "d ago"@
    }
}

/// How long ago something happened: see `age_text`.
pub fn format_age(secs: i64) -> (r: String)
    ensures
        r@ == age_text(secs as int),
{
    let (n, unit) = if secs < 60 {
        return crate::text::copy_str("just now");
    } else if secs < 3600 {
        (secs / 60, "m ago")
    } else if secs < 86400 {
        (secs / 3600, "h ago")
    } else {
        (secs / 86400, "d ago")
    };
    let mut r = String::new();
    crate::text::push_decimal(&mut r, n as u128);
    crate::text::push_str(&mut r, unit);
    r
}

/// The text of a line's pieces, put back together.
pub open spec fn pieces_text(ps: Seq<(Seq<char>, TokenKind)>) -> Seq<char>
    decreases ps.len(),
{
    if ps.len() == 0 {
        Seq::empty()
    } else {
        ps[0].0 + pieces_text(ps.drop_first())
    }
}

/// The pieces from `i` on give back the rest of the line.
proof fn lemma_pieces_from_text(s: Seq<char>, i: nat)
    requires
        i <= s.len(),
    ensures
        pieces_text(pieces_from(s, i)) == s.skip(i as int),
    decreases s.len() - i,
{
    if i >= s.len() {
        assert(s.skip(i as int) =~= Seq::<char>::empty());
    } else {
        lemma_ends(s, i + 1);
        let (e, k) = piece_at(s, i);
        assert(i < e <= s.len());
        lemma_pieces_from_text(s, e);
        let ps = pieces_from(s, i);
        assert(ps.drop_first() =~= pieces_from(s, e));
        assert(s.skip(i as int) =~= s.subrange(i as int, e as int) + s.skip(e as int));
    }
}

/// Highlighting keeps every character: the pieces of a line, put back together, are the line.
pub proof fn law_pieces_cover_line(line: Seq<char>)
    ensures
        pieces_text(pieces_from(line, 0)) == line,
{
    lemma_pieces_from_text(line, 0);
    assert(line.skip(0) =~= line);
}

} // verus!
