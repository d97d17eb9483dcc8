//! The lexical layer of the functional syntax: white space and comments,
//! names, IRIs, node identifiers, quoted strings, language tags and
//! non-negative integers. Each reading starts at a given character position
//! and, when the token is there, gives its content and the position after it.
use vstd::prelude::*;
use crate::text::{digits_value, unescape};

verus! {

pub open spec fn is_ws(c: char) -> bool {
    c == ' ' || c == '\t' || c == '\n' || c == '\r'
}

pub open spec fn is_letter(c: char) -> bool {
    ('a' <= c && c <= 'z') || ('A' <= c && c <= 'Z')
}

pub open spec fn is_digit(c: char) -> bool {
    '0' <= c && c <= '9'
}

/// Characters that may start a prefix name: letters and non-ASCII characters.
pub open spec fn is_name_start(c: char) -> bool {
    is_letter(c) || (c as u32) >= 128
}

/// Characters that may start a local name or a node identifier.
pub open spec fn is_local_start(c: char) -> bool {
    is_name_start(c) || is_digit(c) || c == '_'
}

/// Characters that may continue a name.
pub open spec fn is_name_char(c: char) -> bool {
    is_local_start(c) || c == '-' || c == '.'
}

/// Characters allowed inside `<` and `>` of a full IRI.
pub open spec fn is_iri_char(c: char) -> bool {
    !(c == '<' || c == '>' || c == '"' || is_ws(c))
}

/// The position of the first line feed at or after `p` (or the end).
pub open spec fn line_end(s: Seq<char>, p: int) -> int
    decreases s.len() - p,
{
    if p < 0 || p >= s.len() || s[p] == '\n' {
        p
    } else {
        line_end(s, p + 1)
    }
}

pub proof fn lemma_line_end(s: Seq<char>, p: int)
    requires
        0 <= p <= s.len(),
    ensures
        p <= line_end(s, p) <= s.len(),
    decreases s.len() - p,
{
    if p < s.len() && s[p] != '\n' {
        lemma_line_end(s, p + 1);
    }
}

/// The position after the white space and comments (`#` up to the end of
/// the line) that start at `p`.
pub open spec fn ws(s: Seq<char>, p: int) -> int
    decreases s.len() - p,
{
    if 0 <= p < s.len() && is_ws(s[p]) {
        ws(s, p + 1)
    } else if 0 <= p < s.len() && s[p] == '#' {
        proof {
            lemma_line_end(s, p + 1);
        }
        ws(s, line_end(s, p + 1))
    } else {
        p
    }
}

pub proof fn lemma_ws(s: Seq<char>, p: int)
    requires
        0 <= p <= s.len(),
    ensures
        p <= ws(s, p) <= s.len(),
    decreases s.len() - p,
{
    if p < s.len() && is_ws(s[p]) {
        lemma_ws(s, p + 1);
    } else if p < s.len() && s[p] == '#' {
        lemma_line_end(s, p + 1);
        lemma_ws(s, line_end(s, p + 1));
    }
}

/// The end of the run of letters that starts at `p`.
pub open spec fn letters_end(s: Seq<char>, p: int) -> int
    decreases s.len() - p,
{
    if 0 <= p < s.len() && is_letter(s[p]) {
        letters_end(s, p + 1)
    } else {
        p
    }
}

/// The end of the run of letters and digits that starts at `p`.
pub open spec fn alnum_end(s: Seq<char>, p: int) -> int
    decreases s.len() - p,
{
    if 0 <= p < s.len() && (is_letter(s[p]) || is_digit(s[p])) {
        alnum_end(s, p + 1)
    } else {
        p
    }
}

/// The end of the run of digits that starts at `p`.
pub open spec fn digits_end(s: Seq<char>, p: int) -> int
    decreases s.len() - p,
{
    if 0 <= p < s.len() && is_digit(s[p]) {
        digits_end(s, p + 1)
    } else {
        p
    }
}

/// The end of the run of name characters that starts at `p`.
pub open spec fn name_end(s: Seq<char>, p: int) -> int
    decreases s.len() - p,
{
    if 0 <= p < s.len() && is_name_char(s[p]) {
        name_end(s, p + 1)
    } else {
        p
    }
}

/// The end of the run of IRI characters that starts at `p`.
pub open spec fn iri_chars_end(s: Seq<char>, p: int) -> int
    decreases s.len() - p,
{
    if 0 <= p < s.len() && is_iri_char(s[p]) {
        iri_chars_end(s, p + 1)
    } else {
        p
    }
}

/// Every run end lies between its start and the end of the input.
pub proof fn lemma_run_ends(s: Seq<char>, p: int)
    requires
        0 <= p <= s.len(),
    ensures
        p <= letters_end(s, p) <= s.len(),
        p <= alnum_end(s, p) <= s.len(),
        p <= digits_end(s, p) <= s.len(),
        p <= name_end(s, p) <= s.len(),
        p <= iri_chars_end(s, p) <= s.len(),
    decreases s.len() - p,
{
    if p < s.len() {
        lemma_run_ends(s, p + 1);
    }
}

/// A full IRI `<...>`: its content and the position after it.
pub open spec fn full_iri(s: Seq<char>, p: int) -> Option<(Seq<char>, int)> {
    if 0 <= p < s.len() && s[p] == '<' {
        let e = iri_chars_end(s, p + 1);
        if e < s.len() && s[e] == '>' {
            Some((s.subrange(p + 1, e), e + 1))
        } else {
            None
        }
    } else {
        None
    }
}

/// An abbreviated IRI `prefix:local`: its prefix (`None` when empty), its
/// local part and the position after it.
pub open spec fn abbreviated_iri(s: Seq<char>, p: int) -> Option<(Option<Seq<char>>, Seq<char>, int)> {
    let c = if 0 <= p < s.len() && is_name_start(s[p]) {
        name_end(s, p + 1)
    } else {
        p
    };
    if 0 <= c && c + 1 < s.len() && s[c] == ':' && is_local_start(s[c + 1]) {
        let e = name_end(s, c + 2);
        Some(
            (
                if c > p {
                    Some(s.subrange(p, c))
                } else {
                    None
                },
                s.subrange(c + 1, e),
                e,
            ),
        )
    } else {
        None
    }
}

/// The namespace part `prefix:` of a prefix declaration: its prefix (`None`
/// when empty) and the position after the colon.
pub open spec fn prefix_name(s: Seq<char>, p: int) -> Option<(Option<Seq<char>>, int)> {
    let c = if 0 <= p < s.len() && is_name_start(s[p]) {
        name_end(s, p + 1)
    } else {
        p
    };
    if 0 <= c < s.len() && s[c] == ':' {
        Some(
            (
                if c > p {
                    Some(s.subrange(p, c))
                } else {
                    None
                },
                c + 1,
            ),
        )
    } else {
        None
    }
}

/// A node identifier `_:name`: the name and the position after it.
pub open spec fn node_id(s: Seq<char>, p: int) -> Option<(Seq<char>, int)> {
    if 0 <= p && p + 2 < s.len() && s[p] == '_' && s[p + 1] == ':' && is_local_start(s[p + 2]) {
        let e = name_end(s, p + 3);
        Some((s.subrange(p + 2, e), e))
    } else {
        None
    }
}

/// The position of the quote that closes a quoted string whose body starts
/// at `p`: in the body, `"` and `\` occur only as `\"` and `\\`.
pub open spec fn quote_close(s: Seq<char>, p: int) -> Option<int>
    decreases s.len() - p,
{
    if p < 0 || p >= s.len() {
        None
    } else if s[p] == '"' {
        Some(p)
    } else if s[p] == '\\' {
        if p + 1 < s.len() && (s[p + 1] == '"' || s[p + 1] == '\\') {
            quote_close(s, p + 2)
        } else {
            None
        }
    } else {
        quote_close(s, p + 1)
    }
}

pub proof fn lemma_quote_close(s: Seq<char>, p: int)
    requires
        0 <= p,
    ensures
        quote_close(s, p) matches Some(q) ==> p <= q < s.len() && s[q] == '"',
    decreases s.len() - p,
{
    if 0 <= p < s.len() && s[p] != '"' {
        if s[p] == '\\' {
            if p + 1 < s.len() && (s[p + 1] == '"' || s[p + 1] == '\\') {
                lemma_quote_close(s, p + 2);
            }
        } else {
            lemma_quote_close(s, p + 1);
        }
    }
}

/// A quoted string: its text (escapes resolved) and the position after it.
pub open spec fn quoted_string(s: Seq<char>, p: int) -> Option<(Seq<char>, int)> {
    if 0 <= p < s.len() && s[p] == '"' {
        match quote_close(s, p + 1) {
            Some(q) => Some((unescape(s.subrange(p + 1, q)), q + 1)),
            None => None,
        }
    } else {
        None
    }
}

/// The end of the subtags `-x` that start at `p`.
pub open spec fn subtags_end(s: Seq<char>, p: int) -> int
    decreases s.len() - p,
{
    if 0 <= p < s.len() && s[p] == '-' && alnum_end(s, p + 1) > p + 1 {
        proof {
            lemma_run_ends(s, p + 1);
        }
        subtags_end(s, alnum_end(s, p + 1))
    } else {
        p
    }
}

pub proof fn lemma_subtags_end(s: Seq<char>, p: int)
    requires
        0 <= p <= s.len(),
    ensures
        p <= subtags_end(s, p) <= s.len(),
    decreases s.len() - p,
{
    if 0 <= p < s.len() && s[p] == '-' && alnum_end(s, p + 1) > p + 1 {
        lemma_run_ends(s, p + 1);
        lemma_subtags_end(s, alnum_end(s, p + 1));
    }
}

/// A language tag `@en-GB`: the tag without `@` and the position after it.
pub open spec fn language_tag(s: Seq<char>, p: int) -> Option<(Seq<char>, int)> {
    if 0 <= p < s.len() && s[p] == '@' && letters_end(s, p + 1) > p + 1 {
        let e = subtags_end(s, letters_end(s, p + 1));
        Some((s.subrange(p + 1, e), e))
    } else {
        None
    }
}

/// A non-negative integer: its value and the position after it.
pub open spec fn integer(s: Seq<char>, p: int) -> Option<(nat, int)> {
    if 0 <= p && digits_end(s, p) > p {
        Some((digits_value(s.subrange(p, digits_end(s, p))), digits_end(s, p)))
    } else {
        None
    }
}

/// The word (run of letters) at `p`, such as a keyword.
pub open spec fn word(s: Seq<char>, p: int) -> Seq<char> {
    s.subrange(p, letters_end(s, p))
}

/// Every token that is read ends after its start, within the input.
pub proof fn lemma_token_bounds(s: Seq<char>, p: int)
    ensures
        full_iri(s, p) matches Some((_, e)) ==> 0 <= p < e <= s.len(),
        abbreviated_iri(s, p) matches Some((_, _, e)) ==> 0 <= p < e <= s.len(),
        prefix_name(s, p) matches Some((_, e)) ==> 0 <= p < e <= s.len(),
        node_id(s, p) matches Some((_, e)) ==> 0 <= p < e <= s.len(),
        quoted_string(s, p) matches Some((_, e)) ==> 0 <= p < e <= s.len(),
        language_tag(s, p) matches Some((_, e)) ==> 0 <= p < e <= s.len(),
        integer(s, p) matches Some((_, e)) ==> 0 <= p < e <= s.len(),
{
    if 0 <= p < s.len() {
        lemma_run_ends(s, p);
        lemma_run_ends(s, p + 1);
        if is_name_start(s[p]) {
            let c = name_end(s, p + 1);
            if c + 1 < s.len() {
                lemma_run_ends(s, c + 2);
            }
        } else if p + 1 < s.len() {
            lemma_run_ends(s, p + 2);
        }
        if p + 2 < s.len() {
            lemma_run_ends(s, p + 3);
        }
        lemma_quote_close(s, p + 1);
        let l = letters_end(s, p + 1);
        lemma_subtags_end(s, l);
    }
}

/// A prefix name is never the reserved name `_`.
pub proof fn lemma_prefix_not_reserved(s: Seq<char>, p: int)
    ensures
        prefix_name(s, p) matches Some((Some(n), _)) ==> n != seq!['_'],
{
    match prefix_name(s, p) {
        Some((Some(n), _)) => {
            assert(n[0] == s[p]);
            assert(is_name_start(s[p]));
        },
        _ => {},
    }
}

} // verus!
