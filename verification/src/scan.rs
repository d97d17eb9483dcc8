//! Reading the tokens of [`crate::lexical`] from a character buffer: each
//! function computes what its namesake there describes.
use vstd::prelude::*;
use crate::lexical::{
    abbreviated_iri, alnum_end, digits_end, full_iri, integer, iri_chars_end, is_digit, is_iri_char,
    is_letter, is_local_start, is_name_char, is_name_start, is_ws, language_tag, lemma_subtags_end, letters_end,
    line_end, name_end, node_id, prefix_name, quote_close, quoted_string, subtags_end, ws,
};
use crate::text::{digit_value, digits_value, unescape};

verus! {

/// The characters of a string.
pub fn chars_of(s: &str) -> (r: Vec<char>)
    ensures
        r@ == s@,
{
    broadcast use vstd::string::group_string_axioms;

    let ghost text = s@;
    let mut r: Vec<char> = Vec::new();
    for c in it: s.chars()
        invariant
            it.seq() == text,
            r@ == text.take(it.index() as int),
    {
        r.push(c);
        assert(r@ =~= text.take(it.index() as int + 1));
    }
    assert(text.take(text.len() as int) =~= text);
    r
}

/// The text of the characters from `a` to `b`.
pub fn string_of(s: &Vec<char>, a: usize, b: usize) -> (r: String)
    requires
        a <= b <= s.len(),
    ensures
        r@ == s@.subrange(a as int, b as int),
{
    let mut r = String::new();
    let mut i = a;
    while i < b
        invariant
            a <= i <= b <= s.len(),
            r@ == s@.subrange(a as int, i as int),
        decreases b - i,
    {
        r.push(s[i]);
        assert(r@ =~= s@.subrange(a as int, i as int + 1));
        i = i + 1;
    }
    r
}

/// Whether the characters from `p` to `e` are those of `k`.
pub fn matches_word(s: &Vec<char>, p: usize, e: usize, k: &str) -> (r: bool)
    requires
        p <= e <= s.len(),
    ensures
        r == (s@.subrange(p as int, e as int) == k@),
{
    broadcast use vstd::string::group_string_axioms;

    let ghost text = k@;
    let mut i = p;
    for c in it: k.chars()
        invariant
            it.seq() == text,
            text == k@,
            p <= i <= e <= s.len(),
            i == p + it.index(),
            s@.subrange(p as int, i as int) == text.take(it.index() as int),
    {
        if i >= e || s[i] != c {
            assert(s@.subrange(p as int, e as int) != text) by {
                if s@.subrange(p as int, e as int) == text {
                    assert(s@.subrange(p as int, e as int)[i - p] == s@[i as int]);
                }
            }
            return false;
        }
        assert(s@.subrange(p as int, i as int + 1) =~= text.take(it.index() as int + 1));
        i = i + 1;
    }
    assert(text.take(text.len() as int) =~= text);
    if i == e {
        true
    } else {
        assert(s@.subrange(p as int, e as int).len() != text.len());
        false
    }
}

pub fn is_ws_char(c: char) -> (r: bool)
    ensures
        r == is_ws(c),
{
    c == ' ' || c == '\t' || c == '\n' || c == '\r'
}

pub fn is_letter_char(c: char) -> (r: bool)
    ensures
        r == is_letter(c),
{
    ('a' <= c && c <= 'z') || ('A' <= c && c <= 'Z')
}

pub fn is_digit_char(c: char) -> (r: bool)
    ensures
        r == is_digit(c),
{
    '0' <= c && c <= '9'
}

pub fn is_name_start_char(c: char) -> (r: bool)
    ensures
        r == is_name_start(c),
{
    is_letter_char(c) || (c as u32) >= 128
}

pub fn is_local_start_char(c: char) -> (r: bool)
    ensures
        r == is_local_start(c),
{
    is_name_start_char(c) || is_digit_char(c) || c == '_'
}

pub fn is_name_char_char(c: char) -> (r: bool)
    ensures
        r == is_name_char(c),
{
    is_local_start_char(c) || c == '-' || c == '.'
}

pub fn is_iri_char_char(c: char) -> (r: bool)
    ensures
        r == is_iri_char(c),
{
    !(c == '<' || c == '>' || c == '"' || is_ws_char(c))
}

/// See [`line_end`].
pub fn find_line_end(s: &Vec<char>, p: usize) -> (r: usize)
    requires
        p <= s.len(),
    ensures
        r == line_end(s@, p as int),
        p <= r <= s.len(),
{
    let mut i = p;
    while i < s.len() && s[i] != '\n'
        invariant
            p <= i <= s.len(),
            line_end(s@, i as int) == line_end(s@, p as int),
        decreases s.len() - i,
    {
        i = i + 1;
    }
    i
}

/// See [`ws`].
pub fn skip_ws(s: &Vec<char>, p: usize) -> (r: usize)
    requires
        p <= s.len(),
    ensures
        r == ws(s@, p as int),
        p <= r <= s.len(),
{
    let mut i = p;
    while i < s.len() && (is_ws_char(s[i]) || s[i] == '#')
        invariant
            p <= i <= s.len(),
            ws(s@, i as int) == ws(s@, p as int),
        decreases s.len() - i,
    {
        if is_ws_char(s[i]) {
            i = i + 1;
        } else {
            let j = find_line_end(s, i + 1);
            i = j;
        }
    }
    i
}

/// See [`letters_end`].
pub fn find_letters_end(s: &Vec<char>, p: usize) -> (r: usize)
    requires
        p <= s.len(),
    ensures
        r == letters_end(s@, p as int),
        p <= r <= s.len(),
{
    let mut i = p;
    while i < s.len() && is_letter_char(s[i])
        invariant
            p <= i <= s.len(),
            letters_end(s@, i as int) == letters_end(s@, p as int),
        decreases s.len() - i,
    {
        i = i + 1;
    }
    i
}

/// See [`alnum_end`].
pub fn find_alnum_end(s: &Vec<char>, p: usize) -> (r: usize)
    requires
        p <= s.len(),
    ensures
        r == alnum_end(s@, p as int),
        p <= r <= s.len(),
{
    let mut i = p;
    while i < s.len() && (is_letter_char(s[i]) || is_digit_char(s[i]))
        invariant
            p <= i <= s.len(),
            alnum_end(s@, i as int) == alnum_end(s@, p as int),
        decreases s.len() - i,
    {
        i = i + 1;
    }
    i
}

/// See [`digits_end`].
pub fn find_digits_end(s: &Vec<char>, p: usize) -> (r: usize)
    requires
        p <= s.len(),
    ensures
        r == digits_end(s@, p as int),
        p <= r <= s.len(),
{
    let mut i = p;
    while i < s.len() && is_digit_char(s[i])
        invariant
            p <= i <= s.len(),
            digits_end(s@, i as int) == digits_end(s@, p as int),
        decreases s.len() - i,
    {
        i = i + 1;
    }
    i
}

/// See [`name_end`].
pub fn find_name_end(s: &Vec<char>, p: usize) -> (r: usize)
    requires
        p <= s.len(),
    ensures
        r == name_end(s@, p as int),
        p <= r <= s.len(),
{
    let mut i = p;
    while i < s.len() && is_name_char_char(s[i])
        invariant
            p <= i <= s.len(),
            name_end(s@, i as int) == name_end(s@, p as int),
        decreases s.len() - i,
    {
        i = i + 1;
    }
    i
}

/// See [`iri_chars_end`].
pub fn find_iri_chars_end(s: &Vec<char>, p: usize) -> (r: usize)
    requires
        p <= s.len(),
    ensures
        r == iri_chars_end(s@, p as int),
        p <= r <= s.len(),
{
    let mut i = p;
    while i < s.len() && is_iri_char_char(s[i])
        invariant
            p <= i <= s.len(),
            iri_chars_end(s@, i as int) == iri_chars_end(s@, p as int),
        decreases s.len() - i,
    {
        i = i + 1;
    }
    i
}

/// The text of an optional string.
pub open spec fn opt_text(o: Option<String>) -> Option<Seq<char>> {
    match o {
        Some(t) => Some(t@),
        None => None,
    }
}

/// See [`full_iri`].
pub fn read_full_iri(s: &Vec<char>, p: usize) -> (r: Option<(String, usize)>)
    requires
        p <= s.len(),
    ensures
        match r {
            None => full_iri(s@, p as int) is None,
            Some((t, e)) => full_iri(s@, p as int) == Some((t@, e as int)),
        },
{
    if p < s.len() && s[p] == '<' {
        let e = find_iri_chars_end(s, p + 1);
        if e < s.len() && s[e] == '>' {
            Some((string_of(s, p + 1, e), e + 1))
        } else {
            None
        }
    } else {
        None
    }
}

/// See [`abbreviated_iri`].
pub fn read_abbreviated_iri(s: &Vec<char>, p: usize) -> (r: Option<(Option<String>, String, usize)>)
    requires
        p <= s.len(),
    ensures
        match r {
            None => abbreviated_iri(s@, p as int) is None,
            Some((pre, local, e)) => abbreviated_iri(s@, p as int) == Some(
                (opt_text(pre), local@, e as int),
            ),
        },
{
    let c = if p < s.len() && is_name_start_char(s[p]) {
        find_name_end(s, p + 1)
    } else {
        p
    };
    if c < s.len() && c + 1 < s.len() && s[c] == ':' && is_local_start_char(s[c + 1]) {
        let e = find_name_end(s, c + 2);
        let pre = if c > p {
            Some(string_of(s, p, c))
        } else {
            None
        };
        Some((pre, string_of(s, c + 1, e), e))
    } else {
        None
    }
}

/// See [`prefix_name`].
pub fn read_prefix_name(s: &Vec<char>, p: usize) -> (r: Option<(Option<String>, usize)>)
    requires
        p <= s.len(),
    ensures
        match r {
            None => prefix_name(s@, p as int) is None,
            Some((pre, e)) => prefix_name(s@, p as int) == Some((opt_text(pre), e as int)),
        },
{
    let c = if p < s.len() && is_name_start_char(s[p]) {
        find_name_end(s, p + 1)
    } else {
        p
    };
    if c < s.len() && s[c] == ':' {
        let pre = if c > p {
            Some(string_of(s, p, c))
        } else {
            None
        };
        Some((pre, c + 1))
    } else {
        None
    }
}

/// See [`node_id`].
pub fn read_node_id(s: &Vec<char>, p: usize) -> (r: Option<(String, usize)>)
    requires
        p <= s.len(),
    ensures
        match r {
            None => node_id(s@, p as int) is None,
            Some((t, e)) => node_id(s@, p as int) == Some((t@, e as int)),
        },
{
    if p < s.len() && p + 1 < s.len() && p + 2 < s.len() && s[p] == '_' && s[p + 1] == ':' && is_local_start_char(s[p + 2]) {
        let e = find_name_end(s, p + 3);
        Some((string_of(s, p + 2, e), e))
    } else {
        None
    }
}

/// See [`quote_close`].
pub fn find_quote_close(s: &Vec<char>, p: usize) -> (r: Option<usize>)
    requires
        p <= s.len(),
    ensures
        match r {
            None => quote_close(s@, p as int) is None,
            Some(q) => quote_close(s@, p as int) == Some(q as int) && p <= q < s.len(),
        },
{
    let mut i = p;
    while i < s.len() && s[i] != '"'
        invariant
            p <= i <= s.len(),
            quote_close(s@, i as int) == quote_close(s@, p as int),
        decreases s.len() - i,
    {
        if s[i] == '\\' {
            if i + 1 < s.len() && (s[i + 1] == '"' || s[i + 1] == '\\') {
                i = i + 2;
            } else {
                return None;
            }
        } else {
            i = i + 1;
        }
    }
    if i < s.len() {
        Some(i)
    } else {
        None
    }
}

/// The text of a quoted string's body from `a` to `b` (see [`unescape`]).
pub fn unescape_range(s: &Vec<char>, a: usize, b: usize) -> (r: String)
    requires
        a <= b <= s.len(),
    ensures
        r@ == unescape(s@.subrange(a as int, b as int)),
{
    let mut out = String::new();
    let mut j = a;
    while j < b
        invariant
            a <= j <= b <= s.len(),
            out@ + unescape(s@.subrange(j as int, b as int)) == unescape(s@.subrange(a as int, b as int)),
        decreases b - j,
    {
        let ghost rest = s@.subrange(j as int, b as int);
        let ghost before = out@;
        if s[j] == '\\' && j + 1 < b {
            assert(rest.skip(2) =~= s@.subrange(j as int + 2, b as int));
            out.push(s[j + 1]);
            assert(before + unescape(rest) =~= out@ + unescape(s@.subrange(j as int + 2, b as int)));
            j = j + 2;
        } else {
            assert(rest.skip(1) =~= s@.subrange(j as int + 1, b as int));
            out.push(s[j]);
            assert(before + unescape(rest) =~= out@ + unescape(s@.subrange(j as int + 1, b as int)));
            j = j + 1;
        }
    }
    assert(s@.subrange(b as int, b as int) =~= Seq::<char>::empty());
    assert(out@ + unescape(Seq::<char>::empty()) =~= out@);
    out
}

/// See [`quoted_string`].
pub fn read_quoted_string(s: &Vec<char>, p: usize) -> (r: Option<(String, usize)>)
    requires
        p <= s.len(),
    ensures
        match r {
            None => quoted_string(s@, p as int) is None,
            Some((t, e)) => quoted_string(s@, p as int) == Some((t@, e as int)),
        },
{
    if p < s.len() && s[p] == '"' {
        match find_quote_close(s, p + 1) {
            Some(q) => Some((unescape_range(s, p + 1, q), q + 1)),
            None => None,
        }
    } else {
        None
    }
}

/// See [`subtags_end`].
pub fn find_subtags_end(s: &Vec<char>, p: usize) -> (r: usize)
    requires
        p <= s.len(),
    ensures
        r == subtags_end(s@, p as int),
{
    let mut i = p;
    loop
        invariant
            p <= i <= s.len(),
            subtags_end(s@, i as int) == subtags_end(s@, p as int),
        ensures
            i == subtags_end(s@, p as int),
        decreases s.len() - i,
    {
        if i < s.len() && s[i] == '-' {
            let a = find_alnum_end(s, i + 1);
            if a > i + 1 {
                i = a;
            } else {
                break;
            }
        } else {
            break;
        }
    }
    i
}

/// See [`language_tag`].
pub fn read_language_tag(s: &Vec<char>, p: usize) -> (r: Option<(String, usize)>)
    requires
        p <= s.len(),
    ensures
        match r {
            None => language_tag(s@, p as int) is None,
            Some((t, e)) => language_tag(s@, p as int) == Some((t@, e as int)),
        },
{
    if p < s.len() && s[p] == '@' {
        let l = find_letters_end(s, p + 1);
        if l > p + 1 {
            let e = find_subtags_end(s, l);
            proof {
                lemma_subtags_end(s@, l as int);
            }
            Some((string_of(s, p + 1, e), e))
        } else {
            None
        }
    } else {
        None
    }
}

fn digit_of(c: char) -> (r: u64)
    ensures
        r == digit_value(c),
{
    if c == '0' { 0 } else if c == '1' { 1 } else if c == '2' { 2 } else if c == '3' { 3 }
    else if c == '4' { 4 } else if c == '5' { 5 } else if c == '6' { 6 } else if c == '7' { 7 }
    else if c == '8' { 8 } else { 9 }
}

/// See [`integer`]: the value, when it fits in 32 bits, and the position
/// after the digits.
pub fn read_integer(s: &Vec<char>, p: usize) -> (r: Option<(Option<u32>, usize)>)
    requires
        p <= s.len(),
    ensures
        match r {
            None => integer(s@, p as int) is None,
            Some((v, e)) => integer(s@, p as int) matches Some((n, f)) && f == e && match v {
                Some(x) => n == x,
                None => n > u32::MAX,
            },
        },
{
    let e = find_digits_end(s, p);
    if e == p {
        return None;
    }
    let mut v: u64 = 0;
    let mut big = false;
    let mut i = p;
    while i < e
        invariant
            p <= i <= e <= s.len(),
            !big ==> v == digits_value(s@.subrange(p as int, i as int)) && v <= u32::MAX,
            big ==> digits_value(s@.subrange(p as int, i as int)) > u32::MAX,
        decreases e - i,
    {
        let d = digit_of(s[i]);
        assert(s@.subrange(p as int, i as int + 1).drop_last() =~= s@.subrange(p as int, i as int));
        if !big {
            let nv = v * 10 + d;
            if nv > 0xffff_ffff {
                big = true;
            } else {
                v = nv;
            }
        }
        i = i + 1;
    }
    if big {
        Some((None, e))
    } else {
        Some((Some(v as u32), e))
    }
}

} // verus!
