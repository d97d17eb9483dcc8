//! Character-level helpers: escaping of quoted strings, decimal numerals
//! and appending to strings.
use vstd::prelude::*;

verus! {

/// `String::push` appends the given character at the end of the string.
pub assume_specification[ String::push ](s: &mut String, ch: char)
    ensures
        final(s)@ == old(s)@.push(ch),
;

/// The escaped form of one character inside a quoted string.
pub open spec fn escape_char(c: char) -> Seq<char> {
    if c == '\\' {
        seq!['\\', '\\']
    } else if c == '"' {
        seq!['\\', '"']
    } else {
        seq![c]
    }
}

/// Every `\` and `"` of `s` preceded by a `\`.
pub open spec fn escape(s: Seq<char>) -> Seq<char>
    decreases s.len(),
{
    if s.len() == 0 {
        Seq::empty()
    } else {
        escape_char(s[0]) + escape(s.skip(1))
    }
}

/// A string literal as written in the functional syntax.
pub open spec fn quoted(s: Seq<char>) -> Seq<char> {
    seq!['"'] + escape(s) + seq!['"']
}

/// The text of a quoted string's body: `\x` stands for `x`.
pub open spec fn unescape(s: Seq<char>) -> Seq<char>
    decreases s.len(),
{
    if s.len() == 0 {
        Seq::empty()
    } else if s[0] == '\\' && s.len() >= 2 {
        seq![s[1]] + unescape(s.skip(2))
    } else {
        seq![s[0]] + unescape(s.skip(1))
    }
}

/// Escaping distributes over concatenation.
pub proof fn lemma_escape_append(a: Seq<char>, b: Seq<char>)
    ensures
        escape(a + b) == escape(a) + escape(b),
    decreases a.len(),
{
    if a.len() == 0 {
        assert(a + b =~= b);
    } else {
        assert((a + b).skip(1) =~= a.skip(1) + b);
        lemma_escape_append(a.skip(1), b);
        assert(escape_char(a[0]) + (escape(a.skip(1)) + escape(b)) =~= (escape_char(a[0]) + escape(
            a.skip(1),
        )) + escape(b));
    }
}

/// Escaping a prefix one character longer appends that character's escape.
pub proof fn lemma_escape_take(s: Seq<char>, i: int)
    requires
        0 <= i < s.len(),
    ensures
        escape(s.take(i + 1)) == escape(s.take(i)) + escape_char(s[i]),
{
    assert(s.take(i + 1) =~= s.take(i) + seq![s[i]]);
    lemma_escape_append(s.take(i), seq![s[i]]);
    assert(seq![s[i]].skip(1) =~= Seq::<char>::empty());
    assert(escape(seq![s[i]]) =~= escape_char(s[i])) by {
        reveal_with_fuel(escape, 2);
    }
}

/// Reading back an escaped text gives the text: a quoted string round-trips.
pub proof fn lemma_unescape_escape(s: Seq<char>)
    ensures
        unescape(escape(s)) == s,
    decreases s.len(),
{
    if s.len() > 0 {
        lemma_unescape_escape(s.skip(1));
        let e = escape(s);
        let c = s[0];
        if c == '\\' || c == '"' {
            assert(e.skip(2) =~= escape(s.skip(1)));
        } else {
            assert(e.skip(1) =~= escape(s.skip(1)));
        }
        assert(s =~= seq![c] + s.skip(1));
    }
}

/// Append the escaped characters of `s` (without the surrounding quotes).
fn push_escaped(s: &str, out: &mut String)
    ensures
        final(out)@ == old(out)@ + escape(s@),
{
    broadcast use vstd::string::group_string_axioms;

    let ghost start = out@;
    let ghost text = s@;
    for c in it: s.chars()
        invariant
            it.seq() == text,
            out@ == start + escape(text.take(it.index() as int)),
    {
        let ghost i = it.index() as int;
        proof {
            lemma_escape_take(text, i);
        }
        if c == '\\' {
            out.push('\\');
            out.push('\\');
        } else if c == '"' {
            out.push('\\');
            out.push('"');
        } else {
            out.push(c);
        }
        assert(out@ =~= start + escape(text.take(i + 1)));
    }
    assert(text.take(text.len() as int) =~= text);
}

/// Write a string literal while escaping `"` and `\` characters.
pub fn quote(s: &str, out: &mut String)
    ensures
        final(out)@ == old(out)@ + quoted(s@),
{
    let ghost start = out@;
    out.push('"');
    push_escaped(s, out);
    out.push('"');
    assert(out@ =~= start + quoted(s@));
}

/// The decimal numeral of a digit value.
pub open spec fn digit_char(d: nat) -> char {
    if d == 0 { '0' } else if d == 1 { '1' } else if d == 2 { '2' } else if d == 3 { '3' }
    else if d == 4 { '4' } else if d == 5 { '5' } else if d == 6 { '6' } else if d == 7 { '7' }
    else if d == 8 { '8' } else { '9' }
}

/// The value of a decimal digit character.
pub open spec fn digit_value(c: char) -> nat {
    if c == '0' { 0 } else if c == '1' { 1 } else if c == '2' { 2 } else if c == '3' { 3 }
    else if c == '4' { 4 } else if c == '5' { 5 } else if c == '6' { 6 } else if c == '7' { 7 }
    else if c == '8' { 8 } else { 9 }
}

/// The shortest decimal numeral of `n`.
pub open spec fn decimal(n: nat) -> Seq<char>
    decreases n,
{
    if n < 10 {
        seq![digit_char(n)]
    } else {
        decimal(n / 10).push(digit_char(n % 10))
    }
}

/// The number that a string of decimal digits stands for.
pub open spec fn digits_value(d: Seq<char>) -> nat
    decreases d.len(),
{
    if d.len() == 0 {
        0
    } else {
        digits_value(d.drop_last()) * 10 + digit_value(d.last())
    }
}

fn digit_to_char(d: u32) -> (c: char)
    requires
        d < 10,
    ensures
        c == digit_char(d as nat),
{
    if d == 0 { '0' } else if d == 1 { '1' } else if d == 2 { '2' } else if d == 3 { '3' }
    else if d == 4 { '4' } else if d == 5 { '5' } else if d == 6 { '6' } else if d == 7 { '7' }
    else if d == 8 { '8' } else { '9' }
}

/// Append the decimal numeral of `n`.
pub fn push_decimal(n: u32, out: &mut String)
    ensures
        final(out)@ == old(out)@ + decimal(n as nat),
    decreases n,
{
    let ghost start = out@;
    if n >= 10 {
        push_decimal(n / 10, out);
    }
    out.push(digit_to_char(n % 10));
    assert(out@ =~= start + decimal(n as nat));
}

} // verus!
