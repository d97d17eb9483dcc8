//! What reading gives back of what writing wrote: the written form of an
//! element, read back, is the element.
use vstd::prelude::*;
use crate::grammar::{
    Px, at_least, ce_data_cardinality, ce_data_quantified, ce_nary, ce_object_cardinality, ce_parts,
    ce_quantified, close_at, expansion, lift_read, open_at, r_cardinality, r_ce, r_datatype_suffix, r_dr,
    r_facet_restriction, r_individual, r_iri, r_literal, r_ope, star, then, whole,
};
use crate::lexical::{
    alnum_end, is_digit, is_iri_char, is_letter, is_local_start, is_name_char, is_name_start, iri_chars_end,
    integer, language_tag, letters_end, name_end, node_id, quote_close, word,
    quoted_string, subtags_end, ws,
};
use crate::model::{
    SpecClassExpression, SpecDataRange, SpecIndividual, SpecLiteral, SpecObjectPropertyExpression,
};
use crate::rendering::{
    join, w_ce, w_ce_list, w_dr, w_dr_list, w_facet_restriction, w_facet_restrictions, w_individual, w_individuals,
    w_iri, w_literal, w_literals, w_node_id, w_ope,
};
use crate::model::{Facet, SpecFacetRestriction};
use crate::vocab::facet_iri_text;
use crate::text::{
    decimal, digit_char, digit_value, digits_value, escape, escape_char, lemma_unescape_escape, quoted,
};

verus! {

// ---------------------------------------------------------------------------
// Runs of characters
// ---------------------------------------------------------------------------

/// Every character of `t` may stand inside `<` and `>`.
pub open spec fn iri_text(t: Seq<char>) -> bool {
    forall|k: int| 0 <= k < t.len() ==> is_iri_char(#[trigger] t[k])
}

/// A well-formed language tag: `@` and the tag are read as a whole.
pub open spec fn language_tag_text(lang: Seq<char>) -> bool {
    language_tag(seq!['@'] + lang, 0) == Some((lang, lang.len() + 1int))
}

/// A run of IRI characters from `p` ends where the first other character
/// stands.
pub proof fn lemma_iri_run(s: Seq<char>, p: int, e: int)
    requires
        0 <= p <= e <= s.len(),
        forall|k: int| p <= k < e ==> is_iri_char(#[trigger] s[k]),
        e == s.len() || !is_iri_char(s[e]),
    ensures
        iri_chars_end(s, p) == e,
    decreases e - p,
{
    if p < e {
        lemma_iri_run(s, p + 1, e);
    }
}

/// Letters after a prefix are counted from the prefix's end.
pub proof fn lemma_letters_shift(a: Seq<char>, b: Seq<char>, k: int)
    requires
        0 <= k <= b.len(),
    ensures
        letters_end(a + b, a.len() + k) == a.len() + letters_end(b, k),
    decreases b.len() - k,
{
    if k < b.len() {
        assert((a + b)[a.len() + k] == b[k]);
        lemma_letters_shift(a, b, k + 1);
    }
}

/// Letters and digits after a prefix are counted from the prefix's end.
pub proof fn lemma_alnum_shift(a: Seq<char>, b: Seq<char>, k: int)
    requires
        0 <= k <= b.len(),
    ensures
        alnum_end(a + b, a.len() + k) == a.len() + alnum_end(b, k),
    decreases b.len() - k,
{
    if k < b.len() {
        assert((a + b)[a.len() + k] == b[k]);
        lemma_alnum_shift(a, b, k + 1);
    }
}

/// Subtags after a prefix are counted from the prefix's end.
pub proof fn lemma_subtags_shift(a: Seq<char>, b: Seq<char>, k: int)
    requires
        0 <= k <= b.len(),
    ensures
        subtags_end(a + b, a.len() + k) == a.len() + subtags_end(b, k),
    decreases b.len() - k,
{
    if k < b.len() {
        assert((a + b)[a.len() + k] == b[k]);
        if k + 1 <= b.len() {
            lemma_alnum_shift(a, b, k + 1);
        }
        if b[k] == '-' && alnum_end(b, k + 1) > k + 1 {
            crate::lexical::lemma_run_ends(b, k + 1);
            lemma_subtags_shift(a, b, alnum_end(b, k + 1));
        }
    }
}

/// A language tag after a prefix is read as it is read alone.
#[verifier::spinoff_prover]
#[verifier::rlimit(40)]
pub proof fn lemma_language_tag_shift(a: Seq<char>, lang: Seq<char>)
    requires
        language_tag_text(lang),
    ensures
        language_tag(a + (seq!['@'] + lang), a.len() as int) == Some((lang, a.len() + lang.len() + 1int)),
{
    let b = seq!['@'] + lang;
    let s = a + b;
    assert(s[a.len() as int] == '@');
    lemma_letters_shift(a, b, 1);
    let l = letters_end(b, 1);
    crate::lexical::lemma_run_ends(b, 1);
    lemma_subtags_shift(a, b, l);
    let e = subtags_end(b, l);
    assert(s.subrange(a.len() as int + 1, a.len() as int + e) =~= b.subrange(1, e));
}

// ---------------------------------------------------------------------------
// IRIs
// ---------------------------------------------------------------------------

/// The written form of an IRI without prefixes, read after any text `a`
/// and followed by any text `c`, is the IRI.
#[verifier::spinoff_prover]
#[verifier::rlimit(40)]
pub proof fn lemma_read_written_iri(a: Seq<char>, i: Seq<char>, c: Seq<char>, px: Px)
    requires
        iri_text(i),
    ensures
        r_iri(a + w_iri(i, None) + c, a.len() as int, px) == Some(
            (Ok::<Seq<char>, crate::error::SpecError>(i), a.len() + i.len() + 2int),
        ),
{
    let s = a + w_iri(i, None) + c;
    let p = a.len() as int;
    assert(s[p] == '<');
    assert forall|k: int| p + 1 <= k < p + 1 + i.len() implies is_iri_char(#[trigger] s[k]) by {
        assert(s[k] == i[k - p - 1]);
    }
    assert(s[p + 1 + i.len()] == '>');
    lemma_iri_run(s, p + 1, p + 1 + i.len());
    assert(s.subrange(p + 1, p + 1 + i.len()) =~= i);
}

/// Reading the written form of an IRI without prefixes gives the IRI back,
/// whatever the prefixes used to read it.
pub proof fn iri_round_trip(i: Seq<char>, px: Px)
    requires
        iri_text(i),
    ensures
        whole(w_iri(i, None), r_iri(w_iri(i, None), 0, px)) == Ok::<Seq<char>, crate::error::SpecError>(i),
{
    lemma_read_written_iri(Seq::empty(), i, Seq::empty(), px);
    assert(Seq::<char>::empty() + w_iri(i, None) + Seq::<char>::empty() =~= w_iri(i, None));
}

// ---------------------------------------------------------------------------
// Literals
// ---------------------------------------------------------------------------

/// In a quoted string, the quote that follows the escaped text closes it.
#[verifier::spinoff_prover]
#[verifier::rlimit(40)]
pub proof fn lemma_quote_close_escaped(s: Seq<char>, p: int, t: Seq<char>)
    requires
        0 <= p,
        p + escape(t).len() < s.len(),
        s.subrange(p, p + escape(t).len()) == escape(t),
        s[p + escape(t).len()] == '"',
    ensures
        quote_close(s, p) == Some(p + escape(t).len()),
    decreases t.len(),
{
    if t.len() > 0 {
        let e = escape(t);
        let first = escape_char(t[0]);
        assert(e == first + escape(t.skip(1)));
        assert(s[p] == e[0]);
        let n = first.len() as int;
        assert(s.subrange(p + n, p + n + escape(t.skip(1)).len()) =~= escape(t.skip(1))) by {
            assert forall|k: int| 0 <= k < escape(t.skip(1)).len() implies s.subrange(
                p + n,
                p + n + escape(t.skip(1)).len(),
            )[k] == escape(t.skip(1))[k] by {
                assert(s.subrange(p, p + e.len())[n + k] == e[n + k]);
            }
        }
        if t[0] == '\\' || t[0] == '"' {
            assert(s[p + 1] == e[1]);
        }
        lemma_quote_close_escaped(s, p + n, t.skip(1));
    } else {
        assert(s[p] == '"');
    }
}

/// The written form of a string, read after any text `a` and followed by
/// any text `c`, is the string.
pub proof fn lemma_read_quoted(a: Seq<char>, t: Seq<char>, c: Seq<char>)
    ensures
        quoted_string(a + quoted(t) + c, a.len() as int) == Some((t, a.len() + quoted(t).len() + 0int)),
{
    let s = a + quoted(t) + c;
    let p = a.len() as int;
    let e = escape(t);
    assert(s[p] == '"');
    assert(s.subrange(p + 1, p + 1 + e.len()) =~= e);
    assert(s[p + 1 + e.len()] == '"');
    lemma_quote_close_escaped(s, p + 1, t);
    lemma_unescape_escape(t);
}

/// Reading the written form of a literal gives the literal back, whatever
/// the prefixes used to read it, when its language tag is well formed and
/// its datatype IRI is written without prefixes.
#[verifier::spinoff_prover]
#[verifier::rlimit(40)]
pub proof fn literal_round_trip(l: SpecLiteral, px: Px)
    requires
        l matches SpecLiteral::Language { lang, .. } ==> language_tag_text(lang),
        l matches SpecLiteral::Datatype { datatype_iri, .. } ==> iri_text(datatype_iri),
    ensures
        whole(w_literal(l, None), r_literal(w_literal(l, None), 0, px)) == Ok::<
            SpecLiteral,
            crate::error::SpecError,
        >(l),
{
    let s = w_literal(l, None);
    match l {
        SpecLiteral::Simple { literal } => {
            lemma_read_quoted(Seq::empty(), literal, Seq::empty());
            assert(Seq::<char>::empty() + quoted(literal) + Seq::<char>::empty() =~= s);
            let q = quoted(literal).len() as int;
            assert(ws(s, q) == q);
            assert(r_datatype_suffix(s, q, px) is None);
        },
        SpecLiteral::Language { literal, lang } => {
            let tail = seq!['@'] + lang;
            lemma_read_quoted(Seq::empty(), literal, tail);
            assert(Seq::<char>::empty() + quoted(literal) + tail =~= s);
            let q = quoted(literal).len() as int;
            assert(s[q] == '@');
            assert(ws(s, q) == q);
            assert(r_datatype_suffix(s, q, px) is None);
            lemma_language_tag_shift(quoted(literal), lang);
            assert(quoted(literal) + tail =~= s);
        },
        SpecLiteral::Datatype { literal, datatype_iri } => {
            let tail = "^^"@ + w_iri(datatype_iri, None);
            lemma_read_quoted(Seq::empty(), literal, tail);
            assert(Seq::<char>::empty() + quoted(literal) + tail =~= s);
            let q = quoted(literal).len() as int;
            reveal_strlit("^^");
            assert(s[q] == '^');
            assert(s[q + 1] == '^');
            assert(ws(s, q) == q);
            assert(ws(s, q + 2) == q + 2) by {
                assert(s[q + 2] == '<');
            }
            lemma_read_written_iri(quoted(literal) + "^^"@, datatype_iri, Seq::empty(), px);
            assert(quoted(literal) + "^^"@ + w_iri(datatype_iri, None) + Seq::<char>::empty() =~= s);
        },
    }
}

// ---------------------------------------------------------------------------
// Abbreviated IRIs
// ---------------------------------------------------------------------------

/// A run of name characters from `p` ends where the first other character
/// stands.
pub proof fn lemma_name_run(s: Seq<char>, p: int, e: int)
    requires
        0 <= p <= e <= s.len(),
        forall|k: int| p <= k < e ==> is_name_char(#[trigger] s[k]),
        e == s.len() || !is_name_char(s[e]),
    ensures
        name_end(s, p) == e,
    decreases e - p,
{
    if p < e {
        lemma_name_run(s, p + 1, e);
    }
}

/// A prefix name: a name start, then name characters.
pub open spec fn prefix_text(t: Seq<char>) -> bool {
    &&& t.len() > 0
    &&& is_name_start(t[0])
    &&& forall|k: int| 0 <= k < t.len() ==> is_name_char(#[trigger] t[k])
}

/// A local name: a local start, then name characters.
pub open spec fn local_text(t: Seq<char>) -> bool {
    &&& t.len() > 0
    &&& is_local_start(t[0])
    &&& forall|k: int| 0 <= k < t.len() ==> is_name_char(#[trigger] t[k])
}

/// An abbreviated IRI `name:local` (or `:local` when `name` is `None`) is
/// read as what the prefixes expand it to: the IRI declared for the prefix
/// followed by the local name; an undeclared prefix, or no prefixes at all,
/// is an expansion error.
#[verifier::spinoff_prover]
#[verifier::rlimit(40)]
pub proof fn abbreviated_iri_expansion(name: Option<Seq<char>>, local: Seq<char>, px: Px)
    requires
        name matches Some(n) ==> prefix_text(n),
        local_text(local),
    ensures
        ({
            let t = match name {
                Some(n) => n + seq![':'] + local,
                None => seq![':'] + local,
            };
            whole(t, r_iri(t, 0, px)) == expansion(px, name, local)
        }),
{
    match name {
        Some(n) => {
            let t = n + seq![':'] + local;
            assert(t[0] == n[0]);
            assert forall|k: int| 1 <= k < n.len() implies is_name_char(#[trigger] t[k]) by {
                assert(t[k] == n[k]);
            }
            assert(t[n.len() as int] == ':');
            lemma_name_run(t, 1, n.len() as int);
            assert(t[n.len() as int + 1] == local[0]);
            assert forall|k: int| n.len() + 2 <= k < t.len() implies is_name_char(#[trigger] t[k]) by {
                assert(t[k] == local[k - n.len() - 1]);
            }
            lemma_name_run(t, n.len() as int + 2, t.len() as int);
            assert(t.subrange(0, n.len() as int) =~= n);
            assert(t.subrange(n.len() as int + 1, t.len() as int) =~= local);
        },
        None => {
            let t = seq![':'] + local;
            assert(t[1] == local[0]);
            assert forall|k: int| 2 <= k < t.len() implies is_name_char(#[trigger] t[k]) by {
                assert(t[k] == local[k - 1]);
            }
            lemma_name_run(t, 2, t.len() as int);
            assert(t.subrange(1, t.len() as int) =~= local);
        },
    }
}

// ---------------------------------------------------------------------------
// Keywords
// ---------------------------------------------------------------------------

/// A keyword: a nonempty run of letters.
pub open spec fn keyword(k: Seq<char>) -> bool {
    k.len() > 0 && letters_end(k, 0) == k.len()
}

/// The characters of a keyword are letters.
pub proof fn lemma_keyword_letters(k: Seq<char>, i: int)
    requires
        0 <= i <= k.len(),
        letters_end(k, i) == k.len(),
    ensures
        forall|j: int| i <= j < k.len() ==> is_letter(#[trigger] k[j]),
    decreases k.len() - i,
{
    if i < k.len() {
        lemma_keyword_letters(k, i + 1);
    }
}

/// A run of letters from `p` ends where the first other character stands.
pub proof fn lemma_letter_run(s: Seq<char>, p: int, e: int)
    requires
        0 <= p <= e <= s.len(),
        forall|k: int| p <= k < e ==> is_letter(#[trigger] s[k]),
        e == s.len() || !is_letter(s[e]),
    ensures
        letters_end(s, p) == e,
    decreases e - p,
{
    if p < e {
        lemma_letter_run(s, p + 1, e);
    }
}

/// A keyword followed by `(`, after any text `a`: its word ends at the
/// parenthesis, and no IRI, blank node, literal or number starts there.
pub proof fn lemma_keyword_at(a: Seq<char>, k: Seq<char>, b: Seq<char>, px: Px)
    requires
        keyword(k),
        b.len() > 0,
        b[0] == '(',
    ensures
        ({
            let s = a + k + b;
            let p = a.len() as int;
            &&& letters_end(s, p) == p + k.len()
            &&& word(s, p) == k
            &&& open_at(s, p + k.len()) == Some(p + k.len() + 1)
            &&& r_iri(s, p, px) is None
            &&& node_id(s, p) is None
            &&& quoted_string(s, p) is None
            &&& integer(s, p) is None
            &&& close_at(s, p) is None
        }),
{
    let s = a + k + b;
    let p = a.len() as int;
    let e = p + k.len();
    lemma_keyword_letters(k, 0);
    assert forall|j: int| p <= j < e implies is_letter(#[trigger] s[j]) by {
        assert(s[j] == k[j - p]);
    }
    assert(s[e] == '(');
    lemma_letter_run(s, p, e);
    assert(s.subrange(p, e) =~= k);
    assert(s[p] == k[0]);
    assert(is_letter(k[0]));
    assert forall|j: int| p + 1 <= j < e implies is_name_char(#[trigger] s[j]) by {
        assert(s[j] == k[j - p]);
        assert(is_letter(k[j - p]));
    }
    lemma_name_run(s, p + 1, e);
    assert(crate::lexical::digits_end(s, p) == p);
}

/// The keywords of the written forms, and what distinguishes them.
pub proof fn lemma_keywords()
    ensures
        keyword("DataIntersectionOf"@),
        keyword("DataUnionOf"@),
        keyword("DataComplementOf"@),
        "DataIntersectionOf("@ == "DataIntersectionOf"@ + seq!['('],
        "DataUnionOf("@ == "DataUnionOf"@ + seq!['('],
        "DataComplementOf("@ == "DataComplementOf"@ + seq!['('],
        "DataUnionOf"@ != "DataIntersectionOf"@,
        "DataComplementOf"@ != "DataIntersectionOf"@,
        "DataComplementOf"@ != "DataUnionOf"@,
{
    reveal_strlit("DataIntersectionOf");
    reveal_strlit("DataUnionOf");
    reveal_strlit("DataComplementOf");
    reveal_strlit("DataIntersectionOf(");
    reveal_strlit("DataUnionOf(");
    reveal_strlit("DataComplementOf(");
    reveal_with_fuel(letters_end, 20);
    assert("DataIntersectionOf("@ =~= "DataIntersectionOf"@ + seq!['(']);
    assert("DataUnionOf("@ =~= "DataUnionOf"@ + seq!['(']);
    assert("DataComplementOf("@ =~= "DataComplementOf"@ + seq!['(']);
    assert("DataUnionOf"@[4] != "DataIntersectionOf"@[4]);
    assert("DataComplementOf"@[4] != "DataIntersectionOf"@[4]);
    assert("DataComplementOf"@[4] != "DataUnionOf"@[4]);
}

// ---------------------------------------------------------------------------
// Data ranges
// ---------------------------------------------------------------------------

/// A data range whose written form reads back as itself: a datatype whose
/// IRI is made of IRI characters, an intersection or union of two or more
/// such data ranges, the complement of one, an enumeration of one or more
/// literals that read back as themselves, or a restriction of such a
/// datatype by one or more facets whose literals do.
pub open spec fn dr_rt(d: SpecDataRange) -> bool
    decreases d,
{
    match d {
        SpecDataRange::Datatype(i) => iri_text(i),
        SpecDataRange::DataIntersectionOf(v) => v.len() >= 2 && dr_rt_list(v),
        SpecDataRange::DataUnionOf(v) => v.len() >= 2 && dr_rt_list(v),
        SpecDataRange::DataComplementOf(b) => dr_rt(*b),
        SpecDataRange::DataOneOf(v) => v.len() >= 1 && forall|k: int|
            0 <= k < v.len() ==> literal_rt(#[trigger] v[k]),
        SpecDataRange::DatatypeRestriction(i, v) => iri_text(i) && v.len() >= 1 && forall|k: int|
            0 <= k < v.len() ==> literal_rt(#[trigger] v[k].l),
        _ => false,
    }
}

/// Every data range of `v` reads back as itself.
pub open spec fn dr_rt_list(v: Seq<SpecDataRange>) -> bool
    decreases v,
{
    if v.len() == 0 {
        true
    } else {
        dr_rt(v[0]) && dr_rt_list(v.subrange(1, v.len() as int))
    }
}

/// A list of data ranges, written, is its first data range, a space and
/// the written rest.
pub proof fn lemma_dr_list_front(v: Seq<SpecDataRange>, px: Px)
    requires
        v.len() >= 2,
    ensures
        w_dr_list(v, px) == w_dr(v[0], px) + seq![' '] + w_dr_list(v.subrange(1, v.len() as int), px),
    decreases v.len(),
{
    let rest = v.subrange(1, v.len() as int);
    assert(w_dr_list(v, px) == w_dr_list(v.drop_last(), px) + seq![' '] + w_dr(v.last(), px));
    if v.len() == 2 {
        assert(w_dr_list(v.drop_last(), px) == w_dr(v[0], px));
        assert(w_dr_list(rest, px) == w_dr(v[1], px));
    } else {
        lemma_dr_list_front(v.drop_last(), px);
        assert(rest.drop_last() =~= v.drop_last().subrange(1, v.len() - 1));
        assert(rest.last() == v.last());
        assert(w_dr_list(rest, px) == w_dr_list(rest.drop_last(), px) + seq![' '] + w_dr(rest.last(), px));
        assert(w_dr_list(v, px) =~= w_dr(v[0], px) + seq![' '] + w_dr_list(rest, px));
    }
}

/// The written form of a data range starts with a character that is
/// neither white space nor a comment sign.
pub proof fn lemma_dr_start(d: SpecDataRange)
    requires
        dr_rt(d),
    ensures
        w_dr(d, None).len() > 0,
        !crate::lexical::is_ws(w_dr(d, None)[0]),
        w_dr(d, None)[0] != '#',
        w_dr(d, None)[0] != 'A',
{
    reveal_strlit("DataIntersectionOf(");
    reveal_strlit("DataUnionOf(");
    reveal_strlit("DataComplementOf(");
    reveal_strlit("DataOneOf(");
    reveal_strlit("DatatypeRestriction(");
}

/// Nothing is read where `)` stands.
pub proof fn lemma_nothing_at_close(s: Seq<char>, p: int, px: Px)
    requires
        0 <= p < s.len(),
        s[p] == ')',
    ensures
        r_dr(s, p, px) is None,
        crate::grammar::r_ce(s, p, px) is None,
        ws(s, p) == p,
{
    assert(letters_end(s, p) == p);
    assert(crate::lexical::name_end(s, p + 1) >= p + 1) by {
        if p + 1 <= s.len() {
            crate::lexical::lemma_run_ends(s, p + 1);
        }
    }
}

/// The written form of a literal starts with its opening quote.
pub proof fn lemma_literal_opens(l: SpecLiteral)
    ensures
        w_literal(l, None).len() > 0,
        w_literal(l, None)[0] == '"',
{
}

/// The written forms of one or more literals that read back as themselves,
/// joined and followed by `)`, are read as the literals, from any position
/// `p` after which white space leads to them.
#[verifier::spinoff_prover]
#[verifier::rlimit(80)]
pub proof fn lemma_read_written_literals(s: Seq<char>, start: int, v: Seq<SpecLiteral>, px: Px, p: int)
    requires
        v.len() >= 1,
        forall|k: int| 0 <= k < v.len() ==> literal_rt(#[trigger] v[k]),
        0 <= p <= start,
        start + w_literals(v, None).len() < s.len(),
        s.subrange(start, start + w_literals(v, None).len()) == w_literals(v, None),
        s[start + w_literals(v, None).len()] == ')',
        ws(s, p) == start,
    ensures
        star(s, p, |t: int| r_literal(s, t, px)) == (
            Ok::<Seq<SpecLiteral>, crate::error::SpecError>(v),
            v.len(),
            start + w_literals(v, None).len(),
        ),
    decreases v.len(),
{
    let items = v.map_values(|l: SpecLiteral| w_literal(l, None));
    let w = w_literals(v, None);
    let w0 = w_literal(v[0], None);
    let a = s.subrange(0, start);
    assert(items[0] == w0);
    lemma_literal_opens(v[0]);
    if v.len() == 1 {
        assert(w == w0);
        let b = s.subrange(start + w0.len(), s.len() as int);
        assert forall|j: int| start <= j < start + w0.len() implies #[trigger] s[j] == w0[j - start] by {
            assert(s.subrange(start, start + w.len())[j - start] == w[j - start]);
        }
        assert(s =~= a + w0 + b);
        assert(b[0] == ')');
        lemma_read_written_literal(a, v[0], b, px);
        let e = start + w0.len();
        assert(s[e] == ')');
        assert(ws(s, e) == e);
        assert(quoted_string(s, e) is None);
        assert(r_literal(s, e, px) is None);
        assert(star(s, e, |t: int| r_literal(s, t, px)) == (
            Ok::<Seq<SpecLiteral>, crate::error::SpecError>(Seq::empty()),
            0nat,
            e,
        ));
        assert(seq![v[0]] + Seq::<SpecLiteral>::empty() =~= v);
    } else {
        let rest = v.subrange(1, v.len() as int);
        lemma_join_front(items);
        assert(items.subrange(1, items.len() as int) =~= rest.map_values(|l: SpecLiteral| w_literal(l, None)));
        let wr = w_literals(rest, None);
        assert(w == w0 + seq![' '] + wr);
        let b = s.subrange(start + w0.len(), s.len() as int);
        assert forall|j: int| start <= j < start + w.len() implies #[trigger] s[j] == w[j - start] by {
            assert(s.subrange(start, start + w.len())[j - start] == w[j - start]);
        }
        assert forall|j: int| start <= j < start + w0.len() implies #[trigger] s[j] == w0[j - start] by {
            assert(w[j - start] == w0[j - start]);
        }
        assert(s =~= a + w0 + b);
        let e = start + w0.len();
        assert(s[start + w0.len()] == w[w0.len() as int]);
        assert(s[e] == ' ');
        assert forall|k: int| 0 <= k < wr.len() implies #[trigger] s.subrange(e + 1, e + 1 + wr.len())[k] == wr[k] by {
            assert(s[e + 1 + k] == w[w0.len() + 1 + k]);
        }
        assert(s.subrange(e + 1, e + 1 + wr.len()) =~= wr);
        assert(s[e + 1] == wr[0]);
        assert(rest[0] == v[1]);
        lemma_literal_opens(rest[0]);
        assert(wr[0] == '"') by {
            lemma_join_front_start(rest.map_values(|l: SpecLiteral| w_literal(l, None)));
        }
        assert(b[0] == ' ');
        assert(b[1] == s[e + 1]);
        lemma_read_written_literal(a, v[0], b, px);
        assert(ws(s, e + 1) == e + 1);
        assert(ws(s, e) == e + 1);
        lemma_read_written_literals(s, e + 1, rest, px, e);
        assert(seq![v[0]] + rest =~= v);
    }
}

/// See [`lemma_read_written_dr`]: enumerations of literals.
#[verifier::spinoff_prover]
#[verifier::rlimit(40)]
pub proof fn lemma_read_written_dr_one_of(a: Seq<char>, v: Seq<SpecLiteral>, b: Seq<char>, px: Px)
    requires
        v.len() >= 1,
        forall|k: int| 0 <= k < v.len() ==> literal_rt(#[trigger] v[k]),
    ensures
        ({
            let d = SpecDataRange::DataOneOf(v);
            r_dr(a + w_dr(d, None) + b, a.len() as int, px) == Some(
                (Ok::<SpecDataRange, crate::error::SpecError>(d), a.len() + w_dr(d, None).len() + 0int),
            )
        }),
{
    let d = SpecDataRange::DataOneOf(v);
    let s = a + w_dr(d, None) + b;
    let k = "DataOneOf"@;
    reveal_strlit("DataOneOf");
    reveal_strlit("DataOneOf(");
    reveal_strlit("DataIntersectionOf");
    reveal_strlit("DataUnionOf");
    reveal_strlit("DataComplementOf");
    assert("DataOneOf("@ =~= k + seq!['(']);
    assert(keyword(k)) by {
        reveal_with_fuel(letters_end, 12);
    }
    assert(k.len() != "DataIntersectionOf"@.len());
    assert(k.len() != "DataUnionOf"@.len());
    assert(k.len() != "DataComplementOf"@.len());
    let w = w_literals(v, None);
    assert(s =~= a + k + (seq!['('] + w + seq![')'] + b));
    lemma_keyword_at(a, k, seq!['('] + w + seq![')'] + b, px);
    let a2 = a + k + seq!['('];
    assert(s =~= a2 + w + (seq![')'] + b));
    let q = a2.len() as int;
    assert(s.subrange(q, q + w.len()) =~= w);
    assert(s[q + w.len()] == ')');
    let items = v.map_values(|l: SpecLiteral| w_literal(l, None));
    assert(items[0] == w_literal(v[0], None));
    lemma_literal_opens(v[0]);
    lemma_join_front_start(items);
    assert(s[q] == w[0]);
    assert(ws(s, q) == q);
    lemma_read_written_literals(s, q, v, px, q);
    let e = q + w.len();
    assert(ws(s, e) == e);
}

/// The IRI of a facet is made of IRI characters.
#[verifier::spinoff_prover]
#[verifier::rlimit(100)]
pub proof fn lemma_facet_iri_text(f: Facet)
    ensures
        iri_text(facet_iri_text(f)),
{
    reveal_strlit("http://www.w3.org/2001/XMLSchema#length");
    reveal_strlit("http://www.w3.org/2001/XMLSchema#minLength");
    reveal_strlit("http://www.w3.org/2001/XMLSchema#maxLength");
    reveal_strlit("http://www.w3.org/2001/XMLSchema#pattern");
    reveal_strlit("http://www.w3.org/2001/XMLSchema#minInclusive");
    reveal_strlit("http://www.w3.org/2001/XMLSchema#minExclusive");
    reveal_strlit("http://www.w3.org/2001/XMLSchema#maxInclusive");
    reveal_strlit("http://www.w3.org/2001/XMLSchema#maxExclusive");
    reveal_strlit("http://www.w3.org/2001/XMLSchema#totalDigits");
    reveal_strlit("http://www.w3.org/2001/XMLSchema#fractionDigits");
    reveal_strlit("http://www.w3.org/1999/02/22-rdf-syntax-ns#langRange");
}

/// The written form of a facet restriction whose literal reads back as
/// itself, read after any text `a` and followed by a closing text, is the
/// restriction.
#[verifier::spinoff_prover]
#[verifier::rlimit(60)]
pub proof fn lemma_read_written_facet_restriction(a: Seq<char>, r: SpecFacetRestriction, b: Seq<char>, px: Px)
    requires
        literal_rt(r.l),
        closing(b),
    ensures
        r_facet_restriction(a + w_facet_restriction(r, None) + b, a.len() as int, px) == Some(
            (
                Ok::<SpecFacetRestriction, crate::error::SpecError>(r),
                a.len() + w_facet_restriction(r, None).len() + 0int,
            ),
        ),
{
    let t = facet_iri_text(r.f);
    let wf = w_iri(t, None);
    let wl = w_literal(r.l, None);
    let s = a + w_facet_restriction(r, None) + b;
    assert(w_facet_restriction(r, None) == wf + seq![' '] + wl);
    lemma_facet_iri_text(r.f);
    crate::reading_laws::facet_lookup(t, r.f);
    assert(s =~= a + wf + (seq![' '] + wl + b));
    lemma_read_written_iri(a, t, seq![' '] + wl + b, px);
    let e1 = a.len() + wf.len() + 0int;
    let a1 = a + wf + seq![' '];
    assert(s =~= a1 + wl + b);
    lemma_literal_opens(r.l);
    assert(s[e1] == ' ');
    assert(s[e1 + 1] == '"');
    assert(ws(s, e1 + 1) == e1 + 1);
    assert(ws(s, e1) == e1 + 1);
    lemma_read_written_literal(a1, r.l, b, px);
}

/// The written forms of one or more facet restrictions whose literals read
/// back as themselves, joined and followed by `)`, are read as the
/// restrictions, from any position `p` after which white space leads to
/// them.
#[verifier::spinoff_prover]
#[verifier::rlimit(80)]
pub proof fn lemma_read_written_facet_restrictions(
    s: Seq<char>,
    start: int,
    v: Seq<SpecFacetRestriction>,
    px: Px,
    p: int,
)
    requires
        v.len() >= 1,
        forall|k: int| 0 <= k < v.len() ==> literal_rt(#[trigger] v[k].l),
        0 <= p <= start,
        start + w_facet_restrictions(v, None).len() < s.len(),
        s.subrange(start, start + w_facet_restrictions(v, None).len()) == w_facet_restrictions(v, None),
        s[start + w_facet_restrictions(v, None).len()] == ')',
        ws(s, p) == start,
    ensures
        star(s, p, |t: int| r_facet_restriction(s, t, px)) == (
            Ok::<Seq<SpecFacetRestriction>, crate::error::SpecError>(v),
            v.len(),
            start + w_facet_restrictions(v, None).len(),
        ),
    decreases v.len(),
{
    let items = v.map_values(|r: SpecFacetRestriction| w_facet_restriction(r, None));
    let w = w_facet_restrictions(v, None);
    let w0 = w_facet_restriction(v[0], None);
    let a = s.subrange(0, start);
    assert(items[0] == w0);
    assert(w0[0] == '<');
    if v.len() == 1 {
        assert(w == w0);
        let b = s.subrange(start + w0.len(), s.len() as int);
        assert forall|j: int| start <= j < start + w0.len() implies #[trigger] s[j] == w0[j - start] by {
            assert(s.subrange(start, start + w.len())[j - start] == w[j - start]);
        }
        assert(s =~= a + w0 + b);
        assert(b[0] == ')');
        lemma_read_written_facet_restriction(a, v[0], b, px);
        let e = start + w0.len();
        assert(s[e] == ')');
        assert(ws(s, e) == e);
        crate::grammar::lemma_leaf_bounds(s, e, px);
        assert(crate::lexical::full_iri(s, e) is None);
        assert(crate::lexical::abbreviated_iri(s, e) is None);
        assert(r_facet_restriction(s, e, px) is None);
        assert(star(s, e, |t: int| r_facet_restriction(s, t, px)) == (
            Ok::<Seq<SpecFacetRestriction>, crate::error::SpecError>(Seq::empty()),
            0nat,
            e,
        ));
        assert(seq![v[0]] + Seq::<SpecFacetRestriction>::empty() =~= v);
    } else {
        let rest = v.subrange(1, v.len() as int);
        lemma_join_front(items);
        assert(items.subrange(1, items.len() as int) =~= rest.map_values(
            |r: SpecFacetRestriction| w_facet_restriction(r, None),
        ));
        let wr = w_facet_restrictions(rest, None);
        assert(w == w0 + seq![' '] + wr);
        let b = s.subrange(start + w0.len(), s.len() as int);
        assert forall|j: int| start <= j < start + w.len() implies #[trigger] s[j] == w[j - start] by {
            assert(s.subrange(start, start + w.len())[j - start] == w[j - start]);
        }
        assert forall|j: int| start <= j < start + w0.len() implies #[trigger] s[j] == w0[j - start] by {
            assert(w[j - start] == w0[j - start]);
        }
        assert(s =~= a + w0 + b);
        let e = start + w0.len();
        assert(s[start + w0.len()] == w[w0.len() as int]);
        assert(s[e] == ' ');
        assert forall|k: int| 0 <= k < wr.len() implies #[trigger] s.subrange(e + 1, e + 1 + wr.len())[k] == wr[k] by {
            assert(s[e + 1 + k] == w[w0.len() + 1 + k]);
        }
        assert(s.subrange(e + 1, e + 1 + wr.len()) =~= wr);
        assert(s[e + 1] == wr[0]);
        assert(rest[0] == v[1]);
        assert(w_facet_restriction(rest[0], None)[0] == '<');
        assert(wr[0] == '<') by {
            lemma_join_front_start(rest.map_values(|r: SpecFacetRestriction| w_facet_restriction(r, None)));
        }
        assert(b[0] == ' ');
        assert(b[1] == s[e + 1]);
        lemma_read_written_facet_restriction(a, v[0], b, px);
        assert(ws(s, e + 1) == e + 1);
        assert(ws(s, e) == e + 1);
        assert forall|k: int| 0 <= k < rest.len() implies literal_rt(#[trigger] rest[k].l) by {
            assert(rest[k] == v[k + 1]);
        }
        lemma_read_written_facet_restrictions(s, e + 1, rest, px, e);
        assert(seq![v[0]] + rest =~= v);
    }
}

/// See [`lemma_read_written_dr`]: datatype restrictions.
#[verifier::spinoff_prover]
#[verifier::rlimit(60)]
pub proof fn lemma_read_written_dr_restriction(
    a: Seq<char>,
    i: Seq<char>,
    v: Seq<SpecFacetRestriction>,
    b: Seq<char>,
    px: Px,
)
    requires
        iri_text(i),
        v.len() >= 1,
        forall|k: int| 0 <= k < v.len() ==> literal_rt(#[trigger] v[k].l),
    ensures
        ({
            let d = SpecDataRange::DatatypeRestriction(i, v);
            r_dr(a + w_dr(d, None) + b, a.len() as int, px) == Some(
                (Ok::<SpecDataRange, crate::error::SpecError>(d), a.len() + w_dr(d, None).len() + 0int),
            )
        }),
{
    let d = SpecDataRange::DatatypeRestriction(i, v);
    let s = a + w_dr(d, None) + b;
    let k = "DatatypeRestriction"@;
    reveal_strlit("DatatypeRestriction");
    reveal_strlit("DatatypeRestriction(");
    reveal_strlit("DataIntersectionOf");
    reveal_strlit("DataUnionOf");
    reveal_strlit("DataComplementOf");
    reveal_strlit("DataOneOf");
    assert("DatatypeRestriction("@ =~= k + seq!['(']);
    assert(keyword(k)) by {
        reveal_with_fuel(letters_end, 22);
    }
    assert(k.len() != "DataIntersectionOf"@.len());
    assert(k.len() != "DataUnionOf"@.len());
    assert(k.len() != "DataComplementOf"@.len());
    assert(k.len() != "DataOneOf"@.len());
    let wi = w_iri(i, None);
    let w = w_facet_restrictions(v, None);
    assert(s =~= a + k + (seq!['('] + wi + seq![' '] + w + seq![')'] + b));
    lemma_keyword_at(a, k, seq!['('] + wi + seq![' '] + w + seq![')'] + b, px);
    let a1 = a + k + seq!['('];
    assert(s =~= a1 + wi + (seq![' '] + w + seq![')'] + b));
    let q = a1.len() as int;
    assert(s[q] == '<');
    assert(ws(s, q) == q);
    lemma_read_written_iri(a1, i, seq![' '] + w + seq![')'] + b, px);
    let e1 = q + wi.len();
    let a2 = a1 + wi + seq![' '];
    assert(s =~= a2 + w + (seq![')'] + b));
    let st = a2.len() as int;
    assert(s.subrange(st, st + w.len()) =~= w);
    assert(s[st + w.len()] == ')');
    let items = v.map_values(|r: SpecFacetRestriction| w_facet_restriction(r, None));
    assert(items[0] == w_facet_restriction(v[0], None));
    assert(w_facet_restriction(v[0], None)[0] == '<');
    lemma_join_front_start(items);
    assert(s[e1] == ' ');
    assert(s[st] == '<');
    assert(ws(s, st) == st);
    assert(ws(s, e1) == st);
    lemma_read_written_facet_restrictions(s, st, v, px, e1);
    let e = st + w.len();
    assert(ws(s, e) == e);
}

/// The written form of a data range that reads back as itself, read after
/// any text `a` and followed by any text `b`, is the data range.
pub proof fn lemma_read_written_dr(a: Seq<char>, d: SpecDataRange, b: Seq<char>, px: Px)
    requires
        dr_rt(d),
    ensures
        r_dr(a + w_dr(d, None) + b, a.len() as int, px) == Some(
            (Ok::<SpecDataRange, crate::error::SpecError>(d), a.len() + w_dr(d, None).len() + 0int),
        ),
    decreases d, 3int,
{
    match d {
        SpecDataRange::Datatype(i) => {
            lemma_read_written_iri(a, i, b, px);
        },
        SpecDataRange::DataIntersectionOf(v) => lemma_read_written_dr_nary(a, d, b, px),
        SpecDataRange::DataUnionOf(v) => lemma_read_written_dr_nary(a, d, b, px),
        SpecDataRange::DataComplementOf(x) => lemma_read_written_dr_complement(a, d, b, px),
        SpecDataRange::DataOneOf(v) => lemma_read_written_dr_one_of(a, v, b, px),
        SpecDataRange::DatatypeRestriction(i, v) => lemma_read_written_dr_restriction(a, i, v, b, px),
    }
}

/// See [`lemma_read_written_dr`]: intersections and unions.
#[verifier::spinoff_prover]
#[verifier::rlimit(60)]
pub proof fn lemma_read_written_dr_nary(a: Seq<char>, d: SpecDataRange, b: Seq<char>, px: Px)
    requires
        dr_rt(d),
        d is DataIntersectionOf || d is DataUnionOf,
    ensures
        r_dr(a + w_dr(d, None) + b, a.len() as int, px) == Some(
            (Ok::<SpecDataRange, crate::error::SpecError>(d), a.len() + w_dr(d, None).len() + 0int),
        ),
    decreases d, 2int,
{
    lemma_keywords();
    let s = a + w_dr(d, None) + b;
    let (k, kp, v) = match d {
        SpecDataRange::DataIntersectionOf(v) => ("DataIntersectionOf"@, "DataIntersectionOf("@, v),
        SpecDataRange::DataUnionOf(v) => ("DataUnionOf"@, "DataUnionOf("@, v),
        _ => (Seq::empty(), Seq::empty(), Seq::empty()),
    };
    let a2 = a + kp;
    let b2 = seq![')'] + b;
    assert(s =~= a + k + (seq!['('] + w_dr_list(v, None) + b2));
    lemma_keyword_at(a, k, seq!['('] + w_dr_list(v, None) + b2, px);
    assert(s =~= a2 + w_dr_list(v, None) + b2);
    lemma_dr_list_start(v);
    lemma_read_written_dr_list(a2, v, b2, px, a2.len() as int);
    let e = a2.len() + w_dr_list(v, None).len() + 0int;
    assert(s[e] == ')');
    assert(ws(s, e) == e);
}

/// See [`lemma_read_written_dr`]: complements.
#[verifier::spinoff_prover]
#[verifier::rlimit(60)]
pub proof fn lemma_read_written_dr_complement(a: Seq<char>, d: SpecDataRange, b: Seq<char>, px: Px)
    requires
        dr_rt(d),
        d is DataComplementOf,
    ensures
        r_dr(a + w_dr(d, None) + b, a.len() as int, px) == Some(
            (Ok::<SpecDataRange, crate::error::SpecError>(d), a.len() + w_dr(d, None).len() + 0int),
        ),
    decreases d, 2int,
{
    lemma_keywords();
    let s = a + w_dr(d, None) + b;
    let x = match d {
        SpecDataRange::DataComplementOf(x) => *x,
        _ => d,
    };
    let k = "DataComplementOf"@;
    let a2 = a + "DataComplementOf("@;
    let b2 = seq![')'] + b;
    assert(s =~= a + k + (seq!['('] + w_dr(x, None) + b2));
    lemma_keyword_at(a, k, seq!['('] + w_dr(x, None) + b2, px);
    assert(s =~= a2 + w_dr(x, None) + b2);
    lemma_dr_start(x);
    lemma_read_written_dr(a2, x, b2, px);
    assert(ws(s, a2.len() as int) == a2.len());
    let e = a2.len() + w_dr(x, None).len() + 0int;
    assert(s[e] == ')');
    assert(ws(s, e) == e);
}

/// The written form of a nonempty list of data ranges starts as that of
/// its first data range.
pub proof fn lemma_dr_list_start(v: Seq<SpecDataRange>)
    requires
        v.len() >= 1,
        dr_rt_list(v),
    ensures
        w_dr_list(v, None).len() > 0,
        w_dr_list(v, None)[0] == w_dr(v[0], None)[0],
        !crate::lexical::is_ws(w_dr_list(v, None)[0]),
        w_dr_list(v, None)[0] != '#',
{
    lemma_dr_start(v[0]);
    if v.len() >= 2 {
        lemma_dr_list_front(v, None);
    }
}

/// The written form of a nonempty list of data ranges that read back as
/// themselves, followed by `)`, is read as the list, from any position `p`
/// after which white space leads to it.
#[verifier::spinoff_prover]
#[verifier::rlimit(60)]
pub proof fn lemma_read_written_dr_list(a: Seq<char>, v: Seq<SpecDataRange>, b: Seq<char>, px: Px, p: int)
    requires
        v.len() >= 1,
        dr_rt_list(v),
        b.len() > 0,
        b[0] == ')',
        0 <= p <= a.len(),
        ws(a + w_dr_list(v, None) + b, p) == a.len(),
    ensures
        crate::grammar::r_dr_seq(a + w_dr_list(v, None) + b, p, px) == (
            Ok::<Seq<SpecDataRange>, crate::error::SpecError>(v),
            v.len(),
            a.len() + w_dr_list(v, None).len() + 0int,
        ),
    decreases v, 1int,
{
    let s = a + w_dr_list(v, None) + b;
    let w0 = w_dr(v[0], None);
    lemma_dr_start(v[0]);
    let e = a.len() + w0.len() + 0int;
    if v.len() == 1 {
        assert(w_dr_list(v, None) == w0);
        assert(s =~= a + w0 + b);
        lemma_read_written_dr(a, v[0], b, px);
        assert(s[e] == ')');
        lemma_nothing_at_close(s, e, px);
        assert(crate::grammar::r_dr_seq(s, e, px) == (
            Ok::<Seq<SpecDataRange>, crate::error::SpecError>(Seq::empty()),
            0nat,
            e,
        ));
        assert(seq![v[0]] + Seq::<SpecDataRange>::empty() =~= v);
    } else {
        let rest = v.subrange(1, v.len() as int);
        lemma_dr_list_front(v, None);
        let b1 = seq![' '] + w_dr_list(rest, None) + b;
        assert(s =~= a + w0 + b1);
        lemma_read_written_dr(a, v[0], b1, px);
        let a2 = a + w0 + seq![' '];
        assert(s =~= a2 + w_dr_list(rest, None) + b);
        lemma_dr_list_start(rest);
        assert(s[e] == ' ');
        assert(s[e + 1] == w_dr_list(rest, None)[0]);
        assert(ws(s, e + 1) == e + 1);
        assert(ws(s, e) == e + 1);
        lemma_read_written_dr_list(a2, rest, b, px, e);
        assert(seq![v[0]] + rest =~= v);
    }
}

/// Reading the written form of a data range that reads back as itself
/// gives the data range back, whatever the prefixes used to read it.
pub proof fn data_range_round_trip(d: SpecDataRange, px: Px)
    requires
        dr_rt(d),
    ensures
        whole(w_dr(d, None), r_dr(w_dr(d, None), 0, px)) == Ok::<SpecDataRange, crate::error::SpecError>(d),
{
    lemma_read_written_dr(Seq::empty(), d, Seq::empty(), px);
    assert(Seq::<char>::empty() + w_dr(d, None) + Seq::<char>::empty() =~= w_dr(d, None));
}

// ---------------------------------------------------------------------------
// Continuations
// ---------------------------------------------------------------------------

/// A text that can follow a written element: nothing, a closing
/// parenthesis first, or a space and the quote that opens a literal or the
/// bracket that opens an IRI.
pub open spec fn closing(b: Seq<char>) -> bool {
    ||| b.len() == 0
    ||| b[0] == ')'
    ||| b.len() >= 2 && b[0] == ' ' && (b[1] == '"' || b[1] == '<')
}

/// A run of letters that ends inside `x` or at its end, where a closing
/// text follows, ends at the same place once the text follows.
pub proof fn lemma_letters_extend(x: Seq<char>, b: Seq<char>, k: int)
    requires
        0 <= k <= x.len(),
        closing(b),
    ensures
        letters_end(x + b, k) == letters_end(x, k),
    decreases x.len() - k,
{
    if k < x.len() {
        assert((x + b)[k] == x[k]);
        lemma_letters_extend(x, b, k + 1);
    } else if b.len() > 0 {
        assert((x + b)[k] == b[0]);
    }
}

/// See [`lemma_letters_extend`], for letters and digits.
pub proof fn lemma_alnum_extend(x: Seq<char>, b: Seq<char>, k: int)
    requires
        0 <= k <= x.len(),
        closing(b),
    ensures
        alnum_end(x + b, k) == alnum_end(x, k),
    decreases x.len() - k,
{
    if k < x.len() {
        assert((x + b)[k] == x[k]);
        lemma_alnum_extend(x, b, k + 1);
    } else if b.len() > 0 {
        assert((x + b)[k] == b[0]);
    }
}

/// See [`lemma_letters_extend`], for subtags.
pub proof fn lemma_subtags_extend(x: Seq<char>, b: Seq<char>, k: int)
    requires
        0 <= k <= x.len(),
        closing(b),
    ensures
        subtags_end(x + b, k) == subtags_end(x, k),
    decreases x.len() - k,
{
    if k < x.len() {
        assert((x + b)[k] == x[k]);
        if k + 1 <= x.len() {
            lemma_alnum_extend(x, b, k + 1);
        }
        if x[k] == '-' && alnum_end(x, k + 1) > k + 1 {
            crate::lexical::lemma_run_ends(x, k + 1);
            lemma_subtags_extend(x, b, alnum_end(x, k + 1));
        }
    } else if b.len() > 0 {
        assert((x + b)[k] == b[0]);
    }
}

/// A well-formed language tag followed by a closing text is read as it is
/// read alone.
pub proof fn lemma_language_tag_extend(lang: Seq<char>, b: Seq<char>)
    requires
        language_tag_text(lang),
        closing(b),
    ensures
        language_tag(seq!['@'] + lang + b, 0) == Some((lang, lang.len() + 1int)),
{
    let x = seq!['@'] + lang;
    lemma_letters_extend(x, b, 1);
    crate::lexical::lemma_run_ends(x, 1);
    lemma_subtags_extend(x, b, letters_end(x, 1));
    assert((x + b)[0] == '@');
    crate::lexical::lemma_subtags_end(x, letters_end(x, 1));
    assert((x + b).subrange(1, lang.len() + 1int) =~= x.subrange(1, lang.len() + 1int));
}

// ---------------------------------------------------------------------------
// Literals, object properties, individuals and numbers in context
// ---------------------------------------------------------------------------

/// A literal whose written form reads back as itself: its language tag is
/// well formed, its datatype IRI is made of IRI characters.
pub open spec fn literal_rt(l: SpecLiteral) -> bool {
    match l {
        SpecLiteral::Simple { .. } => true,
        SpecLiteral::Language { lang, .. } => language_tag_text(lang),
        SpecLiteral::Datatype { datatype_iri, .. } => iri_text(datatype_iri),
    }
}

/// The written form of a literal, read after any text `a` and followed by
/// a closing text, is the literal.
#[verifier::spinoff_prover]
#[verifier::rlimit(60)]
pub proof fn lemma_read_written_literal(a: Seq<char>, l: SpecLiteral, b: Seq<char>, px: Px)
    requires
        literal_rt(l),
        closing(b),
    ensures
        r_literal(a + w_literal(l, None) + b, a.len() as int, px) == Some(
            (Ok::<SpecLiteral, crate::error::SpecError>(l), a.len() + w_literal(l, None).len() + 0int),
        ),
{
    let s = a + w_literal(l, None) + b;
    let p = a.len() as int;
    match l {
        SpecLiteral::Simple { literal } => {
            lemma_read_quoted(a, literal, b);
            let q = p + quoted(literal).len();
            if b.len() > 0 && b[0] == ')' {
                assert(s[q] == ')');
                assert(ws(s, q) == q);
            } else if b.len() > 0 {
                assert(s[q] == ' ');
                assert(s[q + 1] == b[1]);
                assert(ws(s, q + 1) == q + 1);
                assert(ws(s, q) == q + 1);
            } else {
                assert(ws(s, q) == q);
            }
            assert(r_datatype_suffix(s, q, px) is None);
        },
        SpecLiteral::Language { literal, lang } => {
            let tail = seq!['@'] + lang;
            lemma_read_quoted(a, literal, tail + b);
            assert(s =~= a + quoted(literal) + (tail + b));
            let q = p + quoted(literal).len();
            assert(s[q] == '@');
            assert(ws(s, q) == q);
            assert(r_datatype_suffix(s, q, px) is None);
            lemma_language_tag_extend(lang, b);
            let pre = a + quoted(literal);
            assert(s =~= pre + (tail + b));
            crate::round_trip::lemma_language_tag_shift_general(pre, tail + b, lang);
        },
        SpecLiteral::Datatype { literal, datatype_iri } => {
            let tail = "^^"@ + w_iri(datatype_iri, None);
            lemma_read_quoted(a, literal, tail + b);
            assert(s =~= a + quoted(literal) + (tail + b));
            let q = p + quoted(literal).len();
            reveal_strlit("^^");
            assert(s[q] == '^');
            assert(s[q + 1] == '^');
            assert(ws(s, q) == q);
            assert(s[q + 2] == '<');
            assert(ws(s, q + 2) == q + 2);
            lemma_read_written_iri(a + quoted(literal) + "^^"@, datatype_iri, b, px);
            assert(a + quoted(literal) + "^^"@ + w_iri(datatype_iri, None) + b =~= s);
        },
    }
}

/// A language tag read at the start of a text, read after any text `a`.
pub proof fn lemma_language_tag_shift_general(a: Seq<char>, t: Seq<char>, lang: Seq<char>)
    requires
        language_tag(t, 0) == Some((lang, lang.len() + 1int)),
    ensures
        language_tag(a + t, a.len() as int) == Some((lang, a.len() + lang.len() + 1int)),
{
    let s = a + t;
    crate::lexical::lemma_token_bounds(t, 0);
    assert(s[a.len() as int] == t[0]);
    lemma_letters_shift(a, t, 1);
    crate::lexical::lemma_run_ends(t, 1);
    lemma_subtags_shift(a, t, letters_end(t, 1));
    assert(s.subrange(a.len() + 1int, a.len() + lang.len() + 1int) =~= t.subrange(1, lang.len() + 1int));
}

/// An object property expression whose written form reads back as itself.
pub open spec fn ope_rt(o: SpecObjectPropertyExpression) -> bool {
    match o {
        SpecObjectPropertyExpression::ObjectProperty(i) => iri_text(i),
        SpecObjectPropertyExpression::InverseObjectProperty(i) => iri_text(i),
    }
}

/// A node identifier that reads back as itself: a name that starts as a
/// local name does.
pub open spec fn node_text(id: Seq<char>) -> bool {
    &&& id.len() > 0
    &&& is_local_start(id[0])
    &&& forall|k: int| 0 <= k < id.len() ==> is_name_char(#[trigger] id[k])
}

/// The written form of a blank node whose identifier reads back as itself,
/// read after any text `a` and followed by what cannot continue a name, is
/// the identifier.
pub proof fn lemma_read_written_node_id(a: Seq<char>, id: Seq<char>, b: Seq<char>)
    requires
        node_text(id),
        b.len() == 0 || !is_name_char(b[0]),
    ensures
        node_id(a + w_node_id(id) + b, a.len() as int) == Some((id, a.len() + w_node_id(id).len() + 0int)),
        w_node_id(id).len() > 0,
        w_node_id(id)[0] == '_',
{
    reveal_strlit("_:");
    let s = a + w_node_id(id) + b;
    let p = a.len() as int;
    let e = p + 2 + id.len();
    assert(s[p] == '_');
    assert(s[p + 1] == ':');
    assert(s[p + 2] == id[0]);
    assert forall|k: int| p + 3 <= k < e implies is_name_char(#[trigger] s[k]) by {
        assert(s[k] == id[k - p - 2]);
    }
    if b.len() > 0 {
        assert(s[e] == b[0]);
    }
    lemma_name_run(s, p + 3, e);
    assert(s.subrange(p + 2, e) =~= id);
}

/// A space and a closing parenthesis cannot continue a name.
pub proof fn lemma_not_name_chars()
    ensures
        !is_name_char(' '),
        !is_name_char(')'),
{
}

/// An individual whose written form reads back as itself: a named one whose
/// IRI does, or a blank node whose identifier does.
pub open spec fn individual_rt(i: SpecIndividual) -> bool {
    match i {
        SpecIndividual::Named(n) => iri_text(n),
        SpecIndividual::Anonymous(id) => node_text(id),
    }
}

/// The written form of an individual that reads back as itself starts with
/// `<` or `_`.
pub proof fn lemma_individual_opens(i: SpecIndividual)
    requires
        individual_rt(i),
    ensures
        w_individual(i, None).len() > 0,
        w_individual(i, None)[0] == '<' || w_individual(i, None)[0] == '_',
{
    reveal_strlit("_:");
}

/// The written form of an object property expression, read after any text
/// `a` and followed by any text `b`, is the expression.
#[verifier::spinoff_prover]
#[verifier::rlimit(60)]
pub proof fn lemma_read_written_ope(a: Seq<char>, o: SpecObjectPropertyExpression, b: Seq<char>, px: Px)
    requires
        ope_rt(o),
    ensures
        r_ope(a + w_ope(o, None) + b, a.len() as int, px) == Some(
            (
                Ok::<SpecObjectPropertyExpression, crate::error::SpecError>(o),
                a.len() + w_ope(o, None).len() + 0int,
            ),
        ),
{
    let s = a + w_ope(o, None) + b;
    match o {
        SpecObjectPropertyExpression::ObjectProperty(i) => {
            lemma_read_written_iri(a, i, b, px);
        },
        SpecObjectPropertyExpression::InverseObjectProperty(i) => {
            reveal_strlit("ObjectInverseOf");
            reveal_strlit("ObjectInverseOf(");
            reveal_with_fuel(letters_end, 16);
            assert(keyword("ObjectInverseOf"@));
            let k = "ObjectInverseOf"@;
            assert("ObjectInverseOf("@ =~= k + seq!['(']);
            let a2 = a + "ObjectInverseOf("@;
            let b2 = seq![')'] + b;
            assert(s =~= a + k + (seq!['('] + w_iri(i, None) + b2));
            lemma_keyword_at(a, k, seq!['('] + w_iri(i, None) + b2, px);
            assert(s =~= a2 + w_iri(i, None) + b2);
            lemma_read_written_iri(a2, i, b2, px);
            assert(ws(s, a2.len() as int) == a2.len());
            let e = a2.len() + w_iri(i, None).len() + 0int;
            assert(s[e] == ')');
            assert(ws(s, e) == e);
        },
    }
}

/// The written form of an individual, read after any text `a` and followed
/// by any text `b`, is the individual.
pub proof fn lemma_read_written_individual(a: Seq<char>, i: SpecIndividual, b: Seq<char>, px: Px)
    requires
        individual_rt(i),
        b.len() == 0 || !is_name_char(b[0]),
    ensures
        r_individual(a + w_individual(i, None) + b, a.len() as int, px) == Some(
            (Ok::<SpecIndividual, crate::error::SpecError>(i), a.len() + w_individual(i, None).len() + 0int),
        ),
{
    match i {
        SpecIndividual::Named(n) => {
            lemma_read_written_iri(a, n, b, px);
            let s = a + w_individual(i, None) + b;
            assert(s[a.len() as int] == '<');
        },
        SpecIndividual::Anonymous(id) => {
            lemma_read_written_node_id(a, id, b);
        },
    }
}

/// A run of digits from `p` ends where the first other character stands.
pub proof fn lemma_digit_run(s: Seq<char>, p: int, e: int)
    requires
        0 <= p <= e <= s.len(),
        forall|k: int| p <= k < e ==> is_digit(#[trigger] s[k]),
        e == s.len() || !is_digit(s[e]),
    ensures
        crate::lexical::digits_end(s, p) == e,
    decreases e - p,
{
    if p < e {
        lemma_digit_run(s, p + 1, e);
    }
}

/// The decimal numeral of `n` is a nonempty run of digits that stands for
/// `n`.
pub proof fn lemma_decimal(n: nat)
    ensures
        decimal(n).len() > 0,
        forall|k: int| 0 <= k < decimal(n).len() ==> is_digit(#[trigger] decimal(n)[k]),
        digits_value(decimal(n)) == n,
    decreases n,
{
    if n >= 10 {
        lemma_decimal(n / 10);
        let d = decimal(n / 10);
        assert(decimal(n).drop_last() =~= d);
        assert(decimal(n).last() == digit_char(n % 10));
        assert(digit_value(digit_char(n % 10)) == n % 10);
        assert(forall|k: int| 0 <= k < d.len() ==> decimal(n)[k] == d[k]);
        assert(digits_value(decimal(n)) == digits_value(d) * 10 + digit_value(digit_char(n % 10)));
        assert((n / 10) * 10 + n % 10 == n);
    } else {
        assert(decimal(n).drop_last() =~= Seq::<char>::empty());
        assert(digit_value(digit_char(n)) == n);
        assert(digits_value(decimal(n)) == digits_value(Seq::<char>::empty()) * 10 + digit_value(digit_char(n)));
    }
}

/// The written form of a cardinality, read after any text `a` and followed
/// by a space, is the cardinality.
pub proof fn lemma_read_written_cardinality(a: Seq<char>, n: u32, b: Seq<char>)
    requires
        b.len() > 0,
        b[0] == ' ',
    ensures
        r_cardinality(a + decimal(n as nat) + b, a.len() as int) == Some(
            (Ok::<u32, crate::error::SpecError>(n), a.len() + decimal(n as nat).len() + 0int),
        ),
{
    reveal(r_cardinality);
    let s = a + decimal(n as nat) + b;
    let d = decimal(n as nat);
    let p = a.len() as int;
    lemma_decimal(n as nat);
    assert forall|k: int| p <= k < p + d.len() implies is_digit(#[trigger] s[k]) by {
        assert(s[k] == d[k - p]);
    }
    assert(s[p + d.len()] == ' ');
    lemma_digit_run(s, p, p + d.len());
    assert(s.subrange(p, p + d.len()) =~= d);
}

/// Joining two or more items is the first item, a space, and the others
/// joined.
pub proof fn lemma_join_front(items: Seq<Seq<char>>)
    requires
        items.len() >= 2,
    ensures
        join(items) == items[0] + seq![' '] + join(items.subrange(1, items.len() as int)),
    decreases items.len(),
{
    let rest = items.subrange(1, items.len() as int);
    assert(join(items) == join(items.drop_last()) + seq![' '] + items.last());
    if items.len() == 2 {
        assert(join(items.drop_last()) == items[0]);
        assert(join(rest) == items[1]);
    } else {
        lemma_join_front(items.drop_last());
        assert(rest.drop_last() =~= items.drop_last().subrange(1, items.len() - 1));
        assert(join(rest) == join(rest.drop_last()) + seq![' '] + rest.last());
        assert(join(items) =~= items[0] + seq![' '] + join(rest));
    }
}

/// The written forms of individuals that read back as themselves, joined
/// and followed by `)` at `start` in `s`, are read as the individuals, from
/// any position `p` after which white space leads to them.
#[verifier::spinoff_prover]
#[verifier::rlimit(60)]
#[verifier::spinoff_prover]
#[verifier::rlimit(80)]
pub proof fn lemma_read_written_individuals(s: Seq<char>, start: int, v: Seq<SpecIndividual>, px: Px, p: int)
    requires
        v.len() >= 1,
        forall|k: int| 0 <= k < v.len() ==> individual_rt(#[trigger] v[k]),
        0 <= p <= start,
        start + w_individuals(v, None).len() < s.len(),
        s.subrange(start, start + w_individuals(v, None).len()) == w_individuals(v, None),
        s[start + w_individuals(v, None).len()] == ')',
        ws(s, p) == start,
    ensures
        star(s, p, |t: int| r_individual(s, t, px)) == (
            Ok::<Seq<SpecIndividual>, crate::error::SpecError>(v),
            v.len(),
            start + w_individuals(v, None).len(),
        ),
    decreases v.len(),
{
    let items = v.map_values(|i: SpecIndividual| w_individual(i, None));
    let w = w_individuals(v, None);
    let w0 = w_individual(v[0], None);
    let a = s.subrange(0, start);
    assert(items[0] == w0);
    if v.len() == 1 {
        assert(w == w0);
        let b = s.subrange(start + w0.len(), s.len() as int);
        assert forall|j: int| start <= j < start + w0.len() implies #[trigger] s[j] == w0[j - start] by {
            assert(s.subrange(start, start + w.len())[j - start] == w[j - start]);
        }
        assert(s =~= a + w0 + b);
        let e = start + w0.len();
        assert(s[e] == ')');
        assert(b[0] == s[e]);
        assert(!is_name_char(b[0]));
        lemma_read_written_individual(a, v[0], b, px);
        lemma_nothing_at_close(s, e, px);
        assert(r_individual(s, e, px) is None);
        assert(r_individual(s, start, px) == Some((Ok::<SpecIndividual, crate::error::SpecError>(v[0]), e)));
        assert(star(s, e, |t: int| r_individual(s, t, px)) == (
            Ok::<Seq<SpecIndividual>, crate::error::SpecError>(Seq::empty()),
            0nat,
            e,
        ));
        assert(seq![v[0]] + Seq::<SpecIndividual>::empty() =~= v);
    } else {
        let rest = v.subrange(1, v.len() as int);
        lemma_join_front(items);
        assert(items.subrange(1, items.len() as int) =~= rest.map_values(|i: SpecIndividual| w_individual(i, None)));
        let wr = w_individuals(rest, None);
        assert(w == w0 + seq![' '] + wr);
        let b = s.subrange(start + w0.len(), s.len() as int);
        assert forall|j: int| start <= j < start + w.len() implies #[trigger] s[j] == w[j - start] by {
            assert(s.subrange(start, start + w.len())[j - start] == w[j - start]);
        }
        assert forall|j: int| start <= j < start + w0.len() implies #[trigger] s[j] == w0[j - start] by {
            assert(w[j - start] == w0[j - start]);
        }
        assert(s =~= a + w0 + b);
        let e = start + w0.len();
        assert(s[start + w0.len()] == w[w0.len() as int]);
        assert(s[e] == ' ');
        assert(b[0] == s[e]);
        assert(!is_name_char(b[0]));
        lemma_read_written_individual(a, v[0], b, px);
        assert forall|k: int| 0 <= k < wr.len() implies #[trigger] s.subrange(e + 1, e + 1 + wr.len())[k] == wr[k] by {
            assert(s[e + 1 + k] == w[w0.len() + 1 + k]);
        }
        assert(s.subrange(e + 1, e + 1 + wr.len()) =~= wr);
        assert(s[e + 1] == wr[0]);
        assert(rest[0] == v[1]);
        lemma_individual_opens(rest[0]);
        assert(wr[0] == w_individual(rest[0], None)[0]) by {
            lemma_join_front_start(rest.map_values(|i: SpecIndividual| w_individual(i, None)));
        }
        assert(ws(s, e + 1) == e + 1);
        assert(ws(s, e) == e + 1);
        lemma_read_written_individuals(s, e + 1, rest, px, e);
        assert(seq![v[0]] + rest =~= v);
    }
}

/// Joined items start as their first item does.
pub proof fn lemma_join_front_start(items: Seq<Seq<char>>)
    requires
        items.len() >= 1,
        items[0].len() > 0,
    ensures
        join(items).len() > 0,
        join(items)[0] == items[0][0],
{
    if items.len() >= 2 {
        lemma_join_front(items);
    }
}

/// The constructor `ObjectIntersectionOf`: its keyword and what its parts are read as.
#[verifier::spinoff_prover]
pub proof fn lemma_ce_branch_object_intersection_of(s: Seq<char>, q: int, px: Px)
    ensures
        keyword("ObjectIntersectionOf"@),
        "ObjectIntersectionOf("@ == "ObjectIntersectionOf"@ + seq!['('],
        ce_parts("ObjectIntersectionOf"@, s, q, px) == ce_nary(s, q, px, false),
{
    reveal_strlit("ObjectIntersectionOf");
    reveal_strlit("ObjectIntersectionOf(");
    reveal_with_fuel(letters_end, 24);
    assert("ObjectIntersectionOf("@ =~= "ObjectIntersectionOf"@ + seq!['(']);
}

/// The constructor `ObjectUnionOf`: its keyword and what its parts are read as.
#[verifier::spinoff_prover]
pub proof fn lemma_ce_branch_object_union_of(s: Seq<char>, q: int, px: Px)
    ensures
        keyword("ObjectUnionOf"@),
        "ObjectUnionOf("@ == "ObjectUnionOf"@ + seq!['('],
        ce_parts("ObjectUnionOf"@, s, q, px) == ce_nary(s, q, px, true),
{
    reveal_strlit("ObjectIntersectionOf");
    reveal_strlit("ObjectUnionOf");
    reveal_strlit("ObjectUnionOf(");
    reveal_with_fuel(letters_end, 24);
    assert("ObjectUnionOf"@.len() != "ObjectIntersectionOf"@.len());
    assert("ObjectUnionOf"@ != "ObjectIntersectionOf"@);
    assert("ObjectUnionOf("@ =~= "ObjectUnionOf"@ + seq!['(']);
}

/// The constructor `ObjectComplementOf`: its keyword and what its parts are read as.
#[verifier::spinoff_prover]
pub proof fn lemma_ce_branch_object_complement_of(s: Seq<char>, q: int, px: Px)
    ensures
        keyword("ObjectComplementOf"@),
        "ObjectComplementOf("@ == "ObjectComplementOf"@ + seq!['('],
        ce_parts("ObjectComplementOf"@, s, q, px) == lift_read(
            r_ce(s, ws(s, q), px),
            |c: SpecClassExpression| SpecClassExpression::ObjectComplementOf(Box::new(c)),
        ),
{
    reveal_strlit("ObjectIntersectionOf");
    reveal_strlit("ObjectUnionOf");
    reveal_strlit("ObjectComplementOf");
    reveal_strlit("ObjectComplementOf(");
    reveal_with_fuel(letters_end, 24);
    assert("ObjectComplementOf"@.len() != "ObjectIntersectionOf"@.len());
    assert("ObjectComplementOf"@ != "ObjectIntersectionOf"@);
    assert("ObjectComplementOf"@.len() != "ObjectUnionOf"@.len());
    assert("ObjectComplementOf"@ != "ObjectUnionOf"@);
    assert("ObjectComplementOf("@ =~= "ObjectComplementOf"@ + seq!['(']);
}

/// The constructor `ObjectOneOf`: its keyword and what its parts are read as.
#[verifier::spinoff_prover]
pub proof fn lemma_ce_branch_object_one_of(s: Seq<char>, q: int, px: Px)
    ensures
        keyword("ObjectOneOf"@),
        "ObjectOneOf("@ == "ObjectOneOf"@ + seq!['('],
        ce_parts("ObjectOneOf"@, s, q, px) == lift_read(
            at_least(s, q, |t: int| r_individual(s, t, px), 1),
            |v: Seq<SpecIndividual>| SpecClassExpression::ObjectOneOf(v),
        ),
{
    reveal_strlit("ObjectIntersectionOf");
    reveal_strlit("ObjectUnionOf");
    reveal_strlit("ObjectComplementOf");
    reveal_strlit("ObjectOneOf");
    reveal_strlit("ObjectOneOf(");
    reveal_with_fuel(letters_end, 24);
    assert("ObjectOneOf"@.len() != "ObjectIntersectionOf"@.len());
    assert("ObjectOneOf"@ != "ObjectIntersectionOf"@);
    assert("ObjectOneOf"@.len() != "ObjectUnionOf"@.len());
    assert("ObjectOneOf"@ != "ObjectUnionOf"@);
    assert("ObjectOneOf"@.len() != "ObjectComplementOf"@.len());
    assert("ObjectOneOf"@ != "ObjectComplementOf"@);
    assert("ObjectOneOf("@ =~= "ObjectOneOf"@ + seq!['(']);
}

/// The constructor `ObjectSomeValuesFrom`: its keyword and what its parts are read as.
#[verifier::spinoff_prover]
pub proof fn lemma_ce_branch_object_some_values_from(s: Seq<char>, q: int, px: Px)
    ensures
        keyword("ObjectSomeValuesFrom"@),
        ce_parts("ObjectSomeValuesFrom"@, s, q, px) == ce_quantified(s, q, px, false),
{
    reveal_strlit("ObjectIntersectionOf");
    reveal_strlit("ObjectUnionOf");
    reveal_strlit("ObjectComplementOf");
    reveal_strlit("ObjectOneOf");
    reveal_strlit("ObjectSomeValuesFrom");
    reveal_with_fuel(letters_end, 24);
    assert("ObjectSomeValuesFrom"@[6] != "ObjectIntersectionOf"@[6]);
    assert("ObjectSomeValuesFrom"@ != "ObjectIntersectionOf"@);
    assert("ObjectSomeValuesFrom"@.len() != "ObjectUnionOf"@.len());
    assert("ObjectSomeValuesFrom"@ != "ObjectUnionOf"@);
    assert("ObjectSomeValuesFrom"@.len() != "ObjectComplementOf"@.len());
    assert("ObjectSomeValuesFrom"@ != "ObjectComplementOf"@);
    assert("ObjectSomeValuesFrom"@.len() != "ObjectOneOf"@.len());
    assert("ObjectSomeValuesFrom"@ != "ObjectOneOf"@);
}

/// The constructor `ObjectAllValuesFrom`: its keyword and what its parts are read as.
#[verifier::spinoff_prover]
pub proof fn lemma_ce_branch_object_all_values_from(s: Seq<char>, q: int, px: Px)
    ensures
        keyword("ObjectAllValuesFrom"@),
        ce_parts("ObjectAllValuesFrom"@, s, q, px) == ce_quantified(s, q, px, true),
{
    reveal_strlit("ObjectIntersectionOf");
    reveal_strlit("ObjectUnionOf");
    reveal_strlit("ObjectComplementOf");
    reveal_strlit("ObjectOneOf");
    reveal_strlit("ObjectSomeValuesFrom");
    reveal_strlit("ObjectAllValuesFrom");
    reveal_with_fuel(letters_end, 24);
    assert("ObjectAllValuesFrom"@.len() != "ObjectIntersectionOf"@.len());
    assert("ObjectAllValuesFrom"@ != "ObjectIntersectionOf"@);
    assert("ObjectAllValuesFrom"@.len() != "ObjectUnionOf"@.len());
    assert("ObjectAllValuesFrom"@ != "ObjectUnionOf"@);
    assert("ObjectAllValuesFrom"@.len() != "ObjectComplementOf"@.len());
    assert("ObjectAllValuesFrom"@ != "ObjectComplementOf"@);
    assert("ObjectAllValuesFrom"@.len() != "ObjectOneOf"@.len());
    assert("ObjectAllValuesFrom"@ != "ObjectOneOf"@);
    assert("ObjectAllValuesFrom"@.len() != "ObjectSomeValuesFrom"@.len());
    assert("ObjectAllValuesFrom"@ != "ObjectSomeValuesFrom"@);
}

/// The constructor `ObjectHasValue`: its keyword and what its parts are read as.
#[verifier::spinoff_prover]
pub proof fn lemma_ce_branch_object_has_value(s: Seq<char>, q: int, px: Px)
    ensures
        keyword("ObjectHasValue"@),
        ce_parts("ObjectHasValue"@, s, q, px) == lift_read(
            then(s, r_ope(s, ws(s, q), px), |t: int| r_individual(s, t, px)),
            |x: (SpecObjectPropertyExpression, SpecIndividual)|
                SpecClassExpression::ObjectHasValue { ope: x.0, i: x.1 },
        ),
{
    reveal_strlit("ObjectIntersectionOf");
    reveal_strlit("ObjectUnionOf");
    reveal_strlit("ObjectComplementOf");
    reveal_strlit("ObjectOneOf");
    reveal_strlit("ObjectSomeValuesFrom");
    reveal_strlit("ObjectAllValuesFrom");
    reveal_strlit("ObjectHasValue");
    reveal_with_fuel(letters_end, 24);
    assert("ObjectHasValue"@.len() != "ObjectIntersectionOf"@.len());
    assert("ObjectHasValue"@ != "ObjectIntersectionOf"@);
    assert("ObjectHasValue"@.len() != "ObjectUnionOf"@.len());
    assert("ObjectHasValue"@ != "ObjectUnionOf"@);
    assert("ObjectHasValue"@.len() != "ObjectComplementOf"@.len());
    assert("ObjectHasValue"@ != "ObjectComplementOf"@);
    assert("ObjectHasValue"@.len() != "ObjectOneOf"@.len());
    assert("ObjectHasValue"@ != "ObjectOneOf"@);
    assert("ObjectHasValue"@.len() != "ObjectSomeValuesFrom"@.len());
    assert("ObjectHasValue"@ != "ObjectSomeValuesFrom"@);
    assert("ObjectHasValue"@.len() != "ObjectAllValuesFrom"@.len());
    assert("ObjectHasValue"@ != "ObjectAllValuesFrom"@);
}

/// The constructor `ObjectHasSelf`: its keyword and what its parts are read as.
#[verifier::spinoff_prover]
pub proof fn lemma_ce_branch_object_has_self(s: Seq<char>, q: int, px: Px)
    ensures
        keyword("ObjectHasSelf"@),
        "ObjectHasSelf("@ == "ObjectHasSelf"@ + seq!['('],
        ce_parts("ObjectHasSelf"@, s, q, px) == lift_read(
            r_ope(s, ws(s, q), px),
            |o: SpecObjectPropertyExpression| SpecClassExpression::ObjectHasSelf(o),
        ),
{
    reveal_strlit("ObjectIntersectionOf");
    reveal_strlit("ObjectUnionOf");
    reveal_strlit("ObjectComplementOf");
    reveal_strlit("ObjectOneOf");
    reveal_strlit("ObjectSomeValuesFrom");
    reveal_strlit("ObjectAllValuesFrom");
    reveal_strlit("ObjectHasValue");
    reveal_strlit("ObjectHasSelf");
    reveal_strlit("ObjectHasSelf(");
    reveal_with_fuel(letters_end, 24);
    assert("ObjectHasSelf"@.len() != "ObjectIntersectionOf"@.len());
    assert("ObjectHasSelf"@ != "ObjectIntersectionOf"@);
    assert("ObjectHasSelf"@[6] != "ObjectUnionOf"@[6]);
    assert("ObjectHasSelf"@ != "ObjectUnionOf"@);
    assert("ObjectHasSelf"@.len() != "ObjectComplementOf"@.len());
    assert("ObjectHasSelf"@ != "ObjectComplementOf"@);
    assert("ObjectHasSelf"@.len() != "ObjectOneOf"@.len());
    assert("ObjectHasSelf"@ != "ObjectOneOf"@);
    assert("ObjectHasSelf"@.len() != "ObjectSomeValuesFrom"@.len());
    assert("ObjectHasSelf"@ != "ObjectSomeValuesFrom"@);
    assert("ObjectHasSelf"@.len() != "ObjectAllValuesFrom"@.len());
    assert("ObjectHasSelf"@ != "ObjectAllValuesFrom"@);
    assert("ObjectHasSelf"@.len() != "ObjectHasValue"@.len());
    assert("ObjectHasSelf"@ != "ObjectHasValue"@);
    assert("ObjectHasSelf("@ =~= "ObjectHasSelf"@ + seq!['(']);
}

/// The constructor `ObjectMinCardinality`: its keyword and what its parts are read as.
#[verifier::spinoff_prover]
pub proof fn lemma_ce_branch_object_min_cardinality(s: Seq<char>, q: int, px: Px)
    ensures
        keyword("ObjectMinCardinality"@),
        ce_parts("ObjectMinCardinality"@, s, q, px) == ce_object_cardinality(s, q, px, 0),
{
    reveal_strlit("ObjectIntersectionOf");
    reveal_strlit("ObjectUnionOf");
    reveal_strlit("ObjectComplementOf");
    reveal_strlit("ObjectOneOf");
    reveal_strlit("ObjectSomeValuesFrom");
    reveal_strlit("ObjectAllValuesFrom");
    reveal_strlit("ObjectHasValue");
    reveal_strlit("ObjectHasSelf");
    reveal_strlit("ObjectMinCardinality");
    reveal_with_fuel(letters_end, 24);
    assert("ObjectMinCardinality"@[6] != "ObjectIntersectionOf"@[6]);
    assert("ObjectMinCardinality"@ != "ObjectIntersectionOf"@);
    assert("ObjectMinCardinality"@.len() != "ObjectUnionOf"@.len());
    assert("ObjectMinCardinality"@ != "ObjectUnionOf"@);
    assert("ObjectMinCardinality"@.len() != "ObjectComplementOf"@.len());
    assert("ObjectMinCardinality"@ != "ObjectComplementOf"@);
    assert("ObjectMinCardinality"@.len() != "ObjectOneOf"@.len());
    assert("ObjectMinCardinality"@ != "ObjectOneOf"@);
    assert("ObjectMinCardinality"@[6] != "ObjectSomeValuesFrom"@[6]);
    assert("ObjectMinCardinality"@ != "ObjectSomeValuesFrom"@);
    assert("ObjectMinCardinality"@.len() != "ObjectAllValuesFrom"@.len());
    assert("ObjectMinCardinality"@ != "ObjectAllValuesFrom"@);
    assert("ObjectMinCardinality"@.len() != "ObjectHasValue"@.len());
    assert("ObjectMinCardinality"@ != "ObjectHasValue"@);
    assert("ObjectMinCardinality"@.len() != "ObjectHasSelf"@.len());
    assert("ObjectMinCardinality"@ != "ObjectHasSelf"@);
}

/// The constructor `ObjectMaxCardinality`: its keyword and what its parts are read as.
#[verifier::spinoff_prover]
pub proof fn lemma_ce_branch_object_max_cardinality(s: Seq<char>, q: int, px: Px)
    ensures
        keyword("ObjectMaxCardinality"@),
        ce_parts("ObjectMaxCardinality"@, s, q, px) == ce_object_cardinality(s, q, px, 1),
{
    reveal_strlit("ObjectIntersectionOf");
    reveal_strlit("ObjectUnionOf");
    reveal_strlit("ObjectComplementOf");
    reveal_strlit("ObjectOneOf");
    reveal_strlit("ObjectSomeValuesFrom");
    reveal_strlit("ObjectAllValuesFrom");
    reveal_strlit("ObjectHasValue");
    reveal_strlit("ObjectHasSelf");
    reveal_strlit("ObjectMinCardinality");
    reveal_strlit("ObjectMaxCardinality");
    reveal_strlit("ObjectExactCardinality");
    reveal_with_fuel(letters_end, 24);
    assert("ObjectMaxCardinality"@[6] != "ObjectIntersectionOf"@[6]);
    assert("ObjectMaxCardinality"@.len() != "ObjectUnionOf"@.len());
    assert("ObjectMaxCardinality"@.len() != "ObjectComplementOf"@.len());
    assert("ObjectMaxCardinality"@.len() != "ObjectOneOf"@.len());
    assert("ObjectMaxCardinality"@[6] != "ObjectSomeValuesFrom"@[6]);
    assert("ObjectMaxCardinality"@.len() != "ObjectAllValuesFrom"@.len());
    assert("ObjectMaxCardinality"@.len() != "ObjectHasValue"@.len());
    assert("ObjectMaxCardinality"@.len() != "ObjectHasSelf"@.len());
    assert("ObjectMaxCardinality"@[7] != "ObjectMinCardinality"@[7]);
}

/// The constructor `ObjectExactCardinality`: its keyword and what its parts are read as.
#[verifier::spinoff_prover]
pub proof fn lemma_ce_branch_object_exact_cardinality(s: Seq<char>, q: int, px: Px)
    ensures
        keyword("ObjectExactCardinality"@),
        ce_parts("ObjectExactCardinality"@, s, q, px) == ce_object_cardinality(s, q, px, 2),
{
    reveal_strlit("ObjectIntersectionOf");
    reveal_strlit("ObjectUnionOf");
    reveal_strlit("ObjectComplementOf");
    reveal_strlit("ObjectOneOf");
    reveal_strlit("ObjectSomeValuesFrom");
    reveal_strlit("ObjectAllValuesFrom");
    reveal_strlit("ObjectHasValue");
    reveal_strlit("ObjectHasSelf");
    reveal_strlit("ObjectMinCardinality");
    reveal_strlit("ObjectMaxCardinality");
    reveal_strlit("ObjectExactCardinality");
    reveal_with_fuel(letters_end, 24);
    assert("ObjectExactCardinality"@.len() != "ObjectIntersectionOf"@.len());
    assert("ObjectExactCardinality"@.len() != "ObjectUnionOf"@.len());
    assert("ObjectExactCardinality"@.len() != "ObjectComplementOf"@.len());
    assert("ObjectExactCardinality"@.len() != "ObjectOneOf"@.len());
    assert("ObjectExactCardinality"@.len() != "ObjectSomeValuesFrom"@.len());
    assert("ObjectExactCardinality"@.len() != "ObjectAllValuesFrom"@.len());
    assert("ObjectExactCardinality"@.len() != "ObjectHasValue"@.len());
    assert("ObjectExactCardinality"@.len() != "ObjectHasSelf"@.len());
    assert("ObjectExactCardinality"@.len() != "ObjectMinCardinality"@.len());
    assert("ObjectExactCardinality"@.len() != "ObjectMaxCardinality"@.len());
}

/// The keyword of the object cardinality restrictions of a kind (minimum,
/// maximum, exact).
pub open spec fn object_card_keyword(kind: int) -> Seq<char> {
    if kind == 0 {
        "ObjectMinCardinality"@
    } else if kind == 1 {
        "ObjectMaxCardinality"@
    } else {
        "ObjectExactCardinality"@
    }
}

/// The object cardinality restriction of a kind (minimum, maximum, exact).
pub open spec fn object_card(
    kind: int,
    n: u32,
    o: SpecObjectPropertyExpression,
    x: SpecClassExpression,
) -> SpecClassExpression {
    if kind == 0 {
        SpecClassExpression::ObjectMinCardinality { n, ope: o, bce: Box::new(x) }
    } else if kind == 1 {
        SpecClassExpression::ObjectMaxCardinality { n, ope: o, bce: Box::new(x) }
    } else {
        SpecClassExpression::ObjectExactCardinality { n, ope: o, bce: Box::new(x) }
    }
}

/// The object cardinality constructors: their keywords and what their parts
/// are read as.
pub proof fn lemma_ce_branch_object_cardinality(s: Seq<char>, q: int, px: Px, kind: int)
    requires
        0 <= kind < 3,
    ensures
        keyword(object_card_keyword(kind)),
        ce_parts(object_card_keyword(kind), s, q, px) == ce_object_cardinality(s, q, px, kind),
{
    if kind == 0 {
        lemma_ce_branch_object_min_cardinality(s, q, px);
    } else if kind == 1 {
        lemma_ce_branch_object_max_cardinality(s, q, px);
    } else {
        lemma_ce_branch_object_exact_cardinality(s, q, px);
    }
}

/// The constructor `DataSomeValuesFrom`: its keyword and what its parts are read as.
#[verifier::spinoff_prover]
pub proof fn lemma_ce_branch_data_some_values_from(s: Seq<char>, q: int, px: Px)
    ensures
        keyword("DataSomeValuesFrom"@),
        ce_parts("DataSomeValuesFrom"@, s, q, px) == ce_data_quantified(s, q, px, false),
{
    reveal_strlit("ObjectIntersectionOf");
    reveal_strlit("ObjectUnionOf");
    reveal_strlit("ObjectComplementOf");
    reveal_strlit("ObjectOneOf");
    reveal_strlit("ObjectSomeValuesFrom");
    reveal_strlit("ObjectAllValuesFrom");
    reveal_strlit("ObjectHasValue");
    reveal_strlit("ObjectHasSelf");
    reveal_strlit("ObjectMinCardinality");
    reveal_strlit("ObjectMaxCardinality");
    reveal_strlit("ObjectExactCardinality");
    reveal_strlit("DataSomeValuesFrom");
    reveal_with_fuel(letters_end, 24);
    assert("DataSomeValuesFrom"@.len() != "ObjectIntersectionOf"@.len());
    assert("DataSomeValuesFrom"@ != "ObjectIntersectionOf"@);
    assert("DataSomeValuesFrom"@.len() != "ObjectUnionOf"@.len());
    assert("DataSomeValuesFrom"@ != "ObjectUnionOf"@);
    assert("DataSomeValuesFrom"@[0] != "ObjectComplementOf"@[0]);
    assert("DataSomeValuesFrom"@ != "ObjectComplementOf"@);
    assert("DataSomeValuesFrom"@.len() != "ObjectOneOf"@.len());
    assert("DataSomeValuesFrom"@ != "ObjectOneOf"@);
    assert("DataSomeValuesFrom"@.len() != "ObjectSomeValuesFrom"@.len());
    assert("DataSomeValuesFrom"@ != "ObjectSomeValuesFrom"@);
    assert("DataSomeValuesFrom"@.len() != "ObjectAllValuesFrom"@.len());
    assert("DataSomeValuesFrom"@ != "ObjectAllValuesFrom"@);
    assert("DataSomeValuesFrom"@.len() != "ObjectHasValue"@.len());
    assert("DataSomeValuesFrom"@ != "ObjectHasValue"@);
    assert("DataSomeValuesFrom"@.len() != "ObjectHasSelf"@.len());
    assert("DataSomeValuesFrom"@ != "ObjectHasSelf"@);
    assert("DataSomeValuesFrom"@.len() != "ObjectMinCardinality"@.len());
    assert("DataSomeValuesFrom"@ != "ObjectMinCardinality"@);
    assert("DataSomeValuesFrom"@.len() != "ObjectMaxCardinality"@.len());
    assert("DataSomeValuesFrom"@ != "ObjectMaxCardinality"@);
    assert("DataSomeValuesFrom"@.len() != "ObjectExactCardinality"@.len());
    assert("DataSomeValuesFrom"@ != "ObjectExactCardinality"@);
}

/// The constructor `DataAllValuesFrom`: its keyword and what its parts are read as.
#[verifier::spinoff_prover]
pub proof fn lemma_ce_branch_data_all_values_from(s: Seq<char>, q: int, px: Px)
    ensures
        keyword("DataAllValuesFrom"@),
        ce_parts("DataAllValuesFrom"@, s, q, px) == ce_data_quantified(s, q, px, true),
{
    reveal_strlit("ObjectIntersectionOf");
    reveal_strlit("ObjectUnionOf");
    reveal_strlit("ObjectComplementOf");
    reveal_strlit("ObjectOneOf");
    reveal_strlit("ObjectSomeValuesFrom");
    reveal_strlit("ObjectAllValuesFrom");
    reveal_strlit("ObjectHasValue");
    reveal_strlit("ObjectHasSelf");
    reveal_strlit("ObjectMinCardinality");
    reveal_strlit("ObjectMaxCardinality");
    reveal_strlit("ObjectExactCardinality");
    reveal_strlit("DataSomeValuesFrom");
    reveal_strlit("DataAllValuesFrom");
    reveal_with_fuel(letters_end, 24);
    assert("DataAllValuesFrom"@.len() != "ObjectIntersectionOf"@.len());
    assert("DataAllValuesFrom"@ != "ObjectIntersectionOf"@);
    assert("DataAllValuesFrom"@.len() != "ObjectUnionOf"@.len());
    assert("DataAllValuesFrom"@ != "ObjectUnionOf"@);
    assert("DataAllValuesFrom"@.len() != "ObjectComplementOf"@.len());
    assert("DataAllValuesFrom"@ != "ObjectComplementOf"@);
    assert("DataAllValuesFrom"@.len() != "ObjectOneOf"@.len());
    assert("DataAllValuesFrom"@ != "ObjectOneOf"@);
    assert("DataAllValuesFrom"@.len() != "ObjectSomeValuesFrom"@.len());
    assert("DataAllValuesFrom"@ != "ObjectSomeValuesFrom"@);
    assert("DataAllValuesFrom"@.len() != "ObjectAllValuesFrom"@.len());
    assert("DataAllValuesFrom"@ != "ObjectAllValuesFrom"@);
    assert("DataAllValuesFrom"@.len() != "ObjectHasValue"@.len());
    assert("DataAllValuesFrom"@ != "ObjectHasValue"@);
    assert("DataAllValuesFrom"@.len() != "ObjectHasSelf"@.len());
    assert("DataAllValuesFrom"@ != "ObjectHasSelf"@);
    assert("DataAllValuesFrom"@.len() != "ObjectMinCardinality"@.len());
    assert("DataAllValuesFrom"@ != "ObjectMinCardinality"@);
    assert("DataAllValuesFrom"@.len() != "ObjectMaxCardinality"@.len());
    assert("DataAllValuesFrom"@ != "ObjectMaxCardinality"@);
    assert("DataAllValuesFrom"@.len() != "ObjectExactCardinality"@.len());
    assert("DataAllValuesFrom"@ != "ObjectExactCardinality"@);
    assert("DataAllValuesFrom"@.len() != "DataSomeValuesFrom"@.len());
    assert("DataAllValuesFrom"@ != "DataSomeValuesFrom"@);
}

/// The constructor `DataHasValue`: its keyword and what its parts are read as.
#[verifier::spinoff_prover]
pub proof fn lemma_ce_branch_data_has_value(s: Seq<char>, q: int, px: Px)
    ensures
        keyword("DataHasValue"@),
        ce_parts("DataHasValue"@, s, q, px) == lift_read(
            then(s, r_iri(s, ws(s, q), px), |t: int| r_literal(s, t, px)),
            |x: (Seq<char>, SpecLiteral)| SpecClassExpression::DataHasValue { dp: x.0, l: x.1 },
        ),
{
    reveal_strlit("ObjectIntersectionOf");
    reveal_strlit("ObjectUnionOf");
    reveal_strlit("ObjectComplementOf");
    reveal_strlit("ObjectOneOf");
    reveal_strlit("ObjectSomeValuesFrom");
    reveal_strlit("ObjectAllValuesFrom");
    reveal_strlit("ObjectHasValue");
    reveal_strlit("ObjectHasSelf");
    reveal_strlit("ObjectMinCardinality");
    reveal_strlit("ObjectMaxCardinality");
    reveal_strlit("ObjectExactCardinality");
    reveal_strlit("DataSomeValuesFrom");
    reveal_strlit("DataAllValuesFrom");
    reveal_strlit("DataHasValue");
    reveal_with_fuel(letters_end, 24);
    assert("DataHasValue"@.len() != "ObjectIntersectionOf"@.len());
    assert("DataHasValue"@ != "ObjectIntersectionOf"@);
    assert("DataHasValue"@.len() != "ObjectUnionOf"@.len());
    assert("DataHasValue"@ != "ObjectUnionOf"@);
    assert("DataHasValue"@.len() != "ObjectComplementOf"@.len());
    assert("DataHasValue"@ != "ObjectComplementOf"@);
    assert("DataHasValue"@.len() != "ObjectOneOf"@.len());
    assert("DataHasValue"@ != "ObjectOneOf"@);
    assert("DataHasValue"@.len() != "ObjectSomeValuesFrom"@.len());
    assert("DataHasValue"@ != "ObjectSomeValuesFrom"@);
    assert("DataHasValue"@.len() != "ObjectAllValuesFrom"@.len());
    assert("DataHasValue"@ != "ObjectAllValuesFrom"@);
    assert("DataHasValue"@.len() != "ObjectHasValue"@.len());
    assert("DataHasValue"@ != "ObjectHasValue"@);
    assert("DataHasValue"@.len() != "ObjectHasSelf"@.len());
    assert("DataHasValue"@ != "ObjectHasSelf"@);
    assert("DataHasValue"@.len() != "ObjectMinCardinality"@.len());
    assert("DataHasValue"@ != "ObjectMinCardinality"@);
    assert("DataHasValue"@.len() != "ObjectMaxCardinality"@.len());
    assert("DataHasValue"@ != "ObjectMaxCardinality"@);
    assert("DataHasValue"@.len() != "ObjectExactCardinality"@.len());
    assert("DataHasValue"@ != "ObjectExactCardinality"@);
    assert("DataHasValue"@.len() != "DataSomeValuesFrom"@.len());
    assert("DataHasValue"@ != "DataSomeValuesFrom"@);
    assert("DataHasValue"@.len() != "DataAllValuesFrom"@.len());
    assert("DataHasValue"@ != "DataAllValuesFrom"@);
}

/// The constructor `DataMinCardinality`: its keyword and what its parts are read as.
#[verifier::spinoff_prover]
pub proof fn lemma_ce_branch_data_min_cardinality(s: Seq<char>, q: int, px: Px)
    ensures
        keyword("DataMinCardinality"@),
        ce_parts("DataMinCardinality"@, s, q, px) == ce_data_cardinality(s, q, px, 0),
{
    reveal_strlit("ObjectIntersectionOf");
    reveal_strlit("ObjectUnionOf");
    reveal_strlit("ObjectComplementOf");
    reveal_strlit("ObjectOneOf");
    reveal_strlit("ObjectSomeValuesFrom");
    reveal_strlit("ObjectAllValuesFrom");
    reveal_strlit("ObjectHasValue");
    reveal_strlit("ObjectHasSelf");
    reveal_strlit("ObjectMinCardinality");
    reveal_strlit("ObjectMaxCardinality");
    reveal_strlit("ObjectExactCardinality");
    reveal_strlit("DataSomeValuesFrom");
    reveal_strlit("DataAllValuesFrom");
    reveal_strlit("DataHasValue");
    reveal_strlit("DataMinCardinality");
    reveal_with_fuel(letters_end, 24);
    assert("DataMinCardinality"@.len() != "ObjectIntersectionOf"@.len());
    assert("DataMinCardinality"@ != "ObjectIntersectionOf"@);
    assert("DataMinCardinality"@.len() != "ObjectUnionOf"@.len());
    assert("DataMinCardinality"@ != "ObjectUnionOf"@);
    assert("DataMinCardinality"@[0] != "ObjectComplementOf"@[0]);
    assert("DataMinCardinality"@ != "ObjectComplementOf"@);
    assert("DataMinCardinality"@.len() != "ObjectOneOf"@.len());
    assert("DataMinCardinality"@ != "ObjectOneOf"@);
    assert("DataMinCardinality"@.len() != "ObjectSomeValuesFrom"@.len());
    assert("DataMinCardinality"@ != "ObjectSomeValuesFrom"@);
    assert("DataMinCardinality"@.len() != "ObjectAllValuesFrom"@.len());
    assert("DataMinCardinality"@ != "ObjectAllValuesFrom"@);
    assert("DataMinCardinality"@.len() != "ObjectHasValue"@.len());
    assert("DataMinCardinality"@ != "ObjectHasValue"@);
    assert("DataMinCardinality"@.len() != "ObjectHasSelf"@.len());
    assert("DataMinCardinality"@ != "ObjectHasSelf"@);
    assert("DataMinCardinality"@.len() != "ObjectMinCardinality"@.len());
    assert("DataMinCardinality"@ != "ObjectMinCardinality"@);
    assert("DataMinCardinality"@.len() != "ObjectMaxCardinality"@.len());
    assert("DataMinCardinality"@ != "ObjectMaxCardinality"@);
    assert("DataMinCardinality"@.len() != "ObjectExactCardinality"@.len());
    assert("DataMinCardinality"@ != "ObjectExactCardinality"@);
    assert("DataMinCardinality"@[4] != "DataSomeValuesFrom"@[4]);
    assert("DataMinCardinality"@ != "DataSomeValuesFrom"@);
    assert("DataMinCardinality"@.len() != "DataAllValuesFrom"@.len());
    assert("DataMinCardinality"@ != "DataAllValuesFrom"@);
    assert("DataMinCardinality"@.len() != "DataHasValue"@.len());
    assert("DataMinCardinality"@ != "DataHasValue"@);
}

/// The constructor `DataMaxCardinality`: its keyword and what its parts are read as.
#[verifier::spinoff_prover]
pub proof fn lemma_ce_branch_data_max_cardinality(s: Seq<char>, q: int, px: Px)
    ensures
        keyword("DataMaxCardinality"@),
        ce_parts("DataMaxCardinality"@, s, q, px) == ce_data_cardinality(s, q, px, 1),
{
    reveal_strlit("ObjectIntersectionOf");
    reveal_strlit("ObjectUnionOf");
    reveal_strlit("ObjectComplementOf");
    reveal_strlit("ObjectOneOf");
    reveal_strlit("ObjectSomeValuesFrom");
    reveal_strlit("ObjectAllValuesFrom");
    reveal_strlit("ObjectHasValue");
    reveal_strlit("ObjectHasSelf");
    reveal_strlit("ObjectMinCardinality");
    reveal_strlit("ObjectMaxCardinality");
    reveal_strlit("ObjectExactCardinality");
    reveal_strlit("DataSomeValuesFrom");
    reveal_strlit("DataAllValuesFrom");
    reveal_strlit("DataHasValue");
    reveal_strlit("DataMinCardinality");
    reveal_strlit("DataMaxCardinality");
    reveal_with_fuel(letters_end, 24);
    assert("DataMaxCardinality"@.len() != "ObjectIntersectionOf"@.len());
    assert("DataMaxCardinality"@ != "ObjectIntersectionOf"@);
    assert("DataMaxCardinality"@.len() != "ObjectUnionOf"@.len());
    assert("DataMaxCardinality"@ != "ObjectUnionOf"@);
    assert("DataMaxCardinality"@[0] != "ObjectComplementOf"@[0]);
    assert("DataMaxCardinality"@ != "ObjectComplementOf"@);
    assert("DataMaxCardinality"@.len() != "ObjectOneOf"@.len());
    assert("DataMaxCardinality"@ != "ObjectOneOf"@);
    assert("DataMaxCardinality"@.len() != "ObjectSomeValuesFrom"@.len());
    assert("DataMaxCardinality"@ != "ObjectSomeValuesFrom"@);
    assert("DataMaxCardinality"@.len() != "ObjectAllValuesFrom"@.len());
    assert("DataMaxCardinality"@ != "ObjectAllValuesFrom"@);
    assert("DataMaxCardinality"@.len() != "ObjectHasValue"@.len());
    assert("DataMaxCardinality"@ != "ObjectHasValue"@);
    assert("DataMaxCardinality"@.len() != "ObjectHasSelf"@.len());
    assert("DataMaxCardinality"@ != "ObjectHasSelf"@);
    assert("DataMaxCardinality"@.len() != "ObjectMinCardinality"@.len());
    assert("DataMaxCardinality"@ != "ObjectMinCardinality"@);
    assert("DataMaxCardinality"@.len() != "ObjectMaxCardinality"@.len());
    assert("DataMaxCardinality"@ != "ObjectMaxCardinality"@);
    assert("DataMaxCardinality"@.len() != "ObjectExactCardinality"@.len());
    assert("DataMaxCardinality"@ != "ObjectExactCardinality"@);
    assert("DataMaxCardinality"@[4] != "DataSomeValuesFrom"@[4]);
    assert("DataMaxCardinality"@ != "DataSomeValuesFrom"@);
    assert("DataMaxCardinality"@.len() != "DataAllValuesFrom"@.len());
    assert("DataMaxCardinality"@ != "DataAllValuesFrom"@);
    assert("DataMaxCardinality"@.len() != "DataHasValue"@.len());
    assert("DataMaxCardinality"@ != "DataHasValue"@);
    assert("DataMaxCardinality"@[5] != "DataMinCardinality"@[5]);
    assert("DataMaxCardinality"@ != "DataMinCardinality"@);
}

/// The constructor `DataExactCardinality`: its keyword and what its parts are read as.
#[verifier::spinoff_prover]
pub proof fn lemma_ce_branch_data_exact_cardinality(s: Seq<char>, q: int, px: Px)
    ensures
        keyword("DataExactCardinality"@),
        ce_parts("DataExactCardinality"@, s, q, px) == ce_data_cardinality(s, q, px, 2),
{
    reveal_strlit("ObjectIntersectionOf");
    reveal_strlit("ObjectUnionOf");
    reveal_strlit("ObjectComplementOf");
    reveal_strlit("ObjectOneOf");
    reveal_strlit("ObjectSomeValuesFrom");
    reveal_strlit("ObjectAllValuesFrom");
    reveal_strlit("ObjectHasValue");
    reveal_strlit("ObjectHasSelf");
    reveal_strlit("ObjectMinCardinality");
    reveal_strlit("ObjectMaxCardinality");
    reveal_strlit("ObjectExactCardinality");
    reveal_strlit("DataSomeValuesFrom");
    reveal_strlit("DataAllValuesFrom");
    reveal_strlit("DataHasValue");
    reveal_strlit("DataMinCardinality");
    reveal_strlit("DataMaxCardinality");
    reveal_strlit("DataExactCardinality");
    reveal_with_fuel(letters_end, 24);
    assert("DataExactCardinality"@[0] != "ObjectIntersectionOf"@[0]);
    assert("DataExactCardinality"@.len() != "ObjectUnionOf"@.len());
    assert("DataExactCardinality"@.len() != "ObjectComplementOf"@.len());
    assert("DataExactCardinality"@.len() != "ObjectOneOf"@.len());
    assert("DataExactCardinality"@[0] != "ObjectSomeValuesFrom"@[0]);
    assert("DataExactCardinality"@.len() != "ObjectAllValuesFrom"@.len());
    assert("DataExactCardinality"@.len() != "ObjectHasValue"@.len());
    assert("DataExactCardinality"@.len() != "ObjectHasSelf"@.len());
    assert("DataExactCardinality"@[0] != "ObjectMinCardinality"@[0]);
    assert("DataExactCardinality"@[0] != "ObjectMaxCardinality"@[0]);
    assert("DataExactCardinality"@.len() != "ObjectExactCardinality"@.len());
    assert("DataExactCardinality"@.len() != "DataSomeValuesFrom"@.len());
    assert("DataExactCardinality"@.len() != "DataAllValuesFrom"@.len());
    assert("DataExactCardinality"@.len() != "DataHasValue"@.len());
    assert("DataExactCardinality"@.len() != "DataMinCardinality"@.len());
    assert("DataExactCardinality"@.len() != "DataMaxCardinality"@.len());
}

/// A class expression constructor at `p`: it is read as what its parts are
/// read as, up to the closing parenthesis.
pub proof fn lemma_r_ce_keyword(s: Seq<char>, p: int, px: Px, q: int)
    requires
        r_iri(s, p, px) is None,
        open_at(s, letters_end(s, p)) == Some(q),
    ensures
        r_ce(s, p, px) == match crate::grammar::ce_parts(word(s, p), s, q, px) {
            None => None,
            Some((v, e)) => match close_at(s, e) {
                None => None,
                Some(f) => Some((v, f)),
            },
        },
{
}

// ---------------------------------------------------------------------------
// Class expressions
// ---------------------------------------------------------------------------

/// A class expression whose written form reads back as itself: one whose
/// IRIs, literals, data ranges and individuals read back as themselves, and
/// whose intersections and unions have two or more members.
pub open spec fn ce_rt(c: SpecClassExpression) -> bool
    decreases c,
{
    match c {
        SpecClassExpression::Class(i) => iri_text(i),
        SpecClassExpression::ObjectIntersectionOf(v) => v.len() >= 2 && ce_rt_list(v),
        SpecClassExpression::ObjectUnionOf(v) => v.len() >= 2 && ce_rt_list(v),
        SpecClassExpression::ObjectComplementOf(b) => ce_rt(*b),
        SpecClassExpression::ObjectOneOf(v) => v.len() >= 1 && forall|k: int|
            0 <= k < v.len() ==> individual_rt(#[trigger] v[k]),
        SpecClassExpression::ObjectSomeValuesFrom { ope, bce } => ope_rt(ope) && ce_rt(*bce),
        SpecClassExpression::ObjectAllValuesFrom { ope, bce } => ope_rt(ope) && ce_rt(*bce),
        SpecClassExpression::ObjectHasValue { ope, i } => ope_rt(ope) && individual_rt(i),
        SpecClassExpression::ObjectHasSelf(ope) => ope_rt(ope),
        SpecClassExpression::ObjectMinCardinality { ope, bce, .. } => ope_rt(ope) && ce_rt(*bce),
        SpecClassExpression::ObjectMaxCardinality { ope, bce, .. } => ope_rt(ope) && ce_rt(*bce),
        SpecClassExpression::ObjectExactCardinality { ope, bce, .. } => ope_rt(ope) && ce_rt(*bce),
        SpecClassExpression::DataSomeValuesFrom { dp, dr } => iri_text(dp) && dr_rt(dr),
        SpecClassExpression::DataAllValuesFrom { dp, dr } => iri_text(dp) && dr_rt(dr),
        SpecClassExpression::DataHasValue { dp, l } => iri_text(dp) && literal_rt(l),
        SpecClassExpression::DataMinCardinality { dp, dr, .. } => iri_text(dp) && dr_rt(dr),
        SpecClassExpression::DataMaxCardinality { dp, dr, .. } => iri_text(dp) && dr_rt(dr),
        SpecClassExpression::DataExactCardinality { dp, dr, .. } => iri_text(dp) && dr_rt(dr),
    }
}

/// Every class expression of `v` reads back as itself.
pub open spec fn ce_rt_list(v: Seq<SpecClassExpression>) -> bool
    decreases v,
{
    if v.len() == 0 {
        true
    } else {
        ce_rt(v[0]) && ce_rt_list(v.subrange(1, v.len() as int))
    }
}

/// A list of class expressions, written, is its first class expression, a
/// space and the written rest.
pub proof fn lemma_ce_list_front(v: Seq<SpecClassExpression>, px: Px)
    requires
        v.len() >= 2,
    ensures
        w_ce_list(v, px) == w_ce(v[0], px) + seq![' '] + w_ce_list(v.subrange(1, v.len() as int), px),
    decreases v.len(),
{
    let rest = v.subrange(1, v.len() as int);
    assert(w_ce_list(v, px) == w_ce_list(v.drop_last(), px) + seq![' '] + w_ce(v.last(), px));
    if v.len() == 2 {
        assert(w_ce_list(v.drop_last(), px) == w_ce(v[0], px));
        assert(w_ce_list(rest, px) == w_ce(v[1], px));
    } else {
        lemma_ce_list_front(v.drop_last(), px);
        assert(rest.drop_last() =~= v.drop_last().subrange(1, v.len() - 1));
        assert(rest.last() == v.last());
        assert(w_ce_list(rest, px) == w_ce_list(rest.drop_last(), px) + seq![' '] + w_ce(rest.last(), px));
        assert(w_ce_list(v, px) =~= w_ce(v[0], px) + seq![' '] + w_ce_list(rest, px));
    }
}

/// The written form of an object property expression starts with `<` or a
/// letter.
pub proof fn lemma_ope_start(o: SpecObjectPropertyExpression)
    ensures
        w_ope(o, None).len() > 0,
        !crate::lexical::is_ws(w_ope(o, None)[0]),
        w_ope(o, None)[0] != '#',
        w_ope(o, None)[0] != 'A',
{
    reveal_strlit("ObjectInverseOf(");
}

/// The written form of a class expression starts with `<` or a letter.
pub proof fn lemma_ce_start(c: SpecClassExpression)
    ensures
        w_ce(c, None).len() > 0,
        !crate::lexical::is_ws(w_ce(c, None)[0]),
        w_ce(c, None)[0] != '#',
        w_ce(c, None)[0] != 'A',
{
    let w = w_ce(c, None);
    match c {
        SpecClassExpression::Class(_) => {},
        SpecClassExpression::ObjectIntersectionOf(_) => { reveal_strlit("ObjectIntersectionOf"); reveal_strlit("ObjectIntersectionOf("); },
        SpecClassExpression::ObjectUnionOf(_) => { reveal_strlit("ObjectUnionOf"); reveal_strlit("ObjectUnionOf("); },
        SpecClassExpression::ObjectComplementOf(_) => { reveal_strlit("ObjectComplementOf"); reveal_strlit("ObjectComplementOf("); },
        SpecClassExpression::ObjectOneOf(_) => { reveal_strlit("ObjectOneOf"); reveal_strlit("ObjectOneOf("); },
        SpecClassExpression::ObjectSomeValuesFrom { .. } => { reveal_strlit("ObjectSomeValuesFrom"); reveal_strlit("ObjectSomeValuesFrom("); },
        SpecClassExpression::ObjectAllValuesFrom { .. } => { reveal_strlit("ObjectAllValuesFrom"); reveal_strlit("ObjectAllValuesFrom("); },
        SpecClassExpression::ObjectHasValue { .. } => { reveal_strlit("ObjectHasValue"); reveal_strlit("ObjectHasValue("); },
        SpecClassExpression::ObjectHasSelf(_) => { reveal_strlit("ObjectHasSelf"); reveal_strlit("ObjectHasSelf("); },
        SpecClassExpression::ObjectMinCardinality { .. } => { reveal_strlit("ObjectMinCardinality"); reveal_strlit("ObjectMinCardinality("); },
        SpecClassExpression::ObjectMaxCardinality { .. } => { reveal_strlit("ObjectMaxCardinality"); reveal_strlit("ObjectMaxCardinality("); },
        SpecClassExpression::ObjectExactCardinality { .. } => { reveal_strlit("ObjectExactCardinality"); reveal_strlit("ObjectExactCardinality("); },
        SpecClassExpression::DataSomeValuesFrom { .. } => { reveal_strlit("DataSomeValuesFrom"); reveal_strlit("DataSomeValuesFrom("); },
        SpecClassExpression::DataAllValuesFrom { .. } => { reveal_strlit("DataAllValuesFrom"); reveal_strlit("DataAllValuesFrom("); },
        SpecClassExpression::DataHasValue { .. } => { reveal_strlit("DataHasValue"); reveal_strlit("DataHasValue("); },
        SpecClassExpression::DataMinCardinality { .. } => { reveal_strlit("DataMinCardinality"); reveal_strlit("DataMinCardinality("); },
        SpecClassExpression::DataMaxCardinality { .. } => { reveal_strlit("DataMaxCardinality"); reveal_strlit("DataMaxCardinality("); },
        SpecClassExpression::DataExactCardinality { .. } => { reveal_strlit("DataExactCardinality"); reveal_strlit("DataExactCardinality("); },
    }
}

/// No IRI starts where the written form of a data range constructor does.
pub proof fn lemma_dr_not_iri(a: Seq<char>, d: SpecDataRange, b: Seq<char>, px: Px)
    requires
        dr_rt(d),
        !(d is Datatype),
    ensures
        r_iri(a + w_dr(d, None) + b, a.len() as int, px) is None,
{
    lemma_keywords();
    let s = a + w_dr(d, None) + b;
    match d {
        SpecDataRange::DataIntersectionOf(v) => {
            assert(s =~= a + "DataIntersectionOf"@ + (seq!['('] + w_dr_list(v, None) + seq![')'] + b));
            lemma_keyword_at(a, "DataIntersectionOf"@, seq!['('] + w_dr_list(v, None) + seq![')'] + b, px);
        },
        SpecDataRange::DataUnionOf(v) => {
            assert(s =~= a + "DataUnionOf"@ + (seq!['('] + w_dr_list(v, None) + seq![')'] + b));
            lemma_keyword_at(a, "DataUnionOf"@, seq!['('] + w_dr_list(v, None) + seq![')'] + b, px);
        },
        SpecDataRange::DataComplementOf(x) => {
            assert(s =~= a + "DataComplementOf"@ + (seq!['('] + w_dr(*x, None) + seq![')'] + b));
            lemma_keyword_at(a, "DataComplementOf"@, seq!['('] + w_dr(*x, None) + seq![')'] + b, px);
        },
        SpecDataRange::DataOneOf(v) => {
            reveal_strlit("DataOneOf");
            reveal_strlit("DataOneOf(");
            assert(keyword("DataOneOf"@)) by {
                reveal_with_fuel(letters_end, 12);
            }
            assert(s =~= a + "DataOneOf"@ + (seq!['('] + w_literals(v, None) + seq![')'] + b));
            lemma_keyword_at(a, "DataOneOf"@, seq!['('] + w_literals(v, None) + seq![')'] + b, px);
        },
        SpecDataRange::DatatypeRestriction(i, v) => {
            reveal_strlit("DatatypeRestriction");
            reveal_strlit("DatatypeRestriction(");
            assert(keyword("DatatypeRestriction"@)) by {
                reveal_with_fuel(letters_end, 22);
            }
            let t = w_iri(i, None) + seq![' '] + w_facet_restrictions(v, None) + seq![')'] + b;
            assert(s =~= a + "DatatypeRestriction"@ + (seq!['('] + t));
            lemma_keyword_at(a, "DatatypeRestriction"@, seq!['('] + t, px);
        },
        _ => {},
    }
}

/// The written form of a class expression that reads back as itself, read
/// after any text `a` and followed by any text `b`, is the class
/// expression.
pub proof fn lemma_read_written_ce(a: Seq<char>, c: SpecClassExpression, b: Seq<char>, px: Px)
    requires
        ce_rt(c),
    ensures
        r_ce(a + w_ce(c, None) + b, a.len() as int, px) == Some(
            (Ok::<SpecClassExpression, crate::error::SpecError>(c), a.len() + w_ce(c, None).len() + 0int),
        ),
    decreases c, 3int,
{
    match c {
        SpecClassExpression::Class(i) => lemma_read_written_iri(a, i, b, px),
        SpecClassExpression::ObjectIntersectionOf(_) => lemma_read_written_ce_intersection(a, c, b, px),
        SpecClassExpression::ObjectUnionOf(_) => lemma_read_written_ce_union(a, c, b, px),
        SpecClassExpression::ObjectComplementOf(_) => lemma_read_written_ce_complement(a, c, b, px),
        SpecClassExpression::ObjectOneOf(_) => lemma_read_written_ce_one_of(a, c, b, px),
        SpecClassExpression::ObjectSomeValuesFrom { .. } => lemma_read_written_ce_some(a, c, b, px),
        SpecClassExpression::ObjectAllValuesFrom { .. } => lemma_read_written_ce_all(a, c, b, px),
        SpecClassExpression::ObjectHasValue { .. } => lemma_read_written_ce_has_value(a, c, b, px),
        SpecClassExpression::ObjectHasSelf(_) => lemma_read_written_ce_has_self(a, c, b, px),
        SpecClassExpression::ObjectMinCardinality { .. } => lemma_read_written_ce_card(a, c, b, px),
        SpecClassExpression::ObjectMaxCardinality { .. } => lemma_read_written_ce_card(a, c, b, px),
        SpecClassExpression::ObjectExactCardinality { .. } => lemma_read_written_ce_card(a, c, b, px),
        SpecClassExpression::DataSomeValuesFrom { .. } => lemma_read_written_ce_data_some(a, c, b, px),
        SpecClassExpression::DataAllValuesFrom { .. } => lemma_read_written_ce_data_all(a, c, b, px),
        SpecClassExpression::DataHasValue { .. } => lemma_read_written_ce_data_has_value(a, c, b, px),
        SpecClassExpression::DataMinCardinality { .. } => lemma_read_written_ce_dcard(a, c, b, px),
        SpecClassExpression::DataMaxCardinality { .. } => lemma_read_written_ce_dcard(a, c, b, px),
        SpecClassExpression::DataExactCardinality { .. } => lemma_read_written_ce_dcard(a, c, b, px),
    }
}

/// See [`lemma_read_written_ce`]: intersections and unions.
#[verifier::spinoff_prover]
#[verifier::rlimit(80)]
pub proof fn lemma_read_written_ce_intersection(a: Seq<char>, c: SpecClassExpression, b: Seq<char>, px: Px)
    requires
        ce_rt(c),
        c is ObjectIntersectionOf,
    ensures
        r_ce(a + w_ce(c, None) + b, a.len() as int, px) == Some(
            (Ok::<SpecClassExpression, crate::error::SpecError>(c), a.len() + w_ce(c, None).len() + 0int),
        ),
    decreases c, 2int,
{
    let s = a + w_ce(c, None) + b;
    lemma_ce_branch_object_intersection_of(s, a.len() + "ObjectIntersectionOf"@.len() + 1int, px);
    let (k, kp, v) = match c {
        SpecClassExpression::ObjectIntersectionOf(v) => ("ObjectIntersectionOf"@, "ObjectIntersectionOf("@, v),
        _ => (Seq::empty(), Seq::empty(), Seq::empty()),
    };
    let a2 = a + kp;
    let b2 = seq![')'] + b;
    assert(s =~= a + k + (seq!['('] + w_ce_list(v, None) + b2));
    lemma_keyword_at(a, k, seq!['('] + w_ce_list(v, None) + b2, px);
    lemma_r_ce_keyword(s, a.len() as int, px, a.len() + k.len() + 1int);
    assert(s =~= a2 + w_ce_list(v, None) + b2);
    lemma_ce_list_start(v);
    lemma_read_written_ce_list(a2, v, b2, px, a2.len() as int);
    let e = a2.len() + w_ce_list(v, None).len() + 0int;
    assert(s[e] == ')');
    assert(ws(s, e) == e);
}

/// See [`lemma_read_written_ce`]: intersections and unions.
#[verifier::spinoff_prover]
#[verifier::rlimit(80)]
pub proof fn lemma_read_written_ce_union(a: Seq<char>, c: SpecClassExpression, b: Seq<char>, px: Px)
    requires
        ce_rt(c),
        c is ObjectUnionOf,
    ensures
        r_ce(a + w_ce(c, None) + b, a.len() as int, px) == Some(
            (Ok::<SpecClassExpression, crate::error::SpecError>(c), a.len() + w_ce(c, None).len() + 0int),
        ),
    decreases c, 2int,
{
    let s = a + w_ce(c, None) + b;
    lemma_ce_branch_object_union_of(s, a.len() + "ObjectUnionOf"@.len() + 1int, px);
    let (k, kp, v) = match c {
        SpecClassExpression::ObjectUnionOf(v) => ("ObjectUnionOf"@, "ObjectUnionOf("@, v),
        _ => (Seq::empty(), Seq::empty(), Seq::empty()),
    };
    let a2 = a + kp;
    let b2 = seq![')'] + b;
    assert(s =~= a + k + (seq!['('] + w_ce_list(v, None) + b2));
    lemma_keyword_at(a, k, seq!['('] + w_ce_list(v, None) + b2, px);
    lemma_r_ce_keyword(s, a.len() as int, px, a.len() + k.len() + 1int);
    assert(s =~= a2 + w_ce_list(v, None) + b2);
    lemma_ce_list_start(v);
    lemma_read_written_ce_list(a2, v, b2, px, a2.len() as int);
    let e = a2.len() + w_ce_list(v, None).len() + 0int;
    assert(s[e] == ')');
    assert(ws(s, e) == e);
}

/// The written form of the complement of a class expression that reads
/// back as itself, read after any text `a`, is the complement.
#[verifier::spinoff_prover]
#[verifier::rlimit(100)]
pub proof fn lemma_read_written_ce_complement_at(a: Seq<char>, x: SpecClassExpression, b: Seq<char>, px: Px)
    requires
        ce_rt(x),
    ensures
        ({
            let c = SpecClassExpression::ObjectComplementOf(Box::new(x));
            r_ce(a + w_ce(c, None) + b, a.len() as int, px) == Some(
                (Ok::<SpecClassExpression, crate::error::SpecError>(c), a.len() + w_ce(c, None).len() + 0int),
            )
        }),
    decreases x, 5int,
{
    let c = SpecClassExpression::ObjectComplementOf(Box::new(x));
    let s = a + w_ce(c, None) + b;
    lemma_ce_branch_object_complement_of(s, a.len() + "ObjectComplementOf"@.len() + 1int, px);
    let k = "ObjectComplementOf"@;
    let a2 = a + "ObjectComplementOf("@;
    let b2 = seq![')'] + b;
    assert(s =~= a + k + (seq!['('] + w_ce(x, None) + b2));
    lemma_keyword_at(a, k, seq!['('] + w_ce(x, None) + b2, px);
    lemma_r_ce_keyword(s, a.len() as int, px, a.len() + k.len() + 1int);
    assert(s =~= a2 + w_ce(x, None) + b2);
    lemma_ce_start(x);
    lemma_read_written_ce(a2, x, b2, px);
    assert(ws(s, a2.len() as int) == a2.len());
    let e = a2.len() + w_ce(x, None).len() + 0int;
    assert(s[e] == ')');
    assert(ws(s, e) == e);
}

/// See [`lemma_read_written_ce`]: complements.
pub proof fn lemma_read_written_ce_complement(a: Seq<char>, c: SpecClassExpression, b: Seq<char>, px: Px)
    requires
        ce_rt(c),
        c is ObjectComplementOf,
    ensures
        r_ce(a + w_ce(c, None) + b, a.len() as int, px) == Some(
            (Ok::<SpecClassExpression, crate::error::SpecError>(c), a.len() + w_ce(c, None).len() + 0int),
        ),
    decreases c, 2int,
{
    match c {
        SpecClassExpression::ObjectComplementOf(x) => lemma_read_written_ce_complement_at(a, *x, b, px),
        _ => {},
    }
}

/// See [`lemma_read_written_ce`]: enumerations of individuals.
#[verifier::spinoff_prover]
#[verifier::rlimit(80)]
pub proof fn lemma_read_written_ce_one_of(a: Seq<char>, c: SpecClassExpression, b: Seq<char>, px: Px)
    requires
        ce_rt(c),
        c is ObjectOneOf,
    ensures
        r_ce(a + w_ce(c, None) + b, a.len() as int, px) == Some(
            (Ok::<SpecClassExpression, crate::error::SpecError>(c), a.len() + w_ce(c, None).len() + 0int),
        ),
    decreases c, 2int,
{
    let s = a + w_ce(c, None) + b;
    lemma_ce_branch_object_one_of(s, a.len() + "ObjectOneOf"@.len() + 1int, px);
    let v = match c {
        SpecClassExpression::ObjectOneOf(v) => v,
        _ => Seq::empty(),
    };
    let k = "ObjectOneOf"@;
    let a2 = a + "ObjectOneOf("@;
    let w = w_individuals(v, None);
    assert(s =~= a + k + (seq!['('] + w + seq![')'] + b));
    lemma_keyword_at(a, k, seq!['('] + w + seq![')'] + b, px);
    lemma_r_ce_keyword(s, a.len() as int, px, a.len() + k.len() + 1int);
    assert(s =~= a2 + w + (seq![')'] + b));
    let q = a2.len() as int;
    assert(s.subrange(q, q + w.len()) =~= w);
    assert(s[q + w.len()] == ')');
    let items = v.map_values(|i: SpecIndividual| w_individual(i, None));
    assert(items[0] == w_individual(v[0], None));
    lemma_individual_opens(v[0]);
    lemma_join_front_start(items);
    assert(s[q] == w[0]);
    assert(ws(s, q) == q);
    lemma_read_written_individuals(s, q, v, px, q);
    let e = q + w.len();
    assert(ws(s, e) == e);
}

/// The parts of the written form of one of the existential restrictions that read back
/// as themselves, after its opening parenthesis: they are read as it.
#[verifier::spinoff_prover]
#[verifier::rlimit(80)]
pub proof fn lemma_read_written_ce_some_reads(
    a: Seq<char>,
    o: SpecObjectPropertyExpression,
    x: SpecClassExpression,
    b: Seq<char>,
    px: Px,
)
    requires
        ope_rt(o),
        ce_rt(x),
    ensures
        ({
            let c = SpecClassExpression::ObjectSomeValuesFrom { ope: o, bce: Box::new(x) };
            let s = a + w_ce(c, None) + b;
            let q = a.len() + "ObjectSomeValuesFrom"@.len() + 1int;
            let e = a.len() + w_ce(c, None).len() - 1int;
            &&& ce_quantified(s, q, px, false) == Some((Ok::<SpecClassExpression, crate::error::SpecError>(c), e))
            &&& close_at(s, e) == Some(e + 1)
        }),
    decreases x, 5int,
{
    let c = SpecClassExpression::ObjectSomeValuesFrom { ope: o, bce: Box::new(x) };
    let s = a + w_ce(c, None) + b;
    let k = "ObjectSomeValuesFrom"@;
    let wo = w_ope(o, None);
    let wx = w_ce(x, None);
    lemma_cut_two(a, k, wo, wx, b);
    let a1 = a + k + seq!['('];
    lemma_ope_start(o);
    assert(ws(s, a1.len() as int) == a1.len());
    lemma_read_written_ope(a1, o, seq![' '] + wx + seq![')'] + b, px);
    let a2 = a1 + wo + seq![' '];
    lemma_read_written_ce_after_space(s, a2, x, seq![')'] + b, px);
    let e2 = a2.len() + wx.len() + 0int;
    assert(s[e2] == ')');
    assert(ws(s, e2) == e2);
}

/// How the written form of one of the existential restrictions begins: its
/// keyword, then its opening parenthesis.
#[verifier::spinoff_prover]
pub proof fn lemma_read_written_ce_some_head(a: Seq<char>, c: SpecClassExpression, b: Seq<char>, px: Px)
    requires
        ce_rt(c),
        c is ObjectSomeValuesFrom,
    ensures
        ({
            let s = a + w_ce(c, None) + b;
            let q = a.len() + "ObjectSomeValuesFrom"@.len() + 1int;
            &&& r_iri(s, a.len() as int, px) is None
            &&& open_at(s, letters_end(s, a.len() as int)) == Some(q)
            &&& word(s, a.len() as int) == "ObjectSomeValuesFrom"@
        }),
{
    let s = a + w_ce(c, None) + b;
    assert(keyword("ObjectSomeValuesFrom"@)) by {
        lemma_ce_branch_object_some_values_from(s, 0, px);
    }
    let (k, o, x) = match c {
        SpecClassExpression::ObjectSomeValuesFrom { ope, bce } => ("ObjectSomeValuesFrom"@, ope, *bce),
        _ => (Seq::empty(), SpecObjectPropertyExpression::ObjectProperty(Seq::empty()), c),
    };
    let wo = w_ope(o, None);
    let wx = w_ce(x, None);
    assert(s =~= a + k + (seq!['('] + wo + seq![' '] + wx + seq![')'] + b));
    lemma_keyword_at(a, k, seq!['('] + wo + seq![' '] + wx + seq![')'] + b, px);
}

/// See [`lemma_read_written_ce`]: existential restrictions.
pub proof fn lemma_read_written_ce_some(a: Seq<char>, c: SpecClassExpression, b: Seq<char>, px: Px)
    requires
        ce_rt(c),
        c is ObjectSomeValuesFrom,
    ensures
        r_ce(a + w_ce(c, None) + b, a.len() as int, px) == Some(
            (Ok::<SpecClassExpression, crate::error::SpecError>(c), a.len() + w_ce(c, None).len() + 0int),
        ),
    decreases c, 2int,
{
    let s = a + w_ce(c, None) + b;
    let q = a.len() + "ObjectSomeValuesFrom"@.len() + 1int;
    lemma_ce_branch_object_some_values_from(s, q, px);
    lemma_read_written_ce_some_head(a, c, b, px);
    match c {
        SpecClassExpression::ObjectSomeValuesFrom { ope, bce } => lemma_read_written_ce_some_reads(a, ope, *bce, b, px),
        _ => {},
    }
    lemma_r_ce_keyword(s, a.len() as int, px, q);
}

/// The parts of the written form of one of the universal restrictions that read back
/// as themselves, after its opening parenthesis: they are read as it.
#[verifier::spinoff_prover]
#[verifier::rlimit(100)]
pub proof fn lemma_read_written_ce_all_reads(
    a: Seq<char>,
    o: SpecObjectPropertyExpression,
    x: SpecClassExpression,
    b: Seq<char>,
    px: Px,
)
    requires
        ope_rt(o),
        ce_rt(x),
    ensures
        ({
            let c = SpecClassExpression::ObjectAllValuesFrom { ope: o, bce: Box::new(x) };
            let s = a + w_ce(c, None) + b;
            let q = a.len() + "ObjectAllValuesFrom"@.len() + 1int;
            let e = a.len() + w_ce(c, None).len() - 1int;
            &&& ce_quantified(s, q, px, true) == Some((Ok::<SpecClassExpression, crate::error::SpecError>(c), e))
            &&& close_at(s, e) == Some(e + 1)
        }),
    decreases x, 5int,
{
    let c = SpecClassExpression::ObjectAllValuesFrom { ope: o, bce: Box::new(x) };
    let s = a + w_ce(c, None) + b;
    let k = "ObjectAllValuesFrom"@;
    let wo = w_ope(o, None);
    let wx = w_ce(x, None);
    lemma_cut_two(a, k, wo, wx, b);
    let a1 = a + k + seq!['('];
    lemma_ope_start(o);
    assert(ws(s, a1.len() as int) == a1.len());
    lemma_read_written_ope(a1, o, seq![' '] + wx + seq![')'] + b, px);
    let a2 = a1 + wo + seq![' '];
    lemma_read_written_ce_after_space(s, a2, x, seq![')'] + b, px);
    let e2 = a2.len() + wx.len() + 0int;
    assert(s[e2] == ')');
    assert(ws(s, e2) == e2);
}

/// How the written form of one of the universal restrictions begins: its
/// keyword, then its opening parenthesis.
#[verifier::spinoff_prover]
pub proof fn lemma_read_written_ce_all_head(a: Seq<char>, c: SpecClassExpression, b: Seq<char>, px: Px)
    requires
        ce_rt(c),
        c is ObjectAllValuesFrom,
    ensures
        ({
            let s = a + w_ce(c, None) + b;
            let q = a.len() + "ObjectAllValuesFrom"@.len() + 1int;
            &&& r_iri(s, a.len() as int, px) is None
            &&& open_at(s, letters_end(s, a.len() as int)) == Some(q)
            &&& word(s, a.len() as int) == "ObjectAllValuesFrom"@
        }),
{
    let s = a + w_ce(c, None) + b;
    assert(keyword("ObjectAllValuesFrom"@)) by {
        lemma_ce_branch_object_all_values_from(s, 0, px);
    }
    let (k, o, x) = match c {
        SpecClassExpression::ObjectAllValuesFrom { ope, bce } => ("ObjectAllValuesFrom"@, ope, *bce),
        _ => (Seq::empty(), SpecObjectPropertyExpression::ObjectProperty(Seq::empty()), c),
    };
    let wo = w_ope(o, None);
    let wx = w_ce(x, None);
    assert(s =~= a + k + (seq!['('] + wo + seq![' '] + wx + seq![')'] + b));
    lemma_keyword_at(a, k, seq!['('] + wo + seq![' '] + wx + seq![')'] + b, px);
}

/// See [`lemma_read_written_ce`]: universal restrictions.
pub proof fn lemma_read_written_ce_all(a: Seq<char>, c: SpecClassExpression, b: Seq<char>, px: Px)
    requires
        ce_rt(c),
        c is ObjectAllValuesFrom,
    ensures
        r_ce(a + w_ce(c, None) + b, a.len() as int, px) == Some(
            (Ok::<SpecClassExpression, crate::error::SpecError>(c), a.len() + w_ce(c, None).len() + 0int),
        ),
    decreases c, 2int,
{
    let s = a + w_ce(c, None) + b;
    let q = a.len() + "ObjectAllValuesFrom"@.len() + 1int;
    lemma_ce_branch_object_all_values_from(s, q, px);
    lemma_read_written_ce_all_head(a, c, b, px);
    match c {
        SpecClassExpression::ObjectAllValuesFrom { ope, bce } => lemma_read_written_ce_all_reads(a, ope, *bce, b, px),
        _ => {},
    }
    lemma_r_ce_keyword(s, a.len() as int, px, q);
}

/// The written form of a value restriction whose parts read back as
/// themselves, read after any text `a`, is the restriction.
#[verifier::spinoff_prover]
#[verifier::rlimit(80)]
pub proof fn lemma_read_written_ce_has_value_at(
    a: Seq<char>,
    o: SpecObjectPropertyExpression,
    i: SpecIndividual,
    b: Seq<char>,
    px: Px,
)
    requires
        ope_rt(o),
        individual_rt(i),
    ensures
        ({
            let c = SpecClassExpression::ObjectHasValue { ope: o, i };
            r_ce(a + w_ce(c, None) + b, a.len() as int, px) == Some(
                (Ok::<SpecClassExpression, crate::error::SpecError>(c), a.len() + w_ce(c, None).len() + 0int),
            )
        }),
{
    let c = SpecClassExpression::ObjectHasValue { ope: o, i };
    let s = a + w_ce(c, None) + b;
    lemma_ce_branch_object_has_value(s, a.len() + "ObjectHasValue"@.len() + 1int, px);
    let k = "ObjectHasValue"@;
    let wo = w_ope(o, None);
    let wi = w_individual(i, None);
    assert(s =~= a + k + (seq!['('] + wo + seq![' '] + wi + seq![')'] + b));
    lemma_keyword_at(a, k, seq!['('] + wo + seq![' '] + wi + seq![')'] + b, px);
    lemma_r_ce_keyword(s, a.len() as int, px, a.len() + k.len() + 1int);
    let a1 = a + k + seq!['('];
    assert(s =~= a1 + wo + (seq![' '] + wi + seq![')'] + b));
    lemma_ope_start(o);
    assert(ws(s, a1.len() as int) == a1.len());
    lemma_read_written_ope(a1, o, seq![' '] + wi + seq![')'] + b, px);
    let e1 = a1.len() + wo.len() + 0int;
    let a2 = a1 + wo + seq![' '];
    assert(s =~= a2 + wi + (seq![')'] + b));
    assert(s[e1] == ' ');
    lemma_individual_opens(i);
    assert(s[e1 + 1] == wi[0]);
    assert(ws(s, e1 + 1) == e1 + 1);
    assert(ws(s, e1) == e1 + 1);
    lemma_read_written_individual(a2, i, seq![')'] + b, px);
    let e2 = a2.len() + wi.len() + 0int;
    assert(s[e2] == ')');
    assert(ws(s, e2) == e2);
}

/// See [`lemma_read_written_ce`]: value restrictions.
pub proof fn lemma_read_written_ce_has_value(a: Seq<char>, c: SpecClassExpression, b: Seq<char>, px: Px)
    requires
        ce_rt(c),
        c is ObjectHasValue,
    ensures
        r_ce(a + w_ce(c, None) + b, a.len() as int, px) == Some(
            (Ok::<SpecClassExpression, crate::error::SpecError>(c), a.len() + w_ce(c, None).len() + 0int),
        ),
    decreases c, 2int,
{
    match c {
        SpecClassExpression::ObjectHasValue { ope, i } => lemma_read_written_ce_has_value_at(a, ope, i, b, px),
        _ => {},
    }
}

/// See [`lemma_read_written_ce`]: self restrictions.
#[verifier::spinoff_prover]
#[verifier::rlimit(80)]
pub proof fn lemma_read_written_ce_has_self(a: Seq<char>, c: SpecClassExpression, b: Seq<char>, px: Px)
    requires
        ce_rt(c),
        c is ObjectHasSelf,
    ensures
        r_ce(a + w_ce(c, None) + b, a.len() as int, px) == Some(
            (Ok::<SpecClassExpression, crate::error::SpecError>(c), a.len() + w_ce(c, None).len() + 0int),
        ),
    decreases c, 2int,
{
    let s = a + w_ce(c, None) + b;
    lemma_ce_branch_object_has_self(s, a.len() + "ObjectHasSelf"@.len() + 1int, px);
    let o = match c {
        SpecClassExpression::ObjectHasSelf(o) => o,
        _ => SpecObjectPropertyExpression::ObjectProperty(Seq::empty()),
    };
    let k = "ObjectHasSelf"@;
    let wo = w_ope(o, None);
    let a1 = a + "ObjectHasSelf("@;
    assert(s =~= a + k + (seq!['('] + wo + seq![')'] + b));
    lemma_keyword_at(a, k, seq!['('] + wo + seq![')'] + b, px);
    lemma_r_ce_keyword(s, a.len() as int, px, a.len() + k.len() + 1int);
    assert(s =~= a1 + wo + (seq![')'] + b));
    lemma_ope_start(o);
    assert(ws(s, a1.len() as int) == a1.len());
    lemma_read_written_ope(a1, o, seq![')'] + b, px);
    let e1 = a1.len() + wo.len() + 0int;
    assert(s[e1] == ')');
    assert(ws(s, e1) == e1);
}

/// Text written as `k(t0 t1)` between `a` and `b`, cut before each of its
/// parts.
pub proof fn lemma_cut_two(a: Seq<char>, k: Seq<char>, t0: Seq<char>, t1: Seq<char>, b: Seq<char>)
    ensures
        ({
            let s = a + (k + seq!['('] + t0 + seq![' '] + t1 + seq![')']) + b;
            let a0 = a + k + seq!['('];
            let a1 = a0 + t0 + seq![' '];
            &&& s == a0 + t0 + (seq![' '] + t1 + seq![')'] + b)
            &&& s == a1 + t1 + (seq![')'] + b)
        }),
{
    let s = a + (k + seq!['('] + t0 + seq![' '] + t1 + seq![')']) + b;
    let a0 = a + k + seq!['('];
    let a1 = a0 + t0 + seq![' '];
    assert(s =~= a0 + t0 + (seq![' '] + t1 + seq![')'] + b));
    assert(s =~= a1 + t1 + (seq![')'] + b));
}

/// Text written as `k(t0 t1 t2)` between `a` and `b`, cut before each of
/// its parts.
pub proof fn lemma_cut_three(
    a: Seq<char>,
    k: Seq<char>,
    t0: Seq<char>,
    t1: Seq<char>,
    t2: Seq<char>,
    b: Seq<char>,
)
    ensures
        ({
            let s = a + (k + seq!['('] + t0 + seq![' '] + t1 + seq![' '] + t2 + seq![')']) + b;
            let a0 = a + k + seq!['('];
            let a1 = a0 + t0 + seq![' '];
            let a2 = a1 + t1 + seq![' '];
            &&& s == a + k + (seq!['('] + t0 + seq![' '] + t1 + seq![' '] + t2 + seq![')'] + b)
            &&& s == a0 + t0 + (seq![' '] + t1 + seq![' '] + t2 + seq![')'] + b)
            &&& s == a1 + t1 + (seq![' '] + t2 + seq![')'] + b)
            &&& s == a2 + t2 + (seq![')'] + b)
        }),
{
    let s = a + (k + seq!['('] + t0 + seq![' '] + t1 + seq![' '] + t2 + seq![')']) + b;
    let a0 = a + k + seq!['('];
    let a1 = a0 + t0 + seq![' '];
    let a2 = a1 + t1 + seq![' '];
    assert(s =~= a + k + (seq!['('] + t0 + seq![' '] + t1 + seq![' '] + t2 + seq![')'] + b));
    assert(s =~= a0 + t0 + (seq![' '] + t1 + seq![' '] + t2 + seq![')'] + b));
    assert(s =~= a1 + t1 + (seq![' '] + t2 + seq![')'] + b));
    assert(s =~= a2 + t2 + (seq![')'] + b));
}

/// A class expression that reads back as itself, written after a space:
/// from the space on, it is read as itself.
pub proof fn lemma_read_written_ce_after_space(
    s: Seq<char>,
    a: Seq<char>,
    x: SpecClassExpression,
    b: Seq<char>,
    px: Px,
)
    requires
        ce_rt(x),
        a.len() >= 1,
        a[a.len() - 1] == ' ',
        s == a + w_ce(x, None) + b,
    ensures
        r_ce(s, ws(s, a.len() - 1), px) == Some(
            (Ok::<SpecClassExpression, crate::error::SpecError>(x), a.len() + w_ce(x, None).len() + 0int),
        ),
    decreases x, 4int,
{
    let p = a.len() - 1;
    lemma_ce_start(x);
    assert(s[p] == ' ');
    assert(s[p + 1] == w_ce(x, None)[0]);
    assert(ws(s, p + 1) == p + 1);
    assert(ws(s, p) == p + 1);
    lemma_read_written_ce(a, x, b, px);
}

/// How the written form of an object cardinality restriction lays out: its
/// keyword, then its number, property and class expression, each read as
/// itself, then the closing parenthesis.
#[verifier::spinoff_prover]
#[verifier::rlimit(100)]
pub proof fn lemma_read_written_ce_card_layout(
    a: Seq<char>,
    kind: int,
    n: u32,
    o: SpecObjectPropertyExpression,
    x: SpecClassExpression,
    b: Seq<char>,
    px: Px,
)
    requires
        0 <= kind < 3,
        ope_rt(o),
        ce_rt(x),
    ensures
        ({
            let c = object_card(kind, n, o, x);
            let s = a + w_ce(c, None) + b;
            let q = a.len() + object_card_keyword(kind).len() + 1int;
            let e0 = q + decimal(n as nat).len();
            let e1 = e0 + 1 + w_ope(o, None).len();
            let e2 = e1 + 1 + w_ce(x, None).len();
            &&& r_iri(s, a.len() as int, px) is None
            &&& open_at(s, letters_end(s, a.len() as int)) == Some(q)
            &&& word(s, a.len() as int) == object_card_keyword(kind)
            &&& r_cardinality(s, ws(s, q)) == Some((Ok::<u32, crate::error::SpecError>(n), e0))
            &&& r_ope(s, ws(s, e0), px) == Some(
                (Ok::<SpecObjectPropertyExpression, crate::error::SpecError>(o), e1),
            )
            &&& r_ce(s, ws(s, e1), px) == Some((Ok::<SpecClassExpression, crate::error::SpecError>(x), e2))
            &&& close_at(s, e2) == Some(e2 + 1)
            &&& e2 == a.len() + w_ce(c, None).len() - 1
        }),
    decreases x, 6int,
{
    let c = object_card(kind, n, o, x);
    let s = a + w_ce(c, None) + b;
    let k = object_card_keyword(kind);
    assert(keyword(k)) by {
        lemma_ce_branch_object_cardinality(s, 0, px, kind);
    }
    let dn = decimal(n as nat);
    let wo = w_ope(o, None);
    let wx = w_ce(x, None);
    assert(w_ce(c, None) == k + seq!['('] + dn + seq![' '] + wo + seq![' '] + wx + seq![')']);
    lemma_cut_three(a, k, dn, wo, wx, b);
    lemma_keyword_at(a, k, seq!['('] + dn + seq![' '] + wo + seq![' '] + wx + seq![')'] + b, px);
    let a0 = a + k + seq!['('];
    let q = a0.len() as int;
    let e0 = a0.len() + dn.len() + 0int;
    let a1 = a0 + dn + seq![' '];
    let e1 = a1.len() + wo.len() + 0int;
    let a2 = a1 + wo + seq![' '];
    let e2 = a2.len() + wx.len() + 0int;
    assert(r_cardinality(s, ws(s, q)) == Some((Ok::<u32, crate::error::SpecError>(n), e0))) by {
        lemma_decimal(n as nat);
        assert(crate::lexical::is_digit(dn[0]));
        assert(ws(s, q) == q);
        lemma_read_written_cardinality(a0, n, seq![' '] + wo + seq![' '] + wx + seq![')'] + b);
    }
    assert(r_ope(s, ws(s, e0), px) == Some(
        (Ok::<SpecObjectPropertyExpression, crate::error::SpecError>(o), e1),
    )) by {
        lemma_ope_start(o);
        assert(s[e0] == ' ');
        assert(ws(s, e0 + 1) == e0 + 1);
        assert(ws(s, e0) == e0 + 1);
        lemma_read_written_ope(a1, o, seq![' '] + wx + seq![')'] + b, px);
    }
    lemma_read_written_ce_after_space(s, a2, x, seq![')'] + b, px);
    assert(s[e2] == ')');
    assert(ws(s, e2) == e2);
}

/// The parts of the written form of an object cardinality restriction that
/// reads back as itself: what stands between its parentheses is read as it.
pub proof fn lemma_read_written_ce_card_parts(
    a: Seq<char>,
    kind: int,
    n: u32,
    o: SpecObjectPropertyExpression,
    x: SpecClassExpression,
    b: Seq<char>,
    px: Px,
)
    requires
        0 <= kind < 3,
        ope_rt(o),
        ce_rt(x),
    ensures
        ({
            let c = object_card(kind, n, o, x);
            let s = a + w_ce(c, None) + b;
            let q = a.len() + object_card_keyword(kind).len() + 1int;
            let e = a.len() + w_ce(c, None).len() - 1int;
            &&& r_iri(s, a.len() as int, px) is None
            &&& open_at(s, letters_end(s, a.len() as int)) == Some(q)
            &&& word(s, a.len() as int) == object_card_keyword(kind)
            &&& ce_object_cardinality(s, q, px, kind) == Some((Ok::<SpecClassExpression, crate::error::SpecError>(c), e))
            &&& close_at(s, e) == Some(e + 1)
        }),
    decreases x, 7int,
{
    lemma_read_written_ce_card_layout(a, kind, n, o, x, b, px);
}

/// The written form of an object cardinality restriction whose parts read
/// back as themselves, read after any text `a`, is the restriction.
pub proof fn lemma_read_written_ce_card_at(
    a: Seq<char>,
    kind: int,
    n: u32,
    o: SpecObjectPropertyExpression,
    x: SpecClassExpression,
    b: Seq<char>,
    px: Px,
)
    requires
        0 <= kind < 3,
        ope_rt(o),
        ce_rt(x),
    ensures
        ({
            let c = object_card(kind, n, o, x);
            r_ce(a + w_ce(c, None) + b, a.len() as int, px) == Some(
                (Ok::<SpecClassExpression, crate::error::SpecError>(c), a.len() + w_ce(c, None).len() + 0int),
            )
        }),
    decreases x, 8int,
{
    let c = object_card(kind, n, o, x);
    let s = a + w_ce(c, None) + b;
    let q = a.len() + object_card_keyword(kind).len() + 1int;
    lemma_ce_branch_object_cardinality(s, q, px, kind);
    lemma_read_written_ce_card_parts(a, kind, n, o, x, b, px);
    lemma_r_ce_keyword(s, a.len() as int, px, q);
}

/// See [`lemma_read_written_ce`]: object cardinality restrictions.
pub proof fn lemma_read_written_ce_card(a: Seq<char>, c: SpecClassExpression, b: Seq<char>, px: Px)
    requires
        ce_rt(c),
        c is ObjectMinCardinality || c is ObjectMaxCardinality || c is ObjectExactCardinality,
    ensures
        r_ce(a + w_ce(c, None) + b, a.len() as int, px) == Some(
            (Ok::<SpecClassExpression, crate::error::SpecError>(c), a.len() + w_ce(c, None).len() + 0int),
        ),
    decreases c, 2int,
{
    match c {
        SpecClassExpression::ObjectMinCardinality { n, ope, bce } => lemma_read_written_ce_card_at(a, 0, n, ope, *bce, b, px),
        SpecClassExpression::ObjectMaxCardinality { n, ope, bce } => lemma_read_written_ce_card_at(a, 1, n, ope, *bce, b, px),
        SpecClassExpression::ObjectExactCardinality { n, ope, bce } => lemma_read_written_ce_card_at(a, 2, n, ope, *bce, b, px),
        _ => {},
    }
}

/// The parts of the written form of one of the existential data restrictions that read back
/// as themselves: what stands between its parentheses is read as it.
#[verifier::spinoff_prover]
#[verifier::rlimit(100)]
pub proof fn lemma_read_written_ce_data_some_parts(a: Seq<char>, d: Seq<char>, r: SpecDataRange, b: Seq<char>, px: Px)
    requires
        iri_text(d),
        dr_rt(r),
    ensures
        ({
            let c = SpecClassExpression::DataSomeValuesFrom { dp: d, dr: r };
            let s = a + w_ce(c, None) + b;
            let q = a.len() + "DataSomeValuesFrom"@.len() + 1int;
            let e = a.len() + w_ce(c, None).len() - 1int;
            &&& r_iri(s, a.len() as int, px) is None
            &&& open_at(s, letters_end(s, a.len() as int)) == Some(q)
            &&& word(s, a.len() as int) == "DataSomeValuesFrom"@
            &&& ce_data_quantified(s, q, px, false) == Some((Ok::<SpecClassExpression, crate::error::SpecError>(c), e))
            &&& close_at(s, e) == Some(e + 1)
        }),
    decreases r, 5int,
{
    let c = SpecClassExpression::DataSomeValuesFrom { dp: d, dr: r };
    let s = a + w_ce(c, None) + b;
    assert(keyword("DataSomeValuesFrom"@)) by {
        lemma_ce_branch_data_some_values_from(s, 0, px);
    }
    let k = "DataSomeValuesFrom"@;
    let wd = w_iri(d, None);
    let wr = w_dr(r, None);
    assert(s =~= a + k + (seq!['('] + wd + seq![' '] + wr + seq![')'] + b));
    lemma_keyword_at(a, k, seq!['('] + wd + seq![' '] + wr + seq![')'] + b, px);
    let a1 = a + k + seq!['('];
    assert(s =~= a1 + wd + (seq![' '] + wr + seq![')'] + b));
    assert(ws(s, a1.len() as int) == a1.len());
    lemma_read_written_iri(a1, d, seq![' '] + wr + seq![')'] + b, px);
    let e1 = a1.len() + wd.len() + 0int;
    let a2 = a1 + wd + seq![' '];
    assert(s =~= a2 + wr + (seq![')'] + b));
    lemma_dr_start(r);
    assert(s[e1] == ' ');
    assert(ws(s, e1 + 1) == e1 + 1);
    assert(ws(s, e1) == e1 + 1);
    lemma_read_written_dr(a2, r, seq![')'] + b, px);
    let e2 = a2.len() + wr.len() + 0int;
    assert(s[e2] == ')');
    assert(ws(s, e2) == e2);
    match r {
        SpecDataRange::Datatype(i) => {
            lemma_read_written_iri(a2, i, seq![')'] + b, px);
        },
        _ => {
            lemma_dr_not_iri(a2, r, seq![')'] + b, px);
        },
    }
    assert(crate::grammar::r_chained_dp(s, e1 + 1, px) is None);
    assert(star(s, e1, |t: int| crate::grammar::r_chained_dp(s, t, px)) == (
        Ok::<Seq<Seq<char>>, crate::error::SpecError>(Seq::empty()),
        0nat,
        e1,
    ));
}

/// See [`lemma_read_written_ce`]: existential data restrictions.
pub proof fn lemma_read_written_ce_data_some(a: Seq<char>, c: SpecClassExpression, b: Seq<char>, px: Px)
    requires
        ce_rt(c),
        c is DataSomeValuesFrom,
    ensures
        r_ce(a + w_ce(c, None) + b, a.len() as int, px) == Some(
            (Ok::<SpecClassExpression, crate::error::SpecError>(c), a.len() + w_ce(c, None).len() + 0int),
        ),
    decreases c, 2int,
{
    let s = a + w_ce(c, None) + b;
    let q = a.len() + "DataSomeValuesFrom"@.len() + 1int;
    lemma_ce_branch_data_some_values_from(s, q, px);
    match c {
        SpecClassExpression::DataSomeValuesFrom { dp, dr } => lemma_read_written_ce_data_some_parts(a, dp, dr, b, px),
        _ => {},
    }
    lemma_r_ce_keyword(s, a.len() as int, px, q);
}

/// The parts of the written form of one of the universal data restrictions that read back
/// as themselves: what stands between its parentheses is read as it.
#[verifier::spinoff_prover]
#[verifier::rlimit(100)]
pub proof fn lemma_read_written_ce_data_all_parts(a: Seq<char>, d: Seq<char>, r: SpecDataRange, b: Seq<char>, px: Px)
    requires
        iri_text(d),
        dr_rt(r),
    ensures
        ({
            let c = SpecClassExpression::DataAllValuesFrom { dp: d, dr: r };
            let s = a + w_ce(c, None) + b;
            let q = a.len() + "DataAllValuesFrom"@.len() + 1int;
            let e = a.len() + w_ce(c, None).len() - 1int;
            &&& r_iri(s, a.len() as int, px) is None
            &&& open_at(s, letters_end(s, a.len() as int)) == Some(q)
            &&& word(s, a.len() as int) == "DataAllValuesFrom"@
            &&& ce_data_quantified(s, q, px, true) == Some((Ok::<SpecClassExpression, crate::error::SpecError>(c), e))
            &&& close_at(s, e) == Some(e + 1)
        }),
    decreases r, 5int,
{
    let c = SpecClassExpression::DataAllValuesFrom { dp: d, dr: r };
    let s = a + w_ce(c, None) + b;
    assert(keyword("DataAllValuesFrom"@)) by {
        lemma_ce_branch_data_all_values_from(s, 0, px);
    }
    let k = "DataAllValuesFrom"@;
    let wd = w_iri(d, None);
    let wr = w_dr(r, None);
    assert(s =~= a + k + (seq!['('] + wd + seq![' '] + wr + seq![')'] + b));
    lemma_keyword_at(a, k, seq!['('] + wd + seq![' '] + wr + seq![')'] + b, px);
    let a1 = a + k + seq!['('];
    assert(s =~= a1 + wd + (seq![' '] + wr + seq![')'] + b));
    assert(ws(s, a1.len() as int) == a1.len());
    lemma_read_written_iri(a1, d, seq![' '] + wr + seq![')'] + b, px);
    let e1 = a1.len() + wd.len() + 0int;
    let a2 = a1 + wd + seq![' '];
    assert(s =~= a2 + wr + (seq![')'] + b));
    lemma_dr_start(r);
    assert(s[e1] == ' ');
    assert(ws(s, e1 + 1) == e1 + 1);
    assert(ws(s, e1) == e1 + 1);
    lemma_read_written_dr(a2, r, seq![')'] + b, px);
    let e2 = a2.len() + wr.len() + 0int;
    assert(s[e2] == ')');
    assert(ws(s, e2) == e2);
    match r {
        SpecDataRange::Datatype(i) => {
            lemma_read_written_iri(a2, i, seq![')'] + b, px);
        },
        _ => {
            lemma_dr_not_iri(a2, r, seq![')'] + b, px);
        },
    }
    assert(crate::grammar::r_chained_dp(s, e1 + 1, px) is None);
    assert(star(s, e1, |t: int| crate::grammar::r_chained_dp(s, t, px)) == (
        Ok::<Seq<Seq<char>>, crate::error::SpecError>(Seq::empty()),
        0nat,
        e1,
    ));
}

/// See [`lemma_read_written_ce`]: universal data restrictions.
pub proof fn lemma_read_written_ce_data_all(a: Seq<char>, c: SpecClassExpression, b: Seq<char>, px: Px)
    requires
        ce_rt(c),
        c is DataAllValuesFrom,
    ensures
        r_ce(a + w_ce(c, None) + b, a.len() as int, px) == Some(
            (Ok::<SpecClassExpression, crate::error::SpecError>(c), a.len() + w_ce(c, None).len() + 0int),
        ),
    decreases c, 2int,
{
    let s = a + w_ce(c, None) + b;
    let q = a.len() + "DataAllValuesFrom"@.len() + 1int;
    lemma_ce_branch_data_all_values_from(s, q, px);
    match c {
        SpecClassExpression::DataAllValuesFrom { dp, dr } => lemma_read_written_ce_data_all_parts(a, dp, dr, b, px),
        _ => {},
    }
    lemma_r_ce_keyword(s, a.len() as int, px, q);
}

/// The parts of the written form of one of the data value restrictions that read back
/// as themselves: what stands between its parentheses is read as it.
#[verifier::spinoff_prover]
#[verifier::rlimit(100)]
pub proof fn lemma_read_written_ce_data_has_value_parts(a: Seq<char>, c: SpecClassExpression, b: Seq<char>, px: Px)
    requires
        ce_rt(c),
        c is DataHasValue,
    ensures
        ({
            let s = a + w_ce(c, None) + b;
            let q = a.len() + "DataHasValue"@.len() + 1int;
            let e = a.len() + w_ce(c, None).len() - 1int;
            &&& r_iri(s, a.len() as int, px) is None
            &&& open_at(s, letters_end(s, a.len() as int)) == Some(q)
            &&& word(s, a.len() as int) == "DataHasValue"@
            &&& ce_parts("DataHasValue"@, s, q, px) == Some((Ok::<SpecClassExpression, crate::error::SpecError>(c), e))
            &&& close_at(s, e) == Some(e + 1)
        }),
    decreases c, 1int,
{
    let s = a + w_ce(c, None) + b;
    lemma_ce_branch_data_has_value(s, a.len() + "DataHasValue"@.len() + 1int, px);
    let (d, l) = match c {
        SpecClassExpression::DataHasValue { dp, l } => (dp, l),
        _ => (Seq::empty(), SpecLiteral::Simple { literal: Seq::empty() }),
    };
    let k = "DataHasValue"@;
    let wd = w_iri(d, None);
    let wl = w_literal(l, None);
    assert(s =~= a + k + (seq!['('] + wd + seq![' '] + wl + seq![')'] + b));
    lemma_keyword_at(a, k, seq!['('] + wd + seq![' '] + wl + seq![')'] + b, px);
    let a1 = a + k + seq!['('];
    assert(s =~= a1 + wd + (seq![' '] + wl + seq![')'] + b));
    assert(ws(s, a1.len() as int) == a1.len());
    lemma_read_written_iri(a1, d, seq![' '] + wl + seq![')'] + b, px);
    let e1 = a1.len() + wd.len() + 0int;
    let a2 = a1 + wd + seq![' '];
    assert(s =~= a2 + wl + (seq![')'] + b));
    assert(s[e1] == ' ');
    assert(s[e1 + 1] == '"');
    assert(ws(s, e1 + 1) == e1 + 1);
    assert(ws(s, e1) == e1 + 1);
    lemma_read_written_literal(a2, l, seq![')'] + b, px);
    let e2 = a2.len() + wl.len() + 0int;
    assert(s[e2] == ')');
    assert(ws(s, e2) == e2);
}

/// See [`lemma_read_written_ce`]: data value restrictions.
pub proof fn lemma_read_written_ce_data_has_value(a: Seq<char>, c: SpecClassExpression, b: Seq<char>, px: Px)
    requires
        ce_rt(c),
        c is DataHasValue,
    ensures
        r_ce(a + w_ce(c, None) + b, a.len() as int, px) == Some(
            (Ok::<SpecClassExpression, crate::error::SpecError>(c), a.len() + w_ce(c, None).len() + 0int),
        ),
    decreases c, 2int,
{
    let s = a + w_ce(c, None) + b;
    let q = a.len() + "DataHasValue"@.len() + 1int;
    lemma_ce_branch_data_has_value(s, q, px);
    lemma_read_written_ce_data_has_value_parts(a, c, b, px);
    lemma_r_ce_keyword(s, a.len() as int, px, q);
}

/// The keyword of the data cardinality restrictions of a kind (minimum,
/// maximum, exact).
pub open spec fn data_card_keyword(kind: int) -> Seq<char> {
    if kind == 0 {
        "DataMinCardinality"@
    } else if kind == 1 {
        "DataMaxCardinality"@
    } else {
        "DataExactCardinality"@
    }
}

/// The data cardinality restriction of a kind (minimum, maximum, exact).
pub open spec fn data_card(kind: int, n: u32, d: Seq<char>, r: SpecDataRange) -> SpecClassExpression {
    if kind == 0 {
        SpecClassExpression::DataMinCardinality { n, dp: d, dr: r }
    } else if kind == 1 {
        SpecClassExpression::DataMaxCardinality { n, dp: d, dr: r }
    } else {
        SpecClassExpression::DataExactCardinality { n, dp: d, dr: r }
    }
}

/// The data cardinality constructors: their keywords and what their parts
/// are read as.
pub proof fn lemma_ce_branch_data_cardinality(s: Seq<char>, q: int, px: Px, kind: int)
    requires
        0 <= kind < 3,
    ensures
        keyword(data_card_keyword(kind)),
        ce_parts(data_card_keyword(kind), s, q, px) == ce_data_cardinality(s, q, px, kind),
{
    if kind == 0 {
        lemma_ce_branch_data_min_cardinality(s, q, px);
    } else if kind == 1 {
        lemma_ce_branch_data_max_cardinality(s, q, px);
    } else {
        lemma_ce_branch_data_exact_cardinality(s, q, px);
    }
}

/// How the written form of a data cardinality restriction lays out: its
/// keyword, then its number, property and data range, each read as itself,
/// then the closing parenthesis.
#[verifier::spinoff_prover]
#[verifier::rlimit(100)]
pub proof fn lemma_read_written_ce_dcard_layout(
    a: Seq<char>,
    kind: int,
    n: u32,
    d: Seq<char>,
    r: SpecDataRange,
    b: Seq<char>,
    px: Px,
)
    requires
        0 <= kind < 3,
        iri_text(d),
        dr_rt(r),
    ensures
        ({
            let c = data_card(kind, n, d, r);
            let s = a + w_ce(c, None) + b;
            let q = a.len() + data_card_keyword(kind).len() + 1int;
            let e0 = q + decimal(n as nat).len();
            let e1 = e0 + 1 + w_iri(d, None).len();
            let e2 = e1 + 1 + w_dr(r, None).len();
            &&& r_iri(s, a.len() as int, px) is None
            &&& open_at(s, letters_end(s, a.len() as int)) == Some(q)
            &&& word(s, a.len() as int) == data_card_keyword(kind)
            &&& r_cardinality(s, ws(s, q)) == Some((Ok::<u32, crate::error::SpecError>(n), e0))
            &&& r_iri(s, ws(s, e0), px) == Some((Ok::<Seq<char>, crate::error::SpecError>(d), e1))
            &&& r_dr(s, ws(s, e1), px) == Some((Ok::<SpecDataRange, crate::error::SpecError>(r), e2))
            &&& close_at(s, e2) == Some(e2 + 1)
            &&& e2 == a.len() + w_ce(c, None).len() - 1
        }),
{
    let c = data_card(kind, n, d, r);
    let s = a + w_ce(c, None) + b;
    let k = data_card_keyword(kind);
    let dn = decimal(n as nat);
    let wd = w_iri(d, None);
    let wr = w_dr(r, None);
    assert(keyword(k)) by {
        lemma_ce_branch_data_cardinality(s, 0, px, kind);
    }
    assert(w_ce(c, None) == k + seq!['('] + dn + seq![' '] + wd + seq![' '] + wr + seq![')']);
    lemma_cut_three(a, k, dn, wd, wr, b);
    lemma_keyword_at(a, k, seq!['('] + dn + seq![' '] + wd + seq![' '] + wr + seq![')'] + b, px);
    let a0 = a + k + seq!['('];
    lemma_decimal(n as nat);
    assert(crate::lexical::is_digit(dn[0]));
    assert(ws(s, a0.len() as int) == a0.len());
    lemma_read_written_cardinality(a0, n, seq![' '] + wd + seq![' '] + wr + seq![')'] + b);
    let e0 = a0.len() + dn.len() + 0int;
    let a1 = a0 + dn + seq![' '];
    assert(s[e0] == ' ');
    assert(s[e0 + 1] == '<');
    assert(ws(s, e0 + 1) == e0 + 1);
    assert(ws(s, e0) == e0 + 1);
    lemma_read_written_iri(a1, d, seq![' '] + wr + seq![')'] + b, px);
    let e1 = a1.len() + wd.len() + 0int;
    let a2 = a1 + wd + seq![' '];
    lemma_dr_start(r);
    assert(s[e1] == ' ');
    assert(ws(s, e1 + 1) == e1 + 1);
    assert(ws(s, e1) == e1 + 1);
    lemma_read_written_dr(a2, r, seq![')'] + b, px);
    let e2 = a2.len() + wr.len() + 0int;
    assert(s[e2] == ')');
    assert(ws(s, e2) == e2);
}

/// The written form of a data cardinality restriction whose parts read back
/// as themselves, read after any text `a`, is the restriction.
#[verifier::spinoff_prover]
#[verifier::rlimit(40)]
pub proof fn lemma_read_written_ce_dcard_at(
    a: Seq<char>,
    kind: int,
    n: u32,
    d: Seq<char>,
    r: SpecDataRange,
    b: Seq<char>,
    px: Px,
)
    requires
        0 <= kind < 3,
        iri_text(d),
        dr_rt(r),
    ensures
        ({
            let c = data_card(kind, n, d, r);
            r_ce(a + w_ce(c, None) + b, a.len() as int, px) == Some(
                (Ok::<SpecClassExpression, crate::error::SpecError>(c), a.len() + w_ce(c, None).len() + 0int),
            )
        }),
{
    let c = data_card(kind, n, d, r);
    let s = a + w_ce(c, None) + b;
    let q = a.len() + data_card_keyword(kind).len() + 1int;
    lemma_ce_branch_data_cardinality(s, q, px, kind);
    lemma_read_written_ce_dcard_layout(a, kind, n, d, r, b, px);
    lemma_r_ce_keyword(s, a.len() as int, px, q);
}

/// See [`lemma_read_written_ce`]: data cardinality restrictions.
pub proof fn lemma_read_written_ce_dcard(a: Seq<char>, c: SpecClassExpression, b: Seq<char>, px: Px)
    requires
        ce_rt(c),
        c is DataMinCardinality || c is DataMaxCardinality || c is DataExactCardinality,
    ensures
        r_ce(a + w_ce(c, None) + b, a.len() as int, px) == Some(
            (Ok::<SpecClassExpression, crate::error::SpecError>(c), a.len() + w_ce(c, None).len() + 0int),
        ),
    decreases c, 2int,
{
    match c {
        SpecClassExpression::DataMinCardinality { n, dp, dr } => lemma_read_written_ce_dcard_at(a, 0, n, dp, dr, b, px),
        SpecClassExpression::DataMaxCardinality { n, dp, dr } => lemma_read_written_ce_dcard_at(a, 1, n, dp, dr, b, px),
        SpecClassExpression::DataExactCardinality { n, dp, dr } => lemma_read_written_ce_dcard_at(a, 2, n, dp, dr, b, px),
        _ => {},
    }
}

/// The written form of a nonempty list of class expressions starts as that
/// of its first class expression.
pub proof fn lemma_ce_list_start(v: Seq<SpecClassExpression>)
    requires
        v.len() >= 1,
    ensures
        w_ce_list(v, None).len() > 0,
        w_ce_list(v, None)[0] == w_ce(v[0], None)[0],
        !crate::lexical::is_ws(w_ce_list(v, None)[0]),
        w_ce_list(v, None)[0] != '#',
{
    lemma_ce_start(v[0]);
    if v.len() >= 2 {
        lemma_ce_list_front(v, None);
    }
}

/// The written form of a nonempty list of class expressions that read back
/// as themselves, followed by `)`, is read as the list, from any position
/// `p` after which white space leads to it.
#[verifier::spinoff_prover]
#[verifier::rlimit(80)]
pub proof fn lemma_read_written_ce_list(a: Seq<char>, v: Seq<SpecClassExpression>, b: Seq<char>, px: Px, p: int)
    requires
        v.len() >= 1,
        ce_rt_list(v),
        b.len() > 0,
        b[0] == ')',
        0 <= p <= a.len(),
        ws(a + w_ce_list(v, None) + b, p) == a.len(),
    ensures
        crate::grammar::r_ce_seq(a + w_ce_list(v, None) + b, p, px) == (
            Ok::<Seq<SpecClassExpression>, crate::error::SpecError>(v),
            v.len(),
            a.len() + w_ce_list(v, None).len() + 0int,
        ),
    decreases v, 1int,
{
    let s = a + w_ce_list(v, None) + b;
    let w0 = w_ce(v[0], None);
    lemma_ce_start(v[0]);
    let e = a.len() + w0.len() + 0int;
    if v.len() == 1 {
        assert(w_ce_list(v, None) == w0);
        assert(s =~= a + w0 + b);
        lemma_read_written_ce(a, v[0], b, px);
        assert(s[e] == ')');
        lemma_nothing_at_close(s, e, px);
        assert(crate::grammar::r_ce_seq(s, e, px) == (
            Ok::<Seq<SpecClassExpression>, crate::error::SpecError>(Seq::empty()),
            0nat,
            e,
        ));
        assert(seq![v[0]] + Seq::<SpecClassExpression>::empty() =~= v);
    } else {
        let rest = v.subrange(1, v.len() as int);
        lemma_ce_list_front(v, None);
        let b1 = seq![' '] + w_ce_list(rest, None) + b;
        assert(s =~= a + w0 + b1);
        lemma_read_written_ce(a, v[0], b1, px);
        let a2 = a + w0 + seq![' '];
        assert(s =~= a2 + w_ce_list(rest, None) + b);
        lemma_ce_list_start(rest);
        assert(s[e] == ' ');
        assert(s[e + 1] == w_ce_list(rest, None)[0]);
        assert(ws(s, e + 1) == e + 1);
        assert(ws(s, e) == e + 1);
        lemma_read_written_ce_list(a2, rest, b, px, e);
        assert(seq![v[0]] + rest =~= v);
    }
}

/// Reading the written form of a class expression that reads back as
/// itself gives the class expression back, whatever the prefixes used to
/// read it.
pub proof fn class_expression_round_trip(c: SpecClassExpression, px: Px)
    requires
        ce_rt(c),
    ensures
        whole(w_ce(c, None), r_ce(w_ce(c, None), 0, px)) == Ok::<SpecClassExpression, crate::error::SpecError>(c),
{
    lemma_read_written_ce(Seq::empty(), c, Seq::empty(), px);
    assert(Seq::<char>::empty() + w_ce(c, None) + Seq::<char>::empty() =~= w_ce(c, None));
}

} // verus!
