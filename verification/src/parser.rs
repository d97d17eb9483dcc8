//! Reading the elements of the functional syntax from a character buffer:
//! each reader computes the reading that its namesake in
//! [`crate::grammar`] describes.
use vstd::prelude::*;
use crate::context::Context;
use crate::error::{Error, ExpansionError, Failure, SpecError, Unsupported};
use crate::grammar::{
    has_key_parts, r_annotation, r_annotation_seq, r_entity, r_sub_ope,
    ce_body, ce_data_cardinality, ce_data_quantified, ce_nary, ce_object_cardinality, ce_parts,
    ce_quantified, data_cardinality_value, lift_read, object_cardinality_value, r_ce, r_ce_seq, then,
    dr_body, r_dr, r_dr_seq,
    Read, Reads, concat, cons, expansion, facet_from, facet_of, lemma_concat_cons,
    lemma_leaf_bounds, r_annotation_subject, r_annotation_value, r_cardinality, r_chained_dp,
    r_datatype_suffix, r_facet_restriction, r_individual, r_iri, r_literal, r_ope, snoc, star,
    close_at, open_at,
};
use crate::lexical::{lemma_token_bounds, letters_end, word, ws};
use crate::model::{
    Annotation, Axiom, PropertyExpression, SpecPropertyExpression, SubObjectPropertyExpression,
    ClassExpression, SpecClassExpression, SpecIndividual, SpecLiteral, SpecObjectPropertyExpression,
    lemma_view_ce_seq_map, view_ce_seq,
    DataRange, lemma_view_dr_seq_map,
    AnnotationSubject, AnnotationValue, AnonymousIndividual, Facet, FacetRestriction, IRI, Individual,
    Literal, ObjectPropertyExpression,
};
use crate::prefixes::expand_curie;
use crate::scan::{
    find_letters_end, matches_word, opt_text, read_abbreviated_iri, read_full_iri, read_integer,
    read_language_tag, read_node_id, read_quoted_string, skip_ws,
};
use crate::vocab::{facet_iri, facet_order, owl_thing, rdfs_literal};

verus! {

/// A reading as the readers give it: `None` when the element is not there,
/// otherwise its value (or why there is none) and the position after it.
pub type Reading<T> = Option<(Result<T, Failure>, usize)>;

/// A reading of a repeated element as the readers give it: the values (or
/// why there are none), how many were read, and the position after them.
pub type Readings<T> = (Result<Vec<T>, Failure>, usize, usize);

/// Mathematical form of a value or failure.
pub open spec fn result_view<T: View>(r: Result<T, Failure>) -> Result<T::V, SpecError> {
    match r {
        Ok(v) => Ok(v@),
        Err(f) => Err(f@),
    }
}

/// Mathematical form of a [`Reading`].
pub open spec fn read_view<T: View>(r: Reading<T>) -> Read<T::V> {
    match r {
        None => None,
        Some((v, e)) => Some((result_view(v), e as int)),
    }
}

/// Mathematical form of values read one after the other.
pub open spec fn results_view<T: View>(r: Result<Vec<T>, Failure>) -> Result<Seq<T::V>, SpecError> {
    match r {
        Ok(v) => Ok(v@.map_values(|x: T| x@)),
        Err(f) => Err(f@),
    }
}

/// Mathematical form of [`Readings`].
pub open spec fn reads_view<T: View>(r: Readings<T>) -> Reads<T::V> {
    (results_view(r.0), r.1 as nat, r.2 as int)
}

/// The values read so far, with one more at the end; the first failure wins.
pub fn push_result<T: View>(acc: Result<Vec<T>, Failure>, v: Result<T, Failure>) -> (r: Result<
    Vec<T>,
    Failure,
>)
    ensures
        results_view(r) == snoc(results_view(acc), result_view(v)),
{
    match acc {
        Err(f) => Err(f),
        Ok(mut xs) => match v {
            Err(f) => Err(f),
            Ok(x) => {
                let ghost before = xs@;
                xs.push(x);
                assert(xs@.map_values(|y: T| y@) =~= before.map_values(|y: T| y@).push(x@));
                Ok(xs)
            },
        },
    }
}

/// See [`open_at`].
pub fn open_paren(s: &Vec<char>, p: usize) -> (r: Option<usize>)
    requires
        p <= s.len(),
    ensures
        match r {
            None => open_at(s@, p as int) is None,
            Some(q) => open_at(s@, p as int) == Some(q as int) && p < q <= s.len(),
        },
{
    let q = skip_ws(s, p);
    if q < s.len() && s[q] == '(' {
        Some(q + 1)
    } else {
        None
    }
}

/// See [`close_at`].
pub fn close_paren(s: &Vec<char>, p: usize) -> (r: Option<usize>)
    requires
        p <= s.len(),
    ensures
        match r {
            None => close_at(s@, p as int) is None,
            Some(q) => close_at(s@, p as int) == Some(q as int) && p < q <= s.len(),
        },
{
    let q = skip_ws(s, p);
    if q < s.len() && s[q] == ')' {
        Some(q + 1)
    } else {
        None
    }
}

/// The full IRI that an abbreviated IRI stands for (see [`expansion`]).
fn expand_iri(ctx: &Context, prefix: Option<String>, local: String) -> (r: Result<IRI, Failure>)
    ensures
        result_view(r) == expansion(ctx@, opt_text(prefix), local@),
{
    match ctx.prefixes() {
        None => Err(Failure::Error(Error::Expansion(ExpansionError::Invalid))),
        Some(m) => {
            let pre = match &prefix {
                Some(x) => Some(x.as_str()),
                None => None,
            };
            match expand_curie(m, pre, local.as_str()) {
                Ok(t) => Ok(IRI(t)),
                Err(x) => Err(Failure::Error(Error::Expansion(x))),
            }
        },
    }
}

/// See [`r_iri`].
pub fn read_iri(s: &Vec<char>, p: usize, ctx: &Context) -> (r: Reading<IRI>)
    requires
        p <= s.len(),
    ensures
        read_view(r) == r_iri(s@, p as int, ctx@),
        r matches Some((_, e)) ==> p < e <= s.len(),
{
    proof {
        lemma_leaf_bounds(s@, p as int, ctx@);
    }
    match read_full_iri(s, p) {
        Some((t, e)) => Some((Ok(IRI(t)), e)),
        None => match read_abbreviated_iri(s, p) {
            Some((pre, local, e)) => Some((expand_iri(ctx, pre, local), e)),
            None => None,
        },
    }
}

/// See [`r_individual`].
pub fn read_individual(s: &Vec<char>, p: usize, ctx: &Context) -> (r: Reading<Individual>)
    requires
        p <= s.len(),
    ensures
        read_view(r) == r_individual(s@, p as int, ctx@),
        r matches Some((_, e)) ==> p < e <= s.len(),
{
    proof {
        lemma_leaf_bounds(s@, p as int, ctx@);
    }
    match read_node_id(s, p) {
        Some((id, e)) => Some((Ok(Individual::Anonymous(AnonymousIndividual(id))), e)),
        None => match read_iri(s, p, ctx) {
            Some((Ok(i), e)) => Some((Ok(Individual::Named(i)), e)),
            Some((Err(x), e)) => Some((Err(x), e)),
            None => None,
        },
    }
}

/// See [`r_datatype_suffix`].
fn read_datatype_suffix(s: &Vec<char>, q: usize, ctx: &Context) -> (r: Reading<IRI>)
    requires
        q <= s.len(),
    ensures
        read_view(r) == r_datatype_suffix(s@, q as int, ctx@),
{
    let t = skip_ws(s, q);
    if t < s.len() && t + 1 < s.len() && s[t] == '^' && s[t + 1] == '^' {
        read_iri(s, skip_ws(s, t + 2), ctx)
    } else {
        None
    }
}

/// See [`r_literal`].
pub fn read_literal(s: &Vec<char>, p: usize, ctx: &Context) -> (r: Reading<Literal>)
    requires
        p <= s.len(),
    ensures
        read_view(r) == r_literal(s@, p as int, ctx@),
        r matches Some((_, e)) ==> p < e <= s.len(),
{
    proof {
        lemma_leaf_bounds(s@, p as int, ctx@);
    }
    match read_quoted_string(s, p) {
        None => None,
        Some((literal, q)) => {
            proof {
                lemma_token_bounds(s@, p as int);
            }
            match read_datatype_suffix(s, q, ctx) {
                Some((Ok(d), e)) => Some((Ok(Literal::Datatype { literal, datatype_iri: d }), e)),
                Some((Err(x), e)) => Some((Err(x), e)),
                None => match read_language_tag(s, skip_ws(s, q)) {
                    Some((lang, e)) => Some((Ok(Literal::Language { literal, lang }), e)),
                    None => Some((Ok(Literal::Simple { literal }), q)),
                },
            }
        },
    }
}

/// See [`r_ope`].
pub fn read_ope(s: &Vec<char>, p: usize, ctx: &Context) -> (r: Reading<ObjectPropertyExpression>)
    requires
        p <= s.len(),
    ensures
        read_view(r) == r_ope(s@, p as int, ctx@),
        r matches Some((_, e)) ==> p < e <= s.len(),
{
    proof {
        lemma_leaf_bounds(s@, p as int, ctx@);
    }
    match read_iri(s, p, ctx) {
        Some((Ok(i), e)) => Some((Ok(ObjectPropertyExpression::ObjectProperty(i)), e)),
        Some((Err(x), e)) => Some((Err(x), e)),
        None => {
            let le = find_letters_end(s, p);
            if !matches_word(s, p, le, "ObjectInverseOf") {
                return None;
            }
            match open_paren(s, le) {
                None => None,
                Some(q) => match read_iri(s, skip_ws(s, q), ctx) {
                    None => None,
                    Some((v, e)) => match close_paren(s, e) {
                        None => None,
                        Some(f) => Some(
                            (
                                match v {
                                    Ok(i) => Ok(ObjectPropertyExpression::InverseObjectProperty(i)),
                                    Err(x) => Err(x),
                                },
                                f,
                            ),
                        ),
                    },
                },
            }
        },
    }
}

/// The facet at index `i` of [`facet_order`].
fn facet_at(i: usize) -> (f: Facet)
    requires
        i < 11,
    ensures
        f == facet_order()[i as int],
{
    if i == 0 { Facet::Length } else if i == 1 { Facet::MinLength } else if i == 2 { Facet::MaxLength }
    else if i == 3 { Facet::Pattern } else if i == 4 { Facet::MinInclusive }
    else if i == 5 { Facet::MinExclusive } else if i == 6 { Facet::MaxInclusive }
    else if i == 7 { Facet::MaxExclusive } else if i == 8 { Facet::TotalDigits }
    else if i == 9 { Facet::FractionDigits } else { Facet::LangRange }
}

/// The facet whose IRI is `iri`, if any (see [`facet_of`]).
pub fn find_facet(iri: &IRI) -> (r: Option<Facet>)
    ensures
        r == facet_of(iri@),
{
    let mut i: usize = 0;
    while i < 11
        invariant
            i <= 11,
            facet_from(iri@, i as int) == facet_of(iri@),
        decreases 11 - i,
    {
        let f = facet_at(i);
        let t = facet_iri(f);
        if t == iri.0 {
            return Some(f);
        }
        i = i + 1;
    }
    None
}

/// See [`r_facet_restriction`].
pub fn read_facet_restriction(s: &Vec<char>, p: usize, ctx: &Context) -> (r: Reading<FacetRestriction>)
    requires
        p <= s.len(),
    ensures
        read_view(r) == r_facet_restriction(s@, p as int, ctx@),
        r matches Some((_, e)) ==> p < e <= s.len(),
{
    proof {
        lemma_leaf_bounds(s@, p as int, ctx@);
    }
    match read_iri(s, p, ctx) {
        None => None,
        Some((ri, e1)) => match read_literal(s, skip_ws(s, e1), ctx) {
            None => None,
            Some((rl, e2)) => Some(
                (
                    match ri {
                        Err(x) => Err(x),
                        Ok(iri) => match find_facet(&iri) {
                            None => Err(Failure::Error(Error::InvalidFacet(iri.0))),
                            Some(f) => match rl {
                                Err(x) => Err(x),
                                Ok(l) => Ok(FacetRestriction { f, l }),
                            },
                        },
                    },
                    e2,
                ),
            ),
        },
    }
}

/// See [`r_cardinality`].
pub fn read_cardinality(s: &Vec<char>, p: usize) -> (r: Reading<u32>)
    requires
        p <= s.len(),
    ensures
        read_view(r) == r_cardinality(s@, p as int),
        r matches Some((_, e)) ==> p < e <= s.len(),
{
    proof {
        lemma_token_bounds(s@, p as int);
        reveal(r_cardinality);
    }
    match read_integer(s, p) {
        None => None,
        Some((Some(n), e)) => Some((Ok(n), e)),
        Some((None, e)) => Some((Err(Failure::Abort), e)),
    }
}

/// See [`r_annotation_value`].
pub fn read_annotation_value(s: &Vec<char>, p: usize, ctx: &Context) -> (r: Reading<AnnotationValue>)
    requires
        p <= s.len(),
    ensures
        read_view(r) == r_annotation_value(s@, p as int, ctx@),
        r matches Some((_, e)) ==> p < e <= s.len(),
{
    proof {
        lemma_leaf_bounds(s@, p as int, ctx@);
        lemma_token_bounds(s@, p as int);
    }
    match read_node_id(s, p) {
        Some((_, e)) => Some((Err(Failure::Abort), e)),
        None => match read_iri(s, p, ctx) {
            Some((Ok(i), e)) => Some((Ok(AnnotationValue::IRI(i)), e)),
            Some((Err(x), e)) => Some((Err(x), e)),
            None => match read_literal(s, p, ctx) {
                Some((Ok(l), e)) => Some((Ok(AnnotationValue::Literal(l)), e)),
                Some((Err(x), e)) => Some((Err(x), e)),
                None => None,
            },
        },
    }
}

/// See [`r_annotation_subject`].
pub fn read_annotation_subject(s: &Vec<char>, p: usize, ctx: &Context) -> (r: Reading<
    AnnotationSubject,
>)
    requires
        p <= s.len(),
    ensures
        read_view(r) == r_annotation_subject(s@, p as int, ctx@),
        r matches Some((_, e)) ==> p < e <= s.len(),
{
    proof {
        lemma_leaf_bounds(s@, p as int, ctx@);
        lemma_token_bounds(s@, p as int);
    }
    match read_iri(s, p, ctx) {
        Some((Ok(i), e)) => Some((Ok(AnnotationSubject::IRI(i)), e)),
        Some((Err(x), e)) => Some((Err(x), e)),
        None => match read_node_id(s, p) {
            Some((id, e)) => Some((Ok(AnnotationSubject::AnonymousIndividual(AnonymousIndividual(id))), e)),
            None => None,
        },
    }
}

/// Values followed by no more values are the same values.
pub proof fn lemma_concat_empty<T>(acc: Result<Seq<T>, SpecError>)
    ensures
        concat(acc, Ok(Seq::empty())) == acc,
{
    match acc {
        Ok(xs) => {
            assert(xs + Seq::<T>::empty() =~= xs);
        },
        Err(_) => {},
    }
}

/// See [`r_chained_dp`].
pub fn read_chained_dp(s: &Vec<char>, p: usize, ctx: &Context) -> (r: Reading<IRI>)
    requires
        p <= s.len(),
    ensures
        read_view(r) == r_chained_dp(s@, p as int, ctx@),
        r matches Some((_, e)) ==> p < e <= s.len(),
{
    match read_iri(s, p, ctx) {
        Some((v, e)) => match close_paren(s, e) {
            None => Some((v, e)),
            Some(_) => None,
        },
        None => None,
    }
}

/// Zero or more individuals, each after white space (see [`star`]).
pub fn read_individuals(s: &Vec<char>, p: usize, ctx: &Context) -> (r: Readings<Individual>)
    requires
        p <= s.len(),
    ensures
        reads_view(r) == star(s@, p as int, |t: int| r_individual(s@, t, ctx@)),
        p <= r.2 <= s.len(),
{
    let ghost f = |t: int| r_individual(s@, t, ctx@);
    let mut acc: Result<Vec<Individual>, Failure> = Ok(Vec::new());
    let mut n: usize = 0;
    let mut pos = p;
    loop
        invariant
            f == (|t: int| r_individual(s@, t, ctx@)),
            p <= pos <= s.len(),
            n <= pos - p,
            concat(results_view(acc), star(s@, pos as int, f).0) == star(s@, p as int, f).0,
            n + star(s@, pos as int, f).1 == star(s@, p as int, f).1,
            star(s@, pos as int, f).2 == star(s@, p as int, f).2,
        ensures
            p <= pos <= s.len(),
            results_view(acc) == star(s@, p as int, f).0,
            n == star(s@, p as int, f).1,
            pos == star(s@, p as int, f).2,
        decreases s.len() - pos,
    {
        let q = skip_ws(s, pos);
        match read_individual(s, q, ctx) {
            Some((v, e)) => {
                if e <= pos {
                    proof {
                        lemma_concat_empty(results_view(acc));
                    }
                    break;
                }
                let ghost rest = star(s@, e as int, f);
                proof {
                    lemma_concat_cons(results_view(acc), result_view(v), rest.0);
                }
                acc = push_result(acc, v);
                n = n + 1;
                pos = e;
            },
            None => {
                proof {
                    lemma_concat_empty(results_view(acc));
                }
                break;
            },
        }
    }
    (acc, n, pos)
}

/// Zero or more literals, each after white space (see [`star`]).
pub fn read_literals(s: &Vec<char>, p: usize, ctx: &Context) -> (r: Readings<Literal>)
    requires
        p <= s.len(),
    ensures
        reads_view(r) == star(s@, p as int, |t: int| r_literal(s@, t, ctx@)),
        p <= r.2 <= s.len(),
{
    let ghost f = |t: int| r_literal(s@, t, ctx@);
    let mut acc: Result<Vec<Literal>, Failure> = Ok(Vec::new());
    let mut n: usize = 0;
    let mut pos = p;
    loop
        invariant
            f == (|t: int| r_literal(s@, t, ctx@)),
            p <= pos <= s.len(),
            n <= pos - p,
            concat(results_view(acc), star(s@, pos as int, f).0) == star(s@, p as int, f).0,
            n + star(s@, pos as int, f).1 == star(s@, p as int, f).1,
            star(s@, pos as int, f).2 == star(s@, p as int, f).2,
        ensures
            p <= pos <= s.len(),
            results_view(acc) == star(s@, p as int, f).0,
            n == star(s@, p as int, f).1,
            pos == star(s@, p as int, f).2,
        decreases s.len() - pos,
    {
        let q = skip_ws(s, pos);
        match read_literal(s, q, ctx) {
            Some((v, e)) => {
                if e <= pos {
                    proof {
                        lemma_concat_empty(results_view(acc));
                    }
                    break;
                }
                let ghost rest = star(s@, e as int, f);
                proof {
                    lemma_concat_cons(results_view(acc), result_view(v), rest.0);
                }
                acc = push_result(acc, v);
                n = n + 1;
                pos = e;
            },
            None => {
                proof {
                    lemma_concat_empty(results_view(acc));
                }
                break;
            },
        }
    }
    (acc, n, pos)
}

/// Zero or more object property expressions, each after white space (see [`star`]).
pub fn read_opes(s: &Vec<char>, p: usize, ctx: &Context) -> (r: Readings<ObjectPropertyExpression>)
    requires
        p <= s.len(),
    ensures
        reads_view(r) == star(s@, p as int, |t: int| r_ope(s@, t, ctx@)),
        p <= r.2 <= s.len(),
{
    let ghost f = |t: int| r_ope(s@, t, ctx@);
    let mut acc: Result<Vec<ObjectPropertyExpression>, Failure> = Ok(Vec::new());
    let mut n: usize = 0;
    let mut pos = p;
    loop
        invariant
            f == (|t: int| r_ope(s@, t, ctx@)),
            p <= pos <= s.len(),
            n <= pos - p,
            concat(results_view(acc), star(s@, pos as int, f).0) == star(s@, p as int, f).0,
            n + star(s@, pos as int, f).1 == star(s@, p as int, f).1,
            star(s@, pos as int, f).2 == star(s@, p as int, f).2,
        ensures
            p <= pos <= s.len(),
            results_view(acc) == star(s@, p as int, f).0,
            n == star(s@, p as int, f).1,
            pos == star(s@, p as int, f).2,
        decreases s.len() - pos,
    {
        let q = skip_ws(s, pos);
        match read_ope(s, q, ctx) {
            Some((v, e)) => {
                if e <= pos {
                    proof {
                        lemma_concat_empty(results_view(acc));
                    }
                    break;
                }
                let ghost rest = star(s@, e as int, f);
                proof {
                    lemma_concat_cons(results_view(acc), result_view(v), rest.0);
                }
                acc = push_result(acc, v);
                n = n + 1;
                pos = e;
            },
            None => {
                proof {
                    lemma_concat_empty(results_view(acc));
                }
                break;
            },
        }
    }
    (acc, n, pos)
}

/// Zero or more IRIs, each after white space (see [`star`]).
pub fn read_iris(s: &Vec<char>, p: usize, ctx: &Context) -> (r: Readings<IRI>)
    requires
        p <= s.len(),
    ensures
        reads_view(r) == star(s@, p as int, |t: int| r_iri(s@, t, ctx@)),
        p <= r.2 <= s.len(),
{
    let ghost f = |t: int| r_iri(s@, t, ctx@);
    let mut acc: Result<Vec<IRI>, Failure> = Ok(Vec::new());
    let mut n: usize = 0;
    let mut pos = p;
    loop
        invariant
            f == (|t: int| r_iri(s@, t, ctx@)),
            p <= pos <= s.len(),
            n <= pos - p,
            concat(results_view(acc), star(s@, pos as int, f).0) == star(s@, p as int, f).0,
            n + star(s@, pos as int, f).1 == star(s@, p as int, f).1,
            star(s@, pos as int, f).2 == star(s@, p as int, f).2,
        ensures
            p <= pos <= s.len(),
            results_view(acc) == star(s@, p as int, f).0,
            n == star(s@, p as int, f).1,
            pos == star(s@, p as int, f).2,
        decreases s.len() - pos,
    {
        let q = skip_ws(s, pos);
        match read_iri(s, q, ctx) {
            Some((v, e)) => {
                if e <= pos {
                    proof {
                        lemma_concat_empty(results_view(acc));
                    }
                    break;
                }
                let ghost rest = star(s@, e as int, f);
                proof {
                    lemma_concat_cons(results_view(acc), result_view(v), rest.0);
                }
                acc = push_result(acc, v);
                n = n + 1;
                pos = e;
            },
            None => {
                proof {
                    lemma_concat_empty(results_view(acc));
                }
                break;
            },
        }
    }
    (acc, n, pos)
}

/// Zero or more facet restrictions, each after white space (see [`star`]).
pub fn read_facet_restrictions(s: &Vec<char>, p: usize, ctx: &Context) -> (r: Readings<FacetRestriction>)
    requires
        p <= s.len(),
    ensures
        reads_view(r) == star(s@, p as int, |t: int| r_facet_restriction(s@, t, ctx@)),
        p <= r.2 <= s.len(),
{
    let ghost f = |t: int| r_facet_restriction(s@, t, ctx@);
    let mut acc: Result<Vec<FacetRestriction>, Failure> = Ok(Vec::new());
    let mut n: usize = 0;
    let mut pos = p;
    loop
        invariant
            f == (|t: int| r_facet_restriction(s@, t, ctx@)),
            p <= pos <= s.len(),
            n <= pos - p,
            concat(results_view(acc), star(s@, pos as int, f).0) == star(s@, p as int, f).0,
            n + star(s@, pos as int, f).1 == star(s@, p as int, f).1,
            star(s@, pos as int, f).2 == star(s@, p as int, f).2,
        ensures
            p <= pos <= s.len(),
            results_view(acc) == star(s@, p as int, f).0,
            n == star(s@, p as int, f).1,
            pos == star(s@, p as int, f).2,
        decreases s.len() - pos,
    {
        let q = skip_ws(s, pos);
        match read_facet_restriction(s, q, ctx) {
            Some((v, e)) => {
                if e <= pos {
                    proof {
                        lemma_concat_empty(results_view(acc));
                    }
                    break;
                }
                let ghost rest = star(s@, e as int, f);
                proof {
                    lemma_concat_cons(results_view(acc), result_view(v), rest.0);
                }
                acc = push_result(acc, v);
                n = n + 1;
                pos = e;
            },
            None => {
                proof {
                    lemma_concat_empty(results_view(acc));
                }
                break;
            },
        }
    }
    (acc, n, pos)
}

/// Zero or more further data properties of a chain, each after white space (see [`star`]).
pub fn read_chained_dps(s: &Vec<char>, p: usize, ctx: &Context) -> (r: Readings<IRI>)
    requires
        p <= s.len(),
    ensures
        reads_view(r) == star(s@, p as int, |t: int| r_chained_dp(s@, t, ctx@)),
        p <= r.2 <= s.len(),
{
    let ghost f = |t: int| r_chained_dp(s@, t, ctx@);
    let mut acc: Result<Vec<IRI>, Failure> = Ok(Vec::new());
    let mut n: usize = 0;
    let mut pos = p;
    loop
        invariant
            f == (|t: int| r_chained_dp(s@, t, ctx@)),
            p <= pos <= s.len(),
            n <= pos - p,
            concat(results_view(acc), star(s@, pos as int, f).0) == star(s@, p as int, f).0,
            n + star(s@, pos as int, f).1 == star(s@, p as int, f).1,
            star(s@, pos as int, f).2 == star(s@, p as int, f).2,
        ensures
            p <= pos <= s.len(),
            results_view(acc) == star(s@, p as int, f).0,
            n == star(s@, p as int, f).1,
            pos == star(s@, p as int, f).2,
        decreases s.len() - pos,
    {
        let q = skip_ws(s, pos);
        match read_chained_dp(s, q, ctx) {
            Some((v, e)) => {
                if e <= pos {
                    proof {
                        lemma_concat_empty(results_view(acc));
                    }
                    break;
                }
                let ghost rest = star(s@, e as int, f);
                proof {
                    lemma_concat_cons(results_view(acc), result_view(v), rest.0);
                }
                acc = push_result(acc, v);
                n = n + 1;
                pos = e;
            },
            None => {
                proof {
                    lemma_concat_empty(results_view(acc));
                }
                break;
            },
        }
    }
    (acc, n, pos)
}

/// The values read so far, with one more in front; the first failure wins.
pub fn cons_result<T: View>(v: Result<T, Failure>, rest: Result<Vec<T>, Failure>) -> (r: Result<
    Vec<T>,
    Failure,
>)
    ensures
        results_view(r) == cons(result_view(v), results_view(rest)),
{
    match v {
        Err(f) => Err(f),
        Ok(x) => match rest {
            Err(f) => Err(f),
            Ok(mut xs) => {
                let ghost before = xs@;
                xs.insert(0, x);
                assert(xs@.map_values(|y: T| y@) =~= seq![x@] + before.map_values(|y: T| y@));
                Ok(xs)
            },
        },
    }
}

/// No values yet.
pub fn no_results<T: View>() -> (r: Result<Vec<T>, Failure>)
    ensures
        results_view(r) == Ok::<Seq<T::V>, SpecError>(Seq::empty()),
{
    let v: Vec<T> = Vec::new();
    assert(v@.map_values(|y: T| y@) =~= Seq::<T::V>::empty());
    Ok(v)
}

/// See [`r_dr`].
pub fn read_dr(s: &Vec<char>, p: usize, ctx: &Context) -> (r: Reading<DataRange>)
    requires
        p <= s.len(),
    ensures
        read_view(r) == r_dr(s@, p as int, ctx@),
        r matches Some((_, e)) ==> p < e <= s.len(),
    decreases s.len() - p, 1int,
{
    match read_iri(s, p, ctx) {
        Some((v, e)) => Some(
            (
                match v {
                    Ok(i) => Ok(DataRange::Datatype(i)),
                    Err(x) => Err(x),
                },
                e,
            ),
        ),
        None => read_dr_body(s, p, ctx),
    }
}

/// See [`r_dr_seq`].
pub fn read_dr_seq(s: &Vec<char>, p: usize, ctx: &Context) -> (r: Readings<DataRange>)
    requires
        p <= s.len(),
    ensures
        reads_view(r) == r_dr_seq(s@, p as int, ctx@),
        p <= r.2 <= s.len(),
        r.1 <= r.2 - p,
    decreases s.len() - p, 2int,
{
    let q = skip_ws(s, p);
    match read_dr(s, q, ctx) {
        Some((v, e)) => if p < e {
            let (rest, n, end) = read_dr_seq(s, e, ctx);
            (cons_result(v, rest), n + 1, end)
        } else {
            (no_results(), 0, p)
        },
        None => (no_results(), 0, p),
    }
}

/// See [`dr_body`].
pub fn read_dr_body(s: &Vec<char>, p: usize, ctx: &Context) -> (r: Reading<DataRange>)
    requires
        p <= s.len(),
    ensures
        read_view(r) == dr_body(s@, p as int, ctx@),
        r matches Some((_, e)) ==> p < e <= s.len(),
    decreases s.len() - p, 0int,
{
    let le = find_letters_end(s, p);
    let q = match open_paren(s, le) {
        None => return None,
        Some(q) => q,
    };
    let inter = matches_word(s, p, le, "DataIntersectionOf");
    if inter || matches_word(s, p, le, "DataUnionOf") {
        let (v, n, e) = read_dr_seq(s, q, ctx);
        if n < 2 {
            return None;
        }
        match close_paren(s, e) {
            None => None,
            Some(f) => Some(
                (
                    match v {
                        Ok(xs) => {
                            proof {
                                lemma_view_dr_seq_map(xs@);
                            }
                            if inter {
                                Ok(DataRange::DataIntersectionOf(xs))
                            } else {
                                Ok(DataRange::DataUnionOf(xs))
                            }
                        },
                        Err(x) => Err(x),
                    },
                    f,
                ),
            ),
        }
    } else if matches_word(s, p, le, "DataComplementOf") {
        match read_dr(s, skip_ws(s, q), ctx) {
            None => None,
            Some((v, e)) => match close_paren(s, e) {
                None => None,
                Some(f) => Some(
                    (
                        match v {
                            Ok(d) => Ok(DataRange::DataComplementOf(Box::new(d))),
                            Err(x) => Err(x),
                        },
                        f,
                    ),
                ),
            },
        }
    } else if matches_word(s, p, le, "DataOneOf") {
        let (v, n, e) = read_literals(s, q, ctx);
        if n < 1 {
            return None;
        }
        match close_paren(s, e) {
            None => None,
            Some(f) => Some(
                (
                    match v {
                        Ok(xs) => Ok(DataRange::DataOneOf(xs)),
                        Err(x) => Err(x),
                    },
                    f,
                ),
            ),
        }
    } else if matches_word(s, p, le, "DatatypeRestriction") {
        match read_iri(s, skip_ws(s, q), ctx) {
            None => None,
            Some((dt, e1)) => {
                let (v, n, e) = read_facet_restrictions(s, e1, ctx);
                if n < 1 {
                    return None;
                }
                match close_paren(s, e) {
                    None => None,
                    Some(f) => Some(
                        (
                            match dt {
                                Err(x) => Err(x),
                                Ok(d) => match v {
                                    Err(x) => Err(x),
                                    Ok(fr) => Ok(DataRange::DatatypeRestriction(d, fr)),
                                },
                            },
                            f,
                        ),
                    ),
                }
            },
        }
    } else {
        None
    }
}

/// See [`r_ce`].
pub fn read_ce(s: &Vec<char>, p: usize, ctx: &Context) -> (r: Reading<ClassExpression>)
    requires
        p <= s.len(),
    ensures
        read_view(r) == r_ce(s@, p as int, ctx@),
        r matches Some((_, e)) ==> p < e <= s.len(),
    decreases s.len() - p, 2int,
{
    match read_iri(s, p, ctx) {
        Some((v, e)) => Some(
            (
                match v {
                    Ok(i) => Ok(ClassExpression::Class(i)),
                    Err(x) => Err(x),
                },
                e,
            ),
        ),
        None => read_ce_body(s, p, ctx),
    }
}

/// Mathematical form of class expressions read one after the other.
pub open spec fn ces_view(r: Readings<ClassExpression>) -> Reads<SpecClassExpression> {
    (
        match r.0 {
            Ok(v) => Ok(view_ce_seq(v@)),
            Err(f) => Err(f@),
        },
        r.1 as nat,
        r.2 as int,
    )
}

/// See [`r_ce_seq`].
pub fn read_ce_seq(s: &Vec<char>, p: usize, ctx: &Context) -> (r: Readings<ClassExpression>)
    requires
        p <= s.len(),
    ensures
        ces_view(r) == r_ce_seq(s@, p as int, ctx@),
        p <= r.2 <= s.len(),
        r.1 <= r.2 - p,
    decreases s.len() - p, 3int,
{
    let q = skip_ws(s, p);
    let r = match read_ce(s, q, ctx) {
        Some((v, e)) => if p < e {
            let (rest, n, end) = read_ce_seq(s, e, ctx);
            proof {
                if rest is Ok {
                    lemma_view_ce_seq_map(rest->Ok_0@);
                }
            }
            (cons_result(v, rest), n + 1, end)
        } else {
            (no_results(), 0, p)
        },
        None => (no_results(), 0, p),
    };
    proof {
        if r.0 is Ok {
            lemma_view_ce_seq_map(r.0->Ok_0@);
        }
    }
    r
}

/// See [`ce_body`].
pub fn read_ce_body(s: &Vec<char>, p: usize, ctx: &Context) -> (r: Reading<ClassExpression>)
    requires
        p <= s.len(),
    ensures
        read_view(r) == ce_body(s@, p as int, ctx@),
        r matches Some((_, e)) ==> p < e <= s.len(),
    decreases s.len() - p, 1int,
{
    let le = find_letters_end(s, p);
    let q = match open_paren(s, le) {
        None => return None,
        Some(q) => q,
    };
    match read_ce_parts(s, p, le, q, ctx) {
        None => None,
        Some((v, e)) => match close_paren(s, e) {
            None => None,
            Some(f) => Some((v, f)),
        },
    }
}

/// See [`ce_parts`]: the constructor is the word from `p` to `le`.
#[verifier::spinoff_prover]
#[verifier::rlimit(40)]
pub fn read_ce_parts(s: &Vec<char>, p: usize, le: usize, q: usize, ctx: &Context) -> (r: Reading<
    ClassExpression,
>)
    requires
        p <= le < q <= s.len(),
        le == letters_end(s@, p as int),
    ensures
        read_view(r) == ce_parts(word(s@, p as int), s@, q as int, ctx@),
        r matches Some((_, e)) ==> q <= e <= s.len(),
    decreases s.len() - q, 5int,
{
    if matches_word(s, p, le, "ObjectIntersectionOf") {
        read_ce_nary(s, q, ctx, false)
    } else if matches_word(s, p, le, "ObjectUnionOf") {
        read_ce_nary(s, q, ctx, true)
    } else if matches_word(s, p, le, "ObjectComplementOf") {
        match read_ce(s, skip_ws(s, q), ctx) {
            None => None,
            Some((v, e)) => Some(
                (
                    match v {
                        Ok(c) => Ok(ClassExpression::ObjectComplementOf(Box::new(c))),
                        Err(x) => Err(x),
                    },
                    e,
                ),
            ),
        }
    } else if matches_word(s, p, le, "ObjectOneOf") {
        let (v, n, e) = read_individuals(s, q, ctx);
        if n < 1 {
            return None;
        }
        Some(
            (
                match v {
                    Ok(xs) => Ok(ClassExpression::ObjectOneOf(xs)),
                    Err(x) => Err(x),
                },
                e,
            ),
        )
    } else if matches_word(s, p, le, "ObjectSomeValuesFrom") {
        read_ce_quantified(s, q, ctx, false)
    } else if matches_word(s, p, le, "ObjectAllValuesFrom") {
        read_ce_quantified(s, q, ctx, true)
    } else if matches_word(s, p, le, "ObjectHasValue") {
        read_ce_has_value(s, q, ctx)
    } else if matches_word(s, p, le, "ObjectHasSelf") {
        match read_ope(s, skip_ws(s, q), ctx) {
            None => None,
            Some((v, e)) => Some(
                (
                    match v {
                        Ok(o) => Ok(ClassExpression::ObjectHasSelf(o)),
                        Err(x) => Err(x),
                    },
                    e,
                ),
            ),
        }
    } else if matches_word(s, p, le, "ObjectMinCardinality") {
        read_ce_object_cardinality(s, q, ctx, 0)
    } else if matches_word(s, p, le, "ObjectMaxCardinality") {
        read_ce_object_cardinality(s, q, ctx, 1)
    } else if matches_word(s, p, le, "ObjectExactCardinality") {
        read_ce_object_cardinality(s, q, ctx, 2)
    } else if matches_word(s, p, le, "DataSomeValuesFrom") {
        read_ce_data_quantified(s, q, ctx, false)
    } else if matches_word(s, p, le, "DataAllValuesFrom") {
        read_ce_data_quantified(s, q, ctx, true)
    } else if matches_word(s, p, le, "DataHasValue") {
        read_ce_data_has_value(s, q, ctx)
    } else if matches_word(s, p, le, "DataMinCardinality") {
        read_ce_data_cardinality(s, q, ctx, 0)
    } else if matches_word(s, p, le, "DataMaxCardinality") {
        read_ce_data_cardinality(s, q, ctx, 1)
    } else if matches_word(s, p, le, "DataExactCardinality") {
        read_ce_data_cardinality(s, q, ctx, 2)
    } else {
        None
    }
}

/// See [`ce_nary`].
pub fn read_ce_nary(s: &Vec<char>, q: usize, ctx: &Context, union: bool) -> (r: Reading<ClassExpression>)
    requires
        q <= s.len(),
    ensures
        read_view(r) == ce_nary(s@, q as int, ctx@, union),
        r matches Some((_, e)) ==> q <= e <= s.len(),
    decreases s.len() - q, 4int,
{
    let (v, n, e) = read_ce_seq(s, q, ctx);
    if n < 2 {
        return None;
    }
    Some(
        (
            match v {
                Ok(xs) => if union {
                    Ok(ClassExpression::ObjectUnionOf(xs))
                } else {
                    Ok(ClassExpression::ObjectIntersectionOf(xs))
                },
                Err(x) => Err(x),
            },
            e,
        ),
    )
}

/// See [`ce_quantified`].
pub fn read_ce_quantified(s: &Vec<char>, q: usize, ctx: &Context, all: bool) -> (r: Reading<
    ClassExpression,
>)
    requires
        q <= s.len(),
    ensures
        read_view(r) == ce_quantified(s@, q as int, ctx@, all),
        r matches Some((_, e)) ==> q <= e <= s.len(),
    decreases s.len() - q, 4int,
{
    match read_ope(s, skip_ws(s, q), ctx) {
        None => None,
        Some((o, e1)) => match read_ce(s, skip_ws(s, e1), ctx) {
            None => None,
            Some((c, e2)) => Some(
                (
                    match o {
                        Err(x) => Err(x),
                        Ok(ope) => match c {
                            Err(x) => Err(x),
                            Ok(bce) => Ok(
                                if all {
                                    ClassExpression::ObjectAllValuesFrom { ope, bce: Box::new(bce) }
                                } else {
                                    ClassExpression::ObjectSomeValuesFrom { ope, bce: Box::new(bce) }
                                },
                            ),
                        },
                    },
                    e2,
                ),
            ),
        },
    }
}

/// `OPE Individual` of `ObjectHasValue` (see [`ce_parts`]).
pub fn read_ce_has_value(s: &Vec<char>, q: usize, ctx: &Context) -> (r: Reading<ClassExpression>)
    requires
        q <= s.len(),
    ensures
        read_view(r) == lift_read(
            then(s@, r_ope(s@, ws(s@, q as int), ctx@), |t: int| r_individual(s@, t, ctx@)),
            |x: (SpecObjectPropertyExpression, SpecIndividual)|
                SpecClassExpression::ObjectHasValue { ope: x.0, i: x.1 },
        ),
        r matches Some((_, e)) ==> q <= e <= s.len(),
{
    match read_ope(s, skip_ws(s, q), ctx) {
        None => None,
        Some((o, e1)) => match read_individual(s, skip_ws(s, e1), ctx) {
            None => None,
            Some((i, e2)) => Some(
                (
                    match o {
                        Err(x) => Err(x),
                        Ok(ope) => match i {
                            Err(x) => Err(x),
                            Ok(i) => Ok(ClassExpression::ObjectHasValue { ope, i }),
                        },
                    },
                    e2,
                ),
            ),
        },
    }
}

/// The value of an object cardinality restriction (see
/// [`object_cardinality_value`]).
fn object_cardinality(
    kind: u8,
    n: Result<u32, Failure>,
    o: Result<ObjectPropertyExpression, Failure>,
    c: Result<ClassExpression, Failure>,
) -> (r: Result<ClassExpression, Failure>)
    requires
        kind < 3,
    ensures
        result_view(r) == object_cardinality_value(kind as int, result_view(n), result_view(o), result_view(c)),
{
    match n {
        Err(x) => Err(x),
        Ok(n) => match o {
            Err(x) => Err(x),
            Ok(ope) => match c {
                Err(x) => Err(x),
                Ok(bce) => Ok(
                    if kind == 0 {
                        ClassExpression::ObjectMinCardinality { n, ope, bce: Box::new(bce) }
                    } else if kind == 1 {
                        ClassExpression::ObjectMaxCardinality { n, ope, bce: Box::new(bce) }
                    } else {
                        ClassExpression::ObjectExactCardinality { n, ope, bce: Box::new(bce) }
                    },
                ),
            },
        },
    }
}

/// See [`ce_object_cardinality`].
pub fn read_ce_object_cardinality(s: &Vec<char>, q: usize, ctx: &Context, kind: u8) -> (r: Reading<
    ClassExpression,
>)
    requires
        q <= s.len(),
        kind < 3,
    ensures
        read_view(r) == ce_object_cardinality(s@, q as int, ctx@, kind as int),
        r matches Some((_, e)) ==> q <= e <= s.len(),
    decreases s.len() - q, 4int,
{
    match read_cardinality(s, skip_ws(s, q)) {
        None => None,
        Some((n, e0)) => match read_ope(s, skip_ws(s, e0), ctx) {
            None => None,
            Some((o, e1)) => match read_ce(s, skip_ws(s, e1), ctx) {
                Some((c, e2)) => Some((object_cardinality(kind, n, o, c), e2)),
                None => {
                    let thing = ClassExpression::Class(IRI(owl_thing()));
                    Some((object_cardinality(kind, n, o, Ok(thing)), e1))
                },
            },
        },
    }
}

/// See [`ce_data_quantified`].
pub fn read_ce_data_quantified(s: &Vec<char>, q: usize, ctx: &Context, all: bool) -> (r: Reading<
    ClassExpression,
>)
    requires
        q <= s.len(),
    ensures
        read_view(r) == ce_data_quantified(s@, q as int, ctx@, all),
        r matches Some((_, e)) ==> q <= e <= s.len(),
{
    match read_iri(s, skip_ws(s, q), ctx) {
        None => None,
        Some((d, e1)) => {
            let (_, k, e2) = read_chained_dps(s, e1, ctx);
            match read_dr(s, skip_ws(s, e2), ctx) {
                None => None,
                Some((r, e3)) => Some(
                    (
                        match d {
                            Err(x) => Err(x),
                            Ok(dp) => if k > 0 {
                                Err(
                                    Failure::Error(
                                        Error::Unsupported(
                                            if all {
                                                Unsupported::DataAllValuesFromChain
                                            } else {
                                                Unsupported::DataSomeValuesFromChain
                                            },
                                        ),
                                    ),
                                )
                            } else {
                                match r {
                                    Err(x) => Err(x),
                                    Ok(dr) => if all {
                                        Ok(ClassExpression::DataAllValuesFrom { dp, dr })
                                    } else {
                                        Ok(ClassExpression::DataSomeValuesFrom { dp, dr })
                                    },
                                }
                            },
                        },
                        e3,
                    ),
                ),
            }
        },
    }
}

/// `DP Literal` of `DataHasValue` (see [`ce_parts`]).
pub fn read_ce_data_has_value(s: &Vec<char>, q: usize, ctx: &Context) -> (r: Reading<ClassExpression>)
    requires
        q <= s.len(),
    ensures
        read_view(r) == lift_read(
            then(s@, r_iri(s@, ws(s@, q as int), ctx@), |t: int| r_literal(s@, t, ctx@)),
            |x: (Seq<char>, SpecLiteral)| SpecClassExpression::DataHasValue { dp: x.0, l: x.1 },
        ),
        r matches Some((_, e)) ==> q <= e <= s.len(),
{
    match read_iri(s, skip_ws(s, q), ctx) {
        None => None,
        Some((d, e1)) => match read_literal(s, skip_ws(s, e1), ctx) {
            None => None,
            Some((l, e2)) => Some(
                (
                    match d {
                        Err(x) => Err(x),
                        Ok(dp) => match l {
                            Err(x) => Err(x),
                            Ok(l) => Ok(ClassExpression::DataHasValue { dp, l }),
                        },
                    },
                    e2,
                ),
            ),
        },
    }
}

/// The value of a data cardinality restriction (see
/// [`data_cardinality_value`]).
fn data_cardinality(
    kind: u8,
    n: Result<u32, Failure>,
    d: Result<IRI, Failure>,
    r: Result<DataRange, Failure>,
) -> (v: Result<ClassExpression, Failure>)
    requires
        kind < 3,
    ensures
        result_view(v) == data_cardinality_value(kind as int, result_view(n), result_view(d), result_view(r)),
{
    match n {
        Err(x) => Err(x),
        Ok(n) => match d {
            Err(x) => Err(x),
            Ok(dp) => match r {
                Err(x) => Err(x),
                Ok(dr) => Ok(
                    if kind == 0 {
                        ClassExpression::DataMinCardinality { n, dp, dr }
                    } else if kind == 1 {
                        ClassExpression::DataMaxCardinality { n, dp, dr }
                    } else {
                        ClassExpression::DataExactCardinality { n, dp, dr }
                    },
                ),
            },
        },
    }
}

/// See [`ce_data_cardinality`].
pub fn read_ce_data_cardinality(s: &Vec<char>, q: usize, ctx: &Context, kind: u8) -> (r: Reading<
    ClassExpression,
>)
    requires
        q <= s.len(),
        kind < 3,
    ensures
        read_view(r) == ce_data_cardinality(s@, q as int, ctx@, kind as int),
        r matches Some((_, e)) ==> q <= e <= s.len(),
{
    match read_cardinality(s, skip_ws(s, q)) {
        None => None,
        Some((n, e0)) => match read_iri(s, skip_ws(s, e0), ctx) {
            None => None,
            Some((d, e1)) => match read_dr(s, skip_ws(s, e1), ctx) {
                Some((r, e2)) => Some((data_cardinality(kind, n, d, r), e2)),
                None => {
                    let lit = DataRange::Datatype(IRI(rdfs_literal()));
                    Some((data_cardinality(kind, n, d, Ok(lit)), e1))
                },
            },
        },
    }
}

/// See [`r_annotation`].
pub fn read_annotation(s: &Vec<char>, p: usize, ctx: &Context) -> (r: Reading<Annotation>)
    requires
        p <= s.len(),
    ensures
        read_view(r) == r_annotation(s@, p as int, ctx@),
        r matches Some((_, e)) ==> p < e <= s.len(),
    decreases s.len() - p, 0int,
{
    let le = find_letters_end(s, p);
    if !matches_word(s, p, le, "Annotation") {
        return None;
    }
    let q = match open_paren(s, le) {
        None => return None,
        Some(q) => q,
    };
    let (anns, _, e0) = read_annotation_seq(s, q, ctx);
    match read_iri(s, skip_ws(s, e0), ctx) {
        None => None,
        Some((ap, e1)) => match read_annotation_value(s, skip_ws(s, e1), ctx) {
            None => None,
            Some((av, e)) => match close_paren(s, e) {
                None => None,
                Some(f) => Some(
                    (
                        match anns {
                            Err(x) => Err(x),
                            Ok(_) => match ap {
                                Err(x) => Err(x),
                                Ok(ap) => match av {
                                    Err(x) => Err(x),
                                    Ok(av) => Ok(Annotation { ap, av }),
                                },
                            },
                        },
                        f,
                    ),
                ),
            },
        },
    }
}

/// See [`r_annotation_seq`].
pub fn read_annotation_seq(s: &Vec<char>, p: usize, ctx: &Context) -> (r: Readings<Annotation>)
    requires
        p <= s.len(),
    ensures
        reads_view(r) == r_annotation_seq(s@, p as int, ctx@),
        p <= r.2 <= s.len(),
        r.1 <= r.2 - p,
    decreases s.len() - p, 1int,
{
    let q = skip_ws(s, p);
    match read_annotation(s, q, ctx) {
        Some((v, e)) => if p < e {
            let (rest, n, end) = read_annotation_seq(s, e, ctx);
            (cons_result(v, rest), n + 1, end)
        } else {
            (no_results(), 0, p)
        },
        None => (no_results(), 0, p),
    }
}

/// See [`r_sub_ope`].
pub fn read_sub_ope(s: &Vec<char>, p: usize, ctx: &Context) -> (r: Reading<SubObjectPropertyExpression>)
    requires
        p <= s.len(),
    ensures
        read_view(r) == r_sub_ope(s@, p as int, ctx@),
        r matches Some((_, e)) ==> p < e <= s.len(),
{
    match read_ope(s, p, ctx) {
        Some((v, e)) => Some(
            (
                match v {
                    Ok(o) => Ok(SubObjectPropertyExpression::ObjectPropertyExpression(o)),
                    Err(x) => Err(x),
                },
                e,
            ),
        ),
        None => {
            let le = find_letters_end(s, p);
            if !matches_word(s, p, le, "ObjectPropertyChain") {
                return None;
            }
            match open_paren(s, le) {
                None => None,
                Some(q) => {
                    let (v, n, e) = read_opes(s, q, ctx);
                    if n < 2 {
                        return None;
                    }
                    match close_paren(s, e) {
                        None => None,
                        Some(f) => Some(
                            (
                                match v {
                                    Ok(c) => Ok(SubObjectPropertyExpression::ObjectPropertyChain(c)),
                                    Err(x) => Err(x),
                                },
                                f,
                            ),
                        ),
                    }
                },
            }
        },
    }
}

/// See [`r_entity`].
pub fn read_entity(s: &Vec<char>, p: usize, ctx: &Context) -> (r: Reading<Axiom>)
    requires
        p <= s.len(),
    ensures
        read_view(r) == r_entity(s@, p as int, ctx@),
        r matches Some((_, e)) ==> p < e <= s.len(),
{
    let le = find_letters_end(s, p);
    let q = match open_paren(s, le) {
        None => return None,
        Some(q) => q,
    };
    let (i, e) = match read_iri(s, skip_ws(s, q), ctx) {
        None => return None,
        Some(x) => x,
    };
    let f = match close_paren(s, e) {
        None => return None,
        Some(f) => f,
    };
    let i = match i {
        Err(x) => {
            if matches_word(s, p, le, "Class") || matches_word(s, p, le, "Datatype") || matches_word(
                s,
                p,
                le,
                "ObjectProperty",
            ) || matches_word(s, p, le, "DataProperty") || matches_word(
                s,
                p,
                le,
                "AnnotationProperty",
            ) || matches_word(s, p, le, "NamedIndividual") {
                return Some((Err(x), f));
            } else {
                return None;
            }
        },
        Ok(i) => i,
    };
    if matches_word(s, p, le, "Class") {
        Some((Ok(Axiom::DeclareClass(i)), f))
    } else if matches_word(s, p, le, "Datatype") {
        Some((Ok(Axiom::DeclareDatatype(i)), f))
    } else if matches_word(s, p, le, "ObjectProperty") {
        Some((Ok(Axiom::DeclareObjectProperty(i)), f))
    } else if matches_word(s, p, le, "DataProperty") {
        Some((Ok(Axiom::DeclareDataProperty(i)), f))
    } else if matches_word(s, p, le, "AnnotationProperty") {
        Some((Ok(Axiom::DeclareAnnotationProperty(i)), f))
    } else if matches_word(s, p, le, "NamedIndividual") {
        Some((Ok(Axiom::DeclareNamedIndividual(i)), f))
    } else {
        None
    }
}

/// A copy of an IRI.
pub fn copy_iri(i: &IRI) -> (r: IRI)
    ensures
        r == *i,
{
    IRI(i.0.clone())
}

/// A copy of an object property expression.
pub fn copy_ope(o: &ObjectPropertyExpression) -> (r: ObjectPropertyExpression)
    ensures
        r == *o,
{
    match o {
        ObjectPropertyExpression::ObjectProperty(i) => ObjectPropertyExpression::ObjectProperty(copy_iri(i)),
        ObjectPropertyExpression::InverseObjectProperty(i) => ObjectPropertyExpression::InverseObjectProperty(
            copy_iri(i),
        ),
    }
}

/// The properties of a key: the object property expressions, then the data
/// properties.
pub fn key_properties(os: Vec<ObjectPropertyExpression>, ds: Vec<IRI>) -> (r: Vec<PropertyExpression>)
    ensures
        r@.map_values(|x: PropertyExpression| x@) == os@.map_values(|x: ObjectPropertyExpression| x@).map_values(
            |o: SpecObjectPropertyExpression| SpecPropertyExpression::ObjectPropertyExpression(o),
        ) + ds@.map_values(|x: IRI| x@).map_values(|d: Seq<char>| SpecPropertyExpression::DataProperty(d)),
{
    let ghost a = os@.map_values(|x: ObjectPropertyExpression| x@).map_values(
        |o: SpecObjectPropertyExpression| SpecPropertyExpression::ObjectPropertyExpression(o),
    );
    let ghost b = ds@.map_values(|x: IRI| x@).map_values(|d: Seq<char>| SpecPropertyExpression::DataProperty(d));
    let mut r: Vec<PropertyExpression> = Vec::new();
    let mut i: usize = 0;
    while i < os.len()
        invariant
            i <= os.len(),
            r@.len() == i,
            forall|k: int| 0 <= k < i ==> #[trigger] r@[k] == PropertyExpression::ObjectPropertyExpression(os@[k]),
        decreases os.len() - i,
    {
        r.push(PropertyExpression::ObjectPropertyExpression(copy_ope(&os[i])));
        i = i + 1;
    }
    let mut j: usize = 0;
    while j < ds.len()
        invariant
            j <= ds.len(),
            r@.len() == os.len() + j,
            forall|k: int| 0 <= k < os.len() ==> #[trigger] r@[k] == PropertyExpression::ObjectPropertyExpression(os@[k]),
            forall|k: int| 0 <= k < j ==> #[trigger] r@[os.len() + k] == PropertyExpression::DataProperty(ds@[k]),
        decreases ds.len() - j,
    {
        r.push(PropertyExpression::DataProperty(copy_iri(&ds[j])));
        j = j + 1;
    }
    let ghost rv = r@.map_values(|x: PropertyExpression| x@);
    assert forall|k: int| 0 <= k < r@.len() implies #[trigger] rv[k] == (a + b)[k] by {
        if k < os.len() {
            assert(r@[k] == PropertyExpression::ObjectPropertyExpression(os@[k]));
        } else {
            assert(r@[os.len() + (k - os.len())] == PropertyExpression::DataProperty(ds@[k - os.len()]));
        }
    }
    assert(rv =~= a + b);
    r
}

/// See [`has_key_parts`].
pub fn read_has_key_parts(s: &Vec<char>, u: usize, ctx: &Context) -> (r: Reading<Axiom>)
    requires
        u <= s.len(),
    ensures
        read_view(r) == has_key_parts(s@, u as int, ctx@),
        r matches Some((_, e)) ==> u <= e <= s.len(),
{
    let (c, e1) = match read_ce(s, u, ctx) {
        None => return None,
        Some(x) => x,
    };
    let q1 = match open_paren(s, e1) {
        None => return None,
        Some(q) => q,
    };
    let (os, _, e2) = read_opes(s, q1, ctx);
    let f1 = match close_paren(s, e2) {
        None => return None,
        Some(f) => f,
    };
    let q2 = match open_paren(s, f1) {
        None => return None,
        Some(q) => q,
    };
    let (ds, _, e3) = read_iris(s, q2, ctx);
    let f2 = match close_paren(s, e3) {
        None => return None,
        Some(f) => f,
    };
    let v = match c {
        Err(x) => Err(x),
        Ok(ce) => match os {
            Err(x) => Err(x),
            Ok(os) => match ds {
                Err(x) => Err(x),
                Ok(ds) => Ok(Axiom::HasKey { ce, vpe: key_properties(os, ds) }),
            },
        },
    };
    Some((v, f2))
}

} // verus!
