//! The grammar of the functional syntax, as a reading function per element:
//! given the input and the position where the element must start, a reading
//! is `None` when the element is not there, and otherwise the element's
//! value (or the first error met while building it) with the position after
//! it. Syntax decides alone whether and where an element is read: errors of
//! the value (an unknown prefix, an unknown facet, ...) never stop the
//! reading of the text, which is how a document is first matched as a whole
//! and only then turned into values.
use vstd::prelude::*;
use crate::error::{ExpansionError, SpecError, SyntaxError, Unsupported};
use crate::sets::{annotation_set, axiom_set};
use crate::lexical::{
    abbreviated_iri, full_iri, integer, language_tag, lemma_run_ends, lemma_token_bounds, lemma_ws,
    letters_end, node_id, prefix_name, quoted_string, word, ws,
};
use crate::model::{
    Facet, SpecAnnotatedAxiom, SpecAnnotation, SpecAnnotationSubject, SpecAnnotationValue,
    SpecAxiom, SpecClassExpression, SpecDataRange, SpecFacetRestriction, SpecIndividual,
    SpecLiteral, SpecObjectPropertyExpression, SpecOntology, SpecPropertyExpression,
    SpecSubObjectPropertyExpression,
};
use crate::prefixes::{SpecPrefixes, expand, insert_prefix};
use crate::vocab::{facet_iri_text, facet_order, owl_thing_text, rdfs_literal_text};

verus! {

/// The prefixes that abbreviated IRIs are expanded with, if any.
pub type Px = Option<SpecPrefixes>;

/// A reading of an element.
pub type Read<T> = Option<(Result<T, SpecError>, int)>;

/// A reading of a repeated element: the values (or the first error), how
/// many were read, and the position after the last one.
pub type Reads<T> = (Result<Seq<T>, SpecError>, nat, int);

// ---------------------------------------------------------------------------
// Combining values
// ---------------------------------------------------------------------------

/// A value with one more in front; the first error wins.
pub open spec fn cons<T>(v: Result<T, SpecError>, rest: Result<Seq<T>, SpecError>) -> Result<
    Seq<T>,
    SpecError,
> {
    match v {
        Err(e) => Err(e),
        Ok(x) => match rest {
            Err(e) => Err(e),
            Ok(xs) => Ok(seq![x] + xs),
        },
    }
}

/// Values with one more at the end; the first error wins.
pub open spec fn snoc<T>(acc: Result<Seq<T>, SpecError>, v: Result<T, SpecError>) -> Result<
    Seq<T>,
    SpecError,
> {
    match acc {
        Err(e) => Err(e),
        Ok(xs) => match v {
            Err(e) => Err(e),
            Ok(x) => Ok(xs.push(x)),
        },
    }
}

/// Values followed by more values; the first error wins.
pub open spec fn concat<T>(acc: Result<Seq<T>, SpecError>, rest: Result<Seq<T>, SpecError>) -> Result<
    Seq<T>,
    SpecError,
> {
    match acc {
        Err(e) => Err(e),
        Ok(xs) => match rest {
            Err(e) => Err(e),
            Ok(ys) => Ok(xs + ys),
        },
    }
}

/// Two values; the first error wins.
pub open spec fn both<A, B>(a: Result<A, SpecError>, b: Result<B, SpecError>) -> Result<
    (A, B),
    SpecError,
> {
    match a {
        Err(e) => Err(e),
        Ok(x) => match b {
            Err(e) => Err(e),
            Ok(y) => Ok((x, y)),
        },
    }
}

/// The value of a reading, passed through `f`.
pub open spec fn lift<A, B>(v: Result<A, SpecError>, f: spec_fn(A) -> B) -> Result<B, SpecError> {
    match v {
        Ok(x) => Ok(f(x)),
        Err(e) => Err(e),
    }
}

pub proof fn lemma_concat_cons<T>(
    acc: Result<Seq<T>, SpecError>,
    v: Result<T, SpecError>,
    rest: Result<Seq<T>, SpecError>,
)
    ensures
        concat(acc, cons(v, rest)) == concat(snoc(acc, v), rest),
{
    match (acc, v, rest) {
        (Ok(xs), Ok(x), Ok(ys)) => {
            assert(xs + (seq![x] + ys) =~= xs.push(x) + ys);
        },
        _ => {},
    }
}

// ---------------------------------------------------------------------------
// Tokens
// ---------------------------------------------------------------------------

/// The position after `(`, white space skipped before it.
pub open spec fn open_at(s: Seq<char>, p: int) -> Option<int> {
    let q = ws(s, p);
    if 0 <= q < s.len() && s[q] == '(' {
        Some(q + 1)
    } else {
        None
    }
}

/// The position after `)`, white space skipped before it.
pub open spec fn close_at(s: Seq<char>, p: int) -> Option<int> {
    let q = ws(s, p);
    if 0 <= q < s.len() && s[q] == ')' {
        Some(q + 1)
    } else {
        None
    }
}

/// The position after the keyword `k` and the `(` that follows it.
pub open spec fn keyword_open(s: Seq<char>, p: int, k: Seq<char>) -> Option<int> {
    if word(s, p) == k {
        open_at(s, letters_end(s, p))
    } else {
        None
    }
}

/// The full IRI that an abbreviated IRI stands for.
pub open spec fn expansion(px: Px, prefix: Option<Seq<char>>, local: Seq<char>) -> Result<
    Seq<char>,
    SpecError,
> {
    match px {
        None => Err(SpecError::Expansion(ExpansionError::Invalid)),
        Some(m) => match expand(m, prefix, local) {
            Ok(t) => Ok(t),
            Err(x) => Err(SpecError::Expansion(x)),
        },
    }
}

/// An IRI, full or abbreviated.
pub open spec fn r_iri(s: Seq<char>, p: int, px: Px) -> Read<Seq<char>> {
    match full_iri(s, p) {
        Some((t, e)) => Some((Ok(t), e)),
        None => match abbreviated_iri(s, p) {
            Some((prefix, local, e)) => Some((expansion(px, prefix, local), e)),
            None => None,
        },
    }
}

pub open spec fn r_individual(s: Seq<char>, p: int, px: Px) -> Read<SpecIndividual> {
    match node_id(s, p) {
        Some((id, e)) => Some((Ok(SpecIndividual::Anonymous(id)), e)),
        None => match r_iri(s, p, px) {
            Some((Ok(i), e)) => Some((Ok(SpecIndividual::Named(i)), e)),
            Some((Err(x), e)) => Some((Err(x), e)),
            None => None,
        },
    }
}

/// The datatype part `^^datatype` of a typed literal, after `q`.
pub open spec fn r_datatype_suffix(s: Seq<char>, q: int, px: Px) -> Read<Seq<char>> {
    let t = ws(s, q);
    if 0 <= t && t + 1 < s.len() && s[t] == '^' && s[t + 1] == '^' {
        r_iri(s, ws(s, t + 2), px)
    } else {
        None
    }
}

/// A literal: typed, with a language tag, or plain.
pub open spec fn r_literal(s: Seq<char>, p: int, px: Px) -> Read<SpecLiteral> {
    match quoted_string(s, p) {
        None => None,
        Some((literal, q)) => match r_datatype_suffix(s, q, px) {
            Some((Ok(d), e)) => Some((Ok(SpecLiteral::Datatype { literal, datatype_iri: d }), e)),
            Some((Err(x), e)) => Some((Err(x), e)),
            None => match language_tag(s, ws(s, q)) {
                Some((lang, e)) => Some((Ok(SpecLiteral::Language { literal, lang }), e)),
                None => Some((Ok(SpecLiteral::Simple { literal }), q)),
            },
        },
    }
}

/// `ObjectInverseOf(p)` or an object property.
pub open spec fn r_ope(s: Seq<char>, p: int, px: Px) -> Read<SpecObjectPropertyExpression> {
    match r_iri(s, p, px) {
        Some((Ok(i), e)) => Some((Ok(SpecObjectPropertyExpression::ObjectProperty(i)), e)),
        Some((Err(x), e)) => Some((Err(x), e)),
        None => match keyword_open(s, p, "ObjectInverseOf"@) {
            None => None,
            Some(q) => match r_iri(s, ws(s, q), px) {
                None => None,
                Some((r, e)) => match close_at(s, e) {
                    None => None,
                    Some(f) => Some(
                        (
                            match r {
                                Ok(i) => Ok(SpecObjectPropertyExpression::InverseObjectProperty(i)),
                                Err(x) => Err(x),
                            },
                            f,
                        ),
                    ),
                },
            },
        },
    }
}

/// The first facet, from index `i` of [`facet_order`] on, whose IRI is `iri`.
pub open spec fn facet_from(iri: Seq<char>, i: int) -> Option<Facet>
    decreases facet_order().len() - i,
{
    if i < 0 || i >= facet_order().len() {
        None
    } else if facet_iri_text(facet_order()[i]) == iri {
        Some(facet_order()[i])
    } else {
        facet_from(iri, i + 1)
    }
}

/// The facet whose IRI is `iri`, if any.
pub open spec fn facet_of(iri: Seq<char>) -> Option<Facet> {
    facet_from(iri, 0)
}

/// A facet restriction: a facet IRI and a literal.
pub open spec fn r_facet_restriction(s: Seq<char>, p: int, px: Px) -> Read<SpecFacetRestriction> {
    match r_iri(s, p, px) {
        None => None,
        Some((ri, e1)) => match r_literal(s, ws(s, e1), px) {
            None => None,
            Some((rl, e2)) => Some(
                (
                    match ri {
                        Err(x) => Err(x),
                        Ok(iri) => match facet_of(iri) {
                            None => Err(SpecError::InvalidFacet(iri)),
                            Some(f) => match rl {
                                Err(x) => Err(x),
                                Ok(l) => Ok(SpecFacetRestriction { f, l }),
                            },
                        },
                    },
                    e2,
                ),
            ),
        },
    }
}

// ---------------------------------------------------------------------------
// Repetition
// ---------------------------------------------------------------------------

/// Zero or more elements read by `r`, each after white space, for as long as
/// one is there.
pub open spec fn star<T>(s: Seq<char>, p: int, r: spec_fn(int) -> Read<T>) -> Reads<T>
    decreases s.len() - p,
{
    match r(ws(s, p)) {
        Some((v, e)) => if p < e <= s.len() {
            let (rest, n, end) = star(s, e, r);
            (cons(v, rest), n + 1, end)
        } else {
            (Ok(Seq::empty()), 0, p)
        },
        None => (Ok(Seq::empty()), 0, p),
    }
}

/// At least `min` elements read by `r`.
pub open spec fn at_least<T>(s: Seq<char>, p: int, r: spec_fn(int) -> Read<T>, min: nat) -> Read<
    Seq<T>,
> {
    let (v, n, e) = star(s, p, r);
    if n >= min {
        Some((v, e))
    } else {
        None
    }
}


// ---------------------------------------------------------------------------
// Positions
// ---------------------------------------------------------------------------

/// White space never moves backwards, nor past the end.
pub proof fn lemma_ws_any(s: Seq<char>, p: int)
    ensures
        0 <= p <= s.len() ==> p <= ws(s, p) <= s.len(),
        !(0 <= p <= s.len()) ==> ws(s, p) == p,
{
    if 0 <= p <= s.len() {
        lemma_ws(s, p);
    }
}

/// After `(` is strictly after `p`, and within the input.
pub proof fn lemma_open_at(s: Seq<char>, p: int)
    ensures
        open_at(s, p) matches Some(q) ==> p < q <= s.len(),
        close_at(s, p) matches Some(q) ==> p < q <= s.len(),
{
    lemma_ws_any(s, p);
}

/// A keyword and its `(` end strictly after `p`, within the input.
pub proof fn lemma_keyword_open(s: Seq<char>, p: int)
    ensures
        open_at(s, letters_end(s, p)) matches Some(q) ==> p < q <= s.len(),
{
    if 0 <= p <= s.len() {
        lemma_run_ends(s, p);
    }
    lemma_open_at(s, letters_end(s, p));
}

// ---------------------------------------------------------------------------
// Data ranges
// ---------------------------------------------------------------------------

/// A data range: a datatype, or one of the data range constructors.
pub open spec fn r_dr(s: Seq<char>, p: int, px: Px) -> Read<SpecDataRange>
    decreases s.len() - p, 1int,
{
    match r_iri(s, p, px) {
        Some((v, e)) => Some((lift(v, |i: Seq<char>| SpecDataRange::Datatype(i)), e)),
        None => dr_body(s, p, px),
    }
}

/// Zero or more data ranges, each after white space.
pub open spec fn r_dr_seq(s: Seq<char>, p: int, px: Px) -> Reads<SpecDataRange>
    decreases s.len() - p, 2int,
{
    proof {
        lemma_ws_any(s, p);
    }
    match r_dr(s, ws(s, p), px) {
        Some((v, e)) => if p < e <= s.len() {
            let (rest, n, end) = r_dr_seq(s, e, px);
            (cons(v, rest), n + 1, end)
        } else {
            (Ok(Seq::empty()), 0, p)
        },
        None => (Ok(Seq::empty()), 0, p),
    }
}

/// The data range constructors: `Keyword(` ... `)`.
pub open spec fn dr_body(s: Seq<char>, p: int, px: Px) -> Read<SpecDataRange>
    decreases s.len() - p, 0int,
{
    let w = word(s, p);
    match open_at(s, letters_end(s, p)) {
        None => None,
        Some(q) => {
            proof {
                lemma_keyword_open(s, p);
                lemma_ws_any(s, q);
            }
            if w == "DataIntersectionOf"@ || w == "DataUnionOf"@ {
                let (v, n, e) = r_dr_seq(s, q, px);
                if n >= 2 {
                    match close_at(s, e) {
                        None => None,
                        Some(f) => Some(
                            (
                                if w == "DataIntersectionOf"@ {
                                    lift(v, |d: Seq<SpecDataRange>| SpecDataRange::DataIntersectionOf(d))
                                } else {
                                    lift(v, |d: Seq<SpecDataRange>| SpecDataRange::DataUnionOf(d))
                                },
                                f,
                            ),
                        ),
                    }
                } else {
                    None
                }
            } else if w == "DataComplementOf"@ {
                match r_dr(s, ws(s, q), px) {
                    None => None,
                    Some((v, e)) => match close_at(s, e) {
                        None => None,
                        Some(f) => Some(
                            (lift(v, |d: SpecDataRange| SpecDataRange::DataComplementOf(Box::new(d))), f),
                        ),
                    },
                }
            } else if w == "DataOneOf"@ {
                let (v, n, e) = star(s, q, |t: int| r_literal(s, t, px));
                if n >= 1 {
                    match close_at(s, e) {
                        None => None,
                        Some(f) => Some((lift(v, |l: Seq<SpecLiteral>| SpecDataRange::DataOneOf(l)), f)),
                    }
                } else {
                    None
                }
            } else if w == "DatatypeRestriction"@ {
                match r_iri(s, ws(s, q), px) {
                    None => None,
                    Some((dt, e1)) => {
                        let (v, n, e) = star(s, e1, |t: int| r_facet_restriction(s, t, px));
                        if n >= 1 {
                            match close_at(s, e) {
                                None => None,
                                Some(f) => Some(
                                    (
                                        match both(dt, v) {
                                            Ok((d, fr)) => Ok(SpecDataRange::DatatypeRestriction(d, fr)),
                                            Err(x) => Err(x),
                                        },
                                        f,
                                    ),
                                ),
                            }
                        } else {
                            None
                        }
                    },
                }
            } else {
                None
            }
        },
    }
}

// ---------------------------------------------------------------------------
// Bounds
// ---------------------------------------------------------------------------

/// The simple elements end after their start, within the input.
pub proof fn lemma_leaf_bounds(s: Seq<char>, p: int, px: Px)
    ensures
        r_iri(s, p, px) matches Some((_, e)) ==> 0 <= p < e <= s.len(),
        r_individual(s, p, px) matches Some((_, e)) ==> 0 <= p < e <= s.len(),
        r_literal(s, p, px) matches Some((_, e)) ==> 0 <= p < e <= s.len(),
        r_ope(s, p, px) matches Some((_, e)) ==> 0 <= p < e <= s.len(),
        r_facet_restriction(s, p, px) matches Some((_, e)) ==> 0 <= p < e <= s.len(),
{
    lemma_token_bounds(s, p);
    match quoted_string(s, p) {
        Some((_, q)) => {
            lemma_ws_any(s, q);
            let t = ws(s, q);
            lemma_ws_any(s, t + 2);
            lemma_token_bounds(s, ws(s, t + 2));
            lemma_token_bounds(s, t);
        },
        None => {},
    }
    lemma_keyword_open(s, p);
    match open_at(s, letters_end(s, p)) {
        Some(q) => {
            lemma_ws_any(s, q);
            lemma_token_bounds(s, ws(s, q));
            match r_iri(s, ws(s, q), px) {
                Some((_, e)) => lemma_open_at(s, e),
                None => {},
            }
        },
        None => {},
    }
    match r_iri(s, p, px) {
        Some((_, e1)) => {
            lemma_ws_any(s, e1);
            lemma_token_bounds(s, ws(s, e1));
            let t1 = ws(s, ws(s, e1));
            match quoted_string(s, ws(s, e1)) {
                Some((_, q)) => {
                    lemma_ws_any(s, q);
                    let t = ws(s, q);
                    lemma_ws_any(s, t + 2);
                    lemma_token_bounds(s, ws(s, t + 2));
                    lemma_token_bounds(s, t);
                },
                None => {},
            }
        },
        None => {},
    }
}

/// A repetition ends at its start or after it, within the input.
pub proof fn lemma_star_bounds<T>(s: Seq<char>, p: int, r: spec_fn(int) -> Read<T>)
    requires
        0 <= p <= s.len(),
    ensures
        p <= star(s, p, r).2 <= s.len(),
        star(s, p, r).1 == 0 ==> star(s, p, r).2 == p,
    decreases s.len() - p,
{
    match r(ws(s, p)) {
        Some((v, e)) => if p < e <= s.len() {
            lemma_star_bounds(s, e, r);
        },
        None => {},
    }
}

// ---------------------------------------------------------------------------
// Class expressions
// ---------------------------------------------------------------------------

/// A reading with its value passed through `f`.
pub open spec fn lift_read<A, B>(r: Read<A>, f: spec_fn(A) -> B) -> Read<B> {
    match r {
        None => None,
        Some((v, e)) => Some((lift(v, f), e)),
    }
}

/// What `ra` read, then, after white space, what `b` reads there.
pub open spec fn then<A, B>(s: Seq<char>, ra: Read<A>, b: spec_fn(int) -> Read<B>) -> Read<(A, B)> {
    match ra {
        None => None,
        Some((va, e)) => match b(ws(s, e)) {
            None => None,
            Some((vb, f)) => Some((both(va, vb), f)),
        },
    }
}

/// A cardinality: its value when it fits in 32 bits; reading a larger one
/// stops (see [`SpecError::Abort`]).
#[verifier::opaque]
pub open spec fn r_cardinality(s: Seq<char>, p: int) -> Read<u32> {
    match integer(s, p) {
        None => None,
        Some((n, e)) => Some((if n <= u32::MAX { Ok(n as u32) } else { Err(SpecError::Abort) }, e)),
    }
}

/// A class expression: a class, or one of the class expression constructors.
pub open spec fn r_ce(s: Seq<char>, p: int, px: Px) -> Read<SpecClassExpression>
    decreases s.len() - p, 2int,
{
    match r_iri(s, p, px) {
        Some((v, e)) => Some((lift(v, |i: Seq<char>| SpecClassExpression::Class(i)), e)),
        None => ce_body(s, p, px),
    }
}

/// Zero or more class expressions, each after white space.
pub open spec fn r_ce_seq(s: Seq<char>, p: int, px: Px) -> Reads<SpecClassExpression>
    decreases s.len() - p, 3int,
{
    proof {
        lemma_ws_any(s, p);
    }
    match r_ce(s, ws(s, p), px) {
        Some((v, e)) => if p < e <= s.len() {
            let (rest, n, end) = r_ce_seq(s, e, px);
            (cons(v, rest), n + 1, end)
        } else {
            (Ok(Seq::empty()), 0, p)
        },
        None => (Ok(Seq::empty()), 0, p),
    }
}

/// The class expression constructors: `Keyword(` ... `)`.
pub open spec fn ce_body(s: Seq<char>, p: int, px: Px) -> Read<SpecClassExpression>
    decreases s.len() - p, 1int,
{
    match open_at(s, letters_end(s, p)) {
        None => None,
        Some(q) => {
            proof {
                lemma_keyword_open(s, p);
            }
            match ce_parts(word(s, p), s, q, px) {
                None => None,
                Some((v, e)) => match close_at(s, e) {
                    None => None,
                    Some(f) => Some((v, f)),
                },
            }
        },
    }
}

/// What stands between the parentheses of the constructor `w`, from `q` on.
pub open spec fn ce_parts(w: Seq<char>, s: Seq<char>, q: int, px: Px) -> Read<SpecClassExpression>
    decreases s.len() - q, 5int,
{
    proof {
        lemma_ws_any(s, q);
    }
    if w == "ObjectIntersectionOf"@ {
        ce_nary(s, q, px, false)
    } else if w == "ObjectUnionOf"@ {
        ce_nary(s, q, px, true)
    } else if w == "ObjectComplementOf"@ {
        lift_read(
            r_ce(s, ws(s, q), px),
            |c: SpecClassExpression| SpecClassExpression::ObjectComplementOf(Box::new(c)),
        )
    } else if w == "ObjectOneOf"@ {
        lift_read(
            at_least(s, q, |t: int| r_individual(s, t, px), 1),
            |v: Seq<SpecIndividual>| SpecClassExpression::ObjectOneOf(v),
        )
    } else if w == "ObjectSomeValuesFrom"@ {
        ce_quantified(s, q, px, false)
    } else if w == "ObjectAllValuesFrom"@ {
        ce_quantified(s, q, px, true)
    } else if w == "ObjectHasValue"@ {
        lift_read(
            then(s, r_ope(s, ws(s, q), px), |t: int| r_individual(s, t, px)),
            |x: (SpecObjectPropertyExpression, SpecIndividual)|
                SpecClassExpression::ObjectHasValue { ope: x.0, i: x.1 },
        )
    } else if w == "ObjectHasSelf"@ {
        lift_read(
            r_ope(s, ws(s, q), px),
            |o: SpecObjectPropertyExpression| SpecClassExpression::ObjectHasSelf(o),
        )
    } else if w == "ObjectMinCardinality"@ {
        ce_object_cardinality(s, q, px, 0)
    } else if w == "ObjectMaxCardinality"@ {
        ce_object_cardinality(s, q, px, 1)
    } else if w == "ObjectExactCardinality"@ {
        ce_object_cardinality(s, q, px, 2)
    } else if w == "DataSomeValuesFrom"@ {
        ce_data_quantified(s, q, px, false)
    } else if w == "DataAllValuesFrom"@ {
        ce_data_quantified(s, q, px, true)
    } else if w == "DataHasValue"@ {
        lift_read(
            then(s, r_iri(s, ws(s, q), px), |t: int| r_literal(s, t, px)),
            |x: (Seq<char>, SpecLiteral)| SpecClassExpression::DataHasValue { dp: x.0, l: x.1 },
        )
    } else if w == "DataMinCardinality"@ {
        ce_data_cardinality(s, q, px, 0)
    } else if w == "DataMaxCardinality"@ {
        ce_data_cardinality(s, q, px, 1)
    } else if w == "DataExactCardinality"@ {
        ce_data_cardinality(s, q, px, 2)
    } else {
        None
    }
}

/// `CE CE+`: an intersection, or a union when `union`.
pub open spec fn ce_nary(s: Seq<char>, q: int, px: Px, union: bool) -> Read<SpecClassExpression>
    decreases s.len() - q, 4int,
{
    let (v, n, e) = r_ce_seq(s, q, px);
    if n >= 2 {
        Some(
            (
                if union {
                    lift(v, |c: Seq<SpecClassExpression>| SpecClassExpression::ObjectUnionOf(c))
                } else {
                    lift(v, |c: Seq<SpecClassExpression>| SpecClassExpression::ObjectIntersectionOf(c))
                },
                e,
            ),
        )
    } else {
        None
    }
}

/// `OPE CE`: an existential restriction, or a universal one when `all`.
pub open spec fn ce_quantified(s: Seq<char>, q: int, px: Px, all: bool) -> Read<SpecClassExpression>
    decreases s.len() - q, 4int,
{
    proof {
        lemma_ws_any(s, q);
        lemma_leaf_bounds(s, ws(s, q), px);
    }
    match r_ope(s, ws(s, q), px) {
        None => None,
        Some((o, e1)) => {
            proof {
                lemma_ws_any(s, e1);
            }
            match r_ce(s, ws(s, e1), px) {
                None => None,
                Some((c, e2)) => Some(
                    (
                        match both(o, c) {
                            Err(x) => Err(x),
                            Ok((ope, bce)) => Ok(
                                if all {
                                    SpecClassExpression::ObjectAllValuesFrom { ope, bce: Box::new(bce) }
                                } else {
                                    SpecClassExpression::ObjectSomeValuesFrom { ope, bce: Box::new(bce) }
                                },
                            ),
                        },
                        e2,
                    ),
                ),
            }
        },
    }
}

/// The value of an object cardinality restriction of the given kind
/// (minimum, maximum, exact); a missing class expression stands for
/// `owl:Thing`.
pub open spec fn object_cardinality_value(
    kind: int,
    n: Result<u32, SpecError>,
    o: Result<SpecObjectPropertyExpression, SpecError>,
    c: Result<SpecClassExpression, SpecError>,
) -> Result<SpecClassExpression, SpecError> {
    match n {
        Err(x) => Err(x),
        Ok(n) => match both(o, c) {
            Err(x) => Err(x),
            Ok((ope, bce)) => Ok(
                if kind == 0 {
                    SpecClassExpression::ObjectMinCardinality { n, ope, bce: Box::new(bce) }
                } else if kind == 1 {
                    SpecClassExpression::ObjectMaxCardinality { n, ope, bce: Box::new(bce) }
                } else {
                    SpecClassExpression::ObjectExactCardinality { n, ope, bce: Box::new(bce) }
                },
            ),
        },
    }
}

/// `n OPE [CE]`.
pub open spec fn ce_object_cardinality(s: Seq<char>, q: int, px: Px, kind: int) -> Read<SpecClassExpression>
    decreases s.len() - q, 4int,
{
    proof {
        lemma_ws_any(s, q);
        lemma_token_bounds(s, ws(s, q));
        reveal(r_cardinality);
    }
    match r_cardinality(s, ws(s, q)) {
        None => None,
        Some((n, e0)) => {
            proof {
                lemma_ws_any(s, e0);
                lemma_leaf_bounds(s, ws(s, e0), px);
            }
            match r_ope(s, ws(s, e0), px) {
                None => None,
                Some((o, e1)) => {
                    proof {
                        lemma_ws_any(s, e1);
                    }
                    match r_ce(s, ws(s, e1), px) {
                        Some((c, e2)) => Some((object_cardinality_value(kind, n, o, c), e2)),
                        None => Some(
                            (
                                object_cardinality_value(
                                    kind,
                                    n,
                                    o,
                                    Ok(SpecClassExpression::Class(owl_thing_text())),
                                ),
                                e1,
                            ),
                        ),
                    }
                },
            }
        },
    }
}

/// A further data property of a chain: an IRI that the closing parenthesis
/// does not follow.
pub open spec fn r_chained_dp(s: Seq<char>, p: int, px: Px) -> Read<Seq<char>> {
    match r_iri(s, p, px) {
        Some((v, e)) => match close_at(s, e) {
            None => Some((v, e)),
            Some(_) => None,
        },
        None => None,
    }
}

/// `DP DP* DR`: an existential data restriction, or a universal one when
/// `all`; chains of data properties are not supported.
pub open spec fn ce_data_quantified(s: Seq<char>, q: int, px: Px, all: bool) -> Read<SpecClassExpression> {
    match r_iri(s, ws(s, q), px) {
        None => None,
        Some((d, e1)) => {
            let (_, k, e2) = star(s, e1, |t: int| r_chained_dp(s, t, px));
            match r_dr(s, ws(s, e2), px) {
                None => None,
                Some((r, e3)) => Some(
                    (
                        match d {
                            Err(x) => Err(x),
                            Ok(dp) => if k > 0 {
                                Err(
                                    SpecError::Unsupported(
                                        if all {
                                            Unsupported::DataAllValuesFromChain
                                        } else {
                                            Unsupported::DataSomeValuesFromChain
                                        },
                                    ),
                                )
                            } else if all {
                                lift(r, |dr: SpecDataRange| SpecClassExpression::DataAllValuesFrom { dp, dr })
                            } else {
                                lift(r, |dr: SpecDataRange| SpecClassExpression::DataSomeValuesFrom { dp, dr })
                            },
                        },
                        e3,
                    ),
                ),
            }
        },
    }
}

/// The value of a data cardinality restriction of the given kind (minimum,
/// maximum, exact); a missing data range stands for `rdfs:Literal`.
pub open spec fn data_cardinality_value(
    kind: int,
    n: Result<u32, SpecError>,
    d: Result<Seq<char>, SpecError>,
    r: Result<SpecDataRange, SpecError>,
) -> Result<SpecClassExpression, SpecError> {
    match n {
        Err(x) => Err(x),
        Ok(n) => match both(d, r) {
            Err(x) => Err(x),
            Ok((dp, dr)) => Ok(
                if kind == 0 {
                    SpecClassExpression::DataMinCardinality { n, dp, dr }
                } else if kind == 1 {
                    SpecClassExpression::DataMaxCardinality { n, dp, dr }
                } else {
                    SpecClassExpression::DataExactCardinality { n, dp, dr }
                },
            ),
        },
    }
}

/// `n DP [DR]`.
pub open spec fn ce_data_cardinality(s: Seq<char>, q: int, px: Px, kind: int) -> Read<SpecClassExpression> {
    match r_cardinality(s, ws(s, q)) {
        None => None,
        Some((n, e0)) => match r_iri(s, ws(s, e0), px) {
            None => None,
            Some((d, e1)) => match r_dr(s, ws(s, e1), px) {
                Some((r, e2)) => Some((data_cardinality_value(kind, n, d, r), e2)),
                None => Some(
                    (
                        data_cardinality_value(
                            kind,
                            n,
                            d,
                            Ok(SpecDataRange::Datatype(rdfs_literal_text())),
                        ),
                        e1,
                    ),
                ),
            },
        },
    }
}

// ---------------------------------------------------------------------------
// Annotations
// ---------------------------------------------------------------------------

/// An annotation value: an IRI or a literal; a blank node as value stops
/// the reading (see [`SpecError::Abort`]).
pub open spec fn r_annotation_value(s: Seq<char>, p: int, px: Px) -> Read<SpecAnnotationValue> {
    match node_id(s, p) {
        Some((_, e)) => Some((Err(SpecError::Abort), e)),
        None => match r_iri(s, p, px) {
            Some((v, e)) => Some((lift(v, |i: Seq<char>| SpecAnnotationValue::IRI(i)), e)),
            None => lift_read(r_literal(s, p, px), |l: SpecLiteral| SpecAnnotationValue::Literal(l)),
        },
    }
}

/// An annotation subject: an IRI or a blank node.
pub open spec fn r_annotation_subject(s: Seq<char>, p: int, px: Px) -> Read<SpecAnnotationSubject> {
    match r_iri(s, p, px) {
        Some((v, e)) => Some((lift(v, |i: Seq<char>| SpecAnnotationSubject::IRI(i)), e)),
        None => match node_id(s, p) {
            Some((id, e)) => Some((Ok(SpecAnnotationSubject::AnonymousIndividual(id)), e)),
            None => None,
        },
    }
}

/// `Annotation( annotations AP AV )`; the annotations of the annotation are
/// read, and their errors count, but they are not kept.
pub open spec fn r_annotation(s: Seq<char>, p: int, px: Px) -> Read<SpecAnnotation>
    decreases s.len() - p, 0int,
{
    if word(s, p) == "Annotation"@ {
        match open_at(s, letters_end(s, p)) {
            None => None,
            Some(q) => {
                proof {
                    lemma_keyword_open(s, p);
                }
                let (anns, _, e0) = r_annotation_seq(s, q, px);
                match then(s, r_iri(s, ws(s, e0), px), |t: int| r_annotation_value(s, t, px)) {
                    None => None,
                    Some((v, e)) => match close_at(s, e) {
                        None => None,
                        Some(f) => Some(
                            (
                                match anns {
                                    Err(x) => Err(x),
                                    Ok(_) => lift(v, |x: (Seq<char>, SpecAnnotationValue)| SpecAnnotation { ap: x.0, av: x.1 }),
                                },
                                f,
                            ),
                        ),
                    },
                }
            },
        }
    } else {
        None
    }
}

/// Zero or more annotations, each after white space.
pub open spec fn r_annotation_seq(s: Seq<char>, p: int, px: Px) -> Reads<SpecAnnotation>
    decreases s.len() - p, 1int,
{
    proof {
        lemma_ws_any(s, p);
    }
    match r_annotation(s, ws(s, p), px) {
        Some((v, e)) => if p < e <= s.len() {
            let (rest, n, end) = r_annotation_seq(s, e, px);
            (cons(v, rest), n + 1, end)
        } else {
            (Ok(Seq::empty()), 0, p)
        },
        None => (Ok(Seq::empty()), 0, p),
    }
}

// ---------------------------------------------------------------------------
// Axioms
// ---------------------------------------------------------------------------

/// A sub property expression: an object property expression, or
/// `ObjectPropertyChain( OPE OPE+ )`.
pub open spec fn r_sub_ope(s: Seq<char>, p: int, px: Px) -> Read<SpecSubObjectPropertyExpression> {
    match r_ope(s, p, px) {
        Some((v, e)) => Some(
            (lift(v, |o: SpecObjectPropertyExpression| SpecSubObjectPropertyExpression::ObjectPropertyExpression(o)), e),
        ),
        None => if word(s, p) == "ObjectPropertyChain"@ {
            match open_at(s, letters_end(s, p)) {
                None => None,
                Some(q) => match at_least(s, q, |t: int| r_ope(s, t, px), 2) {
                    None => None,
                    Some((v, e)) => match close_at(s, e) {
                        None => None,
                        Some(f) => Some(
                            (lift(v, |c: Seq<SpecObjectPropertyExpression>| SpecSubObjectPropertyExpression::ObjectPropertyChain(c)), f),
                        ),
                    },
                },
            }
        } else {
            None
        },
    }
}

/// Two or more class expressions.
pub open spec fn ce_at_least_two(s: Seq<char>, p: int, px: Px) -> Read<Seq<SpecClassExpression>> {
    let (v, n, e) = r_ce_seq(s, p, px);
    if n >= 2 {
        Some((v, e))
    } else {
        None
    }
}

/// `CE ( OPE* ) ( DP* )`: the class expression, then the object property
/// expressions and the data properties of the key.
pub open spec fn has_key_parts(s: Seq<char>, u: int, px: Px) -> Read<SpecAxiom> {
    match r_ce(s, u, px) {
        None => None,
        Some((c, e1)) => match open_at(s, e1) {
            None => None,
            Some(q1) => {
                let (os, _, e2) = star(s, q1, |t: int| r_ope(s, t, px));
                match close_at(s, e2) {
                    None => None,
                    Some(f1) => match open_at(s, f1) {
                        None => None,
                        Some(q2) => {
                            let (ds, _, e3) = star(s, q2, |t: int| r_iri(s, t, px));
                            match close_at(s, e3) {
                                None => None,
                                Some(f2) => Some(
                                    (
                                        match c {
                                            Err(x) => Err(x),
                                            Ok(ce) => lift(
                                                concat(
                                                    lift(os, |v: Seq<SpecObjectPropertyExpression>| v.map_values(|o: SpecObjectPropertyExpression| SpecPropertyExpression::ObjectPropertyExpression(o))),
                                                    lift(ds, |v: Seq<Seq<char>>| v.map_values(|d: Seq<char>| SpecPropertyExpression::DataProperty(d))),
                                                ),
                                                |vpe: Seq<SpecPropertyExpression>| SpecAxiom::HasKey { ce, vpe },
                                            ),
                                        },
                                        f2,
                                    ),
                                ),
                            }
                        },
                    },
                }
            },
        },
    }
}

/// An entity declaration: `Class(IRI)`, `Datatype(IRI)`, ...
pub open spec fn r_entity(s: Seq<char>, p: int, px: Px) -> Read<SpecAxiom> {
    let w = word(s, p);
    match open_at(s, letters_end(s, p)) {
        None => None,
        Some(q) => match r_iri(s, ws(s, q), px) {
            None => None,
            Some((i, e)) => match close_at(s, e) {
                None => None,
                Some(f) => if w == "Class"@ {
                    Some((lift(i, |x: Seq<char>| SpecAxiom::DeclareClass(x)), f))
                } else if w == "Datatype"@ {
                    Some((lift(i, |x: Seq<char>| SpecAxiom::DeclareDatatype(x)), f))
                } else if w == "ObjectProperty"@ {
                    Some((lift(i, |x: Seq<char>| SpecAxiom::DeclareObjectProperty(x)), f))
                } else if w == "DataProperty"@ {
                    Some((lift(i, |x: Seq<char>| SpecAxiom::DeclareDataProperty(x)), f))
                } else if w == "AnnotationProperty"@ {
                    Some((lift(i, |x: Seq<char>| SpecAxiom::DeclareAnnotationProperty(x)), f))
                } else if w == "NamedIndividual"@ {
                    Some((lift(i, |x: Seq<char>| SpecAxiom::DeclareNamedIndividual(x)), f))
                } else {
                    None
                },
            },
        },
    }
}

/// What stands in an axiom of kind `w` after its annotations, from `u` on.
pub open spec fn axiom_parts(w: Seq<char>, s: Seq<char>, u: int, px: Px) -> Read<SpecAxiom> {
    if w == "Declaration"@ {
        r_entity(s, u, px)
    } else if w == "SubClassOf"@ {
        lift_read(then(s, r_ce(s, u, px), |t: int| r_ce(s, t, px)), |x: (SpecClassExpression, SpecClassExpression)| SpecAxiom::SubClassOf { sub: x.0, sup: x.1 })
    } else if w == "EquivalentClasses"@ {
        lift_read(ce_at_least_two(s, u, px), |x: Seq<SpecClassExpression>| SpecAxiom::EquivalentClasses(x))
    } else if w == "DisjointClasses"@ {
        lift_read(ce_at_least_two(s, u, px), |x: Seq<SpecClassExpression>| SpecAxiom::DisjointClasses(x))
    } else if w == "DisjointUnion"@ {
        lift_read(then(s, r_iri(s, u, px), |t: int| ce_at_least_two(s, t, px)), |x: (Seq<char>, Seq<SpecClassExpression>)| SpecAxiom::DisjointUnion(x.0, x.1))
    } else if w == "SubObjectPropertyOf"@ {
        lift_read(then(s, r_sub_ope(s, u, px), |t: int| r_ope(s, t, px)), |x: (SpecSubObjectPropertyExpression, SpecObjectPropertyExpression)| SpecAxiom::SubObjectPropertyOf { sub: x.0, sup: x.1 })
    } else if w == "EquivalentObjectProperties"@ {
        lift_read(at_least(s, u, |t: int| r_ope(s, t, px), 2), |x: Seq<SpecObjectPropertyExpression>| SpecAxiom::EquivalentObjectProperties(x))
    } else if w == "DisjointObjectProperties"@ {
        lift_read(at_least(s, u, |t: int| r_ope(s, t, px), 2), |x: Seq<SpecObjectPropertyExpression>| SpecAxiom::DisjointObjectProperties(x))
    } else if w == "InverseObjectProperties"@ {
        lift_read(then(s, r_iri(s, u, px), |t: int| r_iri(s, t, px)), |x: (Seq<char>, Seq<char>)| SpecAxiom::InverseObjectProperties(x.0, x.1))
    } else if w == "ObjectPropertyDomain"@ {
        lift_read(then(s, r_ope(s, u, px), |t: int| r_ce(s, t, px)), |x: (SpecObjectPropertyExpression, SpecClassExpression)| SpecAxiom::ObjectPropertyDomain { ope: x.0, ce: x.1 })
    } else if w == "ObjectPropertyRange"@ {
        lift_read(then(s, r_ope(s, u, px), |t: int| r_ce(s, t, px)), |x: (SpecObjectPropertyExpression, SpecClassExpression)| SpecAxiom::ObjectPropertyRange { ope: x.0, ce: x.1 })
    } else if w == "FunctionalObjectProperty"@ {
        lift_read(r_ope(s, u, px), |x: SpecObjectPropertyExpression| SpecAxiom::FunctionalObjectProperty(x))
    } else if w == "InverseFunctionalObjectProperty"@ {
        lift_read(r_ope(s, u, px), |x: SpecObjectPropertyExpression| SpecAxiom::InverseFunctionalObjectProperty(x))
    } else if w == "ReflexiveObjectProperty"@ {
        lift_read(r_ope(s, u, px), |x: SpecObjectPropertyExpression| SpecAxiom::ReflexiveObjectProperty(x))
    } else if w == "IrreflexiveObjectProperty"@ {
        lift_read(r_ope(s, u, px), |x: SpecObjectPropertyExpression| SpecAxiom::IrreflexiveObjectProperty(x))
    } else if w == "SymmetricObjectProperty"@ {
        lift_read(r_ope(s, u, px), |x: SpecObjectPropertyExpression| SpecAxiom::SymmetricObjectProperty(x))
    } else if w == "AsymmetricObjectProperty"@ {
        lift_read(r_ope(s, u, px), |x: SpecObjectPropertyExpression| SpecAxiom::AsymmetricObjectProperty(x))
    } else if w == "TransitiveObjectProperty"@ {
        lift_read(r_iri(s, u, px), |x: Seq<char>| SpecAxiom::TransitiveObjectProperty(SpecObjectPropertyExpression::ObjectProperty(x)))
    } else if w == "SubDataPropertyOf"@ {
        lift_read(then(s, r_iri(s, u, px), |t: int| r_iri(s, t, px)), |x: (Seq<char>, Seq<char>)| SpecAxiom::SubDataPropertyOf { sub: x.0, sup: x.1 })
    } else if w == "EquivalentDataProperties"@ {
        lift_read(at_least(s, u, |t: int| r_iri(s, t, px), 2), |x: Seq<Seq<char>>| SpecAxiom::EquivalentDataProperties(x))
    } else if w == "DisjointDataProperties"@ {
        lift_read(at_least(s, u, |t: int| r_iri(s, t, px), 2), |x: Seq<Seq<char>>| SpecAxiom::DisjointDataProperties(x))
    } else if w == "DataPropertyDomain"@ {
        lift_read(then(s, r_iri(s, u, px), |t: int| r_ce(s, t, px)), |x: (Seq<char>, SpecClassExpression)| SpecAxiom::DataPropertyDomain { dp: x.0, ce: x.1 })
    } else if w == "DataPropertyRange"@ {
        lift_read(then(s, r_iri(s, u, px), |t: int| r_dr(s, t, px)), |x: (Seq<char>, SpecDataRange)| SpecAxiom::DataPropertyRange { dp: x.0, dr: x.1 })
    } else if w == "FunctionalDataProperty"@ {
        lift_read(r_iri(s, u, px), |x: Seq<char>| SpecAxiom::FunctionalDataProperty(x))
    } else if w == "DatatypeDefinition"@ {
        lift_read(then(s, r_iri(s, u, px), |t: int| r_dr(s, t, px)), |x: (Seq<char>, SpecDataRange)| SpecAxiom::DatatypeDefinition { kind: x.0, range: x.1 })
    } else if w == "HasKey"@ {
        has_key_parts(s, u, px)
    } else if w == "SameIndividual"@ {
        lift_read(at_least(s, u, |t: int| r_individual(s, t, px), 2), |x: Seq<SpecIndividual>| SpecAxiom::SameIndividual(x))
    } else if w == "DifferentIndividuals"@ {
        lift_read(at_least(s, u, |t: int| r_individual(s, t, px), 2), |x: Seq<SpecIndividual>| SpecAxiom::DifferentIndividuals(x))
    } else if w == "ClassAssertion"@ {
        lift_read(then(s, r_ce(s, u, px), |t: int| r_individual(s, t, px)), |x: (SpecClassExpression, SpecIndividual)| SpecAxiom::ClassAssertion { ce: x.0, i: x.1 })
    } else if w == "ObjectPropertyAssertion"@ {
        lift_read(then(s, then(s, r_ope(s, u, px), |t: int| r_individual(s, t, px)), |t: int| r_individual(s, t, px)), |x: ((SpecObjectPropertyExpression, SpecIndividual), SpecIndividual)| SpecAxiom::ObjectPropertyAssertion { ope: x.0.0, from: x.0.1, to: x.1 })
    } else if w == "NegativeObjectPropertyAssertion"@ {
        lift_read(then(s, then(s, r_ope(s, u, px), |t: int| r_individual(s, t, px)), |t: int| r_individual(s, t, px)), |x: ((SpecObjectPropertyExpression, SpecIndividual), SpecIndividual)| SpecAxiom::NegativeObjectPropertyAssertion { ope: x.0.0, from: x.0.1, to: x.1 })
    } else if w == "DataPropertyAssertion"@ {
        lift_read(then(s, then(s, r_iri(s, u, px), |t: int| r_individual(s, t, px)), |t: int| r_literal(s, t, px)), |x: ((Seq<char>, SpecIndividual), SpecLiteral)| SpecAxiom::DataPropertyAssertion { dp: x.0.0, from: x.0.1, to: x.1 })
    } else if w == "NegativeDataPropertyAssertion"@ {
        lift_read(then(s, then(s, r_iri(s, u, px), |t: int| r_individual(s, t, px)), |t: int| r_literal(s, t, px)), |x: ((Seq<char>, SpecIndividual), SpecLiteral)| SpecAxiom::NegativeDataPropertyAssertion { dp: x.0.0, from: x.0.1, to: x.1 })
    } else if w == "AnnotationAssertion"@ {
        lift_read(then(s, then(s, r_iri(s, u, px), |t: int| r_annotation_subject(s, t, px)), |t: int| r_annotation_value(s, t, px)), |x: ((Seq<char>, SpecAnnotationSubject), SpecAnnotationValue)| SpecAxiom::AnnotationAssertion { subject: x.0.1, ann: SpecAnnotation { ap: x.0.0, av: x.1 } })
    } else if w == "SubAnnotationPropertyOf"@ {
        lift_read(then(s, r_iri(s, u, px), |t: int| r_iri(s, t, px)), |x: (Seq<char>, Seq<char>)| SpecAxiom::SubAnnotationPropertyOf { sub: x.0, sup: x.1 })
    } else if w == "AnnotationPropertyDomain"@ {
        lift_read(then(s, r_iri(s, u, px), |t: int| r_iri(s, t, px)), |x: (Seq<char>, Seq<char>)| SpecAxiom::AnnotationPropertyDomain { ap: x.0, iri: x.1 })
    } else if w == "AnnotationPropertyRange"@ {
        lift_read(then(s, r_iri(s, u, px), |t: int| r_iri(s, t, px)), |x: (Seq<char>, Seq<char>)| SpecAxiom::AnnotationPropertyRange { ap: x.0, iri: x.1 })
    } else {
        None
    }
}

/// An axiom with its annotations: `Keyword( annotations parts )`; the
/// annotations are kept as a set.
#[verifier::opaque]
pub open spec fn r_axiom(s: Seq<char>, p: int, px: Px) -> Read<SpecAnnotatedAxiom> {
    match open_at(s, letters_end(s, p)) {
        None => None,
        Some(q) => {
            let (anns, _, e0) = r_annotation_seq(s, q, px);
            match axiom_parts(word(s, p), s, ws(s, e0), px) {
                None => None,
                Some((v, e)) => match close_at(s, e) {
                    None => None,
                    Some(f) => Some(
                        (
                            match anns {
                                Err(x) => Err(x),
                                Ok(a) => lift(v, |ax: SpecAxiom| SpecAnnotatedAxiom { ax, ann: annotation_set(a) }),
                            },
                            f,
                        ),
                    ),
                },
            }
        },
    }
}

// ---------------------------------------------------------------------------
// Ontologies and documents
// ---------------------------------------------------------------------------

/// An axiom without annotations.
pub open spec fn bare(ax: SpecAxiom) -> SpecAnnotatedAxiom {
    SpecAnnotatedAxiom { ax, ann: Seq::empty() }
}

/// `Import( IRI )`.
pub open spec fn r_import(s: Seq<char>, p: int, px: Px) -> Read<SpecAxiom> {
    if word(s, p) == "Import"@ {
        match open_at(s, letters_end(s, p)) {
            None => None,
            Some(q) => match r_iri(s, ws(s, q), px) {
                None => None,
                Some((i, e)) => match close_at(s, e) {
                    None => None,
                    Some(f) => Some((lift(i, |x: Seq<char>| SpecAxiom::Import(x)), f)),
                },
            },
        }
    } else {
        None
    }
}

/// The optional ontology IRI and version IRI, from `q` on.
pub open spec fn ontology_ids(s: Seq<char>, q: int, px: Px) -> (
    Result<(Option<Seq<char>>, Option<Seq<char>>), SpecError>,
    int,
) {
    match r_iri(s, ws(s, q), px) {
        None => (Ok((None, None)), q),
        Some((i, e1)) => match r_iri(s, ws(s, e1), px) {
            None => (lift(i, |x: Seq<char>| (Some(x), None)), e1),
            Some((v, e2)) => (
                match both(i, v) {
                    Err(x) => Err(x),
                    Ok((a, b)) => Ok((Some(a), Some(b))),
                },
                e2,
            ),
        },
    }
}

/// The value of an ontology: its IRIs, then its imports, its annotations
/// and its axioms, in this order, each axiom once; the first error wins.
pub open spec fn ontology_value(
    ids: Result<(Option<Seq<char>>, Option<Seq<char>>), SpecError>,
    imports: Result<Seq<SpecAxiom>, SpecError>,
    anns: Result<Seq<SpecAnnotation>, SpecError>,
    axioms: Result<Seq<SpecAnnotatedAxiom>, SpecError>,
) -> Result<SpecOntology, SpecError> {
    match ids {
        Err(x) => Err(x),
        Ok((iri, viri)) => lift(
            concat(
                concat(
                    lift(imports, |v: Seq<SpecAxiom>| v.map_values(|a: SpecAxiom| bare(a))),
                    lift(anns, |v: Seq<SpecAnnotation>| v.map_values(|a: SpecAnnotation| bare(SpecAxiom::OntologyAnnotation(a)))),
                ),
                axioms,
            ),
            |all: Seq<SpecAnnotatedAxiom>| SpecOntology { iri, viri, axioms: axiom_set(all) },
        ),
    }
}

/// `Ontology( [IRI [IRI]] imports annotations axioms )`.
#[verifier::opaque]
pub open spec fn r_ontology(s: Seq<char>, p: int, px: Px) -> Read<SpecOntology> {
    if word(s, p) == "Ontology"@ {
        match open_at(s, letters_end(s, p)) {
            None => None,
            Some(q) => {
                let (ids, t1) = ontology_ids(s, q, px);
                let (imports, _, t2) = star(s, t1, |t: int| r_import(s, t, px));
                let (anns, _, t3) = r_annotation_seq(s, t2, px);
                let (axioms, _, t4) = star(s, t3, |t: int| r_axiom(s, t, px));
                match close_at(s, t4) {
                    None => None,
                    Some(f) => Some((ontology_value(ids, imports, anns, axioms), f)),
                }
            },
        }
    } else {
        None
    }
}

/// `Prefix( name:= <IRI> )`: the name (`None` for the default prefix) and
/// the IRI.
pub open spec fn r_prefix_declaration(s: Seq<char>, p: int) -> Option<((Option<Seq<char>>, Seq<char>), int)> {
    if word(s, p) == "Prefix"@ {
        match open_at(s, letters_end(s, p)) {
            None => None,
            Some(q) => match prefix_name(s, ws(s, q)) {
                None => None,
                Some((name, e1)) => {
                    let t = ws(s, e1);
                    if 0 <= t < s.len() && s[t] == '=' {
                        match full_iri(s, ws(s, t + 1)) {
                            None => None,
                            Some((iri, e2)) => match close_at(s, e2) {
                                None => None,
                                Some(f) => Some(((name, iri), f)),
                            },
                        }
                    } else {
                        None
                    }
                },
            },
        }
    } else {
        None
    }
}

/// Zero or more prefix declarations, each after white space, and the
/// position after the last one.
pub open spec fn prefix_declarations(s: Seq<char>, p: int) -> (Seq<(Option<Seq<char>>, Seq<char>)>, int)
    decreases s.len() - p,
{
    match r_prefix_declaration(s, ws(s, p)) {
        Some((d, e)) => if p < e <= s.len() {
            let (rest, end) = prefix_declarations(s, e);
            (seq![d] + rest, end)
        } else {
            (Seq::empty(), p)
        },
        None => (Seq::empty(), p),
    }
}

/// A mapping with no prefix and no default.
pub open spec fn no_prefixes() -> SpecPrefixes {
    SpecPrefixes { default: None, entries: Seq::empty() }
}

/// The mapping after one more declaration.
pub open spec fn declare(m: SpecPrefixes, d: (Option<Seq<char>>, Seq<char>)) -> SpecPrefixes {
    match d.0 {
        Some(name) => SpecPrefixes { default: m.default, entries: insert_prefix(m.entries, name, d.1) },
        None => SpecPrefixes { default: Some(d.1), entries: m.entries },
    }
}

/// The mapping after the given declarations, in order.
pub open spec fn declare_all(m: SpecPrefixes, ds: Seq<(Option<Seq<char>>, Seq<char>)>) -> SpecPrefixes
    decreases ds.len(),
{
    if ds.len() == 0 {
        m
    } else {
        declare(declare_all(m, ds.drop_last()), ds.last())
    }
}

/// An entire document: white space, prefix declarations, the ontology and
/// white space up to the end. The ontology is read with the declared
/// prefixes, and its value comes with them.
pub open spec fn r_document(s: Seq<char>) -> Option<Result<(SpecOntology, SpecPrefixes), SpecError>> {
    let (ds, e1) = prefix_declarations(s, 0);
    let m = declare_all(no_prefixes(), ds);
    match r_ontology(s, ws(s, e1), Some(m)) {
        None => None,
        Some((o, e2)) => if ws(s, e2) == s.len() {
            Some(lift(o, |x: SpecOntology| (x, m)))
        } else {
            None
        },
    }
}

/// The value of an entire document, or why there is none.
pub open spec fn document(s: Seq<char>) -> Result<(SpecOntology, SpecPrefixes), SpecError> {
    match r_document(s) {
        None => Err(SpecError::Syntax(SyntaxError::Invalid)),
        Some(v) => v,
    }
}

/// The value of an element that must span the whole input: the input must
/// start with the element, and nothing may follow it.
pub open spec fn whole<T>(s: Seq<char>, r: Read<T>) -> Result<T, SpecError> {
    match r {
        None => Err(SpecError::Syntax(SyntaxError::Invalid)),
        Some((v, e)) => if e == s.len() {
            v
        } else {
            Err(SpecError::Syntax(SyntaxError::RemainingInput(e as usize)))
        },
    }
}

/// Reading with a reader whose values pass through `f` reads the same
/// elements, and gives their values passed through `f`.
pub proof fn lemma_star_lift<A, B>(s: Seq<char>, p: int, r: spec_fn(int) -> Read<A>, f: spec_fn(A) -> B)
    ensures
        star(s, p, |t: int| lift_read(r(t), f)) == (
            lift(star(s, p, r).0, |v: Seq<A>| v.map_values(f)),
            star(s, p, r).1,
            star(s, p, r).2,
        ),
    decreases s.len() - p,
{
    let g = |t: int| lift_read(r(t), f);
    assert(Seq::<A>::empty().map_values(f) =~= Seq::<B>::empty());
    assert(g(ws(s, p)) == lift_read(r(ws(s, p)), f));
    match r(ws(s, p)) {
        Some((v, e)) => if p < e <= s.len() {
            lemma_star_lift(s, e, r, f);
            let rest = star(s, e, r).0;
            assert(star(s, e, g).0 == lift(rest, |v: Seq<A>| v.map_values(f)));
            match (v, rest) {
                (Ok(x), Ok(xs)) => {
                    assert((seq![x] + xs).map_values(f) =~= seq![f(x)] + xs.map_values(f));
                },
                _ => {},
            }
            assert(star(s, p, g).0 == cons(lift(v, f), star(s, e, g).0));
        },
        None => {},
    }
}

/// Zero or more annotations are read as any repetition is.
pub proof fn lemma_annotation_seq_star(s: Seq<char>, p: int, px: Px)
    ensures
        r_annotation_seq(s, p, px) == star(s, p, |t: int| r_annotation(s, t, px)),
    decreases s.len() - p,
{
    match r_annotation(s, ws(s, p), px) {
        Some((v, e)) => if p < e <= s.len() {
            lemma_annotation_seq_star(s, e, px);
        },
        None => {},
    }
}

/// A blank node `_:name`: its name.
pub open spec fn r_anonymous_individual(s: Seq<char>, p: int) -> Read<Seq<char>> {
    match node_id(s, p) {
        Some((id, e)) => Some((Ok(id), e)),
        None => None,
    }
}

/// A constraining facet: an IRI, which must be that of a facet.
pub open spec fn r_facet(s: Seq<char>, p: int, px: Px) -> Read<Facet> {
    match r_iri(s, p, px) {
        None => None,
        Some((ri, e)) => Some(
            (
                match ri {
                    Err(x) => Err(x),
                    Ok(iri) => match facet_of(iri) {
                        None => Err(SpecError::InvalidFacet(iri)),
                        Some(f) => Ok(f),
                    },
                },
                e,
            ),
        ),
    }
}

/// An axiom without its annotations (they are read, and their errors count).
pub open spec fn r_bare_axiom(s: Seq<char>, p: int, px: Px) -> Read<SpecAxiom> {
    lift_read(r_axiom(s, p, px), |a: SpecAnnotatedAxiom| a.ax)
}

} // verus!
