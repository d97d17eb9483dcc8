//! The annotations of an axiom form a set, ordered as `horned-owl` orders
//! its annotations: by property IRI, then by value (literals before IRIs;
//! plain literals, then tagged ones, then typed ones; texts compared
//! character by character). A set is kept as the strictly increasing
//! sequence of its members.
use vstd::prelude::*;
use crate::model::{
    AnnotatedAxiom, Annotation, AnnotationValue, IRI, Literal, SpecAnnotatedAxiom, SpecAnnotation, SpecAnnotationValue,
    SpecLiteral,
};
use crate::equality::same_annotated_axiom;
use crate::scan::chars_of;

verus! {

// ---------------------------------------------------------------------------
// The order
// ---------------------------------------------------------------------------

/// `-1`, `0` or `1` as `x` is below, equal to or above `y`.
pub open spec fn int_order(x: int, y: int) -> int {
    if x < y {
        -1
    } else if x > y {
        1
    } else {
        0
    }
}

/// The first comparison that is not equality, else the second.
pub open spec fn lex_order(first: int, second: int) -> int {
    if first != 0 {
        first
    } else {
        second
    }
}

/// Texts, compared character by character; a proper prefix comes first.
pub open spec fn text_order(a: Seq<char>, b: Seq<char>) -> int
    decreases a.len(),
{
    if a.len() == 0 {
        if b.len() == 0 {
            0
        } else {
            -1
        }
    } else if b.len() == 0 {
        1
    } else if a[0] != b[0] {
        int_order(a[0] as int, b[0] as int)
    } else {
        text_order(a.drop_first(), b.drop_first())
    }
}

/// The rank of a literal's kind: plain, tagged, typed.
pub open spec fn literal_rank(l: SpecLiteral) -> int {
    match l {
        SpecLiteral::Simple { .. } => 0,
        SpecLiteral::Language { .. } => 1,
        SpecLiteral::Datatype { .. } => 2,
    }
}

/// Literals: by kind, then by text, then by tag or datatype.
pub open spec fn literal_order(a: SpecLiteral, b: SpecLiteral) -> int {
    match (a, b) {
        (SpecLiteral::Simple { literal: x }, SpecLiteral::Simple { literal: y }) => text_order(x, y),
        (SpecLiteral::Language { literal: x, lang: s }, SpecLiteral::Language { literal: y, lang: t }) => lex_order(
            text_order(x, y),
            text_order(s, t),
        ),
        (
            SpecLiteral::Datatype { literal: x, datatype_iri: s },
            SpecLiteral::Datatype { literal: y, datatype_iri: t },
        ) => lex_order(text_order(x, y), text_order(s, t)),
        _ => int_order(literal_rank(a), literal_rank(b)),
    }
}

/// Annotation values: literals before IRIs.
pub open spec fn value_order(a: SpecAnnotationValue, b: SpecAnnotationValue) -> int {
    match (a, b) {
        (SpecAnnotationValue::Literal(x), SpecAnnotationValue::Literal(y)) => literal_order(x, y),
        (SpecAnnotationValue::IRI(x), SpecAnnotationValue::IRI(y)) => text_order(x, y),
        (SpecAnnotationValue::Literal(_), SpecAnnotationValue::IRI(_)) => -1,
        (SpecAnnotationValue::IRI(_), SpecAnnotationValue::Literal(_)) => 1,
    }
}

/// Annotations: by property IRI, then by value.
pub open spec fn annotation_order(a: SpecAnnotation, b: SpecAnnotation) -> int {
    lex_order(text_order(a.ap, b.ap), value_order(a.av, b.av))
}

// ---------------------------------------------------------------------------
// Sets as increasing sequences
// ---------------------------------------------------------------------------

/// Each annotation of `v` comes before every later one: `v` holds no
/// annotation twice, in increasing order.
pub open spec fn annotations_sorted(v: Seq<SpecAnnotation>) -> bool {
    forall|i: int, j: int| 0 <= i < j < v.len() ==> annotation_order(#[trigger] v[i], #[trigger] v[j]) < 0
}

/// `a` added to the set `v`: put in its place, unless it is there already.
pub open spec fn annotation_insert(v: Seq<SpecAnnotation>, a: SpecAnnotation) -> Seq<SpecAnnotation>
    decreases v.len(),
{
    if v.len() == 0 {
        seq![a]
    } else if annotation_order(a, v[0]) < 0 {
        seq![a] + v
    } else if annotation_order(a, v[0]) == 0 {
        v
    } else {
        seq![v[0]] + annotation_insert(v.drop_first(), a)
    }
}

/// The set of the annotations of `v`.
#[verifier::opaque]
pub open spec fn annotation_set(v: Seq<SpecAnnotation>) -> Seq<SpecAnnotation>
    decreases v.len(),
{
    if v.len() == 0 {
        Seq::empty()
    } else {
        annotation_insert(annotation_set(v.drop_last()), v.last())
    }
}

// ---------------------------------------------------------------------------
// The order is a strict total order
// ---------------------------------------------------------------------------

/// Text comparison is antisymmetric, and equality is its zero.
pub proof fn lemma_text_order(a: Seq<char>, b: Seq<char>)
    ensures
        text_order(b, a) == -text_order(a, b),
        (text_order(a, b) == 0) == (a == b),
        -1 <= text_order(a, b) <= 1,
    decreases a.len(),
{
    if a.len() > 0 && b.len() > 0 && a[0] == b[0] {
        lemma_text_order(a.drop_first(), b.drop_first());
        if a.drop_first() == b.drop_first() {
            assert(a =~= seq![a[0]] + a.drop_first());
            assert(b =~= seq![b[0]] + b.drop_first());
        }
    }
    if a == b && a.len() > 0 {
        assert(a.drop_first() == b.drop_first());
    }
    if a.len() == 0 && b.len() == 0 {
        assert(a =~= b);
    }
}

/// Text comparison is transitive.
pub proof fn lemma_text_order_trans(a: Seq<char>, b: Seq<char>, c: Seq<char>)
    requires
        text_order(a, b) < 0,
        text_order(b, c) < 0,
    ensures
        text_order(a, c) < 0,
    decreases a.len(),
{
    if a.len() > 0 && b.len() > 0 && c.len() > 0 && a[0] == b[0] && b[0] == c[0] {
        lemma_text_order_trans(a.drop_first(), b.drop_first(), c.drop_first());
    }
}

/// Literal comparison is antisymmetric, and equality is its zero.
pub proof fn lemma_literal_order(a: SpecLiteral, b: SpecLiteral)
    ensures
        literal_order(b, a) == -literal_order(a, b),
        (literal_order(a, b) == 0) == (a == b),
{
    match (a, b) {
        (SpecLiteral::Simple { literal: x }, SpecLiteral::Simple { literal: y }) => {
            lemma_text_order(x, y);
        },
        (SpecLiteral::Language { literal: x, lang: s }, SpecLiteral::Language { literal: y, lang: t }) => {
            lemma_text_order(x, y);
            lemma_text_order(s, t);
        },
        (
            SpecLiteral::Datatype { literal: x, datatype_iri: s },
            SpecLiteral::Datatype { literal: y, datatype_iri: t },
        ) => {
            lemma_text_order(x, y);
            lemma_text_order(s, t);
        },
        _ => {},
    }
}

/// Literal comparison is transitive.
pub proof fn lemma_literal_order_trans(a: SpecLiteral, b: SpecLiteral, c: SpecLiteral)
    requires
        literal_order(a, b) < 0,
        literal_order(b, c) < 0,
    ensures
        literal_order(a, c) < 0,
{
    match (a, b, c) {
        (
            SpecLiteral::Simple { literal: x },
            SpecLiteral::Simple { literal: y },
            SpecLiteral::Simple { literal: z },
        ) => {
            lemma_text_order_trans(x, y, z);
        },
        (
            SpecLiteral::Language { literal: x, lang: r },
            SpecLiteral::Language { literal: y, lang: s },
            SpecLiteral::Language { literal: z, lang: t },
        ) => {
            lemma_lex_trans(x, y, z, r, s, t);
        },
        (
            SpecLiteral::Datatype { literal: x, datatype_iri: r },
            SpecLiteral::Datatype { literal: y, datatype_iri: s },
            SpecLiteral::Datatype { literal: z, datatype_iri: t },
        ) => {
            lemma_lex_trans(x, y, z, r, s, t);
        },
        _ => {},
    }
}

/// Pairs of texts compared one after the other are ordered transitively.
pub proof fn lemma_lex_trans(x: Seq<char>, y: Seq<char>, z: Seq<char>, r: Seq<char>, s: Seq<char>, t: Seq<char>)
    requires
        lex_order(text_order(x, y), text_order(r, s)) < 0,
        lex_order(text_order(y, z), text_order(s, t)) < 0,
    ensures
        lex_order(text_order(x, z), text_order(r, t)) < 0,
{
    lemma_text_order(x, y);
    lemma_text_order(y, z);
    lemma_text_order(x, z);
    if text_order(x, y) < 0 && text_order(y, z) < 0 {
        lemma_text_order_trans(x, y, z);
    } else if text_order(x, y) < 0 {
    } else if text_order(y, z) < 0 {
    } else {
        lemma_text_order_trans(r, s, t);
    }
}

/// Value comparison is antisymmetric, and equality is its zero.
pub proof fn lemma_value_order(a: SpecAnnotationValue, b: SpecAnnotationValue)
    ensures
        value_order(b, a) == -value_order(a, b),
        (value_order(a, b) == 0) == (a == b),
{
    match (a, b) {
        (SpecAnnotationValue::Literal(x), SpecAnnotationValue::Literal(y)) => lemma_literal_order(x, y),
        (SpecAnnotationValue::IRI(x), SpecAnnotationValue::IRI(y)) => lemma_text_order(x, y),
        _ => {},
    }
}

/// Value comparison is transitive.
pub proof fn lemma_value_order_trans(a: SpecAnnotationValue, b: SpecAnnotationValue, c: SpecAnnotationValue)
    requires
        value_order(a, b) < 0,
        value_order(b, c) < 0,
    ensures
        value_order(a, c) < 0,
{
    match (a, b, c) {
        (SpecAnnotationValue::Literal(x), SpecAnnotationValue::Literal(y), SpecAnnotationValue::Literal(z)) => {
            lemma_literal_order_trans(x, y, z);
        },
        (SpecAnnotationValue::IRI(x), SpecAnnotationValue::IRI(y), SpecAnnotationValue::IRI(z)) => {
            lemma_text_order_trans(x, y, z);
        },
        _ => {},
    }
}

/// Annotation comparison is antisymmetric, and equality is its zero.
pub proof fn lemma_annotation_order(a: SpecAnnotation, b: SpecAnnotation)
    ensures
        annotation_order(b, a) == -annotation_order(a, b),
        (annotation_order(a, b) == 0) == (a == b),
{
    lemma_text_order(a.ap, b.ap);
    lemma_value_order(a.av, b.av);
}

/// Annotation comparison is transitive.
pub proof fn lemma_annotation_order_trans(a: SpecAnnotation, b: SpecAnnotation, c: SpecAnnotation)
    requires
        annotation_order(a, b) < 0,
        annotation_order(b, c) < 0,
    ensures
        annotation_order(a, c) < 0,
{
    lemma_text_order(a.ap, b.ap);
    lemma_text_order(b.ap, c.ap);
    lemma_text_order(a.ap, c.ap);
    if text_order(a.ap, b.ap) < 0 && text_order(b.ap, c.ap) < 0 {
        lemma_text_order_trans(a.ap, b.ap, c.ap);
    } else if text_order(a.ap, b.ap) == 0 && text_order(b.ap, c.ap) == 0 {
        lemma_value_order_trans(a.av, b.av, c.av);
    }
}

// ---------------------------------------------------------------------------
// What a set holds
// ---------------------------------------------------------------------------

/// Adding an annotation to an increasing sequence keeps it increasing, and
/// adds exactly that annotation.
#[verifier::spinoff_prover]
#[verifier::rlimit(80)]
pub proof fn lemma_annotation_insert(v: Seq<SpecAnnotation>, a: SpecAnnotation)
    requires
        annotations_sorted(v),
    ensures
        annotations_sorted(annotation_insert(v, a)),
        annotation_insert(v, a).to_set() == v.to_set().insert(a),
        forall|x: SpecAnnotation| #[trigger] annotation_insert(v, a).contains(x) ==> x == a || v.contains(x),
    decreases v.len(),
{
    let r = annotation_insert(v, a);
    if v.len() == 0 {
        assert(r.to_set() =~= v.to_set().insert(a)) by {
            assert(r[0] == a);
        }
    } else if annotation_order(a, v[0]) < 0 {
        assert forall|i: int, j: int| 0 <= i < j < r.len() implies annotation_order(#[trigger] r[i], #[trigger] r[j]) < 0 by {
            if i == 0 {
                assert(r[j] == v[j - 1]);
                if j > 1 {
                    assert(annotation_order(v[0], v[j - 1]) < 0);
                    lemma_annotation_order_trans(a, v[0], v[j - 1]);
                }
            } else {
                assert(r[i] == v[i - 1]);
                assert(r[j] == v[j - 1]);
            }
        }
        assert forall|x: SpecAnnotation| r.to_set().contains(x) <==> v.to_set().insert(a).contains(x) by {
            if r.contains(x) {
                let k = choose|k: int| 0 <= k < r.len() && r[k] == x;
                if k > 0 {
                    assert(v[k - 1] == x);
                }
            }
            if v.contains(x) {
                let k = choose|k: int| 0 <= k < v.len() && v[k] == x;
                assert(r[k + 1] == x);
            }
            if x == a {
                assert(r[0] == a);
            }
        }
        assert(r.to_set() =~= v.to_set().insert(a));
    } else if annotation_order(a, v[0]) == 0 {
        lemma_annotation_order(a, v[0]);
        assert(v.contains(a)) by {
            assert(v[0] == a);
        }
        assert(r.to_set() =~= v.to_set().insert(a));
    } else {
        let rest = v.drop_first();
        assert(annotations_sorted(rest)) by {
            assert forall|i: int, j: int| 0 <= i < j < rest.len() implies annotation_order(#[trigger] rest[i], #[trigger] rest[j]) < 0 by {
                assert(rest[i] == v[i + 1]);
                assert(rest[j] == v[j + 1]);
            }
        }
        lemma_annotation_insert(rest, a);
        let t = annotation_insert(rest, a);
        assert(r == seq![v[0]] + t);
        lemma_annotation_order(a, v[0]);
        assert forall|i: int, j: int| 0 <= i < j < r.len() implies annotation_order(#[trigger] r[i], #[trigger] r[j]) < 0 by {
            if i == 0 {
                assert(r[j] == t[j - 1]);
                assert(t.contains(t[j - 1]));
                if t[j - 1] == a {
                } else {
                    assert(rest.contains(t[j - 1]));
                    let k = choose|k: int| 0 <= k < rest.len() && rest[k] == t[j - 1];
                    assert(v[k + 1] == t[j - 1]);
                }
            } else {
                assert(r[i] == t[i - 1]);
                assert(r[j] == t[j - 1]);
            }
        }
        assert forall|x: SpecAnnotation| r.to_set().contains(x) <==> v.to_set().insert(a).contains(x) by {
            if r.contains(x) {
                let k = choose|k: int| 0 <= k < r.len() && r[k] == x;
                if k > 0 {
                    assert(t[k - 1] == x);
                    assert(t.contains(x));
                    assert(t.to_set().contains(x));
                    if x != a {
                        assert(rest.to_set().contains(x));
                        let m = choose|m: int| 0 <= m < rest.len() && rest[m] == x;
                        assert(v[m + 1] == x);
                    }
                } else {
                    assert(v[0] == x);
                }
            }
            if v.contains(x) {
                let k = choose|k: int| 0 <= k < v.len() && v[k] == x;
                if k == 0 {
                    assert(r[0] == x);
                } else {
                    assert(rest[k - 1] == x);
                    assert(rest.to_set().contains(x));
                    assert(t.to_set().contains(x));
                    let m = choose|m: int| 0 <= m < t.len() && t[m] == x;
                    assert(r[m + 1] == x);
                }
            }
            if x == a {
                assert(t.to_set().contains(a));
                let m = choose|m: int| 0 <= m < t.len() && t[m] == a;
                assert(r[m + 1] == a);
            }
        }
        assert(r.to_set() =~= v.to_set().insert(a));
    }
    assert forall|x: SpecAnnotation| #[trigger] r.contains(x) implies x == a || v.contains(x) by {
        assert(r.to_set().contains(x));
        assert(v.to_set().insert(a).contains(x));
    }
}

/// The set of a sequence of annotations is increasing, and holds exactly
/// the annotations of the sequence.
pub proof fn lemma_annotation_set(v: Seq<SpecAnnotation>)
    ensures
        annotations_sorted(annotation_set(v)),
        annotation_set(v).to_set() == v.to_set(),
    decreases v.len(),
{
    reveal(annotation_set);
    if v.len() > 0 {
        lemma_annotation_set(v.drop_last());
        lemma_annotation_insert(annotation_set(v.drop_last()), v.last());
        assert(v.drop_last().push(v.last()) =~= v);
        assert(v.to_set() =~= v.drop_last().to_set().insert(v.last())) by {
            assert forall|x: SpecAnnotation| v.to_set().contains(x) <==> v.drop_last().to_set().insert(v.last()).contains(x) by {
                if v.contains(x) {
                    let k = choose|k: int| 0 <= k < v.len() && v[k] == x;
                    if k < v.len() - 1 {
                        assert(v.drop_last()[k] == x);
                    }
                }
                if v.drop_last().contains(x) {
                    let k = choose|k: int| 0 <= k < v.drop_last().len() && v.drop_last()[k] == x;
                    assert(v[k] == x);
                }
            }
        }
    } else {
        assert(annotation_set(v).to_set() =~= v.to_set());
    }
}

/// Adding, at the end of an increasing sequence, an annotation above all of
/// its annotations appends it.
pub proof fn lemma_annotation_insert_last(v: Seq<SpecAnnotation>, a: SpecAnnotation)
    requires
        forall|k: int| 0 <= k < v.len() ==> annotation_order(#[trigger] v[k], a) < 0,
    ensures
        annotation_insert(v, a) == v.push(a),
    decreases v.len(),
{
    if v.len() > 0 {
        lemma_annotation_order(v[0], a);
        let rest = v.drop_first();
        assert forall|k: int| 0 <= k < rest.len() implies annotation_order(#[trigger] rest[k], a) < 0 by {
            assert(rest[k] == v[k + 1]);
        }
        lemma_annotation_insert_last(rest, a);
        assert(seq![v[0]] + rest.push(a) =~= v.push(a));
    } else {
        assert(seq![a] =~= v.push(a));
    }
}

/// No annotations make the empty set.
pub proof fn lemma_annotation_set_empty()
    ensures
        annotation_set(Seq::<SpecAnnotation>::empty()) == Seq::<SpecAnnotation>::empty(),
{
    reveal(annotation_set);
}

/// An increasing sequence of annotations is its own set.
pub proof fn lemma_annotation_set_of_sorted(v: Seq<SpecAnnotation>)
    requires
        annotations_sorted(v),
    ensures
        annotation_set(v) == v,
    decreases v.len(),
{
    reveal(annotation_set);
    if v.len() > 0 {
        let u = v.drop_last();
        assert(annotations_sorted(u)) by {
            assert forall|i: int, j: int| 0 <= i < j < u.len() implies annotation_order(#[trigger] u[i], #[trigger] u[j]) < 0 by {
                assert(u[i] == v[i]);
                assert(u[j] == v[j]);
            }
        }
        lemma_annotation_set_of_sorted(u);
        assert forall|k: int| 0 <= k < u.len() implies annotation_order(#[trigger] u[k], v.last()) < 0 by {
            assert(u[k] == v[k]);
        }
        lemma_annotation_insert_last(u, v.last());
        assert(u.push(v.last()) =~= v);
    } else {
        assert(annotation_set(v) =~= v);
    }
}

// ---------------------------------------------------------------------------
// Computing sets
// ---------------------------------------------------------------------------

/// Compares two texts (see [`text_order`]).
pub fn compare_text(a: &str, b: &str) -> (r: i8)
    ensures
        r == text_order(a@, b@),
{
    let x = chars_of(a);
    let y = chars_of(b);
    let mut i: usize = 0;
    assert(x@.skip(0) =~= x@);
    assert(y@.skip(0) =~= y@);
    while i < x.len() && i < y.len() && x[i] == y[i]
        invariant
            i <= x.len(),
            i <= y.len(),
            text_order(x@, y@) == text_order(x@.skip(i as int), y@.skip(i as int)),
        decreases x.len() - i,
    {
        assert(x@.skip(i as int).drop_first() =~= x@.skip(i + 1));
        assert(y@.skip(i as int).drop_first() =~= y@.skip(i + 1));
        i += 1;
    }
    assert(x@.skip(i as int).len() == x.len() - i);
    assert(y@.skip(i as int).len() == y.len() - i);
    if i == x.len() {
        assert(x@.skip(i as int) =~= Seq::<char>::empty());
        if i == y.len() {
            assert(y@.skip(i as int) =~= Seq::<char>::empty());
            0
        } else {
            -1
        }
    } else if i == y.len() {
        assert(y@.skip(i as int) =~= Seq::<char>::empty());
        1
    } else {
        assert(x@.skip(i as int)[0] == x@[i as int]);
        assert(y@.skip(i as int)[0] == y@[i as int]);
        if x[i] < y[i] {
            -1
        } else {
            1
        }
    }
}

/// Compares two literals (see [`literal_order`]).
pub fn compare_literal(a: &Literal, b: &Literal) -> (r: i8)
    ensures
        r == literal_order(a@, b@),
{
    match (a, b) {
        (Literal::Simple { literal: x }, Literal::Simple { literal: y }) => compare_text(x.as_str(), y.as_str()),
        (Literal::Language { literal: x, lang: s }, Literal::Language { literal: y, lang: t }) => {
            let c = compare_text(x.as_str(), y.as_str());
            if c != 0 {
                c
            } else {
                compare_text(s.as_str(), t.as_str())
            }
        },
        (Literal::Datatype { literal: x, datatype_iri: s }, Literal::Datatype { literal: y, datatype_iri: t }) => {
            let c = compare_text(x.as_str(), y.as_str());
            if c != 0 {
                c
            } else {
                compare_text(s.0.as_str(), t.0.as_str())
            }
        },
        _ => {
            let p: i8 = match a {
                Literal::Simple { .. } => 0,
                Literal::Language { .. } => 1,
                Literal::Datatype { .. } => 2,
            };
            let q: i8 = match b {
                Literal::Simple { .. } => 0,
                Literal::Language { .. } => 1,
                Literal::Datatype { .. } => 2,
            };
            if p < q {
                -1
            } else if p > q {
                1
            } else {
                0
            }
        },
    }
}

/// Compares two annotations (see [`annotation_order`]).
pub fn compare_annotation(a: &Annotation, b: &Annotation) -> (r: i8)
    ensures
        r == annotation_order(a@, b@),
{
    let c = compare_text(a.ap.0.as_str(), b.ap.0.as_str());
    if c != 0 {
        return c;
    }
    match (&a.av, &b.av) {
        (AnnotationValue::Literal(x), AnnotationValue::Literal(y)) => compare_literal(x, y),
        (AnnotationValue::IRI(x), AnnotationValue::IRI(y)) => compare_text(x.0.as_str(), y.0.as_str()),
        (AnnotationValue::Literal(_), AnnotationValue::IRI(_)) => -1,
        (AnnotationValue::IRI(_), AnnotationValue::Literal(_)) => 1,
    }
}

/// The mathematical form of annotations.
pub open spec fn annotations_view(v: Seq<Annotation>) -> Seq<SpecAnnotation> {
    v.map_values(|a: Annotation| a@)
}

/// Adds an annotation to a set of annotations (see [`annotation_insert`]).
pub fn insert_annotation(v: &mut Vec<Annotation>, a: Annotation)
    ensures
        annotations_view(final(v)@) == annotation_insert(annotations_view(old(v)@), a@),
{
    let ghost w = annotations_view(v@);
    let mut i: usize = 0;
    assert(w.skip(0) =~= w);
    assert(w.take(0) + w =~= w);
    while i < v.len() && compare_annotation(&a, &v[i]) > 0
        invariant
            i <= v.len(),
            w == annotations_view(v@),
            annotation_insert(w, a@) == w.take(i as int) + annotation_insert(w.skip(i as int), a@),
        decreases v.len() - i,
    {
        let ghost u = w.skip(i as int);
        assert(u[0] == w[i as int]);
        assert(u.drop_first() =~= w.skip(i + 1));
        assert(annotation_insert(u, a@) == seq![u[0]] + annotation_insert(u.drop_first(), a@));
        assert(w.take(i as int) + (seq![u[0]] + annotation_insert(w.skip(i + 1), a@)) =~= w.take(i + 1)
            + annotation_insert(w.skip(i + 1), a@));
        i += 1;
    }
    if i == v.len() {
        assert(w.skip(i as int) =~= Seq::<SpecAnnotation>::empty());
        v.push(a);
        assert(annotations_view(v@) =~= w.take(i as int) + annotation_insert(w.skip(i as int), a@));
    } else {
        let c = compare_annotation(&a, &v[i]);
        let ghost u = w.skip(i as int);
        assert(u[0] == w[i as int]);
        if c < 0 {
            v.insert(i, a);
            assert(annotations_view(v@) =~= w.take(i as int) + annotation_insert(u, a@));
        } else {
            assert(annotation_insert(u, a@) == u);
            assert(w.take(i as int) + u =~= w);
        }
    }
}

/// The set of some annotations (see [`annotation_set`]).
pub fn set_of_annotations(v: Vec<Annotation>) -> (r: Vec<Annotation>)
    ensures
        annotations_view(r@) == annotation_set(annotations_view(v@)),
{
    let ghost w = annotations_view(v@);
    let mut rest = v;
    let mut r: Vec<Annotation> = Vec::new();
    let ghost mut k: int = 0;
    proof {
        reveal(annotation_set);
        assert(w.take(0) =~= Seq::<SpecAnnotation>::empty());
    }
    while rest.len() > 0
        invariant
            0 <= k <= w.len(),
            k + rest.len() == w.len(),
            annotations_view(rest@) == w.skip(k),
            annotations_view(r@) == annotation_set(w.take(k)),
        decreases rest.len(),
    {
        let ghost before = rest@;
        proof {
            assert(annotations_view(before)[0] == before[0]@);
            assert(w.skip(k)[0] == w[k]);
        }
        let a = rest.remove(0);
        proof {
            assert(a@ == w[k]);
            assert(rest@ =~= before.remove(0));
            assert forall|j: int| 0 <= j < rest@.len() implies #[trigger] annotations_view(rest@)[j] == w.skip(k + 1)[j] by {
                assert(rest@[j] == before[j + 1]);
                assert(annotations_view(before)[j + 1] == before[j + 1]@);
                assert(w.skip(k)[j + 1] == w.skip(k + 1)[j]);
            }
            assert(annotations_view(rest@) =~= w.skip(k + 1));
            assert(w.take(k + 1).drop_last() =~= w.take(k));
            assert(w.take(k + 1).last() == w[k]);
            reveal(annotation_set);
        }
        insert_annotation(&mut r, a);
        proof {
            k = k + 1;
        }
    }
    assert(w.take(k) =~= w);
    r
}

/// A copy of a literal.
pub fn copy_literal(l: &Literal) -> (r: Literal)
    ensures
        r@ == l@,
{
    match l {
        Literal::Simple { literal } => Literal::Simple { literal: literal.clone() },
        Literal::Language { literal, lang } => Literal::Language { literal: literal.clone(), lang: lang.clone() },
        Literal::Datatype { literal, datatype_iri } => Literal::Datatype {
            literal: literal.clone(),
            datatype_iri: IRI(datatype_iri.0.clone()),
        },
    }
}

/// A copy of an annotation.
pub fn copy_annotation(a: &Annotation) -> (r: Annotation)
    ensures
        r@ == a@,
{
    let av = match &a.av {
        AnnotationValue::Literal(l) => AnnotationValue::Literal(copy_literal(l)),
        AnnotationValue::IRI(i) => AnnotationValue::IRI(IRI(i.0.clone())),
    };
    Annotation { ap: IRI(a.ap.0.clone()), av }
}

/// A copy of some annotations.
pub fn copy_annotations(v: &Vec<Annotation>) -> (r: Vec<Annotation>)
    ensures
        annotations_view(r@) == annotations_view(v@),
{
    let mut r: Vec<Annotation> = Vec::new();
    let mut i: usize = 0;
    while i < v.len()
        invariant
            i <= v.len(),
            annotations_view(r@) == annotations_view(v@).take(i as int),
            r@.len() == i,
        decreases v.len() - i,
    {
        let ghost before = r@;
        let c = copy_annotation(&v[i]);
        r.push(c);
        proof {
            assert forall|j: int| 0 <= j < r@.len() implies #[trigger] annotations_view(r@)[j] == annotations_view(v@).take(i + 1)[j] by {
                if j < i {
                    assert(r@[j] == before[j]);
                    assert(annotations_view(before)[j] == before[j]@);
                }
            }
        }
        i += 1;
        assert(annotations_view(r@) =~= annotations_view(v@).take(i as int));
    }
    assert(annotations_view(v@).take(v.len() as int) =~= annotations_view(v@));
    r
}

// ---------------------------------------------------------------------------
// Sets of axioms
// ---------------------------------------------------------------------------

/// The axioms of `v`, each once: of equal axioms the first stays, in place.
pub open spec fn axiom_set(v: Seq<SpecAnnotatedAxiom>) -> Seq<SpecAnnotatedAxiom>
    decreases v.len(),
{
    if v.len() == 0 {
        Seq::empty()
    } else {
        let r = axiom_set(v.drop_last());
        if r.contains(v.last()) {
            r
        } else {
            r.push(v.last())
        }
    }
}

/// The set of some axioms holds no axiom twice, and exactly the axioms of
/// the sequence.
pub proof fn lemma_axiom_set(v: Seq<SpecAnnotatedAxiom>)
    ensures
        axiom_set(v).no_duplicates(),
        axiom_set(v).to_set() == v.to_set(),
    decreases v.len(),
{
    if v.len() > 0 {
        let u = v.drop_last();
        lemma_axiom_set(u);
        let r = axiom_set(u);
        assert(v.to_set() =~= u.to_set().insert(v.last())) by {
            assert forall|x: SpecAnnotatedAxiom| v.to_set().contains(x) <==> u.to_set().insert(v.last()).contains(x) by {
                if v.contains(x) {
                    let k = choose|k: int| 0 <= k < v.len() && v[k] == x;
                    if k < v.len() - 1 {
                        assert(u[k] == x);
                    }
                }
                if u.contains(x) {
                    let k = choose|k: int| 0 <= k < u.len() && u[k] == x;
                    assert(v[k] == x);
                }
            }
        }
        if r.contains(v.last()) {
            assert(r.to_set() =~= r.to_set().insert(v.last()));
        } else {
            let t = r.push(v.last());
            assert forall|i: int, j: int| 0 <= i < t.len() && 0 <= j < t.len() && i != j implies t[i] != t[j] by {
                if i < r.len() && j < r.len() {
                    assert(t[i] == r[i] && t[j] == r[j]);
                } else if i < r.len() {
                    assert(t[i] == r[i]);
                } else {
                    assert(t[j] == r[j]);
                }
            }
            assert(t.to_set() =~= r.to_set().insert(v.last())) by {
                assert forall|x: SpecAnnotatedAxiom| t.to_set().contains(x) <==> r.to_set().insert(v.last()).contains(x) by {
                    if t.contains(x) {
                        let k = choose|k: int| 0 <= k < t.len() && t[k] == x;
                        if k < r.len() {
                            assert(r[k] == x);
                        }
                    }
                    if r.contains(x) {
                        let k = choose|k: int| 0 <= k < r.len() && r[k] == x;
                        assert(t[k] == x);
                    }
                    if x == v.last() {
                        assert(t[r.len() as int] == x);
                    }
                }
            }
        }
    } else {
        assert(axiom_set(v).to_set() =~= v.to_set());
    }
}

/// Axioms that hold no axiom twice are their own set.
pub proof fn lemma_axiom_set_of_distinct(v: Seq<SpecAnnotatedAxiom>)
    requires
        v.no_duplicates(),
    ensures
        axiom_set(v) == v,
    decreases v.len(),
{
    if v.len() > 0 {
        let u = v.drop_last();
        assert(u.no_duplicates()) by {
            assert forall|i: int, j: int| 0 <= i < u.len() && 0 <= j < u.len() && i != j implies u[i] != u[j] by {
                assert(u[i] == v[i] && u[j] == v[j]);
            }
        }
        lemma_axiom_set_of_distinct(u);
        if u.contains(v.last()) {
            let k = choose|k: int| 0 <= k < u.len() && u[k] == v.last();
            assert(v[k] == v[v.len() - 1]);
        }
        assert(u.push(v.last()) =~= v);
    }
}

/// The mathematical form of axioms.
pub open spec fn axioms_view(v: Seq<AnnotatedAxiom>) -> Seq<SpecAnnotatedAxiom> {
    v.map_values(|a: AnnotatedAxiom| a@)
}

/// Whether some axioms hold one equal to `a`.
pub fn holds_axiom(v: &Vec<AnnotatedAxiom>, a: &AnnotatedAxiom) -> (r: bool)
    ensures
        r == axioms_view(v@).contains(a@),
{
    let mut i: usize = 0;
    while i < v.len()
        invariant
            i <= v.len(),
            forall|j: int| 0 <= j < i ==> (#[trigger] v@[j])@ != a@,
        decreases v.len() - i,
    {
        if same_annotated_axiom(&v[i], a) {
            assert(axioms_view(v@)[i as int] == a@);
            return true;
        }
        i += 1;
    }
    assert forall|j: int| 0 <= j < axioms_view(v@).len() implies #[trigger] axioms_view(v@)[j] != a@ by {
        assert(axioms_view(v@)[j] == v@[j]@);
    }
    false
}

/// The set of some axioms (see [`axiom_set`]).
pub fn set_of_axioms(v: Vec<AnnotatedAxiom>) -> (r: Vec<AnnotatedAxiom>)
    ensures
        axioms_view(r@) == axiom_set(axioms_view(v@)),
{
    let ghost w = axioms_view(v@);
    let mut rest = v;
    let mut r: Vec<AnnotatedAxiom> = Vec::new();
    let ghost mut k: int = 0;
    proof {
        assert(w.take(0) =~= Seq::<SpecAnnotatedAxiom>::empty());
    }
    while rest.len() > 0
        invariant
            0 <= k <= w.len(),
            k + rest.len() == w.len(),
            axioms_view(rest@) == w.skip(k),
            axioms_view(r@) == axiom_set(w.take(k)),
        decreases rest.len(),
    {
        let ghost before = rest@;
        proof {
            assert(axioms_view(before)[0] == before[0]@);
            assert(w.skip(k)[0] == w[k]);
        }
        let a = rest.remove(0);
        proof {
            assert(a@ == w[k]);
            assert(rest@ =~= before.remove(0));
            assert forall|j: int| 0 <= j < rest@.len() implies #[trigger] axioms_view(rest@)[j] == w.skip(k + 1)[j] by {
                assert(rest@[j] == before[j + 1]);
                assert(axioms_view(before)[j + 1] == before[j + 1]@);
                assert(w.skip(k)[j + 1] == w.skip(k + 1)[j]);
            }
            assert(axioms_view(rest@) =~= w.skip(k + 1));
            assert(w.take(k + 1).drop_last() =~= w.take(k));
            assert(w.take(k + 1).last() == w[k]);
        }
        if !holds_axiom(&r, &a) {
            let ghost old_r = r@;
            r.push(a);
            proof {
                assert(axioms_view(r@) =~= axioms_view(old_r).push(w[k]));
            }
        }
        proof {
            k = k + 1;
        }
    }
    assert(w.take(k) =~= w);
    r
}

} // verus!
