//! What reading gives back of what writing wrote, for annotations and
//! annotated axioms: their written forms, read back, are themselves.
use vstd::prelude::*;
use crate::error::SpecError;
use crate::grammar::{
    Px, at_least, axiom_parts, bare, ce_at_least_two, close_at, has_key_parts, lift_read, open_at, r_annotation, r_annotation_seq,
    r_annotation_subject, r_annotation_value, r_axiom, r_ce, r_ce_seq, r_dr, r_entity, r_individual, r_iri,
    r_literal, r_ope, r_sub_ope, star, then, whole,
};
use crate::lexical::{is_letter, is_name_char, is_ws, letters_end, node_id, word, ws};
use crate::model::{
    SpecAnnotatedAxiom, SpecAnnotation, SpecAnnotationSubject, SpecAnnotationValue, SpecAxiom,
    SpecClassExpression, SpecDataRange, SpecIndividual, SpecLiteral, SpecObjectPropertyExpression,
    SpecSubObjectPropertyExpression,
};
use crate::rendering::{
    join, w_annotated_axiom, w_annotation, w_lean_form, w_annotation_subject, w_annotation_value, w_annotations, w_ce,
    w_ce_list, w_dr, w_individual, w_individuals, w_iri, w_iris, w_literal, w_ope, w_opes, w_sub_ope,
};
use crate::sets::{annotation_set, annotations_sorted, lemma_annotation_set_empty, lemma_annotation_set_of_sorted};
use crate::round_trip::{
    lemma_individual_opens, lemma_not_name_chars, lemma_read_written_node_id, node_text,
    ce_rt, ce_rt_list, closing, dr_rt, individual_rt, lemma_dr_start, lemma_nothing_at_close,
    lemma_read_written_dr, iri_text, keyword, lemma_ce_list_start, lemma_ce_start,
    lemma_cut_two, lemma_join_front, lemma_join_front_start, lemma_keyword_at, lemma_keyword_letters,
    lemma_ope_start,
    lemma_read_written_ce, lemma_read_written_ce_list, lemma_read_written_individual,
    lemma_read_written_individuals,
    lemma_read_written_iri, lemma_read_written_literal, lemma_read_written_ope, literal_rt, ope_rt,
};

verus! {

// ---------------------------------------------------------------------------
// Pieces of written axioms
// ---------------------------------------------------------------------------

/// An axiom whose written form reads back as itself: the declarations, and
/// the axioms of the kinds below whose parts read back as themselves.
#[verifier::opaque]
pub open spec fn ax_rt(a: SpecAxiom) -> bool {
    match a {
        SpecAxiom::DeclareClass(i) => iri_text(i),
        SpecAxiom::DeclareDatatype(i) => iri_text(i),
        SpecAxiom::DeclareObjectProperty(i) => iri_text(i),
        SpecAxiom::DeclareDataProperty(i) => iri_text(i),
        SpecAxiom::DeclareAnnotationProperty(i) => iri_text(i),
        SpecAxiom::DeclareNamedIndividual(i) => iri_text(i),
        SpecAxiom::SubClassOf { sub: x0, sup: x1 } => ce_rt(x0) && ce_rt(x1),
        SpecAxiom::InverseObjectProperties(x0, x1) => iri_text(x0) && iri_text(x1),
        SpecAxiom::ObjectPropertyDomain { ope: x0, ce: x1 } => ope_rt(x0) && ce_rt(x1),
        SpecAxiom::ObjectPropertyRange { ope: x0, ce: x1 } => ope_rt(x0) && ce_rt(x1),
        SpecAxiom::FunctionalObjectProperty(x0) => ope_rt(x0),
        SpecAxiom::InverseFunctionalObjectProperty(x0) => ope_rt(x0),
        SpecAxiom::ReflexiveObjectProperty(x0) => ope_rt(x0),
        SpecAxiom::IrreflexiveObjectProperty(x0) => ope_rt(x0),
        SpecAxiom::SymmetricObjectProperty(x0) => ope_rt(x0),
        SpecAxiom::AsymmetricObjectProperty(x0) => ope_rt(x0),
        SpecAxiom::SubDataPropertyOf { sub: x0, sup: x1 } => iri_text(x0) && iri_text(x1),
        SpecAxiom::FunctionalDataProperty(x0) => iri_text(x0),
        SpecAxiom::DataPropertyDomain { dp: x0, ce: x1 } => iri_text(x0) && ce_rt(x1),
        SpecAxiom::DataPropertyRange { dp: x0, dr: x1 } => iri_text(x0) && dr_rt(x1),
        SpecAxiom::DisjointUnion(x0, x1) => iri_text(x0) && x1.len() >= 2 && ce_rt_list(x1),
        SpecAxiom::SubObjectPropertyOf { sub: x0, sup: x1 } => sub_ope_rt(x0) && ope_rt(x1),
        SpecAxiom::TransitiveObjectProperty(SpecObjectPropertyExpression::ObjectProperty(x0)) => iri_text(x0),
        SpecAxiom::DatatypeDefinition { kind: x0, range: x1 } => iri_text(x0) && dr_rt(x1),
        SpecAxiom::ObjectPropertyAssertion { ope: x0, from: x1, to: x2 } => ope_rt(x0) && individual_rt(x1) && individual_rt(x2),
        SpecAxiom::NegativeObjectPropertyAssertion { ope: x0, from: x1, to: x2 } => ope_rt(x0) && individual_rt(x1) && individual_rt(x2),
        SpecAxiom::DataPropertyAssertion { dp: x0, from: x1, to: x2 } => iri_text(x0) && individual_rt(x1) && literal_rt(x2),
        SpecAxiom::NegativeDataPropertyAssertion { dp: x0, from: x1, to: x2 } => iri_text(x0) && individual_rt(x1) && literal_rt(x2),
        SpecAxiom::ClassAssertion { ce: x0, i: x1 } => ce_rt(x0) && individual_rt(x1),
        SpecAxiom::SubAnnotationPropertyOf { sub: x0, sup: x1 } => iri_text(x0) && iri_text(x1),
        SpecAxiom::AnnotationPropertyDomain { ap: x0, iri: x1 } => iri_text(x0) && iri_text(x1),
        SpecAxiom::AnnotationPropertyRange { ap: x0, iri: x1 } => iri_text(x0) && iri_text(x1),
        SpecAxiom::EquivalentClasses(x0) => x0.len() >= 2 && ce_rt_list(x0),
        SpecAxiom::DisjointClasses(x0) => x0.len() >= 2 && ce_rt_list(x0),
        SpecAxiom::SameIndividual(x0) => x0.len() >= 2 && forall|k: int| 0 <= k < x0.len() ==> individual_rt(#[trigger] x0[k]),
        SpecAxiom::DifferentIndividuals(x0) => x0.len() >= 2 && forall|k: int| 0 <= k < x0.len() ==> individual_rt(#[trigger] x0[k]),
        SpecAxiom::EquivalentObjectProperties(x0) => x0.len() >= 2 && forall|k: int| 0 <= k < x0.len() ==> ope_rt(#[trigger] x0[k]),
        SpecAxiom::DisjointObjectProperties(x0) => x0.len() >= 2 && forall|k: int| 0 <= k < x0.len() ==> ope_rt(#[trigger] x0[k]),
        SpecAxiom::EquivalentDataProperties(x0) => x0.len() >= 2 && forall|k: int| 0 <= k < x0.len() ==> iri_text(#[trigger] x0[k]),
        SpecAxiom::DisjointDataProperties(x0) => x0.len() >= 2 && forall|k: int| 0 <= k < x0.len() ==> iri_text(#[trigger] x0[k]),
        SpecAxiom::AnnotationAssertion { subject, ann } => iri_text(ann.ap) && annotation_subject_rt(subject)
            && annotation_value_rt(ann.av),
        SpecAxiom::HasKey { ce, vpe } => ce_rt(ce) && crate::key_round_trip::key_rt(vpe),
        _ => false,
    }
}

/// No annotation is read where the word is not `Annotation`: from `q`
/// on, the annotations read are none.
pub proof fn lemma_no_annotations(s: Seq<char>, q: int, px: Px)
    requires
        word(s, ws(s, q)) != "Annotation"@,
    ensures
        r_annotation_seq(s, q, px) == (Ok::<Seq<SpecAnnotation>, SpecError>(Seq::empty()), 0nat, q),
{
    assert(crate::grammar::r_annotation(s, ws(s, q), px) is None);
}

/// A word whose first character is not `A` is not `Annotation`.
pub proof fn lemma_word_not_annotation(s: Seq<char>, p: int)
    requires
        0 <= p < s.len(),
        s[p] != 'A',
    ensures
        word(s, p) != "Annotation"@,
{
    reveal_strlit("Annotation");
    crate::lexical::lemma_run_ends(s, p);
    if letters_end(s, p) > p {
        assert(word(s, p)[0] == s[p]);
    } else {
        assert(word(s, p).len() == 0);
    }
}

/// Text `t` after a space that ends `a`: white space from the space on
/// leads to it, and no annotation starts there.
pub proof fn lemma_starts_after_space(s: Seq<char>, a: Seq<char>, t: Seq<char>, b: Seq<char>)
    requires
        s == a + t + b,
        a.len() >= 1,
        a[a.len() - 1] == ' ',
        t.len() > 0,
        !is_ws(t[0]),
        t[0] != '#',
        t[0] != 'A',
    ensures
        ws(s, a.len() - 1) == a.len(),
        word(s, a.len() as int) != "Annotation"@,
{
    let p = a.len() as int;
    assert(s[p - 1] == ' ');
    assert(s[p] == t[0]);
    assert(ws(s, p) == p);
    lemma_word_not_annotation(s, p);
}

/// Text `t` after a space that ends `a`, where a word other than
/// `Annotation` starts: white space from the space on leads to it.
pub proof fn lemma_starts_after_space_word(s: Seq<char>, a: Seq<char>, t: Seq<char>, b: Seq<char>)
    requires
        s == a + t + b,
        a.len() >= 1,
        a[a.len() - 1] == ' ',
        t.len() > 0,
        !is_ws(t[0]),
        t[0] != '#',
        word(s, a.len() as int) != "Annotation"@,
    ensures
        ws(s, a.len() - 1) == a.len(),
{
    let p = a.len() as int;
    assert(s[p - 1] == ' ');
    assert(s[p] == t[0]);
    assert(ws(s, p) == p);
}

/// The written declaration of an annotation property, after any text `a`,
/// starts with a word other than `Annotation`.
pub proof fn lemma_annotation_property_word(s: Seq<char>, a: Seq<char>, i: Seq<char>, b: Seq<char>, px: Px)
    requires
        s == a + ("AnnotationProperty"@ + seq!['('] + w_iri(i, None) + seq![')']) + (seq![')'] + b),
    ensures
        word(s, a.len() as int) != "Annotation"@,
{
    let k = "AnnotationProperty"@;
    reveal_strlit("AnnotationProperty");
    reveal_strlit("Annotation");
    assert(keyword(k)) by {
        reveal_with_fuel(letters_end, 20);
    }
    let rest = seq!['('] + w_iri(i, None) + seq![')'] + seq![')'] + b;
    assert(s =~= a + k + rest);
    lemma_keyword_at(a, k, rest, px);
    assert(k.len() != "Annotation"@.len());
}

/// The written form of an IRI starts with `<`.
pub proof fn lemma_iri_start(i: Seq<char>)
    ensures
        w_iri(i, None).len() > 0,
        w_iri(i, None)[0] == '<',
{
}

/// The written form of an individual that reads back as itself starts with
/// `<`.
pub proof fn lemma_individual_start(i: SpecIndividual)
    requires
        individual_rt(i),
    ensures
        w_individual(i, None).len() > 0,
        w_individual(i, None)[0] == '<' || w_individual(i, None)[0] == '_',
{
    lemma_individual_opens(i);
}

/// The written form `k(t body)` of an axiom, between `a` and `b`, cut
/// after its keyword, before its annotations `t` and before its body.
pub proof fn lemma_cut_form(a: Seq<char>, k: Seq<char>, t: Seq<char>, body: Seq<char>, b: Seq<char>)
    ensures
        a + (k + seq!['('] + t + body + seq![')']) + b == a + k + (seq!['('] + t + body + seq![')'] + b),
        a + (k + seq!['('] + t + body + seq![')']) + b == (a + k + seq!['(']) + t + (body + seq![')'] + b),
        a + (k + seq!['('] + t + body + seq![')']) + b == (a + k + seq!['('] + t) + body + (seq![')'] + b),
{
    let s = a + (k + seq!['('] + t + body + seq![')']) + b;
    assert(s =~= a + k + (seq!['('] + t + body + seq![')'] + b));
    assert(s =~= (a + k + seq!['(']) + t + (body + seq![')'] + b));
    assert(s =~= (a + k + seq!['('] + t) + body + (seq![')'] + b));
}

/// A body `x y` between `a` and `c`, cut before `y`.
pub proof fn lemma_cut_pair(a: Seq<char>, x: Seq<char>, y: Seq<char>, c: Seq<char>)
    ensures
        a + (x + seq![' '] + y) + c == a + x + (seq![' '] + y + c),
        a + (x + seq![' '] + y) + c == (a + x + seq![' ']) + y + c,
{
    assert(a + (x + seq![' '] + y) + c =~= a + x + (seq![' '] + y + c));
    assert(a + (x + seq![' '] + y) + c =~= (a + x + seq![' ']) + y + c);
}

/// A body `x y z` between `a` and `c`, cut before `y` and before `z`.
pub proof fn lemma_cut_triple(a: Seq<char>, x: Seq<char>, y: Seq<char>, z: Seq<char>, c: Seq<char>)
    ensures
        a + (x + seq![' '] + y + seq![' '] + z) + c == a + x + (seq![' '] + y + seq![' '] + z + c),
        a + (x + seq![' '] + y + seq![' '] + z) + c == (a + x + seq![' ']) + y + (seq![' '] + z + c),
        a + (x + seq![' '] + y + seq![' '] + z) + c == (a + x + seq![' '] + y + seq![' ']) + z + c,
{
    let s = a + (x + seq![' '] + y + seq![' '] + z) + c;
    assert(s =~= a + x + (seq![' '] + y + seq![' '] + z + c));
    assert(s =~= (a + x + seq![' ']) + y + (seq![' '] + z + c));
    assert(s =~= (a + x + seq![' '] + y + seq![' ']) + z + c);
}

/// The written form of individuals that read back as themselves, when
/// there are any, starts with `<`.
pub proof fn lemma_individuals_start(v: Seq<SpecIndividual>)
    requires
        v.len() >= 1,
        forall|k: int| 0 <= k < v.len() ==> individual_rt(#[trigger] v[k]),
    ensures
        w_individuals(v, None).len() > 0,
        w_individuals(v, None)[0] == '<' || w_individuals(v, None)[0] == '_',
{
    let items = v.map_values(|i: SpecIndividual| w_individual(i, None));
    assert(items[0] == w_individual(v[0], None));
    assert(individual_rt(v[0]));
    lemma_individual_start(v[0]);
    lemma_join_front_start(items);
}

/// The written form of object property expressions that read back as
/// themselves, when there are any, starts with neither white space nor `A`.
pub proof fn lemma_opes_start(v: Seq<SpecObjectPropertyExpression>)
    requires
        v.len() >= 1,
        forall|k: int| 0 <= k < v.len() ==> ope_rt(#[trigger] v[k]),
    ensures
        w_opes(v, None).len() > 0,
        !is_ws(w_opes(v, None)[0]),
        w_opes(v, None)[0] != '#',
        w_opes(v, None)[0] != 'A',
{
    let items = v.map_values(|o: SpecObjectPropertyExpression| w_ope(o, None));
    assert(items[0] == w_ope(v[0], None));
    assert(ope_rt(v[0]));
    lemma_ope_start(v[0]);
    lemma_join_front_start(items);
}

/// The written form of IRIs, when there are any, starts with `<`.
pub proof fn lemma_iris_start(v: Seq<Seq<char>>)
    requires
        v.len() >= 1,
    ensures
        w_iris(v, None).len() > 0,
        w_iris(v, None)[0] == '<',
{
    let items = v.map_values(|i: Seq<char>| w_iri(i, None));
    assert(items[0] == w_iri(v[0], None));
    lemma_iri_start(v[0]);
    lemma_join_front_start(items);
}

/// The written forms of object property expressions that read back as themselves, joined
/// and followed by `)` at `start` in `s`, are read as the object property expressions, from
/// any position `p` after which white space leads to them.
#[verifier::spinoff_prover]
#[verifier::rlimit(60)]
pub proof fn lemma_read_written_opes(s: Seq<char>, start: int, v: Seq<SpecObjectPropertyExpression>, px: Px, p: int)
    requires
        v.len() >= 1,
        forall|k: int| 0 <= k < v.len() ==> ope_rt(#[trigger] v[k]),
        0 <= p <= start,
        start + w_opes(v, None).len() < s.len(),
        s.subrange(start, start + w_opes(v, None).len()) == w_opes(v, None),
        s[start + w_opes(v, None).len()] == ')',
        ws(s, p) == start,
    ensures
        star(s, p, |t: int| r_ope(s, t, px)) == (
            Ok::<Seq<SpecObjectPropertyExpression>, SpecError>(v),
            v.len(),
            start + w_opes(v, None).len(),
        ),
    decreases v.len(),
{
    let items = v.map_values(|i: SpecObjectPropertyExpression| w_ope(i, None));
    let w = w_opes(v, None);
    let w0 = w_ope(v[0], None);
    let a = s.subrange(0, start);
    assert(items[0] == w0);
    if v.len() == 1 {
        assert(w == w0);
        let b = s.subrange(start + w0.len(), s.len() as int);
        assert forall|j: int| start <= j < start + w0.len() implies #[trigger] s[j] == w0[j - start] by {
            assert(s.subrange(start, start + w.len())[j - start] == w[j - start]);
        }
        assert(s =~= a + w0 + b);
        lemma_read_written_ope(a, v[0], b, px);
        let e = start + w0.len();
        assert(s[e] == ')');
        lemma_nothing_at_close(s, e, px);
        assert(letters_end(s, e) == e);
        assert(r_ope(s, e, px) is None);
        assert(r_ope(s, start, px) == Some((Ok::<SpecObjectPropertyExpression, SpecError>(v[0]), e)));
        assert(star(s, e, |t: int| r_ope(s, t, px)) == (
            Ok::<Seq<SpecObjectPropertyExpression>, SpecError>(Seq::empty()),
            0nat,
            e,
        ));
        assert(seq![v[0]] + Seq::<SpecObjectPropertyExpression>::empty() =~= v);
    } else {
        let rest = v.subrange(1, v.len() as int);
        lemma_join_front(items);
        assert(items.subrange(1, items.len() as int) =~= rest.map_values(|i: SpecObjectPropertyExpression| w_ope(i, None)));
        let wr = w_opes(rest, None);
        assert(w == w0 + seq![' '] + wr);
        let b = s.subrange(start + w0.len(), s.len() as int);
        assert forall|j: int| start <= j < start + w.len() implies #[trigger] s[j] == w[j - start] by {
            assert(s.subrange(start, start + w.len())[j - start] == w[j - start]);
        }
        assert forall|j: int| start <= j < start + w0.len() implies #[trigger] s[j] == w0[j - start] by {
            assert(w[j - start] == w0[j - start]);
        }
        assert(s =~= a + w0 + b);
        lemma_read_written_ope(a, v[0], b, px);
        let e = start + w0.len();
        assert(s[start + w0.len()] == w[w0.len() as int]);
        assert(s[e] == ' ');
        assert forall|k: int| 0 <= k < wr.len() implies #[trigger] s.subrange(e + 1, e + 1 + wr.len())[k] == wr[k] by {
            assert(s[e + 1 + k] == w[w0.len() + 1 + k]);
        }
        assert(s.subrange(e + 1, e + 1 + wr.len()) =~= wr);
        assert(s[e + 1] == wr[0]);
        assert(rest[0] == v[1]);
        assert(!is_ws(wr[0]) && wr[0] != '#') by {
            assert(ope_rt(rest[0]));
            lemma_ope_start(rest[0]);
            lemma_join_front_start(rest.map_values(|i: SpecObjectPropertyExpression| w_ope(i, None)));
        }
        assert(ws(s, e + 1) == e + 1);
        assert(ws(s, e) == e + 1);
        lemma_read_written_opes(s, e + 1, rest, px, e);
        assert(seq![v[0]] + rest =~= v);
    }
}

/// The written forms of IRIs that read back as themselves, joined
/// and followed by `)` at `start` in `s`, are read as the IRIs, from
/// any position `p` after which white space leads to them.
#[verifier::spinoff_prover]
#[verifier::rlimit(60)]
pub proof fn lemma_read_written_iris(s: Seq<char>, start: int, v: Seq<Seq<char>>, px: Px, p: int)
    requires
        v.len() >= 1,
        forall|k: int| 0 <= k < v.len() ==> iri_text(#[trigger] v[k]),
        0 <= p <= start,
        start + w_iris(v, None).len() < s.len(),
        s.subrange(start, start + w_iris(v, None).len()) == w_iris(v, None),
        s[start + w_iris(v, None).len()] == ')',
        ws(s, p) == start,
    ensures
        star(s, p, |t: int| r_iri(s, t, px)) == (
            Ok::<Seq<Seq<char>>, SpecError>(v),
            v.len(),
            start + w_iris(v, None).len(),
        ),
    decreases v.len(),
{
    let items = v.map_values(|i: Seq<char>| w_iri(i, None));
    let w = w_iris(v, None);
    let w0 = w_iri(v[0], None);
    let a = s.subrange(0, start);
    assert(items[0] == w0);
    if v.len() == 1 {
        assert(w == w0);
        let b = s.subrange(start + w0.len(), s.len() as int);
        assert forall|j: int| start <= j < start + w0.len() implies #[trigger] s[j] == w0[j - start] by {
            assert(s.subrange(start, start + w.len())[j - start] == w[j - start]);
        }
        assert(s =~= a + w0 + b);
        lemma_read_written_iri(a, v[0], b, px);
        let e = start + w0.len();
        assert(s[e] == ')');
        lemma_nothing_at_close(s, e, px);
        assert(letters_end(s, e) == e);
        assert(r_iri(s, e, px) is None);
        assert(r_iri(s, start, px) == Some((Ok::<Seq<char>, SpecError>(v[0]), e)));
        assert(star(s, e, |t: int| r_iri(s, t, px)) == (
            Ok::<Seq<Seq<char>>, SpecError>(Seq::empty()),
            0nat,
            e,
        ));
        assert(seq![v[0]] + Seq::<Seq<char>>::empty() =~= v);
    } else {
        let rest = v.subrange(1, v.len() as int);
        lemma_join_front(items);
        assert(items.subrange(1, items.len() as int) =~= rest.map_values(|i: Seq<char>| w_iri(i, None)));
        let wr = w_iris(rest, None);
        assert(w == w0 + seq![' '] + wr);
        let b = s.subrange(start + w0.len(), s.len() as int);
        assert forall|j: int| start <= j < start + w.len() implies #[trigger] s[j] == w[j - start] by {
            assert(s.subrange(start, start + w.len())[j - start] == w[j - start]);
        }
        assert forall|j: int| start <= j < start + w0.len() implies #[trigger] s[j] == w0[j - start] by {
            assert(w[j - start] == w0[j - start]);
        }
        assert(s =~= a + w0 + b);
        lemma_read_written_iri(a, v[0], b, px);
        let e = start + w0.len();
        assert(s[start + w0.len()] == w[w0.len() as int]);
        assert(s[e] == ' ');
        assert forall|k: int| 0 <= k < wr.len() implies #[trigger] s.subrange(e + 1, e + 1 + wr.len())[k] == wr[k] by {
            assert(s[e + 1 + k] == w[w0.len() + 1 + k]);
        }
        assert(s.subrange(e + 1, e + 1 + wr.len()) =~= wr);
        assert(s[e + 1] == wr[0]);
        assert(rest[0] == v[1]);
        assert(!is_ws(wr[0]) && wr[0] != '#') by {
            assert(iri_text(rest[0]));
            lemma_iri_start(rest[0]);
            lemma_join_front_start(rest.map_values(|i: Seq<char>| w_iri(i, None)));
        }
        assert(ws(s, e + 1) == e + 1);
        assert(ws(s, e) == e + 1);
        lemma_read_written_iris(s, e + 1, rest, px, e);
        assert(seq![v[0]] + rest =~= v);
    }
}

/// A sub property expression whose written form reads back as itself: an
/// object property expression, or a chain of two or more.
pub open spec fn sub_ope_rt(x: SpecSubObjectPropertyExpression) -> bool {
    match x {
        SpecSubObjectPropertyExpression::ObjectPropertyExpression(o) => ope_rt(o),
        SpecSubObjectPropertyExpression::ObjectPropertyChain(v) => v.len() >= 2 && forall|k: int|
            0 <= k < v.len() ==> ope_rt(#[trigger] v[k]),
    }
}

/// The written form of a sub property expression that reads back as itself
/// starts with neither white space nor `A`.
pub proof fn lemma_sub_ope_start(x: SpecSubObjectPropertyExpression)
    requires
        sub_ope_rt(x),
    ensures
        w_sub_ope(x, None).len() > 0,
        !is_ws(w_sub_ope(x, None)[0]),
        w_sub_ope(x, None)[0] != '#',
        w_sub_ope(x, None)[0] != 'A',
{
    match x {
        SpecSubObjectPropertyExpression::ObjectPropertyExpression(o) => lemma_ope_start(o),
        SpecSubObjectPropertyExpression::ObjectPropertyChain(_) => {
            reveal_strlit("ObjectPropertyChain(");
        },
    }
}

/// The written form of a sub property expression that reads back as
/// itself, read after any text `a` and followed by any text `b`, is the
/// expression.
#[verifier::spinoff_prover]
#[verifier::rlimit(40)]
pub proof fn lemma_read_written_sub_ope(a: Seq<char>, x: SpecSubObjectPropertyExpression, b: Seq<char>, px: Px)
    requires
        sub_ope_rt(x),
    ensures
        r_sub_ope(a + w_sub_ope(x, None) + b, a.len() as int, px) == Some(
            (Ok::<SpecSubObjectPropertyExpression, SpecError>(x), a.len() + w_sub_ope(x, None).len() + 0int),
        ),
{
    match x {
        SpecSubObjectPropertyExpression::ObjectPropertyExpression(o) => {
            lemma_read_written_ope(a, o, b, px);
        },
        SpecSubObjectPropertyExpression::ObjectPropertyChain(v) => {
            let s = a + w_sub_ope(x, None) + b;
            let k = "ObjectPropertyChain"@;
            reveal_strlit("ObjectPropertyChain");
            reveal_strlit("ObjectPropertyChain(");
            reveal_strlit("ObjectInverseOf");
            assert(keyword(k)) by {
                reveal_with_fuel(letters_end, 22);
            }
            let wv = w_opes(v, None);
            assert(s =~= a + k + (seq!['('] + wv + seq![')'] + b));
            lemma_keyword_at(a, k, seq!['('] + wv + seq![')'] + b, px);
            assert(k.len() != "ObjectInverseOf"@.len());
            let q = a.len() + k.len() + 1int;
            lemma_opes_start(v);
            assert(s[q] == wv[0]);
            assert(ws(s, q) == q);
            assert(s.subrange(q, q + wv.len()) =~= wv);
            assert(s[q + wv.len()] == ')');
            lemma_read_written_opes(s, q, v, px, q);
            assert(ws(s, q + wv.len()) == q + wv.len());
        },
    }
}

/// Two or more class expressions that read back as themselves, written
/// after any text `a` and followed by a closing parenthesis, are read as
/// themselves.
pub proof fn lemma_read_written_ce_list_two(a: Seq<char>, v: Seq<SpecClassExpression>, b: Seq<char>, px: Px)
    requires
        v.len() >= 2,
        ce_rt_list(v),
        b.len() > 0,
        b[0] == ')',
    ensures
        ce_at_least_two(a + w_ce_list(v, None) + b, a.len() as int, px) == Some(
            (Ok::<Seq<SpecClassExpression>, SpecError>(v), a.len() + w_ce_list(v, None).len() + 0int),
        ),
{
    let s = a + w_ce_list(v, None) + b;
    lemma_ce_list_start(v);
    assert(s[a.len() as int] == w_ce_list(v, None)[0]);
    assert(ws(s, a.len() as int) == a.len());
    lemma_read_written_ce_list(a, v, b, px, a.len() as int);
}

/// The written form of a literal starts with a quote.
pub proof fn lemma_literal_start(l: SpecLiteral)
    ensures
        w_literal(l, None).len() > 0,
        w_literal(l, None)[0] == '"',
{
}

/// The written form of an annotation subject that is an IRI starts with
/// `<`.
pub proof fn lemma_annotation_subject_start(x: SpecAnnotationSubject)
    requires
        annotation_subject_rt(x),
    ensures
        w_annotation_subject(x, None).len() > 0,
        w_annotation_subject(x, None)[0] == '<' || w_annotation_subject(x, None)[0] == '_',
{
    reveal_strlit("_:");
}

/// An annotation subject whose written form reads back as itself: an IRI
/// that does, or a blank node whose identifier does.
pub open spec fn annotation_subject_rt(x: SpecAnnotationSubject) -> bool {
    match x {
        SpecAnnotationSubject::IRI(i) => iri_text(i),
        SpecAnnotationSubject::AnonymousIndividual(id) => node_text(id),
    }
}

/// The written form of an annotation subject that reads back as itself,
/// read after any text `a` and followed by what cannot continue a name, is
/// the subject.
pub proof fn lemma_read_written_annotation_subject(a: Seq<char>, x: SpecAnnotationSubject, b: Seq<char>, px: Px)
    requires
        annotation_subject_rt(x),
        b.len() == 0 || !is_name_char(b[0]),
    ensures
        r_annotation_subject(a + w_annotation_subject(x, None) + b, a.len() as int, px) == Some(
            (Ok::<SpecAnnotationSubject, SpecError>(x), a.len() + w_annotation_subject(x, None).len() + 0int),
        ),
{
    match x {
        SpecAnnotationSubject::IRI(i) => lemma_read_written_iri(a, i, b, px),
        SpecAnnotationSubject::AnonymousIndividual(id) => {
            let s = a + w_annotation_subject(x, None) + b;
            lemma_read_written_node_id(a, id, b);
            assert(s[a.len() as int] == '_');
            assert(crate::lexical::full_iri(s, a.len() as int) is None);
            assert(crate::lexical::abbreviated_iri(s, a.len() as int) is None);
        },
    }
}

/// The written form of an annotation value that reads back as itself
/// starts with `<` or a quote.
pub proof fn lemma_annotation_value_start(v: SpecAnnotationValue)
    requires
        annotation_value_rt(v),
    ensures
        w_annotation_value(v, None).len() > 0,
        w_annotation_value(v, None)[0] == '<' || w_annotation_value(v, None)[0] == '"',
{
}

/// Reading an axiom whose keyword and opening parenthesis lead to `q`: its
/// annotations, then its parts, then the closing parenthesis.
pub proof fn lemma_r_axiom_at(
    s: Seq<char>,
    p: int,
    px: Px,
    q: int,
    k: Seq<char>,
    v: SpecAxiom,
    ann: Seq<SpecAnnotation>,
    e0: int,
    e: int,
)
    requires
        open_at(s, letters_end(s, p)) == Some(q),
        word(s, p) == k,
        r_annotation_seq(s, q, px) == (Ok::<Seq<SpecAnnotation>, SpecError>(ann), ann.len(), e0),
        axiom_parts(k, s, ws(s, e0), px) == Some((Ok::<SpecAxiom, SpecError>(v), e)),
        close_at(s, e) == Some(e + 1),
        annotations_sorted(ann),
    ensures
        r_axiom(s, p, px) == Some(
            (Ok::<SpecAnnotatedAxiom, SpecError>(SpecAnnotatedAxiom { ax: v, ann }), e + 1),
        ),
{
    reveal(r_axiom);
    lemma_annotation_set_of_sorted(ann);
}

// ---------------------------------------------------------------------------
// Annotations
// ---------------------------------------------------------------------------

/// An annotation value whose written form reads back as itself.
pub open spec fn annotation_value_rt(v: SpecAnnotationValue) -> bool {
    match v {
        SpecAnnotationValue::IRI(i) => iri_text(i),
        SpecAnnotationValue::Literal(l) => literal_rt(l),
    }
}

/// An annotation whose written form reads back as itself.
pub open spec fn annotation_rt(an: SpecAnnotation) -> bool {
    iri_text(an.ap) && annotation_value_rt(an.av)
}

/// Every annotation of `v` reads back as itself.
pub open spec fn annotations_rt(v: Seq<SpecAnnotation>) -> bool {
    forall|k: int| 0 <= k < v.len() ==> annotation_rt(#[trigger] v[k])
}

/// The written form of an annotation value that reads back as itself, read
/// after any text `a` and followed by a closing text, is the value.
pub proof fn lemma_read_written_annotation_value(a: Seq<char>, v: SpecAnnotationValue, b: Seq<char>, px: Px)
    requires
        annotation_value_rt(v),
        closing(b),
    ensures
        r_annotation_value(a + w_annotation_value(v, None) + b, a.len() as int, px) == Some(
            (Ok::<SpecAnnotationValue, SpecError>(v), a.len() + w_annotation_value(v, None).len() + 0int),
        ),
        w_annotation_value(v, None).len() > 0,
        w_annotation_value(v, None)[0] == '<' || w_annotation_value(v, None)[0] == '"',
{
    let s = a + w_annotation_value(v, None) + b;
    let p = a.len() as int;
    match v {
        SpecAnnotationValue::IRI(i) => {
            lemma_read_written_iri(a, i, b, px);
            assert(s[p] == '<');
            assert(node_id(s, p) is None);
        },
        SpecAnnotationValue::Literal(l) => {
            lemma_read_written_literal(a, l, b, px);
            assert(w_annotation_value(v, None)[0] == '"');
            assert(s[p] == '"');
            assert(node_id(s, p) is None);
            assert(r_iri(s, p, px) is None);
        },
    }
}

/// The written form of an annotation that reads back as itself, read after
/// any text `a` and followed by any text `b`, is the annotation.
#[verifier::spinoff_prover]
#[verifier::rlimit(80)]
pub proof fn lemma_read_written_annotation(a: Seq<char>, an: SpecAnnotation, b: Seq<char>, px: Px)
    requires
        annotation_rt(an),
    ensures
        r_annotation(a + w_annotation(an, None) + b, a.len() as int, px) == Some(
            (Ok::<SpecAnnotation, SpecError>(an), a.len() + w_annotation(an, None).len() + 0int),
        ),
        w_annotation(an, None).len() > 0,
        w_annotation(an, None)[0] == 'A',
        r_iri(a + w_annotation(an, None) + b, a.len() as int, px) is None,
{
    let s = a + w_annotation(an, None) + b;
    let k = "Annotation"@;
    let wa = w_iri(an.ap, None);
    let wv = w_annotation_value(an.av, None);
    reveal_strlit("Annotation");
    assert(keyword(k)) by {
        reveal_with_fuel(letters_end, 12);
    }
    lemma_cut_two(a, k, wa, wv, b);
    assert(s =~= a + k + (seq!['('] + wa + seq![' '] + wv + seq![')'] + b));
    lemma_keyword_at(a, k, seq!['('] + wa + seq![' '] + wv + seq![')'] + b, px);
    let a0 = a + k + seq!['('];
    let q = a0.len() as int;
    assert(s[q] == '<');
    assert(ws(s, q) == q);
    lemma_word_not_annotation(s, q);
    lemma_no_annotations(s, q, px);
    lemma_read_written_iri(a0, an.ap, seq![' '] + wv + seq![')'] + b, px);
    let a1 = a0 + wa + seq![' '];
    lemma_read_written_annotation_value(a1, an.av, seq![')'] + b, px);
    let e1 = q + wa.len();
    assert(s[e1] == ' ');
    assert(s[e1 + 1] == wv[0]);
    assert(ws(s, e1 + 1) == e1 + 1);
    assert(ws(s, e1) == e1 + 1);
    let e2 = a1.len() + wv.len() + 0int;
    assert(s[e2] == ')');
    assert(ws(s, e2) == e2);
}

/// The written forms of annotations that read back as themselves, joined,
/// after `a` in `s` and followed by what no annotation starts, are read as
/// the annotations, from any position `p` after which white space leads to
/// them.
#[verifier::spinoff_prover]
#[verifier::rlimit(40)]
pub proof fn lemma_read_written_annotations(s: Seq<char>, a: Seq<char>, v: Seq<SpecAnnotation>, b: Seq<char>, px: Px, p: int)
    requires
        v.len() >= 1,
        annotations_rt(v),
        s == a + w_annotations(v, None) + b,
        b.len() >= 1,
        b[0] == ' ',
        word(s, ws(s, a.len() + w_annotations(v, None).len() + 0int)) != "Annotation"@,
        0 <= p <= a.len(),
        ws(s, p) == a.len(),
    ensures
        r_annotation_seq(s, p, px) == (
            Ok::<Seq<SpecAnnotation>, SpecError>(v),
            v.len(),
            a.len() + w_annotations(v, None).len() + 0int,
        ),
    decreases v.len(),
{
    let items = v.map_values(|x: SpecAnnotation| w_annotation(x, None));
    let w = w_annotations(v, None);
    let w0 = w_annotation(v[0], None);
    assert(items[0] == w0);
    assert(annotation_rt(v[0]));
    let e = a.len() + w0.len() + 0int;
    if v.len() == 1 {
        assert(join(items) == w0);
        assert(s =~= a + w0 + b);
        lemma_read_written_annotation(a, v[0], b, px);
        assert(r_annotation_seq(s, e, px) == (Ok::<Seq<SpecAnnotation>, SpecError>(Seq::empty()), 0nat, e))
            by {
            lemma_no_annotations(s, e, px);
        }
        assert(seq![v[0]] + Seq::<SpecAnnotation>::empty() =~= v);
    } else {
        let rest = v.subrange(1, v.len() as int);
        lemma_join_front(items);
        assert(items.subrange(1, items.len() as int) =~= rest.map_values(|x: SpecAnnotation| w_annotation(x, None)));
        let wr = w_annotations(rest, None);
        assert(w == w0 + seq![' '] + wr);
        assert(s =~= a + w0 + (seq![' '] + wr + b));
        lemma_read_written_annotation(a, v[0], seq![' '] + wr + b, px);
        let a2 = a + w0 + seq![' '];
        assert(s =~= a2 + wr + b);
        assert(rest[0] == v[1]);
        assert(annotation_rt(rest[0]));
        assert(wr[0] == 'A') by {
            lemma_read_written_annotation(a2, rest[0], b, px);
            lemma_join_front_start(rest.map_values(|x: SpecAnnotation| w_annotation(x, None)));
        }
        assert(s[e] == ' ');
        assert(s[e + 1] == 'A');
        assert(ws(s, e + 1) == e + 1);
        assert(ws(s, e) == e + 1);
        assert(annotations_rt(rest)) by {
            assert forall|k: int| 0 <= k < rest.len() implies annotation_rt(#[trigger] rest[k]) by {
                assert(rest[k] == v[k + 1]);
            }
        }
        lemma_read_written_annotations(s, a2, rest, b, px, e);
        assert(seq![v[0]] + rest =~= v);
    }
}

/// Reading the written form of an annotation that reads back as itself
/// gives the annotation back, whatever the prefixes used to read it.
pub proof fn annotation_round_trip(an: SpecAnnotation, px: Px)
    requires
        annotation_rt(an),
    ensures
        whole(w_annotation(an, None), r_annotation(w_annotation(an, None), 0, px)) == Ok::<
            SpecAnnotation,
            SpecError,
        >(an),
{
    lemma_read_written_annotation(Seq::empty(), an, Seq::empty(), px);
    assert(Seq::<char>::empty() + w_annotation(an, None) + Seq::<char>::empty() =~= w_annotation(an, None));
}

/// The written form of annotations, when there are any, starts with `A`.
pub proof fn lemma_annotations_start(v: Seq<SpecAnnotation>)
    requires
        v.len() >= 1,
    ensures
        w_annotations(v, None).len() > 0,
        w_annotations(v, None)[0] == 'A',
{
    let items = v.map_values(|x: SpecAnnotation| w_annotation(x, None));
    assert(items[0] == w_annotation(v[0], None));
    reveal_strlit("Annotation");
    assert(w_annotation(v[0], None)[0] == 'A');
    lemma_join_front_start(items);
}

/// The annotations of an axiom, written after `a0` and followed by a space
/// and a text `c` that no annotation starts: they are read from `a0` on, up
/// to the space, and white space from the space on leads to `c`.
#[verifier::spinoff_prover]
pub proof fn lemma_read_written_annotations_before(
    s: Seq<char>,
    a0: Seq<char>,
    v: Seq<SpecAnnotation>,
    c: Seq<char>,
    px: Px,
)
    requires
        annotations_rt(v),
        s == a0 + (w_annotations(v, None) + seq![' ']) + c,
        c.len() > 0,
        !is_ws(c[0]),
        c[0] != '#',
        c[0] != 'A' || word(s, a0.len() + w_annotations(v, None).len() + 1int) != "Annotation"@,
    ensures
        r_annotation_seq(s, a0.len() as int, px) == (
            Ok::<Seq<SpecAnnotation>, SpecError>(v),
            v.len(),
            a0.len() + w_annotations(v, None).len() + 0int,
        ),
        ws(s, a0.len() + w_annotations(v, None).len() + 0int) == a0.len() + w_annotations(v, None).len() + 1,
{
    let w = w_annotations(v, None);
    let a1 = a0 + w + seq![' '];
    assert(s =~= a1 + c + Seq::<char>::empty());
    if c[0] != 'A' {
        lemma_starts_after_space(s, a1, c, Seq::<char>::empty());
    } else {
        lemma_starts_after_space_word(s, a1, c, Seq::<char>::empty());
    }
    if v.len() == 0 {
        assert(w =~= Seq::<char>::empty());
        lemma_no_annotations(s, a0.len() as int, px);
        assert(v =~= Seq::<SpecAnnotation>::empty());
    } else {
        lemma_annotations_start(v);
        assert(s[a0.len() as int] == 'A');
        assert(ws(s, a0.len() as int) == a0.len());
        assert(s =~= a0 + w + (seq![' '] + c));
        lemma_read_written_annotations(s, a0, v, seq![' '] + c, px, a0.len() as int);
    }
}


// ---------------------------------------------------------------------------
// Axiom kinds
// ---------------------------------------------------------------------------

/// The axiom kind `Declaration`: its keyword and what its parts are read as.
#[verifier::spinoff_prover]
pub proof fn lemma_axiom_branch_declaration(s: Seq<char>, u: int, px: Px)
    ensures
        keyword("Declaration"@),
        "Declaration"@ != "Import"@,
        "Declaration"@ != "Annotation"@,
        axiom_parts("Declaration"@, s, u, px) == r_entity(s, u, px),
{
    reveal_strlit("Declaration");
    reveal_strlit("Import");
    reveal_strlit("Annotation");
    assert("Declaration"@.len() != "Import"@.len());
    assert("Declaration"@.len() != "Annotation"@.len());
    reveal_with_fuel(letters_end, 36);
}

/// The axiom kind `SubClassOf`: its keyword and what its parts are read as.
#[verifier::spinoff_prover]
pub proof fn lemma_axiom_branch_sub_class_of(s: Seq<char>, u: int, px: Px)
    ensures
        keyword("SubClassOf"@),
        "SubClassOf"@ != "Import"@,
        "SubClassOf"@ != "Annotation"@,
        axiom_parts("SubClassOf"@, s, u, px) == lift_read(then(s, r_ce(s, u, px), |t: int| r_ce(s, t, px)), |x: (SpecClassExpression, SpecClassExpression)| SpecAxiom::SubClassOf { sub: x.0, sup: x.1 }),
{
    reveal_strlit("Declaration");
    reveal_strlit("SubClassOf");
    reveal_strlit("Import");
    reveal_strlit("Annotation");
    assert("SubClassOf"@.len() != "Import"@.len());
    assert("SubClassOf"@[0] != "Annotation"@[0]);
    reveal_with_fuel(letters_end, 36);
    assert("SubClassOf"@.len() != "Declaration"@.len());
    assert("SubClassOf"@ != "Declaration"@);
}

/// The axiom kind `EquivalentClasses`: its keyword and what its parts are read as.
#[verifier::spinoff_prover]
pub proof fn lemma_axiom_branch_equivalent_classes(s: Seq<char>, u: int, px: Px)
    ensures
        keyword("EquivalentClasses"@),
        "EquivalentClasses"@ != "Import"@,
        "EquivalentClasses"@ != "Annotation"@,
        axiom_parts("EquivalentClasses"@, s, u, px) == lift_read(ce_at_least_two(s, u, px), |x: Seq<SpecClassExpression>| SpecAxiom::EquivalentClasses(x)),
{
    reveal_strlit("Declaration");
    reveal_strlit("SubClassOf");
    reveal_strlit("EquivalentClasses");
    reveal_strlit("Import");
    reveal_strlit("Annotation");
    assert("EquivalentClasses"@.len() != "Import"@.len());
    assert("EquivalentClasses"@.len() != "Annotation"@.len());
    reveal_with_fuel(letters_end, 36);
    assert("EquivalentClasses"@.len() != "Declaration"@.len());
    assert("EquivalentClasses"@ != "Declaration"@);
    assert("EquivalentClasses"@.len() != "SubClassOf"@.len());
    assert("EquivalentClasses"@ != "SubClassOf"@);
}

/// The axiom kind `DisjointClasses`: its keyword and what its parts are read as.
#[verifier::spinoff_prover]
pub proof fn lemma_axiom_branch_disjoint_classes(s: Seq<char>, u: int, px: Px)
    ensures
        keyword("DisjointClasses"@),
        "DisjointClasses"@ != "Import"@,
        "DisjointClasses"@ != "Annotation"@,
        axiom_parts("DisjointClasses"@, s, u, px) == lift_read(ce_at_least_two(s, u, px), |x: Seq<SpecClassExpression>| SpecAxiom::DisjointClasses(x)),
{
    reveal_strlit("Declaration");
    reveal_strlit("SubClassOf");
    reveal_strlit("EquivalentClasses");
    reveal_strlit("DisjointClasses");
    reveal_strlit("Import");
    reveal_strlit("Annotation");
    assert("DisjointClasses"@.len() != "Import"@.len());
    assert("DisjointClasses"@.len() != "Annotation"@.len());
    reveal_with_fuel(letters_end, 36);
    assert("DisjointClasses"@.len() != "Declaration"@.len());
    assert("DisjointClasses"@ != "Declaration"@);
    assert("DisjointClasses"@.len() != "SubClassOf"@.len());
    assert("DisjointClasses"@ != "SubClassOf"@);
    assert("DisjointClasses"@.len() != "EquivalentClasses"@.len());
    assert("DisjointClasses"@ != "EquivalentClasses"@);
}

/// The axiom kind `DisjointUnion`: its keyword and what its parts are read as.
#[verifier::spinoff_prover]
pub proof fn lemma_axiom_branch_disjoint_union(s: Seq<char>, u: int, px: Px)
    ensures
        keyword("DisjointUnion"@),
        "DisjointUnion"@ != "Import"@,
        "DisjointUnion"@ != "Annotation"@,
        axiom_parts("DisjointUnion"@, s, u, px) == lift_read(then(s, r_iri(s, u, px), |t: int| ce_at_least_two(s, t, px)), |x: (Seq<char>, Seq<SpecClassExpression>)| SpecAxiom::DisjointUnion(x.0, x.1)),
{
    reveal_strlit("Declaration");
    reveal_strlit("SubClassOf");
    reveal_strlit("EquivalentClasses");
    reveal_strlit("DisjointClasses");
    reveal_strlit("DisjointUnion");
    reveal_strlit("Import");
    reveal_strlit("Annotation");
    assert("DisjointUnion"@.len() != "Import"@.len());
    assert("DisjointUnion"@.len() != "Annotation"@.len());
    reveal_with_fuel(letters_end, 36);
    assert("DisjointUnion"@.len() != "Declaration"@.len());
    assert("DisjointUnion"@ != "Declaration"@);
    assert("DisjointUnion"@.len() != "SubClassOf"@.len());
    assert("DisjointUnion"@ != "SubClassOf"@);
    assert("DisjointUnion"@.len() != "EquivalentClasses"@.len());
    assert("DisjointUnion"@ != "EquivalentClasses"@);
    assert("DisjointUnion"@.len() != "DisjointClasses"@.len());
    assert("DisjointUnion"@ != "DisjointClasses"@);
}

/// The axiom kind `SubObjectPropertyOf`: its keyword and what its parts are read as.
#[verifier::spinoff_prover]
pub proof fn lemma_axiom_branch_sub_object_property_of(s: Seq<char>, u: int, px: Px)
    ensures
        keyword("SubObjectPropertyOf"@),
        "SubObjectPropertyOf"@ != "Import"@,
        "SubObjectPropertyOf"@ != "Annotation"@,
        axiom_parts("SubObjectPropertyOf"@, s, u, px) == lift_read(then(s, r_sub_ope(s, u, px), |t: int| r_ope(s, t, px)), |x: (SpecSubObjectPropertyExpression, SpecObjectPropertyExpression)| SpecAxiom::SubObjectPropertyOf { sub: x.0, sup: x.1 }),
{
    reveal_strlit("Declaration");
    reveal_strlit("SubClassOf");
    reveal_strlit("EquivalentClasses");
    reveal_strlit("DisjointClasses");
    reveal_strlit("DisjointUnion");
    reveal_strlit("SubObjectPropertyOf");
    reveal_strlit("Import");
    reveal_strlit("Annotation");
    assert("SubObjectPropertyOf"@.len() != "Import"@.len());
    assert("SubObjectPropertyOf"@.len() != "Annotation"@.len());
    reveal_with_fuel(letters_end, 36);
    assert("SubObjectPropertyOf"@.len() != "Declaration"@.len());
    assert("SubObjectPropertyOf"@ != "Declaration"@);
    assert("SubObjectPropertyOf"@.len() != "SubClassOf"@.len());
    assert("SubObjectPropertyOf"@ != "SubClassOf"@);
    assert("SubObjectPropertyOf"@.len() != "EquivalentClasses"@.len());
    assert("SubObjectPropertyOf"@ != "EquivalentClasses"@);
    assert("SubObjectPropertyOf"@.len() != "DisjointClasses"@.len());
    assert("SubObjectPropertyOf"@ != "DisjointClasses"@);
    assert("SubObjectPropertyOf"@.len() != "DisjointUnion"@.len());
    assert("SubObjectPropertyOf"@ != "DisjointUnion"@);
}

/// The axiom kind `EquivalentObjectProperties`: its keyword and what its parts are read as.
#[verifier::spinoff_prover]
pub proof fn lemma_axiom_branch_equivalent_object_properties(s: Seq<char>, u: int, px: Px)
    ensures
        keyword("EquivalentObjectProperties"@),
        "EquivalentObjectProperties"@ != "Import"@,
        "EquivalentObjectProperties"@ != "Annotation"@,
        axiom_parts("EquivalentObjectProperties"@, s, u, px) == lift_read(at_least(s, u, |t: int| r_ope(s, t, px), 2), |x: Seq<SpecObjectPropertyExpression>| SpecAxiom::EquivalentObjectProperties(x)),
{
    reveal_strlit("Declaration");
    reveal_strlit("SubClassOf");
    reveal_strlit("EquivalentClasses");
    reveal_strlit("DisjointClasses");
    reveal_strlit("DisjointUnion");
    reveal_strlit("SubObjectPropertyOf");
    reveal_strlit("EquivalentObjectProperties");
    reveal_strlit("Import");
    reveal_strlit("Annotation");
    assert("EquivalentObjectProperties"@.len() != "Import"@.len());
    assert("EquivalentObjectProperties"@.len() != "Annotation"@.len());
    reveal_with_fuel(letters_end, 36);
    assert("EquivalentObjectProperties"@.len() != "Declaration"@.len());
    assert("EquivalentObjectProperties"@ != "Declaration"@);
    assert("EquivalentObjectProperties"@.len() != "SubClassOf"@.len());
    assert("EquivalentObjectProperties"@ != "SubClassOf"@);
    assert("EquivalentObjectProperties"@.len() != "EquivalentClasses"@.len());
    assert("EquivalentObjectProperties"@ != "EquivalentClasses"@);
    assert("EquivalentObjectProperties"@.len() != "DisjointClasses"@.len());
    assert("EquivalentObjectProperties"@ != "DisjointClasses"@);
    assert("EquivalentObjectProperties"@.len() != "DisjointUnion"@.len());
    assert("EquivalentObjectProperties"@ != "DisjointUnion"@);
    assert("EquivalentObjectProperties"@.len() != "SubObjectPropertyOf"@.len());
    assert("EquivalentObjectProperties"@ != "SubObjectPropertyOf"@);
}

/// The axiom kind `DisjointObjectProperties`: its keyword and what its parts are read as.
#[verifier::spinoff_prover]
pub proof fn lemma_axiom_branch_disjoint_object_properties(s: Seq<char>, u: int, px: Px)
    ensures
        keyword("DisjointObjectProperties"@),
        "DisjointObjectProperties"@ != "Import"@,
        "DisjointObjectProperties"@ != "Annotation"@,
        axiom_parts("DisjointObjectProperties"@, s, u, px) == lift_read(at_least(s, u, |t: int| r_ope(s, t, px), 2), |x: Seq<SpecObjectPropertyExpression>| SpecAxiom::DisjointObjectProperties(x)),
{
    reveal_strlit("Declaration");
    reveal_strlit("SubClassOf");
    reveal_strlit("EquivalentClasses");
    reveal_strlit("DisjointClasses");
    reveal_strlit("DisjointUnion");
    reveal_strlit("SubObjectPropertyOf");
    reveal_strlit("EquivalentObjectProperties");
    reveal_strlit("DisjointObjectProperties");
    reveal_strlit("Import");
    reveal_strlit("Annotation");
    assert("DisjointObjectProperties"@.len() != "Import"@.len());
    assert("DisjointObjectProperties"@.len() != "Annotation"@.len());
    reveal_with_fuel(letters_end, 36);
    assert("DisjointObjectProperties"@.len() != "Declaration"@.len());
    assert("DisjointObjectProperties"@ != "Declaration"@);
    assert("DisjointObjectProperties"@.len() != "SubClassOf"@.len());
    assert("DisjointObjectProperties"@ != "SubClassOf"@);
    assert("DisjointObjectProperties"@.len() != "EquivalentClasses"@.len());
    assert("DisjointObjectProperties"@ != "EquivalentClasses"@);
    assert("DisjointObjectProperties"@.len() != "DisjointClasses"@.len());
    assert("DisjointObjectProperties"@ != "DisjointClasses"@);
    assert("DisjointObjectProperties"@.len() != "DisjointUnion"@.len());
    assert("DisjointObjectProperties"@ != "DisjointUnion"@);
    assert("DisjointObjectProperties"@.len() != "SubObjectPropertyOf"@.len());
    assert("DisjointObjectProperties"@ != "SubObjectPropertyOf"@);
    assert("DisjointObjectProperties"@.len() != "EquivalentObjectProperties"@.len());
    assert("DisjointObjectProperties"@ != "EquivalentObjectProperties"@);
}

/// The axiom kind `InverseObjectProperties`: its keyword and what its parts are read as.
#[verifier::spinoff_prover]
pub proof fn lemma_axiom_branch_inverse_object_properties(s: Seq<char>, u: int, px: Px)
    ensures
        keyword("InverseObjectProperties"@),
        "InverseObjectProperties"@ != "Import"@,
        "InverseObjectProperties"@ != "Annotation"@,
        axiom_parts("InverseObjectProperties"@, s, u, px) == lift_read(then(s, r_iri(s, u, px), |t: int| r_iri(s, t, px)), |x: (Seq<char>, Seq<char>)| SpecAxiom::InverseObjectProperties(x.0, x.1)),
{
    reveal_strlit("Declaration");
    reveal_strlit("SubClassOf");
    reveal_strlit("EquivalentClasses");
    reveal_strlit("DisjointClasses");
    reveal_strlit("DisjointUnion");
    reveal_strlit("SubObjectPropertyOf");
    reveal_strlit("EquivalentObjectProperties");
    reveal_strlit("DisjointObjectProperties");
    reveal_strlit("InverseObjectProperties");
    reveal_strlit("Import");
    reveal_strlit("Annotation");
    assert("InverseObjectProperties"@.len() != "Import"@.len());
    assert("InverseObjectProperties"@.len() != "Annotation"@.len());
    reveal_with_fuel(letters_end, 36);
    assert("InverseObjectProperties"@.len() != "Declaration"@.len());
    assert("InverseObjectProperties"@ != "Declaration"@);
    assert("InverseObjectProperties"@.len() != "SubClassOf"@.len());
    assert("InverseObjectProperties"@ != "SubClassOf"@);
    assert("InverseObjectProperties"@.len() != "EquivalentClasses"@.len());
    assert("InverseObjectProperties"@ != "EquivalentClasses"@);
    assert("InverseObjectProperties"@.len() != "DisjointClasses"@.len());
    assert("InverseObjectProperties"@ != "DisjointClasses"@);
    assert("InverseObjectProperties"@.len() != "DisjointUnion"@.len());
    assert("InverseObjectProperties"@ != "DisjointUnion"@);
    assert("InverseObjectProperties"@.len() != "SubObjectPropertyOf"@.len());
    assert("InverseObjectProperties"@ != "SubObjectPropertyOf"@);
    assert("InverseObjectProperties"@.len() != "EquivalentObjectProperties"@.len());
    assert("InverseObjectProperties"@ != "EquivalentObjectProperties"@);
    assert("InverseObjectProperties"@.len() != "DisjointObjectProperties"@.len());
    assert("InverseObjectProperties"@ != "DisjointObjectProperties"@);
}

/// The axiom kind `ObjectPropertyDomain`: its keyword and what its parts are read as.
#[verifier::spinoff_prover]
pub proof fn lemma_axiom_branch_object_property_domain(s: Seq<char>, u: int, px: Px)
    ensures
        keyword("ObjectPropertyDomain"@),
        "ObjectPropertyDomain"@ != "Import"@,
        "ObjectPropertyDomain"@ != "Annotation"@,
        axiom_parts("ObjectPropertyDomain"@, s, u, px) == lift_read(then(s, r_ope(s, u, px), |t: int| r_ce(s, t, px)), |x: (SpecObjectPropertyExpression, SpecClassExpression)| SpecAxiom::ObjectPropertyDomain { ope: x.0, ce: x.1 }),
{
    reveal_strlit("Declaration");
    reveal_strlit("SubClassOf");
    reveal_strlit("EquivalentClasses");
    reveal_strlit("DisjointClasses");
    reveal_strlit("DisjointUnion");
    reveal_strlit("SubObjectPropertyOf");
    reveal_strlit("EquivalentObjectProperties");
    reveal_strlit("DisjointObjectProperties");
    reveal_strlit("InverseObjectProperties");
    reveal_strlit("ObjectPropertyDomain");
    reveal_strlit("Import");
    reveal_strlit("Annotation");
    assert("ObjectPropertyDomain"@.len() != "Import"@.len());
    assert("ObjectPropertyDomain"@.len() != "Annotation"@.len());
    reveal_with_fuel(letters_end, 36);
    assert("ObjectPropertyDomain"@.len() != "Declaration"@.len());
    assert("ObjectPropertyDomain"@ != "Declaration"@);
    assert("ObjectPropertyDomain"@.len() != "SubClassOf"@.len());
    assert("ObjectPropertyDomain"@ != "SubClassOf"@);
    assert("ObjectPropertyDomain"@.len() != "EquivalentClasses"@.len());
    assert("ObjectPropertyDomain"@ != "EquivalentClasses"@);
    assert("ObjectPropertyDomain"@.len() != "DisjointClasses"@.len());
    assert("ObjectPropertyDomain"@ != "DisjointClasses"@);
    assert("ObjectPropertyDomain"@.len() != "DisjointUnion"@.len());
    assert("ObjectPropertyDomain"@ != "DisjointUnion"@);
    assert("ObjectPropertyDomain"@.len() != "SubObjectPropertyOf"@.len());
    assert("ObjectPropertyDomain"@ != "SubObjectPropertyOf"@);
    assert("ObjectPropertyDomain"@.len() != "EquivalentObjectProperties"@.len());
    assert("ObjectPropertyDomain"@ != "EquivalentObjectProperties"@);
    assert("ObjectPropertyDomain"@.len() != "DisjointObjectProperties"@.len());
    assert("ObjectPropertyDomain"@ != "DisjointObjectProperties"@);
    assert("ObjectPropertyDomain"@.len() != "InverseObjectProperties"@.len());
    assert("ObjectPropertyDomain"@ != "InverseObjectProperties"@);
}

/// The axiom kind `ObjectPropertyRange`: its keyword and what its parts are read as.
#[verifier::spinoff_prover]
pub proof fn lemma_axiom_branch_object_property_range(s: Seq<char>, u: int, px: Px)
    ensures
        keyword("ObjectPropertyRange"@),
        "ObjectPropertyRange"@ != "Import"@,
        "ObjectPropertyRange"@ != "Annotation"@,
        axiom_parts("ObjectPropertyRange"@, s, u, px) == lift_read(then(s, r_ope(s, u, px), |t: int| r_ce(s, t, px)), |x: (SpecObjectPropertyExpression, SpecClassExpression)| SpecAxiom::ObjectPropertyRange { ope: x.0, ce: x.1 }),
{
    reveal_strlit("Declaration");
    reveal_strlit("SubClassOf");
    reveal_strlit("EquivalentClasses");
    reveal_strlit("DisjointClasses");
    reveal_strlit("DisjointUnion");
    reveal_strlit("SubObjectPropertyOf");
    reveal_strlit("EquivalentObjectProperties");
    reveal_strlit("DisjointObjectProperties");
    reveal_strlit("InverseObjectProperties");
    reveal_strlit("ObjectPropertyDomain");
    reveal_strlit("ObjectPropertyRange");
    reveal_strlit("Import");
    reveal_strlit("Annotation");
    assert("ObjectPropertyRange"@.len() != "Import"@.len());
    assert("ObjectPropertyRange"@.len() != "Annotation"@.len());
    reveal_with_fuel(letters_end, 36);
    assert("ObjectPropertyRange"@.len() != "Declaration"@.len());
    assert("ObjectPropertyRange"@ != "Declaration"@);
    assert("ObjectPropertyRange"@.len() != "SubClassOf"@.len());
    assert("ObjectPropertyRange"@ != "SubClassOf"@);
    assert("ObjectPropertyRange"@.len() != "EquivalentClasses"@.len());
    assert("ObjectPropertyRange"@ != "EquivalentClasses"@);
    assert("ObjectPropertyRange"@.len() != "DisjointClasses"@.len());
    assert("ObjectPropertyRange"@ != "DisjointClasses"@);
    assert("ObjectPropertyRange"@.len() != "DisjointUnion"@.len());
    assert("ObjectPropertyRange"@ != "DisjointUnion"@);
    assert("ObjectPropertyRange"@[0] != "SubObjectPropertyOf"@[0]);
    assert("ObjectPropertyRange"@ != "SubObjectPropertyOf"@);
    assert("ObjectPropertyRange"@.len() != "EquivalentObjectProperties"@.len());
    assert("ObjectPropertyRange"@ != "EquivalentObjectProperties"@);
    assert("ObjectPropertyRange"@.len() != "DisjointObjectProperties"@.len());
    assert("ObjectPropertyRange"@ != "DisjointObjectProperties"@);
    assert("ObjectPropertyRange"@.len() != "InverseObjectProperties"@.len());
    assert("ObjectPropertyRange"@ != "InverseObjectProperties"@);
    assert("ObjectPropertyRange"@.len() != "ObjectPropertyDomain"@.len());
    assert("ObjectPropertyRange"@ != "ObjectPropertyDomain"@);
}

/// The axiom kind `FunctionalObjectProperty`: its keyword and what its parts are read as.
#[verifier::spinoff_prover]
pub proof fn lemma_axiom_branch_functional_object_property(s: Seq<char>, u: int, px: Px)
    ensures
        keyword("FunctionalObjectProperty"@),
        "FunctionalObjectProperty"@ != "Import"@,
        "FunctionalObjectProperty"@ != "Annotation"@,
        axiom_parts("FunctionalObjectProperty"@, s, u, px) == lift_read(r_ope(s, u, px), |x: SpecObjectPropertyExpression| SpecAxiom::FunctionalObjectProperty(x)),
{
    reveal_strlit("Declaration");
    reveal_strlit("SubClassOf");
    reveal_strlit("EquivalentClasses");
    reveal_strlit("DisjointClasses");
    reveal_strlit("DisjointUnion");
    reveal_strlit("SubObjectPropertyOf");
    reveal_strlit("EquivalentObjectProperties");
    reveal_strlit("DisjointObjectProperties");
    reveal_strlit("InverseObjectProperties");
    reveal_strlit("ObjectPropertyDomain");
    reveal_strlit("ObjectPropertyRange");
    reveal_strlit("FunctionalObjectProperty");
    reveal_strlit("Import");
    reveal_strlit("Annotation");
    assert("FunctionalObjectProperty"@.len() != "Import"@.len());
    assert("FunctionalObjectProperty"@.len() != "Annotation"@.len());
    reveal_with_fuel(letters_end, 36);
    assert("FunctionalObjectProperty"@.len() != "Declaration"@.len());
    assert("FunctionalObjectProperty"@ != "Declaration"@);
    assert("FunctionalObjectProperty"@.len() != "SubClassOf"@.len());
    assert("FunctionalObjectProperty"@ != "SubClassOf"@);
    assert("FunctionalObjectProperty"@.len() != "EquivalentClasses"@.len());
    assert("FunctionalObjectProperty"@ != "EquivalentClasses"@);
    assert("FunctionalObjectProperty"@.len() != "DisjointClasses"@.len());
    assert("FunctionalObjectProperty"@ != "DisjointClasses"@);
    assert("FunctionalObjectProperty"@.len() != "DisjointUnion"@.len());
    assert("FunctionalObjectProperty"@ != "DisjointUnion"@);
    assert("FunctionalObjectProperty"@.len() != "SubObjectPropertyOf"@.len());
    assert("FunctionalObjectProperty"@ != "SubObjectPropertyOf"@);
    assert("FunctionalObjectProperty"@.len() != "EquivalentObjectProperties"@.len());
    assert("FunctionalObjectProperty"@ != "EquivalentObjectProperties"@);
    assert("FunctionalObjectProperty"@[0] != "DisjointObjectProperties"@[0]);
    assert("FunctionalObjectProperty"@ != "DisjointObjectProperties"@);
    assert("FunctionalObjectProperty"@.len() != "InverseObjectProperties"@.len());
    assert("FunctionalObjectProperty"@ != "InverseObjectProperties"@);
    assert("FunctionalObjectProperty"@.len() != "ObjectPropertyDomain"@.len());
    assert("FunctionalObjectProperty"@ != "ObjectPropertyDomain"@);
    assert("FunctionalObjectProperty"@.len() != "ObjectPropertyRange"@.len());
    assert("FunctionalObjectProperty"@ != "ObjectPropertyRange"@);
}

/// The axiom kind `InverseFunctionalObjectProperty`: its keyword and what its parts are read as.
#[verifier::spinoff_prover]
pub proof fn lemma_axiom_branch_inverse_functional_object_property(s: Seq<char>, u: int, px: Px)
    ensures
        keyword("InverseFunctionalObjectProperty"@),
        "InverseFunctionalObjectProperty"@ != "Import"@,
        "InverseFunctionalObjectProperty"@ != "Annotation"@,
        axiom_parts("InverseFunctionalObjectProperty"@, s, u, px) == lift_read(r_ope(s, u, px), |x: SpecObjectPropertyExpression| SpecAxiom::InverseFunctionalObjectProperty(x)),
{
    reveal_strlit("Declaration");
    reveal_strlit("SubClassOf");
    reveal_strlit("EquivalentClasses");
    reveal_strlit("DisjointClasses");
    reveal_strlit("DisjointUnion");
    reveal_strlit("SubObjectPropertyOf");
    reveal_strlit("EquivalentObjectProperties");
    reveal_strlit("DisjointObjectProperties");
    reveal_strlit("InverseObjectProperties");
    reveal_strlit("ObjectPropertyDomain");
    reveal_strlit("ObjectPropertyRange");
    reveal_strlit("FunctionalObjectProperty");
    reveal_strlit("InverseFunctionalObjectProperty");
    reveal_strlit("Import");
    reveal_strlit("Annotation");
    assert("InverseFunctionalObjectProperty"@.len() != "Import"@.len());
    assert("InverseFunctionalObjectProperty"@.len() != "Annotation"@.len());
    reveal_with_fuel(letters_end, 36);
    assert("InverseFunctionalObjectProperty"@.len() != "Declaration"@.len());
    assert("InverseFunctionalObjectProperty"@ != "Declaration"@);
    assert("InverseFunctionalObjectProperty"@.len() != "SubClassOf"@.len());
    assert("InverseFunctionalObjectProperty"@ != "SubClassOf"@);
    assert("InverseFunctionalObjectProperty"@.len() != "EquivalentClasses"@.len());
    assert("InverseFunctionalObjectProperty"@ != "EquivalentClasses"@);
    assert("InverseFunctionalObjectProperty"@.len() != "DisjointClasses"@.len());
    assert("InverseFunctionalObjectProperty"@ != "DisjointClasses"@);
    assert("InverseFunctionalObjectProperty"@.len() != "DisjointUnion"@.len());
    assert("InverseFunctionalObjectProperty"@ != "DisjointUnion"@);
    assert("InverseFunctionalObjectProperty"@.len() != "SubObjectPropertyOf"@.len());
    assert("InverseFunctionalObjectProperty"@ != "SubObjectPropertyOf"@);
    assert("InverseFunctionalObjectProperty"@.len() != "EquivalentObjectProperties"@.len());
    assert("InverseFunctionalObjectProperty"@ != "EquivalentObjectProperties"@);
    assert("InverseFunctionalObjectProperty"@.len() != "DisjointObjectProperties"@.len());
    assert("InverseFunctionalObjectProperty"@ != "DisjointObjectProperties"@);
    assert("InverseFunctionalObjectProperty"@.len() != "InverseObjectProperties"@.len());
    assert("InverseFunctionalObjectProperty"@ != "InverseObjectProperties"@);
    assert("InverseFunctionalObjectProperty"@.len() != "ObjectPropertyDomain"@.len());
    assert("InverseFunctionalObjectProperty"@ != "ObjectPropertyDomain"@);
    assert("InverseFunctionalObjectProperty"@.len() != "ObjectPropertyRange"@.len());
    assert("InverseFunctionalObjectProperty"@ != "ObjectPropertyRange"@);
    assert("InverseFunctionalObjectProperty"@.len() != "FunctionalObjectProperty"@.len());
    assert("InverseFunctionalObjectProperty"@ != "FunctionalObjectProperty"@);
}

/// The axiom kind `ReflexiveObjectProperty`: its keyword and what its parts are read as.
#[verifier::spinoff_prover]
pub proof fn lemma_axiom_branch_reflexive_object_property(s: Seq<char>, u: int, px: Px)
    ensures
        keyword("ReflexiveObjectProperty"@),
        "ReflexiveObjectProperty"@ != "Import"@,
        "ReflexiveObjectProperty"@ != "Annotation"@,
        axiom_parts("ReflexiveObjectProperty"@, s, u, px) == lift_read(r_ope(s, u, px), |x: SpecObjectPropertyExpression| SpecAxiom::ReflexiveObjectProperty(x)),
{
    reveal_strlit("Declaration");
    reveal_strlit("SubClassOf");
    reveal_strlit("EquivalentClasses");
    reveal_strlit("DisjointClasses");
    reveal_strlit("DisjointUnion");
    reveal_strlit("SubObjectPropertyOf");
    reveal_strlit("EquivalentObjectProperties");
    reveal_strlit("DisjointObjectProperties");
    reveal_strlit("InverseObjectProperties");
    reveal_strlit("ObjectPropertyDomain");
    reveal_strlit("ObjectPropertyRange");
    reveal_strlit("FunctionalObjectProperty");
    reveal_strlit("InverseFunctionalObjectProperty");
    reveal_strlit("ReflexiveObjectProperty");
    reveal_strlit("Import");
    reveal_strlit("Annotation");
    assert("ReflexiveObjectProperty"@.len() != "Import"@.len());
    assert("ReflexiveObjectProperty"@.len() != "Annotation"@.len());
    reveal_with_fuel(letters_end, 36);
    assert("ReflexiveObjectProperty"@.len() != "Declaration"@.len());
    assert("ReflexiveObjectProperty"@ != "Declaration"@);
    assert("ReflexiveObjectProperty"@.len() != "SubClassOf"@.len());
    assert("ReflexiveObjectProperty"@ != "SubClassOf"@);
    assert("ReflexiveObjectProperty"@.len() != "EquivalentClasses"@.len());
    assert("ReflexiveObjectProperty"@ != "EquivalentClasses"@);
    assert("ReflexiveObjectProperty"@.len() != "DisjointClasses"@.len());
    assert("ReflexiveObjectProperty"@ != "DisjointClasses"@);
    assert("ReflexiveObjectProperty"@.len() != "DisjointUnion"@.len());
    assert("ReflexiveObjectProperty"@ != "DisjointUnion"@);
    assert("ReflexiveObjectProperty"@.len() != "SubObjectPropertyOf"@.len());
    assert("ReflexiveObjectProperty"@ != "SubObjectPropertyOf"@);
    assert("ReflexiveObjectProperty"@.len() != "EquivalentObjectProperties"@.len());
    assert("ReflexiveObjectProperty"@ != "EquivalentObjectProperties"@);
    assert("ReflexiveObjectProperty"@.len() != "DisjointObjectProperties"@.len());
    assert("ReflexiveObjectProperty"@ != "DisjointObjectProperties"@);
    assert("ReflexiveObjectProperty"@[0] != "InverseObjectProperties"@[0]);
    assert("ReflexiveObjectProperty"@ != "InverseObjectProperties"@);
    assert("ReflexiveObjectProperty"@.len() != "ObjectPropertyDomain"@.len());
    assert("ReflexiveObjectProperty"@ != "ObjectPropertyDomain"@);
    assert("ReflexiveObjectProperty"@.len() != "ObjectPropertyRange"@.len());
    assert("ReflexiveObjectProperty"@ != "ObjectPropertyRange"@);
    assert("ReflexiveObjectProperty"@.len() != "FunctionalObjectProperty"@.len());
    assert("ReflexiveObjectProperty"@ != "FunctionalObjectProperty"@);
    assert("ReflexiveObjectProperty"@.len() != "InverseFunctionalObjectProperty"@.len());
    assert("ReflexiveObjectProperty"@ != "InverseFunctionalObjectProperty"@);
}

/// The axiom kind `IrreflexiveObjectProperty`: its keyword and what its parts are read as.
#[verifier::spinoff_prover]
pub proof fn lemma_axiom_branch_irreflexive_object_property(s: Seq<char>, u: int, px: Px)
    ensures
        keyword("IrreflexiveObjectProperty"@),
        "IrreflexiveObjectProperty"@ != "Import"@,
        "IrreflexiveObjectProperty"@ != "Annotation"@,
        axiom_parts("IrreflexiveObjectProperty"@, s, u, px) == lift_read(r_ope(s, u, px), |x: SpecObjectPropertyExpression| SpecAxiom::IrreflexiveObjectProperty(x)),
{
    reveal_strlit("Declaration");
    reveal_strlit("SubClassOf");
    reveal_strlit("EquivalentClasses");
    reveal_strlit("DisjointClasses");
    reveal_strlit("DisjointUnion");
    reveal_strlit("SubObjectPropertyOf");
    reveal_strlit("EquivalentObjectProperties");
    reveal_strlit("DisjointObjectProperties");
    reveal_strlit("InverseObjectProperties");
    reveal_strlit("ObjectPropertyDomain");
    reveal_strlit("ObjectPropertyRange");
    reveal_strlit("FunctionalObjectProperty");
    reveal_strlit("InverseFunctionalObjectProperty");
    reveal_strlit("ReflexiveObjectProperty");
    reveal_strlit("IrreflexiveObjectProperty");
    reveal_strlit("Import");
    reveal_strlit("Annotation");
    assert("IrreflexiveObjectProperty"@.len() != "Import"@.len());
    assert("IrreflexiveObjectProperty"@.len() != "Annotation"@.len());
    reveal_with_fuel(letters_end, 36);
    assert("IrreflexiveObjectProperty"@.len() != "Declaration"@.len());
    assert("IrreflexiveObjectProperty"@ != "Declaration"@);
    assert("IrreflexiveObjectProperty"@.len() != "SubClassOf"@.len());
    assert("IrreflexiveObjectProperty"@ != "SubClassOf"@);
    assert("IrreflexiveObjectProperty"@.len() != "EquivalentClasses"@.len());
    assert("IrreflexiveObjectProperty"@ != "EquivalentClasses"@);
    assert("IrreflexiveObjectProperty"@.len() != "DisjointClasses"@.len());
    assert("IrreflexiveObjectProperty"@ != "DisjointClasses"@);
    assert("IrreflexiveObjectProperty"@.len() != "DisjointUnion"@.len());
    assert("IrreflexiveObjectProperty"@ != "DisjointUnion"@);
    assert("IrreflexiveObjectProperty"@.len() != "SubObjectPropertyOf"@.len());
    assert("IrreflexiveObjectProperty"@ != "SubObjectPropertyOf"@);
    assert("IrreflexiveObjectProperty"@.len() != "EquivalentObjectProperties"@.len());
    assert("IrreflexiveObjectProperty"@ != "EquivalentObjectProperties"@);
    assert("IrreflexiveObjectProperty"@.len() != "DisjointObjectProperties"@.len());
    assert("IrreflexiveObjectProperty"@ != "DisjointObjectProperties"@);
    assert("IrreflexiveObjectProperty"@.len() != "InverseObjectProperties"@.len());
    assert("IrreflexiveObjectProperty"@ != "InverseObjectProperties"@);
    assert("IrreflexiveObjectProperty"@.len() != "ObjectPropertyDomain"@.len());
    assert("IrreflexiveObjectProperty"@ != "ObjectPropertyDomain"@);
    assert("IrreflexiveObjectProperty"@.len() != "ObjectPropertyRange"@.len());
    assert("IrreflexiveObjectProperty"@ != "ObjectPropertyRange"@);
    assert("IrreflexiveObjectProperty"@.len() != "FunctionalObjectProperty"@.len());
    assert("IrreflexiveObjectProperty"@ != "FunctionalObjectProperty"@);
    assert("IrreflexiveObjectProperty"@.len() != "InverseFunctionalObjectProperty"@.len());
    assert("IrreflexiveObjectProperty"@ != "InverseFunctionalObjectProperty"@);
    assert("IrreflexiveObjectProperty"@.len() != "ReflexiveObjectProperty"@.len());
    assert("IrreflexiveObjectProperty"@ != "ReflexiveObjectProperty"@);
}

/// The axiom kind `SymmetricObjectProperty`: its keyword and what its parts are read as.
#[verifier::spinoff_prover]
pub proof fn lemma_axiom_branch_symmetric_object_property(s: Seq<char>, u: int, px: Px)
    ensures
        keyword("SymmetricObjectProperty"@),
        "SymmetricObjectProperty"@ != "Import"@,
        "SymmetricObjectProperty"@ != "Annotation"@,
        axiom_parts("SymmetricObjectProperty"@, s, u, px) == lift_read(r_ope(s, u, px), |x: SpecObjectPropertyExpression| SpecAxiom::SymmetricObjectProperty(x)),
{
    reveal_strlit("Declaration");
    reveal_strlit("SubClassOf");
    reveal_strlit("EquivalentClasses");
    reveal_strlit("DisjointClasses");
    reveal_strlit("DisjointUnion");
    reveal_strlit("SubObjectPropertyOf");
    reveal_strlit("EquivalentObjectProperties");
    reveal_strlit("DisjointObjectProperties");
    reveal_strlit("InverseObjectProperties");
    reveal_strlit("ObjectPropertyDomain");
    reveal_strlit("ObjectPropertyRange");
    reveal_strlit("FunctionalObjectProperty");
    reveal_strlit("InverseFunctionalObjectProperty");
    reveal_strlit("ReflexiveObjectProperty");
    reveal_strlit("IrreflexiveObjectProperty");
    reveal_strlit("SymmetricObjectProperty");
    reveal_strlit("Import");
    reveal_strlit("Annotation");
    assert("SymmetricObjectProperty"@.len() != "Import"@.len());
    assert("SymmetricObjectProperty"@.len() != "Annotation"@.len());
    reveal_with_fuel(letters_end, 36);
    assert("SymmetricObjectProperty"@.len() != "Declaration"@.len());
    assert("SymmetricObjectProperty"@ != "Declaration"@);
    assert("SymmetricObjectProperty"@.len() != "SubClassOf"@.len());
    assert("SymmetricObjectProperty"@ != "SubClassOf"@);
    assert("SymmetricObjectProperty"@.len() != "EquivalentClasses"@.len());
    assert("SymmetricObjectProperty"@ != "EquivalentClasses"@);
    assert("SymmetricObjectProperty"@.len() != "DisjointClasses"@.len());
    assert("SymmetricObjectProperty"@ != "DisjointClasses"@);
    assert("SymmetricObjectProperty"@.len() != "DisjointUnion"@.len());
    assert("SymmetricObjectProperty"@ != "DisjointUnion"@);
    assert("SymmetricObjectProperty"@.len() != "SubObjectPropertyOf"@.len());
    assert("SymmetricObjectProperty"@ != "SubObjectPropertyOf"@);
    assert("SymmetricObjectProperty"@.len() != "EquivalentObjectProperties"@.len());
    assert("SymmetricObjectProperty"@ != "EquivalentObjectProperties"@);
    assert("SymmetricObjectProperty"@.len() != "DisjointObjectProperties"@.len());
    assert("SymmetricObjectProperty"@ != "DisjointObjectProperties"@);
    assert("SymmetricObjectProperty"@[0] != "InverseObjectProperties"@[0]);
    assert("SymmetricObjectProperty"@ != "InverseObjectProperties"@);
    assert("SymmetricObjectProperty"@.len() != "ObjectPropertyDomain"@.len());
    assert("SymmetricObjectProperty"@ != "ObjectPropertyDomain"@);
    assert("SymmetricObjectProperty"@.len() != "ObjectPropertyRange"@.len());
    assert("SymmetricObjectProperty"@ != "ObjectPropertyRange"@);
    assert("SymmetricObjectProperty"@.len() != "FunctionalObjectProperty"@.len());
    assert("SymmetricObjectProperty"@ != "FunctionalObjectProperty"@);
    assert("SymmetricObjectProperty"@.len() != "InverseFunctionalObjectProperty"@.len());
    assert("SymmetricObjectProperty"@ != "InverseFunctionalObjectProperty"@);
    assert("SymmetricObjectProperty"@[0] != "ReflexiveObjectProperty"@[0]);
    assert("SymmetricObjectProperty"@ != "ReflexiveObjectProperty"@);
    assert("SymmetricObjectProperty"@.len() != "IrreflexiveObjectProperty"@.len());
    assert("SymmetricObjectProperty"@ != "IrreflexiveObjectProperty"@);
}

/// The axiom kind `AsymmetricObjectProperty`: its keyword and what its parts are read as.
#[verifier::spinoff_prover]
pub proof fn lemma_axiom_branch_asymmetric_object_property(s: Seq<char>, u: int, px: Px)
    ensures
        keyword("AsymmetricObjectProperty"@),
        "AsymmetricObjectProperty"@ != "Import"@,
        "AsymmetricObjectProperty"@ != "Annotation"@,
        axiom_parts("AsymmetricObjectProperty"@, s, u, px) == lift_read(r_ope(s, u, px), |x: SpecObjectPropertyExpression| SpecAxiom::AsymmetricObjectProperty(x)),
{
    reveal_strlit("Declaration");
    reveal_strlit("SubClassOf");
    reveal_strlit("EquivalentClasses");
    reveal_strlit("DisjointClasses");
    reveal_strlit("DisjointUnion");
    reveal_strlit("SubObjectPropertyOf");
    reveal_strlit("EquivalentObjectProperties");
    reveal_strlit("DisjointObjectProperties");
    reveal_strlit("InverseObjectProperties");
    reveal_strlit("ObjectPropertyDomain");
    reveal_strlit("ObjectPropertyRange");
    reveal_strlit("FunctionalObjectProperty");
    reveal_strlit("InverseFunctionalObjectProperty");
    reveal_strlit("ReflexiveObjectProperty");
    reveal_strlit("IrreflexiveObjectProperty");
    reveal_strlit("SymmetricObjectProperty");
    reveal_strlit("AsymmetricObjectProperty");
    reveal_strlit("Import");
    reveal_strlit("Annotation");
    assert("AsymmetricObjectProperty"@.len() != "Import"@.len());
    assert("AsymmetricObjectProperty"@.len() != "Annotation"@.len());
    reveal_with_fuel(letters_end, 36);
    assert("AsymmetricObjectProperty"@.len() != "Declaration"@.len());
    assert("AsymmetricObjectProperty"@ != "Declaration"@);
    assert("AsymmetricObjectProperty"@.len() != "SubClassOf"@.len());
    assert("AsymmetricObjectProperty"@ != "SubClassOf"@);
    assert("AsymmetricObjectProperty"@.len() != "EquivalentClasses"@.len());
    assert("AsymmetricObjectProperty"@ != "EquivalentClasses"@);
    assert("AsymmetricObjectProperty"@.len() != "DisjointClasses"@.len());
    assert("AsymmetricObjectProperty"@ != "DisjointClasses"@);
    assert("AsymmetricObjectProperty"@.len() != "DisjointUnion"@.len());
    assert("AsymmetricObjectProperty"@ != "DisjointUnion"@);
    assert("AsymmetricObjectProperty"@.len() != "SubObjectPropertyOf"@.len());
    assert("AsymmetricObjectProperty"@ != "SubObjectPropertyOf"@);
    assert("AsymmetricObjectProperty"@.len() != "EquivalentObjectProperties"@.len());
    assert("AsymmetricObjectProperty"@ != "EquivalentObjectProperties"@);
    assert("AsymmetricObjectProperty"@[0] != "DisjointObjectProperties"@[0]);
    assert("AsymmetricObjectProperty"@ != "DisjointObjectProperties"@);
    assert("AsymmetricObjectProperty"@.len() != "InverseObjectProperties"@.len());
    assert("AsymmetricObjectProperty"@ != "InverseObjectProperties"@);
    assert("AsymmetricObjectProperty"@.len() != "ObjectPropertyDomain"@.len());
    assert("AsymmetricObjectProperty"@ != "ObjectPropertyDomain"@);
    assert("AsymmetricObjectProperty"@.len() != "ObjectPropertyRange"@.len());
    assert("AsymmetricObjectProperty"@ != "ObjectPropertyRange"@);
    assert("AsymmetricObjectProperty"@[0] != "FunctionalObjectProperty"@[0]);
    assert("AsymmetricObjectProperty"@ != "FunctionalObjectProperty"@);
    assert("AsymmetricObjectProperty"@.len() != "InverseFunctionalObjectProperty"@.len());
    assert("AsymmetricObjectProperty"@ != "InverseFunctionalObjectProperty"@);
    assert("AsymmetricObjectProperty"@.len() != "ReflexiveObjectProperty"@.len());
    assert("AsymmetricObjectProperty"@ != "ReflexiveObjectProperty"@);
    assert("AsymmetricObjectProperty"@.len() != "IrreflexiveObjectProperty"@.len());
    assert("AsymmetricObjectProperty"@ != "IrreflexiveObjectProperty"@);
    assert("AsymmetricObjectProperty"@.len() != "SymmetricObjectProperty"@.len());
    assert("AsymmetricObjectProperty"@ != "SymmetricObjectProperty"@);
}

/// The axiom kind `TransitiveObjectProperty`: its keyword and what its parts are read as.
#[verifier::spinoff_prover]
pub proof fn lemma_axiom_branch_transitive_object_property(s: Seq<char>, u: int, px: Px)
    ensures
        keyword("TransitiveObjectProperty"@),
        "TransitiveObjectProperty"@ != "Import"@,
        "TransitiveObjectProperty"@ != "Annotation"@,
        axiom_parts("TransitiveObjectProperty"@, s, u, px) == lift_read(r_iri(s, u, px), |x: Seq<char>| SpecAxiom::TransitiveObjectProperty(SpecObjectPropertyExpression::ObjectProperty(x))),
{
    reveal_strlit("Declaration");
    reveal_strlit("SubClassOf");
    reveal_strlit("EquivalentClasses");
    reveal_strlit("DisjointClasses");
    reveal_strlit("DisjointUnion");
    reveal_strlit("SubObjectPropertyOf");
    reveal_strlit("EquivalentObjectProperties");
    reveal_strlit("DisjointObjectProperties");
    reveal_strlit("InverseObjectProperties");
    reveal_strlit("ObjectPropertyDomain");
    reveal_strlit("ObjectPropertyRange");
    reveal_strlit("FunctionalObjectProperty");
    reveal_strlit("InverseFunctionalObjectProperty");
    reveal_strlit("ReflexiveObjectProperty");
    reveal_strlit("IrreflexiveObjectProperty");
    reveal_strlit("SymmetricObjectProperty");
    reveal_strlit("AsymmetricObjectProperty");
    reveal_strlit("TransitiveObjectProperty");
    reveal_strlit("Import");
    reveal_strlit("Annotation");
    assert("TransitiveObjectProperty"@.len() != "Import"@.len());
    assert("TransitiveObjectProperty"@.len() != "Annotation"@.len());
    reveal_with_fuel(letters_end, 36);
    assert("TransitiveObjectProperty"@.len() != "Declaration"@.len());
    assert("TransitiveObjectProperty"@ != "Declaration"@);
    assert("TransitiveObjectProperty"@.len() != "SubClassOf"@.len());
    assert("TransitiveObjectProperty"@ != "SubClassOf"@);
    assert("TransitiveObjectProperty"@.len() != "EquivalentClasses"@.len());
    assert("TransitiveObjectProperty"@ != "EquivalentClasses"@);
    assert("TransitiveObjectProperty"@.len() != "DisjointClasses"@.len());
    assert("TransitiveObjectProperty"@ != "DisjointClasses"@);
    assert("TransitiveObjectProperty"@.len() != "DisjointUnion"@.len());
    assert("TransitiveObjectProperty"@ != "DisjointUnion"@);
    assert("TransitiveObjectProperty"@.len() != "SubObjectPropertyOf"@.len());
    assert("TransitiveObjectProperty"@ != "SubObjectPropertyOf"@);
    assert("TransitiveObjectProperty"@.len() != "EquivalentObjectProperties"@.len());
    assert("TransitiveObjectProperty"@ != "EquivalentObjectProperties"@);
    assert("TransitiveObjectProperty"@[0] != "DisjointObjectProperties"@[0]);
    assert("TransitiveObjectProperty"@ != "DisjointObjectProperties"@);
    assert("TransitiveObjectProperty"@.len() != "InverseObjectProperties"@.len());
    assert("TransitiveObjectProperty"@ != "InverseObjectProperties"@);
    assert("TransitiveObjectProperty"@.len() != "ObjectPropertyDomain"@.len());
    assert("TransitiveObjectProperty"@ != "ObjectPropertyDomain"@);
    assert("TransitiveObjectProperty"@.len() != "ObjectPropertyRange"@.len());
    assert("TransitiveObjectProperty"@ != "ObjectPropertyRange"@);
    assert("TransitiveObjectProperty"@[0] != "FunctionalObjectProperty"@[0]);
    assert("TransitiveObjectProperty"@ != "FunctionalObjectProperty"@);
    assert("TransitiveObjectProperty"@.len() != "InverseFunctionalObjectProperty"@.len());
    assert("TransitiveObjectProperty"@ != "InverseFunctionalObjectProperty"@);
    assert("TransitiveObjectProperty"@.len() != "ReflexiveObjectProperty"@.len());
    assert("TransitiveObjectProperty"@ != "ReflexiveObjectProperty"@);
    assert("TransitiveObjectProperty"@.len() != "IrreflexiveObjectProperty"@.len());
    assert("TransitiveObjectProperty"@ != "IrreflexiveObjectProperty"@);
    assert("TransitiveObjectProperty"@.len() != "SymmetricObjectProperty"@.len());
    assert("TransitiveObjectProperty"@ != "SymmetricObjectProperty"@);
    assert("TransitiveObjectProperty"@[0] != "AsymmetricObjectProperty"@[0]);
    assert("TransitiveObjectProperty"@ != "AsymmetricObjectProperty"@);
}

/// The axiom kind `SubDataPropertyOf`: its keyword and what its parts are read as.
#[verifier::spinoff_prover]
pub proof fn lemma_axiom_branch_sub_data_property_of(s: Seq<char>, u: int, px: Px)
    ensures
        keyword("SubDataPropertyOf"@),
        "SubDataPropertyOf"@ != "Import"@,
        "SubDataPropertyOf"@ != "Annotation"@,
        axiom_parts("SubDataPropertyOf"@, s, u, px) == lift_read(then(s, r_iri(s, u, px), |t: int| r_iri(s, t, px)), |x: (Seq<char>, Seq<char>)| SpecAxiom::SubDataPropertyOf { sub: x.0, sup: x.1 }),
{
    reveal_strlit("Declaration");
    reveal_strlit("SubClassOf");
    reveal_strlit("EquivalentClasses");
    reveal_strlit("DisjointClasses");
    reveal_strlit("DisjointUnion");
    reveal_strlit("SubObjectPropertyOf");
    reveal_strlit("EquivalentObjectProperties");
    reveal_strlit("DisjointObjectProperties");
    reveal_strlit("InverseObjectProperties");
    reveal_strlit("ObjectPropertyDomain");
    reveal_strlit("ObjectPropertyRange");
    reveal_strlit("FunctionalObjectProperty");
    reveal_strlit("InverseFunctionalObjectProperty");
    reveal_strlit("ReflexiveObjectProperty");
    reveal_strlit("IrreflexiveObjectProperty");
    reveal_strlit("SymmetricObjectProperty");
    reveal_strlit("AsymmetricObjectProperty");
    reveal_strlit("TransitiveObjectProperty");
    reveal_strlit("SubDataPropertyOf");
    reveal_strlit("Import");
    reveal_strlit("Annotation");
    assert("SubDataPropertyOf"@.len() != "Import"@.len());
    assert("SubDataPropertyOf"@.len() != "Annotation"@.len());
    reveal_with_fuel(letters_end, 36);
    assert("SubDataPropertyOf"@.len() != "Declaration"@.len());
    assert("SubDataPropertyOf"@ != "Declaration"@);
    assert("SubDataPropertyOf"@.len() != "SubClassOf"@.len());
    assert("SubDataPropertyOf"@ != "SubClassOf"@);
    assert("SubDataPropertyOf"@[0] != "EquivalentClasses"@[0]);
    assert("SubDataPropertyOf"@ != "EquivalentClasses"@);
    assert("SubDataPropertyOf"@.len() != "DisjointClasses"@.len());
    assert("SubDataPropertyOf"@ != "DisjointClasses"@);
    assert("SubDataPropertyOf"@.len() != "DisjointUnion"@.len());
    assert("SubDataPropertyOf"@ != "DisjointUnion"@);
    assert("SubDataPropertyOf"@.len() != "SubObjectPropertyOf"@.len());
    assert("SubDataPropertyOf"@ != "SubObjectPropertyOf"@);
    assert("SubDataPropertyOf"@.len() != "EquivalentObjectProperties"@.len());
    assert("SubDataPropertyOf"@ != "EquivalentObjectProperties"@);
    assert("SubDataPropertyOf"@.len() != "DisjointObjectProperties"@.len());
    assert("SubDataPropertyOf"@ != "DisjointObjectProperties"@);
    assert("SubDataPropertyOf"@.len() != "InverseObjectProperties"@.len());
    assert("SubDataPropertyOf"@ != "InverseObjectProperties"@);
    assert("SubDataPropertyOf"@.len() != "ObjectPropertyDomain"@.len());
    assert("SubDataPropertyOf"@ != "ObjectPropertyDomain"@);
    assert("SubDataPropertyOf"@.len() != "ObjectPropertyRange"@.len());
    assert("SubDataPropertyOf"@ != "ObjectPropertyRange"@);
    assert("SubDataPropertyOf"@.len() != "FunctionalObjectProperty"@.len());
    assert("SubDataPropertyOf"@ != "FunctionalObjectProperty"@);
    assert("SubDataPropertyOf"@.len() != "InverseFunctionalObjectProperty"@.len());
    assert("SubDataPropertyOf"@ != "InverseFunctionalObjectProperty"@);
    assert("SubDataPropertyOf"@.len() != "ReflexiveObjectProperty"@.len());
    assert("SubDataPropertyOf"@ != "ReflexiveObjectProperty"@);
    assert("SubDataPropertyOf"@.len() != "IrreflexiveObjectProperty"@.len());
    assert("SubDataPropertyOf"@ != "IrreflexiveObjectProperty"@);
    assert("SubDataPropertyOf"@.len() != "SymmetricObjectProperty"@.len());
    assert("SubDataPropertyOf"@ != "SymmetricObjectProperty"@);
    assert("SubDataPropertyOf"@.len() != "AsymmetricObjectProperty"@.len());
    assert("SubDataPropertyOf"@ != "AsymmetricObjectProperty"@);
    assert("SubDataPropertyOf"@.len() != "TransitiveObjectProperty"@.len());
    assert("SubDataPropertyOf"@ != "TransitiveObjectProperty"@);
}

/// The axiom kind `EquivalentDataProperties`: its keyword and what its parts are read as.
#[verifier::spinoff_prover]
pub proof fn lemma_axiom_branch_equivalent_data_properties(s: Seq<char>, u: int, px: Px)
    ensures
        keyword("EquivalentDataProperties"@),
        "EquivalentDataProperties"@ != "Import"@,
        "EquivalentDataProperties"@ != "Annotation"@,
        axiom_parts("EquivalentDataProperties"@, s, u, px) == lift_read(at_least(s, u, |t: int| r_iri(s, t, px), 2), |x: Seq<Seq<char>>| SpecAxiom::EquivalentDataProperties(x)),
{
    reveal_strlit("Declaration");
    reveal_strlit("SubClassOf");
    reveal_strlit("EquivalentClasses");
    reveal_strlit("DisjointClasses");
    reveal_strlit("DisjointUnion");
    reveal_strlit("SubObjectPropertyOf");
    reveal_strlit("EquivalentObjectProperties");
    reveal_strlit("DisjointObjectProperties");
    reveal_strlit("InverseObjectProperties");
    reveal_strlit("ObjectPropertyDomain");
    reveal_strlit("ObjectPropertyRange");
    reveal_strlit("FunctionalObjectProperty");
    reveal_strlit("InverseFunctionalObjectProperty");
    reveal_strlit("ReflexiveObjectProperty");
    reveal_strlit("IrreflexiveObjectProperty");
    reveal_strlit("SymmetricObjectProperty");
    reveal_strlit("AsymmetricObjectProperty");
    reveal_strlit("TransitiveObjectProperty");
    reveal_strlit("SubDataPropertyOf");
    reveal_strlit("EquivalentDataProperties");
    reveal_strlit("Import");
    reveal_strlit("Annotation");
    assert("EquivalentDataProperties"@.len() != "Import"@.len());
    assert("EquivalentDataProperties"@.len() != "Annotation"@.len());
    reveal_with_fuel(letters_end, 36);
    assert("EquivalentDataProperties"@.len() != "Declaration"@.len());
    assert("EquivalentDataProperties"@ != "Declaration"@);
    assert("EquivalentDataProperties"@.len() != "SubClassOf"@.len());
    assert("EquivalentDataProperties"@ != "SubClassOf"@);
    assert("EquivalentDataProperties"@.len() != "EquivalentClasses"@.len());
    assert("EquivalentDataProperties"@ != "EquivalentClasses"@);
    assert("EquivalentDataProperties"@.len() != "DisjointClasses"@.len());
    assert("EquivalentDataProperties"@ != "DisjointClasses"@);
    assert("EquivalentDataProperties"@.len() != "DisjointUnion"@.len());
    assert("EquivalentDataProperties"@ != "DisjointUnion"@);
    assert("EquivalentDataProperties"@.len() != "SubObjectPropertyOf"@.len());
    assert("EquivalentDataProperties"@ != "SubObjectPropertyOf"@);
    assert("EquivalentDataProperties"@.len() != "EquivalentObjectProperties"@.len());
    assert("EquivalentDataProperties"@ != "EquivalentObjectProperties"@);
    assert("EquivalentDataProperties"@[0] != "DisjointObjectProperties"@[0]);
    assert("EquivalentDataProperties"@ != "DisjointObjectProperties"@);
    assert("EquivalentDataProperties"@.len() != "InverseObjectProperties"@.len());
    assert("EquivalentDataProperties"@ != "InverseObjectProperties"@);
    assert("EquivalentDataProperties"@.len() != "ObjectPropertyDomain"@.len());
    assert("EquivalentDataProperties"@ != "ObjectPropertyDomain"@);
    assert("EquivalentDataProperties"@.len() != "ObjectPropertyRange"@.len());
    assert("EquivalentDataProperties"@ != "ObjectPropertyRange"@);
    assert("EquivalentDataProperties"@[0] != "FunctionalObjectProperty"@[0]);
    assert("EquivalentDataProperties"@ != "FunctionalObjectProperty"@);
    assert("EquivalentDataProperties"@.len() != "InverseFunctionalObjectProperty"@.len());
    assert("EquivalentDataProperties"@ != "InverseFunctionalObjectProperty"@);
    assert("EquivalentDataProperties"@.len() != "ReflexiveObjectProperty"@.len());
    assert("EquivalentDataProperties"@ != "ReflexiveObjectProperty"@);
    assert("EquivalentDataProperties"@.len() != "IrreflexiveObjectProperty"@.len());
    assert("EquivalentDataProperties"@ != "IrreflexiveObjectProperty"@);
    assert("EquivalentDataProperties"@.len() != "SymmetricObjectProperty"@.len());
    assert("EquivalentDataProperties"@ != "SymmetricObjectProperty"@);
    assert("EquivalentDataProperties"@[0] != "AsymmetricObjectProperty"@[0]);
    assert("EquivalentDataProperties"@ != "AsymmetricObjectProperty"@);
    assert("EquivalentDataProperties"@[0] != "TransitiveObjectProperty"@[0]);
    assert("EquivalentDataProperties"@ != "TransitiveObjectProperty"@);
    assert("EquivalentDataProperties"@.len() != "SubDataPropertyOf"@.len());
    assert("EquivalentDataProperties"@ != "SubDataPropertyOf"@);
}

/// The axiom kind `DisjointDataProperties`: its keyword and what its parts are read as.
#[verifier::spinoff_prover]
pub proof fn lemma_axiom_branch_disjoint_data_properties(s: Seq<char>, u: int, px: Px)
    ensures
        keyword("DisjointDataProperties"@),
        "DisjointDataProperties"@ != "Import"@,
        "DisjointDataProperties"@ != "Annotation"@,
        axiom_parts("DisjointDataProperties"@, s, u, px) == lift_read(at_least(s, u, |t: int| r_iri(s, t, px), 2), |x: Seq<Seq<char>>| SpecAxiom::DisjointDataProperties(x)),
{
    reveal_strlit("Declaration");
    reveal_strlit("SubClassOf");
    reveal_strlit("EquivalentClasses");
    reveal_strlit("DisjointClasses");
    reveal_strlit("DisjointUnion");
    reveal_strlit("SubObjectPropertyOf");
    reveal_strlit("EquivalentObjectProperties");
    reveal_strlit("DisjointObjectProperties");
    reveal_strlit("InverseObjectProperties");
    reveal_strlit("ObjectPropertyDomain");
    reveal_strlit("ObjectPropertyRange");
    reveal_strlit("FunctionalObjectProperty");
    reveal_strlit("InverseFunctionalObjectProperty");
    reveal_strlit("ReflexiveObjectProperty");
    reveal_strlit("IrreflexiveObjectProperty");
    reveal_strlit("SymmetricObjectProperty");
    reveal_strlit("AsymmetricObjectProperty");
    reveal_strlit("TransitiveObjectProperty");
    reveal_strlit("SubDataPropertyOf");
    reveal_strlit("EquivalentDataProperties");
    reveal_strlit("DisjointDataProperties");
    reveal_strlit("Import");
    reveal_strlit("Annotation");
    assert("DisjointDataProperties"@.len() != "Import"@.len());
    assert("DisjointDataProperties"@.len() != "Annotation"@.len());
    reveal_with_fuel(letters_end, 36);
    assert("DisjointDataProperties"@.len() != "Declaration"@.len());
    assert("DisjointDataProperties"@ != "Declaration"@);
    assert("DisjointDataProperties"@.len() != "SubClassOf"@.len());
    assert("DisjointDataProperties"@ != "SubClassOf"@);
    assert("DisjointDataProperties"@.len() != "EquivalentClasses"@.len());
    assert("DisjointDataProperties"@ != "EquivalentClasses"@);
    assert("DisjointDataProperties"@.len() != "DisjointClasses"@.len());
    assert("DisjointDataProperties"@ != "DisjointClasses"@);
    assert("DisjointDataProperties"@.len() != "DisjointUnion"@.len());
    assert("DisjointDataProperties"@ != "DisjointUnion"@);
    assert("DisjointDataProperties"@.len() != "SubObjectPropertyOf"@.len());
    assert("DisjointDataProperties"@ != "SubObjectPropertyOf"@);
    assert("DisjointDataProperties"@.len() != "EquivalentObjectProperties"@.len());
    assert("DisjointDataProperties"@ != "EquivalentObjectProperties"@);
    assert("DisjointDataProperties"@.len() != "DisjointObjectProperties"@.len());
    assert("DisjointDataProperties"@ != "DisjointObjectProperties"@);
    assert("DisjointDataProperties"@.len() != "InverseObjectProperties"@.len());
    assert("DisjointDataProperties"@ != "InverseObjectProperties"@);
    assert("DisjointDataProperties"@.len() != "ObjectPropertyDomain"@.len());
    assert("DisjointDataProperties"@ != "ObjectPropertyDomain"@);
    assert("DisjointDataProperties"@.len() != "ObjectPropertyRange"@.len());
    assert("DisjointDataProperties"@ != "ObjectPropertyRange"@);
    assert("DisjointDataProperties"@.len() != "FunctionalObjectProperty"@.len());
    assert("DisjointDataProperties"@ != "FunctionalObjectProperty"@);
    assert("DisjointDataProperties"@.len() != "InverseFunctionalObjectProperty"@.len());
    assert("DisjointDataProperties"@ != "InverseFunctionalObjectProperty"@);
    assert("DisjointDataProperties"@.len() != "ReflexiveObjectProperty"@.len());
    assert("DisjointDataProperties"@ != "ReflexiveObjectProperty"@);
    assert("DisjointDataProperties"@.len() != "IrreflexiveObjectProperty"@.len());
    assert("DisjointDataProperties"@ != "IrreflexiveObjectProperty"@);
    assert("DisjointDataProperties"@.len() != "SymmetricObjectProperty"@.len());
    assert("DisjointDataProperties"@ != "SymmetricObjectProperty"@);
    assert("DisjointDataProperties"@.len() != "AsymmetricObjectProperty"@.len());
    assert("DisjointDataProperties"@ != "AsymmetricObjectProperty"@);
    assert("DisjointDataProperties"@.len() != "TransitiveObjectProperty"@.len());
    assert("DisjointDataProperties"@ != "TransitiveObjectProperty"@);
    assert("DisjointDataProperties"@.len() != "SubDataPropertyOf"@.len());
    assert("DisjointDataProperties"@ != "SubDataPropertyOf"@);
    assert("DisjointDataProperties"@.len() != "EquivalentDataProperties"@.len());
    assert("DisjointDataProperties"@ != "EquivalentDataProperties"@);
}

/// The axiom kind `DataPropertyDomain`: its keyword and what its parts are read as.
#[verifier::spinoff_prover]
pub proof fn lemma_axiom_branch_data_property_domain(s: Seq<char>, u: int, px: Px)
    ensures
        keyword("DataPropertyDomain"@),
        "DataPropertyDomain"@ != "Import"@,
        "DataPropertyDomain"@ != "Annotation"@,
        axiom_parts("DataPropertyDomain"@, s, u, px) == lift_read(then(s, r_iri(s, u, px), |t: int| r_ce(s, t, px)), |x: (Seq<char>, SpecClassExpression)| SpecAxiom::DataPropertyDomain { dp: x.0, ce: x.1 }),
{
    reveal_strlit("Declaration");
    reveal_strlit("SubClassOf");
    reveal_strlit("EquivalentClasses");
    reveal_strlit("DisjointClasses");
    reveal_strlit("DisjointUnion");
    reveal_strlit("SubObjectPropertyOf");
    reveal_strlit("EquivalentObjectProperties");
    reveal_strlit("DisjointObjectProperties");
    reveal_strlit("InverseObjectProperties");
    reveal_strlit("ObjectPropertyDomain");
    reveal_strlit("ObjectPropertyRange");
    reveal_strlit("FunctionalObjectProperty");
    reveal_strlit("InverseFunctionalObjectProperty");
    reveal_strlit("ReflexiveObjectProperty");
    reveal_strlit("IrreflexiveObjectProperty");
    reveal_strlit("SymmetricObjectProperty");
    reveal_strlit("AsymmetricObjectProperty");
    reveal_strlit("TransitiveObjectProperty");
    reveal_strlit("SubDataPropertyOf");
    reveal_strlit("EquivalentDataProperties");
    reveal_strlit("DisjointDataProperties");
    reveal_strlit("DataPropertyDomain");
    reveal_strlit("Import");
    reveal_strlit("Annotation");
    assert("DataPropertyDomain"@.len() != "Import"@.len());
    assert("DataPropertyDomain"@.len() != "Annotation"@.len());
    reveal_with_fuel(letters_end, 36);
    assert("DataPropertyDomain"@.len() != "Declaration"@.len());
    assert("DataPropertyDomain"@ != "Declaration"@);
    assert("DataPropertyDomain"@.len() != "SubClassOf"@.len());
    assert("DataPropertyDomain"@ != "SubClassOf"@);
    assert("DataPropertyDomain"@.len() != "EquivalentClasses"@.len());
    assert("DataPropertyDomain"@ != "EquivalentClasses"@);
    assert("DataPropertyDomain"@.len() != "DisjointClasses"@.len());
    assert("DataPropertyDomain"@ != "DisjointClasses"@);
    assert("DataPropertyDomain"@.len() != "DisjointUnion"@.len());
    assert("DataPropertyDomain"@ != "DisjointUnion"@);
    assert("DataPropertyDomain"@.len() != "SubObjectPropertyOf"@.len());
    assert("DataPropertyDomain"@ != "SubObjectPropertyOf"@);
    assert("DataPropertyDomain"@.len() != "EquivalentObjectProperties"@.len());
    assert("DataPropertyDomain"@ != "EquivalentObjectProperties"@);
    assert("DataPropertyDomain"@.len() != "DisjointObjectProperties"@.len());
    assert("DataPropertyDomain"@ != "DisjointObjectProperties"@);
    assert("DataPropertyDomain"@.len() != "InverseObjectProperties"@.len());
    assert("DataPropertyDomain"@ != "InverseObjectProperties"@);
    assert("DataPropertyDomain"@.len() != "ObjectPropertyDomain"@.len());
    assert("DataPropertyDomain"@ != "ObjectPropertyDomain"@);
    assert("DataPropertyDomain"@.len() != "ObjectPropertyRange"@.len());
    assert("DataPropertyDomain"@ != "ObjectPropertyRange"@);
    assert("DataPropertyDomain"@.len() != "FunctionalObjectProperty"@.len());
    assert("DataPropertyDomain"@ != "FunctionalObjectProperty"@);
    assert("DataPropertyDomain"@.len() != "InverseFunctionalObjectProperty"@.len());
    assert("DataPropertyDomain"@ != "InverseFunctionalObjectProperty"@);
    assert("DataPropertyDomain"@.len() != "ReflexiveObjectProperty"@.len());
    assert("DataPropertyDomain"@ != "ReflexiveObjectProperty"@);
    assert("DataPropertyDomain"@.len() != "IrreflexiveObjectProperty"@.len());
    assert("DataPropertyDomain"@ != "IrreflexiveObjectProperty"@);
    assert("DataPropertyDomain"@.len() != "SymmetricObjectProperty"@.len());
    assert("DataPropertyDomain"@ != "SymmetricObjectProperty"@);
    assert("DataPropertyDomain"@.len() != "AsymmetricObjectProperty"@.len());
    assert("DataPropertyDomain"@ != "AsymmetricObjectProperty"@);
    assert("DataPropertyDomain"@.len() != "TransitiveObjectProperty"@.len());
    assert("DataPropertyDomain"@ != "TransitiveObjectProperty"@);
    assert("DataPropertyDomain"@.len() != "SubDataPropertyOf"@.len());
    assert("DataPropertyDomain"@ != "SubDataPropertyOf"@);
    assert("DataPropertyDomain"@.len() != "EquivalentDataProperties"@.len());
    assert("DataPropertyDomain"@ != "EquivalentDataProperties"@);
    assert("DataPropertyDomain"@.len() != "DisjointDataProperties"@.len());
    assert("DataPropertyDomain"@ != "DisjointDataProperties"@);
}

/// The axiom kind `DataPropertyRange`: its keyword and what its parts are read as.
#[verifier::spinoff_prover]
pub proof fn lemma_axiom_branch_data_property_range(s: Seq<char>, u: int, px: Px)
    ensures
        keyword("DataPropertyRange"@),
        "DataPropertyRange"@ != "Import"@,
        "DataPropertyRange"@ != "Annotation"@,
        axiom_parts("DataPropertyRange"@, s, u, px) == lift_read(then(s, r_iri(s, u, px), |t: int| r_dr(s, t, px)), |x: (Seq<char>, SpecDataRange)| SpecAxiom::DataPropertyRange { dp: x.0, dr: x.1 }),
{
    reveal_strlit("Declaration");
    reveal_strlit("SubClassOf");
    reveal_strlit("EquivalentClasses");
    reveal_strlit("DisjointClasses");
    reveal_strlit("DisjointUnion");
    reveal_strlit("SubObjectPropertyOf");
    reveal_strlit("EquivalentObjectProperties");
    reveal_strlit("DisjointObjectProperties");
    reveal_strlit("InverseObjectProperties");
    reveal_strlit("ObjectPropertyDomain");
    reveal_strlit("ObjectPropertyRange");
    reveal_strlit("FunctionalObjectProperty");
    reveal_strlit("InverseFunctionalObjectProperty");
    reveal_strlit("ReflexiveObjectProperty");
    reveal_strlit("IrreflexiveObjectProperty");
    reveal_strlit("SymmetricObjectProperty");
    reveal_strlit("AsymmetricObjectProperty");
    reveal_strlit("TransitiveObjectProperty");
    reveal_strlit("SubDataPropertyOf");
    reveal_strlit("EquivalentDataProperties");
    reveal_strlit("DisjointDataProperties");
    reveal_strlit("DataPropertyDomain");
    reveal_strlit("DataPropertyRange");
    reveal_strlit("Import");
    reveal_strlit("Annotation");
    assert("DataPropertyRange"@.len() != "Import"@.len());
    assert("DataPropertyRange"@.len() != "Annotation"@.len());
    reveal_with_fuel(letters_end, 36);
    assert("DataPropertyRange"@.len() != "Declaration"@.len());
    assert("DataPropertyRange"@ != "Declaration"@);
    assert("DataPropertyRange"@.len() != "SubClassOf"@.len());
    assert("DataPropertyRange"@ != "SubClassOf"@);
    assert("DataPropertyRange"@[0] != "EquivalentClasses"@[0]);
    assert("DataPropertyRange"@ != "EquivalentClasses"@);
    assert("DataPropertyRange"@.len() != "DisjointClasses"@.len());
    assert("DataPropertyRange"@ != "DisjointClasses"@);
    assert("DataPropertyRange"@.len() != "DisjointUnion"@.len());
    assert("DataPropertyRange"@ != "DisjointUnion"@);
    assert("DataPropertyRange"@.len() != "SubObjectPropertyOf"@.len());
    assert("DataPropertyRange"@ != "SubObjectPropertyOf"@);
    assert("DataPropertyRange"@.len() != "EquivalentObjectProperties"@.len());
    assert("DataPropertyRange"@ != "EquivalentObjectProperties"@);
    assert("DataPropertyRange"@.len() != "DisjointObjectProperties"@.len());
    assert("DataPropertyRange"@ != "DisjointObjectProperties"@);
    assert("DataPropertyRange"@.len() != "InverseObjectProperties"@.len());
    assert("DataPropertyRange"@ != "InverseObjectProperties"@);
    assert("DataPropertyRange"@.len() != "ObjectPropertyDomain"@.len());
    assert("DataPropertyRange"@ != "ObjectPropertyDomain"@);
    assert("DataPropertyRange"@.len() != "ObjectPropertyRange"@.len());
    assert("DataPropertyRange"@ != "ObjectPropertyRange"@);
    assert("DataPropertyRange"@.len() != "FunctionalObjectProperty"@.len());
    assert("DataPropertyRange"@ != "FunctionalObjectProperty"@);
    assert("DataPropertyRange"@.len() != "InverseFunctionalObjectProperty"@.len());
    assert("DataPropertyRange"@ != "InverseFunctionalObjectProperty"@);
    assert("DataPropertyRange"@.len() != "ReflexiveObjectProperty"@.len());
    assert("DataPropertyRange"@ != "ReflexiveObjectProperty"@);
    assert("DataPropertyRange"@.len() != "IrreflexiveObjectProperty"@.len());
    assert("DataPropertyRange"@ != "IrreflexiveObjectProperty"@);
    assert("DataPropertyRange"@.len() != "SymmetricObjectProperty"@.len());
    assert("DataPropertyRange"@ != "SymmetricObjectProperty"@);
    assert("DataPropertyRange"@.len() != "AsymmetricObjectProperty"@.len());
    assert("DataPropertyRange"@ != "AsymmetricObjectProperty"@);
    assert("DataPropertyRange"@.len() != "TransitiveObjectProperty"@.len());
    assert("DataPropertyRange"@ != "TransitiveObjectProperty"@);
    assert("DataPropertyRange"@[0] != "SubDataPropertyOf"@[0]);
    assert("DataPropertyRange"@ != "SubDataPropertyOf"@);
    assert("DataPropertyRange"@.len() != "EquivalentDataProperties"@.len());
    assert("DataPropertyRange"@ != "EquivalentDataProperties"@);
    assert("DataPropertyRange"@.len() != "DisjointDataProperties"@.len());
    assert("DataPropertyRange"@ != "DisjointDataProperties"@);
    assert("DataPropertyRange"@.len() != "DataPropertyDomain"@.len());
    assert("DataPropertyRange"@ != "DataPropertyDomain"@);
}

/// The axiom kind `FunctionalDataProperty`: its keyword and what its parts are read as.
#[verifier::spinoff_prover]
pub proof fn lemma_axiom_branch_functional_data_property(s: Seq<char>, u: int, px: Px)
    ensures
        keyword("FunctionalDataProperty"@),
        "FunctionalDataProperty"@ != "Import"@,
        "FunctionalDataProperty"@ != "Annotation"@,
        axiom_parts("FunctionalDataProperty"@, s, u, px) == lift_read(r_iri(s, u, px), |x: Seq<char>| SpecAxiom::FunctionalDataProperty(x)),
{
    reveal_strlit("Declaration");
    reveal_strlit("SubClassOf");
    reveal_strlit("EquivalentClasses");
    reveal_strlit("DisjointClasses");
    reveal_strlit("DisjointUnion");
    reveal_strlit("SubObjectPropertyOf");
    reveal_strlit("EquivalentObjectProperties");
    reveal_strlit("DisjointObjectProperties");
    reveal_strlit("InverseObjectProperties");
    reveal_strlit("ObjectPropertyDomain");
    reveal_strlit("ObjectPropertyRange");
    reveal_strlit("FunctionalObjectProperty");
    reveal_strlit("InverseFunctionalObjectProperty");
    reveal_strlit("ReflexiveObjectProperty");
    reveal_strlit("IrreflexiveObjectProperty");
    reveal_strlit("SymmetricObjectProperty");
    reveal_strlit("AsymmetricObjectProperty");
    reveal_strlit("TransitiveObjectProperty");
    reveal_strlit("SubDataPropertyOf");
    reveal_strlit("EquivalentDataProperties");
    reveal_strlit("DisjointDataProperties");
    reveal_strlit("DataPropertyDomain");
    reveal_strlit("DataPropertyRange");
    reveal_strlit("FunctionalDataProperty");
    reveal_strlit("Import");
    reveal_strlit("Annotation");
    assert("FunctionalDataProperty"@.len() != "Import"@.len());
    assert("FunctionalDataProperty"@.len() != "Annotation"@.len());
    reveal_with_fuel(letters_end, 36);
    assert("FunctionalDataProperty"@.len() != "Declaration"@.len());
    assert("FunctionalDataProperty"@ != "Declaration"@);
    assert("FunctionalDataProperty"@.len() != "SubClassOf"@.len());
    assert("FunctionalDataProperty"@ != "SubClassOf"@);
    assert("FunctionalDataProperty"@.len() != "EquivalentClasses"@.len());
    assert("FunctionalDataProperty"@ != "EquivalentClasses"@);
    assert("FunctionalDataProperty"@.len() != "DisjointClasses"@.len());
    assert("FunctionalDataProperty"@ != "DisjointClasses"@);
    assert("FunctionalDataProperty"@.len() != "DisjointUnion"@.len());
    assert("FunctionalDataProperty"@ != "DisjointUnion"@);
    assert("FunctionalDataProperty"@.len() != "SubObjectPropertyOf"@.len());
    assert("FunctionalDataProperty"@ != "SubObjectPropertyOf"@);
    assert("FunctionalDataProperty"@.len() != "EquivalentObjectProperties"@.len());
    assert("FunctionalDataProperty"@ != "EquivalentObjectProperties"@);
    assert("FunctionalDataProperty"@.len() != "DisjointObjectProperties"@.len());
    assert("FunctionalDataProperty"@ != "DisjointObjectProperties"@);
    assert("FunctionalDataProperty"@.len() != "InverseObjectProperties"@.len());
    assert("FunctionalDataProperty"@ != "InverseObjectProperties"@);
    assert("FunctionalDataProperty"@.len() != "ObjectPropertyDomain"@.len());
    assert("FunctionalDataProperty"@ != "ObjectPropertyDomain"@);
    assert("FunctionalDataProperty"@.len() != "ObjectPropertyRange"@.len());
    assert("FunctionalDataProperty"@ != "ObjectPropertyRange"@);
    assert("FunctionalDataProperty"@.len() != "FunctionalObjectProperty"@.len());
    assert("FunctionalDataProperty"@ != "FunctionalObjectProperty"@);
    assert("FunctionalDataProperty"@.len() != "InverseFunctionalObjectProperty"@.len());
    assert("FunctionalDataProperty"@ != "InverseFunctionalObjectProperty"@);
    assert("FunctionalDataProperty"@.len() != "ReflexiveObjectProperty"@.len());
    assert("FunctionalDataProperty"@ != "ReflexiveObjectProperty"@);
    assert("FunctionalDataProperty"@.len() != "IrreflexiveObjectProperty"@.len());
    assert("FunctionalDataProperty"@ != "IrreflexiveObjectProperty"@);
    assert("FunctionalDataProperty"@.len() != "SymmetricObjectProperty"@.len());
    assert("FunctionalDataProperty"@ != "SymmetricObjectProperty"@);
    assert("FunctionalDataProperty"@.len() != "AsymmetricObjectProperty"@.len());
    assert("FunctionalDataProperty"@ != "AsymmetricObjectProperty"@);
    assert("FunctionalDataProperty"@.len() != "TransitiveObjectProperty"@.len());
    assert("FunctionalDataProperty"@ != "TransitiveObjectProperty"@);
    assert("FunctionalDataProperty"@.len() != "SubDataPropertyOf"@.len());
    assert("FunctionalDataProperty"@ != "SubDataPropertyOf"@);
    assert("FunctionalDataProperty"@.len() != "EquivalentDataProperties"@.len());
    assert("FunctionalDataProperty"@ != "EquivalentDataProperties"@);
    assert("FunctionalDataProperty"@[0] != "DisjointDataProperties"@[0]);
    assert("FunctionalDataProperty"@ != "DisjointDataProperties"@);
    assert("FunctionalDataProperty"@.len() != "DataPropertyDomain"@.len());
    assert("FunctionalDataProperty"@ != "DataPropertyDomain"@);
    assert("FunctionalDataProperty"@.len() != "DataPropertyRange"@.len());
    assert("FunctionalDataProperty"@ != "DataPropertyRange"@);
}

/// The axiom kind `DatatypeDefinition`: its keyword and what its parts are read as.
#[verifier::spinoff_prover]
pub proof fn lemma_axiom_branch_datatype_definition(s: Seq<char>, u: int, px: Px)
    ensures
        keyword("DatatypeDefinition"@),
        "DatatypeDefinition"@ != "Import"@,
        "DatatypeDefinition"@ != "Annotation"@,
        axiom_parts("DatatypeDefinition"@, s, u, px) == lift_read(then(s, r_iri(s, u, px), |t: int| r_dr(s, t, px)), |x: (Seq<char>, SpecDataRange)| SpecAxiom::DatatypeDefinition { kind: x.0, range: x.1 }),
{
    reveal_strlit("Declaration");
    reveal_strlit("SubClassOf");
    reveal_strlit("EquivalentClasses");
    reveal_strlit("DisjointClasses");
    reveal_strlit("DisjointUnion");
    reveal_strlit("SubObjectPropertyOf");
    reveal_strlit("EquivalentObjectProperties");
    reveal_strlit("DisjointObjectProperties");
    reveal_strlit("InverseObjectProperties");
    reveal_strlit("ObjectPropertyDomain");
    reveal_strlit("ObjectPropertyRange");
    reveal_strlit("FunctionalObjectProperty");
    reveal_strlit("InverseFunctionalObjectProperty");
    reveal_strlit("ReflexiveObjectProperty");
    reveal_strlit("IrreflexiveObjectProperty");
    reveal_strlit("SymmetricObjectProperty");
    reveal_strlit("AsymmetricObjectProperty");
    reveal_strlit("TransitiveObjectProperty");
    reveal_strlit("SubDataPropertyOf");
    reveal_strlit("EquivalentDataProperties");
    reveal_strlit("DisjointDataProperties");
    reveal_strlit("DataPropertyDomain");
    reveal_strlit("DataPropertyRange");
    reveal_strlit("FunctionalDataProperty");
    reveal_strlit("DatatypeDefinition");
    reveal_strlit("Import");
    reveal_strlit("Annotation");
    assert("DatatypeDefinition"@.len() != "Import"@.len());
    assert("DatatypeDefinition"@.len() != "Annotation"@.len());
    reveal_with_fuel(letters_end, 36);
    assert("DatatypeDefinition"@.len() != "Declaration"@.len());
    assert("DatatypeDefinition"@ != "Declaration"@);
    assert("DatatypeDefinition"@.len() != "SubClassOf"@.len());
    assert("DatatypeDefinition"@ != "SubClassOf"@);
    assert("DatatypeDefinition"@.len() != "EquivalentClasses"@.len());
    assert("DatatypeDefinition"@ != "EquivalentClasses"@);
    assert("DatatypeDefinition"@.len() != "DisjointClasses"@.len());
    assert("DatatypeDefinition"@ != "DisjointClasses"@);
    assert("DatatypeDefinition"@.len() != "DisjointUnion"@.len());
    assert("DatatypeDefinition"@ != "DisjointUnion"@);
    assert("DatatypeDefinition"@.len() != "SubObjectPropertyOf"@.len());
    assert("DatatypeDefinition"@ != "SubObjectPropertyOf"@);
    assert("DatatypeDefinition"@.len() != "EquivalentObjectProperties"@.len());
    assert("DatatypeDefinition"@ != "EquivalentObjectProperties"@);
    assert("DatatypeDefinition"@.len() != "DisjointObjectProperties"@.len());
    assert("DatatypeDefinition"@ != "DisjointObjectProperties"@);
    assert("DatatypeDefinition"@.len() != "InverseObjectProperties"@.len());
    assert("DatatypeDefinition"@ != "InverseObjectProperties"@);
    assert("DatatypeDefinition"@.len() != "ObjectPropertyDomain"@.len());
    assert("DatatypeDefinition"@ != "ObjectPropertyDomain"@);
    assert("DatatypeDefinition"@.len() != "ObjectPropertyRange"@.len());
    assert("DatatypeDefinition"@ != "ObjectPropertyRange"@);
    assert("DatatypeDefinition"@.len() != "FunctionalObjectProperty"@.len());
    assert("DatatypeDefinition"@ != "FunctionalObjectProperty"@);
    assert("DatatypeDefinition"@.len() != "InverseFunctionalObjectProperty"@.len());
    assert("DatatypeDefinition"@ != "InverseFunctionalObjectProperty"@);
    assert("DatatypeDefinition"@.len() != "ReflexiveObjectProperty"@.len());
    assert("DatatypeDefinition"@ != "ReflexiveObjectProperty"@);
    assert("DatatypeDefinition"@.len() != "IrreflexiveObjectProperty"@.len());
    assert("DatatypeDefinition"@ != "IrreflexiveObjectProperty"@);
    assert("DatatypeDefinition"@.len() != "SymmetricObjectProperty"@.len());
    assert("DatatypeDefinition"@ != "SymmetricObjectProperty"@);
    assert("DatatypeDefinition"@.len() != "AsymmetricObjectProperty"@.len());
    assert("DatatypeDefinition"@ != "AsymmetricObjectProperty"@);
    assert("DatatypeDefinition"@.len() != "TransitiveObjectProperty"@.len());
    assert("DatatypeDefinition"@ != "TransitiveObjectProperty"@);
    assert("DatatypeDefinition"@.len() != "SubDataPropertyOf"@.len());
    assert("DatatypeDefinition"@ != "SubDataPropertyOf"@);
    assert("DatatypeDefinition"@.len() != "EquivalentDataProperties"@.len());
    assert("DatatypeDefinition"@ != "EquivalentDataProperties"@);
    assert("DatatypeDefinition"@.len() != "DisjointDataProperties"@.len());
    assert("DatatypeDefinition"@ != "DisjointDataProperties"@);
    assert("DatatypeDefinition"@[4] != "DataPropertyDomain"@[4]);
    assert("DatatypeDefinition"@ != "DataPropertyDomain"@);
    assert("DatatypeDefinition"@.len() != "DataPropertyRange"@.len());
    assert("DatatypeDefinition"@ != "DataPropertyRange"@);
    assert("DatatypeDefinition"@.len() != "FunctionalDataProperty"@.len());
    assert("DatatypeDefinition"@ != "FunctionalDataProperty"@);
}

/// The axiom kind `HasKey`: its keyword and what its parts are read as.
#[verifier::spinoff_prover]
pub proof fn lemma_axiom_branch_has_key(s: Seq<char>, u: int, px: Px)
    ensures
        keyword("HasKey"@),
        "HasKey"@ != "Import"@,
        "HasKey"@ != "Annotation"@,
        axiom_parts("HasKey"@, s, u, px) == has_key_parts(s, u, px),
{
    reveal_strlit("Declaration");
    reveal_strlit("SubClassOf");
    reveal_strlit("EquivalentClasses");
    reveal_strlit("DisjointClasses");
    reveal_strlit("DisjointUnion");
    reveal_strlit("SubObjectPropertyOf");
    reveal_strlit("EquivalentObjectProperties");
    reveal_strlit("DisjointObjectProperties");
    reveal_strlit("InverseObjectProperties");
    reveal_strlit("ObjectPropertyDomain");
    reveal_strlit("ObjectPropertyRange");
    reveal_strlit("FunctionalObjectProperty");
    reveal_strlit("InverseFunctionalObjectProperty");
    reveal_strlit("ReflexiveObjectProperty");
    reveal_strlit("IrreflexiveObjectProperty");
    reveal_strlit("SymmetricObjectProperty");
    reveal_strlit("AsymmetricObjectProperty");
    reveal_strlit("TransitiveObjectProperty");
    reveal_strlit("SubDataPropertyOf");
    reveal_strlit("EquivalentDataProperties");
    reveal_strlit("DisjointDataProperties");
    reveal_strlit("DataPropertyDomain");
    reveal_strlit("DataPropertyRange");
    reveal_strlit("FunctionalDataProperty");
    reveal_strlit("DatatypeDefinition");
    reveal_strlit("HasKey");
    reveal_strlit("Import");
    reveal_strlit("Annotation");
    assert("HasKey"@[0] != "Import"@[0]);
    assert("HasKey"@.len() != "Annotation"@.len());
    reveal_with_fuel(letters_end, 36);
    assert("HasKey"@.len() != "Declaration"@.len());
    assert("HasKey"@ != "Declaration"@);
    assert("HasKey"@.len() != "SubClassOf"@.len());
    assert("HasKey"@ != "SubClassOf"@);
    assert("HasKey"@.len() != "EquivalentClasses"@.len());
    assert("HasKey"@ != "EquivalentClasses"@);
    assert("HasKey"@.len() != "DisjointClasses"@.len());
    assert("HasKey"@ != "DisjointClasses"@);
    assert("HasKey"@.len() != "DisjointUnion"@.len());
    assert("HasKey"@ != "DisjointUnion"@);
    assert("HasKey"@.len() != "SubObjectPropertyOf"@.len());
    assert("HasKey"@ != "SubObjectPropertyOf"@);
    assert("HasKey"@.len() != "EquivalentObjectProperties"@.len());
    assert("HasKey"@ != "EquivalentObjectProperties"@);
    assert("HasKey"@.len() != "DisjointObjectProperties"@.len());
    assert("HasKey"@ != "DisjointObjectProperties"@);
    assert("HasKey"@.len() != "InverseObjectProperties"@.len());
    assert("HasKey"@ != "InverseObjectProperties"@);
    assert("HasKey"@.len() != "ObjectPropertyDomain"@.len());
    assert("HasKey"@ != "ObjectPropertyDomain"@);
    assert("HasKey"@.len() != "ObjectPropertyRange"@.len());
    assert("HasKey"@ != "ObjectPropertyRange"@);
    assert("HasKey"@.len() != "FunctionalObjectProperty"@.len());
    assert("HasKey"@ != "FunctionalObjectProperty"@);
    assert("HasKey"@.len() != "InverseFunctionalObjectProperty"@.len());
    assert("HasKey"@ != "InverseFunctionalObjectProperty"@);
    assert("HasKey"@.len() != "ReflexiveObjectProperty"@.len());
    assert("HasKey"@ != "ReflexiveObjectProperty"@);
    assert("HasKey"@.len() != "IrreflexiveObjectProperty"@.len());
    assert("HasKey"@ != "IrreflexiveObjectProperty"@);
    assert("HasKey"@.len() != "SymmetricObjectProperty"@.len());
    assert("HasKey"@ != "SymmetricObjectProperty"@);
    assert("HasKey"@.len() != "AsymmetricObjectProperty"@.len());
    assert("HasKey"@ != "AsymmetricObjectProperty"@);
    assert("HasKey"@.len() != "TransitiveObjectProperty"@.len());
    assert("HasKey"@ != "TransitiveObjectProperty"@);
    assert("HasKey"@.len() != "SubDataPropertyOf"@.len());
    assert("HasKey"@ != "SubDataPropertyOf"@);
    assert("HasKey"@.len() != "EquivalentDataProperties"@.len());
    assert("HasKey"@ != "EquivalentDataProperties"@);
    assert("HasKey"@.len() != "DisjointDataProperties"@.len());
    assert("HasKey"@ != "DisjointDataProperties"@);
    assert("HasKey"@.len() != "DataPropertyDomain"@.len());
    assert("HasKey"@ != "DataPropertyDomain"@);
    assert("HasKey"@.len() != "DataPropertyRange"@.len());
    assert("HasKey"@ != "DataPropertyRange"@);
    assert("HasKey"@.len() != "FunctionalDataProperty"@.len());
    assert("HasKey"@ != "FunctionalDataProperty"@);
    assert("HasKey"@.len() != "DatatypeDefinition"@.len());
    assert("HasKey"@ != "DatatypeDefinition"@);
}

/// The axiom kind `SameIndividual`: its keyword and what its parts are read as.
#[verifier::spinoff_prover]
pub proof fn lemma_axiom_branch_same_individual(s: Seq<char>, u: int, px: Px)
    ensures
        keyword("SameIndividual"@),
        "SameIndividual"@ != "Import"@,
        "SameIndividual"@ != "Annotation"@,
        axiom_parts("SameIndividual"@, s, u, px) == lift_read(at_least(s, u, |t: int| r_individual(s, t, px), 2), |x: Seq<SpecIndividual>| SpecAxiom::SameIndividual(x)),
{
    reveal_strlit("Declaration");
    reveal_strlit("SubClassOf");
    reveal_strlit("EquivalentClasses");
    reveal_strlit("DisjointClasses");
    reveal_strlit("DisjointUnion");
    reveal_strlit("SubObjectPropertyOf");
    reveal_strlit("EquivalentObjectProperties");
    reveal_strlit("DisjointObjectProperties");
    reveal_strlit("InverseObjectProperties");
    reveal_strlit("ObjectPropertyDomain");
    reveal_strlit("ObjectPropertyRange");
    reveal_strlit("FunctionalObjectProperty");
    reveal_strlit("InverseFunctionalObjectProperty");
    reveal_strlit("ReflexiveObjectProperty");
    reveal_strlit("IrreflexiveObjectProperty");
    reveal_strlit("SymmetricObjectProperty");
    reveal_strlit("AsymmetricObjectProperty");
    reveal_strlit("TransitiveObjectProperty");
    reveal_strlit("SubDataPropertyOf");
    reveal_strlit("EquivalentDataProperties");
    reveal_strlit("DisjointDataProperties");
    reveal_strlit("DataPropertyDomain");
    reveal_strlit("DataPropertyRange");
    reveal_strlit("FunctionalDataProperty");
    reveal_strlit("DatatypeDefinition");
    reveal_strlit("HasKey");
    reveal_strlit("SameIndividual");
    reveal_strlit("Import");
    reveal_strlit("Annotation");
    assert("SameIndividual"@.len() != "Import"@.len());
    assert("SameIndividual"@.len() != "Annotation"@.len());
    reveal_with_fuel(letters_end, 36);
    assert("SameIndividual"@.len() != "Declaration"@.len());
    assert("SameIndividual"@ != "Declaration"@);
    assert("SameIndividual"@.len() != "SubClassOf"@.len());
    assert("SameIndividual"@ != "SubClassOf"@);
    assert("SameIndividual"@.len() != "EquivalentClasses"@.len());
    assert("SameIndividual"@ != "EquivalentClasses"@);
    assert("SameIndividual"@.len() != "DisjointClasses"@.len());
    assert("SameIndividual"@ != "DisjointClasses"@);
    assert("SameIndividual"@.len() != "DisjointUnion"@.len());
    assert("SameIndividual"@ != "DisjointUnion"@);
    assert("SameIndividual"@.len() != "SubObjectPropertyOf"@.len());
    assert("SameIndividual"@ != "SubObjectPropertyOf"@);
    assert("SameIndividual"@.len() != "EquivalentObjectProperties"@.len());
    assert("SameIndividual"@ != "EquivalentObjectProperties"@);
    assert("SameIndividual"@.len() != "DisjointObjectProperties"@.len());
    assert("SameIndividual"@ != "DisjointObjectProperties"@);
    assert("SameIndividual"@.len() != "InverseObjectProperties"@.len());
    assert("SameIndividual"@ != "InverseObjectProperties"@);
    assert("SameIndividual"@.len() != "ObjectPropertyDomain"@.len());
    assert("SameIndividual"@ != "ObjectPropertyDomain"@);
    assert("SameIndividual"@.len() != "ObjectPropertyRange"@.len());
    assert("SameIndividual"@ != "ObjectPropertyRange"@);
    assert("SameIndividual"@.len() != "FunctionalObjectProperty"@.len());
    assert("SameIndividual"@ != "FunctionalObjectProperty"@);
    assert("SameIndividual"@.len() != "InverseFunctionalObjectProperty"@.len());
    assert("SameIndividual"@ != "InverseFunctionalObjectProperty"@);
    assert("SameIndividual"@.len() != "ReflexiveObjectProperty"@.len());
    assert("SameIndividual"@ != "ReflexiveObjectProperty"@);
    assert("SameIndividual"@.len() != "IrreflexiveObjectProperty"@.len());
    assert("SameIndividual"@ != "IrreflexiveObjectProperty"@);
    assert("SameIndividual"@.len() != "SymmetricObjectProperty"@.len());
    assert("SameIndividual"@ != "SymmetricObjectProperty"@);
    assert("SameIndividual"@.len() != "AsymmetricObjectProperty"@.len());
    assert("SameIndividual"@ != "AsymmetricObjectProperty"@);
    assert("SameIndividual"@.len() != "TransitiveObjectProperty"@.len());
    assert("SameIndividual"@ != "TransitiveObjectProperty"@);
    assert("SameIndividual"@.len() != "SubDataPropertyOf"@.len());
    assert("SameIndividual"@ != "SubDataPropertyOf"@);
    assert("SameIndividual"@.len() != "EquivalentDataProperties"@.len());
    assert("SameIndividual"@ != "EquivalentDataProperties"@);
    assert("SameIndividual"@.len() != "DisjointDataProperties"@.len());
    assert("SameIndividual"@ != "DisjointDataProperties"@);
    assert("SameIndividual"@.len() != "DataPropertyDomain"@.len());
    assert("SameIndividual"@ != "DataPropertyDomain"@);
    assert("SameIndividual"@.len() != "DataPropertyRange"@.len());
    assert("SameIndividual"@ != "DataPropertyRange"@);
    assert("SameIndividual"@.len() != "FunctionalDataProperty"@.len());
    assert("SameIndividual"@ != "FunctionalDataProperty"@);
    assert("SameIndividual"@.len() != "DatatypeDefinition"@.len());
    assert("SameIndividual"@ != "DatatypeDefinition"@);
    assert("SameIndividual"@.len() != "HasKey"@.len());
    assert("SameIndividual"@ != "HasKey"@);
}

/// The axiom kind `DifferentIndividuals`: its keyword and what its parts are read as.
#[verifier::spinoff_prover]
pub proof fn lemma_axiom_branch_different_individuals(s: Seq<char>, u: int, px: Px)
    ensures
        keyword("DifferentIndividuals"@),
        "DifferentIndividuals"@ != "Import"@,
        "DifferentIndividuals"@ != "Annotation"@,
        axiom_parts("DifferentIndividuals"@, s, u, px) == lift_read(at_least(s, u, |t: int| r_individual(s, t, px), 2), |x: Seq<SpecIndividual>| SpecAxiom::DifferentIndividuals(x)),
{
    reveal_strlit("Declaration");
    reveal_strlit("SubClassOf");
    reveal_strlit("EquivalentClasses");
    reveal_strlit("DisjointClasses");
    reveal_strlit("DisjointUnion");
    reveal_strlit("SubObjectPropertyOf");
    reveal_strlit("EquivalentObjectProperties");
    reveal_strlit("DisjointObjectProperties");
    reveal_strlit("InverseObjectProperties");
    reveal_strlit("ObjectPropertyDomain");
    reveal_strlit("ObjectPropertyRange");
    reveal_strlit("FunctionalObjectProperty");
    reveal_strlit("InverseFunctionalObjectProperty");
    reveal_strlit("ReflexiveObjectProperty");
    reveal_strlit("IrreflexiveObjectProperty");
    reveal_strlit("SymmetricObjectProperty");
    reveal_strlit("AsymmetricObjectProperty");
    reveal_strlit("TransitiveObjectProperty");
    reveal_strlit("SubDataPropertyOf");
    reveal_strlit("EquivalentDataProperties");
    reveal_strlit("DisjointDataProperties");
    reveal_strlit("DataPropertyDomain");
    reveal_strlit("DataPropertyRange");
    reveal_strlit("FunctionalDataProperty");
    reveal_strlit("DatatypeDefinition");
    reveal_strlit("HasKey");
    reveal_strlit("SameIndividual");
    reveal_strlit("DifferentIndividuals");
    reveal_strlit("Import");
    reveal_strlit("Annotation");
    assert("DifferentIndividuals"@.len() != "Import"@.len());
    assert("DifferentIndividuals"@.len() != "Annotation"@.len());
    reveal_with_fuel(letters_end, 36);
    assert("DifferentIndividuals"@.len() != "Declaration"@.len());
    assert("DifferentIndividuals"@ != "Declaration"@);
    assert("DifferentIndividuals"@.len() != "SubClassOf"@.len());
    assert("DifferentIndividuals"@ != "SubClassOf"@);
    assert("DifferentIndividuals"@.len() != "EquivalentClasses"@.len());
    assert("DifferentIndividuals"@ != "EquivalentClasses"@);
    assert("DifferentIndividuals"@.len() != "DisjointClasses"@.len());
    assert("DifferentIndividuals"@ != "DisjointClasses"@);
    assert("DifferentIndividuals"@.len() != "DisjointUnion"@.len());
    assert("DifferentIndividuals"@ != "DisjointUnion"@);
    assert("DifferentIndividuals"@.len() != "SubObjectPropertyOf"@.len());
    assert("DifferentIndividuals"@ != "SubObjectPropertyOf"@);
    assert("DifferentIndividuals"@.len() != "EquivalentObjectProperties"@.len());
    assert("DifferentIndividuals"@ != "EquivalentObjectProperties"@);
    assert("DifferentIndividuals"@.len() != "DisjointObjectProperties"@.len());
    assert("DifferentIndividuals"@ != "DisjointObjectProperties"@);
    assert("DifferentIndividuals"@.len() != "InverseObjectProperties"@.len());
    assert("DifferentIndividuals"@ != "InverseObjectProperties"@);
    assert("DifferentIndividuals"@[0] != "ObjectPropertyDomain"@[0]);
    assert("DifferentIndividuals"@ != "ObjectPropertyDomain"@);
    assert("DifferentIndividuals"@.len() != "ObjectPropertyRange"@.len());
    assert("DifferentIndividuals"@ != "ObjectPropertyRange"@);
    assert("DifferentIndividuals"@.len() != "FunctionalObjectProperty"@.len());
    assert("DifferentIndividuals"@ != "FunctionalObjectProperty"@);
    assert("DifferentIndividuals"@.len() != "InverseFunctionalObjectProperty"@.len());
    assert("DifferentIndividuals"@ != "InverseFunctionalObjectProperty"@);
    assert("DifferentIndividuals"@.len() != "ReflexiveObjectProperty"@.len());
    assert("DifferentIndividuals"@ != "ReflexiveObjectProperty"@);
    assert("DifferentIndividuals"@.len() != "IrreflexiveObjectProperty"@.len());
    assert("DifferentIndividuals"@ != "IrreflexiveObjectProperty"@);
    assert("DifferentIndividuals"@.len() != "SymmetricObjectProperty"@.len());
    assert("DifferentIndividuals"@ != "SymmetricObjectProperty"@);
    assert("DifferentIndividuals"@.len() != "AsymmetricObjectProperty"@.len());
    assert("DifferentIndividuals"@ != "AsymmetricObjectProperty"@);
    assert("DifferentIndividuals"@.len() != "TransitiveObjectProperty"@.len());
    assert("DifferentIndividuals"@ != "TransitiveObjectProperty"@);
    assert("DifferentIndividuals"@.len() != "SubDataPropertyOf"@.len());
    assert("DifferentIndividuals"@ != "SubDataPropertyOf"@);
    assert("DifferentIndividuals"@.len() != "EquivalentDataProperties"@.len());
    assert("DifferentIndividuals"@ != "EquivalentDataProperties"@);
    assert("DifferentIndividuals"@.len() != "DisjointDataProperties"@.len());
    assert("DifferentIndividuals"@ != "DisjointDataProperties"@);
    assert("DifferentIndividuals"@.len() != "DataPropertyDomain"@.len());
    assert("DifferentIndividuals"@ != "DataPropertyDomain"@);
    assert("DifferentIndividuals"@.len() != "DataPropertyRange"@.len());
    assert("DifferentIndividuals"@ != "DataPropertyRange"@);
    assert("DifferentIndividuals"@.len() != "FunctionalDataProperty"@.len());
    assert("DifferentIndividuals"@ != "FunctionalDataProperty"@);
    assert("DifferentIndividuals"@.len() != "DatatypeDefinition"@.len());
    assert("DifferentIndividuals"@ != "DatatypeDefinition"@);
    assert("DifferentIndividuals"@.len() != "HasKey"@.len());
    assert("DifferentIndividuals"@ != "HasKey"@);
    assert("DifferentIndividuals"@.len() != "SameIndividual"@.len());
    assert("DifferentIndividuals"@ != "SameIndividual"@);
}

/// The axiom kind `ClassAssertion`: its keyword and what its parts are read as.
#[verifier::spinoff_prover]
pub proof fn lemma_axiom_branch_class_assertion(s: Seq<char>, u: int, px: Px)
    ensures
        keyword("ClassAssertion"@),
        "ClassAssertion"@ != "Import"@,
        "ClassAssertion"@ != "Annotation"@,
        axiom_parts("ClassAssertion"@, s, u, px) == lift_read(then(s, r_ce(s, u, px), |t: int| r_individual(s, t, px)), |x: (SpecClassExpression, SpecIndividual)| SpecAxiom::ClassAssertion { ce: x.0, i: x.1 }),
{
    reveal_strlit("Declaration");
    reveal_strlit("SubClassOf");
    reveal_strlit("EquivalentClasses");
    reveal_strlit("DisjointClasses");
    reveal_strlit("DisjointUnion");
    reveal_strlit("SubObjectPropertyOf");
    reveal_strlit("EquivalentObjectProperties");
    reveal_strlit("DisjointObjectProperties");
    reveal_strlit("InverseObjectProperties");
    reveal_strlit("ObjectPropertyDomain");
    reveal_strlit("ObjectPropertyRange");
    reveal_strlit("FunctionalObjectProperty");
    reveal_strlit("InverseFunctionalObjectProperty");
    reveal_strlit("ReflexiveObjectProperty");
    reveal_strlit("IrreflexiveObjectProperty");
    reveal_strlit("SymmetricObjectProperty");
    reveal_strlit("AsymmetricObjectProperty");
    reveal_strlit("TransitiveObjectProperty");
    reveal_strlit("SubDataPropertyOf");
    reveal_strlit("EquivalentDataProperties");
    reveal_strlit("DisjointDataProperties");
    reveal_strlit("DataPropertyDomain");
    reveal_strlit("DataPropertyRange");
    reveal_strlit("FunctionalDataProperty");
    reveal_strlit("DatatypeDefinition");
    reveal_strlit("HasKey");
    reveal_strlit("SameIndividual");
    reveal_strlit("DifferentIndividuals");
    reveal_strlit("ClassAssertion");
    reveal_strlit("Import");
    reveal_strlit("Annotation");
    assert("ClassAssertion"@.len() != "Import"@.len());
    assert("ClassAssertion"@.len() != "Annotation"@.len());
    reveal_with_fuel(letters_end, 36);
    assert("ClassAssertion"@.len() != "Declaration"@.len());
    assert("ClassAssertion"@ != "Declaration"@);
    assert("ClassAssertion"@.len() != "SubClassOf"@.len());
    assert("ClassAssertion"@ != "SubClassOf"@);
    assert("ClassAssertion"@.len() != "EquivalentClasses"@.len());
    assert("ClassAssertion"@ != "EquivalentClasses"@);
    assert("ClassAssertion"@.len() != "DisjointClasses"@.len());
    assert("ClassAssertion"@ != "DisjointClasses"@);
    assert("ClassAssertion"@.len() != "DisjointUnion"@.len());
    assert("ClassAssertion"@ != "DisjointUnion"@);
    assert("ClassAssertion"@.len() != "SubObjectPropertyOf"@.len());
    assert("ClassAssertion"@ != "SubObjectPropertyOf"@);
    assert("ClassAssertion"@.len() != "EquivalentObjectProperties"@.len());
    assert("ClassAssertion"@ != "EquivalentObjectProperties"@);
    assert("ClassAssertion"@.len() != "DisjointObjectProperties"@.len());
    assert("ClassAssertion"@ != "DisjointObjectProperties"@);
    assert("ClassAssertion"@.len() != "InverseObjectProperties"@.len());
    assert("ClassAssertion"@ != "InverseObjectProperties"@);
    assert("ClassAssertion"@.len() != "ObjectPropertyDomain"@.len());
    assert("ClassAssertion"@ != "ObjectPropertyDomain"@);
    assert("ClassAssertion"@.len() != "ObjectPropertyRange"@.len());
    assert("ClassAssertion"@ != "ObjectPropertyRange"@);
    assert("ClassAssertion"@.len() != "FunctionalObjectProperty"@.len());
    assert("ClassAssertion"@ != "FunctionalObjectProperty"@);
    assert("ClassAssertion"@.len() != "InverseFunctionalObjectProperty"@.len());
    assert("ClassAssertion"@ != "InverseFunctionalObjectProperty"@);
    assert("ClassAssertion"@.len() != "ReflexiveObjectProperty"@.len());
    assert("ClassAssertion"@ != "ReflexiveObjectProperty"@);
    assert("ClassAssertion"@.len() != "IrreflexiveObjectProperty"@.len());
    assert("ClassAssertion"@ != "IrreflexiveObjectProperty"@);
    assert("ClassAssertion"@.len() != "SymmetricObjectProperty"@.len());
    assert("ClassAssertion"@ != "SymmetricObjectProperty"@);
    assert("ClassAssertion"@.len() != "AsymmetricObjectProperty"@.len());
    assert("ClassAssertion"@ != "AsymmetricObjectProperty"@);
    assert("ClassAssertion"@.len() != "TransitiveObjectProperty"@.len());
    assert("ClassAssertion"@ != "TransitiveObjectProperty"@);
    assert("ClassAssertion"@.len() != "SubDataPropertyOf"@.len());
    assert("ClassAssertion"@ != "SubDataPropertyOf"@);
    assert("ClassAssertion"@.len() != "EquivalentDataProperties"@.len());
    assert("ClassAssertion"@ != "EquivalentDataProperties"@);
    assert("ClassAssertion"@.len() != "DisjointDataProperties"@.len());
    assert("ClassAssertion"@ != "DisjointDataProperties"@);
    assert("ClassAssertion"@.len() != "DataPropertyDomain"@.len());
    assert("ClassAssertion"@ != "DataPropertyDomain"@);
    assert("ClassAssertion"@.len() != "DataPropertyRange"@.len());
    assert("ClassAssertion"@ != "DataPropertyRange"@);
    assert("ClassAssertion"@.len() != "FunctionalDataProperty"@.len());
    assert("ClassAssertion"@ != "FunctionalDataProperty"@);
    assert("ClassAssertion"@.len() != "DatatypeDefinition"@.len());
    assert("ClassAssertion"@ != "DatatypeDefinition"@);
    assert("ClassAssertion"@.len() != "HasKey"@.len());
    assert("ClassAssertion"@ != "HasKey"@);
    assert("ClassAssertion"@[0] != "SameIndividual"@[0]);
    assert("ClassAssertion"@ != "SameIndividual"@);
    assert("ClassAssertion"@.len() != "DifferentIndividuals"@.len());
    assert("ClassAssertion"@ != "DifferentIndividuals"@);
}

/// The axiom kind `ObjectPropertyAssertion`: its keyword and what its parts are read as.
#[verifier::spinoff_prover]
pub proof fn lemma_axiom_branch_object_property_assertion(s: Seq<char>, u: int, px: Px)
    ensures
        keyword("ObjectPropertyAssertion"@),
        "ObjectPropertyAssertion"@ != "Import"@,
        "ObjectPropertyAssertion"@ != "Annotation"@,
        axiom_parts("ObjectPropertyAssertion"@, s, u, px) == lift_read(then(s, then(s, r_ope(s, u, px), |t: int| r_individual(s, t, px)), |t: int| r_individual(s, t, px)), |x: ((SpecObjectPropertyExpression, SpecIndividual), SpecIndividual)| SpecAxiom::ObjectPropertyAssertion { ope: x.0.0, from: x.0.1, to: x.1 }),
{
    reveal_strlit("Declaration");
    reveal_strlit("SubClassOf");
    reveal_strlit("EquivalentClasses");
    reveal_strlit("DisjointClasses");
    reveal_strlit("DisjointUnion");
    reveal_strlit("SubObjectPropertyOf");
    reveal_strlit("EquivalentObjectProperties");
    reveal_strlit("DisjointObjectProperties");
    reveal_strlit("InverseObjectProperties");
    reveal_strlit("ObjectPropertyDomain");
    reveal_strlit("ObjectPropertyRange");
    reveal_strlit("FunctionalObjectProperty");
    reveal_strlit("InverseFunctionalObjectProperty");
    reveal_strlit("ReflexiveObjectProperty");
    reveal_strlit("IrreflexiveObjectProperty");
    reveal_strlit("SymmetricObjectProperty");
    reveal_strlit("AsymmetricObjectProperty");
    reveal_strlit("TransitiveObjectProperty");
    reveal_strlit("SubDataPropertyOf");
    reveal_strlit("EquivalentDataProperties");
    reveal_strlit("DisjointDataProperties");
    reveal_strlit("DataPropertyDomain");
    reveal_strlit("DataPropertyRange");
    reveal_strlit("FunctionalDataProperty");
    reveal_strlit("DatatypeDefinition");
    reveal_strlit("HasKey");
    reveal_strlit("SameIndividual");
    reveal_strlit("DifferentIndividuals");
    reveal_strlit("ClassAssertion");
    reveal_strlit("ObjectPropertyAssertion");
    reveal_strlit("Import");
    reveal_strlit("Annotation");
    assert("ObjectPropertyAssertion"@.len() != "Import"@.len());
    assert("ObjectPropertyAssertion"@.len() != "Annotation"@.len());
    reveal_with_fuel(letters_end, 36);
    assert("ObjectPropertyAssertion"@.len() != "Declaration"@.len());
    assert("ObjectPropertyAssertion"@ != "Declaration"@);
    assert("ObjectPropertyAssertion"@.len() != "SubClassOf"@.len());
    assert("ObjectPropertyAssertion"@ != "SubClassOf"@);
    assert("ObjectPropertyAssertion"@.len() != "EquivalentClasses"@.len());
    assert("ObjectPropertyAssertion"@ != "EquivalentClasses"@);
    assert("ObjectPropertyAssertion"@.len() != "DisjointClasses"@.len());
    assert("ObjectPropertyAssertion"@ != "DisjointClasses"@);
    assert("ObjectPropertyAssertion"@.len() != "DisjointUnion"@.len());
    assert("ObjectPropertyAssertion"@ != "DisjointUnion"@);
    assert("ObjectPropertyAssertion"@.len() != "SubObjectPropertyOf"@.len());
    assert("ObjectPropertyAssertion"@ != "SubObjectPropertyOf"@);
    assert("ObjectPropertyAssertion"@.len() != "EquivalentObjectProperties"@.len());
    assert("ObjectPropertyAssertion"@ != "EquivalentObjectProperties"@);
    assert("ObjectPropertyAssertion"@.len() != "DisjointObjectProperties"@.len());
    assert("ObjectPropertyAssertion"@ != "DisjointObjectProperties"@);
    assert("ObjectPropertyAssertion"@[0] != "InverseObjectProperties"@[0]);
    assert("ObjectPropertyAssertion"@ != "InverseObjectProperties"@);
    assert("ObjectPropertyAssertion"@.len() != "ObjectPropertyDomain"@.len());
    assert("ObjectPropertyAssertion"@ != "ObjectPropertyDomain"@);
    assert("ObjectPropertyAssertion"@.len() != "ObjectPropertyRange"@.len());
    assert("ObjectPropertyAssertion"@ != "ObjectPropertyRange"@);
    assert("ObjectPropertyAssertion"@.len() != "FunctionalObjectProperty"@.len());
    assert("ObjectPropertyAssertion"@ != "FunctionalObjectProperty"@);
    assert("ObjectPropertyAssertion"@.len() != "InverseFunctionalObjectProperty"@.len());
    assert("ObjectPropertyAssertion"@ != "InverseFunctionalObjectProperty"@);
    assert("ObjectPropertyAssertion"@[0] != "ReflexiveObjectProperty"@[0]);
    assert("ObjectPropertyAssertion"@ != "ReflexiveObjectProperty"@);
    assert("ObjectPropertyAssertion"@.len() != "IrreflexiveObjectProperty"@.len());
    assert("ObjectPropertyAssertion"@ != "IrreflexiveObjectProperty"@);
    assert("ObjectPropertyAssertion"@[0] != "SymmetricObjectProperty"@[0]);
    assert("ObjectPropertyAssertion"@ != "SymmetricObjectProperty"@);
    assert("ObjectPropertyAssertion"@.len() != "AsymmetricObjectProperty"@.len());
    assert("ObjectPropertyAssertion"@ != "AsymmetricObjectProperty"@);
    assert("ObjectPropertyAssertion"@.len() != "TransitiveObjectProperty"@.len());
    assert("ObjectPropertyAssertion"@ != "TransitiveObjectProperty"@);
    assert("ObjectPropertyAssertion"@.len() != "SubDataPropertyOf"@.len());
    assert("ObjectPropertyAssertion"@ != "SubDataPropertyOf"@);
    assert("ObjectPropertyAssertion"@.len() != "EquivalentDataProperties"@.len());
    assert("ObjectPropertyAssertion"@ != "EquivalentDataProperties"@);
    assert("ObjectPropertyAssertion"@.len() != "DisjointDataProperties"@.len());
    assert("ObjectPropertyAssertion"@ != "DisjointDataProperties"@);
    assert("ObjectPropertyAssertion"@.len() != "DataPropertyDomain"@.len());
    assert("ObjectPropertyAssertion"@ != "DataPropertyDomain"@);
    assert("ObjectPropertyAssertion"@.len() != "DataPropertyRange"@.len());
    assert("ObjectPropertyAssertion"@ != "DataPropertyRange"@);
    assert("ObjectPropertyAssertion"@.len() != "FunctionalDataProperty"@.len());
    assert("ObjectPropertyAssertion"@ != "FunctionalDataProperty"@);
    assert("ObjectPropertyAssertion"@.len() != "DatatypeDefinition"@.len());
    assert("ObjectPropertyAssertion"@ != "DatatypeDefinition"@);
    assert("ObjectPropertyAssertion"@.len() != "HasKey"@.len());
    assert("ObjectPropertyAssertion"@ != "HasKey"@);
    assert("ObjectPropertyAssertion"@.len() != "SameIndividual"@.len());
    assert("ObjectPropertyAssertion"@ != "SameIndividual"@);
    assert("ObjectPropertyAssertion"@.len() != "DifferentIndividuals"@.len());
    assert("ObjectPropertyAssertion"@ != "DifferentIndividuals"@);
    assert("ObjectPropertyAssertion"@.len() != "ClassAssertion"@.len());
    assert("ObjectPropertyAssertion"@ != "ClassAssertion"@);
}

/// The axiom kind `NegativeObjectPropertyAssertion`: its keyword and what its parts are read as.
#[verifier::spinoff_prover]
pub proof fn lemma_axiom_branch_negative_object_property_assertion(s: Seq<char>, u: int, px: Px)
    ensures
        keyword("NegativeObjectPropertyAssertion"@),
        "NegativeObjectPropertyAssertion"@ != "Import"@,
        "NegativeObjectPropertyAssertion"@ != "Annotation"@,
        axiom_parts("NegativeObjectPropertyAssertion"@, s, u, px) == lift_read(then(s, then(s, r_ope(s, u, px), |t: int| r_individual(s, t, px)), |t: int| r_individual(s, t, px)), |x: ((SpecObjectPropertyExpression, SpecIndividual), SpecIndividual)| SpecAxiom::NegativeObjectPropertyAssertion { ope: x.0.0, from: x.0.1, to: x.1 }),
{
    reveal_strlit("Declaration");
    reveal_strlit("SubClassOf");
    reveal_strlit("EquivalentClasses");
    reveal_strlit("DisjointClasses");
    reveal_strlit("DisjointUnion");
    reveal_strlit("SubObjectPropertyOf");
    reveal_strlit("EquivalentObjectProperties");
    reveal_strlit("DisjointObjectProperties");
    reveal_strlit("InverseObjectProperties");
    reveal_strlit("ObjectPropertyDomain");
    reveal_strlit("ObjectPropertyRange");
    reveal_strlit("FunctionalObjectProperty");
    reveal_strlit("InverseFunctionalObjectProperty");
    reveal_strlit("ReflexiveObjectProperty");
    reveal_strlit("IrreflexiveObjectProperty");
    reveal_strlit("SymmetricObjectProperty");
    reveal_strlit("AsymmetricObjectProperty");
    reveal_strlit("TransitiveObjectProperty");
    reveal_strlit("SubDataPropertyOf");
    reveal_strlit("EquivalentDataProperties");
    reveal_strlit("DisjointDataProperties");
    reveal_strlit("DataPropertyDomain");
    reveal_strlit("DataPropertyRange");
    reveal_strlit("FunctionalDataProperty");
    reveal_strlit("DatatypeDefinition");
    reveal_strlit("HasKey");
    reveal_strlit("SameIndividual");
    reveal_strlit("DifferentIndividuals");
    reveal_strlit("ClassAssertion");
    reveal_strlit("ObjectPropertyAssertion");
    reveal_strlit("NegativeObjectPropertyAssertion");
    reveal_strlit("Import");
    reveal_strlit("Annotation");
    assert("NegativeObjectPropertyAssertion"@.len() != "Import"@.len());
    assert("NegativeObjectPropertyAssertion"@.len() != "Annotation"@.len());
    reveal_with_fuel(letters_end, 36);
    assert("NegativeObjectPropertyAssertion"@.len() != "Declaration"@.len());
    assert("NegativeObjectPropertyAssertion"@ != "Declaration"@);
    assert("NegativeObjectPropertyAssertion"@.len() != "SubClassOf"@.len());
    assert("NegativeObjectPropertyAssertion"@ != "SubClassOf"@);
    assert("NegativeObjectPropertyAssertion"@.len() != "EquivalentClasses"@.len());
    assert("NegativeObjectPropertyAssertion"@ != "EquivalentClasses"@);
    assert("NegativeObjectPropertyAssertion"@.len() != "DisjointClasses"@.len());
    assert("NegativeObjectPropertyAssertion"@ != "DisjointClasses"@);
    assert("NegativeObjectPropertyAssertion"@.len() != "DisjointUnion"@.len());
    assert("NegativeObjectPropertyAssertion"@ != "DisjointUnion"@);
    assert("NegativeObjectPropertyAssertion"@.len() != "SubObjectPropertyOf"@.len());
    assert("NegativeObjectPropertyAssertion"@ != "SubObjectPropertyOf"@);
    assert("NegativeObjectPropertyAssertion"@.len() != "EquivalentObjectProperties"@.len());
    assert("NegativeObjectPropertyAssertion"@ != "EquivalentObjectProperties"@);
    assert("NegativeObjectPropertyAssertion"@.len() != "DisjointObjectProperties"@.len());
    assert("NegativeObjectPropertyAssertion"@ != "DisjointObjectProperties"@);
    assert("NegativeObjectPropertyAssertion"@.len() != "InverseObjectProperties"@.len());
    assert("NegativeObjectPropertyAssertion"@ != "InverseObjectProperties"@);
    assert("NegativeObjectPropertyAssertion"@.len() != "ObjectPropertyDomain"@.len());
    assert("NegativeObjectPropertyAssertion"@ != "ObjectPropertyDomain"@);
    assert("NegativeObjectPropertyAssertion"@.len() != "ObjectPropertyRange"@.len());
    assert("NegativeObjectPropertyAssertion"@ != "ObjectPropertyRange"@);
    assert("NegativeObjectPropertyAssertion"@.len() != "FunctionalObjectProperty"@.len());
    assert("NegativeObjectPropertyAssertion"@ != "FunctionalObjectProperty"@);
    assert("NegativeObjectPropertyAssertion"@[0] != "InverseFunctionalObjectProperty"@[0]);
    assert("NegativeObjectPropertyAssertion"@ != "InverseFunctionalObjectProperty"@);
    assert("NegativeObjectPropertyAssertion"@.len() != "ReflexiveObjectProperty"@.len());
    assert("NegativeObjectPropertyAssertion"@ != "ReflexiveObjectProperty"@);
    assert("NegativeObjectPropertyAssertion"@.len() != "IrreflexiveObjectProperty"@.len());
    assert("NegativeObjectPropertyAssertion"@ != "IrreflexiveObjectProperty"@);
    assert("NegativeObjectPropertyAssertion"@.len() != "SymmetricObjectProperty"@.len());
    assert("NegativeObjectPropertyAssertion"@ != "SymmetricObjectProperty"@);
    assert("NegativeObjectPropertyAssertion"@.len() != "AsymmetricObjectProperty"@.len());
    assert("NegativeObjectPropertyAssertion"@ != "AsymmetricObjectProperty"@);
    assert("NegativeObjectPropertyAssertion"@.len() != "TransitiveObjectProperty"@.len());
    assert("NegativeObjectPropertyAssertion"@ != "TransitiveObjectProperty"@);
    assert("NegativeObjectPropertyAssertion"@.len() != "SubDataPropertyOf"@.len());
    assert("NegativeObjectPropertyAssertion"@ != "SubDataPropertyOf"@);
    assert("NegativeObjectPropertyAssertion"@.len() != "EquivalentDataProperties"@.len());
    assert("NegativeObjectPropertyAssertion"@ != "EquivalentDataProperties"@);
    assert("NegativeObjectPropertyAssertion"@.len() != "DisjointDataProperties"@.len());
    assert("NegativeObjectPropertyAssertion"@ != "DisjointDataProperties"@);
    assert("NegativeObjectPropertyAssertion"@.len() != "DataPropertyDomain"@.len());
    assert("NegativeObjectPropertyAssertion"@ != "DataPropertyDomain"@);
    assert("NegativeObjectPropertyAssertion"@.len() != "DataPropertyRange"@.len());
    assert("NegativeObjectPropertyAssertion"@ != "DataPropertyRange"@);
    assert("NegativeObjectPropertyAssertion"@.len() != "FunctionalDataProperty"@.len());
    assert("NegativeObjectPropertyAssertion"@ != "FunctionalDataProperty"@);
    assert("NegativeObjectPropertyAssertion"@.len() != "DatatypeDefinition"@.len());
    assert("NegativeObjectPropertyAssertion"@ != "DatatypeDefinition"@);
    assert("NegativeObjectPropertyAssertion"@.len() != "HasKey"@.len());
    assert("NegativeObjectPropertyAssertion"@ != "HasKey"@);
    assert("NegativeObjectPropertyAssertion"@.len() != "SameIndividual"@.len());
    assert("NegativeObjectPropertyAssertion"@ != "SameIndividual"@);
    assert("NegativeObjectPropertyAssertion"@.len() != "DifferentIndividuals"@.len());
    assert("NegativeObjectPropertyAssertion"@ != "DifferentIndividuals"@);
    assert("NegativeObjectPropertyAssertion"@.len() != "ClassAssertion"@.len());
    assert("NegativeObjectPropertyAssertion"@ != "ClassAssertion"@);
    assert("NegativeObjectPropertyAssertion"@.len() != "ObjectPropertyAssertion"@.len());
    assert("NegativeObjectPropertyAssertion"@ != "ObjectPropertyAssertion"@);
}

/// The axiom kind `DataPropertyAssertion`: its keyword and what its parts are read as.
#[verifier::spinoff_prover]
pub proof fn lemma_axiom_branch_data_property_assertion(s: Seq<char>, u: int, px: Px)
    ensures
        keyword("DataPropertyAssertion"@),
        "DataPropertyAssertion"@ != "Import"@,
        "DataPropertyAssertion"@ != "Annotation"@,
        axiom_parts("DataPropertyAssertion"@, s, u, px) == lift_read(then(s, then(s, r_iri(s, u, px), |t: int| r_individual(s, t, px)), |t: int| r_literal(s, t, px)), |x: ((Seq<char>, SpecIndividual), SpecLiteral)| SpecAxiom::DataPropertyAssertion { dp: x.0.0, from: x.0.1, to: x.1 }),
{
    reveal_strlit("Declaration");
    reveal_strlit("SubClassOf");
    reveal_strlit("EquivalentClasses");
    reveal_strlit("DisjointClasses");
    reveal_strlit("DisjointUnion");
    reveal_strlit("SubObjectPropertyOf");
    reveal_strlit("EquivalentObjectProperties");
    reveal_strlit("DisjointObjectProperties");
    reveal_strlit("InverseObjectProperties");
    reveal_strlit("ObjectPropertyDomain");
    reveal_strlit("ObjectPropertyRange");
    reveal_strlit("FunctionalObjectProperty");
    reveal_strlit("InverseFunctionalObjectProperty");
    reveal_strlit("ReflexiveObjectProperty");
    reveal_strlit("IrreflexiveObjectProperty");
    reveal_strlit("SymmetricObjectProperty");
    reveal_strlit("AsymmetricObjectProperty");
    reveal_strlit("TransitiveObjectProperty");
    reveal_strlit("SubDataPropertyOf");
    reveal_strlit("EquivalentDataProperties");
    reveal_strlit("DisjointDataProperties");
    reveal_strlit("DataPropertyDomain");
    reveal_strlit("DataPropertyRange");
    reveal_strlit("FunctionalDataProperty");
    reveal_strlit("DatatypeDefinition");
    reveal_strlit("HasKey");
    reveal_strlit("SameIndividual");
    reveal_strlit("DifferentIndividuals");
    reveal_strlit("ClassAssertion");
    reveal_strlit("ObjectPropertyAssertion");
    reveal_strlit("NegativeObjectPropertyAssertion");
    reveal_strlit("DataPropertyAssertion");
    reveal_strlit("Import");
    reveal_strlit("Annotation");
    assert("DataPropertyAssertion"@.len() != "Import"@.len());
    assert("DataPropertyAssertion"@.len() != "Annotation"@.len());
    reveal_with_fuel(letters_end, 36);
    assert("DataPropertyAssertion"@.len() != "Declaration"@.len());
    assert("DataPropertyAssertion"@ != "Declaration"@);
    assert("DataPropertyAssertion"@.len() != "SubClassOf"@.len());
    assert("DataPropertyAssertion"@ != "SubClassOf"@);
    assert("DataPropertyAssertion"@.len() != "EquivalentClasses"@.len());
    assert("DataPropertyAssertion"@ != "EquivalentClasses"@);
    assert("DataPropertyAssertion"@.len() != "DisjointClasses"@.len());
    assert("DataPropertyAssertion"@ != "DisjointClasses"@);
    assert("DataPropertyAssertion"@.len() != "DisjointUnion"@.len());
    assert("DataPropertyAssertion"@ != "DisjointUnion"@);
    assert("DataPropertyAssertion"@.len() != "SubObjectPropertyOf"@.len());
    assert("DataPropertyAssertion"@ != "SubObjectPropertyOf"@);
    assert("DataPropertyAssertion"@.len() != "EquivalentObjectProperties"@.len());
    assert("DataPropertyAssertion"@ != "EquivalentObjectProperties"@);
    assert("DataPropertyAssertion"@.len() != "DisjointObjectProperties"@.len());
    assert("DataPropertyAssertion"@ != "DisjointObjectProperties"@);
    assert("DataPropertyAssertion"@.len() != "InverseObjectProperties"@.len());
    assert("DataPropertyAssertion"@ != "InverseObjectProperties"@);
    assert("DataPropertyAssertion"@.len() != "ObjectPropertyDomain"@.len());
    assert("DataPropertyAssertion"@ != "ObjectPropertyDomain"@);
    assert("DataPropertyAssertion"@.len() != "ObjectPropertyRange"@.len());
    assert("DataPropertyAssertion"@ != "ObjectPropertyRange"@);
    assert("DataPropertyAssertion"@.len() != "FunctionalObjectProperty"@.len());
    assert("DataPropertyAssertion"@ != "FunctionalObjectProperty"@);
    assert("DataPropertyAssertion"@.len() != "InverseFunctionalObjectProperty"@.len());
    assert("DataPropertyAssertion"@ != "InverseFunctionalObjectProperty"@);
    assert("DataPropertyAssertion"@.len() != "ReflexiveObjectProperty"@.len());
    assert("DataPropertyAssertion"@ != "ReflexiveObjectProperty"@);
    assert("DataPropertyAssertion"@.len() != "IrreflexiveObjectProperty"@.len());
    assert("DataPropertyAssertion"@ != "IrreflexiveObjectProperty"@);
    assert("DataPropertyAssertion"@.len() != "SymmetricObjectProperty"@.len());
    assert("DataPropertyAssertion"@ != "SymmetricObjectProperty"@);
    assert("DataPropertyAssertion"@.len() != "AsymmetricObjectProperty"@.len());
    assert("DataPropertyAssertion"@ != "AsymmetricObjectProperty"@);
    assert("DataPropertyAssertion"@.len() != "TransitiveObjectProperty"@.len());
    assert("DataPropertyAssertion"@ != "TransitiveObjectProperty"@);
    assert("DataPropertyAssertion"@.len() != "SubDataPropertyOf"@.len());
    assert("DataPropertyAssertion"@ != "SubDataPropertyOf"@);
    assert("DataPropertyAssertion"@.len() != "EquivalentDataProperties"@.len());
    assert("DataPropertyAssertion"@ != "EquivalentDataProperties"@);
    assert("DataPropertyAssertion"@.len() != "DisjointDataProperties"@.len());
    assert("DataPropertyAssertion"@ != "DisjointDataProperties"@);
    assert("DataPropertyAssertion"@.len() != "DataPropertyDomain"@.len());
    assert("DataPropertyAssertion"@ != "DataPropertyDomain"@);
    assert("DataPropertyAssertion"@.len() != "DataPropertyRange"@.len());
    assert("DataPropertyAssertion"@ != "DataPropertyRange"@);
    assert("DataPropertyAssertion"@.len() != "FunctionalDataProperty"@.len());
    assert("DataPropertyAssertion"@ != "FunctionalDataProperty"@);
    assert("DataPropertyAssertion"@.len() != "DatatypeDefinition"@.len());
    assert("DataPropertyAssertion"@ != "DatatypeDefinition"@);
    assert("DataPropertyAssertion"@.len() != "HasKey"@.len());
    assert("DataPropertyAssertion"@ != "HasKey"@);
    assert("DataPropertyAssertion"@.len() != "SameIndividual"@.len());
    assert("DataPropertyAssertion"@ != "SameIndividual"@);
    assert("DataPropertyAssertion"@.len() != "DifferentIndividuals"@.len());
    assert("DataPropertyAssertion"@ != "DifferentIndividuals"@);
    assert("DataPropertyAssertion"@.len() != "ClassAssertion"@.len());
    assert("DataPropertyAssertion"@ != "ClassAssertion"@);
    assert("DataPropertyAssertion"@.len() != "ObjectPropertyAssertion"@.len());
    assert("DataPropertyAssertion"@ != "ObjectPropertyAssertion"@);
    assert("DataPropertyAssertion"@.len() != "NegativeObjectPropertyAssertion"@.len());
    assert("DataPropertyAssertion"@ != "NegativeObjectPropertyAssertion"@);
}

/// The axiom kind `NegativeDataPropertyAssertion`: its keyword and what its parts are read as.
#[verifier::spinoff_prover]
pub proof fn lemma_axiom_branch_negative_data_property_assertion(s: Seq<char>, u: int, px: Px)
    ensures
        keyword("NegativeDataPropertyAssertion"@),
        "NegativeDataPropertyAssertion"@ != "Import"@,
        "NegativeDataPropertyAssertion"@ != "Annotation"@,
        axiom_parts("NegativeDataPropertyAssertion"@, s, u, px) == lift_read(then(s, then(s, r_iri(s, u, px), |t: int| r_individual(s, t, px)), |t: int| r_literal(s, t, px)), |x: ((Seq<char>, SpecIndividual), SpecLiteral)| SpecAxiom::NegativeDataPropertyAssertion { dp: x.0.0, from: x.0.1, to: x.1 }),
{
    reveal_strlit("Declaration");
    reveal_strlit("SubClassOf");
    reveal_strlit("EquivalentClasses");
    reveal_strlit("DisjointClasses");
    reveal_strlit("DisjointUnion");
    reveal_strlit("SubObjectPropertyOf");
    reveal_strlit("EquivalentObjectProperties");
    reveal_strlit("DisjointObjectProperties");
    reveal_strlit("InverseObjectProperties");
    reveal_strlit("ObjectPropertyDomain");
    reveal_strlit("ObjectPropertyRange");
    reveal_strlit("FunctionalObjectProperty");
    reveal_strlit("InverseFunctionalObjectProperty");
    reveal_strlit("ReflexiveObjectProperty");
    reveal_strlit("IrreflexiveObjectProperty");
    reveal_strlit("SymmetricObjectProperty");
    reveal_strlit("AsymmetricObjectProperty");
    reveal_strlit("TransitiveObjectProperty");
    reveal_strlit("SubDataPropertyOf");
    reveal_strlit("EquivalentDataProperties");
    reveal_strlit("DisjointDataProperties");
    reveal_strlit("DataPropertyDomain");
    reveal_strlit("DataPropertyRange");
    reveal_strlit("FunctionalDataProperty");
    reveal_strlit("DatatypeDefinition");
    reveal_strlit("HasKey");
    reveal_strlit("SameIndividual");
    reveal_strlit("DifferentIndividuals");
    reveal_strlit("ClassAssertion");
    reveal_strlit("ObjectPropertyAssertion");
    reveal_strlit("NegativeObjectPropertyAssertion");
    reveal_strlit("DataPropertyAssertion");
    reveal_strlit("NegativeDataPropertyAssertion");
    reveal_strlit("Import");
    reveal_strlit("Annotation");
    assert("NegativeDataPropertyAssertion"@.len() != "Import"@.len());
    assert("NegativeDataPropertyAssertion"@.len() != "Annotation"@.len());
    reveal_with_fuel(letters_end, 36);
    assert("NegativeDataPropertyAssertion"@.len() != "Declaration"@.len());
    assert("NegativeDataPropertyAssertion"@ != "Declaration"@);
    assert("NegativeDataPropertyAssertion"@.len() != "SubClassOf"@.len());
    assert("NegativeDataPropertyAssertion"@ != "SubClassOf"@);
    assert("NegativeDataPropertyAssertion"@.len() != "EquivalentClasses"@.len());
    assert("NegativeDataPropertyAssertion"@ != "EquivalentClasses"@);
    assert("NegativeDataPropertyAssertion"@.len() != "DisjointClasses"@.len());
    assert("NegativeDataPropertyAssertion"@ != "DisjointClasses"@);
    assert("NegativeDataPropertyAssertion"@.len() != "DisjointUnion"@.len());
    assert("NegativeDataPropertyAssertion"@ != "DisjointUnion"@);
    assert("NegativeDataPropertyAssertion"@.len() != "SubObjectPropertyOf"@.len());
    assert("NegativeDataPropertyAssertion"@ != "SubObjectPropertyOf"@);
    assert("NegativeDataPropertyAssertion"@.len() != "EquivalentObjectProperties"@.len());
    assert("NegativeDataPropertyAssertion"@ != "EquivalentObjectProperties"@);
    assert("NegativeDataPropertyAssertion"@.len() != "DisjointObjectProperties"@.len());
    assert("NegativeDataPropertyAssertion"@ != "DisjointObjectProperties"@);
    assert("NegativeDataPropertyAssertion"@.len() != "InverseObjectProperties"@.len());
    assert("NegativeDataPropertyAssertion"@ != "InverseObjectProperties"@);
    assert("NegativeDataPropertyAssertion"@.len() != "ObjectPropertyDomain"@.len());
    assert("NegativeDataPropertyAssertion"@ != "ObjectPropertyDomain"@);
    assert("NegativeDataPropertyAssertion"@.len() != "ObjectPropertyRange"@.len());
    assert("NegativeDataPropertyAssertion"@ != "ObjectPropertyRange"@);
    assert("NegativeDataPropertyAssertion"@.len() != "FunctionalObjectProperty"@.len());
    assert("NegativeDataPropertyAssertion"@ != "FunctionalObjectProperty"@);
    assert("NegativeDataPropertyAssertion"@.len() != "InverseFunctionalObjectProperty"@.len());
    assert("NegativeDataPropertyAssertion"@ != "InverseFunctionalObjectProperty"@);
    assert("NegativeDataPropertyAssertion"@.len() != "ReflexiveObjectProperty"@.len());
    assert("NegativeDataPropertyAssertion"@ != "ReflexiveObjectProperty"@);
    assert("NegativeDataPropertyAssertion"@.len() != "IrreflexiveObjectProperty"@.len());
    assert("NegativeDataPropertyAssertion"@ != "IrreflexiveObjectProperty"@);
    assert("NegativeDataPropertyAssertion"@.len() != "SymmetricObjectProperty"@.len());
    assert("NegativeDataPropertyAssertion"@ != "SymmetricObjectProperty"@);
    assert("NegativeDataPropertyAssertion"@.len() != "AsymmetricObjectProperty"@.len());
    assert("NegativeDataPropertyAssertion"@ != "AsymmetricObjectProperty"@);
    assert("NegativeDataPropertyAssertion"@.len() != "TransitiveObjectProperty"@.len());
    assert("NegativeDataPropertyAssertion"@ != "TransitiveObjectProperty"@);
    assert("NegativeDataPropertyAssertion"@.len() != "SubDataPropertyOf"@.len());
    assert("NegativeDataPropertyAssertion"@ != "SubDataPropertyOf"@);
    assert("NegativeDataPropertyAssertion"@.len() != "EquivalentDataProperties"@.len());
    assert("NegativeDataPropertyAssertion"@ != "EquivalentDataProperties"@);
    assert("NegativeDataPropertyAssertion"@.len() != "DisjointDataProperties"@.len());
    assert("NegativeDataPropertyAssertion"@ != "DisjointDataProperties"@);
    assert("NegativeDataPropertyAssertion"@.len() != "DataPropertyDomain"@.len());
    assert("NegativeDataPropertyAssertion"@ != "DataPropertyDomain"@);
    assert("NegativeDataPropertyAssertion"@.len() != "DataPropertyRange"@.len());
    assert("NegativeDataPropertyAssertion"@ != "DataPropertyRange"@);
    assert("NegativeDataPropertyAssertion"@.len() != "FunctionalDataProperty"@.len());
    assert("NegativeDataPropertyAssertion"@ != "FunctionalDataProperty"@);
    assert("NegativeDataPropertyAssertion"@.len() != "DatatypeDefinition"@.len());
    assert("NegativeDataPropertyAssertion"@ != "DatatypeDefinition"@);
    assert("NegativeDataPropertyAssertion"@.len() != "HasKey"@.len());
    assert("NegativeDataPropertyAssertion"@ != "HasKey"@);
    assert("NegativeDataPropertyAssertion"@.len() != "SameIndividual"@.len());
    assert("NegativeDataPropertyAssertion"@ != "SameIndividual"@);
    assert("NegativeDataPropertyAssertion"@.len() != "DifferentIndividuals"@.len());
    assert("NegativeDataPropertyAssertion"@ != "DifferentIndividuals"@);
    assert("NegativeDataPropertyAssertion"@.len() != "ClassAssertion"@.len());
    assert("NegativeDataPropertyAssertion"@ != "ClassAssertion"@);
    assert("NegativeDataPropertyAssertion"@.len() != "ObjectPropertyAssertion"@.len());
    assert("NegativeDataPropertyAssertion"@ != "ObjectPropertyAssertion"@);
    assert("NegativeDataPropertyAssertion"@.len() != "NegativeObjectPropertyAssertion"@.len());
    assert("NegativeDataPropertyAssertion"@ != "NegativeObjectPropertyAssertion"@);
    assert("NegativeDataPropertyAssertion"@.len() != "DataPropertyAssertion"@.len());
    assert("NegativeDataPropertyAssertion"@ != "DataPropertyAssertion"@);
}

/// The axiom kind `AnnotationAssertion`: its keyword and what its parts are read as.
#[verifier::spinoff_prover]
pub proof fn lemma_axiom_branch_annotation_assertion(s: Seq<char>, u: int, px: Px)
    ensures
        keyword("AnnotationAssertion"@),
        "AnnotationAssertion"@ != "Import"@,
        "AnnotationAssertion"@ != "Annotation"@,
        axiom_parts("AnnotationAssertion"@, s, u, px) == lift_read(then(s, then(s, r_iri(s, u, px), |t: int| r_annotation_subject(s, t, px)), |t: int| r_annotation_value(s, t, px)), |x: ((Seq<char>, SpecAnnotationSubject), SpecAnnotationValue)| SpecAxiom::AnnotationAssertion { subject: x.0.1, ann: SpecAnnotation { ap: x.0.0, av: x.1 } }),
{
    reveal_strlit("Declaration");
    reveal_strlit("SubClassOf");
    reveal_strlit("EquivalentClasses");
    reveal_strlit("DisjointClasses");
    reveal_strlit("DisjointUnion");
    reveal_strlit("SubObjectPropertyOf");
    reveal_strlit("EquivalentObjectProperties");
    reveal_strlit("DisjointObjectProperties");
    reveal_strlit("InverseObjectProperties");
    reveal_strlit("ObjectPropertyDomain");
    reveal_strlit("ObjectPropertyRange");
    reveal_strlit("FunctionalObjectProperty");
    reveal_strlit("InverseFunctionalObjectProperty");
    reveal_strlit("ReflexiveObjectProperty");
    reveal_strlit("IrreflexiveObjectProperty");
    reveal_strlit("SymmetricObjectProperty");
    reveal_strlit("AsymmetricObjectProperty");
    reveal_strlit("TransitiveObjectProperty");
    reveal_strlit("SubDataPropertyOf");
    reveal_strlit("EquivalentDataProperties");
    reveal_strlit("DisjointDataProperties");
    reveal_strlit("DataPropertyDomain");
    reveal_strlit("DataPropertyRange");
    reveal_strlit("FunctionalDataProperty");
    reveal_strlit("DatatypeDefinition");
    reveal_strlit("HasKey");
    reveal_strlit("SameIndividual");
    reveal_strlit("DifferentIndividuals");
    reveal_strlit("ClassAssertion");
    reveal_strlit("ObjectPropertyAssertion");
    reveal_strlit("NegativeObjectPropertyAssertion");
    reveal_strlit("DataPropertyAssertion");
    reveal_strlit("NegativeDataPropertyAssertion");
    reveal_strlit("AnnotationAssertion");
    reveal_strlit("Import");
    reveal_strlit("Annotation");
    assert("AnnotationAssertion"@.len() != "Import"@.len());
    assert("AnnotationAssertion"@.len() != "Annotation"@.len());
    reveal_with_fuel(letters_end, 36);
    assert("AnnotationAssertion"@.len() != "Declaration"@.len());
    assert("AnnotationAssertion"@ != "Declaration"@);
    assert("AnnotationAssertion"@.len() != "SubClassOf"@.len());
    assert("AnnotationAssertion"@ != "SubClassOf"@);
    assert("AnnotationAssertion"@.len() != "EquivalentClasses"@.len());
    assert("AnnotationAssertion"@ != "EquivalentClasses"@);
    assert("AnnotationAssertion"@.len() != "DisjointClasses"@.len());
    assert("AnnotationAssertion"@ != "DisjointClasses"@);
    assert("AnnotationAssertion"@.len() != "DisjointUnion"@.len());
    assert("AnnotationAssertion"@ != "DisjointUnion"@);
    assert("AnnotationAssertion"@[0] != "SubObjectPropertyOf"@[0]);
    assert("AnnotationAssertion"@ != "SubObjectPropertyOf"@);
    assert("AnnotationAssertion"@.len() != "EquivalentObjectProperties"@.len());
    assert("AnnotationAssertion"@ != "EquivalentObjectProperties"@);
    assert("AnnotationAssertion"@.len() != "DisjointObjectProperties"@.len());
    assert("AnnotationAssertion"@ != "DisjointObjectProperties"@);
    assert("AnnotationAssertion"@.len() != "InverseObjectProperties"@.len());
    assert("AnnotationAssertion"@ != "InverseObjectProperties"@);
    assert("AnnotationAssertion"@.len() != "ObjectPropertyDomain"@.len());
    assert("AnnotationAssertion"@ != "ObjectPropertyDomain"@);
    assert("AnnotationAssertion"@[0] != "ObjectPropertyRange"@[0]);
    assert("AnnotationAssertion"@ != "ObjectPropertyRange"@);
    assert("AnnotationAssertion"@.len() != "FunctionalObjectProperty"@.len());
    assert("AnnotationAssertion"@ != "FunctionalObjectProperty"@);
    assert("AnnotationAssertion"@.len() != "InverseFunctionalObjectProperty"@.len());
    assert("AnnotationAssertion"@ != "InverseFunctionalObjectProperty"@);
    assert("AnnotationAssertion"@.len() != "ReflexiveObjectProperty"@.len());
    assert("AnnotationAssertion"@ != "ReflexiveObjectProperty"@);
    assert("AnnotationAssertion"@.len() != "IrreflexiveObjectProperty"@.len());
    assert("AnnotationAssertion"@ != "IrreflexiveObjectProperty"@);
    assert("AnnotationAssertion"@.len() != "SymmetricObjectProperty"@.len());
    assert("AnnotationAssertion"@ != "SymmetricObjectProperty"@);
    assert("AnnotationAssertion"@.len() != "AsymmetricObjectProperty"@.len());
    assert("AnnotationAssertion"@ != "AsymmetricObjectProperty"@);
    assert("AnnotationAssertion"@.len() != "TransitiveObjectProperty"@.len());
    assert("AnnotationAssertion"@ != "TransitiveObjectProperty"@);
    assert("AnnotationAssertion"@.len() != "SubDataPropertyOf"@.len());
    assert("AnnotationAssertion"@ != "SubDataPropertyOf"@);
    assert("AnnotationAssertion"@.len() != "EquivalentDataProperties"@.len());
    assert("AnnotationAssertion"@ != "EquivalentDataProperties"@);
    assert("AnnotationAssertion"@.len() != "DisjointDataProperties"@.len());
    assert("AnnotationAssertion"@ != "DisjointDataProperties"@);
    assert("AnnotationAssertion"@.len() != "DataPropertyDomain"@.len());
    assert("AnnotationAssertion"@ != "DataPropertyDomain"@);
    assert("AnnotationAssertion"@.len() != "DataPropertyRange"@.len());
    assert("AnnotationAssertion"@ != "DataPropertyRange"@);
    assert("AnnotationAssertion"@.len() != "FunctionalDataProperty"@.len());
    assert("AnnotationAssertion"@ != "FunctionalDataProperty"@);
    assert("AnnotationAssertion"@.len() != "DatatypeDefinition"@.len());
    assert("AnnotationAssertion"@ != "DatatypeDefinition"@);
    assert("AnnotationAssertion"@.len() != "HasKey"@.len());
    assert("AnnotationAssertion"@ != "HasKey"@);
    assert("AnnotationAssertion"@.len() != "SameIndividual"@.len());
    assert("AnnotationAssertion"@ != "SameIndividual"@);
    assert("AnnotationAssertion"@.len() != "DifferentIndividuals"@.len());
    assert("AnnotationAssertion"@ != "DifferentIndividuals"@);
    assert("AnnotationAssertion"@.len() != "ClassAssertion"@.len());
    assert("AnnotationAssertion"@ != "ClassAssertion"@);
    assert("AnnotationAssertion"@.len() != "ObjectPropertyAssertion"@.len());
    assert("AnnotationAssertion"@ != "ObjectPropertyAssertion"@);
    assert("AnnotationAssertion"@.len() != "NegativeObjectPropertyAssertion"@.len());
    assert("AnnotationAssertion"@ != "NegativeObjectPropertyAssertion"@);
    assert("AnnotationAssertion"@.len() != "DataPropertyAssertion"@.len());
    assert("AnnotationAssertion"@ != "DataPropertyAssertion"@);
    assert("AnnotationAssertion"@.len() != "NegativeDataPropertyAssertion"@.len());
    assert("AnnotationAssertion"@ != "NegativeDataPropertyAssertion"@);
}

/// The axiom kind `SubAnnotationPropertyOf`: its keyword and what its parts are read as.
#[verifier::spinoff_prover]
pub proof fn lemma_axiom_branch_sub_annotation_property_of(s: Seq<char>, u: int, px: Px)
    ensures
        keyword("SubAnnotationPropertyOf"@),
        "SubAnnotationPropertyOf"@ != "Import"@,
        "SubAnnotationPropertyOf"@ != "Annotation"@,
        axiom_parts("SubAnnotationPropertyOf"@, s, u, px) == lift_read(then(s, r_iri(s, u, px), |t: int| r_iri(s, t, px)), |x: (Seq<char>, Seq<char>)| SpecAxiom::SubAnnotationPropertyOf { sub: x.0, sup: x.1 }),
{
    reveal_strlit("Declaration");
    reveal_strlit("SubClassOf");
    reveal_strlit("EquivalentClasses");
    reveal_strlit("DisjointClasses");
    reveal_strlit("DisjointUnion");
    reveal_strlit("SubObjectPropertyOf");
    reveal_strlit("EquivalentObjectProperties");
    reveal_strlit("DisjointObjectProperties");
    reveal_strlit("InverseObjectProperties");
    reveal_strlit("ObjectPropertyDomain");
    reveal_strlit("ObjectPropertyRange");
    reveal_strlit("FunctionalObjectProperty");
    reveal_strlit("InverseFunctionalObjectProperty");
    reveal_strlit("ReflexiveObjectProperty");
    reveal_strlit("IrreflexiveObjectProperty");
    reveal_strlit("SymmetricObjectProperty");
    reveal_strlit("AsymmetricObjectProperty");
    reveal_strlit("TransitiveObjectProperty");
    reveal_strlit("SubDataPropertyOf");
    reveal_strlit("EquivalentDataProperties");
    reveal_strlit("DisjointDataProperties");
    reveal_strlit("DataPropertyDomain");
    reveal_strlit("DataPropertyRange");
    reveal_strlit("FunctionalDataProperty");
    reveal_strlit("DatatypeDefinition");
    reveal_strlit("HasKey");
    reveal_strlit("SameIndividual");
    reveal_strlit("DifferentIndividuals");
    reveal_strlit("ClassAssertion");
    reveal_strlit("ObjectPropertyAssertion");
    reveal_strlit("NegativeObjectPropertyAssertion");
    reveal_strlit("DataPropertyAssertion");
    reveal_strlit("NegativeDataPropertyAssertion");
    reveal_strlit("AnnotationAssertion");
    reveal_strlit("SubAnnotationPropertyOf");
    reveal_strlit("Import");
    reveal_strlit("Annotation");
    assert("SubAnnotationPropertyOf"@.len() != "Import"@.len());
    assert("SubAnnotationPropertyOf"@.len() != "Annotation"@.len());
    reveal_with_fuel(letters_end, 36);
    assert("SubAnnotationPropertyOf"@.len() != "Declaration"@.len());
    assert("SubAnnotationPropertyOf"@ != "Declaration"@);
    assert("SubAnnotationPropertyOf"@.len() != "SubClassOf"@.len());
    assert("SubAnnotationPropertyOf"@ != "SubClassOf"@);
    assert("SubAnnotationPropertyOf"@.len() != "EquivalentClasses"@.len());
    assert("SubAnnotationPropertyOf"@ != "EquivalentClasses"@);
    assert("SubAnnotationPropertyOf"@.len() != "DisjointClasses"@.len());
    assert("SubAnnotationPropertyOf"@ != "DisjointClasses"@);
    assert("SubAnnotationPropertyOf"@.len() != "DisjointUnion"@.len());
    assert("SubAnnotationPropertyOf"@ != "DisjointUnion"@);
    assert("SubAnnotationPropertyOf"@.len() != "SubObjectPropertyOf"@.len());
    assert("SubAnnotationPropertyOf"@ != "SubObjectPropertyOf"@);
    assert("SubAnnotationPropertyOf"@.len() != "EquivalentObjectProperties"@.len());
    assert("SubAnnotationPropertyOf"@ != "EquivalentObjectProperties"@);
    assert("SubAnnotationPropertyOf"@.len() != "DisjointObjectProperties"@.len());
    assert("SubAnnotationPropertyOf"@ != "DisjointObjectProperties"@);
    assert("SubAnnotationPropertyOf"@[0] != "InverseObjectProperties"@[0]);
    assert("SubAnnotationPropertyOf"@ != "InverseObjectProperties"@);
    assert("SubAnnotationPropertyOf"@.len() != "ObjectPropertyDomain"@.len());
    assert("SubAnnotationPropertyOf"@ != "ObjectPropertyDomain"@);
    assert("SubAnnotationPropertyOf"@.len() != "ObjectPropertyRange"@.len());
    assert("SubAnnotationPropertyOf"@ != "ObjectPropertyRange"@);
    assert("SubAnnotationPropertyOf"@.len() != "FunctionalObjectProperty"@.len());
    assert("SubAnnotationPropertyOf"@ != "FunctionalObjectProperty"@);
    assert("SubAnnotationPropertyOf"@.len() != "InverseFunctionalObjectProperty"@.len());
    assert("SubAnnotationPropertyOf"@ != "InverseFunctionalObjectProperty"@);
    assert("SubAnnotationPropertyOf"@[0] != "ReflexiveObjectProperty"@[0]);
    assert("SubAnnotationPropertyOf"@ != "ReflexiveObjectProperty"@);
    assert("SubAnnotationPropertyOf"@.len() != "IrreflexiveObjectProperty"@.len());
    assert("SubAnnotationPropertyOf"@ != "IrreflexiveObjectProperty"@);
    assert("SubAnnotationPropertyOf"@[1] != "SymmetricObjectProperty"@[1]);
    assert("SubAnnotationPropertyOf"@ != "SymmetricObjectProperty"@);
    assert("SubAnnotationPropertyOf"@.len() != "AsymmetricObjectProperty"@.len());
    assert("SubAnnotationPropertyOf"@ != "AsymmetricObjectProperty"@);
    assert("SubAnnotationPropertyOf"@.len() != "TransitiveObjectProperty"@.len());
    assert("SubAnnotationPropertyOf"@ != "TransitiveObjectProperty"@);
    assert("SubAnnotationPropertyOf"@.len() != "SubDataPropertyOf"@.len());
    assert("SubAnnotationPropertyOf"@ != "SubDataPropertyOf"@);
    assert("SubAnnotationPropertyOf"@.len() != "EquivalentDataProperties"@.len());
    assert("SubAnnotationPropertyOf"@ != "EquivalentDataProperties"@);
    assert("SubAnnotationPropertyOf"@.len() != "DisjointDataProperties"@.len());
    assert("SubAnnotationPropertyOf"@ != "DisjointDataProperties"@);
    assert("SubAnnotationPropertyOf"@.len() != "DataPropertyDomain"@.len());
    assert("SubAnnotationPropertyOf"@ != "DataPropertyDomain"@);
    assert("SubAnnotationPropertyOf"@.len() != "DataPropertyRange"@.len());
    assert("SubAnnotationPropertyOf"@ != "DataPropertyRange"@);
    assert("SubAnnotationPropertyOf"@.len() != "FunctionalDataProperty"@.len());
    assert("SubAnnotationPropertyOf"@ != "FunctionalDataProperty"@);
    assert("SubAnnotationPropertyOf"@.len() != "DatatypeDefinition"@.len());
    assert("SubAnnotationPropertyOf"@ != "DatatypeDefinition"@);
    assert("SubAnnotationPropertyOf"@.len() != "HasKey"@.len());
    assert("SubAnnotationPropertyOf"@ != "HasKey"@);
    assert("SubAnnotationPropertyOf"@.len() != "SameIndividual"@.len());
    assert("SubAnnotationPropertyOf"@ != "SameIndividual"@);
    assert("SubAnnotationPropertyOf"@.len() != "DifferentIndividuals"@.len());
    assert("SubAnnotationPropertyOf"@ != "DifferentIndividuals"@);
    assert("SubAnnotationPropertyOf"@.len() != "ClassAssertion"@.len());
    assert("SubAnnotationPropertyOf"@ != "ClassAssertion"@);
    assert("SubAnnotationPropertyOf"@[0] != "ObjectPropertyAssertion"@[0]);
    assert("SubAnnotationPropertyOf"@ != "ObjectPropertyAssertion"@);
    assert("SubAnnotationPropertyOf"@.len() != "NegativeObjectPropertyAssertion"@.len());
    assert("SubAnnotationPropertyOf"@ != "NegativeObjectPropertyAssertion"@);
    assert("SubAnnotationPropertyOf"@.len() != "DataPropertyAssertion"@.len());
    assert("SubAnnotationPropertyOf"@ != "DataPropertyAssertion"@);
    assert("SubAnnotationPropertyOf"@.len() != "NegativeDataPropertyAssertion"@.len());
    assert("SubAnnotationPropertyOf"@ != "NegativeDataPropertyAssertion"@);
    assert("SubAnnotationPropertyOf"@.len() != "AnnotationAssertion"@.len());
    assert("SubAnnotationPropertyOf"@ != "AnnotationAssertion"@);
}

/// The axiom kind `AnnotationPropertyDomain`: its keyword and what its parts are read as.
#[verifier::spinoff_prover]
pub proof fn lemma_axiom_branch_annotation_property_domain(s: Seq<char>, u: int, px: Px)
    ensures
        keyword("AnnotationPropertyDomain"@),
        "AnnotationPropertyDomain"@ != "Import"@,
        "AnnotationPropertyDomain"@ != "Annotation"@,
        axiom_parts("AnnotationPropertyDomain"@, s, u, px) == lift_read(then(s, r_iri(s, u, px), |t: int| r_iri(s, t, px)), |x: (Seq<char>, Seq<char>)| SpecAxiom::AnnotationPropertyDomain { ap: x.0, iri: x.1 }),
{
    reveal_strlit("Declaration");
    reveal_strlit("SubClassOf");
    reveal_strlit("EquivalentClasses");
    reveal_strlit("DisjointClasses");
    reveal_strlit("DisjointUnion");
    reveal_strlit("SubObjectPropertyOf");
    reveal_strlit("EquivalentObjectProperties");
    reveal_strlit("DisjointObjectProperties");
    reveal_strlit("InverseObjectProperties");
    reveal_strlit("ObjectPropertyDomain");
    reveal_strlit("ObjectPropertyRange");
    reveal_strlit("FunctionalObjectProperty");
    reveal_strlit("InverseFunctionalObjectProperty");
    reveal_strlit("ReflexiveObjectProperty");
    reveal_strlit("IrreflexiveObjectProperty");
    reveal_strlit("SymmetricObjectProperty");
    reveal_strlit("AsymmetricObjectProperty");
    reveal_strlit("TransitiveObjectProperty");
    reveal_strlit("SubDataPropertyOf");
    reveal_strlit("EquivalentDataProperties");
    reveal_strlit("DisjointDataProperties");
    reveal_strlit("DataPropertyDomain");
    reveal_strlit("DataPropertyRange");
    reveal_strlit("FunctionalDataProperty");
    reveal_strlit("DatatypeDefinition");
    reveal_strlit("HasKey");
    reveal_strlit("SameIndividual");
    reveal_strlit("DifferentIndividuals");
    reveal_strlit("ClassAssertion");
    reveal_strlit("ObjectPropertyAssertion");
    reveal_strlit("NegativeObjectPropertyAssertion");
    reveal_strlit("DataPropertyAssertion");
    reveal_strlit("NegativeDataPropertyAssertion");
    reveal_strlit("AnnotationAssertion");
    reveal_strlit("SubAnnotationPropertyOf");
    reveal_strlit("AnnotationPropertyDomain");
    reveal_strlit("Import");
    reveal_strlit("Annotation");
    assert("AnnotationPropertyDomain"@.len() != "Import"@.len());
    assert("AnnotationPropertyDomain"@.len() != "Annotation"@.len());
    reveal_with_fuel(letters_end, 36);
    assert("AnnotationPropertyDomain"@.len() != "Declaration"@.len());
    assert("AnnotationPropertyDomain"@ != "Declaration"@);
    assert("AnnotationPropertyDomain"@.len() != "SubClassOf"@.len());
    assert("AnnotationPropertyDomain"@ != "SubClassOf"@);
    assert("AnnotationPropertyDomain"@.len() != "EquivalentClasses"@.len());
    assert("AnnotationPropertyDomain"@ != "EquivalentClasses"@);
    assert("AnnotationPropertyDomain"@.len() != "DisjointClasses"@.len());
    assert("AnnotationPropertyDomain"@ != "DisjointClasses"@);
    assert("AnnotationPropertyDomain"@.len() != "DisjointUnion"@.len());
    assert("AnnotationPropertyDomain"@ != "DisjointUnion"@);
    assert("AnnotationPropertyDomain"@.len() != "SubObjectPropertyOf"@.len());
    assert("AnnotationPropertyDomain"@ != "SubObjectPropertyOf"@);
    assert("AnnotationPropertyDomain"@.len() != "EquivalentObjectProperties"@.len());
    assert("AnnotationPropertyDomain"@ != "EquivalentObjectProperties"@);
    assert("AnnotationPropertyDomain"@[0] != "DisjointObjectProperties"@[0]);
    assert("AnnotationPropertyDomain"@ != "DisjointObjectProperties"@);
    assert("AnnotationPropertyDomain"@.len() != "InverseObjectProperties"@.len());
    assert("AnnotationPropertyDomain"@ != "InverseObjectProperties"@);
    assert("AnnotationPropertyDomain"@.len() != "ObjectPropertyDomain"@.len());
    assert("AnnotationPropertyDomain"@ != "ObjectPropertyDomain"@);
    assert("AnnotationPropertyDomain"@.len() != "ObjectPropertyRange"@.len());
    assert("AnnotationPropertyDomain"@ != "ObjectPropertyRange"@);
    assert("AnnotationPropertyDomain"@[0] != "FunctionalObjectProperty"@[0]);
    assert("AnnotationPropertyDomain"@ != "FunctionalObjectProperty"@);
    assert("AnnotationPropertyDomain"@.len() != "InverseFunctionalObjectProperty"@.len());
    assert("AnnotationPropertyDomain"@ != "InverseFunctionalObjectProperty"@);
    assert("AnnotationPropertyDomain"@.len() != "ReflexiveObjectProperty"@.len());
    assert("AnnotationPropertyDomain"@ != "ReflexiveObjectProperty"@);
    assert("AnnotationPropertyDomain"@.len() != "IrreflexiveObjectProperty"@.len());
    assert("AnnotationPropertyDomain"@ != "IrreflexiveObjectProperty"@);
    assert("AnnotationPropertyDomain"@.len() != "SymmetricObjectProperty"@.len());
    assert("AnnotationPropertyDomain"@ != "SymmetricObjectProperty"@);
    assert("AnnotationPropertyDomain"@[1] != "AsymmetricObjectProperty"@[1]);
    assert("AnnotationPropertyDomain"@ != "AsymmetricObjectProperty"@);
    assert("AnnotationPropertyDomain"@[0] != "TransitiveObjectProperty"@[0]);
    assert("AnnotationPropertyDomain"@ != "TransitiveObjectProperty"@);
    assert("AnnotationPropertyDomain"@.len() != "SubDataPropertyOf"@.len());
    assert("AnnotationPropertyDomain"@ != "SubDataPropertyOf"@);
    assert("AnnotationPropertyDomain"@[0] != "EquivalentDataProperties"@[0]);
    assert("AnnotationPropertyDomain"@ != "EquivalentDataProperties"@);
    assert("AnnotationPropertyDomain"@.len() != "DisjointDataProperties"@.len());
    assert("AnnotationPropertyDomain"@ != "DisjointDataProperties"@);
    assert("AnnotationPropertyDomain"@.len() != "DataPropertyDomain"@.len());
    assert("AnnotationPropertyDomain"@ != "DataPropertyDomain"@);
    assert("AnnotationPropertyDomain"@.len() != "DataPropertyRange"@.len());
    assert("AnnotationPropertyDomain"@ != "DataPropertyRange"@);
    assert("AnnotationPropertyDomain"@.len() != "FunctionalDataProperty"@.len());
    assert("AnnotationPropertyDomain"@ != "FunctionalDataProperty"@);
    assert("AnnotationPropertyDomain"@.len() != "DatatypeDefinition"@.len());
    assert("AnnotationPropertyDomain"@ != "DatatypeDefinition"@);
    assert("AnnotationPropertyDomain"@.len() != "HasKey"@.len());
    assert("AnnotationPropertyDomain"@ != "HasKey"@);
    assert("AnnotationPropertyDomain"@.len() != "SameIndividual"@.len());
    assert("AnnotationPropertyDomain"@ != "SameIndividual"@);
    assert("AnnotationPropertyDomain"@.len() != "DifferentIndividuals"@.len());
    assert("AnnotationPropertyDomain"@ != "DifferentIndividuals"@);
    assert("AnnotationPropertyDomain"@.len() != "ClassAssertion"@.len());
    assert("AnnotationPropertyDomain"@ != "ClassAssertion"@);
    assert("AnnotationPropertyDomain"@.len() != "ObjectPropertyAssertion"@.len());
    assert("AnnotationPropertyDomain"@ != "ObjectPropertyAssertion"@);
    assert("AnnotationPropertyDomain"@.len() != "NegativeObjectPropertyAssertion"@.len());
    assert("AnnotationPropertyDomain"@ != "NegativeObjectPropertyAssertion"@);
    assert("AnnotationPropertyDomain"@.len() != "DataPropertyAssertion"@.len());
    assert("AnnotationPropertyDomain"@ != "DataPropertyAssertion"@);
    assert("AnnotationPropertyDomain"@.len() != "NegativeDataPropertyAssertion"@.len());
    assert("AnnotationPropertyDomain"@ != "NegativeDataPropertyAssertion"@);
    assert("AnnotationPropertyDomain"@.len() != "AnnotationAssertion"@.len());
    assert("AnnotationPropertyDomain"@ != "AnnotationAssertion"@);
    assert("AnnotationPropertyDomain"@.len() != "SubAnnotationPropertyOf"@.len());
    assert("AnnotationPropertyDomain"@ != "SubAnnotationPropertyOf"@);
}

/// The axiom kind `AnnotationPropertyRange`: its keyword and what its parts are read as.
#[verifier::spinoff_prover]
pub proof fn lemma_axiom_branch_annotation_property_range(s: Seq<char>, u: int, px: Px)
    ensures
        keyword("AnnotationPropertyRange"@),
        "AnnotationPropertyRange"@ != "Import"@,
        "AnnotationPropertyRange"@ != "Annotation"@,
        axiom_parts("AnnotationPropertyRange"@, s, u, px) == lift_read(then(s, r_iri(s, u, px), |t: int| r_iri(s, t, px)), |x: (Seq<char>, Seq<char>)| SpecAxiom::AnnotationPropertyRange { ap: x.0, iri: x.1 }),
{
    reveal_strlit("Declaration");
    reveal_strlit("SubClassOf");
    reveal_strlit("EquivalentClasses");
    reveal_strlit("DisjointClasses");
    reveal_strlit("DisjointUnion");
    reveal_strlit("SubObjectPropertyOf");
    reveal_strlit("EquivalentObjectProperties");
    reveal_strlit("DisjointObjectProperties");
    reveal_strlit("InverseObjectProperties");
    reveal_strlit("ObjectPropertyDomain");
    reveal_strlit("ObjectPropertyRange");
    reveal_strlit("FunctionalObjectProperty");
    reveal_strlit("InverseFunctionalObjectProperty");
    reveal_strlit("ReflexiveObjectProperty");
    reveal_strlit("IrreflexiveObjectProperty");
    reveal_strlit("SymmetricObjectProperty");
    reveal_strlit("AsymmetricObjectProperty");
    reveal_strlit("TransitiveObjectProperty");
    reveal_strlit("SubDataPropertyOf");
    reveal_strlit("EquivalentDataProperties");
    reveal_strlit("DisjointDataProperties");
    reveal_strlit("DataPropertyDomain");
    reveal_strlit("DataPropertyRange");
    reveal_strlit("FunctionalDataProperty");
    reveal_strlit("DatatypeDefinition");
    reveal_strlit("HasKey");
    reveal_strlit("SameIndividual");
    reveal_strlit("DifferentIndividuals");
    reveal_strlit("ClassAssertion");
    reveal_strlit("ObjectPropertyAssertion");
    reveal_strlit("NegativeObjectPropertyAssertion");
    reveal_strlit("DataPropertyAssertion");
    reveal_strlit("NegativeDataPropertyAssertion");
    reveal_strlit("AnnotationAssertion");
    reveal_strlit("SubAnnotationPropertyOf");
    reveal_strlit("AnnotationPropertyDomain");
    reveal_strlit("AnnotationPropertyRange");
    reveal_strlit("Import");
    reveal_strlit("Annotation");
    assert("AnnotationPropertyRange"@.len() != "Import"@.len());
    assert("AnnotationPropertyRange"@.len() != "Annotation"@.len());
    reveal_with_fuel(letters_end, 36);
    assert("AnnotationPropertyRange"@.len() != "Declaration"@.len());
    assert("AnnotationPropertyRange"@ != "Declaration"@);
    assert("AnnotationPropertyRange"@.len() != "SubClassOf"@.len());
    assert("AnnotationPropertyRange"@ != "SubClassOf"@);
    assert("AnnotationPropertyRange"@.len() != "EquivalentClasses"@.len());
    assert("AnnotationPropertyRange"@ != "EquivalentClasses"@);
    assert("AnnotationPropertyRange"@.len() != "DisjointClasses"@.len());
    assert("AnnotationPropertyRange"@ != "DisjointClasses"@);
    assert("AnnotationPropertyRange"@.len() != "DisjointUnion"@.len());
    assert("AnnotationPropertyRange"@ != "DisjointUnion"@);
    assert("AnnotationPropertyRange"@.len() != "SubObjectPropertyOf"@.len());
    assert("AnnotationPropertyRange"@ != "SubObjectPropertyOf"@);
    assert("AnnotationPropertyRange"@.len() != "EquivalentObjectProperties"@.len());
    assert("AnnotationPropertyRange"@ != "EquivalentObjectProperties"@);
    assert("AnnotationPropertyRange"@.len() != "DisjointObjectProperties"@.len());
    assert("AnnotationPropertyRange"@ != "DisjointObjectProperties"@);
    assert("AnnotationPropertyRange"@[0] != "InverseObjectProperties"@[0]);
    assert("AnnotationPropertyRange"@ != "InverseObjectProperties"@);
    assert("AnnotationPropertyRange"@.len() != "ObjectPropertyDomain"@.len());
    assert("AnnotationPropertyRange"@ != "ObjectPropertyDomain"@);
    assert("AnnotationPropertyRange"@.len() != "ObjectPropertyRange"@.len());
    assert("AnnotationPropertyRange"@ != "ObjectPropertyRange"@);
    assert("AnnotationPropertyRange"@.len() != "FunctionalObjectProperty"@.len());
    assert("AnnotationPropertyRange"@ != "FunctionalObjectProperty"@);
    assert("AnnotationPropertyRange"@.len() != "InverseFunctionalObjectProperty"@.len());
    assert("AnnotationPropertyRange"@ != "InverseFunctionalObjectProperty"@);
    assert("AnnotationPropertyRange"@[0] != "ReflexiveObjectProperty"@[0]);
    assert("AnnotationPropertyRange"@ != "ReflexiveObjectProperty"@);
    assert("AnnotationPropertyRange"@.len() != "IrreflexiveObjectProperty"@.len());
    assert("AnnotationPropertyRange"@ != "IrreflexiveObjectProperty"@);
    assert("AnnotationPropertyRange"@[0] != "SymmetricObjectProperty"@[0]);
    assert("AnnotationPropertyRange"@ != "SymmetricObjectProperty"@);
    assert("AnnotationPropertyRange"@.len() != "AsymmetricObjectProperty"@.len());
    assert("AnnotationPropertyRange"@ != "AsymmetricObjectProperty"@);
    assert("AnnotationPropertyRange"@.len() != "TransitiveObjectProperty"@.len());
    assert("AnnotationPropertyRange"@ != "TransitiveObjectProperty"@);
    assert("AnnotationPropertyRange"@.len() != "SubDataPropertyOf"@.len());
    assert("AnnotationPropertyRange"@ != "SubDataPropertyOf"@);
    assert("AnnotationPropertyRange"@.len() != "EquivalentDataProperties"@.len());
    assert("AnnotationPropertyRange"@ != "EquivalentDataProperties"@);
    assert("AnnotationPropertyRange"@.len() != "DisjointDataProperties"@.len());
    assert("AnnotationPropertyRange"@ != "DisjointDataProperties"@);
    assert("AnnotationPropertyRange"@.len() != "DataPropertyDomain"@.len());
    assert("AnnotationPropertyRange"@ != "DataPropertyDomain"@);
    assert("AnnotationPropertyRange"@.len() != "DataPropertyRange"@.len());
    assert("AnnotationPropertyRange"@ != "DataPropertyRange"@);
    assert("AnnotationPropertyRange"@.len() != "FunctionalDataProperty"@.len());
    assert("AnnotationPropertyRange"@ != "FunctionalDataProperty"@);
    assert("AnnotationPropertyRange"@.len() != "DatatypeDefinition"@.len());
    assert("AnnotationPropertyRange"@ != "DatatypeDefinition"@);
    assert("AnnotationPropertyRange"@.len() != "HasKey"@.len());
    assert("AnnotationPropertyRange"@ != "HasKey"@);
    assert("AnnotationPropertyRange"@.len() != "SameIndividual"@.len());
    assert("AnnotationPropertyRange"@ != "SameIndividual"@);
    assert("AnnotationPropertyRange"@.len() != "DifferentIndividuals"@.len());
    assert("AnnotationPropertyRange"@ != "DifferentIndividuals"@);
    assert("AnnotationPropertyRange"@.len() != "ClassAssertion"@.len());
    assert("AnnotationPropertyRange"@ != "ClassAssertion"@);
    assert("AnnotationPropertyRange"@[0] != "ObjectPropertyAssertion"@[0]);
    assert("AnnotationPropertyRange"@ != "ObjectPropertyAssertion"@);
    assert("AnnotationPropertyRange"@.len() != "NegativeObjectPropertyAssertion"@.len());
    assert("AnnotationPropertyRange"@ != "NegativeObjectPropertyAssertion"@);
    assert("AnnotationPropertyRange"@.len() != "DataPropertyAssertion"@.len());
    assert("AnnotationPropertyRange"@ != "DataPropertyAssertion"@);
    assert("AnnotationPropertyRange"@.len() != "NegativeDataPropertyAssertion"@.len());
    assert("AnnotationPropertyRange"@ != "NegativeDataPropertyAssertion"@);
    assert("AnnotationPropertyRange"@.len() != "AnnotationAssertion"@.len());
    assert("AnnotationPropertyRange"@ != "AnnotationAssertion"@);
    assert("AnnotationPropertyRange"@[0] != "SubAnnotationPropertyOf"@[0]);
    assert("AnnotationPropertyRange"@ != "SubAnnotationPropertyOf"@);
    assert("AnnotationPropertyRange"@.len() != "AnnotationPropertyDomain"@.len());
    assert("AnnotationPropertyRange"@ != "AnnotationPropertyDomain"@);
}

/// The entity kind `Class`: its keyword, and what a declaration of it is
/// read as.
#[verifier::spinoff_prover]
pub proof fn lemma_entity_branch_class(s: Seq<char>, q: int, px: Px)
    requires
        word(s, q) == "Class"@,
    ensures
        keyword("Class"@),
        "Class"@ != "Annotation"@,
        r_entity(s, q, px) == match open_at(s, letters_end(s, q)) {
            None => None,
            Some(q2) => match r_iri(s, ws(s, q2), px) {
                None => None,
                Some((i, e)) => match close_at(s, e) {
                    None => None,
                    Some(f) => Some((crate::grammar::lift(i, |x: Seq<char>| SpecAxiom::DeclareClass(x)), f)),
                },
            },
        },
{
    reveal_strlit("Class");
    reveal_strlit("Annotation");
    reveal_with_fuel(letters_end, 20);
    assert("Class"@.len() != "Annotation"@.len());
    assert("Class"@ != "Annotation"@);
}

/// How the written form of a declaration of a `Class` lays out: the
/// keyword `Declaration`, no annotations, the declared entity, then the
/// closing parenthesis.
#[verifier::spinoff_prover]
#[verifier::rlimit(100)]
pub proof fn lemma_read_written_declare_class_parts(a: Seq<char>, i: Seq<char>, b: Seq<char>, px: Px)
    requires
        iri_text(i),
    ensures
        ({
            let w = w_annotated_axiom(bare(SpecAxiom::DeclareClass(i)), None);
            let s = a + w + b;
            let q = a.len() + "Declaration"@.len() + 1int;
            let e = a.len() + w.len() - 1int;
            &&& open_at(s, letters_end(s, a.len() as int)) == Some(q)
            &&& word(s, a.len() as int) == "Declaration"@
            &&& r_iri(s, a.len() as int, px) is None
            &&& r_annotation_seq(s, q, px) == (Ok::<Seq<SpecAnnotation>, SpecError>(Seq::empty()), 0nat, q)
            &&& ws(s, q) == q
            &&& r_entity(s, q, px) == Some((Ok::<SpecAxiom, SpecError>(SpecAxiom::DeclareClass(i)), e))
            &&& close_at(s, e) == Some(e + 1)
        }),
{
    lemma_annotation_set_empty();
    let ax = SpecAxiom::DeclareClass(i);
    let w = w_annotated_axiom(bare(ax), None);
    let s = a + w + b;
    let d = "Declaration"@;
    let k = "Class"@;
    let wi = w_iri(i, None);
    reveal_strlit("Declaration");
    reveal_strlit("Declaration(");
    reveal_strlit("))");
    reveal_strlit("Class");
    assert(keyword(d)) by {
        lemma_axiom_branch_declaration(s, 0, px);
    }
    assert(w =~= d + seq!['('] + k + seq!['('] + wi + seq![')', ')']);
    assert(s =~= a + d + (seq!['('] + k + seq!['('] + wi + seq![')', ')'] + b));
    lemma_keyword_at(a, d, seq!['('] + k + seq!['('] + wi + seq![')', ')'] + b, px);
    let a1 = a + d + seq!['('];
    let q = a1.len() as int;
    assert(s[q] == k[0]);
    assert(ws(s, q) == q);
    assert(s =~= a1 + k + (seq!['('] + wi + seq![')', ')'] + b));
    assert(keyword(k)) by {
        reveal_with_fuel(letters_end, 20);
    }
    lemma_keyword_at(a1, k, seq!['('] + wi + seq![')', ')'] + b, px);
    lemma_entity_branch_class(s, q, px);
    lemma_no_annotations(s, q, px);
    let a2 = a1 + k + seq!['('];
    assert(s =~= a2 + wi + (seq![')', ')'] + b));
    lemma_iri_start(i);
    assert(ws(s, a2.len() as int) == a2.len());
    lemma_read_written_iri(a2, i, seq![')', ')'] + b, px);
    let e0 = a2.len() + wi.len() + 0int;
    assert(s[e0] == ')');
    assert(ws(s, e0) == e0);
    assert(s[e0 + 1] == ')');
    assert(ws(s, e0 + 1) == e0 + 1);
}

/// See [`lemma_read_written_axiom`]: declarations of a `Class`.
#[verifier::spinoff_prover]
#[verifier::rlimit(40)]
pub proof fn lemma_read_written_declare_class(a: Seq<char>, i: Seq<char>, b: Seq<char>, px: Px)
    requires
        iri_text(i),
    ensures
        r_axiom(a + w_annotated_axiom(bare(SpecAxiom::DeclareClass(i)), None) + b, a.len() as int, px) == Some(
            (
                Ok::<SpecAnnotatedAxiom, SpecError>(bare(SpecAxiom::DeclareClass(i))),
                a.len() + w_annotated_axiom(bare(SpecAxiom::DeclareClass(i)), None).len() + 0int,
            ),
        ),
        word(a + w_annotated_axiom(bare(SpecAxiom::DeclareClass(i)), None) + b, a.len() as int) != "Import"@,
        word(a + w_annotated_axiom(bare(SpecAxiom::DeclareClass(i)), None) + b, a.len() as int) != "Annotation"@,
        is_letter(w_annotated_axiom(bare(SpecAxiom::DeclareClass(i)), None)[0]),
        r_iri(a + w_annotated_axiom(bare(SpecAxiom::DeclareClass(i)), None) + b, a.len() as int, px) is None,
{
    lemma_annotation_set_empty();
    let ax = SpecAxiom::DeclareClass(i);
    let w = w_annotated_axiom(bare(ax), None);
    let s = a + w + b;
    let q = a.len() + "Declaration"@.len() + 1int;
    lemma_read_written_declare_class_parts(a, i, b, px);
    lemma_axiom_branch_declaration(s, q, px);
    lemma_r_axiom_at(s, a.len() as int, px, q, "Declaration"@, ax, Seq::empty(), q, a.len() + w.len() - 1int);
    reveal_strlit("Declaration");
    reveal_strlit("Declaration(");
    reveal_strlit("Import");
    reveal_strlit("Annotation");
    assert("Declaration"@.len() != "Import"@.len());
    assert("Declaration"@[0] != "Annotation"@[0]);
}

/// The entity kind `Datatype`: its keyword, and what a declaration of it is
/// read as.
#[verifier::spinoff_prover]
pub proof fn lemma_entity_branch_datatype(s: Seq<char>, q: int, px: Px)
    requires
        word(s, q) == "Datatype"@,
    ensures
        keyword("Datatype"@),
        "Datatype"@ != "Annotation"@,
        r_entity(s, q, px) == match open_at(s, letters_end(s, q)) {
            None => None,
            Some(q2) => match r_iri(s, ws(s, q2), px) {
                None => None,
                Some((i, e)) => match close_at(s, e) {
                    None => None,
                    Some(f) => Some((crate::grammar::lift(i, |x: Seq<char>| SpecAxiom::DeclareDatatype(x)), f)),
                },
            },
        },
{
    reveal_strlit("Class");
    reveal_strlit("Datatype");
    reveal_strlit("Annotation");
    reveal_with_fuel(letters_end, 20);
    assert("Datatype"@.len() != "Class"@.len());
    assert("Datatype"@ != "Class"@);
    assert("Datatype"@.len() != "Annotation"@.len());
    assert("Datatype"@ != "Annotation"@);
}

/// How the written form of a declaration of a `Datatype` lays out: the
/// keyword `Declaration`, no annotations, the declared entity, then the
/// closing parenthesis.
#[verifier::spinoff_prover]
#[verifier::rlimit(100)]
pub proof fn lemma_read_written_declare_datatype_parts(a: Seq<char>, i: Seq<char>, b: Seq<char>, px: Px)
    requires
        iri_text(i),
    ensures
        ({
            let w = w_annotated_axiom(bare(SpecAxiom::DeclareDatatype(i)), None);
            let s = a + w + b;
            let q = a.len() + "Declaration"@.len() + 1int;
            let e = a.len() + w.len() - 1int;
            &&& open_at(s, letters_end(s, a.len() as int)) == Some(q)
            &&& word(s, a.len() as int) == "Declaration"@
            &&& r_iri(s, a.len() as int, px) is None
            &&& r_annotation_seq(s, q, px) == (Ok::<Seq<SpecAnnotation>, SpecError>(Seq::empty()), 0nat, q)
            &&& ws(s, q) == q
            &&& r_entity(s, q, px) == Some((Ok::<SpecAxiom, SpecError>(SpecAxiom::DeclareDatatype(i)), e))
            &&& close_at(s, e) == Some(e + 1)
        }),
{
    lemma_annotation_set_empty();
    let ax = SpecAxiom::DeclareDatatype(i);
    let w = w_annotated_axiom(bare(ax), None);
    let s = a + w + b;
    let d = "Declaration"@;
    let k = "Datatype"@;
    let wi = w_iri(i, None);
    reveal_strlit("Declaration");
    reveal_strlit("Declaration(");
    reveal_strlit("))");
    reveal_strlit("Datatype");
    assert(keyword(d)) by {
        lemma_axiom_branch_declaration(s, 0, px);
    }
    assert(w =~= d + seq!['('] + k + seq!['('] + wi + seq![')', ')']);
    assert(s =~= a + d + (seq!['('] + k + seq!['('] + wi + seq![')', ')'] + b));
    lemma_keyword_at(a, d, seq!['('] + k + seq!['('] + wi + seq![')', ')'] + b, px);
    let a1 = a + d + seq!['('];
    let q = a1.len() as int;
    assert(s[q] == k[0]);
    assert(ws(s, q) == q);
    assert(s =~= a1 + k + (seq!['('] + wi + seq![')', ')'] + b));
    assert(keyword(k)) by {
        reveal_with_fuel(letters_end, 20);
    }
    lemma_keyword_at(a1, k, seq!['('] + wi + seq![')', ')'] + b, px);
    lemma_entity_branch_datatype(s, q, px);
    lemma_no_annotations(s, q, px);
    let a2 = a1 + k + seq!['('];
    assert(s =~= a2 + wi + (seq![')', ')'] + b));
    lemma_iri_start(i);
    assert(ws(s, a2.len() as int) == a2.len());
    lemma_read_written_iri(a2, i, seq![')', ')'] + b, px);
    let e0 = a2.len() + wi.len() + 0int;
    assert(s[e0] == ')');
    assert(ws(s, e0) == e0);
    assert(s[e0 + 1] == ')');
    assert(ws(s, e0 + 1) == e0 + 1);
}

/// See [`lemma_read_written_axiom`]: declarations of a `Datatype`.
#[verifier::spinoff_prover]
#[verifier::rlimit(40)]
pub proof fn lemma_read_written_declare_datatype(a: Seq<char>, i: Seq<char>, b: Seq<char>, px: Px)
    requires
        iri_text(i),
    ensures
        r_axiom(a + w_annotated_axiom(bare(SpecAxiom::DeclareDatatype(i)), None) + b, a.len() as int, px) == Some(
            (
                Ok::<SpecAnnotatedAxiom, SpecError>(bare(SpecAxiom::DeclareDatatype(i))),
                a.len() + w_annotated_axiom(bare(SpecAxiom::DeclareDatatype(i)), None).len() + 0int,
            ),
        ),
        word(a + w_annotated_axiom(bare(SpecAxiom::DeclareDatatype(i)), None) + b, a.len() as int) != "Import"@,
        word(a + w_annotated_axiom(bare(SpecAxiom::DeclareDatatype(i)), None) + b, a.len() as int) != "Annotation"@,
        is_letter(w_annotated_axiom(bare(SpecAxiom::DeclareDatatype(i)), None)[0]),
        r_iri(a + w_annotated_axiom(bare(SpecAxiom::DeclareDatatype(i)), None) + b, a.len() as int, px) is None,
{
    lemma_annotation_set_empty();
    let ax = SpecAxiom::DeclareDatatype(i);
    let w = w_annotated_axiom(bare(ax), None);
    let s = a + w + b;
    let q = a.len() + "Declaration"@.len() + 1int;
    lemma_read_written_declare_datatype_parts(a, i, b, px);
    lemma_axiom_branch_declaration(s, q, px);
    lemma_r_axiom_at(s, a.len() as int, px, q, "Declaration"@, ax, Seq::empty(), q, a.len() + w.len() - 1int);
    reveal_strlit("Declaration");
    reveal_strlit("Declaration(");
    reveal_strlit("Import");
    reveal_strlit("Annotation");
    assert("Declaration"@.len() != "Import"@.len());
    assert("Declaration"@[0] != "Annotation"@[0]);
}

/// The entity kind `ObjectProperty`: its keyword, and what a declaration of it is
/// read as.
#[verifier::spinoff_prover]
pub proof fn lemma_entity_branch_object_property(s: Seq<char>, q: int, px: Px)
    requires
        word(s, q) == "ObjectProperty"@,
    ensures
        keyword("ObjectProperty"@),
        "ObjectProperty"@ != "Annotation"@,
        r_entity(s, q, px) == match open_at(s, letters_end(s, q)) {
            None => None,
            Some(q2) => match r_iri(s, ws(s, q2), px) {
                None => None,
                Some((i, e)) => match close_at(s, e) {
                    None => None,
                    Some(f) => Some((crate::grammar::lift(i, |x: Seq<char>| SpecAxiom::DeclareObjectProperty(x)), f)),
                },
            },
        },
{
    reveal_strlit("Class");
    reveal_strlit("Datatype");
    reveal_strlit("ObjectProperty");
    reveal_strlit("Annotation");
    reveal_with_fuel(letters_end, 20);
    assert("ObjectProperty"@.len() != "Class"@.len());
    assert("ObjectProperty"@ != "Class"@);
    assert("ObjectProperty"@.len() != "Datatype"@.len());
    assert("ObjectProperty"@ != "Datatype"@);
    assert("ObjectProperty"@.len() != "Annotation"@.len());
    assert("ObjectProperty"@ != "Annotation"@);
}

/// How the written form of a declaration of an `ObjectProperty` lays out: the
/// keyword `Declaration`, no annotations, the declared entity, then the
/// closing parenthesis.
#[verifier::spinoff_prover]
#[verifier::rlimit(100)]
pub proof fn lemma_read_written_declare_object_property_parts(a: Seq<char>, i: Seq<char>, b: Seq<char>, px: Px)
    requires
        iri_text(i),
    ensures
        ({
            let w = w_annotated_axiom(bare(SpecAxiom::DeclareObjectProperty(i)), None);
            let s = a + w + b;
            let q = a.len() + "Declaration"@.len() + 1int;
            let e = a.len() + w.len() - 1int;
            &&& open_at(s, letters_end(s, a.len() as int)) == Some(q)
            &&& word(s, a.len() as int) == "Declaration"@
            &&& r_iri(s, a.len() as int, px) is None
            &&& r_annotation_seq(s, q, px) == (Ok::<Seq<SpecAnnotation>, SpecError>(Seq::empty()), 0nat, q)
            &&& ws(s, q) == q
            &&& r_entity(s, q, px) == Some((Ok::<SpecAxiom, SpecError>(SpecAxiom::DeclareObjectProperty(i)), e))
            &&& close_at(s, e) == Some(e + 1)
        }),
{
    lemma_annotation_set_empty();
    let ax = SpecAxiom::DeclareObjectProperty(i);
    let w = w_annotated_axiom(bare(ax), None);
    let s = a + w + b;
    let d = "Declaration"@;
    let k = "ObjectProperty"@;
    let wi = w_iri(i, None);
    reveal_strlit("Declaration");
    reveal_strlit("Declaration(");
    reveal_strlit("))");
    reveal_strlit("ObjectProperty");
    assert(keyword(d)) by {
        lemma_axiom_branch_declaration(s, 0, px);
    }
    assert(w =~= d + seq!['('] + k + seq!['('] + wi + seq![')', ')']);
    assert(s =~= a + d + (seq!['('] + k + seq!['('] + wi + seq![')', ')'] + b));
    lemma_keyword_at(a, d, seq!['('] + k + seq!['('] + wi + seq![')', ')'] + b, px);
    let a1 = a + d + seq!['('];
    let q = a1.len() as int;
    assert(s[q] == k[0]);
    assert(ws(s, q) == q);
    assert(s =~= a1 + k + (seq!['('] + wi + seq![')', ')'] + b));
    assert(keyword(k)) by {
        reveal_with_fuel(letters_end, 20);
    }
    lemma_keyword_at(a1, k, seq!['('] + wi + seq![')', ')'] + b, px);
    lemma_entity_branch_object_property(s, q, px);
    lemma_no_annotations(s, q, px);
    let a2 = a1 + k + seq!['('];
    assert(s =~= a2 + wi + (seq![')', ')'] + b));
    lemma_iri_start(i);
    assert(ws(s, a2.len() as int) == a2.len());
    lemma_read_written_iri(a2, i, seq![')', ')'] + b, px);
    let e0 = a2.len() + wi.len() + 0int;
    assert(s[e0] == ')');
    assert(ws(s, e0) == e0);
    assert(s[e0 + 1] == ')');
    assert(ws(s, e0 + 1) == e0 + 1);
}

/// See [`lemma_read_written_axiom`]: declarations of an `ObjectProperty`.
#[verifier::spinoff_prover]
#[verifier::rlimit(40)]
pub proof fn lemma_read_written_declare_object_property(a: Seq<char>, i: Seq<char>, b: Seq<char>, px: Px)
    requires
        iri_text(i),
    ensures
        r_axiom(a + w_annotated_axiom(bare(SpecAxiom::DeclareObjectProperty(i)), None) + b, a.len() as int, px) == Some(
            (
                Ok::<SpecAnnotatedAxiom, SpecError>(bare(SpecAxiom::DeclareObjectProperty(i))),
                a.len() + w_annotated_axiom(bare(SpecAxiom::DeclareObjectProperty(i)), None).len() + 0int,
            ),
        ),
        word(a + w_annotated_axiom(bare(SpecAxiom::DeclareObjectProperty(i)), None) + b, a.len() as int) != "Import"@,
        word(a + w_annotated_axiom(bare(SpecAxiom::DeclareObjectProperty(i)), None) + b, a.len() as int) != "Annotation"@,
        is_letter(w_annotated_axiom(bare(SpecAxiom::DeclareObjectProperty(i)), None)[0]),
        r_iri(a + w_annotated_axiom(bare(SpecAxiom::DeclareObjectProperty(i)), None) + b, a.len() as int, px) is None,
{
    lemma_annotation_set_empty();
    let ax = SpecAxiom::DeclareObjectProperty(i);
    let w = w_annotated_axiom(bare(ax), None);
    let s = a + w + b;
    let q = a.len() + "Declaration"@.len() + 1int;
    lemma_read_written_declare_object_property_parts(a, i, b, px);
    lemma_axiom_branch_declaration(s, q, px);
    lemma_r_axiom_at(s, a.len() as int, px, q, "Declaration"@, ax, Seq::empty(), q, a.len() + w.len() - 1int);
    reveal_strlit("Declaration");
    reveal_strlit("Declaration(");
    reveal_strlit("Import");
    reveal_strlit("Annotation");
    assert("Declaration"@.len() != "Import"@.len());
    assert("Declaration"@[0] != "Annotation"@[0]);
}

/// The entity kind `DataProperty`: its keyword, and what a declaration of it is
/// read as.
#[verifier::spinoff_prover]
pub proof fn lemma_entity_branch_data_property(s: Seq<char>, q: int, px: Px)
    requires
        word(s, q) == "DataProperty"@,
    ensures
        keyword("DataProperty"@),
        "DataProperty"@ != "Annotation"@,
        r_entity(s, q, px) == match open_at(s, letters_end(s, q)) {
            None => None,
            Some(q2) => match r_iri(s, ws(s, q2), px) {
                None => None,
                Some((i, e)) => match close_at(s, e) {
                    None => None,
                    Some(f) => Some((crate::grammar::lift(i, |x: Seq<char>| SpecAxiom::DeclareDataProperty(x)), f)),
                },
            },
        },
{
    reveal_strlit("Class");
    reveal_strlit("Datatype");
    reveal_strlit("ObjectProperty");
    reveal_strlit("DataProperty");
    reveal_strlit("Annotation");
    reveal_with_fuel(letters_end, 20);
    assert("DataProperty"@.len() != "Class"@.len());
    assert("DataProperty"@ != "Class"@);
    assert("DataProperty"@.len() != "Datatype"@.len());
    assert("DataProperty"@ != "Datatype"@);
    assert("DataProperty"@.len() != "ObjectProperty"@.len());
    assert("DataProperty"@ != "ObjectProperty"@);
    assert("DataProperty"@.len() != "Annotation"@.len());
    assert("DataProperty"@ != "Annotation"@);
}

/// How the written form of a declaration of a `DataProperty` lays out: the
/// keyword `Declaration`, no annotations, the declared entity, then the
/// closing parenthesis.
#[verifier::spinoff_prover]
#[verifier::rlimit(100)]
pub proof fn lemma_read_written_declare_data_property_parts(a: Seq<char>, i: Seq<char>, b: Seq<char>, px: Px)
    requires
        iri_text(i),
    ensures
        ({
            let w = w_annotated_axiom(bare(SpecAxiom::DeclareDataProperty(i)), None);
            let s = a + w + b;
            let q = a.len() + "Declaration"@.len() + 1int;
            let e = a.len() + w.len() - 1int;
            &&& open_at(s, letters_end(s, a.len() as int)) == Some(q)
            &&& word(s, a.len() as int) == "Declaration"@
            &&& r_iri(s, a.len() as int, px) is None
            &&& r_annotation_seq(s, q, px) == (Ok::<Seq<SpecAnnotation>, SpecError>(Seq::empty()), 0nat, q)
            &&& ws(s, q) == q
            &&& r_entity(s, q, px) == Some((Ok::<SpecAxiom, SpecError>(SpecAxiom::DeclareDataProperty(i)), e))
            &&& close_at(s, e) == Some(e + 1)
        }),
{
    lemma_annotation_set_empty();
    let ax = SpecAxiom::DeclareDataProperty(i);
    let w = w_annotated_axiom(bare(ax), None);
    let s = a + w + b;
    let d = "Declaration"@;
    let k = "DataProperty"@;
    let wi = w_iri(i, None);
    reveal_strlit("Declaration");
    reveal_strlit("Declaration(");
    reveal_strlit("))");
    reveal_strlit("DataProperty");
    assert(keyword(d)) by {
        lemma_axiom_branch_declaration(s, 0, px);
    }
    assert(w =~= d + seq!['('] + k + seq!['('] + wi + seq![')', ')']);
    assert(s =~= a + d + (seq!['('] + k + seq!['('] + wi + seq![')', ')'] + b));
    lemma_keyword_at(a, d, seq!['('] + k + seq!['('] + wi + seq![')', ')'] + b, px);
    let a1 = a + d + seq!['('];
    let q = a1.len() as int;
    assert(s[q] == k[0]);
    assert(ws(s, q) == q);
    assert(s =~= a1 + k + (seq!['('] + wi + seq![')', ')'] + b));
    assert(keyword(k)) by {
        reveal_with_fuel(letters_end, 20);
    }
    lemma_keyword_at(a1, k, seq!['('] + wi + seq![')', ')'] + b, px);
    lemma_entity_branch_data_property(s, q, px);
    lemma_no_annotations(s, q, px);
    let a2 = a1 + k + seq!['('];
    assert(s =~= a2 + wi + (seq![')', ')'] + b));
    lemma_iri_start(i);
    assert(ws(s, a2.len() as int) == a2.len());
    lemma_read_written_iri(a2, i, seq![')', ')'] + b, px);
    let e0 = a2.len() + wi.len() + 0int;
    assert(s[e0] == ')');
    assert(ws(s, e0) == e0);
    assert(s[e0 + 1] == ')');
    assert(ws(s, e0 + 1) == e0 + 1);
}

/// See [`lemma_read_written_axiom`]: declarations of a `DataProperty`.
#[verifier::spinoff_prover]
#[verifier::rlimit(40)]
pub proof fn lemma_read_written_declare_data_property(a: Seq<char>, i: Seq<char>, b: Seq<char>, px: Px)
    requires
        iri_text(i),
    ensures
        r_axiom(a + w_annotated_axiom(bare(SpecAxiom::DeclareDataProperty(i)), None) + b, a.len() as int, px) == Some(
            (
                Ok::<SpecAnnotatedAxiom, SpecError>(bare(SpecAxiom::DeclareDataProperty(i))),
                a.len() + w_annotated_axiom(bare(SpecAxiom::DeclareDataProperty(i)), None).len() + 0int,
            ),
        ),
        word(a + w_annotated_axiom(bare(SpecAxiom::DeclareDataProperty(i)), None) + b, a.len() as int) != "Import"@,
        word(a + w_annotated_axiom(bare(SpecAxiom::DeclareDataProperty(i)), None) + b, a.len() as int) != "Annotation"@,
        is_letter(w_annotated_axiom(bare(SpecAxiom::DeclareDataProperty(i)), None)[0]),
        r_iri(a + w_annotated_axiom(bare(SpecAxiom::DeclareDataProperty(i)), None) + b, a.len() as int, px) is None,
{
    lemma_annotation_set_empty();
    let ax = SpecAxiom::DeclareDataProperty(i);
    let w = w_annotated_axiom(bare(ax), None);
    let s = a + w + b;
    let q = a.len() + "Declaration"@.len() + 1int;
    lemma_read_written_declare_data_property_parts(a, i, b, px);
    lemma_axiom_branch_declaration(s, q, px);
    lemma_r_axiom_at(s, a.len() as int, px, q, "Declaration"@, ax, Seq::empty(), q, a.len() + w.len() - 1int);
    reveal_strlit("Declaration");
    reveal_strlit("Declaration(");
    reveal_strlit("Import");
    reveal_strlit("Annotation");
    assert("Declaration"@.len() != "Import"@.len());
    assert("Declaration"@[0] != "Annotation"@[0]);
}

/// The entity kind `AnnotationProperty`: its keyword, and what a declaration of it is
/// read as.
#[verifier::spinoff_prover]
pub proof fn lemma_entity_branch_annotation_property(s: Seq<char>, q: int, px: Px)
    requires
        word(s, q) == "AnnotationProperty"@,
    ensures
        keyword("AnnotationProperty"@),
        "AnnotationProperty"@ != "Annotation"@,
        r_entity(s, q, px) == match open_at(s, letters_end(s, q)) {
            None => None,
            Some(q2) => match r_iri(s, ws(s, q2), px) {
                None => None,
                Some((i, e)) => match close_at(s, e) {
                    None => None,
                    Some(f) => Some((crate::grammar::lift(i, |x: Seq<char>| SpecAxiom::DeclareAnnotationProperty(x)), f)),
                },
            },
        },
{
    reveal_strlit("Class");
    reveal_strlit("Datatype");
    reveal_strlit("ObjectProperty");
    reveal_strlit("DataProperty");
    reveal_strlit("AnnotationProperty");
    reveal_strlit("Annotation");
    reveal_with_fuel(letters_end, 20);
    assert("AnnotationProperty"@.len() != "Class"@.len());
    assert("AnnotationProperty"@ != "Class"@);
    assert("AnnotationProperty"@.len() != "Datatype"@.len());
    assert("AnnotationProperty"@ != "Datatype"@);
    assert("AnnotationProperty"@.len() != "ObjectProperty"@.len());
    assert("AnnotationProperty"@ != "ObjectProperty"@);
    assert("AnnotationProperty"@.len() != "DataProperty"@.len());
    assert("AnnotationProperty"@ != "DataProperty"@);
    assert("AnnotationProperty"@.len() != "Annotation"@.len());
    assert("AnnotationProperty"@ != "Annotation"@);
}

/// How the written form of a declaration of an `AnnotationProperty` lays out: the
/// keyword `Declaration`, no annotations, the declared entity, then the
/// closing parenthesis.
#[verifier::spinoff_prover]
#[verifier::rlimit(100)]
pub proof fn lemma_read_written_declare_annotation_property_parts(a: Seq<char>, i: Seq<char>, b: Seq<char>, px: Px)
    requires
        iri_text(i),
    ensures
        ({
            let w = w_annotated_axiom(bare(SpecAxiom::DeclareAnnotationProperty(i)), None);
            let s = a + w + b;
            let q = a.len() + "Declaration"@.len() + 1int;
            let e = a.len() + w.len() - 1int;
            &&& open_at(s, letters_end(s, a.len() as int)) == Some(q)
            &&& word(s, a.len() as int) == "Declaration"@
            &&& r_iri(s, a.len() as int, px) is None
            &&& r_annotation_seq(s, q, px) == (Ok::<Seq<SpecAnnotation>, SpecError>(Seq::empty()), 0nat, q)
            &&& ws(s, q) == q
            &&& r_entity(s, q, px) == Some((Ok::<SpecAxiom, SpecError>(SpecAxiom::DeclareAnnotationProperty(i)), e))
            &&& close_at(s, e) == Some(e + 1)
        }),
{
    lemma_annotation_set_empty();
    let ax = SpecAxiom::DeclareAnnotationProperty(i);
    let w = w_annotated_axiom(bare(ax), None);
    let s = a + w + b;
    let d = "Declaration"@;
    let k = "AnnotationProperty"@;
    let wi = w_iri(i, None);
    reveal_strlit("Declaration");
    reveal_strlit("Declaration(");
    reveal_strlit("))");
    reveal_strlit("AnnotationProperty");
    assert(keyword(d)) by {
        lemma_axiom_branch_declaration(s, 0, px);
    }
    assert(w =~= d + seq!['('] + k + seq!['('] + wi + seq![')', ')']);
    assert(s =~= a + d + (seq!['('] + k + seq!['('] + wi + seq![')', ')'] + b));
    lemma_keyword_at(a, d, seq!['('] + k + seq!['('] + wi + seq![')', ')'] + b, px);
    let a1 = a + d + seq!['('];
    let q = a1.len() as int;
    assert(s[q] == k[0]);
    assert(ws(s, q) == q);
    assert(s =~= a1 + k + (seq!['('] + wi + seq![')', ')'] + b));
    assert(keyword(k)) by {
        reveal_with_fuel(letters_end, 20);
    }
    lemma_keyword_at(a1, k, seq!['('] + wi + seq![')', ')'] + b, px);
    lemma_entity_branch_annotation_property(s, q, px);
    lemma_no_annotations(s, q, px);
    let a2 = a1 + k + seq!['('];
    assert(s =~= a2 + wi + (seq![')', ')'] + b));
    lemma_iri_start(i);
    assert(ws(s, a2.len() as int) == a2.len());
    lemma_read_written_iri(a2, i, seq![')', ')'] + b, px);
    let e0 = a2.len() + wi.len() + 0int;
    assert(s[e0] == ')');
    assert(ws(s, e0) == e0);
    assert(s[e0 + 1] == ')');
    assert(ws(s, e0 + 1) == e0 + 1);
}

/// See [`lemma_read_written_axiom`]: declarations of an `AnnotationProperty`.
#[verifier::spinoff_prover]
#[verifier::rlimit(40)]
pub proof fn lemma_read_written_declare_annotation_property(a: Seq<char>, i: Seq<char>, b: Seq<char>, px: Px)
    requires
        iri_text(i),
    ensures
        r_axiom(a + w_annotated_axiom(bare(SpecAxiom::DeclareAnnotationProperty(i)), None) + b, a.len() as int, px) == Some(
            (
                Ok::<SpecAnnotatedAxiom, SpecError>(bare(SpecAxiom::DeclareAnnotationProperty(i))),
                a.len() + w_annotated_axiom(bare(SpecAxiom::DeclareAnnotationProperty(i)), None).len() + 0int,
            ),
        ),
        word(a + w_annotated_axiom(bare(SpecAxiom::DeclareAnnotationProperty(i)), None) + b, a.len() as int) != "Import"@,
        word(a + w_annotated_axiom(bare(SpecAxiom::DeclareAnnotationProperty(i)), None) + b, a.len() as int) != "Annotation"@,
        is_letter(w_annotated_axiom(bare(SpecAxiom::DeclareAnnotationProperty(i)), None)[0]),
        r_iri(a + w_annotated_axiom(bare(SpecAxiom::DeclareAnnotationProperty(i)), None) + b, a.len() as int, px) is None,
{
    lemma_annotation_set_empty();
    let ax = SpecAxiom::DeclareAnnotationProperty(i);
    let w = w_annotated_axiom(bare(ax), None);
    let s = a + w + b;
    let q = a.len() + "Declaration"@.len() + 1int;
    lemma_read_written_declare_annotation_property_parts(a, i, b, px);
    lemma_axiom_branch_declaration(s, q, px);
    lemma_r_axiom_at(s, a.len() as int, px, q, "Declaration"@, ax, Seq::empty(), q, a.len() + w.len() - 1int);
    reveal_strlit("Declaration");
    reveal_strlit("Declaration(");
    reveal_strlit("Import");
    reveal_strlit("Annotation");
    assert("Declaration"@.len() != "Import"@.len());
    assert("Declaration"@[0] != "Annotation"@[0]);
}

/// The entity kind `NamedIndividual`: its keyword, and what a declaration of it is
/// read as.
#[verifier::spinoff_prover]
pub proof fn lemma_entity_branch_named_individual(s: Seq<char>, q: int, px: Px)
    requires
        word(s, q) == "NamedIndividual"@,
    ensures
        keyword("NamedIndividual"@),
        "NamedIndividual"@ != "Annotation"@,
        r_entity(s, q, px) == match open_at(s, letters_end(s, q)) {
            None => None,
            Some(q2) => match r_iri(s, ws(s, q2), px) {
                None => None,
                Some((i, e)) => match close_at(s, e) {
                    None => None,
                    Some(f) => Some((crate::grammar::lift(i, |x: Seq<char>| SpecAxiom::DeclareNamedIndividual(x)), f)),
                },
            },
        },
{
    reveal_strlit("Class");
    reveal_strlit("Datatype");
    reveal_strlit("ObjectProperty");
    reveal_strlit("DataProperty");
    reveal_strlit("AnnotationProperty");
    reveal_strlit("NamedIndividual");
    reveal_strlit("Annotation");
    reveal_with_fuel(letters_end, 20);
    assert("NamedIndividual"@.len() != "Class"@.len());
    assert("NamedIndividual"@ != "Class"@);
    assert("NamedIndividual"@.len() != "Datatype"@.len());
    assert("NamedIndividual"@ != "Datatype"@);
    assert("NamedIndividual"@.len() != "ObjectProperty"@.len());
    assert("NamedIndividual"@ != "ObjectProperty"@);
    assert("NamedIndividual"@.len() != "DataProperty"@.len());
    assert("NamedIndividual"@ != "DataProperty"@);
    assert("NamedIndividual"@.len() != "AnnotationProperty"@.len());
    assert("NamedIndividual"@ != "AnnotationProperty"@);
    assert("NamedIndividual"@.len() != "Annotation"@.len());
    assert("NamedIndividual"@ != "Annotation"@);
}

/// How the written form of a declaration of a `NamedIndividual` lays out: the
/// keyword `Declaration`, no annotations, the declared entity, then the
/// closing parenthesis.
#[verifier::spinoff_prover]
#[verifier::rlimit(100)]
pub proof fn lemma_read_written_declare_named_individual_parts(a: Seq<char>, i: Seq<char>, b: Seq<char>, px: Px)
    requires
        iri_text(i),
    ensures
        ({
            let w = w_annotated_axiom(bare(SpecAxiom::DeclareNamedIndividual(i)), None);
            let s = a + w + b;
            let q = a.len() + "Declaration"@.len() + 1int;
            let e = a.len() + w.len() - 1int;
            &&& open_at(s, letters_end(s, a.len() as int)) == Some(q)
            &&& word(s, a.len() as int) == "Declaration"@
            &&& r_iri(s, a.len() as int, px) is None
            &&& r_annotation_seq(s, q, px) == (Ok::<Seq<SpecAnnotation>, SpecError>(Seq::empty()), 0nat, q)
            &&& ws(s, q) == q
            &&& r_entity(s, q, px) == Some((Ok::<SpecAxiom, SpecError>(SpecAxiom::DeclareNamedIndividual(i)), e))
            &&& close_at(s, e) == Some(e + 1)
        }),
{
    lemma_annotation_set_empty();
    let ax = SpecAxiom::DeclareNamedIndividual(i);
    let w = w_annotated_axiom(bare(ax), None);
    let s = a + w + b;
    let d = "Declaration"@;
    let k = "NamedIndividual"@;
    let wi = w_iri(i, None);
    reveal_strlit("Declaration");
    reveal_strlit("Declaration(");
    reveal_strlit("))");
    reveal_strlit("NamedIndividual");
    assert(keyword(d)) by {
        lemma_axiom_branch_declaration(s, 0, px);
    }
    assert(w =~= d + seq!['('] + k + seq!['('] + wi + seq![')', ')']);
    assert(s =~= a + d + (seq!['('] + k + seq!['('] + wi + seq![')', ')'] + b));
    lemma_keyword_at(a, d, seq!['('] + k + seq!['('] + wi + seq![')', ')'] + b, px);
    let a1 = a + d + seq!['('];
    let q = a1.len() as int;
    assert(s[q] == k[0]);
    assert(ws(s, q) == q);
    assert(s =~= a1 + k + (seq!['('] + wi + seq![')', ')'] + b));
    assert(keyword(k)) by {
        reveal_with_fuel(letters_end, 20);
    }
    lemma_keyword_at(a1, k, seq!['('] + wi + seq![')', ')'] + b, px);
    lemma_entity_branch_named_individual(s, q, px);
    lemma_no_annotations(s, q, px);
    let a2 = a1 + k + seq!['('];
    assert(s =~= a2 + wi + (seq![')', ')'] + b));
    lemma_iri_start(i);
    assert(ws(s, a2.len() as int) == a2.len());
    lemma_read_written_iri(a2, i, seq![')', ')'] + b, px);
    let e0 = a2.len() + wi.len() + 0int;
    assert(s[e0] == ')');
    assert(ws(s, e0) == e0);
    assert(s[e0 + 1] == ')');
    assert(ws(s, e0 + 1) == e0 + 1);
}

/// See [`lemma_read_written_axiom`]: declarations of a `NamedIndividual`.
#[verifier::spinoff_prover]
#[verifier::rlimit(40)]
pub proof fn lemma_read_written_declare_named_individual(a: Seq<char>, i: Seq<char>, b: Seq<char>, px: Px)
    requires
        iri_text(i),
    ensures
        r_axiom(a + w_annotated_axiom(bare(SpecAxiom::DeclareNamedIndividual(i)), None) + b, a.len() as int, px) == Some(
            (
                Ok::<SpecAnnotatedAxiom, SpecError>(bare(SpecAxiom::DeclareNamedIndividual(i))),
                a.len() + w_annotated_axiom(bare(SpecAxiom::DeclareNamedIndividual(i)), None).len() + 0int,
            ),
        ),
        word(a + w_annotated_axiom(bare(SpecAxiom::DeclareNamedIndividual(i)), None) + b, a.len() as int) != "Import"@,
        word(a + w_annotated_axiom(bare(SpecAxiom::DeclareNamedIndividual(i)), None) + b, a.len() as int) != "Annotation"@,
        is_letter(w_annotated_axiom(bare(SpecAxiom::DeclareNamedIndividual(i)), None)[0]),
        r_iri(a + w_annotated_axiom(bare(SpecAxiom::DeclareNamedIndividual(i)), None) + b, a.len() as int, px) is None,
{
    lemma_annotation_set_empty();
    let ax = SpecAxiom::DeclareNamedIndividual(i);
    let w = w_annotated_axiom(bare(ax), None);
    let s = a + w + b;
    let q = a.len() + "Declaration"@.len() + 1int;
    lemma_read_written_declare_named_individual_parts(a, i, b, px);
    lemma_axiom_branch_declaration(s, q, px);
    lemma_r_axiom_at(s, a.len() as int, px, q, "Declaration"@, ax, Seq::empty(), q, a.len() + w.len() - 1int);
    reveal_strlit("Declaration");
    reveal_strlit("Declaration(");
    reveal_strlit("Import");
    reveal_strlit("Annotation");
    assert("Declaration"@.len() != "Import"@.len());
    assert("Declaration"@[0] != "Annotation"@[0]);
}

/// How the written form of a `SubClassOf` axiom begins: its keyword, its
/// opening parenthesis and its annotations, each read as itself.
#[verifier::spinoff_prover]
#[verifier::rlimit(40)]
pub proof fn lemma_read_written_sub_class_of_head(a: Seq<char>, x0: SpecClassExpression, x1: SpecClassExpression, ann: Seq<SpecAnnotation>, b: Seq<char>, px: Px)
    requires
        annotation_set(ann) == ann,
        ce_rt(x0),
        ce_rt(x1),
        annotations_rt(ann),
    ensures
        ({
            let w = w_annotated_axiom(SpecAnnotatedAxiom { ax: SpecAxiom::SubClassOf { sub: x0, sup: x1 }, ann }, None);
            let s = a + w + b;
            let q = a.len() + "SubClassOf"@.len() + 1int;
            let e0 = q + w_annotations(ann, None).len();
            &&& open_at(s, letters_end(s, a.len() as int)) == Some(q)
            &&& word(s, a.len() as int) == "SubClassOf"@
            &&& r_iri(s, a.len() as int, px) is None
            &&& r_annotation_seq(s, q, px) == (Ok::<Seq<SpecAnnotation>, SpecError>(ann), ann.len(), e0)
            &&& ws(s, e0) == e0 + 1
        }),
{
    let ax = SpecAxiom::SubClassOf { sub: x0, sup: x1 };
    let w = w_annotated_axiom(SpecAnnotatedAxiom { ax, ann }, None);
    assert(w == crate::rendering::w_axiom(ax, Some(ann), None));
    let s = a + w + b;
    let k = "SubClassOf"@;
    assert(keyword(k)) by {
        lemma_axiom_branch_sub_class_of(s, 0, px);
    }
    let w0 = w_ce(x0, None);
    let w1 = w_ce(x1, None);
    let body = w0 + seq![' '] + w1;
    let t = w_annotations(ann, None) + seq![' '];
    assert(w == k + seq!['('] + t + body + seq![')']);
    lemma_cut_form(a, k, t, body, b);
    lemma_keyword_at(a, k, seq!['('] + t + body + seq![')'] + b, px);
    lemma_ce_start(x0);
    lemma_read_written_annotations_before(s, a + k + seq!['('], ann, body + seq![')'] + b, px);
}

/// How the written form of a `SubClassOf` axiom goes on after its annotations:
/// its parts, each read as itself, then the closing parenthesis.
#[verifier::spinoff_prover]
#[verifier::rlimit(100)]
pub proof fn lemma_read_written_sub_class_of_parts(a: Seq<char>, x0: SpecClassExpression, x1: SpecClassExpression, ann: Seq<SpecAnnotation>, b: Seq<char>, px: Px)
    requires
        annotation_set(ann) == ann,
        ce_rt(x0),
        ce_rt(x1),
    ensures
        ({
            let w = w_annotated_axiom(SpecAnnotatedAxiom { ax: SpecAxiom::SubClassOf { sub: x0, sup: x1 }, ann }, None);
            let s = a + w + b;
            let q = a.len() + "SubClassOf"@.len() + 1int;
            let e0 = q + w_annotations(ann, None).len();
            let e1 = e0 + 1 + w_ce(x0, None).len();
            let e2 = e1 + 1 + w_ce(x1, None).len();
            &&& r_ce(s, e0 + 1, px) == Some((Ok::<SpecClassExpression, SpecError>(x0), e1))
            &&& r_ce(s, ws(s, e1), px) == Some((Ok::<SpecClassExpression, SpecError>(x1), e2))
            &&& close_at(s, e2) == Some(e2 + 1)
            &&& e2 + 1 == a.len() + w.len()
        }),
{
    let ax = SpecAxiom::SubClassOf { sub: x0, sup: x1 };
    let w = w_annotated_axiom(SpecAnnotatedAxiom { ax, ann }, None);
    assert(w == crate::rendering::w_axiom(ax, Some(ann), None));
    let s = a + w + b;
    let k = "SubClassOf"@;
    let w0 = w_ce(x0, None);
    let w1 = w_ce(x1, None);
    let body = w0 + seq![' '] + w1;
    let t = w_annotations(ann, None) + seq![' '];
    assert(w == k + seq!['('] + t + body + seq![')']);
    lemma_cut_form(a, k, t, body, b);
    lemma_not_name_chars();
    let a1 = a + k + seq!['('] + t;
    lemma_cut_pair(a1, w0, w1, seq![')'] + b);
    lemma_ce_start(x0);
    lemma_starts_after_space(s, a1, w0, seq![' '] + w1 + (seq![')'] + b));
    lemma_read_written_ce(a1, x0, seq![' '] + w1 + (seq![')'] + b), px);
    let a2 = a1 + w0 + seq![' '];
    lemma_ce_start(x1);
    lemma_starts_after_space(s, a2, w1, seq![')'] + b);
    lemma_read_written_ce(a2, x1, seq![')'] + b, px);
    let e = a2.len() + w1.len() + 0int;
    assert(s[e] == ')');
    assert(ws(s, e) == e);
}

/// See [`lemma_read_written_axiom`]: `SubClassOf` axioms.
#[verifier::spinoff_prover]
#[verifier::rlimit(80)]
pub proof fn lemma_read_written_sub_class_of(a: Seq<char>, x0: SpecClassExpression, x1: SpecClassExpression, ann: Seq<SpecAnnotation>, b: Seq<char>, px: Px)
    requires
        annotations_sorted(ann),
        ce_rt(x0),
        ce_rt(x1),
        annotations_rt(ann),
    ensures
        ({
            let x = SpecAnnotatedAxiom { ax: SpecAxiom::SubClassOf { sub: x0, sup: x1 }, ann };
            let s = a + w_annotated_axiom(x, None) + b;
            &&& r_axiom(s, a.len() as int, px) == Some(
                (Ok::<SpecAnnotatedAxiom, SpecError>(x), a.len() + w_annotated_axiom(x, None).len() + 0int),
            )
            &&& word(s, a.len() as int) != "Import"@
            &&& word(s, a.len() as int) != "Annotation"@
            &&& r_iri(s, a.len() as int, px) is None
            &&& is_letter(w_annotated_axiom(x, None)[0])
        }),
{
    lemma_annotation_set_of_sorted(ann);
    let ax = SpecAxiom::SubClassOf { sub: x0, sup: x1 };
    let w = w_annotated_axiom(SpecAnnotatedAxiom { ax, ann }, None);
    assert(w == crate::rendering::w_axiom(ax, Some(ann), None));
    let s = a + w + b;
    let q = a.len() + "SubClassOf"@.len() + 1int;
    let e0 = q + w_annotations(ann, None).len();
    lemma_read_written_sub_class_of_head(a, x0, x1, ann, b, px);
    lemma_read_written_sub_class_of_parts(a, x0, x1, ann, b, px);
    lemma_axiom_branch_sub_class_of(s, e0 + 1, px);
    lemma_r_axiom_at(s, a.len() as int, px, q, "SubClassOf"@, ax, ann, e0, a.len() + w.len() - 1int);
    lemma_keyword_letters("SubClassOf"@, 0);
    assert(w[0] == "SubClassOf"@[0]);
}

/// How the written form of a `InverseObjectProperties` axiom begins: its keyword, its
/// opening parenthesis and its annotations, each read as itself.
#[verifier::spinoff_prover]
#[verifier::rlimit(40)]
pub proof fn lemma_read_written_inverse_object_properties_head(a: Seq<char>, x0: Seq<char>, x1: Seq<char>, ann: Seq<SpecAnnotation>, b: Seq<char>, px: Px)
    requires
        annotation_set(ann) == ann,
        iri_text(x0),
        iri_text(x1),
        annotations_rt(ann),
    ensures
        ({
            let w = w_annotated_axiom(SpecAnnotatedAxiom { ax: SpecAxiom::InverseObjectProperties(x0, x1), ann }, None);
            let s = a + w + b;
            let q = a.len() + "InverseObjectProperties"@.len() + 1int;
            let e0 = q + w_annotations(ann, None).len();
            &&& open_at(s, letters_end(s, a.len() as int)) == Some(q)
            &&& word(s, a.len() as int) == "InverseObjectProperties"@
            &&& r_iri(s, a.len() as int, px) is None
            &&& r_annotation_seq(s, q, px) == (Ok::<Seq<SpecAnnotation>, SpecError>(ann), ann.len(), e0)
            &&& ws(s, e0) == e0 + 1
        }),
{
    let ax = SpecAxiom::InverseObjectProperties(x0, x1);
    let w = w_annotated_axiom(SpecAnnotatedAxiom { ax, ann }, None);
    assert(w == crate::rendering::w_axiom(ax, Some(ann), None));
    let s = a + w + b;
    let k = "InverseObjectProperties"@;
    assert(keyword(k)) by {
        lemma_axiom_branch_inverse_object_properties(s, 0, px);
    }
    let w0 = w_iri(x0, None);
    let w1 = w_iri(x1, None);
    let body = w0 + seq![' '] + w1;
    let t = w_annotations(ann, None) + seq![' '];
    assert(w == k + seq!['('] + t + body + seq![')']);
    lemma_cut_form(a, k, t, body, b);
    lemma_keyword_at(a, k, seq!['('] + t + body + seq![')'] + b, px);
    lemma_iri_start(x0);
    lemma_read_written_annotations_before(s, a + k + seq!['('], ann, body + seq![')'] + b, px);
}

/// How the written form of a `InverseObjectProperties` axiom goes on after its annotations:
/// its parts, each read as itself, then the closing parenthesis.
#[verifier::spinoff_prover]
#[verifier::rlimit(100)]
pub proof fn lemma_read_written_inverse_object_properties_parts(a: Seq<char>, x0: Seq<char>, x1: Seq<char>, ann: Seq<SpecAnnotation>, b: Seq<char>, px: Px)
    requires
        annotation_set(ann) == ann,
        iri_text(x0),
        iri_text(x1),
    ensures
        ({
            let w = w_annotated_axiom(SpecAnnotatedAxiom { ax: SpecAxiom::InverseObjectProperties(x0, x1), ann }, None);
            let s = a + w + b;
            let q = a.len() + "InverseObjectProperties"@.len() + 1int;
            let e0 = q + w_annotations(ann, None).len();
            let e1 = e0 + 1 + w_iri(x0, None).len();
            let e2 = e1 + 1 + w_iri(x1, None).len();
            &&& r_iri(s, e0 + 1, px) == Some((Ok::<Seq<char>, SpecError>(x0), e1))
            &&& r_iri(s, ws(s, e1), px) == Some((Ok::<Seq<char>, SpecError>(x1), e2))
            &&& close_at(s, e2) == Some(e2 + 1)
            &&& e2 + 1 == a.len() + w.len()
        }),
{
    let ax = SpecAxiom::InverseObjectProperties(x0, x1);
    let w = w_annotated_axiom(SpecAnnotatedAxiom { ax, ann }, None);
    assert(w == crate::rendering::w_axiom(ax, Some(ann), None));
    let s = a + w + b;
    let k = "InverseObjectProperties"@;
    let w0 = w_iri(x0, None);
    let w1 = w_iri(x1, None);
    let body = w0 + seq![' '] + w1;
    let t = w_annotations(ann, None) + seq![' '];
    assert(w == k + seq!['('] + t + body + seq![')']);
    lemma_cut_form(a, k, t, body, b);
    lemma_not_name_chars();
    let a1 = a + k + seq!['('] + t;
    lemma_cut_pair(a1, w0, w1, seq![')'] + b);
    lemma_iri_start(x0);
    lemma_starts_after_space(s, a1, w0, seq![' '] + w1 + (seq![')'] + b));
    lemma_read_written_iri(a1, x0, seq![' '] + w1 + (seq![')'] + b), px);
    let a2 = a1 + w0 + seq![' '];
    lemma_iri_start(x1);
    lemma_starts_after_space(s, a2, w1, seq![')'] + b);
    lemma_read_written_iri(a2, x1, seq![')'] + b, px);
    let e = a2.len() + w1.len() + 0int;
    assert(s[e] == ')');
    assert(ws(s, e) == e);
}

/// See [`lemma_read_written_axiom`]: `InverseObjectProperties` axioms.
#[verifier::spinoff_prover]
#[verifier::rlimit(80)]
pub proof fn lemma_read_written_inverse_object_properties(a: Seq<char>, x0: Seq<char>, x1: Seq<char>, ann: Seq<SpecAnnotation>, b: Seq<char>, px: Px)
    requires
        annotations_sorted(ann),
        iri_text(x0),
        iri_text(x1),
        annotations_rt(ann),
    ensures
        ({
            let x = SpecAnnotatedAxiom { ax: SpecAxiom::InverseObjectProperties(x0, x1), ann };
            let s = a + w_annotated_axiom(x, None) + b;
            &&& r_axiom(s, a.len() as int, px) == Some(
                (Ok::<SpecAnnotatedAxiom, SpecError>(x), a.len() + w_annotated_axiom(x, None).len() + 0int),
            )
            &&& word(s, a.len() as int) != "Import"@
            &&& word(s, a.len() as int) != "Annotation"@
            &&& r_iri(s, a.len() as int, px) is None
            &&& is_letter(w_annotated_axiom(x, None)[0])
        }),
{
    lemma_annotation_set_of_sorted(ann);
    let ax = SpecAxiom::InverseObjectProperties(x0, x1);
    let w = w_annotated_axiom(SpecAnnotatedAxiom { ax, ann }, None);
    assert(w == crate::rendering::w_axiom(ax, Some(ann), None));
    let s = a + w + b;
    let q = a.len() + "InverseObjectProperties"@.len() + 1int;
    let e0 = q + w_annotations(ann, None).len();
    lemma_read_written_inverse_object_properties_head(a, x0, x1, ann, b, px);
    lemma_read_written_inverse_object_properties_parts(a, x0, x1, ann, b, px);
    lemma_axiom_branch_inverse_object_properties(s, e0 + 1, px);
    lemma_r_axiom_at(s, a.len() as int, px, q, "InverseObjectProperties"@, ax, ann, e0, a.len() + w.len() - 1int);
    lemma_keyword_letters("InverseObjectProperties"@, 0);
    assert(w[0] == "InverseObjectProperties"@[0]);
}

/// How the written form of a `ObjectPropertyDomain` axiom begins: its keyword, its
/// opening parenthesis and its annotations, each read as itself.
#[verifier::spinoff_prover]
#[verifier::rlimit(40)]
pub proof fn lemma_read_written_object_property_domain_head(a: Seq<char>, x0: SpecObjectPropertyExpression, x1: SpecClassExpression, ann: Seq<SpecAnnotation>, b: Seq<char>, px: Px)
    requires
        annotation_set(ann) == ann,
        ope_rt(x0),
        ce_rt(x1),
        annotations_rt(ann),
    ensures
        ({
            let w = w_annotated_axiom(SpecAnnotatedAxiom { ax: SpecAxiom::ObjectPropertyDomain { ope: x0, ce: x1 }, ann }, None);
            let s = a + w + b;
            let q = a.len() + "ObjectPropertyDomain"@.len() + 1int;
            let e0 = q + w_annotations(ann, None).len();
            &&& open_at(s, letters_end(s, a.len() as int)) == Some(q)
            &&& word(s, a.len() as int) == "ObjectPropertyDomain"@
            &&& r_iri(s, a.len() as int, px) is None
            &&& r_annotation_seq(s, q, px) == (Ok::<Seq<SpecAnnotation>, SpecError>(ann), ann.len(), e0)
            &&& ws(s, e0) == e0 + 1
        }),
{
    let ax = SpecAxiom::ObjectPropertyDomain { ope: x0, ce: x1 };
    let w = w_annotated_axiom(SpecAnnotatedAxiom { ax, ann }, None);
    assert(w == crate::rendering::w_axiom(ax, Some(ann), None));
    let s = a + w + b;
    let k = "ObjectPropertyDomain"@;
    assert(keyword(k)) by {
        lemma_axiom_branch_object_property_domain(s, 0, px);
    }
    let w0 = w_ope(x0, None);
    let w1 = w_ce(x1, None);
    let body = w0 + seq![' '] + w1;
    let t = w_annotations(ann, None) + seq![' '];
    assert(w == k + seq!['('] + t + body + seq![')']);
    lemma_cut_form(a, k, t, body, b);
    lemma_keyword_at(a, k, seq!['('] + t + body + seq![')'] + b, px);
    lemma_ope_start(x0);
    lemma_read_written_annotations_before(s, a + k + seq!['('], ann, body + seq![')'] + b, px);
}

/// How the written form of a `ObjectPropertyDomain` axiom goes on after its annotations:
/// its parts, each read as itself, then the closing parenthesis.
#[verifier::spinoff_prover]
#[verifier::rlimit(100)]
pub proof fn lemma_read_written_object_property_domain_parts(a: Seq<char>, x0: SpecObjectPropertyExpression, x1: SpecClassExpression, ann: Seq<SpecAnnotation>, b: Seq<char>, px: Px)
    requires
        annotation_set(ann) == ann,
        ope_rt(x0),
        ce_rt(x1),
    ensures
        ({
            let w = w_annotated_axiom(SpecAnnotatedAxiom { ax: SpecAxiom::ObjectPropertyDomain { ope: x0, ce: x1 }, ann }, None);
            let s = a + w + b;
            let q = a.len() + "ObjectPropertyDomain"@.len() + 1int;
            let e0 = q + w_annotations(ann, None).len();
            let e1 = e0 + 1 + w_ope(x0, None).len();
            let e2 = e1 + 1 + w_ce(x1, None).len();
            &&& r_ope(s, e0 + 1, px) == Some((Ok::<SpecObjectPropertyExpression, SpecError>(x0), e1))
            &&& r_ce(s, ws(s, e1), px) == Some((Ok::<SpecClassExpression, SpecError>(x1), e2))
            &&& close_at(s, e2) == Some(e2 + 1)
            &&& e2 + 1 == a.len() + w.len()
        }),
{
    let ax = SpecAxiom::ObjectPropertyDomain { ope: x0, ce: x1 };
    let w = w_annotated_axiom(SpecAnnotatedAxiom { ax, ann }, None);
    assert(w == crate::rendering::w_axiom(ax, Some(ann), None));
    let s = a + w + b;
    let k = "ObjectPropertyDomain"@;
    let w0 = w_ope(x0, None);
    let w1 = w_ce(x1, None);
    let body = w0 + seq![' '] + w1;
    let t = w_annotations(ann, None) + seq![' '];
    assert(w == k + seq!['('] + t + body + seq![')']);
    lemma_cut_form(a, k, t, body, b);
    lemma_not_name_chars();
    let a1 = a + k + seq!['('] + t;
    lemma_cut_pair(a1, w0, w1, seq![')'] + b);
    lemma_ope_start(x0);
    lemma_starts_after_space(s, a1, w0, seq![' '] + w1 + (seq![')'] + b));
    lemma_read_written_ope(a1, x0, seq![' '] + w1 + (seq![')'] + b), px);
    let a2 = a1 + w0 + seq![' '];
    lemma_ce_start(x1);
    lemma_starts_after_space(s, a2, w1, seq![')'] + b);
    lemma_read_written_ce(a2, x1, seq![')'] + b, px);
    let e = a2.len() + w1.len() + 0int;
    assert(s[e] == ')');
    assert(ws(s, e) == e);
}

/// See [`lemma_read_written_axiom`]: `ObjectPropertyDomain` axioms.
#[verifier::spinoff_prover]
#[verifier::rlimit(80)]
pub proof fn lemma_read_written_object_property_domain(a: Seq<char>, x0: SpecObjectPropertyExpression, x1: SpecClassExpression, ann: Seq<SpecAnnotation>, b: Seq<char>, px: Px)
    requires
        annotations_sorted(ann),
        ope_rt(x0),
        ce_rt(x1),
        annotations_rt(ann),
    ensures
        ({
            let x = SpecAnnotatedAxiom { ax: SpecAxiom::ObjectPropertyDomain { ope: x0, ce: x1 }, ann };
            let s = a + w_annotated_axiom(x, None) + b;
            &&& r_axiom(s, a.len() as int, px) == Some(
                (Ok::<SpecAnnotatedAxiom, SpecError>(x), a.len() + w_annotated_axiom(x, None).len() + 0int),
            )
            &&& word(s, a.len() as int) != "Import"@
            &&& word(s, a.len() as int) != "Annotation"@
            &&& r_iri(s, a.len() as int, px) is None
            &&& is_letter(w_annotated_axiom(x, None)[0])
        }),
{
    lemma_annotation_set_of_sorted(ann);
    let ax = SpecAxiom::ObjectPropertyDomain { ope: x0, ce: x1 };
    let w = w_annotated_axiom(SpecAnnotatedAxiom { ax, ann }, None);
    assert(w == crate::rendering::w_axiom(ax, Some(ann), None));
    let s = a + w + b;
    let q = a.len() + "ObjectPropertyDomain"@.len() + 1int;
    let e0 = q + w_annotations(ann, None).len();
    lemma_read_written_object_property_domain_head(a, x0, x1, ann, b, px);
    lemma_read_written_object_property_domain_parts(a, x0, x1, ann, b, px);
    lemma_axiom_branch_object_property_domain(s, e0 + 1, px);
    lemma_r_axiom_at(s, a.len() as int, px, q, "ObjectPropertyDomain"@, ax, ann, e0, a.len() + w.len() - 1int);
    lemma_keyword_letters("ObjectPropertyDomain"@, 0);
    assert(w[0] == "ObjectPropertyDomain"@[0]);
}

/// How the written form of a `ObjectPropertyRange` axiom begins: its keyword, its
/// opening parenthesis and its annotations, each read as itself.
#[verifier::spinoff_prover]
#[verifier::rlimit(40)]
pub proof fn lemma_read_written_object_property_range_head(a: Seq<char>, x0: SpecObjectPropertyExpression, x1: SpecClassExpression, ann: Seq<SpecAnnotation>, b: Seq<char>, px: Px)
    requires
        annotation_set(ann) == ann,
        ope_rt(x0),
        ce_rt(x1),
        annotations_rt(ann),
    ensures
        ({
            let w = w_annotated_axiom(SpecAnnotatedAxiom { ax: SpecAxiom::ObjectPropertyRange { ope: x0, ce: x1 }, ann }, None);
            let s = a + w + b;
            let q = a.len() + "ObjectPropertyRange"@.len() + 1int;
            let e0 = q + w_annotations(ann, None).len();
            &&& open_at(s, letters_end(s, a.len() as int)) == Some(q)
            &&& word(s, a.len() as int) == "ObjectPropertyRange"@
            &&& r_iri(s, a.len() as int, px) is None
            &&& r_annotation_seq(s, q, px) == (Ok::<Seq<SpecAnnotation>, SpecError>(ann), ann.len(), e0)
            &&& ws(s, e0) == e0 + 1
        }),
{
    let ax = SpecAxiom::ObjectPropertyRange { ope: x0, ce: x1 };
    let w = w_annotated_axiom(SpecAnnotatedAxiom { ax, ann }, None);
    assert(w == crate::rendering::w_axiom(ax, Some(ann), None));
    let s = a + w + b;
    let k = "ObjectPropertyRange"@;
    assert(keyword(k)) by {
        lemma_axiom_branch_object_property_range(s, 0, px);
    }
    let w0 = w_ope(x0, None);
    let w1 = w_ce(x1, None);
    let body = w0 + seq![' '] + w1;
    let t = w_annotations(ann, None) + seq![' '];
    assert(w == k + seq!['('] + t + body + seq![')']);
    lemma_cut_form(a, k, t, body, b);
    lemma_keyword_at(a, k, seq!['('] + t + body + seq![')'] + b, px);
    lemma_ope_start(x0);
    lemma_read_written_annotations_before(s, a + k + seq!['('], ann, body + seq![')'] + b, px);
}

/// How the written form of a `ObjectPropertyRange` axiom goes on after its annotations:
/// its parts, each read as itself, then the closing parenthesis.
#[verifier::spinoff_prover]
#[verifier::rlimit(100)]
pub proof fn lemma_read_written_object_property_range_parts(a: Seq<char>, x0: SpecObjectPropertyExpression, x1: SpecClassExpression, ann: Seq<SpecAnnotation>, b: Seq<char>, px: Px)
    requires
        annotation_set(ann) == ann,
        ope_rt(x0),
        ce_rt(x1),
    ensures
        ({
            let w = w_annotated_axiom(SpecAnnotatedAxiom { ax: SpecAxiom::ObjectPropertyRange { ope: x0, ce: x1 }, ann }, None);
            let s = a + w + b;
            let q = a.len() + "ObjectPropertyRange"@.len() + 1int;
            let e0 = q + w_annotations(ann, None).len();
            let e1 = e0 + 1 + w_ope(x0, None).len();
            let e2 = e1 + 1 + w_ce(x1, None).len();
            &&& r_ope(s, e0 + 1, px) == Some((Ok::<SpecObjectPropertyExpression, SpecError>(x0), e1))
            &&& r_ce(s, ws(s, e1), px) == Some((Ok::<SpecClassExpression, SpecError>(x1), e2))
            &&& close_at(s, e2) == Some(e2 + 1)
            &&& e2 + 1 == a.len() + w.len()
        }),
{
    let ax = SpecAxiom::ObjectPropertyRange { ope: x0, ce: x1 };
    let w = w_annotated_axiom(SpecAnnotatedAxiom { ax, ann }, None);
    assert(w == crate::rendering::w_axiom(ax, Some(ann), None));
    let s = a + w + b;
    let k = "ObjectPropertyRange"@;
    let w0 = w_ope(x0, None);
    let w1 = w_ce(x1, None);
    let body = w0 + seq![' '] + w1;
    let t = w_annotations(ann, None) + seq![' '];
    assert(w == k + seq!['('] + t + body + seq![')']);
    lemma_cut_form(a, k, t, body, b);
    lemma_not_name_chars();
    let a1 = a + k + seq!['('] + t;
    lemma_cut_pair(a1, w0, w1, seq![')'] + b);
    lemma_ope_start(x0);
    lemma_starts_after_space(s, a1, w0, seq![' '] + w1 + (seq![')'] + b));
    lemma_read_written_ope(a1, x0, seq![' '] + w1 + (seq![')'] + b), px);
    let a2 = a1 + w0 + seq![' '];
    lemma_ce_start(x1);
    lemma_starts_after_space(s, a2, w1, seq![')'] + b);
    lemma_read_written_ce(a2, x1, seq![')'] + b, px);
    let e = a2.len() + w1.len() + 0int;
    assert(s[e] == ')');
    assert(ws(s, e) == e);
}

/// See [`lemma_read_written_axiom`]: `ObjectPropertyRange` axioms.
#[verifier::spinoff_prover]
#[verifier::rlimit(80)]
pub proof fn lemma_read_written_object_property_range(a: Seq<char>, x0: SpecObjectPropertyExpression, x1: SpecClassExpression, ann: Seq<SpecAnnotation>, b: Seq<char>, px: Px)
    requires
        annotations_sorted(ann),
        ope_rt(x0),
        ce_rt(x1),
        annotations_rt(ann),
    ensures
        ({
            let x = SpecAnnotatedAxiom { ax: SpecAxiom::ObjectPropertyRange { ope: x0, ce: x1 }, ann };
            let s = a + w_annotated_axiom(x, None) + b;
            &&& r_axiom(s, a.len() as int, px) == Some(
                (Ok::<SpecAnnotatedAxiom, SpecError>(x), a.len() + w_annotated_axiom(x, None).len() + 0int),
            )
            &&& word(s, a.len() as int) != "Import"@
            &&& word(s, a.len() as int) != "Annotation"@
            &&& r_iri(s, a.len() as int, px) is None
            &&& is_letter(w_annotated_axiom(x, None)[0])
        }),
{
    lemma_annotation_set_of_sorted(ann);
    let ax = SpecAxiom::ObjectPropertyRange { ope: x0, ce: x1 };
    let w = w_annotated_axiom(SpecAnnotatedAxiom { ax, ann }, None);
    assert(w == crate::rendering::w_axiom(ax, Some(ann), None));
    let s = a + w + b;
    let q = a.len() + "ObjectPropertyRange"@.len() + 1int;
    let e0 = q + w_annotations(ann, None).len();
    lemma_read_written_object_property_range_head(a, x0, x1, ann, b, px);
    lemma_read_written_object_property_range_parts(a, x0, x1, ann, b, px);
    lemma_axiom_branch_object_property_range(s, e0 + 1, px);
    lemma_r_axiom_at(s, a.len() as int, px, q, "ObjectPropertyRange"@, ax, ann, e0, a.len() + w.len() - 1int);
    lemma_keyword_letters("ObjectPropertyRange"@, 0);
    assert(w[0] == "ObjectPropertyRange"@[0]);
}

/// How the written form of a `FunctionalObjectProperty` axiom begins: its keyword, its
/// opening parenthesis and its annotations, each read as itself.
#[verifier::spinoff_prover]
#[verifier::rlimit(40)]
pub proof fn lemma_read_written_functional_object_property_head(a: Seq<char>, x0: SpecObjectPropertyExpression, ann: Seq<SpecAnnotation>, b: Seq<char>, px: Px)
    requires
        annotation_set(ann) == ann,
        ope_rt(x0),
        annotations_rt(ann),
    ensures
        ({
            let w = w_annotated_axiom(SpecAnnotatedAxiom { ax: SpecAxiom::FunctionalObjectProperty(x0), ann }, None);
            let s = a + w + b;
            let q = a.len() + "FunctionalObjectProperty"@.len() + 1int;
            let e0 = q + w_annotations(ann, None).len();
            &&& open_at(s, letters_end(s, a.len() as int)) == Some(q)
            &&& word(s, a.len() as int) == "FunctionalObjectProperty"@
            &&& r_iri(s, a.len() as int, px) is None
            &&& r_annotation_seq(s, q, px) == (Ok::<Seq<SpecAnnotation>, SpecError>(ann), ann.len(), e0)
            &&& ws(s, e0) == e0 + 1
        }),
{
    let ax = SpecAxiom::FunctionalObjectProperty(x0);
    let w = w_annotated_axiom(SpecAnnotatedAxiom { ax, ann }, None);
    assert(w == crate::rendering::w_axiom(ax, Some(ann), None));
    let s = a + w + b;
    let k = "FunctionalObjectProperty"@;
    assert(keyword(k)) by {
        lemma_axiom_branch_functional_object_property(s, 0, px);
    }
    let w0 = w_ope(x0, None);
    let body = w0;
    let t = w_annotations(ann, None) + seq![' '];
    assert(w == k + seq!['('] + t + body + seq![')']);
    lemma_cut_form(a, k, t, body, b);
    lemma_keyword_at(a, k, seq!['('] + t + body + seq![')'] + b, px);
    lemma_ope_start(x0);
    lemma_read_written_annotations_before(s, a + k + seq!['('], ann, body + seq![')'] + b, px);
}

/// How the written form of a `FunctionalObjectProperty` axiom goes on after its annotations:
/// its parts, each read as itself, then the closing parenthesis.
#[verifier::spinoff_prover]
#[verifier::rlimit(100)]
pub proof fn lemma_read_written_functional_object_property_parts(a: Seq<char>, x0: SpecObjectPropertyExpression, ann: Seq<SpecAnnotation>, b: Seq<char>, px: Px)
    requires
        annotation_set(ann) == ann,
        ope_rt(x0),
    ensures
        ({
            let w = w_annotated_axiom(SpecAnnotatedAxiom { ax: SpecAxiom::FunctionalObjectProperty(x0), ann }, None);
            let s = a + w + b;
            let q = a.len() + "FunctionalObjectProperty"@.len() + 1int;
            let e0 = q + w_annotations(ann, None).len();
            let e1 = e0 + 1 + w_ope(x0, None).len();
            &&& r_ope(s, e0 + 1, px) == Some((Ok::<SpecObjectPropertyExpression, SpecError>(x0), e1))
            &&& close_at(s, e1) == Some(e1 + 1)
            &&& e1 + 1 == a.len() + w.len()
        }),
{
    let ax = SpecAxiom::FunctionalObjectProperty(x0);
    let w = w_annotated_axiom(SpecAnnotatedAxiom { ax, ann }, None);
    assert(w == crate::rendering::w_axiom(ax, Some(ann), None));
    let s = a + w + b;
    let k = "FunctionalObjectProperty"@;
    let w0 = w_ope(x0, None);
    let body = w0;
    let t = w_annotations(ann, None) + seq![' '];
    assert(w == k + seq!['('] + t + body + seq![')']);
    lemma_cut_form(a, k, t, body, b);
    lemma_not_name_chars();
    let a1 = a + k + seq!['('] + t;
    lemma_ope_start(x0);
    lemma_starts_after_space(s, a1, w0, seq![')'] + b);
    lemma_read_written_ope(a1, x0, seq![')'] + b, px);
    let e = a1.len() + w0.len() + 0int;
    assert(s[e] == ')');
    assert(ws(s, e) == e);
}

/// See [`lemma_read_written_axiom`]: `FunctionalObjectProperty` axioms.
#[verifier::spinoff_prover]
#[verifier::rlimit(80)]
pub proof fn lemma_read_written_functional_object_property(a: Seq<char>, x0: SpecObjectPropertyExpression, ann: Seq<SpecAnnotation>, b: Seq<char>, px: Px)
    requires
        annotations_sorted(ann),
        ope_rt(x0),
        annotations_rt(ann),
    ensures
        ({
            let x = SpecAnnotatedAxiom { ax: SpecAxiom::FunctionalObjectProperty(x0), ann };
            let s = a + w_annotated_axiom(x, None) + b;
            &&& r_axiom(s, a.len() as int, px) == Some(
                (Ok::<SpecAnnotatedAxiom, SpecError>(x), a.len() + w_annotated_axiom(x, None).len() + 0int),
            )
            &&& word(s, a.len() as int) != "Import"@
            &&& word(s, a.len() as int) != "Annotation"@
            &&& r_iri(s, a.len() as int, px) is None
            &&& is_letter(w_annotated_axiom(x, None)[0])
        }),
{
    lemma_annotation_set_of_sorted(ann);
    let ax = SpecAxiom::FunctionalObjectProperty(x0);
    let w = w_annotated_axiom(SpecAnnotatedAxiom { ax, ann }, None);
    assert(w == crate::rendering::w_axiom(ax, Some(ann), None));
    let s = a + w + b;
    let q = a.len() + "FunctionalObjectProperty"@.len() + 1int;
    let e0 = q + w_annotations(ann, None).len();
    lemma_read_written_functional_object_property_head(a, x0, ann, b, px);
    lemma_read_written_functional_object_property_parts(a, x0, ann, b, px);
    lemma_axiom_branch_functional_object_property(s, e0 + 1, px);
    lemma_r_axiom_at(s, a.len() as int, px, q, "FunctionalObjectProperty"@, ax, ann, e0, a.len() + w.len() - 1int);
    lemma_keyword_letters("FunctionalObjectProperty"@, 0);
    assert(w[0] == "FunctionalObjectProperty"@[0]);
}

/// How the written form of a `InverseFunctionalObjectProperty` axiom begins: its keyword, its
/// opening parenthesis and its annotations, each read as itself.
#[verifier::spinoff_prover]
#[verifier::rlimit(40)]
pub proof fn lemma_read_written_inverse_functional_object_property_head(a: Seq<char>, x0: SpecObjectPropertyExpression, ann: Seq<SpecAnnotation>, b: Seq<char>, px: Px)
    requires
        annotation_set(ann) == ann,
        ope_rt(x0),
        annotations_rt(ann),
    ensures
        ({
            let w = w_annotated_axiom(SpecAnnotatedAxiom { ax: SpecAxiom::InverseFunctionalObjectProperty(x0), ann }, None);
            let s = a + w + b;
            let q = a.len() + "InverseFunctionalObjectProperty"@.len() + 1int;
            let e0 = q + w_annotations(ann, None).len();
            &&& open_at(s, letters_end(s, a.len() as int)) == Some(q)
            &&& word(s, a.len() as int) == "InverseFunctionalObjectProperty"@
            &&& r_iri(s, a.len() as int, px) is None
            &&& r_annotation_seq(s, q, px) == (Ok::<Seq<SpecAnnotation>, SpecError>(ann), ann.len(), e0)
            &&& ws(s, e0) == e0 + 1
        }),
{
    let ax = SpecAxiom::InverseFunctionalObjectProperty(x0);
    let w = w_annotated_axiom(SpecAnnotatedAxiom { ax, ann }, None);
    assert(w == crate::rendering::w_axiom(ax, Some(ann), None));
    let s = a + w + b;
    let k = "InverseFunctionalObjectProperty"@;
    assert(keyword(k)) by {
        lemma_axiom_branch_inverse_functional_object_property(s, 0, px);
    }
    let w0 = w_ope(x0, None);
    let body = w0;
    let t = w_annotations(ann, None) + seq![' '];
    assert(w == k + seq!['('] + t + body + seq![')']);
    lemma_cut_form(a, k, t, body, b);
    lemma_keyword_at(a, k, seq!['('] + t + body + seq![')'] + b, px);
    lemma_ope_start(x0);
    lemma_read_written_annotations_before(s, a + k + seq!['('], ann, body + seq![')'] + b, px);
}

/// How the written form of a `InverseFunctionalObjectProperty` axiom goes on after its annotations:
/// its parts, each read as itself, then the closing parenthesis.
#[verifier::spinoff_prover]
#[verifier::rlimit(100)]
pub proof fn lemma_read_written_inverse_functional_object_property_parts(a: Seq<char>, x0: SpecObjectPropertyExpression, ann: Seq<SpecAnnotation>, b: Seq<char>, px: Px)
    requires
        annotation_set(ann) == ann,
        ope_rt(x0),
    ensures
        ({
            let w = w_annotated_axiom(SpecAnnotatedAxiom { ax: SpecAxiom::InverseFunctionalObjectProperty(x0), ann }, None);
            let s = a + w + b;
            let q = a.len() + "InverseFunctionalObjectProperty"@.len() + 1int;
            let e0 = q + w_annotations(ann, None).len();
            let e1 = e0 + 1 + w_ope(x0, None).len();
            &&& r_ope(s, e0 + 1, px) == Some((Ok::<SpecObjectPropertyExpression, SpecError>(x0), e1))
            &&& close_at(s, e1) == Some(e1 + 1)
            &&& e1 + 1 == a.len() + w.len()
        }),
{
    let ax = SpecAxiom::InverseFunctionalObjectProperty(x0);
    let w = w_annotated_axiom(SpecAnnotatedAxiom { ax, ann }, None);
    assert(w == crate::rendering::w_axiom(ax, Some(ann), None));
    let s = a + w + b;
    let k = "InverseFunctionalObjectProperty"@;
    let w0 = w_ope(x0, None);
    let body = w0;
    let t = w_annotations(ann, None) + seq![' '];
    assert(w == k + seq!['('] + t + body + seq![')']);
    lemma_cut_form(a, k, t, body, b);
    lemma_not_name_chars();
    let a1 = a + k + seq!['('] + t;
    lemma_ope_start(x0);
    lemma_starts_after_space(s, a1, w0, seq![')'] + b);
    lemma_read_written_ope(a1, x0, seq![')'] + b, px);
    let e = a1.len() + w0.len() + 0int;
    assert(s[e] == ')');
    assert(ws(s, e) == e);
}

/// See [`lemma_read_written_axiom`]: `InverseFunctionalObjectProperty` axioms.
#[verifier::spinoff_prover]
#[verifier::rlimit(80)]
pub proof fn lemma_read_written_inverse_functional_object_property(a: Seq<char>, x0: SpecObjectPropertyExpression, ann: Seq<SpecAnnotation>, b: Seq<char>, px: Px)
    requires
        annotations_sorted(ann),
        ope_rt(x0),
        annotations_rt(ann),
    ensures
        ({
            let x = SpecAnnotatedAxiom { ax: SpecAxiom::InverseFunctionalObjectProperty(x0), ann };
            let s = a + w_annotated_axiom(x, None) + b;
            &&& r_axiom(s, a.len() as int, px) == Some(
                (Ok::<SpecAnnotatedAxiom, SpecError>(x), a.len() + w_annotated_axiom(x, None).len() + 0int),
            )
            &&& word(s, a.len() as int) != "Import"@
            &&& word(s, a.len() as int) != "Annotation"@
            &&& r_iri(s, a.len() as int, px) is None
            &&& is_letter(w_annotated_axiom(x, None)[0])
        }),
{
    lemma_annotation_set_of_sorted(ann);
    let ax = SpecAxiom::InverseFunctionalObjectProperty(x0);
    let w = w_annotated_axiom(SpecAnnotatedAxiom { ax, ann }, None);
    assert(w == crate::rendering::w_axiom(ax, Some(ann), None));
    let s = a + w + b;
    let q = a.len() + "InverseFunctionalObjectProperty"@.len() + 1int;
    let e0 = q + w_annotations(ann, None).len();
    lemma_read_written_inverse_functional_object_property_head(a, x0, ann, b, px);
    lemma_read_written_inverse_functional_object_property_parts(a, x0, ann, b, px);
    lemma_axiom_branch_inverse_functional_object_property(s, e0 + 1, px);
    lemma_r_axiom_at(s, a.len() as int, px, q, "InverseFunctionalObjectProperty"@, ax, ann, e0, a.len() + w.len() - 1int);
    lemma_keyword_letters("InverseFunctionalObjectProperty"@, 0);
    assert(w[0] == "InverseFunctionalObjectProperty"@[0]);
}

/// How the written form of a `ReflexiveObjectProperty` axiom begins: its keyword, its
/// opening parenthesis and its annotations, each read as itself.
#[verifier::spinoff_prover]
#[verifier::rlimit(40)]
pub proof fn lemma_read_written_reflexive_object_property_head(a: Seq<char>, x0: SpecObjectPropertyExpression, ann: Seq<SpecAnnotation>, b: Seq<char>, px: Px)
    requires
        annotation_set(ann) == ann,
        ope_rt(x0),
        annotations_rt(ann),
    ensures
        ({
            let w = w_annotated_axiom(SpecAnnotatedAxiom { ax: SpecAxiom::ReflexiveObjectProperty(x0), ann }, None);
            let s = a + w + b;
            let q = a.len() + "ReflexiveObjectProperty"@.len() + 1int;
            let e0 = q + w_annotations(ann, None).len();
            &&& open_at(s, letters_end(s, a.len() as int)) == Some(q)
            &&& word(s, a.len() as int) == "ReflexiveObjectProperty"@
            &&& r_iri(s, a.len() as int, px) is None
            &&& r_annotation_seq(s, q, px) == (Ok::<Seq<SpecAnnotation>, SpecError>(ann), ann.len(), e0)
            &&& ws(s, e0) == e0 + 1
        }),
{
    let ax = SpecAxiom::ReflexiveObjectProperty(x0);
    let w = w_annotated_axiom(SpecAnnotatedAxiom { ax, ann }, None);
    assert(w == crate::rendering::w_axiom(ax, Some(ann), None));
    let s = a + w + b;
    let k = "ReflexiveObjectProperty"@;
    assert(keyword(k)) by {
        lemma_axiom_branch_reflexive_object_property(s, 0, px);
    }
    let w0 = w_ope(x0, None);
    let body = w0;
    let t = w_annotations(ann, None) + seq![' '];
    assert(w == k + seq!['('] + t + body + seq![')']);
    lemma_cut_form(a, k, t, body, b);
    lemma_keyword_at(a, k, seq!['('] + t + body + seq![')'] + b, px);
    lemma_ope_start(x0);
    lemma_read_written_annotations_before(s, a + k + seq!['('], ann, body + seq![')'] + b, px);
}

/// How the written form of a `ReflexiveObjectProperty` axiom goes on after its annotations:
/// its parts, each read as itself, then the closing parenthesis.
#[verifier::spinoff_prover]
#[verifier::rlimit(100)]
pub proof fn lemma_read_written_reflexive_object_property_parts(a: Seq<char>, x0: SpecObjectPropertyExpression, ann: Seq<SpecAnnotation>, b: Seq<char>, px: Px)
    requires
        annotation_set(ann) == ann,
        ope_rt(x0),
    ensures
        ({
            let w = w_annotated_axiom(SpecAnnotatedAxiom { ax: SpecAxiom::ReflexiveObjectProperty(x0), ann }, None);
            let s = a + w + b;
            let q = a.len() + "ReflexiveObjectProperty"@.len() + 1int;
            let e0 = q + w_annotations(ann, None).len();
            let e1 = e0 + 1 + w_ope(x0, None).len();
            &&& r_ope(s, e0 + 1, px) == Some((Ok::<SpecObjectPropertyExpression, SpecError>(x0), e1))
            &&& close_at(s, e1) == Some(e1 + 1)
            &&& e1 + 1 == a.len() + w.len()
        }),
{
    let ax = SpecAxiom::ReflexiveObjectProperty(x0);
    let w = w_annotated_axiom(SpecAnnotatedAxiom { ax, ann }, None);
    assert(w == crate::rendering::w_axiom(ax, Some(ann), None));
    let s = a + w + b;
    let k = "ReflexiveObjectProperty"@;
    let w0 = w_ope(x0, None);
    let body = w0;
    let t = w_annotations(ann, None) + seq![' '];
    assert(w == k + seq!['('] + t + body + seq![')']);
    lemma_cut_form(a, k, t, body, b);
    lemma_not_name_chars();
    let a1 = a + k + seq!['('] + t;
    lemma_ope_start(x0);
    lemma_starts_after_space(s, a1, w0, seq![')'] + b);
    lemma_read_written_ope(a1, x0, seq![')'] + b, px);
    let e = a1.len() + w0.len() + 0int;
    assert(s[e] == ')');
    assert(ws(s, e) == e);
}

/// See [`lemma_read_written_axiom`]: `ReflexiveObjectProperty` axioms.
#[verifier::spinoff_prover]
#[verifier::rlimit(80)]
pub proof fn lemma_read_written_reflexive_object_property(a: Seq<char>, x0: SpecObjectPropertyExpression, ann: Seq<SpecAnnotation>, b: Seq<char>, px: Px)
    requires
        annotations_sorted(ann),
        ope_rt(x0),
        annotations_rt(ann),
    ensures
        ({
            let x = SpecAnnotatedAxiom { ax: SpecAxiom::ReflexiveObjectProperty(x0), ann };
            let s = a + w_annotated_axiom(x, None) + b;
            &&& r_axiom(s, a.len() as int, px) == Some(
                (Ok::<SpecAnnotatedAxiom, SpecError>(x), a.len() + w_annotated_axiom(x, None).len() + 0int),
            )
            &&& word(s, a.len() as int) != "Import"@
            &&& word(s, a.len() as int) != "Annotation"@
            &&& r_iri(s, a.len() as int, px) is None
            &&& is_letter(w_annotated_axiom(x, None)[0])
        }),
{
    lemma_annotation_set_of_sorted(ann);
    let ax = SpecAxiom::ReflexiveObjectProperty(x0);
    let w = w_annotated_axiom(SpecAnnotatedAxiom { ax, ann }, None);
    assert(w == crate::rendering::w_axiom(ax, Some(ann), None));
    let s = a + w + b;
    let q = a.len() + "ReflexiveObjectProperty"@.len() + 1int;
    let e0 = q + w_annotations(ann, None).len();
    lemma_read_written_reflexive_object_property_head(a, x0, ann, b, px);
    lemma_read_written_reflexive_object_property_parts(a, x0, ann, b, px);
    lemma_axiom_branch_reflexive_object_property(s, e0 + 1, px);
    lemma_r_axiom_at(s, a.len() as int, px, q, "ReflexiveObjectProperty"@, ax, ann, e0, a.len() + w.len() - 1int);
    lemma_keyword_letters("ReflexiveObjectProperty"@, 0);
    assert(w[0] == "ReflexiveObjectProperty"@[0]);
}

/// How the written form of a `IrreflexiveObjectProperty` axiom begins: its keyword, its
/// opening parenthesis and its annotations, each read as itself.
#[verifier::spinoff_prover]
#[verifier::rlimit(40)]
pub proof fn lemma_read_written_irreflexive_object_property_head(a: Seq<char>, x0: SpecObjectPropertyExpression, ann: Seq<SpecAnnotation>, b: Seq<char>, px: Px)
    requires
        annotation_set(ann) == ann,
        ope_rt(x0),
        annotations_rt(ann),
    ensures
        ({
            let w = w_annotated_axiom(SpecAnnotatedAxiom { ax: SpecAxiom::IrreflexiveObjectProperty(x0), ann }, None);
            let s = a + w + b;
            let q = a.len() + "IrreflexiveObjectProperty"@.len() + 1int;
            let e0 = q + w_annotations(ann, None).len();
            &&& open_at(s, letters_end(s, a.len() as int)) == Some(q)
            &&& word(s, a.len() as int) == "IrreflexiveObjectProperty"@
            &&& r_iri(s, a.len() as int, px) is None
            &&& r_annotation_seq(s, q, px) == (Ok::<Seq<SpecAnnotation>, SpecError>(ann), ann.len(), e0)
            &&& ws(s, e0) == e0 + 1
        }),
{
    let ax = SpecAxiom::IrreflexiveObjectProperty(x0);
    let w = w_annotated_axiom(SpecAnnotatedAxiom { ax, ann }, None);
    assert(w == crate::rendering::w_axiom(ax, Some(ann), None));
    let s = a + w + b;
    let k = "IrreflexiveObjectProperty"@;
    assert(keyword(k)) by {
        lemma_axiom_branch_irreflexive_object_property(s, 0, px);
    }
    let w0 = w_ope(x0, None);
    let body = w0;
    let t = w_annotations(ann, None) + seq![' '];
    assert(w == k + seq!['('] + t + body + seq![')']);
    lemma_cut_form(a, k, t, body, b);
    lemma_keyword_at(a, k, seq!['('] + t + body + seq![')'] + b, px);
    lemma_ope_start(x0);
    lemma_read_written_annotations_before(s, a + k + seq!['('], ann, body + seq![')'] + b, px);
}

/// How the written form of a `IrreflexiveObjectProperty` axiom goes on after its annotations:
/// its parts, each read as itself, then the closing parenthesis.
#[verifier::spinoff_prover]
#[verifier::rlimit(100)]
pub proof fn lemma_read_written_irreflexive_object_property_parts(a: Seq<char>, x0: SpecObjectPropertyExpression, ann: Seq<SpecAnnotation>, b: Seq<char>, px: Px)
    requires
        annotation_set(ann) == ann,
        ope_rt(x0),
    ensures
        ({
            let w = w_annotated_axiom(SpecAnnotatedAxiom { ax: SpecAxiom::IrreflexiveObjectProperty(x0), ann }, None);
            let s = a + w + b;
            let q = a.len() + "IrreflexiveObjectProperty"@.len() + 1int;
            let e0 = q + w_annotations(ann, None).len();
            let e1 = e0 + 1 + w_ope(x0, None).len();
            &&& r_ope(s, e0 + 1, px) == Some((Ok::<SpecObjectPropertyExpression, SpecError>(x0), e1))
            &&& close_at(s, e1) == Some(e1 + 1)
            &&& e1 + 1 == a.len() + w.len()
        }),
{
    let ax = SpecAxiom::IrreflexiveObjectProperty(x0);
    let w = w_annotated_axiom(SpecAnnotatedAxiom { ax, ann }, None);
    assert(w == crate::rendering::w_axiom(ax, Some(ann), None));
    let s = a + w + b;
    let k = "IrreflexiveObjectProperty"@;
    let w0 = w_ope(x0, None);
    let body = w0;
    let t = w_annotations(ann, None) + seq![' '];
    assert(w == k + seq!['('] + t + body + seq![')']);
    lemma_cut_form(a, k, t, body, b);
    lemma_not_name_chars();
    let a1 = a + k + seq!['('] + t;
    lemma_ope_start(x0);
    lemma_starts_after_space(s, a1, w0, seq![')'] + b);
    lemma_read_written_ope(a1, x0, seq![')'] + b, px);
    let e = a1.len() + w0.len() + 0int;
    assert(s[e] == ')');
    assert(ws(s, e) == e);
}

/// See [`lemma_read_written_axiom`]: `IrreflexiveObjectProperty` axioms.
#[verifier::spinoff_prover]
#[verifier::rlimit(80)]
pub proof fn lemma_read_written_irreflexive_object_property(a: Seq<char>, x0: SpecObjectPropertyExpression, ann: Seq<SpecAnnotation>, b: Seq<char>, px: Px)
    requires
        annotations_sorted(ann),
        ope_rt(x0),
        annotations_rt(ann),
    ensures
        ({
            let x = SpecAnnotatedAxiom { ax: SpecAxiom::IrreflexiveObjectProperty(x0), ann };
            let s = a + w_annotated_axiom(x, None) + b;
            &&& r_axiom(s, a.len() as int, px) == Some(
                (Ok::<SpecAnnotatedAxiom, SpecError>(x), a.len() + w_annotated_axiom(x, None).len() + 0int),
            )
            &&& word(s, a.len() as int) != "Import"@
            &&& word(s, a.len() as int) != "Annotation"@
            &&& r_iri(s, a.len() as int, px) is None
            &&& is_letter(w_annotated_axiom(x, None)[0])
        }),
{
    lemma_annotation_set_of_sorted(ann);
    let ax = SpecAxiom::IrreflexiveObjectProperty(x0);
    let w = w_annotated_axiom(SpecAnnotatedAxiom { ax, ann }, None);
    assert(w == crate::rendering::w_axiom(ax, Some(ann), None));
    let s = a + w + b;
    let q = a.len() + "IrreflexiveObjectProperty"@.len() + 1int;
    let e0 = q + w_annotations(ann, None).len();
    lemma_read_written_irreflexive_object_property_head(a, x0, ann, b, px);
    lemma_read_written_irreflexive_object_property_parts(a, x0, ann, b, px);
    lemma_axiom_branch_irreflexive_object_property(s, e0 + 1, px);
    lemma_r_axiom_at(s, a.len() as int, px, q, "IrreflexiveObjectProperty"@, ax, ann, e0, a.len() + w.len() - 1int);
    lemma_keyword_letters("IrreflexiveObjectProperty"@, 0);
    assert(w[0] == "IrreflexiveObjectProperty"@[0]);
}

/// How the written form of a `SymmetricObjectProperty` axiom begins: its keyword, its
/// opening parenthesis and its annotations, each read as itself.
#[verifier::spinoff_prover]
#[verifier::rlimit(40)]
pub proof fn lemma_read_written_symmetric_object_property_head(a: Seq<char>, x0: SpecObjectPropertyExpression, ann: Seq<SpecAnnotation>, b: Seq<char>, px: Px)
    requires
        annotation_set(ann) == ann,
        ope_rt(x0),
        annotations_rt(ann),
    ensures
        ({
            let w = w_annotated_axiom(SpecAnnotatedAxiom { ax: SpecAxiom::SymmetricObjectProperty(x0), ann }, None);
            let s = a + w + b;
            let q = a.len() + "SymmetricObjectProperty"@.len() + 1int;
            let e0 = q + w_annotations(ann, None).len();
            &&& open_at(s, letters_end(s, a.len() as int)) == Some(q)
            &&& word(s, a.len() as int) == "SymmetricObjectProperty"@
            &&& r_iri(s, a.len() as int, px) is None
            &&& r_annotation_seq(s, q, px) == (Ok::<Seq<SpecAnnotation>, SpecError>(ann), ann.len(), e0)
            &&& ws(s, e0) == e0 + 1
        }),
{
    let ax = SpecAxiom::SymmetricObjectProperty(x0);
    let w = w_annotated_axiom(SpecAnnotatedAxiom { ax, ann }, None);
    assert(w == crate::rendering::w_axiom(ax, Some(ann), None));
    let s = a + w + b;
    let k = "SymmetricObjectProperty"@;
    assert(keyword(k)) by {
        lemma_axiom_branch_symmetric_object_property(s, 0, px);
    }
    let w0 = w_ope(x0, None);
    let body = w0;
    let t = w_annotations(ann, None) + seq![' '];
    assert(w == k + seq!['('] + t + body + seq![')']);
    lemma_cut_form(a, k, t, body, b);
    lemma_keyword_at(a, k, seq!['('] + t + body + seq![')'] + b, px);
    lemma_ope_start(x0);
    lemma_read_written_annotations_before(s, a + k + seq!['('], ann, body + seq![')'] + b, px);
}

/// How the written form of a `SymmetricObjectProperty` axiom goes on after its annotations:
/// its parts, each read as itself, then the closing parenthesis.
#[verifier::spinoff_prover]
#[verifier::rlimit(100)]
pub proof fn lemma_read_written_symmetric_object_property_parts(a: Seq<char>, x0: SpecObjectPropertyExpression, ann: Seq<SpecAnnotation>, b: Seq<char>, px: Px)
    requires
        annotation_set(ann) == ann,
        ope_rt(x0),
    ensures
        ({
            let w = w_annotated_axiom(SpecAnnotatedAxiom { ax: SpecAxiom::SymmetricObjectProperty(x0), ann }, None);
            let s = a + w + b;
            let q = a.len() + "SymmetricObjectProperty"@.len() + 1int;
            let e0 = q + w_annotations(ann, None).len();
            let e1 = e0 + 1 + w_ope(x0, None).len();
            &&& r_ope(s, e0 + 1, px) == Some((Ok::<SpecObjectPropertyExpression, SpecError>(x0), e1))
            &&& close_at(s, e1) == Some(e1 + 1)
            &&& e1 + 1 == a.len() + w.len()
        }),
{
    let ax = SpecAxiom::SymmetricObjectProperty(x0);
    let w = w_annotated_axiom(SpecAnnotatedAxiom { ax, ann }, None);
    assert(w == crate::rendering::w_axiom(ax, Some(ann), None));
    let s = a + w + b;
    let k = "SymmetricObjectProperty"@;
    let w0 = w_ope(x0, None);
    let body = w0;
    let t = w_annotations(ann, None) + seq![' '];
    assert(w == k + seq!['('] + t + body + seq![')']);
    lemma_cut_form(a, k, t, body, b);
    lemma_not_name_chars();
    let a1 = a + k + seq!['('] + t;
    lemma_ope_start(x0);
    lemma_starts_after_space(s, a1, w0, seq![')'] + b);
    lemma_read_written_ope(a1, x0, seq![')'] + b, px);
    let e = a1.len() + w0.len() + 0int;
    assert(s[e] == ')');
    assert(ws(s, e) == e);
}

/// See [`lemma_read_written_axiom`]: `SymmetricObjectProperty` axioms.
#[verifier::spinoff_prover]
#[verifier::rlimit(80)]
pub proof fn lemma_read_written_symmetric_object_property(a: Seq<char>, x0: SpecObjectPropertyExpression, ann: Seq<SpecAnnotation>, b: Seq<char>, px: Px)
    requires
        annotations_sorted(ann),
        ope_rt(x0),
        annotations_rt(ann),
    ensures
        ({
            let x = SpecAnnotatedAxiom { ax: SpecAxiom::SymmetricObjectProperty(x0), ann };
            let s = a + w_annotated_axiom(x, None) + b;
            &&& r_axiom(s, a.len() as int, px) == Some(
                (Ok::<SpecAnnotatedAxiom, SpecError>(x), a.len() + w_annotated_axiom(x, None).len() + 0int),
            )
            &&& word(s, a.len() as int) != "Import"@
            &&& word(s, a.len() as int) != "Annotation"@
            &&& r_iri(s, a.len() as int, px) is None
            &&& is_letter(w_annotated_axiom(x, None)[0])
        }),
{
    lemma_annotation_set_of_sorted(ann);
    let ax = SpecAxiom::SymmetricObjectProperty(x0);
    let w = w_annotated_axiom(SpecAnnotatedAxiom { ax, ann }, None);
    assert(w == crate::rendering::w_axiom(ax, Some(ann), None));
    let s = a + w + b;
    let q = a.len() + "SymmetricObjectProperty"@.len() + 1int;
    let e0 = q + w_annotations(ann, None).len();
    lemma_read_written_symmetric_object_property_head(a, x0, ann, b, px);
    lemma_read_written_symmetric_object_property_parts(a, x0, ann, b, px);
    lemma_axiom_branch_symmetric_object_property(s, e0 + 1, px);
    lemma_r_axiom_at(s, a.len() as int, px, q, "SymmetricObjectProperty"@, ax, ann, e0, a.len() + w.len() - 1int);
    lemma_keyword_letters("SymmetricObjectProperty"@, 0);
    assert(w[0] == "SymmetricObjectProperty"@[0]);
}

/// How the written form of a `AsymmetricObjectProperty` axiom begins: its keyword, its
/// opening parenthesis and its annotations, each read as itself.
#[verifier::spinoff_prover]
#[verifier::rlimit(40)]
pub proof fn lemma_read_written_asymmetric_object_property_head(a: Seq<char>, x0: SpecObjectPropertyExpression, ann: Seq<SpecAnnotation>, b: Seq<char>, px: Px)
    requires
        annotation_set(ann) == ann,
        ope_rt(x0),
        annotations_rt(ann),
    ensures
        ({
            let w = w_annotated_axiom(SpecAnnotatedAxiom { ax: SpecAxiom::AsymmetricObjectProperty(x0), ann }, None);
            let s = a + w + b;
            let q = a.len() + "AsymmetricObjectProperty"@.len() + 1int;
            let e0 = q + w_annotations(ann, None).len();
            &&& open_at(s, letters_end(s, a.len() as int)) == Some(q)
            &&& word(s, a.len() as int) == "AsymmetricObjectProperty"@
            &&& r_iri(s, a.len() as int, px) is None
            &&& r_annotation_seq(s, q, px) == (Ok::<Seq<SpecAnnotation>, SpecError>(ann), ann.len(), e0)
            &&& ws(s, e0) == e0 + 1
        }),
{
    let ax = SpecAxiom::AsymmetricObjectProperty(x0);
    let w = w_annotated_axiom(SpecAnnotatedAxiom { ax, ann }, None);
    assert(w == crate::rendering::w_axiom(ax, Some(ann), None));
    let s = a + w + b;
    let k = "AsymmetricObjectProperty"@;
    assert(keyword(k)) by {
        lemma_axiom_branch_asymmetric_object_property(s, 0, px);
    }
    let w0 = w_ope(x0, None);
    let body = w0;
    let t = w_annotations(ann, None) + seq![' '];
    assert(w == k + seq!['('] + t + body + seq![')']);
    lemma_cut_form(a, k, t, body, b);
    lemma_keyword_at(a, k, seq!['('] + t + body + seq![')'] + b, px);
    lemma_ope_start(x0);
    lemma_read_written_annotations_before(s, a + k + seq!['('], ann, body + seq![')'] + b, px);
}

/// How the written form of a `AsymmetricObjectProperty` axiom goes on after its annotations:
/// its parts, each read as itself, then the closing parenthesis.
#[verifier::spinoff_prover]
#[verifier::rlimit(100)]
pub proof fn lemma_read_written_asymmetric_object_property_parts(a: Seq<char>, x0: SpecObjectPropertyExpression, ann: Seq<SpecAnnotation>, b: Seq<char>, px: Px)
    requires
        annotation_set(ann) == ann,
        ope_rt(x0),
    ensures
        ({
            let w = w_annotated_axiom(SpecAnnotatedAxiom { ax: SpecAxiom::AsymmetricObjectProperty(x0), ann }, None);
            let s = a + w + b;
            let q = a.len() + "AsymmetricObjectProperty"@.len() + 1int;
            let e0 = q + w_annotations(ann, None).len();
            let e1 = e0 + 1 + w_ope(x0, None).len();
            &&& r_ope(s, e0 + 1, px) == Some((Ok::<SpecObjectPropertyExpression, SpecError>(x0), e1))
            &&& close_at(s, e1) == Some(e1 + 1)
            &&& e1 + 1 == a.len() + w.len()
        }),
{
    let ax = SpecAxiom::AsymmetricObjectProperty(x0);
    let w = w_annotated_axiom(SpecAnnotatedAxiom { ax, ann }, None);
    assert(w == crate::rendering::w_axiom(ax, Some(ann), None));
    let s = a + w + b;
    let k = "AsymmetricObjectProperty"@;
    let w0 = w_ope(x0, None);
    let body = w0;
    let t = w_annotations(ann, None) + seq![' '];
    assert(w == k + seq!['('] + t + body + seq![')']);
    lemma_cut_form(a, k, t, body, b);
    lemma_not_name_chars();
    let a1 = a + k + seq!['('] + t;
    lemma_ope_start(x0);
    lemma_starts_after_space(s, a1, w0, seq![')'] + b);
    lemma_read_written_ope(a1, x0, seq![')'] + b, px);
    let e = a1.len() + w0.len() + 0int;
    assert(s[e] == ')');
    assert(ws(s, e) == e);
}

/// See [`lemma_read_written_axiom`]: `AsymmetricObjectProperty` axioms.
#[verifier::spinoff_prover]
#[verifier::rlimit(80)]
pub proof fn lemma_read_written_asymmetric_object_property(a: Seq<char>, x0: SpecObjectPropertyExpression, ann: Seq<SpecAnnotation>, b: Seq<char>, px: Px)
    requires
        annotations_sorted(ann),
        ope_rt(x0),
        annotations_rt(ann),
    ensures
        ({
            let x = SpecAnnotatedAxiom { ax: SpecAxiom::AsymmetricObjectProperty(x0), ann };
            let s = a + w_annotated_axiom(x, None) + b;
            &&& r_axiom(s, a.len() as int, px) == Some(
                (Ok::<SpecAnnotatedAxiom, SpecError>(x), a.len() + w_annotated_axiom(x, None).len() + 0int),
            )
            &&& word(s, a.len() as int) != "Import"@
            &&& word(s, a.len() as int) != "Annotation"@
            &&& r_iri(s, a.len() as int, px) is None
            &&& is_letter(w_annotated_axiom(x, None)[0])
        }),
{
    lemma_annotation_set_of_sorted(ann);
    let ax = SpecAxiom::AsymmetricObjectProperty(x0);
    let w = w_annotated_axiom(SpecAnnotatedAxiom { ax, ann }, None);
    assert(w == crate::rendering::w_axiom(ax, Some(ann), None));
    let s = a + w + b;
    let q = a.len() + "AsymmetricObjectProperty"@.len() + 1int;
    let e0 = q + w_annotations(ann, None).len();
    lemma_read_written_asymmetric_object_property_head(a, x0, ann, b, px);
    lemma_read_written_asymmetric_object_property_parts(a, x0, ann, b, px);
    lemma_axiom_branch_asymmetric_object_property(s, e0 + 1, px);
    lemma_r_axiom_at(s, a.len() as int, px, q, "AsymmetricObjectProperty"@, ax, ann, e0, a.len() + w.len() - 1int);
    lemma_keyword_letters("AsymmetricObjectProperty"@, 0);
    assert(w[0] == "AsymmetricObjectProperty"@[0]);
}

/// How the written form of a `SubDataPropertyOf` axiom begins: its keyword, its
/// opening parenthesis and its annotations, each read as itself.
#[verifier::spinoff_prover]
#[verifier::rlimit(40)]
pub proof fn lemma_read_written_sub_data_property_of_head(a: Seq<char>, x0: Seq<char>, x1: Seq<char>, ann: Seq<SpecAnnotation>, b: Seq<char>, px: Px)
    requires
        annotation_set(ann) == ann,
        iri_text(x0),
        iri_text(x1),
        annotations_rt(ann),
    ensures
        ({
            let w = w_annotated_axiom(SpecAnnotatedAxiom { ax: SpecAxiom::SubDataPropertyOf { sub: x0, sup: x1 }, ann }, None);
            let s = a + w + b;
            let q = a.len() + "SubDataPropertyOf"@.len() + 1int;
            let e0 = q + w_annotations(ann, None).len();
            &&& open_at(s, letters_end(s, a.len() as int)) == Some(q)
            &&& word(s, a.len() as int) == "SubDataPropertyOf"@
            &&& r_iri(s, a.len() as int, px) is None
            &&& r_annotation_seq(s, q, px) == (Ok::<Seq<SpecAnnotation>, SpecError>(ann), ann.len(), e0)
            &&& ws(s, e0) == e0 + 1
        }),
{
    let ax = SpecAxiom::SubDataPropertyOf { sub: x0, sup: x1 };
    let w = w_annotated_axiom(SpecAnnotatedAxiom { ax, ann }, None);
    assert(w == crate::rendering::w_axiom(ax, Some(ann), None));
    let s = a + w + b;
    let k = "SubDataPropertyOf"@;
    assert(keyword(k)) by {
        lemma_axiom_branch_sub_data_property_of(s, 0, px);
    }
    let w0 = w_iri(x0, None);
    let w1 = w_iri(x1, None);
    let body = w0 + seq![' '] + w1;
    let t = w_annotations(ann, None) + seq![' '];
    assert(w == k + seq!['('] + t + body + seq![')']);
    lemma_cut_form(a, k, t, body, b);
    lemma_keyword_at(a, k, seq!['('] + t + body + seq![')'] + b, px);
    lemma_iri_start(x0);
    lemma_read_written_annotations_before(s, a + k + seq!['('], ann, body + seq![')'] + b, px);
}

/// How the written form of a `SubDataPropertyOf` axiom goes on after its annotations:
/// its parts, each read as itself, then the closing parenthesis.
#[verifier::spinoff_prover]
#[verifier::rlimit(100)]
pub proof fn lemma_read_written_sub_data_property_of_parts(a: Seq<char>, x0: Seq<char>, x1: Seq<char>, ann: Seq<SpecAnnotation>, b: Seq<char>, px: Px)
    requires
        annotation_set(ann) == ann,
        iri_text(x0),
        iri_text(x1),
    ensures
        ({
            let w = w_annotated_axiom(SpecAnnotatedAxiom { ax: SpecAxiom::SubDataPropertyOf { sub: x0, sup: x1 }, ann }, None);
            let s = a + w + b;
            let q = a.len() + "SubDataPropertyOf"@.len() + 1int;
            let e0 = q + w_annotations(ann, None).len();
            let e1 = e0 + 1 + w_iri(x0, None).len();
            let e2 = e1 + 1 + w_iri(x1, None).len();
            &&& r_iri(s, e0 + 1, px) == Some((Ok::<Seq<char>, SpecError>(x0), e1))
            &&& r_iri(s, ws(s, e1), px) == Some((Ok::<Seq<char>, SpecError>(x1), e2))
            &&& close_at(s, e2) == Some(e2 + 1)
            &&& e2 + 1 == a.len() + w.len()
        }),
{
    let ax = SpecAxiom::SubDataPropertyOf { sub: x0, sup: x1 };
    let w = w_annotated_axiom(SpecAnnotatedAxiom { ax, ann }, None);
    assert(w == crate::rendering::w_axiom(ax, Some(ann), None));
    let s = a + w + b;
    let k = "SubDataPropertyOf"@;
    let w0 = w_iri(x0, None);
    let w1 = w_iri(x1, None);
    let body = w0 + seq![' '] + w1;
    let t = w_annotations(ann, None) + seq![' '];
    assert(w == k + seq!['('] + t + body + seq![')']);
    lemma_cut_form(a, k, t, body, b);
    lemma_not_name_chars();
    let a1 = a + k + seq!['('] + t;
    lemma_cut_pair(a1, w0, w1, seq![')'] + b);
    lemma_iri_start(x0);
    lemma_starts_after_space(s, a1, w0, seq![' '] + w1 + (seq![')'] + b));
    lemma_read_written_iri(a1, x0, seq![' '] + w1 + (seq![')'] + b), px);
    let a2 = a1 + w0 + seq![' '];
    lemma_iri_start(x1);
    lemma_starts_after_space(s, a2, w1, seq![')'] + b);
    lemma_read_written_iri(a2, x1, seq![')'] + b, px);
    let e = a2.len() + w1.len() + 0int;
    assert(s[e] == ')');
    assert(ws(s, e) == e);
}

/// See [`lemma_read_written_axiom`]: `SubDataPropertyOf` axioms.
#[verifier::spinoff_prover]
#[verifier::rlimit(80)]
pub proof fn lemma_read_written_sub_data_property_of(a: Seq<char>, x0: Seq<char>, x1: Seq<char>, ann: Seq<SpecAnnotation>, b: Seq<char>, px: Px)
    requires
        annotations_sorted(ann),
        iri_text(x0),
        iri_text(x1),
        annotations_rt(ann),
    ensures
        ({
            let x = SpecAnnotatedAxiom { ax: SpecAxiom::SubDataPropertyOf { sub: x0, sup: x1 }, ann };
            let s = a + w_annotated_axiom(x, None) + b;
            &&& r_axiom(s, a.len() as int, px) == Some(
                (Ok::<SpecAnnotatedAxiom, SpecError>(x), a.len() + w_annotated_axiom(x, None).len() + 0int),
            )
            &&& word(s, a.len() as int) != "Import"@
            &&& word(s, a.len() as int) != "Annotation"@
            &&& r_iri(s, a.len() as int, px) is None
            &&& is_letter(w_annotated_axiom(x, None)[0])
        }),
{
    lemma_annotation_set_of_sorted(ann);
    let ax = SpecAxiom::SubDataPropertyOf { sub: x0, sup: x1 };
    let w = w_annotated_axiom(SpecAnnotatedAxiom { ax, ann }, None);
    assert(w == crate::rendering::w_axiom(ax, Some(ann), None));
    let s = a + w + b;
    let q = a.len() + "SubDataPropertyOf"@.len() + 1int;
    let e0 = q + w_annotations(ann, None).len();
    lemma_read_written_sub_data_property_of_head(a, x0, x1, ann, b, px);
    lemma_read_written_sub_data_property_of_parts(a, x0, x1, ann, b, px);
    lemma_axiom_branch_sub_data_property_of(s, e0 + 1, px);
    lemma_r_axiom_at(s, a.len() as int, px, q, "SubDataPropertyOf"@, ax, ann, e0, a.len() + w.len() - 1int);
    lemma_keyword_letters("SubDataPropertyOf"@, 0);
    assert(w[0] == "SubDataPropertyOf"@[0]);
}

/// How the written form of a `FunctionalDataProperty` axiom begins: its keyword, its
/// opening parenthesis and its annotations, each read as itself.
#[verifier::spinoff_prover]
#[verifier::rlimit(40)]
pub proof fn lemma_read_written_functional_data_property_head(a: Seq<char>, x0: Seq<char>, ann: Seq<SpecAnnotation>, b: Seq<char>, px: Px)
    requires
        annotation_set(ann) == ann,
        iri_text(x0),
        annotations_rt(ann),
    ensures
        ({
            let w = w_annotated_axiom(SpecAnnotatedAxiom { ax: SpecAxiom::FunctionalDataProperty(x0), ann }, None);
            let s = a + w + b;
            let q = a.len() + "FunctionalDataProperty"@.len() + 1int;
            let e0 = q + w_annotations(ann, None).len();
            &&& open_at(s, letters_end(s, a.len() as int)) == Some(q)
            &&& word(s, a.len() as int) == "FunctionalDataProperty"@
            &&& r_iri(s, a.len() as int, px) is None
            &&& r_annotation_seq(s, q, px) == (Ok::<Seq<SpecAnnotation>, SpecError>(ann), ann.len(), e0)
            &&& ws(s, e0) == e0 + 1
        }),
{
    let ax = SpecAxiom::FunctionalDataProperty(x0);
    let w = w_annotated_axiom(SpecAnnotatedAxiom { ax, ann }, None);
    assert(w == crate::rendering::w_axiom(ax, Some(ann), None));
    let s = a + w + b;
    let k = "FunctionalDataProperty"@;
    assert(keyword(k)) by {
        lemma_axiom_branch_functional_data_property(s, 0, px);
    }
    let w0 = w_iri(x0, None);
    let body = w0;
    let t = w_annotations(ann, None) + seq![' '];
    assert(w == k + seq!['('] + t + body + seq![')']);
    lemma_cut_form(a, k, t, body, b);
    lemma_keyword_at(a, k, seq!['('] + t + body + seq![')'] + b, px);
    lemma_iri_start(x0);
    lemma_read_written_annotations_before(s, a + k + seq!['('], ann, body + seq![')'] + b, px);
}

/// How the written form of a `FunctionalDataProperty` axiom goes on after its annotations:
/// its parts, each read as itself, then the closing parenthesis.
#[verifier::spinoff_prover]
#[verifier::rlimit(100)]
pub proof fn lemma_read_written_functional_data_property_parts(a: Seq<char>, x0: Seq<char>, ann: Seq<SpecAnnotation>, b: Seq<char>, px: Px)
    requires
        annotation_set(ann) == ann,
        iri_text(x0),
    ensures
        ({
            let w = w_annotated_axiom(SpecAnnotatedAxiom { ax: SpecAxiom::FunctionalDataProperty(x0), ann }, None);
            let s = a + w + b;
            let q = a.len() + "FunctionalDataProperty"@.len() + 1int;
            let e0 = q + w_annotations(ann, None).len();
            let e1 = e0 + 1 + w_iri(x0, None).len();
            &&& r_iri(s, e0 + 1, px) == Some((Ok::<Seq<char>, SpecError>(x0), e1))
            &&& close_at(s, e1) == Some(e1 + 1)
            &&& e1 + 1 == a.len() + w.len()
        }),
{
    let ax = SpecAxiom::FunctionalDataProperty(x0);
    let w = w_annotated_axiom(SpecAnnotatedAxiom { ax, ann }, None);
    assert(w == crate::rendering::w_axiom(ax, Some(ann), None));
    let s = a + w + b;
    let k = "FunctionalDataProperty"@;
    let w0 = w_iri(x0, None);
    let body = w0;
    let t = w_annotations(ann, None) + seq![' '];
    assert(w == k + seq!['('] + t + body + seq![')']);
    lemma_cut_form(a, k, t, body, b);
    lemma_not_name_chars();
    let a1 = a + k + seq!['('] + t;
    lemma_iri_start(x0);
    lemma_starts_after_space(s, a1, w0, seq![')'] + b);
    lemma_read_written_iri(a1, x0, seq![')'] + b, px);
    let e = a1.len() + w0.len() + 0int;
    assert(s[e] == ')');
    assert(ws(s, e) == e);
}

/// See [`lemma_read_written_axiom`]: `FunctionalDataProperty` axioms.
#[verifier::spinoff_prover]
#[verifier::rlimit(80)]
pub proof fn lemma_read_written_functional_data_property(a: Seq<char>, x0: Seq<char>, ann: Seq<SpecAnnotation>, b: Seq<char>, px: Px)
    requires
        annotations_sorted(ann),
        iri_text(x0),
        annotations_rt(ann),
    ensures
        ({
            let x = SpecAnnotatedAxiom { ax: SpecAxiom::FunctionalDataProperty(x0), ann };
            let s = a + w_annotated_axiom(x, None) + b;
            &&& r_axiom(s, a.len() as int, px) == Some(
                (Ok::<SpecAnnotatedAxiom, SpecError>(x), a.len() + w_annotated_axiom(x, None).len() + 0int),
            )
            &&& word(s, a.len() as int) != "Import"@
            &&& word(s, a.len() as int) != "Annotation"@
            &&& r_iri(s, a.len() as int, px) is None
            &&& is_letter(w_annotated_axiom(x, None)[0])
        }),
{
    lemma_annotation_set_of_sorted(ann);
    let ax = SpecAxiom::FunctionalDataProperty(x0);
    let w = w_annotated_axiom(SpecAnnotatedAxiom { ax, ann }, None);
    assert(w == crate::rendering::w_axiom(ax, Some(ann), None));
    let s = a + w + b;
    let q = a.len() + "FunctionalDataProperty"@.len() + 1int;
    let e0 = q + w_annotations(ann, None).len();
    lemma_read_written_functional_data_property_head(a, x0, ann, b, px);
    lemma_read_written_functional_data_property_parts(a, x0, ann, b, px);
    lemma_axiom_branch_functional_data_property(s, e0 + 1, px);
    lemma_r_axiom_at(s, a.len() as int, px, q, "FunctionalDataProperty"@, ax, ann, e0, a.len() + w.len() - 1int);
    lemma_keyword_letters("FunctionalDataProperty"@, 0);
    assert(w[0] == "FunctionalDataProperty"@[0]);
}

/// How the written form of a `DataPropertyDomain` axiom begins: its keyword, its
/// opening parenthesis and its annotations, each read as itself.
#[verifier::spinoff_prover]
#[verifier::rlimit(40)]
pub proof fn lemma_read_written_data_property_domain_head(a: Seq<char>, x0: Seq<char>, x1: SpecClassExpression, ann: Seq<SpecAnnotation>, b: Seq<char>, px: Px)
    requires
        annotation_set(ann) == ann,
        iri_text(x0),
        ce_rt(x1),
        annotations_rt(ann),
    ensures
        ({
            let w = w_annotated_axiom(SpecAnnotatedAxiom { ax: SpecAxiom::DataPropertyDomain { dp: x0, ce: x1 }, ann }, None);
            let s = a + w + b;
            let q = a.len() + "DataPropertyDomain"@.len() + 1int;
            let e0 = q + w_annotations(ann, None).len();
            &&& open_at(s, letters_end(s, a.len() as int)) == Some(q)
            &&& word(s, a.len() as int) == "DataPropertyDomain"@
            &&& r_iri(s, a.len() as int, px) is None
            &&& r_annotation_seq(s, q, px) == (Ok::<Seq<SpecAnnotation>, SpecError>(ann), ann.len(), e0)
            &&& ws(s, e0) == e0 + 1
        }),
{
    let ax = SpecAxiom::DataPropertyDomain { dp: x0, ce: x1 };
    let w = w_annotated_axiom(SpecAnnotatedAxiom { ax, ann }, None);
    assert(w == crate::rendering::w_axiom(ax, Some(ann), None));
    let s = a + w + b;
    let k = "DataPropertyDomain"@;
    assert(keyword(k)) by {
        lemma_axiom_branch_data_property_domain(s, 0, px);
    }
    let w0 = w_iri(x0, None);
    let w1 = w_ce(x1, None);
    let body = w0 + seq![' '] + w1;
    let t = w_annotations(ann, None) + seq![' '];
    assert(w == k + seq!['('] + t + body + seq![')']);
    lemma_cut_form(a, k, t, body, b);
    lemma_keyword_at(a, k, seq!['('] + t + body + seq![')'] + b, px);
    lemma_iri_start(x0);
    lemma_read_written_annotations_before(s, a + k + seq!['('], ann, body + seq![')'] + b, px);
}

/// How the written form of a `DataPropertyDomain` axiom goes on after its annotations:
/// its parts, each read as itself, then the closing parenthesis.
#[verifier::spinoff_prover]
#[verifier::rlimit(100)]
pub proof fn lemma_read_written_data_property_domain_parts(a: Seq<char>, x0: Seq<char>, x1: SpecClassExpression, ann: Seq<SpecAnnotation>, b: Seq<char>, px: Px)
    requires
        annotation_set(ann) == ann,
        iri_text(x0),
        ce_rt(x1),
    ensures
        ({
            let w = w_annotated_axiom(SpecAnnotatedAxiom { ax: SpecAxiom::DataPropertyDomain { dp: x0, ce: x1 }, ann }, None);
            let s = a + w + b;
            let q = a.len() + "DataPropertyDomain"@.len() + 1int;
            let e0 = q + w_annotations(ann, None).len();
            let e1 = e0 + 1 + w_iri(x0, None).len();
            let e2 = e1 + 1 + w_ce(x1, None).len();
            &&& r_iri(s, e0 + 1, px) == Some((Ok::<Seq<char>, SpecError>(x0), e1))
            &&& r_ce(s, ws(s, e1), px) == Some((Ok::<SpecClassExpression, SpecError>(x1), e2))
            &&& close_at(s, e2) == Some(e2 + 1)
            &&& e2 + 1 == a.len() + w.len()
        }),
{
    let ax = SpecAxiom::DataPropertyDomain { dp: x0, ce: x1 };
    let w = w_annotated_axiom(SpecAnnotatedAxiom { ax, ann }, None);
    assert(w == crate::rendering::w_axiom(ax, Some(ann), None));
    let s = a + w + b;
    let k = "DataPropertyDomain"@;
    let w0 = w_iri(x0, None);
    let w1 = w_ce(x1, None);
    let body = w0 + seq![' '] + w1;
    let t = w_annotations(ann, None) + seq![' '];
    assert(w == k + seq!['('] + t + body + seq![')']);
    lemma_cut_form(a, k, t, body, b);
    lemma_not_name_chars();
    let a1 = a + k + seq!['('] + t;
    lemma_cut_pair(a1, w0, w1, seq![')'] + b);
    lemma_iri_start(x0);
    lemma_starts_after_space(s, a1, w0, seq![' '] + w1 + (seq![')'] + b));
    lemma_read_written_iri(a1, x0, seq![' '] + w1 + (seq![')'] + b), px);
    let a2 = a1 + w0 + seq![' '];
    lemma_ce_start(x1);
    lemma_starts_after_space(s, a2, w1, seq![')'] + b);
    lemma_read_written_ce(a2, x1, seq![')'] + b, px);
    let e = a2.len() + w1.len() + 0int;
    assert(s[e] == ')');
    assert(ws(s, e) == e);
}

/// See [`lemma_read_written_axiom`]: `DataPropertyDomain` axioms.
#[verifier::spinoff_prover]
#[verifier::rlimit(80)]
pub proof fn lemma_read_written_data_property_domain(a: Seq<char>, x0: Seq<char>, x1: SpecClassExpression, ann: Seq<SpecAnnotation>, b: Seq<char>, px: Px)
    requires
        annotations_sorted(ann),
        iri_text(x0),
        ce_rt(x1),
        annotations_rt(ann),
    ensures
        ({
            let x = SpecAnnotatedAxiom { ax: SpecAxiom::DataPropertyDomain { dp: x0, ce: x1 }, ann };
            let s = a + w_annotated_axiom(x, None) + b;
            &&& r_axiom(s, a.len() as int, px) == Some(
                (Ok::<SpecAnnotatedAxiom, SpecError>(x), a.len() + w_annotated_axiom(x, None).len() + 0int),
            )
            &&& word(s, a.len() as int) != "Import"@
            &&& word(s, a.len() as int) != "Annotation"@
            &&& r_iri(s, a.len() as int, px) is None
            &&& is_letter(w_annotated_axiom(x, None)[0])
        }),
{
    lemma_annotation_set_of_sorted(ann);
    let ax = SpecAxiom::DataPropertyDomain { dp: x0, ce: x1 };
    let w = w_annotated_axiom(SpecAnnotatedAxiom { ax, ann }, None);
    assert(w == crate::rendering::w_axiom(ax, Some(ann), None));
    let s = a + w + b;
    let q = a.len() + "DataPropertyDomain"@.len() + 1int;
    let e0 = q + w_annotations(ann, None).len();
    lemma_read_written_data_property_domain_head(a, x0, x1, ann, b, px);
    lemma_read_written_data_property_domain_parts(a, x0, x1, ann, b, px);
    lemma_axiom_branch_data_property_domain(s, e0 + 1, px);
    lemma_r_axiom_at(s, a.len() as int, px, q, "DataPropertyDomain"@, ax, ann, e0, a.len() + w.len() - 1int);
    lemma_keyword_letters("DataPropertyDomain"@, 0);
    assert(w[0] == "DataPropertyDomain"@[0]);
}

/// How the written form of a `DataPropertyRange` axiom begins: its keyword, its
/// opening parenthesis and its annotations, each read as itself.
#[verifier::spinoff_prover]
#[verifier::rlimit(40)]
pub proof fn lemma_read_written_data_property_range_head(a: Seq<char>, x0: Seq<char>, x1: SpecDataRange, ann: Seq<SpecAnnotation>, b: Seq<char>, px: Px)
    requires
        annotation_set(ann) == ann,
        iri_text(x0),
        dr_rt(x1),
        annotations_rt(ann),
    ensures
        ({
            let w = w_annotated_axiom(SpecAnnotatedAxiom { ax: SpecAxiom::DataPropertyRange { dp: x0, dr: x1 }, ann }, None);
            let s = a + w + b;
            let q = a.len() + "DataPropertyRange"@.len() + 1int;
            let e0 = q + w_annotations(ann, None).len();
            &&& open_at(s, letters_end(s, a.len() as int)) == Some(q)
            &&& word(s, a.len() as int) == "DataPropertyRange"@
            &&& r_iri(s, a.len() as int, px) is None
            &&& r_annotation_seq(s, q, px) == (Ok::<Seq<SpecAnnotation>, SpecError>(ann), ann.len(), e0)
            &&& ws(s, e0) == e0 + 1
        }),
{
    let ax = SpecAxiom::DataPropertyRange { dp: x0, dr: x1 };
    let w = w_annotated_axiom(SpecAnnotatedAxiom { ax, ann }, None);
    assert(w == crate::rendering::w_axiom(ax, Some(ann), None));
    let s = a + w + b;
    let k = "DataPropertyRange"@;
    assert(keyword(k)) by {
        lemma_axiom_branch_data_property_range(s, 0, px);
    }
    let w0 = w_iri(x0, None);
    let w1 = w_dr(x1, None);
    let body = w0 + seq![' '] + w1;
    let t = w_annotations(ann, None) + seq![' '];
    assert(w == k + seq!['('] + t + body + seq![')']);
    lemma_cut_form(a, k, t, body, b);
    lemma_keyword_at(a, k, seq!['('] + t + body + seq![')'] + b, px);
    lemma_iri_start(x0);
    lemma_read_written_annotations_before(s, a + k + seq!['('], ann, body + seq![')'] + b, px);
}

/// How the written form of a `DataPropertyRange` axiom goes on after its annotations:
/// its parts, each read as itself, then the closing parenthesis.
#[verifier::spinoff_prover]
#[verifier::rlimit(100)]
pub proof fn lemma_read_written_data_property_range_parts(a: Seq<char>, x0: Seq<char>, x1: SpecDataRange, ann: Seq<SpecAnnotation>, b: Seq<char>, px: Px)
    requires
        annotation_set(ann) == ann,
        iri_text(x0),
        dr_rt(x1),
    ensures
        ({
            let w = w_annotated_axiom(SpecAnnotatedAxiom { ax: SpecAxiom::DataPropertyRange { dp: x0, dr: x1 }, ann }, None);
            let s = a + w + b;
            let q = a.len() + "DataPropertyRange"@.len() + 1int;
            let e0 = q + w_annotations(ann, None).len();
            let e1 = e0 + 1 + w_iri(x0, None).len();
            let e2 = e1 + 1 + w_dr(x1, None).len();
            &&& r_iri(s, e0 + 1, px) == Some((Ok::<Seq<char>, SpecError>(x0), e1))
            &&& r_dr(s, ws(s, e1), px) == Some((Ok::<SpecDataRange, SpecError>(x1), e2))
            &&& close_at(s, e2) == Some(e2 + 1)
            &&& e2 + 1 == a.len() + w.len()
        }),
{
    let ax = SpecAxiom::DataPropertyRange { dp: x0, dr: x1 };
    let w = w_annotated_axiom(SpecAnnotatedAxiom { ax, ann }, None);
    assert(w == crate::rendering::w_axiom(ax, Some(ann), None));
    let s = a + w + b;
    let k = "DataPropertyRange"@;
    let w0 = w_iri(x0, None);
    let w1 = w_dr(x1, None);
    let body = w0 + seq![' '] + w1;
    let t = w_annotations(ann, None) + seq![' '];
    assert(w == k + seq!['('] + t + body + seq![')']);
    lemma_cut_form(a, k, t, body, b);
    lemma_not_name_chars();
    let a1 = a + k + seq!['('] + t;
    lemma_cut_pair(a1, w0, w1, seq![')'] + b);
    lemma_iri_start(x0);
    lemma_starts_after_space(s, a1, w0, seq![' '] + w1 + (seq![')'] + b));
    lemma_read_written_iri(a1, x0, seq![' '] + w1 + (seq![')'] + b), px);
    let a2 = a1 + w0 + seq![' '];
    lemma_dr_start(x1);
    lemma_starts_after_space(s, a2, w1, seq![')'] + b);
    lemma_read_written_dr(a2, x1, seq![')'] + b, px);
    let e = a2.len() + w1.len() + 0int;
    assert(s[e] == ')');
    assert(ws(s, e) == e);
}

/// See [`lemma_read_written_axiom`]: `DataPropertyRange` axioms.
#[verifier::spinoff_prover]
#[verifier::rlimit(80)]
pub proof fn lemma_read_written_data_property_range(a: Seq<char>, x0: Seq<char>, x1: SpecDataRange, ann: Seq<SpecAnnotation>, b: Seq<char>, px: Px)
    requires
        annotations_sorted(ann),
        iri_text(x0),
        dr_rt(x1),
        annotations_rt(ann),
    ensures
        ({
            let x = SpecAnnotatedAxiom { ax: SpecAxiom::DataPropertyRange { dp: x0, dr: x1 }, ann };
            let s = a + w_annotated_axiom(x, None) + b;
            &&& r_axiom(s, a.len() as int, px) == Some(
                (Ok::<SpecAnnotatedAxiom, SpecError>(x), a.len() + w_annotated_axiom(x, None).len() + 0int),
            )
            &&& word(s, a.len() as int) != "Import"@
            &&& word(s, a.len() as int) != "Annotation"@
            &&& r_iri(s, a.len() as int, px) is None
            &&& is_letter(w_annotated_axiom(x, None)[0])
        }),
{
    lemma_annotation_set_of_sorted(ann);
    let ax = SpecAxiom::DataPropertyRange { dp: x0, dr: x1 };
    let w = w_annotated_axiom(SpecAnnotatedAxiom { ax, ann }, None);
    assert(w == crate::rendering::w_axiom(ax, Some(ann), None));
    let s = a + w + b;
    let q = a.len() + "DataPropertyRange"@.len() + 1int;
    let e0 = q + w_annotations(ann, None).len();
    lemma_read_written_data_property_range_head(a, x0, x1, ann, b, px);
    lemma_read_written_data_property_range_parts(a, x0, x1, ann, b, px);
    lemma_axiom_branch_data_property_range(s, e0 + 1, px);
    lemma_r_axiom_at(s, a.len() as int, px, q, "DataPropertyRange"@, ax, ann, e0, a.len() + w.len() - 1int);
    lemma_keyword_letters("DataPropertyRange"@, 0);
    assert(w[0] == "DataPropertyRange"@[0]);
}

/// How the written form of a `DisjointUnion` axiom begins: its keyword, its
/// opening parenthesis and its annotations, each read as itself.
#[verifier::spinoff_prover]
#[verifier::rlimit(40)]
pub proof fn lemma_read_written_disjoint_union_head(a: Seq<char>, x0: Seq<char>, x1: Seq<SpecClassExpression>, ann: Seq<SpecAnnotation>, b: Seq<char>, px: Px)
    requires
        annotation_set(ann) == ann,
        iri_text(x0),
        x1.len() >= 2 && ce_rt_list(x1),
        annotations_rt(ann),
    ensures
        ({
            let w = w_annotated_axiom(SpecAnnotatedAxiom { ax: SpecAxiom::DisjointUnion(x0, x1), ann }, None);
            let s = a + w + b;
            let q = a.len() + "DisjointUnion"@.len() + 1int;
            let e0 = q + w_annotations(ann, None).len();
            &&& open_at(s, letters_end(s, a.len() as int)) == Some(q)
            &&& word(s, a.len() as int) == "DisjointUnion"@
            &&& r_iri(s, a.len() as int, px) is None
            &&& r_annotation_seq(s, q, px) == (Ok::<Seq<SpecAnnotation>, SpecError>(ann), ann.len(), e0)
            &&& ws(s, e0) == e0 + 1
        }),
{
    let ax = SpecAxiom::DisjointUnion(x0, x1);
    let w = w_annotated_axiom(SpecAnnotatedAxiom { ax, ann }, None);
    assert(w == crate::rendering::w_axiom(ax, Some(ann), None));
    let s = a + w + b;
    let k = "DisjointUnion"@;
    assert(keyword(k)) by {
        lemma_axiom_branch_disjoint_union(s, 0, px);
    }
    let w0 = w_iri(x0, None);
    let w1 = w_ce_list(x1, None);
    let body = w0 + seq![' '] + w1;
    let t = w_annotations(ann, None) + seq![' '];
    assert(w == k + seq!['('] + t + body + seq![')']);
    lemma_cut_form(a, k, t, body, b);
    lemma_keyword_at(a, k, seq!['('] + t + body + seq![')'] + b, px);
    lemma_iri_start(x0);
    lemma_read_written_annotations_before(s, a + k + seq!['('], ann, body + seq![')'] + b, px);
}

/// How the written form of a `DisjointUnion` axiom goes on after its annotations:
/// its parts, each read as itself, then the closing parenthesis.
#[verifier::spinoff_prover]
#[verifier::rlimit(100)]
pub proof fn lemma_read_written_disjoint_union_parts(a: Seq<char>, x0: Seq<char>, x1: Seq<SpecClassExpression>, ann: Seq<SpecAnnotation>, b: Seq<char>, px: Px)
    requires
        annotation_set(ann) == ann,
        iri_text(x0),
        x1.len() >= 2 && ce_rt_list(x1),
    ensures
        ({
            let w = w_annotated_axiom(SpecAnnotatedAxiom { ax: SpecAxiom::DisjointUnion(x0, x1), ann }, None);
            let s = a + w + b;
            let q = a.len() + "DisjointUnion"@.len() + 1int;
            let e0 = q + w_annotations(ann, None).len();
            let e1 = e0 + 1 + w_iri(x0, None).len();
            let e2 = e1 + 1 + w_ce_list(x1, None).len();
            &&& r_iri(s, e0 + 1, px) == Some((Ok::<Seq<char>, SpecError>(x0), e1))
            &&& ce_at_least_two(s, ws(s, e1), px) == Some((Ok::<Seq<SpecClassExpression>, SpecError>(x1), e2))
            &&& close_at(s, e2) == Some(e2 + 1)
            &&& e2 + 1 == a.len() + w.len()
        }),
{
    let ax = SpecAxiom::DisjointUnion(x0, x1);
    let w = w_annotated_axiom(SpecAnnotatedAxiom { ax, ann }, None);
    assert(w == crate::rendering::w_axiom(ax, Some(ann), None));
    let s = a + w + b;
    let k = "DisjointUnion"@;
    let w0 = w_iri(x0, None);
    let w1 = w_ce_list(x1, None);
    let body = w0 + seq![' '] + w1;
    let t = w_annotations(ann, None) + seq![' '];
    assert(w == k + seq!['('] + t + body + seq![')']);
    lemma_cut_form(a, k, t, body, b);
    lemma_not_name_chars();
    let a1 = a + k + seq!['('] + t;
    lemma_cut_pair(a1, w0, w1, seq![')'] + b);
    lemma_iri_start(x0);
    lemma_starts_after_space(s, a1, w0, seq![' '] + w1 + (seq![')'] + b));
    lemma_read_written_iri(a1, x0, seq![' '] + w1 + (seq![')'] + b), px);
    let a2 = a1 + w0 + seq![' '];
    lemma_ce_list_start(x1); lemma_ce_start(x1[0]);
    lemma_starts_after_space(s, a2, w1, seq![')'] + b);
    lemma_read_written_ce_list_two(a2, x1, seq![')'] + b, px);
    let e = a2.len() + w1.len() + 0int;
    assert(s[e] == ')');
    assert(ws(s, e) == e);
}

/// See [`lemma_read_written_axiom`]: `DisjointUnion` axioms.
#[verifier::spinoff_prover]
#[verifier::rlimit(80)]
pub proof fn lemma_read_written_disjoint_union(a: Seq<char>, x0: Seq<char>, x1: Seq<SpecClassExpression>, ann: Seq<SpecAnnotation>, b: Seq<char>, px: Px)
    requires
        annotations_sorted(ann),
        iri_text(x0),
        x1.len() >= 2 && ce_rt_list(x1),
        annotations_rt(ann),
    ensures
        ({
            let x = SpecAnnotatedAxiom { ax: SpecAxiom::DisjointUnion(x0, x1), ann };
            let s = a + w_annotated_axiom(x, None) + b;
            &&& r_axiom(s, a.len() as int, px) == Some(
                (Ok::<SpecAnnotatedAxiom, SpecError>(x), a.len() + w_annotated_axiom(x, None).len() + 0int),
            )
            &&& word(s, a.len() as int) != "Import"@
            &&& word(s, a.len() as int) != "Annotation"@
            &&& r_iri(s, a.len() as int, px) is None
            &&& is_letter(w_annotated_axiom(x, None)[0])
        }),
{
    lemma_annotation_set_of_sorted(ann);
    let ax = SpecAxiom::DisjointUnion(x0, x1);
    let w = w_annotated_axiom(SpecAnnotatedAxiom { ax, ann }, None);
    assert(w == crate::rendering::w_axiom(ax, Some(ann), None));
    let s = a + w + b;
    let q = a.len() + "DisjointUnion"@.len() + 1int;
    let e0 = q + w_annotations(ann, None).len();
    lemma_read_written_disjoint_union_head(a, x0, x1, ann, b, px);
    lemma_read_written_disjoint_union_parts(a, x0, x1, ann, b, px);
    lemma_axiom_branch_disjoint_union(s, e0 + 1, px);
    lemma_r_axiom_at(s, a.len() as int, px, q, "DisjointUnion"@, ax, ann, e0, a.len() + w.len() - 1int);
    lemma_keyword_letters("DisjointUnion"@, 0);
    assert(w[0] == "DisjointUnion"@[0]);
}

/// How the written form of a `SubObjectPropertyOf` axiom begins: its keyword, its
/// opening parenthesis and its annotations, each read as itself.
#[verifier::spinoff_prover]
#[verifier::rlimit(40)]
pub proof fn lemma_read_written_sub_object_property_of_head(a: Seq<char>, x0: SpecSubObjectPropertyExpression, x1: SpecObjectPropertyExpression, ann: Seq<SpecAnnotation>, b: Seq<char>, px: Px)
    requires
        annotation_set(ann) == ann,
        sub_ope_rt(x0),
        ope_rt(x1),
        annotations_rt(ann),
    ensures
        ({
            let w = w_annotated_axiom(SpecAnnotatedAxiom { ax: SpecAxiom::SubObjectPropertyOf { sub: x0, sup: x1 }, ann }, None);
            let s = a + w + b;
            let q = a.len() + "SubObjectPropertyOf"@.len() + 1int;
            let e0 = q + w_annotations(ann, None).len();
            &&& open_at(s, letters_end(s, a.len() as int)) == Some(q)
            &&& word(s, a.len() as int) == "SubObjectPropertyOf"@
            &&& r_iri(s, a.len() as int, px) is None
            &&& r_annotation_seq(s, q, px) == (Ok::<Seq<SpecAnnotation>, SpecError>(ann), ann.len(), e0)
            &&& ws(s, e0) == e0 + 1
        }),
{
    let ax = SpecAxiom::SubObjectPropertyOf { sub: x0, sup: x1 };
    let w = w_annotated_axiom(SpecAnnotatedAxiom { ax, ann }, None);
    assert(w == crate::rendering::w_axiom(ax, Some(ann), None));
    let s = a + w + b;
    let k = "SubObjectPropertyOf"@;
    assert(keyword(k)) by {
        lemma_axiom_branch_sub_object_property_of(s, 0, px);
    }
    let w0 = w_sub_ope(x0, None);
    let w1 = w_ope(x1, None);
    let body = w0 + seq![' '] + w1;
    let t = w_annotations(ann, None) + seq![' '];
    assert(w == k + seq!['('] + t + body + seq![')']);
    lemma_cut_form(a, k, t, body, b);
    lemma_keyword_at(a, k, seq!['('] + t + body + seq![')'] + b, px);
    lemma_sub_ope_start(x0);
    lemma_read_written_annotations_before(s, a + k + seq!['('], ann, body + seq![')'] + b, px);
}

/// How the written form of a `SubObjectPropertyOf` axiom goes on after its annotations:
/// its parts, each read as itself, then the closing parenthesis.
#[verifier::spinoff_prover]
#[verifier::rlimit(100)]
pub proof fn lemma_read_written_sub_object_property_of_parts(a: Seq<char>, x0: SpecSubObjectPropertyExpression, x1: SpecObjectPropertyExpression, ann: Seq<SpecAnnotation>, b: Seq<char>, px: Px)
    requires
        annotation_set(ann) == ann,
        sub_ope_rt(x0),
        ope_rt(x1),
    ensures
        ({
            let w = w_annotated_axiom(SpecAnnotatedAxiom { ax: SpecAxiom::SubObjectPropertyOf { sub: x0, sup: x1 }, ann }, None);
            let s = a + w + b;
            let q = a.len() + "SubObjectPropertyOf"@.len() + 1int;
            let e0 = q + w_annotations(ann, None).len();
            let e1 = e0 + 1 + w_sub_ope(x0, None).len();
            let e2 = e1 + 1 + w_ope(x1, None).len();
            &&& r_sub_ope(s, e0 + 1, px) == Some((Ok::<SpecSubObjectPropertyExpression, SpecError>(x0), e1))
            &&& r_ope(s, ws(s, e1), px) == Some((Ok::<SpecObjectPropertyExpression, SpecError>(x1), e2))
            &&& close_at(s, e2) == Some(e2 + 1)
            &&& e2 + 1 == a.len() + w.len()
        }),
{
    let ax = SpecAxiom::SubObjectPropertyOf { sub: x0, sup: x1 };
    let w = w_annotated_axiom(SpecAnnotatedAxiom { ax, ann }, None);
    assert(w == crate::rendering::w_axiom(ax, Some(ann), None));
    let s = a + w + b;
    let k = "SubObjectPropertyOf"@;
    let w0 = w_sub_ope(x0, None);
    let w1 = w_ope(x1, None);
    let body = w0 + seq![' '] + w1;
    let t = w_annotations(ann, None) + seq![' '];
    assert(w == k + seq!['('] + t + body + seq![')']);
    lemma_cut_form(a, k, t, body, b);
    lemma_not_name_chars();
    let a1 = a + k + seq!['('] + t;
    lemma_cut_pair(a1, w0, w1, seq![')'] + b);
    lemma_sub_ope_start(x0);
    lemma_starts_after_space(s, a1, w0, seq![' '] + w1 + (seq![')'] + b));
    lemma_read_written_sub_ope(a1, x0, seq![' '] + w1 + (seq![')'] + b), px);
    let a2 = a1 + w0 + seq![' '];
    lemma_ope_start(x1);
    lemma_starts_after_space(s, a2, w1, seq![')'] + b);
    lemma_read_written_ope(a2, x1, seq![')'] + b, px);
    let e = a2.len() + w1.len() + 0int;
    assert(s[e] == ')');
    assert(ws(s, e) == e);
}

/// See [`lemma_read_written_axiom`]: `SubObjectPropertyOf` axioms.
#[verifier::spinoff_prover]
#[verifier::rlimit(80)]
pub proof fn lemma_read_written_sub_object_property_of(a: Seq<char>, x0: SpecSubObjectPropertyExpression, x1: SpecObjectPropertyExpression, ann: Seq<SpecAnnotation>, b: Seq<char>, px: Px)
    requires
        annotations_sorted(ann),
        sub_ope_rt(x0),
        ope_rt(x1),
        annotations_rt(ann),
    ensures
        ({
            let x = SpecAnnotatedAxiom { ax: SpecAxiom::SubObjectPropertyOf { sub: x0, sup: x1 }, ann };
            let s = a + w_annotated_axiom(x, None) + b;
            &&& r_axiom(s, a.len() as int, px) == Some(
                (Ok::<SpecAnnotatedAxiom, SpecError>(x), a.len() + w_annotated_axiom(x, None).len() + 0int),
            )
            &&& word(s, a.len() as int) != "Import"@
            &&& word(s, a.len() as int) != "Annotation"@
            &&& r_iri(s, a.len() as int, px) is None
            &&& is_letter(w_annotated_axiom(x, None)[0])
        }),
{
    lemma_annotation_set_of_sorted(ann);
    let ax = SpecAxiom::SubObjectPropertyOf { sub: x0, sup: x1 };
    let w = w_annotated_axiom(SpecAnnotatedAxiom { ax, ann }, None);
    assert(w == crate::rendering::w_axiom(ax, Some(ann), None));
    let s = a + w + b;
    let q = a.len() + "SubObjectPropertyOf"@.len() + 1int;
    let e0 = q + w_annotations(ann, None).len();
    lemma_read_written_sub_object_property_of_head(a, x0, x1, ann, b, px);
    lemma_read_written_sub_object_property_of_parts(a, x0, x1, ann, b, px);
    lemma_axiom_branch_sub_object_property_of(s, e0 + 1, px);
    lemma_r_axiom_at(s, a.len() as int, px, q, "SubObjectPropertyOf"@, ax, ann, e0, a.len() + w.len() - 1int);
    lemma_keyword_letters("SubObjectPropertyOf"@, 0);
    assert(w[0] == "SubObjectPropertyOf"@[0]);
}

/// How the written form of a `TransitiveObjectProperty` axiom begins: its keyword, its
/// opening parenthesis and its annotations, each read as itself.
#[verifier::spinoff_prover]
#[verifier::rlimit(40)]
pub proof fn lemma_read_written_transitive_object_property_head(a: Seq<char>, x0: Seq<char>, ann: Seq<SpecAnnotation>, b: Seq<char>, px: Px)
    requires
        annotation_set(ann) == ann,
        iri_text(x0),
        annotations_rt(ann),
    ensures
        ({
            let w = w_annotated_axiom(SpecAnnotatedAxiom { ax: SpecAxiom::TransitiveObjectProperty(SpecObjectPropertyExpression::ObjectProperty(x0)), ann }, None);
            let s = a + w + b;
            let q = a.len() + "TransitiveObjectProperty"@.len() + 1int;
            let e0 = q + w_annotations(ann, None).len();
            &&& open_at(s, letters_end(s, a.len() as int)) == Some(q)
            &&& word(s, a.len() as int) == "TransitiveObjectProperty"@
            &&& r_iri(s, a.len() as int, px) is None
            &&& r_annotation_seq(s, q, px) == (Ok::<Seq<SpecAnnotation>, SpecError>(ann), ann.len(), e0)
            &&& ws(s, e0) == e0 + 1
        }),
{
    let ax = SpecAxiom::TransitiveObjectProperty(SpecObjectPropertyExpression::ObjectProperty(x0));
    let w = w_annotated_axiom(SpecAnnotatedAxiom { ax, ann }, None);
    assert(w == crate::rendering::w_axiom(ax, Some(ann), None));
    let s = a + w + b;
    let k = "TransitiveObjectProperty"@;
    assert(keyword(k)) by {
        lemma_axiom_branch_transitive_object_property(s, 0, px);
    }
    let w0 = w_iri(x0, None);
    let body = w0;
    let t = w_annotations(ann, None) + seq![' '];
    assert(w == k + seq!['('] + t + body + seq![')']);
    lemma_cut_form(a, k, t, body, b);
    lemma_keyword_at(a, k, seq!['('] + t + body + seq![')'] + b, px);
    lemma_iri_start(x0);
    lemma_read_written_annotations_before(s, a + k + seq!['('], ann, body + seq![')'] + b, px);
}

/// How the written form of a `TransitiveObjectProperty` axiom goes on after its annotations:
/// its parts, each read as itself, then the closing parenthesis.
#[verifier::spinoff_prover]
#[verifier::rlimit(100)]
pub proof fn lemma_read_written_transitive_object_property_parts(a: Seq<char>, x0: Seq<char>, ann: Seq<SpecAnnotation>, b: Seq<char>, px: Px)
    requires
        annotation_set(ann) == ann,
        iri_text(x0),
    ensures
        ({
            let w = w_annotated_axiom(SpecAnnotatedAxiom { ax: SpecAxiom::TransitiveObjectProperty(SpecObjectPropertyExpression::ObjectProperty(x0)), ann }, None);
            let s = a + w + b;
            let q = a.len() + "TransitiveObjectProperty"@.len() + 1int;
            let e0 = q + w_annotations(ann, None).len();
            let e1 = e0 + 1 + w_iri(x0, None).len();
            &&& r_iri(s, e0 + 1, px) == Some((Ok::<Seq<char>, SpecError>(x0), e1))
            &&& close_at(s, e1) == Some(e1 + 1)
            &&& e1 + 1 == a.len() + w.len()
        }),
{
    let ax = SpecAxiom::TransitiveObjectProperty(SpecObjectPropertyExpression::ObjectProperty(x0));
    let w = w_annotated_axiom(SpecAnnotatedAxiom { ax, ann }, None);
    assert(w == crate::rendering::w_axiom(ax, Some(ann), None));
    let s = a + w + b;
    let k = "TransitiveObjectProperty"@;
    let w0 = w_iri(x0, None);
    let body = w0;
    let t = w_annotations(ann, None) + seq![' '];
    assert(w == k + seq!['('] + t + body + seq![')']);
    lemma_cut_form(a, k, t, body, b);
    lemma_not_name_chars();
    let a1 = a + k + seq!['('] + t;
    lemma_iri_start(x0);
    lemma_starts_after_space(s, a1, w0, seq![')'] + b);
    lemma_read_written_iri(a1, x0, seq![')'] + b, px);
    let e = a1.len() + w0.len() + 0int;
    assert(s[e] == ')');
    assert(ws(s, e) == e);
}

/// See [`lemma_read_written_axiom`]: `TransitiveObjectProperty` axioms.
#[verifier::spinoff_prover]
#[verifier::rlimit(80)]
pub proof fn lemma_read_written_transitive_object_property(a: Seq<char>, x0: Seq<char>, ann: Seq<SpecAnnotation>, b: Seq<char>, px: Px)
    requires
        annotations_sorted(ann),
        iri_text(x0),
        annotations_rt(ann),
    ensures
        ({
            let x = SpecAnnotatedAxiom { ax: SpecAxiom::TransitiveObjectProperty(SpecObjectPropertyExpression::ObjectProperty(x0)), ann };
            let s = a + w_annotated_axiom(x, None) + b;
            &&& r_axiom(s, a.len() as int, px) == Some(
                (Ok::<SpecAnnotatedAxiom, SpecError>(x), a.len() + w_annotated_axiom(x, None).len() + 0int),
            )
            &&& word(s, a.len() as int) != "Import"@
            &&& word(s, a.len() as int) != "Annotation"@
            &&& r_iri(s, a.len() as int, px) is None
            &&& is_letter(w_annotated_axiom(x, None)[0])
        }),
{
    lemma_annotation_set_of_sorted(ann);
    let ax = SpecAxiom::TransitiveObjectProperty(SpecObjectPropertyExpression::ObjectProperty(x0));
    let w = w_annotated_axiom(SpecAnnotatedAxiom { ax, ann }, None);
    assert(w == crate::rendering::w_axiom(ax, Some(ann), None));
    let s = a + w + b;
    let q = a.len() + "TransitiveObjectProperty"@.len() + 1int;
    let e0 = q + w_annotations(ann, None).len();
    lemma_read_written_transitive_object_property_head(a, x0, ann, b, px);
    lemma_read_written_transitive_object_property_parts(a, x0, ann, b, px);
    lemma_axiom_branch_transitive_object_property(s, e0 + 1, px);
    lemma_r_axiom_at(s, a.len() as int, px, q, "TransitiveObjectProperty"@, ax, ann, e0, a.len() + w.len() - 1int);
    lemma_keyword_letters("TransitiveObjectProperty"@, 0);
    assert(w[0] == "TransitiveObjectProperty"@[0]);
}

/// How the written form of a `DatatypeDefinition` axiom begins: its keyword, its
/// opening parenthesis and its annotations, each read as itself.
#[verifier::spinoff_prover]
#[verifier::rlimit(40)]
pub proof fn lemma_read_written_datatype_definition_head(a: Seq<char>, x0: Seq<char>, x1: SpecDataRange, ann: Seq<SpecAnnotation>, b: Seq<char>, px: Px)
    requires
        annotation_set(ann) == ann,
        iri_text(x0),
        dr_rt(x1),
        annotations_rt(ann),
    ensures
        ({
            let w = w_annotated_axiom(SpecAnnotatedAxiom { ax: SpecAxiom::DatatypeDefinition { kind: x0, range: x1 }, ann }, None);
            let s = a + w + b;
            let q = a.len() + "DatatypeDefinition"@.len() + 1int;
            let e0 = q + w_annotations(ann, None).len();
            &&& open_at(s, letters_end(s, a.len() as int)) == Some(q)
            &&& word(s, a.len() as int) == "DatatypeDefinition"@
            &&& r_iri(s, a.len() as int, px) is None
            &&& r_annotation_seq(s, q, px) == (Ok::<Seq<SpecAnnotation>, SpecError>(ann), ann.len(), e0)
            &&& ws(s, e0) == e0 + 1
        }),
{
    let ax = SpecAxiom::DatatypeDefinition { kind: x0, range: x1 };
    let w = w_annotated_axiom(SpecAnnotatedAxiom { ax, ann }, None);
    assert(w == crate::rendering::w_axiom(ax, Some(ann), None));
    let s = a + w + b;
    let k = "DatatypeDefinition"@;
    assert(keyword(k)) by {
        lemma_axiom_branch_datatype_definition(s, 0, px);
    }
    let w0 = w_iri(x0, None);
    let w1 = w_dr(x1, None);
    let body = w0 + seq![' '] + w1;
    let t = w_annotations(ann, None) + seq![' '];
    assert(w == k + seq!['('] + t + body + seq![')']);
    lemma_cut_form(a, k, t, body, b);
    lemma_keyword_at(a, k, seq!['('] + t + body + seq![')'] + b, px);
    lemma_iri_start(x0);
    lemma_read_written_annotations_before(s, a + k + seq!['('], ann, body + seq![')'] + b, px);
}

/// How the written form of a `DatatypeDefinition` axiom goes on after its annotations:
/// its parts, each read as itself, then the closing parenthesis.
#[verifier::spinoff_prover]
#[verifier::rlimit(100)]
pub proof fn lemma_read_written_datatype_definition_parts(a: Seq<char>, x0: Seq<char>, x1: SpecDataRange, ann: Seq<SpecAnnotation>, b: Seq<char>, px: Px)
    requires
        annotation_set(ann) == ann,
        iri_text(x0),
        dr_rt(x1),
    ensures
        ({
            let w = w_annotated_axiom(SpecAnnotatedAxiom { ax: SpecAxiom::DatatypeDefinition { kind: x0, range: x1 }, ann }, None);
            let s = a + w + b;
            let q = a.len() + "DatatypeDefinition"@.len() + 1int;
            let e0 = q + w_annotations(ann, None).len();
            let e1 = e0 + 1 + w_iri(x0, None).len();
            let e2 = e1 + 1 + w_dr(x1, None).len();
            &&& r_iri(s, e0 + 1, px) == Some((Ok::<Seq<char>, SpecError>(x0), e1))
            &&& r_dr(s, ws(s, e1), px) == Some((Ok::<SpecDataRange, SpecError>(x1), e2))
            &&& close_at(s, e2) == Some(e2 + 1)
            &&& e2 + 1 == a.len() + w.len()
        }),
{
    let ax = SpecAxiom::DatatypeDefinition { kind: x0, range: x1 };
    let w = w_annotated_axiom(SpecAnnotatedAxiom { ax, ann }, None);
    assert(w == crate::rendering::w_axiom(ax, Some(ann), None));
    let s = a + w + b;
    let k = "DatatypeDefinition"@;
    let w0 = w_iri(x0, None);
    let w1 = w_dr(x1, None);
    let body = w0 + seq![' '] + w1;
    let t = w_annotations(ann, None) + seq![' '];
    assert(w == k + seq!['('] + t + body + seq![')']);
    lemma_cut_form(a, k, t, body, b);
    lemma_not_name_chars();
    let a1 = a + k + seq!['('] + t;
    lemma_cut_pair(a1, w0, w1, seq![')'] + b);
    lemma_iri_start(x0);
    lemma_starts_after_space(s, a1, w0, seq![' '] + w1 + (seq![')'] + b));
    lemma_read_written_iri(a1, x0, seq![' '] + w1 + (seq![')'] + b), px);
    let a2 = a1 + w0 + seq![' '];
    lemma_dr_start(x1);
    lemma_starts_after_space(s, a2, w1, seq![')'] + b);
    lemma_read_written_dr(a2, x1, seq![')'] + b, px);
    let e = a2.len() + w1.len() + 0int;
    assert(s[e] == ')');
    assert(ws(s, e) == e);
}

/// See [`lemma_read_written_axiom`]: `DatatypeDefinition` axioms.
#[verifier::spinoff_prover]
#[verifier::rlimit(80)]
pub proof fn lemma_read_written_datatype_definition(a: Seq<char>, x0: Seq<char>, x1: SpecDataRange, ann: Seq<SpecAnnotation>, b: Seq<char>, px: Px)
    requires
        annotations_sorted(ann),
        iri_text(x0),
        dr_rt(x1),
        annotations_rt(ann),
    ensures
        ({
            let x = SpecAnnotatedAxiom { ax: SpecAxiom::DatatypeDefinition { kind: x0, range: x1 }, ann };
            let s = a + w_annotated_axiom(x, None) + b;
            &&& r_axiom(s, a.len() as int, px) == Some(
                (Ok::<SpecAnnotatedAxiom, SpecError>(x), a.len() + w_annotated_axiom(x, None).len() + 0int),
            )
            &&& word(s, a.len() as int) != "Import"@
            &&& word(s, a.len() as int) != "Annotation"@
            &&& r_iri(s, a.len() as int, px) is None
            &&& is_letter(w_annotated_axiom(x, None)[0])
        }),
{
    lemma_annotation_set_of_sorted(ann);
    let ax = SpecAxiom::DatatypeDefinition { kind: x0, range: x1 };
    let w = w_annotated_axiom(SpecAnnotatedAxiom { ax, ann }, None);
    assert(w == crate::rendering::w_axiom(ax, Some(ann), None));
    let s = a + w + b;
    let q = a.len() + "DatatypeDefinition"@.len() + 1int;
    let e0 = q + w_annotations(ann, None).len();
    lemma_read_written_datatype_definition_head(a, x0, x1, ann, b, px);
    lemma_read_written_datatype_definition_parts(a, x0, x1, ann, b, px);
    lemma_axiom_branch_datatype_definition(s, e0 + 1, px);
    lemma_r_axiom_at(s, a.len() as int, px, q, "DatatypeDefinition"@, ax, ann, e0, a.len() + w.len() - 1int);
    lemma_keyword_letters("DatatypeDefinition"@, 0);
    assert(w[0] == "DatatypeDefinition"@[0]);
}

/// How the written form of a `ObjectPropertyAssertion` axiom begins: its keyword, its
/// opening parenthesis and its annotations, each read as itself.
#[verifier::spinoff_prover]
#[verifier::rlimit(40)]
pub proof fn lemma_read_written_object_property_assertion_head(a: Seq<char>, x0: SpecObjectPropertyExpression, x1: SpecIndividual, x2: SpecIndividual, ann: Seq<SpecAnnotation>, b: Seq<char>, px: Px)
    requires
        annotation_set(ann) == ann,
        ope_rt(x0),
        individual_rt(x1),
        individual_rt(x2),
        annotations_rt(ann),
    ensures
        ({
            let w = w_annotated_axiom(SpecAnnotatedAxiom { ax: SpecAxiom::ObjectPropertyAssertion { ope: x0, from: x1, to: x2 }, ann }, None);
            let s = a + w + b;
            let q = a.len() + "ObjectPropertyAssertion"@.len() + 1int;
            let e0 = q + w_annotations(ann, None).len();
            &&& open_at(s, letters_end(s, a.len() as int)) == Some(q)
            &&& word(s, a.len() as int) == "ObjectPropertyAssertion"@
            &&& r_iri(s, a.len() as int, px) is None
            &&& r_annotation_seq(s, q, px) == (Ok::<Seq<SpecAnnotation>, SpecError>(ann), ann.len(), e0)
            &&& ws(s, e0) == e0 + 1
        }),
{
    let ax = SpecAxiom::ObjectPropertyAssertion { ope: x0, from: x1, to: x2 };
    let w = w_annotated_axiom(SpecAnnotatedAxiom { ax, ann }, None);
    assert(w == crate::rendering::w_axiom(ax, Some(ann), None));
    let s = a + w + b;
    let k = "ObjectPropertyAssertion"@;
    assert(keyword(k)) by {
        lemma_axiom_branch_object_property_assertion(s, 0, px);
    }
    let w0 = w_ope(x0, None);
    let w1 = w_individual(x1, None);
    let w2 = w_individual(x2, None);
    let body = w0 + seq![' '] + w1 + seq![' '] + w2;
    let t = w_annotations(ann, None) + seq![' '];
    assert(w == k + seq!['('] + t + body + seq![')']);
    lemma_cut_form(a, k, t, body, b);
    lemma_keyword_at(a, k, seq!['('] + t + body + seq![')'] + b, px);
    lemma_ope_start(x0);
    lemma_read_written_annotations_before(s, a + k + seq!['('], ann, body + seq![')'] + b, px);
}

/// How the written form of a `ObjectPropertyAssertion` axiom goes on after its annotations:
/// its parts, each read as itself, then the closing parenthesis.
#[verifier::spinoff_prover]
#[verifier::rlimit(100)]
pub proof fn lemma_read_written_object_property_assertion_parts(a: Seq<char>, x0: SpecObjectPropertyExpression, x1: SpecIndividual, x2: SpecIndividual, ann: Seq<SpecAnnotation>, b: Seq<char>, px: Px)
    requires
        annotation_set(ann) == ann,
        ope_rt(x0),
        individual_rt(x1),
        individual_rt(x2),
    ensures
        ({
            let w = w_annotated_axiom(SpecAnnotatedAxiom { ax: SpecAxiom::ObjectPropertyAssertion { ope: x0, from: x1, to: x2 }, ann }, None);
            let s = a + w + b;
            let q = a.len() + "ObjectPropertyAssertion"@.len() + 1int;
            let e0 = q + w_annotations(ann, None).len();
            let e1 = e0 + 1 + w_ope(x0, None).len();
            let e2 = e1 + 1 + w_individual(x1, None).len();
            let e3 = e2 + 1 + w_individual(x2, None).len();
            &&& r_ope(s, e0 + 1, px) == Some((Ok::<SpecObjectPropertyExpression, SpecError>(x0), e1))
            &&& r_individual(s, ws(s, e1), px) == Some((Ok::<SpecIndividual, SpecError>(x1), e2))
            &&& r_individual(s, ws(s, e2), px) == Some((Ok::<SpecIndividual, SpecError>(x2), e3))
            &&& close_at(s, e3) == Some(e3 + 1)
            &&& e3 + 1 == a.len() + w.len()
        }),
{
    let ax = SpecAxiom::ObjectPropertyAssertion { ope: x0, from: x1, to: x2 };
    let w = w_annotated_axiom(SpecAnnotatedAxiom { ax, ann }, None);
    assert(w == crate::rendering::w_axiom(ax, Some(ann), None));
    let s = a + w + b;
    let k = "ObjectPropertyAssertion"@;
    let w0 = w_ope(x0, None);
    let w1 = w_individual(x1, None);
    let w2 = w_individual(x2, None);
    let body = w0 + seq![' '] + w1 + seq![' '] + w2;
    let t = w_annotations(ann, None) + seq![' '];
    assert(w == k + seq!['('] + t + body + seq![')']);
    lemma_cut_form(a, k, t, body, b);
    lemma_not_name_chars();
    let a1 = a + k + seq!['('] + t;
    lemma_cut_triple(a1, w0, w1, w2, seq![')'] + b);
    lemma_ope_start(x0);
    lemma_starts_after_space(s, a1, w0, seq![' '] + w1 + seq![' '] + w2 + (seq![')'] + b));
    lemma_read_written_ope(a1, x0, seq![' '] + w1 + seq![' '] + w2 + (seq![')'] + b), px);
    let a2 = a1 + w0 + seq![' '];
    lemma_individual_start(x1);
    lemma_starts_after_space(s, a2, w1, seq![' '] + w2 + (seq![')'] + b));
    lemma_read_written_individual(a2, x1, seq![' '] + w2 + (seq![')'] + b), px);
    let a3 = a2 + w1 + seq![' '];
    lemma_individual_start(x2);
    lemma_starts_after_space(s, a3, w2, seq![')'] + b);
    lemma_read_written_individual(a3, x2, seq![')'] + b, px);
    let e = a3.len() + w2.len() + 0int;
    assert(s[e] == ')');
    assert(ws(s, e) == e);
}

/// See [`lemma_read_written_axiom`]: `ObjectPropertyAssertion` axioms.
#[verifier::spinoff_prover]
#[verifier::rlimit(80)]
pub proof fn lemma_read_written_object_property_assertion(a: Seq<char>, x0: SpecObjectPropertyExpression, x1: SpecIndividual, x2: SpecIndividual, ann: Seq<SpecAnnotation>, b: Seq<char>, px: Px)
    requires
        annotations_sorted(ann),
        ope_rt(x0),
        individual_rt(x1),
        individual_rt(x2),
        annotations_rt(ann),
    ensures
        ({
            let x = SpecAnnotatedAxiom { ax: SpecAxiom::ObjectPropertyAssertion { ope: x0, from: x1, to: x2 }, ann };
            let s = a + w_annotated_axiom(x, None) + b;
            &&& r_axiom(s, a.len() as int, px) == Some(
                (Ok::<SpecAnnotatedAxiom, SpecError>(x), a.len() + w_annotated_axiom(x, None).len() + 0int),
            )
            &&& word(s, a.len() as int) != "Import"@
            &&& word(s, a.len() as int) != "Annotation"@
            &&& r_iri(s, a.len() as int, px) is None
            &&& is_letter(w_annotated_axiom(x, None)[0])
        }),
{
    lemma_annotation_set_of_sorted(ann);
    let ax = SpecAxiom::ObjectPropertyAssertion { ope: x0, from: x1, to: x2 };
    let w = w_annotated_axiom(SpecAnnotatedAxiom { ax, ann }, None);
    assert(w == crate::rendering::w_axiom(ax, Some(ann), None));
    let s = a + w + b;
    let q = a.len() + "ObjectPropertyAssertion"@.len() + 1int;
    let e0 = q + w_annotations(ann, None).len();
    lemma_read_written_object_property_assertion_head(a, x0, x1, x2, ann, b, px);
    lemma_read_written_object_property_assertion_parts(a, x0, x1, x2, ann, b, px);
    lemma_axiom_branch_object_property_assertion(s, e0 + 1, px);
    lemma_r_axiom_at(s, a.len() as int, px, q, "ObjectPropertyAssertion"@, ax, ann, e0, a.len() + w.len() - 1int);
    lemma_keyword_letters("ObjectPropertyAssertion"@, 0);
    assert(w[0] == "ObjectPropertyAssertion"@[0]);
}

/// How the written form of a `NegativeObjectPropertyAssertion` axiom begins: its keyword, its
/// opening parenthesis and its annotations, each read as itself.
#[verifier::spinoff_prover]
#[verifier::rlimit(40)]
pub proof fn lemma_read_written_negative_object_property_assertion_head(a: Seq<char>, x0: SpecObjectPropertyExpression, x1: SpecIndividual, x2: SpecIndividual, ann: Seq<SpecAnnotation>, b: Seq<char>, px: Px)
    requires
        annotation_set(ann) == ann,
        ope_rt(x0),
        individual_rt(x1),
        individual_rt(x2),
        annotations_rt(ann),
    ensures
        ({
            let w = w_annotated_axiom(SpecAnnotatedAxiom { ax: SpecAxiom::NegativeObjectPropertyAssertion { ope: x0, from: x1, to: x2 }, ann }, None);
            let s = a + w + b;
            let q = a.len() + "NegativeObjectPropertyAssertion"@.len() + 1int;
            let e0 = q + w_annotations(ann, None).len();
            &&& open_at(s, letters_end(s, a.len() as int)) == Some(q)
            &&& word(s, a.len() as int) == "NegativeObjectPropertyAssertion"@
            &&& r_iri(s, a.len() as int, px) is None
            &&& r_annotation_seq(s, q, px) == (Ok::<Seq<SpecAnnotation>, SpecError>(ann), ann.len(), e0)
            &&& ws(s, e0) == e0 + 1
        }),
{
    let ax = SpecAxiom::NegativeObjectPropertyAssertion { ope: x0, from: x1, to: x2 };
    let w = w_annotated_axiom(SpecAnnotatedAxiom { ax, ann }, None);
    assert(w == crate::rendering::w_axiom(ax, Some(ann), None));
    let s = a + w + b;
    let k = "NegativeObjectPropertyAssertion"@;
    assert(keyword(k)) by {
        lemma_axiom_branch_negative_object_property_assertion(s, 0, px);
    }
    let w0 = w_ope(x0, None);
    let w1 = w_individual(x1, None);
    let w2 = w_individual(x2, None);
    let body = w0 + seq![' '] + w1 + seq![' '] + w2;
    let t = w_annotations(ann, None) + seq![' '];
    assert(w == k + seq!['('] + t + body + seq![')']);
    lemma_cut_form(a, k, t, body, b);
    lemma_keyword_at(a, k, seq!['('] + t + body + seq![')'] + b, px);
    lemma_ope_start(x0);
    lemma_read_written_annotations_before(s, a + k + seq!['('], ann, body + seq![')'] + b, px);
}

/// How the written form of a `NegativeObjectPropertyAssertion` axiom goes on after its annotations:
/// its parts, each read as itself, then the closing parenthesis.
#[verifier::spinoff_prover]
#[verifier::rlimit(100)]
pub proof fn lemma_read_written_negative_object_property_assertion_parts(a: Seq<char>, x0: SpecObjectPropertyExpression, x1: SpecIndividual, x2: SpecIndividual, ann: Seq<SpecAnnotation>, b: Seq<char>, px: Px)
    requires
        annotation_set(ann) == ann,
        ope_rt(x0),
        individual_rt(x1),
        individual_rt(x2),
    ensures
        ({
            let w = w_annotated_axiom(SpecAnnotatedAxiom { ax: SpecAxiom::NegativeObjectPropertyAssertion { ope: x0, from: x1, to: x2 }, ann }, None);
            let s = a + w + b;
            let q = a.len() + "NegativeObjectPropertyAssertion"@.len() + 1int;
            let e0 = q + w_annotations(ann, None).len();
            let e1 = e0 + 1 + w_ope(x0, None).len();
            let e2 = e1 + 1 + w_individual(x1, None).len();
            let e3 = e2 + 1 + w_individual(x2, None).len();
            &&& r_ope(s, e0 + 1, px) == Some((Ok::<SpecObjectPropertyExpression, SpecError>(x0), e1))
            &&& r_individual(s, ws(s, e1), px) == Some((Ok::<SpecIndividual, SpecError>(x1), e2))
            &&& r_individual(s, ws(s, e2), px) == Some((Ok::<SpecIndividual, SpecError>(x2), e3))
            &&& close_at(s, e3) == Some(e3 + 1)
            &&& e3 + 1 == a.len() + w.len()
        }),
{
    let ax = SpecAxiom::NegativeObjectPropertyAssertion { ope: x0, from: x1, to: x2 };
    let w = w_annotated_axiom(SpecAnnotatedAxiom { ax, ann }, None);
    assert(w == crate::rendering::w_axiom(ax, Some(ann), None));
    let s = a + w + b;
    let k = "NegativeObjectPropertyAssertion"@;
    let w0 = w_ope(x0, None);
    let w1 = w_individual(x1, None);
    let w2 = w_individual(x2, None);
    let body = w0 + seq![' '] + w1 + seq![' '] + w2;
    let t = w_annotations(ann, None) + seq![' '];
    assert(w == k + seq!['('] + t + body + seq![')']);
    lemma_cut_form(a, k, t, body, b);
    lemma_not_name_chars();
    let a1 = a + k + seq!['('] + t;
    lemma_cut_triple(a1, w0, w1, w2, seq![')'] + b);
    lemma_ope_start(x0);
    lemma_starts_after_space(s, a1, w0, seq![' '] + w1 + seq![' '] + w2 + (seq![')'] + b));
    lemma_read_written_ope(a1, x0, seq![' '] + w1 + seq![' '] + w2 + (seq![')'] + b), px);
    let a2 = a1 + w0 + seq![' '];
    lemma_individual_start(x1);
    lemma_starts_after_space(s, a2, w1, seq![' '] + w2 + (seq![')'] + b));
    lemma_read_written_individual(a2, x1, seq![' '] + w2 + (seq![')'] + b), px);
    let a3 = a2 + w1 + seq![' '];
    lemma_individual_start(x2);
    lemma_starts_after_space(s, a3, w2, seq![')'] + b);
    lemma_read_written_individual(a3, x2, seq![')'] + b, px);
    let e = a3.len() + w2.len() + 0int;
    assert(s[e] == ')');
    assert(ws(s, e) == e);
}

/// See [`lemma_read_written_axiom`]: `NegativeObjectPropertyAssertion` axioms.
#[verifier::spinoff_prover]
#[verifier::rlimit(80)]
pub proof fn lemma_read_written_negative_object_property_assertion(a: Seq<char>, x0: SpecObjectPropertyExpression, x1: SpecIndividual, x2: SpecIndividual, ann: Seq<SpecAnnotation>, b: Seq<char>, px: Px)
    requires
        annotations_sorted(ann),
        ope_rt(x0),
        individual_rt(x1),
        individual_rt(x2),
        annotations_rt(ann),
    ensures
        ({
            let x = SpecAnnotatedAxiom { ax: SpecAxiom::NegativeObjectPropertyAssertion { ope: x0, from: x1, to: x2 }, ann };
            let s = a + w_annotated_axiom(x, None) + b;
            &&& r_axiom(s, a.len() as int, px) == Some(
                (Ok::<SpecAnnotatedAxiom, SpecError>(x), a.len() + w_annotated_axiom(x, None).len() + 0int),
            )
            &&& word(s, a.len() as int) != "Import"@
            &&& word(s, a.len() as int) != "Annotation"@
            &&& r_iri(s, a.len() as int, px) is None
            &&& is_letter(w_annotated_axiom(x, None)[0])
        }),
{
    lemma_annotation_set_of_sorted(ann);
    let ax = SpecAxiom::NegativeObjectPropertyAssertion { ope: x0, from: x1, to: x2 };
    let w = w_annotated_axiom(SpecAnnotatedAxiom { ax, ann }, None);
    assert(w == crate::rendering::w_axiom(ax, Some(ann), None));
    let s = a + w + b;
    let q = a.len() + "NegativeObjectPropertyAssertion"@.len() + 1int;
    let e0 = q + w_annotations(ann, None).len();
    lemma_read_written_negative_object_property_assertion_head(a, x0, x1, x2, ann, b, px);
    lemma_read_written_negative_object_property_assertion_parts(a, x0, x1, x2, ann, b, px);
    lemma_axiom_branch_negative_object_property_assertion(s, e0 + 1, px);
    lemma_r_axiom_at(s, a.len() as int, px, q, "NegativeObjectPropertyAssertion"@, ax, ann, e0, a.len() + w.len() - 1int);
    lemma_keyword_letters("NegativeObjectPropertyAssertion"@, 0);
    assert(w[0] == "NegativeObjectPropertyAssertion"@[0]);
}

/// How the written form of a `DataPropertyAssertion` axiom begins: its keyword, its
/// opening parenthesis and its annotations, each read as itself.
#[verifier::spinoff_prover]
#[verifier::rlimit(40)]
pub proof fn lemma_read_written_data_property_assertion_head(a: Seq<char>, x0: Seq<char>, x1: SpecIndividual, x2: SpecLiteral, ann: Seq<SpecAnnotation>, b: Seq<char>, px: Px)
    requires
        annotation_set(ann) == ann,
        iri_text(x0),
        individual_rt(x1),
        literal_rt(x2),
        annotations_rt(ann),
    ensures
        ({
            let w = w_annotated_axiom(SpecAnnotatedAxiom { ax: SpecAxiom::DataPropertyAssertion { dp: x0, from: x1, to: x2 }, ann }, None);
            let s = a + w + b;
            let q = a.len() + "DataPropertyAssertion"@.len() + 1int;
            let e0 = q + w_annotations(ann, None).len();
            &&& open_at(s, letters_end(s, a.len() as int)) == Some(q)
            &&& word(s, a.len() as int) == "DataPropertyAssertion"@
            &&& r_iri(s, a.len() as int, px) is None
            &&& r_annotation_seq(s, q, px) == (Ok::<Seq<SpecAnnotation>, SpecError>(ann), ann.len(), e0)
            &&& ws(s, e0) == e0 + 1
        }),
{
    let ax = SpecAxiom::DataPropertyAssertion { dp: x0, from: x1, to: x2 };
    let w = w_annotated_axiom(SpecAnnotatedAxiom { ax, ann }, None);
    assert(w == crate::rendering::w_axiom(ax, Some(ann), None));
    let s = a + w + b;
    let k = "DataPropertyAssertion"@;
    assert(keyword(k)) by {
        lemma_axiom_branch_data_property_assertion(s, 0, px);
    }
    let w0 = w_iri(x0, None);
    let w1 = w_individual(x1, None);
    let w2 = w_literal(x2, None);
    let body = w0 + seq![' '] + w1 + seq![' '] + w2;
    let t = w_annotations(ann, None) + seq![' '];
    assert(w == k + seq!['('] + t + body + seq![')']);
    lemma_cut_form(a, k, t, body, b);
    lemma_keyword_at(a, k, seq!['('] + t + body + seq![')'] + b, px);
    lemma_iri_start(x0);
    lemma_read_written_annotations_before(s, a + k + seq!['('], ann, body + seq![')'] + b, px);
}

/// How the written form of a `DataPropertyAssertion` axiom goes on after its annotations:
/// its parts, each read as itself, then the closing parenthesis.
#[verifier::spinoff_prover]
#[verifier::rlimit(100)]
pub proof fn lemma_read_written_data_property_assertion_parts(a: Seq<char>, x0: Seq<char>, x1: SpecIndividual, x2: SpecLiteral, ann: Seq<SpecAnnotation>, b: Seq<char>, px: Px)
    requires
        annotation_set(ann) == ann,
        iri_text(x0),
        individual_rt(x1),
        literal_rt(x2),
    ensures
        ({
            let w = w_annotated_axiom(SpecAnnotatedAxiom { ax: SpecAxiom::DataPropertyAssertion { dp: x0, from: x1, to: x2 }, ann }, None);
            let s = a + w + b;
            let q = a.len() + "DataPropertyAssertion"@.len() + 1int;
            let e0 = q + w_annotations(ann, None).len();
            let e1 = e0 + 1 + w_iri(x0, None).len();
            let e2 = e1 + 1 + w_individual(x1, None).len();
            let e3 = e2 + 1 + w_literal(x2, None).len();
            &&& r_iri(s, e0 + 1, px) == Some((Ok::<Seq<char>, SpecError>(x0), e1))
            &&& r_individual(s, ws(s, e1), px) == Some((Ok::<SpecIndividual, SpecError>(x1), e2))
            &&& r_literal(s, ws(s, e2), px) == Some((Ok::<SpecLiteral, SpecError>(x2), e3))
            &&& close_at(s, e3) == Some(e3 + 1)
            &&& e3 + 1 == a.len() + w.len()
        }),
{
    let ax = SpecAxiom::DataPropertyAssertion { dp: x0, from: x1, to: x2 };
    let w = w_annotated_axiom(SpecAnnotatedAxiom { ax, ann }, None);
    assert(w == crate::rendering::w_axiom(ax, Some(ann), None));
    let s = a + w + b;
    let k = "DataPropertyAssertion"@;
    let w0 = w_iri(x0, None);
    let w1 = w_individual(x1, None);
    let w2 = w_literal(x2, None);
    let body = w0 + seq![' '] + w1 + seq![' '] + w2;
    let t = w_annotations(ann, None) + seq![' '];
    assert(w == k + seq!['('] + t + body + seq![')']);
    lemma_cut_form(a, k, t, body, b);
    lemma_not_name_chars();
    let a1 = a + k + seq!['('] + t;
    lemma_cut_triple(a1, w0, w1, w2, seq![')'] + b);
    lemma_iri_start(x0);
    lemma_starts_after_space(s, a1, w0, seq![' '] + w1 + seq![' '] + w2 + (seq![')'] + b));
    lemma_read_written_iri(a1, x0, seq![' '] + w1 + seq![' '] + w2 + (seq![')'] + b), px);
    let a2 = a1 + w0 + seq![' '];
    lemma_individual_start(x1);
    lemma_starts_after_space(s, a2, w1, seq![' '] + w2 + (seq![')'] + b));
    lemma_read_written_individual(a2, x1, seq![' '] + w2 + (seq![')'] + b), px);
    let a3 = a2 + w1 + seq![' '];
    lemma_literal_start(x2);
    lemma_starts_after_space(s, a3, w2, seq![')'] + b);
    lemma_read_written_literal(a3, x2, seq![')'] + b, px);
    let e = a3.len() + w2.len() + 0int;
    assert(s[e] == ')');
    assert(ws(s, e) == e);
}

/// See [`lemma_read_written_axiom`]: `DataPropertyAssertion` axioms.
#[verifier::spinoff_prover]
#[verifier::rlimit(80)]
pub proof fn lemma_read_written_data_property_assertion(a: Seq<char>, x0: Seq<char>, x1: SpecIndividual, x2: SpecLiteral, ann: Seq<SpecAnnotation>, b: Seq<char>, px: Px)
    requires
        annotations_sorted(ann),
        iri_text(x0),
        individual_rt(x1),
        literal_rt(x2),
        annotations_rt(ann),
    ensures
        ({
            let x = SpecAnnotatedAxiom { ax: SpecAxiom::DataPropertyAssertion { dp: x0, from: x1, to: x2 }, ann };
            let s = a + w_annotated_axiom(x, None) + b;
            &&& r_axiom(s, a.len() as int, px) == Some(
                (Ok::<SpecAnnotatedAxiom, SpecError>(x), a.len() + w_annotated_axiom(x, None).len() + 0int),
            )
            &&& word(s, a.len() as int) != "Import"@
            &&& word(s, a.len() as int) != "Annotation"@
            &&& r_iri(s, a.len() as int, px) is None
            &&& is_letter(w_annotated_axiom(x, None)[0])
        }),
{
    lemma_annotation_set_of_sorted(ann);
    let ax = SpecAxiom::DataPropertyAssertion { dp: x0, from: x1, to: x2 };
    let w = w_annotated_axiom(SpecAnnotatedAxiom { ax, ann }, None);
    assert(w == crate::rendering::w_axiom(ax, Some(ann), None));
    let s = a + w + b;
    let q = a.len() + "DataPropertyAssertion"@.len() + 1int;
    let e0 = q + w_annotations(ann, None).len();
    lemma_read_written_data_property_assertion_head(a, x0, x1, x2, ann, b, px);
    lemma_read_written_data_property_assertion_parts(a, x0, x1, x2, ann, b, px);
    lemma_axiom_branch_data_property_assertion(s, e0 + 1, px);
    lemma_r_axiom_at(s, a.len() as int, px, q, "DataPropertyAssertion"@, ax, ann, e0, a.len() + w.len() - 1int);
    lemma_keyword_letters("DataPropertyAssertion"@, 0);
    assert(w[0] == "DataPropertyAssertion"@[0]);
}

/// How the written form of a `NegativeDataPropertyAssertion` axiom begins: its keyword, its
/// opening parenthesis and its annotations, each read as itself.
#[verifier::spinoff_prover]
#[verifier::rlimit(40)]
pub proof fn lemma_read_written_negative_data_property_assertion_head(a: Seq<char>, x0: Seq<char>, x1: SpecIndividual, x2: SpecLiteral, ann: Seq<SpecAnnotation>, b: Seq<char>, px: Px)
    requires
        annotation_set(ann) == ann,
        iri_text(x0),
        individual_rt(x1),
        literal_rt(x2),
        annotations_rt(ann),
    ensures
        ({
            let w = w_annotated_axiom(SpecAnnotatedAxiom { ax: SpecAxiom::NegativeDataPropertyAssertion { dp: x0, from: x1, to: x2 }, ann }, None);
            let s = a + w + b;
            let q = a.len() + "NegativeDataPropertyAssertion"@.len() + 1int;
            let e0 = q + w_annotations(ann, None).len();
            &&& open_at(s, letters_end(s, a.len() as int)) == Some(q)
            &&& word(s, a.len() as int) == "NegativeDataPropertyAssertion"@
            &&& r_iri(s, a.len() as int, px) is None
            &&& r_annotation_seq(s, q, px) == (Ok::<Seq<SpecAnnotation>, SpecError>(ann), ann.len(), e0)
            &&& ws(s, e0) == e0 + 1
        }),
{
    let ax = SpecAxiom::NegativeDataPropertyAssertion { dp: x0, from: x1, to: x2 };
    let w = w_annotated_axiom(SpecAnnotatedAxiom { ax, ann }, None);
    assert(w == crate::rendering::w_axiom(ax, Some(ann), None));
    let s = a + w + b;
    let k = "NegativeDataPropertyAssertion"@;
    assert(keyword(k)) by {
        lemma_axiom_branch_negative_data_property_assertion(s, 0, px);
    }
    let w0 = w_iri(x0, None);
    let w1 = w_individual(x1, None);
    let w2 = w_literal(x2, None);
    let body = w0 + seq![' '] + w1 + seq![' '] + w2;
    let t = w_annotations(ann, None) + seq![' '];
    assert(w == k + seq!['('] + t + body + seq![')']);
    lemma_cut_form(a, k, t, body, b);
    lemma_keyword_at(a, k, seq!['('] + t + body + seq![')'] + b, px);
    lemma_iri_start(x0);
    lemma_read_written_annotations_before(s, a + k + seq!['('], ann, body + seq![')'] + b, px);
}

/// How the written form of a `NegativeDataPropertyAssertion` axiom goes on after its annotations:
/// its parts, each read as itself, then the closing parenthesis.
#[verifier::spinoff_prover]
#[verifier::rlimit(100)]
pub proof fn lemma_read_written_negative_data_property_assertion_parts(a: Seq<char>, x0: Seq<char>, x1: SpecIndividual, x2: SpecLiteral, ann: Seq<SpecAnnotation>, b: Seq<char>, px: Px)
    requires
        annotation_set(ann) == ann,
        iri_text(x0),
        individual_rt(x1),
        literal_rt(x2),
    ensures
        ({
            let w = w_annotated_axiom(SpecAnnotatedAxiom { ax: SpecAxiom::NegativeDataPropertyAssertion { dp: x0, from: x1, to: x2 }, ann }, None);
            let s = a + w + b;
            let q = a.len() + "NegativeDataPropertyAssertion"@.len() + 1int;
            let e0 = q + w_annotations(ann, None).len();
            let e1 = e0 + 1 + w_iri(x0, None).len();
            let e2 = e1 + 1 + w_individual(x1, None).len();
            let e3 = e2 + 1 + w_literal(x2, None).len();
            &&& r_iri(s, e0 + 1, px) == Some((Ok::<Seq<char>, SpecError>(x0), e1))
            &&& r_individual(s, ws(s, e1), px) == Some((Ok::<SpecIndividual, SpecError>(x1), e2))
            &&& r_literal(s, ws(s, e2), px) == Some((Ok::<SpecLiteral, SpecError>(x2), e3))
            &&& close_at(s, e3) == Some(e3 + 1)
            &&& e3 + 1 == a.len() + w.len()
        }),
{
    let ax = SpecAxiom::NegativeDataPropertyAssertion { dp: x0, from: x1, to: x2 };
    let w = w_annotated_axiom(SpecAnnotatedAxiom { ax, ann }, None);
    assert(w == crate::rendering::w_axiom(ax, Some(ann), None));
    let s = a + w + b;
    let k = "NegativeDataPropertyAssertion"@;
    let w0 = w_iri(x0, None);
    let w1 = w_individual(x1, None);
    let w2 = w_literal(x2, None);
    let body = w0 + seq![' '] + w1 + seq![' '] + w2;
    let t = w_annotations(ann, None) + seq![' '];
    assert(w == k + seq!['('] + t + body + seq![')']);
    lemma_cut_form(a, k, t, body, b);
    lemma_not_name_chars();
    let a1 = a + k + seq!['('] + t;
    lemma_cut_triple(a1, w0, w1, w2, seq![')'] + b);
    lemma_iri_start(x0);
    lemma_starts_after_space(s, a1, w0, seq![' '] + w1 + seq![' '] + w2 + (seq![')'] + b));
    lemma_read_written_iri(a1, x0, seq![' '] + w1 + seq![' '] + w2 + (seq![')'] + b), px);
    let a2 = a1 + w0 + seq![' '];
    lemma_individual_start(x1);
    lemma_starts_after_space(s, a2, w1, seq![' '] + w2 + (seq![')'] + b));
    lemma_read_written_individual(a2, x1, seq![' '] + w2 + (seq![')'] + b), px);
    let a3 = a2 + w1 + seq![' '];
    lemma_literal_start(x2);
    lemma_starts_after_space(s, a3, w2, seq![')'] + b);
    lemma_read_written_literal(a3, x2, seq![')'] + b, px);
    let e = a3.len() + w2.len() + 0int;
    assert(s[e] == ')');
    assert(ws(s, e) == e);
}

/// See [`lemma_read_written_axiom`]: `NegativeDataPropertyAssertion` axioms.
#[verifier::spinoff_prover]
#[verifier::rlimit(80)]
pub proof fn lemma_read_written_negative_data_property_assertion(a: Seq<char>, x0: Seq<char>, x1: SpecIndividual, x2: SpecLiteral, ann: Seq<SpecAnnotation>, b: Seq<char>, px: Px)
    requires
        annotations_sorted(ann),
        iri_text(x0),
        individual_rt(x1),
        literal_rt(x2),
        annotations_rt(ann),
    ensures
        ({
            let x = SpecAnnotatedAxiom { ax: SpecAxiom::NegativeDataPropertyAssertion { dp: x0, from: x1, to: x2 }, ann };
            let s = a + w_annotated_axiom(x, None) + b;
            &&& r_axiom(s, a.len() as int, px) == Some(
                (Ok::<SpecAnnotatedAxiom, SpecError>(x), a.len() + w_annotated_axiom(x, None).len() + 0int),
            )
            &&& word(s, a.len() as int) != "Import"@
            &&& word(s, a.len() as int) != "Annotation"@
            &&& r_iri(s, a.len() as int, px) is None
            &&& is_letter(w_annotated_axiom(x, None)[0])
        }),
{
    lemma_annotation_set_of_sorted(ann);
    let ax = SpecAxiom::NegativeDataPropertyAssertion { dp: x0, from: x1, to: x2 };
    let w = w_annotated_axiom(SpecAnnotatedAxiom { ax, ann }, None);
    assert(w == crate::rendering::w_axiom(ax, Some(ann), None));
    let s = a + w + b;
    let q = a.len() + "NegativeDataPropertyAssertion"@.len() + 1int;
    let e0 = q + w_annotations(ann, None).len();
    lemma_read_written_negative_data_property_assertion_head(a, x0, x1, x2, ann, b, px);
    lemma_read_written_negative_data_property_assertion_parts(a, x0, x1, x2, ann, b, px);
    lemma_axiom_branch_negative_data_property_assertion(s, e0 + 1, px);
    lemma_r_axiom_at(s, a.len() as int, px, q, "NegativeDataPropertyAssertion"@, ax, ann, e0, a.len() + w.len() - 1int);
    lemma_keyword_letters("NegativeDataPropertyAssertion"@, 0);
    assert(w[0] == "NegativeDataPropertyAssertion"@[0]);
}

/// How the written form of a `ClassAssertion` axiom begins: its keyword, its
/// opening parenthesis and its annotations, each read as itself.
#[verifier::spinoff_prover]
#[verifier::rlimit(40)]
pub proof fn lemma_read_written_class_assertion_head(a: Seq<char>, x0: SpecClassExpression, x1: SpecIndividual, ann: Seq<SpecAnnotation>, b: Seq<char>, px: Px)
    requires
        annotation_set(ann) == ann,
        ce_rt(x0),
        individual_rt(x1),
        annotations_rt(ann),
    ensures
        ({
            let w = w_annotated_axiom(SpecAnnotatedAxiom { ax: SpecAxiom::ClassAssertion { ce: x0, i: x1 }, ann }, None);
            let s = a + w + b;
            let q = a.len() + "ClassAssertion"@.len() + 1int;
            let e0 = q + w_annotations(ann, None).len();
            &&& open_at(s, letters_end(s, a.len() as int)) == Some(q)
            &&& word(s, a.len() as int) == "ClassAssertion"@
            &&& r_iri(s, a.len() as int, px) is None
            &&& r_annotation_seq(s, q, px) == (Ok::<Seq<SpecAnnotation>, SpecError>(ann), ann.len(), e0)
            &&& ws(s, e0) == e0 + 1
        }),
{
    let ax = SpecAxiom::ClassAssertion { ce: x0, i: x1 };
    let w = w_annotated_axiom(SpecAnnotatedAxiom { ax, ann }, None);
    assert(w == crate::rendering::w_axiom(ax, Some(ann), None));
    let s = a + w + b;
    let k = "ClassAssertion"@;
    assert(keyword(k)) by {
        lemma_axiom_branch_class_assertion(s, 0, px);
    }
    let w0 = w_ce(x0, None);
    let w1 = w_individual(x1, None);
    let body = w0 + seq![' '] + w1;
    let t = w_annotations(ann, None) + seq![' '];
    assert(w == k + seq!['('] + t + body + seq![')']);
    lemma_cut_form(a, k, t, body, b);
    lemma_keyword_at(a, k, seq!['('] + t + body + seq![')'] + b, px);
    lemma_ce_start(x0);
    lemma_read_written_annotations_before(s, a + k + seq!['('], ann, body + seq![')'] + b, px);
}

/// How the written form of a `ClassAssertion` axiom goes on after its annotations:
/// its parts, each read as itself, then the closing parenthesis.
#[verifier::spinoff_prover]
#[verifier::rlimit(100)]
pub proof fn lemma_read_written_class_assertion_parts(a: Seq<char>, x0: SpecClassExpression, x1: SpecIndividual, ann: Seq<SpecAnnotation>, b: Seq<char>, px: Px)
    requires
        annotation_set(ann) == ann,
        ce_rt(x0),
        individual_rt(x1),
    ensures
        ({
            let w = w_annotated_axiom(SpecAnnotatedAxiom { ax: SpecAxiom::ClassAssertion { ce: x0, i: x1 }, ann }, None);
            let s = a + w + b;
            let q = a.len() + "ClassAssertion"@.len() + 1int;
            let e0 = q + w_annotations(ann, None).len();
            let e1 = e0 + 1 + w_ce(x0, None).len();
            let e2 = e1 + 1 + w_individual(x1, None).len();
            &&& r_ce(s, e0 + 1, px) == Some((Ok::<SpecClassExpression, SpecError>(x0), e1))
            &&& r_individual(s, ws(s, e1), px) == Some((Ok::<SpecIndividual, SpecError>(x1), e2))
            &&& close_at(s, e2) == Some(e2 + 1)
            &&& e2 + 1 == a.len() + w.len()
        }),
{
    let ax = SpecAxiom::ClassAssertion { ce: x0, i: x1 };
    let w = w_annotated_axiom(SpecAnnotatedAxiom { ax, ann }, None);
    assert(w == crate::rendering::w_axiom(ax, Some(ann), None));
    let s = a + w + b;
    let k = "ClassAssertion"@;
    let w0 = w_ce(x0, None);
    let w1 = w_individual(x1, None);
    let body = w0 + seq![' '] + w1;
    let t = w_annotations(ann, None) + seq![' '];
    assert(w == k + seq!['('] + t + body + seq![')']);
    lemma_cut_form(a, k, t, body, b);
    lemma_not_name_chars();
    let a1 = a + k + seq!['('] + t;
    lemma_cut_pair(a1, w0, w1, seq![')'] + b);
    lemma_ce_start(x0);
    lemma_starts_after_space(s, a1, w0, seq![' '] + w1 + (seq![')'] + b));
    lemma_read_written_ce(a1, x0, seq![' '] + w1 + (seq![')'] + b), px);
    let a2 = a1 + w0 + seq![' '];
    lemma_individual_start(x1);
    lemma_starts_after_space(s, a2, w1, seq![')'] + b);
    lemma_read_written_individual(a2, x1, seq![')'] + b, px);
    let e = a2.len() + w1.len() + 0int;
    assert(s[e] == ')');
    assert(ws(s, e) == e);
}

/// See [`lemma_read_written_axiom`]: `ClassAssertion` axioms.
#[verifier::spinoff_prover]
#[verifier::rlimit(80)]
pub proof fn lemma_read_written_class_assertion(a: Seq<char>, x0: SpecClassExpression, x1: SpecIndividual, ann: Seq<SpecAnnotation>, b: Seq<char>, px: Px)
    requires
        annotations_sorted(ann),
        ce_rt(x0),
        individual_rt(x1),
        annotations_rt(ann),
    ensures
        ({
            let x = SpecAnnotatedAxiom { ax: SpecAxiom::ClassAssertion { ce: x0, i: x1 }, ann };
            let s = a + w_annotated_axiom(x, None) + b;
            &&& r_axiom(s, a.len() as int, px) == Some(
                (Ok::<SpecAnnotatedAxiom, SpecError>(x), a.len() + w_annotated_axiom(x, None).len() + 0int),
            )
            &&& word(s, a.len() as int) != "Import"@
            &&& word(s, a.len() as int) != "Annotation"@
            &&& r_iri(s, a.len() as int, px) is None
            &&& is_letter(w_annotated_axiom(x, None)[0])
        }),
{
    lemma_annotation_set_of_sorted(ann);
    let ax = SpecAxiom::ClassAssertion { ce: x0, i: x1 };
    let w = w_annotated_axiom(SpecAnnotatedAxiom { ax, ann }, None);
    assert(w == crate::rendering::w_axiom(ax, Some(ann), None));
    let s = a + w + b;
    let q = a.len() + "ClassAssertion"@.len() + 1int;
    let e0 = q + w_annotations(ann, None).len();
    lemma_read_written_class_assertion_head(a, x0, x1, ann, b, px);
    lemma_read_written_class_assertion_parts(a, x0, x1, ann, b, px);
    lemma_axiom_branch_class_assertion(s, e0 + 1, px);
    lemma_r_axiom_at(s, a.len() as int, px, q, "ClassAssertion"@, ax, ann, e0, a.len() + w.len() - 1int);
    lemma_keyword_letters("ClassAssertion"@, 0);
    assert(w[0] == "ClassAssertion"@[0]);
}

/// How the written form of a `SubAnnotationPropertyOf` axiom begins: its keyword, its
/// opening parenthesis and its annotations, each read as itself.
#[verifier::spinoff_prover]
#[verifier::rlimit(40)]
pub proof fn lemma_read_written_sub_annotation_property_of_head(a: Seq<char>, x0: Seq<char>, x1: Seq<char>, ann: Seq<SpecAnnotation>, b: Seq<char>, px: Px)
    requires
        annotation_set(ann) == ann,
        iri_text(x0),
        iri_text(x1),
        annotations_rt(ann),
    ensures
        ({
            let w = w_annotated_axiom(SpecAnnotatedAxiom { ax: SpecAxiom::SubAnnotationPropertyOf { sub: x0, sup: x1 }, ann }, None);
            let s = a + w + b;
            let q = a.len() + "SubAnnotationPropertyOf"@.len() + 1int;
            let e0 = q + w_annotations(ann, None).len();
            &&& open_at(s, letters_end(s, a.len() as int)) == Some(q)
            &&& word(s, a.len() as int) == "SubAnnotationPropertyOf"@
            &&& r_iri(s, a.len() as int, px) is None
            &&& r_annotation_seq(s, q, px) == (Ok::<Seq<SpecAnnotation>, SpecError>(ann), ann.len(), e0)
            &&& ws(s, e0) == e0 + 1
        }),
{
    let ax = SpecAxiom::SubAnnotationPropertyOf { sub: x0, sup: x1 };
    let w = w_annotated_axiom(SpecAnnotatedAxiom { ax, ann }, None);
    assert(w == crate::rendering::w_axiom(ax, Some(ann), None));
    let s = a + w + b;
    let k = "SubAnnotationPropertyOf"@;
    assert(keyword(k)) by {
        lemma_axiom_branch_sub_annotation_property_of(s, 0, px);
    }
    let w0 = w_iri(x0, None);
    let w1 = w_iri(x1, None);
    let body = w0 + seq![' '] + w1;
    let t = w_annotations(ann, None) + seq![' '];
    assert(w == k + seq!['('] + t + body + seq![')']);
    lemma_cut_form(a, k, t, body, b);
    lemma_keyword_at(a, k, seq!['('] + t + body + seq![')'] + b, px);
    lemma_iri_start(x0);
    lemma_read_written_annotations_before(s, a + k + seq!['('], ann, body + seq![')'] + b, px);
}

/// How the written form of a `SubAnnotationPropertyOf` axiom goes on after its annotations:
/// its parts, each read as itself, then the closing parenthesis.
#[verifier::spinoff_prover]
#[verifier::rlimit(100)]
pub proof fn lemma_read_written_sub_annotation_property_of_parts(a: Seq<char>, x0: Seq<char>, x1: Seq<char>, ann: Seq<SpecAnnotation>, b: Seq<char>, px: Px)
    requires
        annotation_set(ann) == ann,
        iri_text(x0),
        iri_text(x1),
    ensures
        ({
            let w = w_annotated_axiom(SpecAnnotatedAxiom { ax: SpecAxiom::SubAnnotationPropertyOf { sub: x0, sup: x1 }, ann }, None);
            let s = a + w + b;
            let q = a.len() + "SubAnnotationPropertyOf"@.len() + 1int;
            let e0 = q + w_annotations(ann, None).len();
            let e1 = e0 + 1 + w_iri(x0, None).len();
            let e2 = e1 + 1 + w_iri(x1, None).len();
            &&& r_iri(s, e0 + 1, px) == Some((Ok::<Seq<char>, SpecError>(x0), e1))
            &&& r_iri(s, ws(s, e1), px) == Some((Ok::<Seq<char>, SpecError>(x1), e2))
            &&& close_at(s, e2) == Some(e2 + 1)
            &&& e2 + 1 == a.len() + w.len()
        }),
{
    let ax = SpecAxiom::SubAnnotationPropertyOf { sub: x0, sup: x1 };
    let w = w_annotated_axiom(SpecAnnotatedAxiom { ax, ann }, None);
    assert(w == crate::rendering::w_axiom(ax, Some(ann), None));
    let s = a + w + b;
    let k = "SubAnnotationPropertyOf"@;
    let w0 = w_iri(x0, None);
    let w1 = w_iri(x1, None);
    let body = w0 + seq![' '] + w1;
    let t = w_annotations(ann, None) + seq![' '];
    assert(w == k + seq!['('] + t + body + seq![')']);
    lemma_cut_form(a, k, t, body, b);
    lemma_not_name_chars();
    let a1 = a + k + seq!['('] + t;
    lemma_cut_pair(a1, w0, w1, seq![')'] + b);
    lemma_iri_start(x0);
    lemma_starts_after_space(s, a1, w0, seq![' '] + w1 + (seq![')'] + b));
    lemma_read_written_iri(a1, x0, seq![' '] + w1 + (seq![')'] + b), px);
    let a2 = a1 + w0 + seq![' '];
    lemma_iri_start(x1);
    lemma_starts_after_space(s, a2, w1, seq![')'] + b);
    lemma_read_written_iri(a2, x1, seq![')'] + b, px);
    let e = a2.len() + w1.len() + 0int;
    assert(s[e] == ')');
    assert(ws(s, e) == e);
}

/// See [`lemma_read_written_axiom`]: `SubAnnotationPropertyOf` axioms.
#[verifier::spinoff_prover]
#[verifier::rlimit(80)]
pub proof fn lemma_read_written_sub_annotation_property_of(a: Seq<char>, x0: Seq<char>, x1: Seq<char>, ann: Seq<SpecAnnotation>, b: Seq<char>, px: Px)
    requires
        annotations_sorted(ann),
        iri_text(x0),
        iri_text(x1),
        annotations_rt(ann),
    ensures
        ({
            let x = SpecAnnotatedAxiom { ax: SpecAxiom::SubAnnotationPropertyOf { sub: x0, sup: x1 }, ann };
            let s = a + w_annotated_axiom(x, None) + b;
            &&& r_axiom(s, a.len() as int, px) == Some(
                (Ok::<SpecAnnotatedAxiom, SpecError>(x), a.len() + w_annotated_axiom(x, None).len() + 0int),
            )
            &&& word(s, a.len() as int) != "Import"@
            &&& word(s, a.len() as int) != "Annotation"@
            &&& r_iri(s, a.len() as int, px) is None
            &&& is_letter(w_annotated_axiom(x, None)[0])
        }),
{
    lemma_annotation_set_of_sorted(ann);
    let ax = SpecAxiom::SubAnnotationPropertyOf { sub: x0, sup: x1 };
    let w = w_annotated_axiom(SpecAnnotatedAxiom { ax, ann }, None);
    assert(w == crate::rendering::w_axiom(ax, Some(ann), None));
    let s = a + w + b;
    let q = a.len() + "SubAnnotationPropertyOf"@.len() + 1int;
    let e0 = q + w_annotations(ann, None).len();
    lemma_read_written_sub_annotation_property_of_head(a, x0, x1, ann, b, px);
    lemma_read_written_sub_annotation_property_of_parts(a, x0, x1, ann, b, px);
    lemma_axiom_branch_sub_annotation_property_of(s, e0 + 1, px);
    lemma_r_axiom_at(s, a.len() as int, px, q, "SubAnnotationPropertyOf"@, ax, ann, e0, a.len() + w.len() - 1int);
    lemma_keyword_letters("SubAnnotationPropertyOf"@, 0);
    assert(w[0] == "SubAnnotationPropertyOf"@[0]);
}

/// How the written form of a `AnnotationPropertyDomain` axiom begins: its keyword, its
/// opening parenthesis and its annotations, each read as itself.
#[verifier::spinoff_prover]
#[verifier::rlimit(40)]
pub proof fn lemma_read_written_annotation_property_domain_head(a: Seq<char>, x0: Seq<char>, x1: Seq<char>, ann: Seq<SpecAnnotation>, b: Seq<char>, px: Px)
    requires
        annotation_set(ann) == ann,
        iri_text(x0),
        iri_text(x1),
        annotations_rt(ann),
    ensures
        ({
            let w = w_annotated_axiom(SpecAnnotatedAxiom { ax: SpecAxiom::AnnotationPropertyDomain { ap: x0, iri: x1 }, ann }, None);
            let s = a + w + b;
            let q = a.len() + "AnnotationPropertyDomain"@.len() + 1int;
            let e0 = q + w_annotations(ann, None).len();
            &&& open_at(s, letters_end(s, a.len() as int)) == Some(q)
            &&& word(s, a.len() as int) == "AnnotationPropertyDomain"@
            &&& r_iri(s, a.len() as int, px) is None
            &&& r_annotation_seq(s, q, px) == (Ok::<Seq<SpecAnnotation>, SpecError>(ann), ann.len(), e0)
            &&& ws(s, e0) == e0 + 1
        }),
{
    let ax = SpecAxiom::AnnotationPropertyDomain { ap: x0, iri: x1 };
    let w = w_annotated_axiom(SpecAnnotatedAxiom { ax, ann }, None);
    assert(w == crate::rendering::w_axiom(ax, Some(ann), None));
    let s = a + w + b;
    let k = "AnnotationPropertyDomain"@;
    assert(keyword(k)) by {
        lemma_axiom_branch_annotation_property_domain(s, 0, px);
    }
    let w0 = w_iri(x0, None);
    let w1 = w_iri(x1, None);
    let body = w0 + seq![' '] + w1;
    let t = w_annotations(ann, None) + seq![' '];
    assert(w == k + seq!['('] + t + body + seq![')']);
    lemma_cut_form(a, k, t, body, b);
    lemma_keyword_at(a, k, seq!['('] + t + body + seq![')'] + b, px);
    lemma_iri_start(x0);
    lemma_read_written_annotations_before(s, a + k + seq!['('], ann, body + seq![')'] + b, px);
}

/// How the written form of a `AnnotationPropertyDomain` axiom goes on after its annotations:
/// its parts, each read as itself, then the closing parenthesis.
#[verifier::spinoff_prover]
#[verifier::rlimit(100)]
pub proof fn lemma_read_written_annotation_property_domain_parts(a: Seq<char>, x0: Seq<char>, x1: Seq<char>, ann: Seq<SpecAnnotation>, b: Seq<char>, px: Px)
    requires
        annotation_set(ann) == ann,
        iri_text(x0),
        iri_text(x1),
    ensures
        ({
            let w = w_annotated_axiom(SpecAnnotatedAxiom { ax: SpecAxiom::AnnotationPropertyDomain { ap: x0, iri: x1 }, ann }, None);
            let s = a + w + b;
            let q = a.len() + "AnnotationPropertyDomain"@.len() + 1int;
            let e0 = q + w_annotations(ann, None).len();
            let e1 = e0 + 1 + w_iri(x0, None).len();
            let e2 = e1 + 1 + w_iri(x1, None).len();
            &&& r_iri(s, e0 + 1, px) == Some((Ok::<Seq<char>, SpecError>(x0), e1))
            &&& r_iri(s, ws(s, e1), px) == Some((Ok::<Seq<char>, SpecError>(x1), e2))
            &&& close_at(s, e2) == Some(e2 + 1)
            &&& e2 + 1 == a.len() + w.len()
        }),
{
    let ax = SpecAxiom::AnnotationPropertyDomain { ap: x0, iri: x1 };
    let w = w_annotated_axiom(SpecAnnotatedAxiom { ax, ann }, None);
    assert(w == crate::rendering::w_axiom(ax, Some(ann), None));
    let s = a + w + b;
    let k = "AnnotationPropertyDomain"@;
    let w0 = w_iri(x0, None);
    let w1 = w_iri(x1, None);
    let body = w0 + seq![' '] + w1;
    let t = w_annotations(ann, None) + seq![' '];
    assert(w == k + seq!['('] + t + body + seq![')']);
    lemma_cut_form(a, k, t, body, b);
    lemma_not_name_chars();
    let a1 = a + k + seq!['('] + t;
    lemma_cut_pair(a1, w0, w1, seq![')'] + b);
    lemma_iri_start(x0);
    lemma_starts_after_space(s, a1, w0, seq![' '] + w1 + (seq![')'] + b));
    lemma_read_written_iri(a1, x0, seq![' '] + w1 + (seq![')'] + b), px);
    let a2 = a1 + w0 + seq![' '];
    lemma_iri_start(x1);
    lemma_starts_after_space(s, a2, w1, seq![')'] + b);
    lemma_read_written_iri(a2, x1, seq![')'] + b, px);
    let e = a2.len() + w1.len() + 0int;
    assert(s[e] == ')');
    assert(ws(s, e) == e);
}

/// See [`lemma_read_written_axiom`]: `AnnotationPropertyDomain` axioms.
#[verifier::spinoff_prover]
#[verifier::rlimit(80)]
pub proof fn lemma_read_written_annotation_property_domain(a: Seq<char>, x0: Seq<char>, x1: Seq<char>, ann: Seq<SpecAnnotation>, b: Seq<char>, px: Px)
    requires
        annotations_sorted(ann),
        iri_text(x0),
        iri_text(x1),
        annotations_rt(ann),
    ensures
        ({
            let x = SpecAnnotatedAxiom { ax: SpecAxiom::AnnotationPropertyDomain { ap: x0, iri: x1 }, ann };
            let s = a + w_annotated_axiom(x, None) + b;
            &&& r_axiom(s, a.len() as int, px) == Some(
                (Ok::<SpecAnnotatedAxiom, SpecError>(x), a.len() + w_annotated_axiom(x, None).len() + 0int),
            )
            &&& word(s, a.len() as int) != "Import"@
            &&& word(s, a.len() as int) != "Annotation"@
            &&& r_iri(s, a.len() as int, px) is None
            &&& is_letter(w_annotated_axiom(x, None)[0])
        }),
{
    lemma_annotation_set_of_sorted(ann);
    let ax = SpecAxiom::AnnotationPropertyDomain { ap: x0, iri: x1 };
    let w = w_annotated_axiom(SpecAnnotatedAxiom { ax, ann }, None);
    assert(w == crate::rendering::w_axiom(ax, Some(ann), None));
    let s = a + w + b;
    let q = a.len() + "AnnotationPropertyDomain"@.len() + 1int;
    let e0 = q + w_annotations(ann, None).len();
    lemma_read_written_annotation_property_domain_head(a, x0, x1, ann, b, px);
    lemma_read_written_annotation_property_domain_parts(a, x0, x1, ann, b, px);
    lemma_axiom_branch_annotation_property_domain(s, e0 + 1, px);
    lemma_r_axiom_at(s, a.len() as int, px, q, "AnnotationPropertyDomain"@, ax, ann, e0, a.len() + w.len() - 1int);
    lemma_keyword_letters("AnnotationPropertyDomain"@, 0);
    assert(w[0] == "AnnotationPropertyDomain"@[0]);
}

/// How the written form of a `AnnotationPropertyRange` axiom begins: its keyword, its
/// opening parenthesis and its annotations, each read as itself.
#[verifier::spinoff_prover]
#[verifier::rlimit(40)]
pub proof fn lemma_read_written_annotation_property_range_head(a: Seq<char>, x0: Seq<char>, x1: Seq<char>, ann: Seq<SpecAnnotation>, b: Seq<char>, px: Px)
    requires
        annotation_set(ann) == ann,
        iri_text(x0),
        iri_text(x1),
        annotations_rt(ann),
    ensures
        ({
            let w = w_annotated_axiom(SpecAnnotatedAxiom { ax: SpecAxiom::AnnotationPropertyRange { ap: x0, iri: x1 }, ann }, None);
            let s = a + w + b;
            let q = a.len() + "AnnotationPropertyRange"@.len() + 1int;
            let e0 = q + w_annotations(ann, None).len();
            &&& open_at(s, letters_end(s, a.len() as int)) == Some(q)
            &&& word(s, a.len() as int) == "AnnotationPropertyRange"@
            &&& r_iri(s, a.len() as int, px) is None
            &&& r_annotation_seq(s, q, px) == (Ok::<Seq<SpecAnnotation>, SpecError>(ann), ann.len(), e0)
            &&& ws(s, e0) == e0 + 1
        }),
{
    let ax = SpecAxiom::AnnotationPropertyRange { ap: x0, iri: x1 };
    let w = w_annotated_axiom(SpecAnnotatedAxiom { ax, ann }, None);
    assert(w == crate::rendering::w_axiom(ax, Some(ann), None));
    let s = a + w + b;
    let k = "AnnotationPropertyRange"@;
    assert(keyword(k)) by {
        lemma_axiom_branch_annotation_property_range(s, 0, px);
    }
    let w0 = w_iri(x0, None);
    let w1 = w_iri(x1, None);
    let body = w0 + seq![' '] + w1;
    let t = w_annotations(ann, None) + seq![' '];
    assert(w == k + seq!['('] + t + body + seq![')']);
    lemma_cut_form(a, k, t, body, b);
    lemma_keyword_at(a, k, seq!['('] + t + body + seq![')'] + b, px);
    lemma_iri_start(x0);
    lemma_read_written_annotations_before(s, a + k + seq!['('], ann, body + seq![')'] + b, px);
}

/// How the written form of a `AnnotationPropertyRange` axiom goes on after its annotations:
/// its parts, each read as itself, then the closing parenthesis.
#[verifier::spinoff_prover]
#[verifier::rlimit(100)]
pub proof fn lemma_read_written_annotation_property_range_parts(a: Seq<char>, x0: Seq<char>, x1: Seq<char>, ann: Seq<SpecAnnotation>, b: Seq<char>, px: Px)
    requires
        annotation_set(ann) == ann,
        iri_text(x0),
        iri_text(x1),
    ensures
        ({
            let w = w_annotated_axiom(SpecAnnotatedAxiom { ax: SpecAxiom::AnnotationPropertyRange { ap: x0, iri: x1 }, ann }, None);
            let s = a + w + b;
            let q = a.len() + "AnnotationPropertyRange"@.len() + 1int;
            let e0 = q + w_annotations(ann, None).len();
            let e1 = e0 + 1 + w_iri(x0, None).len();
            let e2 = e1 + 1 + w_iri(x1, None).len();
            &&& r_iri(s, e0 + 1, px) == Some((Ok::<Seq<char>, SpecError>(x0), e1))
            &&& r_iri(s, ws(s, e1), px) == Some((Ok::<Seq<char>, SpecError>(x1), e2))
            &&& close_at(s, e2) == Some(e2 + 1)
            &&& e2 + 1 == a.len() + w.len()
        }),
{
    let ax = SpecAxiom::AnnotationPropertyRange { ap: x0, iri: x1 };
    let w = w_annotated_axiom(SpecAnnotatedAxiom { ax, ann }, None);
    assert(w == crate::rendering::w_axiom(ax, Some(ann), None));
    let s = a + w + b;
    let k = "AnnotationPropertyRange"@;
    let w0 = w_iri(x0, None);
    let w1 = w_iri(x1, None);
    let body = w0 + seq![' '] + w1;
    let t = w_annotations(ann, None) + seq![' '];
    assert(w == k + seq!['('] + t + body + seq![')']);
    lemma_cut_form(a, k, t, body, b);
    lemma_not_name_chars();
    let a1 = a + k + seq!['('] + t;
    lemma_cut_pair(a1, w0, w1, seq![')'] + b);
    lemma_iri_start(x0);
    lemma_starts_after_space(s, a1, w0, seq![' '] + w1 + (seq![')'] + b));
    lemma_read_written_iri(a1, x0, seq![' '] + w1 + (seq![')'] + b), px);
    let a2 = a1 + w0 + seq![' '];
    lemma_iri_start(x1);
    lemma_starts_after_space(s, a2, w1, seq![')'] + b);
    lemma_read_written_iri(a2, x1, seq![')'] + b, px);
    let e = a2.len() + w1.len() + 0int;
    assert(s[e] == ')');
    assert(ws(s, e) == e);
}

/// See [`lemma_read_written_axiom`]: `AnnotationPropertyRange` axioms.
#[verifier::spinoff_prover]
#[verifier::rlimit(80)]
pub proof fn lemma_read_written_annotation_property_range(a: Seq<char>, x0: Seq<char>, x1: Seq<char>, ann: Seq<SpecAnnotation>, b: Seq<char>, px: Px)
    requires
        annotations_sorted(ann),
        iri_text(x0),
        iri_text(x1),
        annotations_rt(ann),
    ensures
        ({
            let x = SpecAnnotatedAxiom { ax: SpecAxiom::AnnotationPropertyRange { ap: x0, iri: x1 }, ann };
            let s = a + w_annotated_axiom(x, None) + b;
            &&& r_axiom(s, a.len() as int, px) == Some(
                (Ok::<SpecAnnotatedAxiom, SpecError>(x), a.len() + w_annotated_axiom(x, None).len() + 0int),
            )
            &&& word(s, a.len() as int) != "Import"@
            &&& word(s, a.len() as int) != "Annotation"@
            &&& r_iri(s, a.len() as int, px) is None
            &&& is_letter(w_annotated_axiom(x, None)[0])
        }),
{
    lemma_annotation_set_of_sorted(ann);
    let ax = SpecAxiom::AnnotationPropertyRange { ap: x0, iri: x1 };
    let w = w_annotated_axiom(SpecAnnotatedAxiom { ax, ann }, None);
    assert(w == crate::rendering::w_axiom(ax, Some(ann), None));
    let s = a + w + b;
    let q = a.len() + "AnnotationPropertyRange"@.len() + 1int;
    let e0 = q + w_annotations(ann, None).len();
    lemma_read_written_annotation_property_range_head(a, x0, x1, ann, b, px);
    lemma_read_written_annotation_property_range_parts(a, x0, x1, ann, b, px);
    lemma_axiom_branch_annotation_property_range(s, e0 + 1, px);
    lemma_r_axiom_at(s, a.len() as int, px, q, "AnnotationPropertyRange"@, ax, ann, e0, a.len() + w.len() - 1int);
    lemma_keyword_letters("AnnotationPropertyRange"@, 0);
    assert(w[0] == "AnnotationPropertyRange"@[0]);
}

/// How the written form of a `AnnotationAssertion` axiom with annotations begins: its keyword, its
/// opening parenthesis and its annotations, each read as itself.
#[verifier::spinoff_prover]
#[verifier::rlimit(40)]
pub proof fn lemma_read_written_annotated_annotation_assertion_head(a: Seq<char>, x0: Seq<char>, x1: SpecAnnotationSubject, x2: SpecAnnotationValue, ann: Seq<SpecAnnotation>, b: Seq<char>, px: Px)
    requires
        annotation_set(ann) == ann,
        ann.len() > 0,
        iri_text(x0),
        annotation_subject_rt(x1),
        annotation_value_rt(x2),
        annotations_rt(ann),
    ensures
        ({
            let w = w_annotated_axiom(SpecAnnotatedAxiom { ax: SpecAxiom::AnnotationAssertion { subject: x1, ann: SpecAnnotation { ap: x0, av: x2 } }, ann }, None);
            let s = a + w + b;
            let q = a.len() + "AnnotationAssertion"@.len() + 1int;
            let e0 = q + w_annotations(ann, None).len();
            &&& open_at(s, letters_end(s, a.len() as int)) == Some(q)
            &&& word(s, a.len() as int) == "AnnotationAssertion"@
            &&& r_iri(s, a.len() as int, px) is None
            &&& r_annotation_seq(s, q, px) == (Ok::<Seq<SpecAnnotation>, SpecError>(ann), ann.len(), e0)
            &&& ws(s, e0) == e0 + 1
        }),
{
    let ax = SpecAxiom::AnnotationAssertion { subject: x1, ann: SpecAnnotation { ap: x0, av: x2 } };
    let w = w_annotated_axiom(SpecAnnotatedAxiom { ax, ann }, None);
    assert(w == crate::rendering::w_axiom(ax, Some(ann), None));
    let s = a + w + b;
    let k = "AnnotationAssertion"@;
    assert(keyword(k)) by {
        lemma_axiom_branch_annotation_assertion(s, 0, px);
    }
    let w0 = w_iri(x0, None);
    let w1 = w_annotation_subject(x1, None);
    let w2 = w_annotation_value(x2, None);
    let body = w0 + seq![' '] + w1 + seq![' '] + w2;
    let t = w_annotations(ann, None) + seq![' '];
    assert(w == k + seq!['('] + t + body + seq![')']) by {
        assert(w == w_lean_form(k, Some(ann), None, body));
    }
    lemma_cut_form(a, k, t, body, b);
    lemma_keyword_at(a, k, seq!['('] + t + body + seq![')'] + b, px);
    lemma_iri_start(x0);
    lemma_read_written_annotations_before(s, a + k + seq!['('], ann, body + seq![')'] + b, px);
}

/// How the written form of a `AnnotationAssertion` axiom with annotations goes on after its annotations:
/// its parts, each read as itself, then the closing parenthesis.
#[verifier::spinoff_prover]
#[verifier::rlimit(100)]
pub proof fn lemma_read_written_annotated_annotation_assertion_parts(a: Seq<char>, x0: Seq<char>, x1: SpecAnnotationSubject, x2: SpecAnnotationValue, ann: Seq<SpecAnnotation>, b: Seq<char>, px: Px)
    requires
        annotation_set(ann) == ann,
        ann.len() > 0,
        iri_text(x0),
        annotation_subject_rt(x1),
        annotation_value_rt(x2),
    ensures
        ({
            let w = w_annotated_axiom(SpecAnnotatedAxiom { ax: SpecAxiom::AnnotationAssertion { subject: x1, ann: SpecAnnotation { ap: x0, av: x2 } }, ann }, None);
            let s = a + w + b;
            let q = a.len() + "AnnotationAssertion"@.len() + 1int;
            let e0 = q + w_annotations(ann, None).len();
            let e1 = e0 + 1 + w_iri(x0, None).len();
            let e2 = e1 + 1 + w_annotation_subject(x1, None).len();
            let e3 = e2 + 1 + w_annotation_value(x2, None).len();
            &&& r_iri(s, e0 + 1, px) == Some((Ok::<Seq<char>, SpecError>(x0), e1))
            &&& r_annotation_subject(s, ws(s, e1), px) == Some((Ok::<SpecAnnotationSubject, SpecError>(x1), e2))
            &&& r_annotation_value(s, ws(s, e2), px) == Some((Ok::<SpecAnnotationValue, SpecError>(x2), e3))
            &&& close_at(s, e3) == Some(e3 + 1)
            &&& e3 + 1 == a.len() + w.len()
        }),
{
    let ax = SpecAxiom::AnnotationAssertion { subject: x1, ann: SpecAnnotation { ap: x0, av: x2 } };
    let w = w_annotated_axiom(SpecAnnotatedAxiom { ax, ann }, None);
    assert(w == crate::rendering::w_axiom(ax, Some(ann), None));
    let s = a + w + b;
    let k = "AnnotationAssertion"@;
    let w0 = w_iri(x0, None);
    let w1 = w_annotation_subject(x1, None);
    let w2 = w_annotation_value(x2, None);
    let body = w0 + seq![' '] + w1 + seq![' '] + w2;
    let t = w_annotations(ann, None) + seq![' '];
    assert(w == k + seq!['('] + t + body + seq![')']) by {
        assert(w == w_lean_form(k, Some(ann), None, body));
    }
    lemma_cut_form(a, k, t, body, b);
    lemma_not_name_chars();
    let a1 = a + k + seq!['('] + t;
    lemma_cut_triple(a1, w0, w1, w2, seq![')'] + b);
    lemma_iri_start(x0);
    lemma_starts_after_space(s, a1, w0, seq![' '] + w1 + seq![' '] + w2 + (seq![')'] + b));
    lemma_read_written_iri(a1, x0, seq![' '] + w1 + seq![' '] + w2 + (seq![')'] + b), px);
    let a2 = a1 + w0 + seq![' '];
    lemma_annotation_subject_start(x1);
    lemma_starts_after_space(s, a2, w1, seq![' '] + w2 + (seq![')'] + b));
    lemma_read_written_annotation_subject(a2, x1, seq![' '] + w2 + (seq![')'] + b), px);
    let a3 = a2 + w1 + seq![' '];
    lemma_annotation_value_start(x2);
    lemma_starts_after_space(s, a3, w2, seq![')'] + b);
    lemma_read_written_annotation_value(a3, x2, seq![')'] + b, px);
    let e = a3.len() + w2.len() + 0int;
    assert(s[e] == ')');
    assert(ws(s, e) == e);
}

/// See [`lemma_read_written_axiom`]: `AnnotationAssertion` axiom with annotationss.
#[verifier::spinoff_prover]
#[verifier::rlimit(80)]
pub proof fn lemma_read_written_annotated_annotation_assertion(a: Seq<char>, x0: Seq<char>, x1: SpecAnnotationSubject, x2: SpecAnnotationValue, ann: Seq<SpecAnnotation>, b: Seq<char>, px: Px)
    requires
        annotations_sorted(ann),
        ann.len() > 0,
        iri_text(x0),
        annotation_subject_rt(x1),
        annotation_value_rt(x2),
        annotations_rt(ann),
    ensures
        ({
            let x = SpecAnnotatedAxiom { ax: SpecAxiom::AnnotationAssertion { subject: x1, ann: SpecAnnotation { ap: x0, av: x2 } }, ann };
            let s = a + w_annotated_axiom(x, None) + b;
            &&& r_axiom(s, a.len() as int, px) == Some(
                (Ok::<SpecAnnotatedAxiom, SpecError>(x), a.len() + w_annotated_axiom(x, None).len() + 0int),
            )
            &&& word(s, a.len() as int) != "Import"@
            &&& word(s, a.len() as int) != "Annotation"@
            &&& r_iri(s, a.len() as int, px) is None
            &&& is_letter(w_annotated_axiom(x, None)[0])
        }),
{
    lemma_annotation_set_of_sorted(ann);
    let ax = SpecAxiom::AnnotationAssertion { subject: x1, ann: SpecAnnotation { ap: x0, av: x2 } };
    let w = w_annotated_axiom(SpecAnnotatedAxiom { ax, ann }, None);
    assert(w == crate::rendering::w_axiom(ax, Some(ann), None));
    let s = a + w + b;
    let q = a.len() + "AnnotationAssertion"@.len() + 1int;
    let e0 = q + w_annotations(ann, None).len();
    lemma_read_written_annotated_annotation_assertion_head(a, x0, x1, x2, ann, b, px);
    lemma_read_written_annotated_annotation_assertion_parts(a, x0, x1, x2, ann, b, px);
    lemma_axiom_branch_annotation_assertion(s, e0 + 1, px);
    lemma_r_axiom_at(s, a.len() as int, px, q, "AnnotationAssertion"@, ax, ann, e0, a.len() + w.len() - 1int);
    lemma_keyword_letters("AnnotationAssertion"@, 0);
    assert(w[0] == "AnnotationAssertion"@[0]);
}

/// A declared entity `Class(iri)` whose IRI reads back as itself, read
/// after any text `a`: the declaration.
#[verifier::spinoff_prover]
#[verifier::rlimit(40)]
pub proof fn lemma_read_written_entity_class(a: Seq<char>, i: Seq<char>, b: Seq<char>, px: Px)
    requires
        iri_text(i),
    ensures
        ({
            let w = "Class"@ + seq!['('] + w_iri(i, None) + seq![')'];
            r_entity(a + w + b, a.len() as int, px) == Some(
                (Ok::<SpecAxiom, SpecError>(SpecAxiom::DeclareClass(i)), a.len() + w.len() + 0int),
            )
        }),
{
    let k = "Class"@;
    let wi = w_iri(i, None);
    let w = k + seq!['('] + wi + seq![')'];
    let s = a + w + b;
    reveal_strlit("Class");
    assert(keyword(k)) by {
        reveal_with_fuel(letters_end, 20);
    }
    assert(s =~= a + k + (seq!['('] + wi + seq![')'] + b));
    lemma_keyword_at(a, k, seq!['('] + wi + seq![')'] + b, px);
    lemma_entity_branch_class(s, a.len() as int, px);
    let a2 = a + k + seq!['('];
    assert(s =~= a2 + wi + (seq![')'] + b));
    lemma_iri_start(i);
    assert(ws(s, a2.len() as int) == a2.len());
    lemma_read_written_iri(a2, i, seq![')'] + b, px);
    let e0 = a2.len() + wi.len() + 0int;
    assert(s[e0] == ')');
    assert(ws(s, e0) == e0);
}

/// How the written form of a declaration of a `Class` with annotations begins: its keyword, its
/// opening parenthesis and its annotations, each read as itself.
#[verifier::spinoff_prover]
#[verifier::rlimit(40)]
pub proof fn lemma_read_written_annotated_declare_class_head(a: Seq<char>, x0: Seq<char>, ann: Seq<SpecAnnotation>, b: Seq<char>, px: Px)
    requires
        annotation_set(ann) == ann,
        ann.len() > 0,
        iri_text(x0),
        annotations_rt(ann),
    ensures
        ({
            let w = w_annotated_axiom(SpecAnnotatedAxiom { ax: SpecAxiom::DeclareClass(x0), ann }, None);
            let s = a + w + b;
            let q = a.len() + "Declaration"@.len() + 1int;
            let e0 = q + w_annotations(ann, None).len();
            &&& open_at(s, letters_end(s, a.len() as int)) == Some(q)
            &&& word(s, a.len() as int) == "Declaration"@
            &&& r_iri(s, a.len() as int, px) is None
            &&& r_annotation_seq(s, q, px) == (Ok::<Seq<SpecAnnotation>, SpecError>(ann), ann.len(), e0)
            &&& ws(s, e0) == e0 + 1
        }),
{
    let ax = SpecAxiom::DeclareClass(x0);
    let w = w_annotated_axiom(SpecAnnotatedAxiom { ax, ann }, None);
    assert(w == crate::rendering::w_axiom(ax, Some(ann), None));
    let s = a + w + b;
    let k = "Declaration"@;
    assert(keyword(k)) by {
        lemma_axiom_branch_declaration(s, 0, px);
    }
    let w0 = ("Class"@ + seq!['('] + w_iri(x0, None) + seq![')']);
    let body = w0;
    let t = w_annotations(ann, None) + seq![' '];
    assert(w == k + seq!['('] + t + body + seq![')']) by {
        assert(w == w_lean_form(k, Some(ann), None, body));
    }
    lemma_cut_form(a, k, t, body, b);
    lemma_keyword_at(a, k, seq!['('] + t + body + seq![')'] + b, px);
    reveal_strlit("Class");
    lemma_read_written_annotations_before(s, a + k + seq!['('], ann, body + seq![')'] + b, px);
}

/// How the written form of a declaration of a `Class` with annotations goes on after its annotations:
/// its parts, each read as itself, then the closing parenthesis.
#[verifier::spinoff_prover]
#[verifier::rlimit(100)]
pub proof fn lemma_read_written_annotated_declare_class_parts(a: Seq<char>, x0: Seq<char>, ann: Seq<SpecAnnotation>, b: Seq<char>, px: Px)
    requires
        annotation_set(ann) == ann,
        ann.len() > 0,
        iri_text(x0),
    ensures
        ({
            let w = w_annotated_axiom(SpecAnnotatedAxiom { ax: SpecAxiom::DeclareClass(x0), ann }, None);
            let s = a + w + b;
            let q = a.len() + "Declaration"@.len() + 1int;
            let e0 = q + w_annotations(ann, None).len();
            let e1 = e0 + 1 + ("Class"@ + seq!['('] + w_iri(x0, None) + seq![')']).len();
            &&& r_entity(s, e0 + 1, px) == Some((Ok::<SpecAxiom, SpecError>(SpecAxiom::DeclareClass(x0)), e1))
            &&& close_at(s, e1) == Some(e1 + 1)
            &&& e1 + 1 == a.len() + w.len()
        }),
{
    let ax = SpecAxiom::DeclareClass(x0);
    let w = w_annotated_axiom(SpecAnnotatedAxiom { ax, ann }, None);
    assert(w == crate::rendering::w_axiom(ax, Some(ann), None));
    let s = a + w + b;
    let k = "Declaration"@;
    let w0 = ("Class"@ + seq!['('] + w_iri(x0, None) + seq![')']);
    let body = w0;
    let t = w_annotations(ann, None) + seq![' '];
    assert(w == k + seq!['('] + t + body + seq![')']) by {
        assert(w == w_lean_form(k, Some(ann), None, body));
    }
    lemma_cut_form(a, k, t, body, b);
    lemma_not_name_chars();
    let a1 = a + k + seq!['('] + t;
    reveal_strlit("Class");
    lemma_starts_after_space(s, a1, w0, seq![')'] + b);
    lemma_read_written_entity_class(a1, x0, seq![')'] + b, px);
    let e = a1.len() + w0.len() + 0int;
    assert(s[e] == ')');
    assert(ws(s, e) == e);
}

/// See [`lemma_read_written_axiom`]: declarations of a `Class` with annotations.
#[verifier::spinoff_prover]
#[verifier::rlimit(80)]
pub proof fn lemma_read_written_annotated_declare_class(a: Seq<char>, x0: Seq<char>, ann: Seq<SpecAnnotation>, b: Seq<char>, px: Px)
    requires
        annotations_sorted(ann),
        ann.len() > 0,
        iri_text(x0),
        annotations_rt(ann),
    ensures
        ({
            let x = SpecAnnotatedAxiom { ax: SpecAxiom::DeclareClass(x0), ann };
            let s = a + w_annotated_axiom(x, None) + b;
            &&& r_axiom(s, a.len() as int, px) == Some(
                (Ok::<SpecAnnotatedAxiom, SpecError>(x), a.len() + w_annotated_axiom(x, None).len() + 0int),
            )
            &&& word(s, a.len() as int) != "Import"@
            &&& word(s, a.len() as int) != "Annotation"@
            &&& r_iri(s, a.len() as int, px) is None
            &&& is_letter(w_annotated_axiom(x, None)[0])
        }),
{
    lemma_annotation_set_of_sorted(ann);
    let ax = SpecAxiom::DeclareClass(x0);
    let w = w_annotated_axiom(SpecAnnotatedAxiom { ax, ann }, None);
    assert(w == crate::rendering::w_axiom(ax, Some(ann), None));
    let s = a + w + b;
    let q = a.len() + "Declaration"@.len() + 1int;
    let e0 = q + w_annotations(ann, None).len();
    lemma_read_written_annotated_declare_class_head(a, x0, ann, b, px);
    lemma_read_written_annotated_declare_class_parts(a, x0, ann, b, px);
    lemma_axiom_branch_declaration(s, e0 + 1, px);
    lemma_r_axiom_at(s, a.len() as int, px, q, "Declaration"@, ax, ann, e0, a.len() + w.len() - 1int);
    lemma_keyword_letters("Declaration"@, 0);
    assert(w[0] == "Declaration"@[0]);
}

/// A declared entity `Datatype(iri)` whose IRI reads back as itself, read
/// after any text `a`: the declaration.
#[verifier::spinoff_prover]
#[verifier::rlimit(40)]
pub proof fn lemma_read_written_entity_datatype(a: Seq<char>, i: Seq<char>, b: Seq<char>, px: Px)
    requires
        iri_text(i),
    ensures
        ({
            let w = "Datatype"@ + seq!['('] + w_iri(i, None) + seq![')'];
            r_entity(a + w + b, a.len() as int, px) == Some(
                (Ok::<SpecAxiom, SpecError>(SpecAxiom::DeclareDatatype(i)), a.len() + w.len() + 0int),
            )
        }),
{
    let k = "Datatype"@;
    let wi = w_iri(i, None);
    let w = k + seq!['('] + wi + seq![')'];
    let s = a + w + b;
    reveal_strlit("Datatype");
    assert(keyword(k)) by {
        reveal_with_fuel(letters_end, 20);
    }
    assert(s =~= a + k + (seq!['('] + wi + seq![')'] + b));
    lemma_keyword_at(a, k, seq!['('] + wi + seq![')'] + b, px);
    lemma_entity_branch_datatype(s, a.len() as int, px);
    let a2 = a + k + seq!['('];
    assert(s =~= a2 + wi + (seq![')'] + b));
    lemma_iri_start(i);
    assert(ws(s, a2.len() as int) == a2.len());
    lemma_read_written_iri(a2, i, seq![')'] + b, px);
    let e0 = a2.len() + wi.len() + 0int;
    assert(s[e0] == ')');
    assert(ws(s, e0) == e0);
}

/// How the written form of a declaration of a `Datatype` with annotations begins: its keyword, its
/// opening parenthesis and its annotations, each read as itself.
#[verifier::spinoff_prover]
#[verifier::rlimit(40)]
pub proof fn lemma_read_written_annotated_declare_datatype_head(a: Seq<char>, x0: Seq<char>, ann: Seq<SpecAnnotation>, b: Seq<char>, px: Px)
    requires
        annotation_set(ann) == ann,
        ann.len() > 0,
        iri_text(x0),
        annotations_rt(ann),
    ensures
        ({
            let w = w_annotated_axiom(SpecAnnotatedAxiom { ax: SpecAxiom::DeclareDatatype(x0), ann }, None);
            let s = a + w + b;
            let q = a.len() + "Declaration"@.len() + 1int;
            let e0 = q + w_annotations(ann, None).len();
            &&& open_at(s, letters_end(s, a.len() as int)) == Some(q)
            &&& word(s, a.len() as int) == "Declaration"@
            &&& r_iri(s, a.len() as int, px) is None
            &&& r_annotation_seq(s, q, px) == (Ok::<Seq<SpecAnnotation>, SpecError>(ann), ann.len(), e0)
            &&& ws(s, e0) == e0 + 1
        }),
{
    let ax = SpecAxiom::DeclareDatatype(x0);
    let w = w_annotated_axiom(SpecAnnotatedAxiom { ax, ann }, None);
    assert(w == crate::rendering::w_axiom(ax, Some(ann), None));
    let s = a + w + b;
    let k = "Declaration"@;
    assert(keyword(k)) by {
        lemma_axiom_branch_declaration(s, 0, px);
    }
    let w0 = ("Datatype"@ + seq!['('] + w_iri(x0, None) + seq![')']);
    let body = w0;
    let t = w_annotations(ann, None) + seq![' '];
    assert(w == k + seq!['('] + t + body + seq![')']) by {
        assert(w == w_lean_form(k, Some(ann), None, body));
    }
    lemma_cut_form(a, k, t, body, b);
    lemma_keyword_at(a, k, seq!['('] + t + body + seq![')'] + b, px);
    reveal_strlit("Datatype");
    lemma_read_written_annotations_before(s, a + k + seq!['('], ann, body + seq![')'] + b, px);
}

/// How the written form of a declaration of a `Datatype` with annotations goes on after its annotations:
/// its parts, each read as itself, then the closing parenthesis.
#[verifier::spinoff_prover]
#[verifier::rlimit(100)]
pub proof fn lemma_read_written_annotated_declare_datatype_parts(a: Seq<char>, x0: Seq<char>, ann: Seq<SpecAnnotation>, b: Seq<char>, px: Px)
    requires
        annotation_set(ann) == ann,
        ann.len() > 0,
        iri_text(x0),
    ensures
        ({
            let w = w_annotated_axiom(SpecAnnotatedAxiom { ax: SpecAxiom::DeclareDatatype(x0), ann }, None);
            let s = a + w + b;
            let q = a.len() + "Declaration"@.len() + 1int;
            let e0 = q + w_annotations(ann, None).len();
            let e1 = e0 + 1 + ("Datatype"@ + seq!['('] + w_iri(x0, None) + seq![')']).len();
            &&& r_entity(s, e0 + 1, px) == Some((Ok::<SpecAxiom, SpecError>(SpecAxiom::DeclareDatatype(x0)), e1))
            &&& close_at(s, e1) == Some(e1 + 1)
            &&& e1 + 1 == a.len() + w.len()
        }),
{
    let ax = SpecAxiom::DeclareDatatype(x0);
    let w = w_annotated_axiom(SpecAnnotatedAxiom { ax, ann }, None);
    assert(w == crate::rendering::w_axiom(ax, Some(ann), None));
    let s = a + w + b;
    let k = "Declaration"@;
    let w0 = ("Datatype"@ + seq!['('] + w_iri(x0, None) + seq![')']);
    let body = w0;
    let t = w_annotations(ann, None) + seq![' '];
    assert(w == k + seq!['('] + t + body + seq![')']) by {
        assert(w == w_lean_form(k, Some(ann), None, body));
    }
    lemma_cut_form(a, k, t, body, b);
    lemma_not_name_chars();
    let a1 = a + k + seq!['('] + t;
    reveal_strlit("Datatype");
    lemma_starts_after_space(s, a1, w0, seq![')'] + b);
    lemma_read_written_entity_datatype(a1, x0, seq![')'] + b, px);
    let e = a1.len() + w0.len() + 0int;
    assert(s[e] == ')');
    assert(ws(s, e) == e);
}

/// See [`lemma_read_written_axiom`]: declarations of a `Datatype` with annotations.
#[verifier::spinoff_prover]
#[verifier::rlimit(80)]
pub proof fn lemma_read_written_annotated_declare_datatype(a: Seq<char>, x0: Seq<char>, ann: Seq<SpecAnnotation>, b: Seq<char>, px: Px)
    requires
        annotations_sorted(ann),
        ann.len() > 0,
        iri_text(x0),
        annotations_rt(ann),
    ensures
        ({
            let x = SpecAnnotatedAxiom { ax: SpecAxiom::DeclareDatatype(x0), ann };
            let s = a + w_annotated_axiom(x, None) + b;
            &&& r_axiom(s, a.len() as int, px) == Some(
                (Ok::<SpecAnnotatedAxiom, SpecError>(x), a.len() + w_annotated_axiom(x, None).len() + 0int),
            )
            &&& word(s, a.len() as int) != "Import"@
            &&& word(s, a.len() as int) != "Annotation"@
            &&& r_iri(s, a.len() as int, px) is None
            &&& is_letter(w_annotated_axiom(x, None)[0])
        }),
{
    lemma_annotation_set_of_sorted(ann);
    let ax = SpecAxiom::DeclareDatatype(x0);
    let w = w_annotated_axiom(SpecAnnotatedAxiom { ax, ann }, None);
    assert(w == crate::rendering::w_axiom(ax, Some(ann), None));
    let s = a + w + b;
    let q = a.len() + "Declaration"@.len() + 1int;
    let e0 = q + w_annotations(ann, None).len();
    lemma_read_written_annotated_declare_datatype_head(a, x0, ann, b, px);
    lemma_read_written_annotated_declare_datatype_parts(a, x0, ann, b, px);
    lemma_axiom_branch_declaration(s, e0 + 1, px);
    lemma_r_axiom_at(s, a.len() as int, px, q, "Declaration"@, ax, ann, e0, a.len() + w.len() - 1int);
    lemma_keyword_letters("Declaration"@, 0);
    assert(w[0] == "Declaration"@[0]);
}

/// A declared entity `ObjectProperty(iri)` whose IRI reads back as itself, read
/// after any text `a`: the declaration.
#[verifier::spinoff_prover]
#[verifier::rlimit(40)]
pub proof fn lemma_read_written_entity_object_property(a: Seq<char>, i: Seq<char>, b: Seq<char>, px: Px)
    requires
        iri_text(i),
    ensures
        ({
            let w = "ObjectProperty"@ + seq!['('] + w_iri(i, None) + seq![')'];
            r_entity(a + w + b, a.len() as int, px) == Some(
                (Ok::<SpecAxiom, SpecError>(SpecAxiom::DeclareObjectProperty(i)), a.len() + w.len() + 0int),
            )
        }),
{
    let k = "ObjectProperty"@;
    let wi = w_iri(i, None);
    let w = k + seq!['('] + wi + seq![')'];
    let s = a + w + b;
    reveal_strlit("ObjectProperty");
    assert(keyword(k)) by {
        reveal_with_fuel(letters_end, 20);
    }
    assert(s =~= a + k + (seq!['('] + wi + seq![')'] + b));
    lemma_keyword_at(a, k, seq!['('] + wi + seq![')'] + b, px);
    lemma_entity_branch_object_property(s, a.len() as int, px);
    let a2 = a + k + seq!['('];
    assert(s =~= a2 + wi + (seq![')'] + b));
    lemma_iri_start(i);
    assert(ws(s, a2.len() as int) == a2.len());
    lemma_read_written_iri(a2, i, seq![')'] + b, px);
    let e0 = a2.len() + wi.len() + 0int;
    assert(s[e0] == ')');
    assert(ws(s, e0) == e0);
}

/// How the written form of a declaration of an `ObjectProperty` with annotations begins: its keyword, its
/// opening parenthesis and its annotations, each read as itself.
#[verifier::spinoff_prover]
#[verifier::rlimit(40)]
pub proof fn lemma_read_written_annotated_declare_object_property_head(a: Seq<char>, x0: Seq<char>, ann: Seq<SpecAnnotation>, b: Seq<char>, px: Px)
    requires
        annotation_set(ann) == ann,
        ann.len() > 0,
        iri_text(x0),
        annotations_rt(ann),
    ensures
        ({
            let w = w_annotated_axiom(SpecAnnotatedAxiom { ax: SpecAxiom::DeclareObjectProperty(x0), ann }, None);
            let s = a + w + b;
            let q = a.len() + "Declaration"@.len() + 1int;
            let e0 = q + w_annotations(ann, None).len();
            &&& open_at(s, letters_end(s, a.len() as int)) == Some(q)
            &&& word(s, a.len() as int) == "Declaration"@
            &&& r_iri(s, a.len() as int, px) is None
            &&& r_annotation_seq(s, q, px) == (Ok::<Seq<SpecAnnotation>, SpecError>(ann), ann.len(), e0)
            &&& ws(s, e0) == e0 + 1
        }),
{
    let ax = SpecAxiom::DeclareObjectProperty(x0);
    let w = w_annotated_axiom(SpecAnnotatedAxiom { ax, ann }, None);
    assert(w == crate::rendering::w_axiom(ax, Some(ann), None));
    let s = a + w + b;
    let k = "Declaration"@;
    assert(keyword(k)) by {
        lemma_axiom_branch_declaration(s, 0, px);
    }
    let w0 = ("ObjectProperty"@ + seq!['('] + w_iri(x0, None) + seq![')']);
    let body = w0;
    let t = w_annotations(ann, None) + seq![' '];
    assert(w == k + seq!['('] + t + body + seq![')']) by {
        assert(w == w_lean_form(k, Some(ann), None, body));
    }
    lemma_cut_form(a, k, t, body, b);
    lemma_keyword_at(a, k, seq!['('] + t + body + seq![')'] + b, px);
    reveal_strlit("ObjectProperty");
    lemma_read_written_annotations_before(s, a + k + seq!['('], ann, body + seq![')'] + b, px);
}

/// How the written form of a declaration of an `ObjectProperty` with annotations goes on after its annotations:
/// its parts, each read as itself, then the closing parenthesis.
#[verifier::spinoff_prover]
#[verifier::rlimit(100)]
pub proof fn lemma_read_written_annotated_declare_object_property_parts(a: Seq<char>, x0: Seq<char>, ann: Seq<SpecAnnotation>, b: Seq<char>, px: Px)
    requires
        annotation_set(ann) == ann,
        ann.len() > 0,
        iri_text(x0),
    ensures
        ({
            let w = w_annotated_axiom(SpecAnnotatedAxiom { ax: SpecAxiom::DeclareObjectProperty(x0), ann }, None);
            let s = a + w + b;
            let q = a.len() + "Declaration"@.len() + 1int;
            let e0 = q + w_annotations(ann, None).len();
            let e1 = e0 + 1 + ("ObjectProperty"@ + seq!['('] + w_iri(x0, None) + seq![')']).len();
            &&& r_entity(s, e0 + 1, px) == Some((Ok::<SpecAxiom, SpecError>(SpecAxiom::DeclareObjectProperty(x0)), e1))
            &&& close_at(s, e1) == Some(e1 + 1)
            &&& e1 + 1 == a.len() + w.len()
        }),
{
    let ax = SpecAxiom::DeclareObjectProperty(x0);
    let w = w_annotated_axiom(SpecAnnotatedAxiom { ax, ann }, None);
    assert(w == crate::rendering::w_axiom(ax, Some(ann), None));
    let s = a + w + b;
    let k = "Declaration"@;
    let w0 = ("ObjectProperty"@ + seq!['('] + w_iri(x0, None) + seq![')']);
    let body = w0;
    let t = w_annotations(ann, None) + seq![' '];
    assert(w == k + seq!['('] + t + body + seq![')']) by {
        assert(w == w_lean_form(k, Some(ann), None, body));
    }
    lemma_cut_form(a, k, t, body, b);
    lemma_not_name_chars();
    let a1 = a + k + seq!['('] + t;
    reveal_strlit("ObjectProperty");
    lemma_starts_after_space(s, a1, w0, seq![')'] + b);
    lemma_read_written_entity_object_property(a1, x0, seq![')'] + b, px);
    let e = a1.len() + w0.len() + 0int;
    assert(s[e] == ')');
    assert(ws(s, e) == e);
}

/// See [`lemma_read_written_axiom`]: declarations of an `ObjectProperty` with annotations.
#[verifier::spinoff_prover]
#[verifier::rlimit(80)]
pub proof fn lemma_read_written_annotated_declare_object_property(a: Seq<char>, x0: Seq<char>, ann: Seq<SpecAnnotation>, b: Seq<char>, px: Px)
    requires
        annotations_sorted(ann),
        ann.len() > 0,
        iri_text(x0),
        annotations_rt(ann),
    ensures
        ({
            let x = SpecAnnotatedAxiom { ax: SpecAxiom::DeclareObjectProperty(x0), ann };
            let s = a + w_annotated_axiom(x, None) + b;
            &&& r_axiom(s, a.len() as int, px) == Some(
                (Ok::<SpecAnnotatedAxiom, SpecError>(x), a.len() + w_annotated_axiom(x, None).len() + 0int),
            )
            &&& word(s, a.len() as int) != "Import"@
            &&& word(s, a.len() as int) != "Annotation"@
            &&& r_iri(s, a.len() as int, px) is None
            &&& is_letter(w_annotated_axiom(x, None)[0])
        }),
{
    lemma_annotation_set_of_sorted(ann);
    let ax = SpecAxiom::DeclareObjectProperty(x0);
    let w = w_annotated_axiom(SpecAnnotatedAxiom { ax, ann }, None);
    assert(w == crate::rendering::w_axiom(ax, Some(ann), None));
    let s = a + w + b;
    let q = a.len() + "Declaration"@.len() + 1int;
    let e0 = q + w_annotations(ann, None).len();
    lemma_read_written_annotated_declare_object_property_head(a, x0, ann, b, px);
    lemma_read_written_annotated_declare_object_property_parts(a, x0, ann, b, px);
    lemma_axiom_branch_declaration(s, e0 + 1, px);
    lemma_r_axiom_at(s, a.len() as int, px, q, "Declaration"@, ax, ann, e0, a.len() + w.len() - 1int);
    lemma_keyword_letters("Declaration"@, 0);
    assert(w[0] == "Declaration"@[0]);
}

/// A declared entity `DataProperty(iri)` whose IRI reads back as itself, read
/// after any text `a`: the declaration.
#[verifier::spinoff_prover]
#[verifier::rlimit(40)]
pub proof fn lemma_read_written_entity_data_property(a: Seq<char>, i: Seq<char>, b: Seq<char>, px: Px)
    requires
        iri_text(i),
    ensures
        ({
            let w = "DataProperty"@ + seq!['('] + w_iri(i, None) + seq![')'];
            r_entity(a + w + b, a.len() as int, px) == Some(
                (Ok::<SpecAxiom, SpecError>(SpecAxiom::DeclareDataProperty(i)), a.len() + w.len() + 0int),
            )
        }),
{
    let k = "DataProperty"@;
    let wi = w_iri(i, None);
    let w = k + seq!['('] + wi + seq![')'];
    let s = a + w + b;
    reveal_strlit("DataProperty");
    assert(keyword(k)) by {
        reveal_with_fuel(letters_end, 20);
    }
    assert(s =~= a + k + (seq!['('] + wi + seq![')'] + b));
    lemma_keyword_at(a, k, seq!['('] + wi + seq![')'] + b, px);
    lemma_entity_branch_data_property(s, a.len() as int, px);
    let a2 = a + k + seq!['('];
    assert(s =~= a2 + wi + (seq![')'] + b));
    lemma_iri_start(i);
    assert(ws(s, a2.len() as int) == a2.len());
    lemma_read_written_iri(a2, i, seq![')'] + b, px);
    let e0 = a2.len() + wi.len() + 0int;
    assert(s[e0] == ')');
    assert(ws(s, e0) == e0);
}

/// How the written form of a declaration of a `DataProperty` with annotations begins: its keyword, its
/// opening parenthesis and its annotations, each read as itself.
#[verifier::spinoff_prover]
#[verifier::rlimit(40)]
pub proof fn lemma_read_written_annotated_declare_data_property_head(a: Seq<char>, x0: Seq<char>, ann: Seq<SpecAnnotation>, b: Seq<char>, px: Px)
    requires
        annotation_set(ann) == ann,
        ann.len() > 0,
        iri_text(x0),
        annotations_rt(ann),
    ensures
        ({
            let w = w_annotated_axiom(SpecAnnotatedAxiom { ax: SpecAxiom::DeclareDataProperty(x0), ann }, None);
            let s = a + w + b;
            let q = a.len() + "Declaration"@.len() + 1int;
            let e0 = q + w_annotations(ann, None).len();
            &&& open_at(s, letters_end(s, a.len() as int)) == Some(q)
            &&& word(s, a.len() as int) == "Declaration"@
            &&& r_iri(s, a.len() as int, px) is None
            &&& r_annotation_seq(s, q, px) == (Ok::<Seq<SpecAnnotation>, SpecError>(ann), ann.len(), e0)
            &&& ws(s, e0) == e0 + 1
        }),
{
    let ax = SpecAxiom::DeclareDataProperty(x0);
    let w = w_annotated_axiom(SpecAnnotatedAxiom { ax, ann }, None);
    assert(w == crate::rendering::w_axiom(ax, Some(ann), None));
    let s = a + w + b;
    let k = "Declaration"@;
    assert(keyword(k)) by {
        lemma_axiom_branch_declaration(s, 0, px);
    }
    let w0 = ("DataProperty"@ + seq!['('] + w_iri(x0, None) + seq![')']);
    let body = w0;
    let t = w_annotations(ann, None) + seq![' '];
    assert(w == k + seq!['('] + t + body + seq![')']) by {
        assert(w == w_lean_form(k, Some(ann), None, body));
    }
    lemma_cut_form(a, k, t, body, b);
    lemma_keyword_at(a, k, seq!['('] + t + body + seq![')'] + b, px);
    reveal_strlit("DataProperty");
    lemma_read_written_annotations_before(s, a + k + seq!['('], ann, body + seq![')'] + b, px);
}

/// How the written form of a declaration of a `DataProperty` with annotations goes on after its annotations:
/// its parts, each read as itself, then the closing parenthesis.
#[verifier::spinoff_prover]
#[verifier::rlimit(100)]
pub proof fn lemma_read_written_annotated_declare_data_property_parts(a: Seq<char>, x0: Seq<char>, ann: Seq<SpecAnnotation>, b: Seq<char>, px: Px)
    requires
        annotation_set(ann) == ann,
        ann.len() > 0,
        iri_text(x0),
    ensures
        ({
            let w = w_annotated_axiom(SpecAnnotatedAxiom { ax: SpecAxiom::DeclareDataProperty(x0), ann }, None);
            let s = a + w + b;
            let q = a.len() + "Declaration"@.len() + 1int;
            let e0 = q + w_annotations(ann, None).len();
            let e1 = e0 + 1 + ("DataProperty"@ + seq!['('] + w_iri(x0, None) + seq![')']).len();
            &&& r_entity(s, e0 + 1, px) == Some((Ok::<SpecAxiom, SpecError>(SpecAxiom::DeclareDataProperty(x0)), e1))
            &&& close_at(s, e1) == Some(e1 + 1)
            &&& e1 + 1 == a.len() + w.len()
        }),
{
    let ax = SpecAxiom::DeclareDataProperty(x0);
    let w = w_annotated_axiom(SpecAnnotatedAxiom { ax, ann }, None);
    assert(w == crate::rendering::w_axiom(ax, Some(ann), None));
    let s = a + w + b;
    let k = "Declaration"@;
    let w0 = ("DataProperty"@ + seq!['('] + w_iri(x0, None) + seq![')']);
    let body = w0;
    let t = w_annotations(ann, None) + seq![' '];
    assert(w == k + seq!['('] + t + body + seq![')']) by {
        assert(w == w_lean_form(k, Some(ann), None, body));
    }
    lemma_cut_form(a, k, t, body, b);
    lemma_not_name_chars();
    let a1 = a + k + seq!['('] + t;
    reveal_strlit("DataProperty");
    lemma_starts_after_space(s, a1, w0, seq![')'] + b);
    lemma_read_written_entity_data_property(a1, x0, seq![')'] + b, px);
    let e = a1.len() + w0.len() + 0int;
    assert(s[e] == ')');
    assert(ws(s, e) == e);
}

/// See [`lemma_read_written_axiom`]: declarations of a `DataProperty` with annotations.
#[verifier::spinoff_prover]
#[verifier::rlimit(80)]
pub proof fn lemma_read_written_annotated_declare_data_property(a: Seq<char>, x0: Seq<char>, ann: Seq<SpecAnnotation>, b: Seq<char>, px: Px)
    requires
        annotations_sorted(ann),
        ann.len() > 0,
        iri_text(x0),
        annotations_rt(ann),
    ensures
        ({
            let x = SpecAnnotatedAxiom { ax: SpecAxiom::DeclareDataProperty(x0), ann };
            let s = a + w_annotated_axiom(x, None) + b;
            &&& r_axiom(s, a.len() as int, px) == Some(
                (Ok::<SpecAnnotatedAxiom, SpecError>(x), a.len() + w_annotated_axiom(x, None).len() + 0int),
            )
            &&& word(s, a.len() as int) != "Import"@
            &&& word(s, a.len() as int) != "Annotation"@
            &&& r_iri(s, a.len() as int, px) is None
            &&& is_letter(w_annotated_axiom(x, None)[0])
        }),
{
    lemma_annotation_set_of_sorted(ann);
    let ax = SpecAxiom::DeclareDataProperty(x0);
    let w = w_annotated_axiom(SpecAnnotatedAxiom { ax, ann }, None);
    assert(w == crate::rendering::w_axiom(ax, Some(ann), None));
    let s = a + w + b;
    let q = a.len() + "Declaration"@.len() + 1int;
    let e0 = q + w_annotations(ann, None).len();
    lemma_read_written_annotated_declare_data_property_head(a, x0, ann, b, px);
    lemma_read_written_annotated_declare_data_property_parts(a, x0, ann, b, px);
    lemma_axiom_branch_declaration(s, e0 + 1, px);
    lemma_r_axiom_at(s, a.len() as int, px, q, "Declaration"@, ax, ann, e0, a.len() + w.len() - 1int);
    lemma_keyword_letters("Declaration"@, 0);
    assert(w[0] == "Declaration"@[0]);
}

/// A declared entity `AnnotationProperty(iri)` whose IRI reads back as itself, read
/// after any text `a`: the declaration.
#[verifier::spinoff_prover]
#[verifier::rlimit(40)]
pub proof fn lemma_read_written_entity_annotation_property(a: Seq<char>, i: Seq<char>, b: Seq<char>, px: Px)
    requires
        iri_text(i),
    ensures
        ({
            let w = "AnnotationProperty"@ + seq!['('] + w_iri(i, None) + seq![')'];
            r_entity(a + w + b, a.len() as int, px) == Some(
                (Ok::<SpecAxiom, SpecError>(SpecAxiom::DeclareAnnotationProperty(i)), a.len() + w.len() + 0int),
            )
        }),
{
    let k = "AnnotationProperty"@;
    let wi = w_iri(i, None);
    let w = k + seq!['('] + wi + seq![')'];
    let s = a + w + b;
    reveal_strlit("AnnotationProperty");
    assert(keyword(k)) by {
        reveal_with_fuel(letters_end, 20);
    }
    assert(s =~= a + k + (seq!['('] + wi + seq![')'] + b));
    lemma_keyword_at(a, k, seq!['('] + wi + seq![')'] + b, px);
    lemma_entity_branch_annotation_property(s, a.len() as int, px);
    let a2 = a + k + seq!['('];
    assert(s =~= a2 + wi + (seq![')'] + b));
    lemma_iri_start(i);
    assert(ws(s, a2.len() as int) == a2.len());
    lemma_read_written_iri(a2, i, seq![')'] + b, px);
    let e0 = a2.len() + wi.len() + 0int;
    assert(s[e0] == ')');
    assert(ws(s, e0) == e0);
}

/// How the written form of a declaration of an `AnnotationProperty` with annotations begins: its keyword, its
/// opening parenthesis and its annotations, each read as itself.
#[verifier::spinoff_prover]
#[verifier::rlimit(40)]
pub proof fn lemma_read_written_annotated_declare_annotation_property_head(a: Seq<char>, x0: Seq<char>, ann: Seq<SpecAnnotation>, b: Seq<char>, px: Px)
    requires
        annotation_set(ann) == ann,
        ann.len() > 0,
        iri_text(x0),
        annotations_rt(ann),
    ensures
        ({
            let w = w_annotated_axiom(SpecAnnotatedAxiom { ax: SpecAxiom::DeclareAnnotationProperty(x0), ann }, None);
            let s = a + w + b;
            let q = a.len() + "Declaration"@.len() + 1int;
            let e0 = q + w_annotations(ann, None).len();
            &&& open_at(s, letters_end(s, a.len() as int)) == Some(q)
            &&& word(s, a.len() as int) == "Declaration"@
            &&& r_iri(s, a.len() as int, px) is None
            &&& r_annotation_seq(s, q, px) == (Ok::<Seq<SpecAnnotation>, SpecError>(ann), ann.len(), e0)
            &&& ws(s, e0) == e0 + 1
        }),
{
    let ax = SpecAxiom::DeclareAnnotationProperty(x0);
    let w = w_annotated_axiom(SpecAnnotatedAxiom { ax, ann }, None);
    assert(w == crate::rendering::w_axiom(ax, Some(ann), None));
    let s = a + w + b;
    let k = "Declaration"@;
    assert(keyword(k)) by {
        lemma_axiom_branch_declaration(s, 0, px);
    }
    let w0 = ("AnnotationProperty"@ + seq!['('] + w_iri(x0, None) + seq![')']);
    let body = w0;
    let t = w_annotations(ann, None) + seq![' '];
    assert(w == k + seq!['('] + t + body + seq![')']) by {
        assert(w == w_lean_form(k, Some(ann), None, body));
    }
    lemma_cut_form(a, k, t, body, b);
    lemma_keyword_at(a, k, seq!['('] + t + body + seq![')'] + b, px);
    reveal_strlit("AnnotationProperty");
    assert(s =~= (a + k + seq!['('] + t) + w0 + (seq![')'] + b));
    lemma_annotation_property_word(s, a + k + seq!['('] + t, x0, b, px);
    lemma_read_written_annotations_before(s, a + k + seq!['('], ann, body + seq![')'] + b, px);
}

/// How the written form of a declaration of an `AnnotationProperty` with annotations goes on after its annotations:
/// its parts, each read as itself, then the closing parenthesis.
#[verifier::spinoff_prover]
#[verifier::rlimit(100)]
pub proof fn lemma_read_written_annotated_declare_annotation_property_parts(a: Seq<char>, x0: Seq<char>, ann: Seq<SpecAnnotation>, b: Seq<char>, px: Px)
    requires
        annotation_set(ann) == ann,
        ann.len() > 0,
        iri_text(x0),
    ensures
        ({
            let w = w_annotated_axiom(SpecAnnotatedAxiom { ax: SpecAxiom::DeclareAnnotationProperty(x0), ann }, None);
            let s = a + w + b;
            let q = a.len() + "Declaration"@.len() + 1int;
            let e0 = q + w_annotations(ann, None).len();
            let e1 = e0 + 1 + ("AnnotationProperty"@ + seq!['('] + w_iri(x0, None) + seq![')']).len();
            &&& r_entity(s, e0 + 1, px) == Some((Ok::<SpecAxiom, SpecError>(SpecAxiom::DeclareAnnotationProperty(x0)), e1))
            &&& close_at(s, e1) == Some(e1 + 1)
            &&& e1 + 1 == a.len() + w.len()
        }),
{
    let ax = SpecAxiom::DeclareAnnotationProperty(x0);
    let w = w_annotated_axiom(SpecAnnotatedAxiom { ax, ann }, None);
    assert(w == crate::rendering::w_axiom(ax, Some(ann), None));
    let s = a + w + b;
    let k = "Declaration"@;
    let w0 = ("AnnotationProperty"@ + seq!['('] + w_iri(x0, None) + seq![')']);
    let body = w0;
    let t = w_annotations(ann, None) + seq![' '];
    assert(w == k + seq!['('] + t + body + seq![')']) by {
        assert(w == w_lean_form(k, Some(ann), None, body));
    }
    lemma_cut_form(a, k, t, body, b);
    lemma_not_name_chars();
    let a1 = a + k + seq!['('] + t;
    reveal_strlit("AnnotationProperty");
    assert(s =~= (a + k + seq!['('] + t) + w0 + (seq![')'] + b));
    lemma_annotation_property_word(s, a + k + seq!['('] + t, x0, b, px);
    lemma_starts_after_space_word(s, a1, w0, seq![')'] + b);
    lemma_read_written_entity_annotation_property(a1, x0, seq![')'] + b, px);
    let e = a1.len() + w0.len() + 0int;
    assert(s[e] == ')');
    assert(ws(s, e) == e);
}

/// See [`lemma_read_written_axiom`]: declarations of an `AnnotationProperty` with annotations.
#[verifier::spinoff_prover]
#[verifier::rlimit(80)]
pub proof fn lemma_read_written_annotated_declare_annotation_property(a: Seq<char>, x0: Seq<char>, ann: Seq<SpecAnnotation>, b: Seq<char>, px: Px)
    requires
        annotations_sorted(ann),
        ann.len() > 0,
        iri_text(x0),
        annotations_rt(ann),
    ensures
        ({
            let x = SpecAnnotatedAxiom { ax: SpecAxiom::DeclareAnnotationProperty(x0), ann };
            let s = a + w_annotated_axiom(x, None) + b;
            &&& r_axiom(s, a.len() as int, px) == Some(
                (Ok::<SpecAnnotatedAxiom, SpecError>(x), a.len() + w_annotated_axiom(x, None).len() + 0int),
            )
            &&& word(s, a.len() as int) != "Import"@
            &&& word(s, a.len() as int) != "Annotation"@
            &&& r_iri(s, a.len() as int, px) is None
            &&& is_letter(w_annotated_axiom(x, None)[0])
        }),
{
    lemma_annotation_set_of_sorted(ann);
    let ax = SpecAxiom::DeclareAnnotationProperty(x0);
    let w = w_annotated_axiom(SpecAnnotatedAxiom { ax, ann }, None);
    assert(w == crate::rendering::w_axiom(ax, Some(ann), None));
    let s = a + w + b;
    let q = a.len() + "Declaration"@.len() + 1int;
    let e0 = q + w_annotations(ann, None).len();
    lemma_read_written_annotated_declare_annotation_property_head(a, x0, ann, b, px);
    lemma_read_written_annotated_declare_annotation_property_parts(a, x0, ann, b, px);
    lemma_axiom_branch_declaration(s, e0 + 1, px);
    lemma_r_axiom_at(s, a.len() as int, px, q, "Declaration"@, ax, ann, e0, a.len() + w.len() - 1int);
    lemma_keyword_letters("Declaration"@, 0);
    assert(w[0] == "Declaration"@[0]);
}

/// A declared entity `NamedIndividual(iri)` whose IRI reads back as itself, read
/// after any text `a`: the declaration.
#[verifier::spinoff_prover]
#[verifier::rlimit(40)]
pub proof fn lemma_read_written_entity_named_individual(a: Seq<char>, i: Seq<char>, b: Seq<char>, px: Px)
    requires
        iri_text(i),
    ensures
        ({
            let w = "NamedIndividual"@ + seq!['('] + w_iri(i, None) + seq![')'];
            r_entity(a + w + b, a.len() as int, px) == Some(
                (Ok::<SpecAxiom, SpecError>(SpecAxiom::DeclareNamedIndividual(i)), a.len() + w.len() + 0int),
            )
        }),
{
    let k = "NamedIndividual"@;
    let wi = w_iri(i, None);
    let w = k + seq!['('] + wi + seq![')'];
    let s = a + w + b;
    reveal_strlit("NamedIndividual");
    assert(keyword(k)) by {
        reveal_with_fuel(letters_end, 20);
    }
    assert(s =~= a + k + (seq!['('] + wi + seq![')'] + b));
    lemma_keyword_at(a, k, seq!['('] + wi + seq![')'] + b, px);
    lemma_entity_branch_named_individual(s, a.len() as int, px);
    let a2 = a + k + seq!['('];
    assert(s =~= a2 + wi + (seq![')'] + b));
    lemma_iri_start(i);
    assert(ws(s, a2.len() as int) == a2.len());
    lemma_read_written_iri(a2, i, seq![')'] + b, px);
    let e0 = a2.len() + wi.len() + 0int;
    assert(s[e0] == ')');
    assert(ws(s, e0) == e0);
}

/// How the written form of a declaration of a `NamedIndividual` with annotations begins: its keyword, its
/// opening parenthesis and its annotations, each read as itself.
#[verifier::spinoff_prover]
#[verifier::rlimit(40)]
pub proof fn lemma_read_written_annotated_declare_named_individual_head(a: Seq<char>, x0: Seq<char>, ann: Seq<SpecAnnotation>, b: Seq<char>, px: Px)
    requires
        annotation_set(ann) == ann,
        ann.len() > 0,
        iri_text(x0),
        annotations_rt(ann),
    ensures
        ({
            let w = w_annotated_axiom(SpecAnnotatedAxiom { ax: SpecAxiom::DeclareNamedIndividual(x0), ann }, None);
            let s = a + w + b;
            let q = a.len() + "Declaration"@.len() + 1int;
            let e0 = q + w_annotations(ann, None).len();
            &&& open_at(s, letters_end(s, a.len() as int)) == Some(q)
            &&& word(s, a.len() as int) == "Declaration"@
            &&& r_iri(s, a.len() as int, px) is None
            &&& r_annotation_seq(s, q, px) == (Ok::<Seq<SpecAnnotation>, SpecError>(ann), ann.len(), e0)
            &&& ws(s, e0) == e0 + 1
        }),
{
    let ax = SpecAxiom::DeclareNamedIndividual(x0);
    let w = w_annotated_axiom(SpecAnnotatedAxiom { ax, ann }, None);
    assert(w == crate::rendering::w_axiom(ax, Some(ann), None));
    let s = a + w + b;
    let k = "Declaration"@;
    assert(keyword(k)) by {
        lemma_axiom_branch_declaration(s, 0, px);
    }
    let w0 = ("NamedIndividual"@ + seq!['('] + w_iri(x0, None) + seq![')']);
    let body = w0;
    let t = w_annotations(ann, None) + seq![' '];
    assert(w == k + seq!['('] + t + body + seq![')']) by {
        assert(w == w_lean_form(k, Some(ann), None, body));
    }
    lemma_cut_form(a, k, t, body, b);
    lemma_keyword_at(a, k, seq!['('] + t + body + seq![')'] + b, px);
    reveal_strlit("NamedIndividual");
    lemma_read_written_annotations_before(s, a + k + seq!['('], ann, body + seq![')'] + b, px);
}

/// How the written form of a declaration of a `NamedIndividual` with annotations goes on after its annotations:
/// its parts, each read as itself, then the closing parenthesis.
#[verifier::spinoff_prover]
#[verifier::rlimit(100)]
pub proof fn lemma_read_written_annotated_declare_named_individual_parts(a: Seq<char>, x0: Seq<char>, ann: Seq<SpecAnnotation>, b: Seq<char>, px: Px)
    requires
        annotation_set(ann) == ann,
        ann.len() > 0,
        iri_text(x0),
    ensures
        ({
            let w = w_annotated_axiom(SpecAnnotatedAxiom { ax: SpecAxiom::DeclareNamedIndividual(x0), ann }, None);
            let s = a + w + b;
            let q = a.len() + "Declaration"@.len() + 1int;
            let e0 = q + w_annotations(ann, None).len();
            let e1 = e0 + 1 + ("NamedIndividual"@ + seq!['('] + w_iri(x0, None) + seq![')']).len();
            &&& r_entity(s, e0 + 1, px) == Some((Ok::<SpecAxiom, SpecError>(SpecAxiom::DeclareNamedIndividual(x0)), e1))
            &&& close_at(s, e1) == Some(e1 + 1)
            &&& e1 + 1 == a.len() + w.len()
        }),
{
    let ax = SpecAxiom::DeclareNamedIndividual(x0);
    let w = w_annotated_axiom(SpecAnnotatedAxiom { ax, ann }, None);
    assert(w == crate::rendering::w_axiom(ax, Some(ann), None));
    let s = a + w + b;
    let k = "Declaration"@;
    let w0 = ("NamedIndividual"@ + seq!['('] + w_iri(x0, None) + seq![')']);
    let body = w0;
    let t = w_annotations(ann, None) + seq![' '];
    assert(w == k + seq!['('] + t + body + seq![')']) by {
        assert(w == w_lean_form(k, Some(ann), None, body));
    }
    lemma_cut_form(a, k, t, body, b);
    lemma_not_name_chars();
    let a1 = a + k + seq!['('] + t;
    reveal_strlit("NamedIndividual");
    lemma_starts_after_space(s, a1, w0, seq![')'] + b);
    lemma_read_written_entity_named_individual(a1, x0, seq![')'] + b, px);
    let e = a1.len() + w0.len() + 0int;
    assert(s[e] == ')');
    assert(ws(s, e) == e);
}

/// See [`lemma_read_written_axiom`]: declarations of a `NamedIndividual` with annotations.
#[verifier::spinoff_prover]
#[verifier::rlimit(80)]
pub proof fn lemma_read_written_annotated_declare_named_individual(a: Seq<char>, x0: Seq<char>, ann: Seq<SpecAnnotation>, b: Seq<char>, px: Px)
    requires
        annotations_sorted(ann),
        ann.len() > 0,
        iri_text(x0),
        annotations_rt(ann),
    ensures
        ({
            let x = SpecAnnotatedAxiom { ax: SpecAxiom::DeclareNamedIndividual(x0), ann };
            let s = a + w_annotated_axiom(x, None) + b;
            &&& r_axiom(s, a.len() as int, px) == Some(
                (Ok::<SpecAnnotatedAxiom, SpecError>(x), a.len() + w_annotated_axiom(x, None).len() + 0int),
            )
            &&& word(s, a.len() as int) != "Import"@
            &&& word(s, a.len() as int) != "Annotation"@
            &&& r_iri(s, a.len() as int, px) is None
            &&& is_letter(w_annotated_axiom(x, None)[0])
        }),
{
    lemma_annotation_set_of_sorted(ann);
    let ax = SpecAxiom::DeclareNamedIndividual(x0);
    let w = w_annotated_axiom(SpecAnnotatedAxiom { ax, ann }, None);
    assert(w == crate::rendering::w_axiom(ax, Some(ann), None));
    let s = a + w + b;
    let q = a.len() + "Declaration"@.len() + 1int;
    let e0 = q + w_annotations(ann, None).len();
    lemma_read_written_annotated_declare_named_individual_head(a, x0, ann, b, px);
    lemma_read_written_annotated_declare_named_individual_parts(a, x0, ann, b, px);
    lemma_axiom_branch_declaration(s, e0 + 1, px);
    lemma_r_axiom_at(s, a.len() as int, px, q, "Declaration"@, ax, ann, e0, a.len() + w.len() - 1int);
    lemma_keyword_letters("Declaration"@, 0);
    assert(w[0] == "Declaration"@[0]);
}

/// How the written form of a `EquivalentClasses` axiom begins: its keyword, its
/// opening parenthesis and its annotations, each read as itself.
#[verifier::spinoff_prover]
#[verifier::rlimit(40)]
pub proof fn lemma_read_written_equivalent_classes_head(a: Seq<char>, v: Seq<SpecClassExpression>, ann: Seq<SpecAnnotation>, b: Seq<char>, px: Px)
    requires
        annotation_set(ann) == ann,
        v.len() >= 2,
        ce_rt_list(v),
        annotations_rt(ann),
    ensures
        ({
            let w = w_annotated_axiom(SpecAnnotatedAxiom { ax: SpecAxiom::EquivalentClasses(v), ann }, None);
            let s = a + w + b;
            let q = a.len() + "EquivalentClasses"@.len() + 1int;
            let e0 = q + w_annotations(ann, None).len();
            &&& open_at(s, letters_end(s, a.len() as int)) == Some(q)
            &&& word(s, a.len() as int) == "EquivalentClasses"@
            &&& r_iri(s, a.len() as int, px) is None
            &&& r_annotation_seq(s, q, px) == (Ok::<Seq<SpecAnnotation>, SpecError>(ann), ann.len(), e0)
            &&& ws(s, e0) == e0 + 1
        }),
{
    let ax = SpecAxiom::EquivalentClasses(v);
    let w = w_annotated_axiom(SpecAnnotatedAxiom { ax, ann }, None);
    assert(w == crate::rendering::w_axiom(ax, Some(ann), None));
    let s = a + w + b;
    let k = "EquivalentClasses"@;
    assert(keyword(k)) by {
        lemma_axiom_branch_equivalent_classes(s, 0, px);
    }
    let body = w_ce_list(v, None);
    let t = w_annotations(ann, None) + seq![' '];
    assert(w == k + seq!['('] + t + body + seq![')']);
    lemma_cut_form(a, k, t, body, b);
    lemma_keyword_at(a, k, seq!['('] + t + body + seq![')'] + b, px);
    lemma_ce_list_start(v);
    lemma_ce_start(v[0]);
    lemma_read_written_annotations_before(s, a + k + seq!['('], ann, body + seq![')'] + b, px);
}

/// How the written form of a `EquivalentClasses` axiom goes on after its annotations:
/// its class expressions, read as themselves, then the closing parenthesis.
#[verifier::spinoff_prover]
#[verifier::rlimit(100)]
pub proof fn lemma_read_written_equivalent_classes_parts(a: Seq<char>, v: Seq<SpecClassExpression>, ann: Seq<SpecAnnotation>, b: Seq<char>, px: Px)
    requires
        annotation_set(ann) == ann,
        v.len() >= 2,
        ce_rt_list(v),
    ensures
        ({
            let w = w_annotated_axiom(SpecAnnotatedAxiom { ax: SpecAxiom::EquivalentClasses(v), ann }, None);
            let s = a + w + b;
            let q = a.len() + "EquivalentClasses"@.len() + 1int;
            let e0 = q + w_annotations(ann, None).len();
            let e = a.len() + w.len() - 1int;
            &&& r_ce_seq(s, e0 + 1, px) == (Ok::<Seq<SpecClassExpression>, SpecError>(v), v.len(), e)
            &&& close_at(s, e) == Some(e + 1)
        }),
{
    let ax = SpecAxiom::EquivalentClasses(v);
    let w = w_annotated_axiom(SpecAnnotatedAxiom { ax, ann }, None);
    assert(w == crate::rendering::w_axiom(ax, Some(ann), None));
    let s = a + w + b;
    let k = "EquivalentClasses"@;
    let body = w_ce_list(v, None);
    let t = w_annotations(ann, None) + seq![' '];
    assert(w == k + seq!['('] + t + body + seq![')']);
    lemma_cut_form(a, k, t, body, b);
    let a1 = a + k + seq!['('] + t;
    lemma_ce_list_start(v);
    assert(s[a1.len() as int] == body[0]);
    assert(ws(s, a1.len() as int) == a1.len());
    lemma_read_written_ce_list(a1, v, seq![')'] + b, px, a1.len() as int);
    let e = a1.len() + body.len() + 0int;
    assert(s[e] == ')');
    assert(ws(s, e) == e);
}

/// See [`lemma_read_written_axiom`]: `EquivalentClasses` axioms.
#[verifier::spinoff_prover]
#[verifier::rlimit(40)]
pub proof fn lemma_read_written_equivalent_classes(a: Seq<char>, v: Seq<SpecClassExpression>, ann: Seq<SpecAnnotation>, b: Seq<char>, px: Px)
    requires
        annotations_sorted(ann),
        v.len() >= 2,
        ce_rt_list(v),
        annotations_rt(ann),
    ensures
        ({
            let x = SpecAnnotatedAxiom { ax: SpecAxiom::EquivalentClasses(v), ann };
            let s = a + w_annotated_axiom(x, None) + b;
            &&& r_axiom(s, a.len() as int, px) == Some(
                (Ok::<SpecAnnotatedAxiom, SpecError>(x), a.len() + w_annotated_axiom(x, None).len() + 0int),
            )
            &&& word(s, a.len() as int) != "Import"@
            &&& word(s, a.len() as int) != "Annotation"@
            &&& r_iri(s, a.len() as int, px) is None
            &&& is_letter(w_annotated_axiom(x, None)[0])
        }),
{
    lemma_annotation_set_of_sorted(ann);
    let ax = SpecAxiom::EquivalentClasses(v);
    let w = w_annotated_axiom(SpecAnnotatedAxiom { ax, ann }, None);
    assert(w == crate::rendering::w_axiom(ax, Some(ann), None));
    let s = a + w + b;
    let q = a.len() + "EquivalentClasses"@.len() + 1int;
    let e0 = q + w_annotations(ann, None).len();
    lemma_read_written_equivalent_classes_head(a, v, ann, b, px);
    lemma_read_written_equivalent_classes_parts(a, v, ann, b, px);
    lemma_axiom_branch_equivalent_classes(s, e0 + 1, px);
    lemma_r_axiom_at(s, a.len() as int, px, q, "EquivalentClasses"@, ax, ann, e0, a.len() + w.len() - 1int);
    lemma_keyword_letters("EquivalentClasses"@, 0);
    assert(w[0] == "EquivalentClasses"@[0]);
}

/// How the written form of a `DisjointClasses` axiom begins: its keyword, its
/// opening parenthesis and its annotations, each read as itself.
#[verifier::spinoff_prover]
#[verifier::rlimit(40)]
pub proof fn lemma_read_written_disjoint_classes_head(a: Seq<char>, v: Seq<SpecClassExpression>, ann: Seq<SpecAnnotation>, b: Seq<char>, px: Px)
    requires
        annotation_set(ann) == ann,
        v.len() >= 2,
        ce_rt_list(v),
        annotations_rt(ann),
    ensures
        ({
            let w = w_annotated_axiom(SpecAnnotatedAxiom { ax: SpecAxiom::DisjointClasses(v), ann }, None);
            let s = a + w + b;
            let q = a.len() + "DisjointClasses"@.len() + 1int;
            let e0 = q + w_annotations(ann, None).len();
            &&& open_at(s, letters_end(s, a.len() as int)) == Some(q)
            &&& word(s, a.len() as int) == "DisjointClasses"@
            &&& r_iri(s, a.len() as int, px) is None
            &&& r_annotation_seq(s, q, px) == (Ok::<Seq<SpecAnnotation>, SpecError>(ann), ann.len(), e0)
            &&& ws(s, e0) == e0 + 1
        }),
{
    let ax = SpecAxiom::DisjointClasses(v);
    let w = w_annotated_axiom(SpecAnnotatedAxiom { ax, ann }, None);
    assert(w == crate::rendering::w_axiom(ax, Some(ann), None));
    let s = a + w + b;
    let k = "DisjointClasses"@;
    assert(keyword(k)) by {
        lemma_axiom_branch_disjoint_classes(s, 0, px);
    }
    let body = w_ce_list(v, None);
    let t = w_annotations(ann, None) + seq![' '];
    assert(w == k + seq!['('] + t + body + seq![')']);
    lemma_cut_form(a, k, t, body, b);
    lemma_keyword_at(a, k, seq!['('] + t + body + seq![')'] + b, px);
    lemma_ce_list_start(v);
    lemma_ce_start(v[0]);
    lemma_read_written_annotations_before(s, a + k + seq!['('], ann, body + seq![')'] + b, px);
}

/// How the written form of a `DisjointClasses` axiom goes on after its annotations:
/// its class expressions, read as themselves, then the closing parenthesis.
#[verifier::spinoff_prover]
#[verifier::rlimit(100)]
pub proof fn lemma_read_written_disjoint_classes_parts(a: Seq<char>, v: Seq<SpecClassExpression>, ann: Seq<SpecAnnotation>, b: Seq<char>, px: Px)
    requires
        annotation_set(ann) == ann,
        v.len() >= 2,
        ce_rt_list(v),
    ensures
        ({
            let w = w_annotated_axiom(SpecAnnotatedAxiom { ax: SpecAxiom::DisjointClasses(v), ann }, None);
            let s = a + w + b;
            let q = a.len() + "DisjointClasses"@.len() + 1int;
            let e0 = q + w_annotations(ann, None).len();
            let e = a.len() + w.len() - 1int;
            &&& r_ce_seq(s, e0 + 1, px) == (Ok::<Seq<SpecClassExpression>, SpecError>(v), v.len(), e)
            &&& close_at(s, e) == Some(e + 1)
        }),
{
    let ax = SpecAxiom::DisjointClasses(v);
    let w = w_annotated_axiom(SpecAnnotatedAxiom { ax, ann }, None);
    assert(w == crate::rendering::w_axiom(ax, Some(ann), None));
    let s = a + w + b;
    let k = "DisjointClasses"@;
    let body = w_ce_list(v, None);
    let t = w_annotations(ann, None) + seq![' '];
    assert(w == k + seq!['('] + t + body + seq![')']);
    lemma_cut_form(a, k, t, body, b);
    let a1 = a + k + seq!['('] + t;
    lemma_ce_list_start(v);
    assert(s[a1.len() as int] == body[0]);
    assert(ws(s, a1.len() as int) == a1.len());
    lemma_read_written_ce_list(a1, v, seq![')'] + b, px, a1.len() as int);
    let e = a1.len() + body.len() + 0int;
    assert(s[e] == ')');
    assert(ws(s, e) == e);
}

/// See [`lemma_read_written_axiom`]: `DisjointClasses` axioms.
#[verifier::spinoff_prover]
#[verifier::rlimit(40)]
pub proof fn lemma_read_written_disjoint_classes(a: Seq<char>, v: Seq<SpecClassExpression>, ann: Seq<SpecAnnotation>, b: Seq<char>, px: Px)
    requires
        annotations_sorted(ann),
        v.len() >= 2,
        ce_rt_list(v),
        annotations_rt(ann),
    ensures
        ({
            let x = SpecAnnotatedAxiom { ax: SpecAxiom::DisjointClasses(v), ann };
            let s = a + w_annotated_axiom(x, None) + b;
            &&& r_axiom(s, a.len() as int, px) == Some(
                (Ok::<SpecAnnotatedAxiom, SpecError>(x), a.len() + w_annotated_axiom(x, None).len() + 0int),
            )
            &&& word(s, a.len() as int) != "Import"@
            &&& word(s, a.len() as int) != "Annotation"@
            &&& r_iri(s, a.len() as int, px) is None
            &&& is_letter(w_annotated_axiom(x, None)[0])
        }),
{
    lemma_annotation_set_of_sorted(ann);
    let ax = SpecAxiom::DisjointClasses(v);
    let w = w_annotated_axiom(SpecAnnotatedAxiom { ax, ann }, None);
    assert(w == crate::rendering::w_axiom(ax, Some(ann), None));
    let s = a + w + b;
    let q = a.len() + "DisjointClasses"@.len() + 1int;
    let e0 = q + w_annotations(ann, None).len();
    lemma_read_written_disjoint_classes_head(a, v, ann, b, px);
    lemma_read_written_disjoint_classes_parts(a, v, ann, b, px);
    lemma_axiom_branch_disjoint_classes(s, e0 + 1, px);
    lemma_r_axiom_at(s, a.len() as int, px, q, "DisjointClasses"@, ax, ann, e0, a.len() + w.len() - 1int);
    lemma_keyword_letters("DisjointClasses"@, 0);
    assert(w[0] == "DisjointClasses"@[0]);
}

/// How the written form of a `SameIndividual` axiom begins: its keyword, its
/// opening parenthesis and its annotations, each read as itself.
#[verifier::spinoff_prover]
#[verifier::rlimit(40)]
pub proof fn lemma_read_written_same_individual_head(a: Seq<char>, v: Seq<SpecIndividual>, ann: Seq<SpecAnnotation>, b: Seq<char>, px: Px)
    requires
        annotation_set(ann) == ann,
        v.len() >= 2,
        forall|k: int| 0 <= k < v.len() ==> individual_rt(#[trigger] v[k]),
        annotations_rt(ann),
    ensures
        ({
            let w = w_annotated_axiom(SpecAnnotatedAxiom { ax: SpecAxiom::SameIndividual(v), ann }, None);
            let s = a + w + b;
            let q = a.len() + "SameIndividual"@.len() + 1int;
            let e0 = q + w_annotations(ann, None).len();
            &&& open_at(s, letters_end(s, a.len() as int)) == Some(q)
            &&& word(s, a.len() as int) == "SameIndividual"@
            &&& r_iri(s, a.len() as int, px) is None
            &&& r_annotation_seq(s, q, px) == (Ok::<Seq<SpecAnnotation>, SpecError>(ann), ann.len(), e0)
            &&& ws(s, e0) == e0 + 1
        }),
{
    let ax = SpecAxiom::SameIndividual(v);
    let w = w_annotated_axiom(SpecAnnotatedAxiom { ax, ann }, None);
    assert(w == crate::rendering::w_axiom(ax, Some(ann), None));
    let s = a + w + b;
    let k = "SameIndividual"@;
    assert(keyword(k)) by {
        lemma_axiom_branch_same_individual(s, 0, px);
    }
    let body = w_individuals(v, None);
    let t = w_annotations(ann, None) + seq![' '];
    assert(w == k + seq!['('] + t + body + seq![')']);
    lemma_cut_form(a, k, t, body, b);
    lemma_keyword_at(a, k, seq!['('] + t + body + seq![')'] + b, px);
    lemma_individuals_start(v);
    lemma_read_written_annotations_before(s, a + k + seq!['('], ann, body + seq![')'] + b, px);
}

/// How the written form of a `SameIndividual` axiom goes on after its annotations:
/// its individuals, read as themselves, then the closing parenthesis.
#[verifier::spinoff_prover]
#[verifier::rlimit(100)]
pub proof fn lemma_read_written_same_individual_parts(a: Seq<char>, v: Seq<SpecIndividual>, ann: Seq<SpecAnnotation>, b: Seq<char>, px: Px)
    requires
        annotation_set(ann) == ann,
        v.len() >= 2,
        forall|k: int| 0 <= k < v.len() ==> individual_rt(#[trigger] v[k]),
    ensures
        ({
            let w = w_annotated_axiom(SpecAnnotatedAxiom { ax: SpecAxiom::SameIndividual(v), ann }, None);
            let s = a + w + b;
            let q = a.len() + "SameIndividual"@.len() + 1int;
            let e0 = q + w_annotations(ann, None).len();
            let e = a.len() + w.len() - 1int;
            &&& star(s, e0 + 1, |t: int| r_individual(s, t, px)) == (Ok::<Seq<SpecIndividual>, SpecError>(v), v.len(), e)
            &&& close_at(s, e) == Some(e + 1)
        }),
{
    let ax = SpecAxiom::SameIndividual(v);
    let w = w_annotated_axiom(SpecAnnotatedAxiom { ax, ann }, None);
    assert(w == crate::rendering::w_axiom(ax, Some(ann), None));
    let s = a + w + b;
    let k = "SameIndividual"@;
    let body = w_individuals(v, None);
    let t = w_annotations(ann, None) + seq![' '];
    assert(w == k + seq!['('] + t + body + seq![')']);
    lemma_cut_form(a, k, t, body, b);
    let a1 = a + k + seq!['('] + t;
    lemma_individuals_start(v);
    assert(s[a1.len() as int] == body[0]);
    assert(ws(s, a1.len() as int) == a1.len());
    assert(s.subrange(a1.len() as int, a1.len() + body.len() + 0int) =~= body);
    lemma_read_written_individuals(s, a1.len() as int, v, px, a1.len() as int);
    let e = a1.len() + body.len() + 0int;
    assert(s[e] == ')');
    assert(ws(s, e) == e);
}

/// See [`lemma_read_written_axiom`]: `SameIndividual` axioms.
#[verifier::spinoff_prover]
#[verifier::rlimit(40)]
pub proof fn lemma_read_written_same_individual(a: Seq<char>, v: Seq<SpecIndividual>, ann: Seq<SpecAnnotation>, b: Seq<char>, px: Px)
    requires
        annotations_sorted(ann),
        v.len() >= 2,
        forall|k: int| 0 <= k < v.len() ==> individual_rt(#[trigger] v[k]),
        annotations_rt(ann),
    ensures
        ({
            let x = SpecAnnotatedAxiom { ax: SpecAxiom::SameIndividual(v), ann };
            let s = a + w_annotated_axiom(x, None) + b;
            &&& r_axiom(s, a.len() as int, px) == Some(
                (Ok::<SpecAnnotatedAxiom, SpecError>(x), a.len() + w_annotated_axiom(x, None).len() + 0int),
            )
            &&& word(s, a.len() as int) != "Import"@
            &&& word(s, a.len() as int) != "Annotation"@
            &&& r_iri(s, a.len() as int, px) is None
            &&& is_letter(w_annotated_axiom(x, None)[0])
        }),
{
    lemma_annotation_set_of_sorted(ann);
    let ax = SpecAxiom::SameIndividual(v);
    let w = w_annotated_axiom(SpecAnnotatedAxiom { ax, ann }, None);
    assert(w == crate::rendering::w_axiom(ax, Some(ann), None));
    let s = a + w + b;
    let q = a.len() + "SameIndividual"@.len() + 1int;
    let e0 = q + w_annotations(ann, None).len();
    lemma_read_written_same_individual_head(a, v, ann, b, px);
    lemma_read_written_same_individual_parts(a, v, ann, b, px);
    lemma_axiom_branch_same_individual(s, e0 + 1, px);
    lemma_r_axiom_at(s, a.len() as int, px, q, "SameIndividual"@, ax, ann, e0, a.len() + w.len() - 1int);
    lemma_keyword_letters("SameIndividual"@, 0);
    assert(w[0] == "SameIndividual"@[0]);
}

/// How the written form of a `DifferentIndividuals` axiom begins: its keyword, its
/// opening parenthesis and its annotations, each read as itself.
#[verifier::spinoff_prover]
#[verifier::rlimit(40)]
pub proof fn lemma_read_written_different_individuals_head(a: Seq<char>, v: Seq<SpecIndividual>, ann: Seq<SpecAnnotation>, b: Seq<char>, px: Px)
    requires
        annotation_set(ann) == ann,
        v.len() >= 2,
        forall|k: int| 0 <= k < v.len() ==> individual_rt(#[trigger] v[k]),
        annotations_rt(ann),
    ensures
        ({
            let w = w_annotated_axiom(SpecAnnotatedAxiom { ax: SpecAxiom::DifferentIndividuals(v), ann }, None);
            let s = a + w + b;
            let q = a.len() + "DifferentIndividuals"@.len() + 1int;
            let e0 = q + w_annotations(ann, None).len();
            &&& open_at(s, letters_end(s, a.len() as int)) == Some(q)
            &&& word(s, a.len() as int) == "DifferentIndividuals"@
            &&& r_iri(s, a.len() as int, px) is None
            &&& r_annotation_seq(s, q, px) == (Ok::<Seq<SpecAnnotation>, SpecError>(ann), ann.len(), e0)
            &&& ws(s, e0) == e0 + 1
        }),
{
    let ax = SpecAxiom::DifferentIndividuals(v);
    let w = w_annotated_axiom(SpecAnnotatedAxiom { ax, ann }, None);
    assert(w == crate::rendering::w_axiom(ax, Some(ann), None));
    let s = a + w + b;
    let k = "DifferentIndividuals"@;
    assert(keyword(k)) by {
        lemma_axiom_branch_different_individuals(s, 0, px);
    }
    let body = w_individuals(v, None);
    let t = w_annotations(ann, None) + seq![' '];
    assert(w == k + seq!['('] + t + body + seq![')']);
    lemma_cut_form(a, k, t, body, b);
    lemma_keyword_at(a, k, seq!['('] + t + body + seq![')'] + b, px);
    lemma_individuals_start(v);
    lemma_read_written_annotations_before(s, a + k + seq!['('], ann, body + seq![')'] + b, px);
}

/// How the written form of a `DifferentIndividuals` axiom goes on after its annotations:
/// its individuals, read as themselves, then the closing parenthesis.
#[verifier::spinoff_prover]
#[verifier::rlimit(100)]
pub proof fn lemma_read_written_different_individuals_parts(a: Seq<char>, v: Seq<SpecIndividual>, ann: Seq<SpecAnnotation>, b: Seq<char>, px: Px)
    requires
        annotation_set(ann) == ann,
        v.len() >= 2,
        forall|k: int| 0 <= k < v.len() ==> individual_rt(#[trigger] v[k]),
    ensures
        ({
            let w = w_annotated_axiom(SpecAnnotatedAxiom { ax: SpecAxiom::DifferentIndividuals(v), ann }, None);
            let s = a + w + b;
            let q = a.len() + "DifferentIndividuals"@.len() + 1int;
            let e0 = q + w_annotations(ann, None).len();
            let e = a.len() + w.len() - 1int;
            &&& star(s, e0 + 1, |t: int| r_individual(s, t, px)) == (Ok::<Seq<SpecIndividual>, SpecError>(v), v.len(), e)
            &&& close_at(s, e) == Some(e + 1)
        }),
{
    let ax = SpecAxiom::DifferentIndividuals(v);
    let w = w_annotated_axiom(SpecAnnotatedAxiom { ax, ann }, None);
    assert(w == crate::rendering::w_axiom(ax, Some(ann), None));
    let s = a + w + b;
    let k = "DifferentIndividuals"@;
    let body = w_individuals(v, None);
    let t = w_annotations(ann, None) + seq![' '];
    assert(w == k + seq!['('] + t + body + seq![')']);
    lemma_cut_form(a, k, t, body, b);
    let a1 = a + k + seq!['('] + t;
    lemma_individuals_start(v);
    assert(s[a1.len() as int] == body[0]);
    assert(ws(s, a1.len() as int) == a1.len());
    assert(s.subrange(a1.len() as int, a1.len() + body.len() + 0int) =~= body);
    lemma_read_written_individuals(s, a1.len() as int, v, px, a1.len() as int);
    let e = a1.len() + body.len() + 0int;
    assert(s[e] == ')');
    assert(ws(s, e) == e);
}

/// See [`lemma_read_written_axiom`]: `DifferentIndividuals` axioms.
#[verifier::spinoff_prover]
#[verifier::rlimit(40)]
pub proof fn lemma_read_written_different_individuals(a: Seq<char>, v: Seq<SpecIndividual>, ann: Seq<SpecAnnotation>, b: Seq<char>, px: Px)
    requires
        annotations_sorted(ann),
        v.len() >= 2,
        forall|k: int| 0 <= k < v.len() ==> individual_rt(#[trigger] v[k]),
        annotations_rt(ann),
    ensures
        ({
            let x = SpecAnnotatedAxiom { ax: SpecAxiom::DifferentIndividuals(v), ann };
            let s = a + w_annotated_axiom(x, None) + b;
            &&& r_axiom(s, a.len() as int, px) == Some(
                (Ok::<SpecAnnotatedAxiom, SpecError>(x), a.len() + w_annotated_axiom(x, None).len() + 0int),
            )
            &&& word(s, a.len() as int) != "Import"@
            &&& word(s, a.len() as int) != "Annotation"@
            &&& r_iri(s, a.len() as int, px) is None
            &&& is_letter(w_annotated_axiom(x, None)[0])
        }),
{
    lemma_annotation_set_of_sorted(ann);
    let ax = SpecAxiom::DifferentIndividuals(v);
    let w = w_annotated_axiom(SpecAnnotatedAxiom { ax, ann }, None);
    assert(w == crate::rendering::w_axiom(ax, Some(ann), None));
    let s = a + w + b;
    let q = a.len() + "DifferentIndividuals"@.len() + 1int;
    let e0 = q + w_annotations(ann, None).len();
    lemma_read_written_different_individuals_head(a, v, ann, b, px);
    lemma_read_written_different_individuals_parts(a, v, ann, b, px);
    lemma_axiom_branch_different_individuals(s, e0 + 1, px);
    lemma_r_axiom_at(s, a.len() as int, px, q, "DifferentIndividuals"@, ax, ann, e0, a.len() + w.len() - 1int);
    lemma_keyword_letters("DifferentIndividuals"@, 0);
    assert(w[0] == "DifferentIndividuals"@[0]);
}

/// How the written form of a `EquivalentObjectProperties` axiom begins: its keyword, its
/// opening parenthesis and its annotations, each read as itself.
#[verifier::spinoff_prover]
#[verifier::rlimit(40)]
pub proof fn lemma_read_written_equivalent_object_properties_head(a: Seq<char>, v: Seq<SpecObjectPropertyExpression>, ann: Seq<SpecAnnotation>, b: Seq<char>, px: Px)
    requires
        annotation_set(ann) == ann,
        v.len() >= 2,
        forall|k: int| 0 <= k < v.len() ==> ope_rt(#[trigger] v[k]),
        annotations_rt(ann),
    ensures
        ({
            let w = w_annotated_axiom(SpecAnnotatedAxiom { ax: SpecAxiom::EquivalentObjectProperties(v), ann }, None);
            let s = a + w + b;
            let q = a.len() + "EquivalentObjectProperties"@.len() + 1int;
            let e0 = q + w_annotations(ann, None).len();
            &&& open_at(s, letters_end(s, a.len() as int)) == Some(q)
            &&& word(s, a.len() as int) == "EquivalentObjectProperties"@
            &&& r_iri(s, a.len() as int, px) is None
            &&& r_annotation_seq(s, q, px) == (Ok::<Seq<SpecAnnotation>, SpecError>(ann), ann.len(), e0)
            &&& ws(s, e0) == e0 + 1
        }),
{
    let ax = SpecAxiom::EquivalentObjectProperties(v);
    let w = w_annotated_axiom(SpecAnnotatedAxiom { ax, ann }, None);
    assert(w == crate::rendering::w_axiom(ax, Some(ann), None));
    let s = a + w + b;
    let k = "EquivalentObjectProperties"@;
    assert(keyword(k)) by {
        lemma_axiom_branch_equivalent_object_properties(s, 0, px);
    }
    let body = w_opes(v, None);
    let t = w_annotations(ann, None) + seq![' '];
    assert(w == k + seq!['('] + t + body + seq![')']);
    lemma_cut_form(a, k, t, body, b);
    lemma_keyword_at(a, k, seq!['('] + t + body + seq![')'] + b, px);
    lemma_opes_start(v);
    lemma_read_written_annotations_before(s, a + k + seq!['('], ann, body + seq![')'] + b, px);
}

/// How the written form of a `EquivalentObjectProperties` axiom goes on after its annotations:
/// its object property expressions, read as themselves, then the closing parenthesis.
#[verifier::spinoff_prover]
#[verifier::rlimit(100)]
pub proof fn lemma_read_written_equivalent_object_properties_parts(a: Seq<char>, v: Seq<SpecObjectPropertyExpression>, ann: Seq<SpecAnnotation>, b: Seq<char>, px: Px)
    requires
        annotation_set(ann) == ann,
        v.len() >= 2,
        forall|k: int| 0 <= k < v.len() ==> ope_rt(#[trigger] v[k]),
    ensures
        ({
            let w = w_annotated_axiom(SpecAnnotatedAxiom { ax: SpecAxiom::EquivalentObjectProperties(v), ann }, None);
            let s = a + w + b;
            let q = a.len() + "EquivalentObjectProperties"@.len() + 1int;
            let e0 = q + w_annotations(ann, None).len();
            let e = a.len() + w.len() - 1int;
            &&& star(s, e0 + 1, |t: int| r_ope(s, t, px)) == (Ok::<Seq<SpecObjectPropertyExpression>, SpecError>(v), v.len(), e)
            &&& close_at(s, e) == Some(e + 1)
        }),
{
    let ax = SpecAxiom::EquivalentObjectProperties(v);
    let w = w_annotated_axiom(SpecAnnotatedAxiom { ax, ann }, None);
    assert(w == crate::rendering::w_axiom(ax, Some(ann), None));
    let s = a + w + b;
    let k = "EquivalentObjectProperties"@;
    let body = w_opes(v, None);
    let t = w_annotations(ann, None) + seq![' '];
    assert(w == k + seq!['('] + t + body + seq![')']);
    lemma_cut_form(a, k, t, body, b);
    let a1 = a + k + seq!['('] + t;
    lemma_opes_start(v);
    assert(s[a1.len() as int] == body[0]);
    assert(ws(s, a1.len() as int) == a1.len());
    assert(s.subrange(a1.len() as int, a1.len() + body.len() + 0int) =~= body);
    lemma_read_written_opes(s, a1.len() as int, v, px, a1.len() as int);
    let e = a1.len() + body.len() + 0int;
    assert(s[e] == ')');
    assert(ws(s, e) == e);
}

/// See [`lemma_read_written_axiom`]: `EquivalentObjectProperties` axioms.
#[verifier::spinoff_prover]
#[verifier::rlimit(40)]
pub proof fn lemma_read_written_equivalent_object_properties(a: Seq<char>, v: Seq<SpecObjectPropertyExpression>, ann: Seq<SpecAnnotation>, b: Seq<char>, px: Px)
    requires
        annotations_sorted(ann),
        v.len() >= 2,
        forall|k: int| 0 <= k < v.len() ==> ope_rt(#[trigger] v[k]),
        annotations_rt(ann),
    ensures
        ({
            let x = SpecAnnotatedAxiom { ax: SpecAxiom::EquivalentObjectProperties(v), ann };
            let s = a + w_annotated_axiom(x, None) + b;
            &&& r_axiom(s, a.len() as int, px) == Some(
                (Ok::<SpecAnnotatedAxiom, SpecError>(x), a.len() + w_annotated_axiom(x, None).len() + 0int),
            )
            &&& word(s, a.len() as int) != "Import"@
            &&& word(s, a.len() as int) != "Annotation"@
            &&& r_iri(s, a.len() as int, px) is None
            &&& is_letter(w_annotated_axiom(x, None)[0])
        }),
{
    lemma_annotation_set_of_sorted(ann);
    let ax = SpecAxiom::EquivalentObjectProperties(v);
    let w = w_annotated_axiom(SpecAnnotatedAxiom { ax, ann }, None);
    assert(w == crate::rendering::w_axiom(ax, Some(ann), None));
    let s = a + w + b;
    let q = a.len() + "EquivalentObjectProperties"@.len() + 1int;
    let e0 = q + w_annotations(ann, None).len();
    lemma_read_written_equivalent_object_properties_head(a, v, ann, b, px);
    lemma_read_written_equivalent_object_properties_parts(a, v, ann, b, px);
    lemma_axiom_branch_equivalent_object_properties(s, e0 + 1, px);
    lemma_r_axiom_at(s, a.len() as int, px, q, "EquivalentObjectProperties"@, ax, ann, e0, a.len() + w.len() - 1int);
    lemma_keyword_letters("EquivalentObjectProperties"@, 0);
    assert(w[0] == "EquivalentObjectProperties"@[0]);
}

/// How the written form of a `DisjointObjectProperties` axiom begins: its keyword, its
/// opening parenthesis and its annotations, each read as itself.
#[verifier::spinoff_prover]
#[verifier::rlimit(40)]
pub proof fn lemma_read_written_disjoint_object_properties_head(a: Seq<char>, v: Seq<SpecObjectPropertyExpression>, ann: Seq<SpecAnnotation>, b: Seq<char>, px: Px)
    requires
        annotation_set(ann) == ann,
        v.len() >= 2,
        forall|k: int| 0 <= k < v.len() ==> ope_rt(#[trigger] v[k]),
        annotations_rt(ann),
    ensures
        ({
            let w = w_annotated_axiom(SpecAnnotatedAxiom { ax: SpecAxiom::DisjointObjectProperties(v), ann }, None);
            let s = a + w + b;
            let q = a.len() + "DisjointObjectProperties"@.len() + 1int;
            let e0 = q + w_annotations(ann, None).len();
            &&& open_at(s, letters_end(s, a.len() as int)) == Some(q)
            &&& word(s, a.len() as int) == "DisjointObjectProperties"@
            &&& r_iri(s, a.len() as int, px) is None
            &&& r_annotation_seq(s, q, px) == (Ok::<Seq<SpecAnnotation>, SpecError>(ann), ann.len(), e0)
            &&& ws(s, e0) == e0 + 1
        }),
{
    let ax = SpecAxiom::DisjointObjectProperties(v);
    let w = w_annotated_axiom(SpecAnnotatedAxiom { ax, ann }, None);
    assert(w == crate::rendering::w_axiom(ax, Some(ann), None));
    let s = a + w + b;
    let k = "DisjointObjectProperties"@;
    assert(keyword(k)) by {
        lemma_axiom_branch_disjoint_object_properties(s, 0, px);
    }
    let body = w_opes(v, None);
    let t = w_annotations(ann, None) + seq![' '];
    assert(w == k + seq!['('] + t + body + seq![')']);
    lemma_cut_form(a, k, t, body, b);
    lemma_keyword_at(a, k, seq!['('] + t + body + seq![')'] + b, px);
    lemma_opes_start(v);
    lemma_read_written_annotations_before(s, a + k + seq!['('], ann, body + seq![')'] + b, px);
}

/// How the written form of a `DisjointObjectProperties` axiom goes on after its annotations:
/// its object property expressions, read as themselves, then the closing parenthesis.
#[verifier::spinoff_prover]
#[verifier::rlimit(100)]
pub proof fn lemma_read_written_disjoint_object_properties_parts(a: Seq<char>, v: Seq<SpecObjectPropertyExpression>, ann: Seq<SpecAnnotation>, b: Seq<char>, px: Px)
    requires
        annotation_set(ann) == ann,
        v.len() >= 2,
        forall|k: int| 0 <= k < v.len() ==> ope_rt(#[trigger] v[k]),
    ensures
        ({
            let w = w_annotated_axiom(SpecAnnotatedAxiom { ax: SpecAxiom::DisjointObjectProperties(v), ann }, None);
            let s = a + w + b;
            let q = a.len() + "DisjointObjectProperties"@.len() + 1int;
            let e0 = q + w_annotations(ann, None).len();
            let e = a.len() + w.len() - 1int;
            &&& star(s, e0 + 1, |t: int| r_ope(s, t, px)) == (Ok::<Seq<SpecObjectPropertyExpression>, SpecError>(v), v.len(), e)
            &&& close_at(s, e) == Some(e + 1)
        }),
{
    let ax = SpecAxiom::DisjointObjectProperties(v);
    let w = w_annotated_axiom(SpecAnnotatedAxiom { ax, ann }, None);
    assert(w == crate::rendering::w_axiom(ax, Some(ann), None));
    let s = a + w + b;
    let k = "DisjointObjectProperties"@;
    let body = w_opes(v, None);
    let t = w_annotations(ann, None) + seq![' '];
    assert(w == k + seq!['('] + t + body + seq![')']);
    lemma_cut_form(a, k, t, body, b);
    let a1 = a + k + seq!['('] + t;
    lemma_opes_start(v);
    assert(s[a1.len() as int] == body[0]);
    assert(ws(s, a1.len() as int) == a1.len());
    assert(s.subrange(a1.len() as int, a1.len() + body.len() + 0int) =~= body);
    lemma_read_written_opes(s, a1.len() as int, v, px, a1.len() as int);
    let e = a1.len() + body.len() + 0int;
    assert(s[e] == ')');
    assert(ws(s, e) == e);
}

/// See [`lemma_read_written_axiom`]: `DisjointObjectProperties` axioms.
#[verifier::spinoff_prover]
#[verifier::rlimit(40)]
pub proof fn lemma_read_written_disjoint_object_properties(a: Seq<char>, v: Seq<SpecObjectPropertyExpression>, ann: Seq<SpecAnnotation>, b: Seq<char>, px: Px)
    requires
        annotations_sorted(ann),
        v.len() >= 2,
        forall|k: int| 0 <= k < v.len() ==> ope_rt(#[trigger] v[k]),
        annotations_rt(ann),
    ensures
        ({
            let x = SpecAnnotatedAxiom { ax: SpecAxiom::DisjointObjectProperties(v), ann };
            let s = a + w_annotated_axiom(x, None) + b;
            &&& r_axiom(s, a.len() as int, px) == Some(
                (Ok::<SpecAnnotatedAxiom, SpecError>(x), a.len() + w_annotated_axiom(x, None).len() + 0int),
            )
            &&& word(s, a.len() as int) != "Import"@
            &&& word(s, a.len() as int) != "Annotation"@
            &&& r_iri(s, a.len() as int, px) is None
            &&& is_letter(w_annotated_axiom(x, None)[0])
        }),
{
    lemma_annotation_set_of_sorted(ann);
    let ax = SpecAxiom::DisjointObjectProperties(v);
    let w = w_annotated_axiom(SpecAnnotatedAxiom { ax, ann }, None);
    assert(w == crate::rendering::w_axiom(ax, Some(ann), None));
    let s = a + w + b;
    let q = a.len() + "DisjointObjectProperties"@.len() + 1int;
    let e0 = q + w_annotations(ann, None).len();
    lemma_read_written_disjoint_object_properties_head(a, v, ann, b, px);
    lemma_read_written_disjoint_object_properties_parts(a, v, ann, b, px);
    lemma_axiom_branch_disjoint_object_properties(s, e0 + 1, px);
    lemma_r_axiom_at(s, a.len() as int, px, q, "DisjointObjectProperties"@, ax, ann, e0, a.len() + w.len() - 1int);
    lemma_keyword_letters("DisjointObjectProperties"@, 0);
    assert(w[0] == "DisjointObjectProperties"@[0]);
}

/// How the written form of a `EquivalentDataProperties` axiom begins: its keyword, its
/// opening parenthesis and its annotations, each read as itself.
#[verifier::spinoff_prover]
#[verifier::rlimit(40)]
pub proof fn lemma_read_written_equivalent_data_properties_head(a: Seq<char>, v: Seq<Seq<char>>, ann: Seq<SpecAnnotation>, b: Seq<char>, px: Px)
    requires
        annotation_set(ann) == ann,
        v.len() >= 2,
        forall|k: int| 0 <= k < v.len() ==> iri_text(#[trigger] v[k]),
        annotations_rt(ann),
    ensures
        ({
            let w = w_annotated_axiom(SpecAnnotatedAxiom { ax: SpecAxiom::EquivalentDataProperties(v), ann }, None);
            let s = a + w + b;
            let q = a.len() + "EquivalentDataProperties"@.len() + 1int;
            let e0 = q + w_annotations(ann, None).len();
            &&& open_at(s, letters_end(s, a.len() as int)) == Some(q)
            &&& word(s, a.len() as int) == "EquivalentDataProperties"@
            &&& r_iri(s, a.len() as int, px) is None
            &&& r_annotation_seq(s, q, px) == (Ok::<Seq<SpecAnnotation>, SpecError>(ann), ann.len(), e0)
            &&& ws(s, e0) == e0 + 1
        }),
{
    let ax = SpecAxiom::EquivalentDataProperties(v);
    let w = w_annotated_axiom(SpecAnnotatedAxiom { ax, ann }, None);
    assert(w == crate::rendering::w_axiom(ax, Some(ann), None));
    let s = a + w + b;
    let k = "EquivalentDataProperties"@;
    assert(keyword(k)) by {
        lemma_axiom_branch_equivalent_data_properties(s, 0, px);
    }
    let body = w_iris(v, None);
    let t = w_annotations(ann, None) + seq![' '];
    assert(w == k + seq!['('] + t + body + seq![')']);
    lemma_cut_form(a, k, t, body, b);
    lemma_keyword_at(a, k, seq!['('] + t + body + seq![')'] + b, px);
    lemma_iris_start(v);
    lemma_read_written_annotations_before(s, a + k + seq!['('], ann, body + seq![')'] + b, px);
}

/// How the written form of a `EquivalentDataProperties` axiom goes on after its annotations:
/// its data properties, read as themselves, then the closing parenthesis.
#[verifier::spinoff_prover]
#[verifier::rlimit(100)]
pub proof fn lemma_read_written_equivalent_data_properties_parts(a: Seq<char>, v: Seq<Seq<char>>, ann: Seq<SpecAnnotation>, b: Seq<char>, px: Px)
    requires
        annotation_set(ann) == ann,
        v.len() >= 2,
        forall|k: int| 0 <= k < v.len() ==> iri_text(#[trigger] v[k]),
    ensures
        ({
            let w = w_annotated_axiom(SpecAnnotatedAxiom { ax: SpecAxiom::EquivalentDataProperties(v), ann }, None);
            let s = a + w + b;
            let q = a.len() + "EquivalentDataProperties"@.len() + 1int;
            let e0 = q + w_annotations(ann, None).len();
            let e = a.len() + w.len() - 1int;
            &&& star(s, e0 + 1, |t: int| r_iri(s, t, px)) == (Ok::<Seq<Seq<char>>, SpecError>(v), v.len(), e)
            &&& close_at(s, e) == Some(e + 1)
        }),
{
    let ax = SpecAxiom::EquivalentDataProperties(v);
    let w = w_annotated_axiom(SpecAnnotatedAxiom { ax, ann }, None);
    assert(w == crate::rendering::w_axiom(ax, Some(ann), None));
    let s = a + w + b;
    let k = "EquivalentDataProperties"@;
    let body = w_iris(v, None);
    let t = w_annotations(ann, None) + seq![' '];
    assert(w == k + seq!['('] + t + body + seq![')']);
    lemma_cut_form(a, k, t, body, b);
    let a1 = a + k + seq!['('] + t;
    lemma_iris_start(v);
    assert(s[a1.len() as int] == body[0]);
    assert(ws(s, a1.len() as int) == a1.len());
    assert(s.subrange(a1.len() as int, a1.len() + body.len() + 0int) =~= body);
    lemma_read_written_iris(s, a1.len() as int, v, px, a1.len() as int);
    let e = a1.len() + body.len() + 0int;
    assert(s[e] == ')');
    assert(ws(s, e) == e);
}

/// See [`lemma_read_written_axiom`]: `EquivalentDataProperties` axioms.
#[verifier::spinoff_prover]
#[verifier::rlimit(40)]
pub proof fn lemma_read_written_equivalent_data_properties(a: Seq<char>, v: Seq<Seq<char>>, ann: Seq<SpecAnnotation>, b: Seq<char>, px: Px)
    requires
        annotations_sorted(ann),
        v.len() >= 2,
        forall|k: int| 0 <= k < v.len() ==> iri_text(#[trigger] v[k]),
        annotations_rt(ann),
    ensures
        ({
            let x = SpecAnnotatedAxiom { ax: SpecAxiom::EquivalentDataProperties(v), ann };
            let s = a + w_annotated_axiom(x, None) + b;
            &&& r_axiom(s, a.len() as int, px) == Some(
                (Ok::<SpecAnnotatedAxiom, SpecError>(x), a.len() + w_annotated_axiom(x, None).len() + 0int),
            )
            &&& word(s, a.len() as int) != "Import"@
            &&& word(s, a.len() as int) != "Annotation"@
            &&& r_iri(s, a.len() as int, px) is None
            &&& is_letter(w_annotated_axiom(x, None)[0])
        }),
{
    lemma_annotation_set_of_sorted(ann);
    let ax = SpecAxiom::EquivalentDataProperties(v);
    let w = w_annotated_axiom(SpecAnnotatedAxiom { ax, ann }, None);
    assert(w == crate::rendering::w_axiom(ax, Some(ann), None));
    let s = a + w + b;
    let q = a.len() + "EquivalentDataProperties"@.len() + 1int;
    let e0 = q + w_annotations(ann, None).len();
    lemma_read_written_equivalent_data_properties_head(a, v, ann, b, px);
    lemma_read_written_equivalent_data_properties_parts(a, v, ann, b, px);
    lemma_axiom_branch_equivalent_data_properties(s, e0 + 1, px);
    lemma_r_axiom_at(s, a.len() as int, px, q, "EquivalentDataProperties"@, ax, ann, e0, a.len() + w.len() - 1int);
    lemma_keyword_letters("EquivalentDataProperties"@, 0);
    assert(w[0] == "EquivalentDataProperties"@[0]);
}

/// How the written form of a `DisjointDataProperties` axiom begins: its keyword, its
/// opening parenthesis and its annotations, each read as itself.
#[verifier::spinoff_prover]
#[verifier::rlimit(40)]
pub proof fn lemma_read_written_disjoint_data_properties_head(a: Seq<char>, v: Seq<Seq<char>>, ann: Seq<SpecAnnotation>, b: Seq<char>, px: Px)
    requires
        annotation_set(ann) == ann,
        v.len() >= 2,
        forall|k: int| 0 <= k < v.len() ==> iri_text(#[trigger] v[k]),
        annotations_rt(ann),
    ensures
        ({
            let w = w_annotated_axiom(SpecAnnotatedAxiom { ax: SpecAxiom::DisjointDataProperties(v), ann }, None);
            let s = a + w + b;
            let q = a.len() + "DisjointDataProperties"@.len() + 1int;
            let e0 = q + w_annotations(ann, None).len();
            &&& open_at(s, letters_end(s, a.len() as int)) == Some(q)
            &&& word(s, a.len() as int) == "DisjointDataProperties"@
            &&& r_iri(s, a.len() as int, px) is None
            &&& r_annotation_seq(s, q, px) == (Ok::<Seq<SpecAnnotation>, SpecError>(ann), ann.len(), e0)
            &&& ws(s, e0) == e0 + 1
        }),
{
    let ax = SpecAxiom::DisjointDataProperties(v);
    let w = w_annotated_axiom(SpecAnnotatedAxiom { ax, ann }, None);
    assert(w == crate::rendering::w_axiom(ax, Some(ann), None));
    let s = a + w + b;
    let k = "DisjointDataProperties"@;
    assert(keyword(k)) by {
        lemma_axiom_branch_disjoint_data_properties(s, 0, px);
    }
    let body = w_iris(v, None);
    let t = w_annotations(ann, None) + seq![' '];
    assert(w == k + seq!['('] + t + body + seq![')']);
    lemma_cut_form(a, k, t, body, b);
    lemma_keyword_at(a, k, seq!['('] + t + body + seq![')'] + b, px);
    lemma_iris_start(v);
    lemma_read_written_annotations_before(s, a + k + seq!['('], ann, body + seq![')'] + b, px);
}

/// How the written form of a `DisjointDataProperties` axiom goes on after its annotations:
/// its data properties, read as themselves, then the closing parenthesis.
#[verifier::spinoff_prover]
#[verifier::rlimit(100)]
pub proof fn lemma_read_written_disjoint_data_properties_parts(a: Seq<char>, v: Seq<Seq<char>>, ann: Seq<SpecAnnotation>, b: Seq<char>, px: Px)
    requires
        annotation_set(ann) == ann,
        v.len() >= 2,
        forall|k: int| 0 <= k < v.len() ==> iri_text(#[trigger] v[k]),
    ensures
        ({
            let w = w_annotated_axiom(SpecAnnotatedAxiom { ax: SpecAxiom::DisjointDataProperties(v), ann }, None);
            let s = a + w + b;
            let q = a.len() + "DisjointDataProperties"@.len() + 1int;
            let e0 = q + w_annotations(ann, None).len();
            let e = a.len() + w.len() - 1int;
            &&& star(s, e0 + 1, |t: int| r_iri(s, t, px)) == (Ok::<Seq<Seq<char>>, SpecError>(v), v.len(), e)
            &&& close_at(s, e) == Some(e + 1)
        }),
{
    let ax = SpecAxiom::DisjointDataProperties(v);
    let w = w_annotated_axiom(SpecAnnotatedAxiom { ax, ann }, None);
    assert(w == crate::rendering::w_axiom(ax, Some(ann), None));
    let s = a + w + b;
    let k = "DisjointDataProperties"@;
    let body = w_iris(v, None);
    let t = w_annotations(ann, None) + seq![' '];
    assert(w == k + seq!['('] + t + body + seq![')']);
    lemma_cut_form(a, k, t, body, b);
    let a1 = a + k + seq!['('] + t;
    lemma_iris_start(v);
    assert(s[a1.len() as int] == body[0]);
    assert(ws(s, a1.len() as int) == a1.len());
    assert(s.subrange(a1.len() as int, a1.len() + body.len() + 0int) =~= body);
    lemma_read_written_iris(s, a1.len() as int, v, px, a1.len() as int);
    let e = a1.len() + body.len() + 0int;
    assert(s[e] == ')');
    assert(ws(s, e) == e);
}

/// See [`lemma_read_written_axiom`]: `DisjointDataProperties` axioms.
#[verifier::spinoff_prover]
#[verifier::rlimit(40)]
pub proof fn lemma_read_written_disjoint_data_properties(a: Seq<char>, v: Seq<Seq<char>>, ann: Seq<SpecAnnotation>, b: Seq<char>, px: Px)
    requires
        annotations_sorted(ann),
        v.len() >= 2,
        forall|k: int| 0 <= k < v.len() ==> iri_text(#[trigger] v[k]),
        annotations_rt(ann),
    ensures
        ({
            let x = SpecAnnotatedAxiom { ax: SpecAxiom::DisjointDataProperties(v), ann };
            let s = a + w_annotated_axiom(x, None) + b;
            &&& r_axiom(s, a.len() as int, px) == Some(
                (Ok::<SpecAnnotatedAxiom, SpecError>(x), a.len() + w_annotated_axiom(x, None).len() + 0int),
            )
            &&& word(s, a.len() as int) != "Import"@
            &&& word(s, a.len() as int) != "Annotation"@
            &&& r_iri(s, a.len() as int, px) is None
            &&& is_letter(w_annotated_axiom(x, None)[0])
        }),
{
    lemma_annotation_set_of_sorted(ann);
    let ax = SpecAxiom::DisjointDataProperties(v);
    let w = w_annotated_axiom(SpecAnnotatedAxiom { ax, ann }, None);
    assert(w == crate::rendering::w_axiom(ax, Some(ann), None));
    let s = a + w + b;
    let q = a.len() + "DisjointDataProperties"@.len() + 1int;
    let e0 = q + w_annotations(ann, None).len();
    lemma_read_written_disjoint_data_properties_head(a, v, ann, b, px);
    lemma_read_written_disjoint_data_properties_parts(a, v, ann, b, px);
    lemma_axiom_branch_disjoint_data_properties(s, e0 + 1, px);
    lemma_r_axiom_at(s, a.len() as int, px, q, "DisjointDataProperties"@, ax, ann, e0, a.len() + w.len() - 1int);
    lemma_keyword_letters("DisjointDataProperties"@, 0);
    assert(w[0] == "DisjointDataProperties"@[0]);
}

/// How the written form of an annotation assertion begins: its keyword
/// and its opening parenthesis; its annotations are not written.
#[verifier::spinoff_prover]
#[verifier::rlimit(40)]
pub proof fn lemma_read_written_annotation_assertion_head(
    a: Seq<char>,
    x0: Seq<char>,
    x1: SpecAnnotationSubject,
    x2: SpecAnnotationValue,
    b: Seq<char>,
    px: Px,
)
    requires
        iri_text(x0),
        annotation_subject_rt(x1),
        annotation_value_rt(x2),
    ensures
        ({
            let ax = SpecAxiom::AnnotationAssertion { subject: x1, ann: SpecAnnotation { ap: x0, av: x2 } };
            let s = a + w_annotated_axiom(bare(ax), None) + b;
            let q = a.len() + "AnnotationAssertion"@.len() + 1int;
            &&& open_at(s, letters_end(s, a.len() as int)) == Some(q)
            &&& word(s, a.len() as int) == "AnnotationAssertion"@
            &&& r_iri(s, a.len() as int, px) is None
            &&& r_annotation_seq(s, q, px) == (Ok::<Seq<SpecAnnotation>, SpecError>(Seq::empty()), 0nat, q)
            &&& ws(s, q) == q
        }),
{
    lemma_annotation_set_empty();
    let ax = SpecAxiom::AnnotationAssertion { subject: x1, ann: SpecAnnotation { ap: x0, av: x2 } };
    let w = w_annotated_axiom(bare(ax), None);
    let s = a + w + b;
    let k = "AnnotationAssertion"@;
    assert(keyword(k)) by {
        lemma_axiom_branch_annotation_assertion(s, 0, px);
    }
    reveal_strlit("AnnotationAssertion");
    reveal_strlit("AnnotationAssertion(");
    let body = w_iri(x0, None) + seq![' '] + w_annotation_subject(x1, None) + seq![' '] + w_annotation_value(
        x2,
        None,
    );
    assert(w =~= k + seq!['('] + Seq::<char>::empty() + body + seq![')']);
    lemma_cut_form(a, k, Seq::<char>::empty(), body, b);
    lemma_keyword_at(a, k, seq!['('] + Seq::<char>::empty() + body + seq![')'] + b, px);
    let q = a.len() + k.len() + 1int;
    lemma_iri_start(x0);
    assert(s[q] == '<');
    assert(ws(s, q) == q);
    lemma_word_not_annotation(s, q);
    lemma_no_annotations(s, q, px);
}

/// How the written form of an annotation assertion goes on after its
/// opening parenthesis: its property, subject and value, each read as
/// itself, then the closing parenthesis.
#[verifier::spinoff_prover]
#[verifier::rlimit(100)]
pub proof fn lemma_read_written_annotation_assertion_parts(
    a: Seq<char>,
    x0: Seq<char>,
    x1: SpecAnnotationSubject,
    x2: SpecAnnotationValue,
    b: Seq<char>,
    px: Px,
)
    requires
        iri_text(x0),
        annotation_subject_rt(x1),
        annotation_value_rt(x2),
    ensures
        ({
            let ax = SpecAxiom::AnnotationAssertion { subject: x1, ann: SpecAnnotation { ap: x0, av: x2 } };
            let w = w_annotated_axiom(bare(ax), None);
            let s = a + w + b;
            let q = a.len() + "AnnotationAssertion"@.len() + 1int;
            let e1 = q + w_iri(x0, None).len();
            let e2 = e1 + 1 + w_annotation_subject(x1, None).len();
            let e3 = e2 + 1 + w_annotation_value(x2, None).len();
            &&& r_iri(s, q, px) == Some((Ok::<Seq<char>, SpecError>(x0), e1))
            &&& r_annotation_subject(s, ws(s, e1), px) == Some((Ok::<SpecAnnotationSubject, SpecError>(x1), e2))
            &&& r_annotation_value(s, ws(s, e2), px) == Some((Ok::<SpecAnnotationValue, SpecError>(x2), e3))
            &&& close_at(s, e3) == Some(e3 + 1)
            &&& e3 + 1 == a.len() + w.len()
        }),
{
    lemma_annotation_set_empty();
    let ax = SpecAxiom::AnnotationAssertion { subject: x1, ann: SpecAnnotation { ap: x0, av: x2 } };
    let w = w_annotated_axiom(bare(ax), None);
    let s = a + w + b;
    let k = "AnnotationAssertion"@;
    reveal_strlit("AnnotationAssertion");
    reveal_strlit("AnnotationAssertion(");
    let w0 = w_iri(x0, None);
    let w1 = w_annotation_subject(x1, None);
    let w2 = w_annotation_value(x2, None);
    let body = w0 + seq![' '] + w1 + seq![' '] + w2;
    assert(w =~= k + seq!['('] + Seq::<char>::empty() + body + seq![')']);
    lemma_cut_form(a, k, Seq::<char>::empty(), body, b);
    let a1 = a + k + seq!['('] + Seq::<char>::empty();
    lemma_cut_triple(a1, w0, w1, w2, seq![')'] + b);
    lemma_iri_start(x0);
    assert(s[a1.len() as int] == '<');
    assert(ws(s, a1.len() as int) == a1.len());
    lemma_read_written_iri(a1, x0, seq![' '] + w1 + seq![' '] + w2 + (seq![')'] + b), px);
    let a2 = a1 + w0 + seq![' '];
    lemma_annotation_subject_start(x1);
    assert(s[a2.len() - 1] == ' ');
    assert(s[a2.len() as int] == w1[0]);
    assert(ws(s, a2.len() as int) == a2.len());
    assert(ws(s, a2.len() - 1) == a2.len());
    lemma_read_written_annotation_subject(a2, x1, seq![' '] + w2 + (seq![')'] + b), px);
    let a3 = a2 + w1 + seq![' '];
    lemma_annotation_value_start(x2);
    assert(s[a3.len() - 1] == ' ');
    assert(s[a3.len() as int] == w2[0]);
    assert(ws(s, a3.len() as int) == a3.len());
    assert(ws(s, a3.len() - 1) == a3.len());
    lemma_read_written_annotation_value(a3, x2, seq![')'] + b, px);
    let e = a3.len() + w2.len() + 0int;
    assert(s[e] == ')');
    assert(ws(s, e) == e);
}

/// See [`lemma_read_written_axiom`]: annotation assertions.
#[verifier::spinoff_prover]
#[verifier::rlimit(40)]
pub proof fn lemma_read_written_annotation_assertion(
    a: Seq<char>,
    x0: Seq<char>,
    x1: SpecAnnotationSubject,
    x2: SpecAnnotationValue,
    b: Seq<char>,
    px: Px,
)
    requires
        iri_text(x0),
        annotation_subject_rt(x1),
        annotation_value_rt(x2),
    ensures
        ({
            let x = bare(SpecAxiom::AnnotationAssertion { subject: x1, ann: SpecAnnotation { ap: x0, av: x2 } });
            let s = a + w_annotated_axiom(x, None) + b;
            &&& r_axiom(s, a.len() as int, px) == Some(
                (Ok::<SpecAnnotatedAxiom, SpecError>(x), a.len() + w_annotated_axiom(x, None).len() + 0int),
            )
            &&& word(s, a.len() as int) != "Import"@
            &&& word(s, a.len() as int) != "Annotation"@
            &&& r_iri(s, a.len() as int, px) is None
            &&& is_letter(w_annotated_axiom(x, None)[0])
        }),
{
    lemma_annotation_set_empty();
    let ax = SpecAxiom::AnnotationAssertion { subject: x1, ann: SpecAnnotation { ap: x0, av: x2 } };
    let w = w_annotated_axiom(bare(ax), None);
    let s = a + w + b;
    let q = a.len() + "AnnotationAssertion"@.len() + 1int;
    lemma_read_written_annotation_assertion_head(a, x0, x1, x2, b, px);
    lemma_read_written_annotation_assertion_parts(a, x0, x1, x2, b, px);
    lemma_axiom_branch_annotation_assertion(s, q, px);
    lemma_r_axiom_at(s, a.len() as int, px, q, "AnnotationAssertion"@, ax, Seq::empty(), q, a.len() + w.len() - 1int);
    lemma_keyword_letters("AnnotationAssertion"@, 0);
    reveal_strlit("AnnotationAssertion(");
    reveal_strlit("AnnotationAssertion");
    assert(w[0] == "AnnotationAssertion"@[0]);
}

// ---------------------------------------------------------------------------
// Annotated axioms
// ---------------------------------------------------------------------------



/// An annotated axiom whose written form reads back as itself: its axiom
/// and its annotations do.
pub open spec fn annotated_axiom_rt(x: SpecAnnotatedAxiom) -> bool {
    &&& ax_rt(x.ax)
    &&& annotations_rt(x.ann)
    &&& annotations_sorted(x.ann)
}

/// The written form of an annotated axiom that reads back as itself, read
/// after any text `a` and followed by any text `b`, is the annotated axiom.
#[verifier::spinoff_prover]
#[verifier::rlimit(80)]
pub proof fn lemma_read_written_axiom(a: Seq<char>, x: SpecAnnotatedAxiom, b: Seq<char>, px: Px)
    requires
        annotated_axiom_rt(x),
    ensures
        r_axiom(a + w_annotated_axiom(x, None) + b, a.len() as int, px) == Some(
            (Ok::<SpecAnnotatedAxiom, SpecError>(x), a.len() + w_annotated_axiom(x, None).len() + 0int),
        ),
        word(a + w_annotated_axiom(x, None) + b, a.len() as int) != "Import"@,
        word(a + w_annotated_axiom(x, None) + b, a.len() as int) != "Annotation"@,
        is_letter(w_annotated_axiom(x, None)[0]),
        r_iri(a + w_annotated_axiom(x, None) + b, a.len() as int, px) is None,
{
    reveal(ax_rt);
    let ann = x.ann;
    match x.ax {
        SpecAxiom::DeclareClass(i) => {
            if ann.len() > 0 {
                lemma_read_written_annotated_declare_class(a, i, ann, b, px);
            } else {
                assert(ann =~= Seq::<SpecAnnotation>::empty());
                lemma_read_written_declare_class(a, i, b, px);
            }
        },
        SpecAxiom::DeclareDatatype(i) => {
            if ann.len() > 0 {
                lemma_read_written_annotated_declare_datatype(a, i, ann, b, px);
            } else {
                assert(ann =~= Seq::<SpecAnnotation>::empty());
                lemma_read_written_declare_datatype(a, i, b, px);
            }
        },
        SpecAxiom::DeclareObjectProperty(i) => {
            if ann.len() > 0 {
                lemma_read_written_annotated_declare_object_property(a, i, ann, b, px);
            } else {
                assert(ann =~= Seq::<SpecAnnotation>::empty());
                lemma_read_written_declare_object_property(a, i, b, px);
            }
        },
        SpecAxiom::DeclareDataProperty(i) => {
            if ann.len() > 0 {
                lemma_read_written_annotated_declare_data_property(a, i, ann, b, px);
            } else {
                assert(ann =~= Seq::<SpecAnnotation>::empty());
                lemma_read_written_declare_data_property(a, i, b, px);
            }
        },
        SpecAxiom::DeclareAnnotationProperty(i) => {
            if ann.len() > 0 {
                lemma_read_written_annotated_declare_annotation_property(a, i, ann, b, px);
            } else {
                assert(ann =~= Seq::<SpecAnnotation>::empty());
                lemma_read_written_declare_annotation_property(a, i, b, px);
            }
        },
        SpecAxiom::DeclareNamedIndividual(i) => {
            if ann.len() > 0 {
                lemma_read_written_annotated_declare_named_individual(a, i, ann, b, px);
            } else {
                assert(ann =~= Seq::<SpecAnnotation>::empty());
                lemma_read_written_declare_named_individual(a, i, b, px);
            }
        },
        SpecAxiom::SubClassOf { sub: x0, sup: x1 } => lemma_read_written_sub_class_of(a, x0, x1, ann, b, px),
        SpecAxiom::InverseObjectProperties(x0, x1) => lemma_read_written_inverse_object_properties(a, x0, x1, ann, b, px),
        SpecAxiom::ObjectPropertyDomain { ope: x0, ce: x1 } => lemma_read_written_object_property_domain(a, x0, x1, ann, b, px),
        SpecAxiom::ObjectPropertyRange { ope: x0, ce: x1 } => lemma_read_written_object_property_range(a, x0, x1, ann, b, px),
        SpecAxiom::FunctionalObjectProperty(x0) => lemma_read_written_functional_object_property(a, x0, ann, b, px),
        SpecAxiom::InverseFunctionalObjectProperty(x0) => lemma_read_written_inverse_functional_object_property(a, x0, ann, b, px),
        SpecAxiom::ReflexiveObjectProperty(x0) => lemma_read_written_reflexive_object_property(a, x0, ann, b, px),
        SpecAxiom::IrreflexiveObjectProperty(x0) => lemma_read_written_irreflexive_object_property(a, x0, ann, b, px),
        SpecAxiom::SymmetricObjectProperty(x0) => lemma_read_written_symmetric_object_property(a, x0, ann, b, px),
        SpecAxiom::AsymmetricObjectProperty(x0) => lemma_read_written_asymmetric_object_property(a, x0, ann, b, px),
        SpecAxiom::SubDataPropertyOf { sub: x0, sup: x1 } => lemma_read_written_sub_data_property_of(a, x0, x1, ann, b, px),
        SpecAxiom::FunctionalDataProperty(x0) => lemma_read_written_functional_data_property(a, x0, ann, b, px),
        SpecAxiom::DataPropertyDomain { dp: x0, ce: x1 } => lemma_read_written_data_property_domain(a, x0, x1, ann, b, px),
        SpecAxiom::DataPropertyRange { dp: x0, dr: x1 } => lemma_read_written_data_property_range(a, x0, x1, ann, b, px),
        SpecAxiom::DisjointUnion(x0, x1) => lemma_read_written_disjoint_union(a, x0, x1, ann, b, px),
        SpecAxiom::SubObjectPropertyOf { sub: x0, sup: x1 } => lemma_read_written_sub_object_property_of(a, x0, x1, ann, b, px),
        SpecAxiom::TransitiveObjectProperty(SpecObjectPropertyExpression::ObjectProperty(x0)) => lemma_read_written_transitive_object_property(a, x0, ann, b, px),
        SpecAxiom::DatatypeDefinition { kind: x0, range: x1 } => lemma_read_written_datatype_definition(a, x0, x1, ann, b, px),
        SpecAxiom::ObjectPropertyAssertion { ope: x0, from: x1, to: x2 } => lemma_read_written_object_property_assertion(a, x0, x1, x2, ann, b, px),
        SpecAxiom::NegativeObjectPropertyAssertion { ope: x0, from: x1, to: x2 } => lemma_read_written_negative_object_property_assertion(a, x0, x1, x2, ann, b, px),
        SpecAxiom::DataPropertyAssertion { dp: x0, from: x1, to: x2 } => lemma_read_written_data_property_assertion(a, x0, x1, x2, ann, b, px),
        SpecAxiom::NegativeDataPropertyAssertion { dp: x0, from: x1, to: x2 } => lemma_read_written_negative_data_property_assertion(a, x0, x1, x2, ann, b, px),
        SpecAxiom::ClassAssertion { ce: x0, i: x1 } => lemma_read_written_class_assertion(a, x0, x1, ann, b, px),
        SpecAxiom::SubAnnotationPropertyOf { sub: x0, sup: x1 } => lemma_read_written_sub_annotation_property_of(a, x0, x1, ann, b, px),
        SpecAxiom::AnnotationPropertyDomain { ap: x0, iri: x1 } => lemma_read_written_annotation_property_domain(a, x0, x1, ann, b, px),
        SpecAxiom::AnnotationPropertyRange { ap: x0, iri: x1 } => lemma_read_written_annotation_property_range(a, x0, x1, ann, b, px),
        SpecAxiom::EquivalentClasses(v) => lemma_read_written_equivalent_classes(a, v, ann, b, px),
        SpecAxiom::DisjointClasses(v) => lemma_read_written_disjoint_classes(a, v, ann, b, px),
        SpecAxiom::SameIndividual(v) => lemma_read_written_same_individual(a, v, ann, b, px),
        SpecAxiom::DifferentIndividuals(v) => lemma_read_written_different_individuals(a, v, ann, b, px),
        SpecAxiom::EquivalentObjectProperties(v) => lemma_read_written_equivalent_object_properties(a, v, ann, b, px),
        SpecAxiom::DisjointObjectProperties(v) => lemma_read_written_disjoint_object_properties(a, v, ann, b, px),
        SpecAxiom::EquivalentDataProperties(v) => lemma_read_written_equivalent_data_properties(a, v, ann, b, px),
        SpecAxiom::DisjointDataProperties(v) => lemma_read_written_disjoint_data_properties(a, v, ann, b, px),
        SpecAxiom::AnnotationAssertion { subject, ann: an } => {
            if ann.len() > 0 {
                lemma_read_written_annotated_annotation_assertion(a, an.ap, subject, an.av, ann, b, px);
            } else {
                assert(ann =~= Seq::<SpecAnnotation>::empty());
                lemma_read_written_annotation_assertion(a, an.ap, subject, an.av, b, px);
            }
        },
        SpecAxiom::HasKey { ce, vpe } => crate::key_round_trip::lemma_read_written_has_key(a, ce, vpe, ann, b, px),
        _ => {},
    }
}

/// Reading the written form of an annotated axiom that reads back as
/// itself gives the annotated axiom back, whatever the prefixes used to
/// read it.
pub proof fn axiom_round_trip(x: SpecAnnotatedAxiom, px: Px)
    requires
        annotated_axiom_rt(x),
    ensures
        whole(w_annotated_axiom(x, None), r_axiom(w_annotated_axiom(x, None), 0, px)) == Ok::<
            SpecAnnotatedAxiom,
            SpecError,
        >(x),
{
    lemma_read_written_axiom(Seq::empty(), x, Seq::empty(), px);
    assert(Seq::<char>::empty() + w_annotated_axiom(x, None) + Seq::<char>::empty() =~= w_annotated_axiom(
        x,
        None,
    ));
}

} // verus!
