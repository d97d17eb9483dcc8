//! Whether two values of the model are the same: each function computes
//! the equality of the mathematical forms of its arguments.
use vstd::prelude::*;
use crate::model::{
    AnnotatedAxiom, Annotation, AnnotationSubject, AnnotationValue, AnonymousIndividual, Axiom, ClassExpression,
    DataRange, FacetRestriction, IRI, Individual, Literal, ObjectPropertyExpression, PropertyExpression,
    SubObjectPropertyExpression, lemma_view_ce_seq, lemma_view_dr_seq, view_ce_seq, view_dr_seq,
};

verus! {

/// Whether two values are the same (see [`IRI`]).
pub fn same_iri(a: &IRI, b: &IRI) -> (r: bool)
    ensures
        r == (a@ == b@),
{
    *&a.0 == *&b.0
}

/// Whether two sequences of values are the same.
pub fn same_iri_vec(a: &Vec<IRI>, b: &Vec<IRI>) -> (r: bool)
    ensures
        r == (a@.map_values(|e: IRI| e@) == b@.map_values(|e: IRI| e@)),
{
    let ghost va = a@.map_values(|e: IRI| e@);
    let ghost vb = b@.map_values(|e: IRI| e@);
    proof {
    }
    assert(va.len() == a.len());
    assert(vb.len() == b.len());
    if a.len() != b.len() {
        return false;
    }
    let mut i: usize = 0;
    while i < a.len()
        invariant
            i <= a.len(),
            a.len() == b.len(),
            va == a@.map_values(|e: IRI| e@),
            vb == b@.map_values(|e: IRI| e@),
            va.len() == a.len(),
            vb.len() == b.len(),
            forall|j: int| 0 <= j < a.len() ==> va[j] == (#[trigger] a@[j])@,
            forall|j: int| 0 <= j < b.len() ==> vb[j] == (#[trigger] b@[j])@,
            forall|j: int| 0 <= j < i ==> #[trigger] va[j] == vb[j],
        decreases a.len() - i,
    {
        if !same_iri(&a[i], &b[i]) {
            assert(va[i as int] != vb[i as int]);
            return false;
        }
        i += 1;
    }
    assert(va =~= vb);
    true
}

/// Whether two values are the same (see [`AnonymousIndividual`]).
pub fn same_anonymous(a: &AnonymousIndividual, b: &AnonymousIndividual) -> (r: bool)
    ensures
        r == (a@ == b@),
{
    *&a.0 == *&b.0
}

/// Whether two values are the same (see [`Individual`]).
pub fn same_individual(a: &Individual, b: &Individual) -> (r: bool)
    ensures
        r == (a@ == b@),
{
    match (a, b) {
        (Individual::Named(x0), Individual::Named(y0)) => same_iri(x0, y0),
        (Individual::Anonymous(x0), Individual::Anonymous(y0)) => same_anonymous(x0, y0),
        _ => false,
    }
}

/// Whether two sequences of values are the same.
pub fn same_individual_vec(a: &Vec<Individual>, b: &Vec<Individual>) -> (r: bool)
    ensures
        r == (a@.map_values(|e: Individual| e@) == b@.map_values(|e: Individual| e@)),
{
    let ghost va = a@.map_values(|e: Individual| e@);
    let ghost vb = b@.map_values(|e: Individual| e@);
    proof {
    }
    assert(va.len() == a.len());
    assert(vb.len() == b.len());
    if a.len() != b.len() {
        return false;
    }
    let mut i: usize = 0;
    while i < a.len()
        invariant
            i <= a.len(),
            a.len() == b.len(),
            va == a@.map_values(|e: Individual| e@),
            vb == b@.map_values(|e: Individual| e@),
            va.len() == a.len(),
            vb.len() == b.len(),
            forall|j: int| 0 <= j < a.len() ==> va[j] == (#[trigger] a@[j])@,
            forall|j: int| 0 <= j < b.len() ==> vb[j] == (#[trigger] b@[j])@,
            forall|j: int| 0 <= j < i ==> #[trigger] va[j] == vb[j],
        decreases a.len() - i,
    {
        if !same_individual(&a[i], &b[i]) {
            assert(va[i as int] != vb[i as int]);
            return false;
        }
        i += 1;
    }
    assert(va =~= vb);
    true
}

/// Whether two values are the same (see [`Literal`]).
pub fn same_literal(a: &Literal, b: &Literal) -> (r: bool)
    ensures
        r == (a@ == b@),
{
    match (a, b) {
        (Literal::Simple { literal: x0 }, Literal::Simple { literal: y0 }) => *x0 == *y0,
        (Literal::Language { literal: x0, lang: x1 }, Literal::Language { literal: y0, lang: y1 }) => *x0 == *y0 && *x1 == *y1,
        (Literal::Datatype { literal: x0, datatype_iri: x1 }, Literal::Datatype { literal: y0, datatype_iri: y1 }) => *x0 == *y0 && same_iri(x1, y1),
        _ => false,
    }
}

/// Whether two sequences of values are the same.
pub fn same_literal_vec(a: &Vec<Literal>, b: &Vec<Literal>) -> (r: bool)
    ensures
        r == (a@.map_values(|e: Literal| e@) == b@.map_values(|e: Literal| e@)),
{
    let ghost va = a@.map_values(|e: Literal| e@);
    let ghost vb = b@.map_values(|e: Literal| e@);
    proof {
    }
    assert(va.len() == a.len());
    assert(vb.len() == b.len());
    if a.len() != b.len() {
        return false;
    }
    let mut i: usize = 0;
    while i < a.len()
        invariant
            i <= a.len(),
            a.len() == b.len(),
            va == a@.map_values(|e: Literal| e@),
            vb == b@.map_values(|e: Literal| e@),
            va.len() == a.len(),
            vb.len() == b.len(),
            forall|j: int| 0 <= j < a.len() ==> va[j] == (#[trigger] a@[j])@,
            forall|j: int| 0 <= j < b.len() ==> vb[j] == (#[trigger] b@[j])@,
            forall|j: int| 0 <= j < i ==> #[trigger] va[j] == vb[j],
        decreases a.len() - i,
    {
        if !same_literal(&a[i], &b[i]) {
            assert(va[i as int] != vb[i as int]);
            return false;
        }
        i += 1;
    }
    assert(va =~= vb);
    true
}

/// Whether two values are the same (see [`FacetRestriction`]).
pub fn same_facet_restriction(a: &FacetRestriction, b: &FacetRestriction) -> (r: bool)
    ensures
        r == (a@ == b@),
{
    *&a.f == *&b.f && same_literal(&a.l, &b.l)
}

/// Whether two sequences of values are the same.
pub fn same_facet_restriction_vec(a: &Vec<FacetRestriction>, b: &Vec<FacetRestriction>) -> (r: bool)
    ensures
        r == (a@.map_values(|e: FacetRestriction| e@) == b@.map_values(|e: FacetRestriction| e@)),
{
    let ghost va = a@.map_values(|e: FacetRestriction| e@);
    let ghost vb = b@.map_values(|e: FacetRestriction| e@);
    proof {
    }
    assert(va.len() == a.len());
    assert(vb.len() == b.len());
    if a.len() != b.len() {
        return false;
    }
    let mut i: usize = 0;
    while i < a.len()
        invariant
            i <= a.len(),
            a.len() == b.len(),
            va == a@.map_values(|e: FacetRestriction| e@),
            vb == b@.map_values(|e: FacetRestriction| e@),
            va.len() == a.len(),
            vb.len() == b.len(),
            forall|j: int| 0 <= j < a.len() ==> va[j] == (#[trigger] a@[j])@,
            forall|j: int| 0 <= j < b.len() ==> vb[j] == (#[trigger] b@[j])@,
            forall|j: int| 0 <= j < i ==> #[trigger] va[j] == vb[j],
        decreases a.len() - i,
    {
        if !same_facet_restriction(&a[i], &b[i]) {
            assert(va[i as int] != vb[i as int]);
            return false;
        }
        i += 1;
    }
    assert(va =~= vb);
    true
}

/// Whether two values are the same (see [`ObjectPropertyExpression`]).
pub fn same_ope(a: &ObjectPropertyExpression, b: &ObjectPropertyExpression) -> (r: bool)
    ensures
        r == (a@ == b@),
{
    match (a, b) {
        (ObjectPropertyExpression::ObjectProperty(x0), ObjectPropertyExpression::ObjectProperty(y0)) => same_iri(x0, y0),
        (ObjectPropertyExpression::InverseObjectProperty(x0), ObjectPropertyExpression::InverseObjectProperty(y0)) => same_iri(x0, y0),
        _ => false,
    }
}

/// Whether two sequences of values are the same.
pub fn same_ope_vec(a: &Vec<ObjectPropertyExpression>, b: &Vec<ObjectPropertyExpression>) -> (r: bool)
    ensures
        r == (a@.map_values(|e: ObjectPropertyExpression| e@) == b@.map_values(|e: ObjectPropertyExpression| e@)),
{
    let ghost va = a@.map_values(|e: ObjectPropertyExpression| e@);
    let ghost vb = b@.map_values(|e: ObjectPropertyExpression| e@);
    proof {
    }
    assert(va.len() == a.len());
    assert(vb.len() == b.len());
    if a.len() != b.len() {
        return false;
    }
    let mut i: usize = 0;
    while i < a.len()
        invariant
            i <= a.len(),
            a.len() == b.len(),
            va == a@.map_values(|e: ObjectPropertyExpression| e@),
            vb == b@.map_values(|e: ObjectPropertyExpression| e@),
            va.len() == a.len(),
            vb.len() == b.len(),
            forall|j: int| 0 <= j < a.len() ==> va[j] == (#[trigger] a@[j])@,
            forall|j: int| 0 <= j < b.len() ==> vb[j] == (#[trigger] b@[j])@,
            forall|j: int| 0 <= j < i ==> #[trigger] va[j] == vb[j],
        decreases a.len() - i,
    {
        if !same_ope(&a[i], &b[i]) {
            assert(va[i as int] != vb[i as int]);
            return false;
        }
        i += 1;
    }
    assert(va =~= vb);
    true
}

/// Whether two values are the same (see [`SubObjectPropertyExpression`]).
pub fn same_sub_ope(a: &SubObjectPropertyExpression, b: &SubObjectPropertyExpression) -> (r: bool)
    ensures
        r == (a@ == b@),
{
    match (a, b) {
        (SubObjectPropertyExpression::ObjectPropertyChain(x0), SubObjectPropertyExpression::ObjectPropertyChain(y0)) => same_ope_vec(x0, y0),
        (SubObjectPropertyExpression::ObjectPropertyExpression(x0), SubObjectPropertyExpression::ObjectPropertyExpression(y0)) => same_ope(x0, y0),
        _ => false,
    }
}

/// Whether two values are the same (see [`PropertyExpression`]).
pub fn same_pe(a: &PropertyExpression, b: &PropertyExpression) -> (r: bool)
    ensures
        r == (a@ == b@),
{
    match (a, b) {
        (PropertyExpression::ObjectPropertyExpression(x0), PropertyExpression::ObjectPropertyExpression(y0)) => same_ope(x0, y0),
        (PropertyExpression::DataProperty(x0), PropertyExpression::DataProperty(y0)) => same_iri(x0, y0),
        (PropertyExpression::AnnotationProperty(x0), PropertyExpression::AnnotationProperty(y0)) => same_iri(x0, y0),
        _ => false,
    }
}

/// Whether two sequences of values are the same.
pub fn same_pe_vec(a: &Vec<PropertyExpression>, b: &Vec<PropertyExpression>) -> (r: bool)
    ensures
        r == (a@.map_values(|e: PropertyExpression| e@) == b@.map_values(|e: PropertyExpression| e@)),
{
    let ghost va = a@.map_values(|e: PropertyExpression| e@);
    let ghost vb = b@.map_values(|e: PropertyExpression| e@);
    proof {
    }
    assert(va.len() == a.len());
    assert(vb.len() == b.len());
    if a.len() != b.len() {
        return false;
    }
    let mut i: usize = 0;
    while i < a.len()
        invariant
            i <= a.len(),
            a.len() == b.len(),
            va == a@.map_values(|e: PropertyExpression| e@),
            vb == b@.map_values(|e: PropertyExpression| e@),
            va.len() == a.len(),
            vb.len() == b.len(),
            forall|j: int| 0 <= j < a.len() ==> va[j] == (#[trigger] a@[j])@,
            forall|j: int| 0 <= j < b.len() ==> vb[j] == (#[trigger] b@[j])@,
            forall|j: int| 0 <= j < i ==> #[trigger] va[j] == vb[j],
        decreases a.len() - i,
    {
        if !same_pe(&a[i], &b[i]) {
            assert(va[i as int] != vb[i as int]);
            return false;
        }
        i += 1;
    }
    assert(va =~= vb);
    true
}

/// Whether two values are the same (see [`DataRange`]).
pub fn same_dr(a: &DataRange, b: &DataRange) -> (r: bool)
    ensures
        r == (a@ == b@),
    decreases a,
{
    match (a, b) {
        (DataRange::Datatype(x0), DataRange::Datatype(y0)) => same_iri(x0, y0),
        (DataRange::DataIntersectionOf(x0), DataRange::DataIntersectionOf(y0)) => same_dr_vec(x0, y0),
        (DataRange::DataUnionOf(x0), DataRange::DataUnionOf(y0)) => same_dr_vec(x0, y0),
        (DataRange::DataComplementOf(x0), DataRange::DataComplementOf(y0)) => same_dr(x0, y0),
        (DataRange::DataOneOf(x0), DataRange::DataOneOf(y0)) => same_literal_vec(x0, y0),
        (DataRange::DatatypeRestriction(x0, x1), DataRange::DatatypeRestriction(y0, y1)) => same_iri(x0, y0) && same_facet_restriction_vec(x1, y1),
        _ => false,
    }
}

/// Whether two sequences of values are the same.
pub fn same_dr_vec(a: &Vec<DataRange>, b: &Vec<DataRange>) -> (r: bool)
    ensures
        r == (view_dr_seq(a@) == view_dr_seq(b@)),
    decreases a,
{
    let ghost va = view_dr_seq(a@);
    let ghost vb = view_dr_seq(b@);
    proof {
        lemma_view_dr_seq(a@);
        lemma_view_dr_seq(b@);
    }
    assert(va.len() == a.len());
    assert(vb.len() == b.len());
    if a.len() != b.len() {
        return false;
    }
    let mut i: usize = 0;
    while i < a.len()
        invariant
            i <= a.len(),
            a.len() == b.len(),
            va == view_dr_seq(a@),
            vb == view_dr_seq(b@),
            va.len() == a.len(),
            vb.len() == b.len(),
            forall|j: int| 0 <= j < a.len() ==> va[j] == (#[trigger] a@[j])@,
            forall|j: int| 0 <= j < b.len() ==> vb[j] == (#[trigger] b@[j])@,
            forall|j: int| 0 <= j < i ==> #[trigger] va[j] == vb[j],
        decreases a.len() - i,
    {
        if !same_dr(&a[i], &b[i]) {
            assert(va[i as int] != vb[i as int]);
            return false;
        }
        i += 1;
    }
    assert(va =~= vb);
    true
}

/// Whether two values are the same (see [`ClassExpression`]).
pub fn same_ce(a: &ClassExpression, b: &ClassExpression) -> (r: bool)
    ensures
        r == (a@ == b@),
    decreases a,
{
    match (a, b) {
        (ClassExpression::Class(x0), ClassExpression::Class(y0)) => same_iri(x0, y0),
        (ClassExpression::ObjectIntersectionOf(x0), ClassExpression::ObjectIntersectionOf(y0)) => same_ce_vec(x0, y0),
        (ClassExpression::ObjectUnionOf(x0), ClassExpression::ObjectUnionOf(y0)) => same_ce_vec(x0, y0),
        (ClassExpression::ObjectComplementOf(x0), ClassExpression::ObjectComplementOf(y0)) => same_ce(x0, y0),
        (ClassExpression::ObjectOneOf(x0), ClassExpression::ObjectOneOf(y0)) => same_individual_vec(x0, y0),
        (ClassExpression::ObjectSomeValuesFrom { ope: x0, bce: x1 }, ClassExpression::ObjectSomeValuesFrom { ope: y0, bce: y1 }) => same_ope(x0, y0) && same_ce(x1, y1),
        (ClassExpression::ObjectAllValuesFrom { ope: x0, bce: x1 }, ClassExpression::ObjectAllValuesFrom { ope: y0, bce: y1 }) => same_ope(x0, y0) && same_ce(x1, y1),
        (ClassExpression::ObjectHasValue { ope: x0, i: x1 }, ClassExpression::ObjectHasValue { ope: y0, i: y1 }) => same_ope(x0, y0) && same_individual(x1, y1),
        (ClassExpression::ObjectHasSelf(x0), ClassExpression::ObjectHasSelf(y0)) => same_ope(x0, y0),
        (ClassExpression::ObjectMinCardinality { n: x0, ope: x1, bce: x2 }, ClassExpression::ObjectMinCardinality { n: y0, ope: y1, bce: y2 }) => *x0 == *y0 && same_ope(x1, y1) && same_ce(x2, y2),
        (ClassExpression::ObjectMaxCardinality { n: x0, ope: x1, bce: x2 }, ClassExpression::ObjectMaxCardinality { n: y0, ope: y1, bce: y2 }) => *x0 == *y0 && same_ope(x1, y1) && same_ce(x2, y2),
        (ClassExpression::ObjectExactCardinality { n: x0, ope: x1, bce: x2 }, ClassExpression::ObjectExactCardinality { n: y0, ope: y1, bce: y2 }) => *x0 == *y0 && same_ope(x1, y1) && same_ce(x2, y2),
        (ClassExpression::DataSomeValuesFrom { dp: x0, dr: x1 }, ClassExpression::DataSomeValuesFrom { dp: y0, dr: y1 }) => same_iri(x0, y0) && same_dr(x1, y1),
        (ClassExpression::DataAllValuesFrom { dp: x0, dr: x1 }, ClassExpression::DataAllValuesFrom { dp: y0, dr: y1 }) => same_iri(x0, y0) && same_dr(x1, y1),
        (ClassExpression::DataHasValue { dp: x0, l: x1 }, ClassExpression::DataHasValue { dp: y0, l: y1 }) => same_iri(x0, y0) && same_literal(x1, y1),
        (ClassExpression::DataMinCardinality { n: x0, dp: x1, dr: x2 }, ClassExpression::DataMinCardinality { n: y0, dp: y1, dr: y2 }) => *x0 == *y0 && same_iri(x1, y1) && same_dr(x2, y2),
        (ClassExpression::DataMaxCardinality { n: x0, dp: x1, dr: x2 }, ClassExpression::DataMaxCardinality { n: y0, dp: y1, dr: y2 }) => *x0 == *y0 && same_iri(x1, y1) && same_dr(x2, y2),
        (ClassExpression::DataExactCardinality { n: x0, dp: x1, dr: x2 }, ClassExpression::DataExactCardinality { n: y0, dp: y1, dr: y2 }) => *x0 == *y0 && same_iri(x1, y1) && same_dr(x2, y2),
        _ => false,
    }
}

/// Whether two sequences of values are the same.
pub fn same_ce_vec(a: &Vec<ClassExpression>, b: &Vec<ClassExpression>) -> (r: bool)
    ensures
        r == (view_ce_seq(a@) == view_ce_seq(b@)),
    decreases a,
{
    let ghost va = view_ce_seq(a@);
    let ghost vb = view_ce_seq(b@);
    proof {
        lemma_view_ce_seq(a@);
        lemma_view_ce_seq(b@);
    }
    assert(va.len() == a.len());
    assert(vb.len() == b.len());
    if a.len() != b.len() {
        return false;
    }
    let mut i: usize = 0;
    while i < a.len()
        invariant
            i <= a.len(),
            a.len() == b.len(),
            va == view_ce_seq(a@),
            vb == view_ce_seq(b@),
            va.len() == a.len(),
            vb.len() == b.len(),
            forall|j: int| 0 <= j < a.len() ==> va[j] == (#[trigger] a@[j])@,
            forall|j: int| 0 <= j < b.len() ==> vb[j] == (#[trigger] b@[j])@,
            forall|j: int| 0 <= j < i ==> #[trigger] va[j] == vb[j],
        decreases a.len() - i,
    {
        if !same_ce(&a[i], &b[i]) {
            assert(va[i as int] != vb[i as int]);
            return false;
        }
        i += 1;
    }
    assert(va =~= vb);
    true
}

/// Whether two values are the same (see [`AnnotationValue`]).
pub fn same_annotation_value(a: &AnnotationValue, b: &AnnotationValue) -> (r: bool)
    ensures
        r == (a@ == b@),
{
    match (a, b) {
        (AnnotationValue::Literal(x0), AnnotationValue::Literal(y0)) => same_literal(x0, y0),
        (AnnotationValue::IRI(x0), AnnotationValue::IRI(y0)) => same_iri(x0, y0),
        _ => false,
    }
}

/// Whether two values are the same (see [`AnnotationSubject`]).
pub fn same_annotation_subject(a: &AnnotationSubject, b: &AnnotationSubject) -> (r: bool)
    ensures
        r == (a@ == b@),
{
    match (a, b) {
        (AnnotationSubject::IRI(x0), AnnotationSubject::IRI(y0)) => same_iri(x0, y0),
        (AnnotationSubject::AnonymousIndividual(x0), AnnotationSubject::AnonymousIndividual(y0)) => same_anonymous(x0, y0),
        _ => false,
    }
}

/// Whether two values are the same (see [`Annotation`]).
pub fn same_annotation(a: &Annotation, b: &Annotation) -> (r: bool)
    ensures
        r == (a@ == b@),
{
    same_iri(&a.ap, &b.ap) && same_annotation_value(&a.av, &b.av)
}

/// Whether two sequences of values are the same.
pub fn same_annotation_vec(a: &Vec<Annotation>, b: &Vec<Annotation>) -> (r: bool)
    ensures
        r == (a@.map_values(|e: Annotation| e@) == b@.map_values(|e: Annotation| e@)),
{
    let ghost va = a@.map_values(|e: Annotation| e@);
    let ghost vb = b@.map_values(|e: Annotation| e@);
    proof {
    }
    assert(va.len() == a.len());
    assert(vb.len() == b.len());
    if a.len() != b.len() {
        return false;
    }
    let mut i: usize = 0;
    while i < a.len()
        invariant
            i <= a.len(),
            a.len() == b.len(),
            va == a@.map_values(|e: Annotation| e@),
            vb == b@.map_values(|e: Annotation| e@),
            va.len() == a.len(),
            vb.len() == b.len(),
            forall|j: int| 0 <= j < a.len() ==> va[j] == (#[trigger] a@[j])@,
            forall|j: int| 0 <= j < b.len() ==> vb[j] == (#[trigger] b@[j])@,
            forall|j: int| 0 <= j < i ==> #[trigger] va[j] == vb[j],
        decreases a.len() - i,
    {
        if !same_annotation(&a[i], &b[i]) {
            assert(va[i as int] != vb[i as int]);
            return false;
        }
        i += 1;
    }
    assert(va =~= vb);
    true
}

/// Whether two values are the same (see [`Axiom`]).
pub fn same_axiom(a: &Axiom, b: &Axiom) -> (r: bool)
    ensures
        r == (a@ == b@),
{
    match (a, b) {
        (Axiom::OntologyAnnotation(x0), Axiom::OntologyAnnotation(y0)) => same_annotation(x0, y0),
        (Axiom::Import(x0), Axiom::Import(y0)) => same_iri(x0, y0),
        (Axiom::DeclareClass(x0), Axiom::DeclareClass(y0)) => same_iri(x0, y0),
        (Axiom::DeclareObjectProperty(x0), Axiom::DeclareObjectProperty(y0)) => same_iri(x0, y0),
        (Axiom::DeclareAnnotationProperty(x0), Axiom::DeclareAnnotationProperty(y0)) => same_iri(x0, y0),
        (Axiom::DeclareDataProperty(x0), Axiom::DeclareDataProperty(y0)) => same_iri(x0, y0),
        (Axiom::DeclareNamedIndividual(x0), Axiom::DeclareNamedIndividual(y0)) => same_iri(x0, y0),
        (Axiom::DeclareDatatype(x0), Axiom::DeclareDatatype(y0)) => same_iri(x0, y0),
        (Axiom::SubClassOf { sub: x0, sup: x1 }, Axiom::SubClassOf { sub: y0, sup: y1 }) => same_ce(x0, y0) && same_ce(x1, y1),
        (Axiom::EquivalentClasses(x0), Axiom::EquivalentClasses(y0)) => same_ce_vec(x0, y0),
        (Axiom::DisjointClasses(x0), Axiom::DisjointClasses(y0)) => same_ce_vec(x0, y0),
        (Axiom::DisjointUnion(x0, x1), Axiom::DisjointUnion(y0, y1)) => same_iri(x0, y0) && same_ce_vec(x1, y1),
        (Axiom::SubObjectPropertyOf { sub: x0, sup: x1 }, Axiom::SubObjectPropertyOf { sub: y0, sup: y1 }) => same_sub_ope(x0, y0) && same_ope(x1, y1),
        (Axiom::EquivalentObjectProperties(x0), Axiom::EquivalentObjectProperties(y0)) => same_ope_vec(x0, y0),
        (Axiom::DisjointObjectProperties(x0), Axiom::DisjointObjectProperties(y0)) => same_ope_vec(x0, y0),
        (Axiom::InverseObjectProperties(x0, x1), Axiom::InverseObjectProperties(y0, y1)) => same_iri(x0, y0) && same_iri(x1, y1),
        (Axiom::ObjectPropertyDomain { ope: x0, ce: x1 }, Axiom::ObjectPropertyDomain { ope: y0, ce: y1 }) => same_ope(x0, y0) && same_ce(x1, y1),
        (Axiom::ObjectPropertyRange { ope: x0, ce: x1 }, Axiom::ObjectPropertyRange { ope: y0, ce: y1 }) => same_ope(x0, y0) && same_ce(x1, y1),
        (Axiom::FunctionalObjectProperty(x0), Axiom::FunctionalObjectProperty(y0)) => same_ope(x0, y0),
        (Axiom::InverseFunctionalObjectProperty(x0), Axiom::InverseFunctionalObjectProperty(y0)) => same_ope(x0, y0),
        (Axiom::ReflexiveObjectProperty(x0), Axiom::ReflexiveObjectProperty(y0)) => same_ope(x0, y0),
        (Axiom::IrreflexiveObjectProperty(x0), Axiom::IrreflexiveObjectProperty(y0)) => same_ope(x0, y0),
        (Axiom::SymmetricObjectProperty(x0), Axiom::SymmetricObjectProperty(y0)) => same_ope(x0, y0),
        (Axiom::AsymmetricObjectProperty(x0), Axiom::AsymmetricObjectProperty(y0)) => same_ope(x0, y0),
        (Axiom::TransitiveObjectProperty(x0), Axiom::TransitiveObjectProperty(y0)) => same_ope(x0, y0),
        (Axiom::SubDataPropertyOf { sub: x0, sup: x1 }, Axiom::SubDataPropertyOf { sub: y0, sup: y1 }) => same_iri(x0, y0) && same_iri(x1, y1),
        (Axiom::EquivalentDataProperties(x0), Axiom::EquivalentDataProperties(y0)) => same_iri_vec(x0, y0),
        (Axiom::DisjointDataProperties(x0), Axiom::DisjointDataProperties(y0)) => same_iri_vec(x0, y0),
        (Axiom::DataPropertyDomain { dp: x0, ce: x1 }, Axiom::DataPropertyDomain { dp: y0, ce: y1 }) => same_iri(x0, y0) && same_ce(x1, y1),
        (Axiom::DataPropertyRange { dp: x0, dr: x1 }, Axiom::DataPropertyRange { dp: y0, dr: y1 }) => same_iri(x0, y0) && same_dr(x1, y1),
        (Axiom::FunctionalDataProperty(x0), Axiom::FunctionalDataProperty(y0)) => same_iri(x0, y0),
        (Axiom::DatatypeDefinition { kind: x0, range: x1 }, Axiom::DatatypeDefinition { kind: y0, range: y1 }) => same_iri(x0, y0) && same_dr(x1, y1),
        (Axiom::HasKey { ce: x0, vpe: x1 }, Axiom::HasKey { ce: y0, vpe: y1 }) => same_ce(x0, y0) && same_pe_vec(x1, y1),
        (Axiom::SameIndividual(x0), Axiom::SameIndividual(y0)) => same_individual_vec(x0, y0),
        (Axiom::DifferentIndividuals(x0), Axiom::DifferentIndividuals(y0)) => same_individual_vec(x0, y0),
        (Axiom::ClassAssertion { ce: x0, i: x1 }, Axiom::ClassAssertion { ce: y0, i: y1 }) => same_ce(x0, y0) && same_individual(x1, y1),
        (Axiom::ObjectPropertyAssertion { ope: x0, from: x1, to: x2 }, Axiom::ObjectPropertyAssertion { ope: y0, from: y1, to: y2 }) => same_ope(x0, y0) && same_individual(x1, y1) && same_individual(x2, y2),
        (Axiom::NegativeObjectPropertyAssertion { ope: x0, from: x1, to: x2 }, Axiom::NegativeObjectPropertyAssertion { ope: y0, from: y1, to: y2 }) => same_ope(x0, y0) && same_individual(x1, y1) && same_individual(x2, y2),
        (Axiom::DataPropertyAssertion { dp: x0, from: x1, to: x2 }, Axiom::DataPropertyAssertion { dp: y0, from: y1, to: y2 }) => same_iri(x0, y0) && same_individual(x1, y1) && same_literal(x2, y2),
        (Axiom::NegativeDataPropertyAssertion { dp: x0, from: x1, to: x2 }, Axiom::NegativeDataPropertyAssertion { dp: y0, from: y1, to: y2 }) => same_iri(x0, y0) && same_individual(x1, y1) && same_literal(x2, y2),
        (Axiom::AnnotationAssertion { subject: x0, ann: x1 }, Axiom::AnnotationAssertion { subject: y0, ann: y1 }) => same_annotation_subject(x0, y0) && same_annotation(x1, y1),
        (Axiom::SubAnnotationPropertyOf { sub: x0, sup: x1 }, Axiom::SubAnnotationPropertyOf { sub: y0, sup: y1 }) => same_iri(x0, y0) && same_iri(x1, y1),
        (Axiom::AnnotationPropertyDomain { ap: x0, iri: x1 }, Axiom::AnnotationPropertyDomain { ap: y0, iri: y1 }) => same_iri(x0, y0) && same_iri(x1, y1),
        (Axiom::AnnotationPropertyRange { ap: x0, iri: x1 }, Axiom::AnnotationPropertyRange { ap: y0, iri: y1 }) => same_iri(x0, y0) && same_iri(x1, y1),
        _ => false,
    }
}

/// Whether two values are the same (see [`AnnotatedAxiom`]).
pub fn same_annotated_axiom(a: &AnnotatedAxiom, b: &AnnotatedAxiom) -> (r: bool)
    ensures
        r == (a@ == b@),
{
    same_axiom(&a.ax, &b.ax) && same_annotation_vec(&a.ann, &b.ann)
}

} // verus!
