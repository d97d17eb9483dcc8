//! The functional-syntax text of each element of the model, as the
//! writer produces it.
use vstd::prelude::*;
use crate::model::{
    Facet, SpecAnnotatedAxiom, SpecAnnotation, SpecAnnotationSubject, SpecAnnotationValue, SpecAxiom,
    SpecClassExpression, SpecDataRange, SpecFacetRestriction, SpecIndividual, SpecLiteral,
    SpecObjectPropertyExpression, SpecOntology, SpecPropertyExpression,
    SpecSubObjectPropertyExpression,
};
use crate::prefixes::{SpecPrefixes, shrink};
use crate::text::{quoted, decimal};
use crate::vocab::facet_iri_text;
use crate::sets::annotation_set;

verus! {

/// Items separated by single spaces.
pub open spec fn join(items: Seq<Seq<char>>) -> Seq<char>
    decreases items.len(),
{
    if items.len() == 0 {
        Seq::empty()
    } else if items.len() == 1 {
        items[0]
    } else {
        join(items.drop_last()) + seq![' '] + items.last()
    }
}

/// Joining one more item adds a space and the item.
pub proof fn lemma_join_step(items: Seq<Seq<char>>, i: int)
    requires
        0 <= i < items.len(),
    ensures
        join(items.take(i + 1)) == if i == 0 {
            items[0]
        } else {
            join(items.take(i)) + seq![' '] + items[i]
        },
{
    assert(items.take(i + 1).drop_last() =~= items.take(i));
}

/// Writing one more data range of a list adds a space and the range.
pub proof fn lemma_dr_list_step(v: Seq<SpecDataRange>, i: int, px: Option<SpecPrefixes>)
    requires
        0 <= i < v.len(),
    ensures
        w_dr_list(v.take(i + 1), px) == if i == 0 {
            w_dr(v[0], px)
        } else {
            w_dr_list(v.take(i), px) + seq![' '] + w_dr(v[i], px)
        },
{
    assert(v.take(i + 1).drop_last() =~= v.take(i));
}

/// Writing one more class expression of a list adds a space and the class
/// expression.
pub proof fn lemma_ce_list_step(v: Seq<SpecClassExpression>, i: int, px: Option<SpecPrefixes>)
    requires
        0 <= i < v.len(),
    ensures
        w_ce_list(v.take(i + 1), px) == if i == 0 {
            w_ce(v[0], px)
        } else {
            w_ce_list(v.take(i), px) + seq![' '] + w_ce(v[i], px)
        },
{
    assert(v.take(i + 1).drop_last() =~= v.take(i));
}

/// An IRI: its CURIE when the prefix mapping can abbreviate it, otherwise
/// the full IRI in angle brackets.
pub open spec fn w_iri(iri: Seq<char>, px: Option<SpecPrefixes>) -> Seq<char> {
    match px {
        Some(p) => match shrink(p, iri) {
            Some(c) => c,
            None => seq!['<'] + iri + seq!['>'],
        },
        None => seq!['<'] + iri + seq!['>'],
    }
}

/// A blank node: `_:` and its node identifier.
pub open spec fn w_node_id(id: Seq<char>) -> Seq<char> {
    "_:"@ + id
}

/// An individual: its IRI, or its node identifier when it is a blank node.
pub open spec fn w_individual(i: SpecIndividual, px: Option<SpecPrefixes>) -> Seq<char> {
    match i {
        SpecIndividual::Named(iri) => w_iri(iri, px),
        SpecIndividual::Anonymous(id) => w_node_id(id),
    }
}

pub open spec fn w_literal(l: SpecLiteral, px: Option<SpecPrefixes>) -> Seq<char> {
    match l {
        SpecLiteral::Simple { literal } => quoted(literal),
        SpecLiteral::Language { literal, lang } => quoted(literal) + seq!['@'] + lang,
        SpecLiteral::Datatype { literal, datatype_iri } => quoted(literal) + "^^"@ + w_iri(
            datatype_iri,
            px,
        ),
    }
}

/// A facet: its IRI, in angle brackets.
pub open spec fn w_facet(f: Facet) -> Seq<char> {
    seq!['<'] + facet_iri_text(f) + seq!['>']
}

pub open spec fn w_facet_restriction(r: SpecFacetRestriction, px: Option<SpecPrefixes>) -> Seq<
    char,
> {
    w_facet(r.f) + seq![' '] + w_literal(r.l, px)
}

pub open spec fn w_ope(o: SpecObjectPropertyExpression, px: Option<SpecPrefixes>) -> Seq<char> {
    match o {
        SpecObjectPropertyExpression::ObjectProperty(i) => w_iri(i, px),
        SpecObjectPropertyExpression::InverseObjectProperty(i) => "ObjectInverseOf("@ + w_iri(i, px)
            + seq![')'],
    }
}

pub open spec fn w_opes(v: Seq<SpecObjectPropertyExpression>, px: Option<SpecPrefixes>) -> Seq<
    char,
> {
    join(v.map_values(|o: SpecObjectPropertyExpression| w_ope(o, px)))
}

pub open spec fn w_iris(v: Seq<Seq<char>>, px: Option<SpecPrefixes>) -> Seq<char> {
    join(v.map_values(|i: Seq<char>| w_iri(i, px)))
}

pub open spec fn w_individuals(v: Seq<SpecIndividual>, px: Option<SpecPrefixes>) -> Seq<char> {
    join(v.map_values(|i: SpecIndividual| w_individual(i, px)))
}

pub open spec fn w_literals(v: Seq<SpecLiteral>, px: Option<SpecPrefixes>) -> Seq<char> {
    join(v.map_values(|l: SpecLiteral| w_literal(l, px)))
}

pub open spec fn w_facet_restrictions(v: Seq<SpecFacetRestriction>, px: Option<SpecPrefixes>) -> Seq<
    char,
> {
    join(v.map_values(|r: SpecFacetRestriction| w_facet_restriction(r, px)))
}

pub open spec fn w_sub_ope(s: SpecSubObjectPropertyExpression, px: Option<SpecPrefixes>) -> Seq<
    char,
> {
    match s {
        SpecSubObjectPropertyExpression::ObjectPropertyChain(v) => "ObjectPropertyChain("@ + w_opes(
            v,
            px,
        ) + seq![')'],
        SpecSubObjectPropertyExpression::ObjectPropertyExpression(o) => w_ope(o, px),
    }
}

pub open spec fn w_dr(d: SpecDataRange, px: Option<SpecPrefixes>) -> Seq<char>
    decreases d,
{
    match d {
        SpecDataRange::Datatype(i) => w_iri(i, px),
        SpecDataRange::DataIntersectionOf(v) => "DataIntersectionOf("@ + w_dr_list(v, px) + seq![')'],
        SpecDataRange::DataUnionOf(v) => "DataUnionOf("@ + w_dr_list(v, px) + seq![')'],
        SpecDataRange::DataComplementOf(b) => "DataComplementOf("@ + w_dr(*b, px) + seq![')'],
        SpecDataRange::DataOneOf(v) => "DataOneOf("@ + w_literals(v, px) + seq![')'],
        SpecDataRange::DatatypeRestriction(i, v) => "DatatypeRestriction("@ + w_iri(i, px) + seq![' ']
            + w_facet_restrictions(v, px) + seq![')'],
    }
}

pub open spec fn w_dr_list(v: Seq<SpecDataRange>, px: Option<SpecPrefixes>) -> Seq<char>
    decreases v,
{
    if v.len() == 0 {
        Seq::empty()
    } else if v.len() == 1 {
        w_dr(v[0], px)
    } else {
        w_dr_list(v.drop_last(), px) + seq![' '] + w_dr(v.last(), px)
    }
}

/// `name(a b)`: the name of a construct and its two parts.
pub open spec fn w_pair(name: Seq<char>, a: Seq<char>, b: Seq<char>) -> Seq<char> {
    name + seq!['('] + a + seq![' '] + b + seq![')']
}

/// `name(n a b)`: a cardinality restriction.
pub open spec fn w_card(name: Seq<char>, n: u32, a: Seq<char>, b: Seq<char>) -> Seq<char> {
    name + seq!['('] + decimal(n as nat) + seq![' '] + a + seq![' '] + b + seq![')']
}

pub open spec fn w_ce(c: SpecClassExpression, px: Option<SpecPrefixes>) -> Seq<char>
    decreases c,
{
    match c {
        SpecClassExpression::Class(i) => w_iri(i, px),
        SpecClassExpression::ObjectIntersectionOf(v) => "ObjectIntersectionOf("@ + w_ce_list(v, px)
            + seq![')'],
        SpecClassExpression::ObjectUnionOf(v) => "ObjectUnionOf("@ + w_ce_list(v, px) + seq![')'],
        SpecClassExpression::ObjectComplementOf(b) => "ObjectComplementOf("@ + w_ce(*b, px) + seq![')'],
        SpecClassExpression::ObjectOneOf(v) => "ObjectOneOf("@ + w_individuals(v, px) + seq![')'],
        SpecClassExpression::ObjectSomeValuesFrom { ope, bce } => w_pair(
            "ObjectSomeValuesFrom"@,
            w_ope(ope, px),
            w_ce(*bce, px),
        ),
        SpecClassExpression::ObjectAllValuesFrom { ope, bce } => w_pair(
            "ObjectAllValuesFrom"@,
            w_ope(ope, px),
            w_ce(*bce, px),
        ),
        SpecClassExpression::ObjectHasValue { ope, i } => w_pair(
            "ObjectHasValue"@,
            w_ope(ope, px),
            w_individual(i, px),
        ),
        SpecClassExpression::ObjectHasSelf(ope) => "ObjectHasSelf("@ + w_ope(ope, px) + seq![')'],
        SpecClassExpression::ObjectMinCardinality { n, ope, bce } => w_card(
            "ObjectMinCardinality"@,
            n,
            w_ope(ope, px),
            w_ce(*bce, px),
        ),
        SpecClassExpression::ObjectMaxCardinality { n, ope, bce } => w_card(
            "ObjectMaxCardinality"@,
            n,
            w_ope(ope, px),
            w_ce(*bce, px),
        ),
        SpecClassExpression::ObjectExactCardinality { n, ope, bce } => w_card(
            "ObjectExactCardinality"@,
            n,
            w_ope(ope, px),
            w_ce(*bce, px),
        ),
        SpecClassExpression::DataSomeValuesFrom { dp, dr } => w_pair(
            "DataSomeValuesFrom"@,
            w_iri(dp, px),
            w_dr(dr, px),
        ),
        SpecClassExpression::DataAllValuesFrom { dp, dr } => w_pair(
            "DataAllValuesFrom"@,
            w_iri(dp, px),
            w_dr(dr, px),
        ),
        SpecClassExpression::DataHasValue { dp, l } => w_pair(
            "DataHasValue"@,
            w_iri(dp, px),
            w_literal(l, px),
        ),
        SpecClassExpression::DataMinCardinality { n, dp, dr } => w_card(
            "DataMinCardinality"@,
            n,
            w_iri(dp, px),
            w_dr(dr, px),
        ),
        SpecClassExpression::DataMaxCardinality { n, dp, dr } => w_card(
            "DataMaxCardinality"@,
            n,
            w_iri(dp, px),
            w_dr(dr, px),
        ),
        SpecClassExpression::DataExactCardinality { n, dp, dr } => w_card(
            "DataExactCardinality"@,
            n,
            w_iri(dp, px),
            w_dr(dr, px),
        ),
    }
}

pub open spec fn w_ce_list(v: Seq<SpecClassExpression>, px: Option<SpecPrefixes>) -> Seq<char>
    decreases v,
{
    if v.len() == 0 {
        Seq::empty()
    } else if v.len() == 1 {
        w_ce(v[0], px)
    } else {
        w_ce_list(v.drop_last(), px) + seq![' '] + w_ce(v.last(), px)
    }
}

pub open spec fn w_annotation_value(v: SpecAnnotationValue, px: Option<SpecPrefixes>) -> Seq<char> {
    match v {
        SpecAnnotationValue::Literal(l) => w_literal(l, px),
        SpecAnnotationValue::IRI(i) => w_iri(i, px),
    }
}

pub open spec fn w_annotation_subject(s: SpecAnnotationSubject, px: Option<SpecPrefixes>) -> Seq<
    char,
> {
    match s {
        SpecAnnotationSubject::IRI(i) => w_iri(i, px),
        SpecAnnotationSubject::AnonymousIndividual(id) => w_node_id(id),
    }
}

pub open spec fn w_annotation(a: SpecAnnotation, px: Option<SpecPrefixes>) -> Seq<char> {
    w_pair("Annotation"@, w_iri(a.ap, px), w_annotation_value(a.av, px))
}

pub open spec fn w_annotations(v: Seq<SpecAnnotation>, px: Option<SpecPrefixes>) -> Seq<char> {
    join(v.map_values(|a: SpecAnnotation| w_annotation(a, px)))
}

/// `name(annotations body)`; the annotations and the space after them are
/// written only when a set of annotations is given (possibly empty).
pub open spec fn w_form(
    name: Seq<char>,
    ann: Option<Seq<SpecAnnotation>>,
    px: Option<SpecPrefixes>,
    body: Seq<char>,
) -> Seq<char> {
    name + seq!['('] + match ann {
        Some(v) => w_annotations(v, px) + seq![' '],
        None => Seq::empty(),
    } + body + seq![')']
}

/// `name(annotations body)` for the kinds of axiom that are written with no
/// space before their body when they have no annotation: the annotations and
/// the space after them are written only when there is at least one.
pub open spec fn w_lean_form(
    name: Seq<char>,
    ann: Option<Seq<SpecAnnotation>>,
    px: Option<SpecPrefixes>,
    body: Seq<char>,
) -> Seq<char> {
    name + seq!['('] + match ann {
        Some(v) => if v.len() > 0 {
            w_annotations(v, px) + seq![' ']
        } else {
            Seq::empty()
        },
        None => Seq::empty(),
    } + body + seq![')']
}

/// `Declaration(annotations kind(iri))`.
pub open spec fn w_declaration(
    kind: Seq<char>,
    iri: Seq<char>,
    ann: Option<Seq<SpecAnnotation>>,
    px: Option<SpecPrefixes>,
) -> Seq<char> {
    w_lean_form("Declaration"@, ann, px, kind + seq!['('] + w_iri(iri, px) + seq![')'])
}

/// The written parts of the object property expressions (`objects`) or of
/// the data properties (otherwise) of a key, in order.
pub open spec fn key_parts(v: Seq<SpecPropertyExpression>, objects: bool, px: Option<SpecPrefixes>) -> Seq<
    Seq<char>,
>
    decreases v.len(),
{
    if v.len() == 0 {
        Seq::empty()
    } else {
        let front = key_parts(v.drop_last(), objects, px);
        match v.last() {
            SpecPropertyExpression::ObjectPropertyExpression(o) => if objects {
                front.push(w_ope(o, px))
            } else {
                front
            },
            SpecPropertyExpression::DataProperty(d) => if objects {
                front
            } else {
                front.push(w_iri(d, px))
            },
            SpecPropertyExpression::AnnotationProperty(_) => front,
        }
    }
}

/// `HasKey(annotations CE (OPE*) (DP*) )`.
pub open spec fn w_has_key(
    ce: SpecClassExpression,
    vpe: Seq<SpecPropertyExpression>,
    ann: Option<Seq<SpecAnnotation>>,
    px: Option<SpecPrefixes>,
) -> Seq<char> {
    w_lean_form(
        "HasKey"@,
        ann,
        px,
        w_ce(ce, px) + " ("@ + join(key_parts(vpe, true, px)) + ") ("@ + join(
            key_parts(vpe, false, px),
        ) + ") "@,
    )
}

/// An axiom, with the given annotations when it is written as part of an
/// annotated axiom.
pub open spec fn w_axiom(
    a: SpecAxiom,
    ann: Option<Seq<SpecAnnotation>>,
    px: Option<SpecPrefixes>,
) -> Seq<char> {
    match a {
        SpecAxiom::OntologyAnnotation(an) => w_annotation(an, px),
        SpecAxiom::Import(i) => w_form("Import"@, ann, px, w_iri(i, px)),
        SpecAxiom::DeclareClass(i) => w_declaration("Class"@, i, ann, px),
        SpecAxiom::DeclareObjectProperty(i) => w_declaration("ObjectProperty"@, i, ann, px),
        SpecAxiom::DeclareAnnotationProperty(i) => w_declaration("AnnotationProperty"@, i, ann, px),
        SpecAxiom::DeclareDataProperty(i) => w_declaration("DataProperty"@, i, ann, px),
        SpecAxiom::DeclareNamedIndividual(i) => w_declaration("NamedIndividual"@, i, ann, px),
        SpecAxiom::DeclareDatatype(i) => w_declaration("Datatype"@, i, ann, px),
        SpecAxiom::SubClassOf { sub, sup } => w_form(
            "SubClassOf"@,
            ann,
            px,
            w_ce(sub, px) + seq![' '] + w_ce(sup, px),
        ),
        SpecAxiom::EquivalentClasses(v) => w_form("EquivalentClasses"@, ann, px, w_ce_list(v, px)),
        SpecAxiom::DisjointClasses(v) => w_form("DisjointClasses"@, ann, px, w_ce_list(v, px)),
        SpecAxiom::DisjointUnion(c, v) => w_form(
            "DisjointUnion"@,
            ann,
            px,
            w_iri(c, px) + seq![' '] + w_ce_list(v, px),
        ),
        SpecAxiom::SubObjectPropertyOf { sub, sup } => w_form(
            "SubObjectPropertyOf"@,
            ann,
            px,
            w_sub_ope(sub, px) + seq![' '] + w_ope(sup, px),
        ),
        SpecAxiom::EquivalentObjectProperties(v) => w_form(
            "EquivalentObjectProperties"@,
            ann,
            px,
            w_opes(v, px),
        ),
        SpecAxiom::DisjointObjectProperties(v) => w_form(
            "DisjointObjectProperties"@,
            ann,
            px,
            w_opes(v, px),
        ),
        SpecAxiom::InverseObjectProperties(a, b) => w_form(
            "InverseObjectProperties"@,
            ann,
            px,
            w_iri(a, px) + seq![' '] + w_iri(b, px),
        ),
        SpecAxiom::ObjectPropertyDomain { ope, ce } => w_form(
            "ObjectPropertyDomain"@,
            ann,
            px,
            w_ope(ope, px) + seq![' '] + w_ce(ce, px),
        ),
        SpecAxiom::ObjectPropertyRange { ope, ce } => w_form(
            "ObjectPropertyRange"@,
            ann,
            px,
            w_ope(ope, px) + seq![' '] + w_ce(ce, px),
        ),
        SpecAxiom::FunctionalObjectProperty(o) => w_form(
            "FunctionalObjectProperty"@,
            ann,
            px,
            w_ope(o, px),
        ),
        SpecAxiom::InverseFunctionalObjectProperty(o) => w_form(
            "InverseFunctionalObjectProperty"@,
            ann,
            px,
            w_ope(o, px),
        ),
        SpecAxiom::ReflexiveObjectProperty(o) => w_form(
            "ReflexiveObjectProperty"@,
            ann,
            px,
            w_ope(o, px),
        ),
        SpecAxiom::IrreflexiveObjectProperty(o) => w_form(
            "IrreflexiveObjectProperty"@,
            ann,
            px,
            w_ope(o, px),
        ),
        SpecAxiom::SymmetricObjectProperty(o) => w_form(
            "SymmetricObjectProperty"@,
            ann,
            px,
            w_ope(o, px),
        ),
        SpecAxiom::AsymmetricObjectProperty(o) => w_form(
            "AsymmetricObjectProperty"@,
            ann,
            px,
            w_ope(o, px),
        ),
        SpecAxiom::TransitiveObjectProperty(o) => w_form(
            "TransitiveObjectProperty"@,
            ann,
            px,
            w_ope(o, px),
        ),
        SpecAxiom::SubDataPropertyOf { sub, sup } => w_form(
            "SubDataPropertyOf"@,
            ann,
            px,
            w_iri(sub, px) + seq![' '] + w_iri(sup, px),
        ),
        SpecAxiom::EquivalentDataProperties(v) => w_form(
            "EquivalentDataProperties"@,
            ann,
            px,
            w_iris(v, px),
        ),
        SpecAxiom::DisjointDataProperties(v) => w_form(
            "DisjointDataProperties"@,
            ann,
            px,
            w_iris(v, px),
        ),
        SpecAxiom::DataPropertyDomain { dp, ce } => w_form(
            "DataPropertyDomain"@,
            ann,
            px,
            w_iri(dp, px) + seq![' '] + w_ce(ce, px),
        ),
        SpecAxiom::DataPropertyRange { dp, dr } => w_form(
            "DataPropertyRange"@,
            ann,
            px,
            w_iri(dp, px) + seq![' '] + w_dr(dr, px),
        ),
        SpecAxiom::FunctionalDataProperty(d) => w_form(
            "FunctionalDataProperty"@,
            ann,
            px,
            w_iri(d, px),
        ),
        SpecAxiom::DatatypeDefinition { kind, range } => w_form(
            "DatatypeDefinition"@,
            ann,
            px,
            w_iri(kind, px) + seq![' '] + w_dr(range, px),
        ),
        SpecAxiom::HasKey { ce, vpe } => w_has_key(ce, vpe, ann, px),
        SpecAxiom::SameIndividual(v) => w_form("SameIndividual"@, ann, px, w_individuals(v, px)),
        SpecAxiom::DifferentIndividuals(v) => w_form(
            "DifferentIndividuals"@,
            ann,
            px,
            w_individuals(v, px),
        ),
        SpecAxiom::ClassAssertion { ce, i } => w_form(
            "ClassAssertion"@,
            ann,
            px,
            w_ce(ce, px) + seq![' '] + w_individual(i, px),
        ),
        SpecAxiom::ObjectPropertyAssertion { ope, from, to } => w_form(
            "ObjectPropertyAssertion"@,
            ann,
            px,
            w_ope(ope, px) + seq![' '] + w_individual(from, px) + seq![' '] + w_individual(to, px),
        ),
        SpecAxiom::NegativeObjectPropertyAssertion { ope, from, to } => w_form(
            "NegativeObjectPropertyAssertion"@,
            ann,
            px,
            w_ope(ope, px) + seq![' '] + w_individual(from, px) + seq![' '] + w_individual(to, px),
        ),
        SpecAxiom::DataPropertyAssertion { dp, from, to } => w_form(
            "DataPropertyAssertion"@,
            ann,
            px,
            w_iri(dp, px) + seq![' '] + w_individual(from, px) + seq![' '] + w_literal(to, px),
        ),
        SpecAxiom::NegativeDataPropertyAssertion { dp, from, to } => w_form(
            "NegativeDataPropertyAssertion"@,
            ann,
            px,
            w_iri(dp, px) + seq![' '] + w_individual(from, px) + seq![' '] + w_literal(to, px),
        ),
        SpecAxiom::AnnotationAssertion { subject, ann: an } => w_lean_form(
            "AnnotationAssertion"@,
            ann,
            px,
            w_iri(an.ap, px) + seq![' '] + w_annotation_subject(subject, px) + seq![' ']
                + w_annotation_value(an.av, px),
        ),
        SpecAxiom::SubAnnotationPropertyOf { sub, sup } => w_form(
            "SubAnnotationPropertyOf"@,
            ann,
            px,
            w_iri(sub, px) + seq![' '] + w_iri(sup, px),
        ),
        SpecAxiom::AnnotationPropertyDomain { ap, iri } => w_form(
            "AnnotationPropertyDomain"@,
            ann,
            px,
            w_iri(ap, px) + seq![' '] + w_iri(iri, px),
        ),
        SpecAxiom::AnnotationPropertyRange { ap, iri } => w_form(
            "AnnotationPropertyRange"@,
            ann,
            px,
            w_iri(ap, px) + seq![' '] + w_iri(iri, px),
        ),
    }
}

/// An annotated axiom: its axiom, with its annotations as a set, in the
/// order of [`crate::sets::annotation_order`].
pub open spec fn w_annotated_axiom(a: SpecAnnotatedAxiom, px: Option<SpecPrefixes>) -> Seq<char> {
    w_axiom(a.ax, Some(annotation_set(a.ann)), px)
}

/// The imports of an ontology, one per line, in order.
pub open spec fn w_imports(v: Seq<SpecAnnotatedAxiom>, px: Option<SpecPrefixes>) -> Seq<char>
    decreases v.len(),
{
    if v.len() == 0 {
        Seq::empty()
    } else {
        w_imports(v.drop_last(), px) + match v.last().ax {
            SpecAxiom::Import(i) => "Import("@ + w_iri(i, px) + ")\n"@,
            _ => Seq::empty(),
        }
    }
}

/// The ontology annotations of an ontology, one per line, in order.
pub open spec fn w_ontology_annotations(v: Seq<SpecAnnotatedAxiom>, px: Option<SpecPrefixes>) -> Seq<
    char,
>
    decreases v.len(),
{
    if v.len() == 0 {
        Seq::empty()
    } else {
        w_ontology_annotations(v.drop_last(), px) + match v.last().ax {
            SpecAxiom::OntologyAnnotation(a) => w_annotation(a, px) + seq!['\n'],
            _ => Seq::empty(),
        }
    }
}

/// The other axioms of an ontology, one per line, in order.
pub open spec fn w_other_axioms(v: Seq<SpecAnnotatedAxiom>, px: Option<SpecPrefixes>) -> Seq<char>
    decreases v.len(),
{
    if v.len() == 0 {
        Seq::empty()
    } else {
        w_other_axioms(v.drop_last(), px) + match v.last().ax {
            SpecAxiom::Import(_) => Seq::empty(),
            SpecAxiom::OntologyAnnotation(_) => Seq::empty(),
            _ => w_annotated_axiom(v.last(), px) + seq!['\n'],
        }
    }
}

/// The ontology IRI and version IRI lines.
pub open spec fn w_ontology_id(
    iri: Option<Seq<char>>,
    viri: Option<Seq<char>>,
    px: Option<SpecPrefixes>,
) -> Seq<char> {
    match iri {
        Some(i) => w_iri(i, px) + seq!['\n'] + match viri {
            Some(v) => seq![' '] + w_iri(v, px) + seq!['\n'],
            None => Seq::empty(),
        },
        None => Seq::empty(),
    }
}

/// An ontology: its identity, then its imports, its ontology annotations and
/// its other axioms.
pub open spec fn w_ontology(o: SpecOntology, px: Option<SpecPrefixes>) -> Seq<char> {
    "Ontology("@ + w_ontology_id(o.iri, o.viri, px) + w_imports(o.axioms, px)
        + w_ontology_annotations(o.axioms, px) + w_other_axioms(o.axioms, px) + seq![')']
}

/// The prefix declarations of a mapping, one per line; the default prefix is
/// not among them.
pub open spec fn w_prefixes(e: Seq<(Seq<char>, Seq<char>)>) -> Seq<char>
    decreases e.len(),
{
    if e.len() == 0 {
        Seq::empty()
    } else {
        w_prefixes(e.drop_last()) + "Prefix("@ + e.last().0 + ":=<"@ + e.last().1 + ">)\n"@
    }
}

/// A whole document: the prefix declarations, when a mapping is given, then
/// the ontology written with that mapping.
pub open spec fn w_document(o: SpecOntology, px: Option<SpecPrefixes>) -> Seq<char> {
    let head = match px {
        Some(p) => w_prefixes(p.entries),
        None => Seq::empty(),
    };
    head + w_ontology(o, px)
}

} // verus!
