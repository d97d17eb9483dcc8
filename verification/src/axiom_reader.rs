//! Reading axioms: the parts of each kind of axiom, after its annotations
//! (see [`crate::grammar::axiom_parts`]).
use vstd::prelude::*;
use crate::context::Context;
use crate::sets::set_of_annotations;
use crate::grammar::{
    axiom_parts, ce_at_least_two, r_axiom, lift_read, r_annotation_subject, r_annotation_value, r_ce, r_dr,
    r_individual, r_iri, r_literal, r_ope, r_sub_ope, at_least, then,
};
use crate::lexical::{letters_end, word};
use crate::model::{
    AnnotatedAxiom, Annotation, Axiom, ObjectPropertyExpression, SpecAnnotationSubject, SpecAnnotationValue, SpecAxiom,
    SpecAnnotation, SpecClassExpression, SpecDataRange, SpecIndividual, SpecLiteral,
    SpecObjectPropertyExpression, SpecSubObjectPropertyExpression,
};
use crate::parser::{
    Reading, close_paren, open_paren, read_annotation_seq, read_annotation_subject, read_annotation_value, read_ce, read_ce_seq, read_dr, read_entity,
    read_has_key_parts, read_individual, read_individuals, read_iri, read_iris, read_literal, read_ope,
    read_opes, read_sub_ope, read_view,
};
use crate::scan::{find_letters_end, matches_word, skip_ws};

verus! {

/// The parts of `SubClassOf` (see [`axiom_parts`]).
fn read_sub_class_of_parts(s: &Vec<char>, u: usize, ctx: &Context) -> (r: Reading<Axiom>)
    requires
        u <= s.len(),
    ensures
        read_view(r) == lift_read(
            then(s@, r_ce(s@, u as int, ctx@), |t: int| r_ce(s@, t, ctx@)),
            |x: (SpecClassExpression, SpecClassExpression)| SpecAxiom::SubClassOf { sub: x.0, sup: x.1 },
        ),
        r matches Some((_, e)) ==> u <= e <= s.len(),
{
    let (v1, e1) = match read_ce(s, u, ctx) {
        None => return None,
        Some(x) => x,
    };
    let (v2, e2) = match read_ce(s, skip_ws(s, e1), ctx) {
        None => return None,
        Some(x) => x,
    };
    let v = match v1 {
        Err(x) => Err(x),
        Ok(a1) => match v2 {
            Err(x) => Err(x),
            Ok(a2) => Ok(Axiom::SubClassOf { sub: a1, sup: a2 }),
        },
    };
    Some((v, e2))
}

/// The parts of `EquivalentClasses` (see [`axiom_parts`]).
fn read_equivalent_classes_parts(s: &Vec<char>, u: usize, ctx: &Context) -> (r: Reading<Axiom>)
    requires
        u <= s.len(),
    ensures
        read_view(r) == lift_read(
            ce_at_least_two(s@, u as int, ctx@),
            |x: Seq<SpecClassExpression>| SpecAxiom::EquivalentClasses(x),
        ),
        r matches Some((_, e)) ==> u <= e <= s.len(),
{
    let (v1, n1, e1) = read_ce_seq(s, u, ctx);
    if n1 < 2 {
        return None;
    }
    let v = match v1 {
        Err(x) => Err(x),
        Ok(a1) => Ok(Axiom::EquivalentClasses(a1)),
    };
    Some((v, e1))
}

/// The parts of `DisjointClasses` (see [`axiom_parts`]).
fn read_disjoint_classes_parts(s: &Vec<char>, u: usize, ctx: &Context) -> (r: Reading<Axiom>)
    requires
        u <= s.len(),
    ensures
        read_view(r) == lift_read(
            ce_at_least_two(s@, u as int, ctx@),
            |x: Seq<SpecClassExpression>| SpecAxiom::DisjointClasses(x),
        ),
        r matches Some((_, e)) ==> u <= e <= s.len(),
{
    let (v1, n1, e1) = read_ce_seq(s, u, ctx);
    if n1 < 2 {
        return None;
    }
    let v = match v1 {
        Err(x) => Err(x),
        Ok(a1) => Ok(Axiom::DisjointClasses(a1)),
    };
    Some((v, e1))
}

/// The parts of `DisjointUnion` (see [`axiom_parts`]).
fn read_disjoint_union_parts(s: &Vec<char>, u: usize, ctx: &Context) -> (r: Reading<Axiom>)
    requires
        u <= s.len(),
    ensures
        read_view(r) == lift_read(
            then(s@, r_iri(s@, u as int, ctx@), |t: int| ce_at_least_two(s@, t, ctx@)),
            |x: (Seq<char>, Seq<SpecClassExpression>)| SpecAxiom::DisjointUnion(x.0, x.1),
        ),
        r matches Some((_, e)) ==> u <= e <= s.len(),
{
    let (v1, e1) = match read_iri(s, u, ctx) {
        None => return None,
        Some(x) => x,
    };
    let (v2, n2, e2) = read_ce_seq(s, skip_ws(s, e1), ctx);
    if n2 < 2 {
        return None;
    }
    let v = match v1 {
        Err(x) => Err(x),
        Ok(a1) => match v2 {
            Err(x) => Err(x),
            Ok(a2) => Ok(Axiom::DisjointUnion(a1, a2)),
        },
    };
    Some((v, e2))
}

/// The parts of `SubObjectPropertyOf` (see [`axiom_parts`]).
fn read_sub_object_property_of_parts(s: &Vec<char>, u: usize, ctx: &Context) -> (r: Reading<Axiom>)
    requires
        u <= s.len(),
    ensures
        read_view(r) == lift_read(
            then(s@, r_sub_ope(s@, u as int, ctx@), |t: int| r_ope(s@, t, ctx@)),
            |x: (SpecSubObjectPropertyExpression, SpecObjectPropertyExpression)| SpecAxiom::SubObjectPropertyOf { sub: x.0, sup: x.1 },
        ),
        r matches Some((_, e)) ==> u <= e <= s.len(),
{
    let (v1, e1) = match read_sub_ope(s, u, ctx) {
        None => return None,
        Some(x) => x,
    };
    let (v2, e2) = match read_ope(s, skip_ws(s, e1), ctx) {
        None => return None,
        Some(x) => x,
    };
    let v = match v1 {
        Err(x) => Err(x),
        Ok(a1) => match v2 {
            Err(x) => Err(x),
            Ok(a2) => Ok(Axiom::SubObjectPropertyOf { sub: a1, sup: a2 }),
        },
    };
    Some((v, e2))
}

/// The parts of `EquivalentObjectProperties` (see [`axiom_parts`]).
fn read_equivalent_object_properties_parts(s: &Vec<char>, u: usize, ctx: &Context) -> (r: Reading<Axiom>)
    requires
        u <= s.len(),
    ensures
        read_view(r) == lift_read(
            at_least(s@, u as int, |t: int| r_ope(s@, t, ctx@), 2),
            |x: Seq<SpecObjectPropertyExpression>| SpecAxiom::EquivalentObjectProperties(x),
        ),
        r matches Some((_, e)) ==> u <= e <= s.len(),
{
    let (v1, n1, e1) = read_opes(s, u, ctx);
    if n1 < 2 {
        return None;
    }
    let v = match v1 {
        Err(x) => Err(x),
        Ok(a1) => Ok(Axiom::EquivalentObjectProperties(a1)),
    };
    Some((v, e1))
}

/// The parts of `DisjointObjectProperties` (see [`axiom_parts`]).
fn read_disjoint_object_properties_parts(s: &Vec<char>, u: usize, ctx: &Context) -> (r: Reading<Axiom>)
    requires
        u <= s.len(),
    ensures
        read_view(r) == lift_read(
            at_least(s@, u as int, |t: int| r_ope(s@, t, ctx@), 2),
            |x: Seq<SpecObjectPropertyExpression>| SpecAxiom::DisjointObjectProperties(x),
        ),
        r matches Some((_, e)) ==> u <= e <= s.len(),
{
    let (v1, n1, e1) = read_opes(s, u, ctx);
    if n1 < 2 {
        return None;
    }
    let v = match v1 {
        Err(x) => Err(x),
        Ok(a1) => Ok(Axiom::DisjointObjectProperties(a1)),
    };
    Some((v, e1))
}

/// The parts of `InverseObjectProperties` (see [`axiom_parts`]).
fn read_inverse_object_properties_parts(s: &Vec<char>, u: usize, ctx: &Context) -> (r: Reading<Axiom>)
    requires
        u <= s.len(),
    ensures
        read_view(r) == lift_read(
            then(s@, r_iri(s@, u as int, ctx@), |t: int| r_iri(s@, t, ctx@)),
            |x: (Seq<char>, Seq<char>)| SpecAxiom::InverseObjectProperties(x.0, x.1),
        ),
        r matches Some((_, e)) ==> u <= e <= s.len(),
{
    let (v1, e1) = match read_iri(s, u, ctx) {
        None => return None,
        Some(x) => x,
    };
    let (v2, e2) = match read_iri(s, skip_ws(s, e1), ctx) {
        None => return None,
        Some(x) => x,
    };
    let v = match v1 {
        Err(x) => Err(x),
        Ok(a1) => match v2 {
            Err(x) => Err(x),
            Ok(a2) => Ok(Axiom::InverseObjectProperties(a1, a2)),
        },
    };
    Some((v, e2))
}

/// The parts of `ObjectPropertyDomain` (see [`axiom_parts`]).
fn read_object_property_domain_parts(s: &Vec<char>, u: usize, ctx: &Context) -> (r: Reading<Axiom>)
    requires
        u <= s.len(),
    ensures
        read_view(r) == lift_read(
            then(s@, r_ope(s@, u as int, ctx@), |t: int| r_ce(s@, t, ctx@)),
            |x: (SpecObjectPropertyExpression, SpecClassExpression)| SpecAxiom::ObjectPropertyDomain { ope: x.0, ce: x.1 },
        ),
        r matches Some((_, e)) ==> u <= e <= s.len(),
{
    let (v1, e1) = match read_ope(s, u, ctx) {
        None => return None,
        Some(x) => x,
    };
    let (v2, e2) = match read_ce(s, skip_ws(s, e1), ctx) {
        None => return None,
        Some(x) => x,
    };
    let v = match v1 {
        Err(x) => Err(x),
        Ok(a1) => match v2 {
            Err(x) => Err(x),
            Ok(a2) => Ok(Axiom::ObjectPropertyDomain { ope: a1, ce: a2 }),
        },
    };
    Some((v, e2))
}

/// The parts of `ObjectPropertyRange` (see [`axiom_parts`]).
fn read_object_property_range_parts(s: &Vec<char>, u: usize, ctx: &Context) -> (r: Reading<Axiom>)
    requires
        u <= s.len(),
    ensures
        read_view(r) == lift_read(
            then(s@, r_ope(s@, u as int, ctx@), |t: int| r_ce(s@, t, ctx@)),
            |x: (SpecObjectPropertyExpression, SpecClassExpression)| SpecAxiom::ObjectPropertyRange { ope: x.0, ce: x.1 },
        ),
        r matches Some((_, e)) ==> u <= e <= s.len(),
{
    let (v1, e1) = match read_ope(s, u, ctx) {
        None => return None,
        Some(x) => x,
    };
    let (v2, e2) = match read_ce(s, skip_ws(s, e1), ctx) {
        None => return None,
        Some(x) => x,
    };
    let v = match v1 {
        Err(x) => Err(x),
        Ok(a1) => match v2 {
            Err(x) => Err(x),
            Ok(a2) => Ok(Axiom::ObjectPropertyRange { ope: a1, ce: a2 }),
        },
    };
    Some((v, e2))
}

/// The parts of `FunctionalObjectProperty` (see [`axiom_parts`]).
fn read_functional_object_property_parts(s: &Vec<char>, u: usize, ctx: &Context) -> (r: Reading<Axiom>)
    requires
        u <= s.len(),
    ensures
        read_view(r) == lift_read(
            r_ope(s@, u as int, ctx@),
            |x: SpecObjectPropertyExpression| SpecAxiom::FunctionalObjectProperty(x),
        ),
        r matches Some((_, e)) ==> u <= e <= s.len(),
{
    let (v1, e1) = match read_ope(s, u, ctx) {
        None => return None,
        Some(x) => x,
    };
    let v = match v1 {
        Err(x) => Err(x),
        Ok(a1) => Ok(Axiom::FunctionalObjectProperty(a1)),
    };
    Some((v, e1))
}

/// The parts of `InverseFunctionalObjectProperty` (see [`axiom_parts`]).
fn read_inverse_functional_object_property_parts(s: &Vec<char>, u: usize, ctx: &Context) -> (r: Reading<Axiom>)
    requires
        u <= s.len(),
    ensures
        read_view(r) == lift_read(
            r_ope(s@, u as int, ctx@),
            |x: SpecObjectPropertyExpression| SpecAxiom::InverseFunctionalObjectProperty(x),
        ),
        r matches Some((_, e)) ==> u <= e <= s.len(),
{
    let (v1, e1) = match read_ope(s, u, ctx) {
        None => return None,
        Some(x) => x,
    };
    let v = match v1 {
        Err(x) => Err(x),
        Ok(a1) => Ok(Axiom::InverseFunctionalObjectProperty(a1)),
    };
    Some((v, e1))
}

/// The parts of `ReflexiveObjectProperty` (see [`axiom_parts`]).
fn read_reflexive_object_property_parts(s: &Vec<char>, u: usize, ctx: &Context) -> (r: Reading<Axiom>)
    requires
        u <= s.len(),
    ensures
        read_view(r) == lift_read(
            r_ope(s@, u as int, ctx@),
            |x: SpecObjectPropertyExpression| SpecAxiom::ReflexiveObjectProperty(x),
        ),
        r matches Some((_, e)) ==> u <= e <= s.len(),
{
    let (v1, e1) = match read_ope(s, u, ctx) {
        None => return None,
        Some(x) => x,
    };
    let v = match v1 {
        Err(x) => Err(x),
        Ok(a1) => Ok(Axiom::ReflexiveObjectProperty(a1)),
    };
    Some((v, e1))
}

/// The parts of `IrreflexiveObjectProperty` (see [`axiom_parts`]).
fn read_irreflexive_object_property_parts(s: &Vec<char>, u: usize, ctx: &Context) -> (r: Reading<Axiom>)
    requires
        u <= s.len(),
    ensures
        read_view(r) == lift_read(
            r_ope(s@, u as int, ctx@),
            |x: SpecObjectPropertyExpression| SpecAxiom::IrreflexiveObjectProperty(x),
        ),
        r matches Some((_, e)) ==> u <= e <= s.len(),
{
    let (v1, e1) = match read_ope(s, u, ctx) {
        None => return None,
        Some(x) => x,
    };
    let v = match v1 {
        Err(x) => Err(x),
        Ok(a1) => Ok(Axiom::IrreflexiveObjectProperty(a1)),
    };
    Some((v, e1))
}

/// The parts of `SymmetricObjectProperty` (see [`axiom_parts`]).
fn read_symmetric_object_property_parts(s: &Vec<char>, u: usize, ctx: &Context) -> (r: Reading<Axiom>)
    requires
        u <= s.len(),
    ensures
        read_view(r) == lift_read(
            r_ope(s@, u as int, ctx@),
            |x: SpecObjectPropertyExpression| SpecAxiom::SymmetricObjectProperty(x),
        ),
        r matches Some((_, e)) ==> u <= e <= s.len(),
{
    let (v1, e1) = match read_ope(s, u, ctx) {
        None => return None,
        Some(x) => x,
    };
    let v = match v1 {
        Err(x) => Err(x),
        Ok(a1) => Ok(Axiom::SymmetricObjectProperty(a1)),
    };
    Some((v, e1))
}

/// The parts of `AsymmetricObjectProperty` (see [`axiom_parts`]).
fn read_asymmetric_object_property_parts(s: &Vec<char>, u: usize, ctx: &Context) -> (r: Reading<Axiom>)
    requires
        u <= s.len(),
    ensures
        read_view(r) == lift_read(
            r_ope(s@, u as int, ctx@),
            |x: SpecObjectPropertyExpression| SpecAxiom::AsymmetricObjectProperty(x),
        ),
        r matches Some((_, e)) ==> u <= e <= s.len(),
{
    let (v1, e1) = match read_ope(s, u, ctx) {
        None => return None,
        Some(x) => x,
    };
    let v = match v1 {
        Err(x) => Err(x),
        Ok(a1) => Ok(Axiom::AsymmetricObjectProperty(a1)),
    };
    Some((v, e1))
}

/// The parts of `TransitiveObjectProperty` (see [`axiom_parts`]).
fn read_transitive_object_property_parts(s: &Vec<char>, u: usize, ctx: &Context) -> (r: Reading<Axiom>)
    requires
        u <= s.len(),
    ensures
        read_view(r) == lift_read(
            r_iri(s@, u as int, ctx@),
            |x: Seq<char>| SpecAxiom::TransitiveObjectProperty(SpecObjectPropertyExpression::ObjectProperty(x)),
        ),
        r matches Some((_, e)) ==> u <= e <= s.len(),
{
    let (v1, e1) = match read_iri(s, u, ctx) {
        None => return None,
        Some(x) => x,
    };
    let v = match v1 {
        Err(x) => Err(x),
        Ok(a1) => Ok(Axiom::TransitiveObjectProperty(ObjectPropertyExpression::ObjectProperty(a1))),
    };
    Some((v, e1))
}

/// The parts of `SubDataPropertyOf` (see [`axiom_parts`]).
fn read_sub_data_property_of_parts(s: &Vec<char>, u: usize, ctx: &Context) -> (r: Reading<Axiom>)
    requires
        u <= s.len(),
    ensures
        read_view(r) == lift_read(
            then(s@, r_iri(s@, u as int, ctx@), |t: int| r_iri(s@, t, ctx@)),
            |x: (Seq<char>, Seq<char>)| SpecAxiom::SubDataPropertyOf { sub: x.0, sup: x.1 },
        ),
        r matches Some((_, e)) ==> u <= e <= s.len(),
{
    let (v1, e1) = match read_iri(s, u, ctx) {
        None => return None,
        Some(x) => x,
    };
    let (v2, e2) = match read_iri(s, skip_ws(s, e1), ctx) {
        None => return None,
        Some(x) => x,
    };
    let v = match v1 {
        Err(x) => Err(x),
        Ok(a1) => match v2 {
            Err(x) => Err(x),
            Ok(a2) => Ok(Axiom::SubDataPropertyOf { sub: a1, sup: a2 }),
        },
    };
    Some((v, e2))
}

/// The parts of `EquivalentDataProperties` (see [`axiom_parts`]).
fn read_equivalent_data_properties_parts(s: &Vec<char>, u: usize, ctx: &Context) -> (r: Reading<Axiom>)
    requires
        u <= s.len(),
    ensures
        read_view(r) == lift_read(
            at_least(s@, u as int, |t: int| r_iri(s@, t, ctx@), 2),
            |x: Seq<Seq<char>>| SpecAxiom::EquivalentDataProperties(x),
        ),
        r matches Some((_, e)) ==> u <= e <= s.len(),
{
    let (v1, n1, e1) = read_iris(s, u, ctx);
    if n1 < 2 {
        return None;
    }
    let v = match v1 {
        Err(x) => Err(x),
        Ok(a1) => Ok(Axiom::EquivalentDataProperties(a1)),
    };
    Some((v, e1))
}

/// The parts of `DisjointDataProperties` (see [`axiom_parts`]).
fn read_disjoint_data_properties_parts(s: &Vec<char>, u: usize, ctx: &Context) -> (r: Reading<Axiom>)
    requires
        u <= s.len(),
    ensures
        read_view(r) == lift_read(
            at_least(s@, u as int, |t: int| r_iri(s@, t, ctx@), 2),
            |x: Seq<Seq<char>>| SpecAxiom::DisjointDataProperties(x),
        ),
        r matches Some((_, e)) ==> u <= e <= s.len(),
{
    let (v1, n1, e1) = read_iris(s, u, ctx);
    if n1 < 2 {
        return None;
    }
    let v = match v1 {
        Err(x) => Err(x),
        Ok(a1) => Ok(Axiom::DisjointDataProperties(a1)),
    };
    Some((v, e1))
}

/// The parts of `DataPropertyDomain` (see [`axiom_parts`]).
fn read_data_property_domain_parts(s: &Vec<char>, u: usize, ctx: &Context) -> (r: Reading<Axiom>)
    requires
        u <= s.len(),
    ensures
        read_view(r) == lift_read(
            then(s@, r_iri(s@, u as int, ctx@), |t: int| r_ce(s@, t, ctx@)),
            |x: (Seq<char>, SpecClassExpression)| SpecAxiom::DataPropertyDomain { dp: x.0, ce: x.1 },
        ),
        r matches Some((_, e)) ==> u <= e <= s.len(),
{
    let (v1, e1) = match read_iri(s, u, ctx) {
        None => return None,
        Some(x) => x,
    };
    let (v2, e2) = match read_ce(s, skip_ws(s, e1), ctx) {
        None => return None,
        Some(x) => x,
    };
    let v = match v1 {
        Err(x) => Err(x),
        Ok(a1) => match v2 {
            Err(x) => Err(x),
            Ok(a2) => Ok(Axiom::DataPropertyDomain { dp: a1, ce: a2 }),
        },
    };
    Some((v, e2))
}

/// The parts of `DataPropertyRange` (see [`axiom_parts`]).
fn read_data_property_range_parts(s: &Vec<char>, u: usize, ctx: &Context) -> (r: Reading<Axiom>)
    requires
        u <= s.len(),
    ensures
        read_view(r) == lift_read(
            then(s@, r_iri(s@, u as int, ctx@), |t: int| r_dr(s@, t, ctx@)),
            |x: (Seq<char>, SpecDataRange)| SpecAxiom::DataPropertyRange { dp: x.0, dr: x.1 },
        ),
        r matches Some((_, e)) ==> u <= e <= s.len(),
{
    let (v1, e1) = match read_iri(s, u, ctx) {
        None => return None,
        Some(x) => x,
    };
    let (v2, e2) = match read_dr(s, skip_ws(s, e1), ctx) {
        None => return None,
        Some(x) => x,
    };
    let v = match v1 {
        Err(x) => Err(x),
        Ok(a1) => match v2 {
            Err(x) => Err(x),
            Ok(a2) => Ok(Axiom::DataPropertyRange { dp: a1, dr: a2 }),
        },
    };
    Some((v, e2))
}

/// The parts of `FunctionalDataProperty` (see [`axiom_parts`]).
fn read_functional_data_property_parts(s: &Vec<char>, u: usize, ctx: &Context) -> (r: Reading<Axiom>)
    requires
        u <= s.len(),
    ensures
        read_view(r) == lift_read(
            r_iri(s@, u as int, ctx@),
            |x: Seq<char>| SpecAxiom::FunctionalDataProperty(x),
        ),
        r matches Some((_, e)) ==> u <= e <= s.len(),
{
    let (v1, e1) = match read_iri(s, u, ctx) {
        None => return None,
        Some(x) => x,
    };
    let v = match v1 {
        Err(x) => Err(x),
        Ok(a1) => Ok(Axiom::FunctionalDataProperty(a1)),
    };
    Some((v, e1))
}

/// The parts of `DatatypeDefinition` (see [`axiom_parts`]).
fn read_datatype_definition_parts(s: &Vec<char>, u: usize, ctx: &Context) -> (r: Reading<Axiom>)
    requires
        u <= s.len(),
    ensures
        read_view(r) == lift_read(
            then(s@, r_iri(s@, u as int, ctx@), |t: int| r_dr(s@, t, ctx@)),
            |x: (Seq<char>, SpecDataRange)| SpecAxiom::DatatypeDefinition { kind: x.0, range: x.1 },
        ),
        r matches Some((_, e)) ==> u <= e <= s.len(),
{
    let (v1, e1) = match read_iri(s, u, ctx) {
        None => return None,
        Some(x) => x,
    };
    let (v2, e2) = match read_dr(s, skip_ws(s, e1), ctx) {
        None => return None,
        Some(x) => x,
    };
    let v = match v1 {
        Err(x) => Err(x),
        Ok(a1) => match v2 {
            Err(x) => Err(x),
            Ok(a2) => Ok(Axiom::DatatypeDefinition { kind: a1, range: a2 }),
        },
    };
    Some((v, e2))
}

/// The parts of `SameIndividual` (see [`axiom_parts`]).
fn read_same_individual_parts(s: &Vec<char>, u: usize, ctx: &Context) -> (r: Reading<Axiom>)
    requires
        u <= s.len(),
    ensures
        read_view(r) == lift_read(
            at_least(s@, u as int, |t: int| r_individual(s@, t, ctx@), 2),
            |x: Seq<SpecIndividual>| SpecAxiom::SameIndividual(x),
        ),
        r matches Some((_, e)) ==> u <= e <= s.len(),
{
    let (v1, n1, e1) = read_individuals(s, u, ctx);
    if n1 < 2 {
        return None;
    }
    let v = match v1 {
        Err(x) => Err(x),
        Ok(a1) => Ok(Axiom::SameIndividual(a1)),
    };
    Some((v, e1))
}

/// The parts of `DifferentIndividuals` (see [`axiom_parts`]).
fn read_different_individuals_parts(s: &Vec<char>, u: usize, ctx: &Context) -> (r: Reading<Axiom>)
    requires
        u <= s.len(),
    ensures
        read_view(r) == lift_read(
            at_least(s@, u as int, |t: int| r_individual(s@, t, ctx@), 2),
            |x: Seq<SpecIndividual>| SpecAxiom::DifferentIndividuals(x),
        ),
        r matches Some((_, e)) ==> u <= e <= s.len(),
{
    let (v1, n1, e1) = read_individuals(s, u, ctx);
    if n1 < 2 {
        return None;
    }
    let v = match v1 {
        Err(x) => Err(x),
        Ok(a1) => Ok(Axiom::DifferentIndividuals(a1)),
    };
    Some((v, e1))
}

/// The parts of `ClassAssertion` (see [`axiom_parts`]).
fn read_class_assertion_parts(s: &Vec<char>, u: usize, ctx: &Context) -> (r: Reading<Axiom>)
    requires
        u <= s.len(),
    ensures
        read_view(r) == lift_read(
            then(s@, r_ce(s@, u as int, ctx@), |t: int| r_individual(s@, t, ctx@)),
            |x: (SpecClassExpression, SpecIndividual)| SpecAxiom::ClassAssertion { ce: x.0, i: x.1 },
        ),
        r matches Some((_, e)) ==> u <= e <= s.len(),
{
    let (v1, e1) = match read_ce(s, u, ctx) {
        None => return None,
        Some(x) => x,
    };
    let (v2, e2) = match read_individual(s, skip_ws(s, e1), ctx) {
        None => return None,
        Some(x) => x,
    };
    let v = match v1 {
        Err(x) => Err(x),
        Ok(a1) => match v2 {
            Err(x) => Err(x),
            Ok(a2) => Ok(Axiom::ClassAssertion { ce: a1, i: a2 }),
        },
    };
    Some((v, e2))
}

/// The parts of `ObjectPropertyAssertion` (see [`axiom_parts`]).
fn read_object_property_assertion_parts(s: &Vec<char>, u: usize, ctx: &Context) -> (r: Reading<Axiom>)
    requires
        u <= s.len(),
    ensures
        read_view(r) == lift_read(
            then(s@, then(s@, r_ope(s@, u as int, ctx@), |t: int| r_individual(s@, t, ctx@)), |t: int| r_individual(s@, t, ctx@)),
            |x: ((SpecObjectPropertyExpression, SpecIndividual), SpecIndividual)| SpecAxiom::ObjectPropertyAssertion { ope: x.0.0, from: x.0.1, to: x.1 },
        ),
        r matches Some((_, e)) ==> u <= e <= s.len(),
{
    let (v1, e1) = match read_ope(s, u, ctx) {
        None => return None,
        Some(x) => x,
    };
    let (v2, e2) = match read_individual(s, skip_ws(s, e1), ctx) {
        None => return None,
        Some(x) => x,
    };
    let (v3, e3) = match read_individual(s, skip_ws(s, e2), ctx) {
        None => return None,
        Some(x) => x,
    };
    let v = match v1 {
        Err(x) => Err(x),
        Ok(a1) => match v2 {
            Err(x) => Err(x),
            Ok(a2) => match v3 {
                Err(x) => Err(x),
                Ok(a3) => Ok(Axiom::ObjectPropertyAssertion { ope: a1, from: a2, to: a3 }),
            },
        },
    };
    Some((v, e3))
}

/// The parts of `NegativeObjectPropertyAssertion` (see [`axiom_parts`]).
fn read_negative_object_property_assertion_parts(s: &Vec<char>, u: usize, ctx: &Context) -> (r: Reading<Axiom>)
    requires
        u <= s.len(),
    ensures
        read_view(r) == lift_read(
            then(s@, then(s@, r_ope(s@, u as int, ctx@), |t: int| r_individual(s@, t, ctx@)), |t: int| r_individual(s@, t, ctx@)),
            |x: ((SpecObjectPropertyExpression, SpecIndividual), SpecIndividual)| SpecAxiom::NegativeObjectPropertyAssertion { ope: x.0.0, from: x.0.1, to: x.1 },
        ),
        r matches Some((_, e)) ==> u <= e <= s.len(),
{
    let (v1, e1) = match read_ope(s, u, ctx) {
        None => return None,
        Some(x) => x,
    };
    let (v2, e2) = match read_individual(s, skip_ws(s, e1), ctx) {
        None => return None,
        Some(x) => x,
    };
    let (v3, e3) = match read_individual(s, skip_ws(s, e2), ctx) {
        None => return None,
        Some(x) => x,
    };
    let v = match v1 {
        Err(x) => Err(x),
        Ok(a1) => match v2 {
            Err(x) => Err(x),
            Ok(a2) => match v3 {
                Err(x) => Err(x),
                Ok(a3) => Ok(Axiom::NegativeObjectPropertyAssertion { ope: a1, from: a2, to: a3 }),
            },
        },
    };
    Some((v, e3))
}

/// The parts of `DataPropertyAssertion` (see [`axiom_parts`]).
fn read_data_property_assertion_parts(s: &Vec<char>, u: usize, ctx: &Context) -> (r: Reading<Axiom>)
    requires
        u <= s.len(),
    ensures
        read_view(r) == lift_read(
            then(s@, then(s@, r_iri(s@, u as int, ctx@), |t: int| r_individual(s@, t, ctx@)), |t: int| r_literal(s@, t, ctx@)),
            |x: ((Seq<char>, SpecIndividual), SpecLiteral)| SpecAxiom::DataPropertyAssertion { dp: x.0.0, from: x.0.1, to: x.1 },
        ),
        r matches Some((_, e)) ==> u <= e <= s.len(),
{
    let (v1, e1) = match read_iri(s, u, ctx) {
        None => return None,
        Some(x) => x,
    };
    let (v2, e2) = match read_individual(s, skip_ws(s, e1), ctx) {
        None => return None,
        Some(x) => x,
    };
    let (v3, e3) = match read_literal(s, skip_ws(s, e2), ctx) {
        None => return None,
        Some(x) => x,
    };
    let v = match v1 {
        Err(x) => Err(x),
        Ok(a1) => match v2 {
            Err(x) => Err(x),
            Ok(a2) => match v3 {
                Err(x) => Err(x),
                Ok(a3) => Ok(Axiom::DataPropertyAssertion { dp: a1, from: a2, to: a3 }),
            },
        },
    };
    Some((v, e3))
}

/// The parts of `NegativeDataPropertyAssertion` (see [`axiom_parts`]).
fn read_negative_data_property_assertion_parts(s: &Vec<char>, u: usize, ctx: &Context) -> (r: Reading<Axiom>)
    requires
        u <= s.len(),
    ensures
        read_view(r) == lift_read(
            then(s@, then(s@, r_iri(s@, u as int, ctx@), |t: int| r_individual(s@, t, ctx@)), |t: int| r_literal(s@, t, ctx@)),
            |x: ((Seq<char>, SpecIndividual), SpecLiteral)| SpecAxiom::NegativeDataPropertyAssertion { dp: x.0.0, from: x.0.1, to: x.1 },
        ),
        r matches Some((_, e)) ==> u <= e <= s.len(),
{
    let (v1, e1) = match read_iri(s, u, ctx) {
        None => return None,
        Some(x) => x,
    };
    let (v2, e2) = match read_individual(s, skip_ws(s, e1), ctx) {
        None => return None,
        Some(x) => x,
    };
    let (v3, e3) = match read_literal(s, skip_ws(s, e2), ctx) {
        None => return None,
        Some(x) => x,
    };
    let v = match v1 {
        Err(x) => Err(x),
        Ok(a1) => match v2 {
            Err(x) => Err(x),
            Ok(a2) => match v3 {
                Err(x) => Err(x),
                Ok(a3) => Ok(Axiom::NegativeDataPropertyAssertion { dp: a1, from: a2, to: a3 }),
            },
        },
    };
    Some((v, e3))
}

/// The parts of `AnnotationAssertion` (see [`axiom_parts`]).
fn read_annotation_assertion_parts(s: &Vec<char>, u: usize, ctx: &Context) -> (r: Reading<Axiom>)
    requires
        u <= s.len(),
    ensures
        read_view(r) == lift_read(
            then(s@, then(s@, r_iri(s@, u as int, ctx@), |t: int| r_annotation_subject(s@, t, ctx@)), |t: int| r_annotation_value(s@, t, ctx@)),
            |x: ((Seq<char>, SpecAnnotationSubject), SpecAnnotationValue)| SpecAxiom::AnnotationAssertion { subject: x.0.1, ann: SpecAnnotation { ap: x.0.0, av: x.1 } },
        ),
        r matches Some((_, e)) ==> u <= e <= s.len(),
{
    let (v1, e1) = match read_iri(s, u, ctx) {
        None => return None,
        Some(x) => x,
    };
    let (v2, e2) = match read_annotation_subject(s, skip_ws(s, e1), ctx) {
        None => return None,
        Some(x) => x,
    };
    let (v3, e3) = match read_annotation_value(s, skip_ws(s, e2), ctx) {
        None => return None,
        Some(x) => x,
    };
    let v = match v1 {
        Err(x) => Err(x),
        Ok(a1) => match v2 {
            Err(x) => Err(x),
            Ok(a2) => match v3 {
                Err(x) => Err(x),
                Ok(a3) => Ok(Axiom::AnnotationAssertion { subject: a2, ann: Annotation { ap: a1, av: a3 } }),
            },
        },
    };
    Some((v, e3))
}

/// The parts of `SubAnnotationPropertyOf` (see [`axiom_parts`]).
fn read_sub_annotation_property_of_parts(s: &Vec<char>, u: usize, ctx: &Context) -> (r: Reading<Axiom>)
    requires
        u <= s.len(),
    ensures
        read_view(r) == lift_read(
            then(s@, r_iri(s@, u as int, ctx@), |t: int| r_iri(s@, t, ctx@)),
            |x: (Seq<char>, Seq<char>)| SpecAxiom::SubAnnotationPropertyOf { sub: x.0, sup: x.1 },
        ),
        r matches Some((_, e)) ==> u <= e <= s.len(),
{
    let (v1, e1) = match read_iri(s, u, ctx) {
        None => return None,
        Some(x) => x,
    };
    let (v2, e2) = match read_iri(s, skip_ws(s, e1), ctx) {
        None => return None,
        Some(x) => x,
    };
    let v = match v1 {
        Err(x) => Err(x),
        Ok(a1) => match v2 {
            Err(x) => Err(x),
            Ok(a2) => Ok(Axiom::SubAnnotationPropertyOf { sub: a1, sup: a2 }),
        },
    };
    Some((v, e2))
}

/// The parts of `AnnotationPropertyDomain` (see [`axiom_parts`]).
fn read_annotation_property_domain_parts(s: &Vec<char>, u: usize, ctx: &Context) -> (r: Reading<Axiom>)
    requires
        u <= s.len(),
    ensures
        read_view(r) == lift_read(
            then(s@, r_iri(s@, u as int, ctx@), |t: int| r_iri(s@, t, ctx@)),
            |x: (Seq<char>, Seq<char>)| SpecAxiom::AnnotationPropertyDomain { ap: x.0, iri: x.1 },
        ),
        r matches Some((_, e)) ==> u <= e <= s.len(),
{
    let (v1, e1) = match read_iri(s, u, ctx) {
        None => return None,
        Some(x) => x,
    };
    let (v2, e2) = match read_iri(s, skip_ws(s, e1), ctx) {
        None => return None,
        Some(x) => x,
    };
    let v = match v1 {
        Err(x) => Err(x),
        Ok(a1) => match v2 {
            Err(x) => Err(x),
            Ok(a2) => Ok(Axiom::AnnotationPropertyDomain { ap: a1, iri: a2 }),
        },
    };
    Some((v, e2))
}

/// The parts of `AnnotationPropertyRange` (see [`axiom_parts`]).
fn read_annotation_property_range_parts(s: &Vec<char>, u: usize, ctx: &Context) -> (r: Reading<Axiom>)
    requires
        u <= s.len(),
    ensures
        read_view(r) == lift_read(
            then(s@, r_iri(s@, u as int, ctx@), |t: int| r_iri(s@, t, ctx@)),
            |x: (Seq<char>, Seq<char>)| SpecAxiom::AnnotationPropertyRange { ap: x.0, iri: x.1 },
        ),
        r matches Some((_, e)) ==> u <= e <= s.len(),
{
    let (v1, e1) = match read_iri(s, u, ctx) {
        None => return None,
        Some(x) => x,
    };
    let (v2, e2) = match read_iri(s, skip_ws(s, e1), ctx) {
        None => return None,
        Some(x) => x,
    };
    let v = match v1 {
        Err(x) => Err(x),
        Ok(a1) => match v2 {
            Err(x) => Err(x),
            Ok(a2) => Ok(Axiom::AnnotationPropertyRange { ap: a1, iri: a2 }),
        },
    };
    Some((v, e2))
}

/// See [`axiom_parts`]: the kind of axiom is the word from `p` to `le`.
#[verifier::spinoff_prover]
#[verifier::rlimit(80)]
pub fn read_axiom_parts(s: &Vec<char>, p: usize, le: usize, u: usize, ctx: &Context) -> (r: Reading<Axiom>)
    requires
        p <= le <= u <= s.len(),
        le == letters_end(s@, p as int),
    ensures
        read_view(r) == axiom_parts(word(s@, p as int), s@, u as int, ctx@),
        r matches Some((_, e)) ==> u <= e <= s.len(),
{
    if matches_word(s, p, le, "Declaration") {
        read_entity(s, u, ctx)
    } else if matches_word(s, p, le, "SubClassOf") {
        read_sub_class_of_parts(s, u, ctx)
    } else if matches_word(s, p, le, "EquivalentClasses") {
        read_equivalent_classes_parts(s, u, ctx)
    } else if matches_word(s, p, le, "DisjointClasses") {
        read_disjoint_classes_parts(s, u, ctx)
    } else if matches_word(s, p, le, "DisjointUnion") {
        read_disjoint_union_parts(s, u, ctx)
    } else if matches_word(s, p, le, "SubObjectPropertyOf") {
        read_sub_object_property_of_parts(s, u, ctx)
    } else if matches_word(s, p, le, "EquivalentObjectProperties") {
        read_equivalent_object_properties_parts(s, u, ctx)
    } else if matches_word(s, p, le, "DisjointObjectProperties") {
        read_disjoint_object_properties_parts(s, u, ctx)
    } else if matches_word(s, p, le, "InverseObjectProperties") {
        read_inverse_object_properties_parts(s, u, ctx)
    } else if matches_word(s, p, le, "ObjectPropertyDomain") {
        read_object_property_domain_parts(s, u, ctx)
    } else if matches_word(s, p, le, "ObjectPropertyRange") {
        read_object_property_range_parts(s, u, ctx)
    } else if matches_word(s, p, le, "FunctionalObjectProperty") {
        read_functional_object_property_parts(s, u, ctx)
    } else if matches_word(s, p, le, "InverseFunctionalObjectProperty") {
        read_inverse_functional_object_property_parts(s, u, ctx)
    } else if matches_word(s, p, le, "ReflexiveObjectProperty") {
        read_reflexive_object_property_parts(s, u, ctx)
    } else if matches_word(s, p, le, "IrreflexiveObjectProperty") {
        read_irreflexive_object_property_parts(s, u, ctx)
    } else if matches_word(s, p, le, "SymmetricObjectProperty") {
        read_symmetric_object_property_parts(s, u, ctx)
    } else if matches_word(s, p, le, "AsymmetricObjectProperty") {
        read_asymmetric_object_property_parts(s, u, ctx)
    } else if matches_word(s, p, le, "TransitiveObjectProperty") {
        read_transitive_object_property_parts(s, u, ctx)
    } else if matches_word(s, p, le, "SubDataPropertyOf") {
        read_sub_data_property_of_parts(s, u, ctx)
    } else if matches_word(s, p, le, "EquivalentDataProperties") {
        read_equivalent_data_properties_parts(s, u, ctx)
    } else if matches_word(s, p, le, "DisjointDataProperties") {
        read_disjoint_data_properties_parts(s, u, ctx)
    } else if matches_word(s, p, le, "DataPropertyDomain") {
        read_data_property_domain_parts(s, u, ctx)
    } else if matches_word(s, p, le, "DataPropertyRange") {
        read_data_property_range_parts(s, u, ctx)
    } else if matches_word(s, p, le, "FunctionalDataProperty") {
        read_functional_data_property_parts(s, u, ctx)
    } else if matches_word(s, p, le, "DatatypeDefinition") {
        read_datatype_definition_parts(s, u, ctx)
    } else if matches_word(s, p, le, "HasKey") {
        read_has_key_parts(s, u, ctx)
    } else if matches_word(s, p, le, "SameIndividual") {
        read_same_individual_parts(s, u, ctx)
    } else if matches_word(s, p, le, "DifferentIndividuals") {
        read_different_individuals_parts(s, u, ctx)
    } else if matches_word(s, p, le, "ClassAssertion") {
        read_class_assertion_parts(s, u, ctx)
    } else if matches_word(s, p, le, "ObjectPropertyAssertion") {
        read_object_property_assertion_parts(s, u, ctx)
    } else if matches_word(s, p, le, "NegativeObjectPropertyAssertion") {
        read_negative_object_property_assertion_parts(s, u, ctx)
    } else if matches_word(s, p, le, "DataPropertyAssertion") {
        read_data_property_assertion_parts(s, u, ctx)
    } else if matches_word(s, p, le, "NegativeDataPropertyAssertion") {
        read_negative_data_property_assertion_parts(s, u, ctx)
    } else if matches_word(s, p, le, "AnnotationAssertion") {
        read_annotation_assertion_parts(s, u, ctx)
    } else if matches_word(s, p, le, "SubAnnotationPropertyOf") {
        read_sub_annotation_property_of_parts(s, u, ctx)
    } else if matches_word(s, p, le, "AnnotationPropertyDomain") {
        read_annotation_property_domain_parts(s, u, ctx)
    } else if matches_word(s, p, le, "AnnotationPropertyRange") {
        read_annotation_property_range_parts(s, u, ctx)
    } else {
        None
    }
}


/// See [`r_axiom`].
pub fn read_axiom(s: &Vec<char>, p: usize, ctx: &Context) -> (r: Reading<AnnotatedAxiom>)
    requires
        p <= s.len(),
    ensures
        read_view(r) == r_axiom(s@, p as int, ctx@),
        r matches Some((_, e)) ==> p < e <= s.len(),
{
    proof {
        reveal(r_axiom);
    }
    let le = find_letters_end(s, p);
    let q = match open_paren(s, le) {
        None => return None,
        Some(q) => q,
    };
    let (anns, _, e0) = read_annotation_seq(s, q, ctx);
    let u = skip_ws(s, e0);
    let (v, e) = match read_axiom_parts(s, p, le, u, ctx) {
        None => return None,
        Some(x) => x,
    };
    let f = match close_paren(s, e) {
        None => return None,
        Some(f) => f,
    };
    let v = match anns {
        Err(x) => Err(x),
        Ok(a) => match v {
            Err(x) => Err(x),
            Ok(ax) => Ok(AnnotatedAxiom { ax, ann: set_of_annotations(a) }),
        },
    };
    Some((v, f))
}

} // verus!
