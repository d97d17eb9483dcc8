//! Reading OWL elements at a position of a text in the functional syntax.
use vstd::prelude::*;
use crate::axiom_reader::read_axiom;
use crate::context::Context;
use crate::error::{Error, Failure};
use crate::grammar::{
    Px, Read, r_anonymous_individual, r_annotation, r_annotation_subject, r_annotation_value, r_axiom,
    r_bare_axiom, r_ce, r_dr, r_facet, r_facet_restriction, r_individual, r_iri, r_literal,
    r_ontology, r_ope,
};
use crate::model::{
    AnnotatedAxiom, Annotation, AnnotationSubject, AnnotationValue, AnonymousIndividual, Axiom,
    ClassExpression, DataRange, Facet, FacetRestriction, IRI, Individual, Literal,
    ObjectPropertyExpression, Ontology, SpecOntology,
};
use crate::ontology_reader::read_ontology;
use crate::parser::{
    Reading, find_facet, read_annotation, read_annotation_subject, read_annotation_value, read_ce,
    read_dr, read_facet_restriction, read_individual, read_iri, read_literal, read_ope, read_view,
};
use crate::scan::read_node_id;

verus! {

/// A trait for OWL elements that can be read from a text in the functional
/// syntax, at a given position.
pub trait FromPair: Sized + View {
    /// The grammar of the element: its reading at `p`, with the prefixes
    /// `px` (see [`crate::grammar`]).
    spec fn reading(s: Seq<char>, p: int, px: Px) -> Read<<Self as View>::V>;

    /// Read the element that starts at `p`, expanding abbreviated IRIs with
    /// the prefixes of `context`.
    fn from_pair(s: &Vec<char>, p: usize, context: &Context) -> (r: Reading<Self>)
        requires
            p <= s.len(),
        ensures
            read_view(r) == Self::reading(s@, p as int, context@),
            r matches Some((_, e)) ==> p < e <= s.len(),
    ;
}

impl FromPair for IRI {
    open spec fn reading(s: Seq<char>, p: int, px: Px) -> Read<Seq<char>> {
        r_iri(s, p, px)
    }

    fn from_pair(s: &Vec<char>, p: usize, context: &Context) -> (r: Reading<Self>) {
        read_iri(s, p, context)
    }
}

impl FromPair for AnonymousIndividual {
    open spec fn reading(s: Seq<char>, p: int, px: Px) -> Read<Seq<char>> {
        r_anonymous_individual(s, p)
    }

    fn from_pair(s: &Vec<char>, p: usize, context: &Context) -> (r: Reading<Self>) {
        proof {
            crate::lexical::lemma_token_bounds(s@, p as int);
        }
        match read_node_id(s, p) {
            Some((id, e)) => Some((Ok(AnonymousIndividual(id)), e)),
            None => None,
        }
    }
}

impl FromPair for Individual {
    open spec fn reading(s: Seq<char>, p: int, px: Px) -> Read<crate::model::SpecIndividual> {
        r_individual(s, p, px)
    }

    fn from_pair(s: &Vec<char>, p: usize, context: &Context) -> (r: Reading<Self>) {
        read_individual(s, p, context)
    }
}

impl FromPair for Literal {
    open spec fn reading(s: Seq<char>, p: int, px: Px) -> Read<crate::model::SpecLiteral> {
        r_literal(s, p, px)
    }

    fn from_pair(s: &Vec<char>, p: usize, context: &Context) -> (r: Reading<Self>) {
        read_literal(s, p, context)
    }
}

impl FromPair for ObjectPropertyExpression {
    open spec fn reading(s: Seq<char>, p: int, px: Px) -> Read<crate::model::SpecObjectPropertyExpression> {
        r_ope(s, p, px)
    }

    fn from_pair(s: &Vec<char>, p: usize, context: &Context) -> (r: Reading<Self>) {
        read_ope(s, p, context)
    }
}

impl FromPair for Facet {
    open spec fn reading(s: Seq<char>, p: int, px: Px) -> Read<Facet> {
        r_facet(s, p, px)
    }

    fn from_pair(s: &Vec<char>, p: usize, context: &Context) -> (r: Reading<Self>) {
        match read_iri(s, p, context) {
            None => None,
            Some((ri, e)) => Some(
                (
                    match ri {
                        Err(x) => Err(x),
                        Ok(iri) => match find_facet(&iri) {
                            None => Err(Failure::Error(Error::InvalidFacet(iri.0))),
                            Some(f) => Ok(f),
                        },
                    },
                    e,
                ),
            ),
        }
    }
}

impl FromPair for FacetRestriction {
    open spec fn reading(s: Seq<char>, p: int, px: Px) -> Read<crate::model::SpecFacetRestriction> {
        r_facet_restriction(s, p, px)
    }

    fn from_pair(s: &Vec<char>, p: usize, context: &Context) -> (r: Reading<Self>) {
        read_facet_restriction(s, p, context)
    }
}

impl FromPair for DataRange {
    open spec fn reading(s: Seq<char>, p: int, px: Px) -> Read<crate::model::SpecDataRange> {
        r_dr(s, p, px)
    }

    fn from_pair(s: &Vec<char>, p: usize, context: &Context) -> (r: Reading<Self>) {
        read_dr(s, p, context)
    }
}

impl FromPair for ClassExpression {
    open spec fn reading(s: Seq<char>, p: int, px: Px) -> Read<crate::model::SpecClassExpression> {
        r_ce(s, p, px)
    }

    fn from_pair(s: &Vec<char>, p: usize, context: &Context) -> (r: Reading<Self>) {
        read_ce(s, p, context)
    }
}

impl FromPair for AnnotationValue {
    open spec fn reading(s: Seq<char>, p: int, px: Px) -> Read<crate::model::SpecAnnotationValue> {
        r_annotation_value(s, p, px)
    }

    fn from_pair(s: &Vec<char>, p: usize, context: &Context) -> (r: Reading<Self>) {
        read_annotation_value(s, p, context)
    }
}

impl FromPair for AnnotationSubject {
    open spec fn reading(s: Seq<char>, p: int, px: Px) -> Read<crate::model::SpecAnnotationSubject> {
        r_annotation_subject(s, p, px)
    }

    fn from_pair(s: &Vec<char>, p: usize, context: &Context) -> (r: Reading<Self>) {
        read_annotation_subject(s, p, context)
    }
}

impl FromPair for Annotation {
    open spec fn reading(s: Seq<char>, p: int, px: Px) -> Read<crate::model::SpecAnnotation> {
        r_annotation(s, p, px)
    }

    fn from_pair(s: &Vec<char>, p: usize, context: &Context) -> (r: Reading<Self>) {
        read_annotation(s, p, context)
    }
}

impl FromPair for AnnotatedAxiom {
    open spec fn reading(s: Seq<char>, p: int, px: Px) -> Read<crate::model::SpecAnnotatedAxiom> {
        r_axiom(s, p, px)
    }

    fn from_pair(s: &Vec<char>, p: usize, context: &Context) -> (r: Reading<Self>) {
        read_axiom(s, p, context)
    }
}

impl FromPair for Axiom {
    open spec fn reading(s: Seq<char>, p: int, px: Px) -> Read<crate::model::SpecAxiom> {
        r_bare_axiom(s, p, px)
    }

    fn from_pair(s: &Vec<char>, p: usize, context: &Context) -> (r: Reading<Self>) {
        match read_axiom(s, p, context) {
            None => None,
            Some((v, e)) => Some(
                (
                    match v {
                        Ok(a) => Ok(a.ax),
                        Err(x) => Err(x),
                    },
                    e,
                ),
            ),
        }
    }
}

impl FromPair for Ontology {
    open spec fn reading(s: Seq<char>, p: int, px: Px) -> Read<SpecOntology> {
        r_ontology(s, p, px)
    }

    fn from_pair(s: &Vec<char>, p: usize, context: &Context) -> (r: Reading<Self>) {
        read_ontology(s, p, context)
    }
}

} // verus!
