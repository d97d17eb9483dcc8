//! IRIs of the OWL vocabulary, from `horned_owl::vocab`.
use vstd::prelude::*;
use horned_owl::vocab::WithIRI;
use horned_owl::model::Facet as HFacet;
use crate::model::Facet;

verus! {

/// The IRI of a facet, as `horned_owl::vocab` declares it.
pub open spec fn facet_iri_text(f: Facet) -> Seq<char> {
    match f {
        Facet::Length => "http://www.w3.org/2001/XMLSchema#length"@,
        Facet::MinLength => "http://www.w3.org/2001/XMLSchema#minLength"@,
        Facet::MaxLength => "http://www.w3.org/2001/XMLSchema#maxLength"@,
        Facet::Pattern => "http://www.w3.org/2001/XMLSchema#pattern"@,
        Facet::MinInclusive => "http://www.w3.org/2001/XMLSchema#minInclusive"@,
        Facet::MinExclusive => "http://www.w3.org/2001/XMLSchema#minExclusive"@,
        Facet::MaxInclusive => "http://www.w3.org/2001/XMLSchema#maxInclusive"@,
        Facet::MaxExclusive => "http://www.w3.org/2001/XMLSchema#maxExclusive"@,
        Facet::TotalDigits => "http://www.w3.org/2001/XMLSchema#totalDigits"@,
        Facet::FractionDigits => "http://www.w3.org/2001/XMLSchema#fractionDigits"@,
        Facet::LangRange => "http://www.w3.org/1999/02/22-rdf-syntax-ns#langRange"@,
    }
}

/// The facets, in the order in which they are tried when one is read.
pub open spec fn facet_order() -> Seq<Facet> {
    seq![
        Facet::Length,
        Facet::MinLength,
        Facet::MaxLength,
        Facet::Pattern,
        Facet::MinInclusive,
        Facet::MinExclusive,
        Facet::MaxInclusive,
        Facet::MaxExclusive,
        Facet::TotalDigits,
        Facet::FractionDigits,
        Facet::LangRange,
    ]
}

/// `owl:Thing`.
pub open spec fn owl_thing_text() -> Seq<char> {
    "http://www.w3.org/2002/07/owl#Thing"@
}

/// `rdfs:Literal`.
pub open spec fn rdfs_literal_text() -> Seq<char> {
    "http://www.w3.org/2000/01/rdf-schema#Literal"@
}

/// `WithIRI::iri_s` of a `horned_owl::model::Facet`: its IRI (see
/// [`facet_iri_text`]).
#[verifier::external_body]
pub(crate) fn facet_iri(f: Facet) -> (r: String)
    ensures
        r@ == facet_iri_text(f),
{
    let h = match f {
        Facet::Length => HFacet::Length, Facet::MinLength => HFacet::MinLength,
        Facet::MaxLength => HFacet::MaxLength, Facet::Pattern => HFacet::Pattern,
        Facet::MinInclusive => HFacet::MinInclusive, Facet::MinExclusive => HFacet::MinExclusive,
        Facet::MaxInclusive => HFacet::MaxInclusive, Facet::MaxExclusive => HFacet::MaxExclusive,
        Facet::TotalDigits => HFacet::TotalDigits, Facet::FractionDigits => HFacet::FractionDigits,
        Facet::LangRange => HFacet::LangRange,
    };
    h.iri_s().clone()
}

/// `WithIRI::iri_s` of `horned_owl::vocab::OWL::Thing`.
#[verifier::external_body]
pub(crate) fn owl_thing() -> (r: String)
    ensures
        r@ == owl_thing_text(),
{
    horned_owl::vocab::OWL::Thing.iri_s().clone()
}

/// `WithIRI::iri_s` of `horned_owl::vocab::OWL2Datatype::RDFSLiteral`.
#[verifier::external_body]
pub(crate) fn rdfs_literal() -> (r: String)
    ensures
        r@ == rdfs_literal_text(),
{
    horned_owl::vocab::OWL2Datatype::RDFSLiteral.iri_s().clone()
}

} // verus!
