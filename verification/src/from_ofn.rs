//! Reading OWL elements, ontologies and documents from text in the
//! functional syntax.
use vstd::prelude::*;
use curie::PrefixMapping;
use crate::context::Context;
use crate::error::{Error, Failure, SpecError, SyntaxError};
use crate::from_pair::FromPair;
use crate::grammar::{document, prefix_declarations, r_entity, r_import, whole};
use crate::model::{
    AnnotatedAxiom, Annotation, AnnotationSubject, AnnotationValue, AnonymousIndividual, Axiom,
    ClassExpression, DataRange, Facet, FacetRestriction, IRI, Individual, Literal,
    ObjectPropertyExpression, Ontology, SpecOntology,
};
use crate::ontology_reader::{read_document, read_import};
use crate::parser::{Reading, read_entity, read_view};
use crate::prefixes::{SpecPrefixes, prefixes_of};
use crate::prefix_laws::{declares_exactly, document_declares};
use crate::scan::chars_of;

verus! {

/// Mathematical form of the outcome of reading a whole text: `None` stands
/// for a reading that stops (see [`SpecError::Abort`]).
pub open spec fn outcome_view<T: View>(r: Option<Result<T, Error>>) -> Result<T::V, SpecError> {
    match r {
        None => Err(SpecError::Abort),
        Some(Ok(v)) => Ok(v@),
        Some(Err(e)) => Err(e@),
    }
}

/// Mathematical form of a value or error.
pub open spec fn result_view_of<T: View>(r: Result<T, Error>) -> Result<T::V, SpecError> {
    match r {
        Ok(v) => Ok(v@),
        Err(e) => Err(e@),
    }
}

/// The outcome of a reading that must span the whole text (see [`whole`]).
pub fn read_whole<T: View>(s: &Vec<char>, r: Reading<T>) -> (o: Option<Result<T, Error>>)
    requires
        r matches Some((_, e)) ==> e <= s.len(),
    ensures
        outcome_view(o) == whole(s@, read_view(r)),
{
    match r {
        None => Some(Err(Error::Syntax(SyntaxError::Invalid))),
        Some((v, e)) => if e == s.len() {
            match v {
                Ok(x) => Some(Ok(x)),
                Err(Failure::Error(x)) => Some(Err(x)),
                Err(Failure::Abort) => None,
            }
        } else {
            Some(Err(Error::Syntax(SyntaxError::RemainingInput(e))))
        },
    }
}

/// A trait for OWL elements that can be read from the functional syntax.
///
/// Reading fails unless the whole text is the element.
pub trait FromFunctional: FromPair {
    /// Read the element from the whole text, with the prefixes of
    /// `context`; `None` where the text has no value at all (a cardinality
    /// beyond 32 bits, a blank node as annotation value).
    fn try_from_ofn_ctx(s: &str, context: &Context) -> (r: Option<Result<Self, Error>>)
        ensures
            outcome_view(r) == whole(s@, Self::reading(s@, 0, context@)),
    {
        let chars = chars_of(s);
        let r = Self::from_pair(&chars, 0, context);
        read_whole(&chars, r)
    }

    /// Deserialize a string containing an OWL element in functional syntax,
    /// expanding abbreviated IRIs with the prefixes of `context`.
    fn from_ofn_ctx(s: &str, context: &Context) -> (r: Result<Self, Error>)
        requires
            whole(s@, Self::reading(s@, 0, context@)) != Err::<<Self as View>::V, SpecError>(
                SpecError::Abort,
            ),
        ensures
            result_view_of(r) == whole(s@, Self::reading(s@, 0, context@)),
    {
        match Self::try_from_ofn_ctx(s, context) {
            Some(r) => r,
            None => Err(Error::Syntax(SyntaxError::Invalid)),
        }
    }

    /// Deserialize a string containing an OWL element in functional syntax,
    /// without prefix mapping.
    fn from_ofn(s: &str) -> (r: Result<Self, Error>)
        requires
            whole(s@, Self::reading(s@, 0, None)) != Err::<<Self as View>::V, SpecError>(
                SpecError::Abort,
            ),
        ensures
            result_view_of(r) == whole(s@, Self::reading(s@, 0, None)),
    {
        let context = Context::empty();
        Self::from_ofn_ctx(s, &context)
    }
}

impl FromFunctional for IRI {}

impl FromFunctional for AnonymousIndividual {}

impl FromFunctional for Individual {}

impl FromFunctional for Literal {}

impl FromFunctional for ObjectPropertyExpression {}

impl FromFunctional for Facet {}

impl FromFunctional for FacetRestriction {}

impl FromFunctional for DataRange {}

impl FromFunctional for ClassExpression {}

impl FromFunctional for AnnotationValue {}

impl FromFunctional for AnnotationSubject {}

impl FromFunctional for Annotation {}

impl FromFunctional for AnnotatedAxiom {}

impl FromFunctional for Axiom {}

impl FromFunctional for Ontology {}

/// Read an entity declaration (`Class(IRI)`, `Datatype(IRI)`, ...) that
/// spans the whole text, as the axiom that declares the entity.
pub fn declaration_from_ofn_ctx(s: &str, context: &Context) -> (r: Result<Axiom, Error>)
    ensures
        result_view_of(r) == whole(s@, r_entity(s@, 0, context@)),
{
    let chars = chars_of(s);
    match read_whole(&chars, read_entity(&chars, 0, context)) {
        Some(r) => r,
        None => Err(Error::Syntax(SyntaxError::Invalid)),
    }
}

/// Read an import (`Import(IRI)`) that spans the whole text, as an axiom.
pub fn import_from_ofn_ctx(s: &str, context: &Context) -> (r: Result<Axiom, Error>)
    ensures
        result_view_of(r) == whole(s@, r_import(s@, 0, context@)),
{
    let chars = chars_of(s);
    match read_whole(&chars, read_import(&chars, 0, context)) {
        Some(r) => r,
        None => Err(Error::Syntax(SyntaxError::Invalid)),
    }
}

/// Mathematical form of the outcome of reading a document.
pub open spec fn document_outcome(r: Option<Result<(Ontology, PrefixMapping), Error>>) -> Result<
    (SpecOntology, SpecPrefixes),
    SpecError,
> {
    match r {
        None => Err(SpecError::Abort),
        Some(Ok((o, m))) => Ok((o@, prefixes_of(m))),
        Some(Err(e)) => Err(e@),
    }
}

/// Parse an entire OWL document from a string: the ontology, read with the
/// prefixes that the document declares, and those prefixes; `None` where
/// the text has no value at all.
pub fn try_from_str(src: &str) -> (r: Option<Result<(Ontology, PrefixMapping), Error>>)
    ensures
        document_outcome(r) == document(src@),
        r matches Some(Ok((_, m))) ==> declares_exactly(prefixes_of(m), prefix_declarations(src@, 0).0),
{
    proof {
        document_declares(src@);
    }
    let chars = chars_of(src);
    match read_document(&chars) {
        None => Some(Err(Error::Syntax(SyntaxError::Invalid))),
        Some(Ok(v)) => Some(Ok(v)),
        Some(Err(Failure::Error(x))) => Some(Err(x)),
        Some(Err(Failure::Abort)) => None,
    }
}

/// Parse an entire OWL document from a string.
pub fn from_str(src: &str) -> (r: Result<(Ontology, PrefixMapping), Error>)
    requires
        document(src@) != Err::<(SpecOntology, SpecPrefixes), SpecError>(SpecError::Abort),
    ensures
        match r {
            Ok((o, m)) => document(src@) == Ok::<(SpecOntology, SpecPrefixes), SpecError>((o@, prefixes_of(m))),
            Err(e) => document(src@) == Err::<(SpecOntology, SpecPrefixes), SpecError>(e@),
        },
        r matches Ok((_, m)) ==> declares_exactly(prefixes_of(m), prefix_declarations(src@, 0).0),
{
    match try_from_str(src) {
        Some(r) => r,
        None => Err(Error::Syntax(SyntaxError::Invalid)),
    }
}

} // verus!
