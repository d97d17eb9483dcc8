//! Parser and serializer for the OWL 2 Functional-Style syntax.
//!
//! The model of OWL 2 elements is in [`model`]; [`writer`] writes its
//! elements in the functional syntax, [`parser`] reads them back.
use vstd::prelude::*;
use curie::PrefixMapping;

pub mod axiom_reader;
pub mod axiom_round_trip;
pub mod context;
pub mod document_round_trip;
pub mod equality;
pub mod error;
pub mod from_ofn;
pub mod from_pair;
pub mod grammar;
pub mod key_round_trip;
pub mod lexical;
pub mod model;
pub mod ontology_reader;
pub mod parser;
pub mod prefix_laws;
pub mod prefixes;
pub mod reading_laws;
pub mod rendering;
pub mod round_trip;
pub mod scan;
pub mod sets;
pub mod text;
pub mod vocab;
pub mod writer;

pub use context::Context;
pub use error::Error;
pub use from_ofn::{FromFunctional, from_str, try_from_str};
pub use from_pair::FromPair;
pub use writer::{AsFunctional, Functional};

verus! {

/// Render an entire OWL document to a string: the prefix declarations of
/// `prefixes`, when given, then the ontology, with its IRIs abbreviated by
/// `prefixes` where they can be.
pub fn to_string(ontology: &model::Ontology, prefixes: Option<&PrefixMapping>) -> (r: String)
    ensures
        r@ == rendering::w_document(
            ontology@,
            match prefixes {
                Some(p) => Some(prefixes::prefixes_of(*p)),
                None => None,
            },
        ),
{
    let mut dest = String::new();
    match prefixes {
        Some(pm) => writer::write_prefixes(pm, &mut dest),
        None => {},
    }
    let ctx = Context::new(prefixes);
    ontology.write_ofn(&ctx, &mut dest);
    assert(dest@ =~= rendering::w_document(
        ontology@,
        match prefixes {
            Some(p) => Some(prefixes::prefixes_of(*p)),
            None => None,
        },
    ));
    dest
}

} // verus!
