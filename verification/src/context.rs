//! The context passed around while reading and writing documents.
use vstd::prelude::*;
use curie::PrefixMapping;
use crate::model::IRI;
use crate::prefixes::{SpecPrefixes, prefixes_of};

verus! {

/// A context to pass around while parsing and writing OWL functional
/// documents: an optional prefix mapping, used to expand abbreviated IRIs
/// when reading and to abbreviate IRIs when writing.
#[derive(Debug)]
pub struct Context<'a> {
    prefixes: Option<&'a PrefixMapping>,
}

impl<'a> View for Context<'a> {
    type V = Option<SpecPrefixes>;

    closed spec fn view(&self) -> Option<SpecPrefixes> {
        match self.prefixes {
            Some(p) => Some(prefixes_of(*p)),
            None => None,
        }
    }
}

impl<'a> Context<'a> {
    /// Create a new context with the given prefix mapping.
    pub fn new(prefixes: Option<&'a PrefixMapping>) -> (r: Self)
        ensures
            r@ == match prefixes {
                Some(p) => Some(prefixes_of(*p)),
                None => None::<SpecPrefixes>,
            },
    {
        Context { prefixes }
    }

    /// A context without prefix mapping.
    pub fn empty() -> (r: Self)
        ensures
            r@ == None::<SpecPrefixes>,
    {
        Context { prefixes: None }
    }

    /// A context with the given prefix mapping.
    pub fn from_prefixes(prefixes: &'a PrefixMapping) -> (r: Self)
        ensures
            r@ == Some(prefixes_of(*prefixes)),
    {
        Context { prefixes: Some(prefixes) }
    }

    /// The prefix mapping of this context, if any.
    pub fn prefixes(&self) -> (r: Option<&'a PrefixMapping>)
        ensures
            match r {
                Some(p) => self@ == Some(prefixes_of(*p)),
                None => self@ == None::<SpecPrefixes>,
            },
    {
        self.prefixes
    }

    /// Obtain an IRI for the given string.
    pub fn iri(&self, s: &str) -> (r: IRI)
        ensures
            r@ == s@,
    {
        IRI(String::from_str(s))
    }
}

impl<'a> From<&'a PrefixMapping> for Context<'a> {
    /// A context with the given prefix mapping.
    fn from(prefixes: &'a PrefixMapping) -> (r: Self)
        ensures
            r@ == Some(prefixes_of(*prefixes)),
    {
        Context { prefixes: Some(prefixes) }
    }
}

impl<'a> vstd::std_specs::convert::FromSpecImpl<&'a PrefixMapping> for Context<'a> {
    open spec fn obeys_from_spec() -> bool {
        true
    }

    closed spec fn from_spec(v: &'a PrefixMapping) -> Self {
        Context { prefixes: Some(v) }
    }
}

} // verus!
