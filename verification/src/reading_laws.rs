//! Laws of reading, stated over the grammar: what an axiom keeps of its
//! annotations, which error wins, what unsupported constructs give, how
//! facets are looked up, and how documents and ontologies are assembled.
use vstd::prelude::*;
use crate::error::{ExpansionError, SpecError, Unsupported};
use crate::grammar::{
    Px, axiom_parts, ce_data_quantified, close_at, declare_all, document, facet_from, facet_of, lift, lift_read,
    no_prefixes, ontology_value, open_at, prefix_declarations, r_annotation_seq, r_annotation_value, r_axiom,
    r_chained_dp, r_dr, r_facet, r_iri, r_literal, r_ontology, star,
};
use crate::lexical::{abbreviated_iri, full_iri, letters_end, node_id, word, ws};
use crate::model::{
    Facet, SpecAnnotatedAxiom, SpecAnnotation, SpecAnnotationValue, SpecAxiom, SpecLiteral, SpecOntology,
};
use crate::prefixes::{SpecPrefixes, find_prefix};
use crate::sets::{annotation_set, annotations_sorted, axiom_set, lemma_annotation_set, lemma_axiom_set};
use crate::vocab::{facet_iri_text, facet_order};

verus! {

/// An axiom read without error keeps its annotations as a set: exactly the
/// annotations read before its parts, none dropped and none added, each
/// once, in increasing order.
pub proof fn axiom_annotations_kept(s: Seq<char>, p: int, px: Px)
    ensures
        match r_axiom(s, p, px) {
            Some((Ok(x), _)) => match open_at(s, letters_end(s, p)) {
                Some(q) => match r_annotation_seq(s, q, px).0 {
                    Ok(read) => {
                        &&& x.ann == annotation_set(read)
                        &&& x.ann.to_set() == read.to_set()
                        &&& annotations_sorted(x.ann)
                    },
                    Err(_) => false,
                },
                None => false,
            },
            _ => true,
        },
{
    reveal(r_axiom);
    match open_at(s, letters_end(s, p)) {
        Some(q) => match r_annotation_seq(s, q, px).0 {
            Ok(read) => lemma_annotation_set(read),
            Err(_) => {},
        },
        None => {},
    }
}

/// The first error of an axiom wins: an error in its annotations is the
/// axiom's error, and otherwise an error of the axiom is that of its parts.
/// No partly read axiom is given.
pub proof fn axiom_first_error(s: Seq<char>, p: int, px: Px)
    ensures
        match open_at(s, letters_end(s, p)) {
            None => r_axiom(s, p, px) is None,
            Some(q) => {
                let (anns, _, e0) = r_annotation_seq(s, q, px);
                match r_axiom(s, p, px) {
                    Some((Err(x), _)) => match anns {
                        Err(y) => x == y,
                        Ok(_) => (axiom_parts(word(s, p), s, ws(s, e0), px) matches Some((Err(y), _)) && x == y),
                    },
                    Some((Ok(_), _)) => anns is Ok && (axiom_parts(word(s, p), s, ws(s, e0), px) matches Some(
                        (Ok(_), _),
                    )),
                    None => true,
                }
            },
        },
{
    reveal(r_axiom);
}

/// An abbreviated IRI whose prefix is not declared, or read with no prefix
/// mapping, gives an expansion error.
pub proof fn undeclared_prefix_expansion_error(s: Seq<char>, p: int, px: Px, name: Seq<char>)
    requires
        full_iri(s, p) is None,
        abbreviated_iri(s, p) matches Some((prefix, _, _)) && prefix == Some(name),
        px matches Some(m) ==> find_prefix(m.entries, name) is None,
    ensures
        r_iri(s, p, px) matches Some((Err(SpecError::Expansion(ExpansionError::Invalid)), _)),
{
}

/// An existential or universal data restriction with a chain of two or more
/// data properties, read in full, is refused as unsupported once its first
/// data property reads, whatever follows.
pub proof fn data_property_chain_unsupported(s: Seq<char>, q: int, px: Px, all: bool, d: Seq<char>, e1: int)
    requires
        r_iri(s, ws(s, q), px) == Some((Ok::<Seq<char>, SpecError>(d), e1)),
        r_chained_dp(s, ws(s, e1), px) matches Some((_, e)) && e1 < e <= s.len(),
        ce_data_quantified(s, q, px, all) is Some,
    ensures
        ce_data_quantified(s, q, px, all) matches Some((v, _)) && v == Err::<
            crate::model::SpecClassExpression,
            SpecError,
        >(
            SpecError::Unsupported(
                if all {
                    Unsupported::DataAllValuesFromChain
                } else {
                    Unsupported::DataSomeValuesFromChain
                },
            ),
        ),
{
    let (_, k, _) = star(s, e1, |t: int| r_chained_dp(s, t, px));
    assert(k > 0);
}

/// An annotation value is a blank node (which stops the reading), an IRI,
/// or a literal, tried in this order.
pub proof fn annotation_value_read(s: Seq<char>, p: int, px: Px)
    ensures
        node_id(s, p) is Some ==> r_annotation_value(s, p, px) matches Some((Err(SpecError::Abort), _)),
        node_id(s, p) is None && r_iri(s, p, px) is Some ==> r_annotation_value(s, p, px) == match r_iri(s, p, px) {
            Some((v, e)) => Some((lift(v, |i: Seq<char>| SpecAnnotationValue::IRI(i)), e)),
            None => None,
        },
        node_id(s, p) is None && r_iri(s, p, px) is None ==> r_annotation_value(s, p, px) == lift_read(
            r_literal(s, p, px),
            |l: SpecLiteral| SpecAnnotationValue::Literal(l),
        ),
{
}

/// Two facets have two IRIs.
#[verifier::spinoff_prover]
#[verifier::rlimit(100)]
pub proof fn lemma_facet_texts_distinct(g: Facet, h: Facet)
    requires
        g != h,
    ensures
        facet_iri_text(g) != facet_iri_text(h),
{
    reveal_strlit("http://www.w3.org/2001/XMLSchema#length");
    reveal_strlit("http://www.w3.org/2001/XMLSchema#minLength");
    reveal_strlit("http://www.w3.org/2001/XMLSchema#maxLength");
    reveal_strlit("http://www.w3.org/2001/XMLSchema#pattern");
    reveal_strlit("http://www.w3.org/2001/XMLSchema#minInclusive");
    reveal_strlit("http://www.w3.org/2001/XMLSchema#minExclusive");
    reveal_strlit("http://www.w3.org/2001/XMLSchema#maxInclusive");
    reveal_strlit("http://www.w3.org/2001/XMLSchema#maxExclusive");
    reveal_strlit("http://www.w3.org/2001/XMLSchema#totalDigits");
    reveal_strlit("http://www.w3.org/2001/XMLSchema#fractionDigits");
    reveal_strlit("http://www.w3.org/1999/02/22-rdf-syntax-ns#langRange");
    let a = facet_iri_text(g);
    let b = facet_iri_text(h);
    if a.len() == b.len() {
        assert(a[34] != b[34] || a[36] != b[36]);
    }
}

/// Looking a facet up from index `i` of [`facet_order`] finds one whose IRI
/// it is, or none when no facet from there on has that IRI.
pub proof fn lemma_facet_from(iri: Seq<char>, i: int)
    requires
        0 <= i <= 11,
    ensures
        facet_from(iri, i) matches Some(g) ==> facet_iri_text(g) == iri,
        facet_from(iri, i) is None == (forall|k: int| i <= k < 11 ==> facet_iri_text(#[trigger] facet_order()[k]) != iri),
    decreases 11 - i,
{
    if i < 11 {
        lemma_facet_from(iri, i + 1);
    }
}

/// The facet of an IRI is the facet whose IRI it is, and there is none
/// when no facet has that IRI.
pub proof fn facet_lookup(iri: Seq<char>, f: Facet)
    ensures
        (facet_of(iri) == Some(f)) == (facet_iri_text(f) == iri),
        facet_of(iri) is None == (forall|g: Facet| facet_iri_text(g) != iri),
{
    lemma_facet_from(iri, 0);
    lemma_facet_index(f);
    if facet_iri_text(f) == iri {
        assert(facet_iri_text(facet_order()[facet_index(f)]) == iri);
        match facet_of(iri) {
            Some(g) => {
                if g != f {
                    lemma_facet_texts_distinct(g, f);
                }
            },
            None => {},
        }
    }
    if facet_of(iri) is None {
        assert forall|g: Facet| facet_iri_text(g) != iri by {
            lemma_facet_index(g);
            assert(facet_iri_text(facet_order()[facet_index(g)]) != iri);
        }
    }
}

/// The place of a facet in [`facet_order`].
pub open spec fn facet_index(f: Facet) -> int {
    match f {
        Facet::Length => 0,
        Facet::MinLength => 1,
        Facet::MaxLength => 2,
        Facet::Pattern => 3,
        Facet::MinInclusive => 4,
        Facet::MinExclusive => 5,
        Facet::MaxInclusive => 6,
        Facet::MaxExclusive => 7,
        Facet::TotalDigits => 8,
        Facet::FractionDigits => 9,
        Facet::LangRange => 10,
    }
}

/// Each facet stands at its place in [`facet_order`].
pub proof fn lemma_facet_index(f: Facet)
    ensures
        0 <= facet_index(f) < 11,
        facet_order()[facet_index(f)] == f,
{
}

/// A facet read where an IRI stands: the facet of that IRI, or an invalid
/// facet error when there is none.
pub proof fn facet_read(s: Seq<char>, p: int, px: Px)
    ensures
        r_facet(s, p, px) == match r_iri(s, p, px) {
            None => None,
            Some((Err(x), e)) => Some((Err(x), e)),
            Some((Ok(iri), e)) => Some(
                (
                    match facet_of(iri) {
                        Some(f) => Ok(f),
                        None => Err(SpecError::InvalidFacet(iri)),
                    },
                    e,
                ),
            ),
        },
{
}

/// An ontology is assembled from what was read, in order: its IRIs, then its
/// imports, its annotations and its axioms, the first error winning; its
/// axioms form a set, holding each of these once and nothing else.
pub proof fn ontology_assembled(
    ids: Result<(Option<Seq<char>>, Option<Seq<char>>), SpecError>,
    imports: Result<Seq<SpecAxiom>, SpecError>,
    anns: Result<Seq<SpecAnnotation>, SpecError>,
    axioms: Result<Seq<SpecAnnotatedAxiom>, SpecError>,
)
    ensures
        match (ids, imports, anns, axioms) {
            (Err(x), _, _, _) => ontology_value(ids, imports, anns, axioms) == Err::<SpecOntology, SpecError>(x),
            (Ok(_), Err(x), _, _) => ontology_value(ids, imports, anns, axioms) == Err::<SpecOntology, SpecError>(x),
            (Ok(_), Ok(_), Err(x), _) => ontology_value(ids, imports, anns, axioms) == Err::<SpecOntology, SpecError>(x),
            (Ok(_), Ok(_), Ok(_), Err(x)) => ontology_value(ids, imports, anns, axioms) == Err::<SpecOntology, SpecError>(x),
            (Ok((iri, viri)), Ok(vi), Ok(va), Ok(vx)) => {
                let all = vi.map_values(|a: SpecAxiom| crate::grammar::bare(a)) + va.map_values(
                    |a: SpecAnnotation| crate::grammar::bare(SpecAxiom::OntologyAnnotation(a)),
                ) + vx;
                &&& ontology_value(ids, imports, anns, axioms) == Ok::<SpecOntology, SpecError>(
                    SpecOntology { iri, viri, axioms: axiom_set(all) },
                )
                &&& axiom_set(all).no_duplicates()
                &&& axiom_set(all).to_set() == all.to_set()
            },
        },
{
    match (ids, imports, anns, axioms) {
        (Ok(_), Ok(vi), Ok(va), Ok(vx)) => {
            let all = vi.map_values(|a: SpecAxiom| crate::grammar::bare(a)) + va.map_values(
                |a: SpecAnnotation| crate::grammar::bare(SpecAxiom::OntologyAnnotation(a)),
            ) + vx;
            lemma_axiom_set(all);
        },
        _ => {},
    }
}

/// A document declares its prefixes first, each in turn from no prefixes at
/// all (`Prefix(:=<i>)` sets the default, `Prefix(p:=<i>)` maps `p`), and
/// its ontology is read with exactly these prefixes, which come with it.
pub proof fn document_prefixes(s: Seq<char>)
    ensures
        ({
            let (ds, e1) = prefix_declarations(s, 0);
            let m = declare_all(no_prefixes(), ds);
            match document(s) {
                Ok((o, n)) => n == m && (r_ontology(s, ws(s, e1), Some(m)) matches Some((Ok(o2), _)) && o2 == o),
                Err(_) => true,
            }
        }),
{
}

} // verus!
