//! Reading ontologies and entire documents.
use crate::sets::{axiom_set, set_of_axioms};
use crate::prefix_laws::{declares_exactly, prefix_declarations_declare};
use vstd::prelude::*;
use curie::PrefixMapping;
use crate::axiom_reader::read_axiom;
use crate::context::Context;
use crate::error::{Failure, SpecError};
use crate::grammar::{
    Px, Read, bare, concat, declare, declare_all, lemma_annotation_seq_star, lemma_concat_cons,
    lemma_star_lift, lift, lift_read, no_prefixes, ontology_ids, prefix_declarations,
    r_annotation, r_annotation_seq, r_axiom, r_document, r_import, r_ontology,
    r_prefix_declaration, star,
};
use crate::lexical::{lemma_prefix_not_reserved, lemma_token_bounds, ws};
use crate::model::{
    AnnotatedAxiom, Annotation, Axiom, IRI, Ontology, OntologyID, SpecAnnotatedAxiom, SpecAnnotation,
    SpecAxiom, SpecOntology,
};
use crate::parser::{
    Reading, Readings, close_paren, lemma_concat_empty, open_paren, push_result, read_annotation,
    read_iri, read_view, reads_view, result_view, results_view,
};
use crate::prefixes::{
    SpecPrefixes, add_prefix, new_prefix_mapping, prefixes_of, set_default_prefix,
};
use crate::scan::{find_letters_end, matches_word, opt_text, read_full_iri, read_prefix_name, skip_ws};

verus! {

/// An import, as an axiom without annotations.
pub open spec fn r_bare_import(s: Seq<char>, p: int, px: Px) -> Read<SpecAnnotatedAxiom> {
    lift_read(r_import(s, p, px), |a: SpecAxiom| bare(a))
}

/// An ontology annotation, as an axiom without annotations.
pub open spec fn r_ontology_annotation(s: Seq<char>, p: int, px: Px) -> Read<SpecAnnotatedAxiom> {
    lift_read(r_annotation(s, p, px), |a: SpecAnnotation| bare(SpecAxiom::OntologyAnnotation(a)))
}

/// See [`r_import`].
pub fn read_import(s: &Vec<char>, p: usize, ctx: &Context) -> (r: Reading<Axiom>)
    requires
        p <= s.len(),
    ensures
        read_view(r) == r_import(s@, p as int, ctx@),
        r matches Some((_, e)) ==> p < e <= s.len(),
{
    let le = find_letters_end(s, p);
    if !matches_word(s, p, le, "Import") {
        return None;
    }
    let q = match open_paren(s, le) {
        None => return None,
        Some(q) => q,
    };
    let (i, e) = match read_iri(s, skip_ws(s, q), ctx) {
        None => return None,
        Some(x) => x,
    };
    match close_paren(s, e) {
        None => None,
        Some(f) => Some(
            (
                match i {
                    Ok(i) => Ok(Axiom::Import(i)),
                    Err(x) => Err(x),
                },
                f,
            ),
        ),
    }
}

/// See [`r_bare_import`].
pub fn read_bare_import(s: &Vec<char>, p: usize, ctx: &Context) -> (r: Reading<AnnotatedAxiom>)
    requires
        p <= s.len(),
    ensures
        read_view(r) == r_bare_import(s@, p as int, ctx@),
        r matches Some((_, e)) ==> p < e <= s.len(),
{
    match read_import(s, p, ctx) {
        None => None,
        Some((v, e)) => Some(
            (
                match v {
                    Ok(ax) => {
                        let ann: Vec<Annotation> = Vec::new();
                        assert(ann@.map_values(|x: Annotation| x@) =~= Seq::<SpecAnnotation>::empty());
                        Ok(AnnotatedAxiom { ax, ann })
                    },
                    Err(x) => Err(x),
                },
                e,
            ),
        ),
    }
}

/// See [`r_ontology_annotation`].
pub fn read_ontology_annotation(s: &Vec<char>, p: usize, ctx: &Context) -> (r: Reading<AnnotatedAxiom>)
    requires
        p <= s.len(),
    ensures
        read_view(r) == r_ontology_annotation(s@, p as int, ctx@),
        r matches Some((_, e)) ==> p < e <= s.len(),
{
    match read_annotation(s, p, ctx) {
        None => None,
        Some((v, e)) => Some(
            (
                match v {
                    Ok(a) => {
                        let ann: Vec<Annotation> = Vec::new();
                        assert(ann@.map_values(|x: Annotation| x@) =~= Seq::<SpecAnnotation>::empty());
                        Ok(AnnotatedAxiom { ax: Axiom::OntologyAnnotation(a), ann })
                    },
                    Err(x) => Err(x),
                },
                e,
            ),
        ),
    }
}

/// Zero or more imports, as axioms without annotations, each after white space (see [`star`]).
pub fn read_bare_imports(s: &Vec<char>, p: usize, ctx: &Context) -> (r: Readings<AnnotatedAxiom>)
    requires
        p <= s.len(),
    ensures
        reads_view(r) == star(s@, p as int, |t: int| r_bare_import(s@, t, ctx@)),
        p <= r.2 <= s.len(),
{
    let ghost f = |t: int| r_bare_import(s@, t, ctx@);
    let mut acc: Result<Vec<AnnotatedAxiom>, Failure> = Ok(Vec::new());
    let mut n: usize = 0;
    let mut pos = p;
    loop
        invariant
            f == (|t: int| r_bare_import(s@, t, ctx@)),
            p <= pos <= s.len(),
            n <= pos - p,
            concat(results_view(acc), star(s@, pos as int, f).0) == star(s@, p as int, f).0,
            n + star(s@, pos as int, f).1 == star(s@, p as int, f).1,
            star(s@, pos as int, f).2 == star(s@, p as int, f).2,
        ensures
            p <= pos <= s.len(),
            results_view(acc) == star(s@, p as int, f).0,
            n == star(s@, p as int, f).1,
            pos == star(s@, p as int, f).2,
        decreases s.len() - pos,
    {
        let q = skip_ws(s, pos);
        match read_bare_import(s, q, ctx) {
            Some((v, e)) => {
                if e <= pos {
                    proof {
                        lemma_concat_empty(results_view(acc));
                    }
                    break;
                }
                let ghost rest = star(s@, e as int, f);
                proof {
                    lemma_concat_cons(results_view(acc), result_view(v), rest.0);
                }
                acc = push_result(acc, v);
                n = n + 1;
                pos = e;
            },
            None => {
                proof {
                    lemma_concat_empty(results_view(acc));
                }
                break;
            },
        }
    }
    (acc, n, pos)
}

/// Zero or more ontology annotations, as axioms without annotations, each after white space (see [`star`]).
pub fn read_ontology_annotations(s: &Vec<char>, p: usize, ctx: &Context) -> (r: Readings<AnnotatedAxiom>)
    requires
        p <= s.len(),
    ensures
        reads_view(r) == star(s@, p as int, |t: int| r_ontology_annotation(s@, t, ctx@)),
        p <= r.2 <= s.len(),
{
    let ghost f = |t: int| r_ontology_annotation(s@, t, ctx@);
    let mut acc: Result<Vec<AnnotatedAxiom>, Failure> = Ok(Vec::new());
    let mut n: usize = 0;
    let mut pos = p;
    loop
        invariant
            f == (|t: int| r_ontology_annotation(s@, t, ctx@)),
            p <= pos <= s.len(),
            n <= pos - p,
            concat(results_view(acc), star(s@, pos as int, f).0) == star(s@, p as int, f).0,
            n + star(s@, pos as int, f).1 == star(s@, p as int, f).1,
            star(s@, pos as int, f).2 == star(s@, p as int, f).2,
        ensures
            p <= pos <= s.len(),
            results_view(acc) == star(s@, p as int, f).0,
            n == star(s@, p as int, f).1,
            pos == star(s@, p as int, f).2,
        decreases s.len() - pos,
    {
        let q = skip_ws(s, pos);
        match read_ontology_annotation(s, q, ctx) {
            Some((v, e)) => {
                if e <= pos {
                    proof {
                        lemma_concat_empty(results_view(acc));
                    }
                    break;
                }
                let ghost rest = star(s@, e as int, f);
                proof {
                    lemma_concat_cons(results_view(acc), result_view(v), rest.0);
                }
                acc = push_result(acc, v);
                n = n + 1;
                pos = e;
            },
            None => {
                proof {
                    lemma_concat_empty(results_view(acc));
                }
                break;
            },
        }
    }
    (acc, n, pos)
}

/// Zero or more axioms, each after white space (see [`star`]).
pub fn read_axioms(s: &Vec<char>, p: usize, ctx: &Context) -> (r: Readings<AnnotatedAxiom>)
    requires
        p <= s.len(),
    ensures
        reads_view(r) == star(s@, p as int, |t: int| r_axiom(s@, t, ctx@)),
        p <= r.2 <= s.len(),
{
    let ghost f = |t: int| r_axiom(s@, t, ctx@);
    let mut acc: Result<Vec<AnnotatedAxiom>, Failure> = Ok(Vec::new());
    let mut n: usize = 0;
    let mut pos = p;
    loop
        invariant
            f == (|t: int| r_axiom(s@, t, ctx@)),
            p <= pos <= s.len(),
            n <= pos - p,
            concat(results_view(acc), star(s@, pos as int, f).0) == star(s@, p as int, f).0,
            n + star(s@, pos as int, f).1 == star(s@, p as int, f).1,
            star(s@, pos as int, f).2 == star(s@, p as int, f).2,
        ensures
            p <= pos <= s.len(),
            results_view(acc) == star(s@, p as int, f).0,
            n == star(s@, p as int, f).1,
            pos == star(s@, p as int, f).2,
        decreases s.len() - pos,
    {
        let q = skip_ws(s, pos);
        match read_axiom(s, q, ctx) {
            Some((v, e)) => {
                if e <= pos {
                    proof {
                        lemma_concat_empty(results_view(acc));
                    }
                    break;
                }
                let ghost rest = star(s@, e as int, f);
                proof {
                    lemma_concat_cons(results_view(acc), result_view(v), rest.0);
                }
                acc = push_result(acc, v);
                n = n + 1;
                pos = e;
            },
            None => {
                proof {
                    lemma_concat_empty(results_view(acc));
                }
                break;
            },
        }
    }
    (acc, n, pos)
}

/// Mathematical form of an optional IRI.
pub open spec fn opt_iri(o: Option<IRI>) -> Option<Seq<char>> {
    match o {
        Some(i) => Some(i@),
        None => None,
    }
}

/// See [`ontology_ids`].
fn read_ontology_ids(s: &Vec<char>, q: usize, ctx: &Context) -> (r: (
    Result<(Option<IRI>, Option<IRI>), Failure>,
    usize,
))
    requires
        q <= s.len(),
    ensures
        ontology_ids(s@, q as int, ctx@) == (
            match r.0 {
                Ok((a, b)) => Ok((opt_iri(a), opt_iri(b))),
                Err(f) => Err(f@),
            },
            r.1 as int,
        ),
        q <= r.1 <= s.len(),
{
    match read_iri(s, skip_ws(s, q), ctx) {
        None => (Ok((None, None)), q),
        Some((i, e1)) => match read_iri(s, skip_ws(s, e1), ctx) {
            None => (
                match i {
                    Ok(x) => Ok((Some(x), None)),
                    Err(x) => Err(x),
                },
                e1,
            ),
            Some((v, e2)) => (
                match i {
                    Err(x) => Err(x),
                    Ok(a) => match v {
                        Err(x) => Err(x),
                        Ok(b) => Ok((Some(a), Some(b))),
                    },
                },
                e2,
            ),
        },
    }
}

/// Imports read as bare axioms are the imports read, made bare.
proof fn lemma_bare_imports(s: Seq<char>, p: int, px: Px)
    ensures
        star(s, p, |t: int| r_bare_import(s, t, px)) == (
            lift(
                star(s, p, |t: int| r_import(s, t, px)).0,
                |v: Seq<SpecAxiom>| v.map_values(|a: SpecAxiom| bare(a)),
            ),
            star(s, p, |t: int| r_import(s, t, px)).1,
            star(s, p, |t: int| r_import(s, t, px)).2,
        ),
{
    let r = |t: int| r_import(s, t, px);
    let f = |a: SpecAxiom| bare(a);
    assert(star(s, p, r) == star(s, p, |t: int| r_import(s, t, px)));
    assert((|t: int| r_bare_import(s, t, px)) =~= (|t: int| lift_read(r(t), f)));
    lemma_star_lift(s, p, r, f);
    assert((|v: Seq<SpecAxiom>| v.map_values(f)) =~= (|v: Seq<SpecAxiom>| v.map_values(|a: SpecAxiom| bare(a))));
}

/// Ontology annotations read as bare axioms are the annotations read, made
/// bare.
proof fn lemma_ontology_annotations(s: Seq<char>, p: int, px: Px)
    ensures
        star(s, p, |t: int| r_ontology_annotation(s, t, px)) == (
            lift(
                r_annotation_seq(s, p, px).0,
                |v: Seq<SpecAnnotation>| v.map_values(|a: SpecAnnotation| bare(SpecAxiom::OntologyAnnotation(a))),
            ),
            r_annotation_seq(s, p, px).1,
            r_annotation_seq(s, p, px).2,
        ),
{
    let r = |t: int| r_annotation(s, t, px);
    let f = |a: SpecAnnotation| bare(SpecAxiom::OntologyAnnotation(a));
    assert(star(s, p, r) == star(s, p, |t: int| r_annotation(s, t, px)));
    assert((|t: int| r_ontology_annotation(s, t, px)) =~= (|t: int| lift_read(r(t), f)));
    lemma_star_lift(s, p, r, f);
    lemma_annotation_seq_star(s, p, px);
    assert((|v: Seq<SpecAnnotation>| v.map_values(f)) =~= (|v: Seq<SpecAnnotation>| v.map_values(
        |a: SpecAnnotation| bare(SpecAxiom::OntologyAnnotation(a)),
    )));
}

/// The ontology made of its IRIs and of its imports, annotations and axioms
/// as bare or annotated axioms, in order, each axiom once; the first
/// failure wins.
fn build_ontology(
    ids: Result<(Option<IRI>, Option<IRI>), Failure>,
    imports: Result<Vec<AnnotatedAxiom>, Failure>,
    anns: Result<Vec<AnnotatedAxiom>, Failure>,
    axioms: Result<Vec<AnnotatedAxiom>, Failure>,
) -> (r: Result<Ontology, Failure>)
    ensures
        result_view(r) == match ids {
            Err(f) => Err(f@),
            Ok((iri, viri)) => lift(
                concat(concat(results_view(imports), results_view(anns)), results_view(axioms)),
                |all: Seq<SpecAnnotatedAxiom>| SpecOntology { iri: opt_iri(iri), viri: opt_iri(viri), axioms: axiom_set(all) },
            ),
        },
{
    match ids {
        Err(x) => Err(x),
        Ok((iri, viri)) => match imports {
            Err(x) => Err(x),
            Ok(mut all) => match anns {
                Err(x) => Err(x),
                Ok(mut more) => match axioms {
                    Err(x) => Err(x),
                    Ok(mut rest) => {
                        let ghost a = all@;
                        let ghost b = more@;
                        let ghost c = rest@;
                        all.append(&mut more);
                        all.append(&mut rest);
                        assert(all@.map_values(|x: AnnotatedAxiom| x@) =~= a.map_values(
                            |x: AnnotatedAxiom| x@,
                        ) + b.map_values(|x: AnnotatedAxiom| x@) + c.map_values(|x: AnnotatedAxiom| x@));
                        Ok(Ontology { id: OntologyID { iri, viri }, axioms: set_of_axioms(all) })
                    },
                },
            },
        },
    }
}

/// See [`r_ontology`].
pub fn read_ontology(s: &Vec<char>, p: usize, ctx: &Context) -> (r: Reading<Ontology>)
    requires
        p <= s.len(),
    ensures
        read_view(r) == r_ontology(s@, p as int, ctx@),
        r matches Some((_, e)) ==> p < e <= s.len(),
{
    proof {
        reveal(r_ontology);
    }
    let le = find_letters_end(s, p);
    if !matches_word(s, p, le, "Ontology") {
        return None;
    }
    let q = match open_paren(s, le) {
        None => return None,
        Some(q) => q,
    };
    let (ids, t1) = read_ontology_ids(s, q, ctx);
    let (imports, _, t2) = read_bare_imports(s, t1, ctx);
    proof {
        lemma_bare_imports(s@, t1 as int, ctx@);
    }
    let (anns, _, t3) = read_ontology_annotations(s, t2, ctx);
    proof {
        lemma_ontology_annotations(s@, t2 as int, ctx@);
    }
    let (axioms, _, t4) = read_axioms(s, t3, ctx);
    let f = match close_paren(s, t4) {
        None => return None,
        Some(f) => f,
    };
    Some((build_ontology(ids, imports, anns, axioms), f))
}

/// See [`r_prefix_declaration`].
pub fn read_prefix_declaration(s: &Vec<char>, p: usize) -> (r: Option<((Option<String>, String), usize)>)
    requires
        p <= s.len(),
    ensures
        match r {
            None => r_prefix_declaration(s@, p as int) is None,
            Some(((name, iri), e)) => r_prefix_declaration(s@, p as int) == Some(
                ((opt_text(name), iri@), e as int),
            ) && p < e <= s.len() && (name matches Some(n) ==> n@ != seq!['_']),
        },
{
    let le = find_letters_end(s, p);
    if !matches_word(s, p, le, "Prefix") {
        return None;
    }
    let q = match open_paren(s, le) {
        None => return None,
        Some(q) => q,
    };
    let (name, e1) = match read_prefix_name(s, skip_ws(s, q)) {
        None => return None,
        Some(x) => x,
    };
    proof {
        lemma_token_bounds(s@, ws(s@, q as int));
        lemma_prefix_not_reserved(s@, ws(s@, q as int));
    }
    let t = skip_ws(s, e1);
    if t < s.len() && s[t] == '=' {
        let (iri, e2) = match read_full_iri(s, skip_ws(s, t + 1)) {
            None => return None,
            Some(x) => x,
        };
        proof {
            lemma_token_bounds(s@, ws(s@, t + 1));
        }
        match close_paren(s, e2) {
            None => None,
            Some(f) => Some(((name, iri), f)),
        }
    } else {
        None
    }
}

/// The prefix mapping that the prefix declarations from `p` on declare,
/// and the position after them (see [`prefix_declarations`]).
pub fn read_prefix_declarations(s: &Vec<char>, p: usize) -> (r: (PrefixMapping, usize))
    requires
        p <= s.len(),
    ensures
        prefixes_of(r.0) == declare_all(no_prefixes(), prefix_declarations(s@, p as int).0),
        declares_exactly(prefixes_of(r.0), prefix_declarations(s@, p as int).0),
        r.1 == prefix_declarations(s@, p as int).1,
        p <= r.1 <= s.len(),
{
    let mut m = new_prefix_mapping();
    let ghost mut done: Seq<(Option<Seq<char>>, Seq<char>)> = Seq::empty();
    let mut pos = p;
    loop
        invariant
            p <= pos <= s.len(),
            done + prefix_declarations(s@, pos as int).0 == prefix_declarations(s@, p as int).0,
            prefix_declarations(s@, pos as int).1 == prefix_declarations(s@, p as int).1,
            prefixes_of(m) == declare_all(no_prefixes(), done),
        ensures
            p <= pos <= s.len(),
            done == prefix_declarations(s@, p as int).0,
            pos == prefix_declarations(s@, p as int).1,
            prefixes_of(m) == declare_all(no_prefixes(), done),
        decreases s.len() - pos,
    {
        let q = skip_ws(s, pos);
        match read_prefix_declaration(s, q) {
            None => {
                assert(done + Seq::<(Option<Seq<char>>, Seq<char>)>::empty() =~= done);
                break;
            },
            Some(((name, iri), e)) => {
                if e <= pos {
                    assert(done + Seq::<(Option<Seq<char>>, Seq<char>)>::empty() =~= done);
                    break;
                }
                let ghost d = (opt_text(name), iri@);
                let ghost rest = prefix_declarations(s@, e as int).0;
                proof {
                    assert(done + (seq![d] + rest) =~= done.push(d) + rest);
                    assert(done.push(d).drop_last() =~= done);
                }
                match name {
                    Some(n) => {
                        let _ = add_prefix(&mut m, n.as_str(), iri.as_str());
                    },
                    None => set_default_prefix(&mut m, iri.as_str()),
                }
                proof {
                    done = done.push(d);
                }
                pos = e;
            },
        }
    }
    proof {
        prefix_declarations_declare(done);
    }
    (m, pos)
}

/// Mathematical form of a document reading.
pub open spec fn document_view(r: Option<Result<(Ontology, PrefixMapping), Failure>>) -> Option<
    Result<(SpecOntology, SpecPrefixes), SpecError>,
> {
    match r {
        None => None,
        Some(Ok((o, m))) => Some(Ok((o@, prefixes_of(m)))),
        Some(Err(f)) => Some(Err(f@)),
    }
}

/// See [`r_document`].
pub fn read_document(s: &Vec<char>) -> (r: Option<Result<(Ontology, PrefixMapping), Failure>>)
    ensures
        document_view(r) == r_document(s@),
{
    let (m, e1) = read_prefix_declarations(s, 0);
    let (o, e2) = {
        let ctx = Context::from_prefixes(&m);
        match read_ontology(s, skip_ws(s, e1), &ctx) {
            None => return None,
            Some(x) => x,
        }
    };
    if skip_ws(s, e2) != s.len() {
        return None;
    }
    match o {
        Ok(o) => Some(Ok((o, m))),
        Err(x) => Some(Err(x)),
    }
}

} // verus!
