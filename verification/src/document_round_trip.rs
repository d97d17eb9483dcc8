//! What reading gives back of what writing wrote, for whole documents: a
//! document written without prefixes, read back, is the ontology, with no
//! prefixes declared.
use crate::sets::lemma_axiom_set_of_distinct;
use vstd::prelude::*;
use crate::axiom_round_trip::{
    annotated_axiom_rt, annotation_rt, lemma_no_annotations, lemma_read_written_annotation,
    lemma_read_written_axiom,
};
use crate::error::SpecError;
use crate::grammar::{
    Px, bare, close_at, declare_all, document, no_prefixes, ontology_ids, ontology_value, open_at,
    prefix_declarations, r_annotation_seq, r_axiom, r_import, r_iri, r_ontology, star,
};
use crate::lexical::{letters_end, word, ws};
use crate::model::{SpecAnnotatedAxiom, SpecAnnotation, SpecAxiom, SpecOntology};
use crate::rendering::{
    w_annotated_axiom, w_annotation, w_document, w_imports, w_iri, w_ontology_annotations,
    w_ontology_id, w_other_axioms,
};
use crate::round_trip::{iri_text, keyword, lemma_keyword_at, lemma_read_written_iri};

verus! {

// ---------------------------------------------------------------------------
// The three parts of an ontology's axioms
// ---------------------------------------------------------------------------

/// An import, without annotations (they are not written), of an IRI that
/// reads back as itself.
pub open spec fn import_rt(x: SpecAnnotatedAxiom) -> bool {
    &&& x.ann.len() == 0
    &&& x.ax matches SpecAxiom::Import(i) && iri_text(i)
}

/// An ontology annotation, without annotations (they are not written),
/// that reads back as itself.
pub open spec fn ontology_annotation_rt(x: SpecAnnotatedAxiom) -> bool {
    &&& x.ann.len() == 0
    &&& x.ax matches SpecAxiom::OntologyAnnotation(an) && annotation_rt(an)
}

/// An axiom that is neither an import nor an ontology annotation, and that
/// reads back as itself.
pub open spec fn other_axiom_rt(x: SpecAnnotatedAxiom) -> bool {
    &&& !(x.ax is Import)
    &&& !(x.ax is OntologyAnnotation)
    &&& annotated_axiom_rt(x)
}

/// The axioms `v` are, in this order, imports up to `i`, then ontology
/// annotations up to `j`, then other axioms, each reading back as itself.
pub open spec fn parts_rt(v: Seq<SpecAnnotatedAxiom>, i: int, j: int) -> bool {
    &&& 0 <= i <= j <= v.len()
    &&& forall|k: int| 0 <= k < i ==> import_rt(#[trigger] v[k])
    &&& forall|k: int| i <= k < j ==> ontology_annotation_rt(#[trigger] v[k])
    &&& forall|k: int| j <= k < v.len() ==> other_axiom_rt(#[trigger] v[k])
}

/// An ontology whose document, written without prefixes, reads back as
/// itself: its IRIs read back as themselves, a version IRI comes with an
/// ontology IRI (it is written only then), and its axioms are its imports,
/// then its ontology annotations, then its other axioms, the order in which
/// they are written, none of them twice (an ontology holds a set).
pub open spec fn ontology_rt(o: SpecOntology) -> bool {
    &&& o.iri matches Some(i) ==> iri_text(i)
    &&& o.viri matches Some(v) ==> iri_text(v) && o.iri is Some
    &&& exists|i: int, j: int| parts_rt(o.axioms, i, j)
    &&& o.axioms.no_duplicates()
}

// ---------------------------------------------------------------------------
// Written parts
// ---------------------------------------------------------------------------

/// The written imports of `u + v` are those of `u`, then those of `v`.
pub proof fn lemma_imports_concat(u: Seq<SpecAnnotatedAxiom>, v: Seq<SpecAnnotatedAxiom>)
    ensures
        w_imports(u + v, None) == w_imports(u, None) + w_imports(v, None),
    decreases v.len(),
{
    if v.len() == 0 {
        assert(u + v =~= u);
        assert(w_imports(u, None) + w_imports(v, None) =~= w_imports(u, None));
    } else {
        lemma_imports_concat(u, v.drop_last());
        assert((u + v).drop_last() =~= u + v.drop_last());
        assert((u + v).last() == v.last());
        assert(w_imports(u + v, None) =~= w_imports(u, None) + w_imports(v, None));
    }
}

/// The written ontology annotations of `u + v` are those of `u`, then
/// those of `v`.
pub proof fn lemma_ontology_annotations_concat(u: Seq<SpecAnnotatedAxiom>, v: Seq<SpecAnnotatedAxiom>)
    ensures
        w_ontology_annotations(u + v, None) == w_ontology_annotations(u, None) + w_ontology_annotations(
            v,
            None,
        ),
    decreases v.len(),
{
    if v.len() == 0 {
        assert(u + v =~= u);
        assert(w_ontology_annotations(u, None) + w_ontology_annotations(v, None) =~= w_ontology_annotations(
            u,
            None,
        ));
    } else {
        lemma_ontology_annotations_concat(u, v.drop_last());
        assert((u + v).drop_last() =~= u + v.drop_last());
        assert((u + v).last() == v.last());
        assert(w_ontology_annotations(u + v, None) =~= w_ontology_annotations(u, None)
            + w_ontology_annotations(v, None));
    }
}

/// The other written axioms of `u + v` are those of `u`, then those of `v`.
pub proof fn lemma_other_axioms_concat(u: Seq<SpecAnnotatedAxiom>, v: Seq<SpecAnnotatedAxiom>)
    ensures
        w_other_axioms(u + v, None) == w_other_axioms(u, None) + w_other_axioms(v, None),
    decreases v.len(),
{
    if v.len() == 0 {
        assert(u + v =~= u);
        assert(w_other_axioms(u, None) + w_other_axioms(v, None) =~= w_other_axioms(u, None));
    } else {
        lemma_other_axioms_concat(u, v.drop_last());
        assert((u + v).drop_last() =~= u + v.drop_last());
        assert((u + v).last() == v.last());
        assert(w_other_axioms(u + v, None) =~= w_other_axioms(u, None) + w_other_axioms(v, None));
    }
}

/// Axioms among which there is no import write no imports.
pub proof fn lemma_no_imports(v: Seq<SpecAnnotatedAxiom>)
    requires
        forall|k: int| 0 <= k < v.len() ==> !((#[trigger] v[k]).ax is Import),
    ensures
        w_imports(v, None) == Seq::<char>::empty(),
    decreases v.len(),
{
    if v.len() > 0 {
        lemma_no_imports(v.drop_last());
        assert(!(v[v.len() - 1].ax is Import));
    }
}

/// Axioms among which there is no ontology annotation write no ontology
/// annotations.
pub proof fn lemma_no_ontology_annotations(v: Seq<SpecAnnotatedAxiom>)
    requires
        forall|k: int| 0 <= k < v.len() ==> !((#[trigger] v[k]).ax is OntologyAnnotation),
    ensures
        w_ontology_annotations(v, None) == Seq::<char>::empty(),
    decreases v.len(),
{
    if v.len() > 0 {
        lemma_no_ontology_annotations(v.drop_last());
        assert(!(v[v.len() - 1].ax is OntologyAnnotation));
    }
}

/// Imports and ontology annotations write no other axioms.
pub proof fn lemma_no_other_axioms(v: Seq<SpecAnnotatedAxiom>)
    requires
        forall|k: int| 0 <= k < v.len() ==> (#[trigger] v[k]).ax is Import || v[k].ax is OntologyAnnotation,
    ensures
        w_other_axioms(v, None) == Seq::<char>::empty(),
    decreases v.len(),
{
    if v.len() > 0 {
        lemma_no_other_axioms(v.drop_last());
        assert(v[v.len() - 1].ax is Import || v[v.len() - 1].ax is OntologyAnnotation);
    }
}

/// The line of an import.
pub open spec fn import_line(i: Seq<char>) -> Seq<char> {
    "Import("@ + w_iri(i, None) + ")\n"@
}

/// Written imports, when the first axiom is an import: its line, then the
/// rest.
pub proof fn lemma_imports_front(v: Seq<SpecAnnotatedAxiom>, i: Seq<char>)
    requires
        v.len() >= 1,
        v[0].ax == SpecAxiom::Import(i),
    ensures
        w_imports(v, None) == import_line(i) + w_imports(v.skip(1), None),
{
    lemma_imports_concat(v.take(1), v.skip(1));
    assert(v.take(1) + v.skip(1) =~= v);
    assert(v.take(1).drop_last() =~= Seq::<SpecAnnotatedAxiom>::empty());
    assert(w_imports(v.take(1).drop_last(), None) == Seq::<char>::empty());
    assert(v.take(1).last() == v[0]);
    assert(w_imports(v.take(1), None) =~= import_line(i));
}

/// Written ontology annotations, when the first axiom is one: its line,
/// then the rest.
pub proof fn lemma_ontology_annotations_front(v: Seq<SpecAnnotatedAxiom>, an: SpecAnnotation)
    requires
        v.len() >= 1,
        v[0].ax == SpecAxiom::OntologyAnnotation(an),
    ensures
        w_ontology_annotations(v, None) == w_annotation(an, None) + seq!['\n'] + w_ontology_annotations(
            v.skip(1),
            None,
        ),
{
    lemma_ontology_annotations_concat(v.take(1), v.skip(1));
    assert(v.take(1) + v.skip(1) =~= v);
    assert(v.take(1).drop_last() =~= Seq::<SpecAnnotatedAxiom>::empty());
    assert(w_ontology_annotations(v.take(1).drop_last(), None) == Seq::<char>::empty());
    assert(v.take(1).last() == v[0]);
    assert(w_ontology_annotations(v.take(1), None) =~= w_annotation(an, None) + seq!['\n']);
}

/// Other written axioms, when the first axiom is one: its line, then the
/// rest.
pub proof fn lemma_other_axioms_front(v: Seq<SpecAnnotatedAxiom>)
    requires
        v.len() >= 1,
        !(v[0].ax is Import),
        !(v[0].ax is OntologyAnnotation),
    ensures
        w_other_axioms(v, None) == w_annotated_axiom(v[0], None) + seq!['\n'] + w_other_axioms(
            v.skip(1),
            None,
        ),
{
    lemma_other_axioms_concat(v.take(1), v.skip(1));
    assert(v.take(1) + v.skip(1) =~= v);
    assert(v.take(1).drop_last() =~= Seq::<SpecAnnotatedAxiom>::empty());
    assert(w_other_axioms(v.take(1).drop_last(), None) == Seq::<char>::empty());
    assert(v.take(1).last() == v[0]);
    assert(w_other_axioms(v.take(1), None) =~= w_annotated_axiom(v[0], None) + seq!['\n']);
}

// ---------------------------------------------------------------------------
// Reading written lines
// ---------------------------------------------------------------------------

/// The line of an import that reads back as itself, read after any text
/// `a` and followed by any text `b`, is the import, up to its line end.
#[verifier::spinoff_prover]
pub proof fn lemma_read_written_import(a: Seq<char>, i: Seq<char>, b: Seq<char>, px: Px)
    requires
        iri_text(i),
    ensures
        r_import(a + import_line(i) + b, a.len() as int, px) == Some(
            (Ok::<SpecAxiom, SpecError>(SpecAxiom::Import(i)), a.len() + import_line(i).len() - 1),
        ),
        import_line(i).len() > 0,
        import_line(i)[0] == 'I',
        import_line(i)[import_line(i).len() - 1] == '\n',
        r_iri(a + import_line(i) + b, a.len() as int, px) is None,
{
    let s = a + import_line(i) + b;
    let k = "Import"@;
    let wi = w_iri(i, None);
    reveal_strlit("Import");
    reveal_strlit("Import(");
    reveal_strlit(")\n");
    assert(keyword(k)) by {
        reveal_with_fuel(letters_end, 8);
    }
    assert(import_line(i) =~= k + seq!['('] + wi + seq![')', '\n']);
    assert(s =~= a + k + (seq!['('] + wi + seq![')', '\n'] + b));
    lemma_keyword_at(a, k, seq!['('] + wi + seq![')', '\n'] + b, px);
    let a1 = a + k + seq!['('];
    assert(s =~= a1 + wi + (seq![')', '\n'] + b));
    assert(s[a1.len() as int] == '<');
    assert(ws(s, a1.len() as int) == a1.len());
    lemma_read_written_iri(a1, i, seq![')', '\n'] + b, px);
    let e = a1.len() + wi.len() + 0int;
    assert(s[e] == ')');
    assert(ws(s, e) == e);
}

/// The lines of imports that read back as themselves, after `a` in `s` and
/// followed by what no import starts, are read as the imports, from any
/// position `p` after which white space leads where `a` does.
#[verifier::spinoff_prover]
#[verifier::rlimit(40)]
pub proof fn lemma_read_written_imports(
    s: Seq<char>,
    a: Seq<char>,
    v: Seq<SpecAnnotatedAxiom>,
    b: Seq<char>,
    px: Px,
    p: int,
)
    requires
        forall|k: int| 0 <= k < v.len() ==> import_rt(#[trigger] v[k]),
        s == a + w_imports(v, None) + b,
        0 <= p <= a.len(),
        ws(s, p) == ws(s, a.len() as int),
        r_import(s, ws(s, a.len() + w_imports(v, None).len() + 0int), px) is None,
    ensures
        ({
            let (vals, n, e) = star(s, p, |t: int| r_import(s, t, px));
            &&& vals == Ok::<Seq<SpecAxiom>, SpecError>(v.map_values(|x: SpecAnnotatedAxiom| x.ax))
            &&& n == v.len()
            &&& p <= e <= a.len() + w_imports(v, None).len()
            &&& ws(s, e) == ws(s, a.len() + w_imports(v, None).len() + 0int)
        }),
    decreases v.len(),
{
    if v.len() == 0 {
        assert(w_imports(v, None) == Seq::<char>::empty());
        assert(v.map_values(|x: SpecAnnotatedAxiom| x.ax) =~= Seq::<SpecAxiom>::empty());
    } else {
        assert(import_rt(v[0]));
        let i = match v[0].ax {
            SpecAxiom::Import(i) => i,
            _ => Seq::empty(),
        };
        let rest = v.skip(1);
        lemma_imports_front(v, i);
        let line = import_line(i);
        let wr = w_imports(rest, None);
        assert(s =~= a + line + (wr + b));
        lemma_read_written_import(a, i, wr + b, px);
        assert(s[a.len() as int] == 'I');
        assert(ws(s, a.len() as int) == a.len());
        let e0 = a.len() + line.len() - 1int;
        let a2 = a + line;
        assert(s =~= a2 + wr + b);
        assert(s[e0] == '\n');
        assert(ws(s, e0) == ws(s, e0 + 1));
        assert forall|k: int| 0 <= k < rest.len() implies import_rt(#[trigger] rest[k]) by {
            assert(rest[k] == v[k + 1]);
        }
        lemma_read_written_imports(s, a2, rest, b, px, e0);
        assert(seq![SpecAxiom::Import(i)] + rest.map_values(|x: SpecAnnotatedAxiom| x.ax) =~= v.map_values(
            |x: SpecAnnotatedAxiom| x.ax,
        ));
    }
}

/// The annotation of an ontology annotation.
pub open spec fn annotation_of(x: SpecAnnotatedAxiom) -> SpecAnnotation {
    match x.ax {
        SpecAxiom::OntologyAnnotation(an) => an,
        _ => SpecAnnotation { ap: Seq::empty(), av: crate::model::SpecAnnotationValue::IRI(Seq::empty()) },
    }
}

/// The lines of ontology annotations that read back as themselves, after
/// `a` in `s` and followed by what no annotation starts, are read as the
/// annotations, from any position `p` after which white space leads where
/// `a` does.
#[verifier::spinoff_prover]
#[verifier::rlimit(40)]
pub proof fn lemma_read_written_annotation_lines(
    s: Seq<char>,
    a: Seq<char>,
    v: Seq<SpecAnnotatedAxiom>,
    b: Seq<char>,
    px: Px,
    p: int,
)
    requires
        forall|k: int| 0 <= k < v.len() ==> ontology_annotation_rt(#[trigger] v[k]),
        s == a + w_ontology_annotations(v, None) + b,
        0 <= p <= a.len(),
        ws(s, p) == ws(s, a.len() as int),
        word(s, ws(s, a.len() + w_ontology_annotations(v, None).len() + 0int)) != "Annotation"@,
    ensures
        ({
            let (vals, n, e) = r_annotation_seq(s, p, px);
            &&& vals == Ok::<Seq<SpecAnnotation>, SpecError>(v.map_values(|x: SpecAnnotatedAxiom| annotation_of(x)))
            &&& n == v.len()
            &&& p <= e <= a.len() + w_ontology_annotations(v, None).len()
            &&& ws(s, e) == ws(s, a.len() + w_ontology_annotations(v, None).len() + 0int)
        }),
    decreases v.len(),
{
    if v.len() == 0 {
        assert(w_ontology_annotations(v, None) == Seq::<char>::empty());
        lemma_no_annotations(s, p, px);
        assert(v.map_values(|x: SpecAnnotatedAxiom| annotation_of(x)) =~= Seq::<SpecAnnotation>::empty());
    } else {
        assert(ontology_annotation_rt(v[0]));
        let an = annotation_of(v[0]);
        let rest = v.skip(1);
        lemma_ontology_annotations_front(v, an);
        let wa = w_annotation(an, None);
        let wr = w_ontology_annotations(rest, None);
        assert(s =~= a + wa + (seq!['\n'] + wr + b));
        lemma_read_written_annotation(a, an, seq!['\n'] + wr + b, px);
        assert(s[a.len() as int] == 'A');
        assert(ws(s, a.len() as int) == a.len());
        let e0 = a.len() + wa.len() + 0int;
        let a2 = a + (wa + seq!['\n']);
        assert(s =~= a2 + wr + b);
        assert(s[e0] == '\n');
        assert(ws(s, e0) == ws(s, e0 + 1));
        assert forall|k: int| 0 <= k < rest.len() implies ontology_annotation_rt(#[trigger] rest[k]) by {
            assert(rest[k] == v[k + 1]);
        }
        lemma_read_written_annotation_lines(s, a2, rest, b, px, e0);
        assert(seq![an] + rest.map_values(|x: SpecAnnotatedAxiom| annotation_of(x)) =~= v.map_values(
            |x: SpecAnnotatedAxiom| annotation_of(x),
        ));
    }
}

/// The lines of other axioms that read back as themselves, after `a` in `s`
/// and followed by what no axiom starts, are read as the axioms, from any
/// position `p` after which white space leads where `a` does.
#[verifier::spinoff_prover]
#[verifier::rlimit(40)]
pub proof fn lemma_read_written_axiom_lines(
    s: Seq<char>,
    a: Seq<char>,
    v: Seq<SpecAnnotatedAxiom>,
    b: Seq<char>,
    px: Px,
    p: int,
)
    requires
        forall|k: int| 0 <= k < v.len() ==> other_axiom_rt(#[trigger] v[k]),
        s == a + w_other_axioms(v, None) + b,
        0 <= p <= a.len(),
        ws(s, p) == ws(s, a.len() as int),
        r_axiom(s, ws(s, a.len() + w_other_axioms(v, None).len() + 0int), px) is None,
    ensures
        ({
            let (vals, n, e) = star(s, p, |t: int| r_axiom(s, t, px));
            &&& vals == Ok::<Seq<SpecAnnotatedAxiom>, SpecError>(v)
            &&& n == v.len()
            &&& p <= e <= a.len() + w_other_axioms(v, None).len()
            &&& ws(s, e) == ws(s, a.len() + w_other_axioms(v, None).len() + 0int)
        }),
    decreases v.len(),
{
    if v.len() == 0 {
        assert(w_other_axioms(v, None) == Seq::<char>::empty());
        assert(v =~= Seq::<SpecAnnotatedAxiom>::empty());
    } else {
        assert(other_axiom_rt(v[0]));
        let rest = v.skip(1);
        lemma_other_axioms_front(v);
        let wx = w_annotated_axiom(v[0], None);
        let wr = w_other_axioms(rest, None);
        assert(s =~= a + wx + (seq!['\n'] + wr + b));
        lemma_read_written_axiom(a, v[0], seq!['\n'] + wr + b, px);
        assert(s[a.len() as int] == wx[0]);
        assert(ws(s, a.len() as int) == a.len());
        let e0 = a.len() + wx.len() + 0int;
        let a2 = a + (wx + seq!['\n']);
        assert(s =~= a2 + wr + b);
        assert(s[e0] == '\n');
        assert(ws(s, e0) == ws(s, e0 + 1));
        assert forall|k: int| 0 <= k < rest.len() implies other_axiom_rt(#[trigger] rest[k]) by {
            assert(rest[k] == v[k + 1]);
        }
        lemma_read_written_axiom_lines(s, a2, rest, b, px, e0);
        assert(seq![v[0]] + rest =~= v);
    }
}

// ---------------------------------------------------------------------------
// Documents
// ---------------------------------------------------------------------------

/// A word whose first character is not `I` is not `Import`.
pub proof fn lemma_word_not_import(s: Seq<char>, p: int)
    requires
        0 <= p < s.len(),
        s[p] != 'I',
    ensures
        word(s, p) != "Import"@,
{
    reveal_strlit("Import");
    crate::lexical::lemma_run_ends(s, p);
    if letters_end(s, p) > p {
        assert(word(s, p)[0] == s[p]);
    } else {
        assert(word(s, p).len() == 0);
    }
}

/// What follows the other axioms of a document: the closing parenthesis,
/// where no axiom starts.
pub proof fn lemma_after_axioms(s: Seq<char>, c: Seq<char>, px: Px)
    requires
        s == c + seq![')'],
    ensures
        ws(s, c.len() as int) == c.len(),
        r_axiom(s, c.len() as int, px) is None,
        word(s, c.len() as int) == Seq::<char>::empty(),
        r_iri(s, c.len() as int, px) is None,
{
    let p = c.len() as int;
    reveal(r_axiom);
    assert(s[p] == ')');
    crate::lexical::lemma_run_ends(s, p);
    assert(letters_end(s, p) == p);
    assert(word(s, p) =~= Seq::<char>::empty());
}

/// What follows the ontology annotations of a document: an axiom, or the
/// closing parenthesis; neither an import nor an annotation starts there.
pub proof fn lemma_after_annotations(s: Seq<char>, c: Seq<char>, vx: Seq<SpecAnnotatedAxiom>, px: Px)
    requires
        forall|k: int| 0 <= k < vx.len() ==> other_axiom_rt(#[trigger] vx[k]),
        s == c + w_other_axioms(vx, None) + seq![')'],
    ensures
        ws(s, c.len() as int) == c.len(),
        word(s, c.len() as int) != "Import"@,
        word(s, c.len() as int) != "Annotation"@,
        r_iri(s, c.len() as int, px) is None,
{
    reveal_strlit("Import");
    reveal_strlit("Annotation");
    if vx.len() == 0 {
        assert(w_other_axioms(vx, None) == Seq::<char>::empty());
        assert(s =~= c + seq![')']);
        lemma_after_axioms(s, c, px);
    } else {
        assert(other_axiom_rt(vx[0]));
        lemma_other_axioms_front(vx);
        let wx = w_annotated_axiom(vx[0], None);
        let rest = w_other_axioms(vx.skip(1), None);
        assert(s =~= c + wx + (seq!['\n'] + rest + seq![')']));
        lemma_read_written_axiom(c, vx[0], seq!['\n'] + rest + seq![')'], px);
        assert(s[c.len() as int] == wx[0]);
    }
}

/// What follows the imports of a document: an ontology annotation, an
/// axiom, or the closing parenthesis; no import starts there.
pub proof fn lemma_after_imports(
    s: Seq<char>,
    c: Seq<char>,
    va: Seq<SpecAnnotatedAxiom>,
    vx: Seq<SpecAnnotatedAxiom>,
    px: Px,
)
    requires
        forall|k: int| 0 <= k < va.len() ==> ontology_annotation_rt(#[trigger] va[k]),
        forall|k: int| 0 <= k < vx.len() ==> other_axiom_rt(#[trigger] vx[k]),
        s == c + w_ontology_annotations(va, None) + w_other_axioms(vx, None) + seq![')'],
    ensures
        ws(s, c.len() as int) == c.len(),
        word(s, c.len() as int) != "Import"@,
        r_iri(s, c.len() as int, px) is None,
{
    let wa = w_ontology_annotations(va, None);
    if va.len() == 0 {
        assert(wa == Seq::<char>::empty());
        assert(s =~= c + w_other_axioms(vx, None) + seq![')']);
        lemma_after_annotations(s, c, vx, px);
    } else {
        assert(ontology_annotation_rt(va[0]));
        let an = annotation_of(va[0]);
        lemma_ontology_annotations_front(va, an);
        let w0 = w_annotation(an, None);
        let rest = seq!['\n'] + w_ontology_annotations(va.skip(1), None) + w_other_axioms(vx, None) + seq![')'];
        assert(s =~= c + w0 + rest);
        lemma_read_written_annotation(c, an, rest, px);
        assert(s[c.len() as int] == 'A');
        lemma_word_not_import(s, c.len() as int);
    }
}

/// The ontology IRI and version IRI lines of a document, read from where
/// `a` ends, when no IRI follows them.
#[verifier::spinoff_prover]
#[verifier::rlimit(40)]
pub proof fn lemma_read_written_ontology_id(
    s: Seq<char>,
    a: Seq<char>,
    iri: Option<Seq<char>>,
    viri: Option<Seq<char>>,
    b: Seq<char>,
    px: Px,
)
    requires
        iri matches Some(i) ==> iri_text(i),
        viri matches Some(v) ==> iri_text(v) && iri is Some,
        s == a + w_ontology_id(iri, viri, None) + b,
        r_iri(s, ws(s, a.len() + w_ontology_id(iri, viri, None).len() + 0int), px) is None,
    ensures
        ({
            let (ids, e) = ontology_ids(s, a.len() as int, px);
            &&& ids == Ok::<(Option<Seq<char>>, Option<Seq<char>>), SpecError>((iri, viri))
            &&& a.len() <= e <= a.len() + w_ontology_id(iri, viri, None).len()
            &&& ws(s, e) == ws(s, a.len() + w_ontology_id(iri, viri, None).len() + 0int)
        }),
{
    let p = a.len() as int;
    match iri {
        None => {
            assert(w_ontology_id(iri, viri, None) == Seq::<char>::empty());
        },
        Some(i) => {
            let wi = w_iri(i, None);
            let tail = match viri {
                Some(v) => seq![' '] + w_iri(v, None) + seq!['\n'],
                None => Seq::<char>::empty(),
            };
            assert(s =~= a + wi + (seq!['\n'] + tail + b));
            assert(s[p] == '<');
            assert(ws(s, p) == p);
            lemma_read_written_iri(a, i, seq!['\n'] + tail + b, px);
            let e1 = p + wi.len();
            assert(s[e1] == '\n');
            match viri {
                None => {
                    assert(ws(s, e1) == ws(s, e1 + 1));
                },
                Some(v) => {
                    let a2 = a + wi + seq!['\n', ' '];
                    assert(s =~= a2 + w_iri(v, None) + (seq!['\n'] + b));
                    assert(s[e1 + 1] == ' ');
                    assert(s[e1 + 2] == '<');
                    assert(ws(s, e1 + 2) == e1 + 2);
                    assert(ws(s, e1 + 1) == e1 + 2);
                    assert(ws(s, e1) == e1 + 2);
                    lemma_read_written_iri(a2, v, seq!['\n'] + b, px);
                    let e2 = a2.len() + w_iri(v, None).len() + 0int;
                    assert(s[e2] == '\n');
                    assert(ws(s, e2) == ws(s, e2 + 1));
                },
            }
        },
    }
}

/// The document of an ontology whose axioms are imports up to `i`, then
/// ontology annotations up to `j`, then other axioms: each part is written
/// in its place.
pub proof fn lemma_document_text(o: SpecOntology, i: int, j: int)
    requires
        parts_rt(o.axioms, i, j),
    ensures
        w_document(o, None) == "Ontology("@ + w_ontology_id(o.iri, o.viri, None) + w_imports(
            o.axioms.take(i),
            None,
        ) + w_ontology_annotations(o.axioms.subrange(i, j), None) + w_other_axioms(o.axioms.skip(j), None)
            + seq![')'],
{
    let v = o.axioms;
    let vi = v.take(i);
    let va = v.subrange(i, j);
    let vx = v.skip(j);
    assert(v =~= vi + va + vx);
    assert forall|k: int| 0 <= k < vi.len() implies (#[trigger] vi[k]).ax is Import by {
        assert(import_rt(v[k]));
    }
    assert forall|k: int| 0 <= k < va.len() implies (#[trigger] va[k]).ax is OntologyAnnotation by {
        assert(va[k] == v[i + k]);
        assert(ontology_annotation_rt(v[i + k]));
    }
    assert forall|k: int| 0 <= k < vx.len() implies other_axiom_rt(#[trigger] vx[k]) by {
        assert(vx[k] == v[j + k]);
    }
    lemma_imports_concat(vi + va, vx);
    lemma_imports_concat(vi, va);
    lemma_no_imports(va);
    lemma_no_imports(vx);
    lemma_ontology_annotations_concat(vi + va, vx);
    lemma_ontology_annotations_concat(vi, va);
    lemma_no_ontology_annotations(vi);
    lemma_no_ontology_annotations(vx);
    lemma_other_axioms_concat(vi + va, vx);
    lemma_other_axioms_concat(vi, va);
    lemma_no_other_axioms(vi);
    lemma_no_other_axioms(va);
    assert(w_imports(v, None) =~= w_imports(vi, None));
    assert(w_ontology_annotations(v, None) =~= w_ontology_annotations(va, None));
    assert(w_other_axioms(v, None) =~= w_other_axioms(vx, None));
}

/// What follows the ontology IRIs of a document: an import, an ontology
/// annotation, an axiom or the closing parenthesis; no IRI starts there.
#[verifier::spinoff_prover]
#[verifier::rlimit(40)]
pub proof fn lemma_after_ontology_id(
    s: Seq<char>,
    c: Seq<char>,
    vi: Seq<SpecAnnotatedAxiom>,
    va: Seq<SpecAnnotatedAxiom>,
    vx: Seq<SpecAnnotatedAxiom>,
    px: Px,
)
    requires
        forall|k: int| 0 <= k < vi.len() ==> import_rt(#[trigger] vi[k]),
        forall|k: int| 0 <= k < va.len() ==> ontology_annotation_rt(#[trigger] va[k]),
        forall|k: int| 0 <= k < vx.len() ==> other_axiom_rt(#[trigger] vx[k]),
        s == c + w_imports(vi, None) + w_ontology_annotations(va, None) + w_other_axioms(vx, None) + seq![')'],
    ensures
        ws(s, c.len() as int) == c.len(),
        r_iri(s, c.len() as int, px) is None,
{
    let p = c.len() as int;
    if vi.len() > 0 {
        assert(import_rt(vi[0]));
        let i = match vi[0].ax {
            SpecAxiom::Import(i) => i,
            _ => Seq::empty(),
        };
        lemma_imports_front(vi, i);
        let rest = w_imports(vi.skip(1), None) + w_ontology_annotations(va, None) + w_other_axioms(vx, None)
            + seq![')'];
        assert(s =~= c + import_line(i) + rest);
        lemma_read_written_import(c, i, rest, px);
        assert(s[p] == 'I');
    } else {
        assert(w_imports(vi, None) == Seq::<char>::empty());
        assert(s =~= c + w_ontology_annotations(va, None) + w_other_axioms(vx, None) + seq![')']);
        lemma_after_imports(s, c, va, vx, px);
    }
}

/// The value that an ontology's parts, read back, make: the ontology.
pub proof fn lemma_ontology_value(o: SpecOntology, i: int, j: int)
    requires
        parts_rt(o.axioms, i, j),
        o.axioms.no_duplicates(),
    ensures
        ontology_value(
            Ok::<(Option<Seq<char>>, Option<Seq<char>>), SpecError>((o.iri, o.viri)),
            Ok::<Seq<SpecAxiom>, SpecError>(o.axioms.take(i).map_values(|x: SpecAnnotatedAxiom| x.ax)),
            Ok::<Seq<SpecAnnotation>, SpecError>(
                o.axioms.subrange(i, j).map_values(|x: SpecAnnotatedAxiom| annotation_of(x)),
            ),
            Ok::<Seq<SpecAnnotatedAxiom>, SpecError>(o.axioms.skip(j)),
        ) == Ok::<SpecOntology, SpecError>(o),
{
    let v = o.axioms;
    let vi = v.take(i);
    let va = v.subrange(i, j);
    let vx = v.skip(j);
    let imports = vi.map_values(|x: SpecAnnotatedAxiom| x.ax).map_values(|a: SpecAxiom| bare(a));
    let anns = va.map_values(|x: SpecAnnotatedAxiom| annotation_of(x)).map_values(
        |a: SpecAnnotation| bare(SpecAxiom::OntologyAnnotation(a)),
    );
    assert forall|k: int| 0 <= k < vi.len() implies #[trigger] imports[k] == vi[k] by {
        assert(import_rt(v[k]));
        assert(vi[k].ann =~= Seq::<SpecAnnotation>::empty());
    }
    assert forall|k: int| 0 <= k < va.len() implies #[trigger] anns[k] == va[k] by {
        assert(va[k] == v[i + k]);
        assert(ontology_annotation_rt(v[i + k]));
        assert(va[k].ann =~= Seq::<SpecAnnotation>::empty());
    }
    assert(imports =~= vi);
    assert(anns =~= va);
    assert(imports + anns + vx =~= v);
    lemma_axiom_set_of_distinct(v);
}

/// The text of an ontology's axioms, after `c0` and before the closing
/// parenthesis, cut before each of its parts.
pub proof fn lemma_cut_parts(c0: Seq<char>, wi: Seq<char>, wa: Seq<char>, wx: Seq<char>)
    ensures
        c0 + wi + wa + wx + seq![')'] == c0 + wi + (wa + wx + seq![')']),
        c0 + wi + wa + wx + seq![')'] == (c0 + wi) + wa + (wx + seq![')']),
{
    assert(c0 + wi + wa + wx + seq![')'] =~= c0 + wi + (wa + wx + seq![')']));
    assert(c0 + wi + wa + wx + seq![')'] =~= (c0 + wi) + wa + (wx + seq![')']));
}

/// The text of an ontology, cut after its keyword and after its IRIs.
pub proof fn lemma_cut_ontology(wid: Seq<char>, wi: Seq<char>, wa: Seq<char>, wx: Seq<char>)
    ensures
        ({
            let rest = wi + wa + wx + seq![')'];
            let s = "Ontology("@ + wid + wi + wa + wx + seq![')'];
            &&& s == Seq::<char>::empty() + "Ontology"@ + (seq!['('] + wid + rest)
            &&& s == ("Ontology"@ + seq!['(']) + wid + rest
            &&& s == ("Ontology"@ + seq!['('] + wid) + wi + wa + wx + seq![')']
        }),
{
    reveal_strlit("Ontology");
    reveal_strlit("Ontology(");
    let rest = wi + wa + wx + seq![')'];
    let s = "Ontology("@ + wid + wi + wa + wx + seq![')'];
    assert(s =~= Seq::<char>::empty() + "Ontology"@ + (seq!['('] + wid + rest));
    assert(s =~= ("Ontology"@ + seq!['(']) + wid + rest);
    assert(s =~= ("Ontology"@ + seq!['('] + wid) + wi + wa + wx + seq![')']);
}

/// The imports of a document, read from `t`, after which white space leads
/// where `c0` ends.
#[verifier::spinoff_prover]
#[verifier::rlimit(100)]
pub proof fn lemma_read_written_document_imports(
    s: Seq<char>,
    c0: Seq<char>,
    vi: Seq<SpecAnnotatedAxiom>,
    va: Seq<SpecAnnotatedAxiom>,
    vx: Seq<SpecAnnotatedAxiom>,
    px: Px,
    t: int,
)
    requires
        forall|k: int| 0 <= k < vi.len() ==> import_rt(#[trigger] vi[k]),
        forall|k: int| 0 <= k < va.len() ==> ontology_annotation_rt(#[trigger] va[k]),
        forall|k: int| 0 <= k < vx.len() ==> other_axiom_rt(#[trigger] vx[k]),
        s == c0 + w_imports(vi, None) + w_ontology_annotations(va, None) + w_other_axioms(vx, None) + seq![')'],
        0 <= t <= c0.len(),
        ws(s, t) == ws(s, c0.len() as int),
    ensures
        ({
            let (imports, _, t2) = star(s, t, |u: int| r_import(s, u, px));
            &&& imports == Ok::<Seq<SpecAxiom>, SpecError>(vi.map_values(|x: SpecAnnotatedAxiom| x.ax))
            &&& 0 <= t2 <= c0.len() + w_imports(vi, None).len()
            &&& ws(s, t2) == ws(s, c0.len() + w_imports(vi, None).len() + 0int)
        }),
{
    let wi = w_imports(vi, None);
    let wa = w_ontology_annotations(va, None);
    let wx = w_other_axioms(vx, None);
    lemma_cut_parts(c0, wi, wa, wx);
    lemma_after_imports(s, c0 + wi, va, vx, px);
    lemma_read_written_imports(s, c0, vi, wa + wx + seq![')'], px, t);
    assert(star(s, t, |u: int| r_import(s, u, px)) == star(s, t, |t: int| r_import(s, t, px)));
}

/// The ontology annotations of a document, read from `t`, after which
/// white space leads where its imports end.
#[verifier::spinoff_prover]
#[verifier::rlimit(60)]
pub proof fn lemma_read_written_document_annotations(
    s: Seq<char>,
    c0: Seq<char>,
    vi: Seq<SpecAnnotatedAxiom>,
    va: Seq<SpecAnnotatedAxiom>,
    vx: Seq<SpecAnnotatedAxiom>,
    px: Px,
    t: int,
)
    requires
        forall|k: int| 0 <= k < vi.len() ==> import_rt(#[trigger] vi[k]),
        forall|k: int| 0 <= k < va.len() ==> ontology_annotation_rt(#[trigger] va[k]),
        forall|k: int| 0 <= k < vx.len() ==> other_axiom_rt(#[trigger] vx[k]),
        s == c0 + w_imports(vi, None) + w_ontology_annotations(va, None) + w_other_axioms(vx, None) + seq![')'],
        0 <= t <= c0.len() + w_imports(vi, None).len(),
        ws(s, t) == ws(s, c0.len() + w_imports(vi, None).len() + 0int),
    ensures
        ({
            let (anns, _, t3) = r_annotation_seq(s, t, px);
            let c2 = c0 + w_imports(vi, None) + w_ontology_annotations(va, None);
            &&& anns == Ok::<Seq<SpecAnnotation>, SpecError>(va.map_values(|x: SpecAnnotatedAxiom| annotation_of(x)))
            &&& 0 <= t3 <= c2.len()
            &&& ws(s, t3) == ws(s, c2.len() as int)
        }),
{
    let wi = w_imports(vi, None);
    let wa = w_ontology_annotations(va, None);
    let wx = w_other_axioms(vx, None);
    lemma_cut_parts(c0, wi, wa, wx);
    lemma_after_annotations(s, c0 + wi + wa, vx, px);
    lemma_read_written_annotation_lines(s, c0 + wi, va, wx + seq![')'], px, t);
}

/// The other axioms of a document, read from `t`, after which white space
/// leads where its ontology annotations end, then the closing parenthesis.
#[verifier::spinoff_prover]
#[verifier::rlimit(60)]
pub proof fn lemma_read_written_document_axioms(
    s: Seq<char>,
    c0: Seq<char>,
    vi: Seq<SpecAnnotatedAxiom>,
    va: Seq<SpecAnnotatedAxiom>,
    vx: Seq<SpecAnnotatedAxiom>,
    px: Px,
    t: int,
)
    requires
        forall|k: int| 0 <= k < vi.len() ==> import_rt(#[trigger] vi[k]),
        forall|k: int| 0 <= k < va.len() ==> ontology_annotation_rt(#[trigger] va[k]),
        forall|k: int| 0 <= k < vx.len() ==> other_axiom_rt(#[trigger] vx[k]),
        s == c0 + w_imports(vi, None) + w_ontology_annotations(va, None) + w_other_axioms(vx, None) + seq![')'],
        0 <= t <= c0.len() + w_imports(vi, None).len() + w_ontology_annotations(va, None).len(),
        ws(s, t) == ws(s, c0.len() + w_imports(vi, None).len() + w_ontology_annotations(va, None).len() + 0int),
    ensures
        ({
            let (axioms, _, t4) = star(s, t, |u: int| r_axiom(s, u, px));
            &&& axioms == Ok::<Seq<SpecAnnotatedAxiom>, SpecError>(vx)
            &&& close_at(s, t4) == Some(s.len() as int)
        }),
{
    let wi = w_imports(vi, None);
    let wa = w_ontology_annotations(va, None);
    let wx = w_other_axioms(vx, None);
    let c3 = c0 + wi + wa + wx;
    lemma_after_axioms(s, c3, px);
    lemma_read_written_axiom_lines(s, c0 + wi + wa, vx, seq![')'], px, t);
    let (axioms, _, t4) = star(s, t, |u: int| r_axiom(s, u, px));
    assert(star(s, t, |u: int| r_axiom(s, u, px)) == star(s, t, |t: int| r_axiom(s, t, px)));
    assert(ws(s, t4) == c3.len());
}

/// The imports, ontology annotations and other axioms of a document, read
/// from `t1`, after which white space leads where `c0` ends, then the
/// closing parenthesis.
#[verifier::spinoff_prover]
#[verifier::rlimit(40)]
pub proof fn lemma_read_written_ontology_parts(
    s: Seq<char>,
    c0: Seq<char>,
    vi: Seq<SpecAnnotatedAxiom>,
    va: Seq<SpecAnnotatedAxiom>,
    vx: Seq<SpecAnnotatedAxiom>,
    px: Px,
    t1: int,
)
    requires
        forall|k: int| 0 <= k < vi.len() ==> import_rt(#[trigger] vi[k]),
        forall|k: int| 0 <= k < va.len() ==> ontology_annotation_rt(#[trigger] va[k]),
        forall|k: int| 0 <= k < vx.len() ==> other_axiom_rt(#[trigger] vx[k]),
        s == c0 + w_imports(vi, None) + w_ontology_annotations(va, None) + w_other_axioms(vx, None) + seq![')'],
        0 <= t1 <= c0.len(),
        ws(s, t1) == ws(s, c0.len() as int),
    ensures
        ({
            let (imports, _, t2) = star(s, t1, |t: int| r_import(s, t, px));
            let (anns, _, t3) = r_annotation_seq(s, t2, px);
            let (axioms, _, t4) = star(s, t3, |t: int| r_axiom(s, t, px));
            &&& imports == Ok::<Seq<SpecAxiom>, SpecError>(vi.map_values(|x: SpecAnnotatedAxiom| x.ax))
            &&& anns == Ok::<Seq<SpecAnnotation>, SpecError>(va.map_values(|x: SpecAnnotatedAxiom| annotation_of(x)))
            &&& axioms == Ok::<Seq<SpecAnnotatedAxiom>, SpecError>(vx)
            &&& close_at(s, t4) == Some(s.len() as int)
        }),
{
    lemma_read_written_document_imports(s, c0, vi, va, vx, px, t1);
    let (imports, _, t2) = star(s, t1, |t: int| r_import(s, t, px));
    lemma_read_written_document_annotations(s, c0, vi, va, vx, px, t2);
    let (anns, _, t3) = r_annotation_seq(s, t2, px);
    lemma_read_written_document_axioms(s, c0, vi, va, vx, px, t3);
}

/// The axioms of an ontology that reads back as itself: its imports, its
/// ontology annotations and its other axioms, in their places.
pub proof fn lemma_ontology_parts(o: SpecOntology, i: int, j: int)
    requires
        parts_rt(o.axioms, i, j),
    ensures
        forall|k: int| 0 <= k < o.axioms.take(i).len() ==> import_rt(#[trigger] o.axioms.take(i)[k]),
        forall|k: int|
            0 <= k < o.axioms.subrange(i, j).len() ==> ontology_annotation_rt(
                #[trigger] o.axioms.subrange(i, j)[k],
            ),
        forall|k: int| 0 <= k < o.axioms.skip(j).len() ==> other_axiom_rt(#[trigger] o.axioms.skip(j)[k]),
{
    let v = o.axioms;
    assert forall|k: int| 0 <= k < v.take(i).len() implies import_rt(#[trigger] v.take(i)[k]) by {
        assert(v.take(i)[k] == v[k]);
    }
    assert forall|k: int| 0 <= k < v.subrange(i, j).len() implies ontology_annotation_rt(
        #[trigger] v.subrange(i, j)[k],
    ) by {
        assert(v.subrange(i, j)[k] == v[i + k]);
    }
    assert forall|k: int| 0 <= k < v.skip(j).len() implies other_axiom_rt(#[trigger] v.skip(j)[k]) by {
        assert(v.skip(j)[k] == v[j + k]);
    }
}

/// Reading an ontology whose keyword and opening parenthesis lead to `q`:
/// its IRIs, imports, ontology annotations and other axioms, then the
/// closing parenthesis.
pub proof fn lemma_r_ontology_at(
    s: Seq<char>,
    p: int,
    px: Px,
    q: int,
    t1: int,
    ids: (Option<Seq<char>>, Option<Seq<char>>),
    imports: Seq<SpecAxiom>,
    anns: Seq<SpecAnnotation>,
    axioms: Seq<SpecAnnotatedAxiom>,
    f: int,
)
    requires
        word(s, p) == "Ontology"@,
        open_at(s, letters_end(s, p)) == Some(q),
        ontology_ids(s, q, px) == (Ok::<(Option<Seq<char>>, Option<Seq<char>>), SpecError>(ids), t1),
        ({
            let (vi, _, t2) = star(s, t1, |t: int| r_import(s, t, px));
            let (va, _, t3) = r_annotation_seq(s, t2, px);
            let (vx, _, t4) = star(s, t3, |t: int| r_axiom(s, t, px));
            &&& vi == Ok::<Seq<SpecAxiom>, SpecError>(imports)
            &&& va == Ok::<Seq<SpecAnnotation>, SpecError>(anns)
            &&& vx == Ok::<Seq<SpecAnnotatedAxiom>, SpecError>(axioms)
            &&& close_at(s, t4) == Some(f)
        }),
    ensures
        r_ontology(s, p, px) == Some(
            (
                ontology_value(
                    Ok::<(Option<Seq<char>>, Option<Seq<char>>), SpecError>(ids),
                    Ok::<Seq<SpecAxiom>, SpecError>(imports),
                    Ok::<Seq<SpecAnnotation>, SpecError>(anns),
                    Ok::<Seq<SpecAnnotatedAxiom>, SpecError>(axioms),
                ),
                f,
            ),
        ),
{
    reveal(r_ontology);
}

/// The document written for an ontology without prefixes, read from its
/// start, is the ontology, up to its end.
#[verifier::spinoff_prover]
#[verifier::rlimit(60)]
pub proof fn lemma_read_written_ontology(o: SpecOntology, i: int, j: int, px: Px)
    requires
        o.iri matches Some(x) ==> iri_text(x),
        o.viri matches Some(x) ==> iri_text(x) && o.iri is Some,
        parts_rt(o.axioms, i, j),
        o.axioms.no_duplicates(),
    ensures
        r_ontology(w_document(o, None), 0, px) == Some(
            (Ok::<SpecOntology, SpecError>(o), w_document(o, None).len() as int),
        ),
{
    lemma_document_text(o, i, j);
    lemma_ontology_parts(o, i, j);
    let s = w_document(o, None);
    let v = o.axioms;
    let vi = v.take(i);
    let va = v.subrange(i, j);
    let vx = v.skip(j);
    let wid = w_ontology_id(o.iri, o.viri, None);
    let rest = w_imports(vi, None) + w_ontology_annotations(va, None) + w_other_axioms(vx, None) + seq![')'];
    let k = "Ontology"@;
    assert(keyword(k)) by {
        reveal_strlit("Ontology");
        reveal_with_fuel(letters_end, 10);
    }
    let c0 = k + seq!['('] + wid;
    lemma_cut_ontology(wid, w_imports(vi, None), w_ontology_annotations(va, None), w_other_axioms(vx, None));
    lemma_keyword_at(Seq::<char>::empty(), k, seq!['('] + wid + rest, px);
    lemma_after_ontology_id(s, c0, vi, va, vx, px);
    lemma_read_written_ontology_id(s, k + seq!['('], o.iri, o.viri, rest, px);
    let (ids, t1) = ontology_ids(s, k.len() + 1int, px);
    lemma_read_written_ontology_parts(s, c0, vi, va, vx, px, t1);
    lemma_ontology_value(o, i, j);
    lemma_r_ontology_at(
        s,
        0,
        px,
        k.len() + 1int,
        t1,
        (o.iri, o.viri),
        vi.map_values(|x: SpecAnnotatedAxiom| x.ax),
        va.map_values(|x: SpecAnnotatedAxiom| annotation_of(x)),
        vx,
        s.len() as int,
    );
}

/// A text that starts with `Ontology(` declares no prefixes.
pub proof fn lemma_no_prefix_declarations(s: Seq<char>)
    requires
        s.len() >= 2,
        s[0] == 'O',
        s[1] == 'n',
    ensures
        prefix_declarations(s, 0) == (Seq::<(Option<Seq<char>>, Seq<char>)>::empty(), 0int),
{
    reveal_strlit("Prefix");
    assert(ws(s, 0) == 0);
    crate::lexical::lemma_run_ends(s, 0);
    assert(word(s, 0) != "Prefix"@) by {
        if letters_end(s, 0) > 1 {
            assert(word(s, 0)[1] == s[1]);
        } else if letters_end(s, 0) == 1 {
            assert(word(s, 0).len() == 1);
        } else {
            assert(word(s, 0).len() == 0);
        }
    }
}

/// Reading the document written for an ontology that reads back as itself,
/// without prefixes, gives the ontology back, with no prefixes declared.
#[verifier::spinoff_prover]
pub proof fn document_round_trip(o: SpecOntology)
    requires
        ontology_rt(o),
    ensures
        document(w_document(o, None)) == Ok::<(SpecOntology, crate::prefixes::SpecPrefixes), SpecError>(
            (o, no_prefixes()),
        ),
{
    let (i, j) = choose|i: int, j: int| parts_rt(o.axioms, i, j);
    let s = w_document(o, None);
    lemma_document_text(o, i, j);
    reveal_strlit("Ontology(");
    lemma_no_prefix_declarations(s);
    assert(declare_all(no_prefixes(), Seq::empty()) == no_prefixes());
    lemma_read_written_ontology(o, i, j, Some(no_prefixes()));
    assert(ws(s, s.len() as int) == s.len());
}

} // verus!
