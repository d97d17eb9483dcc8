//! What reading gives back of a written `HasKey` axiom: its class
//! expression, then its object property expressions, then its data
//! properties.
use vstd::prelude::*;
use crate::axiom_round_trip::{
    annotations_rt, lemma_axiom_branch_has_key, lemma_no_annotations, lemma_opes_start, lemma_iris_start,
    lemma_read_written_annotations_before, lemma_read_written_iris, lemma_read_written_opes,
    lemma_word_not_annotation,
};
use crate::error::SpecError;
use crate::grammar::{Px, close_at, has_key_parts, open_at, r_annotation_seq, r_axiom, r_iri, r_ope, star};
use crate::lexical::{is_letter, letters_end, word, ws};
use crate::model::{SpecAnnotatedAxiom, SpecAnnotation, SpecAxiom, SpecClassExpression, SpecObjectPropertyExpression, SpecPropertyExpression};
use crate::rendering::{join, key_parts, w_annotated_axiom, w_annotations, w_ce, w_iri, w_iris, w_ope, w_opes};
use crate::round_trip::{ce_rt, iri_text, keyword, lemma_ce_start, lemma_keyword_at, lemma_read_written_ce, ope_rt};
use crate::sets::{annotations_sorted, lemma_annotation_set_of_sorted};

verus! {

/// The object property expressions of a key, in order.
pub open spec fn key_objects(v: Seq<SpecPropertyExpression>) -> Seq<SpecObjectPropertyExpression>
    decreases v.len(),
{
    if v.len() == 0 {
        Seq::empty()
    } else {
        let f = key_objects(v.drop_last());
        match v.last() {
            SpecPropertyExpression::ObjectPropertyExpression(o) => f.push(o),
            _ => f,
        }
    }
}

/// The data properties of a key, in order.
pub open spec fn key_data(v: Seq<SpecPropertyExpression>) -> Seq<Seq<char>>
    decreases v.len(),
{
    if v.len() == 0 {
        Seq::empty()
    } else {
        let f = key_data(v.drop_last());
        match v.last() {
            SpecPropertyExpression::DataProperty(d) => f.push(d),
            _ => f,
        }
    }
}

/// A key that reads back as itself: its object property expressions, then
/// its data properties (the order in which they are written), each reading
/// back as itself.
pub open spec fn key_rt(v: Seq<SpecPropertyExpression>) -> bool {
    &&& v == key_objects(v).map_values(|o: SpecObjectPropertyExpression| SpecPropertyExpression::ObjectPropertyExpression(o))
        + key_data(v).map_values(|d: Seq<char>| SpecPropertyExpression::DataProperty(d))
    &&& forall|k: int| 0 <= k < key_objects(v).len() ==> ope_rt(#[trigger] key_objects(v)[k])
    &&& forall|k: int| 0 <= k < key_data(v).len() ==> iri_text(#[trigger] key_data(v)[k])
}

/// The written parts of a key are those of its object property expressions
/// and of its data properties.
pub proof fn lemma_key_parts(v: Seq<SpecPropertyExpression>)
    ensures
        join(key_parts(v, true, None)) == w_opes(key_objects(v), None),
        join(key_parts(v, false, None)) == w_iris(key_data(v), None),
{
    lemma_key_parts_seq(v);
    assert(key_parts(v, true, None) =~= key_objects(v).map_values(|o: SpecObjectPropertyExpression| w_ope(o, None)));
    assert(key_parts(v, false, None) =~= key_data(v).map_values(|i: Seq<char>| w_iri(i, None)));
}

/// See [`lemma_key_parts`], item by item.
pub proof fn lemma_key_parts_seq(v: Seq<SpecPropertyExpression>)
    ensures
        key_parts(v, true, None).len() == key_objects(v).len(),
        forall|k: int| 0 <= k < key_objects(v).len() ==> #[trigger] key_parts(v, true, None)[k] == w_ope(key_objects(v)[k], None),
        key_parts(v, false, None).len() == key_data(v).len(),
        forall|k: int| 0 <= k < key_data(v).len() ==> #[trigger] key_parts(v, false, None)[k] == w_iri(key_data(v)[k], None),
    decreases v.len(),
{
    if v.len() > 0 {
        lemma_key_parts_seq(v.drop_last());
    }
}

/// The key lists of a `HasKey` axiom, written as `(OPE*) (DP*)` from
/// `start`, are read as the object property expressions and the data
/// properties, ending after the second closing parenthesis.
#[verifier::spinoff_prover]
#[verifier::rlimit(100)]
pub proof fn lemma_read_written_key_lists(
    s: Seq<char>,
    start: int,
    objs: Seq<SpecObjectPropertyExpression>,
    data: Seq<Seq<char>>,
    px: Px,
)
    requires
        forall|k: int| 0 <= k < objs.len() ==> ope_rt(#[trigger] objs[k]),
        forall|k: int| 0 <= k < data.len() ==> iri_text(#[trigger] data[k]),
        0 <= start,
        start + (seq!['('] + w_opes(objs, None) + ") ("@ + w_iris(data, None) + seq![')']).len() <= s.len(),
        s.subrange(start, start + (seq!['('] + w_opes(objs, None) + ") ("@ + w_iris(data, None) + seq![')']).len())
            == seq!['('] + w_opes(objs, None) + ") ("@ + w_iris(data, None) + seq![')'],
    ensures
        ({
            let wo = w_opes(objs, None);
            let wd = w_iris(data, None);
            let q1 = start + 1;
            let e2 = q1 + wo.len();
            let q2 = e2 + 3;
            let e3 = q2 + wd.len();
            &&& open_at(s, start) == Some(q1)
            &&& star(s, q1, |t: int| r_ope(s, t, px)) == (Ok::<Seq<SpecObjectPropertyExpression>, SpecError>(objs), objs.len(), e2)
            &&& close_at(s, e2) == Some(e2 + 1)
            &&& open_at(s, e2 + 1) == Some(q2)
            &&& star(s, q2, |t: int| r_iri(s, t, px)) == (Ok::<Seq<Seq<char>>, SpecError>(data), data.len(), e3)
            &&& close_at(s, e3) == Some(e3 + 1)
        }),
{
    reveal_strlit(") (");
    let wo = w_opes(objs, None);
    let wd = w_iris(data, None);
    let t = seq!['('] + wo + ") ("@ + wd + seq![')'];
    let q1 = start + 1;
    let e2 = q1 + wo.len();
    let q2 = e2 + 3;
    let e3 = q2 + wd.len();
    assert forall|j: int| 0 <= j < t.len() implies #[trigger] s[start + j] == t[j] by {
        assert(s.subrange(start, start + t.len())[j] == t[j]);
    }
    assert(t[0] == '(');
    assert(t[1 + wo.len() as int] == ')');
    assert(t[2 + wo.len() as int] == ' ');
    assert(t[3 + wo.len() as int] == '(');
    assert(t[t.len() - 1] == ')');
    assert(s[start + 0] == t[0]);
    assert(s[start] == '(');
    assert(ws(s, start) == start);
    assert(s[start + (1 + wo.len() as int)] == t[1 + wo.len() as int]);
    assert(s[e2] == ')');
    assert(s[start + (2 + wo.len() as int)] == t[2 + wo.len() as int]);
    assert(s[e2 + 1] == ' ');
    assert(s[start + (3 + wo.len() as int)] == t[3 + wo.len() as int]);
    assert(s[e2 + 2] == '(');
    assert(s[start + (t.len() - 1)] == t[t.len() - 1]);
    assert(s[e3] == ')');
    assert(ws(s, e2) == e2);
    assert(ws(s, e3) == e3);
    assert(ws(s, e2 + 2) == e2 + 2);
    assert(ws(s, e2 + 1) == e2 + 2);
    if objs.len() == 0 {
        assert(wo =~= Seq::<char>::empty()) by {
            assert(objs.map_values(|o: SpecObjectPropertyExpression| w_ope(o, None)) =~= Seq::<Seq<char>>::empty());
        }
        assert(ws(s, q1) == q1);
        assert(crate::lexical::full_iri(s, q1) is None);
        assert(crate::lexical::abbreviated_iri(s, q1) is None);
        assert(r_ope(s, q1, px) is None);
        assert(objs =~= Seq::<SpecObjectPropertyExpression>::empty());
    } else {
        lemma_opes_start(objs);
        assert(s.subrange(q1, q1 + wo.len()) =~= wo) by {
            assert forall|j: int| 0 <= j < wo.len() implies s.subrange(q1, q1 + wo.len())[j] == wo[j] by {
                assert(s[q1 + j] == t[1 + j]);
            }
        }
        assert(s[q1] == wo[0]);
        assert(ws(s, q1) == q1);
        lemma_read_written_opes(s, q1, objs, px, q1);
    }
    if data.len() == 0 {
        assert(wd =~= Seq::<char>::empty()) by {
            assert(data.map_values(|i: Seq<char>| w_iri(i, None)) =~= Seq::<Seq<char>>::empty());
        }
        assert(ws(s, q2) == q2);
        assert(crate::lexical::full_iri(s, q2) is None);
        assert(crate::lexical::abbreviated_iri(s, q2) is None);
        assert(r_iri(s, q2, px) is None);
        assert(data =~= Seq::<Seq<char>>::empty());
    } else {
        lemma_iris_start(data);
        assert(s.subrange(q2, q2 + wd.len()) =~= wd) by {
            assert forall|j: int| 0 <= j < wd.len() implies s.subrange(q2, q2 + wd.len())[j] == wd[j] by {
                assert(s[q2 + j] == t[wo.len() as int + 4 + j]);
            }
        }
        assert(s[q2] == '<');
        assert(ws(s, q2) == q2);
        lemma_read_written_iris(s, q2, data, px, q2);
    }
}

/// What stands between the parentheses of a written `HasKey` axiom after
/// its annotations: `CE (OPE*) (DP*) `.
pub open spec fn key_body(ce: SpecClassExpression, vpe: Seq<SpecPropertyExpression>) -> Seq<char> {
    w_ce(ce, None) + seq![' '] + (seq!['('] + w_opes(key_objects(vpe), None) + ") ("@ + w_iris(
        key_data(vpe),
        None,
    ) + seq![')']) + seq![' ']
}

/// The annotations of an axiom written before its parts when there are
/// some, and the space after them.
pub open spec fn annotations_before(ann: Seq<SpecAnnotation>) -> Seq<char> {
    if ann.len() > 0 {
        w_annotations(ann, None) + seq![' ']
    } else {
        Seq::empty()
    }
}

/// The written form of a `HasKey` axiom with an increasing set of
/// annotations: `HasKey(`, its annotations, its body and `)`.
pub proof fn lemma_has_key_text(ce: SpecClassExpression, vpe: Seq<SpecPropertyExpression>, ann: Seq<SpecAnnotation>)
    requires
        annotations_sorted(ann),
    ensures
        w_annotated_axiom(SpecAnnotatedAxiom { ax: SpecAxiom::HasKey { ce, vpe }, ann }, None) == "HasKey"@ + seq!['(']
            + annotations_before(ann) + key_body(ce, vpe) + seq![')'],
{
    lemma_annotation_set_of_sorted(ann);
    lemma_key_parts(vpe);
    reveal_strlit(" (");
    reveal_strlit(") ");
    let wo = w_opes(key_objects(vpe), None);
    let wd = w_iris(key_data(vpe), None);
    assert(" ("@ + wo + ") ("@ + wd + ") "@ =~= seq![' '] + (seq!['('] + wo + ") ("@ + wd + seq![')']) + seq![' ']);
}

/// The body of a written `HasKey` axiom whose parts read back as
/// themselves, read where it starts, is the axiom, up to its last space.
#[verifier::spinoff_prover]
#[verifier::rlimit(100)]
pub proof fn lemma_read_key_body(s: Seq<char>, u: int, ce: SpecClassExpression, vpe: Seq<SpecPropertyExpression>, px: Px)
    requires
        ce_rt(ce),
        key_rt(vpe),
        0 <= u,
        u + key_body(ce, vpe).len() <= s.len(),
        s.subrange(u, u + key_body(ce, vpe).len()) == key_body(ce, vpe),
    ensures
        has_key_parts(s, u, px) == Some(
            (Ok::<SpecAxiom, SpecError>(SpecAxiom::HasKey { ce, vpe }), u + key_body(ce, vpe).len() - 1),
        ),
{
    reveal_strlit(") (");
    let objs = key_objects(vpe);
    let data = key_data(vpe);
    let wce = w_ce(ce, None);
    let lists = seq!['('] + w_opes(objs, None) + ") ("@ + w_iris(data, None) + seq![')'];
    let body = key_body(ce, vpe);
    assert(body == wce + seq![' '] + lists + seq![' ']);
    let a1 = s.subrange(0, u);
    let b1 = s.subrange(u + wce.len(), s.len() as int);
    assert forall|j: int| 0 <= j < body.len() implies #[trigger] s[u + j] == body[j] by {
        assert(s.subrange(u, u + body.len())[j] == body[j]);
    }
    assert(s =~= a1 + wce + b1) by {
        assert forall|j: int| u <= j < u + wce.len() implies s[j] == wce[j - u] by {
            assert(s[u + (j - u)] == body[j - u]);
        }
    }
    lemma_read_written_ce(a1, ce, b1, px);
    let e1 = u + wce.len();
    let st = e1 + 1;
    assert(s[u + wce.len() as int] == body[wce.len() as int]);
    assert(s[e1] == ' ');
    assert(s.subrange(st, st + lists.len()) =~= lists) by {
        assert forall|j: int| 0 <= j < lists.len() implies s.subrange(st, st + lists.len())[j] == lists[j] by {
            assert(s[u + (wce.len() + 1 + j)] == body[wce.len() + 1 + j]);
        }
    }
    lemma_read_written_key_lists(s, st, objs, data, px);
    assert(s[st] == '(') by {
        assert(s[u + (wce.len() + 1)] == body[wce.len() + 1int]);
    }
    assert(ws(s, st) == st);
    assert(ws(s, e1) == st);
    let wo = w_opes(objs, None);
    let wd = w_iris(data, None);
    let e2 = st + 1 + wo.len();
    let e3 = e2 + 3 + wd.len();
    assert(crate::grammar::r_ce(s, u, px) == Some((Ok::<SpecClassExpression, SpecError>(ce), e1)));
    assert(open_at(s, e1) == Some(st + 1));
    assert(e3 + 1 == u + body.len() - 1);
    let ov = objs.map_values(|o: SpecObjectPropertyExpression| SpecPropertyExpression::ObjectPropertyExpression(o));
    let dv = data.map_values(|d: Seq<char>| SpecPropertyExpression::DataProperty(d));
    assert(vpe == ov + dv);
    assert(crate::grammar::concat(
        crate::grammar::lift(
            Ok::<Seq<SpecObjectPropertyExpression>, SpecError>(objs),
            |v: Seq<SpecObjectPropertyExpression>| v.map_values(|o: SpecObjectPropertyExpression| SpecPropertyExpression::ObjectPropertyExpression(o)),
        ),
        crate::grammar::lift(
            Ok::<Seq<Seq<char>>, SpecError>(data),
            |v: Seq<Seq<char>>| v.map_values(|d: Seq<char>| SpecPropertyExpression::DataProperty(d)),
        ),
    ) == Ok::<Seq<SpecPropertyExpression>, SpecError>(vpe));
}

/// An axiom read from `p`: its keyword `k`, its annotations, its parts up
/// to `f`, and the closing parenthesis that ends at `g`.
pub proof fn lemma_r_axiom_closed_at(
    s: Seq<char>,
    p: int,
    px: Px,
    q: int,
    k: Seq<char>,
    v: SpecAxiom,
    ann: Seq<SpecAnnotation>,
    e0: int,
    f: int,
    g: int,
)
    requires
        open_at(s, letters_end(s, p)) == Some(q),
        word(s, p) == k,
        r_annotation_seq(s, q, px) == (Ok::<Seq<SpecAnnotation>, SpecError>(ann), ann.len(), e0),
        crate::grammar::axiom_parts(k, s, ws(s, e0), px) == Some((Ok::<SpecAxiom, SpecError>(v), f)),
        close_at(s, f) == Some(g),
        annotations_sorted(ann),
    ensures
        r_axiom(s, p, px) == Some((Ok::<SpecAnnotatedAxiom, SpecError>(SpecAnnotatedAxiom { ax: v, ann }), g)),
{
    reveal(r_axiom);
    lemma_annotation_set_of_sorted(ann);
}

/// The keyword `HasKey` is neither `Import` nor `Annotation`, and starts with
/// a letter.
pub proof fn lemma_has_key_keyword()
    ensures
        "HasKey"@ != "Import"@,
        "HasKey"@ != "Annotation"@,
        is_letter("HasKey"@[0]),
{
    reveal_strlit("Import");
    reveal_strlit("Annotation");
    reveal_strlit("HasKey");
    assert("HasKey"@[0] != "Import"@[0]);
    assert("HasKey"@.len() != "Annotation"@.len());
}

/// The written form of a `HasKey` axiom whose parts and annotations read
/// back as themselves, read after any text `a` and followed by any text
/// `b`, is the axiom.
#[verifier::spinoff_prover]
#[verifier::rlimit(100)]
pub proof fn lemma_read_written_has_key(
    a: Seq<char>,
    ce: SpecClassExpression,
    vpe: Seq<SpecPropertyExpression>,
    ann: Seq<SpecAnnotation>,
    b: Seq<char>,
    px: Px,
)
    requires
        ce_rt(ce),
        key_rt(vpe),
        annotations_rt(ann),
        annotations_sorted(ann),
    ensures
        ({
            let x = SpecAnnotatedAxiom { ax: SpecAxiom::HasKey { ce, vpe }, ann };
            let s = a + w_annotated_axiom(x, None) + b;
            &&& r_axiom(s, a.len() as int, px) == Some(
                (Ok::<SpecAnnotatedAxiom, SpecError>(x), a.len() + w_annotated_axiom(x, None).len() + 0int),
            )
            &&& word(s, a.len() as int) != "Import"@
            &&& word(s, a.len() as int) != "Annotation"@
            &&& r_iri(s, a.len() as int, px) is None
            &&& is_letter(w_annotated_axiom(x, None)[0])
        }),
{
    lemma_annotation_set_of_sorted(ann);
    let x = SpecAnnotatedAxiom { ax: SpecAxiom::HasKey { ce, vpe }, ann };
    let w = w_annotated_axiom(x, None);
    let s = a + w + b;
    let k = "HasKey"@;
    let t = annotations_before(ann);
    let body = key_body(ce, vpe);
    lemma_has_key_text(ce, vpe, ann);
    assert(keyword(k)) by {
        lemma_axiom_branch_has_key(s, 0, px);
    }
    assert(s =~= a + k + (seq!['('] + t + body + seq![')'] + b));
    lemma_keyword_at(a, k, seq!['('] + t + body + seq![')'] + b, px);
    let a0 = a + k + seq!['('];
    let q = a0.len() as int;
    let u = q + t.len();
    let wce = w_ce(ce, None);
    lemma_ce_start(ce);
    assert(body[0] == wce[0]);
    assert(s =~= a0 + t + (body + seq![')'] + b));
    assert(s[u] == body[0]);
    if ann.len() > 0 {
        assert(s =~= a0 + (w_annotations(ann, None) + seq![' ']) + (body + seq![')'] + b));
        lemma_read_written_annotations_before(s, a0, ann, body + seq![')'] + b, px);
    } else {
        lemma_word_not_annotation(s, q);
        assert(ws(s, q) == q);
        lemma_no_annotations(s, q, px);
        assert(ann =~= Seq::<SpecAnnotation>::empty());
    }
    let e0 = if ann.len() > 0 { u - 1 } else { q };
    assert(r_annotation_seq(s, q, px) == (Ok::<Seq<SpecAnnotation>, SpecError>(ann), ann.len(), e0));
    assert(ws(s, u) == u);
    assert(ws(s, e0) == u);
    assert(s.subrange(u, u + body.len()) =~= body);
    lemma_read_key_body(s, u, ce, vpe, px);
    let f2 = u + body.len() - 1;
    assert(body[body.len() - 1] == ' ');
    assert(s[f2] == ' ');
    assert(s[f2 + 1] == ')');
    assert(ws(s, f2 + 1) == f2 + 1);
    assert(ws(s, f2) == f2 + 1);
    lemma_axiom_branch_has_key(s, u, px);
    lemma_r_axiom_closed_at(s, a.len() as int, px, q, k, SpecAxiom::HasKey { ce, vpe }, ann, e0, f2, f2 + 2);
    lemma_has_key_keyword();
    assert(w[0] == k[0]);
}

} // verus!
