//! Writing model elements in the functional syntax.
use vstd::prelude::*;
use crate::context::Context;
use crate::model::{
    AnnotatedAxiom, Annotation, AnnotationSubject, AnnotationValue, AnonymousIndividual, Axiom,
    ClassExpression, DataRange, Facet, FacetRestriction, IRI, Individual, Literal,
    ObjectPropertyExpression, Ontology, PropertyExpression, SpecAnnotation, SubObjectPropertyExpression, lemma_view_ce_seq, lemma_view_dr_seq, view_ce_seq, view_dr_seq,
};
use crate::prefixes::{SpecPrefixes, shrink_iri};
use crate::rendering::{
    join, key_parts, lemma_ce_list_step, lemma_dr_list_step, lemma_join_step, w_annotated_axiom,
    w_annotation, w_annotation_subject, w_annotation_value, w_annotations, w_axiom, w_ce,
    w_ce_list, w_declaration, w_dr, w_dr_list, w_facet, w_facet_restriction,
    w_imports, w_individual, w_iri,
    w_literal, w_ontology, w_ontology_annotations, w_ontology_id, w_ope,
    w_other_axioms, w_prefixes, w_sub_ope,
};
use crate::text::{quote, push_decimal};
use crate::sets::{copy_annotations, set_of_annotations};
use crate::vocab::facet_iri;

verus! {

/// Append an IRI (see [`w_iri`]).
pub fn write_iri(iri: &IRI, ctx: &Context, out: &mut String)
    ensures
        final(out)@ == old(out)@ + w_iri(iri@, ctx@),
{
    let ghost start = out@;
    match ctx.prefixes() {
        Some(p) => match shrink_iri(p, iri.0.as_str()) {
            Some(c) => {
                out.append(c.as_str());
            },
            None => {
                out.push('<');
                out.append(iri.0.as_str());
                out.push('>');
            },
        },
        None => {
            out.push('<');
            out.append(iri.0.as_str());
            out.push('>');
        },
    }
    assert(out@ =~= start + w_iri(iri@, ctx@));
}


/// A handle for writing an element in functional syntax, with or without a
/// context (for IRI prefixes).
pub struct Functional<'t, T> {
    pub item: &'t T,
    pub context: Option<&'t Context<'t>>,
}

impl<'t, T: AsFunctional> Functional<'t, T> {
    /// The text of the element, written with the prefixes of the context.
    pub open spec fn text(&self) -> Seq<char> {
        match self.context {
            Some(c) => self.item.spec_ofn(c@),
            None => self.item.spec_ofn(None),
        }
    }

    /// The element in functional syntax.
    pub fn to_string(&self) -> (r: String)
        ensures
            r@ == self.text(),
    {
        let mut out = String::new();
        match self.context {
            Some(c) => self.item.write_ofn(c, &mut out),
            None => {
                let empty = Context::empty();
                self.item.write_ofn(&empty, &mut out);
            },
        }
        assert(out@ =~= self.text());
        out
    }
}

/// Elements that can be written in the functional syntax.
pub trait AsFunctional: Sized {
    /// The text of this element, written with the given prefixes.
    spec fn spec_ofn(&self, px: Option<SpecPrefixes>) -> Seq<char>;

    /// Append the text of this element, written with the prefixes of `ctx`.
    fn write_ofn(&self, ctx: &Context, out: &mut String)
        ensures
            final(out)@ == old(out)@ + self.spec_ofn(ctx@),
    ;

    /// Get a handle for writing the element in functional syntax.
    fn as_ofn(&self) -> (r: Functional<'_, Self>)
        ensures
            r.item == self,
            r.context is None,
    {
        Functional { item: self, context: None }
    }

    /// Get a handle for writing the element, using the given context: its
    /// prefix mapping abbreviates IRIs where it can.
    fn as_ofn_ctx<'t>(&'t self, context: &'t Context<'t>) -> (r: Functional<'t, Self>)
        ensures
            r.item == self,
            r.context == Some(context),
    {
        Functional { item: self, context: Some(context) }
    }
}

/// Append the elements of `v`, separated by single spaces.
pub fn write_joined<T: AsFunctional>(v: &Vec<T>, ctx: &Context, out: &mut String)
    ensures
        final(out)@ == old(out)@ + join(v@.map_values(|x: T| x.spec_ofn(ctx@))),
{
    let ghost start = out@;
    let ghost items = v@.map_values(|x: T| x.spec_ofn(ctx@));
    let mut i: usize = 0;
    while i < v.len()
        invariant
            i <= v.len(),
            items == v@.map_values(|x: T| x.spec_ofn(ctx@)),
            out@ == start + join(items.take(i as int)),
        decreases v.len() - i,
    {
        proof {
            lemma_join_step(items, i as int);
        }
        if i > 0 {
            out.push(' ');
        }
        v[i].write_ofn(ctx, out);
        i += 1;
        assert(out@ =~= start + join(items.take(i as int)));
    }
    assert(items.take(v.len() as int) =~= items);
}

impl AsFunctional for IRI {
    open spec fn spec_ofn(&self, px: Option<SpecPrefixes>) -> Seq<char> {
        w_iri(self@, px)
    }

    fn write_ofn(&self, ctx: &Context, out: &mut String) {
        write_iri(self, ctx, out)
    }
}

impl AsFunctional for Individual {
    open spec fn spec_ofn(&self, px: Option<SpecPrefixes>) -> Seq<char> {
        w_individual(self@, px)
    }

    fn write_ofn(&self, ctx: &Context, out: &mut String) {
        let ghost start = out@;
        match self {
            Individual::Named(i) => write_iri(i, ctx, out),
            Individual::Anonymous(a) => {
                out.append("_:");
                out.append(a.0.as_str());
            },
        }
        assert(out@ =~= start + self.spec_ofn(ctx@));
    }
}

impl AsFunctional for Literal {
    open spec fn spec_ofn(&self, px: Option<SpecPrefixes>) -> Seq<char> {
        w_literal(self@, px)
    }

    fn write_ofn(&self, ctx: &Context, out: &mut String) {
        let ghost start = out@;
        match self {
            Literal::Simple { literal } => {
                quote(literal.as_str(), out);
            },
            Literal::Language { literal, lang } => {
                quote(literal.as_str(), out);
                out.push('@');
                out.append(lang.as_str());
            },
            Literal::Datatype { literal, datatype_iri } => {
                quote(literal.as_str(), out);
                out.append("^^");
                write_iri(datatype_iri, ctx, out);
            },
        }
        assert(out@ =~= start + self.spec_ofn(ctx@));
    }
}

impl AsFunctional for Facet {
    open spec fn spec_ofn(&self, px: Option<SpecPrefixes>) -> Seq<char> {
        w_facet(*self)
    }

    fn write_ofn(&self, ctx: &Context, out: &mut String) {
        let ghost start = out@;
        let iri = facet_iri(*self);
        out.push('<');
        out.append(iri.as_str());
        out.push('>');
        assert(out@ =~= start + self.spec_ofn(ctx@));
    }
}

impl AsFunctional for FacetRestriction {
    open spec fn spec_ofn(&self, px: Option<SpecPrefixes>) -> Seq<char> {
        w_facet_restriction(self@, px)
    }

    fn write_ofn(&self, ctx: &Context, out: &mut String) {
        let ghost start = out@;
        self.f.write_ofn(ctx, out);
        out.push(' ');
        self.l.write_ofn(ctx, out);
        assert(out@ =~= start + self.spec_ofn(ctx@));
    }
}

impl AsFunctional for ObjectPropertyExpression {
    open spec fn spec_ofn(&self, px: Option<SpecPrefixes>) -> Seq<char> {
        w_ope(self@, px)
    }

    fn write_ofn(&self, ctx: &Context, out: &mut String) {
        let ghost start = out@;
        match self {
            ObjectPropertyExpression::ObjectProperty(i) => write_iri(i, ctx, out),
            ObjectPropertyExpression::InverseObjectProperty(i) => {
                out.append("ObjectInverseOf(");
                write_iri(i, ctx, out);
                out.push(')');
            },
        }
        assert(out@ =~= start + self.spec_ofn(ctx@));
    }
}

impl AsFunctional for SubObjectPropertyExpression {
    open spec fn spec_ofn(&self, px: Option<SpecPrefixes>) -> Seq<char> {
        w_sub_ope(self@, px)
    }

    fn write_ofn(&self, ctx: &Context, out: &mut String) {
        let ghost start = out@;
        match self {
            SubObjectPropertyExpression::ObjectPropertyChain(v) => {
                out.append("ObjectPropertyChain(");
                write_joined(v, ctx, out);
                out.push(')');
                assert(v@.map_values(|x: ObjectPropertyExpression| x.spec_ofn(ctx@)) =~= v@.map_values(
                    |x: ObjectPropertyExpression| x@,
                ).map_values(|o| w_ope(o, ctx@)));
            },
            SubObjectPropertyExpression::ObjectPropertyExpression(o) => o.write_ofn(ctx, out),
        }
        assert(out@ =~= start + self.spec_ofn(ctx@));
    }
}


/// Append the data ranges of `v`, separated by single spaces.
fn write_dr_list(v: &Vec<DataRange>, ctx: &Context, out: &mut String)
    ensures
        final(out)@ == old(out)@ + w_dr_list(view_dr_seq(v@), ctx@),
    decreases v,
{
    let ghost start = out@;
    let ghost s = view_dr_seq(v@);
    proof {
        lemma_view_dr_seq(v@);
    }
    let mut i: usize = 0;
    while i < v.len()
        invariant
            i <= v.len(),
            s == view_dr_seq(v@),
            s.len() == v@.len(),
            forall|j: int| 0 <= j < v@.len() ==> #[trigger] s[j] == v@[j]@,
            out@ == start + w_dr_list(s.take(i as int), ctx@),
        decreases v.len() - i,
    {
        proof {
            lemma_dr_list_step(s, i as int, ctx@);
        }
        if i > 0 {
            out.push(' ');
        }
        write_dr(&v[i], ctx, out);
        i += 1;
        assert(out@ =~= start + w_dr_list(s.take(i as int), ctx@));
    }
    assert(s.take(v.len() as int) =~= s);
}

/// Append a data range (see [`w_dr`]).
pub fn write_dr(d: &DataRange, ctx: &Context, out: &mut String)
    ensures
        final(out)@ == old(out)@ + w_dr(d@, ctx@),
    decreases d,
{
    let ghost start = out@;
    match d {
        DataRange::Datatype(i) => write_iri(i, ctx, out),
        DataRange::DataIntersectionOf(v) => {
            out.append("DataIntersectionOf(");
            write_dr_list(v, ctx, out);
            out.push(')');
        },
        DataRange::DataUnionOf(v) => {
            out.append("DataUnionOf(");
            write_dr_list(v, ctx, out);
            out.push(')');
        },
        DataRange::DataComplementOf(b) => {
            out.append("DataComplementOf(");
            write_dr(b, ctx, out);
            out.push(')');
        },
        DataRange::DataOneOf(v) => {
            out.append("DataOneOf(");
            write_joined(v, ctx, out);
            out.push(')');
            assert(v@.map_values(|x: Literal| x.spec_ofn(ctx@)) =~= v@.map_values(|x: Literal| x@).map_values(
                |l| w_literal(l, ctx@),
            ));
        },
        DataRange::DatatypeRestriction(i, v) => {
            out.append("DatatypeRestriction(");
            write_iri(i, ctx, out);
            out.push(' ');
            write_joined(v, ctx, out);
            out.push(')');
            assert(v@.map_values(|x: FacetRestriction| x.spec_ofn(ctx@)) =~= v@.map_values(
                |x: FacetRestriction| x@,
            ).map_values(|r| w_facet_restriction(r, ctx@)));
        },
    }
    assert(out@ =~= start + w_dr(d@, ctx@));
}

impl AsFunctional for DataRange {
    open spec fn spec_ofn(&self, px: Option<SpecPrefixes>) -> Seq<char> {
        w_dr(self@, px)
    }

    fn write_ofn(&self, ctx: &Context, out: &mut String) {
        write_dr(self, ctx, out)
    }
}


/// Append the class expressions of `v`, separated by single spaces.
fn write_ce_list(v: &Vec<ClassExpression>, ctx: &Context, out: &mut String)
    ensures
        final(out)@ == old(out)@ + w_ce_list(view_ce_seq(v@), ctx@),
    decreases v,
{
    let ghost start = out@;
    let ghost s = view_ce_seq(v@);
    proof {
        lemma_view_ce_seq(v@);
    }
    let mut i: usize = 0;
    while i < v.len()
        invariant
            i <= v.len(),
            s == view_ce_seq(v@),
            s.len() == v@.len(),
            forall|j: int| 0 <= j < v@.len() ==> #[trigger] s[j] == v@[j]@,
            out@ == start + w_ce_list(s.take(i as int), ctx@),
        decreases v.len() - i,
    {
        proof {
            lemma_ce_list_step(s, i as int, ctx@);
        }
        if i > 0 {
            out.push(' ');
        }
        write_ce(&v[i], ctx, out);
        i += 1;
        assert(out@ =~= start + w_ce_list(s.take(i as int), ctx@));
    }
    assert(s.take(v.len() as int) =~= s);
}

/// Append `name(` followed by the decimal numeral of `n` and a space.
fn write_card_head(name: &str, n: u32, out: &mut String)
    ensures
        final(out)@ == old(out)@ + name@ + seq!['('] + crate::text::decimal(n as nat) + seq![' '],
{
    let ghost start = out@;
    out.append(name);
    out.push('(');
    push_decimal(n, out);
    out.push(' ');
    assert(out@ =~= start + name@ + seq!['('] + crate::text::decimal(n as nat) + seq![' ']);
}

#[verifier::spinoff_prover]
#[verifier::rlimit(40)]
/// Append a class expression that restricts a data property.
fn write_data_ce(c: &ClassExpression, ctx: &Context, out: &mut String)
    requires
        c is DataSomeValuesFrom || c is DataAllValuesFrom || c is DataHasValue
            || c is DataMinCardinality || c is DataMaxCardinality || c is DataExactCardinality,
    ensures
        final(out)@ == old(out)@ + w_ce(c@, ctx@),
{
    let ghost start = out@;
    match c {
        ClassExpression::DataSomeValuesFrom { dp, dr } => {
            out.append("DataSomeValuesFrom");
            out.push('(');
            write_iri(dp, ctx, out);
            out.push(' ');
            write_dr(dr, ctx, out);
            out.push(')');
            assert(out@ =~= start + w_ce(c@, ctx@));
        },
        ClassExpression::DataAllValuesFrom { dp, dr } => {
            out.append("DataAllValuesFrom");
            out.push('(');
            write_iri(dp, ctx, out);
            out.push(' ');
            write_dr(dr, ctx, out);
            out.push(')');
            assert(out@ =~= start + w_ce(c@, ctx@));
        },
        ClassExpression::DataHasValue { dp, l } => {
            out.append("DataHasValue");
            out.push('(');
            write_iri(dp, ctx, out);
            out.push(' ');
            l.write_ofn(ctx, out);
            out.push(')');
            assert(out@ =~= start + w_ce(c@, ctx@));
        },
        ClassExpression::DataMinCardinality { n, dp, dr } => {
            write_card_head("DataMinCardinality", *n, out);
            write_iri(dp, ctx, out);
            out.push(' ');
            write_dr(dr, ctx, out);
            out.push(')');
            assert(out@ =~= start + w_ce(c@, ctx@));
        },
        ClassExpression::DataMaxCardinality { n, dp, dr } => {
            write_card_head("DataMaxCardinality", *n, out);
            write_iri(dp, ctx, out);
            out.push(' ');
            write_dr(dr, ctx, out);
            out.push(')');
            assert(out@ =~= start + w_ce(c@, ctx@));
        },
        ClassExpression::DataExactCardinality { n, dp, dr } => {
            write_card_head("DataExactCardinality", *n, out);
            write_iri(dp, ctx, out);
            out.push(' ');
            write_dr(dr, ctx, out);
            out.push(')');
            assert(out@ =~= start + w_ce(c@, ctx@));
        },
        _ => {},
    }
}

#[verifier::spinoff_prover]
#[verifier::rlimit(40)]
/// Append a class expression (see [`w_ce`]).
pub fn write_ce(c: &ClassExpression, ctx: &Context, out: &mut String)
    ensures
        final(out)@ == old(out)@ + w_ce(c@, ctx@),
    decreases c,
{
    let ghost start = out@;
    match c {
        ClassExpression::Class(i) => write_iri(i, ctx, out),
        ClassExpression::ObjectIntersectionOf(v) => {
            out.append("ObjectIntersectionOf(");
            write_ce_list(v, ctx, out);
            out.push(')');
            assert(out@ =~= start + w_ce(c@, ctx@));
        },
        ClassExpression::ObjectUnionOf(v) => {
            out.append("ObjectUnionOf(");
            write_ce_list(v, ctx, out);
            out.push(')');
            assert(out@ =~= start + w_ce(c@, ctx@));
        },
        ClassExpression::ObjectComplementOf(b) => {
            out.append("ObjectComplementOf(");
            write_ce(b, ctx, out);
            out.push(')');
            assert(out@ =~= start + w_ce(c@, ctx@));
        },
        ClassExpression::ObjectOneOf(v) => {
            out.append("ObjectOneOf(");
            write_joined(v, ctx, out);
            out.push(')');
            assert(v@.map_values(|x: Individual| x.spec_ofn(ctx@)) =~= v@.map_values(
                |x: Individual| x@,
            ).map_values(|i| w_individual(i, ctx@)));
            assert(out@ =~= start + w_ce(c@, ctx@));
        },
        ClassExpression::ObjectSomeValuesFrom { ope, bce } => {
            out.append("ObjectSomeValuesFrom");
            out.push('(');
            ope.write_ofn(ctx, out);
            out.push(' ');
            write_ce(bce, ctx, out);
            out.push(')');
            assert(out@ =~= start + w_ce(c@, ctx@));
        },
        ClassExpression::ObjectAllValuesFrom { ope, bce } => {
            out.append("ObjectAllValuesFrom");
            out.push('(');
            ope.write_ofn(ctx, out);
            out.push(' ');
            write_ce(bce, ctx, out);
            out.push(')');
            assert(out@ =~= start + w_ce(c@, ctx@));
        },
        ClassExpression::ObjectHasValue { ope, i } => {
            out.append("ObjectHasValue");
            out.push('(');
            ope.write_ofn(ctx, out);
            out.push(' ');
            i.write_ofn(ctx, out);
            out.push(')');
            assert(out@ =~= start + w_ce(c@, ctx@));
        },
        ClassExpression::ObjectHasSelf(ope) => {
            out.append("ObjectHasSelf(");
            ope.write_ofn(ctx, out);
            out.push(')');
            assert(out@ =~= start + w_ce(c@, ctx@));
        },
        ClassExpression::ObjectMinCardinality { n, ope, bce } => {
            write_card_head("ObjectMinCardinality", *n, out);
            ope.write_ofn(ctx, out);
            out.push(' ');
            write_ce(bce, ctx, out);
            out.push(')');
            assert(out@ =~= start + w_ce(c@, ctx@));
        },
        ClassExpression::ObjectMaxCardinality { n, ope, bce } => {
            write_card_head("ObjectMaxCardinality", *n, out);
            ope.write_ofn(ctx, out);
            out.push(' ');
            write_ce(bce, ctx, out);
            out.push(')');
            assert(out@ =~= start + w_ce(c@, ctx@));
        },
        ClassExpression::ObjectExactCardinality { n, ope, bce } => {
            write_card_head("ObjectExactCardinality", *n, out);
            ope.write_ofn(ctx, out);
            out.push(' ');
            write_ce(bce, ctx, out);
            out.push(')');
            assert(out@ =~= start + w_ce(c@, ctx@));
        },
        ClassExpression::DataSomeValuesFrom { .. } | ClassExpression::DataAllValuesFrom { .. }
        | ClassExpression::DataHasValue { .. } | ClassExpression::DataMinCardinality { .. }
        | ClassExpression::DataMaxCardinality { .. } | ClassExpression::DataExactCardinality {
            ..
        } => write_data_ce(c, ctx, out),
    }
}

impl AsFunctional for ClassExpression {
    open spec fn spec_ofn(&self, px: Option<SpecPrefixes>) -> Seq<char> {
        w_ce(self@, px)
    }

    fn write_ofn(&self, ctx: &Context, out: &mut String) {
        write_ce(self, ctx, out)
    }
}


impl AsFunctional for AnnotationValue {
    open spec fn spec_ofn(&self, px: Option<SpecPrefixes>) -> Seq<char> {
        w_annotation_value(self@, px)
    }

    fn write_ofn(&self, ctx: &Context, out: &mut String) {
        match self {
            AnnotationValue::Literal(l) => l.write_ofn(ctx, out),
            AnnotationValue::IRI(i) => write_iri(i, ctx, out),
        }
    }
}

impl AsFunctional for AnnotationSubject {
    open spec fn spec_ofn(&self, px: Option<SpecPrefixes>) -> Seq<char> {
        w_annotation_subject(self@, px)
    }

    fn write_ofn(&self, ctx: &Context, out: &mut String) {
        let ghost start = out@;
        match self {
            AnnotationSubject::IRI(i) => write_iri(i, ctx, out),
            AnnotationSubject::AnonymousIndividual(a) => {
                out.append("_:");
                out.append(a.0.as_str());
            },
        }
        assert(out@ =~= start + self.spec_ofn(ctx@));
    }
}

impl AsFunctional for Annotation {
    open spec fn spec_ofn(&self, px: Option<SpecPrefixes>) -> Seq<char> {
        w_annotation(self@, px)
    }

    fn write_ofn(&self, ctx: &Context, out: &mut String) {
        let ghost start = out@;
        out.append("Annotation");
        out.push('(');
        write_iri(&self.ap, ctx, out);
        out.push(' ');
        self.av.write_ofn(ctx, out);
        out.push(')');
        assert(out@ =~= start + self.spec_ofn(ctx@));
    }
}

/// The mathematical form of the annotations that an axiom is written with.
pub open spec fn ann_view(ann: Option<&Vec<Annotation>>) -> Option<Seq<SpecAnnotation>> {
    match ann {
        Some(v) => Some(v@.map_values(|a: Annotation| a@)),
        None => None,
    }
}

/// Append `name(` and, when given, the annotations followed by a space.
fn open_form(name: &str, ann: Option<&Vec<Annotation>>, ctx: &Context, out: &mut String)
    ensures
        final(out)@ == old(out)@ + name@ + seq!['('] + match ann_view(ann) {
            Some(v) => w_annotations(v, ctx@) + seq![' '],
            None => Seq::empty(),
        },
{
    let ghost start = out@;
    out.append(name);
    out.push('(');
    match ann {
        Some(v) => {
            write_joined(v, ctx, out);
            out.push(' ');
            assert(v@.map_values(|x: Annotation| x.spec_ofn(ctx@)) =~= v@.map_values(
                |a: Annotation| a@,
            ).map_values(|a| w_annotation(a, ctx@)));
        },
        None => {},
    }
    assert(out@ =~= start + name@ + seq!['('] + match ann_view(ann) {
        Some(v) => w_annotations(v, ctx@) + seq![' '],
        None => Seq::empty(),
    });
}

/// Append `name(` and the annotations followed by a space, when there is
/// at least one (see [`w_lean_form`]).
fn open_lean_form(name: &str, ann: Option<&Vec<Annotation>>, ctx: &Context, out: &mut String)
    ensures
        final(out)@ == old(out)@ + name@ + seq!['('] + match ann_view(ann) {
            Some(v) => if v.len() > 0 {
                w_annotations(v, ctx@) + seq![' ']
            } else {
                Seq::empty()
            },
            None => Seq::empty(),
        },
{
    match ann {
        Some(v) => {
            if v.len() > 0 {
                open_form(name, ann, ctx, out);
            } else {
                open_form(name, None, ctx, out);
            }
        },
        None => open_form(name, None, ctx, out),
    }
}

/// Append the parts of a key (see [`key_parts`]): its object property
/// expressions when `objects`, else its data properties.
fn write_key_parts(v: &Vec<PropertyExpression>, objects: bool, ctx: &Context, out: &mut String)
    ensures
        final(out)@ == old(out)@ + join(
            key_parts(v@.map_values(|p: PropertyExpression| p@), objects, ctx@),
        ),
{
    let ghost start = out@;
    let ghost pv = v@.map_values(|p: PropertyExpression| p@);
    let mut i: usize = 0;
    let mut n: usize = 0;
    while i < v.len()
        invariant
            i <= v.len(),
            n <= i,
            pv == v@.map_values(|p: PropertyExpression| p@),
            key_parts(pv.take(i as int), objects, ctx@).len() == n,
            out@ == start + join(key_parts(pv.take(i as int), objects, ctx@)),
        decreases v.len() - i,
    {
        let ghost before = key_parts(pv.take(i as int), objects, ctx@);
        assert(pv.take(i + 1).drop_last() =~= pv.take(i as int));
        match &v[i] {
            PropertyExpression::ObjectPropertyExpression(o) => {
                if objects {
                    if n > 0 {
                        out.push(' ');
                    }
                    o.write_ofn(ctx, out);
                    n += 1;
                    proof {
                        lemma_join_step(before.push(w_ope(o@, ctx@)), before.len() as int);
                        assert(before.push(w_ope(o@, ctx@)).take(before.len() as int) =~= before);
                        assert(before.push(w_ope(o@, ctx@)).take(before.len() + 1int) =~= before.push(
                            w_ope(o@, ctx@),
                        ));
                    }
                }
            },
            PropertyExpression::DataProperty(d) => {
                if !objects {
                    if n > 0 {
                        out.push(' ');
                    }
                    write_iri(d, ctx, out);
                    n += 1;
                    proof {
                        lemma_join_step(before.push(w_iri(d@, ctx@)), before.len() as int);
                        assert(before.push(w_iri(d@, ctx@)).take(before.len() as int) =~= before);
                        assert(before.push(w_iri(d@, ctx@)).take(before.len() + 1int) =~= before.push(
                            w_iri(d@, ctx@),
                        ));
                    }
                }
            },
            PropertyExpression::AnnotationProperty(_) => {},
        }
        i += 1;
        assert(out@ =~= start + join(key_parts(pv.take(i as int), objects, ctx@)));
    }
    assert(pv.take(v.len() as int) =~= pv);
}

/// Append an axiom of the class group (see [`w_axiom`]).
#[verifier::spinoff_prover]
#[verifier::rlimit(40)]
fn write_class_axiom(a: &Axiom, ann: Option<&Vec<Annotation>>, ctx: &Context, out: &mut String)
    requires
        a is SubClassOf || a is EquivalentClasses || a is DisjointClasses || a is DisjointUnion,
    ensures
        final(out)@ == old(out)@ + w_axiom(a@, ann_view(ann), ctx@),
{
    let ghost start = out@;
    match a {
        Axiom::SubClassOf { sub, sup } => {
            open_form("SubClassOf", ann, ctx, out);
            write_ce(sub, ctx, out);
            out.push(' ');
            write_ce(sup, ctx, out);
            out.push(')');
            assert(out@ =~= start + w_axiom(a@, ann_view(ann), ctx@));
        },
        Axiom::EquivalentClasses(v) => {
            open_form("EquivalentClasses", ann, ctx, out);
            write_ce_list(v, ctx, out);
            out.push(')');
            assert(out@ =~= start + w_axiom(a@, ann_view(ann), ctx@));
        },
        Axiom::DisjointClasses(v) => {
            open_form("DisjointClasses", ann, ctx, out);
            write_ce_list(v, ctx, out);
            out.push(')');
            assert(out@ =~= start + w_axiom(a@, ann_view(ann), ctx@));
        },
        Axiom::DisjointUnion(c, v) => {
            open_form("DisjointUnion", ann, ctx, out);
            write_iri(c, ctx, out);
            out.push(' ');
            write_ce_list(v, ctx, out);
            out.push(')');
            assert(out@ =~= start + w_axiom(a@, ann_view(ann), ctx@));
        },
        _ => {},
    }
}

/// Append an axiom of the object group (see [`w_axiom`]).
#[verifier::spinoff_prover]
#[verifier::rlimit(40)]
fn write_object_axiom(a: &Axiom, ann: Option<&Vec<Annotation>>, ctx: &Context, out: &mut String)
    requires
        a is SubObjectPropertyOf || a is EquivalentObjectProperties || a is DisjointObjectProperties || a is InverseObjectProperties || a is ObjectPropertyDomain || a is ObjectPropertyRange,
    ensures
        final(out)@ == old(out)@ + w_axiom(a@, ann_view(ann), ctx@),
{
    let ghost start = out@;
    match a {
        Axiom::SubObjectPropertyOf { sub, sup } => {
            open_form("SubObjectPropertyOf", ann, ctx, out);
            sub.write_ofn(ctx, out);
            out.push(' ');
            sup.write_ofn(ctx, out);
            out.push(')');
            assert(out@ =~= start + w_axiom(a@, ann_view(ann), ctx@));
        },
        Axiom::EquivalentObjectProperties(v) => {
            open_form("EquivalentObjectProperties", ann, ctx, out);
            write_joined(v, ctx, out);
            assert(v@.map_values(|x: ObjectPropertyExpression| x.spec_ofn(ctx@)) =~= v@.map_values(|x: ObjectPropertyExpression| x@).map_values(|y| w_ope(y, ctx@)));
            out.push(')');
            assert(out@ =~= start + w_axiom(a@, ann_view(ann), ctx@));
        },
        Axiom::DisjointObjectProperties(v) => {
            open_form("DisjointObjectProperties", ann, ctx, out);
            write_joined(v, ctx, out);
            assert(v@.map_values(|x: ObjectPropertyExpression| x.spec_ofn(ctx@)) =~= v@.map_values(|x: ObjectPropertyExpression| x@).map_values(|y| w_ope(y, ctx@)));
            out.push(')');
            assert(out@ =~= start + w_axiom(a@, ann_view(ann), ctx@));
        },
        Axiom::InverseObjectProperties(p, q) => {
            open_form("InverseObjectProperties", ann, ctx, out);
            write_iri(p, ctx, out);
            out.push(' ');
            write_iri(q, ctx, out);
            out.push(')');
            assert(out@ =~= start + w_axiom(a@, ann_view(ann), ctx@));
        },
        Axiom::ObjectPropertyDomain { ope, ce } => {
            open_form("ObjectPropertyDomain", ann, ctx, out);
            ope.write_ofn(ctx, out);
            out.push(' ');
            write_ce(ce, ctx, out);
            out.push(')');
            assert(out@ =~= start + w_axiom(a@, ann_view(ann), ctx@));
        },
        Axiom::ObjectPropertyRange { ope, ce } => {
            open_form("ObjectPropertyRange", ann, ctx, out);
            ope.write_ofn(ctx, out);
            out.push(' ');
            write_ce(ce, ctx, out);
            out.push(')');
            assert(out@ =~= start + w_axiom(a@, ann_view(ann), ctx@));
        },
        _ => {},
    }
}

/// Append an axiom of the characteristic group (see [`w_axiom`]).
#[verifier::spinoff_prover]
#[verifier::rlimit(40)]
fn write_characteristic_axiom(a: &Axiom, ann: Option<&Vec<Annotation>>, ctx: &Context, out: &mut String)
    requires
        a is FunctionalObjectProperty || a is InverseFunctionalObjectProperty || a is ReflexiveObjectProperty || a is IrreflexiveObjectProperty || a is SymmetricObjectProperty || a is AsymmetricObjectProperty || a is TransitiveObjectProperty,
    ensures
        final(out)@ == old(out)@ + w_axiom(a@, ann_view(ann), ctx@),
{
    let ghost start = out@;
    match a {
        Axiom::FunctionalObjectProperty(o) => {
            open_form("FunctionalObjectProperty", ann, ctx, out);
            o.write_ofn(ctx, out);
            out.push(')');
            assert(out@ =~= start + w_axiom(a@, ann_view(ann), ctx@));
        },
        Axiom::InverseFunctionalObjectProperty(o) => {
            open_form("InverseFunctionalObjectProperty", ann, ctx, out);
            o.write_ofn(ctx, out);
            out.push(')');
            assert(out@ =~= start + w_axiom(a@, ann_view(ann), ctx@));
        },
        Axiom::ReflexiveObjectProperty(o) => {
            open_form("ReflexiveObjectProperty", ann, ctx, out);
            o.write_ofn(ctx, out);
            out.push(')');
            assert(out@ =~= start + w_axiom(a@, ann_view(ann), ctx@));
        },
        Axiom::IrreflexiveObjectProperty(o) => {
            open_form("IrreflexiveObjectProperty", ann, ctx, out);
            o.write_ofn(ctx, out);
            out.push(')');
            assert(out@ =~= start + w_axiom(a@, ann_view(ann), ctx@));
        },
        Axiom::SymmetricObjectProperty(o) => {
            open_form("SymmetricObjectProperty", ann, ctx, out);
            o.write_ofn(ctx, out);
            out.push(')');
            assert(out@ =~= start + w_axiom(a@, ann_view(ann), ctx@));
        },
        Axiom::AsymmetricObjectProperty(o) => {
            open_form("AsymmetricObjectProperty", ann, ctx, out);
            o.write_ofn(ctx, out);
            out.push(')');
            assert(out@ =~= start + w_axiom(a@, ann_view(ann), ctx@));
        },
        Axiom::TransitiveObjectProperty(o) => {
            open_form("TransitiveObjectProperty", ann, ctx, out);
            o.write_ofn(ctx, out);
            out.push(')');
            assert(out@ =~= start + w_axiom(a@, ann_view(ann), ctx@));
        },
        _ => {},
    }
}

/// Append an axiom of the data group (see [`w_axiom`]).
#[verifier::spinoff_prover]
#[verifier::rlimit(40)]
fn write_data_axiom(a: &Axiom, ann: Option<&Vec<Annotation>>, ctx: &Context, out: &mut String)
    requires
        a is SubDataPropertyOf || a is EquivalentDataProperties || a is DisjointDataProperties || a is DataPropertyDomain || a is DataPropertyRange || a is FunctionalDataProperty || a is DatatypeDefinition,
    ensures
        final(out)@ == old(out)@ + w_axiom(a@, ann_view(ann), ctx@),
{
    let ghost start = out@;
    match a {
        Axiom::SubDataPropertyOf { sub, sup } => {
            open_form("SubDataPropertyOf", ann, ctx, out);
            write_iri(sub, ctx, out);
            out.push(' ');
            write_iri(sup, ctx, out);
            out.push(')');
            assert(out@ =~= start + w_axiom(a@, ann_view(ann), ctx@));
        },
        Axiom::EquivalentDataProperties(v) => {
            open_form("EquivalentDataProperties", ann, ctx, out);
            write_joined(v, ctx, out);
            assert(v@.map_values(|x: IRI| x.spec_ofn(ctx@)) =~= v@.map_values(|x: IRI| x@).map_values(|y| w_iri(y, ctx@)));
            out.push(')');
            assert(out@ =~= start + w_axiom(a@, ann_view(ann), ctx@));
        },
        Axiom::DisjointDataProperties(v) => {
            open_form("DisjointDataProperties", ann, ctx, out);
            write_joined(v, ctx, out);
            assert(v@.map_values(|x: IRI| x.spec_ofn(ctx@)) =~= v@.map_values(|x: IRI| x@).map_values(|y| w_iri(y, ctx@)));
            out.push(')');
            assert(out@ =~= start + w_axiom(a@, ann_view(ann), ctx@));
        },
        Axiom::DataPropertyDomain { dp, ce } => {
            open_form("DataPropertyDomain", ann, ctx, out);
            write_iri(dp, ctx, out);
            out.push(' ');
            write_ce(ce, ctx, out);
            out.push(')');
            assert(out@ =~= start + w_axiom(a@, ann_view(ann), ctx@));
        },
        Axiom::DataPropertyRange { dp, dr } => {
            open_form("DataPropertyRange", ann, ctx, out);
            write_iri(dp, ctx, out);
            out.push(' ');
            write_dr(dr, ctx, out);
            out.push(')');
            assert(out@ =~= start + w_axiom(a@, ann_view(ann), ctx@));
        },
        Axiom::FunctionalDataProperty(d) => {
            open_form("FunctionalDataProperty", ann, ctx, out);
            write_iri(d, ctx, out);
            out.push(')');
            assert(out@ =~= start + w_axiom(a@, ann_view(ann), ctx@));
        },
        Axiom::DatatypeDefinition { kind, range } => {
            open_form("DatatypeDefinition", ann, ctx, out);
            write_iri(kind, ctx, out);
            out.push(' ');
            write_dr(range, ctx, out);
            out.push(')');
            assert(out@ =~= start + w_axiom(a@, ann_view(ann), ctx@));
        },
        _ => {},
    }
}

/// Append an axiom of the assertion group (see [`w_axiom`]).
#[verifier::spinoff_prover]
#[verifier::rlimit(80)]
fn write_assertion_axiom(a: &Axiom, ann: Option<&Vec<Annotation>>, ctx: &Context, out: &mut String)
    requires
        a is SameIndividual || a is DifferentIndividuals || a is ClassAssertion || a is ObjectPropertyAssertion || a is NegativeObjectPropertyAssertion || a is DataPropertyAssertion || a is NegativeDataPropertyAssertion,
    ensures
        final(out)@ == old(out)@ + w_axiom(a@, ann_view(ann), ctx@),
{
    let ghost start = out@;
    match a {
        Axiom::SameIndividual(v) => {
            open_form("SameIndividual", ann, ctx, out);
            write_joined(v, ctx, out);
            assert(v@.map_values(|x: Individual| x.spec_ofn(ctx@)) =~= v@.map_values(|x: Individual| x@).map_values(|y| w_individual(y, ctx@)));
            out.push(')');
            assert(out@ =~= start + w_axiom(a@, ann_view(ann), ctx@));
        },
        Axiom::DifferentIndividuals(v) => {
            open_form("DifferentIndividuals", ann, ctx, out);
            write_joined(v, ctx, out);
            assert(v@.map_values(|x: Individual| x.spec_ofn(ctx@)) =~= v@.map_values(|x: Individual| x@).map_values(|y| w_individual(y, ctx@)));
            out.push(')');
            assert(out@ =~= start + w_axiom(a@, ann_view(ann), ctx@));
        },
        Axiom::ClassAssertion { ce, i } => {
            open_form("ClassAssertion", ann, ctx, out);
            write_ce(ce, ctx, out);
            out.push(' ');
            i.write_ofn(ctx, out);
            out.push(')');
            assert(out@ =~= start + w_axiom(a@, ann_view(ann), ctx@));
        },
        Axiom::ObjectPropertyAssertion { ope, from, to } => {
            open_form("ObjectPropertyAssertion", ann, ctx, out);
            ope.write_ofn(ctx, out);
            out.push(' ');
            from.write_ofn(ctx, out);
            out.push(' ');
            to.write_ofn(ctx, out);
            out.push(')');
            assert(out@ =~= start + w_axiom(a@, ann_view(ann), ctx@));
        },
        Axiom::NegativeObjectPropertyAssertion { ope, from, to } => {
            open_form("NegativeObjectPropertyAssertion", ann, ctx, out);
            ope.write_ofn(ctx, out);
            out.push(' ');
            from.write_ofn(ctx, out);
            out.push(' ');
            to.write_ofn(ctx, out);
            out.push(')');
            assert(out@ =~= start + w_axiom(a@, ann_view(ann), ctx@));
        },
        Axiom::DataPropertyAssertion { dp, from, to } => {
            open_form("DataPropertyAssertion", ann, ctx, out);
            write_iri(dp, ctx, out);
            out.push(' ');
            from.write_ofn(ctx, out);
            out.push(' ');
            to.write_ofn(ctx, out);
            out.push(')');
            assert(out@ =~= start + w_axiom(a@, ann_view(ann), ctx@));
        },
        Axiom::NegativeDataPropertyAssertion { dp, from, to } => {
            open_form("NegativeDataPropertyAssertion", ann, ctx, out);
            write_iri(dp, ctx, out);
            out.push(' ');
            from.write_ofn(ctx, out);
            out.push(' ');
            to.write_ofn(ctx, out);
            out.push(')');
            assert(out@ =~= start + w_axiom(a@, ann_view(ann), ctx@));
        },
        _ => {},
    }
}

/// Append an axiom of the annotation group (see [`w_axiom`]).
#[verifier::spinoff_prover]
#[verifier::rlimit(40)]
fn write_annotation_axiom(a: &Axiom, ann: Option<&Vec<Annotation>>, ctx: &Context, out: &mut String)
    requires
        a is SubAnnotationPropertyOf || a is AnnotationPropertyDomain || a is AnnotationPropertyRange,
    ensures
        final(out)@ == old(out)@ + w_axiom(a@, ann_view(ann), ctx@),
{
    let ghost start = out@;
    match a {
        Axiom::SubAnnotationPropertyOf { sub, sup } => {
            open_form("SubAnnotationPropertyOf", ann, ctx, out);
            write_iri(sub, ctx, out);
            out.push(' ');
            write_iri(sup, ctx, out);
            out.push(')');
            assert(out@ =~= start + w_axiom(a@, ann_view(ann), ctx@));
        },
        Axiom::AnnotationPropertyDomain { ap, iri } => {
            open_form("AnnotationPropertyDomain", ann, ctx, out);
            write_iri(ap, ctx, out);
            out.push(' ');
            write_iri(iri, ctx, out);
            out.push(')');
            assert(out@ =~= start + w_axiom(a@, ann_view(ann), ctx@));
        },
        Axiom::AnnotationPropertyRange { ap, iri } => {
            open_form("AnnotationPropertyRange", ann, ctx, out);
            write_iri(ap, ctx, out);
            out.push(' ');
            write_iri(iri, ctx, out);
            out.push(')');
            assert(out@ =~= start + w_axiom(a@, ann_view(ann), ctx@));
        },
        _ => {},
    }
}

/// Append an axiom (see [`w_axiom`]), with the given annotations when it is
/// written as part of an annotated axiom.
#[verifier::spinoff_prover]
#[verifier::rlimit(40)]
pub fn write_axiom(a: &Axiom, ann: Option<&Vec<Annotation>>, ctx: &Context, out: &mut String)
    ensures
        final(out)@ == old(out)@ + w_axiom(a@, ann_view(ann), ctx@),
{
    let ghost start = out@;
    match a {
        Axiom::OntologyAnnotation(an) => an.write_ofn(ctx, out),
        Axiom::Import(i) => {
            open_form("Import", ann, ctx, out);
            write_iri(i, ctx, out);
            out.push(')');
            assert(out@ =~= start + w_axiom(a@, ann_view(ann), ctx@));
        },
        Axiom::DeclareClass(i) => write_declaration("Class", i, ann, ctx, out),
        Axiom::DeclareObjectProperty(i) => write_declaration("ObjectProperty", i, ann, ctx, out),
        Axiom::DeclareAnnotationProperty(i) => write_declaration("AnnotationProperty", i, ann, ctx, out),
        Axiom::DeclareDataProperty(i) => write_declaration("DataProperty", i, ann, ctx, out),
        Axiom::DeclareNamedIndividual(i) => write_declaration("NamedIndividual", i, ann, ctx, out),
        Axiom::DeclareDatatype(i) => write_declaration("Datatype", i, ann, ctx, out),
        Axiom::HasKey { ce, vpe } => {
            open_lean_form("HasKey", ann, ctx, out);
            write_ce(ce, ctx, out);
            out.append(" (");
            write_key_parts(vpe, true, ctx, out);
            out.append(") (");
            write_key_parts(vpe, false, ctx, out);
            out.append(") ");
            out.push(')');
            assert(out@ =~= start + w_axiom(a@, ann_view(ann), ctx@));
        },
        Axiom::AnnotationAssertion { subject, ann: an } => {
            open_lean_form("AnnotationAssertion", ann, ctx, out);
            write_iri(&an.ap, ctx, out);
            out.push(' ');
            subject.write_ofn(ctx, out);
            out.push(' ');
            an.av.write_ofn(ctx, out);
            out.push(')');
            assert(out@ =~= start + w_axiom(a@, ann_view(ann), ctx@));
        },
        Axiom::SubClassOf { .. } | Axiom::EquivalentClasses(..) | Axiom::DisjointClasses(..)
        | Axiom::DisjointUnion(..) => write_class_axiom(a, ann, ctx, out),
        Axiom::SubDataPropertyOf { .. } | Axiom::EquivalentDataProperties(..)
        | Axiom::DisjointDataProperties(..) | Axiom::DataPropertyDomain { .. }
        | Axiom::DataPropertyRange { .. } | Axiom::FunctionalDataProperty(..)
        | Axiom::DatatypeDefinition { .. } => write_data_axiom(a, ann, ctx, out),
        Axiom::SameIndividual(..) | Axiom::DifferentIndividuals(..) | Axiom::ClassAssertion { .. }
        | Axiom::ObjectPropertyAssertion { .. } | Axiom::NegativeObjectPropertyAssertion { .. }
        | Axiom::DataPropertyAssertion { .. } | Axiom::NegativeDataPropertyAssertion {
            ..
        } => write_assertion_axiom(a, ann, ctx, out),
        Axiom::SubAnnotationPropertyOf { .. } | Axiom::AnnotationPropertyDomain { .. }
        | Axiom::AnnotationPropertyRange { .. } => write_annotation_axiom(a, ann, ctx, out),
        Axiom::FunctionalObjectProperty(..) | Axiom::InverseFunctionalObjectProperty(..)
        | Axiom::ReflexiveObjectProperty(..) | Axiom::IrreflexiveObjectProperty(..)
        | Axiom::SymmetricObjectProperty(..) | Axiom::AsymmetricObjectProperty(..)
        | Axiom::TransitiveObjectProperty(..) => write_characteristic_axiom(a, ann, ctx, out),
        _ => write_object_axiom(a, ann, ctx, out),
    }
}

/// Append `Declaration(annotations kind(iri))`.
fn write_declaration(kind: &str, iri: &IRI, ann: Option<&Vec<Annotation>>, ctx: &Context, out: &mut String)
    ensures
        final(out)@ == old(out)@ + w_declaration(kind@, iri@, ann_view(ann), ctx@),
{
    let ghost start = out@;
    open_lean_form("Declaration", ann, ctx, out);
    out.append(kind);
    out.push('(');
    write_iri(iri, ctx, out);
    out.push(')');
    out.push(')');
    assert(out@ =~= start + w_declaration(kind@, iri@, ann_view(ann), ctx@));
}


impl AsFunctional for Axiom {
    open spec fn spec_ofn(&self, px: Option<SpecPrefixes>) -> Seq<char> {
        w_axiom(self@, None, px)
    }

    fn write_ofn(&self, ctx: &Context, out: &mut String) {
        write_axiom(self, None, ctx, out)
    }
}

impl AsFunctional for AnnotatedAxiom {
    open spec fn spec_ofn(&self, px: Option<SpecPrefixes>) -> Seq<char> {
        w_annotated_axiom(self@, px)
    }

    fn write_ofn(&self, ctx: &Context, out: &mut String) {
        let set = set_of_annotations(copy_annotations(&self.ann));
        write_axiom(&self.ax, Some(&set), ctx, out)
    }
}

/// Append the imports of `v`, one per line (see [`w_imports`]).
#[verifier::spinoff_prover]
#[verifier::rlimit(40)]
fn write_imports(v: &Vec<AnnotatedAxiom>, ctx: &Context, out: &mut String)
    ensures
        final(out)@ == old(out)@ + w_imports(v@.map_values(|a: AnnotatedAxiom| a@), ctx@),
{
    let ghost start = out@;
    let ghost s = v@.map_values(|a: AnnotatedAxiom| a@);
    let mut i: usize = 0;
    while i < v.len()
        invariant
            i <= v.len(),
            s == v@.map_values(|a: AnnotatedAxiom| a@),
            out@ == start + w_imports(s.take(i as int), ctx@),
        decreases v.len() - i,
    {
        assert(s.take(i + 1).drop_last() =~= s.take(i as int));
        match &v[i].ax {
            Axiom::Import(iri) => {
                out.append("Import(");
                write_iri(iri, ctx, out);
                out.append(")\n");
            },
            _ => {},
        }
        i += 1;
        assert(out@ =~= start + w_imports(s.take(i as int), ctx@));
    }
    assert(s.take(v.len() as int) =~= s);
}

/// Append the ontology annotations of `v`, one per line (see
/// [`w_ontology_annotations`]).
fn write_ontology_annotations(v: &Vec<AnnotatedAxiom>, ctx: &Context, out: &mut String)
    ensures
        final(out)@ == old(out)@ + w_ontology_annotations(
            v@.map_values(|a: AnnotatedAxiom| a@),
            ctx@,
        ),
{
    let ghost start = out@;
    let ghost s = v@.map_values(|a: AnnotatedAxiom| a@);
    let mut i: usize = 0;
    while i < v.len()
        invariant
            i <= v.len(),
            s == v@.map_values(|a: AnnotatedAxiom| a@),
            out@ == start + w_ontology_annotations(s.take(i as int), ctx@),
        decreases v.len() - i,
    {
        assert(s.take(i + 1).drop_last() =~= s.take(i as int));
        match &v[i].ax {
            Axiom::OntologyAnnotation(an) => {
                an.write_ofn(ctx, out);
                out.push('\n');
            },
            _ => {},
        }
        i += 1;
        assert(out@ =~= start + w_ontology_annotations(s.take(i as int), ctx@));
    }
    assert(s.take(v.len() as int) =~= s);
}

/// Append the axioms of `v` that are neither imports nor ontology
/// annotations, one per line (see [`w_other_axioms`]).
fn write_other_axioms(v: &Vec<AnnotatedAxiom>, ctx: &Context, out: &mut String)
    ensures
        final(out)@ == old(out)@ + w_other_axioms(v@.map_values(|a: AnnotatedAxiom| a@), ctx@),
{
    let ghost start = out@;
    let ghost s = v@.map_values(|a: AnnotatedAxiom| a@);
    let mut i: usize = 0;
    while i < v.len()
        invariant
            i <= v.len(),
            s == v@.map_values(|a: AnnotatedAxiom| a@),
            out@ == start + w_other_axioms(s.take(i as int), ctx@),
        decreases v.len() - i,
    {
        assert(s.take(i + 1).drop_last() =~= s.take(i as int));
        match &v[i].ax {
            Axiom::Import(_) => {},
            Axiom::OntologyAnnotation(_) => {},
            _ => {
                v[i].write_ofn(ctx, out);
                out.push('\n');
            },
        }
        i += 1;
        assert(out@ =~= start + w_other_axioms(s.take(i as int), ctx@));
    }
    assert(s.take(v.len() as int) =~= s);
}

/// Append the ontology IRI and version IRI lines (see [`w_ontology_id`]).
fn write_ontology_id(id: &crate::model::OntologyID, ctx: &Context, out: &mut String)
    ensures
        final(out)@ == old(out)@ + w_ontology_id(
            match id.iri { Some(i) => Some(i@), None => None },
            match id.viri { Some(i) => Some(i@), None => None },
            ctx@,
        ),
{
    let ghost start = out@;
    match &id.iri {
        Some(iri) => {
            write_iri(iri, ctx, out);
            out.push('\n');
            match &id.viri {
                Some(viri) => {
                    out.push(' ');
                    write_iri(viri, ctx, out);
                    out.push('\n');
                },
                None => {},
            }
        },
        None => {},
    }
    assert(out@ =~= start + w_ontology_id(
        match id.iri { Some(i) => Some(i@), None => None },
        match id.viri { Some(i) => Some(i@), None => None },
        ctx@,
    ));
}

impl AsFunctional for Ontology {
    open spec fn spec_ofn(&self, px: Option<SpecPrefixes>) -> Seq<char> {
        w_ontology(self@, px)
    }

    #[verifier::spinoff_prover]
    #[verifier::rlimit(40)]
    fn write_ofn(&self, ctx: &Context, out: &mut String) {
        let ghost start = out@;
        out.append("Ontology(");
        write_ontology_id(&self.id, ctx, out);
        write_imports(&self.axioms, ctx, out);
        write_ontology_annotations(&self.axioms, ctx, out);
        write_other_axioms(&self.axioms, ctx, out);
        out.push(')');
        assert(out@ =~= start + w_ontology(self@, ctx@));
    }
}

/// Append the prefix declarations of a mapping, one per line (see
/// [`w_prefixes`]).
pub fn write_prefixes(m: &curie::PrefixMapping, out: &mut String)
    ensures
        final(out)@ == old(out)@ + w_prefixes(crate::prefixes::prefix_entries(*m)),
{
    let ghost start = out@;
    let ghost e = crate::prefixes::prefix_entries(*m);
    let v = crate::prefixes::prefix_mappings(m);
    let mut i: usize = 0;
    while i < v.len()
        invariant
            i <= v.len(),
            v@.len() == e.len(),
            forall|j: int| 0 <= j < v@.len() ==> (#[trigger] v@[j]).0@ == e[j].0 && v@[j].1@ == e[j].1,
            out@ == start + w_prefixes(e.take(i as int)),
        decreases v.len() - i,
    {
        assert(e.take(i + 1).drop_last() =~= e.take(i as int));
        out.append("Prefix(");
        out.append(v[i].0.as_str());
        out.append(":=<");
        out.append(v[i].1.as_str());
        out.append(">)\n");
        i += 1;
        assert(out@ =~= start + w_prefixes(e.take(i as int)));
    }
    assert(e.take(v.len() as int) =~= e);
}

} // verus!
