//! The OWL 2 structural model handled by this library, in two forms: the
//! executable values that the parser builds and the renderer reads, and
//! their mathematical counterparts, over which the contracts are stated.
use vstd::prelude::*;

verus! {

// ---------------------------------------------------------------------------
// Mathematical forms
// ---------------------------------------------------------------------------

/// The constraining facets of a datatype restriction.
#[derive(Clone, Copy, Debug, PartialEq, Eq, Structural)]
pub enum Facet {
    Length,
    MinLength,
    MaxLength,
    Pattern,
    MinInclusive,
    MinExclusive,
    MaxInclusive,
    MaxExclusive,
    TotalDigits,
    FractionDigits,
    LangRange,
}

/// Mathematical form of [`Individual`].
pub enum SpecIndividual {
    Named(Seq<char>),
    Anonymous(Seq<char>),
}

/// Mathematical form of [`Literal`].
pub enum SpecLiteral {
    Simple { literal: Seq<char> },
    Language { literal: Seq<char>, lang: Seq<char> },
    Datatype { literal: Seq<char>, datatype_iri: Seq<char> },
}

/// Mathematical form of [`DataRange`].
pub enum SpecDataRange {
    Datatype(Seq<char>),
    DataIntersectionOf(Seq<SpecDataRange>),
    DataUnionOf(Seq<SpecDataRange>),
    DataComplementOf(Box<SpecDataRange>),
    DataOneOf(Seq<SpecLiteral>),
    DatatypeRestriction(Seq<char>, Seq<SpecFacetRestriction>),
}

/// Mathematical form of [`ObjectPropertyExpression`].
pub enum SpecObjectPropertyExpression {
    ObjectProperty(Seq<char>),
    InverseObjectProperty(Seq<char>),
}

/// Mathematical form of [`SubObjectPropertyExpression`].
pub enum SpecSubObjectPropertyExpression {
    ObjectPropertyChain(Seq<SpecObjectPropertyExpression>),
    ObjectPropertyExpression(SpecObjectPropertyExpression),
}

/// Mathematical form of [`PropertyExpression`].
pub enum SpecPropertyExpression {
    ObjectPropertyExpression(SpecObjectPropertyExpression),
    DataProperty(Seq<char>),
    AnnotationProperty(Seq<char>),
}

/// Mathematical form of [`ClassExpression`].
pub enum SpecClassExpression {
    Class(Seq<char>),
    ObjectIntersectionOf(Seq<SpecClassExpression>),
    ObjectUnionOf(Seq<SpecClassExpression>),
    ObjectComplementOf(Box<SpecClassExpression>),
    ObjectOneOf(Seq<SpecIndividual>),
    ObjectSomeValuesFrom { ope: SpecObjectPropertyExpression, bce: Box<SpecClassExpression> },
    ObjectAllValuesFrom { ope: SpecObjectPropertyExpression, bce: Box<SpecClassExpression> },
    ObjectHasValue { ope: SpecObjectPropertyExpression, i: SpecIndividual },
    ObjectHasSelf(SpecObjectPropertyExpression),
    ObjectMinCardinality { n: u32, ope: SpecObjectPropertyExpression, bce: Box<SpecClassExpression> },
    ObjectMaxCardinality { n: u32, ope: SpecObjectPropertyExpression, bce: Box<SpecClassExpression> },
    ObjectExactCardinality { n: u32, ope: SpecObjectPropertyExpression, bce: Box<SpecClassExpression> },
    DataSomeValuesFrom { dp: Seq<char>, dr: SpecDataRange },
    DataAllValuesFrom { dp: Seq<char>, dr: SpecDataRange },
    DataHasValue { dp: Seq<char>, l: SpecLiteral },
    DataMinCardinality { n: u32, dp: Seq<char>, dr: SpecDataRange },
    DataMaxCardinality { n: u32, dp: Seq<char>, dr: SpecDataRange },
    DataExactCardinality { n: u32, dp: Seq<char>, dr: SpecDataRange },
}

/// Mathematical form of [`AnnotationValue`].
pub enum SpecAnnotationValue {
    Literal(SpecLiteral),
    IRI(Seq<char>),
}

/// Mathematical form of [`AnnotationSubject`].
pub enum SpecAnnotationSubject {
    IRI(Seq<char>),
    AnonymousIndividual(Seq<char>),
}

/// Mathematical form of [`Axiom`].
pub enum SpecAxiom {
    OntologyAnnotation(SpecAnnotation),
    Import(Seq<char>),
    DeclareClass(Seq<char>),
    DeclareObjectProperty(Seq<char>),
    DeclareAnnotationProperty(Seq<char>),
    DeclareDataProperty(Seq<char>),
    DeclareNamedIndividual(Seq<char>),
    DeclareDatatype(Seq<char>),
    SubClassOf { sub: SpecClassExpression, sup: SpecClassExpression },
    EquivalentClasses(Seq<SpecClassExpression>),
    DisjointClasses(Seq<SpecClassExpression>),
    DisjointUnion(Seq<char>, Seq<SpecClassExpression>),
    SubObjectPropertyOf { sub: SpecSubObjectPropertyExpression, sup: SpecObjectPropertyExpression },
    EquivalentObjectProperties(Seq<SpecObjectPropertyExpression>),
    DisjointObjectProperties(Seq<SpecObjectPropertyExpression>),
    InverseObjectProperties(Seq<char>, Seq<char>),
    ObjectPropertyDomain { ope: SpecObjectPropertyExpression, ce: SpecClassExpression },
    ObjectPropertyRange { ope: SpecObjectPropertyExpression, ce: SpecClassExpression },
    FunctionalObjectProperty(SpecObjectPropertyExpression),
    InverseFunctionalObjectProperty(SpecObjectPropertyExpression),
    ReflexiveObjectProperty(SpecObjectPropertyExpression),
    IrreflexiveObjectProperty(SpecObjectPropertyExpression),
    SymmetricObjectProperty(SpecObjectPropertyExpression),
    AsymmetricObjectProperty(SpecObjectPropertyExpression),
    TransitiveObjectProperty(SpecObjectPropertyExpression),
    SubDataPropertyOf { sub: Seq<char>, sup: Seq<char> },
    EquivalentDataProperties(Seq<Seq<char>>),
    DisjointDataProperties(Seq<Seq<char>>),
    DataPropertyDomain { dp: Seq<char>, ce: SpecClassExpression },
    DataPropertyRange { dp: Seq<char>, dr: SpecDataRange },
    FunctionalDataProperty(Seq<char>),
    DatatypeDefinition { kind: Seq<char>, range: SpecDataRange },
    HasKey { ce: SpecClassExpression, vpe: Seq<SpecPropertyExpression> },
    SameIndividual(Seq<SpecIndividual>),
    DifferentIndividuals(Seq<SpecIndividual>),
    ClassAssertion { ce: SpecClassExpression, i: SpecIndividual },
    ObjectPropertyAssertion { ope: SpecObjectPropertyExpression, from: SpecIndividual, to: SpecIndividual },
    NegativeObjectPropertyAssertion { ope: SpecObjectPropertyExpression, from: SpecIndividual, to: SpecIndividual },
    DataPropertyAssertion { dp: Seq<char>, from: SpecIndividual, to: SpecLiteral },
    NegativeDataPropertyAssertion { dp: Seq<char>, from: SpecIndividual, to: SpecLiteral },
    AnnotationAssertion { subject: SpecAnnotationSubject, ann: SpecAnnotation },
    SubAnnotationPropertyOf { sub: Seq<char>, sup: Seq<char> },
    AnnotationPropertyDomain { ap: Seq<char>, iri: Seq<char> },
    AnnotationPropertyRange { ap: Seq<char>, iri: Seq<char> },
}

/// Mathematical form of [`FacetRestriction`].
pub struct SpecFacetRestriction {
    pub f: Facet,
    pub l: SpecLiteral,
}

/// Mathematical form of [`Annotation`].
pub struct SpecAnnotation {
    pub ap: Seq<char>,
    pub av: SpecAnnotationValue,
}

/// Mathematical form of [`AnnotatedAxiom`].
pub struct SpecAnnotatedAxiom {
    pub ax: SpecAxiom,
    pub ann: Seq<SpecAnnotation>,
}
/// Mathematical form of [`Ontology`].
pub struct SpecOntology {
    pub iri: Option<Seq<char>>,
    pub viri: Option<Seq<char>>,
    pub axioms: Seq<SpecAnnotatedAxiom>,
}

// ---------------------------------------------------------------------------
// Executable values
// ---------------------------------------------------------------------------

/// An IRI, as the text it consists of.
#[derive(Clone, Debug, PartialEq, Eq)]
pub struct IRI(pub String);

/// A blank node, as its node identifier (the part after `_:`).
#[derive(Clone, Debug, PartialEq, Eq)]
pub struct AnonymousIndividual(pub String);

#[derive(Clone, Debug, PartialEq, Eq)]
pub enum Individual {
    Named(IRI),
    Anonymous(AnonymousIndividual),
}

#[derive(Clone, Debug, PartialEq, Eq)]
pub enum Literal {
    Simple { literal: String },
    Language { literal: String, lang: String },
    Datatype { literal: String, datatype_iri: IRI },
}

#[derive(Debug, PartialEq, Eq)]
pub enum DataRange {
    Datatype(IRI),
    DataIntersectionOf(Vec<DataRange>),
    DataUnionOf(Vec<DataRange>),
    DataComplementOf(Box<DataRange>),
    DataOneOf(Vec<Literal>),
    DatatypeRestriction(IRI, Vec<FacetRestriction>),
}

#[derive(Clone, Debug, PartialEq, Eq)]
pub enum ObjectPropertyExpression {
    ObjectProperty(IRI),
    InverseObjectProperty(IRI),
}

#[derive(Clone, Debug, PartialEq, Eq)]
pub enum SubObjectPropertyExpression {
    ObjectPropertyChain(Vec<ObjectPropertyExpression>),
    ObjectPropertyExpression(ObjectPropertyExpression),
}

#[derive(Clone, Debug, PartialEq, Eq)]
pub enum PropertyExpression {
    ObjectPropertyExpression(ObjectPropertyExpression),
    DataProperty(IRI),
    AnnotationProperty(IRI),
}

#[derive(Debug, PartialEq, Eq)]
pub enum ClassExpression {
    Class(IRI),
    ObjectIntersectionOf(Vec<ClassExpression>),
    ObjectUnionOf(Vec<ClassExpression>),
    ObjectComplementOf(Box<ClassExpression>),
    ObjectOneOf(Vec<Individual>),
    ObjectSomeValuesFrom { ope: ObjectPropertyExpression, bce: Box<ClassExpression> },
    ObjectAllValuesFrom { ope: ObjectPropertyExpression, bce: Box<ClassExpression> },
    ObjectHasValue { ope: ObjectPropertyExpression, i: Individual },
    ObjectHasSelf(ObjectPropertyExpression),
    ObjectMinCardinality { n: u32, ope: ObjectPropertyExpression, bce: Box<ClassExpression> },
    ObjectMaxCardinality { n: u32, ope: ObjectPropertyExpression, bce: Box<ClassExpression> },
    ObjectExactCardinality { n: u32, ope: ObjectPropertyExpression, bce: Box<ClassExpression> },
    DataSomeValuesFrom { dp: IRI, dr: DataRange },
    DataAllValuesFrom { dp: IRI, dr: DataRange },
    DataHasValue { dp: IRI, l: Literal },
    DataMinCardinality { n: u32, dp: IRI, dr: DataRange },
    DataMaxCardinality { n: u32, dp: IRI, dr: DataRange },
    DataExactCardinality { n: u32, dp: IRI, dr: DataRange },
}

#[derive(Clone, Debug, PartialEq, Eq)]
pub enum AnnotationValue {
    Literal(Literal),
    IRI(IRI),
}

#[derive(Clone, Debug, PartialEq, Eq)]
pub enum AnnotationSubject {
    IRI(IRI),
    AnonymousIndividual(AnonymousIndividual),
}

#[derive(Debug, PartialEq, Eq)]
pub enum Axiom {
    OntologyAnnotation(Annotation),
    Import(IRI),
    DeclareClass(IRI),
    DeclareObjectProperty(IRI),
    DeclareAnnotationProperty(IRI),
    DeclareDataProperty(IRI),
    DeclareNamedIndividual(IRI),
    DeclareDatatype(IRI),
    SubClassOf { sub: ClassExpression, sup: ClassExpression },
    EquivalentClasses(Vec<ClassExpression>),
    DisjointClasses(Vec<ClassExpression>),
    DisjointUnion(IRI, Vec<ClassExpression>),
    SubObjectPropertyOf { sub: SubObjectPropertyExpression, sup: ObjectPropertyExpression },
    EquivalentObjectProperties(Vec<ObjectPropertyExpression>),
    DisjointObjectProperties(Vec<ObjectPropertyExpression>),
    InverseObjectProperties(IRI, IRI),
    ObjectPropertyDomain { ope: ObjectPropertyExpression, ce: ClassExpression },
    ObjectPropertyRange { ope: ObjectPropertyExpression, ce: ClassExpression },
    FunctionalObjectProperty(ObjectPropertyExpression),
    InverseFunctionalObjectProperty(ObjectPropertyExpression),
    ReflexiveObjectProperty(ObjectPropertyExpression),
    IrreflexiveObjectProperty(ObjectPropertyExpression),
    SymmetricObjectProperty(ObjectPropertyExpression),
    AsymmetricObjectProperty(ObjectPropertyExpression),
    TransitiveObjectProperty(ObjectPropertyExpression),
    SubDataPropertyOf { sub: IRI, sup: IRI },
    EquivalentDataProperties(Vec<IRI>),
    DisjointDataProperties(Vec<IRI>),
    DataPropertyDomain { dp: IRI, ce: ClassExpression },
    DataPropertyRange { dp: IRI, dr: DataRange },
    FunctionalDataProperty(IRI),
    DatatypeDefinition { kind: IRI, range: DataRange },
    HasKey { ce: ClassExpression, vpe: Vec<PropertyExpression> },
    SameIndividual(Vec<Individual>),
    DifferentIndividuals(Vec<Individual>),
    ClassAssertion { ce: ClassExpression, i: Individual },
    ObjectPropertyAssertion { ope: ObjectPropertyExpression, from: Individual, to: Individual },
    NegativeObjectPropertyAssertion { ope: ObjectPropertyExpression, from: Individual, to: Individual },
    DataPropertyAssertion { dp: IRI, from: Individual, to: Literal },
    NegativeDataPropertyAssertion { dp: IRI, from: Individual, to: Literal },
    AnnotationAssertion { subject: AnnotationSubject, ann: Annotation },
    SubAnnotationPropertyOf { sub: IRI, sup: IRI },
    AnnotationPropertyDomain { ap: IRI, iri: IRI },
    AnnotationPropertyRange { ap: IRI, iri: IRI },
}

#[derive(Clone, Debug, PartialEq, Eq)]
pub struct FacetRestriction {
    pub f: Facet,
    pub l: Literal,
}

#[derive(Clone, Debug, PartialEq, Eq)]
pub struct Annotation {
    pub ap: IRI,
    pub av: AnnotationValue,
}

#[derive(Debug, PartialEq, Eq)]
pub struct AnnotatedAxiom {
    pub ax: Axiom,
    /// The annotations, a set: reading gives them in increasing order (see
    /// [`crate::sets::annotations_sorted`]), each once, and writing writes
    /// the set of those given, in that order.
    pub ann: Vec<Annotation>,
}
/// The identity of an ontology: its IRI and version IRI, if any.
#[derive(Clone, Debug, PartialEq, Eq)]
pub struct OntologyID {
    pub iri: Option<IRI>,
    pub viri: Option<IRI>,
}

/// An ontology: its identity and its axioms. Imports and ontology
/// annotations are axioms too. The axioms form a set: reading keeps each
/// once (see [`crate::sets::axiom_set`]).
#[derive(Debug, PartialEq, Eq)]
pub struct Ontology {
    pub id: OntologyID,
    pub axioms: Vec<AnnotatedAxiom>,
}

// ---------------------------------------------------------------------------
// Views
// ---------------------------------------------------------------------------

impl View for Facet {
    type V = Facet;

    open spec fn view(&self) -> Facet {
        *self
    }
}

impl View for IRI {
    type V = Seq<char>;

    open spec fn view(&self) -> Seq<char> {
        self.0@
    }
}

impl View for AnonymousIndividual {
    type V = Seq<char>;

    open spec fn view(&self) -> Seq<char> {
        self.0@
    }
}

/// The mathematical form of a sequence of class expressions.
pub open spec fn view_ce_seq(v: Seq<ClassExpression>) -> Seq<SpecClassExpression>
    decreases v,
{
    if v.len() == 0 {
        Seq::empty()
    } else {
        view_ce_seq(v.drop_last()).push(v.last().view_ce())
    }
}

/// The mathematical form of a sequence of data ranges.
pub open spec fn view_dr_seq(v: Seq<DataRange>) -> Seq<SpecDataRange>
    decreases v,
{
    if v.len() == 0 {
        Seq::empty()
    } else {
        view_dr_seq(v.drop_last()).push(v.last().view_dr())
    }
}

/// `view_ce_seq` keeps the length and maps each element to its view.
pub proof fn lemma_view_ce_seq(v: Seq<ClassExpression>)
    ensures
        view_ce_seq(v).len() == v.len(),
        forall|i: int| 0 <= i < v.len() ==> #[trigger] view_ce_seq(v)[i] == v[i]@,
    decreases v.len(),
{
    if v.len() > 0 {
        lemma_view_ce_seq(v.drop_last());
    }
}

/// `view_dr_seq` keeps the length and maps each element to its view.
pub proof fn lemma_view_dr_seq(v: Seq<DataRange>)
    ensures
        view_dr_seq(v).len() == v.len(),
        forall|i: int| 0 <= i < v.len() ==> #[trigger] view_dr_seq(v)[i] == v[i]@,
    decreases v.len(),
{
    if v.len() > 0 {
        lemma_view_dr_seq(v.drop_last());
    }
}

/// `view_ce_seq` is the element-wise view.
pub proof fn lemma_view_ce_seq_map(v: Seq<ClassExpression>)
    ensures
        view_ce_seq(v) == v.map_values(|x: ClassExpression| x@),
{
    lemma_view_ce_seq(v);
    assert(view_ce_seq(v) =~= v.map_values(|x: ClassExpression| x@));
}

/// `view_dr_seq` is the element-wise view.
pub proof fn lemma_view_dr_seq_map(v: Seq<DataRange>)
    ensures
        view_dr_seq(v) == v.map_values(|x: DataRange| x@),
{
    lemma_view_dr_seq(v);
    assert(view_dr_seq(v) =~= v.map_values(|x: DataRange| x@));
}

impl View for Individual {
    type V = SpecIndividual;

    open spec fn view(&self) -> SpecIndividual {
        match self {
            Individual::Named(f0) => SpecIndividual::Named(f0@),
            Individual::Anonymous(f0) => SpecIndividual::Anonymous(f0@),
        }
    }
}

impl View for Literal {
    type V = SpecLiteral;

    open spec fn view(&self) -> SpecLiteral {
        match self {
            Literal::Simple { literal } => SpecLiteral::Simple { literal: literal@ },
            Literal::Language { literal, lang } => SpecLiteral::Language { literal: literal@, lang: lang@ },
            Literal::Datatype { literal, datatype_iri } => SpecLiteral::Datatype { literal: literal@, datatype_iri: datatype_iri@ },
        }
    }
}

impl DataRange {
    pub open spec fn view_dr(&self) -> SpecDataRange
        decreases *self,
    {
        match self {
            DataRange::Datatype(f0) => SpecDataRange::Datatype(f0@),
            DataRange::DataIntersectionOf(f0) => SpecDataRange::DataIntersectionOf(view_dr_seq(f0@)),
            DataRange::DataUnionOf(f0) => SpecDataRange::DataUnionOf(view_dr_seq(f0@)),
            DataRange::DataComplementOf(f0) => SpecDataRange::DataComplementOf(Box::new(f0.view_dr())),
            DataRange::DataOneOf(f0) => SpecDataRange::DataOneOf(f0@.map_values(|e: Literal| e@)),
            DataRange::DatatypeRestriction(f0, f1) => SpecDataRange::DatatypeRestriction(f0@, f1@.map_values(|e: FacetRestriction| e@)),
        }
    }
}

impl View for DataRange {
    type V = SpecDataRange;

    open spec fn view(&self) -> SpecDataRange {
        self.view_dr()
    }
}

impl View for ObjectPropertyExpression {
    type V = SpecObjectPropertyExpression;

    open spec fn view(&self) -> SpecObjectPropertyExpression {
        match self {
            ObjectPropertyExpression::ObjectProperty(f0) => SpecObjectPropertyExpression::ObjectProperty(f0@),
            ObjectPropertyExpression::InverseObjectProperty(f0) => SpecObjectPropertyExpression::InverseObjectProperty(f0@),
        }
    }
}

impl View for SubObjectPropertyExpression {
    type V = SpecSubObjectPropertyExpression;

    open spec fn view(&self) -> SpecSubObjectPropertyExpression {
        match self {
            SubObjectPropertyExpression::ObjectPropertyChain(f0) => SpecSubObjectPropertyExpression::ObjectPropertyChain(f0@.map_values(|e: ObjectPropertyExpression| e@)),
            SubObjectPropertyExpression::ObjectPropertyExpression(f0) => SpecSubObjectPropertyExpression::ObjectPropertyExpression(f0@),
        }
    }
}

impl View for PropertyExpression {
    type V = SpecPropertyExpression;

    open spec fn view(&self) -> SpecPropertyExpression {
        match self {
            PropertyExpression::ObjectPropertyExpression(f0) => SpecPropertyExpression::ObjectPropertyExpression(f0@),
            PropertyExpression::DataProperty(f0) => SpecPropertyExpression::DataProperty(f0@),
            PropertyExpression::AnnotationProperty(f0) => SpecPropertyExpression::AnnotationProperty(f0@),
        }
    }
}

impl ClassExpression {
    pub open spec fn view_ce(&self) -> SpecClassExpression
        decreases *self,
    {
        match self {
            ClassExpression::Class(f0) => SpecClassExpression::Class(f0@),
            ClassExpression::ObjectIntersectionOf(f0) => SpecClassExpression::ObjectIntersectionOf(view_ce_seq(f0@)),
            ClassExpression::ObjectUnionOf(f0) => SpecClassExpression::ObjectUnionOf(view_ce_seq(f0@)),
            ClassExpression::ObjectComplementOf(f0) => SpecClassExpression::ObjectComplementOf(Box::new(f0.view_ce())),
            ClassExpression::ObjectOneOf(f0) => SpecClassExpression::ObjectOneOf(f0@.map_values(|e: Individual| e@)),
            ClassExpression::ObjectSomeValuesFrom { ope, bce } => SpecClassExpression::ObjectSomeValuesFrom { ope: ope@, bce: Box::new(bce.view_ce()) },
            ClassExpression::ObjectAllValuesFrom { ope, bce } => SpecClassExpression::ObjectAllValuesFrom { ope: ope@, bce: Box::new(bce.view_ce()) },
            ClassExpression::ObjectHasValue { ope, i } => SpecClassExpression::ObjectHasValue { ope: ope@, i: i@ },
            ClassExpression::ObjectHasSelf(f0) => SpecClassExpression::ObjectHasSelf(f0@),
            ClassExpression::ObjectMinCardinality { n, ope, bce } => SpecClassExpression::ObjectMinCardinality { n: *n, ope: ope@, bce: Box::new(bce.view_ce()) },
            ClassExpression::ObjectMaxCardinality { n, ope, bce } => SpecClassExpression::ObjectMaxCardinality { n: *n, ope: ope@, bce: Box::new(bce.view_ce()) },
            ClassExpression::ObjectExactCardinality { n, ope, bce } => SpecClassExpression::ObjectExactCardinality { n: *n, ope: ope@, bce: Box::new(bce.view_ce()) },
            ClassExpression::DataSomeValuesFrom { dp, dr } => SpecClassExpression::DataSomeValuesFrom { dp: dp@, dr: dr.view_dr() },
            ClassExpression::DataAllValuesFrom { dp, dr } => SpecClassExpression::DataAllValuesFrom { dp: dp@, dr: dr.view_dr() },
            ClassExpression::DataHasValue { dp, l } => SpecClassExpression::DataHasValue { dp: dp@, l: l@ },
            ClassExpression::DataMinCardinality { n, dp, dr } => SpecClassExpression::DataMinCardinality { n: *n, dp: dp@, dr: dr.view_dr() },
            ClassExpression::DataMaxCardinality { n, dp, dr } => SpecClassExpression::DataMaxCardinality { n: *n, dp: dp@, dr: dr.view_dr() },
            ClassExpression::DataExactCardinality { n, dp, dr } => SpecClassExpression::DataExactCardinality { n: *n, dp: dp@, dr: dr.view_dr() },
        }
    }
}

impl View for ClassExpression {
    type V = SpecClassExpression;

    open spec fn view(&self) -> SpecClassExpression {
        self.view_ce()
    }
}

impl View for AnnotationValue {
    type V = SpecAnnotationValue;

    open spec fn view(&self) -> SpecAnnotationValue {
        match self {
            AnnotationValue::Literal(f0) => SpecAnnotationValue::Literal(f0@),
            AnnotationValue::IRI(f0) => SpecAnnotationValue::IRI(f0@),
        }
    }
}

impl View for AnnotationSubject {
    type V = SpecAnnotationSubject;

    open spec fn view(&self) -> SpecAnnotationSubject {
        match self {
            AnnotationSubject::IRI(f0) => SpecAnnotationSubject::IRI(f0@),
            AnnotationSubject::AnonymousIndividual(f0) => SpecAnnotationSubject::AnonymousIndividual(f0@),
        }
    }
}

impl View for Axiom {
    type V = SpecAxiom;

    open spec fn view(&self) -> SpecAxiom {
        match self {
            Axiom::OntologyAnnotation(f0) => SpecAxiom::OntologyAnnotation(f0@),
            Axiom::Import(f0) => SpecAxiom::Import(f0@),
            Axiom::DeclareClass(f0) => SpecAxiom::DeclareClass(f0@),
            Axiom::DeclareObjectProperty(f0) => SpecAxiom::DeclareObjectProperty(f0@),
            Axiom::DeclareAnnotationProperty(f0) => SpecAxiom::DeclareAnnotationProperty(f0@),
            Axiom::DeclareDataProperty(f0) => SpecAxiom::DeclareDataProperty(f0@),
            Axiom::DeclareNamedIndividual(f0) => SpecAxiom::DeclareNamedIndividual(f0@),
            Axiom::DeclareDatatype(f0) => SpecAxiom::DeclareDatatype(f0@),
            Axiom::SubClassOf { sub, sup } => SpecAxiom::SubClassOf { sub: sub.view_ce(), sup: sup.view_ce() },
            Axiom::EquivalentClasses(f0) => SpecAxiom::EquivalentClasses(view_ce_seq(f0@)),
            Axiom::DisjointClasses(f0) => SpecAxiom::DisjointClasses(view_ce_seq(f0@)),
            Axiom::DisjointUnion(f0, f1) => SpecAxiom::DisjointUnion(f0@, view_ce_seq(f1@)),
            Axiom::SubObjectPropertyOf { sub, sup } => SpecAxiom::SubObjectPropertyOf { sub: sub@, sup: sup@ },
            Axiom::EquivalentObjectProperties(f0) => SpecAxiom::EquivalentObjectProperties(f0@.map_values(|e: ObjectPropertyExpression| e@)),
            Axiom::DisjointObjectProperties(f0) => SpecAxiom::DisjointObjectProperties(f0@.map_values(|e: ObjectPropertyExpression| e@)),
            Axiom::InverseObjectProperties(f0, f1) => SpecAxiom::InverseObjectProperties(f0@, f1@),
            Axiom::ObjectPropertyDomain { ope, ce } => SpecAxiom::ObjectPropertyDomain { ope: ope@, ce: ce.view_ce() },
            Axiom::ObjectPropertyRange { ope, ce } => SpecAxiom::ObjectPropertyRange { ope: ope@, ce: ce.view_ce() },
            Axiom::FunctionalObjectProperty(f0) => SpecAxiom::FunctionalObjectProperty(f0@),
            Axiom::InverseFunctionalObjectProperty(f0) => SpecAxiom::InverseFunctionalObjectProperty(f0@),
            Axiom::ReflexiveObjectProperty(f0) => SpecAxiom::ReflexiveObjectProperty(f0@),
            Axiom::IrreflexiveObjectProperty(f0) => SpecAxiom::IrreflexiveObjectProperty(f0@),
            Axiom::SymmetricObjectProperty(f0) => SpecAxiom::SymmetricObjectProperty(f0@),
            Axiom::AsymmetricObjectProperty(f0) => SpecAxiom::AsymmetricObjectProperty(f0@),
            Axiom::TransitiveObjectProperty(f0) => SpecAxiom::TransitiveObjectProperty(f0@),
            Axiom::SubDataPropertyOf { sub, sup } => SpecAxiom::SubDataPropertyOf { sub: sub@, sup: sup@ },
            Axiom::EquivalentDataProperties(f0) => SpecAxiom::EquivalentDataProperties(f0@.map_values(|e: IRI| e@)),
            Axiom::DisjointDataProperties(f0) => SpecAxiom::DisjointDataProperties(f0@.map_values(|e: IRI| e@)),
            Axiom::DataPropertyDomain { dp, ce } => SpecAxiom::DataPropertyDomain { dp: dp@, ce: ce.view_ce() },
            Axiom::DataPropertyRange { dp, dr } => SpecAxiom::DataPropertyRange { dp: dp@, dr: dr.view_dr() },
            Axiom::FunctionalDataProperty(f0) => SpecAxiom::FunctionalDataProperty(f0@),
            Axiom::DatatypeDefinition { kind, range } => SpecAxiom::DatatypeDefinition { kind: kind@, range: range.view_dr() },
            Axiom::HasKey { ce, vpe } => SpecAxiom::HasKey { ce: ce.view_ce(), vpe: vpe@.map_values(|e: PropertyExpression| e@) },
            Axiom::SameIndividual(f0) => SpecAxiom::SameIndividual(f0@.map_values(|e: Individual| e@)),
            Axiom::DifferentIndividuals(f0) => SpecAxiom::DifferentIndividuals(f0@.map_values(|e: Individual| e@)),
            Axiom::ClassAssertion { ce, i } => SpecAxiom::ClassAssertion { ce: ce.view_ce(), i: i@ },
            Axiom::ObjectPropertyAssertion { ope, from, to } => SpecAxiom::ObjectPropertyAssertion { ope: ope@, from: from@, to: to@ },
            Axiom::NegativeObjectPropertyAssertion { ope, from, to } => SpecAxiom::NegativeObjectPropertyAssertion { ope: ope@, from: from@, to: to@ },
            Axiom::DataPropertyAssertion { dp, from, to } => SpecAxiom::DataPropertyAssertion { dp: dp@, from: from@, to: to@ },
            Axiom::NegativeDataPropertyAssertion { dp, from, to } => SpecAxiom::NegativeDataPropertyAssertion { dp: dp@, from: from@, to: to@ },
            Axiom::AnnotationAssertion { subject, ann } => SpecAxiom::AnnotationAssertion { subject: subject@, ann: ann@ },
            Axiom::SubAnnotationPropertyOf { sub, sup } => SpecAxiom::SubAnnotationPropertyOf { sub: sub@, sup: sup@ },
            Axiom::AnnotationPropertyDomain { ap, iri } => SpecAxiom::AnnotationPropertyDomain { ap: ap@, iri: iri@ },
            Axiom::AnnotationPropertyRange { ap, iri } => SpecAxiom::AnnotationPropertyRange { ap: ap@, iri: iri@ },
        }
    }
}

impl View for FacetRestriction {
    type V = SpecFacetRestriction;

    open spec fn view(&self) -> SpecFacetRestriction {
        SpecFacetRestriction { f: self.f, l: self.l@ }
    }
}

impl View for Annotation {
    type V = SpecAnnotation;

    open spec fn view(&self) -> SpecAnnotation {
        SpecAnnotation { ap: self.ap@, av: self.av@ }
    }
}

impl View for AnnotatedAxiom {
    type V = SpecAnnotatedAxiom;

    open spec fn view(&self) -> SpecAnnotatedAxiom {
        SpecAnnotatedAxiom { ax: self.ax@, ann: self.ann@.map_values(|e: Annotation| e@) }
    }
}
impl View for Ontology {
    type V = SpecOntology;

    open spec fn view(&self) -> SpecOntology {
        SpecOntology {
            iri: match self.id.iri { Some(i) => Some(i@), None => None },
            viri: match self.id.viri { Some(i) => Some(i@), None => None },
            axioms: self.axioms@.map_values(|a: AnnotatedAxiom| a@),
        }
    }
}

} // verus!
