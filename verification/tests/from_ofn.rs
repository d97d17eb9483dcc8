use curie::PrefixMapping;
use horned_functional::error::{ExpansionError, SyntaxError, Unsupported};
use horned_functional::model::{
    AnnotatedAxiom, Annotation, AnnotationValue, Axiom, ClassExpression, DataRange, Facet, IRI,
    Literal, ObjectPropertyExpression, Ontology,
};
use horned_functional::{from_str, try_from_str, AsFunctional, Context, Error, FromFunctional};

fn make_iri(s: &str) -> IRI {
    IRI(s.to_string())
}

#[test]
fn error_syntax_example() {
    let res = Ontology::from_ofn("Ontology(");
    assert!(matches!(res, Err(Error::Syntax(SyntaxError::Invalid))));
}

#[test]
fn error_expansion_example() {
    let res = IRI::from_ofn("example:Entity");
    assert!(matches!(res, Err(Error::Expansion(ExpansionError::Invalid))));
}

#[test]
fn error_expansion_undeclared_prefix() {
    let prefixes = PrefixMapping::default();
    let ctx = Context::from_prefixes(&prefixes);
    let res = IRI::from_ofn_ctx("example:Entity", &ctx);
    assert!(matches!(res, Err(Error::Expansion(ExpansionError::Invalid))));
    let res = IRI::from_ofn_ctx(":Entity", &ctx);
    assert!(matches!(res, Err(Error::Expansion(ExpansionError::MissingDefault))));
}

#[test]
fn error_invalid_facet_example() {
    let res = Facet::from_ofn("<http://example.com/thing>");
    assert!(matches!(res, Err(Error::InvalidFacet(_))));
    let res = Facet::from_ofn("<http://www.w3.org/2001/XMLSchema#minLength>");
    assert_eq!(res.unwrap(), Facet::MinLength);
}

#[test]
fn error_unsupported_chain() {
    let res = ClassExpression::from_ofn(
        "DataSomeValuesFrom(<http://a.org/p> <http://a.org/q> <http://www.w3.org/2001/XMLSchema#int>)",
    );
    assert!(matches!(
        res,
        Err(Error::Unsupported(Unsupported::DataSomeValuesFromChain))
    ));
    let res = ClassExpression::from_ofn(
        "DataAllValuesFrom(<http://a.org/p> <http://a.org/q> <http://www.w3.org/2001/XMLSchema#int>)",
    );
    assert!(matches!(
        res,
        Err(Error::Unsupported(Unsupported::DataAllValuesFromChain))
    ));
}

#[test]
fn data_property_domain_and_range_read() {
    let res = AnnotatedAxiom::from_ofn("DataPropertyDomain(<http://a.org/p> <http://a.org/C>)");
    assert_eq!(
        res.unwrap(),
        AnnotatedAxiom {
            ax: Axiom::DataPropertyDomain {
                dp: make_iri("http://a.org/p"),
                ce: ClassExpression::Class(make_iri("http://a.org/C")),
            },
            ann: vec![],
        }
    );
    let res = Axiom::from_ofn(
        "DataPropertyRange(<http://a.org/p> DataComplementOf(<http://www.w3.org/2001/XMLSchema#integer>))",
    );
    assert_eq!(
        res.unwrap(),
        Axiom::DataPropertyRange {
            dp: make_iri("http://a.org/p"),
            dr: DataRange::DataComplementOf(Box::new(DataRange::Datatype(make_iri(
                "http://www.w3.org/2001/XMLSchema#integer"
            )))),
        }
    );
}

#[test]
fn error_remaining_input_position() {
    let res = IRI::from_ofn("<http://a.org/x> <http://a.org/y>");
    assert!(matches!(res, Err(Error::Syntax(SyntaxError::RemainingInput(16)))));
    let res = IRI::from_ofn(" <http://a.org/x>");
    assert!(matches!(res, Err(Error::Syntax(SyntaxError::Invalid))));
}

#[test]
fn cardinality_beyond_32_bits_stops() {
    let res = ClassExpression::try_from_ofn_ctx(
        "ObjectMinCardinality(99999999999 <http://a.org/p>)",
        &Context::empty(),
    );
    assert!(res.is_none());
    let res = ClassExpression::try_from_ofn_ctx(
        "ObjectMinCardinality(4294967295 <http://a.org/p>)",
        &Context::empty(),
    );
    assert!(matches!(
        res,
        Some(Ok(ClassExpression::ObjectMinCardinality { n: 4294967295, .. }))
    ));
}

#[test]
fn blank_node_annotation_value_stops() {
    let res = Annotation::try_from_ofn_ctx("Annotation(<http://a.org/p> _:b)", &Context::empty());
    assert!(res.is_none());
}

#[test]
fn readme_parser_examples() {
    let decl = Axiom::from_ofn("Declaration(Class(<http://purl.obolibrary.org/obo/MS_1000031>))")
        .expect("failed to parse decl");
    assert_eq!(
        decl,
        Axiom::DeclareClass(make_iri("http://purl.obolibrary.org/obo/MS_1000031"))
    );

    let mut mapping = PrefixMapping::default();
    mapping.add_prefix("obo", "http://purl.obolibrary.org/obo/").ok();
    let ctx = Context::from_prefixes(&mapping);
    let decl = Axiom::from_ofn_ctx("Declaration(Class(obo:MS_1000031))", &ctx)
        .expect("failed to parse decl");
    assert_eq!(
        decl,
        Axiom::DeclareClass(make_iri("http://purl.obolibrary.org/obo/MS_1000031"))
    );
}

#[test]
fn readme_serializer_example() {
    let decl = Axiom::DeclareObjectProperty(make_iri("http://purl.obolibrary.org/obo/RO_0002175"));
    assert_eq!(
        decl.as_ofn().to_string(),
        "Declaration(ObjectProperty(<http://purl.obolibrary.org/obo/RO_0002175>))"
    );
}

#[test]
fn as_ofn_doc_examples() {
    let decl = Axiom::DeclareClass(make_iri("http://xmlns.com/foaf/0.1/Person"));
    assert_eq!(
        decl.as_ofn().to_string(),
        "Declaration(Class(<http://xmlns.com/foaf/0.1/Person>))"
    );
    let mut prefixes = PrefixMapping::default();
    prefixes.add_prefix("foaf", "http://xmlns.com/foaf/0.1/").ok();
    assert_eq!(
        decl.as_ofn_ctx(&Context::from_prefixes(&prefixes)).to_string(),
        "Declaration(Class(foaf:Person))"
    );
}

#[test]
fn object_cardinalities_read_by_kind() {
    let res = ClassExpression::from_ofn("ObjectMaxCardinality(2 <http://a.org/p> <http://a.org/C>)");
    assert_eq!(
        res.unwrap(),
        ClassExpression::ObjectMaxCardinality {
            n: 2,
            ope: ObjectPropertyExpression::ObjectProperty(make_iri("http://a.org/p")),
            bce: Box::new(ClassExpression::Class(make_iri("http://a.org/C"))),
        }
    );
    let res = ClassExpression::from_ofn("ObjectExactCardinality(3 ObjectInverseOf(<http://a.org/p>))");
    assert_eq!(
        res.unwrap(),
        ClassExpression::ObjectExactCardinality {
            n: 3,
            ope: ObjectPropertyExpression::InverseObjectProperty(make_iri("http://a.org/p")),
            bce: Box::new(ClassExpression::Class(make_iri(
                "http://www.w3.org/2002/07/owl#Thing"
            ))),
        }
    );
}

#[test]
fn data_cardinality_default_range() {
    let res = ClassExpression::from_ofn("DataExactCardinality(1 <http://a.org/d>)");
    assert_eq!(
        res.unwrap(),
        ClassExpression::DataExactCardinality {
            n: 1,
            dp: make_iri("http://a.org/d"),
            dr: DataRange::Datatype(make_iri("http://www.w3.org/2000/01/rdf-schema#Literal")),
        }
    );
}

#[test]
fn literals_with_escapes_and_tags() {
    let res = Literal::from_ofn(r#""a\"b\\c""#);
    assert_eq!(res.unwrap(), Literal::Simple { literal: String::from("a\"b\\c") });
    let res = Literal::from_ofn(r#""hello"@en-GB"#);
    assert_eq!(
        res.unwrap(),
        Literal::Language { literal: String::from("hello"), lang: String::from("en-GB") }
    );
    let res = Literal::from_ofn(r#""1" ^^ <http://www.w3.org/2001/XMLSchema#int>"#);
    assert_eq!(
        res.unwrap(),
        Literal::Datatype {
            literal: String::from("1"),
            datatype_iri: make_iri("http://www.w3.org/2001/XMLSchema#int"),
        }
    );
    assert!(matches!(Literal::from_ofn(r#""a\b""#), Err(Error::Syntax(SyntaxError::Invalid))));
}

#[test]
fn comments_and_white_space_between_tokens() {
    let res = AnnotatedAxiom::from_ofn(
        "SubClassOf( # a comment\n\t<http://a.org/A>\r\n  <http://a.org/B> )",
    );
    assert_eq!(
        res.unwrap(),
        AnnotatedAxiom {
            ax: Axiom::SubClassOf {
                sub: ClassExpression::Class(make_iri("http://a.org/A")),
                sup: ClassExpression::Class(make_iri("http://a.org/B")),
            },
            ann: vec![],
        }
    );
}

#[test]
fn annotated_axiom_keeps_its_annotations() {
    let res = AnnotatedAxiom::from_ofn(
        "ClassAssertion(Annotation(<http://a.org/note> \"x\") <http://a.org/C> _:i)",
    );
    let a = res.unwrap();
    assert_eq!(
        a.ann,
        vec![Annotation {
            ap: make_iri("http://a.org/note"),
            av: AnnotationValue::Literal(Literal::Simple { literal: String::from("x") }),
        }]
    );
    let res = Axiom::from_ofn(
        "ClassAssertion(Annotation(<http://a.org/note> \"x\") <http://a.org/C> _:i)",
    );
    assert!(matches!(res, Ok(Axiom::ClassAssertion { .. })));
}

#[test]
fn document_with_everything() {
    let txt = "# header\nPrefix(:=<http://d.org/>)\nPrefix(a:=<http://a.org/>)\n\
        Ontology(<http://o.org/> <http://o.org/1>\n\
        Import(<http://i.org/>)\n\
        Annotation(a:label \"L\")\n\
        Declaration(Class(:C))\n\
        SubClassOf(:C a:D)\n)\n";
    let (o, m) = from_str(txt).unwrap();
    assert_eq!(o.id.iri, Some(make_iri("http://o.org/")));
    assert_eq!(o.id.viri, Some(make_iri("http://o.org/1")));
    assert_eq!(o.axioms.len(), 4);
    assert_eq!(o.axioms[0].ax, Axiom::Import(make_iri("http://i.org/")));
    assert!(matches!(o.axioms[1].ax, Axiom::OntologyAnnotation(_)));
    assert_eq!(o.axioms[2].ax, Axiom::DeclareClass(make_iri("http://d.org/C")));
    assert_eq!(
        o.axioms[3].ax,
        Axiom::SubClassOf {
            sub: ClassExpression::Class(make_iri("http://d.org/C")),
            sup: ClassExpression::Class(make_iri("http://a.org/D")),
        }
    );
    assert_eq!(m.expand_curie_string("a:x").unwrap(), "http://a.org/x");
}

#[test]
fn document_errors() {
    assert!(matches!(
        from_str("Ontology(Declaration(Class(x:C)))"),
        Err(Error::Expansion(ExpansionError::Invalid))
    ));
    assert!(matches!(
        from_str("Ontology() Ontology()"),
        Err(Error::Syntax(SyntaxError::Invalid))
    ));
    assert!(try_from_str("Ontology(AnnotationAssertion(<http://a.org/p> <http://a.org/s> _:v))").is_none());
}

#[test]
fn written_forms_read_back() {
    let ce = ClassExpression::ObjectIntersectionOf(vec![
        ClassExpression::Class(make_iri("http://a.org/A")),
        ClassExpression::ObjectSomeValuesFrom {
            ope: ObjectPropertyExpression::InverseObjectProperty(make_iri("http://a.org/p")),
            bce: Box::new(ClassExpression::DataHasValue {
                dp: make_iri("http://a.org/d"),
                l: Literal::Language { literal: String::from("q\"uote"), lang: String::from("en") },
            }),
        },
        ClassExpression::ObjectMinCardinality {
            n: 12,
            ope: ObjectPropertyExpression::ObjectProperty(make_iri("http://a.org/r")),
            bce: Box::new(ClassExpression::ObjectComplementOf(Box::new(ClassExpression::Class(
                make_iri("http://a.org/B"),
            )))),
        },
    ]);
    let text = ce.as_ofn().to_string();
    assert_eq!(ClassExpression::from_ofn(&text).unwrap(), ce);

    let lit = Literal::Datatype {
        literal: String::from("back\\slash"),
        datatype_iri: make_iri("http://www.w3.org/2001/XMLSchema#string"),
    };
    assert_eq!(Literal::from_ofn(&lit.as_ofn().to_string()).unwrap(), lit);

    let i = make_iri("http://a.org/x");
    assert_eq!(IRI::from_ofn(&i.as_ofn().to_string()).unwrap(), i);
}

#[test]
fn document_written_and_read() {
    let o = Ontology {
        id: horned_functional::model::OntologyID {
            iri: Some(make_iri("http://o.org/")),
            viri: None,
        },
        axioms: vec![AnnotatedAxiom {
            ax: Axiom::SubClassOf {
                sub: ClassExpression::Class(make_iri("http://a.org/A")),
                sup: ClassExpression::Class(make_iri("http://a.org/B")),
            },
            ann: vec![],
        }],
    };
    let text = horned_functional::to_string(&o, None);
    let (back, _) = from_str(&text).unwrap();
    assert_eq!(back, o);
}

fn sample_axioms() -> Vec<Axiom> {
    let a = || ClassExpression::Class(make_iri("http://a.org/A"));
    let p = || ObjectPropertyExpression::ObjectProperty(make_iri("http://a.org/p"));
    vec![
        Axiom::DeclareClass(make_iri("http://a.org/A")),
        Axiom::DeclareAnnotationProperty(make_iri("http://a.org/label")),
        Axiom::DeclareNamedIndividual(make_iri("http://a.org/x")),
        Axiom::SubClassOf {
            sub: a(),
            sup: ClassExpression::ObjectAllValuesFrom { ope: p(), bce: Box::new(a()) },
        },
        Axiom::EquivalentClasses(vec![
            a(),
            ClassExpression::ObjectUnionOf(vec![a(), ClassExpression::ObjectHasSelf(p())]),
        ]),
        Axiom::DisjointClasses(vec![a(), ClassExpression::Class(make_iri("http://a.org/B"))]),
        Axiom::ObjectPropertyDomain { ope: p(), ce: a() },
        Axiom::ObjectPropertyRange {
            ope: ObjectPropertyExpression::InverseObjectProperty(make_iri("http://a.org/q")),
            ce: a(),
        },
        Axiom::AsymmetricObjectProperty(p()),
        Axiom::InverseObjectProperties(make_iri("http://a.org/p"), make_iri("http://a.org/q")),
        Axiom::SubDataPropertyOf { sub: make_iri("http://a.org/d"), sup: make_iri("http://a.org/e") },
        Axiom::FunctionalDataProperty(make_iri("http://a.org/d")),
        Axiom::ClassAssertion {
            ce: a(),
            i: horned_functional::model::Individual::Named(make_iri("http://a.org/x")),
        },
        Axiom::AnnotationPropertyRange { ap: make_iri("http://a.org/label"), iri: make_iri("http://a.org/R") },
        Axiom::DatatypeDefinition {
            kind: make_iri("http://a.org/small"),
            range: DataRange::DataComplementOf(Box::new(DataRange::Datatype(make_iri(
                "http://www.w3.org/2001/XMLSchema#integer",
            )))),
        },
        Axiom::ObjectPropertyAssertion {
            ope: p(),
            from: horned_functional::model::Individual::Named(make_iri("http://a.org/x")),
            to: horned_functional::model::Individual::Named(make_iri("http://a.org/y")),
        },
        Axiom::NegativeDataPropertyAssertion {
            dp: make_iri("http://a.org/d"),
            from: horned_functional::model::Individual::Named(make_iri("http://a.org/x")),
            to: Literal::Datatype {
                literal: String::from("42"),
                datatype_iri: make_iri("http://www.w3.org/2001/XMLSchema#integer"),
            },
        },
        Axiom::EquivalentObjectProperties(vec![
            p(),
            ObjectPropertyExpression::InverseObjectProperty(make_iri("http://a.org/q")),
        ]),
        Axiom::DisjointObjectProperties(vec![p(), ObjectPropertyExpression::ObjectProperty(make_iri("http://a.org/q"))]),
        Axiom::EquivalentDataProperties(vec![make_iri("http://a.org/d"), make_iri("http://a.org/e")]),
        Axiom::DisjointDataProperties(vec![
            make_iri("http://a.org/d"),
            make_iri("http://a.org/e"),
            make_iri("http://a.org/f"),
        ]),
        Axiom::TransitiveObjectProperty(p()),
        Axiom::DisjointUnion(
            make_iri("http://a.org/A"),
            vec![ClassExpression::Class(make_iri("http://a.org/B")), ClassExpression::Class(make_iri("http://a.org/C"))],
        ),
        Axiom::SubObjectPropertyOf {
            sub: horned_functional::model::SubObjectPropertyExpression::ObjectPropertyExpression(p()),
            sup: ObjectPropertyExpression::ObjectProperty(make_iri("http://a.org/q")),
        },
        Axiom::SubObjectPropertyOf {
            sub: horned_functional::model::SubObjectPropertyExpression::ObjectPropertyChain(vec![
                p(),
                ObjectPropertyExpression::InverseObjectProperty(make_iri("http://a.org/q")),
            ]),
            sup: ObjectPropertyExpression::ObjectProperty(make_iri("http://a.org/r")),
        },
        Axiom::SameIndividual(vec![
            horned_functional::model::Individual::Named(make_iri("http://a.org/x")),
            horned_functional::model::Individual::Named(make_iri("http://a.org/x2")),
        ]),
        Axiom::DifferentIndividuals(vec![
            horned_functional::model::Individual::Named(make_iri("http://a.org/x")),
            horned_functional::model::Individual::Named(make_iri("http://a.org/y")),
            horned_functional::model::Individual::Named(make_iri("http://a.org/z")),
        ]),
        Axiom::DataPropertyDomain { dp: make_iri("http://a.org/d"), ce: a() },
        Axiom::DataPropertyRange {
            dp: make_iri("http://a.org/d"),
            dr: DataRange::DataOneOf(vec![
                Literal::Simple { literal: String::from("a") },
                Literal::Simple { literal: String::from("b") },
            ]),
        },
        Axiom::HasKey {
            ce: a(),
            vpe: vec![
                horned_functional::model::PropertyExpression::ObjectPropertyExpression(p()),
                horned_functional::model::PropertyExpression::DataProperty(make_iri("http://a.org/d")),
            ],
        },
        Axiom::SubClassOf {
            sub: ClassExpression::ObjectMaxCardinality { n: 2, ope: p(), bce: Box::new(a()) },
            sup: ClassExpression::ObjectExactCardinality {
                n: 1,
                ope: p(),
                bce: Box::new(ClassExpression::DataExactCardinality {
                    n: 3,
                    dp: make_iri("http://a.org/d"),
                    dr: DataRange::DatatypeRestriction(
                        make_iri("http://www.w3.org/2001/XMLSchema#integer"),
                        vec![horned_functional::model::FacetRestriction {
                            f: Facet::MinInclusive,
                            l: Literal::Simple { literal: String::from("5") },
                        }],
                    ),
                }),
            },
        },
        Axiom::ClassAssertion {
            ce: a(),
            i: horned_functional::model::Individual::Anonymous(
                horned_functional::model::AnonymousIndividual(String::from("b1")),
            ),
        },
        Axiom::AnnotationAssertion {
            subject: horned_functional::model::AnnotationSubject::AnonymousIndividual(
                horned_functional::model::AnonymousIndividual(String::from("b2")),
            ),
            ann: Annotation {
                ap: make_iri("http://a.org/label"),
                av: AnnotationValue::IRI(make_iri("http://a.org/B")),
            },
        },
        Axiom::AnnotationAssertion {
            subject: horned_functional::model::AnnotationSubject::IRI(make_iri("http://a.org/A")),
            ann: Annotation {
                ap: make_iri("http://a.org/label"),
                av: AnnotationValue::Literal(Literal::Simple { literal: String::from("A") }),
            },
        },
    ]
}

#[test]
fn axioms_written_read_back() {
    for ax in sample_axioms() {
        let aa = AnnotatedAxiom { ax, ann: vec![] };
        let text = aa.as_ofn().to_string();
        let back = AnnotatedAxiom::from_ofn(&text).unwrap();
        assert_eq!(back, aa, "{}", text);
    }
}

fn sample_annotations() -> Vec<Annotation> {
    vec![
        Annotation {
            ap: make_iri("http://a.org/label"),
            av: AnnotationValue::Literal(Literal::Language {
                literal: String::from("a \"label\""),
                lang: String::from("en-GB"),
            }),
        },
        Annotation {
            ap: make_iri("http://a.org/seeAlso"),
            av: AnnotationValue::IRI(make_iri("http://a.org/elsewhere")),
        },
    ]
}

#[test]
fn annotated_axioms_written_read_back() {
    for ax in sample_axioms() {
        let aa = AnnotatedAxiom { ax, ann: sample_annotations() };
        let text = aa.as_ofn().to_string();
        assert!(text.contains("(Annotation(<http://a.org/label> \"a \\\"label\\\"\"@en-GB) Annotation("));
        let back = AnnotatedAxiom::from_ofn(&text).unwrap();
        assert_eq!(back, aa, "{}", text);
    }
}

#[test]
fn annotations_written_read_back() {
    for an in sample_annotations() {
        let text = an.as_ofn().to_string();
        assert_eq!(Annotation::from_ofn(&text).unwrap(), an);
    }
}

#[test]
fn data_ranges_written_read_back() {
    let d = DataRange::DataIntersectionOf(vec![
        DataRange::Datatype(make_iri("http://www.w3.org/2001/XMLSchema#integer")),
        DataRange::DataComplementOf(Box::new(DataRange::DataUnionOf(vec![
            DataRange::Datatype(make_iri("http://a.org/t1")),
            DataRange::Datatype(make_iri("http://a.org/t2")),
        ]))),
    ]);
    let text = d.as_ofn().to_string();
    assert_eq!(text, "DataIntersectionOf(<http://www.w3.org/2001/XMLSchema#integer> DataComplementOf(DataUnionOf(<http://a.org/t1> <http://a.org/t2>)))");
    assert_eq!(DataRange::from_ofn(&text).unwrap(), d);
}

#[test]
fn full_document_written_and_read() {
    let mut axioms = vec![
        AnnotatedAxiom { ax: Axiom::Import(make_iri("http://o.org/imported")), ann: vec![] },
        AnnotatedAxiom {
            ax: Axiom::OntologyAnnotation(Annotation {
                ap: make_iri("http://a.org/comment"),
                av: AnnotationValue::Literal(Literal::Simple { literal: String::from("an ontology") }),
            }),
            ann: vec![],
        },
    ];
    for (k, ax) in sample_axioms().into_iter().enumerate() {
        let ann = if k % 2 == 0 { sample_annotations() } else { vec![] };
        axioms.push(AnnotatedAxiom { ax, ann });
    }
    let o = Ontology {
        id: horned_functional::model::OntologyID {
            iri: Some(make_iri("http://o.org/")),
            viri: Some(make_iri("http://o.org/1.0")),
        },
        axioms,
    };
    let text = horned_functional::to_string(&o, None);
    assert!(text.starts_with("Ontology(<http://o.org/>\n <http://o.org/1.0>\nImport(<http://o.org/imported>)\n"));
    let (back, prefixes) = from_str(&text).unwrap();
    assert_eq!(back, o);
    assert_eq!(prefixes.mappings().count(), 0);
}

#[test]
fn context_from_prefix_mapping() {
    let mut mapping = PrefixMapping::default();
    mapping.add_prefix("obo", "http://purl.obolibrary.org/obo/").ok();
    let ctx = Context::from(&mapping);
    let decl = Axiom::from_ofn_ctx("Declaration(Class(obo:MS_1000031))", &ctx).unwrap();
    assert_eq!(decl, Axiom::DeclareClass(make_iri("http://purl.obolibrary.org/obo/MS_1000031")));
    assert!(format!("{:?}", ctx).starts_with("Context"));
}

#[test]
fn written_keywords_and_forms() {
    let ce = ClassExpression::DataExactCardinality {
        n: 2,
        dp: make_iri("http://x.org/dp"),
        dr: DataRange::Datatype(make_iri("http://x.org/dt")),
    };
    assert_eq!(ce.as_ofn().to_string(), "DataExactCardinality(2 <http://x.org/dp> <http://x.org/dt>)");
    let dr = DataRange::DataOneOf(vec![
        Literal::Simple { literal: String::from("a") },
        Literal::Simple { literal: String::from("b") },
    ]);
    assert_eq!(dr.as_ofn().to_string(), r#"DataOneOf("a" "b")"#);
    assert_eq!(DataRange::from_ofn(&dr.as_ofn().to_string()).unwrap(), dr);
    assert_eq!(Facet::MinLength.as_ofn().to_string(), "<http://www.w3.org/2001/XMLSchema#minLength>");
    let i = horned_functional::model::Individual::Anonymous(horned_functional::model::AnonymousIndividual(
        String::from("n1"),
    ));
    assert_eq!(i.as_ofn().to_string(), "_:n1");
}

#[test]
fn annotated_declaration_written_with_annotation() {
    let aa = AnnotatedAxiom {
        ax: Axiom::DeclareClass(make_iri("http://x.org/A")),
        ann: vec![Annotation {
            ap: make_iri("http://x.org/ap"),
            av: AnnotationValue::Literal(Literal::Simple { literal: String::from("v") }),
        }],
    };
    let text = aa.as_ofn().to_string();
    assert_eq!(text, r#"Declaration(Annotation(<http://x.org/ap> "v") Class(<http://x.org/A>))"#);
    assert_eq!(AnnotatedAxiom::from_ofn(&text).unwrap(), aa);
    let bare = AnnotatedAxiom { ax: Axiom::DeclareClass(make_iri("http://x.org/A")), ann: vec![] };
    assert_eq!(bare.as_ofn().to_string(), "Declaration(Class(<http://x.org/A>))");
}

#[test]
fn annotated_annotation_property_declaration_read_back() {
    let aa = AnnotatedAxiom {
        ax: Axiom::DeclareAnnotationProperty(make_iri("http://x.org/p")),
        ann: vec![ann_lit("http://x.org/ap", "v")],
    };
    let text = aa.as_ofn().to_string();
    assert_eq!(
        text,
        r#"Declaration(Annotation(<http://x.org/ap> "v") AnnotationProperty(<http://x.org/p>))"#
    );
    assert_eq!(AnnotatedAxiom::from_ofn(&text).unwrap(), aa);
}

#[test]
fn prefixes_written_and_read_back() {
    let mut pm = PrefixMapping::default();
    pm.add_prefix("ex", "http://example.com/").ok();
    let o = Ontology {
        id: horned_functional::model::OntologyID { iri: Some(make_iri("http://example.com/o")), viri: None },
        axioms: vec![AnnotatedAxiom {
            ax: Axiom::DeclareClass(make_iri("http://example.com/A")),
            ann: vec![],
        }],
    };
    let text = horned_functional::to_string(&o, Some(&pm));
    assert!(text.starts_with("Prefix(ex:=<http://example.com/>)\n"), "{}", text);
    let (back, prefixes) = from_str(&text).unwrap();
    assert_eq!(back, o);
    assert_eq!(prefixes.mappings().count(), 1);
}

fn ann_lit(ap: &str, text: &str) -> Annotation {
    Annotation {
        ap: make_iri(ap),
        av: AnnotationValue::Literal(Literal::Simple { literal: String::from(text) }),
    }
}

#[test]
fn annotations_read_as_a_set() {
    let aa = AnnotatedAxiom::from_ofn(
        r#"SubClassOf(Annotation(<http://a.org/z> "b") Annotation(<http://a.org/a> <http://a.org/v>) Annotation(<http://a.org/a> "x") Annotation(<http://a.org/z> "b") <http://a.org/A> <http://a.org/B>)"#,
    )
    .unwrap();
    assert_eq!(
        aa.ann,
        vec![
            ann_lit("http://a.org/a", "x"),
            Annotation { ap: make_iri("http://a.org/a"), av: AnnotationValue::IRI(make_iri("http://a.org/v")) },
            ann_lit("http://a.org/z", "b"),
        ]
    );
}

#[test]
fn annotations_written_as_a_set() {
    let aa = AnnotatedAxiom {
        ax: Axiom::DeclareClass(make_iri("http://a.org/A")),
        ann: vec![ann_lit("http://a.org/z", "b"), ann_lit("http://a.org/a", "y"), ann_lit("http://a.org/z", "b")],
    };
    assert_eq!(
        aa.as_ofn().to_string(),
        r#"Declaration(Annotation(<http://a.org/a> "y") Annotation(<http://a.org/z> "b") Class(<http://a.org/A>))"#
    );
}

#[test]
fn literal_kinds_ordered_in_annotation_sets() {
    let aa = AnnotatedAxiom::from_ofn(
        r#"DeclareClass(Annotation(<http://a.org/p> "a"^^<http://a.org/t>) Annotation(<http://a.org/p> "a"@en) Annotation(<http://a.org/p> "a") Class(<http://a.org/A>))"#.replace("DeclareClass", "Declaration").as_str(),
    )
    .unwrap();
    let kinds: Vec<u8> = aa
        .ann
        .iter()
        .map(|a| match &a.av {
            AnnotationValue::Literal(Literal::Simple { .. }) => 0,
            AnnotationValue::Literal(Literal::Language { .. }) => 1,
            AnnotationValue::Literal(Literal::Datatype { .. }) => 2,
            AnnotationValue::IRI(_) => 3,
        })
        .collect();
    assert_eq!(kinds, vec![0, 1, 2]);
}

#[test]
fn ontology_axioms_read_as_a_set() {
    let (o, _) = from_str(
        "Ontology(<http://o.org/>\nDeclaration(Class(<http://a.org/A>))\nSubClassOf(<http://a.org/A> <http://a.org/B>)\nDeclaration(Class(<http://a.org/A>))\n)",
    )
    .unwrap();
    assert_eq!(o.axioms.len(), 2);
    assert_eq!(o.axioms[0].ax, Axiom::DeclareClass(make_iri("http://a.org/A")));
}
