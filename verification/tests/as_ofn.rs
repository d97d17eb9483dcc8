use horned_functional::model::{
    AnnotatedAxiom, Annotation, AnnotationValue, Axiom, ClassExpression, IRI, Literal,
};
use horned_functional::{AsFunctional, Context};

fn iri(s: &str) -> IRI {
    IRI(s.to_string())
}

#[test]
fn as_ofn_test_ofn_declareclass() {
    let decl = Axiom::DeclareClass(iri("http://purl.obolibrary.org/obo/BFO_0000001"));
    let ofn = decl.as_ofn().to_string();
    assert_eq!(
        "Declaration(Class(<http://purl.obolibrary.org/obo/BFO_0000001>))",
        &ofn
    );
}

#[test]
fn as_ofn_test_ofn_literal_simple() {
    let lit = Literal::Simple {
        literal: String::from("test"),
    };
    let ofn = lit.as_ofn().to_string();
    assert_eq!(r#""test""#, &ofn);

    let lit = Literal::Simple {
        literal: String::from("test\""),
    };
    let ofn = lit.as_ofn().to_string();
    assert_eq!(r#""test\"""#, &ofn);

    let lit = Literal::Simple {
        literal: String::from("test\\"),
    };
    let ofn = lit.as_ofn().to_string();
    assert_eq!(r#""test\\""#, &ofn);
}

#[test]
fn as_ofn_test_ofn_literal_language() {
    let lit = Literal::Language {
        literal: String::from("hello"),
        lang: String::from("en"),
    };
    let ofn = lit.as_ofn().to_string();
    assert_eq!(r#""hello"@en"#, &ofn);
}

#[test]
fn as_ofn_test_ofn_literal_datatype() {
    let lit = Literal::Datatype {
        literal: String::from("hello"),
        datatype_iri: iri("http://www.w3.org/2001/XMLSchema#string"),
    };
    let ofn = lit.as_ofn().to_string();
    assert_eq!(
        r#""hello"^^<http://www.w3.org/2001/XMLSchema#string>"#,
        &ofn
    );
}

#[test]
fn as_ofn_test_ofn_import() {
    let import = Axiom::Import(iri("http://example.com/"));
    let ofn = import.as_ofn().to_string();
    assert_eq!("Import(<http://example.com/>)", ofn);
}

#[test]
fn test_ofn_curie() {
    let mut prefixes = curie::PrefixMapping::default();
    prefixes
        .add_prefix("obo", "http://purl.obolibrary.org/obo/")
        .ok();
    let context = Context::from_prefixes(&prefixes);

    let decl = Axiom::DeclareClass(iri("http://purl.obolibrary.org/obo/BFO_0000001"));
    let ofn = decl.as_ofn_ctx(&context).to_string();
    assert_eq!("Declaration(Class(obo:BFO_0000001))", ofn);

    let decl = Axiom::DeclareClass(iri("http://xmlns.com/foaf/0.1/Person"));
    let ofn = decl.as_ofn_ctx(&context).to_string();
    assert_eq!(
        "Declaration(Class(<http://xmlns.com/foaf/0.1/Person>))",
        ofn
    );
}

#[test]
fn test_annotated_axiom() {
    let mut prefixes = curie::PrefixMapping::default();
    prefixes
        .add_prefix("obo", "http://purl.obolibrary.org/obo/")
        .ok();
    prefixes
        .add_prefix("oboInOwl", "http://www.geneontology.org/formats/oboInOwl#")
        .ok();
    let context = Context::from_prefixes(&prefixes);

    let annotated = AnnotatedAxiom {
        ax: Axiom::EquivalentClasses(vec![
            ClassExpression::Class(iri("http://purl.obolibrary.org/obo/HAO_0000935")),
            ClassExpression::Class(iri("http://purl.obolibrary.org/obo/HAO_0000933")),
        ]),
        ann: vec![Annotation {
            ap: iri("http://www.geneontology.org/formats/oboInOwl#hasDbXref"),
            av: AnnotationValue::Literal(Literal::Simple {
                literal: "http://api.hymao.org/api/ref/67791".into(),
            }),
        }],
    };

    let ofn = annotated.as_ofn_ctx(&context).to_string();
    assert_eq!(
        ofn,
        r#"EquivalentClasses(Annotation(oboInOwl:hasDbXref "http://api.hymao.org/api/ref/67791") obo:HAO_0000935 obo:HAO_0000933)"#
    )
}
