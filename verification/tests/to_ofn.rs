use horned_functional::model::{Axiom, IRI, Literal};
use horned_functional::AsFunctional;

fn iri(s: &str) -> IRI {
    IRI(s.to_string())
}

#[test]
fn to_ofn_test_ofn_declareclass() {
    let decl = Axiom::DeclareClass(iri("http://purl.obolibrary.org/obo/BFO_0000001"));
    let ofn = decl.as_ofn().to_string();
    assert_eq!(
        "Declaration(Class(<http://purl.obolibrary.org/obo/BFO_0000001>))",
        &ofn
    );
}

#[test]
fn to_ofn_test_ofn_literal_simple() {
    let lit = Literal::Simple { literal: String::from("test") };
    let ofn = lit.as_ofn().to_string();
    assert_eq!(r#""test""#, &ofn);

    let lit = Literal::Simple { literal: String::from("test\"") };
    let ofn = lit.as_ofn().to_string();
    assert_eq!(r#""test\"""#, &ofn);

    let lit = Literal::Simple { literal: String::from("test\\") };
    let ofn = lit.as_ofn().to_string();
    assert_eq!(r#""test\\""#, &ofn);
}

#[test]
fn to_ofn_test_ofn_literal_language() {
    let lit = Literal::Language {
        literal: String::from("hello"),
        lang: String::from("en"),
    };
    let ofn = lit.as_ofn().to_string();
    assert_eq!(r#""hello"@en"#, &ofn);
}

#[test]
fn to_ofn_test_ofn_literal_datatype() {
    let lit = Literal::Datatype {
        literal: String::from("hello"),
        datatype_iri: iri("http://www.w3.org/2001/XMLSchema#string"),
    };
    let ofn = lit.as_ofn().to_string();
    assert_eq!(r#""hello"^^<http://www.w3.org/2001/XMLSchema#string>"#, &ofn);
}

#[test]
fn to_ofn_test_ofn_import() {
    let import = Axiom::Import(iri("http://example.com/"));
    let ofn = import.as_ofn().to_string();
    assert_eq!("Import(<http://example.com/>)", ofn);
}
