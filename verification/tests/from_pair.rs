use std::collections::HashSet;

use curie::PrefixMapping;
use horned_functional::error::SyntaxError;
use horned_functional::from_ofn::{declaration_from_ofn_ctx, import_from_ofn_ctx};
use horned_functional::model::{
    AnnotatedAxiom, AnonymousIndividual, Axiom, ClassExpression, IRI, Individual, PropertyExpression,
};
use horned_functional::{from_str, Context, Error, FromFunctional};

fn make_iri(s: &str) -> IRI {
    IRI(s.to_string())
}

fn owl_prefixes() -> PrefixMapping {
    let mut prefixes = PrefixMapping::default();
    prefixes
        .add_prefix("owl", "http://www.w3.org/2002/07/owl#")
        .unwrap();
    prefixes
}

#[test]
fn anonymous_individual() {
    let prefixes = PrefixMapping::default();
    let ctx = Context::from_prefixes(&prefixes);
    let res = AnonymousIndividual::from_ofn_ctx("_:anon".trim(), &ctx);
    assert_eq!(res.unwrap(), AnonymousIndividual(String::from("anon")));
}

#[test]
fn has_key() {
    let prefixes = owl_prefixes();
    let ctx = Context::from_prefixes(&prefixes);
    let res = AnnotatedAxiom::from_ofn_ctx(
        "HasKey( owl:Thing () (<http://www.example.com/issn>) )".trim(),
        &ctx,
    );
    assert_eq!(
        res.unwrap(),
        AnnotatedAxiom {
            ax: Axiom::HasKey {
                ce: ClassExpression::Class(make_iri("http://www.w3.org/2002/07/owl#Thing")),
                vpe: vec![PropertyExpression::DataProperty(make_iri("http://www.example.com/issn"))],
            },
            ann: vec![],
        }
    );
}

#[test]
fn declare_class() {
    let prefixes = owl_prefixes();
    let ctx = Context::from_prefixes(&prefixes);

    let res = declaration_from_ofn_ctx("Class( owl:Thing )".trim(), &ctx);
    assert_eq!(
        res.unwrap(),
        Axiom::DeclareClass(make_iri("http://www.w3.org/2002/07/owl#Thing"))
    );

    let res = Axiom::from_ofn_ctx("Declaration(Class(owl:Thing))".trim(), &ctx);
    assert_eq!(
        res.unwrap(),
        Axiom::DeclareClass(make_iri("http://www.w3.org/2002/07/owl#Thing"))
    );

    let res = AnnotatedAxiom::from_ofn_ctx("Declaration(Class(owl:Thing))".trim(), &ctx);
    assert_eq!(
        res.unwrap(),
        AnnotatedAxiom {
            ax: Axiom::DeclareClass(make_iri("http://www.w3.org/2002/07/owl#Thing")),
            ann: vec![],
        }
    );
}

#[test]
fn import() {
    let prefixes = PrefixMapping::default();
    let ctx = Context::from_prefixes(&prefixes);
    let res = import_from_ofn_ctx("Import(<http://example.com/path#ref>)".trim(), &ctx);
    assert_eq!(res.unwrap(), Axiom::Import(make_iri("http://example.com/path#ref")));
}

#[test]
fn iri() {
    let mut prefixes = PrefixMapping::default();
    prefixes.add_prefix("ex", "http://example.com/path#").unwrap();
    let ctx = Context::from_prefixes(&prefixes);

    let res = IRI::from_ofn_ctx("<http://example.com/path#ref>".trim(), &ctx);
    assert_eq!(res.unwrap(), make_iri("http://example.com/path#ref"));

    let res = IRI::from_ofn_ctx("ex:ref".trim(), &ctx);
    assert_eq!(res.unwrap(), make_iri("http://example.com/path#ref"));
}

#[test]
fn ontology_document() {
    let txt = "Prefix(ex:=<http://example.com/>) Prefix(:=<http://default.com/>) Ontology()";

    let mut expected = PrefixMapping::default();
    expected.set_default("http://default.com/");
    expected.add_prefix("ex", "http://example.com/").unwrap();

    let doc = from_str(txt).unwrap();
    assert_eq!(
        doc.1.mappings().collect::<HashSet<_>>(),
        expected.mappings().collect::<HashSet<_>>()
    );
}

#[test]
fn same_individual() {
    let prefixes = owl_prefixes();
    let ctx = Context::from_prefixes(&prefixes);
    let res = AnnotatedAxiom::from_ofn_ctx("SameIndividual( owl:Thing _:thing )".trim(), &ctx);
    assert_eq!(
        res.unwrap(),
        AnnotatedAxiom {
            ax: Axiom::SameIndividual(vec![
                Individual::Named(make_iri("http://www.w3.org/2002/07/owl#Thing")),
                Individual::Anonymous(AnonymousIndividual(String::from("thing"))),
            ]),
            ann: vec![],
        }
    );
}

#[test]
fn from_ofn_test_remaining_input() {
    match declaration_from_ofn_ctx(
        "Class(<http://example.com/a>) Class(<http://example.com/b>)",
        &Context::empty(),
    ) {
        Ok(ok) => panic!("unexpected success: {:?}", ok),
        Err(Error::Syntax(SyntaxError::RemainingInput(_))) => {}
        Err(other) => panic!("unexpected error: {:?}", other),
    }
}

#[test]
fn from_fn_str_test_remaining_input() {
    match declaration_from_ofn_ctx(
        "Class(<http://example.com/a>) Class(<http://example.com/b>)",
        &Context::empty(),
    ) {
        Ok(ok) => panic!("unexpected success: {:?}", ok),
        Err(Error::Syntax(SyntaxError::RemainingInput(_))) => {}
        Err(other) => panic!("unexpected error: {:?}", other),
    }
}
