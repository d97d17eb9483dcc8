# horned_functional

A parser and a serializer for the OWL2 Functional-Style syntax, verified with
Verus.

- `src/model.rs`: OWL elements (IRIs, literals, class expressions, data
  ranges, axioms, ontologies) and their mathematical views.
- `src/lexical.rs`, `src/grammar.rs`: the syntax as spec functions over
  characters; `src/scan.rs`, `src/parser.rs`, `src/axiom_reader.rs` and
  `src/ontology_reader.rs` read text and are proved to follow them.
- `src/from_pair.rs`, `src/from_ofn.rs`: the reading interface
  (`FromFunctional`, `from_str`), with whole-input and error results.
- `src/rendering.rs`, `src/writer.rs`, `src/text.rs`: the written forms as
  spec functions and the writers proved to produce them (`AsFunctional`,
  `to_string`).
- `src/prefixes.rs`, `src/vocab.rs`: the prefix mappings of `curie` and the
  vocabulary of `horned-owl`, behind small trusted wrappers.
- `src/round_trip.rs`, `src/axiom_round_trip.rs`, `src/document_round_trip.rs`:
  what reading gives back of what writing wrote, for elements, annotated
  axioms and whole documents. These laws are proved for values written
  without a prefix mapping (IRIs in angle brackets), whose IRIs hold no `<`,
  `>`, `"` or white space and whose language tags are well formed; a
  document's axioms stand in the order in which they are written (imports,
  ontology annotations, then the others). A `HasKey` axiom
  is covered when its key lists its object properties before its data
  properties, the order in which they are written. Not yet covered: the
  transitivity of an inverse property (only a named property is read
  there) and documents written with a prefix mapping; the tests check these
  cases on examples.
- `src/key_round_trip.rs`: the round trip of `HasKey` axioms.
- `src/sets.rs`, `src/equality.rs`: the annotations of an axiom and the
  axioms of an ontology are sets. Annotations are kept in increasing order
  (by property IRI, then value), each once; an ontology keeps each axiom
  once.
- `src/reading_laws.rs`: laws of reading stated over the grammar: kept
  annotations, the first error, unsupported chains, facet lookup, and how
  ontologies and documents are assembled.
- `app/`: conversion to and from `horned-owl` types, files and readers.
