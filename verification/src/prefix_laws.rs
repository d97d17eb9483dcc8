//! Laws of prefix declarations: what the `Prefix(..)` lines of a document
//! declare, and what reading gives back of the lines written for a mapping.
use vstd::prelude::*;
use crate::grammar::{close_at, declare_all, document, no_prefixes, open_at, prefix_declarations, r_prefix_declaration};
use crate::lexical::{full_iri, is_name_char, is_name_start, iri_chars_end, letters_end, name_end, prefix_name, word, ws};
use crate::rendering::{w_document, w_ontology, w_prefixes};
use crate::round_trip::{iri_text, keyword, lemma_iri_run, lemma_keyword_at, lemma_name_run, prefix_text};
use crate::model::SpecOntology;
use crate::error::SpecError;
use crate::prefixes::{SpecPrefixes, find_prefix, insert_prefix};

verus! {

/// `j` is the last of the declarations `ds` of its name (for the default
/// prefix, the last declaration of the default).
pub open spec fn last_declaration(ds: Seq<(Option<Seq<char>>, Seq<char>)>, j: int) -> bool {
    &&& 0 <= j < ds.len()
    &&& forall|k: int| j < k < ds.len() ==> #[trigger] ds[k].0 != ds[j].0
}

/// No two entries have the same name.
pub open spec fn distinct_names(e: Seq<(Seq<char>, Seq<char>)>) -> bool {
    forall|i: int, k: int| 0 <= i < e.len() && 0 <= k < e.len() && i != k ==> #[trigger] e[i].0 != #[trigger] e[k].0
}

/// The mapping `m` holds what the declarations `ds` declare, and nothing
/// else: each name once, every entry declared by some declaration, the last
/// declaration of each name giving its IRI (also as the entry that a lookup
/// of the name finds), and the last declaration of the default prefix, if
/// any, giving the default.
pub open spec fn declares_exactly(m: SpecPrefixes, ds: Seq<(Option<Seq<char>>, Seq<char>)>) -> bool {
    &&& distinct_names(m.entries)
    &&& forall|i: int|
        0 <= i < m.entries.len() ==> exists|j: int|
            #![trigger ds[j]]
            0 <= j < ds.len() && ds[j].0 == Some(#[trigger] m.entries[i].0)
    &&& forall|j: int|
        #[trigger] last_declaration(ds, j) ==> match ds[j].0 {
            Some(n) => {
                &&& m.entries.contains((n, ds[j].1))
                &&& find_prefix(m.entries, n) matches Some(i) && m.entries[i] == (n, ds[j].1)
            },
            None => m.default == Some(ds[j].1),
        }
    &&& (forall|j: int| 0 <= j < ds.len() ==> (#[trigger] ds[j].0) is Some) ==> m.default is None
}

/// What a lookup of a name finds: its first entry, or no entry has it.
pub proof fn lemma_find_prefix(e: Seq<(Seq<char>, Seq<char>)>, name: Seq<char>)
    ensures
        match find_prefix(e, name) {
            Some(i) => 0 <= i < e.len() && e[i].0 == name && forall|k: int| 0 <= k < i ==> #[trigger] e[k].0 != name,
            None => forall|k: int| 0 <= k < e.len() ==> #[trigger] e[k].0 != name,
        },
    decreases e.len(),
{
    if e.len() > 0 {
        let p = e.drop_last();
        lemma_find_prefix(p, name);
        match find_prefix(p, name) {
            Some(i) => {
                assert(find_prefix(e, name) == Some(i));
                assert(e[i] == p[i]);
                assert forall|k: int| 0 <= k < i implies #[trigger] e[k].0 != name by {
                    assert(e[k] == p[k]);
                }
            },
            None => {
                if e.last().0 == name {
                    assert(find_prefix(e, name) == Some(e.len() - 1));
                    assert forall|k: int| 0 <= k < e.len() - 1 implies #[trigger] e[k].0 != name by {
                        assert(e[k] == p[k]);
                    }
                } else {
                    assert(find_prefix(e, name) is None);
                    assert forall|k: int| 0 <= k < e.len() implies #[trigger] e[k].0 != name by {
                        if k < p.len() {
                            assert(e[k] == p[k]);
                        }
                    }
                }
            },
        }
    }
}

/// In a mapping whose names are distinct, the entry `(n, v)` is what a
/// lookup of `n` finds.
proof fn lemma_lookup_distinct(e: Seq<(Seq<char>, Seq<char>)>, n: Seq<char>, v: Seq<char>)
    requires
        distinct_names(e),
        e.contains((n, v)),
    ensures
        find_prefix(e, n) matches Some(i) && e[i] == (n, v),
{
    let k = choose|k: int| 0 <= k < e.len() && e[k] == (n, v);
    lemma_find_prefix(e, n);
    match find_prefix(e, n) {
        Some(i) => {
            assert(e[i].0 == e[k].0);
        },
        None => {
            assert(e[k].0 == n);
        },
    }
}

/// Reading prefix declarations: the mapping that the declarations `ds`
/// build, one after the other from no prefixes, holds exactly what they
/// declare: each declared name once, with the IRI of its last declaration,
/// no undeclared name, and the default of the last default declaration.
pub proof fn prefix_declarations_declare(ds: Seq<(Option<Seq<char>>, Seq<char>)>)
    ensures
        declares_exactly(declare_all(no_prefixes(), ds), ds),
    decreases ds.len(),
{
    let m = declare_all(no_prefixes(), ds);
    if ds.len() == 0 {
        assert(m.entries.len() == 0);
        return;
    }
    let p = ds.drop_last();
    let d = ds.last();
    let last = ds.len() - 1;
    prefix_declarations_declare(p);
    let mm = declare_all(no_prefixes(), p);
    assert(m == crate::grammar::declare(mm, d));
    assert forall|k: int| 0 <= k < p.len() implies #[trigger] p[k] == ds[k] by {}
    // A declaration that is the last of its name in `ds`, but not the very
    // last one, is the last of its name in `p` too.
    assert forall|j: int| last_declaration(ds, j) && j < last implies #[trigger] last_declaration(p, j) && ds[j].0 != d.0 by {
        assert(ds[last].0 != ds[j].0);
        assert forall|k: int| j < k < p.len() implies #[trigger] p[k].0 != p[j].0 by {
            assert(ds[k].0 != ds[j].0);
        }
    }
    match d.0 {
        Some(n) => {
            assert(m.default == mm.default);
            assert(m.entries == insert_prefix(mm.entries, n, d.1));
            lemma_find_prefix(mm.entries, n);
            match find_prefix(mm.entries, n) {
                Some(i) => {
                    assert(m.entries == mm.entries.update(i, (n, d.1)));
                    assert forall|a: int| 0 <= a < m.entries.len() implies #[trigger] m.entries[a].0 == mm.entries[a].0 by {}
                    assert(distinct_names(m.entries)) by {
                        assert forall|a: int, b: int|
                            0 <= a < m.entries.len() && 0 <= b < m.entries.len() && a != b implies #[trigger] m.entries[a].0 != #[trigger] m.entries[b].0 by {
                            assert(m.entries[a].0 == mm.entries[a].0);
                            assert(m.entries[b].0 == mm.entries[b].0);
                        }
                    }
                    assert forall|a: int| 0 <= a < m.entries.len() implies exists|j: int|
                        #![trigger ds[j]]
                        0 <= j < ds.len() && ds[j].0 == Some(#[trigger] m.entries[a].0) by {
                        assert(m.entries[a].0 == mm.entries[a].0);
                        let j = choose|j: int| #![trigger p[j]] 0 <= j < p.len() && p[j].0 == Some(mm.entries[a].0);
                        assert(ds[j] == p[j]);
                    }
                    assert forall|j: int| #[trigger] last_declaration(ds, j) implies match ds[j].0 {
                        Some(n2) => {
                            &&& m.entries.contains((n2, ds[j].1))
                            &&& find_prefix(m.entries, n2) matches Some(i2) && m.entries[i2] == (n2, ds[j].1)
                        },
                        None => m.default == Some(ds[j].1),
                    } by {
                        if j == last {
                            assert(m.entries[i] == (n, d.1));
                            assert(m.entries.contains((n, d.1)));
                            lemma_lookup_distinct(m.entries, n, d.1);
                        } else {
                            assert(last_declaration(p, j));
                            match ds[j].0 {
                                Some(n2) => {
                                    assert(p[j].0 == Some(n2));
                                    assert(mm.entries.contains((n2, p[j].1)));
                                    let c = choose|c: int| 0 <= c < mm.entries.len() && mm.entries[c] == (n2, p[j].1);
                                    assert(n2 != n);
                                    assert(c != i);
                                    assert(m.entries[c] == (n2, ds[j].1));
                                    assert(m.entries.contains((n2, ds[j].1)));
                                    lemma_lookup_distinct(m.entries, n2, ds[j].1);
                                },
                                None => {
                                    assert(p[j].0 is None);
                                },
                            }
                        }
                    }
                    assert((forall|j: int| 0 <= j < ds.len() ==> (#[trigger] ds[j].0) is Some) ==> m.default is None) by {
                        if forall|j: int| 0 <= j < ds.len() ==> (#[trigger] ds[j].0) is Some {
                            assert forall|j: int| 0 <= j < p.len() implies (#[trigger] p[j].0) is Some by {
                                assert(ds[j].0 is Some);
                            }
                        }
                    }
                },
                None => {
                    assert(m.entries == mm.entries.push((n, d.1)));
                    assert(distinct_names(m.entries)) by {
                        assert forall|a: int, b: int|
                            0 <= a < m.entries.len() && 0 <= b < m.entries.len() && a != b implies #[trigger] m.entries[a].0 != #[trigger] m.entries[b].0 by {
                            if a < mm.entries.len() && b < mm.entries.len() {
                                assert(m.entries[a] == mm.entries[a]);
                                assert(m.entries[b] == mm.entries[b]);
                            } else if a < mm.entries.len() {
                                assert(m.entries[a] == mm.entries[a]);
                                assert(mm.entries[a].0 != n);
                            } else {
                                assert(m.entries[b] == mm.entries[b]);
                                assert(mm.entries[b].0 != n);
                            }
                        }
                    }
                    assert forall|a: int| 0 <= a < m.entries.len() implies exists|j: int|
                        #![trigger ds[j]]
                        0 <= j < ds.len() && ds[j].0 == Some(#[trigger] m.entries[a].0) by {
                        if a < mm.entries.len() {
                            assert(m.entries[a] == mm.entries[a]);
                            let j = choose|j: int| #![trigger p[j]] 0 <= j < p.len() && p[j].0 == Some(mm.entries[a].0);
                            assert(ds[j] == p[j]);
                        } else {
                            assert(ds[last].0 == Some(m.entries[a].0));
                        }
                    }
                    assert forall|j: int| #[trigger] last_declaration(ds, j) implies match ds[j].0 {
                        Some(n2) => {
                            &&& m.entries.contains((n2, ds[j].1))
                            &&& find_prefix(m.entries, n2) matches Some(i2) && m.entries[i2] == (n2, ds[j].1)
                        },
                        None => m.default == Some(ds[j].1),
                    } by {
                        if j == last {
                            assert(m.entries[m.entries.len() - 1] == (n, d.1));
                            assert(m.entries.contains((n, d.1)));
                            lemma_lookup_distinct(m.entries, n, d.1);
                        } else {
                            assert(last_declaration(p, j));
                            match ds[j].0 {
                                Some(n2) => {
                                    assert(p[j].0 == Some(n2));
                                    assert(mm.entries.contains((n2, p[j].1)));
                                    let c = choose|c: int| 0 <= c < mm.entries.len() && mm.entries[c] == (n2, p[j].1);
                                    assert(m.entries[c] == (n2, ds[j].1));
                                    assert(m.entries.contains((n2, ds[j].1)));
                                    lemma_lookup_distinct(m.entries, n2, ds[j].1);
                                },
                                None => {
                                    assert(p[j].0 is None);
                                },
                            }
                        }
                    }
                    assert((forall|j: int| 0 <= j < ds.len() ==> (#[trigger] ds[j].0) is Some) ==> m.default is None) by {
                        if forall|j: int| 0 <= j < ds.len() ==> (#[trigger] ds[j].0) is Some {
                            assert forall|j: int| 0 <= j < p.len() implies (#[trigger] p[j].0) is Some by {
                                assert(ds[j].0 is Some);
                            }
                        }
                    }
                },
            }
        },
        None => {
            assert(m.default == Some(d.1));
            assert(m.entries == mm.entries);
            assert forall|a: int| 0 <= a < m.entries.len() implies exists|j: int|
                #![trigger ds[j]]
                0 <= j < ds.len() && ds[j].0 == Some(#[trigger] m.entries[a].0) by {
                let j = choose|j: int| #![trigger p[j]] 0 <= j < p.len() && p[j].0 == Some(mm.entries[a].0);
                assert(ds[j] == p[j]);
            }
            assert forall|j: int| #[trigger] last_declaration(ds, j) implies match ds[j].0 {
                Some(n2) => {
                    &&& m.entries.contains((n2, ds[j].1))
                    &&& find_prefix(m.entries, n2) matches Some(i2) && m.entries[i2] == (n2, ds[j].1)
                },
                None => m.default == Some(ds[j].1),
            } by {
                if j < last {
                    assert(last_declaration(p, j));
                    assert(p[j] == ds[j]);
                }
            }
            assert(!(ds[last].0 is Some));
        },
    }
}

/// Reading a document: the prefixes that come with its ontology hold
/// exactly what its `Prefix(..)` lines declare (see [`declares_exactly`]).
pub proof fn document_declares(s: Seq<char>)
    ensures
        document(s) matches Ok((_, m)) ==> declares_exactly(m, prefix_declarations(s, 0).0),
{
    let ds = prefix_declarations(s, 0).0;
    prefix_declarations_declare(ds);
    match document(s) {
        Ok((o, m)) => {
            assert(m == declare_all(no_prefixes(), ds));
        },
        Err(_) => {},
    }
}

// ---------------------------------------------------------------------------
// Reading back the prefix lines written for a mapping
// ---------------------------------------------------------------------------

/// The line written for one entry of a mapping.
pub open spec fn prefix_line(x: (Seq<char>, Seq<char>)) -> Seq<char> {
    "Prefix("@ + x.0 + ":=<"@ + x.1 + ">)\n"@
}

/// The lines of two runs of entries, one after the other.
pub proof fn lemma_w_prefixes_append(x: Seq<(Seq<char>, Seq<char>)>, y: Seq<(Seq<char>, Seq<char>)>)
    ensures
        w_prefixes(x + y) == w_prefixes(x) + w_prefixes(y),
    decreases y.len(),
{
    if y.len() == 0 {
        assert(x + y =~= x);
        assert(w_prefixes(x) + w_prefixes(y) =~= w_prefixes(x));
    } else {
        lemma_w_prefixes_append(x, y.drop_last());
        assert((x + y).drop_last() =~= x + y.drop_last());
        assert((x + y).last() == y.last());
        let l = y.last();
        assert(w_prefixes(x + y) =~= w_prefixes(x) + (w_prefixes(y.drop_last()) + "Prefix("@ + l.0 + ":=<"@ + l.1 + ">)\n"@));
    }
}

/// The lines of a single entry.
pub proof fn lemma_w_prefixes_one(x: (Seq<char>, Seq<char>))
    ensures
        w_prefixes(seq![x]) == prefix_line(x),
{
    let y = seq![x];
    assert(y.drop_last() =~= Seq::<(Seq<char>, Seq<char>)>::empty());
    assert(w_prefixes(Seq::<(Seq<char>, Seq<char>)>::empty()) == Seq::<char>::empty());
    assert(w_prefixes(y.drop_last()) == Seq::<char>::empty());
    assert(y.last() == x);
    assert(w_prefixes(y) == w_prefixes(y.drop_last()) + "Prefix("@ + x.0 + ":=<"@ + x.1 + ">)\n"@);
    assert(w_prefixes(y) =~= prefix_line(x));
}

/// The lines of some entries start with `P`.
proof fn lemma_w_prefixes_start(y: Seq<(Seq<char>, Seq<char>)>)
    requires
        y.len() > 0,
    ensures
        w_prefixes(y).len() > 0,
        w_prefixes(y)[0] == 'P',
{
    reveal_strlit("Prefix(");
    assert(y =~= seq![y[0]] + y.skip(1));
    lemma_w_prefixes_append(seq![y[0]], y.skip(1));
    lemma_w_prefixes_one(y[0]);
    assert(prefix_line(y[0])[0] == 'P');
}

/// The line of an entry whose name is a prefix name and whose IRI may
/// stand in `<` and `>`, read after any text: the declaration of that
/// name as that IRI, ending at the closing parenthesis.
#[verifier::spinoff_prover]
#[verifier::rlimit(60)]
pub proof fn lemma_read_prefix_line(a: Seq<char>, x: (Seq<char>, Seq<char>), b: Seq<char>)
    requires
        prefix_text(x.0),
        iri_text(x.1),
    ensures
        r_prefix_declaration(a + prefix_line(x) + b, a.len() as int) == Some(
            ((Some(x.0), x.1), a.len() + prefix_line(x).len() - 1),
        ),
{
    let n = x.0;
    let v = x.1;
    let s = a + prefix_line(x) + b;
    let p = a.len() as int;
    let k = "Prefix"@;
    reveal_strlit("Prefix");
    reveal_strlit("Prefix(");
    reveal_strlit(":=<");
    reveal_strlit(">)\n");
    assert(keyword(k)) by {
        reveal_with_fuel(letters_end, 7);
    }
    let rest = seq!['('] + n + ":=<"@ + v + ">)\n"@ + b;
    assert(s =~= a + k + rest);
    lemma_keyword_at(a, k, rest, None);
    let q = p + 7;
    let c = q + n.len();
    let a2 = a + "Prefix("@ + n;
    assert(s =~= a2 + (":=<"@ + v + ">)\n"@ + b));
    assert(s =~= (a + "Prefix("@) + n + (":=<"@ + v + ">)\n"@ + b));
    assert(s[q] == n[0]);
    assert(ws(s, q) == q);
    assert forall|j: int| q + 1 <= j < c implies is_name_char(#[trigger] s[j]) by {
        assert(s[j] == n[j - q]);
    }
    assert(s[c] == ':');
    lemma_name_run(s, q + 1, c);
    assert(name_end(s, q + 1) == c);
    assert(s.subrange(q, c) =~= n);
    assert(prefix_name(s, q) == Some((Some(n), c + 1)));
    assert(s[c + 1] == '=');
    assert(ws(s, c + 1) == c + 1);
    assert(s[c + 2] == '<');
    assert(ws(s, c + 2) == c + 2);
    let e = c + 3 + v.len();
    let a3 = a2 + ":=<"@;
    assert(s =~= a3 + v + (">)\n"@ + b));
    assert forall|j: int| c + 3 <= j < e implies crate::lexical::is_iri_char(#[trigger] s[j]) by {
        assert(s[j] == v[j - (c + 3)]);
    }
    assert(s[e] == '>');
    lemma_iri_run(s, c + 3, e);
    assert(s.subrange(c + 3, e) =~= v);
    assert(full_iri(s, c + 2) == Some((v, e + 1)));
    assert(s[e + 1] == ')');
    assert(ws(s, e + 1) == e + 1);
    assert(close_at(s, e + 1) == Some(e + 2));
    assert(prefix_line(x).len() == 7 + n.len() + 3 + v.len() + 3);
}

/// Text that starts with `On` (as `Ontology(` does) is no prefix
/// declaration.
proof fn lemma_not_prefix_at(s: Seq<char>, p: int)
    requires
        0 <= p,
        p + 1 < s.len(),
        s[p] == 'O',
        s[p + 1] == 'n',
    ensures
        r_prefix_declaration(s, p) is None,
{
    reveal_strlit("Prefix");
    crate::lexical::lemma_run_ends(s, p);
    assert(word(s, p) != "Prefix"@) by {
        if letters_end(s, p) > p + 1 {
            assert(word(s, p)[1] == s[p + 1]);
        } else {
            assert(word(s, p).len() <= 1);
        }
    }
}

/// The declarations of an entry, as they are read.
pub open spec fn as_declarations(e: Seq<(Seq<char>, Seq<char>)>) -> Seq<(Option<Seq<char>>, Seq<char>)> {
    e.map_values(|x: (Seq<char>, Seq<char>)| (Some(x.0), x.1))
}

/// The prefix lines of the entries `e`, then text starting with `On`,
/// read from where white space leads to the line of entry `k`: the
/// declarations of the entries from `k` on.
#[verifier::spinoff_prover]
#[verifier::rlimit(60)]
proof fn lemma_read_lines(e: Seq<(Seq<char>, Seq<char>)>, rest: Seq<char>, k: int, p: int)
    requires
        forall|i: int| 0 <= i < e.len() ==> prefix_text(#[trigger] e[i].0) && iri_text(e[i].1),
        rest.len() >= 2,
        rest[0] == 'O',
        rest[1] == 'n',
        0 <= k <= e.len(),
        0 <= p <= w_prefixes(e.take(k)).len(),
        ws(w_prefixes(e) + rest, p) == w_prefixes(e.take(k)).len(),
    ensures
        prefix_declarations(w_prefixes(e) + rest, p).0 == as_declarations(e.skip(k)),
    decreases e.len() - k,
{
    let s = w_prefixes(e) + rest;
    let l = w_prefixes(e.take(k)).len() as int;
    if k == e.len() {
        assert(e.take(k) =~= e);
        lemma_not_prefix_at(s, l);
        assert(as_declarations(e.skip(k)) =~= Seq::<(Option<Seq<char>>, Seq<char>)>::empty());
    } else {
        let x = e[k];
        let tail = e.skip(k + 1);
        assert(e =~= e.take(k) + (seq![x] + tail));
        lemma_w_prefixes_append(e.take(k), seq![x] + tail);
        lemma_w_prefixes_append(seq![x], tail);
        lemma_w_prefixes_one(x);
        assert(e.take(k + 1) =~= e.take(k) + seq![x]);
        lemma_w_prefixes_append(e.take(k), seq![x]);
        let after = w_prefixes(tail) + rest;
        assert(s =~= w_prefixes(e.take(k)) + prefix_line(x) + after);
        lemma_read_prefix_line(w_prefixes(e.take(k)), x, after);
        let f = l + prefix_line(x).len() - 1;
        let l2 = w_prefixes(e.take(k + 1)).len() as int;
        assert(l2 == f + 1);
        reveal_strlit(">)\n");
        assert(prefix_line(x)[prefix_line(x).len() - 1] == '\n');
        assert(s[f] == '\n');
        assert(s =~= w_prefixes(e.take(k + 1)) + after);
        if tail.len() > 0 {
            lemma_w_prefixes_start(tail);
            assert(after[0] == 'P');
        } else {
            assert(after[0] == 'O');
        }
        assert(s[l2] == after[0]);
        assert(ws(s, l2) == l2);
        assert(ws(s, f) == l2);
        crate::lexical::lemma_ws(s, p);
        assert(ws(s, p) == l);
        assert(p < f + 1 <= s.len());
        lemma_read_lines(e, rest, k + 1, f);
        assert(as_declarations(e.skip(k)) =~= seq![(Some(x.0), x.1)] + as_declarations(e.skip(k + 1)));
    }
}

/// Declaring, one after the other, entries with distinct names: the
/// entries, in order, and no default.
proof fn lemma_declare_distinct(e: Seq<(Seq<char>, Seq<char>)>)
    requires
        distinct_names(e),
    ensures
        declare_all(no_prefixes(), as_declarations(e)) == (SpecPrefixes { default: None, entries: e }),
    decreases e.len(),
{
    if e.len() > 0 {
        let p = e.drop_last();
        assert(distinct_names(p)) by {
            assert forall|i: int, k: int| 0 <= i < p.len() && 0 <= k < p.len() && i != k implies #[trigger] p[i].0 != #[trigger] p[k].0 by {
                assert(p[i] == e[i]);
                assert(p[k] == e[k]);
            }
        }
        lemma_declare_distinct(p);
        let ds = as_declarations(e);
        assert(ds.len() == e.len());
        assert(ds.drop_last() =~= as_declarations(p));
        assert(ds.last() == (Some(e.last().0), e.last().1));
        assert(declare_all(no_prefixes(), ds) == crate::grammar::declare(declare_all(no_prefixes(), ds.drop_last()), ds.last()));
        lemma_find_prefix(p, e.last().0);
        if find_prefix(p, e.last().0) is Some {
            let i = find_prefix(p, e.last().0).unwrap();
            assert(p[i] == e[i]);
            assert(e[i].0 != e[e.len() - 1].0);
        }
        assert(find_prefix(p, e.last().0) is None);
        assert(insert_prefix(p, e.last().0, e.last().1) == p.push((e.last().0, e.last().1)));
        assert(p.push((e.last().0, e.last().1)) =~= e);
    } else {
        assert(as_declarations(e) =~= Seq::<(Option<Seq<char>>, Seq<char>)>::empty());
        assert(e =~= Seq::<(Seq<char>, Seq<char>)>::empty());
    }
}

/// Writing a document with a mapping, then reading its prefix
/// declarations: one declaration per entry of the mapping, in order, each
/// with the entry's own name and IRI; and the mapping that they declare
/// has the entries of the written mapping (its default is not written).
/// This holds for entries whose names are prefix names and whose IRIs may
/// stand in `<` and `>`.
pub proof fn written_prefixes_read_back(o: SpecOntology, m: SpecPrefixes)
    requires
        forall|i: int| 0 <= i < m.entries.len() ==> prefix_text(#[trigger] m.entries[i].0) && iri_text(m.entries[i].1),
    ensures
        prefix_declarations(w_document(o, Some(m)), 0).0 == as_declarations(m.entries),
        distinct_names(m.entries) ==> declare_all(no_prefixes(), prefix_declarations(w_document(o, Some(m)), 0).0)
            == (SpecPrefixes { default: None, entries: m.entries }),
{
    let e = m.entries;
    let rest = w_ontology(o, Some(m));
    reveal_strlit("Ontology(");
    assert(rest[0] == 'O');
    assert(rest[1] == 'n');
    assert(w_document(o, Some(m)) == w_prefixes(e) + rest);
    assert(e.take(0) =~= Seq::<(Seq<char>, Seq<char>)>::empty());
    let s = w_prefixes(e) + rest;
    if e.len() > 0 {
        lemma_w_prefixes_start(e);
    }
    assert(ws(s, 0) == 0);
    lemma_read_lines(e, rest, 0, 0);
    assert(e.skip(0) =~= e);
    if distinct_names(e) {
        lemma_declare_distinct(e);
    }
}

/// The prefix lines of a mapping, entry by entry: no entry, no line; and
/// the line of entry `i`, `Prefix(name:=<IRI>)` with the entry's own name
/// and IRI, stands between the lines of the entries before it and those of
/// the entries after it.
pub proof fn written_prefix_lines(e: Seq<(Seq<char>, Seq<char>)>, i: int)
    requires
        0 <= i < e.len(),
    ensures
        w_prefixes(Seq::<(Seq<char>, Seq<char>)>::empty()) == Seq::<char>::empty(),
        w_prefixes(e) == w_prefixes(e.take(i)) + ("Prefix("@ + e[i].0 + ":=<"@ + e[i].1 + ">)\n"@)
            + w_prefixes(e.skip(i + 1)),
{
    let x = e[i];
    assert(e =~= e.take(i) + (seq![x] + e.skip(i + 1)));
    lemma_w_prefixes_append(e.take(i), seq![x] + e.skip(i + 1));
    lemma_w_prefixes_append(seq![x], e.skip(i + 1));
    lemma_w_prefixes_one(x);
    assert(w_prefixes(e) =~= w_prefixes(e.take(i)) + prefix_line(x) + w_prefixes(e.skip(i + 1)));
}

} // verus!
