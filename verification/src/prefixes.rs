//! Prefix mappings, from the `curie` crate, as this library uses them: to
//! expand abbreviated IRIs when reading and to shorten IRIs when writing.
use vstd::prelude::*;
use curie::PrefixMapping;

verus! {

#[verifier::external_type_specification]
#[verifier::external_body]
pub struct ExPrefixMapping(curie::PrefixMapping);

/// The declared prefixes of a mapping, as (name, IRI) pairs in the order of
/// their first declaration.
pub uninterp spec fn prefix_entries(m: PrefixMapping) -> Seq<(Seq<char>, Seq<char>)>;

/// The default prefix of a mapping (the one of CURIEs without a prefix).
pub uninterp spec fn default_prefix(m: PrefixMapping) -> Option<Seq<char>>;

/// The content of a prefix mapping.
pub struct SpecPrefixes {
    pub default: Option<Seq<char>>,
    pub entries: Seq<(Seq<char>, Seq<char>)>,
}

pub open spec fn prefixes_of(m: PrefixMapping) -> SpecPrefixes {
    SpecPrefixes { default: default_prefix(m), entries: prefix_entries(m) }
}

/// The index of the first entry named `name`, if any.
pub open spec fn find_prefix(e: Seq<(Seq<char>, Seq<char>)>, name: Seq<char>) -> Option<int>
    decreases e.len(),
{
    if e.len() == 0 {
        None
    } else {
        match find_prefix(e.drop_last(), name) {
            Some(i) => Some(i),
            None => if e.last().0 == name { Some(e.len() - 1) } else { None },
        }
    }
}

/// Declaring `name` as `value`: an existing entry keeps its place and takes
/// the new value, a new one goes last.
pub open spec fn insert_prefix(
    e: Seq<(Seq<char>, Seq<char>)>,
    name: Seq<char>,
    value: Seq<char>,
) -> Seq<(Seq<char>, Seq<char>)> {
    match find_prefix(e, name) {
        Some(i) => e.update(i, (name, value)),
        None => e.push((name, value)),
    }
}

/// `s` with every leading repetition of `p` removed.
pub open spec fn trim_start_all(s: Seq<char>, p: Seq<char>) -> Seq<char>
    decreases s.len(),
{
    if p.len() > 0 && p.len() <= s.len() && s.take(p.len() as int) == p {
        trim_start_all(s.skip(p.len() as int), p)
    } else {
        s
    }
}

/// The expansion of the CURIE `prefix:reference` (or of `reference` with
/// the default prefix when `prefix` is `None`).
pub open spec fn expand(m: SpecPrefixes, prefix: Option<Seq<char>>, reference: Seq<char>) -> Result<
    Seq<char>,
    crate::error::ExpansionError,
> {
    match prefix {
        Some(p) => match find_prefix(m.entries, p) {
            Some(i) => Ok(m.entries[i].1 + reference),
            None => Err(crate::error::ExpansionError::Invalid),
        },
        None => match m.default {
            Some(d) => Ok(d + reference),
            None => Err(crate::error::ExpansionError::MissingDefault),
        },
    }
}

/// The first entry, from index `i` on, whose IRI starts `iri`, written as a
/// CURIE.
pub open spec fn shrink_from(e: Seq<(Seq<char>, Seq<char>)>, iri: Seq<char>, i: int) -> Option<
    Seq<char>,
>
    decreases e.len() - i,
{
    if i < 0 || i >= e.len() {
        None
    } else if e[i].1.len() <= iri.len() && iri.take(e[i].1.len() as int) == e[i].1 {
        Some(e[i].0 + seq![':'] + trim_start_all(iri, e[i].1))
    } else {
        shrink_from(e, iri, i + 1)
    }
}

/// The CURIE that stands for `iri`, as text: the default prefix is tried
/// first (and leaves only the reference), then each declared prefix in order.
pub open spec fn shrink(m: SpecPrefixes, iri: Seq<char>) -> Option<Seq<char>> {
    match m.default {
        Some(d) => if d.len() <= iri.len() && iri.take(d.len() as int) == d {
            Some(trim_start_all(iri, d))
        } else {
            shrink_from(m.entries, iri, 0)
        },
        None => shrink_from(m.entries, iri, 0),
    }
}

/// `PrefixMapping::default`: a mapping with no prefix and no default.
#[verifier::external_body]
pub(crate) fn new_prefix_mapping() -> (m: PrefixMapping)
    ensures
        prefix_entries(m) == Seq::<(Seq<char>, Seq<char>)>::empty(),
        default_prefix(m) == None::<Seq<char>>,
{
    PrefixMapping::default()
}

/// `PrefixMapping::set_default`: replaces the default prefix.
#[verifier::external_body]
pub(crate) fn set_default_prefix(m: &mut PrefixMapping, value: &str)
    ensures
        default_prefix(*final(m)) == Some(value@),
        prefix_entries(*final(m)) == prefix_entries(*old(m)),
{
    m.set_default(value)
}

/// `PrefixMapping::add_prefix`: refuses the reserved name `_` and leaves the
/// mapping unchanged; otherwise declares `name` (see [`insert_prefix`]).
#[verifier::external_body]
pub(crate) fn add_prefix(m: &mut PrefixMapping, name: &str, value: &str) -> (r: Result<(), ()>)
    ensures
        name@ == seq!['_'] ==> r is Err && prefix_entries(*final(m)) == prefix_entries(*old(m)),
        name@ != seq!['_'] ==> r is Ok && prefix_entries(*final(m)) == insert_prefix(
            prefix_entries(*old(m)),
            name@,
            value@,
        ),
        default_prefix(*final(m)) == default_prefix(*old(m)),
{
    m.add_prefix(name, value).map_err(|_| ())
}

/// `PrefixMapping::expand_curie` on the CURIE `prefix:reference`: the
/// declared IRI of the prefix (or the default prefix when `prefix` is
/// `None`) followed by the reference (see [`expand`]).
#[verifier::external_body]
pub(crate) fn expand_curie(m: &PrefixMapping, prefix: Option<&str>, reference: &str) -> (r: Result<
    String,
    crate::error::ExpansionError,
>)
    ensures
        match r {
            Ok(s) => expand(
                prefixes_of(*m),
                match prefix { Some(p) => Some(p@), None => None },
                reference@,
            ) == Ok::<Seq<char>, crate::error::ExpansionError>(s@),
            Err(e) => expand(
                prefixes_of(*m),
                match prefix { Some(p) => Some(p@), None => None },
                reference@,
            ) == Err::<Seq<char>, crate::error::ExpansionError>(e),
        },
{
    match m.expand_curie(&curie::Curie::new(prefix, reference)) {
        Ok(s) => Ok(s),
        Err(curie::ExpansionError::Invalid) => Err(crate::error::ExpansionError::Invalid),
        Err(curie::ExpansionError::MissingDefault) => Err(
            crate::error::ExpansionError::MissingDefault,
        ),
    }
}

/// `PrefixMapping::shrink_iri`, with the CURIE it returns written out as text
/// (`prefix:reference`, or the bare reference for the default prefix);
/// `None` where no prefix starts the IRI (see [`shrink`]).
#[verifier::external_body]
pub(crate) fn shrink_iri(m: &PrefixMapping, iri: &str) -> (r: Option<String>)
    ensures
        match r {
            Some(s) => shrink(prefixes_of(*m), iri@) == Some(s@),
            None => shrink(prefixes_of(*m), iri@) == None::<Seq<char>>,
        },
{
    m.shrink_iri(iri).ok().map(String::from)
}

/// `PrefixMapping::mappings`: the declared prefixes, as (name, IRI) pairs in
/// order.
#[verifier::external_body]
pub(crate) fn prefix_mappings(m: &PrefixMapping) -> (r: Vec<(String, String)>)
    ensures
        r@.len() == prefix_entries(*m).len(),
        forall|i: int|
            0 <= i < r@.len() ==> (#[trigger] r@[i]).0@ == prefix_entries(*m)[i].0 && r@[i].1@
                == prefix_entries(*m)[i].1,
{
    let mut r = Vec::new();
    for (name, value) in m.mappings() {
        r.push((name.clone(), value.clone()));
    }
    r
}

} // verus!
