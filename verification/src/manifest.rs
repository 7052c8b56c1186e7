//! One manifest: parsing its text into the document model and looking up
//! `package.metadata.settings.<namespace>.<key>` inside it, reporting the
//! first path segment that is missing.

use vstd::prelude::*;

use crate::value::lemma_vm_entries;
use crate::value::vm_entries;
use crate::value::ManifestValue;
use crate::value::TableEntry;
use crate::value::ValModel;

verus! {

broadcast use vstd::std_specs::vec::group_vec_axioms;

/// The lookup step at which a manifest fails to supply a value.
#[derive(Clone, Copy, PartialEq, Eq, Structural, Debug)]
pub enum Segment {
    FileRead,
    Parse,
    Package,
    Metadata,
    Settings,
    Namespace,
    Key,
}

/// The first value bound to `k` in a table's entries, if any.
pub open spec fn table_find(es: Seq<(Seq<char>, ValModel)>, k: Seq<char>) -> Option<ValModel>
    decreases es,
{
    if es.len() == 0 {
        None
    } else if es[0].0 == k {
        Some(es[0].1)
    } else {
        table_find(es.drop_first(), k)
    }
}

/// Indexing into a value: a table yields the value at the key, any other
/// kind yields nothing.
pub open spec fn vget(v: ValModel, k: Seq<char>) -> Option<ValModel> {
    match v {
        ValModel::Table(es) => table_find(es, k),
        _ => None,
    }
}

/// The full lookup of `package.metadata.settings.<ns>.<key>` in a parsed
/// manifest: the value on success, else the first missing segment.
pub open spec fn doc_lookup(doc: ValModel, ns: Seq<char>, key: Seq<char>) -> Result<
    ValModel,
    Segment,
> {
    match vget(doc, "package"@) {
        Option::None => Err(Segment::Package),
        Option::Some(p) => match vget(p, "metadata"@) {
            Option::None => Err(Segment::Metadata),
            Option::Some(m) => match vget(m, "settings"@) {
                Option::None => Err(Segment::Settings),
                Option::Some(s) => match vget(s, ns) {
                    Option::None => Err(Segment::Namespace),
                    Option::Some(n) => match vget(n, key) {
                        Option::None => Err(Segment::Key),
                        Option::Some(v) => Ok(v),
                    },
                },
            },
        },
    }
}

/// A hit at the first index whose key matches is what `table_find` returns.
proof fn lemma_table_find_hit(es: Seq<(Seq<char>, ValModel)>, k: Seq<char>, i: int)
    requires
        0 <= i < es.len(),
        es[i].0 == k,
        forall|j: int| 0 <= j < i ==> (#[trigger] es[j]).0 != k,
    ensures
        table_find(es, k) == Some(es[i].1),
    decreases i,
{
    if i > 0 {
        assert forall|j: int| 0 <= j < i - 1 implies (#[trigger] es.drop_first()[j]).0 != k by {
            assert(es.drop_first()[j] == es[j + 1]);
        }
        assert(es.drop_first()[i - 1] == es[i]);
        lemma_table_find_hit(es.drop_first(), k, i - 1);
    }
}

/// With no matching key, `table_find` yields nothing.
proof fn lemma_table_find_miss(es: Seq<(Seq<char>, ValModel)>, k: Seq<char>)
    requires
        forall|j: int| 0 <= j < es.len() ==> (#[trigger] es[j]).0 != k,
    ensures
        table_find(es, k) is None,
    decreases es.len(),
{
    if es.len() > 0 {
        assert forall|j: int|
            0 <= j < es.drop_first().len() implies (#[trigger] es.drop_first()[j]).0 != k by {
            assert(es.drop_first()[j] == es[j + 1]);
        }
        lemma_table_find_miss(es.drop_first(), k);
    }
}

/// Look a key up in a table's entries: the first match wins.
#[verifier::loop_isolation(false)]
pub fn table_get<'a>(entries: &'a Vec<TableEntry>, key: &str) -> (r: Option<&'a ManifestValue>)
    ensures
        match r {
            Option::Some(x) => table_find(vm_entries(entries@), key@) == Some(x@),
            Option::None => table_find(vm_entries(entries@), key@) is None,
        },
{
    proof {
        lemma_vm_entries(entries@);
    }
    let owned = key.to_owned();
    let mut i: usize = 0;
    while i < entries.len()
        invariant
            i <= entries@.len(),
            owned@ == key@,
            forall|j: int| 0 <= j < i ==> (#[trigger] vm_entries(entries@)[j]).0 != key@,
        decreases entries@.len() - i,
    {
        if entries[i].key == owned {
            proof {
                lemma_table_find_hit(vm_entries(entries@), key@, i as int);
            }
            return Some(&entries[i].value);
        }
        i = i + 1;
    }
    proof {
        lemma_table_find_miss(vm_entries(entries@), key@);
    }
    None
}

/// Index into a value: a table is searched, any other kind yields nothing.
pub fn value_get<'a>(v: &'a ManifestValue, key: &str) -> (r: Option<&'a ManifestValue>)
    ensures
        match r {
            Option::Some(x) => vget(v@, key@) == Some(x@),
            Option::None => vget(v@, key@) is None,
        },
{
    match v {
        ManifestValue::Table(es) => table_get(es, key),
        _ => None,
    }
}

/// Look `package.metadata.settings.<ns>.<key>` up in a parsed manifest:
/// the value on success, else exactly the first missing segment.
pub fn lookup_settings<'a>(doc: &'a ManifestValue, ns: &str, key: &str) -> (r: Result<
    &'a ManifestValue,
    Segment,
>)
    ensures
        match r {
            Result::Ok(x) => doc_lookup(doc@, ns@, key@) == Ok::<ValModel, Segment>(x@),
            Result::Err(seg) => doc_lookup(doc@, ns@, key@) == Err::<ValModel, Segment>(seg),
        },
{
    let package = match value_get(doc, "package") {
        Option::Some(p) => p,
        Option::None => {
            return Err(Segment::Package);
        },
    };
    let metadata = match value_get(package, "metadata") {
        Option::Some(m) => m,
        Option::None => {
            return Err(Segment::Metadata);
        },
    };
    let settings = match value_get(metadata, "settings") {
        Option::Some(s) => s,
        Option::None => {
            return Err(Segment::Settings);
        },
    };
    let namespace_table = match value_get(settings, ns) {
        Option::Some(n) => n,
        Option::None => {
            return Err(Segment::Namespace);
        },
    };
    match value_get(namespace_table, key) {
        Option::Some(v) => Ok(v),
        Option::None => Err(Segment::Key),
    }
}

/// What the manifest parser yields for a given text: the parsed document,
/// or nothing where the text is not valid structured data. The outcome is
/// a function of the text alone.
pub uninterp spec fn parsed_manifest_of(text: Seq<char>) -> Option<ValModel>;

/// Relies on toml's parser (`str::parse::<toml::Value>`): whether and how
/// a manifest text parses is a function of the text alone.
#[verifier::external_body]
pub fn parse_manifest(text: &str) -> (r: Option<ManifestValue>)
    ensures
        match r {
            Option::Some(doc) => parsed_manifest_of(text@) == Some(doc@),
            Option::None => parsed_manifest_of(text@) is None,
        },
{
    match text.parse::<toml::Value>() {
        Ok(v) => Some(manifest_value_of(&v)),
        Err(_) => None,
    }
}

#[verifier::external_type_specification]
#[verifier::external_body]
pub struct ExTomlValue(toml::Value);

/// Relies on toml's `Value` tree: each variant is carried, one for one,
/// into the library's own kind; a float keeps its exact decimal rendering
/// and a datetime its canonical text. Serves `parse_manifest` alone.
#[verifier::external_body]
fn manifest_value_of(v: &toml::Value) -> ManifestValue {
    match v {
        toml::Value::String(s) => ManifestValue::Text(s.clone()),
        toml::Value::Integer(i) => ManifestValue::Integer(*i),
        toml::Value::Float(f) => ManifestValue::Float(format!("{:?}", f)),
        toml::Value::Boolean(b) => ManifestValue::Boolean(*b),
        toml::Value::Datetime(d) => ManifestValue::Timestamp(d.to_string()),
        toml::Value::Array(a) => ManifestValue::Array(a.iter().map(manifest_value_of).collect()),
        toml::Value::Table(t) => ManifestValue::Table(
            t.iter().map(
                |(k, x)| TableEntry { key: k.clone(), value: manifest_value_of(x) },
            ).collect(),
        ),
    }
}

} // verus!
