//! The document model: a closed, seven-kind union over the values a
//! manifest can hold, together with its mathematical model.
//!
//! Floats and timestamps are carried by their exact textual rendering, so
//! that every value the model holds is a plain, machine-checkable datum.

use vstd::prelude::*;

verus! {

broadcast use vstd::std_specs::vec::group_vec_axioms;

/// The seven kinds a manifest value can have.
#[derive(Clone, Copy, PartialEq, Eq, Structural, Debug)]
pub enum Kind {
    Text,
    Integer,
    Float,
    Boolean,
    Timestamp,
    Array,
    Table,
}

/// One key/value pair of a manifest table.
#[derive(Debug, PartialEq, Eq)]
pub struct TableEntry {
    pub key: String,
    pub value: ManifestValue,
}

/// A manifest value: the tagged union the resolver and the encoder work on.
///
/// A float is held as its exact decimal rendering and a timestamp as its
/// canonical textual form; both render back verbatim.
#[derive(Debug, PartialEq, Eq)]
pub enum ManifestValue {
    Text(String),
    Integer(i64),
    Float(String),
    Boolean(bool),
    Timestamp(String),
    Array(Vec<ManifestValue>),
    Table(Vec<TableEntry>),
}

/// The mathematical model of a manifest value.
pub enum ValModel {
    Text(Seq<char>),
    Integer(int),
    Float(Seq<char>),
    Boolean(bool),
    Timestamp(Seq<char>),
    Array(Seq<ValModel>),
    Table(Seq<(Seq<char>, ValModel)>),
}

/// The model of a manifest value: every field replaced by its view.
pub open spec fn vm(v: ManifestValue) -> ValModel
    decreases v,
{
    match v {
        ManifestValue::Text(s) => ValModel::Text(s@),
        ManifestValue::Integer(i) => ValModel::Integer(i as int),
        ManifestValue::Float(f) => ValModel::Float(f@),
        ManifestValue::Boolean(b) => ValModel::Boolean(b),
        ManifestValue::Timestamp(t) => ValModel::Timestamp(t@),
        ManifestValue::Array(a) => ValModel::Array(vm_seq(a@)),
        ManifestValue::Table(t) => ValModel::Table(vm_entries(t@)),
    }
}

/// The models of a sequence of manifest values, in order.
pub open spec fn vm_seq(s: Seq<ManifestValue>) -> Seq<ValModel>
    decreases s,
{
    if s.len() == 0 {
        Seq::empty()
    } else {
        seq![vm(s[0])] + vm_seq(s.drop_first())
    }
}

/// The models of a sequence of table entries, in order.
pub open spec fn vm_entries(s: Seq<TableEntry>) -> Seq<(Seq<char>, ValModel)>
    decreases s,
{
    if s.len() == 0 {
        Seq::empty()
    } else {
        seq![(s[0].key@, vm(s[0].value))] + vm_entries(s.drop_first())
    }
}

/// `vm_seq` maps the model over the sequence pointwise.
pub broadcast proof fn lemma_vm_seq(s: Seq<ManifestValue>)
    ensures
        (#[trigger] vm_seq(s)).len() == s.len(),
        forall|i: int| 0 <= i < s.len() ==> vm_seq(s)[i] == vm(s[i]),
    decreases s.len(),
{
    if s.len() > 0 {
        lemma_vm_seq(s.drop_first());
        assert forall|i: int| 0 <= i < s.len() implies vm_seq(s)[i] == vm(s[i]) by {
            if i > 0 {
                assert(vm_seq(s.drop_first())[i - 1] == vm(s.drop_first()[i - 1]));
                assert(s.drop_first()[i - 1] == s[i]);
            }
        }
    }
}

/// `vm_entries` maps the model over the entries pointwise.
pub broadcast proof fn lemma_vm_entries(s: Seq<TableEntry>)
    ensures
        (#[trigger] vm_entries(s)).len() == s.len(),
        forall|i: int|
            0 <= i < s.len() ==> vm_entries(s)[i] == (s[i].key@, vm(s[i].value)),
    decreases s.len(),
{
    if s.len() > 0 {
        lemma_vm_entries(s.drop_first());
        assert forall|i: int|
            0 <= i < s.len() implies vm_entries(s)[i] == (s[i].key@, vm(s[i].value)) by {
            if i > 0 {
                assert(vm_entries(s.drop_first())[i - 1] == (
                    s.drop_first()[i - 1].key@,
                    vm(s.drop_first()[i - 1].value),
                ));
                assert(s.drop_first()[i - 1] == s[i]);
            }
        }
    }
}

impl View for ManifestValue {
    type V = ValModel;

    open spec fn view(&self) -> ValModel {
        vm(*self)
    }
}

/// The kind of a modeled value.
pub open spec fn kind_of(v: ValModel) -> Kind {
    match v {
        ValModel::Text(_) => Kind::Text,
        ValModel::Integer(_) => Kind::Integer,
        ValModel::Float(_) => Kind::Float,
        ValModel::Boolean(_) => Kind::Boolean,
        ValModel::Timestamp(_) => Kind::Timestamp,
        ValModel::Array(_) => Kind::Array,
        ValModel::Table(_) => Kind::Table,
    }
}

impl ManifestValue {
    /// A deep copy with the same model.
    #[verifier::loop_isolation(false)]
    pub fn duplicate(&self) -> (r: ManifestValue)
        ensures
            r@ == self@,
        decreases self,
    {
        match self {
            ManifestValue::Text(s) => ManifestValue::Text(s.clone()),
            ManifestValue::Integer(i) => ManifestValue::Integer(*i),
            ManifestValue::Float(f) => ManifestValue::Float(f.clone()),
            ManifestValue::Boolean(b) => ManifestValue::Boolean(*b),
            ManifestValue::Timestamp(t) => ManifestValue::Timestamp(t.clone()),
            ManifestValue::Array(a) => {
                proof {
                    lemma_vm_seq(a@);
                }
                let mut out: Vec<ManifestValue> = Vec::new();
                let mut i: usize = 0;
                while i < a.len()
                    invariant
                        i <= a@.len(),
                        out@.len() == i,
                        forall|j: int| 0 <= j < i ==> vm(#[trigger] out@[j]) == vm(a@[j]),
                    decreases a@.len() - i,
                {
                    proof {
                        assert(a@ == self->Array_0@);
                        assert(decreases_to!(*self => self->Array_0));
                        assert(decreases_to!(self->Array_0 => self->Array_0@));
                        assert(decreases_to!(self->Array_0@ => self->Array_0@[i as int]));
                        assert(decreases_to!(*self => a@[i as int]));
                    }
                    let d = a[i].duplicate();
                    out.push(d);
                    i = i + 1;
                }
                proof {
                    lemma_vm_seq(out@);
                    assert(vm_seq(out@) =~= vm_seq(a@));
                }
                ManifestValue::Array(out)
            },
            ManifestValue::Table(es) => {
                proof {
                    lemma_vm_entries(es@);
                }
                let mut out: Vec<TableEntry> = Vec::new();
                let mut i: usize = 0;
                while i < es.len()
                    invariant
                        i <= es@.len(),
                        out@.len() == i,
                        forall|j: int|
                            0 <= j < i ==> (#[trigger] out@[j]).key@ == es@[j].key@ && vm(
                                out@[j].value,
                            ) == vm(es@[j].value),
                    decreases es@.len() - i,
                {
                    proof {
                        assert(es@ == self->Table_0@);
                        assert(decreases_to!(*self => self->Table_0));
                        assert(decreases_to!(self->Table_0 => self->Table_0@));
                        assert(decreases_to!(self->Table_0@ => self->Table_0@[i as int]));
                        assert(decreases_to!(self->Table_0@[i as int] => self->Table_0@[i as int].value));
                        assert(decreases_to!(*self => es@[i as int].value));
                    }
                    let d = es[i].value.duplicate();
                    out.push(TableEntry { key: es[i].key.clone(), value: d });
                    i = i + 1;
                }
                proof {
                    lemma_vm_entries(out@);
                    assert(vm_entries(out@) =~= vm_entries(es@));
                }
                ManifestValue::Table(out)
            },
        }
    }

    /// Classify a value into one of the seven kinds. Total; never fails.
    pub fn classify(&self) -> (k: Kind)
        ensures
            k == kind_of(self@),
    {
        match self {
            ManifestValue::Text(_) => Kind::Text,
            ManifestValue::Integer(_) => Kind::Integer,
            ManifestValue::Float(_) => Kind::Float,
            ManifestValue::Boolean(_) => Kind::Boolean,
            ManifestValue::Timestamp(_) => Kind::Timestamp,
            ManifestValue::Array(_) => Kind::Array,
            ManifestValue::Table(_) => Kind::Table,
        }
    }
}

} // verus!
