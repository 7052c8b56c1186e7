//! The literal encoder: turns a resolved manifest value into a
//! self-describing literal, applying the type-coercion policy.
//!
//! Scalars keep their exact content; a timestamp becomes a string literal
//! of its canonical text; an array of one uniform kind encodes elementwise;
//! an array of mixed kinds degrades, silently, to an array of strings; a
//! table degrades to the single string `{ key = value, ... }`.

use vstd::prelude::*;

use crate::render::elem_text;
use crate::render::entries_text;
use crate::render::push_elem_text;
use crate::render::push_toml_text;
use crate::render::toml_text;
use crate::text::string_from_chars;
use crate::value::kind_of;
use crate::value::lemma_vm_seq;
use crate::value::vm;
use crate::value::vm_seq;
use crate::value::ManifestValue;
use crate::value::ValModel;

verus! {

broadcast use vstd::std_specs::vec::group_vec_axioms;

/// A literal ready for splicing into generated code: its kind and content.
#[derive(Debug, PartialEq, Eq)]
pub enum EncodedLiteral {
    Text(String),
    Integer(i64),
    Float(String),
    Boolean(bool),
    Array(Vec<EncodedLiteral>),
}

/// The mathematical model of an encoded literal.
pub enum LitModel {
    Text(Seq<char>),
    Integer(int),
    Float(Seq<char>),
    Boolean(bool),
    Array(Seq<LitModel>),
}

/// The model of an encoded literal: every field replaced by its view.
pub open spec fn lm(e: EncodedLiteral) -> LitModel
    decreases e,
{
    match e {
        EncodedLiteral::Text(s) => LitModel::Text(s@),
        EncodedLiteral::Integer(i) => LitModel::Integer(i as int),
        EncodedLiteral::Float(f) => LitModel::Float(f@),
        EncodedLiteral::Boolean(b) => LitModel::Boolean(b),
        EncodedLiteral::Array(a) => LitModel::Array(lm_seq(a@)),
    }
}

/// The models of a sequence of encoded literals, in order.
pub open spec fn lm_seq(s: Seq<EncodedLiteral>) -> Seq<LitModel>
    decreases s,
{
    if s.len() == 0 {
        Seq::empty()
    } else {
        seq![lm(s[0])] + lm_seq(s.drop_first())
    }
}

/// `lm_seq` maps the model over the sequence pointwise.
pub broadcast proof fn lemma_lm_seq(s: Seq<EncodedLiteral>)
    ensures
        (#[trigger] lm_seq(s)).len() == s.len(),
        forall|i: int| 0 <= i < s.len() ==> lm_seq(s)[i] == lm(s[i]),
    decreases s.len(),
{
    if s.len() > 0 {
        lemma_lm_seq(s.drop_first());
        assert forall|i: int| 0 <= i < s.len() implies lm_seq(s)[i] == lm(s[i]) by {
            if i > 0 {
                assert(lm_seq(s.drop_first())[i - 1] == lm(s.drop_first()[i - 1]));
                assert(s.drop_first()[i - 1] == s[i]);
            }
        }
    }
}

impl View for EncodedLiteral {
    type V = LitModel;

    open spec fn view(&self) -> LitModel {
        lm(*self)
    }
}

/// Whether every element of an array shares the kind of the first one.
pub open spec fn uniform_kinds(a: Seq<ValModel>) -> bool {
    forall|i: int| 0 <= i < a.len() ==> kind_of(#[trigger] a[i]) == kind_of(a[0])
}

/// The encoded literal a value resolves to.
pub open spec fn encode_model(v: ValModel) -> LitModel
    decreases v,
{
    match v {
        ValModel::Text(s) => LitModel::Text(s),
        ValModel::Integer(i) => LitModel::Integer(i),
        ValModel::Float(f) => LitModel::Float(f),
        ValModel::Boolean(b) => LitModel::Boolean(b),
        ValModel::Timestamp(t) => LitModel::Text(t),
        ValModel::Array(a) => if uniform_kinds(a) {
            LitModel::Array(encode_items(a))
        } else {
            LitModel::Array(degrade_items(a))
        },
        ValModel::Table(es) => LitModel::Text(seq!['{', ' '] + entries_text(es) + seq![' ', '}']),
    }
}

/// The elementwise encoding of a uniform array's items.
pub open spec fn encode_items(a: Seq<ValModel>) -> Seq<LitModel>
    decreases a,
{
    if a.len() == 0 {
        Seq::empty()
    } else {
        seq![encode_model(a[0])] + encode_items(a.drop_first())
    }
}

/// The degraded, all-string encoding of a mixed array's items.
pub open spec fn degrade_items(a: Seq<ValModel>) -> Seq<LitModel> {
    Seq::new(a.len(), |i: int| LitModel::Text(elem_text(a[i])))
}

/// `encode_items` maps the encoding over the items pointwise.
pub broadcast proof fn lemma_encode_items(a: Seq<ValModel>)
    ensures
        (#[trigger] encode_items(a)).len() == a.len(),
        forall|i: int| 0 <= i < a.len() ==> encode_items(a)[i] == encode_model(a[i]),
    decreases a.len(),
{
    if a.len() > 0 {
        lemma_encode_items(a.drop_first());
        assert forall|i: int| 0 <= i < a.len() implies encode_items(a)[i] == encode_model(
            a[i],
        ) by {
            if i > 0 {
                assert(encode_items(a.drop_first())[i - 1] == encode_model(a.drop_first()[i - 1]));
                assert(a.drop_first()[i - 1] == a[i]);
            }
        }
    }
}

/// Encode a resolved value as a literal, per the type-coercion policy.
#[verifier::loop_isolation(false)]
pub fn encode(v: &ManifestValue) -> (r: EncodedLiteral)
    ensures
        r@ == encode_model(v@),
    decreases v,
{
    broadcast use vstd::seq::group_seq_axioms;

    match v {
        ManifestValue::Text(s) => EncodedLiteral::Text(s.clone()),
        ManifestValue::Integer(i) => EncodedLiteral::Integer(*i),
        ManifestValue::Float(f) => EncodedLiteral::Float(f.clone()),
        ManifestValue::Boolean(b) => EncodedLiteral::Boolean(*b),
        ManifestValue::Timestamp(t) => EncodedLiteral::Text(t.clone()),
        ManifestValue::Table(_) => {
            let mut buf: Vec<char> = Vec::new();
            push_toml_text(v, &mut buf);
            EncodedLiteral::Text(string_from_chars(&buf))
        },
        ManifestValue::Array(a) => {
            let ghost models = vm_seq(a@);
            proof {
                lemma_vm_seq(a@);
            }
            let mut uniform = true;
            if a.len() > 0 {
                let first_kind = a[0].classify();
                let mut i: usize = 1;
                while i < a.len()
                    invariant
                        1 <= i <= a@.len(),
                        uniform == (forall|j: int|
                            0 <= j < i ==> kind_of(#[trigger] models[j]) == kind_of(models[0])),
                    decreases a@.len() - i,
                {
                    let item_kind = a[i].classify();
                    proof {
                        assert(models[i as int] == vm(a@[i as int]));
                        assert(item_kind == kind_of(models[i as int]));
                        assert(first_kind == kind_of(models[0]));
                    }
                    if item_kind != first_kind {
                        uniform = false;
                    }
                    i = i + 1;
                }
            }
            assert(uniform == uniform_kinds(models));
            let mut items: Vec<EncodedLiteral> = Vec::new();
            if uniform {
                let mut i: usize = 0;
                while i < a.len()
                    invariant
                        i <= a@.len(),
                        items@.len() == i,
                        forall|j: int| 0 <= j < i ==> lm(items@[j]) == encode_model(models[j]),
                    decreases a@.len() - i,
                {
                    proof {
                        assert(a@ == v->Array_0@);
                        assert(decreases_to!(*v => v->Array_0));
                        assert(decreases_to!(v->Array_0 => v->Array_0@));
                        assert(decreases_to!(v->Array_0@ => v->Array_0@[i as int]));
                        assert(decreases_to!(*v => a@[i as int]));
                    }
                    let e = encode(&a[i]);
                    items.push(e);
                    i = i + 1;
                }
                proof {
                    lemma_encode_items(models);
                    lemma_lm_seq(items@);
                    assert(lm_seq(items@) =~= encode_items(models));
                }
            } else {
                let mut i: usize = 0;
                while i < a.len()
                    invariant
                        i <= a@.len(),
                        items@.len() == i,
                        forall|j: int|
                            0 <= j < i ==> lm(items@[j]) == LitModel::Text(elem_text(models[j])),
                    decreases a@.len() - i,
                {
                    let mut buf: Vec<char> = Vec::new();
                    push_elem_text(&a[i], &mut buf);
                    items.push(EncodedLiteral::Text(string_from_chars(&buf)));
                    i = i + 1;
                }
                proof {
                    lemma_lm_seq(items@);
                    assert(lm_seq(items@) =~= degrade_items(models));
                }
            }
            EncodedLiteral::Array(items)
        },
    }
}

/// A scalar encodes to the literal that holds exactly its content: strings,
/// integers, floats and booleans keep their value, a timestamp becomes a
/// string literal of its canonical text.
pub proof fn lemma_scalar_round_trip(v: ValModel)
    ensures
        v is Text ==> encode_model(v) == LitModel::Text(v->Text_0),
        v is Integer ==> encode_model(v) == LitModel::Integer(v->Integer_0),
        v is Float ==> encode_model(v) == LitModel::Float(v->Float_0),
        v is Boolean ==> encode_model(v) == LitModel::Boolean(v->Boolean_0),
        v is Timestamp ==> encode_model(v) == LitModel::Text(v->Timestamp_0),
{
}

/// An array whose elements all share one kind encodes elementwise: the
/// result is an array literal of the same length whose items are the
/// encodings of the original items, in order.
pub proof fn lemma_uniform_array_round_trip(a: Seq<ValModel>)
    requires
        uniform_kinds(a),
    ensures
        encode_model(ValModel::Array(a)) == LitModel::Array(encode_items(a)),
        encode_items(a).len() == a.len(),
        forall|i: int| 0 <= i < a.len() ==> encode_items(a)[i] == encode_model(a[i]),
{
    lemma_encode_items(a);
}

/// An array of mixed kinds degrades to an array of strings: every element
/// is replaced by its textual form, strings passing through unchanged.
pub proof fn lemma_mixed_array_degrades(a: Seq<ValModel>)
    requires
        !uniform_kinds(a),
    ensures
        encode_model(ValModel::Array(a)) == LitModel::Array(degrade_items(a)),
        degrade_items(a).len() == a.len(),
        forall|i: int| 0 <= i < a.len() ==> degrade_items(a)[i] == LitModel::Text(elem_text(a[i])),
{
}

/// A table degrades to one string literal: its entries rendered as
/// `key = value`, comma-separated, between braces.
pub proof fn lemma_table_degrades(es: Seq<(Seq<char>, ValModel)>)
    ensures
        encode_model(ValModel::Table(es)) == LitModel::Text(
            seq!['{', ' '] + entries_text(es) + seq![' ', '}'],
        ),
        toml_text(ValModel::Table(es)) == seq!['{', ' '] + entries_text(es) + seq![' ', '}'],
{
}

} // verus!
