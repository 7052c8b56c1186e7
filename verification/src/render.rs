//! The natural textual rendering of manifest values: strings quoted and
//! escaped, integers in decimal, booleans as words, floats and timestamps
//! verbatim, arrays bracketed and comma-separated, tables braced as
//! `{ key = value, ... }`.

use vstd::prelude::*;

use crate::text::bool_text;
use crate::text::dec_int;
use crate::text::push_bool;
use crate::text::push_dec_i64;
use crate::text::push_quoted;
use crate::text::push_str_chars;
use crate::text::quoted;
use crate::value::lemma_vm_entries;
use crate::value::lemma_vm_seq;
use crate::value::vm;
use crate::value::vm_entries;
use crate::value::vm_seq;
use crate::value::ManifestValue;
use crate::value::ValModel;

verus! {

broadcast use vstd::std_specs::vec::group_vec_axioms;

/// The rendering of one value.
pub open spec fn toml_text(v: ValModel) -> Seq<char>
    decreases v,
{
    match v {
        ValModel::Text(s) => quoted(s),
        ValModel::Integer(i) => dec_int(i),
        ValModel::Float(f) => f,
        ValModel::Boolean(b) => bool_text(b),
        ValModel::Timestamp(t) => t,
        ValModel::Array(a) => seq!['['] + items_text(a) + seq![']'],
        ValModel::Table(es) => seq!['{', ' '] + entries_text(es) + seq![' ', '}'],
    }
}

/// The renderings of array items, separated by `, `.
pub open spec fn items_text(a: Seq<ValModel>) -> Seq<char>
    decreases a,
{
    if a.len() == 0 {
        Seq::empty()
    } else if a.len() == 1 {
        toml_text(a[0])
    } else {
        toml_text(a[0]) + seq![',', ' '] + items_text(a.drop_first())
    }
}

/// The renderings of table entries as `key = value`, separated by `, `.
pub open spec fn entries_text(es: Seq<(Seq<char>, ValModel)>) -> Seq<char>
    decreases es,
{
    if es.len() == 0 {
        Seq::empty()
    } else if es.len() == 1 {
        es[0].0 + seq![' ', '=', ' '] + toml_text(es[0].1)
    } else {
        es[0].0 + seq![' ', '=', ' '] + toml_text(es[0].1) + seq![',', ' '] + entries_text(
            es.drop_first(),
        )
    }
}

/// The textual form an array element degrades to: a string passes through
/// unquoted, every other kind uses its natural rendering.
pub open spec fn elem_text(v: ValModel) -> Seq<char> {
    match v {
        ValModel::Text(s) => s,
        _ => toml_text(v),
    }
}

/// Appending one item extends the joined rendering by a separator and the
/// item's rendering.
proof fn lemma_items_snoc(a: Seq<ValModel>, x: ValModel)
    ensures
        a.len() == 0 ==> items_text(a.push(x)) == toml_text(x),
        a.len() > 0 ==> items_text(a.push(x)) == items_text(a) + seq![',', ' '] + toml_text(x),
    decreases a.len(),
{
    let p = a.push(x);
    if a.len() == 0 {
        assert(p[0] == x);
        assert(items_text(p) == toml_text(x));
    } else if a.len() == 1 {
        assert(p[0] == a[0]);
        assert(p.drop_first() =~= seq![x]);
        assert(items_text(p.drop_first()) == toml_text(x));
        assert(items_text(p) == toml_text(a[0]) + seq![',', ' '] + toml_text(x));
    } else {
        lemma_items_snoc(a.drop_first(), x);
        assert(p.drop_first() =~= a.drop_first().push(x));
        assert(items_text(p) == toml_text(a[0]) + seq![',', ' '] + items_text(
            a.drop_first().push(x),
        ));
        assert(toml_text(a[0]) + seq![',', ' '] + (items_text(a.drop_first()) + seq![',', ' ']
            + toml_text(x)) =~= (toml_text(a[0]) + seq![',', ' '] + items_text(a.drop_first()))
            + seq![',', ' '] + toml_text(x));
    }
}

/// Appending one entry extends the joined rendering by a separator and the
/// entry's rendering.
proof fn lemma_entries_snoc(es: Seq<(Seq<char>, ValModel)>, x: (Seq<char>, ValModel))
    ensures
        es.len() == 0 ==> entries_text(es.push(x)) == x.0 + seq![' ', '=', ' '] + toml_text(x.1),
        es.len() > 0 ==> entries_text(es.push(x)) == entries_text(es) + seq![',', ' '] + (x.0
            + seq![' ', '=', ' '] + toml_text(x.1)),
    decreases es.len(),
{
    let p = es.push(x);
    if es.len() == 0 {
        assert(p[0] == x);
    } else if es.len() == 1 {
        assert(p[0] == es[0]);
        assert(p.drop_first() =~= seq![x]);
        assert(entries_text(p.drop_first()) == x.0 + seq![' ', '=', ' '] + toml_text(x.1));
        assert((es[0].0 + seq![' ', '=', ' '] + toml_text(es[0].1)) + seq![',', ' '] + (x.0 + seq![
            ' ',
            '=',
            ' ',
        ] + toml_text(x.1)) =~= es[0].0 + seq![' ', '=', ' '] + toml_text(es[0].1) + seq![',', ' ']
            + (x.0 + seq![' ', '=', ' '] + toml_text(x.1)));
    } else {
        lemma_entries_snoc(es.drop_first(), x);
        assert(p.drop_first() =~= es.drop_first().push(x));
        let head = es[0].0 + seq![' ', '=', ' '] + toml_text(es[0].1);
        assert(entries_text(p) == head + seq![',', ' '] + entries_text(es.drop_first().push(x)));
        assert(head + seq![',', ' '] + (entries_text(es.drop_first()) + seq![',', ' '] + (x.0
            + seq![' ', '=', ' '] + toml_text(x.1))) =~= (head + seq![',', ' '] + entries_text(
            es.drop_first(),
        )) + seq![',', ' '] + (x.0 + seq![' ', '=', ' '] + toml_text(x.1)));
    }
}

/// Append the natural rendering of `v` to `out`.
#[verifier::loop_isolation(false)]
pub fn push_toml_text(v: &ManifestValue, out: &mut Vec<char>)
    ensures
        final(out)@ == old(out)@ + toml_text(v@),
    decreases v,
{
    broadcast use vstd::seq::group_seq_axioms;

    match v {
        ManifestValue::Text(s) => push_quoted(s.as_str(), out),
        ManifestValue::Integer(i) => push_dec_i64(*i, out),
        ManifestValue::Float(f) => push_str_chars(f.as_str(), out),
        ManifestValue::Boolean(b) => push_bool(*b, out),
        ManifestValue::Timestamp(t) => push_str_chars(t.as_str(), out),
        ManifestValue::Array(a) => {
            out.push('[');
            let ghost base = out@;
            let ghost models = vm_seq(a@);
            proof {
                lemma_vm_seq(a@);
            }
            let mut i: usize = 0;
            while i < a.len()
                invariant
                    i <= a@.len(),
                    models == vm_seq(a@),
                    models.len() == a@.len(),
                    forall|j: int| 0 <= j < a@.len() ==> models[j] == vm(a@[j]),
                    out@ == base + items_text(models.subrange(0, i as int)),
                decreases a@.len() - i,
            {
                if i > 0 {
                    out.push(',');
                    out.push(' ');
                }
                proof {
                    assert(a@ == v->Array_0@);
                    assert(decreases_to!(*v => v->Array_0));
                    assert(decreases_to!(v->Array_0 => v->Array_0@));
                    assert(decreases_to!(v->Array_0@ => v->Array_0@[i as int]));
                    assert(decreases_to!(*v => a@[i as int]));
                }
                push_toml_text(&a[i], out);
                proof {
                    lemma_items_snoc(models.subrange(0, i as int), models[i as int]);
                    assert(models.subrange(0, i as int).push(models[i as int]) =~= models.subrange(
                        0,
                        i + 1,
                    ));
                    assert(out@ =~= base + items_text(models.subrange(0, i + 1)));
                }
                i = i + 1;
            }
            out.push(']');
            proof {
                assert(models.subrange(0, models.len() as int) =~= models);
                assert(out@ =~= old(out)@ + toml_text(v@));
            }
        },
        ManifestValue::Table(es) => {
            out.push('{');
            out.push(' ');
            let ghost base = out@;
            let ghost models = vm_entries(es@);
            proof {
                lemma_vm_entries(es@);
            }
            let mut i: usize = 0;
            while i < es.len()
                invariant
                    i <= es@.len(),
                    models == vm_entries(es@),
                    models.len() == es@.len(),
                    forall|j: int|
                        0 <= j < es@.len() ==> models[j] == (es@[j].key@, vm(es@[j].value)),
                    out@ == base + entries_text(models.subrange(0, i as int)),
                decreases es@.len() - i,
            {
                if i > 0 {
                    out.push(',');
                    out.push(' ');
                }
                let ghost mid = out@;
                push_str_chars(es[i].key.as_str(), out);
                out.push(' ');
                out.push('=');
                out.push(' ');
                proof {
                    assert(es@ == v->Table_0@);
                    assert(decreases_to!(*v => v->Table_0));
                    assert(decreases_to!(v->Table_0 => v->Table_0@));
                    assert(decreases_to!(v->Table_0@ => v->Table_0@[i as int]));
                    assert(decreases_to!(v->Table_0@[i as int] => v->Table_0@[i as int].value));
                    assert(decreases_to!(*v => es@[i as int].value));
                }
                push_toml_text(&es[i].value, out);
                proof {
                    assert(out@ =~= mid + (models[i as int].0 + seq![' ', '=', ' '] + toml_text(
                        models[i as int].1,
                    )));
                    lemma_entries_snoc(models.subrange(0, i as int), models[i as int]);
                    assert(models.subrange(0, i as int).push(models[i as int]) =~= models.subrange(
                        0,
                        i + 1,
                    ));
                    assert(out@ =~= base + entries_text(models.subrange(0, i + 1)));
                }
                i = i + 1;
            }
            out.push(' ');
            out.push('}');
            proof {
                assert(models.subrange(0, models.len() as int) =~= models);
                assert(out@ =~= old(out)@ + toml_text(v@));
            }
        },
    }
}

/// Append the degraded element text of `v` to `out`.
pub fn push_elem_text(v: &ManifestValue, out: &mut Vec<char>)
    ensures
        final(out)@ == old(out)@ + elem_text(v@),
{
    match v {
        ManifestValue::Text(s) => push_str_chars(s.as_str(), out),
        _ => push_toml_text(v, out),
    }
}

} // verus!
