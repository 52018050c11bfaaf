//! The mathematical model of a parsed document: ghost mirrors of the
//! executable tree types, and the association-list semantics of the
//! order-preserving property maps.

use vstd::prelude::*;
use crate::text::spec_token_u32;

verus! {

/// Model of a parameter value.
#[verifier::ext_equal]
pub ghost enum ValueModel {
    /// A bare token, possibly with a verbatim parenthesized suffix.
    Literal(Seq<char>),
    /// The raw content between double quotes, escapes kept.
    DoubleQuoted(Seq<char>),
    /// The raw content between single quotes, escapes kept.
    SingleQuoted(Seq<char>),
    /// The numeric token exactly as it stood in the source.
    Number(Seq<char>),
    /// A nested property map, in declaration order.
    Mapping(Seq<(Seq<char>, ValueModel)>),
    /// An ordered, heterogeneous list.
    List(Seq<ValueModel>),
}

pub type MapModel = Seq<(Seq<char>, ValueModel)>;

/// The value stored under the first entry whose key is `k`.
pub open spec fn map_lookup(m: MapModel, k: Seq<char>) -> Option<ValueModel>
    decreases m.len(),
{
    if m.len() == 0 {
        None
    } else if m[0].0 == k {
        Some(m[0].1)
    } else {
        map_lookup(m.drop_first(), k)
    }
}

pub open spec fn map_contains(m: MapModel, k: Seq<char>) -> bool {
    map_lookup(m, k) is Some
}

/// The position of the first entry whose key is `k`.
pub open spec fn map_index_of(m: MapModel, k: Seq<char>) -> int
    decreases m.len(),
{
    if m.len() == 0 {
        0
    } else if m[0].0 == k {
        0
    } else {
        1 + map_index_of(m.drop_first(), k)
    }
}

/// Insertion in declaration order: an existing key keeps its position and
/// gets the new value; a new key is appended.
pub open spec fn map_insert(m: MapModel, k: Seq<char>, v: ValueModel) -> MapModel {
    if map_contains(m, k) {
        m.update(map_index_of(m, k), (k, v))
    } else {
        m.push((k, v))
    }
}

pub open spec fn map_keys_unique(m: MapModel) -> bool {
    forall|i: int, j: int| 0 <= i < j < m.len() ==> m[i].0 != m[j].0
}

pub proof fn lemma_map_lookup_at(m: MapModel, k: Seq<char>, i: int)
    requires
        0 <= i < m.len(),
        m[i].0 == k,
        forall|j: int| 0 <= j < i ==> m[j].0 != k,
    ensures
        map_lookup(m, k) == Some(m[i].1),
        map_index_of(m, k) == i,
    decreases i,
{
    if i > 0 {
        lemma_map_lookup_at(m.drop_first(), k, i - 1);
    }
}

pub proof fn lemma_map_lookup_absent(m: MapModel, k: Seq<char>)
    requires
        forall|j: int| 0 <= j < m.len() ==> m[j].0 != k,
    ensures
        map_lookup(m, k) is None,
    decreases m.len(),
{
    if m.len() > 0 {
        lemma_map_lookup_absent(m.drop_first(), k);
    }
}

pub proof fn lemma_map_lookup_found(m: MapModel, k: Seq<char>)
    requires
        map_contains(m, k),
    ensures
        0 <= map_index_of(m, k) < m.len(),
        m[map_index_of(m, k)].0 == k,
        map_lookup(m, k) == Some(m[map_index_of(m, k)].1),
        forall|j: int| 0 <= j < map_index_of(m, k) ==> m[j].0 != k,
    decreases m.len(),
{
    if m.len() > 0 && m[0].0 != k {
        lemma_map_lookup_found(m.drop_first(), k);
        assert forall|j: int| 0 <= j < map_index_of(m, k) implies m[j].0 != k by {
            if j > 0 {
                assert(m[j].0 == m.drop_first()[j - 1].0);
            }
        }
    }
}

/// A key that is not found heads no entry.
pub proof fn lemma_map_lookup_miss(m: MapModel, k: Seq<char>)
    requires
        map_lookup(m, k) is None,
    ensures
        forall|j: int| 0 <= j < m.len() ==> m[j].0 != k,
    decreases m.len(),
{
    if m.len() > 0 {
        lemma_map_lookup_miss(m.drop_first(), k);
        assert forall|j: int| 0 <= j < m.len() implies m[j].0 != k by {
            if j > 0 {
                assert(m[j].0 == m.drop_first()[j - 1].0);
            }
        }
    }
}

/// Insertion keeps keys unique.
pub proof fn lemma_map_insert_unique(m: MapModel, k: Seq<char>, v: ValueModel)
    requires
        map_keys_unique(m),
    ensures
        map_keys_unique(map_insert(m, k, v)),
        map_lookup(map_insert(m, k, v), k) == Some(v),
{
    if map_contains(m, k) {
        lemma_map_lookup_found(m, k);
        let i = map_index_of(m, k);
        let m2 = m.update(i, (k, v));
        assert forall|a: int, b: int| 0 <= a < b < m2.len() implies m2[a].0 != m2[b].0 by {
            assert(m[a].0 != m[b].0);
        }
        lemma_map_lookup_at(m2, k, i);
    } else {
        lemma_map_lookup_miss(m, k);
        let m2 = m.push((k, v));
        lemma_map_lookup_at(m2, k, m2.len() - 1);
    }
}

/// Insertion keeps the whole map well-formed.
pub proof fn lemma_map_insert_wf(m: MapModel, k: Seq<char>, v: ValueModel)
    requires
        map_model_wf(m),
        value_wf(v),
    ensures
        map_model_wf(map_insert(m, k, v)),
        map_lookup(map_insert(m, k, v), k) == Some(v),
{
    lemma_map_insert_unique(m, k, v);
    let m2 = map_insert(m, k, v);
    if map_contains(m, k) {
        lemma_map_lookup_found(m, k);
        assert forall|i: int| 0 <= i < m2.len() implies value_wf(#[trigger] m2[i].1) by {
            if i != map_index_of(m, k) {
                assert(m2[i].1 == m[i].1);
            }
        }
    } else {
        assert forall|i: int| 0 <= i < m2.len() implies value_wf(#[trigger] m2[i].1) by {
            if i < m.len() {
                assert(m2[i].1 == m[i].1);
            }
        }
    }
}

/// Insertion under one key leaves every other key's entry alone.
pub proof fn lemma_map_insert_other(m: MapModel, k: Seq<char>, v: ValueModel, k2: Seq<char>)
    requires
        k2 != k,
    ensures
        map_lookup(map_insert(m, k, v), k2) == map_lookup(m, k2),
    decreases m.len(),
{
    if map_contains(m, k) {
        lemma_map_lookup_found(m, k);
        let i = map_index_of(m, k);
        let m2 = m.update(i, (k, v));
        lemma_lookup_update_other(m, i, (k, v), k2);
    } else {
        let m2 = m.push((k, v));
        lemma_lookup_push_other(m, (k, v), k2);
    }
}

proof fn lemma_lookup_update_other(m: MapModel, i: int, e: (Seq<char>, ValueModel), k2: Seq<char>)
    requires
        0 <= i < m.len(),
        m[i].0 != k2,
        e.0 != k2,
    ensures
        map_lookup(m.update(i, e), k2) == map_lookup(m, k2),
    decreases m.len(),
{
    if m.len() > 0 {
        if i == 0 {
            assert(m.update(i, e).drop_first() =~= m.drop_first());
        } else {
            assert(m.update(i, e).drop_first() =~= m.drop_first().update(i - 1, e));
            lemma_lookup_update_other(m.drop_first(), i - 1, e, k2);
        }
    }
}

proof fn lemma_lookup_push_other(m: MapModel, e: (Seq<char>, ValueModel), k2: Seq<char>)
    requires
        e.0 != k2,
    ensures
        map_lookup(m.push(e), k2) == map_lookup(m, k2),
    decreases m.len(),
{
    if m.len() == 0 {
    } else {
        assert(m.push(e).drop_first() =~= m.drop_first().push(e));
        lemma_lookup_push_other(m.drop_first(), e, k2);
    }
}

/// Structural well-formedness of a value: every property map in it keeps
/// its keys unique.
pub open spec fn value_wf(v: ValueModel) -> bool
    decreases v,
{
    match v {
        ValueModel::Mapping(m) => map_model_wf(m),
        ValueModel::List(l) => forall|i: int| 0 <= i < l.len() ==> value_wf(#[trigger] l[i]),
        _ => true,
    }
}

pub open spec fn map_model_wf(m: MapModel) -> bool
    decreases m,
{
    map_keys_unique(m) && forall|i: int| 0 <= i < m.len() ==> value_wf(#[trigger] m[i].1)
}

/// Model of a repeatable clause.
#[verifier::ext_equal]
pub ghost struct ItemModel {
    pub kind: Seq<char>,
    pub name: Option<Seq<char>>,
    pub id: Option<u32>,
    pub level: Option<u32>,
    pub values: MapModel,
}

/// Model of one table column.
#[verifier::ext_equal]
pub ghost struct ColumnModel {
    pub name: Option<Seq<char>>,
    pub values: MapModel,
}

/// Model of the table clause.
#[verifier::ext_equal]
pub ghost struct TableModel {
    pub columns: Seq<ColumnModel>,
    pub values: MapModel,
}

/// Model of a whole document.
#[verifier::ext_equal]
pub ghost struct DocModel {
    pub name: Option<Seq<char>>,
    pub comment: Option<Seq<char>>,
    pub version: Seq<char>,
    pub datawindow: MapModel,
    pub header: MapModel,
    pub summary: MapModel,
    pub footer: MapModel,
    pub detail: MapModel,
    pub table: TableModel,
    pub data: Seq<ValueModel>,
    pub items: Seq<ItemModel>,
}

/// The denormalized `name` of an item or column: its `name` property when
/// that is a bare literal.
pub open spec fn extract_name(values: MapModel) -> Option<Seq<char>> {
    match map_lookup(values, "name"@) {
        Some(ValueModel::Literal(t)) => Some(t),
        _ => None,
    }
}

/// The denormalized numeric property under `key`, when it is a plain
/// digit-run number that fits in `u32`.
pub open spec fn extract_u32(values: MapModel, key: Seq<char>) -> Option<u32> {
    match map_lookup(values, key) {
        Some(ValueModel::Number(t)) => spec_token_u32(t),
        _ => None,
    }
}

/// An item whose dedicated lookup fields agree with its property map.
/// The `level` field is a parse-time copy that assignments do not
/// refresh, so it is no part of the invariant.
pub open spec fn item_wf(it: ItemModel) -> bool {
    &&& map_model_wf(it.values)
    &&& it.name == extract_name(it.values)
    &&& it.id == extract_u32(it.values, "id"@)
}

pub open spec fn column_wf(c: ColumnModel) -> bool {
    &&& map_model_wf(c.values)
    &&& c.name == extract_name(c.values)
}

pub open spec fn table_wf(t: TableModel) -> bool {
    &&& map_model_wf(t.values)
    &&& forall|i: int| 0 <= i < t.columns.len() ==> column_wf(#[trigger] t.columns[i])
}

/// Well-formedness of a document: every property map keeps its keys
/// unique, and every denormalized item/column field agrees with the map
/// it was extracted from.
pub open spec fn doc_wf(d: DocModel) -> bool {
    &&& map_model_wf(d.datawindow)
    &&& map_model_wf(d.header)
    &&& map_model_wf(d.summary)
    &&& map_model_wf(d.footer)
    &&& map_model_wf(d.detail)
    &&& table_wf(d.table)
    &&& forall|i: int| 0 <= i < d.data.len() ==> value_wf(#[trigger] d.data[i])
    &&& forall|i: int| 0 <= i < d.items.len() ==> item_wf(#[trigger] d.items[i])
}

} // verus!
