//! Clause parsing: generic items, the table clause and the data clause.

use vstd::prelude::*;
use super::{value_map, key_value, ParseError};
use super::value::{string, number};
use crate::ast::{columns_model, Item, ItemTable, ItemTableColumn};
use crate::grammar::{
    PRes, SumItemModel, spec_data, spec_data_date, spec_data_datetime, spec_data_slots,
    spec_data_time, spec_item, spec_run, spec_run_elem, spec_run_more, spec_slot, spec_table,
    spec_table_pairs, sum_item_wf,
};
use crate::key::Key;
use crate::model::{
    column_wf, map_model_wf, value_wf, lemma_map_insert_wf, ColumnModel, MapModel, ValueModel,
};
use crate::text::{
    chars_substring, match_tag, scan_ascii_digits, scan_kind_chars, skip_ws, str_eq, token_u32,
};
use crate::value::{list_model, PropMap, Value};

verus! {

/// What one parsed clause contributes to the document.
#[derive(Debug, PartialEq)]
pub enum SumItem {
    /// A generic, repeatable clause.
    Item(Item),
    /// The `table(...)` clause.
    ItemTable(ItemTable),
    /// The flattened `data(...)` clause.
    ItemData(Vec<Value>),
}

impl SumItem {
    pub open spec fn model(self) -> SumItemModel {
        match self {
            SumItem::Item(i) => SumItemModel::Item(i.model()),
            SumItem::ItemTable(t) => SumItemModel::ItemTable(t.model()),
            SumItem::ItemData(v) => SumItemModel::ItemData(list_model(v@)),
        }
    }
}

/// The denormalized `name` field for a freshly parsed property map.
fn extract_name_field(values: &PropMap) -> (r: Option<Key>)
    ensures
        crate::ast::opt_key_model(r) == crate::model::extract_name(values.model()),
{
    match values.get("name") {
        Some(v) => match v.as_literal() {
            Some(t) => Some(Key(t.clone())),
            None => None,
        },
        None => None,
    }
}

/// The denormalized numeric field under `key` for a freshly parsed map.
fn extract_u32_field(values: &PropMap, key: &str) -> (r: Option<u32>)
    ensures
        r == crate::model::extract_u32(values.model(), key@),
{
    match values.get(key) {
        Some(v) => match v.as_number() {
            Some(t) => token_u32(t.as_str()),
            None => None,
        },
        None => None,
    }
}

/// A generic clause body, folded into an [`Item`].
fn normal(kind: Key, s: &Vec<char>, pos: usize) -> (r: Result<(usize, SumItem), ParseError>)
    requires
        pos <= s@.len(),
    ensures
        match r {
            Ok((next, it)) => pos < next <= s@.len() && (crate::grammar::spec_value_map(
                s@,
                pos as int,
            ) matches PRes::Val { next: n, v: m } && n == next as int && it.model()
                == SumItemModel::Item(
                crate::model::ItemModel {
                    kind: kind@,
                    name: crate::model::extract_name(m),
                    id: crate::model::extract_u32(m, "id"@),
                    level: crate::model::extract_u32(m, "level"@),
                    values: m,
                },
            ) && sum_item_wf(it.model())),
            Err(e) => crate::grammar::spec_value_map(s@, pos as int) == (if e.hard {
                PRes::<MapModel>::Hard
            } else {
                PRes::<MapModel>::Fail
            }),
        },
{
    let (next, values) = match value_map(s, pos) {
        Ok(v) => v,
        Err(e) => {
            return Err(e);
        },
    };
    let name = extract_name_field(&values);
    let id = extract_u32_field(&values, "id");
    let level = extract_u32_field(&values, "level");
    Ok((next, SumItem::Item(Item { kind, name, id, level, values })))
}

/// The `table` clause body: `column=` map pairs are diverted, in order,
/// into the column vector.
fn table_pairs(
    s: &Vec<char>,
    pos: usize,
    cols: Vec<ItemTableColumn>,
    vals: PropMap,
) -> (r: Result<(usize, ItemTable), ParseError>)
    requires
        pos <= s@.len(),
        map_model_wf(vals.model()),
        forall|i: int| 0 <= i < cols@.len() ==> column_wf(#[trigger] columns_model(cols@)[i]),
    ensures
        match r {
            Ok((next, t)) => pos < next <= s@.len() && spec_table_pairs(
                s@,
                pos as int,
                columns_model(cols@),
                vals.model(),
            ) == (PRes::Val { next: next as int, v: (t.model().columns, t.model().values) })
                && crate::model::table_wf(t.model()),
            Err(e) => spec_table_pairs(s@, pos as int, columns_model(cols@), vals.model()) == (
            if e.hard {
                PRes::<(Seq<ColumnModel>, MapModel)>::Hard
            } else {
                PRes::<(Seq<ColumnModel>, MapModel)>::Fail
            }),
        },
    decreases s@.len() - pos, 2int,
{
    let p1 = skip_ws(s, pos);
    match key_value(s, p1) {
        Err(e) => {
            if e.hard {
                Err(e)
            } else if pos < s.len() && s[pos] == ')' {
                Ok((pos + 1, ItemTable { columns: cols, values: vals }))
            } else {
                Err(ParseError::at(pos, false, "table"))
            }
        },
        Ok((next, (k, v))) => {
            let p2 = skip_ws(s, next);
            if k.is("column") {
                match v {
                    Value::Mapping(m) => {
                        let name = extract_name_field(&m);
                        let ghost cols0 = columns_model(cols@);
                        let mut cols = cols;
                        cols.push(ItemTableColumn { name, values: m });
                        proof {
                            assert(columns_model(cols@) =~= cols0.push(
                                cols@[cols@.len() - 1].model(),
                            ));
                        }
                        table_pairs(s, p2, cols, vals)
                    },
                    _ => Err(ParseError::at(p1, false, "table")),
                }
            } else {
                let ghost vals0 = vals.model();
                let mut vals = vals;
                proof {
                    lemma_map_insert_wf(vals0, k@, v.model());
                }
                vals.insert(k, v);
                table_pairs(s, p2, cols, vals)
            }
        },
    }
}

/// The `table(...)` clause.
pub(crate) fn table(s: &Vec<char>, pos: usize) -> (r: Result<(usize, SumItem), ParseError>)
    requires
        pos <= s@.len(),
    ensures
        match r {
            Ok((next, it)) => pos < next <= s@.len() && (spec_table(s@, pos as int) matches
                PRes::Val { next: n, v: t } && n == next as int && it.model()
                == SumItemModel::ItemTable(t) && sum_item_wf(it.model())),
            Err(e) => spec_table(s@, pos as int) == (if e.hard {
                PRes::<crate::model::TableModel>::Hard
            } else {
                PRes::<crate::model::TableModel>::Fail
            }),
        },
{
    if pos < s.len() && s[pos] == '(' {
        let cols: Vec<ItemTableColumn> = Vec::new();
        proof {
            assert(columns_model(cols@) =~= Seq::<ColumnModel>::empty());
        }
        match table_pairs(s, pos + 1, cols, PropMap::new()) {
            Ok((next, t)) => Ok((next, SumItem::ItemTable(t))),
            Err(e) => Err(e.within("table")),
        }
    } else {
        Err(ParseError::at(pos, false, "table"))
    }
}

/// A `data` date token.
fn data_date(s: &Vec<char>, pos: usize) -> (r: Option<usize>)
    requires
        pos <= s@.len(),
    ensures
        match r {
            Some(next) => pos < next <= s@.len() && (spec_data_date(s@, pos as int) matches
                PRes::Val { next: n, v: t } && n == next as int && t == s@.subrange(
                pos as int,
                next as int,
            )),
            None => spec_data_date(s@, pos as int) is Fail,
        },
{
    let d1 = scan_ascii_digits(s, pos);
    if !(d1 - pos >= 4 && d1 < s.len() && s[d1] == '-') {
        return None;
    }
    let d2 = scan_ascii_digits(s, d1 + 1);
    if !(d2 - (d1 + 1) >= 2 && d2 < s.len() && s[d2] == '-') {
        return None;
    }
    let d3 = scan_ascii_digits(s, d2 + 1);
    if !(d3 - (d2 + 1) >= 2) {
        return None;
    }
    Some(d3)
}

/// A `data` time token.
fn data_time(s: &Vec<char>, pos: usize) -> (r: Option<usize>)
    requires
        pos <= s@.len(),
    ensures
        match r {
            Some(next) => pos < next <= s@.len() && (spec_data_time(s@, pos as int) matches
                PRes::Val { next: n, v: t } && n == next as int && t == s@.subrange(
                pos as int,
                next as int,
            )),
            None => spec_data_time(s@, pos as int) is Fail,
        },
{
    let d1 = scan_ascii_digits(s, pos);
    if !(d1 - pos >= 2 && d1 < s.len() && s[d1] == ':') {
        return None;
    }
    let d2 = scan_ascii_digits(s, d1 + 1);
    if !(d2 - (d1 + 1) >= 2 && d2 < s.len() && s[d2] == ':') {
        return None;
    }
    let d3 = scan_ascii_digits(s, d2 + 1);
    if !(d3 - (d2 + 1) >= 2 && d3 < s.len() && s[d3] == ':') {
        return None;
    }
    let d4 = scan_ascii_digits(s, d3 + 1);
    if !(d4 - (d3 + 1) >= 4) {
        return None;
    }
    Some(d4)
}

/// A `data` datetime token.
fn data_datetime(s: &Vec<char>, pos: usize) -> (r: Option<usize>)
    requires
        pos <= s@.len(),
    ensures
        match r {
            Some(next) => pos < next <= s@.len() && (spec_data_datetime(s@, pos as int) matches
                PRes::Val { next: n, v: t } && n == next as int && t == s@.subrange(
                pos as int,
                next as int,
            )),
            None => spec_data_datetime(s@, pos as int) is Fail,
        },
{
    match data_date(s, pos) {
        None => None,
        Some(de) => {
            if de < s.len() && s[de] == ' ' {
                match data_time(s, de + 1) {
                    Some(te) => Some(te),
                    None => None,
                }
            } else {
                None
            }
        },
    }
}

/// One element of a space-separated `data` run.
fn run_elem(s: &Vec<char>, pos: usize) -> (r: Option<(usize, Value)>)
    requires
        pos <= s@.len(),
    ensures
        match r {
            Some((next, v)) => pos < next <= s@.len() && spec_run_elem(s@, pos as int)
                == (PRes::Val { next: next as int, v: v.model() }) && value_wf(v.model()),
            None => spec_run_elem(s@, pos as int) is Fail,
        },
{
    if match_tag(s, pos, "null") {
        // materialize the length so the index arithmetic is known in bounds
        let _n = s.len();
        proof {
            reveal_strlit("null");
        }
        let tok = chars_substring(s, pos, pos + 4);
        return Some((pos + 4, Value::Literal(tok)));
    }
    match string(s, pos) {
        Ok((next, v)) => {
            return Some((next, v));
        },
        Err(_) => {},
    }
    match data_datetime(s, pos) {
        Some(next) => {
            return Some((next, Value::Literal(chars_substring(s, pos, next))));
        },
        None => {},
    }
    match data_date(s, pos) {
        Some(next) => {
            return Some((next, Value::Literal(chars_substring(s, pos, next))));
        },
        None => {},
    }
    match data_time(s, pos) {
        Some(next) => {
            return Some((next, Value::Literal(chars_substring(s, pos, next))));
        },
        None => {},
    }
    match number(s, pos) {
        Ok((next, v)) => Some((next, v)),
        Err(_) => None,
    }
}

/// The continuation of a space-separated run.
fn run_more(s: &Vec<char>, pos: usize, acc: Vec<Value>) -> (r: (usize, Vec<Value>))
    requires
        pos <= s@.len(),
        forall|i: int| 0 <= i < acc@.len() ==> value_wf(#[trigger] acc@[i].model()),
    ensures
        pos <= r.0 <= s@.len(),
        spec_run_more(s@, pos as int, list_model(acc@)) == (PRes::Val {
            next: r.0 as int,
            v: list_model(r.1@),
        }),
        forall|i: int| 0 <= i < r.1@.len() ==> value_wf(#[trigger] r.1@[i].model()),
    decreases s@.len() - pos,
{
    let p1 = skip_ws(s, pos);
    if p1 > pos {
        match run_elem(s, p1) {
            Some((next, v)) => {
                let ghost acc0 = list_model(acc@);
                let mut acc = acc;
                acc.push(v);
                proof {
                    assert(list_model(acc@) =~= acc0.push(acc@[acc@.len() - 1].model()));
                }
                run_more(s, next, acc)
            },
            None => (pos, acc),
        }
    } else {
        (pos, acc)
    }
}

/// A space-separated run of `data` values, possibly empty.
fn run(s: &Vec<char>, pos: usize) -> (r: (usize, Vec<Value>))
    requires
        pos <= s@.len(),
    ensures
        pos <= r.0 <= s@.len(),
        spec_run(s@, pos as int) == (PRes::Val { next: r.0 as int, v: list_model(r.1@) }),
        forall|i: int| 0 <= i < r.1@.len() ==> value_wf(#[trigger] r.1@[i].model()),
{
    match run_elem(s, pos) {
        None => {
            let out: Vec<Value> = Vec::new();
            proof {
                assert(list_model(out@) =~= Seq::<ValueModel>::empty());
            }
            (pos, out)
        },
        Some((next, v)) => {
            let mut out: Vec<Value> = Vec::new();
            out.push(v);
            proof {
                assert(list_model(out@) =~= seq![out@[0].model()]);
            }
            run_more(s, next, out)
        },
    }
}

/// One comma-delimited `data` slot, already flattened.
fn slot(s: &Vec<char>, pos: usize) -> (r: (usize, Vec<Value>))
    requires
        pos <= s@.len(),
    ensures
        pos <= r.0 <= s@.len(),
        spec_slot(s@, pos as int) == (PRes::Val { next: r.0 as int, v: list_model(r.1@) }),
        forall|i: int| 0 <= i < r.1@.len() ==> value_wf(#[trigger] r.1@[i].model()),
{
    match string(s, pos) {
        Ok((next, v)) => {
            let mut out: Vec<Value> = Vec::new();
            out.push(v);
            proof {
                assert(list_model(out@) =~= seq![out@[0].model()]);
            }
            return (next, out);
        },
        Err(_) => {},
    }
    match data_datetime(s, pos) {
        Some(next) => {
            let mut out: Vec<Value> = Vec::new();
            out.push(Value::Literal(chars_substring(s, pos, next)));
            proof {
                assert(list_model(out@) =~= seq![out@[0].model()]);
            }
            return (next, out);
        },
        None => {},
    }
    match data_date(s, pos) {
        Some(next) => {
            let mut out: Vec<Value> = Vec::new();
            out.push(Value::Literal(chars_substring(s, pos, next)));
            proof {
                assert(list_model(out@) =~= seq![out@[0].model()]);
            }
            return (next, out);
        },
        None => {},
    }
    match data_time(s, pos) {
        Some(next) => {
            let mut out: Vec<Value> = Vec::new();
            out.push(Value::Literal(chars_substring(s, pos, next)));
            proof {
                assert(list_model(out@) =~= seq![out@[0].model()]);
            }
            return (next, out);
        },
        None => {},
    }
    match number(s, pos) {
        Ok((next, v)) => {
            let mut out: Vec<Value> = Vec::new();
            out.push(v);
            proof {
                assert(list_model(out@) =~= seq![out@[0].model()]);
            }
            return (next, out);
        },
        Err(_) => {},
    }
    run(s, pos)
}

/// The comma-separated slot list of a `data` clause.
fn data_slots(s: &Vec<char>, pos: usize, acc: Vec<Value>) -> (r: (usize, Vec<Value>))
    requires
        pos <= s@.len(),
        forall|i: int| 0 <= i < acc@.len() ==> value_wf(#[trigger] acc@[i].model()),
    ensures
        pos <= r.0 <= s@.len(),
        spec_data_slots(s@, pos as int, list_model(acc@)) == (PRes::Val {
            next: r.0 as int,
            v: list_model(r.1@),
        }),
        forall|i: int| 0 <= i < r.1@.len() ==> value_wf(#[trigger] r.1@[i].model()),
    decreases s@.len() - pos,
{
    let p1 = skip_ws(s, pos);
    let (next, vs) = slot(s, p1);
    let p2 = skip_ws(s, next);
    let ghost acc0 = list_model(acc@);
    let ghost vs0 = list_model(vs@);
    let mut acc = acc;
    let mut vs = vs;
    acc.append(&mut vs);
    proof {
        assert(list_model(acc@) =~= acc0 + vs0);
    }
    if p2 < s.len() && s[p2] == ',' {
        data_slots(s, p2 + 1, acc)
    } else {
        (p2, acc)
    }
}

/// The `data(...)` clause: flattened slot values.
pub(crate) fn data(s: &Vec<char>, pos: usize) -> (r: Result<(usize, SumItem), ParseError>)
    requires
        pos <= s@.len(),
    ensures
        match r {
            Ok((next, it)) => pos < next <= s@.len() && (spec_data(s@, pos as int) matches
                PRes::Val { next: n, v: l } && n == next as int && it.model()
                == SumItemModel::ItemData(l) && sum_item_wf(it.model())),
            Err(e) => !e.hard && spec_data(s@, pos as int) is Fail,
        },
{
    if pos < s.len() && s[pos] == '(' {
        let acc: Vec<Value> = Vec::new();
        proof {
            assert(list_model(acc@) =~= Seq::<ValueModel>::empty());
        }
        let (next, vs) = data_slots(s, pos + 1, acc);
        if next < s.len() && s[next] == ')' {
            proof {
                assert forall|i: int| 0 <= i < list_model(vs@).len() implies value_wf(
                    #[trigger] list_model(vs@)[i],
                ) by {
                    assert(list_model(vs@)[i] == vs@[i].model());
                }
            }
            Ok((next + 1, SumItem::ItemData(vs)))
        } else {
            Err(ParseError::at(next, false, "data"))
        }
    } else {
        Err(ParseError::at(pos, false, "data"))
    }
}

/// One clause: its kind token, then the body the kind selects.
pub fn item(s: &Vec<char>, pos: usize) -> (r: Result<(usize, SumItem), ParseError>)
    requires
        pos <= s@.len(),
    ensures
        match r {
            Ok((next, it)) => pos < next <= s@.len() && spec_item(s@, pos as int) == (PRes::Val {
                next: next as int,
                v: it.model(),
            }) && sum_item_wf(it.model()),
            Err(e) => spec_item(s@, pos as int) == (if e.hard {
                PRes::<SumItemModel>::Hard
            } else {
                PRes::<SumItemModel>::Fail
            }),
        },
{
    let k0 = skip_ws(s, pos);
    let ke = scan_kind_chars(s, k0);
    if !(ke > k0) {
        return Err(ParseError::at(k0, false, "item"));
    }
    let kind = chars_substring(s, k0, ke);
    let kb = skip_ws(s, ke);
    if str_eq(kind.as_str(), "table") {
        match table(s, kb) {
            Ok(v) => Ok(v),
            Err(e) => Err(e.within("item")),
        }
    } else if str_eq(kind.as_str(), "data") {
        match data(s, kb) {
            Ok(v) => Ok(v),
            Err(e) => Err(e.within("item")),
        }
    } else {
        match normal(Key(kind), s, kb) {
            Ok(v) => Ok(v),
            Err(e) => Err(e.within("item")),
        }
    }
}

} // verus!
