//! The selector language, stated mathematically: how a dotted path is
//! split into components, how components route to a container inside the
//! tree, and what each `describe`/`modify` statement does to the tree.

use vstd::prelude::*;
use crate::grammar::{PRes, SumItemModel, spec_value, spec_item};
use crate::model::{
    map_insert, map_lookup, DocModel, ItemModel, MapModel, TableModel, ValueModel,
};
use crate::text::{
    is_name_char, is_selector_char, spec_scan, spec_skip_ws, spec_token_u32, spec_dec, tag_at,
    unicode_alphabetic, unicode_numeric,
};

verus! {

/// One selector component: a name starting with a letter or `#`, or a
/// run of numeric characters.
pub open spec fn spec_sel_component(s: Seq<char>, pos: int) -> PRes<Seq<char>> {
    if !(0 <= pos <= s.len()) {
        PRes::Hard
    } else if pos < s.len() && (unicode_alphabetic(s[pos]) || s[pos] == '#') {
        let e = spec_scan(s, pos, |c: char| is_name_char(c));
        PRes::Val { next: e, v: s.subrange(pos, e) }
    } else if pos < s.len() && unicode_numeric(s[pos]) {
        let e = spec_scan(s, pos, |c: char| unicode_numeric(c));
        PRes::Val { next: e, v: s.subrange(pos, e) }
    } else {
        PRes::Fail
    }
}

/// Further dot-separated components; a component that fails after a dot
/// hands the dot back.
pub open spec fn spec_sel_more(s: Seq<char>, pos: int, acc: Seq<Seq<char>>) -> PRes<
    Seq<Seq<char>>,
>
    decreases s.len() - pos,
{
    if !(0 <= pos <= s.len()) {
        PRes::Hard
    } else if pos < s.len() && s[pos] == '.' {
        match spec_sel_component(s, pos + 1) {
            PRes::Hard => PRes::Hard,
            PRes::Fail => PRes::Val { next: pos, v: acc },
            PRes::Val { next, v } => {
                if pos < next <= s.len() {
                    spec_sel_more(s, next, acc.push(v))
                } else {
                    PRes::Hard
                }
            },
        }
    } else {
        PRes::Val { next: pos, v: acc }
    }
}

/// The whole selector: leading and trailing whitespace allowed, one or
/// more dot-separated components, nothing else.
pub open spec fn spec_selector(s: Seq<char>) -> Option<Seq<Seq<char>>> {
    let p0 = spec_skip_ws(s, 0);
    match spec_sel_component(s, p0) {
        PRes::Val { next, v } => match spec_sel_more(s, next, seq![v]) {
            PRes::Val { next: p2, v: comps } => {
                if spec_skip_ws(s, p2) == s.len() {
                    Some(comps)
                } else {
                    None
                }
            },
            _ => None,
        },
        _ => None,
    }
}

/// A routed container inside the tree.
pub ghost enum RootModel {
    DataWindow,
    Header,
    Summary,
    Footer,
    Detail,
    Item(int),
    ItemTable,
    ItemTableColumn(int),
}

/// What a selector resolves to: a container plus remaining key, or
/// nothing.
#[verifier::ext_equal]
pub ghost enum SelectModel {
    Target { root: RootModel, key: Seq<char> },
    Invalid,
}

/// The first `group` item whose `level` property is the plain decimal
/// notation of `level`.
pub open spec fn spec_find_group(items: Seq<ItemModel>, level: u32, from: int) -> Option<int>
    decreases items.len() - from,
{
    if !(0 <= from <= items.len()) {
        None
    } else if from == items.len() {
        None
    } else if items[from].kind == "group"@ && group_level_matches(items[from].values, level) {
        Some(from)
    } else {
        spec_find_group(items, level, from + 1)
    }
}

/// Whether the `level` property of `values` is a number denoting `level`.
pub open spec fn group_level_matches(values: MapModel, level: u32) -> bool {
    match map_lookup(values, "level"@) {
        Some(ValueModel::Number(t)) => spec_token_u32(t) == Some(level),
        _ => false,
    }
}

/// The first column with the given name.
pub open spec fn spec_find_column(cols: Seq<crate::model::ColumnModel>, name: Seq<char>, from: int) -> Option<
    int,
>
    decreases cols.len() - from,
{
    if !(0 <= from <= cols.len()) {
        None
    } else if from == cols.len() {
        None
    } else if cols[from].name == Some(name) {
        Some(from)
    } else {
        spec_find_column(cols, name, from + 1)
    }
}

/// The first item matched by a name, or by `#<id>`.
pub open spec fn spec_find_item(items: Seq<ItemModel>, comp: Seq<char>) -> Option<int> {
    if comp.len() > 0 && comp[0] == '#' {
        match spec_token_u32(comp.skip(1)) {
            Some(id) => spec_find_item_by_id(items, id, 0),
            None => None,
        }
    } else {
        spec_find_item_by_name(items, comp, 0)
    }
}

pub open spec fn spec_find_item_by_id(items: Seq<ItemModel>, id: u32, from: int) -> Option<int>
    decreases items.len() - from,
{
    if !(0 <= from <= items.len()) {
        None
    } else if from == items.len() {
        None
    } else if items[from].id == Some(id) {
        Some(from)
    } else {
        spec_find_item_by_id(items, id, from + 1)
    }
}

pub open spec fn spec_find_item_by_name(items: Seq<ItemModel>, name: Seq<char>, from: int) -> Option<
    int,
>
    decreases items.len() - from,
{
    if !(0 <= from <= items.len()) {
        None
    } else if from == items.len() {
        None
    } else if items[from].name == Some(name) {
        Some(from)
    } else {
        spec_find_item_by_name(items, name, from + 1)
    }
}

/// The remaining components joined on `.` after an initial prefix.
pub open spec fn spec_join_key(prefix: Seq<char>, comps: Seq<Seq<char>>, from: int) -> Seq<char>
    decreases comps.len() - from,
{
    if !(0 <= from < comps.len()) {
        prefix
    } else {
        spec_join_key(
            if prefix.len() == 0 {
                comps[from]
            } else {
                prefix + "."@ + comps[from]
            },
            comps,
            from + 1,
        )
    }
}

/// Route parsed components to a container and final key, exactly as the
/// `Describe`/`Modify` contract does.
pub open spec fn spec_route(d: DocModel, comps: Seq<Seq<char>>) -> SelectModel {
    if comps.len() == 0 {
        SelectModel::Invalid
    } else if comps[0] == "datawindow"@ {
        if comps.len() < 2 {
            SelectModel::Invalid
        } else {
            let c1 = comps[1];
            if c1 == "header"@ {
                spec_route_band(d, comps, RootModel::Header, "header"@)
            } else if c1 == "footer"@ {
                spec_route_band(d, comps, RootModel::Footer, "footer"@)
            } else if c1 == "trailer"@ {
                spec_route_group(d, comps, "trailer"@)
            } else if c1 == "group"@ {
                spec_route_group(d, comps, Seq::empty())
            } else if c1 == "summary"@ {
                SelectModel::Target {
                    root: RootModel::Summary,
                    key: spec_join_key(Seq::empty(), comps, 2),
                }
            } else if c1 == "detail"@ {
                SelectModel::Target {
                    root: RootModel::Detail,
                    key: spec_join_key(Seq::empty(), comps, 2),
                }
            } else if c1 == "table"@ {
                spec_route_table(d, comps)
            } else {
                SelectModel::Target { root: RootModel::DataWindow, key: spec_join_key(c1, comps, 2) }
            }
        }
    } else {
        match spec_find_item(d.items, comps[0]) {
            None => SelectModel::Invalid,
            Some(i) => {
                let it = d.items[i];
                if comps.len() == 2 && it.kind == "column"@ && it.id is Some {
                    if comps[1] == "coltype"@ || comps[1] == "dbname"@ {
                        let idx = it.id->0 as int;
                        if 1 <= idx <= d.table.columns.len() {
                            SelectModel::Target {
                                root: RootModel::ItemTableColumn(idx - 1),
                                key: if comps[1] == "coltype"@ {
                                    "type"@
                                } else {
                                    comps[1]
                                },
                            }
                        } else {
                            SelectModel::Invalid
                        }
                    } else {
                        SelectModel::Target { root: RootModel::Item(i), key: comps[1] }
                    }
                } else {
                    SelectModel::Target {
                        root: RootModel::Item(i),
                        key: spec_join_key(Seq::empty(), comps, 1),
                    }
                }
            },
        }
    }
}

/// `datawindow.header`/`datawindow.footer`: the band map itself, or the
/// matching `group` item when the third component is numeric.
pub open spec fn spec_route_band(
    d: DocModel,
    comps: Seq<Seq<char>>,
    root: RootModel,
    prefix: Seq<char>,
) -> SelectModel {
    if comps.len() >= 3 {
        match spec_token_u32(comps[2]) {
            Some(level) => match spec_find_group(d.items, level, 0) {
                Some(i) => SelectModel::Target {
                    root: RootModel::Item(i),
                    key: spec_join_key(prefix, comps, 3),
                },
                None => SelectModel::Invalid,
            },
            None => SelectModel::Target { root, key: spec_join_key(comps[2], comps, 3) },
        }
    } else {
        SelectModel::Target { root, key: Seq::empty() }
    }
}

/// `datawindow.trailer`/`datawindow.group`: the numeric third component
/// is mandatory and must match a group.
pub open spec fn spec_route_group(d: DocModel, comps: Seq<Seq<char>>, prefix: Seq<char>) -> SelectModel {
    if comps.len() >= 3 {
        match spec_token_u32(comps[2]) {
            Some(level) => match spec_find_group(d.items, level, 0) {
                Some(i) => SelectModel::Target {
                    root: RootModel::Item(i),
                    key: spec_join_key(prefix, comps, 3),
                },
                None => SelectModel::Invalid,
            },
            None => SelectModel::Invalid,
        }
    } else {
        SelectModel::Invalid
    }
}

/// `datawindow.table`: the table map, or a column selected by 1-based
/// index or by name.
pub open spec fn spec_route_table(d: DocModel, comps: Seq<Seq<char>>) -> SelectModel {
    if comps.len() >= 4 && comps[2] == "column"@ {
        match spec_token_u32(comps[3]) {
            Some(idx) => {
                if 1 <= idx && idx as int <= d.table.columns.len() {
                    SelectModel::Target {
                        root: RootModel::ItemTableColumn(idx as int - 1),
                        key: spec_join_key(Seq::empty(), comps, 4),
                    }
                } else {
                    SelectModel::Invalid
                }
            },
            None => match spec_find_column(d.table.columns, comps[3], 0) {
                Some(i) => SelectModel::Target {
                    root: RootModel::ItemTableColumn(i),
                    key: spec_join_key(Seq::empty(), comps, 4),
                },
                None => SelectModel::Invalid,
            },
        }
    } else if comps.len() >= 3 {
        SelectModel::Target { root: RootModel::ItemTable, key: spec_join_key(comps[2], comps, 3) }
    } else {
        SelectModel::Target { root: RootModel::ItemTable, key: Seq::empty() }
    }
}

/// Selector resolution from the raw text.
pub open spec fn spec_select(d: DocModel, s: Seq<char>) -> SelectModel {
    match spec_selector(s) {
        None => SelectModel::Invalid,
        Some(comps) => spec_route(d, comps),
    }
}

/// The property map a routed container owns.
pub open spec fn spec_root_values(d: DocModel, root: RootModel) -> MapModel {
    match root {
        RootModel::DataWindow => d.datawindow,
        RootModel::Header => d.header,
        RootModel::Summary => d.summary,
        RootModel::Footer => d.footer,
        RootModel::Detail => d.detail,
        RootModel::Item(i) => if 0 <= i < d.items.len() {
            d.items[i].values
        } else {
            Seq::empty()
        },
        RootModel::ItemTable => d.table.values,
        RootModel::ItemTableColumn(i) => if 0 <= i < d.table.columns.len() {
            d.table.columns[i].values
        } else {
            Seq::empty()
        },
    }
}

/// What a lookup through the router yields.
#[verifier::ext_equal]
pub ghost enum FindModel {
    /// A present value.
    Found(ValueModel),
    /// A valid target whose final key is absent, or an empty final key.
    Missing,
    /// A malformed selector or an unresolved routing hop.
    Invalid,
}

/// The routed lookup behind `describe`.
pub open spec fn spec_find(d: DocModel, s: Seq<char>) -> FindModel {
    match spec_select(d, s) {
        SelectModel::Invalid => FindModel::Invalid,
        SelectModel::Target { root, key } => {
            if key.len() == 0 {
                FindModel::Missing
            } else {
                match map_lookup(spec_root_values(d, root), key) {
                    Some(v) => FindModel::Found(v),
                    None => FindModel::Missing,
                }
            }
        },
    }
}

/// One parsed `modify` statement.
pub ghost enum StatementModel {
    Assign(Seq<char>, ValueModel),
    Create(SumItemModel),
    Destroy(Seq<char>),
}

/// A raw selector token in a `modify` statement.
pub open spec fn spec_sel_token(s: Seq<char>, pos: int) -> PRes<Seq<char>> {
    if !(0 <= pos <= s.len()) {
        PRes::Hard
    } else {
        let e = spec_scan(s, pos, |c: char| is_selector_char(c));
        if e > pos {
            PRes::Val { next: e, v: s.subrange(pos, e) }
        } else {
            PRes::Fail
        }
    }
}

/// One statement: an assignment, a `create`, or a `destroy`, tried in
/// that order.
pub open spec fn spec_statement(s: Seq<char>, pos: int) -> PRes<StatementModel> {
    if !(0 <= pos <= s.len()) {
        PRes::Hard
    } else {
        let assign = spec_assign(s, pos);
        match assign {
            PRes::Val { next, v } => PRes::Val { next, v },
            PRes::Hard => PRes::Hard,
            PRes::Fail => {
                if tag_at(s, pos, "create"@) {
                    let p1 = spec_skip_ws(s, pos + 6);
                    if p1 > pos + 6 && p1 <= s.len() {
                        match spec_item(s, p1) {
                            PRes::Val { next, v } => PRes::Val {
                                next,
                                v: StatementModel::Create(v),
                            },
                            PRes::Hard => PRes::Hard,
                            PRes::Fail => spec_destroy(s, pos),
                        }
                    } else {
                        spec_destroy(s, pos)
                    }
                } else {
                    spec_destroy(s, pos)
                }
            },
        }
    }
}

/// `selector = value`.
pub open spec fn spec_assign(s: Seq<char>, pos: int) -> PRes<StatementModel> {
    match spec_sel_token(s, pos) {
        PRes::Hard => PRes::Hard,
        PRes::Fail => PRes::Fail,
        PRes::Val { next: ke, v: k } => {
            let eq = spec_skip_ws(s, ke);
            if 0 <= eq && eq < s.len() && s[eq] == '=' {
                let vp = spec_skip_ws(s, eq + 1);
                if pos < vp <= s.len() {
                    match spec_value(s, vp) {
                        PRes::Val { next, v } => PRes::Val {
                            next,
                            v: StatementModel::Assign(k, v),
                        },
                        _ => PRes::Hard,
                    }
                } else {
                    PRes::Hard
                }
            } else {
                PRes::Fail
            }
        },
    }
}

/// `destroy selector`.
pub open spec fn spec_destroy(s: Seq<char>, pos: int) -> PRes<StatementModel> {
    if tag_at(s, pos, "destroy"@) {
        let p1 = spec_skip_ws(s, pos + 7);
        if p1 > pos + 7 && p1 <= s.len() {
            match spec_sel_token(s, p1) {
                PRes::Val { next, v } => PRes::Val { next, v: StatementModel::Destroy(v) },
                _ => PRes::Fail,
            }
        } else {
            PRes::Fail
        }
    } else {
        PRes::Fail
    }
}

/// Further statements, each preceded by a `;` (spaces allowed around it)
/// or by at least one whitespace character.
pub open spec fn spec_statements_more(s: Seq<char>, pos: int, acc: Seq<StatementModel>) -> PRes<
    (int, Seq<StatementModel>),
>
    decreases s.len() - pos,
{
    if !(0 <= pos <= s.len()) {
        PRes::Hard
    } else {
        let w1 = spec_skip_ws(s, pos);
        let sep = if 0 <= w1 <= s.len() && w1 < s.len() && s[w1] == ';' {
            Some(spec_skip_ws(s, w1 + 1))
        } else if w1 > pos {
            Some(w1)
        } else {
            None
        };
        match sep {
            None => PRes::Val { next: pos, v: (pos, acc) },
            Some(p1) => {
                if !(pos <= p1 <= s.len()) {
                    PRes::Hard
                } else {
                    match spec_statement(s, p1) {
                        PRes::Hard => PRes::Hard,
                        PRes::Fail => PRes::Val { next: pos, v: (pos, acc) },
                        PRes::Val { next, v } => {
                            if pos < next <= s.len() {
                                spec_statements_more(s, next, acc.push(v))
                            } else {
                                PRes::Hard
                            }
                        },
                    }
                }
            },
        }
    }
}

/// The whole statement list of one `modify` call.
pub open spec fn spec_statements(s: Seq<char>) -> Option<Seq<StatementModel>> {
    let p0 = spec_skip_ws(s, 0);
    match spec_statement(s, p0) {
        PRes::Val { next, v } => match spec_statements_more(s, next, seq![v]) {
            PRes::Val { next: _, v: (p2, sts) } => {
                let p3 = spec_skip_ws(s, p2);
                let p4 = if 0 <= p3 && p3 < s.len() && s[p3] == ';' {
                    p3 + 1
                } else {
                    p3
                };
                if 0 <= p4 <= s.len() && spec_skip_ws(s, p4) == s.len() {
                    Some(sts)
                } else {
                    None
                }
            },
            _ => None,
        },
        _ => None,
    }
}

/// The denormalized name a freshly assigned `name` property induces.
pub open spec fn name_field_of(v: ValueModel) -> Option<Seq<char>> {
    match v {
        ValueModel::Literal(t) => Some(t),
        _ => None,
    }
}

/// The denormalized id a freshly assigned `id` property induces.
pub open spec fn id_field_of(v: ValueModel) -> Option<u32> {
    match v {
        ValueModel::Number(t) => spec_token_u32(t),
        _ => None,
    }
}

/// One assignment applied to the tree.
pub open spec fn spec_apply_assign(d: DocModel, sel: Seq<char>, v: ValueModel) -> Option<DocModel> {
    match spec_select(d, sel) {
        SelectModel::Invalid => None,
        SelectModel::Target { root, key } => {
            if key.len() == 0 {
                None
            } else {
                Some(
                    match root {
                        RootModel::DataWindow => DocModel {
                            datawindow: map_insert(d.datawindow, key, v),
                            ..d
                        },
                        RootModel::Header => DocModel { header: map_insert(d.header, key, v), ..d },
                        RootModel::Summary => DocModel {
                            summary: map_insert(d.summary, key, v),
                            ..d
                        },
                        RootModel::Footer => DocModel { footer: map_insert(d.footer, key, v), ..d },
                        RootModel::Detail => DocModel { detail: map_insert(d.detail, key, v), ..d },
                        RootModel::ItemTable => DocModel {
                            table: TableModel { values: map_insert(d.table.values, key, v), ..d.table },
                            ..d
                        },
                        RootModel::Item(i) => {
                            let it = d.items[i];
                            let it2 = ItemModel {
                                name: if key == "name"@ {
                                    name_field_of(v)
                                } else {
                                    it.name
                                },
                                id: if key == "id"@ {
                                    id_field_of(v)
                                } else {
                                    it.id
                                },
                                values: map_insert(it.values, key, v),
                                ..it
                            };
                            DocModel { items: d.items.update(i, it2), ..d }
                        },
                        RootModel::ItemTableColumn(i) => {
                            let c = d.table.columns[i];
                            let c2 = crate::model::ColumnModel {
                                name: if key == "name"@ {
                                    name_field_of(v)
                                } else {
                                    c.name
                                },
                                values: map_insert(c.values, key, v),
                            };
                            DocModel {
                                table: TableModel { columns: d.table.columns.update(i, c2), ..d.table },
                                ..d
                            }
                        },
                    },
                )
            }
        },
    }
}

/// The first item a `create` upsert replaces: same kind, same name or
/// same id, and same level.
pub open spec fn spec_find_upsert(items: Seq<ItemModel>, it: ItemModel, from: int) -> Option<int>
    decreases items.len() - from,
{
    if !(0 <= from <= items.len()) {
        None
    } else if from == items.len() {
        None
    } else if items[from].kind == it.kind && (items[from].name == it.name || items[from].id
        == it.id) && items[from].level == it.level {
        Some(from)
    } else {
        spec_find_upsert(items, it, from + 1)
    }
}

/// One `create` applied to the tree: singleton kinds, the table and the
/// data clause replace wholesale; other kinds upsert.
pub open spec fn spec_apply_create(d: DocModel, it: SumItemModel) -> DocModel {
    match it {
        SumItemModel::Item(im) => {
            if im.kind == "datawindow"@ {
                DocModel { datawindow: im.values, ..d }
            } else if im.kind == "header"@ {
                DocModel { header: im.values, ..d }
            } else if im.kind == "summary"@ {
                DocModel { summary: im.values, ..d }
            } else if im.kind == "footer"@ {
                DocModel { footer: im.values, ..d }
            } else if im.kind == "detail"@ {
                DocModel { detail: im.values, ..d }
            } else {
                match spec_find_upsert(d.items, im, 0) {
                    Some(i) => DocModel { items: d.items.update(i, im), ..d },
                    None => DocModel { items: d.items.push(im), ..d },
                }
            }
        },
        SumItemModel::ItemTable(t) => DocModel { table: t, ..d },
        SumItemModel::ItemData(v) => DocModel { data: v, ..d },
    }
}

/// One item after a column at 1-based position `n` was destroyed: a
/// `column` item bound to it disappears; one bound to a later column has
/// its id, both the field and the stored property, decremented.
pub open spec fn spec_cascade_item(it: ItemModel, n: int) -> Option<ItemModel> {
    if it.kind == "column"@ && it.id is Some {
        let id = it.id->0;
        if id as int == n {
            None
        } else if id as int > n {
            Some(
                ItemModel {
                    id: Some((id - 1) as u32),
                    values: map_insert(
                        it.values,
                        "id"@,
                        ValueModel::Number(spec_dec((id - 1) as nat)),
                    ),
                    ..it
                },
            )
        } else {
            Some(it)
        }
    } else {
        Some(it)
    }
}

/// The item sequence after the cascade of destroying column `n`.
pub open spec fn spec_cascade(items: Seq<ItemModel>, n: int) -> Seq<ItemModel>
    decreases items.len(),
{
    if items.len() == 0 {
        Seq::empty()
    } else {
        let rest = spec_cascade(items.drop_first(), n);
        match spec_cascade_item(items[0], n) {
            None => rest,
            Some(it) => seq![it] + rest,
        }
    }
}

/// One `destroy` applied to the tree.
pub open spec fn spec_apply_destroy(d: DocModel, sel: Seq<char>) -> Option<DocModel> {
    match spec_select(d, sel) {
        SelectModel::Invalid => None,
        SelectModel::Target { root, key } => {
            if key.len() != 0 {
                None
            } else {
                Some(
                    match root {
                        RootModel::DataWindow => DocModel { datawindow: Seq::empty(), ..d },
                        RootModel::Header => DocModel { header: Seq::empty(), ..d },
                        RootModel::Summary => DocModel { summary: Seq::empty(), ..d },
                        RootModel::Footer => DocModel { footer: Seq::empty(), ..d },
                        RootModel::Detail => DocModel { detail: Seq::empty(), ..d },
                        RootModel::Item(i) => DocModel { items: d.items.remove(i), ..d },
                        RootModel::ItemTable => DocModel {
                            table: TableModel { columns: Seq::empty(), values: Seq::empty() },
                            ..d
                        },
                        RootModel::ItemTableColumn(i) => DocModel {
                            table: TableModel { columns: d.table.columns.remove(i), ..d.table },
                            items: spec_cascade(d.items, i + 1),
                            ..d
                        },
                    },
                )
            }
        },
    }
}

/// One statement applied to the tree; `None` is a reported error.
pub open spec fn spec_apply(d: DocModel, st: StatementModel) -> Option<DocModel> {
    match st {
        StatementModel::Assign(sel, v) => spec_apply_assign(d, sel, v),
        StatementModel::Create(it) => Some(spec_apply_create(d, it)),
        StatementModel::Destroy(sel) => spec_apply_destroy(d, sel),
    }
}

/// Statements applied in order; on the first failure the earlier effects
/// stay and the call reports the failure.
pub open spec fn spec_apply_all(d: DocModel, sts: Seq<StatementModel>) -> (DocModel, bool)
    decreases sts.len(),
{
    if sts.len() == 0 {
        (d, true)
    } else {
        match spec_apply(d, sts[0]) {
            None => (d, false),
            Some(d2) => spec_apply_all(d2, sts.drop_first()),
        }
    }
}

} // verus!
