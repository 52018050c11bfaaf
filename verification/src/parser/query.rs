//! The selector router and the query/mutation engine, proved equal to
//! the semantics of [`crate::selector`].

use vstd::prelude::*;
use super::ParseError;
use crate::ast::{DWSyntax, Item, ItemTableColumn, columns_model, items_model, opt_key_model};
use crate::grammar::PRes;
use crate::key::Key;
use crate::model::{extract_u32, map_insert, ColumnModel, DocModel, ItemModel, ValueModel};
use crate::selector::{
    spec_find, spec_find_column, spec_find_group, spec_find_item, spec_find_item_by_id,
    spec_find_item_by_name, spec_join_key, spec_route, spec_sel_component, spec_sel_more,
    spec_select, spec_selector, FindModel, RootModel, SelectModel, group_level_matches,
};
use crate::text::{
    chars_substring, scan_name_chars, scan_numeric_chars, skip_ws, str_eq, str_to_chars,
    token_u32,
};
use crate::value::Value;

verus! {

broadcast use vstd::string::group_string_axioms;

/// The models of a vector of component strings.
pub open spec fn strings_model(v: Seq<String>) -> Seq<Seq<char>> {
    Seq::new(v.len(), |i: int| if 0 <= i < v.len() {
        v[i]@
    } else {
        Seq::empty()
    })
}

/// One selector component.
fn sel_component(s: &Vec<char>, pos: usize) -> (r: Option<(usize, String)>)
    requires
        pos <= s@.len(),
    ensures
        match r {
            Some((next, c)) => pos < next <= s@.len() && spec_sel_component(s@, pos as int)
                == (PRes::Val { next: next as int, v: c@ }),
            None => spec_sel_component(s@, pos as int) is Fail,
        },
{
    if pos < s.len() && (s[pos].is_alphabetic() || s[pos] == '#') {
        let e = scan_name_chars(s, pos);
        proof {
            assert(crate::text::is_name_char(s@[pos as int]));
            crate::text::lemma_scan_bounds(
                s@,
                pos + 1 as int,
                |c: char| crate::text::is_name_char(c),
            );
        }
        Some((e, chars_substring(s, pos, e)))
    } else if pos < s.len() && s[pos].is_numeric() {
        let e = scan_numeric_chars(s, pos);
        proof {
            crate::text::lemma_scan_bounds(
                s@,
                pos + 1 as int,
                |c: char| crate::text::unicode_numeric(c),
            );
        }
        Some((e, chars_substring(s, pos, e)))
    } else {
        None
    }
}

/// Split a whole selector into components.
fn selector_components(s: &Vec<char>) -> (r: Option<Vec<String>>)
    ensures
        match r {
            Some(comps) => spec_selector(s@) == Some(strings_model(comps@)) && comps@.len() >= 1,
            None => spec_selector(s@) is None,
        },
{
    let p0 = skip_ws(s, 0);
    let (mut pos, first) = match sel_component(s, p0) {
        Some(v) => v,
        None => {
            return None;
        },
    };
    let mut comps: Vec<String> = Vec::new();
    comps.push(first);
    proof {
        assert(strings_model(comps@) =~= seq![comps@[0]@]);
    }
    let ghost init = strings_model(comps@);
    let ghost start = pos as int;
    loop
        invariant
            pos <= s@.len(),
            comps@.len() >= 1,
            spec_sel_more(s@, pos as int, strings_model(comps@)) == spec_sel_more(
                s@,
                start,
                init,
            ),
        ensures
            pos <= s@.len(),
            spec_sel_more(s@, start, init) == (PRes::Val {
                next: pos as int,
                v: strings_model(comps@),
            }),
        decreases s@.len() - pos,
    {
        if pos < s.len() && s[pos] == '.' {
            match sel_component(s, pos + 1) {
                Some((next, c)) => {
                    let ghost before = strings_model(comps@);
                    comps.push(c);
                    proof {
                        assert(strings_model(comps@) =~= before.push(
                            comps@[comps@.len() - 1]@,
                        ));
                    }
                    pos = next;
                },
                None => {
                    break ;
                },
            }
        } else {
            break ;
        }
    }
    let p2 = skip_ws(s, pos);
    if p2 == s.len() {
        Some(comps)
    } else {
        None
    }
}

/// A routed container.
#[derive(Debug)]
pub enum SelectRoot {
    DataWindow,
    Header,
    Summary,
    Footer,
    Detail,
    Item(usize),
    ItemTable,
    ItemTableColumn(usize),
}

impl SelectRoot {
    pub open spec fn model(self) -> RootModel {
        match self {
            SelectRoot::DataWindow => RootModel::DataWindow,
            SelectRoot::Header => RootModel::Header,
            SelectRoot::Summary => RootModel::Summary,
            SelectRoot::Footer => RootModel::Footer,
            SelectRoot::Detail => RootModel::Detail,
            SelectRoot::Item(i) => RootModel::Item(i as int),
            SelectRoot::ItemTable => RootModel::ItemTable,
            SelectRoot::ItemTableColumn(i) => RootModel::ItemTableColumn(i as int),
        }
    }
}

/// A resolved selector: the container and the remaining key.
pub struct SelectResult {
    pub root: SelectRoot,
    pub key: String,
}

/// Whether a routed root's index lies inside the tree it points into.
pub open spec fn root_in_bounds(d: DocModel, root: RootModel) -> bool {
    match root {
        RootModel::Item(i) => 0 <= i < d.items.len(),
        RootModel::ItemTableColumn(i) => 0 <= i < d.table.columns.len(),
        _ => true,
    }
}

/// The first `group` item of the given level.
fn find_group(items: &Vec<Item>, level: u32) -> (r: Option<usize>)
    ensures
        match r {
            Some(i) => i < items@.len() && spec_find_group(items_model(items@), level, 0)
                == Some(i as int),
            None => spec_find_group(items_model(items@), level, 0) is None,
        },
{
    let n = items.len();
    let mut i: usize = 0;
    while i < n
        invariant
            0 <= i <= n,
            n == items@.len(),
            spec_find_group(items_model(items@), level, 0) == spec_find_group(
                items_model(items@),
                level,
                i as int,
            ),
        decreases n - i,
    {
        if items[i].kind.is("group") {
            match items[i].values.get("level") {
                Some(v) => match v.as_number() {
                    Some(t) => match token_u32(t.as_str()) {
                        Some(l) => {
                            if l == level {
                                proof {
                                    assert(group_level_matches(
                                        items_model(items@)[i as int].values,
                                        level,
                                    ));
                                }
                                return Some(i);
                            }
                        },
                        None => {},
                    },
                    None => {},
                },
                None => {},
            }
        }
        proof {
            assert(!(items_model(items@)[i as int].kind == "group"@ && group_level_matches(
                items_model(items@)[i as int].values,
                level,
            )));
        }
        i = i + 1;
    }
    None
}

/// The first column with the given name.
fn find_table_column(cols: &Vec<ItemTableColumn>, name: &str) -> (r: Option<usize>)
    ensures
        match r {
            Some(i) => i < cols@.len() && spec_find_column(columns_model(cols@), name@, 0)
                == Some(i as int),
            None => spec_find_column(columns_model(cols@), name@, 0) is None,
        },
{
    let n = cols.len();
    let mut i: usize = 0;
    while i < n
        invariant
            0 <= i <= n,
            n == cols@.len(),
            spec_find_column(columns_model(cols@), name@, 0) == spec_find_column(
                columns_model(cols@),
                name@,
                i as int,
            ),
        decreases n - i,
    {
        match &cols[i].name {
            Some(k) => {
                if str_eq(k.as_str(), name) {
                    return Some(i);
                }
            },
            None => {},
        }
        i = i + 1;
    }
    None
}

/// The first item matched by a name or a `#<id>` reference.
fn find_item(items: &Vec<Item>, name: &str) -> (r: Option<usize>)
    ensures
        match r {
            Some(i) => i < items@.len() && spec_find_item(items_model(items@), name@) == Some(
                i as int,
            ),
            None => spec_find_item(items_model(items@), name@) is None,
        },
{
    let chars = str_to_chars(name);
    if chars.len() > 0 && chars[0] == '#' {
        let digits = chars_substring(&chars, 1, chars.len());
        proof {
            assert(digits@ =~= name@.skip(1));
        }
        match token_u32(digits.as_str()) {
            Some(id) => {
                let n = items.len();
                let mut i: usize = 0;
                while i < n
                    invariant
                        0 <= i <= n,
                        n == items@.len(),
                        name@.len() > 0 && name@[0] == '#',
                        crate::text::spec_token_u32(name@.skip(1)) == Some(id),
                        spec_find_item_by_id(items_model(items@), id, 0) == spec_find_item_by_id(
                            items_model(items@),
                            id,
                            i as int,
                        ),
                    decreases n - i,
                {
                    match &items[i].id {
                        Some(v) => {
                            if *v == id {
                                return Some(i);
                            }
                        },
                        None => {},
                    }
                    i = i + 1;
                }
                None
            },
            None => None,
        }
    } else {
        let n = items.len();
        let mut i: usize = 0;
        while i < n
            invariant
                0 <= i <= n,
                n == items@.len(),
                name@.len() == 0 || name@[0] != '#',
                spec_find_item_by_name(items_model(items@), name@, 0) == spec_find_item_by_name(
                    items_model(items@),
                    name@,
                    i as int,
                ),
            decreases n - i,
        {
            match &items[i].name {
                Some(k) => {
                    if str_eq(k.as_str(), name) {
                        return Some(i);
                    }
                },
                None => {},
            }
            i = i + 1;
        }
        None
    }
}

/// Join the remaining components to the final key.
fn join_key(prefix: String, comps: &Vec<String>, from: usize) -> (r: String)
    requires
        from <= comps@.len(),
    ensures
        r@ == spec_join_key(prefix@, strings_model(comps@), from as int),
{
    let mut cur = prefix;
    let mut i: usize = from;
    while i < comps.len()
        invariant
            from <= i <= comps@.len(),
            spec_join_key(cur@, strings_model(comps@), i as int) == spec_join_key(
                prefix@,
                strings_model(comps@),
                from as int,
            ),
        decreases comps@.len() - i,
    {
        if cur.as_str().unicode_len() != 0 {
            let mut next = cur;
            next.append(".");
            next.append(comps[i].as_str());
            cur = next;
        } else {
            let mut next = String::new();
            next.append(comps[i].as_str());
            proof {
                assert(next@ =~= comps@[i as int]@);
            }
            cur = next;
        }
        i = i + 1;
    }
    cur
}

/// Resolve a selector to a container and final key.
pub fn select(syn: &DWSyntax, input: &Vec<char>) -> (r: Result<SelectResult, ParseError>)
    ensures
        match r {
            Ok(sr) => spec_select(syn.model(), input@) == (SelectModel::Target {
                root: sr.root.model(),
                key: sr.key@,
            }) && root_in_bounds(syn.model(), sr.root.model()),
            Err(_) => spec_select(syn.model(), input@) is Invalid,
        },
{
    let comps = match selector_components(input) {
        Some(c) => c,
        None => {
            return Err(ParseError::at(0, false, "selector"));
        },
    };
    let ghost cm = strings_model(comps@);
    proof {
        assert(cm.len() == comps@.len());
        assert(forall|j: int| 0 <= j < cm.len() ==> cm[j] == #[trigger] comps@[j]@);
    }
    if str_eq(comps[0].as_str(), "datawindow") {
        if comps.len() < 2 {
            return Err(ParseError::at(0, false, "selector"));
        }
        let c1 = comps[1].as_str();
        if str_eq(c1, "header") {
            let r = select_band(syn, &comps, SelectRoot::Header, "header");
            proof {
                assert(spec_route(syn.model(), cm) == crate::selector::spec_route_band(
                    syn.model(),
                    cm,
                    RootModel::Header,
                    "header"@,
                ));
            }
            r
        } else if str_eq(c1, "footer") {
            let r = select_band(syn, &comps, SelectRoot::Footer, "footer");
            proof {
                assert(spec_route(syn.model(), cm) == crate::selector::spec_route_band(
                    syn.model(),
                    cm,
                    RootModel::Footer,
                    "footer"@,
                ));
            }
            r
        } else if str_eq(c1, "trailer") {
            let r = select_group(syn, &comps, "trailer");
            proof {
                assert(spec_route(syn.model(), cm) == crate::selector::spec_route_group(
                    syn.model(),
                    cm,
                    "trailer"@,
                ));
            }
            r
        } else if str_eq(c1, "group") {
            let r = select_group(syn, &comps, "");
            proof {
                reveal_strlit("");
                assert(""@ =~= Seq::<char>::empty());
                assert(spec_route(syn.model(), cm) == crate::selector::spec_route_group(
                    syn.model(),
                    cm,
                    Seq::empty(),
                ));
            }
            r
        } else if str_eq(c1, "summary") {
            let key = join_key(String::new(), &comps, 2);
            proof {
                assert(spec_route(syn.model(), cm) == (SelectModel::Target {
                    root: RootModel::Summary,
                    key: spec_join_key(Seq::empty(), cm, 2),
                }));
            }
            Ok(SelectResult { root: SelectRoot::Summary, key })
        } else if str_eq(c1, "detail") {
            let key = join_key(String::new(), &comps, 2);
            proof {
                assert(spec_route(syn.model(), cm) == (SelectModel::Target {
                    root: RootModel::Detail,
                    key: spec_join_key(Seq::empty(), cm, 2),
                }));
            }
            Ok(SelectResult { root: SelectRoot::Detail, key })
        } else if str_eq(c1, "table") {
            let r = select_table(syn, &comps);
            proof {
                assert(spec_route(syn.model(), cm) == crate::selector::spec_route_table(
                    syn.model(),
                    cm,
                ));
            }
            r
        } else {
            let prefix = comps[1].clone();
            let key = join_key(prefix, &comps, 2);
            proof {
                assert(spec_route(syn.model(), cm) == (SelectModel::Target {
                    root: RootModel::DataWindow,
                    key: spec_join_key(cm[1], cm, 2),
                }));
                assert(key@ == spec_join_key(cm[1], cm, 2));
            }
            Ok(SelectResult { root: SelectRoot::DataWindow, key })
        }
    } else {
        match find_item(&syn.items, comps[0].as_str()) {
            None => Err(ParseError::at(0, false, "selector")),
            Some(i) => {
                proof {
                    assert(syn.model().items[i as int] == syn.items@[i as int].model());
                }
                let is_col = syn.items[i].kind.is("column") && syn.items[i].id.is_some();
                if comps.len() == 2 && is_col {
                    let c1 = comps[1].as_str();
                    if str_eq(c1, "coltype") || str_eq(c1, "dbname") {
                        let id = match &syn.items[i].id {
                            Some(v) => *v,
                            None => 0,  // unreachable: the root is a column item
                        };
                        let idx = id as usize;
                        if idx >= 1 && idx <= syn.table.columns.len() {
                            let key = if str_eq(c1, "coltype") {
                                let mut k = String::new();
                                k.append("type");
                                proof {
                                    assert(k@ =~= "type"@);
                                }
                                k
                            } else {
                                comps[1].clone()
                            };
                            proof {
                                assert(spec_route(syn.model(), cm) == (SelectModel::Target {
                                    root: RootModel::ItemTableColumn(idx - 1),
                                    key: key@,
                                }));
                            }
                            Ok(SelectResult { root: SelectRoot::ItemTableColumn(idx - 1), key })
                        } else {
                            Err(ParseError::at(0, false, "selector"))
                        }
                    } else {
                        let key = comps[1].clone();
                        proof {
                            assert(key@ == cm[1]);
                        }
                        Ok(SelectResult { root: SelectRoot::Item(i), key })
                    }
                } else {
                    let key = join_key(String::new(), &comps, 1);
                    proof {
                        assert(key@ == spec_join_key(Seq::empty(), cm, 1));
                    }
                    Ok(SelectResult { root: SelectRoot::Item(i), key })
                }
            },
        }
    }
}

/// `datawindow.header` / `datawindow.footer` routing.
fn select_band(syn: &DWSyntax, comps: &Vec<String>, root: SelectRoot, prefix: &str) -> (r: Result<
    SelectResult,
    ParseError,
>)
    requires
        comps@.len() >= 2,
        root is Header || root is Footer,
        root is Header ==> prefix@ == "header"@,
        root is Footer ==> prefix@ == "footer"@,
    ensures
        match r {
            Ok(sr) => crate::selector::spec_route_band(
                syn.model(),
                strings_model(comps@),
                root.model(),
                prefix@,
            ) == (SelectModel::Target { root: sr.root.model(), key: sr.key@ }) && root_in_bounds(
                syn.model(),
                sr.root.model(),
            ),
            Err(_) => crate::selector::spec_route_band(
                syn.model(),
                strings_model(comps@),
                root.model(),
                prefix@,
            ) is Invalid,
        },
{
    if comps.len() >= 3 {
        match token_u32(comps[2].as_str()) {
            Some(level) => match find_group(&syn.items, level) {
                Some(i) => {
                    let mut p = String::new();
                    p.append(prefix);
                    let key = join_key(p, comps, 3);
                    Ok(SelectResult { root: SelectRoot::Item(i), key })
                },
                None => Err(ParseError::at(0, false, "selector")),
            },
            None => {
                let key = join_key(comps[2].clone(), comps, 3);
                Ok(SelectResult { root, key })
            },
        }
    } else {
        Ok(SelectResult { root, key: String::new() })
    }
}

/// `datawindow.trailer` / `datawindow.group` routing.
fn select_group(syn: &DWSyntax, comps: &Vec<String>, prefix: &str) -> (r: Result<
    SelectResult,
    ParseError,
>)
    requires
        comps@.len() >= 2,
    ensures
        match r {
            Ok(sr) => crate::selector::spec_route_group(
                syn.model(),
                strings_model(comps@),
                prefix@,
            ) == (SelectModel::Target { root: sr.root.model(), key: sr.key@ }) && root_in_bounds(
                syn.model(),
                sr.root.model(),
            ),
            Err(_) => crate::selector::spec_route_group(
                syn.model(),
                strings_model(comps@),
                prefix@,
            ) is Invalid,
        },
{
    if comps.len() >= 3 {
        match token_u32(comps[2].as_str()) {
            Some(level) => match find_group(&syn.items, level) {
                Some(i) => {
                    let mut p = String::new();
                    p.append(prefix);
                    let key = join_key(p, comps, 3);
                    Ok(SelectResult { root: SelectRoot::Item(i), key })
                },
                None => Err(ParseError::at(0, false, "selector")),
            },
            None => Err(ParseError::at(0, false, "selector")),
        }
    } else {
        Err(ParseError::at(0, false, "selector"))
    }
}

/// `datawindow.table` routing, with the optional column sub-route.
fn select_table(syn: &DWSyntax, comps: &Vec<String>) -> (r: Result<SelectResult, ParseError>)
    requires
        comps@.len() >= 2,
    ensures
        match r {
            Ok(sr) => crate::selector::spec_route_table(syn.model(), strings_model(comps@))
                == (SelectModel::Target { root: sr.root.model(), key: sr.key@ }) && root_in_bounds(
                syn.model(),
                sr.root.model(),
            ),
            Err(_) => crate::selector::spec_route_table(
                syn.model(),
                strings_model(comps@),
            ) is Invalid,
        },
{
    if comps.len() >= 4 && str_eq(comps[2].as_str(), "column") {
        match token_u32(comps[3].as_str()) {
            Some(idx) => {
                if idx >= 1 && (idx as usize) <= syn.table.columns.len() {
                    let key = join_key(String::new(), comps, 4);
                    Ok(SelectResult { root: SelectRoot::ItemTableColumn(idx as usize - 1), key })
                } else {
                    Err(ParseError::at(0, false, "selector"))
                }
            },
            None => match find_table_column(&syn.table.columns, comps[3].as_str()) {
                Some(i) => {
                    let key = join_key(String::new(), comps, 4);
                    Ok(SelectResult { root: SelectRoot::ItemTableColumn(i), key })
                },
                None => Err(ParseError::at(0, false, "selector")),
            },
        }
    } else if comps.len() >= 3 {
        let key = join_key(comps[2].clone(), comps, 3);
        Ok(SelectResult { root: SelectRoot::ItemTable, key })
    } else {
        Ok(SelectResult { root: SelectRoot::ItemTable, key: String::new() })
    }
}

/// Find the value a selector addresses, if any.
pub fn find<'a>(syn: &'a DWSyntax, input: &str) -> (r: Result<Option<&'a Value>, ParseError>)
    ensures
        match r {
            Ok(Some(v)) => spec_find(syn.model(), input@) == FindModel::Found(v.model()),
            Ok(None) => spec_find(syn.model(), input@) is Missing,
            Err(_) => spec_find(syn.model(), input@) is Invalid,
        },
{
    let chars = str_to_chars(input);
    let sr = match select(syn, &chars) {
        Ok(sr) => sr,
        Err(e) => {
            return Err(e);
        },
    };
    if sr.key.as_str().unicode_len() == 0 {
        return Ok(None);
    }
    let values = match sr.root {
        SelectRoot::DataWindow => &syn.datawindow,
        SelectRoot::Header => &syn.header,
        SelectRoot::Summary => &syn.summary,
        SelectRoot::Footer => &syn.footer,
        SelectRoot::Detail => &syn.detail,
        SelectRoot::Item(i) => &syn.items[i].values,
        SelectRoot::ItemTable => &syn.table.values,
        SelectRoot::ItemTableColumn(i) => &syn.table.columns[i].values,
    };
    let rv = values.get(sr.key.as_str());
    proof {
        assert(values.model() == crate::selector::spec_root_values(
            syn.model(),
            sr.root.model(),
        ));
    }
    Ok(rv)
}

/// Find the value a selector addresses: the routed lookup behind
/// `describe`.
pub fn describe<'a>(syn: &'a DWSyntax, input: &str) -> (r: Result<Option<&'a Value>, ParseError>)
    ensures
        match r {
            Ok(Some(v)) => spec_find(syn.model(), input@) == FindModel::Found(v.model()),
            Ok(None) => spec_find(syn.model(), input@) is Missing,
            Err(_) => spec_find(syn.model(), input@) is Invalid,
        },
{
    find(syn, input)
}

/// One parsed `modify` statement.
pub enum Statement {
    Assign(String, Value),
    Create(super::item::SumItem),
    Destroy(String),
}

impl Statement {
    pub open spec fn model(self) -> crate::selector::StatementModel {
        match self {
            Statement::Assign(sel, v) => crate::selector::StatementModel::Assign(sel@, v.model()),
            Statement::Create(it) => crate::selector::StatementModel::Create(it.model()),
            Statement::Destroy(sel) => crate::selector::StatementModel::Destroy(sel@),
        }
    }
}

/// Well-formedness of what one statement carries.
pub open spec fn statement_wf(st: crate::selector::StatementModel) -> bool {
    match st {
        crate::selector::StatementModel::Assign(_, v) => crate::model::value_wf(v),
        crate::selector::StatementModel::Create(it) => crate::grammar::sum_item_wf(it),
        crate::selector::StatementModel::Destroy(_) => true,
    }
}

/// The models of a vector of statements.
pub open spec fn stmts_model(v: Seq<Statement>) -> Seq<crate::selector::StatementModel> {
    Seq::new(v.len(), |i: int| if 0 <= i < v.len() {
        v[i].model()
    } else {
        crate::selector::StatementModel::Destroy(Seq::empty())
    })
}

/// One statement: an assignment, a `create` or a `destroy`.
fn statement(s: &Vec<char>, pos: usize) -> (r: Result<(usize, Statement), ParseError>)
    requires
        pos <= s@.len(),
    ensures
        match r {
            Ok((next, st)) => pos < next <= s@.len() && crate::selector::spec_statement(
                s@,
                pos as int,
            ) == (PRes::Val { next: next as int, v: st.model() }) && statement_wf(st.model()),
            Err(e) => crate::selector::spec_statement(s@, pos as int) == (if e.hard {
                PRes::<crate::selector::StatementModel>::Hard
            } else {
                PRes::<crate::selector::StatementModel>::Fail
            }),
        },
{
    // assignment first
    let e = crate::text::scan_selector_chars(s, pos);
    if e > pos {
        let eq = skip_ws(s, e);
        if eq < s.len() && s[eq] == '=' {
            let vp = skip_ws(s, eq + 1);
            match super::value::value(s, vp) {
                Ok((next, v)) => {
                    let sel = chars_substring(s, pos, e);
                    return Ok((next, Statement::Assign(sel, v)));
                },
                Err(err) => {
                    let mut err = err.within("assign");
                    err.hard = true;
                    return Err(err);
                },
            }
        }
    }
    // then a create statement
    if crate::text::match_tag(s, pos, "create") {
        // materialize the length so the index arithmetic is known in bounds
        let _n = s.len();
        proof {
            reveal_strlit("create");
        }
        let p1 = skip_ws(s, pos + 6);
        if p1 > pos + 6 {
            match super::item::item(s, p1) {
                Ok((next, it)) => {
                    return Ok((next, Statement::Create(it)));
                },
                Err(err) => {
                    if err.hard {
                        return Err(err.within("create"));
                    }
                },
            }
        }
    }
    // then a destroy statement
    if crate::text::match_tag(s, pos, "destroy") {
        // materialize the length so the index arithmetic is known in bounds
        let _n = s.len();
        proof {
            reveal_strlit("destroy");
        }
        let p1 = skip_ws(s, pos + 7);
        if p1 > pos + 7 {
            let e2 = crate::text::scan_selector_chars(s, p1);
            if e2 > p1 {
                let sel = chars_substring(s, p1, e2);
                return Ok((e2, Statement::Destroy(sel)));
            }
        }
    }
    Err(ParseError::at(pos, false, "statement"))
}

/// Further statements of one `modify` call.
fn statements_more(s: &Vec<char>, pos: usize, sts: Vec<Statement>) -> (r: Result<
    (usize, Vec<Statement>),
    ParseError,
>)
    requires
        pos <= s@.len(),
        forall|i: int| 0 <= i < sts@.len() ==> statement_wf(#[trigger] stmts_model(sts@)[i]),
    ensures
        match r {
            Ok((next, sts2)) => pos <= next <= s@.len()
                && crate::selector::spec_statements_more(s@, pos as int, stmts_model(sts@))
                == (PRes::Val { next: next as int, v: (next as int, stmts_model(sts2@)) })
                && forall|i: int| 0 <= i < sts2@.len() ==> statement_wf(
                #[trigger] stmts_model(sts2@)[i],
            ),
            Err(e) => e.hard && crate::selector::spec_statements_more(
                s@,
                pos as int,
                stmts_model(sts@),
            ) is Hard,
        },
    decreases s@.len() - pos,
{
    let w1 = skip_ws(s, pos);
    let sep: Option<usize> = if w1 < s.len() && s[w1] == ';' {
        Some(skip_ws(s, w1 + 1))
    } else if w1 > pos {
        Some(w1)
    } else {
        None
    };
    match sep {
        None => Ok((pos, sts)),
        Some(p1) => {
            match statement(s, p1) {
                Ok((next, st)) => {
                    let ghost before = stmts_model(sts@);
                    let mut sts = sts;
                    sts.push(st);
                    proof {
                        assert(stmts_model(sts@) =~= before.push(sts@[sts@.len() - 1].model()));
                    }
                    statements_more(s, next, sts)
                },
                Err(e) => {
                    if e.hard {
                        Err(e)
                    } else {
                        Ok((pos, sts))
                    }
                },
            }
        },
    }
}

/// The whole statement list of one `modify` call.
fn statements(s: &Vec<char>) -> (r: Result<Vec<Statement>, ParseError>)
    ensures
        match r {
            Ok(sts) => crate::selector::spec_statements(s@) == Some(stmts_model(sts@)) && forall|
                i: int,
            | 0 <= i < sts@.len() ==> statement_wf(#[trigger] stmts_model(sts@)[i]),
            Err(_) => crate::selector::spec_statements(s@) is None,
        },
{
    let p0 = skip_ws(s, 0);
    let (pos, first) = match statement(s, p0) {
        Ok(v) => v,
        Err(e) => {
            return Err(e);
        },
    };
    let mut sts: Vec<Statement> = Vec::new();
    sts.push(first);
    proof {
        assert(stmts_model(sts@) =~= seq![sts@[0].model()]);
    }
    let (p2, sts) = match statements_more(s, pos, sts) {
        Ok(v) => v,
        Err(e) => {
            return Err(e);
        },
    };
    let p3 = skip_ws(s, p2);
    let p4 = if p3 < s.len() && s[p3] == ';' {
        p3 + 1
    } else {
        p3
    };
    let p5 = skip_ws(s, p4);
    if p5 == s.len() {
        Ok(sts)
    } else {
        Err(ParseError::at(p5, false, "statement"))
    }
}

/// Apply one assignment.
fn apply_assign(syn: &mut DWSyntax, sel: String, v: Value) -> (r: Result<(), ParseError>)
    requires
        old(syn).wf(),
        crate::model::value_wf(v.model()),
    ensures
        final(syn).wf(),
        match r {
            Ok(_) => crate::selector::spec_apply_assign(old(syn).model(), sel@, v.model())
                == Some(final(syn).model()),
            Err(_) => crate::selector::spec_apply_assign(
                old(syn).model(),
                sel@,
                v.model(),
            ) is None && *final(syn) == *old(syn),
        },
{
    let chars = str_to_chars(sel.as_str());
    let sr = match select(syn, &chars) {
        Ok(sr) => sr,
        Err(e) => {
            return Err(e);
        },
    };
    if sr.key.as_str().unicode_len() == 0 {
        return Err(ParseError::at(0, false, "assign"));
    }
    let ghost key_spec = sr.key@;
    let ghost v_spec = v.model();
    let ghost d0 = syn.model();
    match sr.root {
        SelectRoot::DataWindow => {
            proof {
                crate::model::lemma_map_insert_wf(syn.model().datawindow, key_spec, v_spec);
            }
            syn.datawindow.insert(Key(sr.key), v);
            proof {
                assert(syn.model() =~= crate::selector::spec_apply_assign(
                    d0,
                    sel@,
                    v_spec,
                )->Some_0);
            }
        },
        SelectRoot::Header => {
            proof {
                crate::model::lemma_map_insert_wf(syn.model().header, key_spec, v_spec);
            }
            syn.header.insert(Key(sr.key), v);
            proof {
                assert(syn.model() =~= crate::selector::spec_apply_assign(
                    d0,
                    sel@,
                    v_spec,
                )->Some_0);
            }
        },
        SelectRoot::Summary => {
            proof {
                crate::model::lemma_map_insert_wf(syn.model().summary, key_spec, v_spec);
            }
            syn.summary.insert(Key(sr.key), v);
            proof {
                assert(syn.model() =~= crate::selector::spec_apply_assign(
                    d0,
                    sel@,
                    v_spec,
                )->Some_0);
            }
        },
        SelectRoot::Footer => {
            proof {
                crate::model::lemma_map_insert_wf(syn.model().footer, key_spec, v_spec);
            }
            syn.footer.insert(Key(sr.key), v);
            proof {
                assert(syn.model() =~= crate::selector::spec_apply_assign(
                    d0,
                    sel@,
                    v_spec,
                )->Some_0);
            }
        },
        SelectRoot::Detail => {
            proof {
                crate::model::lemma_map_insert_wf(syn.model().detail, key_spec, v_spec);
            }
            syn.detail.insert(Key(sr.key), v);
            proof {
                assert(syn.model() =~= crate::selector::spec_apply_assign(
                    d0,
                    sel@,
                    v_spec,
                )->Some_0);
            }
        },
        SelectRoot::ItemTable => {
            proof {
                crate::model::lemma_map_insert_wf(syn.model().table.values, key_spec, v_spec);
            }
            syn.table.values.insert(Key(sr.key), v);
            proof {
                assert(syn.model() =~= crate::selector::spec_apply_assign(
                    d0,
                    sel@,
                    v_spec,
                )->Some_0);
            }
        },
        SelectRoot::Item(i) => {
            proof {
                assert(d0.items[i as int] == syn.items@[i as int].model());
                crate::model::lemma_map_insert_wf(
                    syn.items@[i as int].values.model(),
                    key_spec,
                    v_spec,
                );
                if key_spec != "name"@ {
                    crate::model::lemma_map_insert_other(
                        syn.items@[i as int].values.model(),
                        key_spec,
                        v_spec,
                        "name"@,
                    );
                }
                if key_spec != "id"@ {
                    crate::model::lemma_map_insert_other(
                        syn.items@[i as int].values.model(),
                        key_spec,
                        v_spec,
                        "id"@,
                    );
                }
            }
            let new_name: Option<Key> = match v.as_literal() {
                Some(t) => Some(Key(t.clone())),
                None => None,
            };
            let new_id: Option<u32> = match v.as_number() {
                Some(t) => token_u32(t.as_str()),
                None => None,
            };
            proof {
                assert(opt_key_model(new_name) == crate::selector::name_field_of(v_spec));
                assert(new_id == crate::selector::id_field_of(v_spec));
            }
            let key_is_name = str_eq(sr.key.as_str(), "name");
            let key_is_id = str_eq(sr.key.as_str(), "id");
            let item_x = syn.items.remove(i);
            let Item { kind: kind_x, name: name_x, id: id_x, level: level_x, values: mut values_x } =
                item_x;
            values_x.insert(Key(sr.key), v);
            let name2 = if key_is_name {
                new_name
            } else {
                name_x
            };
            let id2 = if key_is_id {
                new_id
            } else {
                id_x
            };
            syn.items.insert(
                i,
                Item { kind: kind_x, name: name2, id: id2, level: level_x, values: values_x },
            );
            proof {
                assert(syn.items@ =~= old(syn).items@.update(i as int, syn.items@[i as int]));
                let target = crate::selector::spec_apply_assign(d0, sel@, v_spec)->Some_0;
                assert forall|j: int| 0 <= j < syn.items@.len() implies items_model(syn.items@)[j]
                    == target.items[j] by {
                    assert(items_model(syn.items@)[j] == syn.items@[j].model());
                    if j != i {
                        assert(d0.items[j] == old(syn).items@[j].model());
                    } else {
                        assert(syn.items@[i as int].values.model() == map_insert(
                            d0.items[i as int].values,
                            key_spec,
                            v_spec,
                        ));
                        if key_spec == "name"@ {
                            assert(opt_key_model(syn.items@[i as int].name)
                                == crate::selector::name_field_of(v_spec));
                        } else {
                            assert(syn.items@[i as int].name == old(syn).items@[i as int].name);
                        }
                        if key_spec == "id"@ {
                            assert(syn.items@[i as int].id == crate::selector::id_field_of(
                                v_spec,
                            ));
                        } else {
                            assert(syn.items@[i as int].id == old(syn).items@[i as int].id);
                        }
                    }
                }
                assert(items_model(syn.items@) =~= target.items);
                assert(syn.model() =~= target);
            }
        },
        SelectRoot::ItemTableColumn(i) => {
            proof {
                assert(d0.table.columns[i as int] == syn.table.columns@[i as int].model());
                crate::model::lemma_map_insert_wf(
                    syn.table.columns@[i as int].values.model(),
                    key_spec,
                    v_spec,
                );
                if key_spec != "name"@ {
                    crate::model::lemma_map_insert_other(
                        syn.table.columns@[i as int].values.model(),
                        key_spec,
                        v_spec,
                        "name"@,
                    );
                }
            }
            let key_is_name = str_eq(sr.key.as_str(), "name");
            let new_name: Option<Key> = match v.as_literal() {
                Some(t) => Some(Key(t.clone())),
                None => None,
            };
            let col_x = syn.table.columns.remove(i);
            let ItemTableColumn { name: name_x, values: mut values_x } = col_x;
            values_x.insert(Key(sr.key), v);
            let name2 = if key_is_name {
                new_name
            } else {
                name_x
            };
            syn.table.columns.insert(i, ItemTableColumn { name: name2, values: values_x });
            proof {
                assert(syn.table.columns@ =~= old(syn).table.columns@.update(
                    i as int,
                    syn.table.columns@[i as int],
                ));
                let target = crate::selector::spec_apply_assign(d0, sel@, v_spec)->Some_0;
                assert forall|j: int| 0 <= j < syn.table.columns@.len() implies columns_model(
                    syn.table.columns@,
                )[j] == target.table.columns[j] by {
                    assert(columns_model(syn.table.columns@)[j]
                        == syn.table.columns@[j].model());
                    if j != i {
                        assert(d0.table.columns[j] == old(syn).table.columns@[j].model());
                    }
                }
                assert(columns_model(syn.table.columns@) =~= target.table.columns);
                assert(syn.model() =~= target);
            }
        },
    }
    Ok(())
}

/// The first item a `create` upsert replaces.
fn find_upsert(items: &Vec<Item>, im: &Item) -> (r: Option<usize>)
    ensures
        match r {
            Some(i) => i < items@.len() && crate::selector::spec_find_upsert(
                items_model(items@),
                im.model(),
                0,
            ) == Some(i as int),
            None => crate::selector::spec_find_upsert(items_model(items@), im.model(), 0) is None,
        },
{
    let n = items.len();
    let mut i: usize = 0;
    while i < n
        invariant
            0 <= i <= n,
            n == items@.len(),
            crate::selector::spec_find_upsert(items_model(items@), im.model(), 0)
                == crate::selector::spec_find_upsert(items_model(items@), im.model(), i as int),
        decreases n - i,
    {
        let kind_eq = str_eq(items[i].kind.as_str(), im.kind.as_str());
        let name_eq = match (&items[i].name, &im.name) {
            (Some(a), Some(b)) => str_eq(a.as_str(), b.as_str()),
            (None, None) => true,
            _ => false,
        };
        let id_eq = match (&items[i].id, &im.id) {
            (Some(a), Some(b)) => *a == *b,
            (None, None) => true,
            _ => false,
        };
        let level_eq = match (&items[i].level, &im.level) {
            (Some(a), Some(b)) => *a == *b,
            (None, None) => true,
            _ => false,
        };
        if kind_eq && (name_eq || id_eq) && level_eq {
            proof {
                assert(items_model(items@)[i as int] == items@[i as int].model());
            }
            return Some(i);
        }
        proof {
            assert(items_model(items@)[i as int] == items@[i as int].model());
        }
        i = i + 1;
    }
    None
}

/// Apply one `create`: singleton kinds, the table and the data clause
/// replace wholesale; other kinds replace a matching item in place or
/// append.
fn apply_create(syn: &mut DWSyntax, it: super::item::SumItem)
    requires
        old(syn).wf(),
        crate::grammar::sum_item_wf(it.model()),
    ensures
        final(syn).wf(),
        final(syn).model() == crate::selector::spec_apply_create(old(syn).model(), it.model()),
{
    let ghost d0 = syn.model();
    let ghost it_m = it.model();
    match it {
        super::item::SumItem::Item(im) => {
            if str_eq(im.kind.as_str(), "datawindow") {
                syn.datawindow = im.values;
                proof {
                    assert(syn.model() =~= crate::selector::spec_apply_create(d0, it_m));
                }
            } else if str_eq(im.kind.as_str(), "header") {
                syn.header = im.values;
                proof {
                    assert(syn.model() =~= crate::selector::spec_apply_create(d0, it_m));
                }
            } else if str_eq(im.kind.as_str(), "summary") {
                syn.summary = im.values;
                proof {
                    assert(syn.model() =~= crate::selector::spec_apply_create(d0, it_m));
                }
            } else if str_eq(im.kind.as_str(), "footer") {
                syn.footer = im.values;
                proof {
                    assert(syn.model() =~= crate::selector::spec_apply_create(d0, it_m));
                }
            } else if str_eq(im.kind.as_str(), "detail") {
                syn.detail = im.values;
                proof {
                    assert(syn.model() =~= crate::selector::spec_apply_create(d0, it_m));
                }
            } else {
                match find_upsert(&syn.items, &im) {
                    Some(i) => {
                        let ghost im_m = im.model();
                        syn.items.remove(i);
                        syn.items.insert(i, im);
                        proof {
                            assert(items_model(syn.items@) =~= d0.items.update(i as int, im_m));
                            assert(syn.model() =~= crate::selector::spec_apply_create(d0, it_m));
                        }
                    },
                    None => {
                        let ghost im_m = im.model();
                        syn.items.push(im);
                        proof {
                            assert(items_model(syn.items@) =~= d0.items.push(im_m));
                            assert(syn.model() =~= crate::selector::spec_apply_create(d0, it_m));
                        }
                    },
                }
            }
        },
        super::item::SumItem::ItemTable(t) => {
            syn.table = t;
            proof {
                assert(syn.model() =~= crate::selector::spec_apply_create(d0, it_m));
            }
        },
        super::item::SumItem::ItemData(v) => {
            syn.data = v;
            proof {
                assert(syn.model() =~= crate::selector::spec_apply_create(d0, it_m));
            }
        },
    }
}

/// Remove the `column` items bound to destroyed column `n` (1-based) and
/// renumber those bound to later columns.
#[verifier::rlimit(100)]
fn cascade_items(items: &mut Vec<Item>, n: usize)
    requires
        n >= 1,
        forall|i: int| 0 <= i < old(items)@.len() ==> crate::model::item_wf(
            #[trigger] items_model(old(items)@)[i],
        ),
    ensures
        items_model(final(items)@) == crate::selector::spec_cascade(
            items_model(old(items)@),
            n as int,
        ),
        forall|i: int| 0 <= i < final(items)@.len() ==> crate::model::item_wf(
            #[trigger] items_model(final(items)@)[i],
        ),
{
    let ghost orig = items_model(old(items)@);
    let mut j: usize = items.len();
    proof {
        assert(orig.skip(j as int) =~= Seq::<ItemModel>::empty());
        assert(items_model(items@) =~= orig.take(j as int) + crate::selector::spec_cascade(
            orig.skip(j as int),
            n as int,
        ));
    }
    while j > 0
        invariant
            n >= 1,
            j <= orig.len(),
            j <= items@.len(),
            items_model(items@) == orig.take(j as int) + crate::selector::spec_cascade(
                orig.skip(j as int),
                n as int,
            ),
            forall|i: int| 0 <= i < orig.len() ==> crate::model::item_wf(#[trigger] orig[i]),
            forall|i: int| 0 <= i < items@.len() ==> crate::model::item_wf(
                #[trigger] items_model(items@)[i],
            ),
        decreases j,
    {
        j = j - 1;
        let ghost pv = items@;
        let ghost pre = items_model(items@);
        proof {
            assert(orig.skip(j as int) =~= seq![orig[j as int]] + orig.skip(j + 1 as int));
            assert(orig.skip(j as int).drop_first() =~= orig.skip(j + 1 as int));
            assert(orig.skip(j as int)[0] == orig[j as int]);
            assert(orig.take(j + 1 as int) =~= orig.take(j as int).push(orig[j as int]));
            assert(pre[j as int] == orig[j as int]);
            assert(items@[j as int].model() == orig[j as int]);
            assert(crate::model::item_wf(pre[j as int]));
        }
        let is_col = items[j].kind.is("column");
        let id_opt: Option<u32> = match &items[j].id {
            Some(v) => Some(*v),
            None => None,
        };
        let ghost cj = crate::selector::spec_cascade_item(orig[j as int], n as int);
        if is_col && id_opt.is_some() {
            let id = id_opt.unwrap();
            if id as usize == n {
                proof {
                    assert(cj is None);
                }
                items.remove(j);
                proof {
                    assert(crate::selector::spec_cascade(orig.skip(j as int), n as int)
                        == crate::selector::spec_cascade(orig.skip(j + 1 as int), n as int));
                    let target = orig.take(j as int) + crate::selector::spec_cascade(
                        orig.skip(j as int),
                        n as int,
                    );
                    assert(pre.len() == j + 1 + crate::selector::spec_cascade(
                        orig.skip(j + 1 as int),
                        n as int,
                    ).len());
                    assert(items@.len() + 1 == pv.len());
                    assert(pre.len() == pv.len());
                    assert forall|k: int| 0 <= k < items@.len() implies items_model(items@)[k]
                        == target[k] by {
                        assert(items_model(items@)[k] == items@[k].model());
                        if k < j {
                            assert(items@[k] == pv[k]);
                            assert(items@[k].model() == pre[k]);
                        } else {
                            assert(items@[k] == pv[k + 1]);
                            assert(items@[k].model() == pre[k + 1]);
                        }
                    }
                    assert(items_model(items@) =~= target);
                    assert forall|k: int| 0 <= k < items@.len() implies crate::model::item_wf(
                        #[trigger] items_model(items@)[k],
                    ) by {
                        assert(items_model(items@)[k] == items@[k].model());
                        if k < j {
                            assert(items@[k] == pv[k]);
                            assert(crate::model::item_wf(items_model(pv)[k]));
                        } else {
                            assert(items@[k] == pv[k + 1]);
                            assert(crate::model::item_wf(items_model(pv)[k + 1]));
                        }
                    }
                }
            } else if id as usize > n {
                let ghost m0 = items@[j as int].values.model();
                proof {
                    reveal_strlit("id");
                    reveal_strlit("name");
                    assert("id"@.len() == 2);
                    assert("name"@.len() == 4);
                    assert("id"@ != "name"@);
                    assert(crate::model::item_wf(pre[j as int]));
                    assert(crate::model::map_model_wf(m0));
                    crate::model::lemma_map_insert_wf(
                        m0,
                        "id"@,
                        crate::model::ValueModel::Number(crate::text::spec_dec((id - 1) as nat)),
                    );
                    crate::model::lemma_map_insert_other(
                        m0,
                        "id"@,
                        crate::model::ValueModel::Number(crate::text::spec_dec((id - 1) as nat)),
                        "name"@,
                    );
                    crate::text::lemma_dec_token((id - 1) as nat);
                }
                let item_x = items.remove(j);
                let Item {
                    kind: kind_x,
                    name: name_x,
                    id: _,
                    level: level_x,
                    values: mut values_x,
                } = item_x;
                values_x.insert(
                    Key("id".to_owned()),
                    Value::Number(crate::text::dec_string((id - 1) as u128)),
                );
                items.insert(
                    j,
                    Item {
                        kind: kind_x,
                        name: name_x,
                        id: Some(id - 1),
                        level: level_x,
                        values: values_x,
                    },
                );
                proof {
                    assert(items@ =~= pv.update(j as int, items@[j as int]));
                    assert(crate::selector::spec_cascade(orig.skip(j as int), n as int) == seq![
                        cj->Some_0,
                    ] + crate::selector::spec_cascade(orig.skip(j + 1 as int), n as int));
                    let target = orig.take(j as int) + crate::selector::spec_cascade(
                        orig.skip(j as int),
                        n as int,
                    );
                    assert(items@.len() == pv.len());
                    assert(pre.len() == pv.len());
                    assert(items_model(items@)[j as int] == items@[j as int].model());
                    assert(items@[j as int].values.model() == crate::model::map_insert(
                        m0,
                        "id"@,
                        crate::model::ValueModel::Number(crate::text::spec_dec((id - 1) as nat)),
                    ));
                    assert(items_model(items@)[j as int] == cj->Some_0);
                    assert forall|k: int| 0 <= k < items@.len() implies items_model(items@)[k]
                        == target[k] by {
                        assert(items_model(items@)[k] == items@[k].model());
                        if k != j {
                            assert(items@[k] == pv[k]);
                            assert(items@[k].model() == pre[k]);
                        }
                    }
                    assert(items_model(items@) =~= target);
                    assert(crate::model::item_wf(items_model(items@)[j as int])) by {
                        assert(crate::model::extract_u32(
                            items@[j as int].values.model(),
                            "id"@,
                        ) == Some((id - 1) as u32));
                        assert(crate::model::extract_name(items@[j as int].values.model())
                            == crate::model::extract_name(m0));
                    }
                    assert forall|k: int| 0 <= k < items@.len() implies crate::model::item_wf(
                        #[trigger] items_model(items@)[k],
                    ) by {
                        assert(items_model(items@)[k] == items@[k].model());
                        if k != j {
                            assert(items@[k] == pv[k]);
                            assert(crate::model::item_wf(items_model(pv)[k]));
                        }
                    }
                }
            } else {
                proof {
                    assert(cj == Some(orig[j as int]));
                    assert(items_model(items@) =~= orig.take(j as int)
                        + crate::selector::spec_cascade(orig.skip(j as int), n as int));
                }
            }
        } else {
            proof {
                assert(cj == Some(orig[j as int]));
                assert(items_model(items@) =~= orig.take(j as int)
                    + crate::selector::spec_cascade(orig.skip(j as int), n as int));
            }
        }
    }
    proof {
        assert(orig.take(0) =~= Seq::<ItemModel>::empty());
        assert(orig.skip(0) =~= orig);
        assert(items_model(items@) =~= crate::selector::spec_cascade(orig, n as int));
    }
}

/// Apply one `destroy`.
fn apply_destroy(syn: &mut DWSyntax, sel: String) -> (r: Result<(), ParseError>)
    requires
        old(syn).wf(),
    ensures
        final(syn).wf(),
        match r {
            Ok(_) => crate::selector::spec_apply_destroy(old(syn).model(), sel@) == Some(
                final(syn).model(),
            ),
            Err(_) => crate::selector::spec_apply_destroy(old(syn).model(), sel@) is None
                && *final(syn) == *old(syn),
        },
{
    let chars = str_to_chars(sel.as_str());
    let sr = match select(syn, &chars) {
        Ok(sr) => sr,
        Err(e) => {
            return Err(e);
        },
    };
    if sr.key.as_str().unicode_len() != 0 {
        return Err(ParseError::at(0, false, "destroy"));
    }
    let ghost d0 = syn.model();
    match sr.root {
        SelectRoot::DataWindow => {
            syn.datawindow.clear();
            proof {
                assert(syn.model() =~= crate::selector::spec_apply_destroy(d0, sel@)->Some_0);
            }
        },
        SelectRoot::Header => {
            syn.header.clear();
            proof {
                assert(syn.model() =~= crate::selector::spec_apply_destroy(d0, sel@)->Some_0);
            }
        },
        SelectRoot::Summary => {
            syn.summary.clear();
            proof {
                assert(syn.model() =~= crate::selector::spec_apply_destroy(d0, sel@)->Some_0);
            }
        },
        SelectRoot::Footer => {
            syn.footer.clear();
            proof {
                assert(syn.model() =~= crate::selector::spec_apply_destroy(d0, sel@)->Some_0);
            }
        },
        SelectRoot::Detail => {
            syn.detail.clear();
            proof {
                assert(syn.model() =~= crate::selector::spec_apply_destroy(d0, sel@)->Some_0);
            }
        },
        SelectRoot::Item(i) => {
            syn.items.remove(i);
            proof {
                assert(items_model(syn.items@) =~= d0.items.remove(i as int));
                assert(syn.model() =~= crate::selector::spec_apply_destroy(d0, sel@)->Some_0);
            }
        },
        SelectRoot::ItemTable => {
            syn.table.columns.clear();
            syn.table.values.clear();
            proof {
                assert(columns_model(syn.table.columns@) =~= Seq::<ColumnModel>::empty());
                assert(syn.model() =~= crate::selector::spec_apply_destroy(d0, sel@)->Some_0);
            }
        },
        SelectRoot::ItemTableColumn(i) => {
            let ncols = syn.table.columns.len();
            syn.table.columns.remove(i);
            proof {
                assert forall|k: int| 0 <= k < syn.table.columns@.len() implies columns_model(
                    syn.table.columns@,
                )[k] == d0.table.columns.remove(i as int)[k] by {
                    assert(columns_model(syn.table.columns@)[k] == syn.table.columns@[k].model());
                }
                assert(columns_model(syn.table.columns@) =~= d0.table.columns.remove(i as int));
            }
            cascade_items(&mut syn.items, i + 1);
            proof {
                assert(syn.model() =~= crate::selector::spec_apply_destroy(d0, sel@)->Some_0);
            }
        },
    }
    Ok(())
}

/// Apply parsed statements in order; on the first failure the earlier
/// effects stay applied.
fn apply_rest(syn: &mut DWSyntax, sts: Vec<Statement>) -> (r: Result<(), ParseError>)
    requires
        old(syn).wf(),
        forall|i: int| 0 <= i < sts@.len() ==> statement_wf(#[trigger] stmts_model(sts@)[i]),
    ensures
        final(syn).wf(),
        crate::selector::spec_apply_all(old(syn).model(), stmts_model(sts@)) == (
            final(syn).model(),
            r is Ok,
        ),
    decreases sts@.len(),
{
    let mut sts = sts;
    if sts.len() == 0 {
        proof {
            assert(stmts_model(sts@) =~= Seq::<crate::selector::StatementModel>::empty());
        }
        return Ok(());
    }
    let ghost rest0 = stmts_model(sts@);
    let ghost pre = syn.model();
    let st = sts.remove(0);
    let ghost st_m = st.model();
    proof {
        assert(st_m == rest0[0]);
        assert(statement_wf(st_m));
        assert(stmts_model(sts@) =~= rest0.drop_first());
    }
    let applied: Result<(), ParseError> = match st {
        Statement::Assign(sel, v) => apply_assign(syn, sel, v),
        Statement::Create(it) => {
            apply_create(syn, it);
            Ok(())
        },
        Statement::Destroy(sel) => apply_destroy(syn, sel),
    };
    match applied {
        Ok(_) => {
            proof {
                assert(crate::selector::spec_apply(pre, rest0[0]) == Some(syn.model()));
            }
            apply_rest(syn, sts)
        },
        Err(e) => {
            proof {
                assert(crate::selector::spec_apply(pre, rest0[0]) is None);
            }
            Err(e)
        },
    }
}

/// Apply the statements of one `modify` call, in order; on the first
/// failure the earlier effects stay applied — there is no rollback.
pub fn modify(syn: &mut DWSyntax, input: &str) -> (r: Result<(), ParseError>)
    requires
        old(syn).wf(),
    ensures
        final(syn).wf(),
        match crate::selector::spec_statements(input@) {
            None => r is Err && *final(syn) == *old(syn),
            Some(sts) => crate::selector::spec_apply_all(old(syn).model(), sts) == (
                final(syn).model(),
                r is Ok,
            ),
        },
{
    let chars = str_to_chars(input);
    let sts = match statements(&chars) {
        Ok(v) => v,
        Err(e) => {
            return Err(e);
        },
    };
    apply_rest(syn, sts)
}

} // verus!
