//! The document tree: items, the table, and the whole syntax object.

use vstd::prelude::*;
use crate::key::Key;
use crate::model::{ColumnModel, DocModel, ItemModel, MapModel, TableModel, doc_wf};
use crate::value::{PropMap, Value, list_model};
use crate::selector::FindModel;
use crate::text::{is_space, spec_dec, spec_skip_ws};

verus! {

/// The model of an optional key.
pub open spec fn opt_key_model(k: Option<Key>) -> Option<Seq<char>> {
    match k {
        Some(k) => Some(k@),
        None => None,
    }
}

/// The model of an optional owned string.
pub open spec fn opt_string_model(s: Option<String>) -> Option<Seq<char>> {
    match s {
        Some(s) => Some(s@),
        None => None,
    }
}

/// A repeatable clause such as `group(...)`, `compute(...)` or
/// `column(...)`, kept in document order.
#[derive(Debug, PartialEq)]
pub struct Item {
    pub kind: Key,
    pub name: Option<Key>,
    pub id: Option<u32>,
    pub level: Option<u32>,
    pub values: PropMap,
}

impl Item {
    pub open spec fn model(self) -> ItemModel {
        ItemModel {
            kind: self.kind@,
            name: opt_key_model(self.name),
            id: self.id,
            level: self.level,
            values: self.values.model(),
        }
    }
}

/// One column of the table clause.
#[derive(Debug, PartialEq)]
pub struct ItemTableColumn {
    pub name: Option<Key>,
    pub values: PropMap,
}

impl ItemTableColumn {
    pub open spec fn model(self) -> ColumnModel {
        ColumnModel { name: opt_key_model(self.name), values: self.values.model() }
    }
}

/// The models of a sequence of columns.
pub open spec fn columns_model(cs: Seq<ItemTableColumn>) -> Seq<ColumnModel> {
    Seq::new(cs.len(), |i: int| if 0 <= i < cs.len() {
        cs[i].model()
    } else {
        ColumnModel { name: None, values: Seq::empty() }
    })
}

/// The table clause: ordered columns plus the remaining table options.
#[derive(Debug, PartialEq)]
pub struct ItemTable {
    pub columns: Vec<ItemTableColumn>,
    pub values: PropMap,
}

impl ItemTable {
    pub open spec fn model(self) -> TableModel {
        TableModel { columns: columns_model(self.columns@), values: self.values.model() }
    }

    /// An empty table.
    pub fn new() -> (r: ItemTable)
        ensures
            r.model().columns == Seq::<ColumnModel>::empty(),
            r.model().values == MapModel::empty(),
    {
        let r = ItemTable { columns: Vec::new(), values: PropMap::new() };
        proof {
            assert(r.model().columns =~= Seq::<ColumnModel>::empty());
        }
        r
    }

    /// Whether the table holds neither a column nor an option.
    pub fn is_empty(&self) -> (r: bool)
        ensures
            r == (self.model().columns.len() == 0 && self.model().values.len() == 0),
    {
        self.columns.len() == 0 && self.values.is_empty()
    }
}

/// The models of a sequence of items.
pub open spec fn items_model(items: Seq<Item>) -> Seq<ItemModel> {
    Seq::new(items.len(), |i: int| if 0 <= i < items.len() {
        items[i].model()
    } else {
        ItemModel { kind: Seq::empty(), name: None, id: None, level: None, values: Seq::empty() }
    })
}

/// A parsed DataWindow description.
#[derive(Debug, PartialEq)]
pub struct DWSyntax {
    /// The export object name from the `$PBExportHeader$` line.
    pub name: Option<String>,
    /// The comment from the `$PBExportComments$` line.
    pub comment: Option<String>,
    /// The version token of the `release <version>;` statement.
    pub version: String,
    /// The `datawindow(...)` singleton section.
    pub datawindow: PropMap,
    /// The `header(...)` singleton section.
    pub header: PropMap,
    /// The `summary(...)` singleton section.
    pub summary: PropMap,
    /// The `footer(...)` singleton section.
    pub footer: PropMap,
    /// The `detail(...)` singleton section.
    pub detail: PropMap,
    /// The `table(...)` clause.
    pub table: ItemTable,
    /// The flattened `data(...)` values.
    pub data: Vec<Value>,
    /// Every other clause, in document order.
    pub items: Vec<Item>,
}

impl DWSyntax {
    pub open spec fn model(self) -> DocModel {
        DocModel {
            name: opt_string_model(self.name),
            comment: opt_string_model(self.comment),
            version: self.version@,
            datawindow: self.datawindow.model(),
            header: self.header.model(),
            summary: self.summary.model(),
            footer: self.footer.model(),
            detail: self.detail.model(),
            table: self.table.model(),
            data: list_model(self.data@),
            items: items_model(self.items@),
        }
    }

    /// Structural well-formedness of the whole tree.
    pub open spec fn wf(self) -> bool {
        doc_wf(self.model())
    }
}

/// The end of the trimmed span of `s`, scanning down to `b`.
pub open spec fn spec_rtrim_from(s: Seq<char>, b: int, e: int) -> int
    decreases e - b,
{
    if b < 0 || e <= b || e > s.len() {
        b
    } else if is_space(s[e - 1]) {
        spec_rtrim_from(s, b, e - 1)
    } else {
        e
    }
}

/// `s` without leading and trailing whitespace.
pub open spec fn spec_trim(s: Seq<char>) -> Seq<char> {
    let b = spec_skip_ws(s, 0);
    if 0 <= b <= s.len() {
        s.subrange(b, spec_rtrim_from(s, b, s.len() as int))
    } else {
        s
    }
}

/// What `describe` answers for one selector: the stringified value, `?`
/// for a valid target with no value, `!` for a malformed or unresolved
/// selector, and the three computed pseudo-properties.
pub open spec fn spec_describe(d: DocModel, sel: Seq<char>) -> Seq<char> {
    match crate::selector::spec_find(d, sel) {
        FindModel::Found(v) => crate::render::describe_text(v),
        FindModel::Invalid => "!"@,
        FindModel::Missing => {
            let t = spec_trim(sel);
            if t == "datawindow.column.count"@ {
                spec_dec(d.table.columns.len() as nat)
            } else if t == "datawindow.syntax"@ {
                crate::render::render_doc(d)
            } else if t == "datawindow.objects"@ {
                crate::render::objects_from(d.items, 0, Seq::empty())
            } else {
                "?"@
            }
        },
    }
}

impl DWSyntax {
    /// Parse a document; a failure is rendered as a line/column message.
    pub fn parse(input: &str) -> (r: Result<DWSyntax, String>)
        ensures
            match r {
                Ok(d) => crate::grammar::spec_document(input@) == Some(d.model()) && d.wf(),
                Err(_) => crate::grammar::spec_document(input@) is None,
            },
    {
        match crate::parser::parse(input) {
            Ok(d) => Ok(d),
            Err(e) => Err(crate::parser::friendly_error(input, &e)),
        }
    }

    /// The canonical source text of this document.
    pub fn render(&self) -> (r: String)
        ensures
            r@ == crate::render::render_doc(self.model()),
    {
        crate::render::render(self)
    }

    /// Answer one `Describe` selector.
    pub fn describe(&self, selector: &str) -> (r: String)
        ensures
            r@ == spec_describe(self.model(), selector@),
    {
        match crate::parser::query::find(self, selector) {
            Ok(Some(v)) => crate::render::describe_value_text(v),
            Err(_) => {
                let mut out: Vec<char> = Vec::new();
                out.push('!');
                proof {
                    reveal_strlit("!");
                    assert(out@ =~= "!"@);
                }
                crate::text::chars_to_string(&out)
            },
            Ok(None) => {
                let chars = crate::text::str_to_chars(selector);
                let b = crate::text::skip_ws(&chars, 0);
                let mut e = chars.len();
                while e > b && (chars[e - 1] == ' ' || chars[e - 1] == '\t' || chars[e - 1]
                    == '\r' || chars[e - 1] == '\n')
                    invariant
                        b <= e <= chars@.len(),
                        spec_rtrim_from(chars@, b as int, chars@.len() as int) == spec_rtrim_from(
                            chars@,
                            b as int,
                            e as int,
                        ),
                    decreases e,
                {
                    e = e - 1;
                }
                let t = crate::text::chars_substring(&chars, b, e);
                proof {
                    assert(t@ == spec_trim(selector@));
                }
                if crate::text::str_eq(t.as_str(), "datawindow.column.count") {
                    crate::text::dec_string(self.table.columns.len() as u128)
                } else if crate::text::str_eq(t.as_str(), "datawindow.syntax") {
                    self.render()
                } else if crate::text::str_eq(t.as_str(), "datawindow.objects") {
                    crate::render::objects_text(&self.items)
                } else {
                    let mut out: Vec<char> = Vec::new();
                    out.push('?');
                    proof {
                        reveal_strlit("?");
                        assert(out@ =~= "?"@);
                    }
                    crate::text::chars_to_string(&out)
                }
            },
        }
    }

    /// Look a selector up and hand back the routed value itself.
    pub fn describe_value<'a>(&'a self, selector: &str) -> (r: Result<Option<&'a Value>, String>)
        ensures
            match r {
                Ok(Some(v)) => crate::selector::spec_find(self.model(), selector@)
                    == FindModel::Found(v.model()),
                Ok(None) => crate::selector::spec_find(self.model(), selector@) is Missing,
                Err(_) => crate::selector::spec_find(self.model(), selector@) is Invalid,
            },
    {
        match crate::parser::query::find(self, selector) {
            Ok(v) => Ok(v),
            Err(e) => Err(crate::parser::friendly_error(selector, &e)),
        }
    }

    /// Apply one `Modify` statement list; the answer is empty on success
    /// and a description of the failure otherwise. Statements before a
    /// failing one stay applied.
    pub fn modify(&mut self, modifier: &str) -> (r: String)
        requires
            old(self).wf(),
        ensures
            final(self).wf(),
            match crate::selector::spec_statements(modifier@) {
                None => *final(self) == *old(self) && r@.len() != 0,
                Some(sts) => crate::selector::spec_apply_all(old(self).model(), sts) == (
                    final(self).model(),
                    r@.len() == 0,
                ),
            },
    {
        match crate::parser::query::modify(self, modifier) {
            Ok(_) => {
                let r = String::new();
                r
            },
            Err(e) => {
                let r = crate::parser::friendly_error(modifier, &e);
                proof {
                    reveal_strlit("parse error at line ");
                    assert(r@.len() != 0);
                }
                r
            },
        }
    }
}

} // verus!
