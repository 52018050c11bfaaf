//! The renderer: canonical CRLF text for a document tree, the inverse of
//! the grammar's escaping and layout rules.

use vstd::prelude::*;
use crate::ast::{DWSyntax, Item, ItemTableColumn};
use crate::model::{ColumnModel, DocModel, ItemModel, MapModel, ValueModel};
use crate::value::{PropMap, Value, list_model};
use crate::text::{chars_to_string, push_str_chars};

verus! {

broadcast use vstd::seq::group_seq_axioms, vstd::std_specs::vec::group_vec_axioms;

/// Source text of one value: strings keep their quotes and their stored
/// escapes, literals and numbers stand verbatim, maps and lists are
/// parenthesized.
pub open spec fn render_value_src(v: ValueModel) -> Seq<char>
    decreases v, 0int,
{
    match v {
        ValueModel::Literal(t) => t,
        ValueModel::DoubleQuoted(t) => seq!['"'] + t + seq!['"'],
        ValueModel::SingleQuoted(t) => seq!['\''] + t + seq!['\''],
        ValueModel::Number(t) => t,
        ValueModel::Mapping(m) => seq!['('] + render_map_from(m, 0) + seq![')'],
        ValueModel::List(l) => seq!['('] + render_list_from(l, 0) + seq![')'],
    }
}

/// The `key=value` pairs of a map from position `i` on, space-separated.
pub open spec fn render_map_from(m: MapModel, i: int) -> Seq<char>
    decreases m, m.len() - i,
{
    if !(0 <= i < m.len()) {
        Seq::empty()
    } else {
        let pair = m[i].0 + seq!['='] + render_value_src(m[i].1);
        if i > 0 {
            seq![' '] + pair + render_map_from(m, i + 1)
        } else {
            pair + render_map_from(m, i + 1)
        }
    }
}

/// The comma-separated elements of a list from position `i` on.
pub open spec fn render_list_from(l: Seq<ValueModel>, i: int) -> Seq<char>
    decreases l, l.len() - i,
{
    if !(0 <= i < l.len()) {
        Seq::empty()
    } else {
        let elem = render_value_src(l[i]);
        if i > 0 {
            seq![',', ' '] + elem + render_list_from(l, i + 1)
        } else {
            elem + render_list_from(l, i + 1)
        }
    }
}

/// The flattened `data` values: a `null` literal is followed by one
/// space, anything else by a comma and a space, reconstructing the
/// original slot convention.
pub open spec fn render_data_from(l: Seq<ValueModel>, i: int) -> Seq<char>
    decreases l, l.len() - i,
{
    if !(0 <= i < l.len()) {
        Seq::empty()
    } else {
        let piece = if l[i] == ValueModel::Literal("null"@) {
            "null "@
        } else {
            render_value_src(l[i]) + ", "@
        };
        piece + render_data_from(l, i + 1)
    }
}

/// One singleton section, skipped entirely when empty.
pub open spec fn render_section(kind: Seq<char>, m: MapModel) -> Seq<char> {
    if m.len() == 0 {
        Seq::empty()
    } else {
        kind + seq!['('] + render_map_from(m, 0) + seq![')'] + "\r\n"@
    }
}

/// The columns of the table, each on its own line.
pub open spec fn render_cols_from(cols: Seq<ColumnModel>, i: int) -> Seq<char>
    decreases cols.len() - i,
{
    if !(0 <= i < cols.len()) {
        Seq::empty()
    } else {
        "column=("@ + render_map_from(cols[i].values, 0) + ")\r\n"@ + render_cols_from(
            cols,
            i + 1,
        )
    }
}

/// The table clause, skipped when it has neither columns nor options.
pub open spec fn render_table(t: crate::model::TableModel) -> Seq<char> {
    if t.columns.len() == 0 && t.values.len() == 0 {
        Seq::empty()
    } else {
        "table("@ + render_cols_from(t.columns, 0) + render_map_from(t.values, 0) + ")\r\n"@
    }
}

/// The `data` clause, skipped when empty.
pub open spec fn render_data(l: Seq<ValueModel>) -> Seq<char> {
    if l.len() == 0 {
        Seq::empty()
    } else {
        "data("@ + render_data_from(l, 0) + ")\r\n"@
    }
}

/// The repeatable items, in document order.
pub open spec fn render_items_from(items: Seq<ItemModel>, i: int) -> Seq<char>
    decreases items.len() - i,
{
    if !(0 <= i < items.len()) {
        Seq::empty()
    } else {
        items[i].kind + seq!['('] + render_map_from(items[i].values, 0) + ")\r\n"@
            + render_items_from(items, i + 1)
    }
}

/// The whole document: optional export-header lines, the version
/// statement, then the sections in fixed order.
pub open spec fn render_doc(d: DocModel) -> Seq<char> {
    let header = match d.name {
        Some(n) => "$PBExportHeader$"@ + n + "\r\n"@,
        None => Seq::empty(),
    };
    let comment = match d.comment {
        Some(c) => "$PBExportComments$"@ + c + "\r\n"@,
        None => Seq::empty(),
    };
    header + comment + "release "@ + d.version + ";\r\n"@ + render_section(
        "datawindow"@,
        d.datawindow,
    ) + render_section("header"@, d.header) + render_section("summary"@, d.summary)
        + render_section("footer"@, d.footer) + render_section("detail"@, d.detail)
        + render_table(d.table) + render_data(d.data) + render_items_from(d.items, 0)
}

/// Append the source text of one value.
pub fn push_value_src(v: &Value, out: &mut Vec<char>)
    ensures
        final(out)@ == old(out)@ + render_value_src(v.model()),
    decreases v, 0int,
{
    match v {
        Value::Literal(t) => {
            push_str_chars(out, t.as_str());
        },
        Value::DoubleQuotedString(t) => {
            out.push('"');
            push_str_chars(out, t.as_str());
            out.push('"');
            proof {
                assert(final(out)@ =~= old(out)@ + render_value_src(v.model()));
            }
        },
        Value::SingleQuotedString(t) => {
            out.push('\'');
            push_str_chars(out, t.as_str());
            out.push('\'');
            proof {
                assert(final(out)@ =~= old(out)@ + render_value_src(v.model()));
            }
        },
        Value::Number(t) => {
            push_str_chars(out, t.as_str());
        },
        Value::Mapping(m) => {
            out.push('(');
            push_map_from(m, 0, out);
            out.push(')');
            proof {
                assert(final(out)@ =~= old(out)@ + render_value_src(v.model()));
            }
        },
        Value::List(l) => {
            out.push('(');
            push_list_from(l, 0, out);
            out.push(')');
            proof {
                assert(list_model(l@) == v.model()->List_0);
                assert(final(out)@ =~= old(out)@ + render_value_src(v.model()));
            }
        },
    }
}

/// Append the pairs of a map from entry `i` on.
pub fn push_map_from(m: &PropMap, i: usize, out: &mut Vec<char>)
    requires
        i <= m.entries@.len(),
    ensures
        final(out)@ == old(out)@ + render_map_from(m.model(), i as int),
    decreases m, m.entries@.len() - i,
{
    if i < m.entries.len() {
        if i > 0 {
            out.push(' ');
        }
        push_str_chars(out, m.entries[i].0.as_str());
        out.push('=');
        push_value_src(&m.entries[i].1, out);
        push_map_from(m, i + 1, out);
        proof {
            let ghost ent = m.entries@[i as int];
            assert(m.model()[i as int] == (ent.0@, ent.1.model()));
            assert(final(out)@ =~= old(out)@ + render_map_from(m.model(), i as int));
        }
    } else {
        proof {
            assert(render_map_from(m.model(), i as int) =~= Seq::<char>::empty());
            assert(final(out)@ =~= old(out)@);
        }
    }
}

/// Append the elements of a list from position `i` on.
pub fn push_list_from(l: &Vec<Value>, i: usize, out: &mut Vec<char>)
    requires
        i <= l@.len(),
    ensures
        final(out)@ == old(out)@ + render_list_from(list_model(l@), i as int),
    decreases l, l@.len() - i,
{
    if i < l.len() {
        if i > 0 {
            out.push(',');
            out.push(' ');
        }
        push_value_src(&l[i], out);
        push_list_from(l, i + 1, out);
        proof {
            assert(list_model(l@)[i as int] == l@[i as int].model());
            assert(final(out)@ =~= old(out)@ + render_list_from(list_model(l@), i as int));
        }
    } else {
        proof {
            assert(render_list_from(list_model(l@), i as int) =~= Seq::<char>::empty());
            assert(final(out)@ =~= old(out)@);
        }
    }
}

/// Append the flattened `data` values from position `i` on.
fn push_data_from(l: &Vec<Value>, i: usize, out: &mut Vec<char>)
    requires
        i <= l@.len(),
    ensures
        final(out)@ == old(out)@ + render_data_from(list_model(l@), i as int),
    decreases l@.len() - i,
{
    if i < l.len() {
        let is_null = match &l[i] {
            Value::Literal(t) => crate::text::str_eq(t.as_str(), "null"),
            _ => false,
        };
        if is_null {
            proof {
                reveal_strlit("null");
                assert(list_model(l@)[i as int] == l@[i as int].model());
                assert(list_model(l@)[i as int] == ValueModel::Literal("null"@));
            }
            push_str_chars(out, "null ");
        } else {
            proof {
                assert(list_model(l@)[i as int] == l@[i as int].model());
                assert(list_model(l@)[i as int] != ValueModel::Literal("null"@));
            }
            push_value_src(&l[i], out);
            push_str_chars(out, ", ");
        }
        push_data_from(l, i + 1, out);
        proof {
            assert(final(out)@ =~= old(out)@ + render_data_from(list_model(l@), i as int));
        }
    } else {
        proof {
            assert(render_data_from(list_model(l@), i as int) =~= Seq::<char>::empty());
            assert(final(out)@ =~= old(out)@);
        }
    }
}

/// Append one singleton section.
fn push_section(kind: &str, m: &PropMap, out: &mut Vec<char>)
    ensures
        final(out)@ == old(out)@ + render_section(kind@, m.model()),
{
    if m.len() != 0 {
        push_str_chars(out, kind);
        out.push('(');
        push_map_from(m, 0, out);
        out.push(')');
        push_str_chars(out, "\r\n");
        proof {
            assert(final(out)@ =~= old(out)@ + render_section(kind@, m.model()));
        }
    } else {
        proof {
            assert(final(out)@ =~= old(out)@ + render_section(kind@, m.model()));
        }
    }
}

/// Append the table columns from position `i` on.
fn push_cols_from(cols: &Vec<ItemTableColumn>, i: usize, out: &mut Vec<char>)
    requires
        i <= cols@.len(),
    ensures
        final(out)@ == old(out)@ + render_cols_from(crate::ast::columns_model(cols@), i as int),
    decreases cols@.len() - i,
{
    if i < cols.len() {
        push_str_chars(out, "column=(");
        push_map_from(&cols[i].values, 0, out);
        push_str_chars(out, ")\r\n");
        push_cols_from(cols, i + 1, out);
        proof {
            assert(crate::ast::columns_model(cols@)[i as int] == cols@[i as int].model());
            assert(final(out)@ =~= old(out)@ + render_cols_from(
                crate::ast::columns_model(cols@),
                i as int,
            ));
        }
    } else {
        proof {
            assert(render_cols_from(crate::ast::columns_model(cols@), i as int)
                =~= Seq::<char>::empty());
            assert(final(out)@ =~= old(out)@);
        }
    }
}

/// Append the repeatable items from position `i` on.
fn push_items_from(items: &Vec<Item>, i: usize, out: &mut Vec<char>)
    requires
        i <= items@.len(),
    ensures
        final(out)@ == old(out)@ + render_items_from(crate::ast::items_model(items@), i as int),
    decreases items@.len() - i,
{
    if i < items.len() {
        push_str_chars(out, items[i].kind.as_str());
        out.push('(');
        push_map_from(&items[i].values, 0, out);
        push_str_chars(out, ")\r\n");
        push_items_from(items, i + 1, out);
        proof {
            assert(crate::ast::items_model(items@)[i as int] == items@[i as int].model());
            assert(final(out)@ =~= old(out)@ + render_items_from(
                crate::ast::items_model(items@),
                i as int,
            ));
        }
    } else {
        proof {
            assert(render_items_from(crate::ast::items_model(items@), i as int)
                =~= Seq::<char>::empty());
            assert(final(out)@ =~= old(out)@);
        }
    }
}

/// Render a whole document to its canonical CRLF text.
#[verifier::rlimit(100)]
pub fn render(syn: &DWSyntax) -> (r: String)
    ensures
        r@ == render_doc(syn.model()),
{
    let ghost d = syn.model();
    let mut out: Vec<char> = Vec::new();
    match &syn.name {
        Some(n) => {
            push_str_chars(&mut out, "$PBExportHeader$");
            push_str_chars(&mut out, n.as_str());
            push_str_chars(&mut out, "\r\n");
        },
        None => {},
    }
    let ghost gh = match d.name {
        Some(n) => "$PBExportHeader$"@ + n + "\r\n"@,
        None => Seq::<char>::empty(),
    };
    proof {
        assert(out@ =~= gh);
    }
    match &syn.comment {
        Some(c) => {
            push_str_chars(&mut out, "$PBExportComments$");
            push_str_chars(&mut out, c.as_str());
            push_str_chars(&mut out, "\r\n");
        },
        None => {},
    }
    let ghost gc = match d.comment {
        Some(c) => "$PBExportComments$"@ + c + "\r\n"@,
        None => Seq::<char>::empty(),
    };
    proof {
        assert(out@ =~= gh + gc);
    }
    push_str_chars(&mut out, "release ");
    push_str_chars(&mut out, syn.version.as_str());
    push_str_chars(&mut out, ";\r\n");
    let ghost g0 = gh + gc + "release "@ + d.version + ";\r\n"@;
    proof {
        assert(out@ =~= g0);
    }
    push_section("datawindow", &syn.datawindow, &mut out);
    let ghost g1 = g0 + render_section("datawindow"@, d.datawindow);
    proof {
        assert(out@ =~= g1);
    }
    push_section("header", &syn.header, &mut out);
    let ghost g2 = g1 + render_section("header"@, d.header);
    proof {
        assert(out@ =~= g2);
    }
    push_section("summary", &syn.summary, &mut out);
    let ghost g3 = g2 + render_section("summary"@, d.summary);
    proof {
        assert(out@ =~= g3);
    }
    push_section("footer", &syn.footer, &mut out);
    let ghost g4 = g3 + render_section("footer"@, d.footer);
    proof {
        assert(out@ =~= g4);
    }
    push_section("detail", &syn.detail, &mut out);
    let ghost g5 = g4 + render_section("detail"@, d.detail);
    proof {
        assert(out@ =~= g5);
    }
    if !(syn.table.columns.len() == 0 && syn.table.values.is_empty()) {
        push_str_chars(&mut out, "table(");
        push_cols_from(&syn.table.columns, 0, &mut out);
        push_map_from(&syn.table.values, 0, &mut out);
        push_str_chars(&mut out, ")\r\n");
    }
    let ghost g6 = g5 + render_table(d.table);
    proof {
        assert(out@ =~= g6);
    }
    if syn.data.len() != 0 {
        push_str_chars(&mut out, "data(");
        push_data_from(&syn.data, 0, &mut out);
        push_str_chars(&mut out, ")\r\n");
    }
    let ghost g7 = g6 + render_data(d.data);
    proof {
        assert(list_model(syn.data@).len() == syn.data@.len());
        assert(out@ =~= g7);
    }
    push_items_from(&syn.items, 0, &mut out);
    proof {
        assert(out@ =~= g7 + render_items_from(d.items, 0));
        assert(out@ =~= render_doc(d));
    }
    let r = chars_to_string(&out);
    r
}

/// Whether `c` occurs in `t`.
pub open spec fn seq_contains(t: Seq<char>, c: char) -> bool {
    exists|i: int| 0 <= i < t.len() && t[i] == c
}

/// Whether the string holds a control character that forces quoting.
pub open spec fn has_ctl(t: Seq<char>) -> bool {
    seq_contains(t, '\r') || seq_contains(t, '\n') || seq_contains(t, '\t')
}

/// Leftmost, non-overlapping replacement of `pat` by `rep`.
pub open spec fn replace_all(s: Seq<char>, pat: Seq<char>, rep: Seq<char>) -> Seq<char>
    decreases s.len(),
{
    if pat.len() == 0 || s.len() < pat.len() {
        s
    } else if s.subrange(0, pat.len() as int) == pat {
        rep + replace_all(s.skip(pat.len() as int), pat, rep)
    } else {
        seq![s[0]] + replace_all(s.drop_first(), pat, rep)
    }
}

/// The `describe` rendition of one value: quotes are dropped from
/// strings unless the content holds a CR, LF or tab; tilde escapes are
/// unfolded only when a tilde is present.
pub open spec fn describe_text(v: ValueModel) -> Seq<char> {
    match v {
        ValueModel::Literal(t) => t,
        ValueModel::Number(t) => t,
        ValueModel::DoubleQuoted(t) => if has_ctl(t) {
            seq!['"'] + t + seq!['"']
        } else if seq_contains(t, '~') {
            replace_all(replace_all(t, "~\""@, "\""@), "~~"@, "~"@)
        } else {
            t
        },
        ValueModel::SingleQuoted(t) => if has_ctl(t) {
            seq!['\''] + t + seq!['\'']
        } else if seq_contains(t, '~') {
            replace_all(replace_all(t, "~'"@, "'"@), "~~"@, "~"@)
        } else {
            t
        },
        ValueModel::Mapping(_) => render_value_src(v),
        ValueModel::List(_) => render_value_src(v),
    }
}

/// Whether `c` occurs in the character vector.
fn chars_contain(t: &Vec<char>, c: char) -> (r: bool)
    ensures
        r == seq_contains(t@, c),
{
    let mut i: usize = 0;
    while i < t.len()
        invariant
            0 <= i <= t@.len(),
            forall|j: int| 0 <= j < i ==> t@[j] != c,
        decreases t@.len() - i,
    {
        if t[i] == c {
            return true;
        }
        i = i + 1;
    }
    false
}

/// Replace every leftmost occurrence of `pat` by `rep`.
fn replace_chars(src: &Vec<char>, pat: &str, rep: &str) -> (r: Vec<char>)
    requires
        pat@.len() > 0,
    ensures
        r@ == replace_all(src@, pat@, rep@),
{
    let patlen = pat.unicode_len();
    let mut out: Vec<char> = Vec::new();
    let mut p: usize = 0;
    proof {
        assert(src@.skip(0) =~= src@);
        assert(out@ + replace_all(src@, pat@, rep@) =~= replace_all(src@, pat@, rep@));
    }
    while p < src.len()
        invariant
            0 <= p <= src@.len(),
            patlen == pat@.len(),
            patlen > 0,
            replace_all(src@, pat@, rep@) == out@ + replace_all(src@.skip(p as int), pat@, rep@),
        decreases src@.len() - p,
    {
        let ghost pre = out@;
        if crate::text::match_tag(src, p, pat) {
            proof {
                assert(src@.skip(p as int).subrange(0, pat@.len() as int) =~= src@.subrange(
                    p as int,
                    p + pat@.len(),
                ));
                assert(src@.skip(p as int).skip(pat@.len() as int) =~= src@.skip(
                    p + pat@.len(),
                ));
            }
            push_str_chars(&mut out, rep);
            p = p + patlen;
        } else {
            proof {
                if src@.len() - p >= pat@.len() {
                    assert(src@.skip(p as int).subrange(0, pat@.len() as int) =~= src@.subrange(
                        p as int,
                        p + pat@.len(),
                    ));
                }
                assert(src@.skip(p as int).drop_first() =~= src@.skip(p + 1));
                assert(seq![src@[p as int]] =~= src@.skip(p as int).subrange(0, 1));
                assert(src@.skip(p as int)[0] == src@[p as int]);
            }
            out.push(src[p]);
            proof {
                assert(out@ =~= pre + seq![src@[p as int]]);
            }
            p = p + 1;
        }
    }
    proof {
        assert(src@.skip(p as int) =~= Seq::<char>::empty());
        assert(replace_all(Seq::<char>::empty(), pat@, rep@) =~= Seq::<char>::empty());
        assert(out@ =~= replace_all(src@, pat@, rep@));
    }
    out
}

/// The `describe` rendition of one value.
pub fn describe_value_text(v: &Value) -> (r: String)
    ensures
        r@ == describe_text(v.model()),
{
    match v {
        Value::Literal(t) => t.clone(),
        Value::Number(t) => t.clone(),
        Value::DoubleQuotedString(t) => {
            let tc = crate::text::str_to_chars(t.as_str());
            if chars_contain(&tc, '\r') || chars_contain(&tc, '\n') || chars_contain(&tc, '\t') {
                let mut out: Vec<char> = Vec::new();
                out.push('"');
                push_str_chars(&mut out, t.as_str());
                out.push('"');
                proof {
                    assert(out@ =~= describe_text(v.model()));
                }
                chars_to_string(&out)
            } else if chars_contain(&tc, '~') {
                proof {
                    reveal_strlit("~\"");
                }
                let r1 = replace_chars(&tc, "~\"", "\"");
                proof {
                    reveal_strlit("~~");
                }
                let r2 = replace_chars(&r1, "~~", "~");
                chars_to_string(&r2)
            } else {
                t.clone()
            }
        },
        Value::SingleQuotedString(t) => {
            let tc = crate::text::str_to_chars(t.as_str());
            if chars_contain(&tc, '\r') || chars_contain(&tc, '\n') || chars_contain(&tc, '\t') {
                let mut out: Vec<char> = Vec::new();
                out.push('\'');
                push_str_chars(&mut out, t.as_str());
                out.push('\'');
                proof {
                    assert(out@ =~= describe_text(v.model()));
                }
                chars_to_string(&out)
            } else if chars_contain(&tc, '~') {
                proof {
                    reveal_strlit("~'");
                }
                let r1 = replace_chars(&tc, "~'", "'");
                proof {
                    reveal_strlit("~~");
                }
                let r2 = replace_chars(&r1, "~~", "~");
                chars_to_string(&r2)
            } else {
                t.clone()
            }
        },
        Value::Mapping(_) => {
            let mut out: Vec<char> = Vec::new();
            push_value_src(v, &mut out);
            chars_to_string(&out)
        },
        Value::List(_) => {
            let mut out: Vec<char> = Vec::new();
            push_value_src(v, &mut out);
            chars_to_string(&out)
        },
    }
}

/// The tab-joined names of the named items, in document order.
pub open spec fn objects_from(items: Seq<ItemModel>, i: int, acc: Seq<char>) -> Seq<char>
    decreases items.len() - i,
{
    if !(0 <= i < items.len()) {
        acc
    } else {
        match items[i].name {
            Some(n) => objects_from(
                items,
                i + 1,
                if acc.len() == 0 {
                    n
                } else {
                    acc + seq!['\t'] + n
                },
            ),
            None => objects_from(items, i + 1, acc),
        }
    }
}

/// Build the tab-joined object-name list.
pub fn objects_text(items: &Vec<Item>) -> (r: String)
    ensures
        r@ == objects_from(crate::ast::items_model(items@), 0, Seq::empty()),
{
    let mut out: Vec<char> = Vec::new();
    let n = items.len();
    let mut i: usize = 0;
    while i < n
        invariant
            0 <= i <= n,
            n == items@.len(),
            objects_from(crate::ast::items_model(items@), 0, Seq::empty()) == objects_from(
                crate::ast::items_model(items@),
                i as int,
                out@,
            ),
        decreases n - i,
    {
        proof {
            assert(crate::ast::items_model(items@)[i as int] == items@[i as int].model());
        }
        let ghost before = out@;
        match &items[i].name {
            Some(k) => {
                if out.len() == 0 {
                    push_str_chars(&mut out, k.as_str());
                    proof {
                        assert(out@ =~= k@);
                    }
                } else {
                    out.push('\t');
                    push_str_chars(&mut out, k.as_str());
                    proof {
                        assert(out@ =~= before + seq!['\t'] + k@);
                    }
                }
            },
            None => {},
        }
        i = i + 1;
    }
    chars_to_string(&out)
}


} // verus!
