//! The executable parser, proved equal to the grammar of
//! [`crate::grammar`].

pub mod item;
pub mod value;
pub mod query;

use vstd::prelude::*;
use crate::ast::DWSyntax;
use crate::grammar::{
    PRes, SumItemModel, spec_clauses, spec_document, spec_export_header, spec_fold,
    spec_key_value, spec_pairs, spec_value_map, spec_pb_line, spec_version, spec_empty_doc,
};
use crate::key::Key;
use crate::model::{map_model_wf, value_wf, lemma_map_insert_wf, MapModel};
use crate::text::{
    chars_substring, chars_to_string, push_dec, scan_key_chars, scan_not_cr, skip_ws, spec_dec,
    str_eq, str_to_chars, match_tag,
};
use crate::value::{PropMap, Value};
use item::{item, SumItem};

verus! {

/// A parse failure: where it happened, whether it is past a commit point,
/// and the stack of grammar contexts it bubbled through.
#[derive(Debug)]
pub struct ParseError {
    /// Character position in the input.
    pub pos: usize,
    /// A hard error can no longer be recovered by an enclosing
    /// alternation.
    pub hard: bool,
    /// Innermost-first names of the grammar points passed on the way out.
    pub contexts: Vec<&'static str>,
}

impl ParseError {
    /// A fresh error at `pos`.
    pub fn at(pos: usize, hard: bool, label: &'static str) -> (r: ParseError)
        ensures
            r.pos == pos,
            r.hard == hard,
    {
        let mut contexts: Vec<&'static str> = Vec::new();
        contexts.push(label);
        ParseError { pos, hard, contexts }
    }

    /// The same error, seen through one more named grammar context.
    pub fn within(self, label: &'static str) -> (r: ParseError)
        ensures
            r.pos == self.pos,
            r.hard == self.hard,
    {
        let mut e = self;
        e.contexts.push(label);
        e
    }
}

/// One `key = value` pair.
pub fn key_value(s: &Vec<char>, pos: usize) -> (r: Result<(usize, (Key, Value)), ParseError>)
    requires
        pos <= s@.len(),
    ensures
        match r {
            Ok((next, kv)) => pos < next <= s@.len() && spec_key_value(s@, pos as int)
                == (PRes::Val { next: next as int, v: (kv.0@, kv.1.model()) }) && value_wf(
                kv.1.model(),
            ),
            Err(e) => spec_key_value(s@, pos as int) == (if e.hard {
                PRes::<(Seq<char>, crate::model::ValueModel)>::Hard
            } else {
                PRes::<(Seq<char>, crate::model::ValueModel)>::Fail
            }),
        },
    decreases s@.len() - pos, 1int,
{
    // a key must start with a letter
    if !(pos < s.len() && s[pos].is_alphabetic()) {
        return Err(ParseError::at(pos, false, "key"));
    }
    let ke = scan_key_chars(s, pos);
    let eq = skip_ws(s, ke);
    if !(eq < s.len() && s[eq] == '=') {
        return Err(ParseError::at(eq, false, "key"));
    }
    let vp = skip_ws(s, eq + 1);
    match value::value(s, vp) {
        Ok((next, v)) => {
            let key = Key(chars_substring(s, pos, ke));
            Ok((next, (key, v)))
        },
        Err(e) => {
            let mut e = e.within("value");
            e.hard = true;
            Err(e)
        },
    }
}

/// The loose pair loop of a clause body, after the opening parenthesis.
pub(crate) fn pairs(s: &Vec<char>, pos: usize, acc: PropMap) -> (r: Result<
    (usize, PropMap),
    ParseError,
>)
    requires
        pos <= s@.len(),
        map_model_wf(acc.model()),
    ensures
        match r {
            Ok((next, m)) => pos < next <= s@.len() && spec_pairs(s@, pos as int, acc.model())
                == (PRes::Val { next: next as int, v: m.model() }) && map_model_wf(m.model()),
            Err(e) => spec_pairs(s@, pos as int, acc.model()) == (if e.hard {
                PRes::<MapModel>::Hard
            } else {
                PRes::<MapModel>::Fail
            }),
        },
    decreases s@.len() - pos, 2int,
{
    let p1 = skip_ws(s, pos);
    match key_value(s, p1) {
        Err(e) => {
            if e.hard {
                Err(e)
            } else if pos < s.len() && s[pos] == ')' {
                Ok((pos + 1, acc))
            } else {
                Err(ParseError::at(pos, false, "map"))
            }
        },
        Ok((next, (k, v))) => {
            let p2 = skip_ws(s, next);
            let ghost acc0 = acc.model();
            let mut acc = acc;
            proof {
                lemma_map_insert_wf(acc0, k@, v.model());
            }
            acc.insert(k, v);
            pairs(s, p2, acc)
        },
    }
}

/// A parenthesized property map body.
pub fn value_map(s: &Vec<char>, pos: usize) -> (r: Result<(usize, PropMap), ParseError>)
    requires
        pos <= s@.len(),
    ensures
        match r {
            Ok((next, m)) => pos < next <= s@.len() && spec_value_map(s@, pos as int)
                == (PRes::Val { next: next as int, v: m.model() }) && map_model_wf(m.model()),
            Err(e) => spec_value_map(s@, pos as int) == (if e.hard {
                PRes::<MapModel>::Hard
            } else {
                PRes::<MapModel>::Fail
            }),
        },
    decreases s@.len() - pos, 0int,
{
    if pos < s.len() && s[pos] == '(' {
        pairs(s, pos + 1, PropMap::new())
    } else {
        Err(ParseError::at(pos, false, "map"))
    }
}

/// One optional `$PBExport...$` line.
fn pb_line(s: &Vec<char>, pos: usize, tag: &'static str) -> (r: Option<(usize, String)>)
    requires
        pos <= s@.len(),
    ensures
        match r {
            Some((next, v)) => pos <= next <= s@.len() && spec_pb_line(s@, pos as int, tag@)
                == Some((next as int, v@)),
            None => spec_pb_line(s@, pos as int, tag@) is None,
        },
{
    if match_tag(s, pos, tag) {
        // materialize the length so the index arithmetic is known in bounds
        let _n = s.len();
        let t = pos + tag.unicode_len();
        let c = scan_not_cr(s, t);
        if c > t && match_tag(s, c, "\r\n") {
            proof {
                reveal_strlit("\r\n");
            }
            Some((c + 2, chars_substring(s, t, c)))
        } else {
            None
        }
    } else {
        None
    }
}

/// The optional export-header lines: object name, then comment.
pub fn srd_file_header(s: &Vec<char>, pos: usize) -> (r: (usize, Option<String>, Option<String>))
    requires
        pos <= s@.len(),
    ensures
        pos <= r.0 <= s@.len(),
        spec_export_header(s@, pos as int) == (
            r.0 as int,
            crate::ast::opt_string_model(r.1),
            crate::ast::opt_string_model(r.2),
        ),
{
    let (p1, name) = match pb_line(s, pos, "$PBExportHeader$") {
        Some((p, v)) => (p, Some(v)),
        None => (pos, None),
    };
    let (p2, comment) = match pb_line(s, p1, "$PBExportComments$") {
        Some((p, v)) => (p, Some(v)),
        None => (p1, None),
    };
    (p2, name, comment)
}

/// The `release <version>;` statement; the token is kept as written.
pub fn version(s: &Vec<char>, pos: usize) -> (r: Result<(usize, String), ParseError>)
    requires
        pos <= s@.len(),
    ensures
        match r {
            Ok((next, v)) => pos <= next <= s@.len() && spec_version(s@, pos as int)
                == (PRes::Val { next: next as int, v: v@ }),
            Err(e) => !e.hard && spec_version(s@, pos as int) is Fail,
        },
{
    let p1 = skip_ws(s, pos);
    if !match_tag(s, p1, "release") {
        return Err(ParseError::at(p1, false, "version"));
    }
    // materialize the length so the index arithmetic is known in bounds
    let _n = s.len();
    proof {
        reveal_strlit("release");
    }
    let p2 = p1 + 7;
    let p3 = skip_ws(s, p2);
    if !(p3 > p2) {
        return Err(ParseError::at(p2, false, "version"));
    }
    match value::number(s, p3) {
        Err(e) => Err(e.within("version")),
        Ok((p4, tokv)) => {
            let tok = match tokv {
                Value::Number(t) => t,
                _ => {
                    proof {
                        assert(false);
                    }
                    String::new()
                },
            };
            let p5 = skip_ws(s, p4);
            if p5 < s.len() && s[p5] == ';' {
                Ok((p5 + 1, tok))
            } else {
                Err(ParseError::at(p5, false, "version"))
            }
        },
    }
}

/// Fold one parsed clause into the document under construction.
fn fold_item(doc: &mut DWSyntax, it: SumItem)
    requires
        old(doc).wf(),
        crate::grammar::sum_item_wf(it.model()),
    ensures
        final(doc).model() == spec_fold(old(doc).model(), it.model()),
        final(doc).wf(),
{
    match it {
        SumItem::Item(item) => {
            if str_eq(item.kind.as_str(), "datawindow") {
                doc.datawindow = item.values;
                proof {
                    assert(doc.model() =~= spec_fold(old(doc).model(), SumItemModel::Item(item.model())));
                }
            } else if str_eq(item.kind.as_str(), "header") {
                doc.header = item.values;
                proof {
                    assert(doc.model() =~= spec_fold(old(doc).model(), SumItemModel::Item(item.model())));
                }
            } else if str_eq(item.kind.as_str(), "summary") {
                doc.summary = item.values;
                proof {
                    assert(doc.model() =~= spec_fold(old(doc).model(), SumItemModel::Item(item.model())));
                }
            } else if str_eq(item.kind.as_str(), "footer") {
                doc.footer = item.values;
                proof {
                    assert(doc.model() =~= spec_fold(old(doc).model(), SumItemModel::Item(item.model())));
                }
            } else if str_eq(item.kind.as_str(), "detail") {
                doc.detail = item.values;
                proof {
                    assert(doc.model() =~= spec_fold(old(doc).model(), SumItemModel::Item(item.model())));
                }
            } else {
                let ghost items0 = crate::ast::items_model(doc.items@);
                doc.items.push(item);
                proof {
                    assert(crate::ast::items_model(doc.items@) =~= items0.push(
                        doc.items@[doc.items@.len() - 1].model(),
                    ));
                    assert(doc.model() =~= spec_fold(old(doc).model(), SumItemModel::Item(doc.items@[doc.items@.len() - 1].model())));
                }
            }
        },
        SumItem::ItemTable(t) => {
            doc.table = t;
            proof {
                assert(doc.model() =~= spec_fold(old(doc).model(), it.model()));
            }
        },
        SumItem::ItemData(v) => {
            doc.data = v;
            proof {
                assert(doc.model() =~= spec_fold(old(doc).model(), it.model()));
            }
        },
    }
}

/// The clause loop: parse and fold clauses until no further clause
/// starts; only trailing whitespace may remain.
fn parse_clauses(s: &Vec<char>, pos: usize, doc: DWSyntax, any: bool) -> (r: Result<
    DWSyntax,
    ParseError,
>)
    requires
        pos <= s@.len(),
        doc.wf(),
    ensures
        match r {
            Ok(d) => spec_clauses(s@, pos as int, doc.model(), any) == Some(d.model()) && d.wf(),
            Err(_) => spec_clauses(s@, pos as int, doc.model(), any) is None,
        },
    decreases s@.len() - pos,
{
    match item(s, pos) {
        Ok((next, it)) => {
            let mut doc = doc;
            fold_item(&mut doc, it);
            parse_clauses(s, next, doc, true)
        },
        Err(e) => {
            if e.hard {
                Err(e.within("document"))
            } else {
                let w = skip_ws(s, pos);
                if w == s.len() && any {
                    Ok(doc)
                } else {
                    Err(ParseError::at(w, false, "document"))
                }
            }
        },
    }
}

/// Parse a whole document. The result is exactly what the grammar of
/// [`crate::grammar::spec_document`] assigns to the input, and the tree
/// is structurally well-formed.
pub fn parse(input: &str) -> (r: Result<DWSyntax, ParseError>)
    ensures
        match r {
            Ok(d) => spec_document(input@) == Some(d.model()) && d.wf(),
            Err(_) => spec_document(input@) is None,
        },
{
    let s = str_to_chars(input);
    let (p1, name, comment) = srd_file_header(&s, 0);
    let (pos, ver) = match version(&s, p1) {
        Ok(v) => v,
        Err(e) => {
            return Err(e.within("document"));
        },
    };
    let ghost d0 = spec_empty_doc(
        crate::ast::opt_string_model(name),
        crate::ast::opt_string_model(comment),
        ver@,
    );
    let doc = DWSyntax {
        name,
        comment,
        version: ver,
        datawindow: PropMap::new(),
        header: PropMap::new(),
        summary: PropMap::new(),
        footer: PropMap::new(),
        detail: PropMap::new(),
        table: crate::ast::ItemTable::new(),
        data: Vec::new(),
        items: Vec::new(),
    };
    proof {
        assert(crate::value::list_model(doc.data@) =~= Seq::<crate::model::ValueModel>::empty());
        assert(crate::ast::items_model(doc.items@) =~= Seq::<crate::model::ItemModel>::empty());
        assert(doc.model() =~= d0);
    }
    parse_clauses(&s, pos, doc, false)
}

/// The number of line feeds before `end`.
pub open spec fn spec_count_nl(s: Seq<char>, end: int) -> nat
    decreases end,
{
    if end <= 0 || end > s.len() {
        0
    } else {
        spec_count_nl(s, end - 1) + if s[end - 1] == '\n' {
            1nat
        } else {
            0nat
        }
    }
}

/// The position right after the last line feed before `end`.
pub open spec fn spec_line_start(s: Seq<char>, end: int) -> int
    decreases end,
{
    if end <= 0 || end > s.len() {
        0
    } else if s[end - 1] == '\n' {
        end
    } else {
        spec_line_start(s, end - 1)
    }
}

/// The rendered message of a parse error at `pos` of `s`: its position
/// counted in lines and columns.
pub open spec fn spec_friendly_error(s: Seq<char>, pos: int) -> Seq<char> {
    let p = if pos <= s.len() {
        pos
    } else {
        s.len() as int
    };
    "parse error at line "@ + spec_dec((spec_count_nl(s, p) + 1) as nat) + ", column "@
        + spec_dec((p - spec_line_start(s, p) + 1) as nat)
}

/// Render a parse error as a line/column-annotated message.
pub fn friendly_error(input: &str, e: &ParseError) -> (r: String)
    ensures
        r@ == spec_friendly_error(input@, e.pos as int),
{
    let s = str_to_chars(input);
    let p = if e.pos <= s.len() {
        e.pos
    } else {
        s.len()
    };
    let mut count: usize = 0;
    let mut line_start: usize = 0;
    let mut i: usize = 0;
    while i < p
        invariant
            0 <= i <= p <= s@.len(),
            count == spec_count_nl(s@, i as int),
            line_start == spec_line_start(s@, i as int),
            count <= i,
            line_start <= i,
        decreases p - i,
    {
        if s[i] == '\n' {
            count = count + 1;
            line_start = i + 1;
        }
        i = i + 1;
    }
    let mut out: Vec<char> = Vec::new();
    crate::text::push_str_chars(&mut out, "parse error at line ");
    push_dec(count as u128 + 1, &mut out);
    crate::text::push_str_chars(&mut out, ", column ");
    push_dec((p - line_start) as u128 + 1, &mut out);
    let r = chars_to_string(&out);
    proof {
        assert(r@ =~= spec_friendly_error(input@, e.pos as int));
    }
    r
}

} // verus!
