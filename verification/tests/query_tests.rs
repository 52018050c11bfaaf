//! Tests for the selector router, `describe` and `modify`.

use dwsyntax::key::IntoKey;
use dwsyntax::parser::query::{describe, find, modify};
use dwsyntax::value::{PropMap, Value};

fn lit(s: &str) -> Value {
    Value::Literal(s.to_string())
}

fn dqt(s: &str) -> Value {
    Value::DoubleQuotedString(s.to_string())
}

fn sqt(s: &str) -> Value {
    Value::SingleQuotedString(s.to_string())
}

fn num(s: &str) -> Value {
    Value::Number(s.to_string())
}

fn query_doc_source() -> &'static str {
    "\n        release 12.5;datawindow(empty_dqt=\"\"  empty_sqt = '' num=1073741824 lit=yes  )\n        header(num=564 dqt=\"536870912\"sqt='100' )\n        table(column=(type= char(80  ) updatewhereclause=yes name=col1 dbname=\"col1\" )\n        retrieve=\"SQL\n        CLAUSE \"\n            arguments = ( (\"a\", string ), ( \"b\", string)  )\n        )group(level=1 trailer.height=76 by= (  \"col1\",   'col2' ))\n        group(level=2 trailer.height=76 by= (  \"col1\",   'col2' ))\n        column(band=detail id=1 name=col1 alignment=\"1\" tabsequence=32766 border=\"0\" color=\"33554432\")\n        compute(band=trailer.5 alignment=\"2\"name=compute_1 expression=\"count(jw_no for group 5 )+~\"件~\"\"x1=\"0\"  )\n        "
}

#[test]
fn describe_test_describe() {
    let dw = dwsyntax::parse(query_doc_source()).unwrap();

    let value = describe(&dw, "datawindow.header.num").unwrap();
    assert_eq!(value, Some(&num("564")));

    let value = describe(&dw, "datawindow.lit").unwrap();
    assert_eq!(value, Some(&lit("yes")));

    let value = describe(&dw, "datawindow.trailer.1.height").unwrap();
    assert_eq!(value, Some(&num("76")));

    let value = describe(&dw, "datawindow.group.2.by").unwrap();
    assert_eq!(value, Some(&Value::List(vec![dqt("col1"), sqt("col2")])));

    let value = describe(&dw, "datawindow.table.column.1.type").unwrap();
    assert_eq!(value, Some(&lit("char(80  )")));

    let value = describe(&dw, "datawindow.table.column.col1.dbname").unwrap();
    assert_eq!(value, Some(&dqt("col1")));

    let value = describe(&dw, "datawindow.table.retrieve").unwrap();
    assert_eq!(value, Some(&dqt("SQL\n        CLAUSE ")));

    let value = describe(&dw, "compute_1.expression").unwrap();
    assert_eq!(value, Some(&dqt("count(jw_no for group 5 )+~\"件~\"")));
}

#[test]
fn query_test_describe() {
    let dw = dwsyntax::parse(query_doc_source()).unwrap();

    let value = describe(&dw, "datawindow.header.num").unwrap();
    assert_eq!(value, Some(&num("564")));

    let value = describe(&dw, "datawindow.lit").unwrap();
    assert_eq!(value, Some(&lit("yes")));

    let value = describe(&dw, "datawindow.trailer.1.height").unwrap();
    assert_eq!(value, Some(&num("76")));

    let value = describe(&dw, "datawindow.group.2.by").unwrap();
    assert_eq!(value, Some(&Value::List(vec![dqt("col1"), sqt("col2")])));

    let value = describe(&dw, "datawindow.table.column.1.type").unwrap();
    assert_eq!(value, Some(&lit("char(80  )")));

    let value = describe(&dw, "datawindow.table.column.col1.dbname").unwrap();
    assert_eq!(value, Some(&dqt("col1")));

    let value = describe(&dw, "datawindow.table.retrieve").unwrap();
    assert_eq!(value, Some(&dqt("SQL\n        CLAUSE ")));

    let value = describe(&dw, "col1.color").unwrap();
    assert_eq!(value, Some(&dqt("33554432")));

    let value = describe(&dw, "#1.name").unwrap();
    assert_eq!(value, Some(&lit("col1")));

    let value = describe(&dw, "col1.dbname").unwrap();
    assert_eq!(value, Some(&dqt("col1")));

    let value = describe(&dw, "col1.coltype").unwrap();
    assert_eq!(value, Some(&lit("char(80  )")));

    let value = describe(&dw, "compute_1.expression").unwrap();
    assert_eq!(value, Some(&dqt("count(jw_no for group 5 )+~\"件~\"")));
}

#[test]
fn test_modify() {
    let mut dw = dwsyntax::parse(query_doc_source()).unwrap();

    let modifier =
        "datawindow.num=12345;datawindow.num=12345;col1.dbname='test';datawindow.group.1.level=100";
    modify(&mut dw, modifier).unwrap();

    let value = describe(&dw, "datawindow.num").unwrap();
    assert_eq!(value, Some(&num("12345")));
}

#[test]
fn describe_string_forms() {
    let dw = dwsyntax::parse(query_doc_source()).unwrap();
    // a found value is stringified; quotes stay when the content holds a
    // line break, tilde escapes unfold otherwise
    assert_eq!(dw.describe("datawindow.header.num"), "564");
    assert_eq!(dw.describe("datawindow.lit"), "yes");
    assert_eq!(dw.describe("datawindow.table.retrieve"), "\"SQL\n        CLAUSE \"");
    assert_eq!(dw.describe("compute_1.expression"), "count(jw_no for group 5 )+\"件\"");
    // a valid target whose key is absent answers `?`, a bad selector `!`
    assert_eq!(dw.describe("datawindow.header.missing"), "?");
    assert_eq!(dw.describe("no_such_item.x"), "!");
    assert_eq!(dw.describe("datawindow.trailer.9.height"), "!");
    assert_eq!(dw.describe("datawindow"), "!");
    assert_eq!(dw.describe("datawindow..x"), "!");
}

#[test]
fn describe_pseudo_properties() {
    let dw = dwsyntax::parse(query_doc_source()).unwrap();
    assert_eq!(dw.describe("datawindow.column.count"), "1");
    assert_eq!(dw.describe("datawindow.objects"), "col1\tcompute_1");
    assert_eq!(dw.describe(" datawindow.syntax "), dw.render());
    let dw2 = two_column_doc();
    assert_eq!(dw2.describe("datawindow.column.count"), "2");
    // a stored property of the same name wins over the pseudo-property
    let mut dw3 = dwsyntax::parse("release 1;datawindow(a=1)").unwrap();
    assert_eq!(dw3.modify("datawindow.objects='own'"), "");
    assert_eq!(dw3.describe("datawindow.objects"), "own");
}

#[test]
fn describe_header_group_reroute() {
    // the numeric third component reroutes to the matching group item,
    // with the consumed band name turned into a key prefix
    let dw = dwsyntax::parse(
        "release 1;header(h=5)group(level=1 header.height=99)group(level=2 footer.height=7)",
    )
    .unwrap();
    assert_eq!(dw.describe("datawindow.header.1.height"), "99");
    assert_eq!(dw.describe("datawindow.footer.2.height"), "7");
    assert_eq!(dw.describe("datawindow.header.h"), "5");
    assert_eq!(dw.describe("datawindow.header.hx"), "?");
}

#[test]
fn describe_column_index_and_name_agree() {
    let dw = dwsyntax::parse(query_doc_source()).unwrap();
    assert_eq!(
        dw.describe("datawindow.table.column.1.type"),
        dw.describe("datawindow.table.column.col1.type")
    );
    assert_eq!(dw.describe("datawindow.table.column.1.type"), "char(80  )");
}

fn two_column_doc() -> dwsyntax::DWSyntax {
    dwsyntax::parse(
        "release 1;table(column=(type=char(10) name=col1) column=(type=char(20) name=col2) sort=\"a\")\n         column(band=detail id=1 name=col1)\n         column(band=detail id=2 name=col2)\n         text(name=t1)",
    )
    .unwrap()
}

#[test]
fn destroy_column_cascades() {
    let mut dw = two_column_doc();
    assert_eq!(dw.modify("destroy datawindow.table.column.col1"), "");
    // column 1 is gone from the table
    assert_eq!(dw.table.columns.len(), 1);
    assert_eq!(dw.describe("datawindow.table.column.1.type"), "char(20)");
    // the bound control with id 1 was deleted with it
    assert_eq!(dw.describe("#1.band"), "detail");
    assert_eq!(dw.describe("#1.name"), "col2");
    // the later control slid down: both the field and the stored property
    let v = find(&dw, "col2.id").unwrap();
    assert_eq!(v, Some(&num("1")));
    assert_eq!(dw.items[0].name, Some("col2".into_key()));
    assert_eq!(dw.items[0].id, Some(1));
    // other items are untouched
    assert_eq!(dw.describe("t1.name"), "t1");
}

#[test]
fn destroy_targets_whole_containers() {
    let mut dw = two_column_doc();
    // a destroy selector with a leftover key is an error
    assert_ne!(dw.modify("destroy datawindow.table.column.col1.type"), "");
    // destroying a named item removes exactly that item
    let before = dw.items.len();
    assert_eq!(dw.modify("destroy t1"), "");
    assert_eq!(dw.items.len(), before - 1);
    // destroying the table clears columns and options
    assert_eq!(dw.modify("destroy datawindow.table"), "");
    assert!(dw.table.is_empty());
}

#[test]
fn create_appends_then_replaces() {
    let mut dw = dwsyntax::parse(query_doc_source()).unwrap();
    let before = dw.items.len();
    assert_eq!(
        dw.modify("create compute(name=compute_2 level=2 band=trailer.5)"),
        ""
    );
    assert_eq!(dw.items.len(), before + 1);
    assert_eq!(dw.describe("compute_2.band"), "trailer.5");
    // the same create again replaces in place instead of duplicating
    assert_eq!(
        dw.modify("create compute(name=compute_2 level=2 band=trailer.9)"),
        ""
    );
    assert_eq!(dw.items.len(), before + 1);
    assert_eq!(dw.describe("compute_2.band"), "trailer.9");
}

#[test]
fn assign_updates_lookup_fields() {
    let mut dw = dwsyntax::parse(query_doc_source()).unwrap();
    // renaming an item through assign keeps the name lookup in sync
    assert_eq!(dw.modify("compute_1.name=compute_9"), "");
    assert_eq!(dw.describe("compute_9.alignment"), "2");
    assert_eq!(dw.describe("compute_1.alignment"), "!");
    // an id assignment keeps the #id lookup in sync
    assert_eq!(dw.modify("compute_9.id=77"), "");
    assert_eq!(dw.describe("#77.name"), "compute_9");
    // earlier statements stay applied when a later one fails
    assert_ne!(dw.modify("datawindow.zz=1 nonsense..=2"), "");
    assert_eq!(dw.describe("datawindow.zz"), "1");
}

#[test]
fn create_replaces_singletons_and_data() {
    let mut dw = dwsyntax::parse("release 1;datawindow(a=1 b=2)data(1,2)").unwrap();
    assert_eq!(dw.modify("create datawindow(c=3)"), "");
    assert_eq!(dw.describe("datawindow.a"), "?");
    assert_eq!(dw.describe("datawindow.c"), "3");
    assert_eq!(dw.modify("create data(null 7)"), "");
    assert_eq!(dw.data, vec![lit("null"), num("7")]);
    assert_eq!(dw.modify("create table(column=(name=cx) k=\"v\")"), "");
    assert_eq!(dw.describe("datawindow.table.column.count"), "!");
    assert_eq!(dw.describe("datawindow.column.count"), "1");
}

#[test]
fn selector_edge_cases() {
    let dw = dwsyntax::parse(query_doc_source()).unwrap();
    // unresolved routing hops are errors, not merely missing values
    assert_eq!(dw.describe("datawindow.table.column.9.type"), "!");
    assert_eq!(dw.describe("datawindow.table.column.nosuch.type"), "!");
    assert_eq!(dw.describe("#9.name"), "!");
    assert_eq!(dw.describe("#x.name"), "!");
    // a whole-container selector has an empty final key: no value
    assert_eq!(dw.describe("datawindow.summary"), "?");
    assert_eq!(dw.describe("datawindow.table"), "?");
}

#[test]
fn modify_statement_separators() {
    let mut dw = dwsyntax::parse("release 1;datawindow(a=1)").unwrap();
    // statements split on `;` or plain whitespace; quoted spaces do not split
    assert_eq!(
        dw.modify("  datawindow.b=2 ; datawindow.c='x y'  datawindow.d=(k=1) ; "),
        ""
    );
    assert_eq!(dw.describe("datawindow.b"), "2");
    assert_eq!(dw.describe("datawindow.c"), "x y");
    assert_eq!(dw.describe("datawindow.d"), "(k=1)");
    // an empty statement list is an error, and so is a value no
    // alternative accepts; neither applies anything
    assert_ne!(dw.modify(""), "");
    assert_ne!(dw.modify("datawindow.e=["), "");
    assert_eq!(dw.describe("datawindow.e"), "?");
}

#[test]
fn propmap_insert_and_get() {
    let mut m = PropMap::new();
    assert!(m.is_empty());
    m.insert("a".into_key(), num("1"));
    m.insert("b".into_key(), num("2"));
    m.insert("a".into_key(), num("3"));
    // overwriting keeps the position, so order of entries is a, b
    assert_eq!(m.len(), 2);
    assert_eq!(m.get("a"), Some(&num("3")));
    assert_eq!(m.get("b"), Some(&num("2")));
    assert_eq!(m.get("c"), None);
    m.clear();
    assert_eq!(m.len(), 0);
}

#[test]
fn value_accessors() {
    assert!(lit("x").is_literal());
    assert!(dqt("x").is_string() && sqt("x").is_string());
    assert!(num("1").is_number());
    assert!(Value::Mapping(PropMap::new()).is_map());
    assert!(Value::List(vec![]).is_list());
    assert_eq!(lit("x").as_literal(), Some(&"x".to_string()));
    assert_eq!(dqt("x").as_string(), Some(&"x".to_string()));
    assert_eq!(num("12").as_number(), Some(&"12".to_string()));
    assert!(Value::Mapping(PropMap::new()).as_map().is_some());
    assert!(Value::List(vec![]).as_list().is_some());
    assert_eq!(num("1").as_literal(), None);
    assert_eq!(lit("x").as_number(), None);
}
