//! Tests for the grammar level: header lines, the version statement,
//! clause bodies, values and whole documents.

use dwsyntax::ast::{DWSyntax, Item, ItemTable, ItemTableColumn};
use dwsyntax::key::IntoKey;
use dwsyntax::parser::item::{item, SumItem};
use dwsyntax::parser::value::{list, literal, number, string};
use dwsyntax::parser::{key_value, srd_file_header, value_map, version};
use dwsyntax::value::{PropMap, Value};

fn cv(s: &str) -> Vec<char> {
    s.chars().collect()
}

fn remaining(s: &Vec<char>, pos: usize) -> String {
    s[pos..].iter().collect()
}

fn lit(s: &str) -> Value {
    Value::Literal(s.to_string())
}

fn dqt(s: &str) -> Value {
    Value::DoubleQuotedString(s.to_string())
}

fn sqt(s: &str) -> Value {
    Value::SingleQuotedString(s.to_string())
}

fn num(s: &str) -> Value {
    Value::Number(s.to_string())
}

fn pm(pairs: Vec<(&str, Value)>) -> PropMap {
    let mut m = PropMap::new();
    for (k, v) in pairs {
        m.insert(k.into_key(), v);
    }
    m
}

#[test]
fn parser_test_srd_file_header() {
    let s = cv("$PBExportHeader$d_rpt_jewel_loc_in_cost_list.srd\r\n");
    let (pos, name, comment) = srd_file_header(&s, 0);
    assert_eq!(remaining(&s, pos), "");
    assert_eq!(
        (name, comment),
        (Some("d_rpt_jewel_loc_in_cost_list.srd".to_string()), None)
    );
    let s = cv("$PBExportComments$首饰入库成本明细表\r\n");
    let (pos, name, comment) = srd_file_header(&s, 0);
    assert_eq!(remaining(&s, pos), "");
    assert_eq!((name, comment), (None, Some("首饰入库成本明细表".to_string())));
    let s = cv(
        "$PBExportHeader$d_rpt_jewel_loc_in_cost_list.srd\r\n$PBExportComments$首饰入库成本明细表\r\nrelease 19;",
    );
    let (pos, name, comment) = srd_file_header(&s, 0);
    assert_eq!(remaining(&s, pos), "release 19;");
    assert_eq!(
        (name, comment),
        (
            Some("d_rpt_jewel_loc_in_cost_list.srd".to_string()),
            Some("首饰入库成本明细表".to_string())
        )
    );
    let s = cv("WrongHeader");
    let (pos, name, comment) = srd_file_header(&s, 0);
    assert_eq!(remaining(&s, pos), "WrongHeader");
    assert_eq!((name, comment), (None, None));
}

#[test]
fn parser_test_version() {
    let s = cv("release 19;");
    let (pos, output) = version(&s, 0).unwrap();
    assert_eq!(remaining(&s, pos), "");
    assert_eq!(output, "19");
    let s = cv(" release   12.5  ;datawindow()");
    let (pos, output) = version(&s, 0).unwrap();
    assert_eq!(remaining(&s, pos), "datawindow()");
    assert_eq!(output, "12.5");
    assert!(version(&cv("releasex 19;"), 0).is_err());
    assert!(version(&cv("release 19 . 5;"), 0).is_err());
}

#[test]
fn parser_test_item() {
    let s = cv("group(key=value key2=132 key3='abc~'123\"')");
    let (pos, output) = item(&s, 0).unwrap();
    assert_eq!(remaining(&s, pos), "");
    assert_eq!(
        output,
        SumItem::Item(Item {
            kind: "group".into_key(),
            name: None,
            id: None,
            level: None,
            values: pm(vec![
                ("key", lit("value")),
                ("key2", num("132")),
                ("key3", sqt("abc~'123\"")),
            ]),
        })
    );
    let s = cv(
        "table(column=(type=char(10)name=col1) column=(type=char(20)name=col2)arguments = ( (\"a\", string ), ( \"b\", string)  ))",
    );
    let (pos, output) = item(&s, 0).unwrap();
    assert_eq!(remaining(&s, pos), "");
    assert_eq!(
        output,
        SumItem::ItemTable(ItemTable {
            columns: vec![
                ItemTableColumn {
                    name: Some("col1".into_key()),
                    values: pm(vec![("type", lit("char(10)")), ("name", lit("col1"))]),
                },
                ItemTableColumn {
                    name: Some("col2".into_key()),
                    values: pm(vec![("type", lit("char(20)")), ("name", lit("col2"))]),
                },
            ],
            values: pm(vec![(
                "arguments",
                Value::List(vec![
                    Value::List(vec![dqt("a"), lit("string")]),
                    Value::List(vec![dqt("b"), lit("string")]),
                ])
            )]),
        })
    );
    assert!(item(&cv("group[]"), 0).is_err());
    assert!(item(&cv("group xx()"), 0).is_err());
}

#[test]
fn item_test_item() {
    let s = cv("group(level=1 key=value key2=132 key3='abc~'123\"')");
    let (pos, output) = item(&s, 0).unwrap();
    assert_eq!(remaining(&s, pos), "");
    assert_eq!(
        output,
        SumItem::Item(Item {
            kind: "group".into_key(),
            name: None,
            id: None,
            level: Some(1),
            values: pm(vec![
                ("level", num("1")),
                ("key", lit("value")),
                ("key2", num("132")),
                ("key3", sqt("abc~'123\"")),
            ]),
        })
    );
    let s = cv(
        "table(column=(type=char(10)name=col1) column=(type=char(20)name=col2)arguments = ( (\"a\", string ), ( \"b\", string)  ))",
    );
    let (pos, output) = item(&s, 0).unwrap();
    assert_eq!(remaining(&s, pos), "");
    assert_eq!(
        output,
        SumItem::ItemTable(ItemTable {
            columns: vec![
                ItemTableColumn {
                    name: Some("col1".into_key()),
                    values: pm(vec![("type", lit("char(10)")), ("name", lit("col1"))]),
                },
                ItemTableColumn {
                    name: Some("col2".into_key()),
                    values: pm(vec![("type", lit("char(20)")), ("name", lit("col2"))]),
                },
            ],
            values: pm(vec![(
                "arguments",
                Value::List(vec![
                    Value::List(vec![dqt("a"), lit("string")]),
                    Value::List(vec![dqt("b"), lit("string")]),
                ])
            )]),
        })
    );
    assert!(item(&cv("group[]"), 0).is_err());
    assert!(item(&cv("group xx()"), 0).is_err());
}

#[test]
fn test_item_data() {
    let dw = r#"data( 1, null  2001-12-31 12:00:12:0000,2001-12-31,11:11:23:0000  ,"自增(ID)","\r\n参数1",1,2,3,null "固定,字符","参数2",null 1,null, )abc"#;
    let s = cv(dw);
    let (pos, output) = item(&s, 0).unwrap();
    assert_eq!(remaining(&s, pos), "abc");
    assert_eq!(
        output,
        SumItem::ItemData(vec![
            num("1"),
            lit("null"),
            lit("2001-12-31 12:00:12:0000"),
            lit("2001-12-31"),
            lit("11:11:23:0000"),
            dqt("自增(ID)"),
            dqt("\\r\\n参数1"),
            num("1"),
            num("2"),
            num("3"),
            lit("null"),
            dqt("固定,字符"),
            dqt("参数2"),
            lit("null"),
            num("1"),
            lit("null"),
        ])
    );
}

#[test]
fn parser_test_value_map() {
    let s = cv("(key1=123.45 key2=value key3='abc'key4=\"abc\")");
    let (pos, output) = value_map(&s, 0).unwrap();
    assert_eq!(remaining(&s, pos), "");
    assert_eq!(
        output,
        pm(vec![
            ("key1", num("123.45")),
            ("key2", lit("value")),
            ("key3", sqt("abc")),
            ("key4", dqt("abc")),
        ])
    );
    assert!(value_map(&cv("(123=bac)"), 0).is_err());
    assert!(value_map(&cv("(key1=123 2key2=345)"), 0).is_err());
}

#[test]
fn parser_test_key_value() {
    let s = cv("key=123.45");
    let (pos, (k, v)) = key_value(&s, 0).unwrap();
    assert_eq!(remaining(&s, pos), "");
    assert_eq!((k, v), ("key".into_key(), num("123.45")));
    let s = cv("key=value");
    let (pos, (k, v)) = key_value(&s, 0).unwrap();
    assert_eq!(remaining(&s, pos), "");
    assert_eq!((k, v), ("key".into_key(), lit("value")));
    let s = cv("key='abc~'def~'\nghi'");
    let (pos, (k, v)) = key_value(&s, 0).unwrap();
    assert_eq!(remaining(&s, pos), "");
    assert_eq!((k, v), ("key".into_key(), sqt("abc~'def~'\nghi")));
    let s = cv("key=\"abc'\ndef~\"ghi~\"\"");
    let (pos, (k, v)) = key_value(&s, 0).unwrap();
    assert_eq!(remaining(&s, pos), "");
    assert_eq!((k, v), ("key".into_key(), dqt("abc'\ndef~\"ghi~\"")));
    assert!(key_value(&cv("123=bac"), 0).is_err());
    assert!(key_value(&cv("2key2=345"), 0).is_err());
    assert!(key_value(&cv("123:sadf23"), 0).is_err());
}

fn big_doc_source(with_level: bool) -> String {
    let group = if with_level {
        "group(level=1 trailer.height=76 by= (  \"col1\",   'col2' ))"
    } else {
        "group(trailer.height=76 by= (  \"col1\",   'col2' ))"
    };
    format!(
        "\n        release 12.5;datawindow(empty_dqt=\"\"  empty_sqt = '' num=1073741824 lit=yes  )\n        header(num=564 dqt=\"536870912\"sqt='100' )\n        table(column=(type= char(80  ) updatewhereclause=yes name=col1 dbname=\"col1\" )\n        retrieve=\"SQL\n        CLAUSE \"\n            arguments = ( (\"a\", string ), ( \"b\", string)  )\n        ){}\n        compute(band=trailer.5 alignment=\"2\"name=compute_1 expression=\"count(jw_no for group 5 )+~\"件~\"\"x1=\"0\"  )\n        ",
        group
    )
}

fn expected_big_doc(with_level: bool) -> DWSyntax {
    let mut group_values = vec![];
    if with_level {
        group_values.push(("level", num("1")));
    }
    group_values.push(("trailer.height", num("76")));
    group_values.push(("by", Value::List(vec![dqt("col1"), sqt("col2")])));
    DWSyntax {
        name: None,
        comment: None,
        version: "12.5".to_string(),
        datawindow: pm(vec![
            ("empty_dqt", dqt("")),
            ("empty_sqt", sqt("")),
            ("num", num("1073741824")),
            ("lit", lit("yes")),
        ]),
        header: pm(vec![
            ("num", num("564")),
            ("dqt", dqt("536870912")),
            ("sqt", sqt("100")),
        ]),
        summary: PropMap::new(),
        footer: PropMap::new(),
        detail: PropMap::new(),
        table: ItemTable {
            columns: vec![ItemTableColumn {
                name: Some("col1".into_key()),
                values: pm(vec![
                    ("type", lit("char(80  )")),
                    ("updatewhereclause", lit("yes")),
                    ("name", lit("col1")),
                    ("dbname", dqt("col1")),
                ]),
            }],
            values: pm(vec![
                ("retrieve", dqt("SQL\n        CLAUSE ")),
                (
                    "arguments",
                    Value::List(vec![
                        Value::List(vec![dqt("a"), lit("string")]),
                        Value::List(vec![dqt("b"), lit("string")]),
                    ]),
                ),
            ]),
        },
        data: vec![],
        items: vec![
            Item {
                kind: "group".into_key(),
                name: None,
                id: None,
                level: if with_level { Some(1) } else { None },
                values: pm(group_values),
            },
            Item {
                kind: "compute".into_key(),
                name: Some("compute_1".into_key()),
                id: None,
                level: None,
                values: pm(vec![
                    ("band", lit("trailer.5")),
                    ("alignment", dqt("2")),
                    ("name", lit("compute_1")),
                    ("expression", dqt("count(jw_no for group 5 )+~\"件~\"")),
                    ("x1", dqt("0")),
                ]),
            },
        ],
    }
}

fn expected_big_render(with_level: bool) -> String {
    let group = if with_level {
        "group(level=1 trailer.height=76 by=(\"col1\", 'col2'))"
    } else {
        "group(trailer.height=76 by=(\"col1\", 'col2'))"
    };
    format!(
        "release 12.5;\r\ndatawindow(empty_dqt=\"\" empty_sqt='' num=1073741824 lit=yes)\r\nheader(num=564 dqt=\"536870912\" sqt='100')\r\ntable(column=(type=char(80  ) updatewhereclause=yes name=col1 dbname=\"col1\")\r\nretrieve=\"SQL\n        CLAUSE \" arguments=((\"a\", string), (\"b\", string)))\r\n{}\r\ncompute(band=trailer.5 alignment=\"2\" name=compute_1 expression=\"count(jw_no for group 5 )+~\"件~\"\" x1=\"0\")\r\n",
        group
    )
}

#[test]
fn parser_test_parse() {
    let dwsyn = big_doc_source(false);
    let dw = dwsyntax::parse(&dwsyn).unwrap();
    assert_eq!(dw, expected_big_doc(false));
    assert_eq!(dw.render(), expected_big_render(false));
}

#[test]
fn mod_test_parse() {
    let dwsyn = big_doc_source(true);
    let dw = dwsyntax::parse(&dwsyn).unwrap();
    assert_eq!(dw, expected_big_doc(true));
    assert_eq!(dw.render(), expected_big_render(true));
}

#[test]
fn mod_test_srd_file_header() {
    let s = cv("$PBExportHeader$d_rpt_jewel_loc_in_cost_list.srd\r\n");
    let (pos, name, comment) = srd_file_header(&s, 0);
    assert_eq!(remaining(&s, pos), "");
    assert_eq!(
        (name, comment),
        (Some("d_rpt_jewel_loc_in_cost_list.srd".to_string()), None)
    );
    let s = cv("$PBExportComments$首饰入库成本明细表\r\n");
    let (pos, name, comment) = srd_file_header(&s, 0);
    assert_eq!(remaining(&s, pos), "");
    assert_eq!((name, comment), (None, Some("首饰入库成本明细表".to_string())));
    let s = cv(
        "$PBExportHeader$d_rpt_jewel_loc_in_cost_list.srd\r\n$PBExportComments$首饰入库成本明细表\r\nrelease 19;",
    );
    let (pos, name, comment) = srd_file_header(&s, 0);
    assert_eq!(remaining(&s, pos), "release 19;");
    assert_eq!(
        (name, comment),
        (
            Some("d_rpt_jewel_loc_in_cost_list.srd".to_string()),
            Some("首饰入库成本明细表".to_string())
        )
    );
    let s = cv("WrongHeader");
    let (pos, name, comment) = srd_file_header(&s, 0);
    assert_eq!(remaining(&s, pos), "WrongHeader");
    assert_eq!((name, comment), (None, None));
}

#[test]
fn mod_test_version() {
    let s = cv("release 19;");
    let (pos, output) = version(&s, 0).unwrap();
    assert_eq!(remaining(&s, pos), "");
    assert_eq!(output, "19");
    let s = cv(" release   12.5  ;datawindow()");
    let (pos, output) = version(&s, 0).unwrap();
    assert_eq!(remaining(&s, pos), "datawindow()");
    assert_eq!(output, "12.5");
    assert!(version(&cv("releasex 19;"), 0).is_err());
    assert!(version(&cv("release 19 . 5;"), 0).is_err());
}

#[test]
fn mod_test_value_map() {
    let s = cv("(key1=123.45 key2=value key3='abc'key4=\"abc\")");
    let (pos, output) = value_map(&s, 0).unwrap();
    assert_eq!(remaining(&s, pos), "");
    assert_eq!(
        output,
        pm(vec![
            ("key1", num("123.45")),
            ("key2", lit("value")),
            ("key3", sqt("abc")),
            ("key4", dqt("abc")),
        ])
    );
    assert!(value_map(&cv("(123=bac)"), 0).is_err());
    assert!(value_map(&cv("(key1=123 2key2=345)"), 0).is_err());
}

#[test]
fn mod_test_key_value() {
    let s = cv("key=123.45");
    let (pos, (k, v)) = key_value(&s, 0).unwrap();
    assert_eq!(remaining(&s, pos), "");
    assert_eq!((k, v), ("key".into_key(), num("123.45")));
    let s = cv("key=value");
    let (pos, (k, v)) = key_value(&s, 0).unwrap();
    assert_eq!(remaining(&s, pos), "");
    assert_eq!((k, v), ("key".into_key(), lit("value")));
    let s = cv("key='abc~'def~'\nghi'");
    let (pos, (k, v)) = key_value(&s, 0).unwrap();
    assert_eq!(remaining(&s, pos), "");
    assert_eq!((k, v), ("key".into_key(), sqt("abc~'def~'\nghi")));
    let s = cv("key=\"abc'\ndef~\"ghi~\"\"");
    let (pos, (k, v)) = key_value(&s, 0).unwrap();
    assert_eq!(remaining(&s, pos), "");
    assert_eq!((k, v), ("key".into_key(), dqt("abc'\ndef~\"ghi~\"")));
    assert!(key_value(&cv("123=bac"), 0).is_err());
    assert!(key_value(&cv("2key2=345"), 0).is_err());
    assert!(key_value(&cv("123:sadf23"), 0).is_err());
}

#[test]
fn value_grammar_alternatives() {
    // string and number forms win over bare literals; a literal keeps a
    // parenthesized suffix verbatim
    let s = cv("char( 80 )x");
    let (pos, v) = literal(&s, 0).unwrap();
    assert_eq!(remaining(&s, pos), "x");
    assert_eq!(v, lit("char( 80 )"));
    let s = cv("-12.5e3,");
    let (pos, v) = number(&s, 0).unwrap();
    assert_eq!(remaining(&s, pos), ",");
    assert_eq!(v, num("-12.5e3"));
    let s = cv("(\"a\", (b, 'c'))");
    let (pos, v) = list(&s, 0).unwrap();
    assert_eq!(remaining(&s, pos), "");
    assert_eq!(
        v,
        Value::List(vec![dqt("a"), Value::List(vec![lit("b"), sqt("c")])])
    );
    let s = cv("(k=1)");
    let (pos, v) = dwsyntax::parser::value::map(&s, 0).unwrap();
    assert_eq!(remaining(&s, pos), "");
    assert_eq!(v, Value::Mapping(pm(vec![("k", num("1"))])));
    assert!(string(&cv("abc"), 0).is_err());
}

#[test]
fn loose_format_needs_no_separators() {
    // three properties with no separators at all between the pairs
    let s = cv("(key1=\"a\"key2=123key3=char(10))");
    let (pos, output) = value_map(&s, 0).unwrap();
    assert_eq!(remaining(&s, pos), "");
    assert_eq!(
        output,
        pm(vec![
            ("key1", dqt("a")),
            ("key2", num("123")),
            ("key3", lit("char(10)")),
        ])
    );
}

#[test]
fn escape_fidelity() {
    // the raw content keeps the tilde escapes; describe unfolds them
    let s = cv("'abc~'123\"'");
    let (pos, v) = string(&s, 0).unwrap();
    assert_eq!(pos, s.len());
    assert_eq!(v, sqt("abc~'123\""));
    let dw = dwsyntax::parse("release 1;datawindow(k='abc~'123\"')").unwrap();
    assert_eq!(dw.describe("datawindow.k"), "abc'123\"");
}

#[test]
fn empty_quote_special_case() {
    let s = cv("\"\"x");
    let (pos, v) = string(&s, 0).unwrap();
    assert_eq!(remaining(&s, pos), "x");
    assert_eq!(v, dqt(""));
    let s = cv("''y");
    let (pos, v) = string(&s, 0).unwrap();
    assert_eq!(remaining(&s, pos), "y");
    assert_eq!(v, sqt(""));
}

#[test]
fn data_clause_flattening() {
    // slot boundaries are discarded: six flat values come out
    let s = cv("data(null null 0, \"a\", null 1)");
    let (pos, output) = item(&s, 0).unwrap();
    assert_eq!(remaining(&s, pos), "");
    assert_eq!(
        output,
        SumItem::ItemData(vec![
            lit("null"),
            lit("null"),
            num("0"),
            dqt("a"),
            lit("null"),
            num("1"),
        ])
    );
}

#[test]
fn round_trip_reparse() {
    // a successfully parsed document re-parses from its rendered text to
    // a structurally equal document
    for with_level in [false, true] {
        let dw = dwsyntax::parse(&big_doc_source(with_level)).unwrap();
        let text = dw.render();
        let dw2 = dwsyntax::parse(&text).unwrap();
        assert_eq!(dw, dw2);
        assert_eq!(dw2.render(), text);
    }
}

#[test]
fn trailing_garbage_is_a_hard_error() {
    assert!(dwsyntax::parse("release 1;datawindow(a=1) leftover[").is_err());
    let err = dwsyntax::parse("release ;").unwrap_err();
    assert!(err.starts_with("parse error at line "));
    assert_ne!(dwsyntax::DWSyntax::parse("no version here").ok(), Some(expected_big_doc(false)));
    assert!(dwsyntax::DWSyntax::parse("no version here").is_err());
}

#[test]
fn parse_errors_carry_line_and_column() {
    assert_eq!(
        dwsyntax::parse("x").unwrap_err(),
        "parse error at line 1, column 1"
    );
    assert_eq!(
        dwsyntax::parse("release 1;\n+").unwrap_err(),
        "parse error at line 2, column 1"
    );
}

#[test]
fn hard_error_after_commit_point() {
    // once `key=` is consumed, a value that fits no alternative is fatal
    let s = cv("(key1=[)");
    assert!(value_map(&s, 0).unwrap_err().hard);
    // a list value is still reached when the body is no map
    let s = cv("args=((\"a\", b), c)");
    let (pos, (_, v)) = key_value(&s, 0).unwrap();
    assert_eq!(remaining(&s, pos), "");
    assert_eq!(
        v,
        Value::List(vec![Value::List(vec![dqt("a"), lit("b")]), lit("c")])
    );
}
