//! The value grammar: literals, quoted strings, numbers, nested maps and
//! lists.

use vstd::prelude::*;
use super::ParseError;
use crate::grammar::{
    PRes, spec_list, spec_list_elems, spec_literal, spec_number, spec_quoted_end, spec_string,
    spec_value,
};
use crate::model::{value_wf, ValueModel};
use crate::text::{
    chars_substring, is_key_char, match_tag, scan_ascii_digits, scan_key_chars, skip_ws,
};
use crate::value::{list_model, Value};

verus! {

/// A bare literal token, with its optional verbatim parenthesized suffix.
pub fn literal(s: &Vec<char>, pos: usize) -> (r: Result<(usize, Value), ParseError>)
    requires
        pos <= s@.len(),
    ensures
        match r {
            Ok((next, v)) => pos < next <= s@.len() && (spec_literal(s@, pos as int) matches
                PRes::Val { next: n, v: t } && n == next as int && v.model()
                == ValueModel::Literal(t)),
            Err(e) => !e.hard && spec_literal(s@, pos as int) is Fail,
        },
{
    if !(pos < s.len() && s[pos].is_alphabetic()) {
        return Err(ParseError::at(pos, false, "literal"));
    }
    // letter run, optional spaces, then a parenthesized key-character run
    let a = crate::text::scan_alphabetic(s, pos);
    let w = skip_ws(s, a);
    let mut paren_end: usize = pos;
    if w < s.len() && s[w] == '(' {
        let i0 = skip_ws(s, w + 1);
        let i1 = scan_key_chars(s, i0);
        let i2 = skip_ws(s, i1);
        if i1 > i0 && i2 < s.len() && s[i2] == ')' {
            paren_end = i2 + 1;
        }
    }
    if paren_end > pos {
        let tok = chars_substring(s, pos, paren_end);
        Ok((paren_end, Value::Literal(tok)))
    } else {
        let n = scan_key_chars(s, pos);
        let tok = chars_substring(s, pos, n);
        proof {
            assert(is_key_char(s@[pos as int]));
            crate::text::lemma_scan_bounds(s@, pos + 1 as int, |c: char| is_key_char(c));
            assert(n > pos);
        }
        Ok((n, Value::Literal(tok)))
    }
}

/// The end of escaped string content starting at `pos`.
fn quoted_end(s: &Vec<char>, pos: usize, q: char) -> (r: usize)
    requires
        pos <= s@.len(),
    ensures
        r == spec_quoted_end(s@, pos as int, q),
        pos <= r <= s@.len(),
{
    let mut p: usize = pos;
    while p < s.len() && ((s[p] == '~' && s.len() - p >= 2) || (s[p] != '~' && s[p] != q))
        invariant
            pos <= p <= s@.len(),
            spec_quoted_end(s@, pos as int, q) == spec_quoted_end(s@, p as int, q),
        decreases s@.len() - p,
    {
        if s[p] == '~' {
            p = p + 2;
        } else {
            let c = crate::text::scan_not_quote(s, p, q);
            proof {
                crate::text::lemma_scan_not_quote_bounds(s@, p + 1 as int, q);
                assert(c > p);
                assert(spec_quoted_end(s@, p as int, q) == spec_quoted_end(s@, c as int, q));
            }
            p = c;
        }
    }
    p
}

/// A quoted string of either kind, `""` and `''` included.
pub fn string(s: &Vec<char>, pos: usize) -> (r: Result<(usize, Value), ParseError>)
    requires
        pos <= s@.len(),
    ensures
        match r {
            Ok((next, v)) => pos < next <= s@.len() && spec_string(s@, pos as int) == (PRes::Val {
                next: next as int,
                v: v.model(),
            }) && value_wf(v.model()),
            Err(e) => !e.hard && spec_string(s@, pos as int) is Fail,
        },
{
    if pos < s.len() && s[pos] == '"' {
        let e = quoted_end(s, pos + 1, '"');
        if e > pos + 1 && e < s.len() && s[e] == '"' {
            let content = chars_substring(s, pos + 1, e);
            return Ok((e + 1, Value::DoubleQuotedString(content)));
        }
    }
    if match_tag(s, pos, "\"\"") {
        // materialize the length so the index arithmetic is known in bounds
        let _n = s.len();
        proof {
            reveal_strlit("\"\"");
            assert(s@[pos as int] == '"' && s@[pos + 1] == '"') by {
                assert(s@.subrange(pos as int, pos + 2)[0] == '"');
                assert(s@.subrange(pos as int, pos + 2)[1] == '"');
            }
            assert(s@.subrange(pos as int, pos as int) =~= Seq::<char>::empty());
        }
        let content = chars_substring(s, pos, pos);
        return Ok((pos + 2, Value::DoubleQuotedString(content)));
    }
    if pos < s.len() && s[pos] == '\'' {
        let e = quoted_end(s, pos + 1, '\'');
        if e > pos + 1 && e < s.len() && s[e] == '\'' {
            let content = chars_substring(s, pos + 1, e);
            return Ok((e + 1, Value::SingleQuotedString(content)));
        }
    }
    if match_tag(s, pos, "''") {
        // materialize the length so the index arithmetic is known in bounds
        let _n = s.len();
        proof {
            reveal_strlit("''");
            assert(s@[pos as int] == '\'' && s@[pos + 1] == '\'') by {
                assert(s@.subrange(pos as int, pos + 2)[0] == '\'');
                assert(s@.subrange(pos as int, pos + 2)[1] == '\'');
            }
            assert(s@.subrange(pos as int, pos as int) =~= Seq::<char>::empty());
        }
        let content = chars_substring(s, pos, pos);
        return Ok((pos + 2, Value::SingleQuotedString(content)));
    }
    Err(ParseError::at(pos, false, "string"))
}

/// A numeric token.
pub fn number(s: &Vec<char>, pos: usize) -> (r: Result<(usize, Value), ParseError>)
    requires
        pos <= s@.len(),
    ensures
        match r {
            Ok((next, v)) => pos < next <= s@.len() && (spec_number(s@, pos as int) matches
                PRes::Val { next: n, v: t } && n == next as int && v.model()
                == ValueModel::Number(t)),
            Err(e) => !e.hard && spec_number(s@, pos as int) is Fail,
        },
{
    let p1 = if pos < s.len() && (s[pos] == '+' || s[pos] == '-') {
        pos + 1
    } else {
        pos
    };
    let d1 = scan_ascii_digits(s, p1);
    let mantissa_end: usize = if d1 > p1 {
        if d1 < s.len() && s[d1] == '.' {
            scan_ascii_digits(s, d1 + 1)
        } else {
            d1
        }
    } else {
        if p1 < s.len() && s[p1] == '.' {
            let d2 = scan_ascii_digits(s, p1 + 1);
            if d2 > p1 + 1 {
                d2
            } else {
                p1
            }
        } else {
            p1
        }
    };
    if mantissa_end <= p1 && d1 <= p1 {
        return Err(ParseError::at(pos, false, "number"));
    }
    let e = mantissa_end;
    let end: usize = if e < s.len() && (s[e] == 'e' || s[e] == 'E') {
        let q = if e + 1 < s.len() && (s[e + 1] == '+' || s[e + 1] == '-') {
            e + 2
        } else {
            e + 1
        };
        let d3 = scan_ascii_digits(s, q);
        if d3 > q {
            d3
        } else {
            e
        }
    } else {
        e
    };
    let tok = chars_substring(s, pos, end);
    Ok((end, Value::Number(tok)))
}

/// The element loop of a list, after the opening parenthesis.
fn list_elems(s: &Vec<char>, pos: usize, acc: Vec<Value>, first: bool) -> (r: Result<
    (usize, Vec<Value>),
    ParseError,
>)
    requires
        pos <= s@.len(),
        forall|i: int| 0 <= i < acc@.len() ==> value_wf(#[trigger] acc@[i].model()),
    ensures
        match r {
            Ok((next, l)) => pos < next <= s@.len() && spec_list_elems(
                s@,
                pos as int,
                list_model(acc@),
                first,
            ) == (PRes::Val { next: next as int, v: list_model(l@) }) && forall|i: int|
                0 <= i < l@.len() ==> value_wf(#[trigger] l@[i].model()),
            Err(e) => spec_list_elems(s@, pos as int, list_model(acc@), first) == (if e.hard {
                PRes::<Seq<ValueModel>>::Hard
            } else {
                PRes::<Seq<ValueModel>>::Fail
            }),
        },
    decreases s@.len() - pos, 2int,
{
    let p1 = skip_ws(s, pos);
    let elem: Result<(usize, Value), ParseError> = match string(s, p1) {
        Ok(sv) => Ok(sv),
        Err(_) => match literal(s, p1) {
            Ok(lv) => Ok(lv),
            Err(_) => match list(s, p1) {
                Ok(lv) => Ok(lv),
                Err(e) => Err(e),
            },
        },
    };
    match elem {
        Err(e) => {
            if e.hard {
                Err(e)
            } else if first && pos < s.len() && s[pos] == ')' {
                Ok((pos + 1, acc))
            } else {
                Err(ParseError::at(pos, false, "list"))
            }
        },
        Ok((next, v)) => {
            let p2 = skip_ws(s, next);
            let ghost acc0 = list_model(acc@);
            let mut acc = acc;
            acc.push(v);
            proof {
                assert(list_model(acc@) =~= acc0.push(acc@[acc@.len() - 1].model()));
            }
            if p2 < s.len() && s[p2] == ',' {
                list_elems(s, p2 + 1, acc, false)
            } else if p2 < s.len() && s[p2] == ')' {
                Ok((p2 + 1, acc))
            } else {
                Err(ParseError::at(p2, false, "list"))
            }
        },
    }
}

/// A parenthesized, comma-separated list value.
pub fn list(s: &Vec<char>, pos: usize) -> (r: Result<(usize, Value), ParseError>)
    requires
        pos <= s@.len(),
    ensures
        match r {
            Ok((next, v)) => pos < next <= s@.len() && (spec_list(s@, pos as int) matches
                PRes::Val { next: n, v: l } && n == next as int && v.model() == ValueModel::List(l)
                && value_wf(v.model())),
            Err(e) => spec_list(s@, pos as int) == (if e.hard {
                PRes::<Seq<ValueModel>>::Hard
            } else {
                PRes::<Seq<ValueModel>>::Fail
            }),
        },
    decreases s@.len() - pos, 0int,
{
    if pos < s.len() && s[pos] == '(' {
        let acc: Vec<Value> = Vec::new();
        proof {
            assert(list_model(acc@) =~= Seq::<ValueModel>::empty());
        }
        match list_elems(s, pos + 1, acc, true) {
            Ok((next, l)) => {
                proof {
                    assert forall|i: int| 0 <= i < list_model(l@).len() implies value_wf(
                        #[trigger] list_model(l@)[i],
                    ) by {
                        assert(list_model(l@)[i] == l@[i].model());
                    }
                }
                Ok((next, Value::List(l)))
            },
            Err(e) => Err(e.within("list")),
        }
    } else {
        Err(ParseError::at(pos, false, "list"))
    }
}

/// A nested property map value.
pub fn map(s: &Vec<char>, pos: usize) -> (r: Result<(usize, Value), ParseError>)
    requires
        pos <= s@.len(),
    ensures
        match r {
            Ok((next, v)) => pos < next <= s@.len() && (crate::grammar::spec_value_map(
                s@,
                pos as int,
            ) matches PRes::Val { next: n, v: m } && n == next as int && v.model()
                == ValueModel::Mapping(m) && value_wf(v.model())),
            Err(e) => crate::grammar::spec_value_map(s@, pos as int) == (if e.hard {
                PRes::<crate::model::MapModel>::Hard
            } else {
                PRes::<crate::model::MapModel>::Fail
            }),
        },
    decreases s@.len() - pos, 1int,
{
    match super::value_map(s, pos) {
        Ok((next, m)) => Ok((next, Value::Mapping(m))),
        Err(e) => Err(e.within("map")),
    }
}

/// A value: string, literal, number, map and list are tried in that
/// order; when none fits, the failure is hard.
pub(crate) fn value(s: &Vec<char>, pos: usize) -> (r: Result<(usize, Value), ParseError>)
    requires
        pos <= s@.len(),
    ensures
        match r {
            Ok((next, v)) => pos < next <= s@.len() && spec_value(s@, pos as int) == (PRes::Val {
                next: next as int,
                v: v.model(),
            }) && value_wf(v.model()),
            Err(e) => spec_value(s@, pos as int) == (if e.hard {
                PRes::<ValueModel>::Hard
            } else {
                PRes::<ValueModel>::Fail
            }),
        },
    decreases s@.len() - pos, 3int,
{
    match string(s, pos) {
        Ok(rv) => Ok(rv),
        Err(_) => match literal(s, pos) {
            Ok(rv) => Ok(rv),
            Err(_) => match number(s, pos) {
                Ok(rv) => Ok(rv),
                Err(_) => match map(s, pos) {
                    Ok(rv) => Ok(rv),
                    Err(e) => {
                        if e.hard {
                            Err(e)
                        } else {
                            match list(s, pos) {
                                Ok(rv) => Ok(rv),
                                Err(e) => {
                                    let mut e = e.within("value");
                                    e.hard = true;
                                    Err(e)
                                },
                            }
                        }
                    },
                },
            },
        },
    }
}

} // verus!
