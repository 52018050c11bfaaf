//! The grammar, stated mathematically: total functions over character
//! sequences that say exactly which text parses, to what, and where a
//! failure is recoverable (the enclosing alternation may try another
//! branch) or hard (it is reported to the caller).

use vstd::prelude::*;
use crate::model::{
    map_insert, ColumnModel, DocModel, ItemModel, MapModel, TableModel, ValueModel, extract_name,
    extract_u32, item_wf, table_wf, value_wf,
};
use crate::text::{
    is_ascii_digit_char, is_key_char, is_kind_char, spec_scan, spec_skip_ws,
    unicode_alphabetic, tag_at,
};

verus! {

/// Outcome of one grammar function at one position: a parse up to `next`,
/// a recoverable failure, or a hard error.
#[verifier::ext_equal]
pub ghost enum PRes<T> {
    Val { next: int, v: T },
    Fail,
    Hard,
}

/// What one clause contributes to the document.
#[verifier::ext_equal]
pub ghost enum SumItemModel {
    Item(ItemModel),
    ItemTable(TableModel),
    ItemData(Seq<ValueModel>),
}

/// Well-formedness of what a clause contributes.
pub open spec fn sum_item_wf(it: SumItemModel) -> bool {
    match it {
        SumItemModel::Item(im) => item_wf(im),
        SumItemModel::ItemTable(t) => table_wf(t),
        SumItemModel::ItemData(l) => forall|i: int| 0 <= i < l.len() ==> value_wf(
            #[trigger] l[i],
        ),
    }
}

/// A numeric token: optional sign, then either an integer part with an
/// optional fraction, or a bare fraction; then an optional exponent that
/// counts only when at least one digit follows it.
pub open spec fn spec_number(s: Seq<char>, pos: int) -> PRes<Seq<char>> {
    if !(0 <= pos <= s.len()) {
        PRes::Hard
    } else {
        let p1 = if pos < s.len() && (s[pos] == '+' || s[pos] == '-') {
            pos + 1
        } else {
            pos
        };
        let d1 = spec_scan(s, p1, |c: char| is_ascii_digit_char(c));
        let mantissa_end = if d1 > p1 {
            if d1 < s.len() && s[d1] == '.' {
                spec_scan(s, d1 + 1, |c: char| is_ascii_digit_char(c))
            } else {
                d1
            }
        } else {
            if p1 < s.len() && s[p1] == '.' {
                let d2 = spec_scan(s, p1 + 1, |c: char| is_ascii_digit_char(c));
                if d2 > p1 + 1 {
                    d2
                } else {
                    p1  // marks failure below
                }
            } else {
                p1
            }
        };
        if mantissa_end <= p1 && d1 <= p1 {
            PRes::Fail
        } else {
            let e = mantissa_end;
            let end = if e < s.len() && (s[e] == 'e' || s[e] == 'E') {
                let q = if e + 1 < s.len() && (s[e + 1] == '+' || s[e + 1] == '-') {
                    e + 2
                } else {
                    e + 1
                };
                let d3 = spec_scan(s, q, |c: char| is_ascii_digit_char(c));
                if d3 > q {
                    d3
                } else {
                    e
                }
            } else {
                e
            };
            PRes::Val { next: end, v: s.subrange(pos, end) }
        }
    }
}

/// A bare literal: it must start with a letter; a letter run immediately
/// followed by a parenthesized key-character run is captured verbatim,
/// parentheses, internal spacing and all; otherwise the token is a run of
/// key characters.
pub open spec fn spec_literal(s: Seq<char>, pos: int) -> PRes<Seq<char>> {
    if !(0 <= pos <= s.len()) {
        PRes::Hard
    } else if pos >= s.len() || !unicode_alphabetic(s[pos]) {
        PRes::Fail
    } else {
        let a = spec_scan(s, pos, |c: char| unicode_alphabetic(c));
        let w = spec_skip_ws(s, a);
        let paren_end = if a > pos && 0 <= w <= s.len() && w < s.len() && s[w] == '(' {
            let i0 = spec_skip_ws(s, w + 1);
            if 0 <= i0 <= s.len() {
                let i1 = spec_scan(s, i0, |c: char| is_key_char(c));
                let i2 = spec_skip_ws(s, i1);
                if i1 > i0 && 0 <= i2 && i2 < s.len() && s[i2] == ')' {
                    i2 + 1
                } else {
                    pos
                }
            } else {
                pos
            }
        } else {
            pos
        };
        if paren_end > pos {
            PRes::Val { next: paren_end, v: s.subrange(pos, paren_end) }
        } else {
            let n = spec_scan(s, pos, |c: char| is_key_char(c));
            PRes::Val { next: n, v: s.subrange(pos, n) }
        }
    }
}

/// The raw content of a quoted string: alternating runs of plain
/// characters and `~`-escape pairs, at least one unit long, closed by the
/// quote character. The immediately-empty pair is handled by the caller.
pub open spec fn spec_quoted_end(s: Seq<char>, pos: int, q: char) -> int
    decreases s.len() - pos,
{
    if !(0 <= pos < s.len()) {
        pos
    } else if s[pos] == '~' && pos + 2 <= s.len() {
        spec_quoted_end(s, pos + 2, q)
    } else if s[pos] != '~' && s[pos] != q {
        let c = crate::text::spec_scan_not_quote(s, pos, q);
        if c > pos && c <= s.len() {
            spec_quoted_end(s, c, q)
        } else {
            pos
        }
    } else {
        pos
    }
}

/// A quoted string with quote character `q`.
pub open spec fn spec_string_quoted(s: Seq<char>, pos: int, q: char) -> PRes<Seq<char>> {
    if !(0 <= pos <= s.len()) {
        PRes::Hard
    } else if pos < s.len() && s[pos] == q {
        let e = spec_quoted_end(s, pos + 1, q);
        if e > pos + 1 && e < s.len() && s[e] == q {
            PRes::Val { next: e + 1, v: s.subrange(pos + 1, e) }
        } else {
            PRes::Fail
        }
    } else {
        PRes::Fail
    }
}

/// A string of either quoting kind; `""` and `''` are the empty-content
/// special cases the escape rule cannot produce.
pub open spec fn spec_string(s: Seq<char>, pos: int) -> PRes<ValueModel> {
    if !(0 <= pos <= s.len()) {
        PRes::Hard
    } else {
        match spec_string_quoted(s, pos, '"') {
            PRes::Val { next, v } => PRes::Val { next, v: ValueModel::DoubleQuoted(v) },
            _ => {
                if tag_at(s, pos, "\"\""@) {
                    PRes::Val { next: pos + 2, v: ValueModel::DoubleQuoted(Seq::empty()) }
                } else {
                    match spec_string_quoted(s, pos, '\'') {
                        PRes::Val { next, v } => PRes::Val {
                            next,
                            v: ValueModel::SingleQuoted(v),
                        },
                        _ => {
                            if tag_at(s, pos, "''"@) {
                                PRes::Val {
                                    next: pos + 2,
                                    v: ValueModel::SingleQuoted(Seq::empty()),
                                }
                            } else {
                                PRes::Fail
                            }
                        },
                    }
                }
            },
        }
    }
}

/// A key: a run of key characters that starts with a letter.
pub open spec fn spec_key(s: Seq<char>, pos: int) -> PRes<Seq<char>> {
    if !(0 <= pos <= s.len()) {
        PRes::Hard
    } else if pos < s.len() && unicode_alphabetic(s[pos]) {
        let e = spec_scan(s, pos, |c: char| is_key_char(c));
        PRes::Val { next: e, v: s.subrange(pos, e) }
    } else {
        PRes::Fail
    }
}

/// A value: string, literal, number, nested map and list are tried in
/// that order; once the `=` of a pair has been consumed, a value that
/// matches no alternative is a hard error.
pub open spec fn spec_value(s: Seq<char>, pos: int) -> PRes<ValueModel>
    decreases s.len() - pos, 3int,
{
    if !(0 <= pos <= s.len()) {
        PRes::Hard
    } else {
        match spec_string(s, pos) {
            PRes::Val { next, v } => PRes::Val { next, v },
            PRes::Hard => PRes::Hard,
            PRes::Fail => match spec_literal(s, pos) {
                PRes::Val { next, v } => PRes::Val { next, v: ValueModel::Literal(v) },
                PRes::Hard => PRes::Hard,
                PRes::Fail => match spec_number(s, pos) {
                    PRes::Val { next, v } => PRes::Val { next, v: ValueModel::Number(v) },
                    PRes::Hard => PRes::Hard,
                    PRes::Fail => match spec_value_map(s, pos) {
                        PRes::Val { next, v } => PRes::Val { next, v: ValueModel::Mapping(v) },
                        PRes::Hard => PRes::Hard,
                        PRes::Fail => match spec_list(s, pos) {
                            PRes::Val { next, v } => PRes::Val { next, v: ValueModel::List(v) },
                            PRes::Hard => PRes::Hard,
                            PRes::Fail => PRes::Hard,  // the commit point: promoted to hard
                        },
                    },
                },
            },
        }
    }
}

/// One `key = value` pair.
pub open spec fn spec_key_value(s: Seq<char>, pos: int) -> PRes<(Seq<char>, ValueModel)>
    decreases s.len() - pos, 1int,
{
    if !(0 <= pos <= s.len()) {
        PRes::Hard
    } else {
        match spec_key(s, pos) {
            PRes::Hard => PRes::Hard,
            PRes::Fail => PRes::Fail,
            PRes::Val { next: ke, v: k } => {
                let eq = spec_skip_ws(s, ke);
                if !(ke <= eq <= s.len()) {
                    PRes::Hard
                } else if eq < s.len() && s[eq] == '=' {
                    let vp = spec_skip_ws(s, eq + 1);
                    if pos < vp <= s.len() {
                        match spec_value(s, vp) {
                            PRes::Val { next, v } => PRes::Val { next, v: (k, v) },
                            PRes::Fail => PRes::Hard,
                            PRes::Hard => PRes::Hard,
                        }
                    } else {
                        PRes::Hard
                    }
                } else {
                    PRes::Fail
                }
            },
        }
    }
}

/// The loose pair loop of a clause body: pairs follow one another with or
/// without separators, and the loop closes only on `)` standing exactly
/// where the next pair would have begun.
pub open spec fn spec_pairs(s: Seq<char>, pos: int, acc: MapModel) -> PRes<MapModel>
    decreases s.len() - pos, 2int,
{
    if !(0 <= pos <= s.len()) {
        PRes::Hard
    } else {
        let p1 = spec_skip_ws(s, pos);
        if !(pos <= p1 <= s.len()) {
            PRes::Hard
        } else {
            match spec_key_value(s, p1) {
                PRes::Hard => PRes::Hard,
                PRes::Fail => {
                    if pos < s.len() && s[pos] == ')' {
                        PRes::Val { next: pos + 1, v: acc }
                    } else {
                        PRes::Fail
                    }
                },
                PRes::Val { next, v } => {
                    let p2 = spec_skip_ws(s, next);
                    if pos < p2 <= s.len() {
                        spec_pairs(s, p2, map_insert(acc, v.0, v.1))
                    } else {
                        PRes::Hard
                    }
                },
            }
        }
    }
}

/// A parenthesized property map.
pub open spec fn spec_value_map(s: Seq<char>, pos: int) -> PRes<MapModel>
    decreases s.len() - pos, 0int,
{
    if !(0 <= pos <= s.len()) {
        PRes::Hard
    } else if pos < s.len() && s[pos] == '(' {
        spec_pairs(s, pos + 1, MapModel::empty())
    } else {
        PRes::Fail
    }
}

/// The elements of a list, after the opening parenthesis: comma-separated
/// strings, literals or nested lists.
pub open spec fn spec_list_elems(s: Seq<char>, pos: int, acc: Seq<ValueModel>, first: bool) -> PRes<
    Seq<ValueModel>,
>
    decreases s.len() - pos, 2int,
{
    if !(0 <= pos <= s.len()) {
        PRes::Hard
    } else {
        let p1 = spec_skip_ws(s, pos);
        if !(pos <= p1 <= s.len()) {
            PRes::Hard
        } else {
            let elem = match spec_string(s, p1) {
                PRes::Val { next, v } => PRes::Val { next, v },
                PRes::Hard => PRes::Hard,
                PRes::Fail => match spec_literal(s, p1) {
                    PRes::Val { next, v } => PRes::Val { next, v: ValueModel::Literal(v) },
                    PRes::Hard => PRes::Hard,
                    PRes::Fail => match spec_list(s, p1) {
                        PRes::Val { next, v } => PRes::Val { next, v: ValueModel::List(v) },
                        PRes::Hard => PRes::Hard,
                        PRes::Fail => PRes::Fail,
                    },
                },
            };
            match elem {
                PRes::Hard => PRes::Hard,
                PRes::Fail => {
                    if first && pos < s.len() && s[pos] == ')' {
                        // an empty list closes without consuming anything else
                        PRes::Val { next: pos + 1, v: acc }
                    } else {
                        PRes::Fail
                    }
                },
                PRes::Val { next, v } => {
                    let p2 = spec_skip_ws(s, next);
                    if !(pos < p2 <= s.len()) {
                        PRes::Hard
                    } else if p2 < s.len() && s[p2] == ',' {
                        if pos < p2 + 1 <= s.len() {
                            spec_list_elems(s, p2 + 1, acc.push(v), false)
                        } else {
                            PRes::Hard
                        }
                    } else if p2 < s.len() && s[p2] == ')' {
                        PRes::Val { next: p2 + 1, v: acc.push(v) }
                    } else {
                        PRes::Fail
                    }
                },
            }
        }
    }
}

/// A parenthesized, comma-separated list of strings, literals and lists.
pub open spec fn spec_list(s: Seq<char>, pos: int) -> PRes<Seq<ValueModel>>
    decreases s.len() - pos, 0int,
{
    if !(0 <= pos <= s.len()) {
        PRes::Hard
    } else if pos < s.len() && s[pos] == '(' {
        if pos + 1 <= s.len() {
            spec_list_elems(s, pos + 1, Seq::empty(), true)
        } else {
            PRes::Hard
        }
    } else {
        PRes::Fail
    }
}

/// A `data` date: digit runs of at least 4, 2 and 2, separated by `-`.
pub open spec fn spec_data_date(s: Seq<char>, pos: int) -> PRes<Seq<char>> {
    if !(0 <= pos <= s.len()) {
        PRes::Hard
    } else {
        let d1 = spec_scan(s, pos, |c: char| is_ascii_digit_char(c));
        if d1 - pos >= 4 && d1 < s.len() && s[d1] == '-' {
            let d2 = spec_scan(s, d1 + 1, |c: char| is_ascii_digit_char(c));
            if d2 - (d1 + 1) >= 2 && d2 < s.len() && s[d2] == '-' {
                let d3 = spec_scan(s, d2 + 1, |c: char| is_ascii_digit_char(c));
                if d3 - (d2 + 1) >= 2 {
                    PRes::Val { next: d3, v: s.subrange(pos, d3) }
                } else {
                    PRes::Fail
                }
            } else {
                PRes::Fail
            }
        } else {
            PRes::Fail
        }
    }
}

/// A `data` time: digit runs of at least 2, 2, 2 and 4, separated by `:`.
pub open spec fn spec_data_time(s: Seq<char>, pos: int) -> PRes<Seq<char>> {
    if !(0 <= pos <= s.len()) {
        PRes::Hard
    } else {
        let d1 = spec_scan(s, pos, |c: char| is_ascii_digit_char(c));
        if d1 - pos >= 2 && d1 < s.len() && s[d1] == ':' {
            let d2 = spec_scan(s, d1 + 1, |c: char| is_ascii_digit_char(c));
            if d2 - (d1 + 1) >= 2 && d2 < s.len() && s[d2] == ':' {
                let d3 = spec_scan(s, d2 + 1, |c: char| is_ascii_digit_char(c));
                if d3 - (d2 + 1) >= 2 && d3 < s.len() && s[d3] == ':' {
                    let d4 = spec_scan(s, d3 + 1, |c: char| is_ascii_digit_char(c));
                    if d4 - (d3 + 1) >= 4 {
                        PRes::Val { next: d4, v: s.subrange(pos, d4) }
                    } else {
                        PRes::Fail
                    }
                } else {
                    PRes::Fail
                }
            } else {
                PRes::Fail
            }
        } else {
            PRes::Fail
        }
    }
}

/// A `data` datetime: a date, one space, a time, captured verbatim.
pub open spec fn spec_data_datetime(s: Seq<char>, pos: int) -> PRes<Seq<char>> {
    match spec_data_date(s, pos) {
        PRes::Hard => PRes::Hard,
        PRes::Fail => PRes::Fail,
        PRes::Val { next: de, v: _ } => {
            if de < s.len() && s[de] == ' ' {
                match spec_data_time(s, de + 1) {
                    PRes::Val { next: te, v: _ } => PRes::Val {
                        next: te,
                        v: s.subrange(pos, te),
                    },
                    PRes::Hard => PRes::Hard,
                    PRes::Fail => PRes::Fail,
                }
            } else {
                PRes::Fail
            }
        },
    }
}

/// One element of a space-separated `data` run: `null`, a string, a
/// datetime, a date, a time or a number, in that order.
pub open spec fn spec_run_elem(s: Seq<char>, pos: int) -> PRes<ValueModel> {
    if !(0 <= pos <= s.len()) {
        PRes::Hard
    } else if tag_at(s, pos, "null"@) {
        PRes::Val { next: pos + 4, v: ValueModel::Literal("null"@) }
    } else {
        match spec_string(s, pos) {
            PRes::Val { next, v } => PRes::Val { next, v },
            PRes::Hard => PRes::Hard,
            PRes::Fail => match spec_data_datetime(s, pos) {
                PRes::Val { next, v } => PRes::Val { next, v: ValueModel::Literal(v) },
                PRes::Hard => PRes::Hard,
                PRes::Fail => match spec_data_date(s, pos) {
                    PRes::Val { next, v } => PRes::Val { next, v: ValueModel::Literal(v) },
                    PRes::Hard => PRes::Hard,
                    PRes::Fail => match spec_data_time(s, pos) {
                        PRes::Val { next, v } => PRes::Val { next, v: ValueModel::Literal(v) },
                        PRes::Hard => PRes::Hard,
                        PRes::Fail => match spec_number(s, pos) {
                            PRes::Val { next, v } => PRes::Val {
                                next,
                                v: ValueModel::Number(v),
                            },
                            PRes::Hard => PRes::Hard,
                            PRes::Fail => PRes::Fail,
                        },
                    },
                },
            },
        }
    }
}

/// The continuation of a space-separated run: further elements are taken
/// only while at least one whitespace character separates them; a failed
/// element hands back the position after the last good one.
pub open spec fn spec_run_more(s: Seq<char>, pos: int, acc: Seq<ValueModel>) -> PRes<
    Seq<ValueModel>,
>
    decreases s.len() - pos,
{
    if !(0 <= pos <= s.len()) {
        PRes::Hard
    } else {
        let p1 = spec_skip_ws(s, pos);
        if p1 > pos && p1 <= s.len() {
            match spec_run_elem(s, p1) {
                PRes::Hard => PRes::Hard,
                PRes::Fail => PRes::Val { next: pos, v: acc },
                PRes::Val { next, v } => {
                    if pos < next <= s.len() {
                        spec_run_more(s, next, acc.push(v))
                    } else {
                        PRes::Hard
                    }
                },
            }
        } else {
            PRes::Val { next: pos, v: acc }
        }
    }
}

/// A space-separated run of `data` values, possibly empty.
pub open spec fn spec_run(s: Seq<char>, pos: int) -> PRes<Seq<ValueModel>> {
    match spec_run_elem(s, pos) {
        PRes::Hard => PRes::Hard,
        PRes::Fail => PRes::Val { next: pos, v: Seq::empty() },
        PRes::Val { next, v } => spec_run_more(s, next, seq![v]),
    }
}

/// One comma-delimited `data` slot, already flattened: a single string,
/// datetime, date, time or number, or else a space-separated run.
pub open spec fn spec_slot(s: Seq<char>, pos: int) -> PRes<Seq<ValueModel>> {
    if !(0 <= pos <= s.len()) {
        PRes::Hard
    } else {
        match spec_string(s, pos) {
            PRes::Val { next, v } => PRes::Val { next, v: seq![v] },
            PRes::Hard => PRes::Hard,
            PRes::Fail => match spec_data_datetime(s, pos) {
                PRes::Val { next, v } => PRes::Val { next, v: seq![ValueModel::Literal(v)] },
                PRes::Hard => PRes::Hard,
                PRes::Fail => match spec_data_date(s, pos) {
                    PRes::Val { next, v } => PRes::Val { next, v: seq![ValueModel::Literal(v)] },
                    PRes::Hard => PRes::Hard,
                    PRes::Fail => match spec_data_time(s, pos) {
                        PRes::Val { next, v } => PRes::Val {
                            next,
                            v: seq![ValueModel::Literal(v)],
                        },
                        PRes::Hard => PRes::Hard,
                        PRes::Fail => match spec_number(s, pos) {
                            PRes::Val { next, v } => PRes::Val {
                                next,
                                v: seq![ValueModel::Number(v)],
                            },
                            PRes::Hard => PRes::Hard,
                            PRes::Fail => spec_run(s, pos),
                        },
                    },
                },
            },
        }
    }
}

/// The comma-separated slot list of a `data` clause, flattened in order.
pub open spec fn spec_data_slots(s: Seq<char>, pos: int, acc: Seq<ValueModel>) -> PRes<
    Seq<ValueModel>,
>
    decreases s.len() - pos,
{
    if !(0 <= pos <= s.len()) {
        PRes::Hard
    } else {
        let p1 = spec_skip_ws(s, pos);
        if !(pos <= p1 <= s.len()) {
            PRes::Hard
        } else {
            match spec_slot(s, p1) {
                PRes::Hard => PRes::Hard,
                PRes::Fail => PRes::Hard,
                PRes::Val { next, v } => {
                    let p2 = spec_skip_ws(s, next);
                    if !(pos <= next && p1 <= next && next <= p2 <= s.len()) {
                        PRes::Hard
                    } else if p2 < s.len() && s[p2] == ',' {
                        if pos < p2 + 1 <= s.len() {
                            spec_data_slots(s, p2 + 1, acc + v)
                        } else {
                            PRes::Hard
                        }
                    } else {
                        PRes::Val { next: p2, v: acc + v }
                    }
                },
            }
        }
    }
}

/// The `data(...)` clause: flattened slot values.
pub open spec fn spec_data(s: Seq<char>, pos: int) -> PRes<Seq<ValueModel>> {
    if !(0 <= pos <= s.len()) {
        PRes::Hard
    } else if pos < s.len() && s[pos] == '(' {
        match spec_data_slots(s, pos + 1, Seq::empty()) {
            PRes::Hard => PRes::Hard,
            PRes::Fail => PRes::Fail,
            PRes::Val { next, v } => {
                if next < s.len() && s[next] == ')' {
                    PRes::Val { next: next + 1, v }
                } else {
                    PRes::Fail
                }
            },
        }
    } else {
        PRes::Fail
    }
}

/// The pair loop of the `table` clause: `column=` pairs whose value is a
/// map are diverted, in order, into the column vector; a `column=` pair
/// with any other value shape fails the clause; everything else is an
/// ordinary table option.
pub open spec fn spec_table_pairs(
    s: Seq<char>,
    pos: int,
    cols: Seq<ColumnModel>,
    vals: MapModel,
) -> PRes<(Seq<ColumnModel>, MapModel)>
    decreases s.len() - pos, 2int,
{
    if !(0 <= pos <= s.len()) {
        PRes::Hard
    } else {
        let p1 = spec_skip_ws(s, pos);
        if !(pos <= p1 <= s.len()) {
            PRes::Hard
        } else {
            match spec_key_value(s, p1) {
                PRes::Hard => PRes::Hard,
                PRes::Fail => {
                    if pos < s.len() && s[pos] == ')' {
                        PRes::Val { next: pos + 1, v: (cols, vals) }
                    } else {
                        PRes::Fail
                    }
                },
                PRes::Val { next, v } => {
                    let p2 = spec_skip_ws(s, next);
                    if !(pos < p2 <= s.len()) {
                        PRes::Hard
                    } else if v.0 == "column"@ {
                        match v.1 {
                            ValueModel::Mapping(m) => spec_table_pairs(
                                s,
                                p2,
                                cols.push(ColumnModel { name: extract_name(m), values: m }),
                                vals,
                            ),
                            _ => PRes::Fail,
                        }
                    } else {
                        spec_table_pairs(s, p2, cols, map_insert(vals, v.0, v.1))
                    }
                },
            }
        }
    }
}

/// The `table(...)` clause.
pub open spec fn spec_table(s: Seq<char>, pos: int) -> PRes<TableModel> {
    if !(0 <= pos <= s.len()) {
        PRes::Hard
    } else if pos < s.len() && s[pos] == '(' {
        match spec_table_pairs(s, pos + 1, Seq::empty(), MapModel::empty()) {
            PRes::Hard => PRes::Hard,
            PRes::Fail => PRes::Fail,
            PRes::Val { next, v } => PRes::Val {
                next,
                v: TableModel { columns: v.0, values: v.1 },
            },
        }
    } else {
        PRes::Fail
    }
}

/// One clause: a kind token of letters and dots, then the body that the
/// kind selects.
pub open spec fn spec_item(s: Seq<char>, pos: int) -> PRes<SumItemModel> {
    if !(0 <= pos <= s.len()) {
        PRes::Hard
    } else {
        let k0 = spec_skip_ws(s, pos);
        if !(pos <= k0 <= s.len()) {
            PRes::Hard
        } else {
            let ke = spec_scan(s, k0, |c: char| is_kind_char(c));
            if !(k0 < ke <= s.len()) {
                PRes::Fail
            } else {
                let kind = s.subrange(k0, ke);
                let kb = spec_skip_ws(s, ke);
                if !(ke <= kb <= s.len()) {
                    PRes::Hard
                } else if kind == "table"@ {
                    match spec_table(s, kb) {
                        PRes::Hard => PRes::Hard,
                        PRes::Fail => PRes::Fail,
                        PRes::Val { next, v } => PRes::Val { next, v: SumItemModel::ItemTable(v) },
                    }
                } else if kind == "data"@ {
                    match spec_data(s, kb) {
                        PRes::Hard => PRes::Hard,
                        PRes::Fail => PRes::Fail,
                        PRes::Val { next, v } => PRes::Val { next, v: SumItemModel::ItemData(v) },
                    }
                } else {
                    match spec_value_map(s, kb) {
                        PRes::Hard => PRes::Hard,
                        PRes::Fail => PRes::Fail,
                        PRes::Val { next, v } => PRes::Val {
                            next,
                            v: SumItemModel::Item(
                                ItemModel {
                                    kind,
                                    name: extract_name(v),
                                    id: extract_u32(v, "id"@),
                                    level: extract_u32(v, "level"@),
                                    values: v,
                                },
                            ),
                        },
                    }
                }
            }
        }
    }
}

/// An optional `$PBExport...$` line: the tag, at least one non-CR
/// character, then CRLF; anything else leaves the input untouched.
pub open spec fn spec_pb_line(s: Seq<char>, pos: int, tag: Seq<char>) -> Option<(int, Seq<char>)> {
    if tag_at(s, pos, tag) {
        let t = pos + tag.len();
        let c = spec_scan(s, t, |x: char| x != '\r');
        if c > t && tag_at(s, c, "\r\n"@) {
            Some((c + 2, s.subrange(t, c)))
        } else {
            None
        }
    } else {
        None
    }
}

/// The optional export-header lines: object name, then comment.
pub open spec fn spec_export_header(s: Seq<char>, pos: int) -> (int, Option<Seq<char>>, Option<
    Seq<char>,
>) {
    let (p1, name) = match spec_pb_line(s, pos, "$PBExportHeader$"@) {
        Some((p, v)) => (p, Some(v)),
        None => (pos, None),
    };
    let (p2, comment) = match spec_pb_line(s, p1, "$PBExportComments$"@) {
        Some((p, v)) => (p, Some(v)),
        None => (p1, None),
    };
    (p2, name, comment)
}

/// The mandatory version statement `release <number>;`, with at least one
/// whitespace character after the word.
pub open spec fn spec_version(s: Seq<char>, pos: int) -> PRes<Seq<char>> {
    if !(0 <= pos <= s.len()) {
        PRes::Hard
    } else {
        let p1 = spec_skip_ws(s, pos);
        if 0 <= p1 <= s.len() && tag_at(s, p1, "release"@) {
            let p2 = p1 + 7;
            let p3 = spec_skip_ws(s, p2);
            if p3 > p2 && p3 <= s.len() {
                match spec_number(s, p3) {
                    PRes::Hard => PRes::Hard,
                    PRes::Fail => PRes::Fail,
                    PRes::Val { next, v } => {
                        let p4 = spec_skip_ws(s, next);
                        if 0 <= p4 && p4 < s.len() && s[p4] == ';' {
                            PRes::Val { next: p4 + 1, v }
                        } else {
                            PRes::Fail
                        }
                    },
                }
            } else {
                PRes::Fail
            }
        } else {
            PRes::Fail
        }
    }
}

/// A document before any clause has been folded in.
pub open spec fn spec_empty_doc(
    name: Option<Seq<char>>,
    comment: Option<Seq<char>>,
    version: Seq<char>,
) -> DocModel {
    DocModel {
        name,
        comment,
        version,
        datawindow: MapModel::empty(),
        header: MapModel::empty(),
        summary: MapModel::empty(),
        footer: MapModel::empty(),
        detail: MapModel::empty(),
        table: TableModel { columns: Seq::empty(), values: MapModel::empty() },
        data: Seq::empty(),
        items: Seq::empty(),
    }
}

/// Folding one clause into the document: the five singleton kinds and the
/// table and data clauses overwrite, every other clause appends in order.
pub open spec fn spec_fold(d: DocModel, it: SumItemModel) -> DocModel {
    match it {
        SumItemModel::Item(im) => {
            if im.kind == "datawindow"@ {
                DocModel { datawindow: im.values, ..d }
            } else if im.kind == "header"@ {
                DocModel { header: im.values, ..d }
            } else if im.kind == "summary"@ {
                DocModel { summary: im.values, ..d }
            } else if im.kind == "footer"@ {
                DocModel { footer: im.values, ..d }
            } else if im.kind == "detail"@ {
                DocModel { detail: im.values, ..d }
            } else {
                DocModel { items: d.items.push(im), ..d }
            }
        },
        SumItemModel::ItemTable(t) => DocModel { table: t, ..d },
        SumItemModel::ItemData(v) => DocModel { data: v, ..d },
    }
}

/// The clause loop: one or more clauses folded left to right; after the
/// last clause only whitespace may remain.
pub open spec fn spec_clauses(s: Seq<char>, pos: int, d: DocModel, any: bool) -> Option<DocModel>
    decreases s.len() - pos,
{
    if !(0 <= pos <= s.len()) {
        None
    } else {
        match spec_item(s, pos) {
            PRes::Hard => None,
            PRes::Fail => {
                if any && spec_skip_ws(s, pos) == s.len() {
                    Some(d)
                } else {
                    None
                }
            },
            PRes::Val { next, v } => {
                if pos < next <= s.len() {
                    spec_clauses(s, next, spec_fold(d, v), true)
                } else {
                    None
                }
            },
        }
    }
}

/// The whole document grammar: what `parse` accepts, and the tree it
/// builds.
pub open spec fn spec_document(s: Seq<char>) -> Option<DocModel> {
    let (p1, name, comment) = spec_export_header(s, 0);
    match spec_version(s, p1) {
        PRes::Hard => None,
        PRes::Fail => None,
        PRes::Val { next, v } => spec_clauses(s, next, spec_empty_doc(name, comment, v), false),
    }
}

} // verus!
