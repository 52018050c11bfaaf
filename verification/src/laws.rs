//! Laws of the mutation engine, stated and proved over the models that
//! the public contracts use.

use vstd::prelude::*;
use crate::model::{
    extract_name, extract_u32, item_wf, lemma_map_insert_other, lemma_map_insert_wf, DocModel,
    ItemModel, ValueModel,
};
use crate::grammar::{spec_quoted_end, spec_string, spec_string_quoted, spec_value, PRes, SumItemModel};
use crate::selector::{spec_apply_create, spec_cascade_item, spec_find_upsert};
use crate::render::render_value_src;
use crate::text::{lemma_dec_token, spec_dec, spec_scan_not_quote};

verus! {

/// Whether an existing item is the one a `create` upsert replaces.
pub open spec fn upsert_matches(a: ItemModel, it: ItemModel) -> bool {
    a.kind == it.kind && (a.name == it.name || a.id == it.id) && a.level == it.level
}

proof fn lemma_find_upsert_at(items: Seq<ItemModel>, it: ItemModel, i: int)
    requires
        0 <= i < items.len(),
        upsert_matches(items[i], it),
        forall|j: int| 0 <= j < i ==> !upsert_matches(#[trigger] items[j], it),
    ensures
        spec_find_upsert(items, it, 0) == Some(i),
    decreases items.len(),
{
    lemma_find_upsert_from(items, it, 0, i);
}

proof fn lemma_find_upsert_from(items: Seq<ItemModel>, it: ItemModel, from: int, i: int)
    requires
        0 <= from <= i < items.len(),
        upsert_matches(items[i], it),
        forall|j: int| from <= j < i ==> !upsert_matches(#[trigger] items[j], it),
    ensures
        spec_find_upsert(items, it, from) == Some(i),
    decreases i - from,
{
    if from < i {
        lemma_find_upsert_from(items, it, from + 1, i);
    }
}

proof fn lemma_find_upsert_props(items: Seq<ItemModel>, it: ItemModel, from: int)
    requires
        0 <= from <= items.len(),
    ensures
        match spec_find_upsert(items, it, from) {
            Some(i) => from <= i < items.len() && upsert_matches(items[i], it) && forall|j: int|
                from <= j < i ==> !upsert_matches(#[trigger] items[j], it),
            None => forall|j: int| from <= j < items.len() ==> !upsert_matches(
                #[trigger] items[j],
                it,
            ),
        },
    decreases items.len() - from,
{
    if from < items.len() {
        lemma_find_upsert_props(items, it, from + 1);
    }
}

/// Law: a repeated `create` of the same non-singleton item replaces the
/// item the first `create` placed, in place; it never duplicates it.
/// The second application leaves the document exactly as the first one
/// left it.
pub proof fn lemma_create_idempotent(d: DocModel, im: ItemModel)
    requires
        im.kind != "datawindow"@,
        im.kind != "header"@,
        im.kind != "summary"@,
        im.kind != "footer"@,
        im.kind != "detail"@,
    ensures
        ({
            let d1 = spec_apply_create(d, SumItemModel::Item(im));
            let d2 = spec_apply_create(d1, SumItemModel::Item(im));
            &&& d2 == d1
            &&& d1.items.len() <= d.items.len() + 1
        }),
{
    let d1 = spec_apply_create(d, SumItemModel::Item(im));
    lemma_find_upsert_props(d.items, im, 0);
    match spec_find_upsert(d.items, im, 0) {
        Some(i) => {
            assert(d1.items == d.items.update(i, im));
            assert(upsert_matches(d1.items[i], im));
            assert forall|j: int| 0 <= j < i implies !upsert_matches(
                #[trigger] d1.items[j],
                im,
            ) by {
                assert(d1.items[j] == d.items[j]);
            }
            lemma_find_upsert_at(d1.items, im, i);
            assert(d1.items.update(i, im) =~= d1.items);
            assert(spec_apply_create(d1, SumItemModel::Item(im)) =~= d1);
        },
        None => {
            let i = d.items.len() as int;
            assert(d1.items == d.items.push(im));
            assert(upsert_matches(d1.items[i], im));
            assert forall|j: int| 0 <= j < i implies !upsert_matches(
                #[trigger] d1.items[j],
                im,
            ) by {
                assert(d1.items[j] == d.items[j]);
            }
            lemma_find_upsert_at(d1.items, im, i);
            assert(d1.items.update(i, im) =~= d1.items);
            assert(spec_apply_create(d1, SumItemModel::Item(im)) =~= d1);
        },
    }
}

/// Law: when column `n` (1-based) is destroyed, a `column` item bound to
/// it disappears; one bound to a later column keeps everything but its
/// id, which is decremented both in the dedicated field and in the
/// stored `id` property; every other item is untouched. The
/// transformation preserves the item invariant.
pub proof fn lemma_column_cascade(it: ItemModel, n: int)
    requires
        n >= 1,
        item_wf(it),
    ensures
        (it.kind == "column"@ && it.id is Some && it.id->0 as int == n) ==> spec_cascade_item(
            it,
            n,
        ) is None,
        (it.kind == "column"@ && it.id is Some && it.id->0 as int > n) ==> ({
            let r = spec_cascade_item(it, n)->Some_0;
            &&& spec_cascade_item(it, n) is Some
            &&& r.id == Some((it.id->0 - 1) as u32)
            &&& extract_u32(r.values, "id"@) == Some((it.id->0 - 1) as u32)
            &&& extract_name(r.values) == extract_name(it.values)
            &&& r.kind == it.kind
            &&& r.name == it.name
            &&& r.level == it.level
            &&& item_wf(r)
        }),
        !(it.kind == "column"@ && it.id is Some && it.id->0 as int >= n) ==> spec_cascade_item(
            it,
            n,
        ) == Some(it),
{
    if it.kind == "column"@ && it.id is Some {
        let id = it.id->0;
        if id as int > n {
            reveal_strlit("id");
            reveal_strlit("name");
            assert("id"@.len() == 2);
            assert("name"@.len() == 4);
            let v = ValueModel::Number(spec_dec((id - 1) as nat));
            lemma_map_insert_wf(it.values, "id"@, v);
            lemma_map_insert_other(it.values, "id"@, v, "name"@);
            lemma_dec_token((id - 1) as nat);
        }
    }
}

/// Raw string content as the string grammar can produce it: alternating
/// plain runs and tilde-escape pairs, never a bare quote character.
pub open spec fn quoted_content(t: Seq<char>, q: char) -> bool
    decreases t.len(),
{
    if t.len() == 0 {
        true
    } else if t[0] == '~' {
        t.len() >= 2 && quoted_content(t.skip(2), q)
    } else {
        t[0] != q && quoted_content(t.skip(1), q)
    }
}

/// The length of the leading run of plain characters.
spec fn plain_run(t: Seq<char>, q: char) -> int
    decreases t.len(),
{
    if t.len() == 0 || t[0] == '~' || t[0] == q {
        0
    } else {
        1 + plain_run(t.drop_first(), q)
    }
}

proof fn lemma_plain_run_facts(t: Seq<char>, q: char)
    ensures
        0 <= plain_run(t, q) <= t.len(),
        forall|j: int| 0 <= j < plain_run(t, q) ==> t[j] != '~' && t[j] != q,
        plain_run(t, q) < t.len() ==> t[plain_run(t, q)] == '~' || t[plain_run(t, q)] == q,
    decreases t.len(),
{
    if t.len() > 0 && t[0] != '~' && t[0] != q {
        lemma_plain_run_facts(t.drop_first(), q);
        assert forall|j: int| 0 <= j < plain_run(t, q) implies t[j] != '~' && t[j] != q by {
            if j > 0 {
                assert(t[j] == t.drop_first()[j - 1]);
            }
        }
        if plain_run(t, q) < t.len() {
            assert(t[plain_run(t, q)] == t.drop_first()[plain_run(t.drop_first(), q)]);
        }
    }
}

proof fn lemma_quoted_content_skip(t: Seq<char>, q: char, k: int)
    requires
        quoted_content(t, q),
        0 <= k <= plain_run(t, q),
    ensures
        quoted_content(t.skip(k), q),
    decreases k,
{
    lemma_plain_run_facts(t, q);
    if k > 0 {
        assert(t.skip(1) =~= t.drop_first());
        assert(t.drop_first().skip(k - 1) =~= t.skip(k));
        lemma_quoted_content_skip(t.drop_first(), q, k - 1);
    } else {
        assert(t.skip(0) =~= t);
    }
}

proof fn lemma_scan_not_quote_run(s: Seq<char>, pos: int, q: char, k: int)
    requires
        0 <= pos,
        0 <= k,
        pos + k < s.len(),
        forall|j: int| 0 <= j < k ==> #[trigger] s[pos + j] != '~' && s[pos + j] != q,
        s[pos + k] == '~' || s[pos + k] == q,
    ensures
        spec_scan_not_quote(s, pos, q) == pos + k,
    decreases k,
{
    if k > 0 {
        assert(s[pos + 0] != '~' && s[pos + 0] != q);
        assert forall|j: int| 0 <= j < k - 1 implies #[trigger] s[pos + 1 + j] != '~' && s[pos + 1
            + j] != q by {
            assert(s[pos + (j + 1)] != '~' && s[pos + (j + 1)] != q);
        }
        lemma_scan_not_quote_run(s, pos + 1, q, k - 1);
    }
}

/// The escaped-content scan stops exactly at the closing quote when the
/// content between `pos` and the quote is escape-well-formed.
proof fn lemma_quoted_end_of_content(s: Seq<char>, pos: int, q: char, t: Seq<char>)
    requires
        0 <= pos,
        pos + t.len() < s.len(),
        s.subrange(pos, pos + t.len()) == t,
        s[pos + t.len()] == q,
        quoted_content(t, q),
        q != '~',
    ensures
        spec_quoted_end(s, pos, q) == pos + t.len(),
    decreases t.len(),
{
    if t.len() == 0 {
        assert(s[pos] == q);
    } else if t[0] == '~' {
        assert(s[pos] == t[0]);
        assert(s.subrange(pos + 2, pos + t.len()) =~= t.skip(2));
        lemma_quoted_end_of_content(s, pos + 2, q, t.skip(2));
    } else {
        let k = plain_run(t, q);
        lemma_plain_run_facts(t, q);
        assert(k > 0) by {
            assert(t[0] != '~' && t[0] != q);
        }
        assert forall|j: int| 0 <= j < k implies #[trigger] s[pos + j] != '~' && s[pos + j] != q by {
            assert(s[pos + j] == t[j]);
        }
        if k < t.len() {
            assert(s[pos + k] == t[k]);
            assert(t[k] == '~') by {
                lemma_quoted_content_skip(t, q, k);
                assert(t.skip(k)[0] == t[k]);
            }
        }
        lemma_scan_not_quote_run(s, pos, q, k);
        assert(s[pos] == t[0]);
        lemma_quoted_content_skip(t, q, k);
        assert(s.subrange(pos + k, pos + t.len()) =~= t.skip(k));
        lemma_quoted_end_of_content(s, pos + k, q, t.skip(k));
    }
}

/// Law, the escape-fidelity half of the round trip: a string value with
/// escape-well-formed raw content renders with its quotes and re-parses
/// to exactly the same value, consuming exactly its own text. Content
/// holding a bare, unescaped quote character cannot come out of the
/// grammar and is left out.
pub proof fn lemma_string_round_trip(t: Seq<char>, double: bool)
    requires
        double ==> quoted_content(t, '"'),
        !double ==> quoted_content(t, '\''),
    ensures
        double ==> spec_string(render_value_src(ValueModel::DoubleQuoted(t)), 0) == (PRes::Val {
            next: t.len() as int + 2,
            v: ValueModel::DoubleQuoted(t),
        }),
        !double ==> spec_string(render_value_src(ValueModel::SingleQuoted(t)), 0) == (PRes::Val {
            next: t.len() as int + 2,
            v: ValueModel::SingleQuoted(t),
        }),
        double ==> spec_value(render_value_src(ValueModel::DoubleQuoted(t)), 0) == (PRes::Val {
            next: t.len() as int + 2,
            v: ValueModel::DoubleQuoted(t),
        }),
        !double ==> spec_value(render_value_src(ValueModel::SingleQuoted(t)), 0) == (PRes::Val {
            next: t.len() as int + 2,
            v: ValueModel::SingleQuoted(t),
        }),
{
    let q = if double {
        '"'
    } else {
        '\''
    };
    let s = seq![q] + t + seq![q];
    assert(s.len() == t.len() + 2);
    assert(s[0] == q);
    assert(s[t.len() as int + 1] == q);
    assert(s.subrange(1, t.len() as int + 1) =~= t);
    lemma_quoted_end_of_content(s, 1, q, t);
    if t.len() == 0 {
        reveal_strlit("\"\"");
        reveal_strlit("''");
        if double {
            assert(crate::text::tag_at(s, 0, "\"\""@)) by {
                assert(s.subrange(0, 2) =~= "\"\""@);
            }
        } else {
            assert(s.subrange(0, 2) != "\"\""@) by {
                assert(s.subrange(0, 2)[0] == '\'');
                assert("\"\""@[0] == '"');
            }
            assert(!crate::text::tag_at(s, 0, "\"\""@));
            assert(crate::text::tag_at(s, 0, "''"@)) by {
                assert(s.subrange(0, 2) =~= "''"@);
            }
        }
        assert(s.subrange(1, 1) =~= Seq::<char>::empty());
    } else {
        if !double {
            // the double-quote attempt fails: the first character is `'`
            assert(spec_string_quoted(s, 0, '"') is Fail);
            reveal_strlit("\"\"");
            assert("\"\""@.len() == 2);
            assert(!crate::text::tag_at(s, 0, "\"\""@)) by {
                assert(s.subrange(0, 2)[0] == '\'');
            }
        }
        assert(s.subrange(1, t.len() as int + 1) =~= t);
    }
}

} // verus!
