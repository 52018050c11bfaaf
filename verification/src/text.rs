//! Character-level helpers shared by the grammar, the renderer and the
//! selector engine: the whitespace class, Unicode character classes,
//! scanning loops, and decimal conversions.

use vstd::prelude::*;
use vstd::string::StrSliceExecFns;

verus! {

/// True for the four characters the grammar treats as whitespace.
pub open spec fn is_space(c: char) -> bool {
    c == ' ' || c == '\t' || c == '\r' || c == '\n'
}

/// Position of the first non-whitespace character at or after `pos`.
pub open spec fn spec_skip_ws(s: Seq<char>, pos: int) -> int
    decreases s.len() - pos,
{
    if 0 <= pos < s.len() && is_space(s[pos]) {
        spec_skip_ws(s, pos + 1)
    } else {
        pos
    }
}

/// Advance past whitespace.
pub fn skip_ws(s: &Vec<char>, pos: usize) -> (r: usize)
    requires
        pos <= s@.len(),
    ensures
        r == spec_skip_ws(s@, pos as int),
        pos <= r <= s@.len(),
{
    let mut i: usize = pos;
    while i < s.len() && (s[i] == ' ' || s[i] == '\t' || s[i] == '\r' || s[i] == '\n')
        invariant
            pos <= i <= s@.len(),
            spec_skip_ws(s@, pos as int) == spec_skip_ws(s@, i as int),
        decreases s@.len() - i,
    {
        i = i + 1;
    }
    i
}

/// The Unicode `Alphabetic` property, as `char::is_alphabetic` decides it.
pub uninterp spec fn unicode_alphabetic(c: char) -> bool;

/// Unicode alphanumericity, as `char::is_alphanumeric` decides it.
pub uninterp spec fn unicode_alphanumeric(c: char) -> bool;

/// The Unicode numeric property, as `char::is_numeric` decides it.
pub uninterp spec fn unicode_numeric(c: char) -> bool;

pub open spec fn is_ascii_letter(c: char) -> bool {
    ('a' as u32 <= c as u32 && c as u32 <= 'z' as u32) || ('A' as u32 <= c as u32 && c as u32
        <= 'Z' as u32)
}

pub open spec fn is_ascii_digit_char(c: char) -> bool {
    '0' as u32 <= c as u32 && c as u32 <= '9' as u32
}

/// Relies on `char::is_alphabetic`: the Unicode `Alphabetic` property,
/// which within ASCII holds exactly for the letters.
pub assume_specification[ char::is_alphabetic ](c: char) -> (r: bool)
    ensures
        r == unicode_alphabetic(c),
        is_ascii_letter(c) ==> r,
        (c as u32) < 128 && !is_ascii_letter(c) ==> !r,
;

/// Relies on `char::is_alphanumeric`: Unicode alphanumericity, which within
/// ASCII holds exactly for the letters and the decimal digits.
pub assume_specification[ char::is_alphanumeric ](c: char) -> (r: bool)
    ensures
        r == unicode_alphanumeric(c),
        is_ascii_letter(c) || is_ascii_digit_char(c) ==> r,
        (c as u32) < 128 && !is_ascii_letter(c) && !is_ascii_digit_char(c) ==> !r,
;

/// Relies on `char::is_numeric`: the Unicode numeric property, which within
/// ASCII holds exactly for the decimal digits.
pub assume_specification[ char::is_numeric ](c: char) -> (r: bool)
    ensures
        r == unicode_numeric(c),
        is_ascii_digit_char(c) ==> r,
        (c as u32) < 128 && !is_ascii_digit_char(c) ==> !r,
;

/// Characters allowed in a `key` and in a bare literal token.
pub open spec fn is_key_char(c: char) -> bool {
    unicode_alphanumeric(c) || unicode_alphabetic(c) || c == '.' || c == '_'
}

/// Characters allowed in a clause kind: letters and `.`.
pub open spec fn is_kind_char(c: char) -> bool {
    unicode_alphabetic(c) || c == '.'
}

/// Characters allowed in a named selector component.
pub open spec fn is_name_char(c: char) -> bool {
    unicode_alphanumeric(c) || unicode_alphabetic(c) || c == '#' || c == '_'
}

/// Characters allowed in a `destroy`/assign selector token.
pub open spec fn is_selector_char(c: char) -> bool {
    unicode_alphanumeric(c) || unicode_alphabetic(c) || c == '#' || c == '.' || c == '_'
}

/// Position of the first character at or after `pos` failing `p`.
pub open spec fn spec_scan(s: Seq<char>, pos: int, p: spec_fn(char) -> bool) -> int
    decreases s.len() - pos,
{
    if 0 <= pos < s.len() && p(s[pos]) {
        spec_scan(s, pos + 1, p)
    } else {
        pos
    }
}

pub proof fn lemma_scan_bounds(s: Seq<char>, pos: int, p: spec_fn(char) -> bool)
    requires
        0 <= pos <= s.len(),
    ensures
        pos <= spec_scan(s, pos, p) <= s.len(),
        forall|j: int| pos <= j < spec_scan(s, pos, p) ==> p(s[j]),
        spec_scan(s, pos, p) < s.len() ==> !p(s[spec_scan(s, pos, p)]),
    decreases s.len() - pos,
{
    if pos < s.len() && p(s[pos]) {
        lemma_scan_bounds(s, pos + 1, p);
    }
}

pub fn scan_key_chars(s: &Vec<char>, pos: usize) -> (r: usize)
    requires
        pos <= s@.len(),
    ensures
        r == spec_scan(s@, pos as int, |c: char| is_key_char(c)),
        pos <= r <= s@.len(),
{
    let mut i: usize = pos;
    while i < s.len() && (s[i].is_alphanumeric() || s[i].is_alphabetic() || s[i] == '.' || s[i] == '_')
        invariant
            pos <= i <= s@.len(),
            spec_scan(s@, pos as int, |c: char| is_key_char(c)) == spec_scan(
                s@,
                i as int,
                |c: char| is_key_char(c),
            ),
        decreases s@.len() - i,
    {
        i = i + 1;
    }
    i
}

pub fn scan_kind_chars(s: &Vec<char>, pos: usize) -> (r: usize)
    requires
        pos <= s@.len(),
    ensures
        r == spec_scan(s@, pos as int, |c: char| is_kind_char(c)),
        pos <= r <= s@.len(),
{
    let mut i: usize = pos;
    while i < s.len() && (s[i].is_alphabetic() || s[i] == '.')
        invariant
            pos <= i <= s@.len(),
            spec_scan(s@, pos as int, |c: char| is_kind_char(c)) == spec_scan(
                s@,
                i as int,
                |c: char| is_kind_char(c),
            ),
        decreases s@.len() - i,
    {
        i = i + 1;
    }
    i
}

pub fn scan_name_chars(s: &Vec<char>, pos: usize) -> (r: usize)
    requires
        pos <= s@.len(),
    ensures
        r == spec_scan(s@, pos as int, |c: char| is_name_char(c)),
        pos <= r <= s@.len(),
{
    let mut i: usize = pos;
    while i < s.len() && (s[i].is_alphanumeric() || s[i].is_alphabetic() || s[i] == '#' || s[i] == '_')
        invariant
            pos <= i <= s@.len(),
            spec_scan(s@, pos as int, |c: char| is_name_char(c)) == spec_scan(
                s@,
                i as int,
                |c: char| is_name_char(c),
            ),
        decreases s@.len() - i,
    {
        i = i + 1;
    }
    i
}

pub fn scan_selector_chars(s: &Vec<char>, pos: usize) -> (r: usize)
    requires
        pos <= s@.len(),
    ensures
        r == spec_scan(s@, pos as int, |c: char| is_selector_char(c)),
        pos <= r <= s@.len(),
{
    let mut i: usize = pos;
    while i < s.len() && (s[i].is_alphanumeric() || s[i].is_alphabetic() || s[i] == '#' || s[i] == '.' || s[i] == '_')
        invariant
            pos <= i <= s@.len(),
            spec_scan(s@, pos as int, |c: char| is_selector_char(c)) == spec_scan(
                s@,
                i as int,
                |c: char| is_selector_char(c),
            ),
        decreases s@.len() - i,
    {
        i = i + 1;
    }
    i
}

pub fn scan_numeric_chars(s: &Vec<char>, pos: usize) -> (r: usize)
    requires
        pos <= s@.len(),
    ensures
        r == spec_scan(s@, pos as int, |c: char| unicode_numeric(c)),
        pos <= r <= s@.len(),
{
    let mut i: usize = pos;
    while i < s.len() && s[i].is_numeric()
        invariant
            pos <= i <= s@.len(),
            spec_scan(s@, pos as int, |c: char| unicode_numeric(c)) == spec_scan(
                s@,
                i as int,
                |c: char| unicode_numeric(c),
            ),
        decreases s@.len() - i,
    {
        i = i + 1;
    }
    i
}

pub fn scan_ascii_digits(s: &Vec<char>, pos: usize) -> (r: usize)
    requires
        pos <= s@.len(),
    ensures
        r == spec_scan(s@, pos as int, |c: char| is_ascii_digit_char(c)),
        pos <= r <= s@.len(),
{
    let mut i: usize = pos;
    while i < s.len() && '0' as u32 <= s[i] as u32 && s[i] as u32 <= '9' as u32
        invariant
            pos <= i <= s@.len(),
            spec_scan(s@, pos as int, |c: char| is_ascii_digit_char(c)) == spec_scan(
                s@,
                i as int,
                |c: char| is_ascii_digit_char(c),
            ),
        decreases s@.len() - i,
    {
        i = i + 1;
    }
    i
}

pub fn scan_not_cr(s: &Vec<char>, pos: usize) -> (r: usize)
    requires
        pos <= s@.len(),
    ensures
        r == spec_scan(s@, pos as int, |c: char| c != '\r'),
        pos <= r <= s@.len(),
{
    let mut i: usize = pos;
    while i < s.len() && s[i] != '\r'
        invariant
            pos <= i <= s@.len(),
            spec_scan(s@, pos as int, |c: char| c != '\r') == spec_scan(
                s@,
                i as int,
                |c: char| c != '\r',
            ),
        decreases s@.len() - i,
    {
        i = i + 1;
    }
    i
}

pub fn scan_alphabetic(s: &Vec<char>, pos: usize) -> (r: usize)
    requires
        pos <= s@.len(),
    ensures
        r == spec_scan(s@, pos as int, |c: char| unicode_alphabetic(c)),
        pos <= r <= s@.len(),
{
    let mut i: usize = pos;
    while i < s.len() && s[i].is_alphabetic()
        invariant
            pos <= i <= s@.len(),
            spec_scan(s@, pos as int, |c: char| unicode_alphabetic(c)) == spec_scan(
                s@,
                i as int,
                |c: char| unicode_alphabetic(c),
            ),
        decreases s@.len() - i,
    {
        i = i + 1;
    }
    i
}

/// Position of the first `~`, quote `q` or end of input at or after
/// `pos`.
pub open spec fn spec_scan_not_quote(s: Seq<char>, pos: int, q: char) -> int
    decreases s.len() - pos,
{
    if 0 <= pos < s.len() && s[pos] != '~' && s[pos] != q {
        spec_scan_not_quote(s, pos + 1, q)
    } else {
        pos
    }
}

pub proof fn lemma_scan_not_quote_bounds(s: Seq<char>, pos: int, q: char)
    requires
        0 <= pos <= s.len(),
    ensures
        pos <= spec_scan_not_quote(s, pos, q) <= s.len(),
    decreases s.len() - pos,
{
    if pos < s.len() && s[pos] != '~' && s[pos] != q {
        lemma_scan_not_quote_bounds(s, pos + 1, q);
    }
}

/// Advance over characters that are neither `~` nor the quote `q`.
pub fn scan_not_quote(s: &Vec<char>, pos: usize, q: char) -> (r: usize)
    requires
        pos <= s@.len(),
    ensures
        r == spec_scan_not_quote(s@, pos as int, q),
        pos <= r <= s@.len(),
{
    let mut i: usize = pos;
    while i < s.len() && s[i] != '~' && s[i] != q
        invariant
            pos <= i <= s@.len(),
            spec_scan_not_quote(s@, pos as int, q) == spec_scan_not_quote(s@, i as int, q),
        decreases s@.len() - i,
    {
        i = i + 1;
    }
    i
}

/// `t` occurs in `s` starting at `pos`.
pub open spec fn tag_at(s: Seq<char>, pos: int, t: Seq<char>) -> bool {
    0 <= pos && pos + t.len() <= s.len() && s.subrange(pos, pos + t.len()) == t
}

/// Whether the characters of `t` stand in `s` at `pos`.
pub fn match_tag(s: &Vec<char>, pos: usize, t: &str) -> (r: bool)
    requires
        pos <= s@.len(),
    ensures
        r == tag_at(s@, pos as int, t@),
{
    let n = t.unicode_len();
    if n > s.len() - pos {
        proof {
            assert(!tag_at(s@, pos as int, t@));
        }
        return false;
    }
    let mut i: usize = 0;
    while i < n
        invariant
            0 <= i <= n,
            pos + n <= s@.len(),
            s@.len() <= usize::MAX,
            n == t@.len(),
            forall|j: int| 0 <= j < i ==> s@[pos + j] == t@[j],
        decreases n - i,
    {
        if s[pos + i] != t.get_char(i) {
            proof {
                assert(s@.subrange(pos as int, pos + t@.len())[i as int] != t@[i as int]);
            }
            return false;
        }
        i = i + 1;
    }
    proof {
        assert(s@.subrange(pos as int, pos + t@.len()) =~= t@);
    }
    true
}

/// Relies on `Iterator::collect` for `String`: the collected string holds
/// exactly the iterated characters, in order.
#[verifier::external_body]
pub fn chars_to_string(v: &Vec<char>) -> (r: String)
    ensures
        r@ == v@,
{
    v.iter().collect()
}

/// Relies on `str::chars`: the iterator yields exactly the characters of
/// the string, in order.
#[verifier::external_body]
pub fn str_to_chars(s: &str) -> (r: Vec<char>)
    ensures
        r@ == s@,
{
    s.chars().collect()
}

/// Copy the characters `lo..hi` of `s` into an owned string.
pub fn chars_substring(s: &Vec<char>, lo: usize, hi: usize) -> (r: String)
    requires
        lo <= hi <= s@.len(),
    ensures
        r@ == s@.subrange(lo as int, hi as int),
{
    let mut out: Vec<char> = Vec::new();
    let mut i: usize = lo;
    while i < hi
        invariant
            lo <= i <= hi <= s@.len(),
            out@ == s@.subrange(lo as int, i as int),
        decreases hi - i,
    {
        out.push(s[i]);
        proof {
            assert(s@.subrange(lo as int, i + 1 as int) =~= s@.subrange(lo as int, i as int).push(
                s@[i as int],
            ));
        }
        i = i + 1;
    }
    chars_to_string(&out)
}

/// Append the characters of `t` to `out`.
pub fn push_str_chars(out: &mut Vec<char>, t: &str)
    ensures
        final(out)@ == old(out)@ + t@,
{
    let v = str_to_chars(t);
    let mut i: usize = 0;
    while i < v.len()
        invariant
            0 <= i <= v@.len(),
            v@ == t@,
            out@ == old(out)@ + t@.subrange(0, i as int),
        decreases v@.len() - i,
    {
        out.push(v[i]);
        proof {
            assert(old(out)@ + t@.subrange(0, i + 1 as int) =~= (old(out)@ + t@.subrange(
                0,
                i as int,
            )).push(t@[i as int]));
        }
        i = i + 1;
    }
    proof {
        assert(t@.subrange(0, t@.len() as int) =~= t@);
    }
}

/// Whether two strings hold the same characters.
pub fn str_eq(a: &str, b: &str) -> (r: bool)
    ensures
        r == (a@ == b@),
{
    let la = a.unicode_len();
    let lb = b.unicode_len();
    if la != lb {
        return false;
    }
    let mut i: usize = 0;
    while i < la
        invariant
            0 <= i <= la,
            la == a@.len() && la == b@.len(),
            forall|j: int| 0 <= j < i ==> a@[j] == b@[j],
        decreases la - i,
    {
        if a.get_char(i) != b.get_char(i) {
            return false;
        }
        i = i + 1;
    }
    proof {
        assert(a@ =~= b@);
    }
    true
}

pub open spec fn digit_char(d: nat) -> char {
    if d == 0 {
        '0'
    } else if d == 1 {
        '1'
    } else if d == 2 {
        '2'
    } else if d == 3 {
        '3'
    } else if d == 4 {
        '4'
    } else if d == 5 {
        '5'
    } else if d == 6 {
        '6'
    } else if d == 7 {
        '7'
    } else if d == 8 {
        '8'
    } else {
        '9'
    }
}

/// The decimal notation of `n`, without sign or padding.
pub open spec fn spec_dec(n: nat) -> Seq<char>
    decreases n,
{
    if n < 10 {
        seq![digit_char(n)]
    } else {
        spec_dec(n / 10).push(digit_char(n % 10))
    }
}

fn digit_char_exec(d: u128) -> (r: char)
    requires
        d < 10,
    ensures
        r == digit_char(d as nat),
{
    if d == 0 {
        '0'
    } else if d == 1 {
        '1'
    } else if d == 2 {
        '2'
    } else if d == 3 {
        '3'
    } else if d == 4 {
        '4'
    } else if d == 5 {
        '5'
    } else if d == 6 {
        '6'
    } else if d == 7 {
        '7'
    } else if d == 8 {
        '8'
    } else {
        '9'
    }
}

/// Append the decimal notation of `n`.
pub fn push_dec(n: u128, out: &mut Vec<char>)
    ensures
        final(out)@ == old(out)@ + spec_dec(n as nat),
    decreases n,
{
    if n < 10 {
        out.push(digit_char_exec(n));
        proof {
            assert(out@ =~= old(out)@ + spec_dec(n as nat));
        }
    } else {
        push_dec(n / 10, out);
        out.push(digit_char_exec(n % 10));
        proof {
            assert(out@ =~= old(out)@ + spec_dec(n as nat));
        }
    }
}

/// The decimal notation of `n` as an owned string.
pub fn dec_string(n: u128) -> (r: String)
    ensures
        r@ == spec_dec(n as nat),
{
    let mut v: Vec<char> = Vec::new();
    push_dec(n, &mut v);
    chars_to_string(&v)
}

/// Decimal rendering always reads back as the same value.
pub proof fn lemma_dec_token(n: nat)
    requires
        n <= u32::MAX,
    ensures
        spec_token_u32(spec_dec(n)) == Some(n as u32),
{
    lemma_dec_digits(n);
    lemma_dec_value(n);
}

proof fn lemma_dec_digits(n: nat)
    ensures
        spec_dec(n).len() > 0,
        all_ascii_digits(spec_dec(n)),
    decreases n,
{
    if n >= 10 {
        lemma_dec_digits(n / 10);
        assert forall|i: int| 0 <= i < spec_dec(n).len() implies is_ascii_digit_char(
            #[trigger] spec_dec(n)[i],
        ) by {
            if i < spec_dec(n / 10).len() {
                assert(spec_dec(n)[i] == spec_dec(n / 10)[i]);
            }
        }
    }
}

proof fn lemma_digit_roundtrip(d: nat)
    requires
        d < 10,
    ensures
        digit_val(digit_char(d)) == d,
{
    if d == 0 {
        assert(digit_val('0') == 0);
    } else if d == 1 {
        assert(digit_val('1') == 1);
    } else if d == 2 {
        assert(digit_val('2') == 2);
    } else if d == 3 {
        assert(digit_val('3') == 3);
    } else if d == 4 {
        assert(digit_val('4') == 4);
    } else if d == 5 {
        assert(digit_val('5') == 5);
    } else if d == 6 {
        assert(digit_val('6') == 6);
    } else if d == 7 {
        assert(digit_val('7') == 7);
    } else if d == 8 {
        assert(digit_val('8') == 8);
    } else {
        assert(digit_val('9') == 9);
    }
}

proof fn lemma_dec_value(n: nat)
    ensures
        dec_value(spec_dec(n)) == n,
    decreases n,
{
    if n < 10 {
        lemma_digit_roundtrip(n);
        assert(spec_dec(n) == seq![digit_char(n)]);
        assert(spec_dec(n).last() == digit_char(n));
        assert(spec_dec(n).drop_last() =~= Seq::<char>::empty());
        assert(dec_value(spec_dec(n)) == dec_value(Seq::<char>::empty()) * 10 + digit_val(
            digit_char(n),
        ));
    } else {
        lemma_dec_value(n / 10);
        lemma_digit_roundtrip(n % 10);
        assert(spec_dec(n) == spec_dec(n / 10).push(digit_char(n % 10)));
        assert(spec_dec(n).last() == digit_char(n % 10));
        assert(spec_dec(n).drop_last() =~= spec_dec(n / 10));
        assert(dec_value(spec_dec(n)) == (n / 10) * 10 + digit_val(digit_char(n % 10)));
        assert(n == (n / 10) * 10 + n % 10) by {
            vstd::arithmetic::div_mod::lemma_fundamental_div_mod(n as int, 10);
        }
    }
}

pub open spec fn all_ascii_digits(s: Seq<char>) -> bool {
    forall|i: int| 0 <= i < s.len() ==> is_ascii_digit_char(s[i])
}

pub open spec fn digit_val(c: char) -> nat {
    (c as u32 - '0' as u32) as nat
}

/// The numeric value of a run of decimal digits.
pub open spec fn dec_value(s: Seq<char>) -> nat
    decreases s.len(),
{
    if s.len() == 0 {
        0
    } else {
        dec_value(s.drop_last()) * 10 + digit_val(s.last())
    }
}

proof fn lemma_dec_value_step(s: Seq<char>, i: int)
    requires
        0 <= i < s.len(),
    ensures
        dec_value(s.take(i + 1)) == dec_value(s.take(i)) * 10 + digit_val(s[i]),
{
    assert(s.take(i + 1).drop_last() =~= s.take(i));
    assert(s.take(i + 1).last() == s[i]);
}

proof fn lemma_dec_value_prefix(s: Seq<char>, i: int)
    requires
        0 <= i <= s.len(),
    ensures
        dec_value(s.take(i)) <= dec_value(s),
    decreases s.len() - i,
{
    if i == s.len() {
        assert(s.take(i) =~= s);
    } else {
        lemma_dec_value_step(s, i);
        lemma_dec_value_prefix(s, i + 1);
    }
}

/// The value a selector component or numeric token denotes, when it is a
/// plain run of decimal digits whose value fits in `u32`.
pub open spec fn spec_token_u32(s: Seq<char>) -> Option<u32> {
    if s.len() > 0 && all_ascii_digits(s) && dec_value(s) <= u32::MAX {
        Some(dec_value(s) as u32)
    } else {
        None
    }
}

/// Parse a pure-digit token into a `u32`.
pub fn token_u32(s: &str) -> (r: Option<u32>)
    ensures
        r == spec_token_u32(s@),
{
    let n = s.unicode_len();
    if n == 0 {
        return None;
    }
    let mut acc: u64 = 0;
    let mut i: usize = 0;
    while i < n
        invariant
            0 <= i <= n,
            n == s@.len(),
            acc == dec_value(s@.take(i as int)),
            acc <= u32::MAX,
            forall|j: int| 0 <= j < i ==> is_ascii_digit_char(s@[j]),
        decreases n - i,
    {
        let c = s.get_char(i);
        let u = c as u32;
        if u < '0' as u32 || u > '9' as u32 {
            return None;
        }
        proof {
            lemma_dec_value_step(s@, i as int);
        }
        acc = acc * 10 + ((u - '0' as u32) as u64);
        if acc > u32::MAX as u64 {
            proof {
                lemma_dec_value_prefix(s@, i + 1 as int);
            }
            return None;
        }
        i = i + 1;
    }
    proof {
        assert(s@.take(n as int) =~= s@);
    }
    Some(acc as u32)
}

} // verus!
