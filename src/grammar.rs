//! The grammar of the three directive kinds, and a scanner that follows it.
//!
//! Each `parse_*` spec function reads the text between the braces of one
//! directive; the executable functions read the same range of a character
//! vector and return exactly what the spec function gives.
use vstd::prelude::*;
use crate::text::{
    digit, digit_value, digits_value, is_digit, is_space, is_upper, is_word, space, string_of,
    upper, word,
};
use crate::parser::{ChoiceList, ChoiceV, CommandV, StringCommand, opt_view};

verus! {

/// Length of the longest prefix of `s` whose characters all satisfy `f`.
pub open spec fn span(s: Seq<char>, f: spec_fn(char) -> bool) -> nat
    decreases s.len(),
{
    if s.len() > 0 && f(s[0]) {
        1 + span(s.drop_first(), f)
    } else {
        0
    }
}

/// Length of the longest suffix of `s` whose characters all satisfy `f`.
pub open spec fn rspan(s: Seq<char>, f: spec_fn(char) -> bool) -> nat
    decreases s.len(),
{
    if s.len() > 0 && f(s.last()) {
        1 + rspan(s.drop_last(), f)
    } else {
        0
    }
}

pub open spec fn space_p() -> spec_fn(char) -> bool {
    |c: char| is_space(c)
}

pub open spec fn digit_p() -> spec_fn(char) -> bool {
    |c: char| is_digit(c)
}

pub open spec fn other_than(x: char) -> spec_fn(char) -> bool {
    |c: char| c != x
}

/// A character of an unquoted choice: neither whitespace nor `"`.
pub open spec fn bare_p() -> spec_fn(char) -> bool {
    |c: char| !is_space(c) && c != '"'
}

pub open spec fn all_digits(s: Seq<char>) -> bool {
    forall|i: int| 0 <= i < s.len() ==> is_digit(#[trigger] s[i])
}

pub open spec fn all_word(s: Seq<char>) -> bool {
    forall|i: int| 0 <= i < s.len() ==> is_word(#[trigger] s[i])
}

/// A character of a command name after the first.
pub open spec fn is_name_char(c: char) -> bool {
    is_upper(c) || is_digit(c) || c == '_'
}

/// A command name: empty (a line marker), `{` (an escaped brace), or an
/// upper-case letter or `_` followed by upper-case letters, digits and `_`.
pub open spec fn valid_name(n: Seq<char>) -> bool {
    n.len() == 0 || n == seq!['{'] || ((is_upper(n[0]) || n[0] == '_') && forall|i: int|
        1 <= i < n.len() ==> is_name_char(#[trigger] n[i]))
}

/// The index that a run of digits spells, where it fits in `usize`.
pub open spec fn to_index(ds: Seq<char>) -> Option<usize> {
    if digits_value(ds) <= usize::MAX {
        Some(digits_value(ds) as usize)
    } else {
        None
    }
}

/// `(digits ':')? name ('.' word)?`
pub open spec fn parse_command(b: Seq<char>) -> Option<CommandV> {
    let k = span(b, other_than(':')) as int;
    let has_index = k < b.len();
    let rest = if has_index { b.skip(k + 1) } else { b };
    let d = span(rest, other_than('.')) as int;
    let name = rest.take(d);
    let index = if has_index { to_index(b.take(k)) } else { None };
    if has_index && !(k > 0 && all_digits(b.take(k))) {
        None
    } else if !valid_name(name) {
        None
    } else if d < rest.len() {
        let case = rest.skip(d + 1);
        if case.len() > 0 && all_word(case) {
            Some(CommandV { index, name, case: Some(case) })
        } else {
            None
        }
    } else {
        Some(CommandV { index, name, case: None })
    }
}

/// `G ws* '=' ws* word`
pub open spec fn parse_gender(b: Seq<char>) -> Option<Seq<char>> {
    if b.len() == 0 || b[0] != 'G' {
        None
    } else {
        let t = b.skip(1);
        let a = span(t, space_p()) as int;
        if a < t.len() && t[a] == '=' {
            let u = t.skip(a + 1);
            let w = u.skip(span(u, space_p()) as int);
            if w.len() > 0 && all_word(w) {
                Some(w)
            } else {
                None
            }
        } else {
            None
        }
    }
}

/// A sequence of items, each after a run of whitespace: a bare token of
/// characters other than whitespace and `"`, or a `"`-quoted string.
pub open spec fn parse_items(s: Seq<char>) -> Option<Seq<Seq<char>>>
    decreases s.len(),
{
    if s.len() == 0 {
        Some(seq![])
    } else {
        let a = span(s, space_p()) as int;
        if a == 0 || a >= s.len() {
            None
        } else if s[a] == '"' {
            let u = s.skip(a + 1);
            let q = span(u, other_than('"')) as int;
            if q >= u.len() {
                None
            } else {
                match parse_items(u.skip(q + 1)) {
                    Some(r) => Some(seq![u.take(q)] + r),
                    None => None,
                }
            }
        } else {
            let u = s.skip(a);
            let e = span(u, bare_p()) as int;
            proof {
                lemma_span_bound(u, bare_p());
            }
            match parse_items(u.skip(e)) {
                Some(r) => Some(seq![u.take(e)] + r),
                None => None,
            }
        }
    }
}

/// The choices of a choice list: whitespace, a first item that does not
/// start with a digit, further items, and trailing whitespace.
pub open spec fn parse_choices(w: Seq<char>) -> Option<Seq<Seq<char>>> {
    let a = span(w, space_p()) as int;
    if a == 0 || a >= w.len() || is_digit(w[a]) {
        None
    } else {
        parse_items(w.take(w.len() - rspan(w, space_p())))
    }
}

/// `('P'|'G') (ws+ digits (':' digits)?)? choices`
pub open spec fn parse_choice(b: Seq<char>) -> Option<ChoiceV> {
    if b.len() == 0 || !(b[0] == 'P' || b[0] == 'G') {
        None
    } else {
        let t = b.skip(1);
        let a = span(t, space_p()) as int;
        if a == 0 || a >= t.len() {
            None
        } else if is_digit(t[a]) {
            let u = t.skip(a);
            let n1 = span(u, digit_p()) as int;
            let v = u.skip(n1);
            let has_sub = v.len() > 1 && v[0] == ':' && is_digit(v[1]);
            let n2 = if has_sub { span(v.skip(1), digit_p()) as int } else { 0 };
            let w = if has_sub { v.skip(1 + n2) } else { v };
            match parse_choices(w) {
                Some(items) => Some(ChoiceV {
                    name: b.take(1),
                    indexref: to_index(u.take(n1)),
                    indexsubref: if has_sub { to_index(v.skip(1).take(n2)) } else { None },
                    choices: items,
                }),
                None => None,
            }
        } else {
            match parse_choices(t) {
                Some(items) => Some(
                    ChoiceV { name: b.take(1), indexref: None, indexsubref: None, choices: items },
                ),
                None => None,
            }
        }
    }
}

// ------------------------------------------------------------------ lemmas

pub proof fn lemma_span(s: Seq<char>, f: spec_fn(char) -> bool, k: int)
    requires
        0 <= k <= s.len(),
        forall|j: int| 0 <= j < k ==> f(s[j]),
        k == s.len() || !f(s[k]),
    ensures
        span(s, f) == k,
    decreases k,
{
    if k > 0 {
        lemma_span(s.drop_first(), f, k - 1);
    }
}

pub proof fn lemma_rspan(s: Seq<char>, f: spec_fn(char) -> bool, k: int)
    requires
        0 <= k <= s.len(),
        forall|j: int| s.len() - k <= j < s.len() ==> f(s[j]),
        k == s.len() || !f(s[s.len() - k - 1]),
    ensures
        rspan(s, f) == k,
    decreases k,
{
    if k > 0 {
        lemma_rspan(s.drop_last(), f, k - 1);
    }
}

pub proof fn lemma_span_bound(s: Seq<char>, f: spec_fn(char) -> bool)
    ensures
        span(s, f) <= s.len(),
        forall|j: int| 0 <= j < span(s, f) ==> f(s[j]),
        span(s, f) < s.len() ==> !f(s[span(s, f) as int]),
    decreases s.len(),
{
    if s.len() > 0 {
        lemma_span_bound(s.drop_first(), f);
        if f(s[0]) {
            assert forall|j: int| 0 <= j < span(s, f) implies f(s[j]) by {
                if j > 0 {
                    assert(s[j] == s.drop_first()[j - 1]);
                }
            }
        }
    }
}

proof fn lemma_digits_prefix(s: Seq<char>, k: int)
    requires
        0 <= k <= s.len(),
    ensures
        digits_value(s.take(k)) <= digits_value(s),
    decreases s.len() - k,
{
    if k < s.len() {
        lemma_digits_prefix(s, k + 1);
        assert(s.take(k + 1).drop_last() =~= s.take(k));
    } else {
        assert(s.take(k) =~= s);
    }
}

// ---------------------------------------------------------------- scanners

/// End of the run of whitespace that starts at `lo`.
pub fn skip_spaces(cs: &Vec<char>, lo: usize, hi: usize) -> (r: usize)
    requires
        lo <= hi <= cs@.len(),
    ensures
        lo <= r <= hi,
        r - lo == span(cs@.subrange(lo as int, hi as int), space_p()),
{
    let mut i = lo;
    while i < hi && space(cs[i])
        invariant
            lo <= i <= hi <= cs@.len(),
            forall|j: int| lo <= j < i ==> is_space(cs@[j]),
        decreases hi - i,
    {
        i = i + 1;
    }
    proof {
        lemma_span(cs@.subrange(lo as int, hi as int), space_p(), i - lo);
    }
    i
}

/// End of the run of digits that starts at `lo`.
pub fn skip_digits(cs: &Vec<char>, lo: usize, hi: usize) -> (r: usize)
    requires
        lo <= hi <= cs@.len(),
    ensures
        lo <= r <= hi,
        r - lo == span(cs@.subrange(lo as int, hi as int), digit_p()),
{
    let mut i = lo;
    while i < hi && digit(cs[i])
        invariant
            lo <= i <= hi <= cs@.len(),
            forall|j: int| lo <= j < i ==> is_digit(cs@[j]),
        decreases hi - i,
    {
        i = i + 1;
    }
    proof {
        lemma_span(cs@.subrange(lo as int, hi as int), digit_p(), i - lo);
    }
    i
}

/// Position of the first `x` at or after `lo`, or `hi`.
pub fn find_char(cs: &Vec<char>, lo: usize, hi: usize, x: char) -> (r: usize)
    requires
        lo <= hi <= cs@.len(),
    ensures
        lo <= r <= hi,
        r - lo == span(cs@.subrange(lo as int, hi as int), other_than(x)),
{
    let mut i = lo;
    while i < hi && cs[i] != x
        invariant
            lo <= i <= hi <= cs@.len(),
            forall|j: int| lo <= j < i ==> cs@[j] != x,
        decreases hi - i,
    {
        i = i + 1;
    }
    proof {
        lemma_span(cs@.subrange(lo as int, hi as int), other_than(x), i - lo);
    }
    i
}

/// End of the unquoted token that starts at `lo`.
fn skip_bare(cs: &Vec<char>, lo: usize, hi: usize) -> (r: usize)
    requires
        lo <= hi <= cs@.len(),
    ensures
        lo <= r <= hi,
        r - lo == span(cs@.subrange(lo as int, hi as int), bare_p()),
{
    let mut i = lo;
    while i < hi && !space(cs[i]) && cs[i] != '"'
        invariant
            lo <= i <= hi <= cs@.len(),
            forall|j: int| lo <= j < i ==> !is_space(cs@[j]) && cs@[j] != '"',
        decreases hi - i,
    {
        i = i + 1;
    }
    proof {
        lemma_span(cs@.subrange(lo as int, hi as int), bare_p(), i - lo);
    }
    i
}

/// Start of the run of whitespace that ends at `hi`.
fn trim_spaces_end(cs: &Vec<char>, lo: usize, hi: usize) -> (r: usize)
    requires
        lo <= hi <= cs@.len(),
    ensures
        lo <= r <= hi,
        hi - r == rspan(cs@.subrange(lo as int, hi as int), space_p()),
{
    let mut i = hi;
    while i > lo && space(cs[i - 1])
        invariant
            lo <= i <= hi <= cs@.len(),
            forall|j: int| i <= j < hi ==> is_space(cs@[j]),
        decreases i - lo,
    {
        i = i - 1;
    }
    proof {
        lemma_rspan(cs@.subrange(lo as int, hi as int), space_p(), hi - i);
    }
    i
}

fn all_of_word(cs: &Vec<char>, lo: usize, hi: usize) -> (r: bool)
    requires
        lo <= hi <= cs@.len(),
    ensures
        r == all_word(cs@.subrange(lo as int, hi as int)),
{
    let mut i = lo;
    while i < hi
        invariant
            lo <= i <= hi <= cs@.len(),
            forall|j: int| lo <= j < i ==> is_word(cs@[j]),
        decreases hi - i,
    {
        if !word(cs[i]) {
            assert(!is_word(cs@.subrange(lo as int, hi as int)[i - lo]));
            return false;
        }
        i = i + 1;
    }
    true
}

fn all_of_digits(cs: &Vec<char>, lo: usize, hi: usize) -> (r: bool)
    requires
        lo <= hi <= cs@.len(),
    ensures
        r == all_digits(cs@.subrange(lo as int, hi as int)),
{
    let mut i = lo;
    while i < hi
        invariant
            lo <= i <= hi <= cs@.len(),
            forall|j: int| lo <= j < i ==> is_digit(cs@[j]),
        decreases hi - i,
    {
        if !digit(cs[i]) {
            assert(!is_digit(cs@.subrange(lo as int, hi as int)[i - lo]));
            return false;
        }
        i = i + 1;
    }
    true
}

fn name_ok(cs: &Vec<char>, lo: usize, hi: usize) -> (r: bool)
    requires
        lo <= hi <= cs@.len(),
    ensures
        r == valid_name(cs@.subrange(lo as int, hi as int)),
{
    let ghost n = cs@.subrange(lo as int, hi as int);
    if lo == hi {
        return true;
    }
    if hi == lo + 1 && cs[lo] == '{' {
        assert(n =~= seq!['{']);
        return true;
    }
    if !upper(cs[lo]) && cs[lo] != '_' {
        assert(seq!['{'].len() == 1 && seq!['{'][0] == '{');
        assert(n != seq!['{']);
        return false;
    }
    let mut i = lo + 1;
    while i < hi
        invariant
            lo < i <= hi <= cs@.len(),
            n == cs@.subrange(lo as int, hi as int),
            is_upper(n[0]) || n[0] == '_',
            forall|j: int| 1 <= j < i - lo ==> is_name_char(#[trigger] n[j]),
        decreases hi - i,
    {
        if !upper(cs[i]) && !digit(cs[i]) && cs[i] != '_' {
            assert(!is_name_char(n[i - lo]));
            return false;
        }
        i = i + 1;
    }
    true
}

/// The index spelled by the digits in `[lo, hi)`, where it fits.
fn index_of_digits(cs: &Vec<char>, lo: usize, hi: usize) -> (r: Option<usize>)
    requires
        lo <= hi <= cs@.len(),
        all_digits(cs@.subrange(lo as int, hi as int)),
    ensures
        r == to_index(cs@.subrange(lo as int, hi as int)),
{
    let ghost s = cs@.subrange(lo as int, hi as int);
    let mut v: usize = 0;
    let mut i = lo;
    while i < hi
        invariant
            lo <= i <= hi <= cs@.len(),
            s == cs@.subrange(lo as int, hi as int),
            all_digits(s),
            v as nat == digits_value(s.take(i - lo)),
        decreases hi - i,
    {
        let ghost k = i - lo;
        assert(s.take(k + 1).drop_last() =~= s.take(k));
        assert(s.take(k + 1).last() == cs@[i as int]);
        assert(is_digit(s[k]));
        let d = (cs[i] as u32 - '0' as u32) as usize;
        assert(d as nat == digit_value(cs@[i as int]));
        if v > (usize::MAX - d) / 10 {
            proof {
                assert(digits_value(s.take(k + 1)) == v * 10 + d);
                assert(v * 10 + d > usize::MAX) by (nonlinear_arith)
                    requires v > (usize::MAX - d) / 10, d <= 9;
                lemma_digits_prefix(s, k + 1);
            }
            return None;
        }
        assert(v * 10 + d <= usize::MAX) by (nonlinear_arith)
            requires v <= (usize::MAX - d) / 10, d <= 9;
        v = v * 10 + d;
        i = i + 1;
    }
    assert(s.take(hi - lo) =~= s);
    Some(v)
}

fn opt_string(cs: &Vec<char>, lo: usize, hi: usize) -> (r: String)
    requires
        lo <= hi <= cs@.len(),
    ensures
        r@ == cs@.subrange(lo as int, hi as int),
{
    string_of(&cs.as_slice()[lo..hi])
}

pub open spec fn cmd_view(o: Option<StringCommand>) -> Option<CommandV> {
    match o {
        Some(c) => Some(c@),
        None => None,
    }
}

/// Reads `(digits ':')? name ('.' word)?` from `[lo, hi)`.
pub fn scan_command(cs: &Vec<char>, lo: usize, hi: usize) -> (r: Option<StringCommand>)
    requires
        lo <= hi <= cs@.len(),
    ensures
        cmd_view(r) == parse_command(cs@.subrange(lo as int, hi as int)),
{
    let ghost b = cs@.subrange(lo as int, hi as int);
    let k = find_char(cs, lo, hi, ':');
    let has_index = k < hi;
    let start = if has_index { k + 1 } else { lo };
    let ghost rest = if has_index { b.skip(k - lo + 1) } else { b };
    assert(rest =~= cs@.subrange(start as int, hi as int));
    if has_index {
        assert(b.take(k - lo) =~= cs@.subrange(lo as int, k as int));
        if !(k > lo && all_of_digits(cs, lo, k)) {
            return None;
        }
    }
    let d = find_char(cs, start, hi, '.');
    assert(rest.take(d - start) =~= cs@.subrange(start as int, d as int));
    if !name_ok(cs, start, d) {
        return None;
    }
    let index = if has_index { index_of_digits(cs, lo, k) } else { None };
    let name = opt_string(cs, start, d);
    if d < hi {
        assert(rest.skip(d - start + 1) =~= cs@.subrange(d + 1, hi as int));
        if d + 1 < hi && all_of_word(cs, d + 1, hi) {
            let case = opt_string(cs, d + 1, hi);
            let r = StringCommand { index, name, case: Some(case) };
            assert(cmd_view(Some(r)) == parse_command(b));
            Some(r)
        } else {
            None
        }
    } else {
        let r = StringCommand { index, name, case: None };
        assert(cmd_view(Some(r)) == parse_command(b));
        Some(r)
    }
}

/// Reads `G ws* '=' ws* word` from `[lo, hi)`.
pub fn scan_gender(cs: &Vec<char>, lo: usize, hi: usize) -> (r: Option<String>)
    requires
        lo <= hi <= cs@.len(),
    ensures
        opt_view(r) == parse_gender(cs@.subrange(lo as int, hi as int)),
{
    let ghost b = cs@.subrange(lo as int, hi as int);
    if lo == hi || cs[lo] != 'G' {
        return None;
    }
    let ghost t = b.skip(1);
    assert(t =~= cs@.subrange(lo + 1, hi as int));
    let a = skip_spaces(cs, lo + 1, hi);
    if a < hi && cs[a] == '=' {
        let ghost u = t.skip(a - lo);
        assert(u =~= cs@.subrange(a + 1, hi as int));
        let w = skip_spaces(cs, a + 1, hi);
        assert(u.skip(w - a - 1) =~= cs@.subrange(w as int, hi as int));
        if w < hi && all_of_word(cs, w, hi) {
            Some(opt_string(cs, w, hi))
        } else {
            None
        }
    } else {
        None
    }
}

/// Reads the items in `[lo, hi)`.
fn scan_items(cs: &Vec<char>, lo: usize, hi: usize) -> (r: Option<Vec<String>>)
    requires
        lo <= hi <= cs@.len(),
    ensures
        match r {
            Some(v) => parse_items(cs@.subrange(lo as int, hi as int)) == Some(
                v@.map_values(|c: String| c@),
            ),
            None => parse_items(cs@.subrange(lo as int, hi as int)) is None,
        },
{
    let mut out: Vec<String> = Vec::new();
    let mut i = lo;
    while i < hi
        invariant
            lo <= i <= hi <= cs@.len(),
            parse_items(cs@.subrange(lo as int, hi as int)) == match parse_items(
                cs@.subrange(i as int, hi as int),
            ) {
                Some(r) => Some(out@.map_values(|c: String| c@) + r),
                None => None,
            },
        decreases hi - i,
    {
        let ghost s = cs@.subrange(i as int, hi as int);
        let ghost before = out@.map_values(|c: String| c@);
        let a = skip_spaces(cs, i, hi);
        if a == i || a >= hi {
            return None;
        }
        if cs[a] == '"' {
            let ghost u = s.skip(a - i + 1);
            assert(u =~= cs@.subrange(a + 1, hi as int));
            let q = find_char(cs, a + 1, hi, '"');
            if q >= hi {
                return None;
            }
            assert(u.take(q - a - 1) =~= cs@.subrange(a + 1, q as int));
            assert(u.skip(q - a - 1 + 1) =~= cs@.subrange(q + 1, hi as int));
            out.push(opt_string(cs, a + 1, q));
            i = q + 1;
        } else {
            let ghost u = s.skip(a - i);
            assert(u =~= cs@.subrange(a as int, hi as int));
            let e = skip_bare(cs, a, hi);
            assert(u.take(e - a) =~= cs@.subrange(a as int, e as int));
            assert(u.skip(e - a) =~= cs@.subrange(e as int, hi as int));
            out.push(opt_string(cs, a, e));
            i = e;
        }
        proof {
            let now = out@.map_values(|c: String| c@);
            assert(now =~= before.push(now.last()));
            match parse_items(cs@.subrange(i as int, hi as int)) {
                Some(r) => {
                    assert(before + (seq![now.last()] + r) =~= now + r);
                },
                None => {},
            }
        }
    }
    assert(cs@.subrange(i as int, hi as int) =~= Seq::<char>::empty());
    assert(out@.map_values(|c: String| c@) + Seq::<Seq<char>>::empty() =~= out@.map_values(
        |c: String| c@,
    ));
    Some(out)
}

/// Reads the choices of a choice list from `[lo, hi)`.
fn scan_choices(cs: &Vec<char>, lo: usize, hi: usize) -> (r: Option<Vec<String>>)
    requires
        lo <= hi <= cs@.len(),
    ensures
        match r {
            Some(v) => parse_choices(cs@.subrange(lo as int, hi as int)) == Some(
                v@.map_values(|c: String| c@),
            ),
            None => parse_choices(cs@.subrange(lo as int, hi as int)) is None,
        },
{
    let ghost w = cs@.subrange(lo as int, hi as int);
    let a = skip_spaces(cs, lo, hi);
    if a == lo || a >= hi || digit(cs[a]) {
        return None;
    }
    let end = trim_spaces_end(cs, lo, hi);
    assert(w.take(w.len() - rspan(w, space_p())) =~= cs@.subrange(lo as int, end as int));
    scan_items(cs, lo, end)
}

pub open spec fn choice_view(o: Option<ChoiceList>) -> Option<ChoiceV> {
    match o {
        Some(c) => Some(c@),
        None => None,
    }
}

/// Reads `('P'|'G') (ws+ digits (':' digits)?)? choices` from `[lo, hi)`.
pub fn scan_choice(cs: &Vec<char>, lo: usize, hi: usize) -> (r: Option<ChoiceList>)
    requires
        lo <= hi <= cs@.len(),
    ensures
        choice_view(r) == parse_choice(cs@.subrange(lo as int, hi as int)),
{
    let ghost b = cs@.subrange(lo as int, hi as int);
    if lo == hi || !(cs[lo] == 'P' || cs[lo] == 'G') {
        return None;
    }
    let ghost t = b.skip(1);
    assert(t =~= cs@.subrange(lo + 1, hi as int));
    assert(b.take(1) =~= cs@.subrange(lo as int, lo + 1));
    let a = skip_spaces(cs, lo + 1, hi);
    if a == lo + 1 || a >= hi {
        return None;
    }
    if digit(cs[a]) {
        let ghost u = t.skip(a - lo - 1);
        assert(u =~= cs@.subrange(a as int, hi as int));
        let n1 = skip_digits(cs, a, hi);
        let ghost v = u.skip(n1 - a);
        assert(v =~= cs@.subrange(n1 as int, hi as int));
        assert(u.take(n1 - a) =~= cs@.subrange(a as int, n1 as int));
        proof {
            lemma_span_bound(u, digit_p());
        }
        let indexref = index_of_digits(cs, a, n1);
        let has_sub = hi - n1 > 1 && cs[n1] == ':' && digit(cs[n1 + 1]);
        let mut indexsubref: Option<usize> = None;
        let mut wstart = n1;
        if has_sub {
            assert(v.skip(1) =~= cs@.subrange(n1 + 1, hi as int));
            let n2 = skip_digits(cs, n1 + 1, hi);
            assert(v.skip(1).take(n2 - n1 - 1) =~= cs@.subrange(n1 + 1, n2 as int));
            assert(v.skip(1 + (n2 - n1 - 1)) =~= cs@.subrange(n2 as int, hi as int));
            proof {
                lemma_span_bound(v.skip(1), digit_p());
            }
            indexsubref = index_of_digits(cs, n1 + 1, n2);
            wstart = n2;
        }
        match scan_choices(cs, wstart, hi) {
            Some(items) => {
                let r = ChoiceList {
                    name: opt_string(cs, lo, lo + 1),
                    indexref,
                    indexsubref,
                    choices: items,
                };
                Some(r)
            },
            None => None,
        }
    } else {
        match scan_choices(cs, lo + 1, hi) {
            Some(items) => {
                let r = ChoiceList {
                    name: opt_string(cs, lo, lo + 1),
                    indexref: None,
                    indexsubref: None,
                    choices: items,
                };
                Some(r)
            },
            None => None,
        }
    }
}

} // verus!
