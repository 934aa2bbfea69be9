//! Laws that relate several operations of the library.
use vstd::prelude::*;
use crate::commands::{Dialect, lemma_registry_coherent, registry};
use crate::normalize::{default_sub, drop_default_sub, norm_pass, norm_step, normalize_spec};
use crate::parser::{ChoiceV, CommandV, ContentV, FragmentV};
use crate::validate::{base_result, translation_result};
use crate::rules::{
    ConfigV, PosEntryV, Severity, SigV, diag, genders_usable, has_error, pos_index, scan_all,
    span_of,
};
use crate::grammar::{
    all_digits, all_word, bare_p, digit_p, is_name_char, lemma_span, lemma_rspan, other_than,
    parse_choice, parse_choices, parse_command, parse_gender, parse_items, space_p, span, to_index,
    valid_name,
};
use crate::parser::{
    compile_all, compile_choice, compile_command, compile_content, compile_gender, compile_item,
    compile_items, needs_quotes, parse_directive, parse_from, parse_text,
};
use crate::text::{decimal, digit_char, digit_value, digits_value, is_digit, is_space, is_word};

verus! {

/// Two position maps with the same positions and the same default
/// sub-indices, entry by entry.
pub open spec fn same_defaults(a: Seq<PosEntryV>, b: Seq<PosEntryV>) -> bool {
    &&& a.len() == b.len()
    &&& forall|i: int|
        0 <= i < a.len() ==> a[i].position == b[i].position && default_sub(a[i].info)
            == default_sub(b[i].info)
}

proof fn lemma_pos_index_same(a: Seq<PosEntryV>, b: Seq<PosEntryV>, p: usize)
    requires
        same_defaults(a, b),
    ensures
        pos_index(a, p) == pos_index(b, p),
        -1 <= pos_index(a, p) < a.len(),
    decreases a.len(),
{
    if a.len() > 0 {
        lemma_pos_index_same(a.drop_last(), b.drop_last(), p);
    }
}

proof fn lemma_drop_same(a: Seq<PosEntryV>, b: Seq<PosEntryV>, f: FragmentV)
    requires
        same_defaults(a, b),
    ensures
        drop_default_sub(a, f) == drop_default_sub(b, f),
{
    match f.content {
        ContentV::Choice(ch) => match ch.indexref {
            Some(r) => {
                lemma_pos_index_same(a, b, r);
                let i = pos_index(a, r);
                if i >= 0 {
                    assert(default_sub(a[i].info) == default_sub(b[i].info));
                }
            },
            None => {},
        },
        _ => {},
    }
}

/// Running the first pass again over the output of the first pass, with
/// default sub-indices dropped by any map, changes nothing and rebuilds an
/// equivalent map.
#[verifier::rlimit(30)]
proof fn lemma_pass_stable(d: Dialect, fs: Seq<FragmentV>, m: Seq<PosEntryV>)
    ensures
        ({
            let n = norm_pass(d, fs);
            let x = n.out.map_values(|f: FragmentV| drop_default_sub(m, f));
            let again = norm_pass(d, x);
            &&& n.out.len() == fs.len()
            &&& again.pos == n.pos
            &&& again.out == x
            &&& same_defaults(again.map, n.map)
        }),
    decreases fs.len(),
{
    if fs.len() > 0 {
        let prev = fs.drop_last();
        let f = fs.last();
        lemma_pass_stable(d, prev, m);
        let np = norm_pass(d, prev);
        let n = norm_pass(d, fs);
        assert(n == norm_step(d, np, f));
        let xp = np.out.map_values(|g: FragmentV| drop_default_sub(m, g));
        let x = n.out.map_values(|g: FragmentV| drop_default_sub(m, g));
        let o = n.out.last();
        assert(n.out == np.out.push(o));
        assert(x.drop_last() =~= xp);
        let g = drop_default_sub(m, o);
        assert(x.last() == g);
        let ap = norm_pass(d, xp);
        assert(norm_pass(d, x) == norm_step(d, ap, g));
        match f.content {
            ContentV::Command(cmd) => {
                lemma_registry_coherent(cmd.name, d);
                match registry(cmd.name, d) {
                    None => {},
                    Some(info) => {
                        let name = match info.norm_name {
                            Some(nn) => nn,
                            None => cmd.name,
                        };
                        assert(name == info.norm());
                        if info.parameters.len() > 0 {
                            let s = norm_step(d, ap, g);
                            assert(same_defaults(s.map, n.map));
                        }
                    },
                }
            },
            ContentV::Choice(ch) => {},
            _ => {},
        }
        assert(x =~= xp.push(g));
    }
}

/// Normalizing a normalized parsed string changes nothing.
pub proof fn lemma_normalize_idempotent(d: Dialect, fs: Seq<FragmentV>)
    ensures
        normalize_spec(d, normalize_spec(d, fs)) == normalize_spec(d, fs),
{
    let n = norm_pass(d, fs);
    let g = normalize_spec(d, fs);
    lemma_pass_stable(d, fs, n.map);
    let again = norm_pass(d, g);
    assert forall|j: int| 0 <= j < g.len() implies drop_default_sub(again.map, g[j]) == g[j] by {
        lemma_drop_same(again.map, n.map, g[j]);
    }
    assert(normalize_spec(d, g) =~= g);
}

// ---------------------------------------------------------------- round trip

pub open spec fn free_of(s: Seq<char>, c: char) -> bool {
    forall|i: int| 0 <= i < s.len() ==> s[i] != c
}

/// A choice that reads back as itself: no `"` or `}`, and no whitespace
/// unless it is written quoted.
pub open spec fn canonical_item(x: Seq<char>) -> bool {
    &&& free_of(x, '"')
    &&& free_of(x, '}')
    &&& (needs_quotes(x) || forall|i: int| 0 <= i < x.len() ==> !is_space(#[trigger] x[i]))
}

/// A choice list that reads back as itself: `P` or `G`, at least one choice,
/// each canonical, a first unquoted choice that does not start with a digit
/// (nor, in a gender list, with `=`), and a sub-index only beside an index.
pub open spec fn canonical_choice(ch: ChoiceV) -> bool {
    &&& ch.name.len() == 1 && (ch.name[0] == 'P' || ch.name[0] == 'G')
    &&& ch.choices.len() > 0
    &&& forall|i: int| 0 <= i < ch.choices.len() ==> canonical_item(#[trigger] ch.choices[i])
    &&& !needs_quotes(ch.choices[0]) ==> !is_digit(ch.choices[0][0]) && (ch.name[0] == 'G'
        ==> ch.choices[0][0] != '=')
    &&& ch.indexref is None ==> ch.indexsubref is None
}

/// A fragment that reads back as itself: non-empty text without `{`, a
/// command with a valid name and case, a gender that is a word, or a
/// canonical choice list.
pub open spec fn canonical_content(c: ContentV) -> bool {
    match c {
        ContentV::Text(t) => t.len() > 0 && free_of(t, '{'),
        ContentV::Command(cmd) => valid_name(cmd.name) && match cmd.case {
            Some(k) => k.len() > 0 && all_word(k),
            None => true,
        },
        ContentV::Gender(g) => g.len() > 0 && all_word(g),
        ContentV::Choice(ch) => canonical_choice(ch),
    }
}

/// Canonical fragments, no two texts next to each other.
pub open spec fn canonical(p: Seq<FragmentV>) -> bool {
    &&& forall|i: int| 0 <= i < p.len() ==> canonical_content(#[trigger] p[i].content)
    &&& forall|i: int|
        0 <= i < p.len() - 1 ==> !((#[trigger] p[i].content is Text) && p[i + 1].content is Text)
}

proof fn lemma_digit_char(k: nat)
    requires
        k < 10,
    ensures
        is_digit(digit_char(k)),
        digit_value(digit_char(k)) == k,
{
}

proof fn lemma_decimal(n: nat)
    ensures
        decimal(n).len() >= 1,
        all_digits(decimal(n)),
        digits_value(decimal(n)) == n,
    decreases n,
{
    if n < 10 {
        lemma_digit_char(n);
        assert(decimal(n).drop_last() =~= Seq::<char>::empty());
        assert(digits_value(decimal(n).drop_last()) == 0);
        assert(decimal(n).last() == digit_char(n));
    } else {
        lemma_decimal(n / 10);
        lemma_digit_char(n % 10);
        let d = decimal(n);
        assert(d.drop_last() =~= decimal(n / 10));
        assert(d.last() == digit_char(n % 10));
        assert(digits_value(d) == digits_value(decimal(n / 10)) * 10 + digit_value(d.last()));
        assert(n == (n / 10) * 10 + n % 10);
        assert forall|i: int| 0 <= i < d.len() implies is_digit(#[trigger] d[i]) by {
            if i < d.len() - 1 {
                assert(d[i] == decimal(n / 10)[i]);
            }
        }
    }
}

proof fn lemma_items_front(xs: Seq<Seq<char>>)
    requires
        xs.len() > 0,
    ensures
        compile_items(xs) == compile_item(xs[0]) + compile_items(xs.drop_first()),
    decreases xs.len(),
{
    if xs.len() == 1 {
        assert(xs.drop_last() =~= Seq::<Seq<char>>::empty());
        assert(xs.drop_first() =~= Seq::<Seq<char>>::empty());
        assert(compile_items(xs) =~= compile_item(xs[0]) + compile_items(xs.drop_first()));
    } else {
        lemma_items_front(xs.drop_last());
        assert(xs.drop_last().drop_first() =~= xs.drop_first().drop_last());
        assert(xs.drop_first().last() == xs.last());
        assert(compile_items(xs) =~= compile_item(xs[0]) + compile_items(xs.drop_first()));
    }
}

proof fn lemma_item_shape(x: Seq<char>)
    requires
        canonical_item(x),
    ensures
        compile_item(x).len() >= 2,
        compile_item(x)[0] == ' ',
        !is_space(compile_item(x)[1]),
        !is_space(compile_item(x).last()),
        free_of(compile_item(x), '}'),
{
    let c = compile_item(x);
    if needs_quotes(x) {
        assert(c =~= seq![' ', '"'] + x + seq!['"']);
        assert forall|i: int| 0 <= i < c.len() implies c[i] != '}' by {
            if 2 <= i < c.len() - 1 {
                assert(c[i] == x[i - 2]);
            }
        }
    } else {
        assert(c =~= seq![' '] + x);
        assert(c[1] == x[0]);
        assert(c.last() == x[x.len() - 1]);
        assert forall|i: int| 0 <= i < c.len() implies c[i] != '}' by {
            if 1 <= i {
                assert(c[i] == x[i - 1]);
            }
        }
    }
}

proof fn lemma_item_read(x: Seq<char>, rest: Seq<char>)
    requires
        canonical_item(x),
        rest.len() == 0 || rest[0] == ' ',
    ensures
        parse_items(compile_item(x) + rest) == match parse_items(rest) {
            Some(r) => Some(seq![x] + r),
            None => None,
        },
{
    let s = compile_item(x) + rest;
    lemma_item_shape(x);
    lemma_span(s, space_p(), 1);
    if needs_quotes(x) {
        assert(s =~= seq![' ', '"'] + x + seq!['"'] + rest);
        let u = s.skip(2);
        assert(u =~= x + seq!['"'] + rest);
        lemma_span(u, other_than('"'), x.len() as int);
        assert(u.take(x.len() as int) =~= x);
        assert(u.skip(x.len() as int + 1) =~= rest);
    } else {
        assert(s =~= seq![' '] + x + rest);
        let u = s.skip(1);
        assert(u =~= x + rest);
        lemma_span(u, bare_p(), x.len() as int);
        assert(u.take(x.len() as int) =~= x);
        assert(u.skip(x.len() as int) =~= rest);
    }
}

#[verifier::rlimit(30)]

proof fn lemma_items_read(xs: Seq<Seq<char>>)
    requires
        forall|i: int| 0 <= i < xs.len() ==> canonical_item(#[trigger] xs[i]),
    ensures
        parse_items(compile_items(xs)) == Some(xs),
        xs.len() > 0 ==> compile_items(xs).len() >= 2 && compile_items(xs)[0] == ' '
            && !is_space(compile_items(xs)[1]) && !is_space(compile_items(xs).last()),
        free_of(compile_items(xs), '}'),
    decreases xs.len(),
{
    if xs.len() == 0 {
        assert(compile_items(xs) =~= Seq::<char>::empty());
    } else {
        let t = xs.drop_first();
        assert(canonical_item(xs[0]));
        assert forall|i: int| 0 <= i < t.len() implies canonical_item(#[trigger] t[i]) by {
            assert(t[i] == xs[i + 1]);
        }
        lemma_items_read(t);
        lemma_items_front(xs);
        lemma_item_shape(xs[0]);
        lemma_item_read(xs[0], compile_items(t));
        assert(seq![xs[0]] + t =~= xs);
        let c = compile_items(xs);
        let h = compile_item(xs[0]);
        assert(c == h + compile_items(t));
        assert(c[0] == h[0]);
        assert(c[1] == h[1]);
        if t.len() == 0 {
            assert(c =~= h);
        } else {
            assert(c.last() == compile_items(t).last());
        }
        assert forall|i: int| 0 <= i < c.len() implies c[i] != '}' by {
            if i < h.len() {
                assert(c[i] == h[i]);
            } else {
                assert(c[i] == compile_items(t)[i - h.len()]);
            }
        }
    }
}

/// The text of a directive: braces at both ends, no other `}`.
pub open spec fn directive_shape(d: Seq<char>) -> bool {
    d.len() >= 2 && d[0] == '{' && d.last() == '}' && free_of(d.drop_last(), '}')
}

proof fn lemma_word_char(c: char)
    requires
        is_word(c),
    ensures
        !is_space(c),
        c != ':' && c != '.' && c != '}' && c != '=' && c != '{',
{
}

proof fn lemma_name_chars(name: Seq<char>)
    requires
        valid_name(name),
    ensures
        forall|j: int|
            0 <= j < name.len() ==> name[j] != ':' && name[j] != '.' && name[j] != '}',
{
    assert forall|j: int| 0 <= j < name.len() implies name[j] != ':' && name[j] != '.'
        && name[j] != '}' by {
        if name.len() == 1 && name[0] == '{' {
        } else if j >= 1 {
            assert(is_name_char(name[j]));
        }
    }
}

pub open spec fn index_part(c: CommandV) -> Seq<char> {
    match c.index {
        Some(i) => decimal(i as nat).push(':'),
        None => Seq::<char>::empty(),
    }
}

pub open spec fn case_part(c: CommandV) -> Seq<char> {
    match c.case {
        Some(k) => seq!['.'] + k,
        None => Seq::<char>::empty(),
    }
}

proof fn lemma_command_rest(c: CommandV)
    requires
        canonical_content(ContentV::Command(c)),
    ensures
        free_of(c.name + case_part(c), ':'),
        free_of(c.name + case_part(c), '}'),
        span(c.name + case_part(c), other_than('.')) == c.name.len(),
{
    let name = c.name;
    let cs = case_part(c);
    let rest = name + cs;
    lemma_name_chars(name);
    match c.case {
        Some(k) => {
            assert forall|j: int| 0 <= j < k.len() implies k[j] != ':' && k[j] != '.' && k[j]
                != '}' by {
                lemma_word_char(k[j]);
            }
        },
        None => {},
    }
    assert forall|j: int| 0 <= j < rest.len() implies rest[j] != ':' && rest[j] != '}' by {
        if j < name.len() {
            assert(rest[j] == name[j]);
        } else {
            assert(rest[j] == cs[j - name.len()]);
        }
    }
    assert forall|j: int| 0 <= j < name.len() implies rest[j] != '.' by {
        assert(rest[j] == name[j]);
    }
    lemma_span(rest, other_than('.'), name.len() as int);
}

#[verifier::rlimit(30)]

proof fn lemma_command_parse(c: CommandV)
    requires
        canonical_content(ContentV::Command(c)),
    ensures
        parse_command(index_part(c) + c.name + case_part(c)) == Some(c),
{
    let name = c.name;
    let rest = name + case_part(c);
    let body = index_part(c) + name + case_part(c);
    lemma_command_rest(c);
    match c.index {
        Some(i) => {
            lemma_decimal(i as nat);
            let dd = decimal(i as nat);
            assert(body =~= dd + seq![':'] + rest);
            assert forall|j: int| 0 <= j < dd.len() implies body[j] != ':' by {
                assert(body[j] == dd[j]);
            }
            lemma_span(body, other_than(':'), dd.len() as int);
            assert(body.take(dd.len() as int) =~= dd);
            assert(body.skip(dd.len() as int + 1) =~= rest);
        },
        None => {
            assert(body =~= rest);
            lemma_span(body, other_than(':'), body.len() as int);
        },
    }
    assert(rest.take(name.len() as int) =~= name);
    match c.case {
        Some(k) => {
            assert(rest.skip(name.len() as int + 1) =~= k);
        },
        None => {
            assert(rest =~= name);
        },
    }
}

proof fn lemma_free_concat(a: Seq<char>, b: Seq<char>, x: char)
    requires
        free_of(a, x),
        free_of(b, x),
    ensures
        free_of(a + b, x),
{
    assert forall|j: int| 0 <= j < (a + b).len() implies (a + b)[j] != x by {
        if j < a.len() {
            assert((a + b)[j] == a[j]);
        } else {
            assert((a + b)[j] == b[j - a.len()]);
        }
    }
}

proof fn lemma_braced_shape(body: Seq<char>)
    requires
        free_of(body, '}'),
    ensures
        directive_shape(seq!['{'] + body + seq!['}']),
{
    let d = seq!['{'] + body + seq!['}'];
    assert(d.drop_last() =~= seq!['{'] + body);
    lemma_free_concat(seq!['{'], body, '}');
}

#[verifier::rlimit(30)]

proof fn lemma_command_read(c: CommandV)
    requires
        canonical_content(ContentV::Command(c)),
    ensures
        directive_shape(compile_command(c)),
        parse_directive(compile_command(c)) == Some(ContentV::Command(c)),
{
    let d = compile_command(c);
    let idx = index_part(c);
    let rest = c.name + case_part(c);
    let body = idx + c.name + case_part(c);
    assert(d =~= seq!['{'] + body + seq!['}']);
    assert(d.subrange(1, d.len() - 1) =~= body);
    lemma_command_parse(c);
    lemma_command_rest(c);
    assert(body =~= idx + rest);
    match c.index {
        Some(i) => {
            lemma_decimal(i as nat);
            let dd = decimal(i as nat);
            assert(idx =~= dd + seq![':']);
            assert forall|j: int| 0 <= j < dd.len() implies dd[j] != '}' by {
                assert(crate::text::is_digit(dd[j]));
            }
            lemma_free_concat(dd, seq![':'], '}');
        },
        None => {},
    }
    lemma_free_concat(idx, rest, '}');
    lemma_braced_shape(body);
}

proof fn lemma_gender_read(g: Seq<char>)
    requires
        g.len() > 0,
        all_word(g),
    ensures
        directive_shape(compile_gender(g)),
        parse_directive(compile_gender(g)) == Some(ContentV::Gender(g)),
{
    let d = compile_gender(g);
    let body = seq!['G', '='] + g;
    assert(d =~= seq!['{'] + body + seq!['}']);
    assert(d.subrange(1, d.len() - 1) =~= body);
    assert forall|j: int| 0 <= j < g.len() implies g[j] != ':' && g[j] != '.' && g[j] != '}'
        && !is_space(g[j]) by {
        lemma_word_char(g[j]);
    }
    assert forall|j: int| 0 <= j < body.len() implies body[j] != ':' && body[j] != '.' by {
        if j >= 2 {
            assert(body[j] == g[j - 2]);
        }
    }
    lemma_span(body, other_than(':'), body.len() as int);
    lemma_span(body, other_than('.'), body.len() as int);
    assert(body.take(body.len() as int) =~= body);
    assert(!is_name_char(body[1]));
    assert(seq!['{'].len() == 1);
    assert(!valid_name(body));
    let t = body.skip(1);
    assert(t =~= seq!['='] + g);
    lemma_span(t, space_p(), 0);
    assert(t.skip(1) =~= g);
    lemma_span(g, space_p(), 0);
    assert(g.skip(0) =~= g);
    assert forall|j: int| 0 <= j < d.len() - 1 implies d.drop_last()[j] != '}' by {
        if j >= 3 {
            assert(d[j] == g[j - 3]);
        }
    }
}

pub open spec fn sub_part(ch: ChoiceV) -> Seq<char> {
    match ch.indexsubref {
        Some(x) => seq![':'] + decimal(x as nat),
        None => Seq::<char>::empty(),
    }
}

pub open spec fn ref_part(ch: ChoiceV) -> Seq<char> {
    match ch.indexref {
        Some(i) => seq![' '] + decimal(i as nat) + sub_part(ch),
        None => Seq::<char>::empty(),
    }
}

pub open spec fn choice_body(ch: ChoiceV) -> Seq<char> {
    ch.name + ref_part(ch) + compile_items(ch.choices)
}

proof fn lemma_first_item(ch: ChoiceV)
    requires
        canonical_choice(ch),
    ensures
        parse_items(compile_items(ch.choices)) == Some(ch.choices),
        compile_items(ch.choices).len() >= 2,
        compile_items(ch.choices)[0] == ' ',
        !is_space(compile_items(ch.choices)[1]),
        !is_digit(compile_items(ch.choices)[1]),
        ch.name[0] == 'G' ==> compile_items(ch.choices)[1] != '=',
        !is_space(compile_items(ch.choices).last()),
        free_of(compile_items(ch.choices), '}'),
{
    let xs = ch.choices;
    lemma_items_read(xs);
    lemma_items_front(xs);
    let h = compile_item(xs[0]);
    assert(compile_items(xs)[1] == h[1]);
    if needs_quotes(xs[0]) {
        assert(h =~= seq![' ', '"'] + xs[0] + seq!['"']);
    } else {
        assert(h =~= seq![' '] + xs[0]);
        assert(h[1] == xs[0][0]);
    }
}

#[verifier::rlimit(30)]

proof fn lemma_choice_head(ch: ChoiceV)
    requires
        canonical_choice(ch),
    ensures
        ({
            let b = choice_body(ch);
            let t = b.skip(1);
            &&& b.len() >= 3
            &&& b[0] == ch.name[0]
            &&& b[1] == ' '
            &&& t[0] == ' '
            &&& !is_space(t[1])
            &&& (ch.name[0] == 'G' ==> t[1] != '=')
            &&& is_digit(t[1]) == (ch.indexref is Some)
            &&& span(t, space_p()) == 1
            &&& free_of(b, '}')
        }),
{
    let items = compile_items(ch.choices);
    lemma_first_item(ch);
    let b = choice_body(ch);
    let r = ref_part(ch);
    assert(b =~= ch.name + r + items);
    let t = b.skip(1);
    assert(t =~= r + items);
    match ch.indexref {
        Some(i) => {
            lemma_decimal(i as nat);
            assert(t[1] == decimal(i as nat)[0]);
            match ch.indexsubref {
                Some(x) => {
                    lemma_decimal(x as nat);
                },
                None => {},
            }
            let sp = sub_part(ch);
            assert forall|j: int| 0 <= j < r.len() implies r[j] != '}' by {
                if j >= 1 && j < 1 + decimal(i as nat).len() {
                    assert(r[j] == decimal(i as nat)[j - 1]);
                } else if j >= 1 + decimal(i as nat).len() {
                    assert(r[j] == sp[j - 1 - decimal(i as nat).len()]);
                    if j - 1 - decimal(i as nat).len() >= 1 {
                        assert(sp[j - 1 - decimal(i as nat).len()] == decimal(
                            ch.indexsubref->0 as nat,
                        )[j - 2 - decimal(i as nat).len()]);
                    }
                }
            }
        },
        None => {
            assert(r.len() == 0);
            assert(t =~= items);
        },
    }
    lemma_span(t, space_p(), 1);
    assert forall|j: int| 0 <= j < b.len() implies b[j] != '}' by {
        if j == 0 {
        } else if j < 1 + r.len() {
            assert(b[j] == r[j - 1]);
        } else {
            assert(b[j] == items[j - 1 - r.len()]);
        }
    }
}

#[verifier::rlimit(30)]

proof fn lemma_choice_not_command(ch: ChoiceV)
    requires
        canonical_choice(ch),
    ensures
        parse_command(choice_body(ch)) is None,
{
    let b = choice_body(ch);
    lemma_choice_head(ch);
    crate::grammar::lemma_span_bound(b, other_than(':'));
    let k = span(b, other_than(':')) as int;
    if k < b.len() {
        assert(k > 0);
        assert(!is_digit(b.take(k)[0]));
    } else {
        crate::grammar::lemma_span_bound(b, other_than('.'));
        let d = span(b, other_than('.')) as int;
        assert(d >= 2);
        let name = b.take(d);
        assert(name[1] == ' ');
        assert(!is_name_char(name[1]));
        assert(seq!['{'].len() == 1);
    }
}

proof fn lemma_choice_not_gender(ch: ChoiceV)
    requires
        canonical_choice(ch),
    ensures
        parse_gender(choice_body(ch)) is None,
{
    lemma_choice_head(ch);
}

/// The references and choices after the name of a choice list with an index.
#[verifier::rlimit(30)]
proof fn lemma_choice_index_parse(ch: ChoiceV)
    requires
        canonical_choice(ch),
        ch.indexref is Some,
    ensures
        ({
            let t = choice_body(ch).skip(1);
            let u = t.skip(1);
            let n1 = span(u, digit_p()) as int;
            let v = u.skip(n1);
            let has_sub = v.len() > 1 && v[0] == ':' && is_digit(v[1]);
            let n2 = if has_sub { span(v.skip(1), digit_p()) as int } else { 0 };
            &&& to_index(u.take(n1)) == ch.indexref
            &&& (if has_sub { to_index(v.skip(1).take(n2)) } else { None }) == ch.indexsubref
            &&& (if has_sub { v.skip(1 + n2) } else { v }) == compile_items(ch.choices)
        }),
{
    let items = compile_items(ch.choices);
    lemma_first_item(ch);
    let i = ch.indexref->0;
    let t = choice_body(ch).skip(1);
    assert(t =~= ref_part(ch) + items);
    lemma_decimal(i as nat);
    let di = decimal(i as nat);
    let sp = sub_part(ch);
    let u = t.skip(1);
    assert(u =~= di + sp + items);
    assert(sp.len() == 0 || sp[0] == ':');
    assert forall|j: int| 0 <= j < di.len() implies is_digit(#[trigger] u[j]) by {
        assert(u[j] == di[j]);
    }
    if sp.len() > 0 {
        assert(u[di.len() as int] == ':');
    } else {
        assert(u[di.len() as int] == items[0]);
    }
    lemma_span(u, digit_p(), di.len() as int);
    assert(u.take(di.len() as int) =~= di);
    let v = u.skip(di.len() as int);
    assert(v =~= sp + items);
    match ch.indexsubref {
        Some(x) => {
            lemma_decimal(x as nat);
            let dx = decimal(x as nat);
            assert(v.skip(1) =~= dx + items);
            assert(v[1] == dx[0]);
            assert forall|j: int| 0 <= j < dx.len() implies is_digit(#[trigger] v.skip(1)[j]) by {
                assert(v.skip(1)[j] == dx[j]);
            }
            assert(v.skip(1)[dx.len() as int] == items[0]);
            lemma_span(v.skip(1), digit_p(), dx.len() as int);
            assert(v.skip(1).take(dx.len() as int) =~= dx);
            assert(v.skip(1 + dx.len() as int) =~= items);
        },
        None => {
            assert(v =~= items);
        },
    }
}

#[verifier::rlimit(30)]

proof fn lemma_choice_parse(ch: ChoiceV)
    requires
        canonical_choice(ch),
    ensures
        parse_choice(choice_body(ch)) == Some(ch),
{
    let b = choice_body(ch);
    let items = compile_items(ch.choices);
    lemma_choice_head(ch);
    lemma_first_item(ch);
    lemma_span(items, space_p(), 1);
    lemma_rspan(items, space_p(), 0);
    assert(items.take(items.len() - 0) =~= items);
    assert(parse_choices(items) == Some(ch.choices));
    assert(b.take(1) =~= ch.name);
    if ch.indexref is Some {
        lemma_choice_index_parse(ch);
    } else {
        assert(b.skip(1) =~= items);
    }
}

proof fn lemma_choice_read(ch: ChoiceV)
    requires
        canonical_choice(ch),
    ensures
        directive_shape(compile_choice(ch)),
        parse_directive(compile_choice(ch)) == Some(ContentV::Choice(ch)),
{
    let d = compile_choice(ch);
    let b = choice_body(ch);
    assert(d =~= seq!['{'] + b + seq!['}']);
    assert(d.subrange(1, d.len() - 1) =~= b);
    lemma_choice_head(ch);
    lemma_choice_not_command(ch);
    lemma_choice_not_gender(ch);
    lemma_choice_parse(ch);
    assert forall|j: int| 0 <= j < d.len() - 1 implies d.drop_last()[j] != '}' by {
        if j >= 1 {
            assert(d[j] == b[j - 1]);
        }
    }
}

/// Where the text of fragment `k` starts in the text of all of them.
pub open spec fn offset(p: Seq<FragmentV>, k: int) -> int {
    compile_all(p.take(k)).len() as int
}

proof fn lemma_compile_prefix(p: Seq<FragmentV>, k: int)
    requires
        0 <= k <= p.len(),
    ensures
        offset(p, k) <= compile_all(p).len(),
        compile_all(p).subrange(0, offset(p, k)) == compile_all(p.take(k)),
    decreases p.len() - k,
{
    if k == p.len() {
        assert(p.take(k) =~= p);
        assert(compile_all(p).subrange(0, offset(p, k)) =~= compile_all(p));
    } else {
        lemma_compile_prefix(p, k + 1);
        assert(p.take(k + 1).drop_last() =~= p.take(k));
        let whole = compile_all(p);
        let longer = compile_all(p.take(k + 1));
        assert(longer == compile_all(p.take(k)) + compile_content(p[k].content));
        assert(whole.subrange(0, offset(p, k)) =~= longer.subrange(0, offset(p, k)));
        assert(longer.subrange(0, offset(p, k)) =~= compile_all(p.take(k)));
    }
}

proof fn lemma_piece(p: Seq<FragmentV>, k: int)
    requires
        0 <= k < p.len(),
    ensures
        offset(p, k + 1) == offset(p, k) + compile_content(p[k].content).len(),
        offset(p, k + 1) <= compile_all(p).len(),
        compile_all(p).subrange(offset(p, k), offset(p, k + 1)) == compile_content(p[k].content),
{
    lemma_compile_prefix(p, k + 1);
    assert(p.take(k + 1).drop_last() =~= p.take(k));
    let longer = compile_all(p.take(k + 1));
    assert(longer == compile_all(p.take(k)) + compile_content(p[k].content));
    assert(compile_all(p).subrange(offset(p, k), offset(p, k + 1)) =~= longer.subrange(
        offset(p, k),
        offset(p, k + 1),
    ));
    assert(longer.subrange(offset(p, k), offset(p, k + 1)) =~= compile_content(p[k].content));
}

proof fn lemma_directive(c: ContentV)
    requires
        canonical_content(c),
        !(c is Text),
    ensures
        directive_shape(compile_content(c)),
        parse_directive(compile_content(c)) == Some(c),
{
    match c {
        ContentV::Command(cmd) => lemma_command_read(cmd),
        ContentV::Gender(g) => lemma_gender_read(g),
        ContentV::Choice(ch) => lemma_choice_read(ch),
        ContentV::Text(_) => {},
    }
}

/// The fragments that parsing finds from fragment `k` on.
pub open spec fn reparsed(p: Seq<FragmentV>, k: int) -> Seq<FragmentV> {
    Seq::new(
        (p.len() - k) as nat,
        |j: int|
            FragmentV {
                pos_begin: offset(p, k + j),
                pos_end: offset(p, k + j + 1),
                content: p[k + j].content,
            },
    )
}

proof fn lemma_piece_chars(p: Seq<FragmentV>, k: int)
    requires
        0 <= k < p.len(),
    ensures
        forall|j: int|
            0 <= j < compile_content(p[k].content).len() ==> compile_all(p)[offset(p, k) + j]
                == compile_content(p[k].content)[j],
{
    lemma_piece(p, k);
    let s = compile_all(p);
    let i = offset(p, k);
    let e = offset(p, k + 1);
    assert forall|j: int| 0 <= j < compile_content(p[k].content).len() implies s[i + j]
        == compile_content(p[k].content)[j] by {
        assert(s.subrange(i, e)[j] == s[i + j]);
    }
}

#[verifier::rlimit(30)]

proof fn lemma_text_step(p: Seq<FragmentV>, k: int, t: Seq<char>)
    requires
        canonical(p),
        0 <= k < p.len(),
        p[k].content == ContentV::Text(t),
    ensures
        compile_all(p)[offset(p, k)] != '{',
        span(compile_all(p).skip(offset(p, k)), other_than('{')) == t.len(),
        compile_all(p).subrange(offset(p, k), offset(p, k) + t.len()) == t,
{
    let s = compile_all(p);
    let i = offset(p, k);
    let e = offset(p, k + 1);
    lemma_piece(p, k);
    lemma_piece_chars(p, k);
    assert(canonical_content(p[k].content));
    let rest = s.skip(i);
    assert forall|j: int| 0 <= j < t.len() implies rest[j] != '{' by {
        assert(rest[j] == s[i + j]);
    }
    if k + 1 < p.len() {
        let c2 = p[k + 1].content;
        assert(canonical_content(c2));
        assert(!(c2 is Text));
        lemma_directive(c2);
        lemma_piece_chars(p, k + 1);
        lemma_piece(p, k + 1);
        assert(rest[t.len() as int] == s[e]);
    } else {
        lemma_compile_prefix(p, k + 1);
        assert(p.take(k + 1) =~= p);
    }
    lemma_span(rest, other_than('{'), t.len() as int);
    assert(s.subrange(i, i + t.len()) =~= t);
}

#[verifier::rlimit(30)]

proof fn lemma_directive_step(p: Seq<FragmentV>, k: int)
    requires
        canonical(p),
        0 <= k < p.len(),
        !(p[k].content is Text),
    ensures
        compile_all(p)[offset(p, k)] == '{',
        span(compile_all(p).skip(offset(p, k)), other_than('}')) == compile_content(
            p[k].content,
        ).len() - 1,
        compile_all(p).subrange(offset(p, k), offset(p, k + 1)) == compile_content(p[k].content),
        parse_directive(compile_content(p[k].content)) == Some(p[k].content),
{
    let s = compile_all(p);
    let i = offset(p, k);
    let c = p[k].content;
    let piece = compile_content(c);
    lemma_piece(p, k);
    lemma_piece_chars(p, k);
    assert(canonical_content(c));
    lemma_directive(c);
    let rest = s.skip(i);
    assert forall|j: int| 0 <= j < piece.len() - 1 implies rest[j] != '}' by {
        assert(rest[j] == s[i + j]);
        assert(piece.drop_last()[j] == piece[j]);
    }
    assert(rest[piece.len() - 1] == s[i + piece.len() - 1]);
    lemma_span(rest, other_than('}'), piece.len() - 1);
}

#[verifier::rlimit(30)]

proof fn lemma_parse_from(p: Seq<FragmentV>, k: int)
    requires
        canonical(p),
        0 <= k <= p.len(),
    ensures
        parse_from(compile_all(p), offset(p, k)) == Ok::<Seq<FragmentV>, crate::parser::ParseErrorV>(
            reparsed(p, k),
        ),
    decreases p.len() - k,
{
    lemma_compile_prefix(p, k);
    if k == p.len() {
        assert(p.take(k) =~= p);
        assert(reparsed(p, k) =~= Seq::<FragmentV>::empty());
    } else {
        lemma_parse_from(p, k + 1);
        lemma_piece(p, k);
        let i = offset(p, k);
        let e = offset(p, k + 1);
        let c = p[k].content;
        let f = FragmentV { pos_begin: i, pos_end: e, content: c };
        assert(reparsed(p, k) =~= seq![f] + reparsed(p, k + 1));
        match c {
            ContentV::Text(t) => {
                lemma_text_step(p, k, t);
            },
            _ => {
                lemma_directive_step(p, k);
            },
        }
    }
}

proof fn lemma_same_contents(a: Seq<FragmentV>, b: Seq<FragmentV>)
    requires
        a.len() == b.len(),
        forall|i: int| 0 <= i < a.len() ==> a[i].content == b[i].content,
    ensures
        compile_all(a) == compile_all(b),
    decreases a.len(),
{
    if a.len() > 0 {
        lemma_same_contents(a.drop_last(), b.drop_last());
    }
}

/// Parsing the text of canonical fragments finds the same fragments, and
/// compiling what it finds gives that text back.
pub proof fn lemma_round_trip(p: Seq<FragmentV>)
    requires
        canonical(p),
    ensures
        parse_text(compile_all(p)) matches Ok(q) && q.len() == p.len() && (forall|i: int|
            0 <= i < q.len() ==> q[i].content == p[i].content) && compile_all(q) == compile_all(p),
{
    lemma_parse_from(p, 0);
    assert(p.take(0) =~= Seq::<FragmentV>::empty());
    let q = reparsed(p, 0);
    lemma_same_contents(q, p);
}

// ------------------------------------------------------------ gender order

/// Whether some fragment before `k` is not a gender definition.
pub open spec fn other_before(fs: Seq<FragmentV>, k: int) -> bool {
    exists|j: int| 0 <= j < k && !(#[trigger] fs[j].content is Gender)
}

proof fn lemma_front(c: ConfigV, sig: SigV, fs: Seq<FragmentV>, k: int)
    requires
        genders_usable(c),
        0 <= k <= fs.len(),
    ensures
        scan_all(c, sig, fs.take(k)).front == if other_before(fs, k) {
            2nat
        } else if k > 0 {
            1nat
        } else {
            0nat
        },
    decreases k,
{
    if k > 0 {
        lemma_front(c, sig, fs, k - 1);
        assert(fs.take(k).drop_last() =~= fs.take(k - 1));
        assert(fs.take(k).last() == fs[k - 1]);
        if other_before(fs, k - 1) {
            let j = choose|j: int| 0 <= j < k - 1 && !(#[trigger] fs[j].content is Gender);
            assert(0 <= j < k && !(fs[j].content is Gender));
        }
        if !(fs[k - 1].content is Gender) {
            assert(0 <= k - 1 < k && !(fs[k - 1].content is Gender));
        }
        if other_before(fs, k) && fs[k - 1].content is Gender {
            let j = choose|j: int| 0 <= j < k && !(#[trigger] fs[j].content is Gender);
            assert(j < k - 1);
        }
    }
}

/// Where genders are in use, a gender definition after any fragment that is
/// not one adds the warning that it must be at the front, and one after
/// gender definitions only adds the warning that it is a duplicate.
pub proof fn lemma_gender_order(c: ConfigV, sig: SigV, fs: Seq<FragmentV>, k: int)
    requires
        genders_usable(c),
        0 < k < fs.len(),
        fs[k].content is Gender,
    ensures
        scan_all(c, sig, fs.take(k + 1)).errors == scan_all(c, sig, fs.take(k)).errors.push(
            if other_before(fs, k) {
                diag(
                    Severity::Warning,
                    span_of(fs[k]),
                    "Gender definitions must be at the front."@,
                    Some("Move '{G=...}' to the front of the translation."@),
                )
            } else {
                diag(
                    Severity::Warning,
                    span_of(fs[k]),
                    "Duplicate gender definition."@,
                    Some("Remove the second '{G=...}'."@),
                )
            },
        ),
{
    lemma_front(c, sig, fs, k);
    assert(fs.take(k + 1).drop_last() =~= fs.take(k));
    assert(fs.take(k + 1).last() == fs[k]);
}

// ------------------------------------------------------------------ results

/// A result carries a normalized text exactly when none of its findings is
/// an error, for a base text and for a translation alike.
pub proof fn lemma_normalized_iff_no_error(
    c: ConfigV,
    base: Seq<char>,
    case: Seq<char>,
    translation: Seq<char>,
)
    ensures
        (base_result(c, base).normalized is Some) == !has_error(base_result(c, base).errors),
        (translation_result(c, base, case, translation).normalized is Some) == !has_error(
            translation_result(c, base, case, translation).errors,
        ),
{
    let b = base_result(c, base);
    if b.normalized is None && !has_error(b.errors) {
        assert(b.errors[0].severity == Severity::Error);
    }
    let t = translation_result(c, base, case, translation);
    if t.normalized is None && !has_error(t.errors) {
        assert(t.errors[0].severity == Severity::Error);
    }
}

} // verus!
