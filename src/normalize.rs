//! Rewriting a valid parsed string into its canonical form: control
//! characters and line-end blanks removed, names canonical, implicit
//! positions made explicit, default sub-indices left out.
use vstd::prelude::*;
use crate::commands::{Dialect, InfoV, lookup, registry};
use crate::grammar::{rspan, space_p};
use crate::parser::{
    ChoiceList, ChoiceV, CommandV, ContentV, FragmentContent, FragmentV, GenderDefinition,
    ParsedString, StringCommand, StringFragment, opt_view,
};
use crate::rules::{PosEntryV, implicit_ref, next_pos, pos_index};
use crate::text::{ascii_ctrl, chars_of, is_ascii_ctrl, push_char, push_chars, space, same_text};

verus! {

// ----------------------------------------------------------------- sanitize

/// Every ASCII control character replaced by a blank.
pub open spec fn replace_ctrl(t: Seq<char>) -> Seq<char> {
    t.map_values(|c: char| if is_ascii_ctrl(c) { ' ' } else { c })
}

/// Trailing whitespace removed.
pub open spec fn trim_end(t: Seq<char>) -> Seq<char> {
    t.take(t.len() - rspan(t, space_p()))
}

/// A line marker `{}` ends a line.
pub open spec fn ends_line(c: ContentV) -> bool {
    match c {
        ContentV::Command(cmd) => cmd.name.len() == 0,
        _ => false,
    }
}

pub open spec fn sanitize_content(c: ContentV, eol: bool) -> ContentV {
    match c {
        ContentV::Text(t) => ContentV::Text(
            if eol {
                trim_end(replace_ctrl(t))
            } else {
                replace_ctrl(t)
            },
        ),
        ContentV::Choice(ch) => ContentV::Choice(
            ChoiceV { choices: ch.choices.map_values(|x: Seq<char>| replace_ctrl(x)), ..ch },
        ),
        _ => c,
    }
}

/// Whether fragment `i` is the last one of its line.
pub open spec fn at_line_end(fs: Seq<FragmentV>, i: int) -> bool {
    i + 1 >= fs.len() || ends_line(fs[i + 1].content)
}

/// Control characters in text and choices become blanks; text that ends a
/// line loses its trailing blanks.
pub open spec fn sanitize_spec(fs: Seq<FragmentV>) -> Seq<FragmentV> {
    Seq::new(
        fs.len(),
        |i: int| FragmentV { content: sanitize_content(fs[i].content, at_line_end(fs, i)), ..fs[i] },
    )
}

/// Replaces each ASCII control character with a blank.
pub fn remove_ascii_ctrl(t: &mut String)
    ensures
        final(t)@ == replace_ctrl(old(t)@),
{
    let cs = chars_of(t.as_str());
    let mut r = String::new();
    let mut i: usize = 0;
    while i < cs.len()
        invariant
            i <= cs@.len(),
            cs@ == old(t)@,
            r@ == replace_ctrl(cs@.take(i as int)),
        decreases cs@.len() - i,
    {
        let c = cs[i];
        push_char(&mut r, if ascii_ctrl(c) { ' ' } else { c });
        i = i + 1;
        assert(r@ =~= replace_ctrl(cs@.take(i as int)));
    }
    assert(cs@.take(i as int) =~= cs@);
    *t = r;
}

/// Removes trailing whitespace.
pub fn remove_trailing_blanks(t: &mut String)
    ensures
        final(t)@ == trim_end(old(t)@),
{
    let cs = chars_of(t.as_str());
    let mut e = cs.len();
    while e > 0 && space(cs[e - 1])
        invariant
            e <= cs@.len(),
            forall|j: int| e <= j < cs@.len() ==> crate::text::is_space(cs@[j]),
        decreases e,
    {
        e = e - 1;
    }
    proof {
        crate::grammar::lemma_rspan(cs@, space_p(), cs@.len() - e);
        assert(cs@.subrange(0, cs@.len() as int) =~= cs@);
    }
    let mut r = String::new();
    push_chars(&mut r, &cs.as_slice()[0..e]);
    assert(r@ =~= trim_end(old(t)@));
    *t = r;
}

pub(crate) fn copy_string(s: &String) -> (r: String)
    ensures
        r@ == s@,
{
    let mut r = String::new();
    crate::text::push_str(&mut r, s.as_str());
    r
}

pub(crate) fn copy_opt_string(s: &Option<String>) -> (r: Option<String>)
    ensures
        opt_view(r) == opt_view(*s),
{
    match s {
        Some(x) => Some(copy_string(x)),
        None => None,
    }
}

fn copy_choices(v: &Vec<String>, ctrl: bool) -> (r: Vec<String>)
    ensures
        r@.map_values(|c: String| c@) == if ctrl {
            v@.map_values(|c: String| c@).map_values(|x: Seq<char>| replace_ctrl(x))
        } else {
            v@.map_values(|c: String| c@)
        },
{
    let ghost want = if ctrl {
        v@.map_values(|c: String| c@).map_values(|x: Seq<char>| replace_ctrl(x))
    } else {
        v@.map_values(|c: String| c@)
    };
    let mut r: Vec<String> = Vec::new();
    let mut i: usize = 0;
    while i < v.len()
        invariant
            i <= v@.len(),
            want == if ctrl {
                v@.map_values(|c: String| c@).map_values(|x: Seq<char>| replace_ctrl(x))
            } else {
                v@.map_values(|c: String| c@)
            },
            r@.map_values(|c: String| c@) == want.take(i as int),
        decreases v@.len() - i,
    {
        let mut s = copy_string(&v[i]);
        if ctrl {
            remove_ascii_ctrl(&mut s);
        }
        let ghost sv = s@;
        assert(sv == want[i as int]);
        let ghost before = r@.map_values(|c: String| c@);
        r.push(s);
        assert(r@.map_values(|c: String| c@) =~= before.push(sv));
        i = i + 1;
        assert(r@.map_values(|c: String| c@) =~= want.take(i as int));
    }
    assert(want.take(i as int) =~= want);
    r
}

fn copy_command(c: &StringCommand) -> (r: StringCommand)
    ensures
        r@ == c@,
{
    StringCommand { index: c.index, name: copy_string(&c.name), case: copy_opt_string(&c.case) }
}

fn sanitized_content(c: &FragmentContent, eol: bool) -> (r: FragmentContent)
    ensures
        r@ == sanitize_content(c@, eol),
{
    match c {
        FragmentContent::Text(t) => {
            let mut s = copy_string(t);
            remove_ascii_ctrl(&mut s);
            if eol {
                remove_trailing_blanks(&mut s);
            }
            FragmentContent::Text(s)
        },
        FragmentContent::Command(cmd) => FragmentContent::Command(copy_command(cmd)),
        FragmentContent::Gender(g) => FragmentContent::Gender(
            GenderDefinition { gender: copy_string(&g.gender) },
        ),
        FragmentContent::Choice(ch) => FragmentContent::Choice(
            ChoiceList {
                name: copy_string(&ch.name),
                indexref: ch.indexref,
                indexsubref: ch.indexsubref,
                choices: copy_choices(&ch.choices, true),
            },
        ),
    }
}

/// Replaces control characters in text and choices with blanks, and removes
/// the trailing blanks of text at the end of a line.
pub fn sanitize_whitespace(parsed: &mut ParsedString)
    ensures
        final(parsed)@ == sanitize_spec(old(parsed)@),
{
    let ghost fs = parsed@;
    let n = parsed.fragments.len();
    let mut out: Vec<StringFragment> = Vec::new();
    let mut i: usize = 0;
    while i < n
        invariant
            i <= n,
            n == fs.len(),
            fs == parsed@,
            out@.map_values(|f: StringFragment| f@) == sanitize_spec(fs).take(i as int),
        decreases n - i,
    {
        let eol = if i + 1 >= n {
            true
        } else {
            match &parsed.fragments[i + 1].content {
                FragmentContent::Command(c) => c.name.as_str().is_empty(),
                _ => false,
            }
        };
        proof {
            if i + 1 < n {
                assert(fs[i + 1] == parsed.fragments@[i + 1]@);
            }
        }
        let f = &parsed.fragments[i];
        assert(eol == at_line_end(fs, i as int));
        let content = sanitized_content(&f.content, eol);
        let ghost before = out@.map_values(|f: StringFragment| f@);
        out.push(StringFragment { pos_begin: f.pos_begin, pos_end: f.pos_end, content });
        assert(out@.map_values(|f: StringFragment| f@) =~= before.push(sanitize_spec(fs)[i as int]));
        i = i + 1;
        assert(out@.map_values(|f: StringFragment| f@) =~= sanitize_spec(fs).take(i as int));
    }
    assert(sanitize_spec(fs).take(i as int) =~= sanitize_spec(fs));
    parsed.fragments = out;
}

// ---------------------------------------------------------------- normalize

pub struct NormV {
    pub pos: usize,
    pub map: Seq<PosEntryV>,
    pub out: Seq<FragmentV>,
}

/// The first pass over one fragment: canonical names, explicit positions and
/// explicit references; positional commands are recorded by position.
pub open spec fn norm_step(d: Dialect, st: NormV, f: FragmentV) -> NormV {
    match f.content {
        ContentV::Command(cmd) => match registry(cmd.name, d) {
            None => NormV { out: st.out.push(f), ..st },
            Some(info) => {
                let name = match info.norm_name {
                    Some(n) => n,
                    None => cmd.name,
                };
                if info.parameters.len() == 0 {
                    NormV {
                        out: st.out.push(
                            FragmentV {
                                content: ContentV::Command(CommandV { name, ..cmd }),
                                ..f
                            },
                        ),
                        ..st
                    }
                } else {
                    let p = match cmd.index {
                        Some(i) => i,
                        None => st.pos,
                    };
                    NormV {
                        pos: next_pos(p),
                        map: st.map.push(PosEntryV { position: p, info }),
                        out: st.out.push(
                            FragmentV {
                                content: ContentV::Command(
                                    CommandV { index: Some(p), name, case: cmd.case },
                                ),
                                ..f
                            },
                        ),
                    }
                }
            },
        },
        ContentV::Choice(ch) => {
            let r = match ch.indexref {
                Some(i) => Some(i),
                None => implicit_ref(ch.name == "P"@, st.pos),
            };
            NormV {
                out: st.out.push(
                    FragmentV { content: ContentV::Choice(ChoiceV { indexref: r, ..ch }), ..f },
                ),
                ..st
            }
        },
        _ => NormV { out: st.out.push(f), ..st },
    }
}

pub open spec fn norm_pass(d: Dialect, fs: Seq<FragmentV>) -> NormV
    decreases fs.len(),
{
    if fs.len() == 0 {
        NormV { pos: 0, map: seq![], out: seq![] }
    } else {
        norm_step(d, norm_pass(d, fs.drop_last()), fs.last())
    }
}

/// The default sub-index of a command: its plural one, else 0.
pub open spec fn default_sub(info: InfoV) -> usize {
    match info.def_plural_subindex {
        Some(s) => s,
        None => 0,
    }
}

/// The second pass over one fragment: a choice list's sub-index is left out
/// where it is the default of the command it refers to.
pub open spec fn drop_default_sub(map: Seq<PosEntryV>, f: FragmentV) -> FragmentV {
    match f.content {
        ContentV::Choice(ch) => match ch.indexref {
            Some(r) => {
                let i = pos_index(map, r);
                if i >= 0 && ch.indexsubref == Some(default_sub(map[i].info)) {
                    FragmentV {
                        content: ContentV::Choice(ChoiceV { indexsubref: None, ..ch }),
                        ..f
                    }
                } else {
                    f
                }
            },
            None => f,
        },
        _ => f,
    }
}

/// The canonical form of a parsed string.
pub open spec fn normalize_spec(d: Dialect, fs: Seq<FragmentV>) -> Seq<FragmentV> {
    let n = norm_pass(d, fs);
    n.out.map_values(|f: FragmentV| drop_default_sub(n.map, f))
}

pub open spec fn map_view(m: Seq<(usize, crate::commands::CommandInfo)>) -> Seq<PosEntryV> {
    m.map_values(|e: (usize, crate::commands::CommandInfo)| PosEntryV { position: e.0, info: e.1@ })
}

fn map_index(m: &Vec<(usize, crate::commands::CommandInfo)>, p: usize) -> (r: Option<usize>)
    ensures
        match r {
            Some(i) => i as int == pos_index(map_view(m@), p) && i < m@.len(),
            None => pos_index(map_view(m@), p) < 0,
        },
{
    let ghost es = map_view(m@);
    let mut i = m.len();
    assert(es.take(i as int) =~= es);
    while i > 0
        invariant
            i <= m@.len(),
            es == map_view(m@),
            pos_index(es, p) == pos_index(es.take(i as int), p),
        decreases i,
    {
        assert(es.take(i as int).drop_last() =~= es.take(i - 1));
        if m[i - 1].0 == p {
            return Some(i - 1);
        }
        i = i - 1;
    }
    None
}

/// Canonical names, explicit positions and references, and no default
/// sub-indices.
#[verifier::rlimit(30)]
pub fn normalize_string(dialect: &Dialect, parsed: &mut ParsedString)
    ensures
        final(parsed)@ == normalize_spec(*dialect, old(parsed)@),
{
    let ghost fs = parsed@;
    let n = parsed.fragments.len();
    let mut map: Vec<(usize, crate::commands::CommandInfo)> = Vec::new();
    let mut out: Vec<StringFragment> = Vec::new();
    let mut pos: usize = 0;
    let mut i: usize = 0;
    assert(map_view(map@) =~= seq![]);
    assert(out@.map_values(|f: StringFragment| f@) =~= seq![]);
    while i < n
        invariant
            i <= n,
            n == fs.len(),
            fs == parsed@,
            norm_pass(*dialect, fs.take(i as int)) == (NormV {
                pos,
                map: map_view(map@),
                out: out@.map_values(|f: StringFragment| f@),
            }),
        decreases n - i,
    {
        let f = &parsed.fragments[i];
        assert(fs.take(i + 1).drop_last() =~= fs.take(i as int));
        assert(fs.take(i + 1).last() == f@);
        let ghost old_map = map_view(map@);
        let ghost old_out = out@.map_values(|f: StringFragment| f@);
        let content = match &f.content {
            FragmentContent::Command(cmd) => match lookup(cmd.name.as_str(), *dialect) {
                None => FragmentContent::Command(copy_command(cmd)),
                Some(info) => {
                    let name = match &info.norm_name {
                        Some(nn) => copy_string(nn),
                        None => copy_string(&cmd.name),
                    };
                    if info.parameters.len() == 0 {
                        FragmentContent::Command(
                            StringCommand { index: cmd.index, name, case: copy_opt_string(&cmd.case) },
                        )
                    } else {
                        let p = match cmd.index {
                            Some(x) => x,
                            None => pos,
                        };
                        pos = if p < usize::MAX { p + 1 } else { p };
                        let ghost iv = info@;
                        map.push((p, info));
                        assert(map_view(map@) =~= old_map.push(PosEntryV { position: p, info: iv }));
                        FragmentContent::Command(
                            StringCommand { index: Some(p), name, case: copy_opt_string(&cmd.case) },
                        )
                    }
                },
            },
            FragmentContent::Choice(ch) => {
                let r = match ch.indexref {
                    Some(x) => Some(x),
                    None => if same_text(ch.name.as_str(), "P") {
                        if pos == 0 {
                            None
                        } else {
                            Some(pos - 1)
                        }
                    } else {
                        Some(pos)
                    },
                };
                FragmentContent::Choice(
                    ChoiceList {
                        name: copy_string(&ch.name),
                        indexref: r,
                        indexsubref: ch.indexsubref,
                        choices: copy_choices(&ch.choices, false),
                    },
                )
            },
            FragmentContent::Text(t) => FragmentContent::Text(copy_string(t)),
            FragmentContent::Gender(g) => FragmentContent::Gender(
                GenderDefinition { gender: copy_string(&g.gender) },
            ),
        };
        out.push(StringFragment { pos_begin: f.pos_begin, pos_end: f.pos_end, content });
        assert(out@.map_values(|f: StringFragment| f@) =~= old_out.push(out@.last()@));
        i = i + 1;
    }
    assert(fs.take(i as int) =~= fs);
    let ghost first = out@.map_values(|f: StringFragment| f@);
    let mut k: usize = 0;
    while k < out.len()
        invariant
            k <= out@.len(),
            out@.len() == first.len(),
            norm_pass(*dialect, fs) == (NormV { pos, map: map_view(map@), out: first }),
            forall|j: int| 0 <= j < k ==> out@[j]@ == drop_default_sub(map_view(map@), first[j]),
            forall|j: int| k <= j < out@.len() ==> out@[j]@ == first[j],
        decreases out@.len() - k,
    {
        let clear = match &out[k].content {
            FragmentContent::Choice(ch) => match ch.indexref {
                Some(r) => match map_index(&map, r) {
                    Some(mi) => {
                        let def = match map[mi].1.def_plural_subindex {
                            Some(s) => s,
                            None => 0,
                        };
                        ch.indexsubref == Some(def)
                    },
                    None => false,
                },
                None => false,
            },
            _ => false,
        };
        if clear {
            let mut f = out.remove(k);
            if let FragmentContent::Choice(ch) = &mut f.content {
                ch.indexsubref = None;
            }
            out.insert(k, f);
        }
        k = k + 1;
    }
    let ghost want = normalize_spec(*dialect, fs);
    assert(out@.map_values(|f: StringFragment| f@) =~= want);
    parsed.fragments = out;
}

} // verus!
