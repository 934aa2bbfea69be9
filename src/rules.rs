//! The rules of validation as spec functions: the diagnostics, the signature
//! of a base text, the scan of a candidate text against a signature, and the
//! completeness checks after the scan.
use vstd::prelude::*;
use crate::commands::{Dialect, InfoV, Occurrence, registry};
use crate::parser::{ChoiceV, CommandV, ContentV, FragmentV};
use crate::text::{decimal, lex_less};

verus! {

#[derive(Clone, Copy, Debug, PartialEq, Eq, Structural)]
pub enum Severity {
    /// The text is broken and must not be used.
    Error,
    /// The text has minor issues, but is probably better than none.
    Warning,
}

pub struct ErrV {
    pub severity: Severity,
    pub pos_begin: Option<int>,
    pub pos_end: Option<int>,
    pub message: Seq<char>,
    pub suggestion: Option<Seq<char>>,
}

pub struct ConfigV {
    pub dialect: Dialect,
    pub cases: Seq<Seq<char>>,
    pub genders: Seq<Seq<char>>,
    pub plural_count: usize,
}

/// The dialect that a configuration names; anything else is `OpenTtd`.
pub open spec fn dialect_named(s: Seq<char>) -> Dialect {
    if s == "newgrf"@ {
        Dialect::NewGrf
    } else if s == "game-script"@ {
        Dialect::GameScript
    } else {
        Dialect::OpenTtd
    }
}

pub open spec fn cases_allowed(d: Dialect) -> bool {
    d != Dialect::GameScript
}

/// Gender definitions and gender choices need a dialect with genders and at
/// least two configured genders.
pub open spec fn genders_usable(c: ConfigV) -> bool {
    c.dialect != Dialect::GameScript && c.genders.len() >= 2
}

/// The items of `xs` with `sep` between each two.
pub open spec fn join(xs: Seq<Seq<char>>, sep: Seq<char>) -> Seq<char>
    decreases xs.len(),
{
    if xs.len() == 0 {
        seq![]
    } else if xs.len() == 1 {
        xs[0]
    } else {
        join(xs.drop_last(), sep) + sep + xs.last()
    }
}

pub open spec fn braced(name: Seq<char>) -> Seq<char> {
    "{"@ + name + "}"@
}

pub open spec fn braced_at(pos: nat, name: Seq<char>) -> Seq<char> {
    "{"@ + decimal(pos) + ":"@ + name + "}"@
}

pub open spec fn diag(
    severity: Severity,
    span: Option<(int, int)>,
    message: Seq<char>,
    suggestion: Option<Seq<char>>,
) -> ErrV {
    match span {
        Some(s) => ErrV { severity, pos_begin: Some(s.0), pos_end: Some(s.1), message, suggestion },
        None => ErrV { severity, pos_begin: None, pos_end: None, message, suggestion },
    }
}

pub open spec fn span_of(f: FragmentV) -> Option<(int, int)> {
    Some((f.pos_begin, f.pos_end))
}

// ------------------------------------------------------------------ messages

pub open spec fn unknown_command(f: FragmentV, name: Seq<char>) -> ErrV {
    diag(Severity::Error, span_of(f), "Unknown string command '"@ + braced(name) + "'."@, None)
}

pub open spec fn no_position_reference(f: FragmentV, name: Seq<char>, index: usize) -> ErrV {
    diag(
        Severity::Error,
        span_of(f),
        "Command '"@ + braced(name) + "' cannot have a position reference."@,
        Some("Remove '"@ + decimal(index as nat) + ":'."@),
    )
}

pub open spec fn base_invalid() -> ErrV {
    diag(
        Severity::Error,
        None,
        "Base language text is invalid."@,
        Some("This is a bug; wait until it is fixed."@),
    )
}

pub open spec fn known_list(what: Seq<char>, xs: Seq<Seq<char>>) -> Seq<char> {
    "Known "@ + what + " are: '"@ + join(xs, "', '"@) + "'"@
}

/// What is wrong with the case suffix of a command, if anything.
pub open spec fn case_error(c: ConfigV, info: InfoV, cmd: CommandV, f: FragmentV) -> Seq<ErrV> {
    match cmd.case {
        None => seq![],
        Some(k) => if !cases_allowed(c.dialect) {
            seq![
                diag(
                    Severity::Error,
                    span_of(f),
                    "No case selections allowed."@,
                    Some("Remove '."@ + k + "'."@),
                ),
            ]
        } else if !info.allow_case {
            seq![
                diag(
                    Severity::Error,
                    span_of(f),
                    "No case selection allowed for '"@ + braced(cmd.name) + "'."@,
                    Some("Remove '."@ + k + "'."@),
                ),
            ]
        } else if !c.cases.contains(k) {
            seq![
                diag(
                    Severity::Error,
                    span_of(f),
                    "Unknown case '"@ + k + "'."@,
                    Some(known_list("cases"@, c.cases)),
                ),
            ]
        } else {
            seq![]
        },
    }
}

// ----------------------------------------------------------------- signature

pub struct PosEntryV {
    pub position: usize,
    pub info: InfoV,
}

pub struct NpEntryV {
    pub name: Seq<char>,
    pub occurrence: Occurrence,
}

/// A table of counts keyed by position: keys, and a count for each.
pub struct PosCountV {
    pub entries: Seq<PosEntryV>,
    pub counts: Seq<nat>,
}

/// A table of counts keyed by canonical name, in lexicographic order.
pub struct NpCountV {
    pub entries: Seq<NpEntryV>,
    pub counts: Seq<nat>,
}

/// Index of the entry for position `p`, or -1.
pub open spec fn pos_index(es: Seq<PosEntryV>, p: usize) -> int
    decreases es.len(),
{
    if es.len() == 0 {
        -1
    } else if es.last().position == p {
        es.len() - 1
    } else {
        pos_index(es.drop_last(), p)
    }
}

/// Index of the entry for name `n`, or -1.
pub open spec fn np_index(es: Seq<NpEntryV>, n: Seq<char>) -> int
    decreases es.len(),
{
    if es.len() == 0 {
        -1
    } else if es.last().name == n {
        es.len() - 1
    } else {
        np_index(es.drop_last(), n)
    }
}

/// Counts one more use of position `p`; a new position keeps `info`.
pub open spec fn bump_pos(t: PosCountV, p: usize, info: InfoV) -> PosCountV {
    let i = pos_index(t.entries, p);
    if i < 0 {
        PosCountV {
            entries: t.entries.push(PosEntryV { position: p, info }),
            counts: t.counts.push(1),
        }
    } else {
        PosCountV { entries: t.entries, counts: t.counts.update(i, t.counts[i] + 1) }
    }
}

/// Where a new name goes: before the first entry that does not come before
/// it, so that names stay in lexicographic order.
pub open spec fn insert_point(es: Seq<NpEntryV>, n: Seq<char>) -> int
    decreases es.len(),
{
    if es.len() == 0 || !lex_less(es[0].name, n) {
        0
    } else {
        1 + insert_point(es.drop_first(), n)
    }
}

/// Counts one more use of the canonical name `n`; a new name is inserted in
/// lexicographic order.
pub open spec fn bump_np(t: NpCountV, n: Seq<char>, occ: Occurrence) -> NpCountV {
    let i = np_index(t.entries, n);
    if i < 0 {
        let at = insert_point(t.entries, n);
        NpCountV {
            entries: t.entries.insert(at, NpEntryV { name: n, occurrence: occ }),
            counts: t.counts.insert(at, 1),
        }
    } else {
        NpCountV { entries: t.entries, counts: t.counts.update(i, t.counts[i] + 1) }
    }
}

/// The count of position `p`, 0 where it was not counted.
pub open spec fn pos_count(t: PosCountV, p: usize) -> nat {
    let i = pos_index(t.entries, p);
    if i < 0 {
        0
    } else {
        t.counts[i]
    }
}

/// The count of name `n`, 0 where it was not counted.
pub open spec fn np_count(t: NpCountV, n: Seq<char>) -> nat {
    let i = np_index(t.entries, n);
    if i < 0 {
        0
    } else {
        t.counts[i]
    }
}

/// The position after `p`; the counter stays at the largest index.
pub open spec fn next_pos(p: usize) -> usize {
    if p < usize::MAX {
        (p + 1) as usize
    } else {
        p
    }
}

pub struct SigV {
    pub params: PosCountV,
    pub nonpos: NpCountV,
}

pub struct SigBuildV {
    pub pos: usize,
    pub sig: SigV,
    pub errors: Seq<ErrV>,
}

pub open spec fn empty_sig() -> SigV {
    SigV {
        params: PosCountV { entries: seq![], counts: seq![] },
        nonpos: NpCountV { entries: seq![], counts: seq![] },
    }
}

/// One fragment of the base text: commands fill the signature.
pub open spec fn sig_step(d: Dialect, st: SigBuildV, f: FragmentV) -> SigBuildV {
    match f.content {
        ContentV::Command(cmd) => match registry(cmd.name, d) {
            None => SigBuildV { errors: st.errors.push(unknown_command(f, cmd.name)), ..st },
            Some(info) => if info.parameters.len() == 0 {
                let errors = match cmd.index {
                    Some(i) => st.errors.push(no_position_reference(f, cmd.name, i)),
                    None => st.errors,
                };
                SigBuildV {
                    pos: st.pos,
                    sig: SigV {
                        params: st.sig.params,
                        nonpos: bump_np(st.sig.nonpos, info.norm(), info.occurrence),
                    },
                    errors,
                }
            } else {
                let p = match cmd.index {
                    Some(i) => i,
                    None => st.pos,
                };
                SigBuildV {
                    pos: next_pos(p),
                    sig: SigV { params: bump_pos(st.sig.params, p, info), nonpos: st.sig.nonpos },
                    errors: st.errors,
                }
            },
        },
        _ => st,
    }
}

pub open spec fn sig_build(d: Dialect, fs: Seq<FragmentV>) -> SigBuildV
    decreases fs.len(),
{
    if fs.len() == 0 {
        SigBuildV { pos: 0, sig: empty_sig(), errors: seq![] }
    } else {
        sig_step(d, sig_build(d, fs.drop_last()), fs.last())
    }
}

/// The signature of a base text, or every error found while building it.
pub open spec fn signature_of(d: Dialect, fs: Seq<FragmentV>) -> Result<SigV, Seq<ErrV>> {
    let b = sig_build(d, fs);
    if b.errors.len() == 0 {
        Ok(b.sig)
    } else {
        Err(b.errors)
    }
}

/// The command that the signature expects at position `p`.
pub open spec fn expected_at(sig: SigV, p: usize) -> Option<InfoV> {
    let i = pos_index(sig.params.entries, p);
    if i < 0 {
        None
    } else {
        Some(sig.params.entries[i].info)
    }
}

// ---------------------------------------------------------------------- scan

/// Nothing seen yet; a gender definition seen first; anything else seen.
pub open spec fn front_unset() -> nat {
    0
}

pub struct ScanV {
    pub pos: usize,
    pub front: nat,
    pub found: PosCountV,
    pub found_np: NpCountV,
    pub errors: Seq<ErrV>,
}

pub open spec fn scan_command(
    c: ConfigV,
    sig: SigV,
    st: ScanV,
    f: FragmentV,
    cmd: CommandV,
) -> ScanV {
    let at = match cmd.index {
        Some(i) => i,
        None => st.pos,
    };
    let expected = expected_at(sig, at);
    let resolved = match expected {
        Some(e) => if e.norm() == cmd.name {
            Some(e)
        } else {
            registry(cmd.name, c.dialect)
        },
        None => registry(cmd.name, c.dialect),
    };
    match resolved {
        None => ScanV { front: 2, errors: st.errors.push(unknown_command(f, cmd.name)), ..st },
        Some(info) => {
            let errors = st.errors + case_error(c, info, cmd, f);
            if info.parameters.len() == 0 {
                let errors = match cmd.index {
                    Some(i) => errors.push(no_position_reference(f, cmd.name, i)),
                    None => errors,
                };
                ScanV {
                    front: 2,
                    found_np: bump_np(st.found_np, info.norm(), info.occurrence),
                    errors,
                    ..st
                }
            } else {
                match expected {
                    Some(e) => if e.norm() == info.norm() {
                        ScanV {
                            pos: next_pos(at),
                            front: 2,
                            found: bump_pos(st.found, at, info),
                            errors,
                            ..st
                        }
                    } else {
                        ScanV {
                            pos: next_pos(at),
                            front: 2,
                            errors: errors.push(
                                diag(
                                    Severity::Error,
                                    span_of(f),
                                    "Expected '"@ + braced_at(at as nat, e.name) + "', found '"@
                                        + braced(cmd.name) + "'."@,
                                    None,
                                ),
                            ),
                            ..st
                        }
                    },
                    None => ScanV {
                        pos: next_pos(at),
                        front: 2,
                        errors: errors.push(
                            diag(
                                Severity::Error,
                                span_of(f),
                                "There is no parameter in position "@ + decimal(at as nat)
                                    + ", found '"@ + braced(cmd.name) + "'."@,
                                None,
                            ),
                        ),
                        ..st
                    },
                }
            }
        },
    }
}

pub open spec fn scan_gender(c: ConfigV, st: ScanV, f: FragmentV, g: Seq<char>) -> ScanV {
    if !genders_usable(c) {
        ScanV {
            errors: st.errors.push(
                diag(
                    Severity::Error,
                    span_of(f),
                    "No gender definitions allowed."@,
                    Some("Remove '{G=...}'."@),
                ),
            ),
            ..st
        }
    } else if st.front == 2 {
        ScanV {
            errors: st.errors.push(
                diag(
                    Severity::Warning,
                    span_of(f),
                    "Gender definitions must be at the front."@,
                    Some("Move '{G=...}' to the front of the translation."@),
                ),
            ),
            ..st
        }
    } else if st.front == 1 {
        ScanV {
            errors: st.errors.push(
                diag(
                    Severity::Warning,
                    span_of(f),
                    "Duplicate gender definition."@,
                    Some("Remove the second '{G=...}'."@),
                ),
            ),
            ..st
        }
    } else if !c.genders.contains(g) {
        ScanV {
            front: 1,
            errors: st.errors.push(
                diag(
                    Severity::Error,
                    span_of(f),
                    "Unknown gender '"@ + g + "'."@,
                    Some(known_list("genders"@, c.genders)),
                ),
            ),
            ..st
        }
    } else {
        ScanV { front: 1, ..st }
    }
}

/// A plural choice list refers to the parameter before the current
/// position; a gender choice list to the current one.
pub open spec fn implicit_ref(plural: bool, pos: usize) -> Option<usize> {
    if plural {
        if pos == 0 {
            None
        } else {
            Some((pos - 1) as usize)
        }
    } else {
        Some(pos)
    }
}

pub open spec fn count_error(c: ConfigV, f: FragmentV, ch: ChoiceV) -> Seq<ErrV> {
    let plural = ch.name == "P"@;
    let want = if plural { c.plural_count as nat } else { c.genders.len() };
    if ch.choices.len() == want {
        seq![]
    } else {
        seq![
            diag(
                Severity::Error,
                span_of(f),
                "Expected "@ + decimal(want) + (if plural { " plural"@ } else { " gender"@ })
                    + " choices, found "@ + decimal(ch.choices.len()) + "."@,
                None,
            ),
        ]
    }
}

pub open spec fn reference_error(sig: SigV, f: FragmentV, ch: ChoiceV, pos: usize) -> Seq<ErrV> {
    let plural = ch.name == "P"@;
    let r = match ch.indexref {
        Some(i) => Some(i),
        None => implicit_ref(plural, pos),
    };
    let target = match r {
        Some(p) => expected_at(sig, p),
        None => None,
    };
    match target {
        Some(info) => {
            let p = r->0;
            let sub: usize = match ch.indexsubref {
                Some(s) => s,
                None => if plural {
                    match info.def_plural_subindex {
                        Some(s) => s,
                        None => 0,
                    }
                } else {
                    0
                },
            };
            let head = "'"@ + braced(ch.name) + "' references position '"@ + decimal(p as nat)
                + ":"@ + decimal(sub as nat) + "', but '"@ + braced_at(p as nat, info.norm());
            if sub >= info.parameters.len() {
                seq![
                    diag(
                        Severity::Error,
                        span_of(f),
                        head + "' only has "@ + decimal(info.parameters.len()) + " subindices."@,
                        None,
                    ),
                ]
            } else if plural && !info.parameters[sub as int].allow_plural {
                seq![
                    diag(Severity::Error, span_of(f), head + "' does not allow plurals."@, None),
                ]
            } else if !plural && !info.parameters[sub as int].allow_gender {
                seq![
                    diag(Severity::Error, span_of(f), head + "' does not allow genders."@, None),
                ]
            } else {
                seq![]
            }
        },
        None => seq![
            diag(
                Severity::Error,
                span_of(f),
                "'"@ + braced(ch.name) + "' references position '"@ + match r {
                    Some(p) => decimal(p as nat),
                    None => "-1"@,
                } + "', which has no parameter."@,
                if ch.indexref is None {
                    Some("Add a position reference."@)
                } else {
                    None
                },
            ),
        ],
    }
}

pub open spec fn scan_choice(c: ConfigV, sig: SigV, st: ScanV, f: FragmentV, ch: ChoiceV) -> ScanV {
    let plural = ch.name == "P"@;
    if !plural && !genders_usable(c) {
        ScanV {
            front: 2,
            errors: st.errors.push(
                diag(
                    Severity::Error,
                    span_of(f),
                    "No gender choices allowed."@,
                    Some("Remove '{G ...}'."@),
                ),
            ),
            ..st
        }
    } else if plural && c.plural_count < 2 {
        ScanV {
            front: 2,
            errors: st.errors.push(
                diag(
                    Severity::Error,
                    span_of(f),
                    "No plural choices allowed."@,
                    Some("Remove '{P ...}'."@),
                ),
            ),
            ..st
        }
    } else {
        ScanV {
            front: 2,
            errors: st.errors + count_error(c, f, ch) + reference_error(sig, f, ch, st.pos),
            ..st
        }
    }
}

/// One fragment of the candidate text.
pub open spec fn scan_step(c: ConfigV, sig: SigV, st: ScanV, f: FragmentV) -> ScanV {
    match f.content {
        ContentV::Command(cmd) => scan_command(c, sig, st, f, cmd),
        ContentV::Gender(g) => scan_gender(c, st, f, g),
        ContentV::Choice(ch) => scan_choice(c, sig, st, f, ch),
        ContentV::Text(_) => ScanV { front: 2, ..st },
    }
}

pub open spec fn scan_all(c: ConfigV, sig: SigV, fs: Seq<FragmentV>) -> ScanV
    decreases fs.len(),
{
    if fs.len() == 0 {
        ScanV {
            pos: 0,
            front: front_unset(),
            found: PosCountV { entries: seq![], counts: seq![] },
            found_np: NpCountV { entries: seq![], counts: seq![] },
            errors: seq![],
        }
    } else {
        scan_step(c, sig, scan_all(c, sig, fs.drop_last()), fs.last())
    }
}

// -------------------------------------------------------------- completeness

pub open spec fn times(ex: nat, found: nat) -> Seq<char> {
    ": expected "@ + decimal(ex) + " times, found "@ + decimal(found) + " times."@
}

/// The check of one positional entry of the signature against its count.
pub open spec fn param_check(e: PosEntryV, ex: nat, found: nat) -> Seq<ErrV> {
    let what = "String command '"@ + braced_at(e.position as nat, e.info.norm());
    if e.info.occurrence != Occurrence::Any && found == 0 {
        seq![diag(Severity::Error, None, what + "' is missing."@, None)]
    } else if e.info.occurrence == Occurrence::Exact && ex != found {
        seq![diag(Severity::Warning, None, what + "'"@ + times(ex, found), None)]
    } else {
        seq![]
    }
}

pub open spec fn params_check(sig: PosCountV, n: int, found: PosCountV) -> Seq<ErrV>
    decreases n,
{
    if n <= 0 {
        seq![]
    } else {
        params_check(sig, n - 1, found) + param_check(
            sig.entries[n - 1],
            sig.counts[n - 1],
            pos_count(found, sig.entries[n - 1].position),
        )
    }
}

/// The check of one non-positional entry of the signature; both findings
/// are warnings.
pub open spec fn nonpos_check(e: NpEntryV, ex: nat, found: nat) -> Seq<ErrV> {
    let what = "String command '"@ + braced(e.name);
    if e.occurrence != Occurrence::Any && found == 0 {
        seq![diag(Severity::Warning, None, what + "' is missing."@, None)]
    } else if e.occurrence == Occurrence::Exact && ex != found {
        seq![diag(Severity::Warning, None, what + "'"@ + times(ex, found), None)]
    } else {
        seq![]
    }
}

pub open spec fn nonpos_checks(sig: NpCountV, n: int, found: NpCountV) -> Seq<ErrV>
    decreases n,
{
    if n <= 0 {
        seq![]
    } else {
        nonpos_checks(sig, n - 1, found) + nonpos_check(
            sig.entries[n - 1],
            sig.counts[n - 1],
            np_count(found, sig.entries[n - 1].name),
        )
    }
}

/// Non-positional commands of the candidate that the base does not have.
pub open spec fn unexpected_checks(found: NpCountV, n: int, sig: NpCountV) -> Seq<ErrV>
    decreases n,
{
    if n <= 0 {
        seq![]
    } else {
        let e = found.entries[n - 1];
        unexpected_checks(found, n - 1, sig) + if e.occurrence != Occurrence::Any && np_index(
            sig.entries,
            e.name,
        ) < 0 {
            seq![
                diag(
                    Severity::Warning,
                    None,
                    "String command '"@ + braced(e.name) + "' is unexpected."@,
                    Some("Remove this command."@),
                ),
            ]
        } else {
            seq![]
        }
    }
}

/// Every diagnostic of a candidate text against a signature, in order: those
/// of the scan, then those of the completeness checks.
pub open spec fn check_against(c: ConfigV, sig: SigV, fs: Seq<FragmentV>) -> Seq<ErrV> {
    let st = scan_all(c, sig, fs);
    st.errors + params_check(sig.params, sig.params.entries.len() as int, st.found)
        + nonpos_checks(sig.nonpos, sig.nonpos.entries.len() as int, st.found_np)
        + unexpected_checks(st.found_np, st.found_np.entries.len() as int, sig.nonpos)
}

/// The diagnostics of a candidate text: against the signature of `base`
/// where one is given, else against its own signature.
pub open spec fn validate_spec(
    c: ConfigV,
    test: Seq<FragmentV>,
    base: Option<Seq<FragmentV>>,
) -> Seq<ErrV> {
    let source = match base {
        Some(b) => b,
        None => test,
    };
    match signature_of(c.dialect, source) {
        Err(es) => if base is Some {
            seq![base_invalid()]
        } else {
            es
        },
        Ok(sig) => check_against(c, sig, test),
    }
}

pub open spec fn has_error(es: Seq<ErrV>) -> bool {
    exists|i: int| 0 <= i < es.len() && es[i].severity == Severity::Error
}

} // verus!
