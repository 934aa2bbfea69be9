//! Checking a candidate text against the signature of a base text.
use vstd::prelude::*;
use crate::commands::{CommandInfo, Dialect, Occurrence, lookup};
use crate::parser::{
    ChoiceList, FragmentContent, ParsedString, StringCommand, StringFragment, opt_view,
};
use crate::rules::{
    ConfigV, ErrV, ScanV, Severity, SigBuildV, SigV, base_invalid, braced, braced_at, case_error,
    count_error, diag, dialect_named, expected_at, join, known_list, next_pos,
    no_position_reference, nonpos_check, nonpos_checks, param_check, params_check,
    reference_error, scan_all, scan_choice, scan_command, scan_gender, sig_build, signature_of,
    span_of, unexpected_checks, unknown_command, validate_spec, cases_allowed,
};
use crate::tables::{NpCount, PosCount};
use crate::text::{decimal, push_decimal, push_str, same_text};
use crate::normalize::{normalize_spec, normalize_string, sanitize_spec, sanitize_whitespace};
use crate::parser::{FragmentV, ParseError, ParseErrorV, compile_all, parse_text};

verus! {

/// The language a text is written in: its dialect (`"newgrf"`,
/// `"game-script"` or `"openttd"`), its cases, its genders and its number of
/// plural forms.
#[derive(Debug)]
pub struct LanguageConfig {
    pub dialect: String,
    pub cases: Vec<String>,
    pub genders: Vec<String>,
    pub plural_count: usize,
}

/// One finding, with the span of the fragment it concerns where there is one.
#[derive(Debug, PartialEq)]
pub struct ValidationError {
    pub severity: Severity,
    pub pos_begin: Option<usize>,
    pub pos_end: Option<usize>,
    pub message: String,
    pub suggestion: Option<String>,
}

/// All findings, and the normalized text where no finding is an error.
#[derive(Debug)]
pub struct ValidationResult {
    pub errors: Vec<ValidationError>,
    pub normalized: Option<String>,
}

pub open spec fn strings_view(v: Seq<String>) -> Seq<Seq<char>> {
    v.map_values(|s: String| s@)
}

pub open spec fn opt_int(o: Option<usize>) -> Option<int> {
    match o {
        Some(x) => Some(x as int),
        None => None,
    }
}

impl View for LanguageConfig {
    type V = ConfigV;

    open spec fn view(&self) -> ConfigV {
        ConfigV {
            dialect: dialect_named(self.dialect@),
            cases: strings_view(self.cases@),
            genders: strings_view(self.genders@),
            plural_count: self.plural_count,
        }
    }
}

impl View for ValidationError {
    type V = ErrV;

    open spec fn view(&self) -> ErrV {
        ErrV {
            severity: self.severity,
            pos_begin: opt_int(self.pos_begin),
            pos_end: opt_int(self.pos_end),
            message: self.message@,
            suggestion: opt_view(self.suggestion),
        }
    }
}

pub open spec fn errs_view(v: Seq<ValidationError>) -> Seq<ErrV> {
    v.map_values(|e: ValidationError| e@)
}

impl LanguageConfig {
    pub fn get_dialect(&self) -> (r: Dialect)
        ensures
            r == self@.dialect,
    {
        if same_text(self.dialect.as_str(), "newgrf") {
            Dialect::NewGrf
        } else if same_text(self.dialect.as_str(), "game-script") {
            Dialect::GameScript
        } else {
            Dialect::OpenTtd
        }
    }

    /// Whether the dialect has grammatical cases.
    pub fn allow_cases(&self) -> (r: bool)
        ensures
            r == cases_allowed(self@.dialect),
    {
        self.get_dialect() != Dialect::GameScript
    }

    /// Whether the dialect has genders.
    pub fn allow_genders(&self) -> (r: bool)
        ensures
            r == (self@.dialect != Dialect::GameScript),
    {
        self.get_dialect() != Dialect::GameScript
    }
}

// ------------------------------------------------------------------ messages

pub(crate) fn lit(s: &str) -> (r: String)
    ensures
        r@ == s@,
{
    let mut r = String::new();
    push_str(&mut r, s);
    r
}

pub(crate) fn cat3(a: &str, b: &str, c: &str) -> (r: String)
    ensures
        r@ == a@ + b@ + c@,
{
    let mut r = String::new();
    push_str(&mut r, a);
    push_str(&mut r, b);
    push_str(&mut r, c);
    r
}

fn dec(n: usize) -> (r: String)
    ensures
        r@ == decimal(n as nat),
{
    let mut r = String::new();
    push_decimal(&mut r, n);
    assert(r@ =~= decimal(n as nat));
    r
}

fn braced_str(name: &str) -> (r: String)
    ensures
        r@ == braced(name@),
{
    cat3("{", name, "}")
}

fn braced_at_str(pos: usize, name: &str) -> (r: String)
    ensures
        r@ == braced_at(pos as nat, name@),
{
    let mut r = String::new();
    push_str(&mut r, "{");
    push_decimal(&mut r, pos);
    push_str(&mut r, ":");
    push_str(&mut r, name);
    push_str(&mut r, "}");
    assert(r@ =~= braced_at(pos as nat, name@));
    r
}

fn at_fragment(
    severity: Severity,
    f: &StringFragment,
    message: String,
    suggestion: Option<String>,
) -> (r: ValidationError)
    ensures
        r@ == diag(severity, span_of(f@), message@, opt_view(suggestion)),
{
    ValidationError {
        severity,
        pos_begin: Some(f.pos_begin),
        pos_end: Some(f.pos_end),
        message,
        suggestion,
    }
}

fn whole(severity: Severity, message: String, suggestion: Option<String>) -> (r: ValidationError)
    ensures
        r@ == diag(severity, None, message@, opt_view(suggestion)),
{
    ValidationError { severity, pos_begin: None, pos_end: None, message, suggestion }
}

fn push_error(errors: &mut Vec<ValidationError>, e: ValidationError)
    ensures
        errs_view(final(errors)@) == errs_view(old(errors)@).push(e@),
{
    errors.push(e);
    assert(errs_view(errors@) =~= errs_view(old(errors)@).push(e@));
}

fn unknown_command_error(f: &StringFragment, name: &str) -> (r: ValidationError)
    ensures
        r@ == unknown_command(f@, name@),
{
    let b = braced_str(name);
    at_fragment(Severity::Error, f, cat3("Unknown string command '", b.as_str(), "'."), None)
}

fn no_position_reference_error(f: &StringFragment, name: &str, index: usize) -> (r:
    ValidationError)
    ensures
        r@ == no_position_reference(f@, name@, index),
{
    let b = braced_str(name);
    let i = dec(index);
    at_fragment(
        Severity::Error,
        f,
        cat3("Command '", b.as_str(), "' cannot have a position reference."),
        Some(cat3("Remove '", i.as_str(), ":'.")),
    )
}

pub(crate) fn base_invalid_error() -> (r: ValidationError)
    ensures
        r@ == base_invalid(),
{
    whole(
        Severity::Error,
        lit("Base language text is invalid."),
        Some(lit("This is a bug; wait until it is fixed.")),
    )
}

/// Whether `xs` holds `s`.
pub(crate) fn contains_text(xs: &Vec<String>, s: &str) -> (r: bool)
    ensures
        r == strings_view(xs@).contains(s@),
{
    let mut i: usize = 0;
    while i < xs.len()
        invariant
            i <= xs@.len(),
            forall|j: int| 0 <= j < i ==> xs@[j]@ != s@,
        decreases xs@.len() - i,
    {
        if same_text(xs[i].as_str(), s) {
            assert(strings_view(xs@)[i as int] == s@);
            return true;
        }
        i = i + 1;
    }
    assert(!strings_view(xs@).contains(s@)) by {
        if strings_view(xs@).contains(s@) {
            let j = choose|j: int| 0 <= j < strings_view(xs@).len() && strings_view(xs@)[j] == s@;
            assert(xs@[j]@ == s@);
        }
    }
    false
}

/// `Known <what> are: 'a', 'b'`.
pub(crate) fn known_list_text(what: &str, xs: &Vec<String>) -> (r: String)
    ensures
        r@ == known_list(what@, strings_view(xs@)),
{
    let ghost v = strings_view(xs@);
    let mut j = String::new();
    let mut i: usize = 0;
    while i < xs.len()
        invariant
            i <= xs@.len(),
            v == strings_view(xs@),
            j@ == join(v.take(i as int), "', '"@),
        decreases xs@.len() - i,
    {
        if i > 0 {
            push_str(&mut j, "', '");
        }
        push_str(&mut j, xs[i].as_str());
        proof {
            let t = v.take(i + 1);
            assert(t.drop_last() =~= v.take(i as int));
            if i == 0 {
                assert(j@ =~= join(t, "', '"@));
            } else {
                assert(j@ =~= join(t, "', '"@));
            }
        }
        i = i + 1;
    }
    assert(v.take(i as int) =~= v);
    let mut r = String::new();
    push_str(&mut r, "Known ");
    push_str(&mut r, what);
    push_str(&mut r, " are: '");
    push_str(&mut r, j.as_str());
    push_str(&mut r, "'");
    assert(r@ =~= known_list(what@, v));
    r
}

// ----------------------------------------------------------------- signature

/// The expected layout of a base text: its positional parameters, each with
/// the command first found there and how often it is used, and its
/// non-positional commands by canonical name, with how often each is used.
pub struct StringSignature {
    pub parameters: PosCount,
    pub nonpositional_count: NpCount,
}

impl View for StringSignature {
    type V = SigV;

    open spec fn view(&self) -> SigV {
        SigV { params: self.parameters@, nonpos: self.nonpositional_count@ }
    }
}

impl StringSignature {
    pub open spec fn bounded(&self, k: nat) -> bool {
        self.parameters.bounded(k) && self.nonpositional_count.bounded(k)
    }
}

pub open spec fn sig_errs(r: Result<StringSignature, Vec<ValidationError>>) -> Result<
    SigV,
    Seq<ErrV>,
> {
    match r {
        Ok(s) => Ok(s@),
        Err(es) => Err(errs_view(es@)),
    }
}

/// Builds the signature of a base text, or gathers every unknown command and
/// every misplaced position reference in it.
pub fn get_signature(dialect: &Dialect, base: &ParsedString) -> (r: Result<
    StringSignature,
    Vec<ValidationError>,
>)
    ensures
        sig_errs(r) == signature_of(*dialect, base@),
        r matches Ok(s) ==> s.bounded(base@.len() as nat),
{
    let mut errors: Vec<ValidationError> = Vec::new();
    let mut sig = StringSignature { parameters: PosCount::new(), nonpositional_count: NpCount::new() };
    let mut pos: usize = 0;
    let mut i: usize = 0;
    assert(errs_view(errors@) =~= seq![]);
    while i < base.fragments.len()
        invariant
            i <= base@.len(),
            base@.len() == base.fragments@.len(),
            sig.bounded(i as nat),
            sig_build(*dialect, base@.take(i as int)) == (SigBuildV {
                pos,
                sig: sig@,
                errors: errs_view(errors@),
            }),
        decreases base@.len() - i,
    {
        let f = &base.fragments[i];
        assert(base@.take(i + 1).drop_last() =~= base@.take(i as int));
        assert(base@.take(i + 1).last() == f@);
        if let FragmentContent::Command(cmd) = &f.content {
            match lookup(cmd.name.as_str(), *dialect) {
                None => {
                    push_error(&mut errors, unknown_command_error(f, cmd.name.as_str()));
                },
                Some(info) => {
                    if info.parameters.len() == 0 {
                        if let Some(index) = cmd.index {
                            push_error(
                                &mut errors,
                                no_position_reference_error(f, cmd.name.as_str(), index),
                            );
                        }
                        let norm = lit(info.get_norm_name().as_str());
                        sig.nonpositional_count.bump(norm, info.occurrence, Ghost(i as nat));
                        proof {
                            assert(sig.parameters.bounded(i as nat + 1));
                        }
                    } else {
                        let p = match cmd.index {
                            Some(index) => index,
                            None => pos,
                        };
                        sig.parameters.bump(p, info, Ghost(i as nat));
                        proof {
                            assert(sig.nonpositional_count.bounded(i as nat + 1));
                        }
                        pos = if p < usize::MAX { p + 1 } else { p };
                    }
                },
            }
        }
        proof {
            assert(sig.parameters.bounded(i as nat + 1));
            assert(sig.nonpositional_count.bounded(i as nat + 1));
        }
        i = i + 1;
    }
    assert(base@.take(i as int) =~= base@);
    if errors.len() == 0 {
        Ok(sig)
    } else {
        Err(errors)
    }
}

// ---------------------------------------------------------------------- scan

/// What the scan of a candidate text carries from fragment to fragment.
pub struct ScanState {
    pub pos: usize,
    pub front: u8,
    pub found: PosCount,
    pub found_np: NpCount,
}

pub open spec fn scan_view(st: ScanState, errors: Seq<ValidationError>) -> ScanV {
    ScanV {
        pos: st.pos,
        front: st.front as nat,
        found: st.found@,
        found_np: st.found_np@,
        errors: errs_view(errors),
    }
}

impl ScanState {
    pub open spec fn bounded(&self, k: nat) -> bool {
        &&& self.found.bounded(k)
        &&& self.found_np.bounded(k)
        &&& self.front <= 2
    }
}

fn check_case(
    c: &LanguageConfig,
    info: &CommandInfo,
    cmd: &StringCommand,
    f: &StringFragment,
    errors: &mut Vec<ValidationError>,
)
    ensures
        errs_view(final(errors)@) == errs_view(old(errors)@) + case_error(c@, info@, cmd@, f@),
{
    let ghost before = errs_view(errors@);
    match &cmd.case {
        None => {
            assert(errs_view(errors@) =~= before + Seq::<ErrV>::empty());
        },
        Some(k) => {
            let sugg = cat3("Remove '.", k.as_str(), "'.");
            if !c.allow_cases() {
                push_error(
                    errors,
                    at_fragment(Severity::Error, f, lit("No case selections allowed."), Some(sugg)),
                );
            } else if !info.allow_case {
                let b = braced_str(cmd.name.as_str());
                push_error(
                    errors,
                    at_fragment(
                        Severity::Error,
                        f,
                        cat3("No case selection allowed for '", b.as_str(), "'."),
                        Some(sugg),
                    ),
                );
            } else if !contains_text(&c.cases, k.as_str()) {
                let known = known_list_text("cases", &c.cases);
                push_error(
                    errors,
                    at_fragment(
                        Severity::Error,
                        f,
                        cat3("Unknown case '", k.as_str(), "'."),
                        Some(known),
                    ),
                );
            } else {
                assert(errs_view(errors@) =~= before + Seq::<ErrV>::empty());
                return;
            }
            assert(errs_view(errors@) =~= before + case_error(c@, info@, cmd@, f@));
        },
    }
}

/// The rest of the check of a command, once its registry entry is known.
#[verifier::rlimit(30)]
fn check_resolved_command(
    c: &LanguageConfig,
    sig: &StringSignature,
    st: &mut ScanState,
    errors: &mut Vec<ValidationError>,
    f: &StringFragment,
    cmd: &StringCommand,
    info: &CommandInfo,
    expected: Option<usize>,
    Ghost(k): Ghost<nat>,
)
    requires
        old(st).bounded(k),
        k < usize::MAX,
        sig.parameters.entries@.len() == sig.parameters.counts@.len(),
        match expected {
            Some(e) => e < sig.parameters.entries@.len() && e as int == crate::rules::pos_index(
                sig@.params.entries,
                match cmd.index {
                    Some(i) => i,
                    None => old(st).pos,
                },
            ),
            None => crate::rules::pos_index(
                sig@.params.entries,
                match cmd.index {
                    Some(i) => i,
                    None => old(st).pos,
                },
            ) < 0,
        },
    ensures
        final(st).bounded(k + 1),
        ({
            let at = match cmd.index {
                Some(i) => i,
                None => old(st).pos,
            };
            let before = scan_view(*old(st), old(errors)@);
            let errs = before.errors + case_error(c@, info@, cmd@, f@);
            let after = scan_view(*final(st), final(errors)@);
            if info@.parameters.len() == 0 {
                after == (ScanV {
                    front: 2,
                    found_np: crate::rules::bump_np(before.found_np, info@.norm(), info@.occurrence),
                    errors: match cmd.index {
                        Some(i) => errs.push(no_position_reference(f@, cmd.name@, i)),
                        None => errs,
                    },
                    ..before
                })
            } else {
                match expected_at(sig@, at) {
                    Some(e) => if e.norm() == info@.norm() {
                        after == (ScanV {
                            pos: next_pos(at),
                            front: 2,
                            found: crate::rules::bump_pos(before.found, at, info@),
                            errors: errs,
                            ..before
                        })
                    } else {
                        after == (ScanV {
                            pos: next_pos(at),
                            front: 2,
                            errors: errs.push(
                                diag(
                                    Severity::Error,
                                    span_of(f@),
                                    "Expected '"@ + braced_at(at as nat, e.name) + "', found '"@
                                        + braced(cmd.name@) + "'."@,
                                    None,
                                ),
                            ),
                            ..before
                        })
                    },
                    None => after == (ScanV {
                        pos: next_pos(at),
                        front: 2,
                        errors: errs.push(
                            diag(
                                Severity::Error,
                                span_of(f@),
                                "There is no parameter in position "@ + decimal(at as nat)
                                    + ", found '"@ + braced(cmd.name@) + "'."@,
                                None,
                            ),
                        ),
                        ..before
                    }),
                }
            }
        }),
{
    check_case(c, info, cmd, f, errors);
    let at = match cmd.index {
        Some(i) => i,
        None => st.pos,
    };
    st.front = 2;
    if info.parameters.len() == 0 {
        if let Some(index) = cmd.index {
            push_error(errors, no_position_reference_error(f, cmd.name.as_str(), index));
        }
        let norm = lit(info.get_norm_name().as_str());
        st.found_np.bump(norm, info.occurrence, Ghost(k));
        assert(st.found.bounded(k + 1));
    } else {
        match expected {
            Some(e) => {
                let ex = &sig.parameters.entries[e].info;
                if same_text(ex.get_norm_name().as_str(), info.get_norm_name().as_str()) {
                    st.found.bump(at, info.duplicate(), Ghost(k));
                    assert(st.found_np.bounded(k + 1));
                } else {
                    let want = braced_at_str(at, ex.name.as_str());
                    let got = braced_str(cmd.name.as_str());
                    let mut m = String::new();
                    push_str(&mut m, "Expected '");
                    push_str(&mut m, want.as_str());
                    push_str(&mut m, "', found '");
                    push_str(&mut m, got.as_str());
                    push_str(&mut m, "'.");
                    push_error(errors, at_fragment(Severity::Error, f, m, None));
                    assert(st.found.bounded(k + 1));
                    assert(st.found_np.bounded(k + 1));
                }
            },
            None => {
                let got = braced_str(cmd.name.as_str());
                let mut m = String::new();
                push_str(&mut m, "There is no parameter in position ");
                push_decimal(&mut m, at);
                push_str(&mut m, ", found '");
                push_str(&mut m, got.as_str());
                push_str(&mut m, "'.");
                push_error(errors, at_fragment(Severity::Error, f, m, None));
                assert(st.found.bounded(k + 1));
                assert(st.found_np.bounded(k + 1));
            },
        }
        st.pos = if at < usize::MAX { at + 1 } else { at };
    }
}

#[verifier::rlimit(30)]

fn check_command(
    c: &LanguageConfig,
    sig: &StringSignature,
    st: &mut ScanState,
    errors: &mut Vec<ValidationError>,
    f: &StringFragment,
    cmd: &StringCommand,
    Ghost(k): Ghost<nat>,
)
    requires
        old(st).bounded(k),
        k < usize::MAX,
        sig.parameters.entries@.len() == sig.parameters.counts@.len(),
    ensures
        final(st).bounded(k + 1),
        scan_view(*final(st), final(errors)@) == scan_command(
            c@,
            sig@,
            scan_view(*old(st), old(errors)@),
            f@,
            cmd@,
        ),
{
    let at = match cmd.index {
        Some(i) => i,
        None => st.pos,
    };
    let expected = sig.parameters.index_of(at);
    let use_expected = match expected {
        Some(e) => same_text(
            sig.parameters.entries[e].info.get_norm_name().as_str(),
            cmd.name.as_str(),
        ),
        None => false,
    };
    if use_expected {
        let e = expected.unwrap();
        check_resolved_command(c, sig, st, errors, f, cmd, &sig.parameters.entries[e].info, expected, Ghost(k));
    } else {
        match lookup(cmd.name.as_str(), c.get_dialect()) {
            Some(info) => {
                check_resolved_command(c, sig, st, errors, f, cmd, &info, expected, Ghost(k));
            },
            None => {
                push_error(errors, unknown_command_error(f, cmd.name.as_str()));
                st.front = 2;
                assert(st.found.bounded(k + 1));
                assert(st.found_np.bounded(k + 1));
            },
        }
    }
}

fn check_gender(
    c: &LanguageConfig,
    st: &mut ScanState,
    errors: &mut Vec<ValidationError>,
    f: &StringFragment,
    g: &String,
)
    requires
        old(st).front <= 2,
    ensures
        final(st).front <= 2,
        final(st).pos == old(st).pos,
        final(st).found == old(st).found,
        final(st).found_np == old(st).found_np,
        scan_view(*final(st), final(errors)@) == scan_gender(
            c@,
            scan_view(*old(st), old(errors)@),
            f@,
            g@,
        ),
{
    if !c.allow_genders() || c.genders.len() < 2 {
        push_error(
            errors,
            at_fragment(
                Severity::Error,
                f,
                lit("No gender definitions allowed."),
                Some(lit("Remove '{G=...}'.")),
            ),
        );
    } else if st.front == 2 {
        push_error(
            errors,
            at_fragment(
                Severity::Warning,
                f,
                lit("Gender definitions must be at the front."),
                Some(lit("Move '{G=...}' to the front of the translation.")),
            ),
        );
    } else if st.front == 1 {
        push_error(
            errors,
            at_fragment(
                Severity::Warning,
                f,
                lit("Duplicate gender definition."),
                Some(lit("Remove the second '{G=...}'.")),
            ),
        );
    } else {
        st.front = 1;
        if !contains_text(&c.genders, g.as_str()) {
            let known = known_list_text("genders", &c.genders);
            push_error(
                errors,
                at_fragment(Severity::Error, f, cat3("Unknown gender '", g.as_str(), "'."), Some(known)),
            );
        }
    }
}

fn check_choice_count(
    c: &LanguageConfig,
    f: &StringFragment,
    ch: &ChoiceList,
    errors: &mut Vec<ValidationError>,
)
    ensures
        errs_view(final(errors)@) == errs_view(old(errors)@) + count_error(c@, f@, ch@),
{
    let ghost before = errs_view(errors@);
    let plural = same_text(ch.name.as_str(), "P");
    let want = if plural { c.plural_count } else { c.genders.len() };
    assert(strings_view(c.genders@).len() == c.genders@.len());
    if ch.choices.len() == want {
        assert(errs_view(errors@) =~= before + Seq::<ErrV>::empty());
    } else {
        let mut m = String::new();
        push_str(&mut m, "Expected ");
        push_decimal(&mut m, want);
        if plural {
            push_str(&mut m, " plural");
        } else {
            push_str(&mut m, " gender");
        }
        push_str(&mut m, " choices, found ");
        push_decimal(&mut m, ch.choices.len());
        push_str(&mut m, ".");
        push_error(errors, at_fragment(Severity::Error, f, m, None));
        assert(errs_view(errors@) =~= before + count_error(c@, f@, ch@));
    }
}

#[verifier::rlimit(30)]

fn check_choice_reference(
    sig: &StringSignature,
    f: &StringFragment,
    ch: &ChoiceList,
    pos: usize,
    errors: &mut Vec<ValidationError>,
)
    ensures
        errs_view(final(errors)@) == errs_view(old(errors)@) + reference_error(sig@, f@, ch@, pos),
{
    let ghost before = errs_view(errors@);
    let plural = same_text(ch.name.as_str(), "P");
    let r = match ch.indexref {
        Some(i) => Some(i),
        None => if plural {
            if pos == 0 {
                None
            } else {
                Some(pos - 1)
            }
        } else {
            Some(pos)
        },
    };
    let target = match r {
        Some(p) => sig.parameters.index_of(p),
        None => None,
    };
    match target {
        Some(t) => {
            let p = r.unwrap();
            let info = &sig.parameters.entries[t].info;
            let sub: usize = match ch.indexsubref {
                Some(s) => s,
                None => if plural {
                    match info.def_plural_subindex {
                        Some(s) => s,
                        None => 0,
                    }
                } else {
                    0
                },
            };
            let mut m = String::new();
            push_str(&mut m, "'");
            let b = braced_str(ch.name.as_str());
            push_str(&mut m, b.as_str());
            push_str(&mut m, "' references position '");
            push_decimal(&mut m, p);
            push_str(&mut m, ":");
            push_decimal(&mut m, sub);
            push_str(&mut m, "', but '");
            let ba = braced_at_str(p, info.get_norm_name().as_str());
            push_str(&mut m, ba.as_str());
            let ghost head = m@;
            if sub >= info.parameters.len() {
                push_str(&mut m, "' only has ");
                push_decimal(&mut m, info.parameters.len());
                push_str(&mut m, " subindices.");
            } else if plural && !info.parameters[sub].allow_plural {
                push_str(&mut m, "' does not allow plurals.");
            } else if !plural && !info.parameters[sub].allow_gender {
                push_str(&mut m, "' does not allow genders.");
            } else {
                assert(errs_view(errors@) =~= before + Seq::<ErrV>::empty());
                return;
            }
            push_error(errors, at_fragment(Severity::Error, f, m, None));
            assert(errs_view(errors@) =~= before + reference_error(sig@, f@, ch@, pos));
        },
        None => {
            let mut m = String::new();
            push_str(&mut m, "'");
            let b = braced_str(ch.name.as_str());
            push_str(&mut m, b.as_str());
            push_str(&mut m, "' references position '");
            match r {
                Some(p) => push_decimal(&mut m, p),
                None => push_str(&mut m, "-1"),
            }
            push_str(&mut m, "', which has no parameter.");
            let sugg = if ch.indexref.is_none() {
                Some(lit("Add a position reference."))
            } else {
                None
            };
            push_error(errors, at_fragment(Severity::Error, f, m, sugg));
            assert(errs_view(errors@) =~= before + reference_error(sig@, f@, ch@, pos));
        },
    }
}

fn check_choice(
    c: &LanguageConfig,
    sig: &StringSignature,
    st: &mut ScanState,
    errors: &mut Vec<ValidationError>,
    f: &StringFragment,
    ch: &ChoiceList,
)
    ensures
        final(st).front == 2,
        final(st).pos == old(st).pos,
        final(st).found == old(st).found,
        final(st).found_np == old(st).found_np,
        scan_view(*final(st), final(errors)@) == scan_choice(
            c@,
            sig@,
            scan_view(*old(st), old(errors)@),
            f@,
            ch@,
        ),
{
    let ghost before = errs_view(errors@);
    let plural = same_text(ch.name.as_str(), "P");
    if !plural && (!c.allow_genders() || c.genders.len() < 2) {
        push_error(
            errors,
            at_fragment(
                Severity::Error,
                f,
                lit("No gender choices allowed."),
                Some(lit("Remove '{G ...}'.")),
            ),
        );
    } else if plural && c.plural_count < 2 {
        push_error(
            errors,
            at_fragment(
                Severity::Error,
                f,
                lit("No plural choices allowed."),
                Some(lit("Remove '{P ...}'.")),
            ),
        );
    } else {
        check_choice_count(c, f, ch, errors);
        check_choice_reference(sig, f, ch, st.pos, errors);
        assert(errs_view(errors@) =~= before + count_error(c@, f@, ch@) + reference_error(
            sig@,
            f@,
            ch@,
            st.pos,
        ));
    }
    st.front = 2;
}

/// Scans a candidate text against a signature.
#[verifier::rlimit(30)]
fn scan_fragments(c: &LanguageConfig, sig: &StringSignature, test: &ParsedString) -> (r: (
    ScanState,
    Vec<ValidationError>,
))
    requires
        sig.parameters.entries@.len() == sig.parameters.counts@.len(),
    ensures
        scan_view(r.0, r.1@) == scan_all(c@, sig@, test@),
        r.0.bounded(test@.len() as nat),
{
    let mut st = ScanState { pos: 0, front: 0, found: PosCount::new(), found_np: NpCount::new() };
    let mut errors: Vec<ValidationError> = Vec::new();
    let mut i: usize = 0;
    assert(errs_view(errors@) =~= seq![]);
    while i < test.fragments.len()
        invariant
            i <= test@.len(),
            test@.len() == test.fragments@.len(),
            sig.parameters.entries@.len() == sig.parameters.counts@.len(),
            st.bounded(i as nat),
            scan_view(st, errors@) == scan_all(c@, sig@, test@.take(i as int)),
        decreases test@.len() - i,
    {
        let f = &test.fragments[i];
        assert(test@.take(i + 1).drop_last() =~= test@.take(i as int));
        assert(test@.take(i + 1).last() == f@);
        match &f.content {
            FragmentContent::Command(cmd) => {
                check_command(c, sig, &mut st, &mut errors, f, cmd, Ghost(i as nat));
            },
            FragmentContent::Gender(g) => {
                check_gender(c, &mut st, &mut errors, f, &g.gender);
            },
            FragmentContent::Choice(ch) => {
                check_choice(c, sig, &mut st, &mut errors, f, ch);
            },
            FragmentContent::Text(_) => {
                st.front = 2;
            },
        }
        proof {
            assert(st.found.bounded(i as nat + 1));
            assert(st.found_np.bounded(i as nat + 1));
        }
        i = i + 1;
    }
    assert(test@.take(i as int) =~= test@);
    (st, errors)
}

// -------------------------------------------------------------- completeness

fn times_text(m: &mut String, ex: usize, found: usize)
    ensures
        final(m)@ == old(m)@ + crate::rules::times(ex as nat, found as nat),
{
    push_str(m, ": expected ");
    push_decimal(m, ex);
    push_str(m, " times, found ");
    push_decimal(m, found);
    push_str(m, " times.");
    assert(m@ =~= old(m)@ + crate::rules::times(ex as nat, found as nat));
}

fn check_params(sig: &StringSignature, found: &PosCount, errors: &mut Vec<ValidationError>)
    requires
        sig.parameters.entries@.len() == sig.parameters.counts@.len(),
        found.entries@.len() == found.counts@.len(),
    ensures
        errs_view(final(errors)@) == errs_view(old(errors)@) + params_check(
            sig@.params,
            sig@.params.entries.len() as int,
            found@,
        ),
{
    let ghost before = errs_view(errors@);
    let n = sig.parameters.entries.len();
    let mut i: usize = 0;
    assert(errs_view(errors@) =~= before + params_check(sig@.params, 0, found@));
    while i < n
        invariant
            i <= n,
            n == sig.parameters.entries@.len(),
            n == sig.parameters.counts@.len(),
            found.entries@.len() == found.counts@.len(),
            errs_view(errors@) == before + params_check(sig@.params, i as int, found@),
        decreases n - i,
    {
        let e = &sig.parameters.entries[i];
        let ex = sig.parameters.counts[i];
        let got = found.count_at(e.position);
        let ghost mid = errs_view(errors@);
        let occ = e.info.occurrence;
        let ghost add = param_check(e@, ex as nat, got as nat);
        let mut m = String::new();
        push_str(&mut m, "String command '");
        let ba = braced_at_str(e.position, e.info.get_norm_name().as_str());
        push_str(&mut m, ba.as_str());
        if occ != Occurrence::Any && got == 0 {
            push_str(&mut m, "' is missing.");
            push_error(errors, whole(Severity::Error, m, None));
        } else if occ == Occurrence::Exact && ex != got {
            push_str(&mut m, "'");
            times_text(&mut m, ex, got);
            push_error(errors, whole(Severity::Warning, m, None));
        } else {
            assert(errs_view(errors@) =~= mid + add);
        }
        assert(errs_view(errors@) =~= mid + add);
        i = i + 1;
        assert(errs_view(errors@) =~= before + params_check(sig@.params, i as int, found@));
    }
}

fn check_nonpositional(sig: &StringSignature, found: &NpCount, errors: &mut Vec<ValidationError>)
    requires
        sig.nonpositional_count.entries@.len() == sig.nonpositional_count.counts@.len(),
        found.entries@.len() == found.counts@.len(),
    ensures
        errs_view(final(errors)@) == errs_view(old(errors)@) + nonpos_checks(
            sig@.nonpos,
            sig@.nonpos.entries.len() as int,
            found@,
        ),
{
    let ghost before = errs_view(errors@);
    let n = sig.nonpositional_count.entries.len();
    let mut i: usize = 0;
    assert(errs_view(errors@) =~= before + nonpos_checks(sig@.nonpos, 0, found@));
    while i < n
        invariant
            i <= n,
            n == sig.nonpositional_count.entries@.len(),
            n == sig.nonpositional_count.counts@.len(),
            found.entries@.len() == found.counts@.len(),
            errs_view(errors@) == before + nonpos_checks(sig@.nonpos, i as int, found@),
        decreases n - i,
    {
        let e = &sig.nonpositional_count.entries[i];
        let ex = sig.nonpositional_count.counts[i];
        let got = found.count_of(e.name.as_str());
        let ghost mid = errs_view(errors@);
        let ghost add = nonpos_check(e@, ex as nat, got as nat);
        let mut m = String::new();
        push_str(&mut m, "String command '");
        let b = braced_str(e.name.as_str());
        push_str(&mut m, b.as_str());
        if e.occurrence != Occurrence::Any && got == 0 {
            push_str(&mut m, "' is missing.");
            push_error(errors, whole(Severity::Warning, m, None));
        } else if e.occurrence == Occurrence::Exact && ex != got {
            push_str(&mut m, "'");
            times_text(&mut m, ex, got);
            push_error(errors, whole(Severity::Warning, m, None));
        } else {
            assert(errs_view(errors@) =~= mid + add);
        }
        assert(errs_view(errors@) =~= mid + add);
        i = i + 1;
        assert(errs_view(errors@) =~= before + nonpos_checks(sig@.nonpos, i as int, found@));
    }
}

fn check_unexpected(sig: &StringSignature, found: &NpCount, errors: &mut Vec<ValidationError>)
    requires
        found.entries@.len() == found.counts@.len(),
    ensures
        errs_view(final(errors)@) == errs_view(old(errors)@) + unexpected_checks(
            found@,
            found@.entries.len() as int,
            sig@.nonpos,
        ),
{
    let ghost before = errs_view(errors@);
    let n = found.entries.len();
    let mut i: usize = 0;
    assert(errs_view(errors@) =~= before + unexpected_checks(found@, 0, sig@.nonpos));
    while i < n
        invariant
            i <= n,
            n == found.entries@.len(),
            errs_view(errors@) == before + unexpected_checks(found@, i as int, sig@.nonpos),
        decreases n - i,
    {
        let e = &found.entries[i];
        let ghost mid = errs_view(errors@);
        if e.occurrence != Occurrence::Any
            && sig.nonpositional_count.index_of(e.name.as_str()).is_none() {
            let b = braced_str(e.name.as_str());
            push_error(
                errors,
                whole(
                    Severity::Warning,
                    cat3("String command '", b.as_str(), "' is unexpected."),
                    Some(lit("Remove this command.")),
                ),
            );
        }
        i = i + 1;
        assert(errs_view(errors@) =~= before + unexpected_checks(found@, i as int, sig@.nonpos));
    }
}

/// Every finding of a candidate text: against the signature of `base` where
/// one is given (a broken base gives one finding that blames the base), else
/// against its own signature (whose errors are returned as they are).
pub fn validate_string(
    config: &LanguageConfig,
    test: &ParsedString,
    base: Option<&ParsedString>,
) -> (r: Vec<ValidationError>)
    ensures
        errs_view(r@) == validate_spec(
            config@,
            test@,
            match base {
                Some(b) => Some(b@),
                None => None,
            },
        ),
{
    let source = match base {
        Some(b) => b,
        None => test,
    };
    match get_signature(&config.get_dialect(), source) {
        Err(msgs) => {
            if base.is_some() {
                let mut v: Vec<ValidationError> = Vec::new();
                push_error(&mut v, base_invalid_error());
                assert(errs_view(v@) =~= seq![base_invalid()]);
                v
            } else {
                msgs
            }
        },
        Ok(sig) => {
            let (st, mut errors) = scan_fragments(config, &sig, test);
            check_params(&sig, &st.found, &mut errors);
            check_nonpositional(&sig, &st.found_np, &mut errors);
            check_unexpected(&sig, &st.found_np, &mut errors);
            errors
        },
    }
}

// --------------------------------------------------------------- entry points

pub struct ResultV {
    pub errors: Seq<ErrV>,
    pub normalized: Option<Seq<char>>,
}

impl View for ValidationResult {
    type V = ResultV;

    open spec fn view(&self) -> ResultV {
        ResultV { errors: errs_view(self.errors@), normalized: opt_view(self.normalized) }
    }
}

/// A parse failure as a finding.
pub open spec fn parse_failure(e: ParseErrorV) -> ErrV {
    ErrV {
        severity: Severity::Error,
        pos_begin: Some(e.pos_begin),
        pos_end: e.pos_end,
        message: e.message,
        suggestion: None,
    }
}

/// The findings, and where none is an error, the sanitized and normalized
/// text.
pub open spec fn finish(c: ConfigV, fs: Seq<FragmentV>, es: Seq<ErrV>) -> ResultV {
    if crate::rules::has_error(es) {
        ResultV { errors: es, normalized: None }
    } else {
        ResultV {
            errors: es,
            normalized: Some(compile_all(normalize_spec(c.dialect, sanitize_spec(fs)))),
        }
    }
}

pub open spec fn base_result(c: ConfigV, base: Seq<char>) -> ResultV {
    match parse_text(base) {
        Err(e) => ResultV { errors: seq![parse_failure(e)], normalized: None },
        Ok(fs) => finish(c, fs, validate_spec(c, fs, None)),
    }
}

/// What is wrong with the requested case, if anything: `default` is always
/// fine, others need a dialect with cases and a configured case.
pub open spec fn case_request_error(c: ConfigV, case: Seq<char>) -> Option<ErrV> {
    if case == "default"@ {
        None
    } else if !cases_allowed(c.dialect) {
        Some(diag(Severity::Error, None, "No cases allowed."@, None))
    } else if !c.cases.contains(case) {
        Some(
            diag(
                Severity::Error,
                None,
                "Unknown case '"@ + case + "'."@,
                Some(known_list("cases"@, c.cases)),
            ),
        )
    } else {
        None
    }
}

pub open spec fn translation_result(
    c: ConfigV,
    base: Seq<char>,
    case: Seq<char>,
    translation: Seq<char>,
) -> ResultV {
    match parse_text(base) {
        Err(_) => ResultV { errors: seq![base_invalid()], normalized: None },
        Ok(b) => match case_request_error(c, case) {
            Some(e) => ResultV { errors: seq![e], normalized: None },
            None => match parse_text(translation) {
                Err(e) => ResultV { errors: seq![parse_failure(e)], normalized: None },
                Ok(t) => finish(c, t, validate_spec(c, t, Some(b))),
            },
        },
    }
}

fn any_error(es: &Vec<ValidationError>) -> (r: bool)
    ensures
        r == crate::rules::has_error(errs_view(es@)),
{
    let mut i: usize = 0;
    while i < es.len()
        invariant
            i <= es@.len(),
            forall|j: int| 0 <= j < i ==> es@[j].severity != Severity::Error,
        decreases es@.len() - i,
    {
        if es[i].severity == Severity::Error {
            assert(errs_view(es@)[i as int].severity == Severity::Error);
            return true;
        }
        i = i + 1;
    }
    assert(!crate::rules::has_error(errs_view(es@))) by {
        if crate::rules::has_error(errs_view(es@)) {
            let j = choose|j: int|
                0 <= j < errs_view(es@).len() && errs_view(es@)[j].severity == Severity::Error;
            assert(es@[j].severity == Severity::Error);
        }
    }
    false
}

fn single(e: ValidationError) -> (r: ValidationResult)
    ensures
        r@ == (ResultV { errors: seq![e@], normalized: None }),
{
    let mut v: Vec<ValidationError> = Vec::new();
    push_error(&mut v, e);
    assert(errs_view(v@) =~= seq![e@]);
    ValidationResult { errors: v, normalized: None }
}

fn parse_failure_error(e: ParseError) -> (r: ValidationError)
    ensures
        r@ == parse_failure(e@),
{
    ValidationError {
        severity: Severity::Error,
        pos_begin: Some(e.pos_begin),
        pos_end: e.pos_end,
        message: e.message,
        suggestion: None,
    }
}

fn finish_text(
    config: &LanguageConfig,
    mut parsed: ParsedString,
    errs: Vec<ValidationError>,
) -> (r: ValidationResult)
    ensures
        r@ == finish(config@, parsed@, errs_view(errs@)),
{
    if any_error(&errs) {
        ValidationResult { errors: errs, normalized: None }
    } else {
        sanitize_whitespace(&mut parsed);
        normalize_string(&config.get_dialect(), &mut parsed);
        ValidationResult { errors: errs, normalized: Some(parsed.compile()) }
    }
}

/// Checks a base text against itself. The findings are those of
/// `validate_string` (or the one parse failure); the normalized text is given
/// where none of them is an error.
pub fn validate_base(config: &LanguageConfig, base: &String) -> (r: ValidationResult)
    ensures
        r@ == base_result(config@, base@),
{
    match ParsedString::parse(base.as_str()) {
        Err(e) => single(parse_failure_error(e)),
        Ok(parsed) => {
            let errs = validate_string(config, &parsed, None);
            finish_text(config, parsed, errs)
        },
    }
}

/// Checks a translation in a case (`default` for none) against its base
/// text. A base that does not parse, an unusable case, or a translation that
/// does not parse gives one finding; else the findings are those of
/// `validate_string`, and the normalized translation is given where none of
/// them is an error.
#[verifier::rlimit(30)]
pub fn validate_translation(
    config: &LanguageConfig,
    base: &String,
    case: &String,
    translation: &String,
) -> (r: ValidationResult)
    ensures
        r@ == translation_result(config@, base@, case@, translation@),
{
    let base = match ParsedString::parse(base.as_str()) {
        Err(_) => {
            return single(base_invalid_error());
        },
        Ok(parsed) => parsed,
    };
    if !same_text(case.as_str(), "default") {
        if !config.allow_cases() {
            return single(whole(Severity::Error, lit("No cases allowed."), None));
        } else if !contains_text(&config.cases, case.as_str()) {
            let known = known_list_text("cases", &config.cases);
            return single(
                whole(Severity::Error, cat3("Unknown case '", case.as_str(), "'."), Some(known)),
            );
        }
    }
    match ParsedString::parse(translation.as_str()) {
        Err(e) => single(parse_failure_error(e)),
        Ok(parsed) => {
            let errs = validate_string(config, &parsed, Some(&base));
            finish_text(config, parsed, errs)
        },
    }
}

} // verus!
