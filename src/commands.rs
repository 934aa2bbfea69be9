//! The registry of known commands: for each name and dialect, whether the
//! command takes positional parameters, what each parameter allows, whether
//! it takes a case, its canonical name and how often a translation must use it.
use vstd::prelude::*;
use crate::text::{same_text, push_str};

verus! {

/// The command sets of the three kinds of text.
#[derive(Clone, Copy, Debug, PartialEq, Eq, Structural)]
pub enum Dialect {
    NewGrf,
    GameScript,
    OpenTtd,
}

/// How often a translation has to use a command of the base text.
#[derive(Clone, Copy, Debug, PartialEq, Eq, Structural)]
pub enum Occurrence {
    /// No check.
    Any,
    /// At least once.
    NonZero,
    /// As often as the base text.
    Exact,
}

/// What one parameter of a command allows a choice list to refer to.
#[derive(Clone, Copy, Debug, PartialEq, Eq, Structural)]
pub struct ParameterInfo {
    pub allow_plural: bool,
    pub allow_gender: bool,
}

type PI = ParameterInfo;

#[derive(Debug)]
pub struct CommandInfo {
    pub name: String,
    pub norm_name: Option<String>,
    pub parameters: Vec<ParameterInfo>,
    pub occurrence: Occurrence,
    pub allow_case: bool,
    pub def_plural_subindex: Option<usize>,
}

pub struct InfoV {
    pub name: Seq<char>,
    pub norm_name: Option<Seq<char>>,
    pub parameters: Seq<ParameterInfo>,
    pub occurrence: Occurrence,
    pub allow_case: bool,
    pub def_plural_subindex: Option<usize>,
}

impl View for CommandInfo {
    type V = InfoV;

    open spec fn view(&self) -> InfoV {
        InfoV {
            name: self.name@,
            norm_name: match self.norm_name {
                Some(n) => Some(n@),
                None => None,
            },
            parameters: self.parameters@,
            occurrence: self.occurrence,
            allow_case: self.allow_case,
            def_plural_subindex: self.def_plural_subindex,
        }
    }
}

impl InfoV {
    /// The canonical name: the alias where there is one, else the name.
    pub open spec fn norm(self) -> Seq<char> {
        match self.norm_name {
            Some(n) => n,
            None => self.name,
        }
    }
}

pub open spec fn info_view(o: Option<CommandInfo>) -> Option<InfoV> {
    match o {
        Some(c) => Some(c@),
        None => None,
    }
}

pub open spec fn entry(
    name: Seq<char>,
    norm_name: Option<Seq<char>>,
    parameters: Seq<ParameterInfo>,
    occurrence: Occurrence,
    allow_case: bool,
    def_plural_subindex: Option<usize>,
) -> InfoV {
    InfoV { name, norm_name, parameters, occurrence, allow_case, def_plural_subindex }
}

/// The command of a name in a dialect, if there is one.
pub open spec fn registry(n: Seq<char>, d: Dialect) -> Option<InfoV> {
    if n == "STRING"@ {
        Some(entry("STRING"@, None, seq![PI { allow_plural: false, allow_gender: true }], Occurrence::Exact, true, None))
    } else if n == "STRING1"@ {
        Some(entry("STRING1"@, Some("STRING"@), seq![PI { allow_plural: false, allow_gender: true }, PI { allow_plural: true, allow_gender: true }], Occurrence::Exact, true, None))
    } else if n == "STRING2"@ {
        Some(entry("STRING2"@, Some("STRING"@), seq![PI { allow_plural: false, allow_gender: true }, PI { allow_plural: true, allow_gender: true }, PI { allow_plural: true, allow_gender: true }], Occurrence::Exact, true, None))
    } else if n == "STRING3"@ {
        Some(entry("STRING3"@, Some("STRING"@), seq![PI { allow_plural: false, allow_gender: true }, PI { allow_plural: true, allow_gender: true }, PI { allow_plural: true, allow_gender: true }, PI { allow_plural: true, allow_gender: true }], Occurrence::Exact, true, None))
    } else if n == "STRING4"@ {
        Some(entry("STRING4"@, Some("STRING"@), seq![PI { allow_plural: false, allow_gender: true }, PI { allow_plural: true, allow_gender: true }, PI { allow_plural: true, allow_gender: true }, PI { allow_plural: true, allow_gender: true }, PI { allow_plural: true, allow_gender: true }], Occurrence::Exact, true, None))
    } else if n == "STRING5"@ {
        Some(entry("STRING5"@, Some("STRING"@), seq![PI { allow_plural: false, allow_gender: true }, PI { allow_plural: true, allow_gender: true }, PI { allow_plural: true, allow_gender: true }, PI { allow_plural: true, allow_gender: true }, PI { allow_plural: true, allow_gender: true }, PI { allow_plural: true, allow_gender: true }], Occurrence::Exact, true, None))
    } else if n == "STRING6"@ {
        Some(entry("STRING6"@, Some("STRING"@), seq![PI { allow_plural: false, allow_gender: true }, PI { allow_plural: true, allow_gender: true }, PI { allow_plural: true, allow_gender: true }, PI { allow_plural: true, allow_gender: true }, PI { allow_plural: true, allow_gender: true }, PI { allow_plural: true, allow_gender: true }, PI { allow_plural: true, allow_gender: true }], Occurrence::Exact, true, None))
    } else if n == "STRING7"@ {
        Some(entry("STRING7"@, Some("STRING"@), seq![PI { allow_plural: false, allow_gender: true }, PI { allow_plural: true, allow_gender: true }, PI { allow_plural: true, allow_gender: true }, PI { allow_plural: true, allow_gender: true }, PI { allow_plural: true, allow_gender: true }, PI { allow_plural: true, allow_gender: true }, PI { allow_plural: true, allow_gender: true }, PI { allow_plural: true, allow_gender: true }], Occurrence::Exact, true, None))
    } else if n == "RAW_STRING"@ {
        if d == Dialect::OpenTtd { Some(entry("RAW_STRING"@, Some("STRING"@), seq![PI { allow_plural: false, allow_gender: true }], Occurrence::Exact, false, None)) } else { None }
    } else if n == "NUM"@ {
        Some(entry("NUM"@, None, seq![PI { allow_plural: true, allow_gender: false }], Occurrence::Exact, false, None))
    } else {
        registry_1(n, d)
    }
}

pub open spec fn registry_1(n: Seq<char>, d: Dialect) -> Option<InfoV> {
    if n == "COMMA"@ {
        Some(entry("COMMA"@, None, seq![PI { allow_plural: true, allow_gender: false }], Occurrence::Exact, false, None))
    } else if n == "BYTES"@ {
        Some(entry("BYTES"@, None, seq![PI { allow_plural: true, allow_gender: false }], Occurrence::Exact, false, None))
    } else if n == "HEX"@ {
        Some(entry("HEX"@, None, seq![PI { allow_plural: true, allow_gender: false }], Occurrence::Exact, false, None))
    } else if n == "CURRENCY_LONG"@ {
        Some(entry("CURRENCY_LONG"@, None, seq![PI { allow_plural: true, allow_gender: false }], Occurrence::Exact, false, None))
    } else if n == "CURRENCY_SHORT"@ {
        Some(entry("CURRENCY_SHORT"@, None, seq![PI { allow_plural: true, allow_gender: false }], Occurrence::Exact, false, None))
    } else if n == "POWER"@ {
        Some(entry("POWER"@, None, seq![PI { allow_plural: true, allow_gender: false }], Occurrence::Exact, false, None))
    } else if n == "POWER_TO_WEIGHT"@ {
        Some(entry("POWER_TO_WEIGHT"@, None, seq![PI { allow_plural: true, allow_gender: false }], Occurrence::Exact, false, None))
    } else if n == "VOLUME_LONG"@ {
        Some(entry("VOLUME_LONG"@, None, seq![PI { allow_plural: true, allow_gender: false }], Occurrence::Exact, false, None))
    } else if n == "VOLUME_SHORT"@ {
        Some(entry("VOLUME_SHORT"@, None, seq![PI { allow_plural: true, allow_gender: false }], Occurrence::Exact, false, None))
    } else if n == "WEIGHT_LONG"@ {
        Some(entry("WEIGHT_LONG"@, None, seq![PI { allow_plural: true, allow_gender: false }], Occurrence::Exact, false, None))
    } else {
        registry_2(n, d)
    }
}

pub open spec fn registry_2(n: Seq<char>, d: Dialect) -> Option<InfoV> {
    if n == "WEIGHT_SHORT"@ {
        Some(entry("WEIGHT_SHORT"@, None, seq![PI { allow_plural: true, allow_gender: false }], Occurrence::Exact, false, None))
    } else if n == "FORCE"@ {
        Some(entry("FORCE"@, None, seq![PI { allow_plural: true, allow_gender: false }], Occurrence::Exact, false, None))
    } else if n == "VELOCITY"@ {
        Some(entry("VELOCITY"@, None, seq![PI { allow_plural: true, allow_gender: false }], Occurrence::Exact, false, None))
    } else if n == "HEIGHT"@ {
        Some(entry("HEIGHT"@, None, seq![PI { allow_plural: true, allow_gender: false }], Occurrence::Exact, false, None))
    } else if n == "DECIMAL"@ {
        Some(entry("DECIMAL"@, None, seq![PI { allow_plural: true, allow_gender: false }, PI { allow_plural: false, allow_gender: false }], Occurrence::Exact, false, None))
    } else if n == "ZEROFILL_NUM"@ {
        Some(entry("ZEROFILL_NUM"@, None, seq![PI { allow_plural: true, allow_gender: false }, PI { allow_plural: false, allow_gender: false }], Occurrence::Exact, false, None))
    } else if n == "CARGO_LONG"@ {
        Some(entry("CARGO_LONG"@, None, seq![PI { allow_plural: false, allow_gender: true }, PI { allow_plural: true, allow_gender: false }], Occurrence::Exact, false, Some(1)))
    } else if n == "CARGO_SHORT"@ {
        Some(entry("CARGO_SHORT"@, None, seq![PI { allow_plural: false, allow_gender: false }, PI { allow_plural: true, allow_gender: false }], Occurrence::Exact, false, Some(1)))
    } else if n == "CARGO_TINY"@ {
        Some(entry("CARGO_TINY"@, None, seq![PI { allow_plural: false, allow_gender: false }, PI { allow_plural: true, allow_gender: false }], Occurrence::Exact, false, Some(1)))
    } else if n == "CARGO_LIST"@ {
        Some(entry("CARGO_LIST"@, None, seq![PI { allow_plural: false, allow_gender: false }], Occurrence::Exact, true, None))
    } else {
        registry_3(n, d)
    }
}

pub open spec fn registry_3(n: Seq<char>, d: Dialect) -> Option<InfoV> {
    if n == "DATE_TINY"@ {
        Some(entry("DATE_TINY"@, None, seq![PI { allow_plural: false, allow_gender: false }], Occurrence::Exact, false, None))
    } else if n == "DATE_SHORT"@ {
        Some(entry("DATE_SHORT"@, None, seq![PI { allow_plural: false, allow_gender: false }], Occurrence::Exact, true, None))
    } else if n == "DATE_LONG"@ {
        Some(entry("DATE_LONG"@, None, seq![PI { allow_plural: false, allow_gender: false }], Occurrence::Exact, true, None))
    } else if n == "DATE_ISO"@ {
        Some(entry("DATE_ISO"@, None, seq![PI { allow_plural: false, allow_gender: false }], Occurrence::Exact, false, None))
    } else if n == "INDUSTRY"@ {
        Some(entry("INDUSTRY"@, None, seq![PI { allow_plural: false, allow_gender: true }], Occurrence::Exact, true, None))
    } else if n == "ENGINE"@ {
        Some(entry("ENGINE"@, None, seq![PI { allow_plural: false, allow_gender: true }], Occurrence::Exact, true, None))
    } else if n == "TOWN"@ {
        Some(entry("TOWN"@, None, seq![PI { allow_plural: false, allow_gender: false }], Occurrence::Exact, false, None))
    } else if n == "COMPANY"@ {
        Some(entry("COMPANY"@, None, seq![PI { allow_plural: false, allow_gender: false }], Occurrence::Exact, false, None))
    } else if n == "COMPANY_NUM"@ {
        Some(entry("COMPANY_NUM"@, None, seq![PI { allow_plural: false, allow_gender: false }], Occurrence::Exact, false, None))
    } else if n == "PRESIDENT_NAME"@ {
        Some(entry("PRESIDENT_NAME"@, None, seq![PI { allow_plural: false, allow_gender: false }], Occurrence::Exact, false, None))
    } else {
        registry_4(n, d)
    }
}

pub open spec fn registry_4(n: Seq<char>, d: Dialect) -> Option<InfoV> {
    if n == "VEHICLE"@ {
        Some(entry("VEHICLE"@, None, seq![PI { allow_plural: false, allow_gender: false }], Occurrence::Exact, false, None))
    } else if n == "SIGN"@ {
        Some(entry("SIGN"@, None, seq![PI { allow_plural: false, allow_gender: false }], Occurrence::Exact, false, None))
    } else if n == "STATION"@ {
        Some(entry("STATION"@, None, seq![PI { allow_plural: false, allow_gender: false }], Occurrence::Exact, false, None))
    } else if n == "WAYPOINT"@ {
        Some(entry("WAYPOINT"@, None, seq![PI { allow_plural: false, allow_gender: false }], Occurrence::Exact, false, None))
    } else if n == "GROUP"@ {
        Some(entry("GROUP"@, None, seq![PI { allow_plural: false, allow_gender: false }], Occurrence::Exact, false, None))
    } else if n == "STATION_FEATURES"@ {
        Some(entry("STATION_FEATURES"@, None, seq![PI { allow_plural: false, allow_gender: false }], Occurrence::Exact, false, None))
    } else if n == "COLOUR"@ {
        Some(entry("COLOUR"@, None, seq![PI { allow_plural: false, allow_gender: false }], Occurrence::Exact, false, None))
    } else if n == "DEPOT"@ {
        Some(entry("DEPOT"@, None, seq![PI { allow_plural: false, allow_gender: false }, PI { allow_plural: false, allow_gender: false }], Occurrence::Exact, false, None))
    } else if n == ""@ {
        Some(entry(""@, None, seq![], Occurrence::Any, false, None))
    } else if n == "{"@ {
        Some(entry("{"@, None, seq![], Occurrence::Any, false, None))
    } else {
        registry_5(n, d)
    }
}

pub open spec fn registry_5(n: Seq<char>, d: Dialect) -> Option<InfoV> {
    if n == "NORMAL_FONT"@ {
        Some(entry("NORMAL_FONT"@, None, seq![], Occurrence::Exact, false, None))
    } else if n == "TINY_FONT"@ {
        Some(entry("TINY_FONT"@, None, seq![], Occurrence::Exact, false, None))
    } else if n == "BIG_FONT"@ {
        Some(entry("BIG_FONT"@, None, seq![], Occurrence::Exact, false, None))
    } else if n == "MONO_FONT"@ {
        Some(entry("MONO_FONT"@, None, seq![], Occurrence::Exact, false, None))
    } else if n == "PUSH_COLOUR"@ {
        Some(entry("PUSH_COLOUR"@, None, seq![], Occurrence::Exact, false, None))
    } else if n == "POP_COLOUR"@ {
        Some(entry("POP_COLOUR"@, None, seq![], Occurrence::Exact, false, None))
    } else if n == "TRAIN"@ {
        Some(entry("TRAIN"@, None, seq![], Occurrence::Exact, false, None))
    } else if n == "LORRY"@ {
        Some(entry("LORRY"@, None, seq![], Occurrence::Exact, false, None))
    } else if n == "BUS"@ {
        Some(entry("BUS"@, None, seq![], Occurrence::Exact, false, None))
    } else if n == "PLANE"@ {
        Some(entry("PLANE"@, None, seq![], Occurrence::Exact, false, None))
    } else {
        registry_6(n, d)
    }
}

pub open spec fn registry_6(n: Seq<char>, d: Dialect) -> Option<InfoV> {
    if n == "SHIP"@ {
        Some(entry("SHIP"@, None, seq![], Occurrence::Exact, false, None))
    } else if n == "BLUE"@ {
        Some(entry("BLUE"@, None, seq![], Occurrence::NonZero, false, None))
    } else if n == "SILVER"@ {
        Some(entry("SILVER"@, None, seq![], Occurrence::NonZero, false, None))
    } else if n == "GOLD"@ {
        Some(entry("GOLD"@, None, seq![], Occurrence::NonZero, false, None))
    } else if n == "RED"@ {
        Some(entry("RED"@, None, seq![], Occurrence::NonZero, false, None))
    } else if n == "PURPLE"@ {
        Some(entry("PURPLE"@, None, seq![], Occurrence::NonZero, false, None))
    } else if n == "LTBROWN"@ {
        Some(entry("LTBROWN"@, None, seq![], Occurrence::NonZero, false, None))
    } else if n == "ORANGE"@ {
        Some(entry("ORANGE"@, None, seq![], Occurrence::NonZero, false, None))
    } else if n == "GREEN"@ {
        Some(entry("GREEN"@, None, seq![], Occurrence::NonZero, false, None))
    } else if n == "YELLOW"@ {
        Some(entry("YELLOW"@, None, seq![], Occurrence::NonZero, false, None))
    } else {
        registry_7(n, d)
    }
}

pub open spec fn registry_7(n: Seq<char>, d: Dialect) -> Option<InfoV> {
    if n == "DKGREEN"@ {
        Some(entry("DKGREEN"@, None, seq![], Occurrence::NonZero, false, None))
    } else if n == "CREAM"@ {
        Some(entry("CREAM"@, None, seq![], Occurrence::NonZero, false, None))
    } else if n == "BROWN"@ {
        Some(entry("BROWN"@, None, seq![], Occurrence::NonZero, false, None))
    } else if n == "WHITE"@ {
        Some(entry("WHITE"@, None, seq![], Occurrence::NonZero, false, None))
    } else if n == "LTBLUE"@ {
        Some(entry("LTBLUE"@, None, seq![], Occurrence::NonZero, false, None))
    } else if n == "GRAY"@ {
        Some(entry("GRAY"@, None, seq![], Occurrence::NonZero, false, None))
    } else if n == "DKBLUE"@ {
        Some(entry("DKBLUE"@, None, seq![], Occurrence::NonZero, false, None))
    } else if n == "BLACK"@ {
        Some(entry("BLACK"@, None, seq![], Occurrence::NonZero, false, None))
    } else if n == "NBSP"@ {
        Some(entry("NBSP"@, None, seq![], Occurrence::Any, false, None))
    } else if n == "COPYRIGHT"@ {
        Some(entry("COPYRIGHT"@, None, seq![], Occurrence::Any, false, None))
    } else {
        registry_8(n, d)
    }
}

pub open spec fn registry_8(n: Seq<char>, d: Dialect) -> Option<InfoV> {
    if n == "REV"@ {
        Some(entry("REV"@, None, seq![], Occurrence::Any, false, None))
    } else if n == "UP_ARROW"@ {
        Some(entry("UP_ARROW"@, None, seq![], Occurrence::Any, false, None))
    } else if n == "DOWN_ARROW"@ {
        Some(entry("DOWN_ARROW"@, None, seq![], Occurrence::Any, false, None))
    } else if n == "RIGHT_ARROW"@ {
        Some(entry("RIGHT_ARROW"@, None, seq![], Occurrence::Any, false, None))
    } else if n == "SMALL_UP_ARROW"@ {
        Some(entry("SMALL_UP_ARROW"@, None, seq![], Occurrence::Any, false, None))
    } else if n == "SMALL_DOWN_ARROW"@ {
        Some(entry("SMALL_DOWN_ARROW"@, None, seq![], Occurrence::Any, false, None))
    } else if n == "SMALL_LEFT_ARROW"@ {
        Some(entry("SMALL_LEFT_ARROW"@, None, seq![], Occurrence::Any, false, None))
    } else if n == "SMALL_RIGHT_ARROW"@ {
        Some(entry("SMALL_RIGHT_ARROW"@, None, seq![], Occurrence::Any, false, None))
    } else if n == "CHECKMARK"@ {
        Some(entry("CHECKMARK"@, None, seq![], Occurrence::Any, false, None))
    } else if n == "CROSS"@ {
        Some(entry("CROSS"@, None, seq![], Occurrence::Any, false, None))
    } else {
        None
    }
}

// ------------------------------------------------------------------ coherence

/// An entry is either canonical under the name it is found by, or an alias
/// of `STRING` with parameters and no default plural sub-index.
pub open spec fn coherent_entry(e: InfoV, n: Seq<char>) -> bool {
    (e.norm_name is None && e.name == n) || (e.norm_name == Some("STRING"@)
        && e.parameters.len() > 0 && e.def_plural_subindex is None)
}

proof fn lemma_coherent_8(n: Seq<char>, d: Dialect)
    ensures
        registry_8(n, d) matches Some(e) ==> coherent_entry(e, n),
{
}

proof fn lemma_coherent_7(n: Seq<char>, d: Dialect)
    ensures
        registry_7(n, d) matches Some(e) ==> coherent_entry(e, n),
{
    lemma_coherent_8(n, d);
}

proof fn lemma_coherent_6(n: Seq<char>, d: Dialect)
    ensures
        registry_6(n, d) matches Some(e) ==> coherent_entry(e, n),
{
    lemma_coherent_7(n, d);
}

proof fn lemma_coherent_5(n: Seq<char>, d: Dialect)
    ensures
        registry_5(n, d) matches Some(e) ==> coherent_entry(e, n),
{
    lemma_coherent_6(n, d);
}

proof fn lemma_coherent_4(n: Seq<char>, d: Dialect)
    ensures
        registry_4(n, d) matches Some(e) ==> coherent_entry(e, n),
{
    lemma_coherent_5(n, d);
}

proof fn lemma_coherent_3(n: Seq<char>, d: Dialect)
    ensures
        registry_3(n, d) matches Some(e) ==> coherent_entry(e, n),
{
    lemma_coherent_4(n, d);
}

proof fn lemma_coherent_2(n: Seq<char>, d: Dialect)
    ensures
        registry_2(n, d) matches Some(e) ==> coherent_entry(e, n),
{
    lemma_coherent_3(n, d);
}

proof fn lemma_coherent_1(n: Seq<char>, d: Dialect)
    ensures
        registry_1(n, d) matches Some(e) ==> coherent_entry(e, n),
{
    lemma_coherent_2(n, d);
}

proof fn lemma_coherent_0(n: Seq<char>, d: Dialect)
    ensures
        registry(n, d) matches Some(e) ==> coherent_entry(e, n),
{
    lemma_coherent_1(n, d);
}

/// Looking up the canonical name of a command finds a command with that
/// canonical name, the same kind of parameters and the same default plural
/// sub-index.
pub proof fn lemma_registry_coherent(n: Seq<char>, d: Dialect)
    ensures
        registry(n, d) matches Some(e) ==> (registry(e.norm(), d) matches Some(e2) && e2.norm()
            == e.norm() && (e2.parameters.len() == 0) == (e.parameters.len() == 0)
            && e2.def_plural_subindex == e.def_plural_subindex),
{
    lemma_coherent_0(n, d);
}

fn params_0() -> (r: Vec<ParameterInfo>)
    ensures
        r@ == Seq::<ParameterInfo>::empty(),
{
    Vec::new()
}

fn params_1(x0: ParameterInfo) -> (r: Vec<ParameterInfo>)
    ensures
        r@ == seq![x0],
{
    let r = vec![x0];
    assert(r@ =~= seq![x0]);
    r
}

fn params_2(x0: ParameterInfo, x1: ParameterInfo) -> (r: Vec<ParameterInfo>)
    ensures
        r@ == seq![x0, x1],
{
    let r = vec![x0, x1];
    assert(r@ =~= seq![x0, x1]);
    r
}

fn params_3(x0: ParameterInfo, x1: ParameterInfo, x2: ParameterInfo) -> (r: Vec<ParameterInfo>)
    ensures
        r@ == seq![x0, x1, x2],
{
    let r = vec![x0, x1, x2];
    assert(r@ =~= seq![x0, x1, x2]);
    r
}

fn params_4(x0: ParameterInfo, x1: ParameterInfo, x2: ParameterInfo, x3: ParameterInfo) -> (r: Vec<ParameterInfo>)
    ensures
        r@ == seq![x0, x1, x2, x3],
{
    let r = vec![x0, x1, x2, x3];
    assert(r@ =~= seq![x0, x1, x2, x3]);
    r
}

fn params_5(x0: ParameterInfo, x1: ParameterInfo, x2: ParameterInfo, x3: ParameterInfo, x4: ParameterInfo) -> (r: Vec<ParameterInfo>)
    ensures
        r@ == seq![x0, x1, x2, x3, x4],
{
    let r = vec![x0, x1, x2, x3, x4];
    assert(r@ =~= seq![x0, x1, x2, x3, x4]);
    r
}

fn params_6(x0: ParameterInfo, x1: ParameterInfo, x2: ParameterInfo, x3: ParameterInfo, x4: ParameterInfo, x5: ParameterInfo) -> (r: Vec<ParameterInfo>)
    ensures
        r@ == seq![x0, x1, x2, x3, x4, x5],
{
    let r = vec![x0, x1, x2, x3, x4, x5];
    assert(r@ =~= seq![x0, x1, x2, x3, x4, x5]);
    r
}

fn params_7(x0: ParameterInfo, x1: ParameterInfo, x2: ParameterInfo, x3: ParameterInfo, x4: ParameterInfo, x5: ParameterInfo, x6: ParameterInfo) -> (r: Vec<ParameterInfo>)
    ensures
        r@ == seq![x0, x1, x2, x3, x4, x5, x6],
{
    let r = vec![x0, x1, x2, x3, x4, x5, x6];
    assert(r@ =~= seq![x0, x1, x2, x3, x4, x5, x6]);
    r
}

fn params_8(x0: ParameterInfo, x1: ParameterInfo, x2: ParameterInfo, x3: ParameterInfo, x4: ParameterInfo, x5: ParameterInfo, x6: ParameterInfo, x7: ParameterInfo) -> (r: Vec<ParameterInfo>)
    ensures
        r@ == seq![x0, x1, x2, x3, x4, x5, x6, x7],
{
    let r = vec![x0, x1, x2, x3, x4, x5, x6, x7];
    assert(r@ =~= seq![x0, x1, x2, x3, x4, x5, x6, x7]);
    r
}

fn make(
    name: &str,
    norm_name: Option<&str>,
    parameters: Vec<ParameterInfo>,
    occurrence: Occurrence,
    allow_case: bool,
    def_plural_subindex: Option<usize>,
) -> (r: CommandInfo)
    ensures
        r@ == entry(
            name@,
            match norm_name {
                Some(n) => Some(n@),
                None => None,
            },
            parameters@,
            occurrence,
            allow_case,
            def_plural_subindex,
        ),
{
    let mut n = String::new();
    push_str(&mut n, name);
    let norm = match norm_name {
        Some(m) => {
            let mut s = String::new();
            push_str(&mut s, m);
            Some(s)
        },
        None => None,
    };
    let r = CommandInfo { name: n, norm_name: norm, parameters, occurrence, allow_case, def_plural_subindex };
    assert(r@.name =~= name@);
    r
}

impl CommandInfo {
    /// A copy of this entry.
    pub fn duplicate(&self) -> (r: CommandInfo)
        ensures
            r@ == self@,
    {
        let mut name = String::new();
        push_str(&mut name, self.name.as_str());
        let norm_name = match &self.norm_name {
            Some(n) => {
                let mut s = String::new();
                push_str(&mut s, n.as_str());
                Some(s)
            },
            None => None,
        };
        let mut parameters: Vec<ParameterInfo> = Vec::new();
        let mut i: usize = 0;
        while i < self.parameters.len()
            invariant
                i <= self.parameters@.len(),
                parameters@ == self.parameters@.take(i as int),
            decreases self.parameters@.len() - i,
        {
            parameters.push(self.parameters[i]);
            i = i + 1;
            assert(parameters@ =~= self.parameters@.take(i as int));
        }
        assert(self.parameters@.take(i as int) =~= self.parameters@);
        let r = CommandInfo {
            name,
            norm_name,
            parameters,
            occurrence: self.occurrence,
            allow_case: self.allow_case,
            def_plural_subindex: self.def_plural_subindex,
        };
        assert(r@.name =~= self@.name);
        r
    }

    /// The canonical name: the alias where there is one, else the name.
    pub fn get_norm_name(&self) -> (r: &String)
        ensures
            r@ == self@.norm(),
    {
        match &self.norm_name {
            Some(n) => n,
            None => &self.name,
        }
    }
}

/// Looks a command up by name in a dialect.
pub fn lookup(name: &str, dialect: Dialect) -> (r: Option<CommandInfo>)
    ensures
        info_view(r) == registry(name@, dialect),
{
    if same_text(name, "STRING") {
        Some(make("STRING", None, params_1(PI { allow_plural: false, allow_gender: true }), Occurrence::Exact, true, None))
    } else if same_text(name, "STRING1") {
        Some(make("STRING1", Some("STRING"), params_2(PI { allow_plural: false, allow_gender: true }, PI { allow_plural: true, allow_gender: true }), Occurrence::Exact, true, None))
    } else if same_text(name, "STRING2") {
        Some(make("STRING2", Some("STRING"), params_3(PI { allow_plural: false, allow_gender: true }, PI { allow_plural: true, allow_gender: true }, PI { allow_plural: true, allow_gender: true }), Occurrence::Exact, true, None))
    } else if same_text(name, "STRING3") {
        Some(make("STRING3", Some("STRING"), params_4(PI { allow_plural: false, allow_gender: true }, PI { allow_plural: true, allow_gender: true }, PI { allow_plural: true, allow_gender: true }, PI { allow_plural: true, allow_gender: true }), Occurrence::Exact, true, None))
    } else if same_text(name, "STRING4") {
        Some(make("STRING4", Some("STRING"), params_5(PI { allow_plural: false, allow_gender: true }, PI { allow_plural: true, allow_gender: true }, PI { allow_plural: true, allow_gender: true }, PI { allow_plural: true, allow_gender: true }, PI { allow_plural: true, allow_gender: true }), Occurrence::Exact, true, None))
    } else if same_text(name, "STRING5") {
        Some(make("STRING5", Some("STRING"), params_6(PI { allow_plural: false, allow_gender: true }, PI { allow_plural: true, allow_gender: true }, PI { allow_plural: true, allow_gender: true }, PI { allow_plural: true, allow_gender: true }, PI { allow_plural: true, allow_gender: true }, PI { allow_plural: true, allow_gender: true }), Occurrence::Exact, true, None))
    } else if same_text(name, "STRING6") {
        Some(make("STRING6", Some("STRING"), params_7(PI { allow_plural: false, allow_gender: true }, PI { allow_plural: true, allow_gender: true }, PI { allow_plural: true, allow_gender: true }, PI { allow_plural: true, allow_gender: true }, PI { allow_plural: true, allow_gender: true }, PI { allow_plural: true, allow_gender: true }, PI { allow_plural: true, allow_gender: true }), Occurrence::Exact, true, None))
    } else if same_text(name, "STRING7") {
        Some(make("STRING7", Some("STRING"), params_8(PI { allow_plural: false, allow_gender: true }, PI { allow_plural: true, allow_gender: true }, PI { allow_plural: true, allow_gender: true }, PI { allow_plural: true, allow_gender: true }, PI { allow_plural: true, allow_gender: true }, PI { allow_plural: true, allow_gender: true }, PI { allow_plural: true, allow_gender: true }, PI { allow_plural: true, allow_gender: true }), Occurrence::Exact, true, None))
    } else if same_text(name, "RAW_STRING") {
        if dialect == Dialect::OpenTtd { Some(make("RAW_STRING", Some("STRING"), params_1(PI { allow_plural: false, allow_gender: true }), Occurrence::Exact, false, None)) } else { None }
    } else if same_text(name, "NUM") {
        Some(make("NUM", None, params_1(PI { allow_plural: true, allow_gender: false }), Occurrence::Exact, false, None))
    } else {
        lookup_1(name, dialect)
    }
}

fn lookup_1(name: &str, dialect: Dialect) -> (r: Option<CommandInfo>)
    ensures
        info_view(r) == registry_1(name@, dialect),
{
    if same_text(name, "COMMA") {
        Some(make("COMMA", None, params_1(PI { allow_plural: true, allow_gender: false }), Occurrence::Exact, false, None))
    } else if same_text(name, "BYTES") {
        Some(make("BYTES", None, params_1(PI { allow_plural: true, allow_gender: false }), Occurrence::Exact, false, None))
    } else if same_text(name, "HEX") {
        Some(make("HEX", None, params_1(PI { allow_plural: true, allow_gender: false }), Occurrence::Exact, false, None))
    } else if same_text(name, "CURRENCY_LONG") {
        Some(make("CURRENCY_LONG", None, params_1(PI { allow_plural: true, allow_gender: false }), Occurrence::Exact, false, None))
    } else if same_text(name, "CURRENCY_SHORT") {
        Some(make("CURRENCY_SHORT", None, params_1(PI { allow_plural: true, allow_gender: false }), Occurrence::Exact, false, None))
    } else if same_text(name, "POWER") {
        Some(make("POWER", None, params_1(PI { allow_plural: true, allow_gender: false }), Occurrence::Exact, false, None))
    } else if same_text(name, "POWER_TO_WEIGHT") {
        Some(make("POWER_TO_WEIGHT", None, params_1(PI { allow_plural: true, allow_gender: false }), Occurrence::Exact, false, None))
    } else if same_text(name, "VOLUME_LONG") {
        Some(make("VOLUME_LONG", None, params_1(PI { allow_plural: true, allow_gender: false }), Occurrence::Exact, false, None))
    } else if same_text(name, "VOLUME_SHORT") {
        Some(make("VOLUME_SHORT", None, params_1(PI { allow_plural: true, allow_gender: false }), Occurrence::Exact, false, None))
    } else if same_text(name, "WEIGHT_LONG") {
        Some(make("WEIGHT_LONG", None, params_1(PI { allow_plural: true, allow_gender: false }), Occurrence::Exact, false, None))
    } else {
        lookup_2(name, dialect)
    }
}

fn lookup_2(name: &str, dialect: Dialect) -> (r: Option<CommandInfo>)
    ensures
        info_view(r) == registry_2(name@, dialect),
{
    if same_text(name, "WEIGHT_SHORT") {
        Some(make("WEIGHT_SHORT", None, params_1(PI { allow_plural: true, allow_gender: false }), Occurrence::Exact, false, None))
    } else if same_text(name, "FORCE") {
        Some(make("FORCE", None, params_1(PI { allow_plural: true, allow_gender: false }), Occurrence::Exact, false, None))
    } else if same_text(name, "VELOCITY") {
        Some(make("VELOCITY", None, params_1(PI { allow_plural: true, allow_gender: false }), Occurrence::Exact, false, None))
    } else if same_text(name, "HEIGHT") {
        Some(make("HEIGHT", None, params_1(PI { allow_plural: true, allow_gender: false }), Occurrence::Exact, false, None))
    } else if same_text(name, "DECIMAL") {
        Some(make("DECIMAL", None, params_2(PI { allow_plural: true, allow_gender: false }, PI { allow_plural: false, allow_gender: false }), Occurrence::Exact, false, None))
    } else if same_text(name, "ZEROFILL_NUM") {
        Some(make("ZEROFILL_NUM", None, params_2(PI { allow_plural: true, allow_gender: false }, PI { allow_plural: false, allow_gender: false }), Occurrence::Exact, false, None))
    } else if same_text(name, "CARGO_LONG") {
        Some(make("CARGO_LONG", None, params_2(PI { allow_plural: false, allow_gender: true }, PI { allow_plural: true, allow_gender: false }), Occurrence::Exact, false, Some(1)))
    } else if same_text(name, "CARGO_SHORT") {
        Some(make("CARGO_SHORT", None, params_2(PI { allow_plural: false, allow_gender: false }, PI { allow_plural: true, allow_gender: false }), Occurrence::Exact, false, Some(1)))
    } else if same_text(name, "CARGO_TINY") {
        Some(make("CARGO_TINY", None, params_2(PI { allow_plural: false, allow_gender: false }, PI { allow_plural: true, allow_gender: false }), Occurrence::Exact, false, Some(1)))
    } else if same_text(name, "CARGO_LIST") {
        Some(make("CARGO_LIST", None, params_1(PI { allow_plural: false, allow_gender: false }), Occurrence::Exact, true, None))
    } else {
        lookup_3(name, dialect)
    }
}

fn lookup_3(name: &str, dialect: Dialect) -> (r: Option<CommandInfo>)
    ensures
        info_view(r) == registry_3(name@, dialect),
{
    if same_text(name, "DATE_TINY") {
        Some(make("DATE_TINY", None, params_1(PI { allow_plural: false, allow_gender: false }), Occurrence::Exact, false, None))
    } else if same_text(name, "DATE_SHORT") {
        Some(make("DATE_SHORT", None, params_1(PI { allow_plural: false, allow_gender: false }), Occurrence::Exact, true, None))
    } else if same_text(name, "DATE_LONG") {
        Some(make("DATE_LONG", None, params_1(PI { allow_plural: false, allow_gender: false }), Occurrence::Exact, true, None))
    } else if same_text(name, "DATE_ISO") {
        Some(make("DATE_ISO", None, params_1(PI { allow_plural: false, allow_gender: false }), Occurrence::Exact, false, None))
    } else if same_text(name, "INDUSTRY") {
        Some(make("INDUSTRY", None, params_1(PI { allow_plural: false, allow_gender: true }), Occurrence::Exact, true, None))
    } else if same_text(name, "ENGINE") {
        Some(make("ENGINE", None, params_1(PI { allow_plural: false, allow_gender: true }), Occurrence::Exact, true, None))
    } else if same_text(name, "TOWN") {
        Some(make("TOWN", None, params_1(PI { allow_plural: false, allow_gender: false }), Occurrence::Exact, false, None))
    } else if same_text(name, "COMPANY") {
        Some(make("COMPANY", None, params_1(PI { allow_plural: false, allow_gender: false }), Occurrence::Exact, false, None))
    } else if same_text(name, "COMPANY_NUM") {
        Some(make("COMPANY_NUM", None, params_1(PI { allow_plural: false, allow_gender: false }), Occurrence::Exact, false, None))
    } else if same_text(name, "PRESIDENT_NAME") {
        Some(make("PRESIDENT_NAME", None, params_1(PI { allow_plural: false, allow_gender: false }), Occurrence::Exact, false, None))
    } else {
        lookup_4(name, dialect)
    }
}

fn lookup_4(name: &str, dialect: Dialect) -> (r: Option<CommandInfo>)
    ensures
        info_view(r) == registry_4(name@, dialect),
{
    if same_text(name, "VEHICLE") {
        Some(make("VEHICLE", None, params_1(PI { allow_plural: false, allow_gender: false }), Occurrence::Exact, false, None))
    } else if same_text(name, "SIGN") {
        Some(make("SIGN", None, params_1(PI { allow_plural: false, allow_gender: false }), Occurrence::Exact, false, None))
    } else if same_text(name, "STATION") {
        Some(make("STATION", None, params_1(PI { allow_plural: false, allow_gender: false }), Occurrence::Exact, false, None))
    } else if same_text(name, "WAYPOINT") {
        Some(make("WAYPOINT", None, params_1(PI { allow_plural: false, allow_gender: false }), Occurrence::Exact, false, None))
    } else if same_text(name, "GROUP") {
        Some(make("GROUP", None, params_1(PI { allow_plural: false, allow_gender: false }), Occurrence::Exact, false, None))
    } else if same_text(name, "STATION_FEATURES") {
        Some(make("STATION_FEATURES", None, params_1(PI { allow_plural: false, allow_gender: false }), Occurrence::Exact, false, None))
    } else if same_text(name, "COLOUR") {
        Some(make("COLOUR", None, params_1(PI { allow_plural: false, allow_gender: false }), Occurrence::Exact, false, None))
    } else if same_text(name, "DEPOT") {
        Some(make("DEPOT", None, params_2(PI { allow_plural: false, allow_gender: false }, PI { allow_plural: false, allow_gender: false }), Occurrence::Exact, false, None))
    } else if same_text(name, "") {
        Some(make("", None, params_0(), Occurrence::Any, false, None))
    } else if same_text(name, "{") {
        Some(make("{", None, params_0(), Occurrence::Any, false, None))
    } else {
        lookup_5(name, dialect)
    }
}

fn lookup_5(name: &str, dialect: Dialect) -> (r: Option<CommandInfo>)
    ensures
        info_view(r) == registry_5(name@, dialect),
{
    if same_text(name, "NORMAL_FONT") {
        Some(make("NORMAL_FONT", None, params_0(), Occurrence::Exact, false, None))
    } else if same_text(name, "TINY_FONT") {
        Some(make("TINY_FONT", None, params_0(), Occurrence::Exact, false, None))
    } else if same_text(name, "BIG_FONT") {
        Some(make("BIG_FONT", None, params_0(), Occurrence::Exact, false, None))
    } else if same_text(name, "MONO_FONT") {
        Some(make("MONO_FONT", None, params_0(), Occurrence::Exact, false, None))
    } else if same_text(name, "PUSH_COLOUR") {
        Some(make("PUSH_COLOUR", None, params_0(), Occurrence::Exact, false, None))
    } else if same_text(name, "POP_COLOUR") {
        Some(make("POP_COLOUR", None, params_0(), Occurrence::Exact, false, None))
    } else if same_text(name, "TRAIN") {
        Some(make("TRAIN", None, params_0(), Occurrence::Exact, false, None))
    } else if same_text(name, "LORRY") {
        Some(make("LORRY", None, params_0(), Occurrence::Exact, false, None))
    } else if same_text(name, "BUS") {
        Some(make("BUS", None, params_0(), Occurrence::Exact, false, None))
    } else if same_text(name, "PLANE") {
        Some(make("PLANE", None, params_0(), Occurrence::Exact, false, None))
    } else {
        lookup_6(name, dialect)
    }
}

fn lookup_6(name: &str, dialect: Dialect) -> (r: Option<CommandInfo>)
    ensures
        info_view(r) == registry_6(name@, dialect),
{
    if same_text(name, "SHIP") {
        Some(make("SHIP", None, params_0(), Occurrence::Exact, false, None))
    } else if same_text(name, "BLUE") {
        Some(make("BLUE", None, params_0(), Occurrence::NonZero, false, None))
    } else if same_text(name, "SILVER") {
        Some(make("SILVER", None, params_0(), Occurrence::NonZero, false, None))
    } else if same_text(name, "GOLD") {
        Some(make("GOLD", None, params_0(), Occurrence::NonZero, false, None))
    } else if same_text(name, "RED") {
        Some(make("RED", None, params_0(), Occurrence::NonZero, false, None))
    } else if same_text(name, "PURPLE") {
        Some(make("PURPLE", None, params_0(), Occurrence::NonZero, false, None))
    } else if same_text(name, "LTBROWN") {
        Some(make("LTBROWN", None, params_0(), Occurrence::NonZero, false, None))
    } else if same_text(name, "ORANGE") {
        Some(make("ORANGE", None, params_0(), Occurrence::NonZero, false, None))
    } else if same_text(name, "GREEN") {
        Some(make("GREEN", None, params_0(), Occurrence::NonZero, false, None))
    } else if same_text(name, "YELLOW") {
        Some(make("YELLOW", None, params_0(), Occurrence::NonZero, false, None))
    } else {
        lookup_7(name, dialect)
    }
}

fn lookup_7(name: &str, dialect: Dialect) -> (r: Option<CommandInfo>)
    ensures
        info_view(r) == registry_7(name@, dialect),
{
    if same_text(name, "DKGREEN") {
        Some(make("DKGREEN", None, params_0(), Occurrence::NonZero, false, None))
    } else if same_text(name, "CREAM") {
        Some(make("CREAM", None, params_0(), Occurrence::NonZero, false, None))
    } else if same_text(name, "BROWN") {
        Some(make("BROWN", None, params_0(), Occurrence::NonZero, false, None))
    } else if same_text(name, "WHITE") {
        Some(make("WHITE", None, params_0(), Occurrence::NonZero, false, None))
    } else if same_text(name, "LTBLUE") {
        Some(make("LTBLUE", None, params_0(), Occurrence::NonZero, false, None))
    } else if same_text(name, "GRAY") {
        Some(make("GRAY", None, params_0(), Occurrence::NonZero, false, None))
    } else if same_text(name, "DKBLUE") {
        Some(make("DKBLUE", None, params_0(), Occurrence::NonZero, false, None))
    } else if same_text(name, "BLACK") {
        Some(make("BLACK", None, params_0(), Occurrence::NonZero, false, None))
    } else if same_text(name, "NBSP") {
        Some(make("NBSP", None, params_0(), Occurrence::Any, false, None))
    } else if same_text(name, "COPYRIGHT") {
        Some(make("COPYRIGHT", None, params_0(), Occurrence::Any, false, None))
    } else {
        lookup_8(name, dialect)
    }
}

fn lookup_8(name: &str, dialect: Dialect) -> (r: Option<CommandInfo>)
    ensures
        info_view(r) == registry_8(name@, dialect),
{
    if same_text(name, "REV") {
        Some(make("REV", None, params_0(), Occurrence::Any, false, None))
    } else if same_text(name, "UP_ARROW") {
        Some(make("UP_ARROW", None, params_0(), Occurrence::Any, false, None))
    } else if same_text(name, "DOWN_ARROW") {
        Some(make("DOWN_ARROW", None, params_0(), Occurrence::Any, false, None))
    } else if same_text(name, "RIGHT_ARROW") {
        Some(make("RIGHT_ARROW", None, params_0(), Occurrence::Any, false, None))
    } else if same_text(name, "SMALL_UP_ARROW") {
        Some(make("SMALL_UP_ARROW", None, params_0(), Occurrence::Any, false, None))
    } else if same_text(name, "SMALL_DOWN_ARROW") {
        Some(make("SMALL_DOWN_ARROW", None, params_0(), Occurrence::Any, false, None))
    } else if same_text(name, "SMALL_LEFT_ARROW") {
        Some(make("SMALL_LEFT_ARROW", None, params_0(), Occurrence::Any, false, None))
    } else if same_text(name, "SMALL_RIGHT_ARROW") {
        Some(make("SMALL_RIGHT_ARROW", None, params_0(), Occurrence::Any, false, None))
    } else if same_text(name, "CHECKMARK") {
        Some(make("CHECKMARK", None, params_0(), Occurrence::Any, false, None))
    } else if same_text(name, "CROSS") {
        Some(make("CROSS", None, params_0(), Occurrence::Any, false, None))
    } else {
        None
    }
}

} // verus!
