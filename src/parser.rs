//! The parsed form of a string: text runs and `{...}` directives, each with
//! its span of character positions, and the rendering back to text.
use vstd::prelude::*;
use crate::text::{
    ascii_space, chars_of, decimal, is_ascii_space, push_char, push_chars, push_decimal, push_str,
    string_of,
};
use crate::grammar::{
    choice_view, cmd_view, find_char, lemma_span_bound, other_than, parse_choice, parse_command, parse_gender,
    scan_choice, scan_command, scan_gender, span,
};

verus! {

/// `{index:NAME.case}`: a parameter, a formatting code, or a line marker.
#[derive(Debug, PartialEq)]
pub struct StringCommand {
    pub index: Option<usize>,
    pub name: String,
    pub case: Option<String>,
}

/// `{G=gender}`: the grammatical gender of the whole string.
#[derive(Debug, PartialEq)]
pub struct GenderDefinition {
    pub gender: String,
}

/// `{P 1:2 a b}` / `{G a b}`: a choice driven by a plural count or a gender.
#[derive(Debug, PartialEq)]
pub struct ChoiceList {
    pub name: String,
    pub indexref: Option<usize>,
    pub indexsubref: Option<usize>,
    pub choices: Vec<String>,
}

#[derive(Debug, PartialEq)]
pub enum FragmentContent {
    Text(String),
    Command(StringCommand),
    Gender(GenderDefinition),
    Choice(ChoiceList),
}

/// A fragment with its half-open span `[pos_begin, pos_end)` of character
/// positions in the text it was parsed from.
#[derive(Debug, PartialEq)]
pub struct StringFragment {
    pub pos_begin: usize,
    pub pos_end: usize,
    pub content: FragmentContent,
}

#[derive(Debug, PartialEq)]
pub struct ParsedString {
    pub fragments: Vec<StringFragment>,
}

/// Why a text could not be parsed, with the span it concerns.
#[derive(Debug, PartialEq)]
pub struct ParseError {
    pub pos_begin: usize,
    pub pos_end: Option<usize>,
    pub message: String,
}

pub struct CommandV {
    pub index: Option<usize>,
    pub name: Seq<char>,
    pub case: Option<Seq<char>>,
}

pub struct ChoiceV {
    pub name: Seq<char>,
    pub indexref: Option<usize>,
    pub indexsubref: Option<usize>,
    pub choices: Seq<Seq<char>>,
}

pub enum ContentV {
    Text(Seq<char>),
    Command(CommandV),
    Gender(Seq<char>),
    Choice(ChoiceV),
}

pub struct FragmentV {
    pub pos_begin: int,
    pub pos_end: int,
    pub content: ContentV,
}

pub struct ParseErrorV {
    pub pos_begin: int,
    pub pos_end: Option<int>,
    pub message: Seq<char>,
}

pub open spec fn opt_view(o: Option<String>) -> Option<Seq<char>> {
    match o {
        Some(s) => Some(s@),
        None => None,
    }
}

impl View for StringCommand {
    type V = CommandV;

    open spec fn view(&self) -> CommandV {
        CommandV { index: self.index, name: self.name@, case: opt_view(self.case) }
    }
}

impl View for ChoiceList {
    type V = ChoiceV;

    open spec fn view(&self) -> ChoiceV {
        ChoiceV {
            name: self.name@,
            indexref: self.indexref,
            indexsubref: self.indexsubref,
            choices: self.choices@.map_values(|c: String| c@),
        }
    }
}

impl View for FragmentContent {
    type V = ContentV;

    open spec fn view(&self) -> ContentV {
        match self {
            FragmentContent::Text(t) => ContentV::Text(t@),
            FragmentContent::Command(c) => ContentV::Command(c@),
            FragmentContent::Gender(g) => ContentV::Gender(g.gender@),
            FragmentContent::Choice(c) => ContentV::Choice(c@),
        }
    }
}

impl View for StringFragment {
    type V = FragmentV;

    open spec fn view(&self) -> FragmentV {
        FragmentV {
            pos_begin: self.pos_begin as int,
            pos_end: self.pos_end as int,
            content: self.content@,
        }
    }
}

impl View for ParsedString {
    type V = Seq<FragmentV>;

    open spec fn view(&self) -> Seq<FragmentV> {
        self.fragments@.map_values(|f: StringFragment| f@)
    }
}

impl View for ParseError {
    type V = ParseErrorV;

    open spec fn view(&self) -> ParseErrorV {
        ParseErrorV {
            pos_begin: self.pos_begin as int,
            pos_end: match self.pos_end {
                Some(e) => Some(e as int),
                None => None,
            },
            message: self.message@,
        }
    }
}

// ---------------------------------------------------------------- rendering

pub open spec fn compile_command(c: CommandV) -> Seq<char> {
    seq!['{'] + match c.index {
        Some(i) => decimal(i as nat).push(':'),
        None => seq![],
    } + c.name + match c.case {
        Some(k) => seq!['.'] + k,
        None => seq![],
    } + seq!['}']
}

pub open spec fn compile_gender(g: Seq<char>) -> Seq<char> {
    seq!['{', 'G', '='] + g + seq!['}']
}

/// A choice is quoted when it is empty or holds ASCII whitespace.
pub open spec fn needs_quotes(c: Seq<char>) -> bool {
    c.len() == 0 || exists|i: int| 0 <= i < c.len() && is_ascii_space(#[trigger] c[i])
}

pub open spec fn compile_item(c: Seq<char>) -> Seq<char> {
    if needs_quotes(c) {
        seq![' ', '"'] + c + seq!['"']
    } else {
        seq![' '] + c
    }
}

pub open spec fn compile_items(cs: Seq<Seq<char>>) -> Seq<char>
    decreases cs.len(),
{
    if cs.len() == 0 {
        seq![]
    } else {
        compile_items(cs.drop_last()) + compile_item(cs.last())
    }
}

pub open spec fn compile_choice(c: ChoiceV) -> Seq<char> {
    seq!['{'] + c.name + match c.indexref {
        Some(i) => seq![' '] + decimal(i as nat) + match c.indexsubref {
            Some(s) => seq![':'] + decimal(s as nat),
            None => seq![],
        },
        None => seq![],
    } + compile_items(c.choices) + seq!['}']
}

pub open spec fn compile_content(c: ContentV) -> Seq<char> {
    match c {
        ContentV::Text(t) => t,
        ContentV::Command(c) => compile_command(c),
        ContentV::Gender(g) => compile_gender(g),
        ContentV::Choice(c) => compile_choice(c),
    }
}

pub open spec fn compile_all(fs: Seq<FragmentV>) -> Seq<char>
    decreases fs.len(),
{
    if fs.len() == 0 {
        seq![]
    } else {
        compile_all(fs.drop_last()) + compile_content(fs.last().content)
    }
}

fn push_opt_case(s: &mut String, case: &Option<String>)
    ensures
        final(s)@ == old(s)@ + match opt_view(*case) {
            Some(k) => seq!['.'] + k,
            None => seq![],
        },
{
    match case {
        Some(k) => {
            push_char(s, '.');
            let kc = chars_of(k.as_str());
            push_chars(s, kc.as_slice());
            assert(s@ =~= old(s)@ + (seq!['.'] + k@));
        },
        None => {
            assert(s@ =~= old(s)@ + Seq::<char>::empty());
        },
    }
}

impl StringCommand {
    pub fn compile(&self) -> (r: String)
        ensures
            r@ == compile_command(self@),
    {
        let mut r = String::new();
        push_char(&mut r, '{');
        if let Some(i) = self.index {
            push_decimal(&mut r, i);
            push_char(&mut r, ':');
        }
        push_str(&mut r, self.name.as_str());
        push_opt_case(&mut r, &self.case);
        push_char(&mut r, '}');
        assert(r@ =~= compile_command(self@));
        r
    }
}

impl GenderDefinition {
    pub fn compile(&self) -> (r: String)
        ensures
            r@ == compile_gender(self.gender@),
    {
        let mut r = String::new();
        push_char(&mut r, '{');
        push_char(&mut r, 'G');
        push_char(&mut r, '=');
        push_str(&mut r, self.gender.as_str());
        push_char(&mut r, '}');
        assert(r@ =~= compile_gender(self.gender@));
        r
    }
}

fn quoting_needed(c: &String) -> (r: bool)
    ensures
        r == needs_quotes(c@),
{
    let cs = chars_of(c.as_str());
    let mut i: usize = 0;
    while i < cs.len()
        invariant
            cs@ == c@,
            i <= cs@.len(),
            forall|j: int| 0 <= j < i ==> !is_ascii_space(#[trigger] cs@[j]),
        decreases cs@.len() - i,
    {
        if ascii_space(cs[i]) {
            return true;
        }
        i = i + 1;
    }
    cs.len() == 0
}

impl ChoiceList {
    pub fn compile(&self) -> (r: String)
        ensures
            r@ == compile_choice(self@),
    {
        let mut r = String::new();
        push_char(&mut r, '{');
        push_str(&mut r, self.name.as_str());
        if let Some(i) = self.indexref {
            push_char(&mut r, ' ');
            push_decimal(&mut r, i);
            if let Some(s) = self.indexsubref {
                push_char(&mut r, ':');
                push_decimal(&mut r, s);
            }
        }
        let ghost head = r@;
        let ghost cv = self@.choices;
        let mut k: usize = 0;
        while k < self.choices.len()
            invariant
                k <= self.choices@.len(),
                cv == self.choices@.map_values(|c: String| c@),
                r@ == head + compile_items(cv.subrange(0, k as int)),
            decreases self.choices@.len() - k,
        {
            let c = &self.choices[k];
            if quoting_needed(c) {
                push_char(&mut r, ' ');
                push_char(&mut r, '"');
                push_str(&mut r, c.as_str());
                push_char(&mut r, '"');
            } else {
                push_char(&mut r, ' ');
                push_str(&mut r, c.as_str());
            }
            assert(cv.subrange(0, k + 1).drop_last() =~= cv.subrange(0, k as int));
            k = k + 1;
            assert(r@ =~= head + compile_items(cv.subrange(0, k as int)));
        }
        assert(cv.subrange(0, k as int) =~= cv);
        push_char(&mut r, '}');
        assert(r@ =~= compile_choice(self@));
        r
    }
}

impl FragmentContent {
    pub fn compile(&self) -> (r: String)
        ensures
            r@ == compile_content(self@),
    {
        match self {
            FragmentContent::Text(t) => t.clone(),
            FragmentContent::Command(c) => c.compile(),
            FragmentContent::Gender(g) => g.compile(),
            FragmentContent::Choice(c) => c.compile(),
        }
    }
}

impl ParsedString {
    /// The text of all fragments, one after the other.
    pub fn compile(&self) -> (r: String)
        ensures
            r@ == compile_all(self@),
    {
        let mut r = String::new();
        let mut i: usize = 0;
        while i < self.fragments.len()
            invariant
                i <= self.fragments@.len(),
                r@ == compile_all(self@.subrange(0, i as int)),
            decreases self.fragments@.len() - i,
        {
            let piece = self.fragments[i].content.compile();
            push_str(&mut r, piece.as_str());
            assert(self@.subrange(0, i + 1).drop_last() =~= self@.subrange(0, i as int));
            i = i + 1;
        }
        assert(self@.subrange(0, i as int) =~= self@);
        r
    }
}

// ------------------------------------------------------------------ parsing

/// What a whole directive `{...}` reads as, trying the command grammar, then
/// the gender grammar, then the choice-list grammar.
pub open spec fn parse_directive(d: Seq<char>) -> Option<ContentV> {
    if d.len() >= 2 && d[0] == '{' && d.last() == '}' {
        let b = d.subrange(1, d.len() - 1);
        match parse_command(b) {
            Some(c) => Some(ContentV::Command(c)),
            None => match parse_gender(b) {
                Some(g) => Some(ContentV::Gender(g)),
                None => match parse_choice(b) {
                    Some(c) => Some(ContentV::Choice(c)),
                    None => None,
                },
            },
        }
    } else {
        None
    }
}

/// The text between the braces of a directive `{...}`.
pub open spec fn inner(d: Seq<char>) -> Option<Seq<char>> {
    if d.len() >= 2 && d[0] == '{' && d.last() == '}' {
        Some(d.subrange(1, d.len() - 1))
    } else {
        None
    }
}

/// The range of the text between the braces, where `cs` is a directive.
fn inner_range(cs: &Vec<char>) -> (r: Option<usize>)
    ensures
        match r {
            Some(e) => e + 1 == cs@.len() && inner(cs@) == Some(cs@.subrange(1, e as int)),
            None => inner(cs@) is None,
        },
{
    let n = cs.len();
    if n >= 2 && cs[0] == '{' && cs[n - 1] == '}' {
        Some(n - 1)
    } else {
        None
    }
}

impl StringCommand {
    /// Reads `{index:NAME.case}`.
    pub fn parse(string: &str) -> (r: Option<StringCommand>)
        ensures
            cmd_view(r) == match inner(string@) {
                Some(b) => parse_command(b),
                None => None,
            },
    {
        let cs = chars_of(string);
        match inner_range(&cs) {
            Some(e) => scan_command(&cs, 1, e),
            None => None,
        }
    }
}

impl GenderDefinition {
    /// Reads `{G=gender}`.
    pub fn parse(string: &str) -> (r: Option<GenderDefinition>)
        ensures
            match r {
                Some(g) => inner(string@) matches Some(b) && parse_gender(b) == Some(g.gender@),
                None => inner(string@) matches Some(b) ==> parse_gender(b) is None,
            },
    {
        let cs = chars_of(string);
        match inner_range(&cs) {
            Some(e) => match scan_gender(&cs, 1, e) {
                Some(g) => Some(GenderDefinition { gender: g }),
                None => None,
            },
            None => None,
        }
    }
}

impl ChoiceList {
    /// Reads `{P 1:2 a b}` or `{G a b}`.
    pub fn parse(string: &str) -> (r: Option<ChoiceList>)
        ensures
            choice_view(r) == match inner(string@) {
                Some(b) => parse_choice(b),
                None => None,
            },
    {
        let cs = chars_of(string);
        match inner_range(&cs) {
            Some(e) => scan_choice(&cs, 1, e),
            None => None,
        }
    }
}

pub open spec fn invalid_message(d: Seq<char>) -> Seq<char> {
    "Invalid string command: '"@ + d + "'"@
}

pub open spec fn unterminated_message() -> Seq<char> {
    "Unterminated string command, '}' expected."@
}

/// The fragments of `s` from position `i` on: a run of text up to the next
/// `{`, or a directive from `{` up to the next `}`.
pub open spec fn parse_from(s: Seq<char>, i: int) -> Result<Seq<FragmentV>, ParseErrorV>
    decreases s.len() - i,
{
    if i < 0 || i >= s.len() {
        Ok(seq![])
    } else if s[i] != '{' {
        let n = span(s.skip(i), other_than('{')) as int;
        proof {
            lemma_span_bound(s.skip(i), other_than('{'));
        }
        let f = FragmentV { pos_begin: i, pos_end: i + n, content: ContentV::Text(s.subrange(i, i + n)) };
        match parse_from(s, i + n) {
            Ok(r) => Ok(seq![f] + r),
            Err(e) => Err(e),
        }
    } else {
        let m = span(s.skip(i), other_than('}')) as int;
        if i + m >= s.len() {
            Err(ParseErrorV { pos_begin: i, pos_end: Some(s.len() as int), message: unterminated_message() })
        } else {
            let d = s.subrange(i, i + m + 1);
            match parse_directive(d) {
                None => Err(
                    ParseErrorV { pos_begin: i, pos_end: Some(i + m + 1), message: invalid_message(d) },
                ),
                Some(c) => {
                    let f = FragmentV { pos_begin: i, pos_end: i + m + 1, content: c };
                    match parse_from(s, i + m + 1) {
                        Ok(r) => Ok(seq![f] + r),
                        Err(e) => Err(e),
                    }
                },
            }
        }
    }
}

/// The parsed form of a whole text.
pub open spec fn parse_text(s: Seq<char>) -> Result<Seq<FragmentV>, ParseErrorV> {
    parse_from(s, 0)
}

/// The spans of `fs` are non-empty, follow each other without gap or
/// overlap, and together cover `[from, to)`.
pub open spec fn spans_cover(fs: Seq<FragmentV>, from: int, to: int) -> bool {
    if fs.len() == 0 {
        from == to
    } else {
        &&& fs[0].pos_begin == from
        &&& fs.last().pos_end == to
        &&& forall|i: int| 0 <= i < fs.len() ==> #[trigger] fs[i].pos_begin < fs[i].pos_end
        &&& forall|i: int| 0 <= i < fs.len() - 1 ==> #[trigger] fs[i].pos_end == fs[i + 1].pos_begin
    }
}

proof fn lemma_spans_cons(f: FragmentV, r: Seq<FragmentV>, to: int)
    requires
        f.pos_begin < f.pos_end,
        spans_cover(r, f.pos_end, to),
    ensures
        spans_cover(seq![f] + r, f.pos_begin, to),
{
    let fs = seq![f] + r;
    assert forall|i: int| 0 <= i < fs.len() implies #[trigger] fs[i].pos_begin < fs[i].pos_end by {
        if i > 0 {
            assert(fs[i] == r[i - 1]);
        }
    }
    assert forall|i: int| 0 <= i < fs.len() - 1 implies #[trigger] fs[i].pos_end == fs[i
        + 1].pos_begin by {
        if i > 0 {
            assert(fs[i] == r[i - 1]);
            assert(fs[i + 1] == r[i]);
        }
    }
    if r.len() > 0 {
        assert(fs.last() == r.last());
    }
}

/// Whatever parsing finds from position `i` on covers the rest of the text.
pub proof fn lemma_parse_spans(s: Seq<char>, i: int)
    requires
        0 <= i <= s.len(),
    ensures
        parse_from(s, i) matches Ok(fs) ==> spans_cover(fs, i, s.len() as int),
    decreases s.len() - i,
{
    if i < s.len() {
        lemma_span_bound(s.skip(i), other_than('{'));
        lemma_span_bound(s.skip(i), other_than('}'));
        if s[i] != '{' {
            let n = span(s.skip(i), other_than('{')) as int;
            lemma_parse_spans(s, i + n);
            if let Ok(r) = parse_from(s, i + n) {
                let f = FragmentV {
                    pos_begin: i,
                    pos_end: i + n,
                    content: ContentV::Text(s.subrange(i, i + n)),
                };
                lemma_spans_cons(f, r, s.len() as int);
            }
        } else {
            let m = span(s.skip(i), other_than('}')) as int;
            if i + m < s.len() {
                lemma_parse_spans(s, i + m + 1);
                let d = s.subrange(i, i + m + 1);
                if let (Some(c), Ok(r)) = (parse_directive(d), parse_from(s, i + m + 1)) {
                    let f = FragmentV { pos_begin: i, pos_end: i + m + 1, content: c };
                    lemma_spans_cons(f, r, s.len() as int);
                }
            }
        }
    }
}

pub open spec fn prepend(
    fs: Seq<FragmentV>,
    r: Result<Seq<FragmentV>, ParseErrorV>,
) -> Result<Seq<FragmentV>, ParseErrorV> {
    match r {
        Ok(t) => Ok(fs + t),
        Err(e) => Err(e),
    }
}

pub open spec fn content_view(o: Option<FragmentContent>) -> Option<ContentV> {
    match o {
        Some(c) => Some(c@),
        None => None,
    }
}

impl FragmentContent {
    /// Reads the directive in `[lo, hi)`.
    pub fn scan(cs: &Vec<char>, lo: usize, hi: usize) -> (r: Option<FragmentContent>)
        requires
            lo <= hi <= cs@.len(),
        ensures
            content_view(r) == parse_directive(cs@.subrange(lo as int, hi as int)),
    {
        let ghost d = cs@.subrange(lo as int, hi as int);
        if hi - lo < 2 || cs[lo] != '{' || cs[hi - 1] != '}' {
            return None;
        }
        assert(d.subrange(1, d.len() - 1) =~= cs@.subrange(lo + 1, hi - 1));
        if let Some(c) = scan_command(cs, lo + 1, hi - 1) {
            return Some(FragmentContent::Command(c));
        }
        if let Some(g) = scan_gender(cs, lo + 1, hi - 1) {
            return Some(FragmentContent::Gender(GenderDefinition { gender: g }));
        }
        if let Some(c) = scan_choice(cs, lo + 1, hi - 1) {
            return Some(FragmentContent::Choice(c));
        }
        None
    }

    /// Reads one whole directive `{...}`.
    pub fn parse(string: &str) -> (r: Result<FragmentContent, String>)
        ensures
            match r {
                Ok(c) => parse_directive(string@) == Some(c@),
                Err(m) => parse_directive(string@) is None && m@ == invalid_message(string@),
            },
    {
        let cs = chars_of(string);
        assert(cs@.subrange(0, cs@.len() as int) =~= string@);
        match FragmentContent::scan(&cs, 0, cs.len()) {
            Some(c) => Ok(c),
            None => Err(invalid_message_of(&cs, 0, cs.len())),
        }
    }
}

fn invalid_message_of(cs: &Vec<char>, lo: usize, hi: usize) -> (r: String)
    requires
        lo <= hi <= cs@.len(),
    ensures
        r@ == invalid_message(cs@.subrange(lo as int, hi as int)),
{
    let mut m = String::new();
    push_str(&mut m, "Invalid string command: '");
    push_chars(&mut m, &cs.as_slice()[lo..hi]);
    push_str(&mut m, "'");
    assert(m@ =~= invalid_message(cs@.subrange(lo as int, hi as int)));
    m
}

impl ParsedString {
    /// Splits a text into text runs and directives.
    #[verifier::rlimit(30)]
    pub fn parse(string: &str) -> (r: Result<ParsedString, ParseError>)
        ensures
            match r {
                Ok(p) => parse_text(string@) == Ok::<Seq<FragmentV>, ParseErrorV>(p@)
                    && spans_cover(p@, 0, string@.len() as int),
                Err(e) => parse_text(string@) == Err::<Seq<FragmentV>, ParseErrorV>(e@),
            },
    {
        let cs = chars_of(string);
        let n = cs.len();
        let mut frags: Vec<StringFragment> = Vec::new();
        let mut i: usize = 0;
        while i < n
            invariant
                n == cs@.len(),
                cs@ == string@,
                i <= n,
                parse_text(cs@) == prepend(
                    frags@.map_values(|f: StringFragment| f@),
                    parse_from(cs@, i as int),
                ),
            decreases n - i,
        {
            let ghost before = frags@.map_values(|f: StringFragment| f@);
            assert(cs@.skip(i as int) =~= cs@.subrange(i as int, n as int));
            if cs[i] != '{' {
                let e = find_char(&cs, i, n, '{');
                let text = string_of(&cs.as_slice()[i..e]);
                frags.push(
                    StringFragment { pos_begin: i, pos_end: e, content: FragmentContent::Text(text) },
                );
                proof {
                    let now = frags@.map_values(|f: StringFragment| f@);
                    assert(now =~= before.push(now.last()));
                    match parse_from(cs@, e as int) {
                        Ok(r) => {
                            assert(before + (seq![now.last()] + r) =~= now + r);
                        },
                        Err(_) => {},
                    }
                }
                i = e;
            } else {
                let e = find_char(&cs, i, n, '}');
                if e >= n {
                    let mut m = String::new();
                    push_str(&mut m, "Unterminated string command, '}' expected.");
                    return Err(ParseError { pos_begin: i, pos_end: Some(n), message: m });
                }
                match FragmentContent::scan(&cs, i, e + 1) {
                    None => {
                        let m = invalid_message_of(&cs, i, e + 1);
                        return Err(ParseError { pos_begin: i, pos_end: Some(e + 1), message: m });
                    },
                    Some(c) => {
                        frags.push(StringFragment { pos_begin: i, pos_end: e + 1, content: c });
                        proof {
                            let now = frags@.map_values(|f: StringFragment| f@);
                            assert(now =~= before.push(now.last()));
                            match parse_from(cs@, e + 1) {
                                Ok(r) => {
                                    assert(before + (seq![now.last()] + r) =~= now + r);
                                },
                                Err(_) => {},
                            }
                        }
                        i = e + 1;
                    },
                }
            }
        }
        let r = ParsedString { fragments: frags };
        assert(r@ + Seq::<FragmentV>::empty() =~= r@);
        proof {
            lemma_parse_spans(cs@, 0);
        }
        Ok(r)
    }
}

} // verus!
