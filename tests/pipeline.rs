use string_validator::{
    ChoiceList, Dialect, FragmentContent, GenderDefinition, LanguageConfig, ParsedString, Severity,
    StringCommand, ValidationError, normalize_string, validate_base, validate_translation,
};

fn config(dialect: &str, cases: &[&str], genders: &[&str], plural_count: usize) -> LanguageConfig {
    LanguageConfig {
        dialect: String::from(dialect),
        cases: cases.iter().map(|c| String::from(*c)).collect(),
        genders: genders.iter().map(|g| String::from(*g)).collect(),
        plural_count,
    }
}

fn s(t: &str) -> String {
    String::from(t)
}

#[test]
fn explicit_index_equal_to_position_is_accepted() {
    let c = config("openttd", &[], &[], 2);
    let r = validate_translation(&c, &s("{NUM}"), &s("default"), &s("{0:NUM}"));
    assert!(r.errors.is_empty());
    assert_eq!(r.normalized, Some(s("{0:NUM}")));
}

#[test]
fn wrong_explicit_index_gives_two_errors() {
    let c = config("openttd", &[], &[], 2);
    let r = validate_translation(&c, &s("{NUM}"), &s("default"), &s("{1:NUM}"));
    assert_eq!(
        r.errors,
        vec![
            ValidationError {
                severity: Severity::Error,
                pos_begin: Some(0),
                pos_end: Some(7),
                message: s("There is no parameter in position 1, found '{NUM}'."),
                suggestion: None,
            },
            ValidationError {
                severity: Severity::Error,
                pos_begin: None,
                pos_end: None,
                message: s("String command '{0:NUM}' is missing."),
                suggestion: None,
            },
        ]
    );
    assert_eq!(r.normalized, None);
}

#[test]
fn raw_string_is_unknown_to_newgrf() {
    let c = config("newgrf", &[], &[], 2);
    let r = validate_base(&c, &s("{RAW_STRING}"));
    assert_eq!(
        r.errors,
        vec![ValidationError {
            severity: Severity::Error,
            pos_begin: Some(0),
            pos_end: Some(12),
            message: s("Unknown string command '{RAW_STRING}'."),
            suggestion: None,
        }]
    );
    assert_eq!(r.normalized, None);
    let r = validate_base(&config("openttd", &[], &[], 2), &s("{RAW_STRING}"));
    assert!(r.errors.is_empty());
    assert_eq!(r.normalized, Some(s("{0:STRING}")));
}

#[test]
fn gender_definition_order() {
    let c = config("openttd", &[], &["a", "b"], 2);
    let base = s("{BIG_FONT}foo{NUM}");
    let r = validate_translation(&c, &base, &s("default"), &s("{G=a}{G=a}{BIG_FONT}bar{NUM}"));
    assert_eq!(r.errors.len(), 1);
    assert_eq!(r.errors[0].severity, Severity::Warning);
    assert_eq!(r.errors[0].message, s("Duplicate gender definition."));
    assert_eq!(r.normalized, Some(s("{G=a}{G=a}{BIG_FONT}bar{0:NUM}")));
    let r = validate_translation(&c, &base, &s("default"), &s("x{G=a}{BIG_FONT}bar{NUM}"));
    assert_eq!(r.errors.len(), 1);
    assert_eq!(r.errors[0].severity, Severity::Warning);
    assert_eq!(r.errors[0].message, s("Gender definitions must be at the front."));
    assert_eq!(r.errors[0].pos_begin, Some(1));
    assert_eq!(r.errors[0].pos_end, Some(6));
}

#[test]
fn plural_choice_count() {
    let c = config("openttd", &[], &[], 2);
    let r = validate_translation(&c, &s("{NUM}"), &s("default"), &s("{NUM}{P a b c}"));
    assert_eq!(
        r.errors,
        vec![ValidationError {
            severity: Severity::Error,
            pos_begin: Some(5),
            pos_end: Some(14),
            message: s("Expected 2 plural choices, found 3."),
            suggestion: None,
        }]
    );
    let r = validate_translation(&c, &s("{NUM}"), &s("default"), &s("{NUM}{P a b}"));
    assert!(r.errors.is_empty());
    assert_eq!(r.normalized, Some(s("{0:NUM}{P 0 a b}")));
}

#[test]
fn nonpositional_warnings_keep_normalization() {
    let c = config("openttd", &[], &[], 0);
    let r = validate_translation(
        &c,
        &s("{RED}{NBSP}{}{GREEN}{NBSP}{}{RED}{TRAIN}"),
        &s("default"),
        &s("{RED}{}{RED}{TRAIN}{BLUE}{TRAIN}{RIGHT_ARROW}{SHIP}"),
    );
    let messages: Vec<&str> = r.errors.iter().map(|e| e.message.as_str()).collect();
    assert_eq!(
        messages,
        vec![
            "String command '{GREEN}' is missing.",
            "String command '{TRAIN}': expected 1 times, found 2 times.",
            "String command '{BLUE}' is unexpected.",
            "String command '{SHIP}' is unexpected.",
        ]
    );
    assert!(r.errors.iter().all(|e| e.severity == Severity::Warning));
    assert_eq!(
        r.normalized,
        Some(s("{RED}{}{RED}{TRAIN}{BLUE}{TRAIN}{RIGHT_ARROW}{SHIP}"))
    );
}

#[test]
fn normalizing_twice_changes_nothing() {
    let text = "{RED}{NBSP}{P a b}{2:RAW_STRING}{P 1 a b}{G 0:1 a b}{0:STRING5}{G 0 a b}{P 0:0 a b}{COMMA}{P a b}{G a b}{CARGO_LONG}{P 2:1 a b}";
    let mut once = ParsedString::parse(text).unwrap();
    normalize_string(&Dialect::OpenTtd, &mut once);
    let first = once.compile();
    normalize_string(&Dialect::OpenTtd, &mut once);
    assert_eq!(once.compile(), first);
    assert_eq!(
        first,
        "{RED}{NBSP}{P a b}{2:STRING}{P 1 a b}{G 0:1 a b}{0:STRING}{G 0 a b}{P 0 a b}{1:COMMA}{P 1 a b}{G 2 a b}{2:CARGO_LONG}{P 2 a b}"
    );
}

#[test]
fn canonical_text_round_trips() {
    let text = "{G=n}{ORANGE}OpenTTD {1:STRING.gen}{P 1:2 a \"b c\" \"\"}{{}{}x";
    let parsed = ParsedString::parse(text).unwrap();
    assert_eq!(parsed.compile(), text);
    assert_eq!(parsed.fragments.len(), 8);
    assert_eq!(parsed.fragments[4].pos_begin, 35);
    assert_eq!(parsed.fragments[4].pos_end, 53);
    assert_eq!(parsed.fragments[7].pos_begin, 58);
    assert_eq!(parsed.fragments[7].pos_end, 59);
}

#[test]
fn unterminated_directive() {
    let c = config("openttd", &[], &[], 2);
    let r = validate_base(&c, &s("ab{NUM"));
    assert_eq!(
        r.errors,
        vec![ValidationError {
            severity: Severity::Error,
            pos_begin: Some(2),
            pos_end: Some(6),
            message: s("Unterminated string command, '}' expected."),
            suggestion: None,
        }]
    );
    assert_eq!(r.normalized, None);
}

#[test]
fn invalid_directive() {
    let c = config("openttd", &[], &[], 2);
    let r = validate_base(&c, &s("x{1}y"));
    assert_eq!(
        r.errors,
        vec![ValidationError {
            severity: Severity::Error,
            pos_begin: Some(1),
            pos_end: Some(4),
            message: s("Invalid string command: '{1}'"),
            suggestion: None,
        }]
    );
}

#[test]
fn broken_base_is_not_blamed_on_translation() {
    let c = config("openttd", &[], &[], 2);
    for base in ["{NUM", "{FOOBAR}"] {
        let r = validate_translation(&c, &s(base), &s("default"), &s("{NUM}"));
        assert_eq!(
            r.errors,
            vec![ValidationError {
                severity: Severity::Error,
                pos_begin: None,
                pos_end: None,
                message: s("Base language text is invalid."),
                suggestion: Some(s("This is a bug; wait until it is fixed.")),
            }]
        );
    }
}

#[test]
fn translation_case_checks() {
    let gs = config("game-script", &["x"], &[], 2);
    let r = validate_translation(&gs, &s("{NUM}"), &s("x"), &s("{NUM}"));
    assert_eq!(r.errors.len(), 1);
    assert_eq!(r.errors[0].message, s("No cases allowed."));
    assert_eq!(r.errors[0].suggestion, None);
    let c = config("openttd", &["x", "y"], &[], 2);
    let r = validate_translation(&c, &s("{NUM}"), &s("z"), &s("{NUM}"));
    assert_eq!(r.errors.len(), 1);
    assert_eq!(r.errors[0].message, s("Unknown case 'z'."));
    assert_eq!(r.errors[0].suggestion, Some(s("Known cases are: 'x', 'y'")));
    let r = validate_translation(&c, &s("{NUM}"), &s("y"), &s("{NUM}"));
    assert!(r.errors.is_empty());
    assert_eq!(r.normalized, Some(s("{0:NUM}")));
}

#[test]
fn translation_parse_failure() {
    let c = config("openttd", &[], &[], 2);
    let r = validate_translation(&c, &s("{NUM}"), &s("default"), &s("{NUM}{"));
    assert_eq!(r.errors.len(), 1);
    assert_eq!(r.errors[0].pos_begin, Some(5));
    assert_eq!(r.errors[0].pos_end, Some(6));
}

#[test]
fn sanitizing_blanks_and_control_characters() {
    let c = config("openttd", &[], &[], 2);
    let r = validate_base(&c, &s("a\tb  {}c {NUM}\u{3000}{P x\u{7}y z}d\r\n"));
    assert!(r.errors.is_empty());
    assert_eq!(r.normalized, Some(s("a b{}c {0:NUM}\u{3000}{P 0 \"x y\" z}d")));
}

#[test]
fn codepoint_spans() {
    let c = config("openttd", &[], &[], 2);
    let r = validate_base(&c, &s("äöü{FOO}"));
    assert_eq!(r.errors.len(), 1);
    assert_eq!(r.errors[0].pos_begin, Some(3));
    assert_eq!(r.errors[0].pos_end, Some(8));
}

#[test]
fn non_ascii_words_and_whitespace() {
    assert_eq!(
        FragmentContent::parse("{G=é}"),
        Ok(FragmentContent::Gender(GenderDefinition { gender: s("é") }))
    );
    assert_eq!(
        FragmentContent::parse("{STRING.ü}"),
        Ok(FragmentContent::Command(StringCommand {
            index: None,
            name: s("STRING"),
            case: Some(s("ü")),
        }))
    );
    assert!(FragmentContent::parse("{G=-}").is_err());
    assert!(FragmentContent::parse("{G=a b}").is_err());
    match FragmentContent::parse("{P\u{a0}a\u{2003}b}") {
        Ok(FragmentContent::Choice(c)) => assert_eq!(c.choices, vec![s("a"), s("b")]),
        other => panic!("unexpected {:?}", other),
    }
}

#[test]
fn index_too_large_is_dropped() {
    assert_eq!(
        FragmentContent::parse("{99999999999999999999999:NUM}"),
        Ok(FragmentContent::Command(StringCommand { index: None, name: s("NUM"), case: None }))
    );
}

#[test]
fn choice_grammar_edges() {
    assert!(FragmentContent::parse("{P 1 2}").is_err());
    assert!(FragmentContent::parse("{P a\"b\"}").is_err());
    assert_eq!(
        FragmentContent::parse("{P}"),
        Ok(FragmentContent::Command(StringCommand { index: None, name: s("P"), case: None }))
    );
    match FragmentContent::parse("{G a = b}") {
        Ok(FragmentContent::Choice(c)) => {
            assert_eq!(c.name, s("G"));
            assert_eq!(c.choices, vec![s("a"), s("="), s("b")]);
        },
        other => panic!("unexpected {:?}", other),
    }
}

#[test]
fn dialect_names() {
    let gs = config("game-script", &[], &[], 2);
    assert!(!gs.allow_cases());
    assert_eq!(gs.get_dialect(), Dialect::GameScript);
    assert_eq!(config("newgrf", &[], &[], 2).get_dialect(), Dialect::NewGrf);
    assert_eq!(config("openttd", &[], &[], 2).get_dialect(), Dialect::OpenTtd);
    assert!(config("openttd", &[], &[], 2).allow_cases());
}

#[test]
fn large_position_counter_saturates() {
    let c = config("openttd", &[], &[], 2);
    let r = validate_base(&c, &s("{18446744073709551615:NUM}{NUM}"));
    assert!(r.errors.is_empty());
    assert_eq!(
        r.normalized,
        Some(s("{18446744073709551615:NUM}{18446744073709551615:NUM}"))
    );
}

#[test]
fn parsing_each_kind() {
    assert_eq!(
        StringCommand::parse("{2:NUM.x}"),
        Some(StringCommand { index: Some(2), name: s("NUM"), case: Some(s("x")) })
    );
    assert_eq!(StringCommand::parse("{G=a}"), None);
    assert_eq!(
        GenderDefinition::parse("{G = a}"),
        Some(GenderDefinition { gender: s("a") })
    );
    assert_eq!(GenderDefinition::parse("G=a"), None);
    assert_eq!(
        ChoiceList::parse("{G 1 a \"b c\"}"),
        Some(ChoiceList {
            name: s("G"),
            indexref: Some(1),
            indexsubref: None,
            choices: vec![s("a"), s("b c")],
        })
    );
    assert_eq!(ChoiceList::parse("{NUM}"), None);
}

#[test]
fn three_known_genders_in_suggestion() {
    let c = config("openttd", &[], &["m", "f", "n"], 2);
    let r = validate_translation(&c, &s("x"), &s("default"), &s("{G=q}x"));
    assert_eq!(r.errors.len(), 1);
    assert_eq!(r.errors[0].message, s("Unknown gender 'q'."));
    assert_eq!(r.errors[0].suggestion, Some(s("Known genders are: 'm', 'f', 'n'")));
}

#[test]
fn nonpositional_findings_in_name_order() {
    let c = config("openttd", &[], &[], 2);
    let r = validate_translation(&c, &s("{TRAIN}{GREEN}x"), &s("default"), &s("x{SHIP}{BLUE}"));
    let messages: Vec<&str> = r.errors.iter().map(|e| e.message.as_str()).collect();
    assert_eq!(
        messages,
        vec![
            "String command '{GREEN}' is missing.",
            "String command '{TRAIN}' is missing.",
            "String command '{BLUE}' is unexpected.",
            "String command '{SHIP}' is unexpected.",
        ]
    );
}

#[test]
fn fragment_spans_cover_the_text() {
    let text = "ab{NUM}c{}{P a \"b c\"}ü";
    let parsed = ParsedString::parse(text).unwrap();
    let mut at = 0;
    for f in &parsed.fragments {
        assert_eq!(f.pos_begin, at);
        assert!(f.pos_end > f.pos_begin);
        at = f.pos_end;
    }
    assert_eq!(at, text.chars().count());
}
