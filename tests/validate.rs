use string_validator::{
    Dialect, LanguageConfig, Occurrence, ParsedString, Severity, ValidationError, get_signature,
    normalize_string, remove_ascii_ctrl, remove_trailing_blanks, validate_string,
};

#[test]
fn test_sanitize() {
    let mut s1 = String::from("");
    let mut s2 = String::from(" a b c ");
    let mut s3 = String::from("\0a\tb\rc\r\n");
    let mut s4 = String::from("abc\u{b3}");
    remove_ascii_ctrl(&mut s1);
    remove_ascii_ctrl(&mut s2);
    remove_ascii_ctrl(&mut s3);
    remove_ascii_ctrl(&mut s4);
    assert_eq!(s1, String::from(""));
    assert_eq!(s2, String::from(" a b c "));
    assert_eq!(s3, String::from(" a b c  "));
    assert_eq!(s4, String::from("abc\u{b3}"));
    remove_trailing_blanks(&mut s1);
    remove_trailing_blanks(&mut s2);
    remove_trailing_blanks(&mut s3);
    remove_trailing_blanks(&mut s4);
    assert_eq!(s1, String::from(""));
    assert_eq!(s2, String::from(" a b c"));
    assert_eq!(s3, String::from(" a b c"));
    assert_eq!(s4, String::from("abc\u{b3}"));
}

#[test]
fn test_signature_empty() {
    let parsed = ParsedString::parse("").unwrap();
    let sig = get_signature(&Dialect::OpenTtd, &parsed).unwrap();
    assert!(sig.parameters.is_empty());
    assert!(sig.nonpositional_count.is_empty());
}

#[test]
fn test_signature_pos() {
    let parsed = ParsedString::parse("{P a b}{RED}{NUM}{NBSP}{MONO_FONT}{5:STRING.foo}{RED}{2:STRING3.bar}{RAW_STRING}{3:RAW_STRING}{G c d}").unwrap();
    let sig = get_signature(&Dialect::OpenTtd, &parsed).unwrap();
    assert_eq!(sig.parameters.len(), 4);
    assert_eq!(sig.parameters.get(0).unwrap().0.name, "NUM");
    assert_eq!(sig.parameters.get(0).unwrap().1, 1);
    assert_eq!(sig.parameters.get(5).unwrap().0.name, "STRING");
    assert_eq!(sig.parameters.get(5).unwrap().1, 1);
    assert_eq!(sig.parameters.get(2).unwrap().0.name, "STRING3");
    assert_eq!(sig.parameters.get(2).unwrap().1, 1);
    assert_eq!(sig.parameters.get(3).unwrap().0.name, "RAW_STRING");
    assert_eq!(sig.parameters.get(3).unwrap().1, 2);
    assert_eq!(sig.nonpositional_count.len(), 3);
    assert_eq!(
        sig.nonpositional_count.get("RED"),
        Some((Occurrence::NonZero, 2))
    );
    assert_eq!(
        sig.nonpositional_count.get("MONO_FONT"),
        Some((Occurrence::Exact, 1))
    );
    assert_eq!(
        sig.nonpositional_count.get("NBSP"),
        Some((Occurrence::Any, 1))
    );
}

#[test]
fn test_signature_dialect() {
    let parsed = ParsedString::parse("{RAW_STRING}").unwrap();

    let sig = get_signature(&Dialect::OpenTtd, &parsed).unwrap();
    assert_eq!(sig.parameters.len(), 1);
    assert_eq!(sig.parameters.get(0).unwrap().0.name, "RAW_STRING");
    assert_eq!(sig.parameters.get(0).unwrap().1, 1);
    assert_eq!(sig.nonpositional_count.len(), 0);

    let err = get_signature(&Dialect::NewGrf, &parsed).err().unwrap();
    assert_eq!(err.len(), 1);
    assert_eq!(
        err[0],
        ValidationError {
            severity: Severity::Error,
            pos_begin: Some(0),
            pos_end: Some(12),
            message: String::from("Unknown string command '{RAW_STRING}'."),
            suggestion: None,
        }
    );
}

#[test]
fn test_signature_unknown() {
    let parsed = ParsedString::parse("{FOOBAR}").unwrap();
    let err = get_signature(&Dialect::OpenTtd, &parsed).err().unwrap();
    assert_eq!(err.len(), 1);
    assert_eq!(
        err[0],
        ValidationError {
            severity: Severity::Error,
            pos_begin: Some(0),
            pos_end: Some(8),
            message: String::from("Unknown string command '{FOOBAR}'."),
            suggestion: None,
        }
    );
}

#[test]
fn test_signature_nonpos() {
    let parsed = ParsedString::parse("{1:RED}").unwrap();
    let err = get_signature(&Dialect::OpenTtd, &parsed).err().unwrap();
    assert_eq!(err.len(), 1);
    assert_eq!(
        err[0],
        ValidationError {
            severity: Severity::Error,
            pos_begin: Some(0),
            pos_end: Some(7),
            message: String::from("Command '{RED}' cannot have a position reference."),
            suggestion: Some(String::from("Remove '1:'.")),
        }
    );
}

#[test]
fn test_validate_empty() {
    let config = LanguageConfig {
        dialect: String::from("openttd"),
        cases: vec![],
        genders: vec![],
        plural_count: 0,
    };
    let base = ParsedString::parse("").unwrap();

    let val_base = validate_string(&config, &base, None);
    assert_eq!(val_base.len(), 0);

    let val_trans = validate_string(&config, &base, Some(&base));
    assert_eq!(val_trans.len(), 0);
}

#[test]
fn test_validate_invalid() {
    let config = LanguageConfig {
        dialect: String::from("openttd"),
        cases: vec![],
        genders: vec![],
        plural_count: 0,
    };
    let base = ParsedString::parse("{FOOBAR}").unwrap();

    let val_base = validate_string(&config, &base, None);
    assert_eq!(val_base.len(), 1);
    assert_eq!(
        val_base[0],
        ValidationError {
            severity: Severity::Error,
            pos_begin: Some(0),
            pos_end: Some(8),
            message: String::from("Unknown string command '{FOOBAR}'."),
            suggestion: None,
        }
    );

    let val_trans = validate_string(&config, &base, Some(&base));
    assert_eq!(val_trans.len(), 1);
    assert_eq!(
        val_trans[0],
        ValidationError {
            severity: Severity::Error,
            pos_begin: None,
            pos_end: None,
            message: String::from("Base language text is invalid."),
            suggestion: Some(String::from("This is a bug; wait until it is fixed.")),
        }
    );
}

#[test]
fn test_validate_positional() {
    let config = LanguageConfig {
        dialect: String::from("openttd"),
        cases: vec![],
        genders: vec![],
        plural_count: 0,
    };
    let base = ParsedString::parse("{NUM}").unwrap();
    let val_base = validate_string(&config, &base, None);
    assert_eq!(val_base.len(), 0);

    {
        let trans = ParsedString::parse("{0:NUM}").unwrap();
        let val_trans = validate_string(&config, &trans, Some(&base));
        assert_eq!(val_trans.len(), 0);
    }
    {
        let trans = ParsedString::parse("{FOOBAR}{NUM}").unwrap();
        let val_trans = validate_string(&config, &trans, Some(&base));
        assert_eq!(val_trans.len(), 1);
        assert_eq!(
            val_trans[0],
            ValidationError {
                severity: Severity::Error,
                pos_begin: Some(0),
                pos_end: Some(8),
                message: String::from("Unknown string command '{FOOBAR}'."),
                suggestion: None,
            }
        );
    }
    {
        let trans = ParsedString::parse("{1:NUM}").unwrap();
        let val_trans = validate_string(&config, &trans, Some(&base));
        assert_eq!(val_trans.len(), 2);
        assert_eq!(
            val_trans[0],
            ValidationError {
                severity: Severity::Error,
                pos_begin: Some(0),
                pos_end: Some(7),
                message: String::from("There is no parameter in position 1, found '{NUM}'."),
                suggestion: None,
            }
        );
        assert_eq!(
            val_trans[1],
            ValidationError {
                severity: Severity::Error,
                pos_begin: None,
                pos_end: None,
                message: String::from("String command '{0:NUM}' is missing."),
                suggestion: None,
            }
        );
    }
    {
        let trans = ParsedString::parse("{COMMA}").unwrap();
        let val_trans = validate_string(&config, &trans, Some(&base));
        assert_eq!(val_trans.len(), 2);
        assert_eq!(
            val_trans[0],
            ValidationError {
                severity: Severity::Error,
                pos_begin: Some(0),
                pos_end: Some(7),
                message: String::from("Expected '{0:NUM}', found '{COMMA}'."),
                suggestion: None,
            }
        );
        assert_eq!(
            val_trans[1],
            ValidationError {
                severity: Severity::Error,
                pos_begin: None,
                pos_end: None,
                message: String::from("String command '{0:NUM}' is missing."),
                suggestion: None,
            }
        );
    }
    {
        let trans = ParsedString::parse("{0:NUM}{0:NUM}").unwrap();
        let val_trans = validate_string(&config, &trans, Some(&base));
        assert_eq!(val_trans.len(), 1);
        assert_eq!(
            val_trans[0],
            ValidationError {
                severity: Severity::Warning,
                pos_begin: None,
                pos_end: None,
                message: String::from(
                    "String command '{0:NUM}': expected 1 times, found 2 times."
                ),
                suggestion: None,
            }
        );
    }
}

#[test]
fn test_validate_front() {
    let config = LanguageConfig {
        dialect: String::from("openttd"),
        cases: vec![],
        genders: vec![String::from("a"), String::from("b")],
        plural_count: 0,
    };
    let base = ParsedString::parse("{BIG_FONT}foo{NUM}").unwrap();
    let val_base = validate_string(&config, &base, None);
    assert_eq!(val_base.len(), 0);

    {
        let trans = ParsedString::parse("{G=a}{BIG_FONT}bar{NUM}").unwrap();
        let val_trans = validate_string(&config, &trans, Some(&base));
        assert_eq!(val_trans.len(), 0);
    }
    {
        let trans = ParsedString::parse("{G=a}{G=a}{BIG_FONT}bar{NUM}").unwrap();
        let val_trans = validate_string(&config, &trans, Some(&base));
        assert_eq!(val_trans.len(), 1);
        assert_eq!(
            val_trans[0],
            ValidationError {
                severity: Severity::Warning,
                pos_begin: Some(5),
                pos_end: Some(10),
                message: String::from("Duplicate gender definition."),
                suggestion: Some(String::from("Remove the second '{G=...}'.")),
            }
        );
    }
    {
        let trans = ParsedString::parse("{BIG_FONT}{G=a}bar{NUM}").unwrap();
        let val_trans = validate_string(&config, &trans, Some(&base));
        assert_eq!(val_trans.len(), 1);
        assert_eq!(
            val_trans[0],
            ValidationError {
                severity: Severity::Warning,
                pos_begin: Some(10),
                pos_end: Some(15),
                message: String::from("Gender definitions must be at the front."),
                suggestion: Some(String::from(
                    "Move '{G=...}' to the front of the translation."
                )),
            }
        );
    }
    {
        let trans = ParsedString::parse("foo{BIG_FONT}bar{NUM}").unwrap();
        let val_trans = validate_string(&config, &trans, Some(&base));
        assert_eq!(val_trans.len(), 0);
    }
    {
        let trans = ParsedString::parse("foo{G=a}bar{NUM}").unwrap();
        let val_trans = validate_string(&config, &trans, Some(&base));
        assert_eq!(val_trans.len(), 2);
        assert_eq!(
            val_trans[0],
            ValidationError {
                severity: Severity::Warning,
                pos_begin: Some(3),
                pos_end: Some(8),
                message: String::from("Gender definitions must be at the front."),
                suggestion: Some(String::from(
                    "Move '{G=...}' to the front of the translation."
                )),
            }
        );
        assert_eq!(
            val_trans[1],
            ValidationError {
                severity: Severity::Warning,
                pos_begin: None,
                pos_end: None,
                message: String::from("String command '{BIG_FONT}' is missing."),
                suggestion: None,
            }
        );
    }
}

#[test]
fn test_validate_position_references() {
    let config = LanguageConfig {
        dialect: String::from("openttd"),
        cases: vec![String::from("x"), String::from("y")],
        genders: vec![String::from("a"), String::from("b")],
        plural_count: 2,
    };
    let base = ParsedString::parse("{RED}{NUM}{STRING3}").unwrap();
    let val_base = validate_string(&config, &base, None);
    assert_eq!(val_base.len(), 0);

    {
        let trans = ParsedString::parse("{RED}{1:STRING.x}{0:NUM}").unwrap();
        let val_trans = validate_string(&config, &trans, Some(&base));
        assert_eq!(val_trans.len(), 0);
    }
    {
        let trans = ParsedString::parse("{2:RED}{1:STRING.z}{0:NUM.x}").unwrap();
        let val_trans = validate_string(&config, &trans, Some(&base));
        assert_eq!(val_trans.len(), 3);
        assert_eq!(
            val_trans[0],
            ValidationError {
                severity: Severity::Error,
                pos_begin: Some(0),
                pos_end: Some(7),
                message: String::from("Command '{RED}' cannot have a position reference."),
                suggestion: Some(String::from("Remove '2:'.")),
            }
        );
        assert_eq!(
            val_trans[1],
            ValidationError {
                severity: Severity::Error,
                pos_begin: Some(7),
                pos_end: Some(19),
                message: String::from("Unknown case 'z'."),
                suggestion: Some(String::from("Known cases are: 'x', 'y'")),
            }
        );
        assert_eq!(
            val_trans[2],
            ValidationError {
                severity: Severity::Error,
                pos_begin: Some(19),
                pos_end: Some(28),
                message: String::from("No case selection allowed for '{NUM}'."),
                suggestion: Some(String::from("Remove '.x'.")),
            }
        );
    }
    {
        let trans = ParsedString::parse("{RED}{NUM}{G i j}{P i j}{STRING.y}").unwrap();
        let val_trans = validate_string(&config, &trans, Some(&base));
        assert_eq!(val_trans.len(), 0);
    }
    {
        let trans = ParsedString::parse("{RED}{NUM}{G 0 i j}{P 1 i j}{STRING.y}").unwrap();
        let val_trans = validate_string(&config, &trans, Some(&base));
        assert_eq!(val_trans.len(), 2);
        assert_eq!(
            val_trans[0],
            ValidationError {
                severity: Severity::Error,
                pos_begin: Some(10),
                pos_end: Some(19),
                message: String::from(
                    "'{G}' references position '0:0', but '{0:NUM}' does not allow genders."
                ),
                suggestion: None,
            }
        );
        assert_eq!(
            val_trans[1],
            ValidationError {
                severity: Severity::Error,
                pos_begin: Some(19),
                pos_end: Some(28),
                message: String::from(
                    "'{P}' references position '1:0', but '{1:STRING}' does not allow plurals."
                ),
                suggestion: None,
            }
        );
    }
    {
        let trans = ParsedString::parse("{RED}{NUM}{G 1:1 i j}{P 1:3 i j}{STRING.y}").unwrap();
        let val_trans = validate_string(&config, &trans, Some(&base));
        assert_eq!(val_trans.len(), 0);
    }
    {
        let trans = ParsedString::parse("{RED}{NUM}{G 1:4 i j}{P 1:4 i j}{STRING.y}").unwrap();
        let val_trans = validate_string(&config, &trans, Some(&base));
        assert_eq!(val_trans.len(), 2);
        assert_eq!(
            val_trans[0],
            ValidationError {
                severity: Severity::Error,
                pos_begin: Some(10),
                pos_end: Some(21),
                message: String::from(
                    "'{G}' references position '1:4', but '{1:STRING}' only has 4 subindices."
                ),
                suggestion: None,
            }
        );
        assert_eq!(
            val_trans[1],
            ValidationError {
                severity: Severity::Error,
                pos_begin: Some(21),
                pos_end: Some(32),
                message: String::from(
                    "'{P}' references position '1:4', but '{1:STRING}' only has 4 subindices."
                ),
                suggestion: None,
            }
        );
    }
    {
        let trans = ParsedString::parse("{RED}{NUM}{G 2 i j}{P 2 i j}{STRING.y}").unwrap();
        let val_trans = validate_string(&config, &trans, Some(&base));
        assert_eq!(val_trans.len(), 2);
        assert_eq!(
            val_trans[0],
            ValidationError {
                severity: Severity::Error,
                pos_begin: Some(10),
                pos_end: Some(19),
                message: String::from("'{G}' references position '2', which has no parameter."),
                suggestion: None,
            }
        );
        assert_eq!(
            val_trans[1],
            ValidationError {
                severity: Severity::Error,
                pos_begin: Some(19),
                pos_end: Some(28),
                message: String::from("'{P}' references position '2', which has no parameter."),
                suggestion: None,
            }
        );
    }
    {
        let trans = ParsedString::parse("{RED}{P i j}{NUM}{STRING.y}{G i j}").unwrap();
        let val_trans = validate_string(&config, &trans, Some(&base));
        assert_eq!(val_trans.len(), 2);
        assert_eq!(
            val_trans[0],
            ValidationError {
                severity: Severity::Error,
                pos_begin: Some(5),
                pos_end: Some(12),
                message: String::from(
                    "'{P}' references position '-1', which has no parameter."
                ),
                suggestion: Some(String::from("Add a position reference.")),
            }
        );
        assert_eq!(
            val_trans[1],
            ValidationError {
                severity: Severity::Error,
                pos_begin: Some(27),
                pos_end: Some(34),
                message: String::from("'{G}' references position '2', which has no parameter."),
                suggestion: Some(String::from("Add a position reference.")),
            }
        );
    }
}

#[test]
fn test_validate_nochoices() {
    let config = LanguageConfig {
        dialect: String::from("openttd"),
        cases: vec![],
        genders: vec![],
        plural_count: 1,
    };
    let base = ParsedString::parse("{NUM}{STRING3}").unwrap();
    let val_base = validate_string(&config, &base, None);
    assert_eq!(val_base.len(), 0);

    {
        let trans = ParsedString::parse("{G=a}{NUM}{P a}{G a}{STRING}").unwrap();
        let val_trans = validate_string(&config, &trans, Some(&base));
        assert_eq!(val_trans.len(), 3);
        assert_eq!(
            val_trans[0],
            ValidationError {
                severity: Severity::Error,
                pos_begin: Some(0),
                pos_end: Some(5),
                message: String::from("No gender definitions allowed."),
                suggestion: Some(String::from("Remove '{G=...}'.")),
            }
        );
        assert_eq!(
            val_trans[1],
            ValidationError {
                severity: Severity::Error,
                pos_begin: Some(10),
                pos_end: Some(15),
                message: String::from("No plural choices allowed."),
                suggestion: Some(String::from("Remove '{P ...}'.")),
            }
        );
        assert_eq!(
            val_trans[2],
            ValidationError {
                severity: Severity::Error,
                pos_begin: Some(15),
                pos_end: Some(20),
                message: String::from("No gender choices allowed."),
                suggestion: Some(String::from("Remove '{G ...}'.")),
            }
        );
    }
}

#[test]
fn test_validate_gschoices() {
    let config = LanguageConfig {
        dialect: String::from("game-script"),
        cases: vec![String::from("x"), String::from("y")],
        genders: vec![String::from("a"), String::from("b")],
        plural_count: 2,
    };
    let base = ParsedString::parse("{NUM}{STRING3}").unwrap();
    let val_base = validate_string(&config, &base, None);
    assert_eq!(val_base.len(), 0);

    {
        let trans = ParsedString::parse("{G=a}{NUM}{P a b}{G a b}{STRING.x}").unwrap();
        let val_trans = validate_string(&config, &trans, Some(&base));
        assert_eq!(val_trans.len(), 3);
        assert_eq!(
            val_trans[0],
            ValidationError {
                severity: Severity::Error,
                pos_begin: Some(0),
                pos_end: Some(5),
                message: String::from("No gender definitions allowed."),
                suggestion: Some(String::from("Remove '{G=...}'.")),
            }
        );
        assert_eq!(
            val_trans[1],
            ValidationError {
                severity: Severity::Error,
                pos_begin: Some(17),
                pos_end: Some(24),
                message: String::from("No gender choices allowed."),
                suggestion: Some(String::from("Remove '{G ...}'.")),
            }
        );
        assert_eq!(
            val_trans[2],
            ValidationError {
                severity: Severity::Error,
                pos_begin: Some(24),
                pos_end: Some(34),
                message: String::from("No case selections allowed."),
                suggestion: Some(String::from("Remove '.x'.")),
            }
        );
    }
}

#[test]
fn test_validate_choices() {
    let config = LanguageConfig {
        dialect: String::from("openttd"),
        cases: vec![String::from("x"), String::from("y")],
        genders: vec![String::from("a"), String::from("b")],
        plural_count: 2,
    };
    let base = ParsedString::parse("{NUM}{STRING3}").unwrap();
    let val_base = validate_string(&config, &base, None);
    assert_eq!(val_base.len(), 0);

    {
        let trans = ParsedString::parse("{G=a}{NUM}{P a b}{G a b}{STRING.x}").unwrap();
        let val_trans = validate_string(&config, &trans, Some(&base));
        assert_eq!(val_trans.len(), 0);
    }
    {
        let trans = ParsedString::parse("{G=c}{NUM}{P a b c}{G a b c}{STRING.z}").unwrap();
        let val_trans = validate_string(&config, &trans, Some(&base));
        assert_eq!(val_trans.len(), 4);
        assert_eq!(
            val_trans[0],
            ValidationError {
                severity: Severity::Error,
                pos_begin: Some(0),
                pos_end: Some(5),
                message: String::from("Unknown gender 'c'."),
                suggestion: Some(String::from("Known genders are: 'a', 'b'")),
            }
        );
        assert_eq!(
            val_trans[1],
            ValidationError {
                severity: Severity::Error,
                pos_begin: Some(10),
                pos_end: Some(19),
                message: String::from("Expected 2 plural choices, found 3."),
                suggestion: None,
            }
        );
        assert_eq!(
            val_trans[2],
            ValidationError {
                severity: Severity::Error,
                pos_begin: Some(19),
                pos_end: Some(28),
                message: String::from("Expected 2 gender choices, found 3."),
                suggestion: None,
            }
        );
        assert_eq!(
            val_trans[3],
            ValidationError {
                severity: Severity::Error,
                pos_begin: Some(28),
                pos_end: Some(38),
                message: String::from("Unknown case 'z'."),
                suggestion: Some(String::from("Known cases are: 'x', 'y'")),
            }
        );
    }
}

#[test]
fn test_validate_nonpositional() {
    let config = LanguageConfig {
        dialect: String::from("openttd"),
        cases: vec![],
        genders: vec![],
        plural_count: 0,
    };
    let base = ParsedString::parse("{RED}{NBSP}{}{GREEN}{NBSP}{}{RED}{TRAIN}").unwrap();
    let val_base = validate_string(&config, &base, None);
    assert_eq!(val_base.len(), 0);

    {
        let trans = ParsedString::parse("{RED}{}{GREEN}{}{RED}{TRAIN}").unwrap();
        let val_trans = validate_string(&config, &trans, Some(&base));
        assert_eq!(val_trans.len(), 0);
    }
    {
        let trans = ParsedString::parse("{RED}{}{GREEN}{NBSP}{RED}{NBSP}{GREEN}{}{RED}{TRAIN}")
            .unwrap();
        let val_trans = validate_string(&config, &trans, Some(&base));
        assert_eq!(val_trans.len(), 0);
    }
    {
        let trans =
            ParsedString::parse("{RED}{}{RED}{TRAIN}{BLUE}{TRAIN}{RIGHT_ARROW}{SHIP}").unwrap();
        let val_trans = validate_string(&config, &trans, Some(&base));
        assert_eq!(val_trans.len(), 4);
        assert_eq!(
            val_trans[0],
            ValidationError {
                severity: Severity::Warning,
                pos_begin: None,
                pos_end: None,
                message: String::from("String command '{GREEN}' is missing."),
                suggestion: None,
            }
        );
        assert_eq!(
            val_trans[1],
            ValidationError {
                severity: Severity::Warning,
                pos_begin: None,
                pos_end: None,
                message: String::from(
                    "String command '{TRAIN}': expected 1 times, found 2 times."
                ),
                suggestion: None,
            }
        );
        assert_eq!(
            val_trans[2],
            ValidationError {
                severity: Severity::Warning,
                pos_begin: None,
                pos_end: None,
                message: String::from("String command '{BLUE}' is unexpected."),
                suggestion: Some(String::from("Remove this command.")),
            }
        );
        assert_eq!(
            val_trans[3],
            ValidationError {
                severity: Severity::Warning,
                pos_begin: None,
                pos_end: None,
                message: String::from("String command '{SHIP}' is unexpected."),
                suggestion: Some(String::from("Remove this command.")),
            }
        );
    }
}

#[test]
fn test_normalize_cmd() {
    let mut parsed =
        ParsedString::parse("{RED}{NBSP}{2:RAW_STRING}{0:STRING5}{COMMA}").unwrap();
    normalize_string(&Dialect::OpenTtd, &mut parsed);
    let result = parsed.compile();
    assert_eq!(result, "{RED}{NBSP}{2:STRING}{0:STRING}{1:COMMA}");
}

#[test]
fn test_normalize_ref() {
    let mut parsed = ParsedString::parse("{RED}{NBSP}{P a b}{2:STRING}{P 1 a b}{G 0:1 a b}{0:STRING}{G 0 a b}{P 0:1 a b}{COMMA}{P a b}{G a b}").unwrap();
    normalize_string(&Dialect::OpenTtd, &mut parsed);
    let result = parsed.compile();
    assert_eq!(result, "{RED}{NBSP}{P a b}{2:STRING}{P 1 a b}{G 0:1 a b}{0:STRING}{G 0 a b}{P 0:1 a b}{1:COMMA}{P 1 a b}{G 2 a b}");
}

#[test]
fn test_normalize_subref() {
    let mut parsed = ParsedString::parse(
        "{NUM}{P 0:0 a b}{G 1:0 a b}{G 1:1 a b}{STRING}{P 1:2 a b}{CARGO_LONG}{P 2:1 a b}",
    )
    .unwrap();
    normalize_string(&Dialect::OpenTtd, &mut parsed);
    let result = parsed.compile();
    assert_eq!(
        result,
        "{0:NUM}{P 0 a b}{G 1 a b}{G 1:1 a b}{1:STRING}{P 1:2 a b}{2:CARGO_LONG}{P 2 a b}"
    );
}
