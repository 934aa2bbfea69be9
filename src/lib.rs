//! Validation and normalization of game-text strings: literal text mixed with
//! `{...}` directives (parameters, formatting, gender and choice lists).
pub mod text;
pub mod parser;
pub mod grammar;
pub mod commands;
pub mod rules;
pub mod tables;
pub mod validate;
pub mod normalize;
pub mod laws;

pub use commands::{CommandInfo, Dialect, Occurrence, ParameterInfo};
pub use normalize::{normalize_string, remove_ascii_ctrl, remove_trailing_blanks, sanitize_whitespace};
pub use parser::{
    ChoiceList, FragmentContent, GenderDefinition, ParseError, ParsedString, StringCommand,
    StringFragment,
};
pub use rules::Severity;
pub use validate::{
    LanguageConfig, StringSignature, ValidationError, ValidationResult, get_signature,
    validate_base, validate_string, validate_translation,
};
