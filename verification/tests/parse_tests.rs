use pokemon_term::args::Args;
use pokemon_term::args::Mode;
use pokemon_term::args::SpecialMode;
use pokemon_term::flags::FlagId;
use pokemon_term::flags::parse;
use pokemon_term::parse::ParseError;
use pokemon_term::parse::ParseResult;

fn argv(args: &[&str]) -> Vec<String> {
    args.iter().map(|s| s.to_string()).collect()
}

fn parsed(args: &[&str]) -> Args {
    match parse(&argv(args)) {
        ParseResult::Parsed(a) => a,
        ParseResult::Failed(e) => panic!("unexpected parse error: {}", e.message()),
        ParseResult::Special(_) => panic!("unexpected special outcome"),
    }
}

fn failed(args: &[&str]) -> ParseError {
    match parse(&argv(args)) {
        ParseResult::Failed(e) => e,
        _ => panic!("expected a parse error"),
    }
}

fn special(args: &[&str]) -> SpecialMode {
    match parse(&argv(args)) {
        ParseResult::Special(sp) => sp,
        ParseResult::Failed(e) => panic!("unexpected parse error: {}", e.message()),
        ParseResult::Parsed(_) => panic!("expected a special outcome"),
    }
}

#[test]
fn empty_command_line_gives_defaults() {
    let a = parsed(&[]);
    assert_eq!(a.mode, Mode::Regular);
    assert_eq!(a.special, None);
    assert_eq!(a.pokemon_name, "");
    assert_eq!(a.form, None);
    assert!(!a.shiny);
    assert!(!a.list_with_forms);
    assert!(a.positional.is_empty());
    assert!(a.pokemon_names_for_random.is_empty());
    assert!(a.gen_value.is_empty());
}

#[test]
fn name_and_shiny_short_flags() {
    // args `["-n", "pikachu", "-s"]` give name pikachu, shiny, Regular mode.
    let a = parsed(&["-n", "pikachu", "-s"]);
    assert_eq!(a.pokemon_name, "pikachu");
    assert!(a.shiny);
    assert_eq!(a.mode, Mode::Regular);
    assert_eq!(a.special, None);
}

#[test]
fn list_with_show_forms() {
    let a = parsed(&["--list", "--show-forms"]);
    assert_eq!(a.mode, Mode::List);
    assert!(a.list_with_forms);
    assert!(!a.shiny);
}

#[test]
fn valid_permutation_reflects_all_values() {
    let a = parsed(&["-n", "pikachu", "-f", "gmax", "-s", "--show-forms"]);
    assert_eq!(a.pokemon_name, "pikachu");
    assert_eq!(a.form.as_deref(), Some("gmax"));
    assert!(a.shiny);
    assert!(a.list_with_forms);
    assert_eq!(a.mode, Mode::Regular);
    // The same flags in another order give the same record.
    let b = parsed(&["--show-forms", "-s", "-f", "gmax", "-n", "pikachu"]);
    assert_eq!(b.pokemon_name, "pikachu");
    assert_eq!(b.form.as_deref(), Some("gmax"));
    assert!(b.shiny);
    assert!(b.list_with_forms);
    assert_eq!(b.mode, Mode::Regular);
}

#[test]
fn random_twice_is_a_mode_conflict() {
    // args `["-r", "-r"]`: the mode is already non-Regular.
    let e = failed(&["-r", "-r"]);
    assert!(matches!(e, ParseError::ModeConflict { flag: FlagId::Random }));
}

#[test]
fn list_then_random_conflicts() {
    let e = failed(&["--list", "--random"]);
    assert!(matches!(e, ParseError::ModeConflict { flag: FlagId::Random }));
}

#[test]
fn random_then_list_conflicts() {
    let e = failed(&["--random", "--list"]);
    assert!(matches!(e, ParseError::ModeConflict { flag: FlagId::List }));
}

#[test]
fn random_by_name_then_random_conflicts() {
    let e = failed(&["--random-by-name", "pikachu", "-r"]);
    assert!(matches!(e, ParseError::ModeConflict { flag: FlagId::Random }));
}

#[test]
fn name_twice_is_an_overwrite_error() {
    let e = failed(&["-n", "pikachu", "-n", "bulbasaur"]);
    match e {
        ParseError::Overwrite { flag, prev, new } => {
            assert_eq!(flag, FlagId::Name);
            assert_eq!(prev, "pikachu");
            assert_eq!(new, "bulbasaur");
        },
        _ => panic!("expected an overwrite error"),
    }
}

#[test]
fn form_twice_is_an_overwrite_error() {
    let e = failed(&["-f", "mega", "-f", "gmax"]);
    assert!(matches!(e, ParseError::Overwrite { flag: FlagId::Form, .. }));
}

#[test]
fn help_short_circuits() {
    assert_eq!(special(&["-h"]), SpecialMode::HelpShort);
    assert_eq!(special(&["--help"]), SpecialMode::HelpLong);
    // Other flags that would need data files at dispatch time do not stop
    // the short-circuit.
    assert_eq!(special(&["-n", "no-such-pokemon", "-h"]), SpecialMode::HelpShort);
    assert_eq!(special(&["-s", "--help", "-f", "mega"]), SpecialMode::HelpLong);
}

#[test]
fn version_short_circuits() {
    assert_eq!(special(&["-v"]), SpecialMode::VersionShort);
    // args `["--version"]` bypass dataset and sprite loading entirely.
    assert_eq!(special(&["--version"]), SpecialMode::VersionLong);
}

#[test]
fn unrecognized_short_flag_echoes_character() {
    let e = failed(&["-z"]);
    assert!(matches!(e, ParseError::UnrecognizedShort { ch: 'z' }));
    assert_eq!(e.message(), "unrecognized flag -z");
}

#[test]
fn unrecognized_long_flag_echoes_name() {
    let e = failed(&["--bogus"]);
    match &e {
        ParseError::UnrecognizedLong { name } => assert_eq!(name, "bogus"),
        _ => panic!("expected an unrecognized long flag"),
    }
    assert_eq!(e.message(), "unrecognized flag --bogus");
}

#[test]
fn empty_random_by_name_value_fails() {
    let e = failed(&["--random-by-name", ""]);
    assert!(matches!(e, ParseError::EmptyValue { flag: FlagId::RandomByNames }));
}

#[test]
fn random_by_name_splits_on_commas() {
    let a = parsed(&["--random-by-name", "pikachu,eevee"]);
    assert_eq!(a.pokemon_names_for_random, vec!["pikachu".to_string(), "eevee".to_string()]);
    assert_eq!(a.mode, Mode::RandomByNames);
}

#[test]
fn random_by_name_keeps_empty_pieces() {
    let a = parsed(&["--random-by-name", "a,,b,"]);
    assert_eq!(
        a.pokemon_names_for_random,
        vec!["a".to_string(), "".to_string(), "b".to_string(), "".to_string()],
    );
}

#[test]
fn missing_value_at_end_of_line() {
    let e = failed(&["-n"]);
    assert!(matches!(e, ParseError::MissingValue { flag: FlagId::Name }));
    assert_eq!(e.message(), "missing value for flag --name");
    let e2 = failed(&["--form"]);
    assert!(matches!(e2, ParseError::MissingValue { flag: FlagId::Form }));
}

#[test]
fn long_flag_with_attached_value() {
    let a = parsed(&["--name=pikachu"]);
    assert_eq!(a.pokemon_name, "pikachu");
    let b = parsed(&["--name="]);
    assert_eq!(b.pokemon_name, "");
}

#[test]
fn attached_value_on_a_switch_is_rejected() {
    let e = failed(&["--list=x"]);
    match e {
        ParseError::UnexpectedValue { option, value } => {
            assert_eq!(option, "--list");
            assert_eq!(value, "x");
        },
        _ => panic!("expected an unexpected-value error"),
    }
}

#[test]
fn short_cluster_of_switches() {
    let a = parsed(&["-ls"]);
    assert_eq!(a.mode, Mode::List);
    assert!(a.shiny);
}

#[test]
fn short_flag_with_attached_value() {
    let a = parsed(&["-npikachu"]);
    assert_eq!(a.pokemon_name, "pikachu");
    let b = parsed(&["-n=pikachu"]);
    assert_eq!(b.pokemon_name, "pikachu");
    let c = parsed(&["-sneevee"]);
    assert!(c.shiny);
    assert_eq!(c.pokemon_name, "eevee");
}

#[test]
fn double_dash_ends_flag_parsing() {
    let a = parsed(&["--", "-n", "--list"]);
    assert_eq!(a.positional, vec!["-n".to_string(), "--list".to_string()]);
    assert_eq!(a.mode, Mode::Regular);
    assert_eq!(a.pokemon_name, "");
}

#[test]
fn bare_tokens_are_positional() {
    let a = parsed(&["pikachu", "-s", "eevee", "-"]);
    assert_eq!(
        a.positional,
        vec!["pikachu".to_string(), "eevee".to_string(), "-".to_string()],
    );
    assert!(a.shiny);
}

#[test]
fn value_can_look_like_a_flag() {
    // A value token is consumed raw, even if it starts with a dash.
    let a = parsed(&["-n", "--list"]);
    assert_eq!(a.pokemon_name, "--list");
    assert_eq!(a.mode, Mode::Regular);
}

#[test]
fn later_special_flag_wins() {
    assert_eq!(special(&["-h", "-v"]), SpecialMode::VersionShort);
    assert_eq!(special(&["--version", "--help"]), SpecialMode::HelpLong);
}

#[test]
fn error_after_help_still_fails() {
    // Tokens after a help flag are still scanned, so an unrecognized flag
    // is still reported.
    let e = failed(&["-h", "--bogus"]);
    assert!(matches!(e, ParseError::UnrecognizedLong { .. }));
}

#[test]
fn mode_conflict_message_names_the_flag() {
    let e = failed(&["--list", "--random"]);
    assert_eq!(e.message(), "unexpected argument --random, not valid in this context");
}

#[test]
fn overwrite_message_names_both_values() {
    let e = failed(&["-n", "a", "-n", "b"]);
    assert_eq!(e.message(), "tried to overwrite flag --name 'a' <- 'b'");
}

#[test]
fn mode_update_rule() {
    let mut m = Mode::Regular;
    assert!(m.update(Mode::List));
    assert_eq!(m, Mode::List);
    assert!(!m.update(Mode::Random));
    assert_eq!(m, Mode::List);
}

#[test]
fn repeated_switches_are_idempotent() {
    let a = parsed(&["-s", "-s", "--show-forms", "--show-forms"]);
    assert!(a.shiny);
    assert!(a.list_with_forms);
    assert_eq!(a.mode, Mode::Regular);
}

#[test]
fn special_flag_inside_a_cluster() {
    // `-hn x`: the help request is recorded, then `n` consumes `x`.
    match parse(&argv(&["-hn", "x"])) {
        ParseResult::Special(sp) => assert_eq!(sp, SpecialMode::HelpShort),
        _ => panic!("expected the help short-circuit"),
    }
}

#[test]
fn long_syntax_reaches_short_names_too() {
    // The flag map holds every name uniformly, so `--n` resolves like `-n`.
    let a = parsed(&["--n", "pikachu"]);
    assert_eq!(a.pokemon_name, "pikachu");
}

#[test]
fn empty_long_name_is_unrecognized() {
    let e = failed(&["--=x"]);
    match &e {
        ParseError::UnrecognizedLong { name } => assert_eq!(name, ""),
        _ => panic!("expected an unrecognized long flag"),
    }
    assert_eq!(e.message(), "unrecognized flag --");
}

#[test]
fn a_value_token_may_be_double_dash() {
    // A value is consumed raw, so `--` right after `-n` is the name.
    let a = parsed(&["-n", "--"]);
    assert_eq!(a.pokemon_name, "--");
}

#[test]
fn empty_token_is_positional() {
    let a = parsed(&[""]);
    assert_eq!(a.positional, vec!["".to_string()]);
}
