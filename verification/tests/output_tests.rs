use pokemon_term::args::Args;
use pokemon_term::flags::FlagId;
use pokemon_term::flags::FlagInfo;
use pokemon_term::flags::FlagInfoKind;
use pokemon_term::flags::FlagLookup;
use pokemon_term::flags::FlagMap;
use pokemon_term::flags::flags;
use pokemon_term::help::help_long;
use pokemon_term::help::help_short;
use pokemon_term::parse::Parser;
use pokemon_term::pokemon::Pokemon;
use pokemon_term::util::format_command_list_output;
use pokemon_term::version::version_long;
use pokemon_term::version::version_short;

fn record(name: &str, forms: &[&str]) -> Pokemon {
    Pokemon {
        idx: 0,
        slug: name.to_lowercase(),
        gen: 1,
        name_en: name.to_string(),
        desc_en: String::new(),
        forms: forms.iter().map(|f| f.to_string()).collect(),
    }
}

#[test]
fn registry_order_is_fixed() {
    let v = flags();
    assert_eq!(
        v,
        vec![
            FlagId::Name,
            FlagId::List,
            FlagId::ShowForms,
            FlagId::Shiny,
            FlagId::Form,
            FlagId::Random,
            FlagId::RandomByNames,
        ],
    );
}

#[test]
fn flag_names_and_shapes() {
    assert_eq!(FlagId::Name.name_long(), "name");
    assert_eq!(FlagId::Name.name_short(), Some('n'));
    assert!(!FlagId::Name.is_switch());
    assert_eq!(FlagId::ShowForms.name_long(), "show-forms");
    assert_eq!(FlagId::ShowForms.name_short(), None);
    assert!(FlagId::ShowForms.is_switch());
    assert_eq!(FlagId::RandomByNames.name_long(), "random-by-name");
    assert!(!FlagId::RandomByNames.is_switch());
    assert_eq!(FlagId::Shiny.name_negated(), None);
    assert_eq!(FlagId::Form.doc_variable(), Some("FORM"));
    assert_eq!(FlagId::List.doc_variable(), None);
}

#[test]
fn flag_map_finds_exact_names_only() {
    let infos = vec![
        FlagInfo {
            flag: FlagId::Name,
            name: Ok("name".to_string()),
            kind: FlagInfoKind::Standard,
        },
        FlagInfo { flag: FlagId::Name, name: Err('n'), kind: FlagInfoKind::Standard },
        FlagInfo {
            flag: FlagId::List,
            name: Ok("list".to_string()),
            kind: FlagInfoKind::Standard,
        },
    ];
    let map = FlagMap::new(&infos);
    assert_eq!(map.find("name"), Some(0));
    assert_eq!(map.find("n"), Some(1));
    assert_eq!(map.find("list"), Some(2));
    assert_eq!(map.find("nam"), None);
    assert_eq!(map.find("names"), None);
    assert_eq!(map.find(""), None);
}

#[test]
fn parser_resolves_short_and_long_names() {
    let parser = Parser::new();
    match parser.find_long("shiny") {
        FlagLookup::Match(info) => {
            assert_eq!(info.flag, FlagId::Shiny);
            assert_eq!(info.kind, FlagInfoKind::Standard);
        },
        _ => panic!("--shiny should resolve"),
    }
    match parser.find_short('r') {
        FlagLookup::Match(info) => assert_eq!(info.flag, FlagId::Random),
        _ => panic!("-r should resolve"),
    }
    assert!(matches!(parser.find_short('z'), FlagLookup::UnrecognizedShort('z')));
    match parser.find_long("bogus") {
        FlagLookup::UnrecognizedLong(s) => assert_eq!(s, "bogus"),
        _ => panic!("--bogus should be unrecognized"),
    }
}

#[test]
fn version_strings() {
    assert_eq!(version_short(), "pokemon-term 0.1.0");
    assert_eq!(version_long(), "pokemon-term 0.1.0 (rev )\nN/A");
}

#[test]
fn short_help_lists_every_flag_in_columns() {
    let expected = "Print Pokemon sprites in the terminal.\n\nUsage:\n  poke -l | --list\n  poke -n | --name (pokemon_name)\n  poke -h | --help\n  poke -v | --version\n\nArguments:\n  -n, --name=NAME                   Print the Pokemon by its Name. Generally spelled like in the game.\n  -l, --list                        Print a list of all pokemons\n  --show-forms                      Show List of Pokemons with their respective forms.\n  -s, --shiny                       Print the shiny version of the pokemon.\n  -f, --form=FORM                   Print the given form version of the pokemon.\n  -r, --random                      Print a Random Pokemon in the terminal. Includes shiny version and their forms.\n  --random-by-name=[Pokemon Names]  Print Random Pokemon from given Pokemon names. Pokemon names must be seperated by comma(',').\n    ";
    assert_eq!(help_short(), expected);
}

#[test]
fn long_help_shares_the_argument_listing() {
    let long = help_long();
    let short = help_short();
    assert!(long.starts_with("pokemon-term prints a Pokemon's sprite in the terminal"));
    assert!(long.contains("-n, --name=NAME"));
    assert!(long.contains("--random-by-name=[Pokemon Names]"));
    // Both texts end with the same argument listing block.
    let tail = &short[short.find("Arguments:").unwrap()..];
    assert!(long.ends_with(tail));
}

#[test]
fn plain_list_uses_four_columns() {
    let records = vec![
        record("Bulbasaur", &[]),
        record("Ivysaur", &[]),
        record("Venusaur", &[]),
        record("Charmander", &[]),
        record("Charmeleon", &[]),
    ];
    let args = Args::default();
    let out = format_command_list_output(&records, &args);
    let expected = "Bulbasaur           Ivysaur             Venusaur            Charmander          \nCharmeleon          ";
    assert_eq!(out, expected);
}

#[test]
fn list_with_forms_uses_two_columns_and_header() {
    let records = vec![
        record("Bulbasaur", &[]),
        record("Charizard", &["mega-x", "mega-y"]),
        record("Pikachu", &["gmax"]),
    ];
    let mut args = Args::default();
    args.list_with_forms = true;
    let out = format_command_list_output(&records, &args);
    let expected = "Pokemon Name: Forms\nBulbasaur: N/A                          Charizard: mega-x mega-y                \nPikachu: gmax                           ";
    assert_eq!(out, expected);
}

#[test]
fn write_appends() {
    let mut s = String::from("ab");
    pokemon_term::util::write(&mut s, "cd");
    assert_eq!(s, "abcd");
}
