use pokemon_term::pokemon::Pokemon;
use pokemon_term::pokemon::PokemonError;
use pokemon_term::pokemon::Pokemons;

fn charizard() -> Pokemon {
    Pokemon {
        idx: 6,
        slug: "charizard".to_string(),
        gen: 1,
        name_en: "Charizard".to_string(),
        desc_en: "Spits fire.".to_string(),
        forms: vec!["mega-x".to_string(), "mega-y".to_string()],
    }
}

#[test]
fn sprite_path_regular() {
    let p = charizard();
    let path = p.get_sprite_path(&None, false).unwrap();
    assert_eq!(path, "assets/colorscripts/regular/charizard");
}

#[test]
fn sprite_path_shiny() {
    let p = charizard();
    let path = p.get_sprite_path(&None, true).unwrap();
    assert_eq!(path, "assets/colorscripts/shiny/charizard");
}

#[test]
fn sprite_path_with_form() {
    let p = charizard();
    let path = p.get_sprite_path(&Some("mega-x".to_string()), false).unwrap();
    assert_eq!(path, "assets/colorscripts/regular/charizard-mega-x");
}

#[test]
fn sprite_path_rejects_unknown_form() {
    let p = charizard();
    let e = p.get_sprite_path(&Some("gmax".to_string()), false).unwrap_err();
    match &e {
        PokemonError::InvalidForm { slug } => assert_eq!(slug, "charizard"),
        _ => panic!("expected an invalid-form error"),
    }
    assert_eq!(e.message(), "Invalid form for charizard");
}

#[test]
fn sprite_path_rejects_shiny_with_form() {
    let p = charizard();
    let e = p.get_sprite_path(&Some("mega-x".to_string()), true).unwrap_err();
    match &e {
        PokemonError::ShinyWithForm { form } => assert_eq!(form, "mega-x"),
        _ => panic!("expected a shiny-with-form error"),
    }
    assert_eq!(e.message(), "form value set to Some(\"mega-x\") when shiny set to True.");
}

#[test]
fn form_slug_without_form_is_the_slug() {
    let p = charizard();
    assert_eq!(p.get_form_slug(&None).unwrap(), "charizard");
}

#[test]
fn dataset_length_and_records() {
    let all = Pokemons::new(vec![charizard()]);
    assert_eq!(all.len(), 1);
    let records = all.get_all();
    assert_eq!(records.len(), 1);
    assert_eq!(records[0].name_en, "Charizard");
    assert_eq!(records[0].gen, 1);
    assert_eq!(records[0].idx, 6);
}
