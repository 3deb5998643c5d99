use pokedex::pokeapi::{
    classify_species_response, clean_text, normalize_species, parse_species, species_request_path,
    url_encode, NormalizeError, SpeciesError,
};
use pokedex::server::FetchOutcome;

const RAW_DITTO: &str = r#"{
  "base_happiness": 70,
  "capture_rate": 35,
  "flavor_text_entries": [
    {
      "flavor_text": "Es kann seine Zellstruktur neu kombinieren.",
      "language": { "name": "de", "url": "https://pokeapi.co/api/v2/language/6/" },
      "version": { "name": "red", "url": "https://pokeapi.co/api/v2/version/1/" }
    },
    {
      "flavor_text": "It can freely recombine its own cellular structure to\ntransform into other life-forms.",
      "language": { "name": "en", "url": "https://pokeapi.co/api/v2/language/9/" },
      "version": { "name": "red", "url": "https://pokeapi.co/api/v2/version/1/" }
    },
    {
      "flavor_text": "Il peut recombiner sa structure cellulaire.",
      "language": { "name": "fr" }
    }
  ],
  "habitat": { "name": "urban", "url": "https://pokeapi.co/api/v2/pokemon-habitat/8/" },
  "is_baby": false,
  "is_legendary": false,
  "is_mythical": false,
  "name": "ditto",
  "shape": null
}"#;

const RAW_MEWTWO: &str = r#"{
  "flavor_text_entries": [
    {
      "flavor_text": "It was created by\na scientist after\nyears of horrific\fgene splicing and\nDNA engineering\nexperiments.",
      "language": { "name": "en", "url": "https://pokeapi.co/api/v2/language/9/" },
      "version": { "name": "red", "url": "https://pokeapi.co/api/v2/version/1/" }
    }
  ],
  "habitat": { "name": "rare", "url": "https://pokeapi.co/api/v2/pokemon-habitat/5/" },
  "is_legendary": true,
  "name": "mewtwo"
}"#;

#[test]
fn deserializes_ditto() {
    let ditto = parse_species(RAW_DITTO).expect("unable to deserialize ditto");

    assert_eq!(ditto.name, "ditto".to_string());
    assert!(!ditto.is_legendary);
    assert_eq!(ditto.habitat, "urban".to_string());
    assert_eq!(
        ditto.description,
        "It can freely recombine its own cellular structure to\ntransform into other life-forms."
            .to_string()
    );
}

#[test]
fn fails_if_there_is_no_english_flavour_text() {
    // Shrunk example with the necessary fields, except the only flavor text is german...
    let german_ditton = r#"
{
  "flavor_text_entries": [
     {
      "flavor_text": "Es kann seine Zellstruktur...",
      "language": {
        "name": "de"
      }
    }
  ],
  "habitat": {
    "name": "urban",
    "url": "https://pokeapi.co/api/v2/pokemon-habitat/8/"
  },
  "is_legendary": false,
  "name": "ditto"
}
            "#;
    let not_a_ditto = parse_species(german_ditton);
    assert!(matches!(not_a_ditto, Err(NormalizeError::MissingLocalizedText)));
}

#[test]
fn cleanup_any_line_and_form_feed_characters_from_flavour_text() {
    // Rust can't represent \f in a literal, so it is written \u{000C} here.
    let flavor_text = "Its DNA is almost\nthe same as MEW's.\nHowever, its size\u{000C}and disposition\nare vastly dif­\nferent.";

    let clean = r#"Its DNA is almost the same as MEW's. However, its size and disposition are vastly dif­ ferent."#.to_string();

    assert_eq!(clean_text(flavor_text), clean)
}

#[test]
fn retrieves_mewtwo_from_pokeapi() {
    let outcome = FetchOutcome::Response { status: 200, body: RAW_MEWTWO.to_string() };

    let mewtwo = match classify_species_response("mewtwo", outcome) {
        Ok(p) => p,
        Err(_) => panic!("Failed to get ditto"),
    };

    assert_eq!(mewtwo.name, "mewtwo".to_string());
    assert_eq!(mewtwo.habitat, "rare".to_string());
    assert_eq!(
        mewtwo.description,
        "It was created by a scientist after years of horrific gene splicing and DNA engineering experiments.".to_string()
    );
    assert!(mewtwo.is_legendary);
}

#[test]
fn error_when_pokemon_isnt_real() {
    let outcome = FetchOutcome::Response { status: 404, body: "Not Found".to_string() };

    let err = classify_species_response("not-a-pokemon", outcome)
        .expect_err("should have failed to find 'not-a-pokemon'");

    match err {
        SpeciesError::NotFound { name } => assert_eq!(name, "not-a-pokemon".to_string()),
        other => panic!("unexpected error: {:?}", other),
    }
}

#[test]
fn error_when_retrieving_ditto_takes_too_long() {
    let err = classify_species_response("ditto", FetchOutcome::TransportFailure)
        .expect_err("should have failed with a timeout");

    assert!(matches!(err, SpeciesError::UpstreamUnavailable));
}

#[test]
fn response_for_ditto_is_missing_some_values() {
    let outcome = FetchOutcome::Response { status: 200, body: r#"{"name": "ditto"}"#.to_string() };

    let err = classify_species_response("ditto", outcome)
        .expect_err("should have failed due to bad json");

    assert!(matches!(err, SpeciesError::MalformedUpstreamData));
}

#[test]
fn selects_the_first_english_entry_when_there_are_several() {
    let body = r#"{
      "flavor_text_entries": [
        { "flavor_text": "zuerst", "language": { "name": "de" } },
        { "flavor_text": "first english", "language": { "name": "en" } },
        { "flavor_text": "second english", "language": { "name": "en" } }
      ],
      "habitat": { "name": "urban" },
      "is_legendary": false,
      "name": "ditto"
    }"#;

    let p = parse_species(body).expect("should normalize");
    assert_eq!(p.description, "first english".to_string());
}

#[test]
fn many_non_english_entries_still_miss_localized_text() {
    let body = r#"{
      "flavor_text_entries": [
        { "flavor_text": "eins", "language": { "name": "de" } },
        { "flavor_text": "deux", "language": { "name": "fr" } },
        { "flavor_text": "tre", "language": { "name": "it" } },
        { "flavor_text": "cuatro", "language": { "name": "es" } }
      ],
      "habitat": { "name": "urban" },
      "is_legendary": false,
      "name": "ditto"
    }"#;

    assert!(matches!(parse_species(body), Err(NormalizeError::MissingLocalizedText)));
}

#[test]
fn zero_entries_miss_localized_text() {
    let body = r#"{
      "flavor_text_entries": [],
      "habitat": { "name": "urban" },
      "is_legendary": false,
      "name": "ditto"
    }"#;

    assert!(matches!(parse_species(body), Err(NormalizeError::MissingLocalizedText)));
}

#[test]
fn malformed_entry_before_the_english_one_is_malformed_data() {
    let body = r#"{
      "flavor_text_entries": [
        { "flavor_text": "kein language-Feld" },
        { "flavor_text": "the english one", "language": { "name": "en" } }
      ],
      "habitat": { "name": "urban" },
      "is_legendary": false,
      "name": "ditto"
    }"#;

    assert!(matches!(parse_species(body), Err(NormalizeError::MalformedUpstreamData)));
}

#[test]
fn malformed_entry_after_the_english_one_is_ignored() {
    let body = r#"{
      "flavor_text_entries": [
        { "flavor_text": "the english one", "language": { "name": "en" } },
        { "some_other_field": 3 }
      ],
      "habitat": { "name": "urban" },
      "is_legendary": false,
      "name": "ditto"
    }"#;

    let p = parse_species(body).expect("should normalize");
    assert_eq!(p.description, "the english one".to_string());
}

#[test]
fn missing_habitat_is_malformed_data() {
    let body = r#"{
      "flavor_text_entries": [
        { "flavor_text": "text", "language": { "name": "en" } }
      ],
      "habitat": null,
      "is_legendary": false,
      "name": "ditto"
    }"#;

    assert!(matches!(parse_species(body), Err(NormalizeError::MalformedUpstreamData)));
}

#[test]
fn empty_name_is_malformed_data() {
    let body = r#"{
      "flavor_text_entries": [
        { "flavor_text": "text", "language": { "name": "en" } }
      ],
      "habitat": { "name": "urban" },
      "is_legendary": false,
      "name": ""
    }"#;

    assert!(matches!(parse_species(body), Err(NormalizeError::MalformedUpstreamData)));
}

#[test]
fn normalized_description_has_no_raw_breaks() {
    let p = normalize_species(RAW_MEWTWO).expect("should normalize");
    assert!(!p.description.contains('\n'));
    assert!(!p.description.contains('\u{c}'));
}

#[test]
fn species_path_is_the_escaped_species_endpoint() {
    assert_eq!(
        species_request_path("mewtwo"),
        "/api/v2/pokemon-species/mewtwo".to_string()
    );
    assert_eq!(
        species_request_path("mr. mime"),
        "/api/v2/pokemon-species/mr.%20mime".to_string()
    );
}

#[test]
fn url_escaping_covers_reserved_and_multibyte_characters() {
    assert_eq!(url_encode("abc-XYZ_0.9~"), "abc-XYZ_0.9~".to_string());
    assert_eq!(url_encode("a/b?c&d"), "a%2Fb%3Fc%26d".to_string());
    assert_eq!(url_encode("poké"), "pok%C3%A9".to_string());
    assert_eq!(url_encode(""), "".to_string());
}
