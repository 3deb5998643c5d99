use pokedex::json::{parse_json, JsonValue};
use pokedex::server::{
    api_error_json, finish_translation, help_message, help_message_json, internal_server_error,
    not_found, not_found_message, ok, plan_after_lookup, pokemon_to_json, resolution_response,
    resolve, ApiError, FetchOutcome, Plan, Pokemon, Resolution,
};
use pokedex::translation::Language;

const RAW_MEWTWO: &str = r#"{
  "flavor_text_entries": [
    {
      "flavor_text": "It was created by\na scientist after\nyears of horrific\fgene splicing and\nDNA engineering\nexperiments.",
      "language": { "name": "en" }
    }
  ],
  "habitat": { "name": "rare" },
  "is_legendary": true,
  "name": "mewtwo"
}"#;

const RAW_DIGLETT: &str = r#"{
  "flavor_text_entries": [
    {
      "flavor_text": "Lives about one yard\nunderground where it\nfeeds on plant roots.\nIt sometimes appears\nabove ground.",
      "language": { "name": "en" }
    }
  ],
  "habitat": { "name": "cave" },
  "is_legendary": false,
  "name": "diglett"
}"#;

const RAW_BULBASAUR: &str = r#"{
  "flavor_text_entries": [
    {
      "flavor_text": "A strange seed was\nplanted on its back\nat birth. The plant\nsprouts and grows with\nthis POKéMON.",
      "language": { "name": "en" }
    }
  ],
  "habitat": { "name": "grassland" },
  "is_legendary": false,
  "name": "bulbasaur"
}"#;

const DIGLETT_AS_YODA: &str = r#"{
  "success": { "total": 1 },
  "contents": {
    "translated": "On plant roots,  lives about one yard underground where it feeds.Above ground,  it sometimes appears.",
    "text": "Lives about one yard underground where it feeds on plant roots. It sometimes appears above ground.",
    "translation": "yoda"
  }
}"#;

const MEWTWO_AS_YODA: &str = r#"{
  "success": { "total": 1 },
  "contents": {
    "translated": "Created by a scientist after years of horrific gene splicing and dna engineering experiments,  it was.",
    "text": "It was created by a scientist after years of horrific gene splicing and DNA engineering experiments.",
    "translation": "yoda"
  }
}"#;

const BULBASAUR_AS_SHAKESPEARE: &str = r#"{
  "success": { "total": 1 },
  "contents": {
    "translated": "A strange seed wast planted on its back at birth. The plant sprouts and grows with this pokémon.",
    "text": "A strange seed was planted on its back at birth. The plant sprouts and grows with this POKéMON.",
    "translation": "shakespeare"
  }
}"#;

fn doc(input: &str) -> JsonValue {
    match parse_json(input) {
        Some(value) => value,
        None => panic!("Did not get valid JSON. Context\n{}", input),
    }
}

fn response(status: u16, body: &str) -> FetchOutcome {
    FetchOutcome::Response { status, body: body.to_string() }
}

#[test]
fn serializes_pokemon_responses_to_the_adequate_json() {
    let mewtwo = Pokemon {
        name: "mewtwo".into(),
        description: "It was created by scientists after years...".into(),
        habitat: "rare".into(),
        is_legendary: true,
    };

    let actual_json = pokemon_to_json(&mewtwo);

    assert_eq!(
        doc(&actual_json),
        doc(
            r#"
                {
                    "name": "mewtwo",
                    "description": "It was created by scientists after years...",
                    "habitat":"rare",
                    "isLegendary":true
                }
                "#
        )
    );
}

#[test]
fn requesting_non_existing_routes_gives_a_helpful_message_with_examples() {
    let help = help_message("/a/random/route");
    assert_eq!(help.message, "Route '/a/random/route' was not found".to_string());

    let error = help_message_json("/a/random/route");

    assert_eq!(
        doc(&error),
        doc(
            r#"
                {
                    "message": "Route '/a/random/route' was not found",
                    "help": "There are only two valid routes: '/pokemon/<name>' and '/pokemon/translated/<name>'",
                    "examples": {
                        "mewtwo": "/pokemon/mewtwo",
                        "diglett_translated": "/pokemon/translated/diglett"
                    }
                }
                "#
        )
    );
}

#[test]
fn requesting_mewtwo_makes_a_call_to_the_pokemon_api() {
    let resolution = resolve(
        "mewtwo",
        false,
        response(200, RAW_MEWTWO),
        FetchOutcome::TransportFailure,
    );

    let mewtwo = match resolution_response(resolution) {
        Ok(p) => p,
        Err((status, e)) => panic!("unexpected status {}: {}", status, e.message),
    };

    assert_eq!(
        doc(&pokemon_to_json(&mewtwo)),
        doc(
            r#"
                {
                    "name": "mewtwo",
                    "description": "It was created by a scientist after years of horrific gene splicing and DNA engineering experiments.",
                    "habitat":"rare",
                    "isLegendary":true
                }
                "#
        )
    );
}

#[test]
fn lets_users_know_when_pokemon_were_not_found() {
    let resolution = resolve(
        "mewtwo",
        false,
        response(404, "Not Found"),
        FetchOutcome::TransportFailure,
    );

    let (status, error) = resolution_response(resolution).expect_err("expected an error response");
    assert_eq!(status, 404);

    assert_eq!(
        doc(&api_error_json(&error.message)),
        doc(
            r#"
                {
                    "message": "Unable to find 'mewtwo'"
                }
                "#
        )
    );
}

#[test]
fn other_errors_result_in_a_500_error() {
    let resolution = resolve(
        "mewtwo",
        false,
        response(200, "{not_even_json}"),
        FetchOutcome::TransportFailure,
    );

    let (status, error) = resolution_response(resolution).expect_err("expected an error response");
    assert_eq!(status, 500);

    assert_eq!(
        doc(&api_error_json(&error.message)),
        doc(r#"{"message": "Internal server error"}"#)
    );
}

#[test]
fn when_asking_for_a_cave_pokemon_the_translation_is_in_yoda_speak() {
    let plan = plan_after_lookup("diglett", true, response(200, RAW_DIGLETT));
    let (pokemon, language) = match plan {
        Plan::Translate { pokemon, language } => (pokemon, language),
        other => panic!("expected a translation step, got {:?}", other),
    };
    assert_eq!(language, Language::Yoda);

    let resolution = finish_translation(pokemon, response(200, DIGLETT_AS_YODA));
    let diglett = resolution_response(resolution).expect("expected a success response");

    assert_eq!(
        doc(&pokemon_to_json(&diglett)),
        doc(
            r#"
                {
                    "name": "diglett",
                    "description": "On plant roots,  lives about one yard underground where it feeds.Above ground,  it sometimes appears.",
                    "habitat":"cave",
                    "isLegendary":false
                }
                "#
        )
    );
}

#[test]
fn when_asking_for_a_legendary_pokemon_the_translation_is_in_yoda_speak() {
    let plan = plan_after_lookup("mewtwo", true, response(200, RAW_MEWTWO));
    let (pokemon, language) = match plan {
        Plan::Translate { pokemon, language } => (pokemon, language),
        other => panic!("expected a translation step, got {:?}", other),
    };
    assert_eq!(language, Language::Yoda);

    let resolution = finish_translation(pokemon, response(200, MEWTWO_AS_YODA));
    let mewtwo = resolution_response(resolution).expect("expected a success response");

    assert_eq!(
        doc(&pokemon_to_json(&mewtwo)),
        doc(
            r#"
                {
                    "name": "mewtwo",
                    "description": "Created by a scientist after years of horrific gene splicing and dna engineering experiments,  it was.",
                    "habitat":"rare",
                    "isLegendary": true
                }
                "#
        )
    );
}

#[test]
fn non_legendary_or_cave_pokemon_are_translated_to_shakespearan_english() {
    let plan = plan_after_lookup("bulbasaur", true, response(200, RAW_BULBASAUR));
    let (pokemon, language) = match plan {
        Plan::Translate { pokemon, language } => (pokemon, language),
        other => panic!("expected a translation step, got {:?}", other),
    };
    assert_eq!(language, Language::Shakespear);

    let resolution = finish_translation(pokemon, response(200, BULBASAUR_AS_SHAKESPEARE));
    let bulbasaur = resolution_response(resolution).expect("expected a success response");

    assert_eq!(
        doc(&pokemon_to_json(&bulbasaur)),
        doc(
            r#"
                {
                    "name": "bulbasaur",
                    "description": "A strange seed wast planted on its back at birth. The plant sprouts and grows with this pokémon.",
                    "habitat":"grassland",
                    "isLegendary": false
                }
                "#
        )
    );
}

#[test]
fn when_the_translation_fails_it_falls_back_to_the_standard_description() {
    let resolution = resolve(
        "diglett",
        true,
        response(200, RAW_DIGLETT),
        response(500, "Internal server error"),
    );
    let diglett = resolution_response(resolution).expect("expected a success response");

    assert_eq!(
        doc(&pokemon_to_json(&diglett)),
        doc(
            r#"
                {
                    "name": "diglett",
                    "description": "Lives about one yard underground where it feeds on plant roots. It sometimes appears above ground.",
                    "habitat":"cave",
                    "isLegendary":false
                }
                "#
        )
    );
}

#[test]
fn when_translated_pokemon_does_not_exist_a_404_is_returned() {
    let resolution = resolve(
        "diglett",
        true,
        response(404, "Not Found"),
        FetchOutcome::TransportFailure,
    );

    let (status, error) = resolution_response(resolution).expect_err("expected an error response");
    assert_eq!(status, 404);
    assert_eq!(
        doc(&api_error_json(&error.message)),
        doc(
            r#"
                {
                    "message": "Unable to find 'diglett'"
                }
                "#
        )
    );
}

#[test]
fn when_requesting_a_translated_pokemon_fails() {
    let resolution = resolve(
        "diglett",
        true,
        response(200, r#"{not_really_even_json}"#),
        FetchOutcome::TransportFailure,
    );

    let (status, error) = resolution_response(resolution).expect_err("expected an error response");
    assert_eq!(status, 500);
    assert_eq!(
        doc(&api_error_json(&error.message)),
        doc(r#"{"message": "Internal server error"}"#)
    );
}

#[test]
fn rate_limited_translation_still_returns_the_untranslated_text() {
    let resolution = resolve(
        "diglett",
        true,
        response(200, RAW_DIGLETT),
        response(429, "Too Many Requests"),
    );
    let diglett = resolution_response(resolution).expect("expected a success response");

    assert_eq!(
        diglett.description,
        "Lives about one yard underground where it feeds on plant roots. It sometimes appears above ground.".to_string()
    );
}

#[test]
fn legendary_creature_with_broken_text_is_cleaned_and_gets_yoda_style() {
    let body = r#"{
      "flavor_text_entries": [
        {
          "flavor_text": "It was created by a scientist after years\nof horrific experiments.",
          "language": { "name": "en" }
        }
      ],
      "habitat": { "name": "rare" },
      "is_legendary": true,
      "name": "mewtwo"
    }"#;

    let plan = plan_after_lookup("mewtwo", true, response(200, body));
    let (pokemon, language) = match plan {
        Plan::Translate { pokemon, language } => (pokemon, language),
        other => panic!("expected a translation step, got {:?}", other),
    };
    assert_eq!(
        pokemon.description,
        "It was created by a scientist after years of horrific experiments.".to_string()
    );
    assert_eq!(language, Language::Yoda);
}

#[test]
fn german_only_payload_resolves_to_the_generic_internal_error() {
    let body = r#"{
      "flavor_text_entries": [
        { "flavor_text": "Es kann seine Zellstruktur...", "language": { "name": "de" } }
      ],
      "habitat": { "name": "urban" },
      "is_legendary": false,
      "name": "ditto"
    }"#;

    let resolution = resolve("ditto", true, response(200, body), FetchOutcome::TransportFailure);
    assert_eq!(resolution, Resolution::InternalError);

    let (status, error) = resolution_response(resolution).expect_err("expected an error response");
    assert_eq!(status, 500);
    assert_eq!(error.message, "Internal server error".to_string());
}

#[test]
fn resolving_the_same_name_twice_yields_identical_output() {
    let first = resolve(
        "diglett",
        true,
        response(200, RAW_DIGLETT),
        response(200, DIGLETT_AS_YODA),
    );
    let second = resolve(
        "diglett",
        true,
        response(200, RAW_DIGLETT),
        response(200, DIGLETT_AS_YODA),
    );
    assert_eq!(first, second);
}

#[test]
fn response_helpers_carry_their_statuses() {
    assert_eq!(ok::<u32>(7), Ok(7));

    match not_found::<Pokemon>("gone".to_string()) {
        Err((status, ApiError { message })) => {
            assert_eq!(status, 404);
            assert_eq!(message, "gone".to_string());
        },
        Ok(_) => panic!("expected an error"),
    }

    match internal_server_error::<Pokemon>() {
        Err((status, ApiError { message })) => {
            assert_eq!(status, 500);
            assert_eq!(message, "Internal server error".to_string());
        },
        Ok(_) => panic!("expected an error"),
    }

    assert_eq!(not_found_message("mew"), "Unable to find 'mew'".to_string());
}
