//! The gateway's own record, the orchestration of one resolution, and the
//! shapes of the outward responses.
//!
//! A resolution is a pure function of the creature name, the translation
//! switch and the outcomes of the at most two upstream calls.  The binary
//! around this crate performs the calls and hands their outcomes in; every
//! decision between them is made, and proved, here.
use vstd::prelude::*;

use crate::json::spec_quote;
use crate::pokeapi::{classify_species_response, spec_classify_species, SpeciesError, SpeciesErrorM};
use crate::translation::{
    classify_translation_response, spec_classify_translation, Language, TranslationError,
};

verus! {

/// How one outbound HTTP call ended: a response with its status and body,
/// or no response at all (timeout, failed connection).
#[derive(Debug)]
pub enum FetchOutcome {
    Response { status: u16, body: String },
    TransportFailure,
}

/// The normalized species record the gateway returns.
#[derive(Debug, PartialEq, Eq)]
pub struct Pokemon {
    pub name: String,
    pub description: String,
    pub habitat: String,
    pub is_legendary: bool,
}

/// The model of `Pokemon`.
pub struct PokemonM {
    pub name: Seq<char>,
    pub description: Seq<char>,
    pub habitat: Seq<char>,
    pub is_legendary: bool,
}

impl View for Pokemon {
    type V = PokemonM;

    open spec fn view(&self) -> PokemonM {
        PokemonM {
            name: self.name@,
            description: self.description@,
            habitat: self.habitat@,
            is_legendary: self.is_legendary,
        }
    }
}

/// The tone for a record: Yoda-style for a legendary creature and for a
/// cave dweller, Shakespearean-style for everything else.  A total
/// function of `is_legendary` and `habitat` alone.
pub open spec fn spec_select_language(is_legendary: bool, habitat: Seq<char>) -> Language {
    if is_legendary || habitat == "cave"@ {
        Language::Yoda
    } else {
        Language::Shakespear
    }
}

/// Select the tone for a record.
pub fn select_language(pokemon: &Pokemon) -> (r: Language)
    ensures
        r == spec_select_language(pokemon.is_legendary, pokemon.habitat@),
{
    if pokemon.is_legendary || crate::text::str_eq(pokemon.habitat.as_str(), "cave") {
        Language::Yoda
    } else {
        Language::Shakespear
    }
}

/// The tone rule, case by case: a legendary creature gets Yoda-style, a
/// cave habitat gets Yoda-style, everything else gets Shakespearean-style.
pub proof fn lemma_tone_selection_rule(is_legendary: bool, habitat: Seq<char>)
    ensures
        is_legendary ==> spec_select_language(is_legendary, habitat) == Language::Yoda,
        habitat == "cave"@ ==> spec_select_language(is_legendary, habitat) == Language::Yoda,
        !is_legendary && habitat != "cave"@ ==> spec_select_language(is_legendary, habitat)
            == Language::Shakespear,
{
}

/// Tone selection reads nothing but `is_legendary` and `habitat`: two
/// records that agree on those two fields select the same tone, whatever
/// their names and descriptions.
pub proof fn lemma_tone_selection_pure(a: PokemonM, b: PokemonM)
    requires
        a.is_legendary == b.is_legendary,
        a.habitat == b.habitat,
    ensures
        spec_select_language(a.is_legendary, a.habitat) == spec_select_language(
            b.is_legendary,
            b.habitat,
        ),
{
}

/// The view of a translation outcome.
pub open spec fn spec_translation_outcome(o: Result<String, TranslationError>) -> Result<
    Seq<char>,
    TranslationError,
> {
    match o {
        Ok(t) => Ok(t@),
        Err(e) => Err(e),
    }
}

/// The merge step: on success the description is replaced by the
/// translated text; on failure of any kind the record is kept as it is.
pub open spec fn spec_apply_translation(
    p: PokemonM,
    outcome: Result<Seq<char>, TranslationError>,
) -> PokemonM {
    match outcome {
        Ok(t) => PokemonM { description: t, ..p },
        Err(_) => p,
    }
}

/// Replace the description on translation success; keep the record
/// unchanged on any translation failure.
pub fn apply_translation(pokemon: Pokemon, outcome: Result<String, TranslationError>) -> (r:
    Pokemon)
    ensures
        r@ == spec_apply_translation(pokemon@, spec_translation_outcome(outcome)),
{
    match outcome {
        Ok(t) => Pokemon {
            name: pokemon.name,
            description: t,
            habitat: pokemon.habitat,
            is_legendary: pokemon.is_legendary,
        },
        Err(_) => pokemon,
    }
}

/// A finished resolution: the record, a missing creature, or an internal
/// error that hides the upstream detail.
#[derive(Debug, PartialEq, Eq)]
pub enum Resolution {
    Success(Pokemon),
    NotFound(String),
    InternalError,
}

/// The model of `Resolution`.
pub enum ResolutionM {
    Success(PokemonM),
    NotFound(Seq<char>),
    InternalError,
}

impl View for Resolution {
    type V = ResolutionM;

    open spec fn view(&self) -> ResolutionM {
        match self {
            Resolution::Success(p) => ResolutionM::Success(p@),
            Resolution::NotFound(n) => ResolutionM::NotFound(n@),
            Resolution::InternalError => ResolutionM::InternalError,
        }
    }
}

/// What remains to be done after the species lookup: the resolution is
/// final, or a translation with the selected tone is owed.
#[derive(Debug)]
pub enum Plan {
    Done(Resolution),
    Translate { pokemon: Pokemon, language: Language },
}

/// The model of `Plan`.
pub enum PlanM {
    Done(ResolutionM),
    Translate(PokemonM, Language),
}

impl View for Plan {
    type V = PlanM;

    open spec fn view(&self) -> PlanM {
        match self {
            Plan::Done(r) => PlanM::Done(r@),
            Plan::Translate { pokemon, language } => PlanM::Translate(pokemon@, *language),
        }
    }
}

/// The step after the species call: an unknown creature becomes the
/// not-found outcome carrying the requested name; any other lookup failure
/// becomes the internal-error outcome; a record is final when no
/// translation was asked for, else the tone is selected on the fresh
/// record and a translation is owed.
pub open spec fn spec_plan_after_lookup(
    name: Seq<char>,
    translate: bool,
    outcome: FetchOutcome,
) -> PlanM {
    match spec_classify_species(name, outcome) {
        Err(SpeciesErrorM::NotFound(n)) => PlanM::Done(ResolutionM::NotFound(n)),
        Err(_) => PlanM::Done(ResolutionM::InternalError),
        Ok(p) => if translate {
            PlanM::Translate(p, spec_select_language(p.is_legendary, p.habitat))
        } else {
            PlanM::Done(ResolutionM::Success(p))
        },
    }
}

/// Decide what follows the species call.
pub fn plan_after_lookup(name: &str, translate: bool, outcome: FetchOutcome) -> (r: Plan)
    ensures
        r@ == spec_plan_after_lookup(name@, translate, outcome),
{
    match classify_species_response(name, outcome) {
        Err(e) => match e {
            SpeciesError::NotFound { name: n } => Plan::Done(Resolution::NotFound(n)),
            _ => Plan::Done(Resolution::InternalError),
        },
        Ok(p) => {
            if translate {
                let language = select_language(&p);
                Plan::Translate { pokemon: p, language }
            } else {
                Plan::Done(Resolution::Success(p))
            }
        },
    }
}

/// The final record after the tone call: the description is replaced on
/// success and kept on any failure, and the resolution is a success either
/// way.
pub open spec fn spec_finish_translation(p: PokemonM, outcome: FetchOutcome) -> ResolutionM {
    ResolutionM::Success(spec_apply_translation(p, spec_classify_translation(outcome)))
}

/// Finish a resolution whose plan owed a translation.
pub fn finish_translation(pokemon: Pokemon, outcome: FetchOutcome) -> (r: Resolution)
    ensures
        r@ == spec_finish_translation(pokemon@, outcome),
{
    let t = classify_translation_response(outcome);
    Resolution::Success(apply_translation(pokemon, t))
}

/// One whole resolution, as a function of the name, the translation
/// switch and the outcomes of the two upstream calls.  Where the plan ends
/// early, the tone outcome is not consulted.
pub open spec fn spec_resolve(
    name: Seq<char>,
    translate: bool,
    species_outcome: FetchOutcome,
    translation_outcome: FetchOutcome,
) -> ResolutionM {
    match spec_plan_after_lookup(name, translate, species_outcome) {
        PlanM::Done(r) => r,
        PlanM::Translate(p, _lang) => spec_finish_translation(p, translation_outcome),
    }
}

/// Resolve a name against the two upstream outcomes.
pub fn resolve(
    name: &str,
    translate: bool,
    species_outcome: FetchOutcome,
    translation_outcome: FetchOutcome,
) -> (r: Resolution)
    ensures
        r@ == spec_resolve(name@, translate, species_outcome, translation_outcome),
{
    match plan_after_lookup(name, translate, species_outcome) {
        Plan::Done(r) => r,
        Plan::Translate { pokemon, language: _ } => finish_translation(pokemon, translation_outcome),
    }
}

/// Resolution is a pure function of its inputs: two resolutions of the
/// same name, with the same translation switch and the same upstream
/// outcomes, are identical.  No state survives a resolution to influence
/// the next one.
pub proof fn lemma_resolve_idempotent(
    name1: Seq<char>,
    translate1: bool,
    s1: FetchOutcome,
    t1: FetchOutcome,
    name2: Seq<char>,
    translate2: bool,
    s2: FetchOutcome,
    t2: FetchOutcome,
)
    requires
        name1 == name2,
        translate1 == translate2,
        s1 == s2,
        t1 == t2,
    ensures
        spec_resolve(name1, translate1, s1, t1) == spec_resolve(name2, translate2, s2, t2),
{
}

/// The fallback law: when the tone call fails for any reason — rate
/// limit, bad envelope, unreachable upstream — the finished resolution is
/// a success carrying exactly the record that went in, its description
/// untouched.
pub proof fn lemma_translation_fallback(p: PokemonM, outcome: FetchOutcome)
    requires
        spec_classify_translation(outcome) is Err,
    ensures
        spec_finish_translation(p, outcome) == ResolutionM::Success(p),
        spec_resolution_response(spec_finish_translation(p, outcome)) == Ok::<
            PokemonM,
            (u16, ApiErrorM),
        >(p),
{
}

/// The invariant of every record a resolution returns: it is the record
/// the species lookup produced, its name non-empty; its description is
/// that record's cleaned text, or — exactly when a translation was asked
/// for and the tone call succeeded — the translated text, never a mixture
/// of the two.
pub proof fn lemma_success_record_shape(
    name: Seq<char>,
    translate: bool,
    s: FetchOutcome,
    t: FetchOutcome,
)
    ensures
        spec_resolve(name, translate, s, t) matches ResolutionM::Success(p) ==> {
            &&& spec_classify_species(name, s) is Ok
            &&& p.name == spec_classify_species(name, s)->Ok_0.name
            &&& p.name.len() > 0
            &&& p.habitat == spec_classify_species(name, s)->Ok_0.habitat
            &&& p.is_legendary == spec_classify_species(name, s)->Ok_0.is_legendary
            &&& p.description == (if translate && spec_classify_translation(t) is Ok {
                spec_classify_translation(t)->Ok_0
            } else {
                spec_classify_species(name, s)->Ok_0.description
            })
        },
{
}

/// An error payload: a bare message.
#[derive(Debug, PartialEq, Eq)]
pub struct ApiError {
    pub message: String,
}

/// The model of `ApiError`.
pub struct ApiErrorM {
    pub message: Seq<char>,
}

impl View for ApiError {
    type V = ApiErrorM;

    open spec fn view(&self) -> ApiErrorM {
        ApiErrorM { message: self.message@ }
    }
}

/// What an endpoint answers: a payload, or a status code with an error
/// payload.
pub type ApiResult<T> = Result<T, (u16, ApiError)>;

/// A successful answer.
pub fn ok<T>(value: T) -> (r: ApiResult<T>)
    ensures
        r == Ok::<T, (u16, ApiError)>(value),
{
    Ok(value)
}

/// A not-found answer carrying `message`.
pub fn not_found<T>(message: String) -> (r: ApiResult<T>)
    ensures
        r == Err::<T, (u16, ApiError)>((404u16, (ApiError { message }))),
{
    Err((404, ApiError { message }))
}

/// An internal-error answer with its fixed generic message.
pub fn internal_server_error<T>() -> (r: ApiResult<T>)
    ensures
        r matches Err(e) && e.0 == 500 && e.1.message@ == "Internal server error"@,
{
    Err((500, ApiError { message: String::from_str("Internal server error") }))
}

/// The message for an unknown creature.
pub fn not_found_message(name: &str) -> (r: String)
    ensures
        r@ == "Unable to find '"@ + name@ + "'"@,
{
    let mut s = String::from_str("Unable to find '");
    s.append(name);
    s.append("'");
    s
}

/// The HTTP answer for a finished resolution: 200 with the record, 404
/// with the not-found message, 500 with the generic message.
pub open spec fn spec_resolution_response(r: ResolutionM) -> Result<PokemonM, (u16, ApiErrorM)> {
    match r {
        ResolutionM::Success(p) => Ok(p),
        ResolutionM::NotFound(n) => Err(
            (404u16, ApiErrorM { message: "Unable to find '"@ + n + "'"@ }),
        ),
        ResolutionM::InternalError => Err((500u16, ApiErrorM { message: "Internal server error"@ })),
    }
}

/// Answer a finished resolution.
pub fn resolution_response(r: Resolution) -> (out: ApiResult<Pokemon>)
    ensures
        match out {
            Ok(p) => spec_resolution_response(r@) == Ok::<PokemonM, (u16, ApiErrorM)>(p@),
            Err(e) => spec_resolution_response(r@) == Err::<PokemonM, (u16, ApiErrorM)>(
                (e.0, e.1@),
            ),
        },
{
    match r {
        Resolution::Success(p) => ok(p),
        Resolution::NotFound(n) => not_found(not_found_message(n.as_str())),
        Resolution::InternalError => internal_server_error(),
    }
}

/// The fixed example paths of the unmatched-route help payload.
#[derive(Debug)]
pub struct Examples {
    pub mewtwo: &'static str,
    pub diglett_translated: &'static str,
}

/// The unmatched-route help payload.
#[derive(Debug)]
pub struct HelpMessage {
    pub message: String,
    pub help: &'static str,
    pub examples: Examples,
}

/// The help payload for an unmatched route.
pub fn help_message(path: &str) -> (r: HelpMessage)
    ensures
        r.message@ == "Route '"@ + path@ + "' was not found"@,
        r.help@
            == "There are only two valid routes: '/pokemon/<name>' and '/pokemon/translated/<name>'"@,
        r.examples.mewtwo@ == "/pokemon/mewtwo"@,
        r.examples.diglett_translated@ == "/pokemon/translated/diglett"@,
{
    let mut message = String::from_str("Route '");
    message.append(path);
    message.append("' was not found");
    HelpMessage {
        message,
        help: "There are only two valid routes: '/pokemon/<name>' and '/pokemon/translated/<name>'",
        examples: (Examples {
            mewtwo: "/pokemon/mewtwo",
            diglett_translated: "/pokemon/translated/diglett",
        }),
    }
}

/// The response JSON for a record, in the outward field order, with
/// `is_legendary` renamed to `isLegendary`.
pub open spec fn spec_pokemon_json(p: PokemonM) -> Seq<char> {
    "{\"name\":"@ + spec_quote(p.name) + ",\"description\":"@ + spec_quote(p.description)
        + ",\"habitat\":"@ + spec_quote(p.habitat) + ",\"isLegendary\":"@ + (if p.is_legendary {
        "true"@
    } else {
        "false"@
    }) + "}"@
}

/// Write a record as its response JSON.
pub fn pokemon_to_json(pokemon: &Pokemon) -> (r: String)
    ensures
        r@ == spec_pokemon_json(pokemon@),
{
    let mut s = String::from_str("{\"name\":");
    s.append(crate::json::json_quote(pokemon.name.as_str()).as_str());
    s.append(",\"description\":");
    s.append(crate::json::json_quote(pokemon.description.as_str()).as_str());
    s.append(",\"habitat\":");
    s.append(crate::json::json_quote(pokemon.habitat.as_str()).as_str());
    s.append(",\"isLegendary\":");
    if pokemon.is_legendary {
        s.append("true");
    } else {
        s.append("false");
    }
    s.append("}");
    s
}

/// The error payload JSON for a message.
pub open spec fn spec_api_error_json(message: Seq<char>) -> Seq<char> {
    "{\"message\":"@ + spec_quote(message) + "}"@
}

/// Write an error payload as JSON.
pub fn api_error_json(message: &str) -> (r: String)
    ensures
        r@ == spec_api_error_json(message@),
{
    let mut s = String::from_str("{\"message\":");
    s.append(crate::json::json_quote(message).as_str());
    s.append("}");
    s
}

/// The help payload JSON for an unmatched route.
pub open spec fn spec_help_json(path: Seq<char>) -> Seq<char> {
    "{\"message\":"@ + spec_quote("Route '"@ + path + "' was not found"@) + ",\"help\":"@
        + spec_quote(
        "There are only two valid routes: '/pokemon/<name>' and '/pokemon/translated/<name>'"@,
    ) + ",\"examples\":{\"mewtwo\":"@ + spec_quote("/pokemon/mewtwo"@)
        + ",\"diglett_translated\":"@ + spec_quote("/pokemon/translated/diglett"@) + "}}"@
}

/// Write the help payload for an unmatched route as JSON.
pub fn help_message_json(path: &str) -> (r: String)
    ensures
        r@ == spec_help_json(path@),
{
    let h = help_message(path);
    let mut s = String::from_str("{\"message\":");
    s.append(crate::json::json_quote(h.message.as_str()).as_str());
    s.append(",\"help\":");
    s.append(crate::json::json_quote(h.help).as_str());
    s.append(",\"examples\":{\"mewtwo\":");
    s.append(crate::json::json_quote(h.examples.mewtwo).as_str());
    s.append(",\"diglett_translated\":");
    s.append(crate::json::json_quote(h.examples.diglett_translated).as_str());
    s.append("}}");
    s
}

} // verus!
