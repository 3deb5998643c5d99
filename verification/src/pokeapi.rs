//! The reference API's species payload: normalization and outcome
//! classification.
//!
//! A species payload is a JSON object carrying `name`, `is_legendary`,
//! `habitat.name` and a list of localized flavor-text entries.  The
//! normalizer selects the first English-tagged entry, cleans it, and maps
//! the fields onto the gateway's own record.
use vstd::prelude::*;

use crate::json::{spec_obj_get, spec_parse_json, Json, JsonValue};
use crate::server::{FetchOutcome, Pokemon, PokemonM};

verus! {

/// A single cleaned description character: a newline or a form feed
/// becomes one space, every other character is kept as it is.
pub open spec fn clean_char(c: char) -> char {
    if c == '\n' || c == '\u{c}' {
        ' '
    } else {
        c
    }
}

/// The cleaned form of a description: every newline and form feed replaced
/// by a space, all other characters untouched.
pub open spec fn spec_clean_text(s: Seq<char>) -> Seq<char> {
    s.map_values(|c: char| clean_char(c))
}

/// Replace every newline and form-feed character of `input` with a space.
pub fn clean_text(input: &str) -> (r: String)
    ensures
        r@ == spec_clean_text(input@),
{
    let n: usize = input.unicode_len();
    let mut out: Vec<char> = Vec::new();
    let mut i: usize = 0;
    while i < n
        invariant
            n == input@.len(),
            i <= n,
            out@ == spec_clean_text(input@.take(i as int)),
        decreases n - i,
    {
        let c = input.get_char(i);
        let cc: char = if c == '\n' || c == '\u{c}' {
            ' '
        } else {
            c
        };
        out.push(cc);
        proof {
            assert(spec_clean_text(input@.take(i + 1 as int)) =~= spec_clean_text(
                input@.take(i as int),
            ).push(clean_char(input@[i as int])));
        }
        i = i + 1;
    }
    proof {
        assert(input@.take(n as int) =~= input@);
    }
    crate::text::chars_to_string(&out)
}

/// Why a species payload could not be turned into a record: the payload
/// does not have the required shape, or it has no English-tagged entry.
#[derive(Clone, Copy, Debug, PartialEq, Eq, Structural)]
pub enum NormalizeError {
    MalformedUpstreamData,
    MissingLocalizedText,
}

/// The raw species record as the upstream payload carries it: the selected
/// flavor text is still uncleaned.
#[derive(Debug)]
pub struct ExternalPokemon {
    pub name: String,
    pub is_legendary: bool,
    pub habitat: String,
    pub description: String,
}

/// The model of `ExternalPokemon`.
pub struct ExternalPokemonM {
    pub name: Seq<char>,
    pub is_legendary: bool,
    pub habitat: Seq<char>,
    pub description: Seq<char>,
}

impl View for ExternalPokemon {
    type V = ExternalPokemonM;

    open spec fn view(&self) -> ExternalPokemonM {
        ExternalPokemonM {
            name: self.name@,
            is_legendary: self.is_legendary,
            habitat: self.habitat@,
            description: self.description@,
        }
    }
}

/// The flavor text and language tag of one entry, if the entry has the
/// required shape.
pub open spec fn spec_entry_fields(e: Json) -> Option<(Seq<char>, Seq<char>)> {
    match e {
        Json::Obj(fs) => match spec_obj_get(fs, "flavor_text"@) {
            Some(Json::Str(ft)) => match spec_obj_get(fs, "language"@) {
                Some(Json::Obj(lf)) => match spec_obj_get(lf, "name"@) {
                    Some(Json::Str(ln)) => Some((ft, ln)),
                    _ => None,
                },
                _ => None,
            },
            _ => None,
        },
        _ => None,
    }
}

/// What a scan of the flavor-text entries yields.
pub enum ScanOutcome {
    /// The first English-tagged flavor text, uncleaned.
    Found(Seq<char>),
    /// Every entry is well-formed and none is English-tagged.
    NoEnglish,
    /// A malformed entry stands before any English-tagged one.
    Malformed,
}

/// Scan the entries in their given order for the first English-tagged
/// flavor text; entries after that one are not inspected.
pub open spec fn spec_scan_entries(es: Seq<Json>) -> ScanOutcome
    decreases es.len(),
{
    if es.len() == 0 {
        ScanOutcome::NoEnglish
    } else {
        match spec_entry_fields(es[0]) {
            None => ScanOutcome::Malformed,
            Some((ft, ln)) => if ln == "en"@ {
                ScanOutcome::Found(ft)
            } else {
                spec_scan_entries(es.drop_first())
            },
        }
    }
}

/// The raw species record held in the payload model `j`, or the error that
/// ends normalization.
pub open spec fn spec_extract(j: Json) -> Result<ExternalPokemonM, NormalizeError> {
    match j {
        Json::Obj(fs) => match spec_obj_get(fs, "name"@) {
            Some(Json::Str(nm)) => match spec_obj_get(fs, "is_legendary"@) {
                Some(Json::Bool(leg)) => match spec_obj_get(fs, "habitat"@) {
                    Some(Json::Obj(hf)) => match spec_obj_get(hf, "name"@) {
                        Some(Json::Str(hn)) => match spec_obj_get(fs, "flavor_text_entries"@) {
                            Some(Json::Arr(es)) => if nm.len() == 0 {
                                Err(NormalizeError::MalformedUpstreamData)
                            } else {
                                match spec_scan_entries(es) {
                                    ScanOutcome::Found(ft) => Ok(
                                        ExternalPokemonM {
                                            name: nm,
                                            is_legendary: leg,
                                            habitat: hn,
                                            description: ft,
                                        },
                                    ),
                                    ScanOutcome::NoEnglish => Err(
                                        NormalizeError::MissingLocalizedText,
                                    ),
                                    ScanOutcome::Malformed => Err(
                                        NormalizeError::MalformedUpstreamData,
                                    ),
                                }
                            },
                            _ => Err(NormalizeError::MalformedUpstreamData),
                        },
                        _ => Err(NormalizeError::MalformedUpstreamData),
                    },
                    _ => Err(NormalizeError::MalformedUpstreamData),
                },
                _ => Err(NormalizeError::MalformedUpstreamData),
            },
            _ => Err(NormalizeError::MalformedUpstreamData),
        },
        _ => Err(NormalizeError::MalformedUpstreamData),
    }
}

/// The raw species record denoted by the payload text `s`.
pub open spec fn spec_parse_species(s: Seq<char>) -> Result<ExternalPokemonM, NormalizeError> {
    match spec_parse_json(s) {
        None => Err(NormalizeError::MalformedUpstreamData),
        Some(j) => spec_extract(j),
    }
}

fn entry_fields(e: &JsonValue) -> (r: Option<(String, String)>)
    ensures
        match r {
            Some(p) => spec_entry_fields(e.jm()) == Some((p.0@, p.1@)),
            None => spec_entry_fields(e.jm()) is None,
        },
{
    match e {
        JsonValue::Obj(fs) => match crate::json::obj_get(fs, "flavor_text") {
            Some(JsonValue::Str(ft)) => match crate::json::obj_get(fs, "language") {
                Some(JsonValue::Obj(lf)) => match crate::json::obj_get(lf, "name") {
                    Some(JsonValue::Str(ln)) => Some((ft.clone(), ln.clone())),
                    _ => None,
                },
                _ => None,
            },
            _ => None,
        },
        _ => None,
    }
}

fn scan_entries(es: &Vec<JsonValue>) -> (r: Result<String, NormalizeError>)
    ensures
        match r {
            Ok(t) => spec_scan_entries(crate::json::jm_items(*es)) == ScanOutcome::Found(t@),
            Err(NormalizeError::MissingLocalizedText) => spec_scan_entries(
                crate::json::jm_items(*es),
            ) == ScanOutcome::NoEnglish,
            Err(NormalizeError::MalformedUpstreamData) => spec_scan_entries(
                crate::json::jm_items(*es),
            ) == ScanOutcome::Malformed,
        },
{
    let ghost full = crate::json::jm_items(*es);
    let mut i: usize = 0;
    proof {
        assert(full.skip(0) =~= full);
    }
    while i < es.len()
        invariant
            i <= es@.len(),
            full == crate::json::jm_items(*es),
            spec_scan_entries(full) == spec_scan_entries(full.skip(i as int)),
        decreases es@.len() - i,
    {
        proof {
            assert(full.skip(i as int)[0] == full[i as int]);
            assert(full[i as int] == es@[i as int].jm());
        }
        match entry_fields(&es[i]) {
            None => {
                return Err(NormalizeError::MalformedUpstreamData);
            },
            Some((ft, ln)) => {
                if crate::text::str_eq(ln.as_str(), "en") {
                    return Ok(ft);
                }
                proof {
                    assert(full.skip(i as int).drop_first() =~= full.skip(i + 1 as int));
                }
            },
        }
        i = i + 1;
    }
    proof {
        assert(full.skip(es@.len() as int) =~= Seq::<Json>::empty());
    }
    Err(NormalizeError::MissingLocalizedText)
}

/// Extract the raw species record from a parsed payload.
pub fn extract_species(v: &JsonValue) -> (r: Result<ExternalPokemon, NormalizeError>)
    ensures
        match r {
            Ok(p) => spec_extract(v.jm()) == Ok::<ExternalPokemonM, NormalizeError>(p@),
            Err(e) => spec_extract(v.jm()) == Err::<ExternalPokemonM, NormalizeError>(e),
        },
{
    match v {
        JsonValue::Obj(fs) => match crate::json::obj_get(fs, "name") {
            Some(JsonValue::Str(nm)) => match crate::json::obj_get(fs, "is_legendary") {
                Some(JsonValue::Bool(leg)) => match crate::json::obj_get(fs, "habitat") {
                    Some(JsonValue::Obj(hf)) => match crate::json::obj_get(hf, "name") {
                        Some(JsonValue::Str(hn)) => match crate::json::obj_get(
                            fs,
                            "flavor_text_entries",
                        ) {
                            Some(JsonValue::Arr(es)) => if nm.as_str().is_empty() {
                                Err(NormalizeError::MalformedUpstreamData)
                            } else {
                                match scan_entries(es) {
                                    Ok(ft) => Ok(
                                        ExternalPokemon {
                                            name: nm.clone(),
                                            is_legendary: *leg,
                                            habitat: hn.clone(),
                                            description: ft,
                                        },
                                    ),
                                    Err(e) => Err(e),
                                }
                            },
                            _ => Err(NormalizeError::MalformedUpstreamData),
                        },
                        _ => Err(NormalizeError::MalformedUpstreamData),
                    },
                    _ => Err(NormalizeError::MalformedUpstreamData),
                },
                _ => Err(NormalizeError::MalformedUpstreamData),
            },
            _ => Err(NormalizeError::MalformedUpstreamData),
        },
        _ => Err(NormalizeError::MalformedUpstreamData),
    }
}

/// Parse a species payload text into the raw species record.
pub fn parse_species(body: &str) -> (r: Result<ExternalPokemon, NormalizeError>)
    ensures
        match r {
            Ok(p) => spec_parse_species(body@) == Ok::<ExternalPokemonM, NormalizeError>(p@),
            Err(e) => spec_parse_species(body@) == Err::<ExternalPokemonM, NormalizeError>(e),
        },
{
    match crate::json::parse_json(body) {
        None => Err(NormalizeError::MalformedUpstreamData),
        Some(v) => extract_species(&v),
    }
}

/// The normalized record for a raw species record: the description is
/// cleaned, everything else is passed through.
pub open spec fn spec_normalized(e: ExternalPokemonM) -> PokemonM {
    PokemonM {
        name: e.name,
        description: spec_clean_text(e.description),
        habitat: e.habitat,
        is_legendary: e.is_legendary,
    }
}

impl Pokemon {
    /// Turn a raw species record into the gateway's record, cleaning the
    /// description text.
    pub fn from(api_pokemon: ExternalPokemon) -> (r: Pokemon)
        ensures
            r@ == spec_normalized(api_pokemon@),
    {
        let description = clean_text(api_pokemon.description.as_str());
        Pokemon {
            name: api_pokemon.name,
            description,
            habitat: api_pokemon.habitat,
            is_legendary: api_pokemon.is_legendary,
        }
    }
}

/// The normalized record denoted by the payload text `s`, or the error
/// that ends normalization.
pub open spec fn spec_normalize_species(s: Seq<char>) -> Result<PokemonM, NormalizeError> {
    match spec_parse_species(s) {
        Ok(e) => Ok(spec_normalized(e)),
        Err(er) => Err(er),
    }
}

/// Parse and normalize a species payload text.
pub fn normalize_species(body: &str) -> (r: Result<Pokemon, NormalizeError>)
    ensures
        match r {
            Ok(p) => spec_normalize_species(body@) == Ok::<PokemonM, NormalizeError>(p@),
            Err(e) => spec_normalize_species(body@) == Err::<PokemonM, NormalizeError>(e),
        },
{
    match parse_species(body) {
        Ok(e) => Ok(Pokemon::from(e)),
        Err(er) => Err(er),
    }
}

/// Why a species lookup failed.
#[derive(Debug)]
pub enum SpeciesError {
    /// The reference API knows no creature of this name.
    NotFound { name: String },
    /// The reference API did not answer, or answered with an unexpected
    /// status.
    UpstreamUnavailable,
    /// The payload does not have the required shape.
    MalformedUpstreamData,
    /// The payload carries no English-tagged flavor text.
    MissingLocalizedText,
}

/// The model of `SpeciesError`.
pub enum SpeciesErrorM {
    NotFound(Seq<char>),
    UpstreamUnavailable,
    MalformedUpstreamData,
    MissingLocalizedText,
}

impl View for SpeciesError {
    type V = SpeciesErrorM;

    open spec fn view(&self) -> SpeciesErrorM {
        match self {
            SpeciesError::NotFound { name } => SpeciesErrorM::NotFound(name@),
            SpeciesError::UpstreamUnavailable => SpeciesErrorM::UpstreamUnavailable,
            SpeciesError::MalformedUpstreamData => SpeciesErrorM::MalformedUpstreamData,
            SpeciesError::MissingLocalizedText => SpeciesErrorM::MissingLocalizedText,
        }
    }
}

/// The species lookup result for one call outcome: 404 means the creature
/// is unknown; any other non-2xx status or a transport failure means the
/// upstream is unavailable; a 2xx body runs through normalization.
pub open spec fn spec_classify_species(name: Seq<char>, outcome: FetchOutcome) -> Result<
    PokemonM,
    SpeciesErrorM,
> {
    match outcome {
        FetchOutcome::TransportFailure => Err(SpeciesErrorM::UpstreamUnavailable),
        FetchOutcome::Response { status, body } => if status == 404 {
            Err(SpeciesErrorM::NotFound(name))
        } else if !(200 <= status && status < 300) {
            Err(SpeciesErrorM::UpstreamUnavailable)
        } else {
            match spec_normalize_species(body@) {
                Ok(p) => Ok(p),
                Err(NormalizeError::MalformedUpstreamData) => Err(
                    SpeciesErrorM::MalformedUpstreamData,
                ),
                Err(NormalizeError::MissingLocalizedText) => Err(
                    SpeciesErrorM::MissingLocalizedText,
                ),
            }
        },
    }
}

/// Map the outcome of the species call onto a record or an error, exactly
/// as `spec_classify_species` says.
pub fn classify_species_response(name: &str, outcome: FetchOutcome) -> (r: Result<
    Pokemon,
    SpeciesError,
>)
    ensures
        match r {
            Ok(p) => spec_classify_species(name@, outcome) == Ok::<PokemonM, SpeciesErrorM>(p@),
            Err(e) => spec_classify_species(name@, outcome) == Err::<PokemonM, SpeciesErrorM>(e@),
        },
{
    match outcome {
        FetchOutcome::TransportFailure => Err(SpeciesError::UpstreamUnavailable),
        FetchOutcome::Response { status, body } => {
            if status == 404 {
                Err(SpeciesError::NotFound { name: name.to_owned() })
            } else if !(200 <= status && status < 300) {
                Err(SpeciesError::UpstreamUnavailable)
            } else {
                match normalize_species(body.as_str()) {
                    Ok(p) => Ok(p),
                    Err(NormalizeError::MalformedUpstreamData) => Err(
                        SpeciesError::MalformedUpstreamData,
                    ),
                    Err(NormalizeError::MissingLocalizedText) => Err(
                        SpeciesError::MissingLocalizedText,
                    ),
                }
            }
        },
    }
}

/// A character that may stand unescaped in a URL path segment.
pub open spec fn is_unreserved(c: char) -> bool {
    ('a' <= c && c <= 'z') || ('A' <= c && c <= 'Z') || ('0' <= c && c <= '9') || c == '-' || c
        == '.' || c == '_' || c == '~'
}

/// The UTF-8 encoding of one character.
pub open spec fn spec_utf8(c: char) -> Seq<u8> {
    let v = c as int;
    if v < 0x80 {
        seq![v as u8]
    } else if v < 0x800 {
        seq![(0xC0 + v / 64) as u8, (0x80 + v % 64) as u8]
    } else if v < 0x10000 {
        seq![(0xE0 + v / 4096) as u8, (0x80 + (v / 64) % 64) as u8, (0x80 + v % 64) as u8]
    } else {
        seq![
            (0xF0 + v / 262144) as u8,
            (0x80 + (v / 4096) % 64) as u8,
            (0x80 + (v / 64) % 64) as u8,
            (0x80 + v % 64) as u8,
        ]
    }
}

/// The upper-case hexadecimal digit for `v`.
pub open spec fn spec_hex_upper(v: int) -> char {
    if v < 10 {
        (('0' as int) + v) as char
    } else {
        (('A' as int) + v - 10) as char
    }
}

/// The percent-escapes for the bytes `bs`, in order.
pub open spec fn spec_pct_bytes(bs: Seq<u8>) -> Seq<char>
    decreases bs.len(),
{
    if bs.len() == 0 {
        Seq::empty()
    } else {
        spec_pct_bytes(bs.drop_last()) + seq![
            '%',
            spec_hex_upper(bs.last() as int / 16),
            spec_hex_upper(bs.last() as int % 16),
        ]
    }
}

/// The URL-escaped form of one character: unreserved characters stand as
/// they are, every other character as the percent-escapes of its UTF-8
/// bytes.
pub open spec fn spec_url_char(c: char) -> Seq<char> {
    if is_unreserved(c) {
        seq![c]
    } else {
        spec_pct_bytes(spec_utf8(c))
    }
}

/// The URL-escaped form of `s`.
pub open spec fn spec_url_encode(s: Seq<char>) -> Seq<char>
    decreases s.len(),
{
    if s.len() == 0 {
        Seq::empty()
    } else {
        spec_url_encode(s.drop_last()) + spec_url_char(s.last())
    }
}

fn hex_upper(v: u32) -> (r: char)
    requires
        v < 16,
    ensures
        r == spec_hex_upper(v as int),
{
    if v < 10 {
        let c = crate::text::char_from_u32(('0' as u32) + v).unwrap();
        proof {
            let x: int = ('0' as int) + v as int;
            assert(c as int == x);
            assert((x as char) as int == x);
            assert(c == (x as char));
        }
        c
    } else {
        let c = crate::text::char_from_u32(('A' as u32) + v - 10).unwrap();
        proof {
            let x: int = ('A' as int) + v as int - 10;
            assert(c as int == x);
            assert((x as char) as int == x);
            assert(c == (x as char));
        }
        c
    }
}

fn utf8_bytes(c: char) -> (r: Vec<u8>)
    ensures
        r@ == spec_utf8(c),
{
    let v: u32 = c as u32;
    let mut out: Vec<u8> = Vec::new();
    if v < 0x80 {
        out.push(v as u8);
    } else if v < 0x800 {
        out.push((0xC0 + v / 64) as u8);
        out.push((0x80 + v % 64) as u8);
    } else if v < 0x10000 {
        out.push((0xE0 + v / 4096) as u8);
        out.push((0x80 + (v / 64) % 64) as u8);
        out.push((0x80 + v % 64) as u8);
    } else {
        out.push((0xF0 + v / 262144) as u8);
        out.push((0x80 + (v / 4096) % 64) as u8);
        out.push((0x80 + (v / 64) % 64) as u8);
        out.push((0x80 + v % 64) as u8);
    }
    proof {
        assert(out@ =~= spec_utf8(c));
    }
    out
}

fn is_unreserved_x(c: char) -> (r: bool)
    ensures
        r == is_unreserved(c),
{
    ('a' <= c && c <= 'z') || ('A' <= c && c <= 'Z') || ('0' <= c && c <= '9') || c == '-' || c
        == '.' || c == '_' || c == '~'
}

/// URL-escape `s` for use as one path segment.
pub fn url_encode(s: &str) -> (r: String)
    ensures
        r@ == spec_url_encode(s@),
{
    let n: usize = s.unicode_len();
    let mut out: Vec<char> = Vec::new();
    let mut i: usize = 0;
    proof {
        assert(out@ =~= spec_url_encode(s@.take(0)));
    }
    while i < n
        invariant
            n == s@.len(),
            i <= n,
            out@ == spec_url_encode(s@.take(i as int)),
        decreases n - i,
    {
        let c = s.get_char(i);
        if is_unreserved_x(c) {
            out.push(c);
        } else {
            let bs = utf8_bytes(c);
            let ghost base = out@;
            let mut j: usize = 0;
            proof {
                assert(base + spec_pct_bytes(bs@.take(0)) =~= base);
            }
            while j < bs.len()
                invariant
                    j <= bs@.len(),
                    out@ == base + spec_pct_bytes(bs@.take(j as int)),
                    bs@ == spec_utf8(c),
                decreases bs@.len() - j,
            {
                let b = bs[j];
                out.push('%');
                out.push(hex_upper((b as u32) / 16));
                out.push(hex_upper((b as u32) % 16));
                proof {
                    assert(bs@.take(j + 1 as int).drop_last() =~= bs@.take(j as int));
                    assert(bs@.take(j + 1 as int).last() == bs@[j as int]);
                    assert(spec_pct_bytes(bs@.take(j + 1 as int)) == spec_pct_bytes(
                        bs@.take(j as int),
                    ) + seq![
                        '%',
                        spec_hex_upper(bs@[j as int] as int / 16),
                        spec_hex_upper(bs@[j as int] as int % 16),
                    ]);
                    assert(out@ =~= base + spec_pct_bytes(bs@.take(j + 1 as int)));
                }
                j = j + 1;
            }
            proof {
                assert(bs@.take(bs@.len() as int) =~= bs@);
            }
        }
        proof {
            assert(s@.take(i + 1 as int).drop_last() =~= s@.take(i as int));
            assert(s@.take(i + 1 as int).last() == s@[i as int]);
            assert(out@ =~= spec_url_encode(s@.take(i + 1 as int)));
        }
        i = i + 1;
    }
    proof {
        assert(s@.take(n as int) =~= s@);
    }
    crate::text::chars_to_string(&out)
}

/// The species endpoint path for `name`, URL-escaped.
pub fn species_request_path(name: &str) -> (r: String)
    ensures
        r@ == "/api/v2/pokemon-species/"@ + spec_url_encode(name@),
{
    let base = String::from_str("/api/v2/pokemon-species/");
    base.concat(url_encode(name).as_str())
}

/// A cleaned text holds no raw newline and no raw form feed.
pub proof fn lemma_clean_text_no_breaks(s: Seq<char>)
    ensures
        forall|i: int|
            0 <= i < spec_clean_text(s).len() ==> #[trigger] spec_clean_text(s)[i] != '\n'
                && spec_clean_text(s)[i] != '\u{c}',
{
    assert forall|i: int| 0 <= i < spec_clean_text(s).len() implies #[trigger] spec_clean_text(s)[i]
        != '\n' && spec_clean_text(s)[i] != '\u{c}' by {
        assert(spec_clean_text(s)[i] == clean_char(s[i]));
    }
}

/// Where entry `k` is English-tagged and every entry before it is
/// well-formed and tagged otherwise, the scan selects exactly entry `k`'s
/// text: the first English-tagged entry wins, in the given order.
pub proof fn lemma_scan_finds_first_english(es: Seq<Json>, k: int)
    requires
        0 <= k < es.len(),
        spec_entry_fields(es[k]) is Some,
        (spec_entry_fields(es[k])->0).1 == "en"@,
        forall|j: int|
            0 <= j < k ==> (#[trigger] spec_entry_fields(es[j])) is Some && (spec_entry_fields(
                es[j],
            )->0).1 != "en"@,
    ensures
        spec_scan_entries(es) == ScanOutcome::Found((spec_entry_fields(es[k])->0).0),
    decreases k,
{
    if k > 0 {
        let tail = es.drop_first();
        assert(tail[k - 1] == es[k]);
        assert forall|j: int| 0 <= j < k - 1 implies (#[trigger] spec_entry_fields(tail[j])) is Some
            && (spec_entry_fields(tail[j])->0).1 != "en"@ by {
            assert(tail[j] == es[j + 1]);
        }
        lemma_scan_finds_first_english(tail, k - 1);
    }
}

/// For every payload of the required shape whose entry list holds an
/// English-tagged entry — entry `k` the first such — normalization
/// succeeds, the record's description is exactly that entry's cleaned
/// text, and the description holds no raw newline and no raw form feed.
pub proof fn lemma_normalizer_selects_first_english(
    s: Seq<char>,
    fs: Seq<(Seq<char>, Json)>,
    hf: Seq<(Seq<char>, Json)>,
    es: Seq<Json>,
    k: int,
)
    requires
        spec_parse_json(s) == Some(Json::Obj(fs)),
        spec_obj_get(fs, "name"@) matches Some(Json::Str(nm)) && nm.len() > 0,
        spec_obj_get(fs, "is_legendary"@) matches Some(Json::Bool(leg)),
        spec_obj_get(fs, "habitat"@) == Some(Json::Obj(hf)),
        spec_obj_get(hf, "name"@) matches Some(Json::Str(hn)),
        spec_obj_get(fs, "flavor_text_entries"@) == Some(Json::Arr(es)),
        0 <= k < es.len(),
        spec_entry_fields(es[k]) is Some,
        (spec_entry_fields(es[k])->0).1 == "en"@,
        forall|j: int|
            0 <= j < k ==> (#[trigger] spec_entry_fields(es[j])) is Some && (spec_entry_fields(
                es[j],
            )->0).1 != "en"@,
    ensures
        spec_normalize_species(s) is Ok,
        spec_normalize_species(s)->Ok_0.description == spec_clean_text(
            (spec_entry_fields(es[k])->0).0,
        ),
        forall|i: int|
            0 <= i < spec_normalize_species(s)->Ok_0.description.len()
                ==> #[trigger] spec_normalize_species(s)->Ok_0.description[i] != '\n'
                && spec_normalize_species(s)->Ok_0.description[i] != '\u{c}',
{
    lemma_scan_finds_first_english(es, k);
    lemma_clean_text_no_breaks((spec_entry_fields(es[k])->0).0);
}

/// For every payload of the required shape with zero English-tagged
/// entries, normalization fails with `MissingLocalizedText`, however many
/// well-formed entries of other languages the payload holds.
pub proof fn lemma_no_english_fails_normalization(
    s: Seq<char>,
    fs: Seq<(Seq<char>, Json)>,
    hf: Seq<(Seq<char>, Json)>,
    es: Seq<Json>,
)
    requires
        spec_parse_json(s) == Some(Json::Obj(fs)),
        spec_obj_get(fs, "name"@) matches Some(Json::Str(nm)) && nm.len() > 0,
        spec_obj_get(fs, "is_legendary"@) matches Some(Json::Bool(leg)),
        spec_obj_get(fs, "habitat"@) == Some(Json::Obj(hf)),
        spec_obj_get(hf, "name"@) matches Some(Json::Str(hn)),
        spec_obj_get(fs, "flavor_text_entries"@) == Some(Json::Arr(es)),
        forall|j: int|
            0 <= j < es.len() ==> (#[trigger] spec_entry_fields(es[j])) is Some && (
            spec_entry_fields(es[j])->0).1 != "en"@,
    ensures
        spec_normalize_species(s) == Err::<PokemonM, NormalizeError>(
            NormalizeError::MissingLocalizedText,
        ),
{
    lemma_scan_no_english(es);
}

/// With no English-tagged entry among well-formed entries, the scan ends
/// in `NoEnglish`, however many entries of other languages there are.
pub proof fn lemma_scan_no_english(es: Seq<Json>)
    requires
        forall|j: int|
            0 <= j < es.len() ==> (#[trigger] spec_entry_fields(es[j])) is Some && (
            spec_entry_fields(es[j])->0).1 != "en"@,
    ensures
        spec_scan_entries(es) == ScanOutcome::NoEnglish,
    decreases es.len(),
{
    if es.len() > 0 {
        let tail = es.drop_first();
        assert forall|j: int| 0 <= j < tail.len() implies (#[trigger] spec_entry_fields(
            tail[j],
        )) is Some && (spec_entry_fields(tail[j])->0).1 != "en"@ by {
            assert(tail[j] == es[j + 1]);
        }
        lemma_scan_no_english(tail);
    }
}

} // verus!
