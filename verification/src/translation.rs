//! The tone-translation API: request shaping, envelope parsing and outcome
//! classification.
use vstd::prelude::*;

use crate::json::{spec_obj_get, spec_parse_json, spec_quote, Json, JsonValue};
use crate::server::FetchOutcome;

verus! {

/// The two rewriting tones the gateway knows.
#[derive(Clone, Copy, Debug, PartialEq, Eq, Structural)]
pub enum Language {
    Yoda,
    Shakespear,
}

/// The fixed path segment of a tone.
pub open spec fn spec_lang_segment(lang: Language) -> Seq<char> {
    match lang {
        Language::Yoda => "yoda"@,
        Language::Shakespear => "shakespeare"@,
    }
}

/// The fixed path segment of a tone.
pub fn lang_segment(lang: Language) -> (r: &'static str)
    ensures
        r@ == spec_lang_segment(lang),
{
    match lang {
        Language::Yoda => "yoda",
        Language::Shakespear => "shakespeare",
    }
}

/// The endpoint path for a tone.
pub fn translation_request_path(lang: Language) -> (r: String)
    ensures
        r@ == "/translate/"@ + spec_lang_segment(lang),
{
    String::from_str("/translate/").concat(lang_segment(lang))
}

/// The JSON body `{"text": ...}` carrying the text to translate.
pub open spec fn spec_request_body(text: Seq<char>) -> Seq<char> {
    "{\"text\":"@ + spec_quote(text) + "}"@
}

/// Write the request body that carries `text` to the tone API.
pub fn translation_request_body(text: &str) -> (r: String)
    ensures
        r@ == spec_request_body(text@),
{
    let mut s = String::from_str("{\"text\":");
    s.append(crate::json::json_quote(text).as_str());
    s.append("}");
    s
}

/// The two text fields of the envelope's `contents` object.
#[derive(Debug)]
pub struct Contents {
    pub text: String,
    pub translated: String,
}

/// The model of `Contents`.
pub struct ContentsM {
    pub text: Seq<char>,
    pub translated: Seq<char>,
}

impl View for Contents {
    type V = ContentsM;

    open spec fn view(&self) -> ContentsM {
        ContentsM { text: self.text@, translated: self.translated@ }
    }
}

/// Why a translation call failed.
#[derive(Clone, Copy, Debug, PartialEq, Eq, Structural)]
pub enum TranslationError {
    /// The tone API answered with status 429.
    RateLimited,
    /// A successful response whose body is not the expected envelope.
    InvalidResponseShape,
    /// The tone API did not answer, or answered with an unexpected status.
    UpstreamUnavailable,
}

/// The envelope's contents, if the body has the expected shape: an object
/// whose `contents` member carries the string members `text` and
/// `translated`.
pub open spec fn spec_parse_envelope(s: Seq<char>) -> Option<ContentsM> {
    match spec_parse_json(s) {
        Some(Json::Obj(fs)) => match spec_obj_get(fs, "contents"@) {
            Some(Json::Obj(cf)) => match spec_obj_get(cf, "text"@) {
                Some(Json::Str(t)) => match spec_obj_get(cf, "translated"@) {
                    Some(Json::Str(tr)) => Some(ContentsM { text: t, translated: tr }),
                    _ => None,
                },
                _ => None,
            },
            _ => None,
        },
        _ => None,
    }
}

/// Parse a translation response body into the envelope's contents.
pub fn parse_envelope(body: &str) -> (r: Option<Contents>)
    ensures
        match r {
            Some(c) => spec_parse_envelope(body@) == Some(c@),
            None => spec_parse_envelope(body@) is None,
        },
{
    match crate::json::parse_json(body) {
        Some(v) => match v {
            JsonValue::Obj(fs) => match crate::json::obj_get(&fs, "contents") {
                Some(JsonValue::Obj(cf)) => match crate::json::obj_get(cf, "text") {
                    Some(JsonValue::Str(t)) => match crate::json::obj_get(cf, "translated") {
                        Some(JsonValue::Str(tr)) => Some(
                            Contents { text: t.clone(), translated: tr.clone() },
                        ),
                        _ => None,
                    },
                    _ => None,
                },
                _ => None,
            },
            _ => None,
        },
        None => None,
    }
}

/// The translation result for one call outcome: 429 is the rate limit; any
/// other non-2xx status or a transport failure leaves the upstream
/// unavailable; a 2xx body that is not the expected envelope is an invalid
/// shape; otherwise the envelope's translated text is the result.
pub open spec fn spec_classify_translation(outcome: FetchOutcome) -> Result<
    Seq<char>,
    TranslationError,
> {
    match outcome {
        FetchOutcome::TransportFailure => Err(TranslationError::UpstreamUnavailable),
        FetchOutcome::Response { status, body } => if status == 429 {
            Err(TranslationError::RateLimited)
        } else if !(200 <= status && status < 300) {
            Err(TranslationError::UpstreamUnavailable)
        } else {
            match spec_parse_envelope(body@) {
                Some(c) => Ok(c.translated),
                None => Err(TranslationError::InvalidResponseShape),
            }
        },
    }
}

/// Map the outcome of the tone call onto the translated text or an error,
/// exactly as `spec_classify_translation` says.
pub fn classify_translation_response(outcome: FetchOutcome) -> (r: Result<String, TranslationError>)
    ensures
        match r {
            Ok(t) => spec_classify_translation(outcome) == Ok::<Seq<char>, TranslationError>(t@),
            Err(e) => spec_classify_translation(outcome) == Err::<Seq<char>, TranslationError>(e),
        },
{
    match outcome {
        FetchOutcome::TransportFailure => Err(TranslationError::UpstreamUnavailable),
        FetchOutcome::Response { status, body } => {
            if status == 429 {
                Err(TranslationError::RateLimited)
            } else if !(200 <= status && status < 300) {
                Err(TranslationError::UpstreamUnavailable)
            } else {
                match parse_envelope(body.as_str()) {
                    Some(c) => Ok(c.translated),
                    None => Err(TranslationError::InvalidResponseShape),
                }
            }
        },
    }
}

} // verus!
