//! The Gemini document-extraction exchange: how its reply is read, and when a request
//! is retried.
use vstd::prelude::*;
use vstd::string::*;

use crate::text::{contains, seq_contains};

verus! {

/// One part of a candidate answer; only text parts carry text.
#[derive(Debug, Clone)]
pub struct ResponsePart {
    pub text: Option<String>,
}

/// The content of a candidate answer.
#[derive(Debug, Clone)]
pub struct ResponseContent {
    pub parts: Vec<ResponsePart>,
}

/// A candidate answer of the model.
#[derive(Debug, Clone)]
pub struct Candidate {
    pub content: ResponseContent,
}

/// The error the API reports instead of an answer.
#[derive(Debug, Clone)]
pub struct GeminiError {
    pub message: String,
}

/// A reply of the `generateContent` endpoint.
#[derive(Debug, Clone)]
pub struct GeminiResponse {
    pub candidates: Option<Vec<Candidate>>,
    pub error: Option<GeminiError>,
}

/// How many times a request is sent again when the model is in high demand.
pub const MAX_RETRIES: u32 = 3;

/// The instruction sent with every statement.
pub const EXTRACTION_PROMPT: &'static str = "Extract all financial/stock transactions from this PDF document. \
    Read every page and inspect every transaction row in the statement. \
    The PDF may contain multiple transactions for the same symbol or date. \
    Return one object for each individual BUY, SELL, or DIVIDEND row. \
    Do not stop after the first transaction. Do not merge rows, summarize, or deduplicate. \
    Ignore holdings summaries, subtotals, balances, and non-transaction rows. \
    Identify each transaction with its stock symbol, quantity, price per share, total amount, and date if available. \
    Return BUY/SELL quantity as an absolute share count, not a signed value. \
    Preserve the statement order in the returned array. \
    Before answering, double-check that the array includes every qualifying transaction row in the PDF.";

/// The JSON schema that the model's answer must follow.
pub const RESPONSE_SCHEMA_JSON: &'static str = "{\"type\":\"object\",\"properties\":{\"transactions\":{\"type\":\"array\",\"items\":{\"type\":\"object\",\"properties\":{\"symbol\":{\"type\":\"string\",\"description\":\"Stock ticker symbol in uppercase\"},\"type\":{\"type\":\"string\",\"enum\":[\"BUY\",\"SELL\",\"DIVIDEND\"],\"description\":\"Transaction type\"},\"quantity\":{\"type\":\"number\",\"description\":\"Number of shares\"},\"price\":{\"type\":\"number\",\"description\":\"Price per share\"},\"total\":{\"type\":\"number\",\"description\":\"Total transaction amount\"},\"date\":{\"type\":\"string\",\"description\":\"Transaction date in YYYY-MM-DD format\"}},\"required\":[\"symbol\",\"type\",\"quantity\",\"price\",\"total\"]}}},\"required\":[\"transactions\"]}";

/// The text of the parts, one after the other; parts without text add nothing.
pub open spec fn parts_text(parts: Seq<ResponsePart>) -> Seq<char>
    decreases parts.len(),
{
    if parts.len() == 0 {
        Seq::empty()
    } else {
        parts_text(parts.drop_last()) + match parts.last().text {
            Some(t) => t@,
            None => Seq::empty(),
        }
    }
}

/// The text of a candidate: all its text parts joined, or none when that is empty.
pub open spec fn spec_response_text(candidate: Candidate) -> Option<Seq<char>> {
    let t = parts_text(candidate.content.parts@);
    if t.len() == 0 {
        None
    } else {
        Some(t)
    }
}

/// The text of a candidate answer: its text parts joined in order, or none when they
/// hold no text.
pub fn extract_response_text(candidate: &Candidate) -> (r: Option<String>)
    ensures
        r.deep_view() == spec_response_text(*candidate),
{
    let parts = &candidate.content.parts;
    let n = parts.len();
    let mut text = String::new();
    for i in 0..n
        invariant
            n == parts@.len(),
            text@ == parts_text(parts@.subrange(0, i as int)),
    {
        proof {
            assert(parts@.subrange(0, i + 1).drop_last() =~= parts@.subrange(0, i as int));
            assert(parts@.subrange(0, i + 1).last() == parts@[i as int]);
        }
        match &parts[i].text {
            Some(t) => text.append(t.as_str()),
            None => {
                assert(text@ =~= text@ + Seq::<char>::empty());
            },
        }
    }
    assert(parts@.subrange(0, n as int) =~= parts@);
    if text.as_str().is_empty() {
        None
    } else {
        Some(text)
    }
}

/// What to do after a reply of the API.
#[derive(Debug, Clone)]
pub enum GeminiStep {
    /// Send the request again after a pause; `last_error` is the reported error.
    Retry { last_error: String },
    /// Give up with this message.
    Fail { message: String },
    /// The answer text, to be read as the extracted transactions.
    Answer { text: String },
}

/// The text of the first candidate, if there is a candidate and it has text.
pub open spec fn first_candidate_text(candidates: Option<Vec<Candidate>>) -> Option<Seq<char>> {
    match candidates {
        Some(c) => if c@.len() > 0 {
            spec_response_text(c@[0])
        } else {
            None
        },
        None => None,
    }
}

/// The decision after a reply at attempt `attempt` (0 for the first request): an error
/// that mentions high demand is retried while attempts remain, any other error ends the
/// exchange, and otherwise the first candidate's text is the answer.
pub open spec fn step_is(attempt: u32, response: GeminiResponse, step: GeminiStep) -> bool {
    match response.error {
        Some(e) => if seq_contains(e.message@, "high demand"@) && attempt < MAX_RETRIES {
            step matches GeminiStep::Retry { last_error } && last_error@ == e.message@
        } else {
            step matches GeminiStep::Fail { message } && message@ == "Gemini API error: "@
                + e.message@
        },
        None => match first_candidate_text(response.candidates) {
            Some(t) => step matches GeminiStep::Answer { text } && text@ == t,
            None => step matches GeminiStep::Fail { message } && message@
                == "No response from Gemini"@,
        },
    }
}

/// Decides what follows a reply of the API at attempt `attempt`.
pub fn gemini_step(attempt: u32, response: &GeminiResponse) -> (r: GeminiStep)
    ensures
        step_is(attempt, *response, r),
{
    if let Some(err) = &response.error {
        if contains(err.message.as_str(), "high demand") && attempt < MAX_RETRIES {
            return GeminiStep::Retry { last_error: err.message.clone() };
        }
        let mut message = String::from_str("Gemini API error: ");
        message.append(err.message.as_str());
        return GeminiStep::Fail { message };
    }
    let text = match &response.candidates {
        Some(c) => if c.len() > 0 {
            extract_response_text(&c[0])
        } else {
            None
        },
        None => None,
    };
    match text {
        Some(text) => GeminiStep::Answer { text },
        None => GeminiStep::Fail { message: String::from_str("No response from Gemini") },
    }
}

/// The message when every attempt reported high demand.
pub fn retries_exhausted_message(last_error: &str) -> (m: String)
    ensures
        m@ == "Gemini API failed after 3 retries: "@ + last_error@,
{
    let mut m = String::from_str("Gemini API failed after 3 retries: ");
    m.append(last_error);
    m
}

/// The `generateContent` endpoint of `model`, authenticated by `api_key`.
pub fn generate_content_url(model: &str, api_key: &str) -> (url: String)
    ensures
        url@ == "https://generativelanguage.googleapis.com/v1beta/models/"@ + model@
            + ":generateContent?key="@ + api_key@,
{
    let mut url = String::from_str("https://generativelanguage.googleapis.com/v1beta/models/");
    url.append(model);
    url.append(":generateContent?key=");
    url.append(api_key);
    url
}

/// The last attempt is never retried, so the attempts end after `MAX_RETRIES` retries.
pub proof fn lemma_last_attempt_not_retried(response: GeminiResponse, step: GeminiStep)
    requires
        step_is(MAX_RETRIES, response, step),
    ensures
        !(step is Retry),
{
}

/// A reply with an error never yields an answer, whatever its candidates.
pub proof fn lemma_error_never_answers(attempt: u32, response: GeminiResponse, step: GeminiStep)
    requires
        step_is(attempt, response, step),
        response.error is Some,
    ensures
        !(step is Answer),
{
}

/// The characters of `high demand`.
pub open spec fn high_demand_text() -> Seq<char> {
    seq!['h', 'i', 'g', 'h', ' ', 'd', 'e', 'm', 'a', 'n', 'd']
}

/// While attempts remain, an error whose message mentions `high demand` anywhere is
/// retried with that message, whatever else the message says.
pub proof fn lemma_high_demand_is_retried(
    attempt: u32,
    response: GeminiResponse,
    step: GeminiStep,
    at: int,
)
    requires
        step_is(attempt, response, step),
        attempt < MAX_RETRIES,
        response.error is Some,
        0 <= at,
        at + 11 <= response.error->0.message@.len(),
        response.error->0.message@.subrange(at, at + 11) == high_demand_text(),
    ensures
        step matches GeminiStep::Retry { last_error } && last_error@ == response.error->0.message@,
{
    reveal_strlit("high demand");
    assert("high demand"@ =~= high_demand_text());
    let m = response.error->0.message@;
    assert(m.subrange(at, at + "high demand"@.len()) == "high demand"@);
    assert(seq_contains(m, "high demand"@));
}

/// An error whose message does not mention `high demand`, or any error on the last
/// attempt, ends the exchange with `Gemini API error: ` and the message.
pub proof fn lemma_other_errors_fail(attempt: u32, response: GeminiResponse, step: GeminiStep)
    requires
        step_is(attempt, response, step),
        response.error is Some,
        attempt >= MAX_RETRIES || forall|at: int|
            0 <= at && at + 11 <= response.error->0.message@.len() ==> #[trigger] response.error->0.message@.subrange(
                at,
                at + 11,
            ) != high_demand_text(),
    ensures
        step matches GeminiStep::Fail { message } && message@ == seq![
            'G',
            'e',
            'm',
            'i',
            'n',
            'i',
            ' ',
            'A',
            'P',
            'I',
            ' ',
            'e',
            'r',
            'r',
            'o',
            'r',
            ':',
            ' ',
        ] + response.error->0.message@,
{
    reveal_strlit("high demand");
    reveal_strlit("Gemini API error: ");
    assert("high demand"@ =~= high_demand_text());
    assert("Gemini API error: "@ =~= seq![
        'G',
        'e',
        'm',
        'i',
        'n',
        'i',
        ' ',
        'A',
        'P',
        'I',
        ' ',
        'e',
        'r',
        'r',
        'o',
        'r',
        ':',
        ' ',
    ]);
}

} // verus!
