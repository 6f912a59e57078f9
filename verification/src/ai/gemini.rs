//! The assistant: what is asked of the language model, how often, and what
//! its answers come to.

use vstd::prelude::*;
use crate::settings::api_keys::ApiKeys;
use crate::text::{
    join_texts, joined, lowercase, lowercase_text, occurs_at, replace_all, replaced, same_text,
    starts_with, strip_both, texts, trim_text, trimmed, without_leading, without_trailing,
};

verus! {

/// The question for leads, up to the keywords.
pub const LEAD_QUESTION_OPENING: &'static str =
    "Analyze the following posts and their comments, and return ONLY those that match these criteria:\n        1. Keywords (";

/// The question for leads, between the keywords and the way of matching.
pub const LEAD_QUESTION_MATCHING: &'static str =
    ") must be found in the post's title OR in the comments, using ";

/// The question for leads, between the way of matching and the sentiments.
pub const LEAD_QUESTION_SENTIMENT: &'static str =
    " matching.\n        2. The post's sentiment OR the overall sentiment of its comments should match one of: ";

/// The question for leads, behind the sentiments.
pub const LEAD_QUESTION_CLOSING: &'static str =
    ".\n        3. Return ONLY posts that are likely to be leads or business opportunities for inventory management.\n\n        For each matching post, format the result as a JSON object with these fields:\n        - title: the post title\n        - url: the post URL\n        - formatted_date: the post date\n        - relevance: HIGH if it's a strong lead, MEDIUM if potential, LOW if uncertain\n        - subreddit: the subreddit name\n        - sentiment: the detected sentiment of the post\n        - top_comments: an array of up to 3 most relevant comments that match the criteria\n        - comment_sentiment: the overall sentiment of the matching comments\n        ";

/// The first prompt for leads, up to the data.
pub const LEAD_PROMPT_OPENING: &'static str =
    "You are a lead generation AI analyzing posts and comments. Analyze this data: ";

/// The first prompt for leads, behind the data.
pub const LEAD_PROMPT_CLOSING: &'static str =
    "\n\n                STRICT OUTPUT REQUIREMENTS:\n                1. Return ONLY a valid JSON array of objects\n                2. Each object MUST have:\n                   - formatted_date: post date (YYYY-MM-DD)\n                   - title: exact post title\n                   - url: full post URL\n                   - relevance: HIGH/MEDIUM/LOW for lead quality\n                   - subreddit: subreddit name\n                   - sentiment: detected sentiment\n                   - top_comments: array of up to 3 most relevant comments, each with 'author', 'text', and 'sentiment' fields.\n                   - comment_sentiment: overall comment sentiment\n                   - engagement_score: HIGH/MEDIUM/LOW based on interaction\n\n                NO text outside JSON. NO markdown blocks.";

/// The prompt of a repeated attempt for leads, up to the data.
pub const STRICT_PROMPT_OPENING: &'static str =
    "You are a lead generation AI. Analyze the following data strictly: ";

/// The prompt of a repeated attempt for leads, behind the data.
pub const STRICT_PROMPT_CLOSING: &'static str =
    "\n\n        REQUIREMENTS:\n        1. Return ONLY a valid JSON array of objects\n        2. Each object MUST have these fields:\n           - formatted_date: post date (YYYY-MM-DD)\n           - title: exact post title\n           - url: full post URL\n           - relevance: HIGH, MEDIUM, or LOW based on lead quality\n           - subreddit: subreddit name\n           - sentiment: detected sentiment (positive, negative, neutral)\n           - engagement_score: HIGH/MEDIUM/LOW\n\n        Follow these rules:\n        - Use proper JSON format with double quotes\n        - No text outside the JSON\n        - No markdown code blocks\n        - ONLY include posts matching the query criteria";

/// The prompt for a question, up to the data.
pub const ASK_PROMPT_OPENING: &'static str =
    "Given the following data: ";

/// The prompt for a question, behind the data.
pub const ASK_PROMPT_CLOSING: &'static str =
    ", output the information in the best way possible to answer the questions. Be as thorough as possible and provide URLs when needed.";

/// What is reported when the settings hold no lead keywords.
pub const NO_LEAD_KEYWORDS: &'static str =
    "No lead keywords found in configuration file. Add default Keywords to match with reddit data and export leads";

/// Why a question to the language model failed.
#[derive(Debug)]
pub enum GeminiError {
    DatabaseError(String),
    ConfigError(String),
    GeminiApiError(String),
    JsonParsingError(String),
}

impl GeminiError {
    /// The error in words.
    pub open spec fn text(self) -> Seq<char> {
        match self {
            GeminiError::DatabaseError(e) => "Database error: "@ + e@,
            GeminiError::ConfigError(e) => "Configuration error: "@ + e@,
            GeminiError::GeminiApiError(e) => "Gemini API error: "@ + e@,
            GeminiError::JsonParsingError(e) => "JSON parsing error: "@ + e@,
        }
    }

    /// The error is a `ConfigError` with this message.
    pub open spec fn is_config_error(self, message: Seq<char>) -> bool {
        match self {
            GeminiError::ConfigError(m) => m@ == message,
            _ => false,
        }
    }

    /// The error is a `GeminiApiError` with this message.
    pub open spec fn is_api_error(self, message: Seq<char>) -> bool {
        match self {
            GeminiError::GeminiApiError(m) => m@ == message,
            _ => false,
        }
    }

    /// The error is a `JsonParsingError` with this message.
    pub open spec fn is_json_error(self, message: Seq<char>) -> bool {
        match self {
            GeminiError::JsonParsingError(m) => m@ == message,
            _ => false,
        }
    }

    /// The error in words.
    pub fn message(&self) -> (r: String)
        ensures
            r@ == self.text(),
    {
        match self {
            GeminiError::DatabaseError(e) => "Database error: ".to_owned().concat(e.as_str()),
            GeminiError::ConfigError(e) => "Configuration error: ".to_owned().concat(e.as_str()),
            GeminiError::GeminiApiError(e) => "Gemini API error: ".to_owned().concat(e.as_str()),
            GeminiError::JsonParsingError(e) => "JSON parsing error: ".to_owned().concat(
                e.as_str(),
            ),
        }
    }
}

/// An answer of the language model.
#[derive(Debug)]
pub struct GeminiResponse {
    pub answer: String,
    pub url: Option<String>,
}

/// A model as the list of models describes it.
#[derive(Debug)]
pub struct GeminiModel {
    pub name: String,
    pub display_name: String,
    pub supported_generation_methods: Vec<String>,
}

/// The address of the list of models.
pub open spec fn models_address(api_key: Seq<char>) -> Seq<char> {
    "https://generativelanguage.googleapis.com/v1beta/models?key="@ + api_key
}

/// The address at which a model generates content.
pub open spec fn generate_address(model: Seq<char>, api_key: Seq<char>) -> Seq<char> {
    "https://generativelanguage.googleapis.com/v1beta/models/"@ + model
        + ":generateContent?key="@ + api_key
}

/// The address of the list of models.
pub fn models_url(api_key: &str) -> (r: String)
    ensures
        r@ == models_address(api_key@),
{
    "https://generativelanguage.googleapis.com/v1beta/models?key=".to_owned().concat(api_key)
}

/// The address at which a model generates content.
pub fn generate_url(model: &str, api_key: &str) -> (r: String)
    ensures
        r@ == generate_address(model@, api_key@),
{
    "https://generativelanguage.googleapis.com/v1beta/models/".to_owned().concat(model).concat(
        ":generateContent?key=",
    ).concat(api_key)
}

/// The model can generate content.
pub open spec fn can_generate(model: GeminiModel) -> bool {
    exists|i: int|
        0 <= i < model.supported_generation_methods@.len() && (
        #[trigger] model.supported_generation_methods@[i])@ == "generateContent"@
}

/// The names of the models that can generate content, without `models/`.
pub open spec fn generating_names(models: Seq<GeminiModel>) -> Seq<Seq<char>>
    decreases models.len(),
{
    if models.len() == 0 {
        Seq::empty()
    } else {
        let init = generating_names(models.drop_last());
        if can_generate(models.last()) {
            init.push(replaced(models.last().name@, "models/"@, ""@))
        } else {
            init
        }
    }
}

/// Whether the model can generate content.
pub fn generates(model: &GeminiModel) -> (r: bool)
    ensures
        r == can_generate(*model),
{
    let mut i: usize = 0;
    while i < model.supported_generation_methods.len()
        invariant
            i <= model.supported_generation_methods.len(),
            forall|j: int|
                0 <= j < i ==> (#[trigger] model.supported_generation_methods@[j])@
                    != "generateContent"@,
        decreases model.supported_generation_methods.len() - i,
    {
        if same_text(model.supported_generation_methods[i].as_str(), "generateContent") {
            return true;
        }
        i += 1;
    }
    false
}

/// The names of the models that can generate content, in their order, each
/// without `models/`.
pub fn generating_models(models: &Vec<GeminiModel>) -> (r: Vec<String>)
    ensures
        texts(r@) == generating_names(models@),
{
    let mut out: Vec<String> = Vec::new();
    let mut i: usize = 0;
    assert(models@.take(0) =~= Seq::<GeminiModel>::empty());
    assert(texts(out@) =~= Seq::<Seq<char>>::empty());
    while i < models.len()
        invariant
            i <= models.len(),
            texts(out@) == generating_names(models@.take(i as int)),
        decreases models.len() - i,
    {
        proof {
            assert(models@.take(i + 1).drop_last() =~= models@.take(i as int));
            assert(models@.take(i + 1).last() == models@[i as int]);
        }
        if generates(&models[i]) {
            let ghost so_far = texts(out@);
            let name = replace_all(models[i].name.as_str(), "models/", "");
            out.push(name);
            assert(texts(out@) =~= so_far.push(name@));
        }
        i += 1;
    }
    assert(models@.take(i as int) =~= models@);
    out
}

/// What became of one attempt to ask the language model.
#[derive(Debug)]
pub enum GeminiEvent {
    /// The request did not get through; the text says why.
    SendFailed(String),
    /// The model answered with a status outside the 2xx range and this body.
    Refused(String),
    /// The answer could not be read; the text says why.
    Unreadable(String),
    /// The model answered with this text.
    Answered(String),
}

/// The failure that an event stands for, in words; `None` for an answer.
pub open spec fn failure_text(event: GeminiEvent) -> Option<Seq<char>> {
    match event {
        GeminiEvent::SendFailed(e) => Some("Failed to send request: "@ + e@),
        GeminiEvent::Refused(body) => Some("API Error: "@ + body@),
        GeminiEvent::Unreadable(e) => Some("Failed to parse API response: "@ + e@),
        GeminiEvent::Answered(_) => None,
    }
}

/// The error that an attempt leaves behind; `None` where the model answered.
/// An answer that could not be read is a `JsonParsingError`, every other
/// failure a `GeminiApiError`.
pub fn failure_of(event: &GeminiEvent) -> (r: Option<GeminiError>)
    ensures
        match *event {
            GeminiEvent::SendFailed(_) => r.is_some() && r->0.is_api_error(
                failure_text(*event)->0,
            ),
            GeminiEvent::Refused(_) => r.is_some() && r->0.is_api_error(failure_text(*event)->0),
            GeminiEvent::Unreadable(_) => r.is_some() && r->0.is_json_error(
                failure_text(*event)->0,
            ),
            GeminiEvent::Answered(_) => r.is_none(),
        },
{
    match event {
        GeminiEvent::SendFailed(e) => Some(
            GeminiError::GeminiApiError("Failed to send request: ".to_owned().concat(e.as_str())),
        ),
        GeminiEvent::Refused(body) => Some(
            GeminiError::GeminiApiError("API Error: ".to_owned().concat(body.as_str())),
        ),
        GeminiEvent::Unreadable(e) => Some(
            GeminiError::JsonParsingError(
                "Failed to parse API response: ".to_owned().concat(e.as_str()),
            ),
        ),
        GeminiEvent::Answered(_) => None,
    }
}

/// How often the language model is asked at most.
pub const MAX_ATTEMPTS: u32 = 2;

/// Whether the model may be asked once more after `attempts_made` attempts.
pub fn may_attempt(attempts_made: u32) -> (r: bool)
    ensures
        r == (attempts_made < MAX_ATTEMPTS),
{
    attempts_made < MAX_ATTEMPTS
}

/// The error that is reported when no attempt is left: the error of the last
/// attempt, or a `GeminiApiError` where none was recorded.
pub fn final_error(last: Option<GeminiError>) -> (r: GeminiError)
    ensures
        match last {
            Some(e) => r == e,
            None => r.is_api_error("Unknown error after multiple attempts"@),
        },
{
    match last {
        Some(e) => e,
        None => GeminiError::GeminiApiError("Unknown error after multiple attempts".to_owned()),
    }
}

/// A trimmed answer without the code fence around it: where it starts with
/// a fence, all fences at its start and all fences at its end are taken away.
/// A fence at the start may name JSON.
pub open spec fn unfenced_text(t: Seq<char>) -> Seq<char> {
    if occurs_at("```json"@, t, 0) {
        without_trailing(without_leading(t, "```json"@), "```"@)
    } else if occurs_at("```"@, t, 0) {
        without_trailing(without_leading(t, "```"@), "```"@)
    } else {
        t
    }
}

/// The payload of an answer: the answer trimmed, and where it then starts with
/// a code fence, without its fences and trimmed again.
pub open spec fn payload_text(answer: Seq<char>) -> Seq<char> {
    let t = trimmed(answer);
    if occurs_at("```"@, t, 0) || occurs_at("```json"@, t, 0) {
        trimmed(unfenced_text(t))
    } else {
        t
    }
}

/// Takes the code fence off a trimmed answer.
pub fn unfenced(t: &str) -> (r: String)
    ensures
        r@ == unfenced_text(t@),
{
    if starts_with(t, "```json") {
        strip_both(t, "```json", "```")
    } else if starts_with(t, "```") {
        strip_both(t, "```", "```")
    } else {
        t.to_owned()
    }
}

/// The payload of an answer of the language model.
pub fn answer_payload(answer: &str) -> (r: String)
    ensures
        r@ == payload_text(answer@),
{
    let t = trim_text(answer);
    if starts_with(t, "```") || starts_with(t, "```json") {
        let inner = unfenced(t);
        trim_text(inner.as_str()).to_owned()
    } else {
        t.to_owned()
    }
}

/// How keywords are to be matched: `AND` where the settings say `and` in any
/// letter case, else `OR`.
pub open spec fn match_operator(match_keyword: Seq<char>) -> Seq<char> {
    if lowercase_text(match_keyword) == "and"@ {
        "AND"@
    } else {
        "OR"@
    }
}

/// The question that asks for leads.
pub open spec fn lead_question_text(
    keywords: Seq<Seq<char>>,
    match_keyword: Seq<char>,
    sentiments: Seq<Seq<char>>,
) -> Seq<char> {
    LEAD_QUESTION_OPENING@ + joined(keywords, " OR "@) + LEAD_QUESTION_MATCHING@ + match_operator(
        match_keyword,
    ) + LEAD_QUESTION_SENTIMENT@ + joined(sentiments, " OR "@) + LEAD_QUESTION_CLOSING@
}

/// The question that asks for leads, from the keywords, the way of matching
/// and the sentiments of the settings. Fails with `ConfigError` exactly when
/// the settings hold no lead keyword.
pub fn lead_question(keys: &ApiKeys) -> (r: Result<String, GeminiError>)
    ensures
        match r {
            Ok(q) => keys.lead_keywords@.len() > 0 && q@ == lead_question_text(
                texts(keys.lead_keywords@),
                keys.match_keyword@,
                texts(keys.sentiment@),
            ),
            Err(e) => keys.lead_keywords@.len() == 0 && e.is_config_error(NO_LEAD_KEYWORDS@),
        },
{
    if keys.lead_keywords.len() == 0 {
        return Err(GeminiError::ConfigError(NO_LEAD_KEYWORDS.to_owned()));
    }
    let keywords = join_texts(&keys.lead_keywords, " OR ");
    let sentiments = join_texts(&keys.sentiment, " OR ");
    let lowered = lowercase(keys.match_keyword.as_str());
    let operator = if same_text(lowered.as_str(), "and") {
        "AND"
    } else {
        "OR"
    };
    Ok(
        LEAD_QUESTION_OPENING.to_owned().concat(keywords.as_str()).concat(
            LEAD_QUESTION_MATCHING,
        ).concat(operator).concat(LEAD_QUESTION_SENTIMENT).concat(sentiments.as_str()).concat(
            LEAD_QUESTION_CLOSING,
        ),
    )
}

/// The prompt of an attempt to find leads: the first attempt shows posts and
/// comments, every later one the posts alone under stricter rules.
pub open spec fn lead_prompt_text(attempt: u32, posts: Seq<char>, posts_and_comments: Seq<char>)
    -> Seq<char> {
    if attempt > 1 {
        STRICT_PROMPT_OPENING@ + posts + STRICT_PROMPT_CLOSING@
    } else {
        LEAD_PROMPT_OPENING@ + posts_and_comments + LEAD_PROMPT_CLOSING@
    }
}

/// The prompt of the attempt with number `attempt`, counted from one.
pub fn lead_prompt(attempt: u32, posts: &str, posts_and_comments: &str) -> (r: String)
    ensures
        r@ == lead_prompt_text(attempt, posts@, posts_and_comments@),
{
    if attempt > 1 {
        STRICT_PROMPT_OPENING.to_owned().concat(posts).concat(STRICT_PROMPT_CLOSING)
    } else {
        LEAD_PROMPT_OPENING.to_owned().concat(posts_and_comments).concat(LEAD_PROMPT_CLOSING)
    }
}

/// What the model is sent for leads: the prompt, an empty line, the question.
pub fn lead_text(prompt: &str, question: &str) -> (r: String)
    ensures
        r@ == prompt@ + "\n\n"@ + question@,
{
    prompt.to_owned().concat("\n\n").concat(question)
}

/// What the model is sent for a question of the user: the prompt around the
/// saved posts, an empty line, and the question under its heading.
pub fn ask_text(posts: &str, question: &str) -> (r: String)
    ensures
        r@ == ASK_PROMPT_OPENING@ + posts@ + ASK_PROMPT_CLOSING@ + "\n\nUser Question: "@
            + question@,
{
    ASK_PROMPT_OPENING.to_owned().concat(posts).concat(ASK_PROMPT_CLOSING).concat(
        "\n\nUser Question: ",
    ).concat(question)
}

/// The error of an answer for leads whose payload is no JSON.
pub fn unparsable_leads(reason: &str, answer: &str) -> (r: GeminiError)
    ensures
        r.is_json_error(
            "Failed to parse JSON from API response: "@ + reason@ + ". Response was: "@ + answer@,
        ),
{
    GeminiError::JsonParsingError(
        "Failed to parse JSON from API response: ".to_owned().concat(reason).concat(
            ". Response was: ",
        ).concat(answer),
    )
}

} // verus!
