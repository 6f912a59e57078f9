//! The configuration value that is threaded through every operation: API
//! credentials, the cached token, and the keyword lists that drive the intent
//! tag of a post.

use vstd::prelude::*;
use crate::text::{contains_text, is_substring, lowercase, lowercase_text, texts};

verus! {

/// Credentials, preferences and keyword lists, as the settings file holds them.
#[derive(Debug)]
pub struct ApiKeys {
    pub reddit_api_id: String,
    pub reddit_api_secret: String,
    pub gemini_api_key: String,
    pub gemini_model: String,
    pub ai_provider: String,
    pub openai_api_key: String,
    pub openai_model: String,
    pub subreddit: String,
    pub relevance: String,
    pub lead_keywords: Vec<String>,
    pub branded_keywords: Vec<String>,
    pub sentiment: Vec<String>,
    pub intent_high: Vec<String>,
    pub intent_medium: Vec<String>,
    pub match_keyword: String,
    pub reddit_username: String,
    pub reddit_password: String,
    /// The bearer token of the last exchange; empty when none is cached.
    pub reddit_access_token: String,
    /// The long-lived credential of the interactive grant; empty when absent.
    pub reddit_refresh_token: String,
    /// The instant, in epoch seconds, at which the cached token expires.
    pub reddit_token_expires_at: i64,
}

/// The directories of the current user that the application works in.
#[derive(Debug)]
pub struct ConfigDirs {
    pub home_dir: String,
    pub config_dir: String,
    pub cache_dir: String,
    pub data_dir: String,
    pub documents_dir: String,
}

/// The whole settings file.
#[derive(Debug)]
pub struct AppConfig {
    pub api_keys: ApiKeys,
}

/// The lower-case forms of a list of texts.
pub open spec fn lowered(v: Seq<String>) -> Seq<Seq<char>> {
    Seq::new(v.len(), |i: int| lowercase_text(v[i]@))
}

/// Some pattern of the list occurs in `text`.
pub open spec fn any_pattern_in(patterns: Seq<Seq<char>>, text: Seq<char>) -> bool {
    exists|i: int| 0 <= i < patterns.len() && is_substring(#[trigger] patterns[i], text)
}

/// The tag of a text that is already in lower case, against pattern lists that
/// are already in lower case: the high list is asked first, then the medium
/// list; within a list the order of the patterns makes no difference.
pub open spec fn intent_tag(text: Seq<char>, high: Seq<Seq<char>>, medium: Seq<Seq<char>>) -> Seq<
    char,
> {
    if any_pattern_in(high, text) {
        "High"@
    } else if any_pattern_in(medium, text) {
        "Medium"@
    } else {
        "Low"@
    }
}

/// The text a post is classified by, before case folding: its title, a space,
/// and its body where it has one.
pub open spec fn intent_subject(title: Seq<char>, body: Option<Seq<char>>) -> Seq<char> {
    title + " "@ + match body {
        Some(b) => b,
        None => ""@,
    }
}

/// The patterns that mark a post as a strong lead, in their default order.
pub open spec fn default_high_patterns() -> Seq<Seq<char>> {
    seq![
        "looking for"@,
        "recommend"@,
        "suggestion"@,
        "alternative to"@,
        "vs"@,
        "comparison"@,
        "review"@,
        "best"@,
        "help with"@,
        "how to"@,
        "pricing"@,
        "cost"@,
        "software"@,
    ]
}

/// The patterns that mark a post as a possible lead, in their default order.
pub open spec fn default_medium_patterns() -> Seq<Seq<char>> {
    seq![
        "issues with"@,
        "problem"@,
        "error"@,
        "question"@,
        "anyone used"@,
        "thoughts on"@,
        "experience with"@,
    ]
}

/// The default patterns that mark a post as a strong lead.
pub fn default_high_intent_patterns() -> (r: Vec<String>)
    ensures
        texts(r@) == default_high_patterns(),
{
    let r = vec![
        "looking for".to_owned(),
        "recommend".to_owned(),
        "suggestion".to_owned(),
        "alternative to".to_owned(),
        "vs".to_owned(),
        "comparison".to_owned(),
        "review".to_owned(),
        "best".to_owned(),
        "help with".to_owned(),
        "how to".to_owned(),
        "pricing".to_owned(),
        "cost".to_owned(),
        "software".to_owned(),
    ];
    assert(texts(r@) =~= default_high_patterns());
    r
}

/// The default patterns that mark a post as a possible lead.
pub fn default_medium_intent_patterns() -> (r: Vec<String>)
    ensures
        texts(r@) == default_medium_patterns(),
{
    let r = vec![
        "issues with".to_owned(),
        "problem".to_owned(),
        "error".to_owned(),
        "question".to_owned(),
        "anyone used".to_owned(),
        "thoughts on".to_owned(),
        "experience with".to_owned(),
    ];
    assert(texts(r@) =~= default_medium_patterns());
    r
}

/// Whether some pattern of the list occurs in `text`.
pub fn matches_any(text: &str, patterns: &Vec<String>) -> (r: bool)
    ensures
        r == any_pattern_in(texts(patterns@), text@),
{
    let mut i: usize = 0;
    while i < patterns.len()
        invariant
            i <= patterns.len(),
            forall|j: int| 0 <= j < i ==> !is_substring(#[trigger] texts(patterns@)[j], text@),
        decreases patterns.len() - i,
    {
        if contains_text(text, patterns[i].as_str()) {
            assert(is_substring(texts(patterns@)[i as int], text@));
            return true;
        }
        i += 1;
    }
    false
}

/// The intent tag of a lower-case text against lower-case pattern lists.
pub fn intent_of_lowered(text: &str, high: &Vec<String>, medium: &Vec<String>) -> (r: String)
    ensures
        r@ == intent_tag(text@, texts(high@), texts(medium@)),
{
    if matches_any(text, high) {
        "High".to_owned()
    } else if matches_any(text, medium) {
        "Medium".to_owned()
    } else {
        "Low".to_owned()
    }
}

/// The lower-case forms of a list of patterns, in the same order.
pub fn lowercase_all(patterns: &Vec<String>) -> (r: Vec<String>)
    ensures
        texts(r@) == lowered(patterns@),
{
    let mut out: Vec<String> = Vec::new();
    let mut i: usize = 0;
    while i < patterns.len()
        invariant
            i <= patterns.len(),
            out.len() == i,
            forall|j: int| 0 <= j < i ==> (#[trigger] out@[j])@ == lowercase_text(patterns@[j]@),
        decreases patterns.len() - i,
    {
        out.push(lowercase(patterns[i].as_str()));
        i += 1;
    }
    assert(texts(out@) =~= lowered(patterns@));
    out
}

/// The settings of a fresh installation: placeholders for the credentials,
/// the default models and pattern lists, and no cached token.
pub open spec fn fresh_settings(k: ApiKeys) -> bool {
    &&& k.reddit_api_id@ == "CHANGE_ME"@
    &&& k.reddit_api_secret@ == "CHANGE_ME"@
    &&& k.gemini_api_key@ == "CHANGE_ME"@
    &&& k.gemini_model@ == "gemini-pro"@
    &&& k.ai_provider@ == "gemini"@
    &&& k.openai_api_key@ == "CHANGE_ME"@
    &&& k.openai_model@ == "gpt-4o"@
    &&& k.subreddit@ == "all"@
    &&& k.relevance@ == "hot"@
    &&& k.lead_keywords@.len() == 0
    &&& k.branded_keywords@.len() == 0
    &&& texts(k.sentiment@) == seq!["neutral"@]
    &&& texts(k.intent_high@) == default_high_patterns()
    &&& texts(k.intent_medium@) == default_medium_patterns()
    &&& k.match_keyword@ == ""@
    &&& k.reddit_username@ == ""@
    &&& k.reddit_password@ == ""@
    &&& k.reddit_access_token@ == ""@
    &&& k.reddit_refresh_token@ == ""@
    &&& k.reddit_token_expires_at == 0
}

impl Default for ApiKeys {
    /// The settings of a fresh installation.
    fn default() -> (r: Self)
        ensures
            fresh_settings(r),
    {
        let sentiment = vec!["neutral".to_owned()];
        assert(texts(sentiment@) =~= seq!["neutral"@]);
        ApiKeys {
            reddit_api_id: "CHANGE_ME".to_owned(),
            reddit_api_secret: "CHANGE_ME".to_owned(),
            gemini_api_key: "CHANGE_ME".to_owned(),
            gemini_model: "gemini-pro".to_owned(),
            ai_provider: "gemini".to_owned(),
            openai_api_key: "CHANGE_ME".to_owned(),
            openai_model: "gpt-4o".to_owned(),
            subreddit: "all".to_owned(),
            relevance: "hot".to_owned(),
            lead_keywords: Vec::new(),
            branded_keywords: Vec::new(),
            sentiment,
            intent_high: default_high_intent_patterns(),
            intent_medium: default_medium_intent_patterns(),
            match_keyword: "".to_owned(),
            reddit_username: "".to_owned(),
            reddit_password: "".to_owned(),
            reddit_access_token: "".to_owned(),
            reddit_refresh_token: "".to_owned(),
            reddit_token_expires_at: 0,
        }
    }
}

impl Default for AppConfig {
    /// The settings file of a fresh installation.
    fn default() -> (r: Self)
        ensures
            fresh_settings(r.api_keys),
    {
        AppConfig { api_keys: ApiKeys::default() }
    }
}

impl ApiKeys {
    /// The intent tag of a post: `"High"`, `"Medium"` or `"Low"`. Title and
    /// body are joined by a space and folded to lower case, as is every
    /// pattern; a pattern matches where it occurs in that text as a substring.
    /// The high list takes precedence over the medium list.
    pub fn calculate_intent(&self, title: &str, body: Option<&str>) -> (r: String)
        ensures
            r@ == intent_tag(
                lowercase_text(
                    intent_subject(
                        title@,
                        match body {
                            Some(b) => Some(b@),
                            None => None,
                        },
                    ),
                ),
                lowered(self.intent_high@),
                lowered(self.intent_medium@),
            ),
    {
        let subject = title.to_owned().concat(" ").concat(
            match body {
                Some(b) => b,
                None => "",
            },
        );
        let text = lowercase(subject.as_str());
        let high = lowercase_all(&self.intent_high);
        let medium = lowercase_all(&self.intent_medium);
        intent_of_lowered(text.as_str(), &high, &medium)
    }
}

} // verus!
