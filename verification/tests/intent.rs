use ruddit::settings::api_keys::{
    default_high_intent_patterns, default_medium_intent_patterns, intent_of_lowered,
    lowercase_all, matches_any, ApiKeys, AppConfig,
};

fn owned(items: &[&str]) -> Vec<String> {
    items.iter().map(|s| s.to_string()).collect()
}

#[test]
fn default_high_patterns_are_the_thirteen_in_order() {
    assert_eq!(
        default_high_intent_patterns(),
        owned(&[
            "looking for",
            "recommend",
            "suggestion",
            "alternative to",
            "vs",
            "comparison",
            "review",
            "best",
            "help with",
            "how to",
            "pricing",
            "cost",
            "software",
        ])
    );
}

#[test]
fn default_medium_patterns_are_the_seven_in_order() {
    assert_eq!(
        default_medium_intent_patterns(),
        owned(&[
            "issues with",
            "problem",
            "error",
            "question",
            "anyone used",
            "thoughts on",
            "experience with",
        ])
    );
}

#[test]
fn default_settings_hold_placeholders_and_no_token() {
    let keys = ApiKeys::default();
    assert_eq!(keys.reddit_api_id, "CHANGE_ME");
    assert_eq!(keys.reddit_api_secret, "CHANGE_ME");
    assert_eq!(keys.gemini_api_key, "CHANGE_ME");
    assert_eq!(keys.gemini_model, "gemini-pro");
    assert_eq!(keys.ai_provider, "gemini");
    assert_eq!(keys.openai_api_key, "CHANGE_ME");
    assert_eq!(keys.openai_model, "gpt-4o");
    assert_eq!(keys.subreddit, "all");
    assert_eq!(keys.relevance, "hot");
    assert!(keys.lead_keywords.is_empty());
    assert!(keys.branded_keywords.is_empty());
    assert_eq!(keys.sentiment, owned(&["neutral"]));
    assert_eq!(keys.intent_high, default_high_intent_patterns());
    assert_eq!(keys.intent_medium, default_medium_intent_patterns());
    assert_eq!(keys.match_keyword, "");
    assert_eq!(keys.reddit_username, "");
    assert_eq!(keys.reddit_password, "");
    assert_eq!(keys.reddit_access_token, "");
    assert_eq!(keys.reddit_refresh_token, "");
    assert_eq!(keys.reddit_token_expires_at, 0);
    let config = AppConfig::default();
    assert_eq!(config.api_keys.reddit_api_id, "CHANGE_ME");
}

#[test]
fn high_pattern_in_title_gives_high() {
    let keys = ApiKeys::default();
    assert_eq!(keys.calculate_intent("Looking for a CRM", None), "High");
}

#[test]
fn high_pattern_in_body_gives_high() {
    let keys = ApiKeys::default();
    assert_eq!(
        keys.calculate_intent("Inventory", Some("what do you RECOMMEND for a small shop")),
        "High"
    );
}

#[test]
fn medium_pattern_gives_medium() {
    let keys = ApiKeys::default();
    assert_eq!(keys.calculate_intent("A Problem", Some("it broke")), "Medium");
}

#[test]
fn no_pattern_gives_low() {
    let keys = ApiKeys::default();
    assert_eq!(keys.calculate_intent("Hello world", None), "Low");
    assert_eq!(keys.calculate_intent("", None), "Low");
}

#[test]
fn high_list_takes_precedence_over_medium_list() {
    let keys = ApiKeys::default();
    assert_eq!(
        keys.calculate_intent("problem", Some("which is the best tool")),
        "High"
    );
}

#[test]
fn patterns_match_as_substrings_not_as_words() {
    let keys = ApiKeys::default();
    // "vs" occurs inside "tvs", "cost" inside "costume".
    assert_eq!(keys.calculate_intent("Two new TVs", None), "High");
    assert_eq!(keys.calculate_intent("a costume", None), "High");
}

#[test]
fn title_and_body_are_joined_by_one_space() {
    let mut keys = ApiKeys::default();
    keys.intent_high = owned(&["end start"]);
    keys.intent_medium = owned(&[]);
    assert_eq!(keys.calculate_intent("the end", Some("start here")), "High");
    keys.intent_high = owned(&["endstart"]);
    assert_eq!(keys.calculate_intent("the end", Some("start here")), "Low");
    keys.intent_high = owned(&["end "]);
    assert_eq!(keys.calculate_intent("the end", None), "High");
}

#[test]
fn patterns_are_folded_to_lower_case_too() {
    let mut keys = ApiKeys::default();
    keys.intent_high = owned(&["PRICING"]);
    keys.intent_medium = owned(&["Thoughts On"]);
    assert_eq!(keys.calculate_intent("Pricing page", None), "High");
    assert_eq!(keys.calculate_intent("thoughts on rust", None), "Medium");
}

#[test]
fn order_within_a_list_makes_no_difference() {
    let mut keys = ApiKeys::default();
    keys.intent_high = owned(&["alpha", "beta"]);
    keys.intent_medium = owned(&["gamma"]);
    let one = keys.calculate_intent("beta gamma", None);
    keys.intent_high = owned(&["beta", "alpha"]);
    let other = keys.calculate_intent("beta gamma", None);
    assert_eq!(one, "High");
    assert_eq!(other, "High");
}

#[test]
fn empty_pattern_matches_every_text() {
    let mut keys = ApiKeys::default();
    keys.intent_high = owned(&[]);
    keys.intent_medium = owned(&[""]);
    assert_eq!(keys.calculate_intent("anything", None), "Medium");
}

#[test]
fn empty_lists_give_low() {
    let mut keys = ApiKeys::default();
    keys.intent_high = owned(&[]);
    keys.intent_medium = owned(&[]);
    assert_eq!(keys.calculate_intent("looking for the best", None), "Low");
}

#[test]
fn intent_of_lowered_does_not_fold_case() {
    let high = owned(&["best"]);
    let medium = owned(&["error"]);
    assert_eq!(intent_of_lowered("the best", &high, &medium), "High");
    assert_eq!(intent_of_lowered("the BEST", &high, &medium), "Low");
    assert_eq!(intent_of_lowered("an error", &high, &medium), "Medium");
}

#[test]
fn matches_any_finds_a_pattern_anywhere() {
    assert!(matches_any("abcdef", &owned(&["zz", "cde"])));
    assert!(!matches_any("abcdef", &owned(&["zz", "ced"])));
    assert!(!matches_any("abcdef", &owned(&[])));
}

#[test]
fn lowercase_all_folds_each_pattern() {
    assert_eq!(
        lowercase_all(&owned(&["How To", "VS", "already"])),
        owned(&["how to", "vs", "already"])
    );
}
