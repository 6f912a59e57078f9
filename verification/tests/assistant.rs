use ruddit::ai::adapter::{openai_model, openai_models, provider_of, AiProvider};
use ruddit::ai::gemini::{
    answer_payload, ask_text, failure_of, final_error, generate_url, generates,
    generating_models, lead_prompt, lead_question, lead_text, may_attempt, models_url,
    unfenced, unparsable_leads, GeminiError, GeminiEvent, GeminiModel, GeminiResponse,
    MAX_ATTEMPTS,
};
use ruddit::email::sending::{assignee_email, assignment_body, assignment_subject, NOTICE_SENDER};
use ruddit::settings::api_keys::ApiKeys;

fn model(name: &str, methods: &[&str]) -> GeminiModel {
    GeminiModel {
        name: name.to_string(),
        display_name: name.to_uppercase(),
        supported_generation_methods: methods.iter().map(|m| m.to_string()).collect(),
    }
}

#[test]
fn errors_say_what_they_are() {
    assert_eq!(
        GeminiError::DatabaseError(String::from("locked")).message(),
        "Database error: locked"
    );
    assert_eq!(
        GeminiError::ConfigError(String::from("no key")).message(),
        "Configuration error: no key"
    );
    assert_eq!(
        GeminiError::GeminiApiError(String::from("quota")).message(),
        "Gemini API error: quota"
    );
    assert_eq!(
        GeminiError::JsonParsingError(String::from("eof")).message(),
        "JSON parsing error: eof"
    );
}

#[test]
fn a_response_holds_an_answer_and_maybe_an_address() {
    let r = GeminiResponse { answer: String::from("42"), url: None };
    assert_eq!(r.answer, "42");
    assert_eq!(r.url, None);
}

#[test]
fn addresses_of_the_model_carry_the_key() {
    assert_eq!(
        models_url("KEY"),
        "https://generativelanguage.googleapis.com/v1beta/models?key=KEY"
    );
    assert_eq!(
        generate_url("gemini-pro", "KEY"),
        "https://generativelanguage.googleapis.com/v1beta/models/gemini-pro:generateContent?key=KEY"
    );
}

#[test]
fn only_models_that_generate_content_are_offered() {
    let models = vec![
        model("models/gemini-pro", &["generateContent", "countTokens"]),
        model("models/embedding-001", &["embedContent"]),
        model("models/models/odd", &["countTokens", "generateContent"]),
        model("plain", &["generateContent"]),
        model("models/none", &[]),
        model("models/cased", &["GenerateContent"]),
    ];
    assert_eq!(generating_models(&models), vec!["gemini-pro", "odd", "plain"]);
    assert!(generates(&models[0]));
    assert!(!generates(&models[1]));
    assert!(generating_models(&vec![]).is_empty());
}

#[test]
fn the_model_is_asked_twice_at_most() {
    assert_eq!(MAX_ATTEMPTS, 2);
    assert!(may_attempt(0));
    assert!(may_attempt(1));
    assert!(!may_attempt(2));
    assert!(!may_attempt(u32::MAX));
}

#[test]
fn events_leave_their_errors_behind() {
    assert!(matches!(
        failure_of(&GeminiEvent::SendFailed(String::from("dns"))),
        Some(GeminiError::GeminiApiError(ref m)) if m == "Failed to send request: dns"
    ));
    assert!(matches!(
        failure_of(&GeminiEvent::Refused(String::from("{\"error\":1}"))),
        Some(GeminiError::GeminiApiError(ref m)) if m == "API Error: {\"error\":1}"
    ));
    assert!(matches!(
        failure_of(&GeminiEvent::Unreadable(String::from("eof"))),
        Some(GeminiError::JsonParsingError(ref m)) if m == "Failed to parse API response: eof"
    ));
    assert!(failure_of(&GeminiEvent::Answered(String::from("hi"))).is_none());
}

#[test]
fn the_last_error_is_reported_or_an_unknown_one() {
    assert!(matches!(
        final_error(Some(GeminiError::JsonParsingError(String::from("x")))),
        GeminiError::JsonParsingError(ref m) if m == "x"
    ));
    assert!(matches!(
        final_error(None),
        GeminiError::GeminiApiError(ref m) if m == "Unknown error after multiple attempts"
    ));
}

#[test]
fn fences_are_taken_off_an_answer() {
    assert_eq!(answer_payload("  {\"a\": 1}\n"), "{\"a\": 1}");
    assert_eq!(answer_payload("```json\n{\"a\": 1}\n```"), "{\"a\": 1}");
    assert_eq!(answer_payload("\n ```json\n[1, 2]\n```  \n"), "[1, 2]");
    assert_eq!(answer_payload("```\nplain\n```"), "plain");
    assert_eq!(answer_payload("``````json{}``````"), "json{}");
    assert_eq!(answer_payload("```json```json{}```"), "{}");
    assert_eq!(answer_payload("```json"), "");
    assert_eq!(answer_payload("```"), "");
    assert_eq!(answer_payload("text ```json {} ```"), "text ```json {} ```");
    assert_eq!(answer_payload(""), "");
    assert_eq!(answer_payload("   "), "");
    assert_eq!(answer_payload("``json"), "``json");
}

#[test]
fn unfencing_does_not_trim() {
    assert_eq!(unfenced("```json\n{}\n```"), "\n{}\n");
    assert_eq!(unfenced("```x``` "), "x``` ");
    assert_eq!(unfenced(" ```x```"), " ```x```");
    assert_eq!(unfenced("no fence"), "no fence");
}

#[test]
fn the_question_for_leads_names_keywords_matching_and_sentiments() {
    let mut keys = ApiKeys::default();
    keys.lead_keywords = vec![String::from("inventory"), String::from("stock")];
    keys.sentiment = vec![String::from("neutral"), String::from("negative")];
    keys.match_keyword = String::from("And");
    let q = lead_question(&keys).unwrap();
    assert!(q.starts_with(
        "Analyze the following posts and their comments, and return ONLY those that match these criteria:\n        1. Keywords (inventory OR stock) must be found in the post's title OR in the comments, using AND matching.\n        2. The post's sentiment OR the overall sentiment of its comments should match one of: neutral OR negative.\n        3. Return ONLY posts"
    ));
    assert!(q.ends_with(
        "- comment_sentiment: the overall sentiment of the matching comments\n        "
    ));
    keys.match_keyword = String::from("or");
    assert!(lead_question(&keys).unwrap().contains("using OR matching."));
    keys.match_keyword = String::new();
    assert!(lead_question(&keys).unwrap().contains("using OR matching."));
    keys.match_keyword = String::from("AND");
    keys.lead_keywords = vec![String::from("one")];
    keys.sentiment = vec![];
    let q = lead_question(&keys).unwrap();
    assert!(q.contains("Keywords (one) must"));
    assert!(q.contains("using AND matching."));
    assert!(q.contains("match one of: .\n"));
}

#[test]
fn without_lead_keywords_there_is_no_question() {
    let keys = ApiKeys::default();
    assert!(matches!(
        lead_question(&keys),
        Err(GeminiError::ConfigError(ref m))
            if m == "No lead keywords found in configuration file. Add default Keywords to match with reddit data and export leads"
    ));
}

#[test]
fn the_first_prompt_shows_posts_and_comments_and_later_ones_the_posts() {
    let first = lead_prompt(1, "POSTS", "BOTH");
    assert!(first.starts_with(
        "You are a lead generation AI analyzing posts and comments. Analyze this data: BOTH\n\n                STRICT OUTPUT REQUIREMENTS:\n"
    ));
    assert!(first.ends_with(
        "- engagement_score: HIGH/MEDIUM/LOW based on interaction\n\n                NO text outside JSON. NO markdown blocks."
    ));
    assert!(!first.contains("POSTS"));
    assert_eq!(lead_prompt(0, "POSTS", "BOTH"), first);
    let second = lead_prompt(2, "POSTS", "BOTH");
    assert!(second.starts_with(
        "You are a lead generation AI. Analyze the following data strictly: POSTS\n\n        REQUIREMENTS:\n"
    ));
    assert!(second.ends_with("- ONLY include posts matching the query criteria"));
    assert!(!second.contains("BOTH"));
    assert_eq!(lead_prompt(3, "POSTS", "BOTH"), second);
}

#[test]
fn what_is_sent_joins_prompt_and_question() {
    assert_eq!(lead_text("PROMPT", "QUESTION"), "PROMPT\n\nQUESTION");
    assert_eq!(
        ask_text("[]", "What is new?"),
        "Given the following data: [], output the information in the best way possible to answer the questions. Be as thorough as possible and provide URLs when needed.\n\nUser Question: What is new?"
    );
}

#[test]
fn an_answer_that_is_no_json_is_a_parsing_error() {
    assert!(matches!(
        unparsable_leads("expected value at line 1", "Sorry"),
        GeminiError::JsonParsingError(ref m)
            if m == "Failed to parse JSON from API response: expected value at line 1. Response was: Sorry"
    ));
}

#[test]
fn openai_is_chosen_by_its_name_alone() {
    assert_eq!(provider_of("openai"), AiProvider::OpenAi);
    assert_eq!(provider_of("gemini"), AiProvider::Gemini);
    assert_eq!(provider_of("OpenAI"), AiProvider::Gemini);
    assert_eq!(provider_of(""), AiProvider::Gemini);
    assert_eq!(provider_of("openai "), AiProvider::Gemini);
}

#[test]
fn openai_needs_a_key_and_has_a_default_model() {
    let mut keys = ApiKeys::default();
    assert_eq!(openai_model(&keys), Err(String::from("OpenAI API Key not configured")));
    keys.openai_api_key = String::new();
    assert_eq!(openai_model(&keys), Err(String::from("OpenAI API Key not configured")));
    keys.openai_api_key = String::from("sk-test");
    assert_eq!(openai_model(&keys), Ok(String::from("gpt-4o")));
    keys.openai_model = String::new();
    assert_eq!(openai_model(&keys), Ok(String::from("gpt-4o")));
    keys.openai_model = String::from("gpt-4");
    assert_eq!(openai_model(&keys), Ok(String::from("gpt-4")));
    assert_eq!(openai_models(), vec!["gpt-4o", "gpt-4-turbo", "gpt-4", "gpt-3.5-turbo"]);
}

#[test]
fn four_assignees_have_an_address() {
    assert_eq!(assignee_email("Alex"), Some("test+alex@example.com"));
    assert_eq!(assignee_email("Maria"), Some("test+maria@example.com"));
    assert_eq!(assignee_email("David"), Some("test+david@example.com"));
    assert_eq!(assignee_email("Sarah"), Some("test+sarah@example.com"));
    assert_eq!(assignee_email("alex"), None);
    assert_eq!(assignee_email("Alex "), None);
    assert_eq!(assignee_email(""), None);
    assert_eq!(NOTICE_SENDER, "onboarding@resend.dev");
}

#[test]
fn the_notice_names_assignee_title_and_identity() {
    assert_eq!(assignment_subject("A title"), "New Assignment: A title");
    assert_eq!(
        assignment_body("Maria", "A title", 13368),
        "<h1>New Post Assignment</h1>\n        <p>Hello <strong>Maria</strong>,</p>\n        <p>You have been assigned to a new Reddit post:</p>\n        <blockquote>A title</blockquote>\n        <p>Post ID: 13368</p>\n        <p>Please check the Ruddit Client for more details.</p>"
    );
    assert!(assignment_body("A", "t", -7).contains("<p>Post ID: -7</p>"));
    assert!(assignment_body("A", "t", 0).contains("<p>Post ID: 0</p>"));
    assert!(assignment_body("A", "t", i64::MIN).contains("<p>Post ID: -9223372036854775808</p>"));
    assert!(assignment_body("A", "t", i64::MAX).contains("<p>Post ID: 9223372036854775807</p>"));
}
