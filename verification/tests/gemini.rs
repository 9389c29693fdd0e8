use kabu::gemini::{
    extract_response_text, gemini_step, generate_content_url, retries_exhausted_message,
    Candidate, GeminiError, GeminiResponse, GeminiStep, ResponseContent, ResponsePart,
    MAX_RETRIES, RESPONSE_SCHEMA_JSON,
};

fn candidate(texts: Vec<Option<&str>>) -> Candidate {
    Candidate {
        content: ResponseContent {
            parts: texts
                .into_iter()
                .map(|t| ResponsePart { text: t.map(|s| s.to_string()) })
                .collect(),
        },
    }
}

#[test]
fn extract_response_text_concatenates_all_text_parts() {
    let candidate = Candidate {
        content: ResponseContent {
            parts: vec![
                ResponsePart {
                    text: Some("{\"transactions\":[".to_string()),
                },
                ResponsePart {
                    text: Some("{\"symbol\":\"AAPL\"}".to_string()),
                },
                ResponsePart {
                    text: Some("]}".to_string()),
                },
            ],
        },
    };

    assert_eq!(
        extract_response_text(&candidate).as_deref(),
        Some("{\"transactions\":[{\"symbol\":\"AAPL\"}]}")
    );
}

#[test]
fn extract_response_text_ignores_empty_parts() {
    let candidate = Candidate {
        content: ResponseContent {
            parts: vec![ResponsePart { text: None }, ResponsePart { text: None }],
        },
    };

    assert_eq!(extract_response_text(&candidate), None);
}

#[test]
fn extract_response_text_skips_parts_without_text() {
    let c = candidate(vec![Some("ab"), None, Some("cd")]);
    assert_eq!(extract_response_text(&c).as_deref(), Some("abcd"));
}

#[test]
fn extract_response_text_of_empty_texts_is_none() {
    let c = candidate(vec![Some(""), Some("")]);
    assert_eq!(extract_response_text(&c), None);
    assert_eq!(extract_response_text(&candidate(vec![])), None);
}

fn error_reply(message: &str) -> GeminiResponse {
    GeminiResponse {
        candidates: None,
        error: Some(GeminiError { message: message.to_string() }),
    }
}

#[test]
fn high_demand_is_retried_while_attempts_remain() {
    let reply = error_reply("The model is overloaded due to high demand.");
    for attempt in 0..MAX_RETRIES {
        match gemini_step(attempt, &reply) {
            GeminiStep::Retry { last_error } => {
                assert_eq!(last_error, "The model is overloaded due to high demand.")
            }
            other => panic!("expected a retry, got {:?}", other),
        }
    }
}

#[test]
fn high_demand_on_last_attempt_fails() {
    let reply = error_reply("high demand");
    match gemini_step(MAX_RETRIES, &reply) {
        GeminiStep::Fail { message } => assert_eq!(message, "Gemini API error: high demand"),
        other => panic!("expected a failure, got {:?}", other),
    }
}

#[test]
fn other_api_error_fails_at_once() {
    let reply = error_reply("API key not valid");
    match gemini_step(0, &reply) {
        GeminiStep::Fail { message } => assert_eq!(message, "Gemini API error: API key not valid"),
        other => panic!("expected a failure, got {:?}", other),
    }
}

#[test]
fn answer_is_text_of_first_candidate() {
    let reply = GeminiResponse {
        candidates: Some(vec![candidate(vec![Some("{\"transactions\":[]}")]), candidate(vec![Some("x")])]),
        error: None,
    };
    match gemini_step(1, &reply) {
        GeminiStep::Answer { text } => assert_eq!(text, "{\"transactions\":[]}"),
        other => panic!("expected an answer, got {:?}", other),
    }
}

#[test]
fn reply_without_text_fails() {
    for reply in [
        GeminiResponse { candidates: None, error: None },
        GeminiResponse { candidates: Some(vec![]), error: None },
        GeminiResponse { candidates: Some(vec![candidate(vec![None])]), error: None },
    ] {
        match gemini_step(0, &reply) {
            GeminiStep::Fail { message } => assert_eq!(message, "No response from Gemini"),
            other => panic!("expected a failure, got {:?}", other),
        }
    }
}

#[test]
fn urls_and_messages() {
    assert_eq!(
        generate_content_url("gemini-2.5-flash-lite", "KEY"),
        "https://generativelanguage.googleapis.com/v1beta/models/gemini-2.5-flash-lite:generateContent?key=KEY"
    );
    assert_eq!(
        retries_exhausted_message("busy"),
        "Gemini API failed after 3 retries: busy"
    );
    let schema: serde_json::Value = serde_json::from_str(RESPONSE_SCHEMA_JSON).unwrap();
    assert_eq!(schema["required"][0], "transactions");
    assert_eq!(schema["properties"]["transactions"]["items"]["required"].as_array().unwrap().len(), 5);
}
