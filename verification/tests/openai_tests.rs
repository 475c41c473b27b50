use shellai::openai::{
    build_request_body, classify_response, first_choice_content, ConfigError, OpenAIAgent,
    RequestError, OPENAI_API_URL,
};

#[test]
fn test_openai_agent_creation() {
    let agent = OpenAIAgent::new("gpt-4".to_string(), Some("test_key".to_string()))
        .expect("Failed to create agent");
    assert_eq!(agent.api_key, "test_key");
    assert_eq!(agent.model, "gpt-4");
}

#[test]
fn test_openai_agent_creation_error() {
    let result = OpenAIAgent::new("gpt-4".to_string(), None);
    assert!(result.is_err());
    assert!(result.unwrap_err().message().contains("OPENAI_API_KEY"));
}

#[test]
fn missing_key_is_the_config_error() {
    let result = OpenAIAgent::new("gpt-4o".to_string(), None);
    assert!(matches!(result, Err(ConfigError::MissingApiKey)));
}

#[test]
fn request_body_is_exact() {
    let body = build_request_body("gpt-4", "be brief", "list files");
    assert_eq!(
        body,
        "{\"model\":\"gpt-4\",\"messages\":[{\"role\":\"system\",\"content\":\"be brief\"},{\"role\":\"user\",\"content\":\"list files\"}],\"temperature\":0.7}"
    );
}

#[test]
fn request_body_escapes_the_prompt() {
    let body = build_request_body("m", "a\"b\\c", "line one\nline two\ttab\u{1}");
    assert_eq!(
        body,
        "{\"model\":\"m\",\"messages\":[{\"role\":\"system\",\"content\":\"a\\\"b\\\\c\"},{\"role\":\"user\",\"content\":\"line one\\nline two\\ttab\\u0001\"}],\"temperature\":0.7}"
    );
}

#[test]
fn request_body_round_trips_through_json() {
    // The framed body must be valid JSON carrying the prompts verbatim.
    let body = build_request_body("gpt-4", "sys \"quoted\"", "multi\nline\r\u{8}\u{c}\u{1f}");
    let v: serde_json::Value = serde_json::from_str(&body).expect("framed body must parse");
    assert_eq!(v["model"].as_str(), Some("gpt-4"));
    assert_eq!(v["messages"][0]["role"].as_str(), Some("system"));
    assert_eq!(v["messages"][0]["content"].as_str(), Some("sys \"quoted\""));
    assert_eq!(v["messages"][1]["role"].as_str(), Some("user"));
    assert_eq!(
        v["messages"][1]["content"].as_str(),
        Some("multi\nline\r\u{8}\u{c}\u{1f}")
    );
}

#[test]
fn successful_response_returns_first_choice() {
    let body = "{\"choices\":[{\"message\":{\"role\":\"assistant\",\"content\":\"Hello!\"}},{\"message\":{\"role\":\"assistant\",\"content\":\"second\"}}]}";
    let reply = classify_response(true, body.to_string());
    assert_eq!(reply.unwrap(), "Hello!");
}

#[test]
fn empty_choices_is_a_request_error() {
    let reply = classify_response(true, "{\"choices\":[]}".to_string());
    assert!(matches!(reply, Err(RequestError::NoResponse)));
    assert_eq!(reply.unwrap_err().message(), "No response from API");
}

#[test]
fn non_success_status_carries_the_body() {
    let reply = classify_response(false, "quota exceeded".to_string());
    match reply {
        Err(RequestError::ApiFailure(body)) => assert_eq!(body, "quota exceeded"),
        other => panic!("expected an api failure, got {:?}", other),
    }
    let again = classify_response(false, "quota exceeded".to_string());
    assert_eq!(
        again.unwrap_err().message(),
        "API request failed: quota exceeded"
    );
}

#[test]
fn unparsable_body_is_malformed() {
    let reply = classify_response(true, "not json at all".to_string());
    assert!(matches!(reply, Err(RequestError::MalformedResponse)));
}

#[test]
fn wrong_shape_is_malformed() {
    let reply = classify_response(true, "{\"choices\":[{\"message\":{}}]}".to_string());
    assert!(matches!(reply, Err(RequestError::MalformedResponse)));
    let not_an_array = classify_response(true, "{\"choices\":7}".to_string());
    assert!(matches!(not_an_array, Err(RequestError::MalformedResponse)));
    let no_choices = classify_response(true, "{}".to_string());
    assert!(matches!(no_choices, Err(RequestError::MalformedResponse)));
}

#[test]
fn first_choice_returns_the_first_content() {
    let reply = first_choice_content(vec!["first".to_string(), "second".to_string()]);
    assert_eq!(reply.unwrap(), "first");
    assert!(matches!(
        first_choice_content(Vec::new()),
        Err(RequestError::NoResponse)
    ));
}

#[test]
fn every_choice_must_be_well_formed() {
    // A malformed choice anywhere makes the body malformed, as the strict
    // deserialization of the response shape would have it.
    let body = "{\"choices\":[{\"message\":{\"content\":\"ok\"}},{\"message\":{}}]}";
    assert!(matches!(
        classify_response(true, body.to_string()),
        Err(RequestError::MalformedResponse)
    ));
}

#[test]
fn bearer_header_and_url() {
    let agent = OpenAIAgent::new("gpt-4".to_string(), Some("sk-123".to_string())).unwrap();
    assert_eq!(agent.bearer_header(), "Bearer sk-123");
    assert_eq!(OPENAI_API_URL, "https://api.openai.com/v1/chat/completions");
    let body = agent.request_body_for("sys", "hi");
    assert!(body.starts_with("{\"model\":\"gpt-4\","));
}
