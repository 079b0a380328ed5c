use sandboxed::json_text::{parse_json, print_json};
use sandboxed::metadata_llm::{
    parse_title_status, summary_of_reply, truncate_to, try_build_config_from_providers, EnvKeys,
    MetadataLlmClient, MetadataLlmConfig, Provider, Providers,
};

#[test]
fn test_parse_title_status_basic() {
    let (title, status) =
        parse_title_status("TITLE: Fix CI Pipeline Flaky Tests\nSTATUS: Investigating intermittent test failures in auth module");
    assert_eq!(title.as_deref(), Some("Fix CI Pipeline Flaky Tests"));
    assert_eq!(
        status.as_deref(),
        Some("Investigating intermittent test failures in auth module")
    );
}

#[test]
fn test_parse_title_status_with_quotes() {
    let (title, status) = parse_title_status(
        "TITLE: \"Refactor Database Layer\"\nSTATUS: \"Migrating from raw SQL to ORM\"",
    );
    assert_eq!(title.as_deref(), Some("Refactor Database Layer"));
    assert_eq!(status.as_deref(), Some("Migrating from raw SQL to ORM"));
}

#[test]
fn test_parse_title_status_missing_status() {
    let (title, status) = parse_title_status("TITLE: Quick Fix\n");
    assert_eq!(title.as_deref(), Some("Quick Fix"));
    assert!(status.is_none());
}

#[test]
fn test_parse_title_status_empty() {
    let (title, status) = parse_title_status("");
    assert!(title.is_none());
    assert!(status.is_none());
}

#[test]
fn test_truncate_to() {
    assert_eq!(truncate_to("hello world", 5), "hello");
    assert_eq!(truncate_to("hello", 10), "hello");
    // Unicode boundary safety
    assert_eq!(truncate_to("héllo", 2), "h");
}

#[test]
fn titles_that_are_too_long_are_passed_over() {
    let long = "x".repeat(101);
    let text = format!("TITLE: first\nTITLE: {}\nSTATUS: {}", long, long);
    let (title, status) = parse_title_status(&text);
    assert_eq!(title.as_deref(), Some("first"));
    assert_eq!(status, Some(long));
    // The limit counts bytes.
    let (title, _) = parse_title_status(&format!("TITLE: {}", "é".repeat(51)));
    assert!(title.is_none());
    let (title, _) = parse_title_status("  TITLE:  \" spaced \"  \r\nTITLE: \"\"");
    assert_eq!(title.as_deref(), Some("spaced"));
}

#[test]
fn replies_are_read_where_the_model_puts_its_answer() {
    let reply = parse_json(
        r#"{"choices": [{"message": {"content": "\n TITLE: A\nSTATUS: B \n"}}, {"message": {}}]}"#,
    )
    .unwrap();
    assert_eq!(
        summary_of_reply(&reply),
        (Some("A".to_string()), Some("B".to_string()))
    );
    for other in ["{}", r#"{"choices": []}"#, r#"{"choices": {"message": {"content": "TITLE: A"}}}"#] {
        assert_eq!(summary_of_reply(&parse_json(other).unwrap()), (None, None));
    }
}

fn client(base_url: &str, api_key: &str) -> MetadataLlmClient<()> {
    let mut c = MetadataLlmClient::new();
    c.set_config(Some(MetadataLlmConfig {
        base_url: base_url.to_string(),
        api_key: api_key.to_string(),
        model: "m".to_string(),
    }));
    c
}

#[test]
fn summary_request_shows_the_start_of_the_conversation() {
    let c = client("https://api.example/v1//", "k");
    let q = c
        .summary_request(&"a".repeat(601), "done", Some("Old"), true)
        .unwrap();
    assert_eq!(q.url, "https://api.example/v1/chat/completions");
    assert_eq!(q.authorization, "Bearer k");
    let messages = match q.body.get("messages") {
        Some(sandboxed::json::Json::Array(m)) => m,
        other => panic!("unexpected messages: {:?}", other),
    };
    assert!(messages[0]
        .get_str("content")
        .unwrap()
        .starts_with("You summarize coding missions. The current title is: \"Old\"\nBased on"));
    assert_eq!(
        messages[1].get_str("content"),
        Some(format!("User request:\n{}\n\nAssistant response:\ndone", "a".repeat(600)).as_str())
    );
    let printed = print_json(&q.body);
    assert!(printed.contains("\"max_tokens\": 80"));
    assert!(printed.contains("\"temperature\": 0.2"));
    // A title that is not to be refreshed is not shown.
    for (title, refresh) in [(Some("Old"), false), (None, true)] {
        let q = c.summary_request("u", "a", title, refresh).unwrap();
        assert!(print_json(&q.body).contains("Given a user request and assistant response"));
    }
}

#[test]
fn no_summary_is_asked_for_without_a_key() {
    let c: MetadataLlmClient<()> = MetadataLlmClient::new();
    assert!(c.summary_request("u", "a", None, false).is_none());
    assert!(client("https://api.example", "")
        .summary_request("u", "a", None, false)
        .is_none());
}

fn provider(base_url: Option<&str>, api_key: Option<&str>, token: Option<&str>) -> Option<Provider> {
    Some(Provider {
        base_url: base_url.map(String::from),
        api_key: api_key.map(String::from),
        oauth_access_token: token.map(String::from),
    })
}

fn nothing() -> (Providers, EnvKeys) {
    (
        Providers {
            openrouter: None,
            groq: None,
            cerebras: None,
            openai: None,
            google: None,
        },
        EnvKeys {
            openrouter: None,
            cerebras: None,
            groq: None,
            openai: None,
        },
    )
}

fn chosen(p: &Providers, env: &EnvKeys) -> Option<(String, String, String)> {
    try_build_config_from_providers(p, env).map(|c| (c.base_url, c.api_key, c.model))
}

fn config(base_url: &str, api_key: &str, model: &str) -> Option<(String, String, String)> {
    Some((base_url.to_string(), api_key.to_string(), model.to_string()))
}

#[test]
fn the_first_provider_with_a_key_is_chosen() {
    let (mut p, mut env) = nothing();
    assert_eq!(chosen(&p, &env), None);
    env.openai = Some("e1".to_string());
    assert_eq!(chosen(&p, &env), config("https://api.openai.com/v1", "e1", "gpt-4.1-nano"));
    env.groq = Some("e2".to_string());
    assert_eq!(
        chosen(&p, &env),
        config("https://api.groq.com/openai/v1", "e2", "llama-3.3-70b-versatile")
    );
    env.cerebras = Some("e3".to_string());
    assert_eq!(chosen(&p, &env), config("https://api.cerebras.ai/v1", "e3", "llama-3.3-70b"));
    env.openrouter = Some(" ".to_string());
    assert_eq!(chosen(&p, &env), config("https://api.cerebras.ai/v1", "e3", "llama-3.3-70b"));
    p.google = provider(None, None, Some(""));
    assert_eq!(chosen(&p, &env), config("https://api.cerebras.ai/v1", "e3", "llama-3.3-70b"));
    p.google = provider(None, None, Some("t"));
    assert_eq!(
        chosen(&p, &env),
        config("https://generativelanguage.googleapis.com/v1beta/openai", "t", "gemini-2.0-flash")
    );
    p.openai = provider(None, Some("k1"), None);
    assert_eq!(chosen(&p, &env), config("https://api.openai.com/v1", "k1", "gpt-4.1-nano"));
    p.cerebras = provider(None, Some("k2"), None);
    assert_eq!(chosen(&p, &env), config("https://api.cerebras.ai/v1", "k2", "llama-3.3-70b"));
    p.groq = provider(Some("https://own"), Some("k3"), None);
    assert_eq!(chosen(&p, &env), config("https://own", "k3", "llama-3.3-70b-versatile"));
    p.openrouter = provider(None, Some("k4"), None);
    assert_eq!(
        chosen(&p, &env),
        config("https://openrouter.ai/api/v1", "k4", "google/gemini-2.0-flash-001")
    );
}

#[test]
fn configuration_is_refreshed_only_from_providers() {
    let (mut p, env) = nothing();
    p.openai = provider(None, Some("k"), None);
    let mut c = client("https://api.example", "old");
    c.ensure_config_fresh(&p, &env);
    assert_eq!(c.config.as_ref().unwrap().api_key, "old");
    c.set_ai_providers(());
    c.ensure_config_fresh(&p, &env);
    assert_eq!(c.config.as_ref().unwrap().api_key, "k");
}
