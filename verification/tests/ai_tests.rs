use savecodex::ai::{
    config_from_settings, env_key, start_request, AiAction, AiConfig, AiConfigError, AiFailure,
    AiReply, Provider,
};

fn some(s: &str) -> Option<String> {
    Some(s.to_string())
}

#[test]
fn settings_make_a_configuration() {
    assert_eq!(env_key("INPUT", "MODEL"), "INPUT_MODEL");
    let c = config_from_settings("CODE", None, None, some("k"), None, None).ok().unwrap();
    assert_eq!(c.provider, Provider::Gemini);
    assert_eq!(c.model, "gemini-1.5-pro");
    assert_eq!(c.api_key, "k");
    assert!(c.base_url.is_none());
    let c = config_from_settings("INPUT", some("openai_compatible"), some("gpt"), None, some("sk"), some("http://h/v1")).ok().unwrap();
    assert_eq!(c.provider, Provider::OpenAiCompatible);
    assert_eq!(c.model, "gpt");
    assert_eq!(c.base_url, some("http://h/v1"));
    let c = config_from_settings("INPUT", some("other"), None, some("g"), None, None).ok().unwrap();
    assert_eq!(c.provider, Provider::Gemini);
}

#[test]
fn missing_settings_are_errors() {
    let e = config_from_settings("CODE", None, None, None, None, None).err().unwrap();
    assert!(matches!(e, AiConfigError::MissingGeminiKey));
    assert_eq!(e.message(), "GEMINI_API_KEY must be set for Gemini provider");
    let e = config_from_settings("INPUT", some("openai_compatible"), None, some("g"), None, some("u")).err().unwrap();
    assert_eq!(e.message(), "INPUT_API_KEY must be set");
    let e = config_from_settings("INPUT", some("openai_compatible"), None, None, some("k"), None).err().unwrap();
    assert_eq!(e.message(), "INPUT_BASE_URL must be set");
}

fn gemini(models: &str) -> AiConfig {
    AiConfig { provider: Provider::Gemini, model: models.to_string(), base_url: None, api_key: "KEY".to_string() }
}

fn post(a: &AiAction) -> (String, String, Option<String>) {
    match a {
        AiAction::Post { url, body, bearer } => (url.clone(), body.clone(), bearer.clone()),
        AiAction::Done(_) => panic!("expected a request"),
    }
}

#[test]
fn gemini_request_body_and_url() {
    let (_s, a) = start_request(&gemini("m1"), "say \"hi\"\n\tnow\u{1}");
    let (url, body, bearer) = post(&a);
    assert_eq!(url, "https://generativelanguage.googleapis.com/v1beta/models/m1:generateContent?key=KEY");
    assert_eq!(body, "{\"contents\":[{\"parts\":[{\"text\":\"say \\\"hi\\\"\\n\\tnow\\u0001\"}]}]}");
    assert_eq!(bearer, None);
}

#[test]
fn gemini_tries_models_in_turn() {
    let (mut s, a) = start_request(&gemini(" m1 , m2"), "p");
    assert!(post(&a).0.contains("/models/m1:"));
    let a = s.step(AiReply::HttpError("404 Not Found".to_string()));
    assert!(post(&a).0.contains("/models/m2:"));
    let a = s.step(AiReply::SendFailed("timeout".to_string()));
    match a {
        AiAction::Done(Err(f)) => {
            assert_eq!(f.message(), "All specified Gemini models failed. Last error: Some(Request failed for m2: timeout)");
        }
        _ => panic!("expected the end"),
    }
}

#[test]
fn gemini_answers() {
    let (mut s, _) = start_request(&gemini("m"), "p");
    let a = s.step(AiReply::Parsed { text: Some("42".to_string()), finish_reason: None, raw: String::new() });
    assert!(matches!(a, AiAction::Done(Ok(ref t)) if t == "42"));
    let (mut s, _) = start_request(&gemini("m"), "p");
    let a = s.step(AiReply::Parsed { text: None, finish_reason: Some("STOP".to_string()), raw: String::new() });
    assert!(matches!(a, AiAction::Done(Ok(ref t)) if t.is_empty()));
    let (mut s, _) = start_request(&gemini("m"), "p");
    let a = s.step(AiReply::Parsed { text: None, finish_reason: Some("SAFETY".to_string()), raw: "{}".to_string() });
    match a {
        AiAction::Done(Err(AiFailure::AllModelsFailed(Some(e)))) => assert_eq!(e, "Failed to extract text from m. Raw: {}"),
        _ => panic!("expected a failure"),
    }
    let (mut s, _) = start_request(&gemini("m"), "p");
    let a = s.step(AiReply::BadJson("eof".to_string()));
    match a {
        AiAction::Done(Err(AiFailure::AllModelsFailed(Some(e)))) => assert_eq!(e, "JSON error for m: eof"),
        _ => panic!("expected a failure"),
    }
}

#[test]
fn openai_compatible_exchange() {
    let c = AiConfig { provider: Provider::OpenAiCompatible, model: "gpt-4o".to_string(), base_url: Some("http://h/v1".to_string()), api_key: "sk".to_string() };
    let (mut s, a) = start_request(&c, "hi");
    let (url, body, bearer) = post(&a);
    assert_eq!(url, "http://h/v1/chat/completions");
    assert_eq!(body, "{\"messages\":[{\"content\":\"hi\",\"role\":\"user\"}],\"model\":\"gpt-4o\"}");
    assert_eq!(bearer, Some("sk".to_string()));
    let a = s.step(AiReply::Parsed { text: None, finish_reason: None, raw: String::new() });
    match a {
        AiAction::Done(Err(f)) => assert_eq!(f.message(), "Failed to extract text from OpenAI compatible response"),
        _ => panic!("expected a failure"),
    }
    let (mut s, _) = start_request(&c, "hi");
    let a = s.step(AiReply::Parsed { text: Some("ok".to_string()), finish_reason: None, raw: String::new() });
    assert!(matches!(a, AiAction::Done(Ok(ref t)) if t == "ok"));
}
