use ai_bridge::config::{
    list_profiles, profile_file_name, resolve_bare_profile, resolve_profile, resolve_vision, validate_profile_name,
    ProfileSettings, VisionSettings,
};
use ai_bridge::error::Error;
use ai_bridge::forward::{ReasoningEffortOverride, UpstreamType};
use ai_bridge::vision::PromptMode;

fn settings(upstream_type: &str) -> ProfileSettings {
    ProfileSettings {
        upstream_type: upstream_type.to_string(),
        url: "https://x.example".to_string(),
        api_key: "k".to_string(),
        model: None,
        listen_addr: None,
        listen_port: None,
        auth_key: None,
        vision_supplement: None,
        thinking: None,
        effort: None,
    }
}

fn vision(url: Option<&str>, api_key: Option<&str>, model: Option<&str>) -> VisionSettings {
    VisionSettings {
        url: url.map(str::to_string),
        api_key: api_key.map(str::to_string),
        model: model.map(str::to_string),
        prompt_mode: None,
        prompt: None,
        max_tokens: None,
    }
}

#[test]
fn profile_names_are_letters_digits_and_two_signs() {
    for name in ["default", "Deep-Seek_2", "0"] {
        assert!(validate_profile_name(name).is_ok(), "{name}");
    }
    for name in ["", ".settings", "a/b", "a b", "é"] {
        match validate_profile_name(name) {
            Err(Error::Config(m)) => assert!(m.contains(&format!("\"{name}\"")), "{m}"),
            _ => panic!("{name} is no name"),
        }
    }
}

#[test]
fn profiles_are_listed_in_order_and_hidden_files_are_not() {
    let files: Vec<String> = ["b.toml", ".settings.toml", "a.toml", "notes.txt", "b2.toml", "toml", "b.toml"]
        .iter()
        .map(|f| f.to_string())
        .collect();
    assert_eq!(list_profiles(&files), ["a", "b", "b2"]);
    assert_eq!(list_profiles(&vec![profile_file_name("x")]), ["x"]);
    assert!(list_profiles(&Vec::new()).is_empty());
}

#[test]
fn a_bare_start_takes_the_recorded_profile() {
    assert_eq!(resolve_bare_profile(Some("b".to_string())), "b");
    assert_eq!(resolve_bare_profile(None), "default");
}

#[test]
fn absent_keys_have_defaults() {
    let c = resolve_profile(settings(" OAI-Chat ")).unwrap();
    assert_eq!(c.upstream_type, UpstreamType::OaiChat);
    assert_eq!(c.model, "deepseek-v4-flash");
    assert_eq!((c.listen_addr.as_str(), c.listen_port), ("127.0.0.1", 18650));
    assert_eq!(c.auth_key, None);
    assert!(!c.vision_supplement_enabled);
    assert!(c.reasoning_policy.thinking_enabled);
    assert_eq!(c.reasoning_policy.effort, ReasoningEffortOverride::Stamp("max".to_string()));
}

#[test]
fn keys_that_are_there_count() {
    let mut s = settings("anthropic-messages");
    s.model = Some("m".to_string());
    s.listen_addr = Some("0.0.0.0".to_string());
    s.listen_port = Some(1);
    s.auth_key = Some("t".to_string());
    s.vision_supplement = Some(true);
    s.thinking = Some(false);
    s.effort = Some(" Off ".to_string());
    let c = resolve_profile(s).unwrap();
    assert_eq!(c.upstream_type, UpstreamType::AnthropicMessages);
    assert_eq!(c.model, "m");
    assert_eq!((c.listen_addr.as_str(), c.listen_port), ("0.0.0.0", 1));
    assert_eq!(c.auth_key.as_deref(), Some("t"));
    assert!(c.vision_supplement_enabled);
    assert!(!c.reasoning_policy.thinking_enabled);
    assert_eq!(c.reasoning_policy.effort, ReasoningEffortOverride::Drop);
}

#[test]
fn an_unknown_upstream_type_is_refused() {
    match resolve_profile(settings("gemini")) {
        Err(Error::Config(m)) => assert_eq!(
            m,
            "Invalid upstream_type \"gemini\": expected one of anthropic-messages | oai-chat | oai-responses"
        ),
        _ => panic!("no such format"),
    }
}

#[test]
fn vision_takes_all_three_keys() {
    let c = resolve_vision(vision(Some("https://x/v1/messages"), Some("k"), Some("m"))).unwrap();
    assert_eq!(c.upstream_type, UpstreamType::AnthropicMessages);
    assert_eq!((c.custom_prompt, c.max_tokens), (None, None));
    match resolve_vision(vision(Some(" "), Some("k"), None)) {
        Err(missing) => assert_eq!(missing, ["url", "model"]),
        Ok(_) => panic!("two keys are missing"),
    }
    match resolve_vision(vision(None, Some(""), Some("m"))) {
        Err(missing) => assert_eq!(missing, ["url", "api_key"]),
        Ok(_) => panic!("two keys are missing"),
    }
}

#[test]
fn a_blank_prompt_and_a_limit_of_zero_count_as_absent() {
    let mut v = vision(Some("u"), Some("k"), Some("m"));
    v.prompt = Some(" ".to_string());
    v.max_tokens = Some(0);
    let c = resolve_vision(v).unwrap();
    assert_eq!((c.custom_prompt, c.max_tokens), (None, None));
    let mut v = vision(Some("u"), Some("k"), Some("m"));
    v.prompt = Some("Look.".to_string());
    v.max_tokens = Some(7);
    let c = resolve_vision(v).unwrap();
    assert_eq!((c.custom_prompt.as_deref(), c.max_tokens), (Some("Look."), Some(7)));
}

#[test]
fn unknown_prompt_modes_are_auto() {
    let mode = |name: Option<&str>| {
        let mut v = vision(Some("u"), Some("k"), Some("m"));
        v.prompt_mode = name.map(str::to_string);
        resolve_vision(v).unwrap().prompt_mode
    };
    assert_eq!(mode(None), PromptMode::Auto);
    assert_eq!(mode(Some("auto")), PromptMode::Auto);
    assert_eq!(mode(Some("verbose")), PromptMode::Auto);
    assert_eq!(mode(Some("General")), PromptMode::General);
    assert_eq!(mode(Some(" ui ")), PromptMode::Ui);
    assert_eq!(mode(Some("COMPACT")), PromptMode::Compact);
}
