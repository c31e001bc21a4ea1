use wkfl::clients;
use wkfl::github::{is_bot_user, GitHubClient};
use wkfl::llm::anthropic::{AnthropicClient, ThinkingConfig, ThinkingType};
use wkfl::llm::ollama::OllamaClient;
use wkfl::llm::perplexity::{PerplexityClient, PerplexityModel};
use wkfl::llm::vertex_ai::{VertexAiClient, VertexAiModel};
use wkfl::llm::{format_citation_indices, number_to_superscript, ModelType, Role};
use wkfl::notes::{
    format_note_path, get_day_suffix, get_path_for_person, get_path_for_topic, note_template,
    NoteSpecifier,
};

#[test]
fn github_client_addresses_by_host() {
    let public = GitHubClient::new("github.com".to_string(), "t".to_string());
    assert_eq!(public.api_base, "https://api.github.com");
    assert_eq!(public.graphql_base, "https://api.github.com/graphql");
    let enterprise = GitHubClient::new("github.example.com".to_string(), "t".to_string());
    assert_eq!(enterprise.api_base, "https://github.example.com/api/v3");
    assert_eq!(enterprise.graphql_base, "https://github.example.com/api/graphql");
}

#[test]
fn minimal_github_client_addresses_by_host() {
    let public = clients::github::GitHubClient::new("github.com".to_string(), "t".to_string());
    assert_eq!(public.api_base, "https://api.github.com");
    let enterprise =
        clients::github::GitHubClient::new("github.example.com".to_string(), "t".to_string());
    assert_eq!(enterprise.api_base, "https://github.example.com/api/v3");
}

#[test]
fn bots_are_recognized() {
    assert!(is_bot_user("anything", "Bot"));
    assert!(is_bot_user("service-account", "User"));
    assert!(is_bot_user("dependabot[bot]", "User"));
    assert!(!is_bot_user("alice", "User"));
}

#[test]
fn provider_clients_keep_credentials() {
    let a = AnthropicClient::new("ka".to_string());
    assert_eq!(a.api_key, "ka");
    let p = PerplexityClient::new("kp".to_string());
    assert_eq!(p.api_key, "kp");
    let v = VertexAiClient::new("kv".to_string(), "proj".to_string());
    assert_eq!(v.api_key, "kv");
    assert_eq!(v.project_id, "proj");
}

#[test]
fn thinking_config_default_budget() {
    let t = ThinkingConfig::default();
    assert_eq!(t.budget_tokens, 1024);
    assert!(matches!(t.thinking_type, ThinkingType::Enabled));
}

#[test]
fn model_mappings_follow_model_type() {
    assert_eq!(
        VertexAiClient::model_from_model_type(ModelType::Small),
        VertexAiModel::Gemini20Flash
    );
    assert_eq!(
        VertexAiClient::model_from_model_type(ModelType::Thinking),
        VertexAiModel::Gemini20FlashThinking
    );
    assert_eq!(
        PerplexityModel::from_model_type(ModelType::Large),
        PerplexityModel::SonarPro
    );
    assert_eq!(VertexAiModel::Gemini20Flash.api_name(), "gemini-2.0-flash-exp");
    assert_eq!(
        VertexAiClient::convert_to_standard_role(None),
        Role::Assistant
    );
}

#[test]
fn ollama_models_fall_back_to_smaller_settings() {
    let client = OllamaClient {
        base_url: "http://localhost:11434".to_string(),
        small_model: Some("small".to_string()),
        large_model: None,
        thinking_model: None,
    };
    assert_eq!(client.model_for_type(ModelType::Small).unwrap().as_str(), "small");
    assert_eq!(client.model_for_type(ModelType::Large).unwrap().as_str(), "small");
    assert_eq!(client.model_for_type(ModelType::Thinking).unwrap().as_str(), "small");
    let full = OllamaClient {
        base_url: "http://localhost:11434".to_string(),
        small_model: Some("small".to_string()),
        large_model: Some("large".to_string()),
        thinking_model: Some("think".to_string()),
    };
    assert_eq!(full.model_for_type(ModelType::Large).unwrap().as_str(), "large");
    assert_eq!(full.model_for_type(ModelType::Thinking).unwrap().as_str(), "think");
}

#[test]
fn superscripts_render_digits() {
    assert_eq!(number_to_superscript(&0), "⁰");
    assert_eq!(number_to_superscript(&7), "⁷");
    assert_eq!(number_to_superscript(&42), "⁴²");
    assert_eq!(number_to_superscript(&255), "²⁵⁵");
}

#[test]
fn citation_indices_join_with_separator() {
    assert_eq!(format_citation_indices(&vec![]), "");
    assert_eq!(format_citation_indices(&vec![1]), "¹");
    assert_eq!(format_citation_indices(&vec![0, 12]), "⁰˒¹²");
}

#[test]
fn day_suffixes_follow_english_ordinals() {
    assert_eq!(get_day_suffix(1), "st");
    assert_eq!(get_day_suffix(2), "nd");
    assert_eq!(get_day_suffix(3), "rd");
    assert_eq!(get_day_suffix(4), "th");
    assert_eq!(get_day_suffix(11), "th");
    assert_eq!(get_day_suffix(21), "st");
    assert_eq!(get_day_suffix(22), "nd");
    assert_eq!(get_day_suffix(23), "rd");
    assert_eq!(get_day_suffix(31), "st");
}

#[test]
fn note_paths_fold_names() {
    assert_eq!(get_path_for_topic("Build Systems"), "topics/build_systems.md");
    assert_eq!(get_path_for_person("Ada Lovelace-Byron"), "people/ada_lovelace_byron.md");
    let topic = NoteSpecifier::Topic { name: "Build Systems".to_string() };
    assert_eq!(format_note_path(&topic), "topics/build_systems.md");
    let person = NoteSpecifier::Person { who: "Ada".to_string() };
    assert_eq!(format_note_path(&person), "people/ada.md");
}

#[test]
fn daily_note_path_is_dated() {
    let daily = NoteSpecifier::Daily { day: wkfl::notes::DailyNoteSpecifier::Today };
    let path = format_note_path(&daily);
    assert!(path.starts_with("daily/"));
    assert!(path.ends_with(".md"));
}

#[test]
fn note_templates_title_their_subject() {
    let topic = NoteSpecifier::Topic { name: "build systems".to_string() };
    assert_eq!(note_template(&topic), "# Build Systems");
    let person = NoteSpecifier::Person { who: "Ada".to_string() };
    assert_eq!(note_template(&person), "# Ada");
    let daily = NoteSpecifier::Daily { day: wkfl::notes::DailyNoteSpecifier::Today };
    let template = note_template(&daily);
    assert!(template.starts_with("# "));
    assert!(template.ends_with("\n\n## "));
}
