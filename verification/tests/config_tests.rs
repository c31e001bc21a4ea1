use wkfl::config::{ChatProvider, Config, RepoConfig, WebChatProvider};
use std::collections::HashMap;

fn empty_repo_config() -> RepoConfig {
    RepoConfig {
        pre_start_commands: vec![],
        post_start_commands: vec![],
        pre_end_commands: vec![],
        post_end_commands: vec![],
        test_commands: vec![],
        fmt_commands: vec![],
        build_commands: vec![],
    }
}

fn base_config() -> Config {
    Config {
        repositories_directory: "~/repos/".to_string(),
        notes_directory: None,
        web_chat_provider: None,
        chat_provider: None,
        anthropic_api_key: None,
        perplexity_api_key: None,
        vertex_ai: None,
        ollama: None,
        github_tokens: HashMap::new(),
        jira: None,
    }
}

#[test]
fn test_merge_with_empty_configs() {
    let base = empty_repo_config();
    let other = empty_repo_config();

    let result = base.merge_with(other);

    assert!(result.pre_start_commands.is_empty());
    assert!(result.post_start_commands.is_empty());
    assert!(result.pre_end_commands.is_empty());
    assert!(result.post_end_commands.is_empty());
    assert!(result.test_commands.is_empty());
    assert!(result.fmt_commands.is_empty());
    assert!(result.build_commands.is_empty());
}

#[test]
fn test_merge_with_base_has_values_other_empty() {
    let base = RepoConfig {
        pre_start_commands: vec!["base_pre_start".to_string()],
        post_start_commands: vec!["base_post_start".to_string()],
        pre_end_commands: vec!["base_pre_end".to_string()],
        post_end_commands: vec!["base_post_end".to_string()],
        test_commands: vec!["base_test".to_string()],
        fmt_commands: vec!["base_fmt".to_string()],
        build_commands: vec!["base_build".to_string()],
    };
    let other = empty_repo_config();

    let result = base.merge_with(other);

    assert_eq!(result.pre_start_commands, vec!["base_pre_start"]);
    assert_eq!(result.post_start_commands, vec!["base_post_start"]);
    assert_eq!(result.pre_end_commands, vec!["base_pre_end"]);
    assert_eq!(result.post_end_commands, vec!["base_post_end"]);
    assert_eq!(result.test_commands, vec!["base_test"]);
    assert_eq!(result.fmt_commands, vec!["base_fmt"]);
    assert_eq!(result.build_commands, vec!["base_build"]);
}

#[test]
fn test_merge_with_base_empty_other_has_values() {
    let base = empty_repo_config();
    let other = RepoConfig {
        pre_start_commands: vec!["other_pre_start".to_string()],
        post_start_commands: vec!["other_post_start".to_string()],
        pre_end_commands: vec!["other_pre_end".to_string()],
        post_end_commands: vec!["other_post_end".to_string()],
        test_commands: vec!["other_test".to_string()],
        fmt_commands: vec!["other_fmt".to_string()],
        build_commands: vec!["other_build".to_string()],
    };

    let result = base.merge_with(other);

    assert_eq!(result.pre_start_commands, vec!["other_pre_start"]);
    assert_eq!(result.post_start_commands, vec!["other_post_start"]);
    assert_eq!(result.pre_end_commands, vec!["other_pre_end"]);
    assert_eq!(result.post_end_commands, vec!["other_post_end"]);
    assert_eq!(result.test_commands, vec!["other_test"]);
    assert_eq!(result.fmt_commands, vec!["other_fmt"]);
    assert_eq!(result.build_commands, vec!["other_build"]);
}

#[test]
fn test_merge_with_both_have_values_other_overrides() {
    let base = RepoConfig {
        pre_start_commands: vec!["base_pre_start".to_string()],
        post_start_commands: vec!["base_post_start".to_string()],
        pre_end_commands: vec!["base_pre_end".to_string()],
        post_end_commands: vec!["base_post_end".to_string()],
        test_commands: vec!["base_test".to_string()],
        fmt_commands: vec!["base_fmt".to_string()],
        build_commands: vec!["base_build".to_string()],
    };
    let other = RepoConfig {
        pre_start_commands: vec!["other_pre_start".to_string()],
        post_start_commands: vec!["other_post_start".to_string()],
        pre_end_commands: vec!["other_pre_end".to_string()],
        post_end_commands: vec!["other_post_end".to_string()],
        test_commands: vec!["other_test".to_string()],
        fmt_commands: vec!["other_fmt".to_string()],
        build_commands: vec!["other_build".to_string()],
    };

    let result = base.merge_with(other);

    assert_eq!(result.pre_start_commands, vec!["other_pre_start"]);
    assert_eq!(result.post_start_commands, vec!["other_post_start"]);
    assert_eq!(result.pre_end_commands, vec!["other_pre_end"]);
    assert_eq!(result.post_end_commands, vec!["other_post_end"]);
    assert_eq!(result.test_commands, vec!["other_test"]);
    assert_eq!(result.fmt_commands, vec!["other_fmt"]);
    assert_eq!(result.build_commands, vec!["other_build"]);
}

#[test]
fn test_merge_with_partial_override() {
    let base = RepoConfig {
        pre_start_commands: vec!["base_pre_start".to_string()],
        post_start_commands: vec!["base_post_start".to_string()],
        pre_end_commands: vec!["base_pre_end".to_string()],
        post_end_commands: vec!["base_post_end".to_string()],
        test_commands: vec!["base_test".to_string()],
        fmt_commands: vec!["base_fmt".to_string()],
        build_commands: vec!["base_build".to_string()],
    };
    let other = RepoConfig {
        pre_start_commands: vec![],
        post_start_commands: vec!["other_post_start".to_string()],
        pre_end_commands: vec![],
        post_end_commands: vec![],
        test_commands: vec!["other_test1".to_string(), "other_test2".to_string()],
        fmt_commands: vec![],
        build_commands: vec!["other_build1".to_string(), "other_build2".to_string()],
    };

    let result = base.merge_with(other);

    assert_eq!(result.pre_start_commands, vec!["base_pre_start"]);
    assert_eq!(result.post_start_commands, vec!["other_post_start"]);
    assert_eq!(result.pre_end_commands, vec!["base_pre_end"]);
    assert_eq!(result.post_end_commands, vec!["base_post_end"]);
    assert_eq!(result.test_commands, vec!["other_test1", "other_test2"]);
    assert_eq!(result.fmt_commands, vec!["base_fmt"]);
    assert_eq!(result.build_commands, vec!["other_build1", "other_build2"]);
}

#[test]
fn test_merge_with_multiple_commands() {
    let base = RepoConfig {
        pre_start_commands: vec!["base1".to_string(), "base2".to_string()],
        post_start_commands: vec![],
        pre_end_commands: vec![],
        post_end_commands: vec![],
        test_commands: vec![],
        fmt_commands: vec![],
        build_commands: vec![],
    };
    let other = RepoConfig {
        pre_start_commands: vec![],
        post_start_commands: vec![
            "other1".to_string(),
            "other2".to_string(),
            "other3".to_string(),
        ],
        pre_end_commands: vec![],
        post_end_commands: vec![],
        test_commands: vec!["test1".to_string()],
        fmt_commands: vec![],
        build_commands: vec!["build1".to_string()],
    };

    let result = base.merge_with(other);

    assert_eq!(result.pre_start_commands, vec!["base1", "base2"]);
    assert_eq!(result.post_start_commands, vec!["other1", "other2", "other3"]);
    assert!(result.pre_end_commands.is_empty());
    assert!(result.post_end_commands.is_empty());
    assert_eq!(result.test_commands, vec!["test1"]);
    assert!(result.fmt_commands.is_empty());
    assert_eq!(result.build_commands, vec!["build1"]);
}

#[test]
fn test_merge_with_chaining() {
    let base = RepoConfig {
        pre_start_commands: vec!["base".to_string()],
        post_start_commands: vec![],
        pre_end_commands: vec![],
        post_end_commands: vec![],
        test_commands: vec![],
        fmt_commands: vec![],
        build_commands: vec![],
    };
    let middle = RepoConfig {
        pre_start_commands: vec![],
        post_start_commands: vec!["middle".to_string()],
        pre_end_commands: vec![],
        post_end_commands: vec![],
        test_commands: vec![],
        fmt_commands: vec!["middle_fmt".to_string()],
        build_commands: vec!["middle_build".to_string()],
    };
    let final_config = RepoConfig {
        pre_start_commands: vec!["final".to_string()],
        post_start_commands: vec![],
        pre_end_commands: vec![],
        post_end_commands: vec![],
        test_commands: vec!["final_test".to_string()],
        fmt_commands: vec![],
        build_commands: vec![],
    };

    let result = base.merge_with(middle).merge_with(final_config);

    assert_eq!(result.pre_start_commands, vec!["final"]);
    assert_eq!(result.post_start_commands, vec!["middle"]);
    assert!(result.pre_end_commands.is_empty());
    assert!(result.post_end_commands.is_empty());
    assert_eq!(result.test_commands, vec!["final_test"]);
    assert_eq!(result.fmt_commands, vec!["middle_fmt"]);
    assert_eq!(result.build_commands, vec!["middle_build"]);
}

#[test]
fn chat_provider_prefers_configured_value() {
    let mut config = base_config();
    config.chat_provider = Some(ChatProvider::Ollama);
    config.anthropic_api_key = Some("val::key".to_string());
    assert_eq!(config.get_chat_provider(), Some(ChatProvider::Ollama));
}

#[test]
fn chat_provider_falls_back_by_credentials() {
    let mut config = base_config();
    assert_eq!(config.get_chat_provider(), None);
    config.anthropic_api_key = Some("val::key".to_string());
    assert_eq!(config.get_chat_provider(), Some(ChatProvider::Anthropic));
}

#[test]
fn web_chat_provider_falls_back_by_credentials() {
    let mut config = base_config();
    assert_eq!(config.get_web_chat_provider(), None);
    config.perplexity_api_key = Some("val::key".to_string());
    assert_eq!(config.get_web_chat_provider(), Some(WebChatProvider::Perplexity));
}

#[test]
fn plain_path_passes_through() {
    let resolved = wkfl::config::create_path_from_string("/srv/repos").unwrap();
    assert_eq!(resolved, "/srv/repos");
}

#[test]
fn notes_directory_defaults_under_repositories() {
    let mut config = base_config();
    config.repositories_directory = "/srv/repos".to_string();
    assert_eq!(config.notes_directory_path().unwrap(), "/srv/repos/notes");
}
