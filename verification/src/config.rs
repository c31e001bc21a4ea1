//! Configuration model: global settings, per-repository command lists, and
//! the rules for picking chat providers and resolving directories.
//!
//! Reading the configuration files from disk stays outside the library;
//! these types hold the parsed values and the merging and defaulting rules.

use std::collections::HashMap;

use vstd::prelude::*;
use vstd::string::StrSliceExecFns;
use vstd::string::StringExecFns;

verus! {

/// Providers able to answer a web-grounded chat query.
#[derive(Clone, Copy, Debug, PartialEq, Eq, Structural)]
pub enum WebChatProvider {
    VertexAI,
    Perplexity,
}

/// Providers able to answer a plain chat query.
#[derive(Clone, Copy, Debug, PartialEq, Eq, Structural)]
pub enum ChatProvider {
    VertexAI,
    Anthropic,
    Ollama,
}

/// Credentials for the Vertex AI provider.
#[derive(Debug)]
pub struct VertexAiConfig {
    pub api_key: String,
    pub project_id: String,
}

/// Connection settings for a Jira instance.
#[derive(Debug)]
pub struct JiraConfig {
    pub instance_url: String,
    pub email: String,
    pub api_token: String,
}

/// Settings for the Ollama chat provider: the server's base URL and the
/// model for each size, smaller sizes falling back to larger ones.
#[derive(Debug, Clone)]
pub struct OllamaConfig {
    pub base_url: String,
    pub small: Option<String>,
    pub large: Option<String>,
    pub thinking: Option<String>,
}

/// The tool's global configuration.
#[derive(Debug)]
pub struct Config {
    pub repositories_directory: String,
    pub notes_directory: Option<String>,
    pub web_chat_provider: Option<WebChatProvider>,
    pub chat_provider: Option<ChatProvider>,
    pub anthropic_api_key: Option<String>,
    pub perplexity_api_key: Option<String>,
    pub vertex_ai: Option<VertexAiConfig>,
    pub ollama: Option<OllamaConfig>,
    /// API tokens keyed by host (github.com, or an enterprise host).
    pub github_tokens: HashMap<String, String>,
    pub jira: Option<JiraConfig>,
}

/// Command lists a repository can configure around its workflows.
#[derive(Debug)]
pub struct RepoConfig {
    pub pre_start_commands: Vec<String>,
    pub post_start_commands: Vec<String>,
    pub pre_end_commands: Vec<String>,
    pub post_end_commands: Vec<String>,
    pub test_commands: Vec<String>,
    pub fmt_commands: Vec<String>,
    pub build_commands: Vec<String>,
}

impl RepoConfig {
    /// Overlay `other` on this configuration: each non-empty command list
    /// of `other` replaces this one's, and empty lists leave it untouched.
    pub fn merge_with(self, other: RepoConfig) -> (r: Self)
        ensures
            r.pre_start_commands == (if other.pre_start_commands@.len() > 0 {
                other.pre_start_commands
            } else {
                self.pre_start_commands
            }),
            r.post_start_commands == (if other.post_start_commands@.len() > 0 {
                other.post_start_commands
            } else {
                self.post_start_commands
            }),
            r.pre_end_commands == (if other.pre_end_commands@.len() > 0 {
                other.pre_end_commands
            } else {
                self.pre_end_commands
            }),
            r.post_end_commands == (if other.post_end_commands@.len() > 0 {
                other.post_end_commands
            } else {
                self.post_end_commands
            }),
            r.test_commands == (if other.test_commands@.len() > 0 {
                other.test_commands
            } else {
                self.test_commands
            }),
            r.fmt_commands == (if other.fmt_commands@.len() > 0 {
                other.fmt_commands
            } else {
                self.fmt_commands
            }),
            r.build_commands == (if other.build_commands@.len() > 0 {
                other.build_commands
            } else {
                self.build_commands
            }),
    {
        let mut merged = self;
        if other.pre_start_commands.len() > 0 {
            merged.pre_start_commands = other.pre_start_commands;
        }
        if other.post_start_commands.len() > 0 {
            merged.post_start_commands = other.post_start_commands;
        }
        if other.pre_end_commands.len() > 0 {
            merged.pre_end_commands = other.pre_end_commands;
        }
        if other.post_end_commands.len() > 0 {
            merged.post_end_commands = other.post_end_commands;
        }
        if other.test_commands.len() > 0 {
            merged.test_commands = other.test_commands;
        }
        if other.fmt_commands.len() > 0 {
            merged.fmt_commands = other.fmt_commands;
        }
        if other.build_commands.len() > 0 {
            merged.build_commands = other.build_commands;
        }
        merged
    }
}

/// Why a configured directory could not be resolved.
#[derive(Clone, Copy, Debug, PartialEq, Eq, Structural)]
pub enum ConfigError {
    /// A path beginning with `~/` needs the home directory, and none could
    /// be determined.
    NoHomeDirectory,
}

impl ConfigError {
    /// A short description, for display by the caller.
    pub fn message(&self) -> (r: &'static str)
        ensures
            r@ == "Can't determine home dir"@,
    {
        "Can't determine home dir"
    }
}

/// Whether the path names a location under the home directory.
pub open spec fn starts_with_tilde(s: Seq<char>) -> bool {
    s.len() >= 2 && s[0] == '~' && s[1] == '/'
}

/// A configured path resolved against a home directory `home`: `~/` is
/// replaced by the home directory and a separator, anything else stands as
/// written.
pub open spec fn resolved_path(s: Seq<char>, home: Seq<char>) -> Seq<char> {
    if starts_with_tilde(s) {
        home + "/"@ + s.skip(2)
    } else {
        s
    }
}

/// Relies on home_dir of the home crate: the current user's home directory,
/// as the environment reports it, or nothing when it cannot be determined.
#[verifier::external_body]
fn home_directory() -> Option<String> {
    home::home_dir().and_then(|p| p.to_str().map(|s| s.to_string()))
}

/// Turn a configured path into a usable one, replacing a leading `~/` with
/// the home directory. Fails only when the path needs the home directory
/// and the environment does not provide one.
pub fn create_path_from_string(path_str: &str) -> (r: Result<String, ConfigError>)
    ensures
        !starts_with_tilde(path_str@) ==> (r matches Ok(p) && p@ == path_str@),
        r matches Ok(p) ==> exists|home: Seq<char>| p@ == resolved_path(path_str@, home),
        r matches Err(e) ==> e == ConfigError::NoHomeDirectory && starts_with_tilde(path_str@),
{
    let len = path_str.unicode_len();
    let tilde = len >= 2 && path_str.get_char(0) == '~' && path_str.get_char(1) == '/';
    if !tilde {
        let copy = path_str.to_owned();
        proof {
            let home0: Seq<char> = Seq::empty();
            assert(copy@ == resolved_path(path_str@, home0));
        }
        return Ok(copy);
    }
    match home_directory() {
        None => Err(ConfigError::NoHomeDirectory),
        Some(home) => {
            let ghost home_view = home@;
            let rest = path_str.substring_char(2, len);
            let mut out = home;
            out.append("/");
            out.append(rest);
            proof {
                assert(out@ == resolved_path(path_str@, home_view));
            }
            Ok(out)
        },
    }
}

impl Config {
    /// The directory that holds the checked-out repositories.
    pub fn repositories_directory_path(&self) -> (r: Result<String, ConfigError>)
        ensures
            !starts_with_tilde(self.repositories_directory@) ==> (r matches Ok(p) && p@
                == self.repositories_directory@),
            r matches Ok(p) ==> exists|home: Seq<char>| p@ == resolved_path(
                self.repositories_directory@,
                home,
            ),
            r matches Err(e) ==> e == ConfigError::NoHomeDirectory,
    {
        create_path_from_string(self.repositories_directory.as_str())
    }

    /// The directory that holds the notes: the configured one, or `notes`
    /// under the repositories directory when none is configured.
    pub fn notes_directory_path(&self) -> (r: Result<String, ConfigError>)
        ensures
            (self.notes_directory is Some && !starts_with_tilde(self.notes_directory->Some_0@))
                ==> r is Ok,
            self.notes_directory is None && !starts_with_tilde(self.repositories_directory@)
                ==> r is Ok,
            self.notes_directory is Some ==> (r matches Ok(p) ==> exists|home: Seq<char>|
                p@ == resolved_path(self.notes_directory->Some_0@, home)),
            self.notes_directory is None ==> (r matches Ok(p) ==> exists|home: Seq<char>|
                p@ == resolved_path(self.repositories_directory@, home) + "/notes"@),
            r matches Err(e) ==> e == ConfigError::NoHomeDirectory && (if self.notes_directory
                is Some {
                starts_with_tilde(self.notes_directory->Some_0@)
            } else {
                starts_with_tilde(self.repositories_directory@)
            }),
    {
        match &self.notes_directory {
            Some(notes_directory) => create_path_from_string(notes_directory.as_str()),
            None => {
                match self.repositories_directory_path() {
                    Ok(base) => {
                        let ghost base_view = base@;
                        let mut out = base;
                        out.append("/notes");
                        proof {
                            let h = choose|h: Seq<char>|
                                base_view == resolved_path(self.repositories_directory@, h);
                            assert(out@ == resolved_path(self.repositories_directory@, h)
                                + "/notes"@);
                        }
                        Ok(out)
                    },
                    Err(e) => Err(e),
                }
            },
        }
    }

    /// The provider for web-grounded chat: the configured one, else the
    /// first provider with credentials (Perplexity before Vertex AI).
    pub fn get_web_chat_provider(&self) -> (r: Option<WebChatProvider>)
        ensures
            r == (if self.web_chat_provider is Some {
                self.web_chat_provider
            } else if self.perplexity_api_key is Some {
                Some(WebChatProvider::Perplexity)
            } else if self.vertex_ai is Some {
                Some(WebChatProvider::VertexAI)
            } else {
                None::<WebChatProvider>
            }),
    {
        if let Some(p) = &self.web_chat_provider {
            return Some(*p);
        }
        if self.perplexity_api_key.is_some() {
            return Some(WebChatProvider::Perplexity);
        }
        if self.vertex_ai.is_some() {
            return Some(WebChatProvider::VertexAI);
        }
        None
    }

    /// The provider for plain chat: the configured one, else the first
    /// provider with credentials (Anthropic, then Vertex AI, then Ollama).
    pub fn get_chat_provider(&self) -> (r: Option<ChatProvider>)
        ensures
            r == (if self.chat_provider is Some {
                self.chat_provider
            } else if self.anthropic_api_key is Some {
                Some(ChatProvider::Anthropic)
            } else if self.vertex_ai is Some {
                Some(ChatProvider::VertexAI)
            } else if self.ollama is Some {
                Some(ChatProvider::Ollama)
            } else {
                None::<ChatProvider>
            }),
    {
        if let Some(p) = &self.chat_provider {
            return Some(*p);
        }
        if self.anthropic_api_key.is_some() {
            return Some(ChatProvider::Anthropic);
        }
        if self.vertex_ai.is_some() {
            return Some(ChatProvider::VertexAI);
        }
        if self.ollama.is_some() {
            return Some(ChatProvider::Ollama);
        }
        None
    }
}

/// The repositories directory used when none is configured.
pub fn default_repo_base_dir() -> (r: String)
    ensures
        r@ == "~/repos/"@,
{
    let s = "~/repos/";
    s.to_owned()
}

/// The Ollama server address used when none is configured.
pub fn default_ollama_base_url() -> (r: String)
    ensures
        r@ == "http://localhost:11434"@,
{
    let s = "http://localhost:11434";
    s.to_owned()
}

} // verus!
