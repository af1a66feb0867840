//! The command line, and where the configuration file is looked for.
//!
//! The configuration file is the one given on the command line; else
//! `config.json` in the current directory; else the file named by the
//! environment variable `GITHUB_SUBMODULE_HOOK_CONFIG`; else
//! `~/.github_submodule_hook/config.json`; else
//! `/etc/github_submodule_hook/config.json`; else `config.json` beside the
//! executable. A candidate file is taken only if it exists.

use vstd::prelude::*;

verus! {

/// The user commands.
pub enum ConfigUser {
    /// Add a user and generate its token.
    Add { username: String },
}

/// The configuration commands.
pub enum ConfigAction {
    /// Manage users.
    User { command: ConfigUser },
    /// Create a configuration skeleton.
    Make {},
}

/// The commands of the program.
pub enum Commands {
    /// Manage the configuration.
    Config { command: ConfigAction },
    /// Start the service's server.
    Server { port: Option<u16>, host: Option<String> },
}

/// The parsed command line.
pub struct Cli {
    /// The configuration file given with `-c`.
    config: Option<String>,
    pub command: Commands,
}

/// The places where a configuration file may be found besides the command
/// line, in the order in which they are tried. Each place that names a file
/// holds its path only if that file exists; the environment variable is
/// taken as it is.
pub struct ConfigCandidates {
    pub current_dir: Option<String>,
    pub env_var: Option<String>,
    pub home_dir: Option<String>,
    pub etc_dir: Option<String>,
    pub exe_dir: Option<String>,
}

/// The first of two optional texts that is present.
pub open spec fn first_of(a: Option<String>, b: Option<Seq<char>>) -> Option<Seq<char>> {
    match a {
        Some(s) => Some(s@),
        None => b,
    }
}

/// The configuration path chosen from the command line and the candidates.
pub open spec fn spec_config_path(explicit: Option<String>, c: ConfigCandidates) -> Option<Seq<char>> {
    first_of(
        explicit,
        first_of(
            c.current_dir,
            first_of(c.env_var, first_of(c.home_dir, first_of(c.etc_dir, first_of(c.exe_dir, None)))),
        ),
    )
}

/// The order in which the configuration file is looked for: the command
/// line; else the current directory; else the environment variable; else the
/// home directory; else `/etc`; else beside the executable; and none at all
/// only when no place names a file.
pub proof fn lemma_config_path_order(explicit: Option<String>, c: ConfigCandidates)
    ensures
        explicit is Some ==> spec_config_path(explicit, c) == Some(explicit->0@),
        explicit is None && c.current_dir is Some ==> spec_config_path(explicit, c) == Some(
            c.current_dir->0@,
        ),
        explicit is None && c.current_dir is None && c.env_var is Some ==> spec_config_path(
            explicit,
            c,
        ) == Some(c.env_var->0@),
        explicit is None && c.current_dir is None && c.env_var is None && c.home_dir is Some
            ==> spec_config_path(explicit, c) == Some(c.home_dir->0@),
        explicit is None && c.current_dir is None && c.env_var is None && c.home_dir is None
            && c.etc_dir is Some ==> spec_config_path(explicit, c) == Some(c.etc_dir->0@),
        explicit is None && c.current_dir is None && c.env_var is None && c.home_dir is None
            && c.etc_dir is None && c.exe_dir is Some ==> spec_config_path(explicit, c) == Some(
            c.exe_dir->0@,
        ),
        (spec_config_path(explicit, c) is None) == (explicit is None && c.current_dir is None
            && c.env_var is None && c.home_dir is None && c.etc_dir is None && c.exe_dir is None),
{
}

fn first_present(a: &Option<String>) -> (res: Option<String>)
    ensures
        match a {
            Some(s) => res matches Some(r) && r@ == s@,
            None => res is None,
        },
{
    match a {
        Some(s) => Some(s.clone()),
        None => None,
    }
}

impl Cli {
    /// The command line with the configuration file `config`, if given, and `command`.
    pub fn new(config: Option<String>, command: Commands) -> (res: Cli)
        ensures
            res.config() == config,
            res.given_command() == command,
    {
        Cli { config, command }
    }

    /// The configuration file given on the command line.
    pub closed spec fn config(&self) -> Option<String> {
        self.config
    }

    /// The command given on the command line.
    pub closed spec fn given_command(&self) -> Commands {
        self.command
    }

    /// The configuration file to use: the first place, in order, that names one.
    pub fn select_config_path(&self, candidates: &ConfigCandidates) -> (res: Option<String>)
        ensures
            match res {
                Some(p) => spec_config_path(self.config(), *candidates) == Some(p@),
                None => spec_config_path(self.config(), *candidates) is None,
            },
    {
        if let Some(p) = first_present(&self.config) {
            return Some(p);
        }
        if let Some(p) = first_present(&candidates.current_dir) {
            return Some(p);
        }
        if let Some(p) = first_present(&candidates.env_var) {
            return Some(p);
        }
        if let Some(p) = first_present(&candidates.home_dir) {
            return Some(p);
        }
        if let Some(p) = first_present(&candidates.etc_dir) {
            return Some(p);
        }
        first_present(&candidates.exe_dir)
    }
}

} // verus!
