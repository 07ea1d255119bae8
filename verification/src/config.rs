//! Which configuration file is used.
pub mod postprocess;
pub mod schema;
pub mod utils;

use crate::config::postprocess::dir_view;
use crate::config::utils::{
    append_path, appended_path, git_path, lemma_append_path_single_separator,
    without_leading_slash, without_trailing_slash, GitFound, GitFoundView, GitLookup,
    GitLookupView,
};
use crate::text::{contains_text, ends_with_char, str_contains};
use crate::Args;
use vstd::prelude::*;

verus! {

/// Why no configuration could be had.
pub enum ConfigError {
    InvalidConfig(String),
    ConfigNotFound,
    RepoNotFound(String),
    HomeDirNotFound,
    UnknownError(String),
}

/// A `ConfigError` as plain values.
pub enum ConfigFailure {
    InvalidConfig(Seq<char>),
    ConfigNotFound,
    RepoNotFound(Seq<char>),
    HomeDirNotFound,
    UnknownError(Seq<char>),
}

impl View for ConfigError {
    type V = ConfigFailure;

    open spec fn view(&self) -> ConfigFailure {
        match self {
            ConfigError::InvalidConfig(s) => ConfigFailure::InvalidConfig(s@),
            ConfigError::ConfigNotFound => ConfigFailure::ConfigNotFound,
            ConfigError::RepoNotFound(s) => ConfigFailure::RepoNotFound(s@),
            ConfigError::HomeDirNotFound => ConfigFailure::HomeDirNotFound,
            ConfigError::UnknownError(s) => ConfigFailure::UnknownError(s@),
        }
    }
}

impl ConfigError {
    /// The text the error is shown with.
    pub fn message(&self) -> (r: String)
        ensures
            r@ == match self {
                ConfigError::InvalidConfig(s) => "Invalid config: "@ + s@,
                ConfigError::ConfigNotFound => "Config file not found"@,
                ConfigError::RepoNotFound(s) => "Repository not found: "@ + s@,
                ConfigError::HomeDirNotFound => "Users home directory not found"@,
                ConfigError::UnknownError(s) => "Unknown Error: "@ + s@,
            },
    {
        match self {
            ConfigError::InvalidConfig(s) => String::from_str("Invalid config: ").concat(s.as_str()),
            ConfigError::ConfigNotFound => String::from_str("Config file not found"),
            ConfigError::RepoNotFound(s) => String::from_str("Repository not found: ").concat(
                s.as_str(),
            ),
            ConfigError::HomeDirNotFound => String::from_str("Users home directory not found"),
            ConfigError::UnknownError(s) => String::from_str("Unknown Error: ").concat(s.as_str()),
        }
    }
}

/// A path result as plain values.
pub open spec fn path_outcome_view(r: Result<String, ConfigError>) -> Result<
    Seq<char>,
    ConfigFailure,
> {
    match r {
        Ok(s) => Ok(s@),
        Err(e) => Err(e@),
    }
}

/// Where the working path comes from.
pub enum PathConf {
    GitWPath(String),
    GitWOPath,
    NoGitWPath(String),
    NoGitWOPath,
}

/// Where the configuration file comes from: the file given, or the
/// `muxrs.json` of the given path or of the current directory, looked up at
/// the root of its git repository when the flag says so.
pub enum ConfigConf {
    Config(String),
    NoConfigWPath(String, bool),
    NoConfigWOPath(bool),
}

/// A `PathConf` as plain values.
pub enum PathChoice {
    GitWPath(Seq<char>),
    GitWOPath,
    NoGitWPath(Seq<char>),
    NoGitWOPath,
}

/// A `ConfigConf` as plain values.
pub enum ConfigChoice {
    Config(Seq<char>),
    NoConfigWPath(Seq<char>, bool),
    NoConfigWOPath(bool),
}

impl View for PathConf {
    type V = PathChoice;

    open spec fn view(&self) -> PathChoice {
        match self {
            PathConf::GitWPath(p) => PathChoice::GitWPath(p@),
            PathConf::GitWOPath => PathChoice::GitWOPath,
            PathConf::NoGitWPath(p) => PathChoice::NoGitWPath(p@),
            PathConf::NoGitWOPath => PathChoice::NoGitWOPath,
        }
    }
}

impl View for ConfigConf {
    type V = ConfigChoice;

    open spec fn view(&self) -> ConfigChoice {
        match self {
            ConfigConf::Config(c) => ConfigChoice::Config(c@),
            ConfigConf::NoConfigWPath(p, g) => ConfigChoice::NoConfigWPath(p@, *g),
            ConfigConf::NoConfigWOPath(g) => ConfigChoice::NoConfigWOPath(*g),
        }
    }
}

/// The working path that the command line asks for.
pub open spec fn path_choice(no_git: bool, path: Option<Seq<char>>) -> PathChoice {
    match path {
        Some(p) => if no_git {
            PathChoice::NoGitWPath(p)
        } else {
            PathChoice::GitWPath(p)
        },
        None => if no_git {
            PathChoice::NoGitWOPath
        } else {
            PathChoice::GitWOPath
        },
    }
}

/// The configuration source that the command line asks for: a given
/// configuration file wins over everything else.
pub open spec fn config_choice(
    no_git: bool,
    path: Option<Seq<char>>,
    config: Option<Seq<char>>,
) -> ConfigChoice {
    match config {
        Some(c) => ConfigChoice::Config(c),
        None => match path {
            Some(p) => ConfigChoice::NoConfigWPath(p, !no_git),
            None => ConfigChoice::NoConfigWOPath(!no_git),
        },
    }
}

/// The command line sorted into where the path and the configuration come
/// from.
pub struct ArgumentConf {
    pub path: PathConf,
    pub config: ConfigConf,
}

impl ArgumentConf {
    /// Sorts the command line.
    pub fn new(args: Args) -> (r: ArgumentConf)
        ensures
            r.path@ == path_choice(args.no_git, args.path.deep_view()),
            r.config@ == config_choice(args.no_git, args.path.deep_view(), args.config.deep_view()),
            (r.path is GitWPath || r.path is GitWOPath) == !args.no_git,
            match args.path {
                Some(p) => (r.path matches PathConf::GitWPath(q) && q@ == p@) || (
                r.path matches PathConf::NoGitWPath(q) && q@ == p@),
                None => r.path is GitWOPath || r.path is NoGitWOPath,
            },
            args.config matches Some(c) ==> r.config matches ConfigConf::Config(x) && x@ == c@,
            args.config is None ==> match args.path {
                Some(p) => r.config matches ConfigConf::NoConfigWPath(q, g) && q@ == p@ && g
                    == !args.no_git,
                None => r.config matches ConfigConf::NoConfigWOPath(g) && g == !args.no_git,
            },
    {
        let git = !args.no_git;
        let path = match &args.path {
            Some(p) => if git {
                PathConf::GitWPath(p.clone())
            } else {
                PathConf::NoGitWPath(p.clone())
            },
            None => if git {
                PathConf::GitWOPath
            } else {
                PathConf::NoGitWOPath
            },
        };
        let config = match (args.path, args.config) {
            (_, Some(c)) => ConfigConf::Config(c),
            (Some(p), None) => ConfigConf::NoConfigWPath(p, git),
            (None, None) => ConfigConf::NoConfigWOPath(git),
        };
        ArgumentConf { path, config }
    }
}

/// The name of the configuration file in a directory.
pub open spec fn config_file_name() -> Seq<char> {
    "muxrs.json"@
}

/// The text by which a failed repository lookup says that there is none.
pub open spec fn no_repository_text() -> Seq<char> {
    "could not find repository at"@
}

/// The text given when the repository has no working directory.
pub open spec fn bare_repository_text() -> Seq<char> {
    "repository has no working directory"@
}

/// The configuration path that a repository lookup leads to.
pub open spec fn resolved_git_lookup(lookup: GitLookupView) -> Result<Seq<char>, ConfigFailure> {
    match lookup.found {
        GitFoundView::Root(root) => Ok(appended_path(root, config_file_name())),
        GitFoundView::Bare => Err(ConfigFailure::UnknownError(bare_repository_text())),
        GitFoundView::Failed(msg) => if contains_text(msg, no_repository_text()) {
            Err(ConfigFailure::RepoNotFound(lookup.dir))
        } else {
            Err(ConfigFailure::UnknownError(msg))
        },
    }
}

/// The configuration path that a repository lookup leads to: the
/// `muxrs.json` at the root of the repository; `RepoNotFound` with the
/// directory looked from when there is no repository; `UnknownError` for
/// any other failure.
pub fn resolve_git_lookup(lookup: GitLookup) -> (r: Result<String, ConfigError>)
    ensures
        path_outcome_view(r) == resolved_git_lookup(lookup@),
{
    match lookup.found {
        GitFound::Root(root) => Ok(append_path(root.as_str(), "muxrs.json")),
        GitFound::Bare => Err(
            ConfigError::UnknownError(String::from_str("repository has no working directory")),
        ),
        GitFound::Failed(msg) => if str_contains(msg.as_str(), "could not find repository at") {
            Err(ConfigError::RepoNotFound(lookup.dir))
        } else {
            Err(ConfigError::UnknownError(msg))
        },
    }
}

/// The directory whose git repository is looked for: the given path, else
/// the current directory, when no configuration file is given and git is
/// not turned off; none otherwise, nor when the current directory could not
/// be read.
pub open spec fn lookup_dir(conf: ConfigChoice, cwd: Result<Seq<char>, Seq<char>>) -> Option<
    Seq<char>,
> {
    match conf {
        ConfigChoice::NoConfigWPath(p, true) => Some(p),
        ConfigChoice::NoConfigWOPath(true) => match cwd {
            Ok(d) => Some(d),
            Err(_) => None,
        },
        _ => None,
    }
}

/// The directory whose git repository the command line asks to look for.
pub fn git_lookup_dir(args: &Args, cwd: &Result<String, String>) -> (r: Option<String>)
    ensures
        r.deep_view() == lookup_dir(
            config_choice(args.no_git, args.path.deep_view(), args.config.deep_view()),
            dir_view(cwd),
        ),
{
    if args.config.is_some() || args.no_git {
        None
    } else {
        match &args.path {
            Some(p) => Some(p.clone()),
            None => match cwd {
                Ok(d) => Some(d.clone()),
                Err(_) => None,
            },
        }
    }
}

/// The configuration path for the source `conf`, given the current
/// directory (or the text of the error that reading it gave) and the
/// repository lookup made from `lookup_dir`.
pub open spec fn config_path_for(
    conf: ConfigChoice,
    cwd: Result<Seq<char>, Seq<char>>,
    lookup: GitLookupView,
) -> Result<Seq<char>, ConfigFailure> {
    match conf {
        ConfigChoice::Config(c) => Ok(c),
        ConfigChoice::NoConfigWPath(p, git) => if git {
            resolved_git_lookup(lookup)
        } else {
            Ok(appended_path(p, config_file_name()))
        },
        ConfigChoice::NoConfigWOPath(git) => match cwd {
            Err(m) => Err(ConfigFailure::UnknownError(m)),
            Ok(d) => if git {
                resolved_git_lookup(lookup)
            } else {
                Ok(appended_path(d, config_file_name()))
            },
        },
    }
}

/// Which configuration file the command line asks for, given the current
/// directory (or the text of the error that reading it gave): the file
/// given with `--config`; else `muxrs.json` at the root of the git
/// repository of the given path or of the current directory; with
/// `--no-git`, `muxrs.json` in that directory itself.  The repository is
/// looked for from exactly the directory that `lookup_dir` names.
pub fn get_config_path(args: Args, cwd: Result<String, String>) -> (r: Result<String, ConfigError>)
    ensures
        exists|lookup: GitLookupView|
            {
                &&& lookup_dir(
                    config_choice(args.no_git, args.path.deep_view(), args.config.deep_view()),
                    dir_view(&cwd),
                ) matches Some(d) ==> lookup.dir == d
                &&& lookup.found matches GitFoundView::Root(root) ==> ends_with_char(root, '/')
                &&& path_outcome_view(r) == config_path_for(
                    config_choice(args.no_git, args.path.deep_view(), args.config.deep_view()),
                    dir_view(&cwd),
                    lookup,
                )
            },
        args.config matches Some(c) ==> r matches Ok(p) && p@ == c@,
{
    let ghost choice = config_choice(args.no_git, args.path.deep_view(), args.config.deep_view());
    let ghost cv = dir_view(&cwd);
    match git_lookup_dir(&args, &cwd) {
        Some(d) => {
            let lookup = git_path(d.as_str());
            let ghost l = lookup@;
            let r = resolve_git_lookup(lookup);
            assert(path_outcome_view(r) == config_path_for(choice, cv, l));
            r
        },
        None => {
            let ghost l = GitLookupView { dir: Seq::empty(), found: GitFoundView::Bare };
            let conf = ArgumentConf::new(args);
            let r = match conf.config {
                ConfigConf::Config(c) => Ok(c),
                ConfigConf::NoConfigWPath(p, _) => Ok(append_path(p.as_str(), "muxrs.json")),
                ConfigConf::NoConfigWOPath(_) => match cwd {
                    Ok(d) => Ok(append_path(d.as_str(), "muxrs.json")),
                    Err(m) => Err(ConfigError::UnknownError(m)),
                },
            };
            assert(path_outcome_view(r) == config_path_for(choice, cv, l));
            r
        },
    }
}

/// The file that the configuration is read from, given what
/// `get_config_path` answered: its path; an error, `RepoNotFound` for a
/// path outside any git repository among them, stands.
pub fn config_file_path(found: Result<String, ConfigError>) -> (r: Result<String, ConfigError>)
    ensures
        path_outcome_view(r) == path_outcome_view(found),
{
    match found {
        Ok(p) => Ok(p),
        Err(e) => Err(e),
    }
}

/// Where the fallback configuration lives in the configuration directory.
pub open spec fn backup_config_suffix() -> Seq<char> {
    "muxrs/muxrs.json"@
}

/// Where the fallback configuration lives under the home directory, when
/// no configuration directory is set.
pub open spec fn home_backup_config_suffix() -> Seq<char> {
    ".config/muxrs/muxrs.json"@
}

/// The path of the fallback configuration: `muxrs/muxrs.json` in the
/// `XDG_CONFIG_HOME` directory when that is set and not empty, else
/// `.config/muxrs/muxrs.json` in the home directory; `HomeDirNotFound` when
/// neither is known.
pub fn backup_config_path(xdg_config_home: Option<String>, home: Option<String>) -> (r: Result<
    String,
    ConfigError,
>)
    ensures
        match xdg_config_home {
            Some(x) if x@.len() > 0 => r matches Ok(p) && p@ == appended_path(
                x@,
                backup_config_suffix(),
            ),
            _ => match home {
                Some(h) => r matches Ok(p) && p@ == appended_path(h@, home_backup_config_suffix()),
                None => r matches Err(ConfigError::HomeDirNotFound),
            },
        },
{
    if let Some(x) = &xdg_config_home {
        if x.as_str().unicode_len() > 0 {
            return Ok(append_path(x.as_str(), "muxrs/muxrs.json"));
        }
    }
    match home {
        Some(h) => Ok(append_path(h.as_str(), ".config/muxrs/muxrs.json")),
        None => Err(ConfigError::HomeDirNotFound),
    }
}

/// Which file the configuration is taken from.
pub enum ConfigSource {
    /// The file that the command line leads to.
    Primary,
    /// The existing fallback file.
    Backup,
    /// The default configuration, written to the fallback file first.
    CreateBackup,
}

/// Chooses the configuration file: the one the command line leads to when
/// it exists; else, unless the fallback is turned off, the fallback file,
/// which is created with the default configuration when it is missing.
pub fn choose_config_source(args: &Args, primary_exists: bool, backup_exists: bool) -> (r: Result<
    ConfigSource,
    ConfigError,
>)
    ensures
        primary_exists ==> r matches Ok(ConfigSource::Primary),
        !primary_exists && !args.no_fallback && backup_exists ==> r matches Ok(ConfigSource::Backup),
        !primary_exists && !args.no_fallback && !backup_exists ==> r matches Ok(
            ConfigSource::CreateBackup,
        ),
        !primary_exists && args.no_fallback ==> r matches Err(ConfigError::ConfigNotFound),
{
    if primary_exists {
        Ok(ConfigSource::Primary)
    } else if !args.no_fallback {
        if backup_exists {
            Ok(ConfigSource::Backup)
        } else {
            Ok(ConfigSource::CreateBackup)
        }
    } else {
        Err(ConfigError::ConfigNotFound)
    }
}

/// Unless a configuration file is given, the path is always a file named
/// `muxrs.json` directly inside some directory.
pub proof fn lemma_config_path_is_muxrs_json(
    conf: ConfigChoice,
    cwd: Result<Seq<char>, Seq<char>>,
    lookup: GitLookupView,
)
    requires
        !(conf is Config),
    ensures
        config_path_for(conf, cwd, lookup) matches Ok(p) ==> exists|d: Seq<char>|
            p == without_trailing_slash(d) + seq!['/'] + config_file_name(),
{
    reveal_strlit("muxrs.json");
    assert(without_leading_slash(config_file_name()) == config_file_name());
    if let Ok(p) = config_path_for(conf, cwd, lookup) {
        let d = match conf {
            ConfigChoice::NoConfigWPath(q, git) => if git {
                match lookup.found {
                    GitFoundView::Root(root) => root,
                    _ => q,
                }
            } else {
                q
            },
            ConfigChoice::NoConfigWOPath(git) => match cwd {
                Ok(c) => if git {
                    match lookup.found {
                        GitFoundView::Root(root) => root,
                        _ => c,
                    }
                } else {
                    c
                },
                Err(_) => Seq::empty(),
            },
            ConfigChoice::Config(c) => c,
        };
        lemma_append_path_single_separator(d, config_file_name());
        assert(p == without_trailing_slash(d) + seq!['/'] + config_file_name());
    }
}

/// A configuration file given on the command line is the one used, whatever
/// else the command line says: no repository is looked for, and the path is
/// that file, with or without `--no-git` and a working path.
pub proof fn lemma_given_config_wins(
    no_git: bool,
    path: Option<Seq<char>>,
    c: Seq<char>,
    cwd: Result<Seq<char>, Seq<char>>,
    lookup: GitLookupView,
)
    ensures
        config_choice(no_git, path, Some(c)) == ConfigChoice::Config(c),
        lookup_dir(config_choice(no_git, path, Some(c)), cwd) is None,
        config_path_for(config_choice(no_git, path, Some(c)), cwd, lookup) == Ok::<
            Seq<char>,
            ConfigFailure,
        >(c),
{
}

} // verus!
