use muxrs::config::utils::{append_path, git_path, path_string, GitFound, GitLookup};
use muxrs::config::{
    backup_config_path, choose_config_source, config_file_path, get_config_path, git_lookup_dir,
    resolve_git_lookup, ArgumentConf, ConfigConf, ConfigError, ConfigSource, PathConf,
};
use muxrs::Args;

fn cwd() -> Result<String, String> {
    path_string(".")
}

fn args(config: Option<&str>, path: Option<&str>, no_git: bool, no_fallback: bool) -> Args {
    Args {
        config: config.map(|s| s.to_string()),
        no_git,
        debug: false,
        no_fallback,
        no_attach: false,
        verify: false,
        populate: false,
        path: path.map(|s| s.to_string()),
    }
}

#[test]
fn append_path_joins_with_one_slash() {
    assert_eq!(append_path("/a/", "/b"), "/a/b");
    assert_eq!(append_path("/a/", "b"), "/a/b");
    assert_eq!(append_path("/a", "/b"), "/a/b");
    assert_eq!(append_path("/a", "b"), "/a/b");
    assert_eq!(append_path("", "muxrs.json"), "/muxrs.json");
    assert_eq!(append_path("/home/u", ".config/muxrs/muxrs.json"), "/home/u/.config/muxrs/muxrs.json");
}

#[test]
fn argument_conf_prefers_the_given_config() {
    let conf = ArgumentConf::new(args(Some("/c.json"), Some("/p"), false, false));
    assert!(matches!(conf.config, ConfigConf::Config(ref c) if c == "/c.json"));
    assert!(matches!(conf.path, PathConf::GitWPath(ref p) if p == "/p"));
}

#[test]
fn argument_conf_without_config() {
    let conf = ArgumentConf::new(args(None, Some("/p"), false, false));
    assert!(matches!(conf.config, ConfigConf::NoConfigWPath(ref p, true) if p == "/p"));
    let conf = ArgumentConf::new(args(None, Some("/p"), true, false));
    assert!(matches!(conf.config, ConfigConf::NoConfigWPath(ref p, false) if p == "/p"));
    assert!(matches!(conf.path, PathConf::NoGitWPath(ref p) if p == "/p"));
    let conf = ArgumentConf::new(args(None, None, true, false));
    assert!(matches!(conf.config, ConfigConf::NoConfigWOPath(false)));
    assert!(matches!(conf.path, PathConf::NoGitWOPath));
    let conf = ArgumentConf::new(args(None, None, false, false));
    assert!(matches!(conf.config, ConfigConf::NoConfigWOPath(true)));
    assert!(matches!(conf.path, PathConf::GitWOPath));
}

#[test]
fn config_path_given_config_wins() {
    let r = get_config_path(args(Some("/x/my.json"), Some("/etc/"), false, false), cwd());
    assert!(matches!(r, Ok(ref p) if p == "/x/my.json"));
}

#[test]
fn config_path_without_git() {
    let r = get_config_path(args(None, Some("/etc/"), true, false), cwd());
    assert!(matches!(r, Ok(ref p) if p == "/etc/muxrs.json"));
}

#[test]
fn config_path_repo_not_found_outside_git() {
    let r = get_config_path(args(None, Some("/proc/"), false, false), cwd());
    assert!(matches!(r, Err(ConfigError::RepoNotFound(ref p)) if p == "/proc/"));
}

#[test]
fn config_path_at_repository_root() {
    let root = "/tmp/muxrs_config_path_repo";
    git2::Repository::init(root).unwrap();
    let r = get_config_path(args(None, Some(root), false, false), cwd());
    assert!(matches!(r, Ok(ref p) if p == "/tmp/muxrs_config_path_repo/muxrs.json"), "{:?}", r.as_ref().ok());
    let l = git_path("/tmp/muxrs_config_path_repo");
    assert_eq!(l.dir, "/tmp/muxrs_config_path_repo");
    match l.found {
        GitFound::Root(r) => assert_eq!(r, "/tmp/muxrs_config_path_repo/"),
        _ => panic!("expected a repository"),
    }
}

#[test]
fn config_path_in_current_directory_without_git() {
    let r = get_config_path(args(None, None, true, false), cwd());
    match r {
        Ok(p) => {
            assert!(p.starts_with('/'));
            assert!(p.ends_with("/muxrs.json"));
        },
        Err(_) => panic!("the current directory should be readable"),
    }
}

#[test]
fn path_string_makes_paths_absolute() {
    assert!(path_string("").is_err());
    assert_eq!(path_string("/a/b").ok(), Some("/a/b".to_string()));
    assert_eq!(path_string("/a/b/").ok(), Some("/a/b/".to_string()));
    assert_eq!(path_string("/a//b/./c").ok(), Some("/a/b/c".to_string()));
    let p = path_string("some_dir").unwrap();
    assert!(p.starts_with('/'));
    assert!(p.ends_with("/some_dir"));
    let p = path_string("a/../b/").unwrap();
    assert!(p.ends_with("/a/../b/"));
}

fn lookup(dir: &str, found: GitFound) -> GitLookup {
    GitLookup { dir: dir.to_string(), found }
}

#[test]
fn resolve_git_lookup_cases() {
    let r = resolve_git_lookup(lookup("/p", GitFound::Root("/repo/".to_string())));
    assert!(matches!(r, Ok(ref p) if p == "/repo/muxrs.json"));
    let r = resolve_git_lookup(lookup("/p", GitFound::Bare));
    assert!(matches!(r, Err(ConfigError::UnknownError(ref m)) if m == "repository has no working directory"));
    let r = resolve_git_lookup(lookup(
        "/p",
        GitFound::Failed("could not find repository at '/p'; class=Repository (6); code=NotFound (-3)".to_string()),
    ));
    assert!(matches!(r, Err(ConfigError::RepoNotFound(ref p)) if p == "/p"));
    let r = resolve_git_lookup(lookup("/p", GitFound::Failed("permission denied".to_string())));
    assert!(matches!(r, Err(ConfigError::UnknownError(ref m)) if m == "permission denied"));
}

#[test]
fn lookup_directory_choice() {
    let here: Result<String, String> = Ok("/here".to_string());
    let gone: Result<String, String> = Err("gone".to_string());
    assert_eq!(git_lookup_dir(&args(None, Some("/p"), false, false), &here), Some("/p".to_string()));
    assert_eq!(git_lookup_dir(&args(None, None, false, false), &here), Some("/here".to_string()));
    assert_eq!(git_lookup_dir(&args(None, None, false, false), &gone), None);
    assert_eq!(git_lookup_dir(&args(None, Some("/p"), true, false), &here), None);
    assert_eq!(git_lookup_dir(&args(Some("/c.json"), Some("/p"), false, false), &here), None);
}

#[test]
fn config_path_with_given_current_directory() {
    let r = get_config_path(args(None, None, true, false), Ok("/work".to_string()));
    assert!(matches!(r, Ok(ref p) if p == "/work/muxrs.json"));
    let r = get_config_path(args(None, None, true, false), Err("gone".to_string()));
    assert!(matches!(r, Err(ConfigError::UnknownError(ref m)) if m == "gone"));
    let r = get_config_path(args(None, None, false, false), Ok("/proc/".to_string()));
    assert!(matches!(r, Err(ConfigError::RepoNotFound(ref p)) if p == "/proc/"));
}

#[test]
fn config_file_path_cases() {
    let r = config_file_path(Ok("/a/muxrs.json".to_string()));
    assert!(matches!(r, Ok(ref p) if p == "/a/muxrs.json"));
    let r = config_file_path(Err(ConfigError::RepoNotFound("/etc/".to_string())));
    assert!(matches!(r, Err(ConfigError::RepoNotFound(ref p)) if p == "/etc/"));
    let r = config_file_path(Err(ConfigError::UnknownError("x".to_string())));
    assert!(matches!(r, Err(ConfigError::UnknownError(ref m)) if m == "x"));
}

#[test]
fn bad_config_location_with_git() {
    let args = Args {
        no_git: false,
        path: Some("/etc/".to_string()),
        populate: false,
        config: None,
        debug: false,
        no_fallback: false,
        no_attach: false,
        verify: false,
    };
    match config_file_path(get_config_path(args, cwd())) {
        Err(e) => match e {
            ConfigError::RepoNotFound(_) => (),
            _ => panic!(""),
        },
        Ok(_) => panic!(""),
    }
}

#[test]
fn backup_path_prefers_the_config_directory() {
    let s = |x: &str| Some(x.to_string());
    assert!(matches!(backup_config_path(s("/xdg"), s("/home/u")), Ok(ref p) if p == "/xdg/muxrs/muxrs.json"));
    assert!(matches!(backup_config_path(s("/xdg/"), None), Ok(ref p) if p == "/xdg/muxrs/muxrs.json"));
    assert!(matches!(backup_config_path(s(""), s("/home/u")), Ok(ref p) if p == "/home/u/.config/muxrs/muxrs.json"));
    assert!(matches!(backup_config_path(None, s("/home/u/")), Ok(ref p) if p == "/home/u/.config/muxrs/muxrs.json"));
    assert!(matches!(backup_config_path(None, None), Err(ConfigError::HomeDirNotFound)));
}

#[test]
fn config_source_choice() {
    let a = args(None, None, false, false);
    assert!(matches!(choose_config_source(&a, true, false), Ok(ConfigSource::Primary)));
    assert!(matches!(choose_config_source(&a, true, true), Ok(ConfigSource::Primary)));
    assert!(matches!(choose_config_source(&a, false, true), Ok(ConfigSource::Backup)));
    assert!(matches!(choose_config_source(&a, false, false), Ok(ConfigSource::CreateBackup)));
    let b = args(None, None, false, true);
    assert!(matches!(choose_config_source(&b, true, false), Ok(ConfigSource::Primary)));
    assert!(matches!(choose_config_source(&b, false, true), Err(ConfigError::ConfigNotFound)));
}

#[test]
fn config_error_messages() {
    assert_eq!(ConfigError::InvalidConfig("x".to_string()).message(), "Invalid config: x");
    assert_eq!(ConfigError::ConfigNotFound.message(), "Config file not found");
    assert_eq!(ConfigError::RepoNotFound("/p".to_string()).message(), "Repository not found: /p");
    assert_eq!(ConfigError::HomeDirNotFound.message(), "Users home directory not found");
    assert_eq!(ConfigError::UnknownError("e".to_string()).message(), "Unknown Error: e");
}
