use muxrs::config::postprocess::{
    extrapolate, find, get_replacement, process, replace, try_extrapolate, Capture,
    ConfigPostProcessError,
};
use muxrs::config::schema::{ConfigSchema, PaneSchema, SessionSchema, WindowSchema};
use muxrs::Args;

fn args(config: Option<&str>) -> Args {
    Args {
        config: config.map(|s| s.to_string()),
        no_git: false,
        debug: false,
        no_fallback: false,
        no_attach: false,
        verify: false,
        populate: false,
        path: None,
    }
}

fn cwd() -> Result<String, String> {
    Ok("/home/u/project".to_string())
}

#[test]
fn find_without_marker() {
    assert!(find("plain text").is_none());
    assert!(find("%a").is_none());
    assert!(find("%%").is_none());
    assert!(find("").is_none());
}

#[test]
fn find_leftmost_marker() {
    let c = find("%a%").unwrap();
    assert_eq!(c.len(), 1);
    assert_eq!(c[0].cap, "%a%");
    assert_eq!((c[0].start, c[0].end), (0, 3));
    let c = find("x%%y%z%").unwrap();
    assert_eq!(c[0].cap, "%y%");
    assert_eq!((c[0].start, c[0].end), (2, 5));
    let c = find("dir %current_directory% and %b%").unwrap();
    assert_eq!(c.len(), 1);
    assert_eq!(c[0].cap, "%current_directory%");
    assert_eq!((c[0].start, c[0].end), (4, 23));
}

#[test]
fn replacement_of_each_placeholder() {
    let a = args(Some("/a/b/"));
    assert_eq!(get_replacement("%current_directory%", &a, &cwd()).ok(), Some("/home/u/project".to_string()));
    assert_eq!(get_replacement("%current_directory_short%", &a, &cwd()).ok(), Some("project".to_string()));
    assert_eq!(get_replacement("%selected_directory%", &a, &cwd()).ok(), Some("/a/b/".to_string()));
    assert_eq!(get_replacement("%selected_directory_short%", &a, &cwd()).ok(), Some("b".to_string()));
    let a = args(Some("/a/c"));
    assert_eq!(get_replacement("%selected_directory_short%", &a, &cwd()).ok(), Some("c".to_string()));
    let a = args(Some("/"));
    assert_eq!(get_replacement("%selected_directory_short%", &a, &cwd()).ok(), Some("".to_string()));
}

#[test]
fn replacement_errors() {
    let a = args(None);
    assert!(matches!(
        get_replacement("%selected_directory%", &a, &cwd()),
        Err(ConfigPostProcessError::InvalidReplacement(ref s)) if s == "%selected_directory%"
    ));
    assert!(matches!(
        get_replacement("%selected_directory_short%", &a, &cwd()),
        Err(ConfigPostProcessError::InvalidReplacement(ref s)) if s == "%selected_directory_short%"
    ));
    assert!(matches!(
        get_replacement("%unknown%", &a, &cwd()),
        Err(ConfigPostProcessError::InvalidReplacement(ref s)) if s == "%unknown%"
    ));
    let gone: Result<String, String> = Err("No such file or directory".to_string());
    assert!(matches!(
        get_replacement("%current_directory%", &a, &gone),
        Err(ConfigPostProcessError::UnknownError(ref s)) if s == "No such file or directory"
    ));
    assert!(matches!(
        get_replacement("%current_directory_short%", &a, &gone),
        Err(ConfigPostProcessError::UnknownError(ref s)) if s == "No such file or directory"
    ));
}

#[test]
fn replace_uses_the_whole_string() {
    let a = args(None);
    let c = Capture { cap: "%selected_directory%".to_string(), start: 0, end: 20 };
    assert_eq!(replace("%selected_directory%", &c, &a, &cwd()).ok(), Some("/home/u/project".to_string()));
    let c = Capture { cap: "%current_directory%".to_string(), start: 4, end: 23 };
    assert!(matches!(
        replace("dir %current_directory%", &c, &a, &cwd()),
        Err(ConfigPostProcessError::InvalidReplacement(ref s)) if s == "dir %current_directory%"
    ));
    let c = Capture { cap: "%cur".to_string(), start: 0, end: 4 };
    assert_eq!(replace("%current_directory%", &c, &a, &cwd()).ok(), Some("/home/u/projectrent_directory%".to_string()));
}

#[test]
fn process_cases() {
    let a = args(Some("/w/repo"));
    assert_eq!(process("plain", &a, &cwd()).ok(), Some("plain".to_string()));
    assert_eq!(process("%selected_directory_short%", &a, &cwd()).ok(), Some("repo".to_string()));
    assert_eq!(process("%current_directory%", &a, &cwd()).ok(), Some("/home/u/project".to_string()));
    assert!(matches!(
        process("x %current_directory%", &a, &cwd()),
        Err(ConfigPostProcessError::InvalidReplacement(ref s)) if s == "x %current_directory%"
    ));
}

#[test]
fn extrapolate_default_config() {
    let config = ConfigSchema::default();
    let r = extrapolate(config, args(Some("/home/u/work/")), cwd());
    assert_eq!(r.session.name, "work");
    assert_eq!(r.session.starting_dir, Some("/home/u/work/".to_string()));
    assert_eq!(r.windows.len(), 2);
    assert_eq!(r.windows[0].name, "nvim");
    assert_eq!(r.windows[0].set_active, Some(true));
    assert_eq!(r.windows[0].panes.len(), 1);
    assert_eq!(r.windows[0].panes[0].command, Some("nvim".to_string()));
    assert_eq!(r.windows[1].name, "terminal");
    assert_eq!(r.windows[1].panes[0].command, None);
}

#[test]
fn extrapolate_fails_on_first_bad_string() {
    let config = ConfigSchema::default();
    assert!(matches!(
        try_extrapolate(config, args(None), cwd()),
        Err(ConfigPostProcessError::InvalidReplacement(ref s)) if s == "%selected_directory_short%"
    ));
    let config = ConfigSchema::new(
        SessionSchema { name: "s".to_string(), starting_dir: None },
        vec![
            WindowSchema { name: "%current_directory_short%".to_string(), starting_dir: Some("%current_directory%".to_string()), set_active: None, panes: vec![] },
            WindowSchema { name: "%nope%".to_string(), starting_dir: None, set_active: None, panes: vec![] },
        ],
    );
    assert!(matches!(
        try_extrapolate(config, args(None), cwd()),
        Err(ConfigPostProcessError::InvalidReplacement(ref s)) if s == "%nope%"
    ));
}

#[test]
fn extrapolate_plain_config_is_unchanged() {
    let config = ConfigSchema::new(
        SessionSchema { name: "dev".to_string(), starting_dir: Some("/srv".to_string()) },
        vec![WindowSchema {
            name: "editor".to_string(),
            starting_dir: None,
            set_active: Some(false),
            panes: vec![
                PaneSchema { command: Some("vim".to_string()), is_vertical_split: None },
                PaneSchema { command: None, is_vertical_split: Some(true) },
            ],
        }],
    );
    let r = extrapolate(config, args(None), Err("unreadable".to_string()));
    assert_eq!(r.session.name, "dev");
    assert_eq!(r.session.starting_dir, Some("/srv".to_string()));
    assert_eq!(r.windows.len(), 1);
    assert_eq!(r.windows[0].name, "editor");
    assert_eq!(r.windows[0].starting_dir, None);
    assert_eq!(r.windows[0].set_active, Some(false));
    assert_eq!(r.windows[0].panes.len(), 2);
    assert_eq!(r.windows[0].panes[1].is_vertical_split, Some(true));
}

#[test]
fn default_config_contents() {
    let c = ConfigSchema::default();
    assert_eq!(c.session.name, "%selected_directory_short%");
    assert_eq!(c.session.starting_dir, Some("%selected_directory%".to_string()));
    assert_eq!(c.windows.len(), 2);
    assert_eq!(c.windows[1].set_active, None);
}

#[test]
fn post_process_error_messages() {
    assert_eq!(ConfigPostProcessError::InvalidReplacement("x".to_string()).message(), "Invalid replacement: x");
    assert_eq!(ConfigPostProcessError::UnknownError("y".to_string()).message(), "Unknown Error: y");
}

#[test]
fn find_agrees_with_the_marker_pattern() {
    let re = regex::Regex::new(r"(%[^%]+%)").unwrap();
    for s in [
        "", "%", "%%", "%%%", "%a%", "a%b%c%d", "x%%y%z%", "é%ñ%", "%\n%", "%% a %%", "no marks",
        "%current_directory%/%b%", "%a", "a%",
    ] {
        let expect = re.captures(s).map(|c| {
            let m = c.get(1).unwrap();
            (m.as_str().to_string(), m.start(), m.end())
        });
        let got = find(s).map(|v| {
            assert_eq!(v.len(), 1);
            (v[0].cap.clone(), v[0].start, v[0].end)
        });
        assert_eq!(got, expect, "{:?}", s);
    }
}

#[test]
fn try_extrapolate_agrees_on_expandable_configs() {
    let a = try_extrapolate(ConfigSchema::default(), args(Some("/x/y")), cwd()).ok().unwrap();
    let b = extrapolate(ConfigSchema::default(), args(Some("/x/y")), cwd());
    assert_eq!(a.session.name, b.session.name);
    assert_eq!(a.session.name, "y");
    assert_eq!(a.session.starting_dir, b.session.starting_dir);
}
