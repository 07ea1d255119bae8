use muxrs::config::schema::{SessionSchema, WindowSchema};
use muxrs::tmux::command::{
    attach, has_session, kill_window, list_windows, new_session, new_window, rename_window,
    respawn_window, select_window, send_keys, spawn_outcome, split_window, TmuxCommand,
    TmuxCommandError,
};
use muxrs::tmux::query::{session_exists, TmuxQueryError};
use muxrs::tmux::{Session, TmuxError};

fn line(c: &TmuxCommand) -> Vec<&str> {
    c.args.iter().map(|s| s.as_str()).collect()
}

fn session(dir: Option<&str>) -> SessionSchema {
    SessionSchema { name: "dev".to_string(), starting_dir: dir.map(|s| s.to_string()) }
}

fn window(name: &str, dir: Option<&str>) -> WindowSchema {
    WindowSchema { name: name.to_string(), starting_dir: dir.map(|s| s.to_string()), set_active: None, panes: vec![] }
}

#[test]
fn command_lines() {
    assert_eq!(line(&new_session("s".to_string(), None)), vec!["new-session", "-d", "-s", "s"]);
    assert_eq!(line(&new_session("s".to_string(), Some("/d".to_string()))), vec!["new-session", "-d", "-s", "s", "-c", "/d"]);
    assert_eq!(line(&attach(&session(None))), vec!["attach", "-t", "dev"]);
    assert_eq!(line(&kill_window("s", "w")), vec!["kill-window", "-t", "s:w"]);
    assert_eq!(line(&select_window("s", "w")), vec!["select-window", "-t", "s:w"]);
    assert_eq!(line(&rename_window(12, "s", "n")), vec!["rename-window", "-t", "s:12", "n"]);
    assert_eq!(line(&respawn_window("s", "0", "/p")), vec!["respawn-window", "-t", "s:0", "-c", "/p"]);
    assert_eq!(line(&send_keys("s", "w", "ls", None)), vec!["send-keys", "-t", "s:w", "ls", "C-m"]);
    assert_eq!(line(&send_keys("s", "w", "ls", Some(3))), vec!["send-keys", "-t", "s:w.3", "ls", "C-m"]);
    assert_eq!(line(&has_session("s")), vec!["has-session", "-t", "s"]);
    assert_eq!(line(&list_windows(&session(None))), vec!["list-windows", "-t", "dev"]);
}

#[test]
fn directories_fall_back() {
    assert_eq!(
        line(&split_window("s", "w", Some("/s".to_string()), Some("/w".to_string()), true)),
        vec!["split-window", "-t", "s:w", "-c", "/w", "-v"]
    );
    assert_eq!(
        line(&split_window("s", "w", Some("/s".to_string()), None, false)),
        vec!["split-window", "-t", "s:w", "-c", "/s", "-h"]
    );
    assert_eq!(line(&split_window("s", "w", None, None, false)), vec!["split-window", "-t", "s:w", "-c", ".", "-h"]);
    assert_eq!(line(&new_window(&session(Some("/s")), &window("w", Some("/w")))), vec!["new-window", "-t", "dev", "-n", "w", "-c", "/w"]);
    assert_eq!(line(&new_window(&session(Some("/s")), &window("w", None))), vec!["new-window", "-t", "dev", "-n", "w", "-c", "/s"]);
    assert_eq!(line(&new_window(&session(None), &window("w", None))), vec!["new-window", "-t", "dev", "-n", "w", "-c", "."]);
}

#[test]
fn spawn_failures() {
    let ns = new_session("s".to_string(), None);
    assert!(matches!(spawn_outcome(&ns, Ok(())), Ok(())));
    assert!(matches!(spawn_outcome(&ns, Err("no tmux".to_string())), Err(TmuxCommandError::CouldNotCreateSession(ref m)) if m == "no tmux"));
    let kw = kill_window("s", "w");
    assert!(matches!(spawn_outcome(&kw, Err("no tmux".to_string())), Err(TmuxCommandError::UnknownError(ref m)) if m == "no tmux"));
    assert_eq!(TmuxCommandError::CouldNotCreateSession("x".to_string()).message(), "Could not create session: x");
    assert_eq!(TmuxCommandError::UnknownError("x".to_string()).message(), "Unknown Error: x");
}

#[test]
fn session_existence() {
    assert!(matches!(session_exists(Ok(0)), Ok(true)));
    assert!(matches!(session_exists(Ok(1)), Ok(false)));
    assert!(matches!(session_exists(Err("gone".to_string())), Err(TmuxQueryError::UnknownError(ref m)) if m == "gone"));
}

#[test]
fn session_creation_steps() {
    let c = Session::new(session(Some("/s")), Ok(false)).ok().unwrap();
    assert_eq!(line(&c), vec!["new-session", "-d", "-s", "dev", "-c", "/s"]);
    let c = Session::new(session(None), Ok(false)).ok().unwrap();
    assert_eq!(line(&c), vec!["new-session", "-d", "-s", "dev", "-c", "."]);
    assert!(matches!(Session::new(session(None), Ok(true)), Err(TmuxError::CouldNotCreateSession(ref m)) if m == "Session already exists"));
    assert!(matches!(
        Session::new(session(None), Err(TmuxQueryError::UnknownError("x".to_string()))),
        Err(TmuxError::UnknownError(ref m)) if m == "Unknown Error: x"
    ));
    assert!(matches!(
        Session::created(session(None), Err(TmuxCommandError::CouldNotCreateSession("boom".to_string()))),
        Err(TmuxError::CouldNotCreateSession(ref m)) if m == "Could not create session: boom"
    ));
}

#[test]
fn session_commands() {
    let s = Session::created(session(Some("/s")), Ok(())).ok().unwrap();
    let w = window("code", None);
    assert_eq!(line(&s.rename_window(0, "code")), vec!["rename-window", "-t", "dev:0", "code"]);
    assert_eq!(line(&s.respawn_window("0", "/s")), vec!["respawn-window", "-t", "dev:0", "-c", "/s"]);
    assert_eq!(line(&s.new_window(&w)), vec!["new-window", "-t", "dev", "-n", "code", "-c", "/s"]);
    assert_eq!(line(&s.kill_window("code")), vec!["kill-window", "-t", "dev:code"]);
    assert_eq!(line(&s.split_window("code", None, true)), vec!["split-window", "-t", "dev:code", "-c", "/s", "-v"]);
    assert_eq!(line(&s.send_keys(&w, "make", None)), vec!["send-keys", "-t", "dev:code", "make", "C-m"]);
    assert_eq!(line(&s.select_window(&w)), vec!["select-window", "-t", "dev:code"]);
    assert!(matches!(Session::outcome(Ok(())), Ok(())));
    assert!(matches!(
        Session::outcome(Err(TmuxCommandError::UnknownError("e".to_string()))),
        Err(TmuxError::UnknownError(ref m)) if m == "Unknown Error: e"
    ));
    assert_eq!(TmuxError::UnknownError("e".to_string()).message(), "Unknown Error: e");
}

fn pane(command: Option<&str>, vertical: Option<bool>) -> muxrs::config::schema::PaneSchema {
    muxrs::config::schema::PaneSchema { command: command.map(|s| s.to_string()), is_vertical_split: vertical }
}

#[test]
fn session_plan_builds_windows_in_order() {
    let s = Session::created(session(Some("/s")), Ok(())).ok().unwrap();
    let windows = vec![
        WindowSchema {
            name: "code".to_string(),
            starting_dir: Some("/w".to_string()),
            set_active: None,
            panes: vec![pane(Some("nvim"), None), pane(None, Some(true)), pane(Some("ls"), None)],
        },
        WindowSchema { name: "term".to_string(), starting_dir: None, set_active: Some(true), panes: vec![pane(None, None)] },
        WindowSchema { name: "logs".to_string(), starting_dir: None, set_active: Some(true), panes: vec![] },
    ];
    let plan = s.plan(&windows);
    let lines: Vec<Vec<&str>> = plan.commands.iter().map(line).collect();
    assert_eq!(
        lines,
        vec![
            vec!["respawn-window", "-t", "dev:0", "-c", "/w"],
            vec!["rename-window", "-t", "dev:0", "code"],
            vec!["send-keys", "-t", "dev:code", "nvim", "C-m"],
            vec!["split-window", "-t", "dev:code", "-c", "/w", "-v"],
            vec!["split-window", "-t", "dev:code", "-c", "/w", "-h"],
            vec!["send-keys", "-t", "dev:code", "ls", "C-m"],
            vec!["new-window", "-t", "dev", "-n", "term", "-c", "/s"],
            vec!["new-window", "-t", "dev", "-n", "logs", "-c", "/s"],
            vec!["select-window", "-t", "dev:term"],
        ]
    );
    assert_eq!(plan.focused, Some(1));
    assert!(plan.several_active);
}

#[test]
fn session_plan_without_focus() {
    let s = Session::created(session(None), Ok(())).ok().unwrap();
    let plan = s.plan(&vec![window("only", None)]);
    let lines: Vec<Vec<&str>> = plan.commands.iter().map(line).collect();
    assert_eq!(lines, vec![vec!["respawn-window", "-t", "dev:0", "-c", "."], vec!["rename-window", "-t", "dev:0", "only"]]);
    assert_eq!(plan.focused, None);
    assert!(!plan.several_active);
    assert!(s.plan(&vec![]).commands.is_empty());
}

#[test]
fn panes_open_in_their_windows_directory() {
    let s = Session::created(session(Some("/s")), Ok(())).ok().unwrap();
    for w in [window("a", Some("/w")), window("b", None)] {
        let nw = s.new_window(&w);
        let sp = s.split_window(&w.name, w.starting_dir.clone(), false);
        assert_eq!(sp.args[4], nw.args[6]);
        assert_eq!(sp.args[2], format!("{}:{}", nw.args[2], nw.args[4]));
    }
}
