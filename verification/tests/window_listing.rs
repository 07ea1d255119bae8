use muxrs::tmux::query::{window_from_captures, windows_from_output, TmuxQueryError};

#[test]
fn windows_from_list_windows_output() {
    let out = "0: nvim (2 panes) [254x66] [layout 0bdc,254x66,0,0{127x66,0,0,69,126x66,128,0,70}] @64\n\
               1: terminal- (1 panes) [254x66] [layout 6523,254x66,0,0,71] @65\n\
               2: fish* (1 panes) [254x66] [layout 6526,254x66,0,0,74] @68 (active)\n";
    let ws = windows_from_output(out).ok().unwrap();
    assert_eq!(ws.len(), 3);
    assert_eq!(ws[0].name, "nvim");
    assert_eq!((ws[0].active, ws[0].last, ws[0].panes), (false, false, 2));
    assert_eq!(ws[1].name, "terminal");
    assert_eq!((ws[1].active, ws[1].last, ws[1].panes), (false, true, 1));
    assert_eq!(ws[2].name, "fish");
    assert_eq!((ws[2].active, ws[2].last, ws[2].panes), (true, false, 1));
}

#[test]
fn empty_listing() {
    assert_eq!(windows_from_output("").ok().unwrap().len(), 0);
}

#[test]
fn unreadable_line() {
    assert!(matches!(
        windows_from_output("0: nvim (2 panes)\nno windows here\n"),
        Err(TmuxQueryError::UnknownError(ref m)) if m == "Could not parse line"
    ));
}

#[test]
fn window_from_groups() {
    let g = |v: Vec<Option<&str>>| Some(v.into_iter().map(|x| x.map(|s| s.to_string())).collect::<Vec<_>>());
    let w = window_from_captures(g(vec![Some("1: a- (3 panes)"), Some("1"), Some("a"), Some("-"), Some("3")])).ok().unwrap();
    assert_eq!((w.name.as_str(), w.active, w.last, w.panes), ("a", false, true, 3));
    let w = window_from_captures(g(vec![Some("x"), Some("1"), Some("a"), None, Some("3")])).ok().unwrap();
    assert_eq!((w.active, w.last), (false, false));
    assert!(matches!(window_from_captures(None), Err(TmuxQueryError::UnknownError(ref m)) if m == "Could not parse line"));
    assert!(matches!(
        window_from_captures(g(vec![Some("x"), Some("1"), Some("a"), Some(""), Some("١٢")])),
        Err(TmuxQueryError::UnknownError(ref m)) if m == "Could not parse pane count"
    ));
    assert_eq!(TmuxQueryError::UnknownError("q".to_string()).message(), "Unknown Error: q");
}
