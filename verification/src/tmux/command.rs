//! The tmux command lines that build a session.
use crate::config::schema::{SessionSchema, SessionView, WindowSchema, WindowView};
use crate::text::{decimal, decimal_of, same_text, strings_view};
use vstd::prelude::*;

verus! {

/// One run of `tmux`: the arguments that follow the program name.
pub struct TmuxCommand {
    pub args: Vec<String>,
}

impl View for TmuxCommand {
    type V = Seq<Seq<char>>;

    open spec fn view(&self) -> Seq<Seq<char>> {
        strings_view(self.args@)
    }
}

/// Why a tmux command could not be run.
pub enum TmuxCommandError {
    CouldNotCreateSession(String),
    UnknownError(String),
}

impl TmuxCommandError {
    /// The text the error is shown with.
    pub fn message(&self) -> (r: String)
        ensures
            r@ == match self {
                TmuxCommandError::CouldNotCreateSession(s) => "Could not create session: "@ + s@,
                TmuxCommandError::UnknownError(s) => "Unknown Error: "@ + s@,
            },
    {
        match self {
            TmuxCommandError::CouldNotCreateSession(s) => String::from_str(
                "Could not create session: ",
            ).concat(s.as_str()),
            TmuxCommandError::UnknownError(s) => String::from_str("Unknown Error: ").concat(
                s.as_str(),
            ),
        }
    }
}

/// The target `session:window`.
pub open spec fn target(session: Seq<char>, window: Seq<char>) -> Seq<char> {
    session + ":"@ + window
}

fn target_of(session: &str, window: &str) -> (r: String)
    ensures
        r@ == target(session@, window@),
{
    session.to_owned().concat(":").concat(window)
}

fn text(s: &str) -> (r: String)
    ensures
        r@ == s@,
{
    s.to_owned()
}

/// The directory a new window or pane starts in: its own, else the
/// session's, else the current one.
pub open spec fn starting_dir_for(own: Option<Seq<char>>, session: Option<Seq<char>>) -> Seq<char> {
    match own {
        Some(d) => d,
        None => match session {
            Some(d) => d,
            None => "."@,
        },
    }
}

pub(crate) fn starting_dir_of(own: &Option<String>, session: &Option<String>) -> (r: String)
    ensures
        r@ == starting_dir_for(own.deep_view(), session.deep_view()),
        own matches Some(d) ==> r@ == d@,
        own is None ==> r@ == match session {
            Some(e) => e@,
            None => "."@,
        },
{
    match own {
        Some(d) => d.clone(),
        None => match session {
            Some(d) => d.clone(),
            None => text("."),
        },
    }
}

/// `tmux new-session -d -s <name> [-c <start_dir>]`.
pub fn new_session(name: String, start_dir: Option<String>) -> (r: TmuxCommand)
    ensures
        r@ == (match start_dir {
            Some(sd) => seq!["new-session"@, "-d"@, "-s"@, name@, "-c"@, sd@],
            None => seq!["new-session"@, "-d"@, "-s"@, name@],
        }),
{
    let mut args = vec![text("new-session"), text("-d"), text("-s"), name];
    if let Some(sd) = start_dir {
        args.push(text("-c"));
        args.push(sd);
    }
    let r = TmuxCommand { args };
    assert(r@ =~= (match start_dir {
        Some(sd) => seq!["new-session"@, "-d"@, "-s"@, name@, "-c"@, sd@],
        None => seq!["new-session"@, "-d"@, "-s"@, name@],
    }));
    r
}

/// `tmux attach -t <session>`, which takes over the terminal.
pub fn attach(session: &SessionSchema) -> (r: TmuxCommand)
    ensures
        r@ == seq!["attach"@, "-t"@, session.name@],
{
    let r = TmuxCommand { args: vec![text("attach"), text("-t"), session.name.clone()] };
    assert(r@ =~= seq!["attach"@, "-t"@, session.name@]);
    r
}

/// `tmux kill-window -t <session>:<window>`.
pub fn kill_window(session_id: &str, window_id: &str) -> (r: TmuxCommand)
    ensures
        r@ == seq!["kill-window"@, "-t"@, target(session_id@, window_id@)],
{
    let r = TmuxCommand {
        args: vec![text("kill-window"), text("-t"), target_of(session_id, window_id)],
    };
    assert(r@ =~= seq!["kill-window"@, "-t"@, target(session_id@, window_id@)]);
    r
}

/// `tmux select-window -t <session>:<window>`.
pub fn select_window(session_id: &str, window_id: &str) -> (r: TmuxCommand)
    ensures
        r@ == seq!["select-window"@, "-t"@, target(session_id@, window_id@)],
{
    let r = TmuxCommand {
        args: vec![text("select-window"), text("-t"), target_of(session_id, window_id)],
    };
    assert(r@ =~= seq!["select-window"@, "-t"@, target(session_id@, window_id@)]);
    r
}

/// The split flag: `-v` for a vertical split, `-h` otherwise.
pub open spec fn split_flag(vertical: bool) -> Seq<char> {
    if vertical {
        "-v"@
    } else {
        "-h"@
    }
}

/// The arguments of `split-window` for a pane of `window` in `session`.
pub open spec fn split_window_line(
    session: Seq<char>,
    window: Seq<char>,
    window_dir: Option<Seq<char>>,
    session_dir: Option<Seq<char>>,
    vertical: bool,
) -> Seq<Seq<char>> {
    seq![
        "split-window"@,
        "-t"@,
        target(session, window),
        "-c"@,
        starting_dir_for(window_dir, session_dir),
        split_flag(vertical),
    ]
}

/// The arguments of `new-window` for `window` in `session`.
pub open spec fn new_window_line(session: SessionView, window: WindowView) -> Seq<Seq<char>> {
    seq![
        "new-window"@,
        "-t"@,
        session.name,
        "-n"@,
        window.name,
        "-c"@,
        starting_dir_for(window.starting_dir, session.starting_dir),
    ]
}

/// `tmux split-window -t <session>:<window> -c <dir> -v|-h`; the new pane
/// starts in the window's directory, else the session's, else `.`.
pub fn split_window(
    session_id: &str,
    window_id: &str,
    session_sdir: Option<String>,
    window_sdir: Option<String>,
    vertical: bool,
) -> (r: TmuxCommand)
    ensures
        r@ == split_window_line(
            session_id@,
            window_id@,
            window_sdir.deep_view(),
            session_sdir.deep_view(),
            vertical,
        ),
        r@.len() == 6,
        window_sdir matches Some(d) ==> r@[4] == d@,
        window_sdir is None ==> r@[4] == match session_sdir {
            Some(e) => e@,
            None => "."@,
        },
        r@[5] == if vertical {
            "-v"@
        } else {
            "-h"@
        },
{
    let sdir = starting_dir_of(&window_sdir, &session_sdir);
    let flag = if vertical {
        text("-v")
    } else {
        text("-h")
    };
    let r = TmuxCommand {
        args: vec![
            text("split-window"),
            text("-t"),
            target_of(session_id, window_id),
            text("-c"),
            sdir,
            flag,
        ],
    };
    assert(r@ =~= seq![
        "split-window"@,
        "-t"@,
        target(session_id@, window_id@),
        "-c"@,
        starting_dir_for(window_sdir.deep_view(), session_sdir.deep_view()),
        split_flag(vertical),
    ]);
    r
}

/// `tmux new-window -t <session> -n <window> -c <dir>`; the window starts
/// in its own directory, else the session's, else `.`.
pub fn new_window(session: &SessionSchema, window: &WindowSchema) -> (r: TmuxCommand)
    ensures
        r@ == new_window_line(session@, window@),
        r@.len() == 7,
        window.starting_dir matches Some(d) ==> r@[6] == d@,
        window.starting_dir is None ==> r@[6] == match session.starting_dir {
            Some(e) => e@,
            None => "."@,
        },
{
    let path = starting_dir_of(&window.starting_dir, &session.starting_dir);
    let r = TmuxCommand {
        args: vec![
            text("new-window"),
            text("-t"),
            session.name.clone(),
            text("-n"),
            window.name.clone(),
            text("-c"),
            path,
        ],
    };
    assert(r@ =~= seq![
        "new-window"@,
        "-t"@,
        session.name@,
        "-n"@,
        window.name@,
        "-c"@,
        starting_dir_for(window.starting_dir.deep_view(), session.starting_dir.deep_view()),
    ]);
    r
}

/// `tmux rename-window -t <session>:<index> <new_name>`.
pub fn rename_window(index: usize, name: &str, new_name: &str) -> (r: TmuxCommand)
    ensures
        r@ == seq!["rename-window"@, "-t"@, target(name@, decimal(index as nat)), new_name@],
{
    let idx = decimal_of(index);
    let r = TmuxCommand {
        args: vec![
            text("rename-window"),
            text("-t"),
            target_of(name, idx.as_str()),
            text(new_name),
        ],
    };
    assert(r@ =~= seq!["rename-window"@, "-t"@, target(name@, decimal(index as nat)), new_name@]);
    r
}

/// `tmux respawn-window -t <session>:<window> -c <path>`.
pub fn respawn_window(session_id: &str, window_id: &str, path: &str) -> (r: TmuxCommand)
    ensures
        r@ == seq!["respawn-window"@, "-t"@, target(session_id@, window_id@), "-c"@, path@],
{
    let r = TmuxCommand {
        args: vec![
            text("respawn-window"),
            text("-t"),
            target_of(session_id, window_id),
            text("-c"),
            text(path),
        ],
    };
    assert(r@ =~= seq!["respawn-window"@, "-t"@, target(session_id@, window_id@), "-c"@, path@]);
    r
}

/// The pane target: `session:window`, or `session:window.pane`.
pub open spec fn pane_target(session: Seq<char>, window: Seq<char>, pane: Option<usize>) -> Seq<
    char,
> {
    match pane {
        Some(p) => target(session, window) + "."@ + decimal(p as nat),
        None => target(session, window),
    }
}

/// `tmux send-keys -t <target> <keys> C-m`: types `keys` and Enter into the
/// window, or into one pane of it.
pub fn send_keys(session_name: &str, window_name: &str, keys: &str, pane: Option<usize>) -> (r:
    TmuxCommand)
    ensures
        r@ == seq![
            "send-keys"@,
            "-t"@,
            pane_target(session_name@, window_name@, pane),
            keys@,
            "C-m"@,
        ],
{
    let id = match pane {
        Some(p) => target_of(session_name, window_name).concat(".").concat(decimal_of(p).as_str()),
        None => target_of(session_name, window_name),
    };
    let r = TmuxCommand { args: vec![text("send-keys"), text("-t"), id, text(keys), text("C-m")] };
    assert(r@ =~= seq![
        "send-keys"@,
        "-t"@,
        pane_target(session_name@, window_name@, pane),
        keys@,
        "C-m"@,
    ]);
    r
}

/// `tmux has-session -t <name>`, which succeeds when the session exists.
pub fn has_session(name: &str) -> (r: TmuxCommand)
    ensures
        r@ == seq!["has-session"@, "-t"@, name@],
{
    let r = TmuxCommand { args: vec![text("has-session"), text("-t"), text(name)] };
    assert(r@ =~= seq!["has-session"@, "-t"@, name@]);
    r
}

/// `tmux list-windows -t <session>`.
pub fn list_windows(session: &SessionSchema) -> (r: TmuxCommand)
    ensures
        r@ == seq!["list-windows"@, "-t"@, session.name@],
{
    let r = TmuxCommand { args: vec![text("list-windows"), text("-t"), session.name.clone()] };
    assert(r@ =~= seq!["list-windows"@, "-t"@, session.name@]);
    r
}

/// What running `cmd` came to, given whether tmux could be started (or the
/// text of the error that starting it gave): a failed `new-session` could
/// not create the session; any other failure is unknown.
pub fn spawn_outcome(cmd: &TmuxCommand, spawned: Result<(), String>) -> (r: Result<
    (),
    TmuxCommandError,
>)
    ensures
        match spawned {
            Ok(()) => r is Ok,
            Err(m) => if cmd@.len() > 0 && cmd@[0] == "new-session"@ {
                r matches Err(TmuxCommandError::CouldNotCreateSession(e)) && e@ == m@
            } else {
                r matches Err(TmuxCommandError::UnknownError(e)) && e@ == m@
            },
        },
{
    match spawned {
        Ok(()) => Ok(()),
        Err(m) => {
            if cmd.args.len() > 0 && same_text(cmd.args[0].as_str(), "new-session") {
                Err(TmuxCommandError::CouldNotCreateSession(m))
            } else {
                Err(TmuxCommandError::UnknownError(m))
            }
        },
    }
}

/// A window, and every pane split off it, starts in the window's own
/// directory whenever it has one, whatever that text is; only a window
/// without one starts in the session's directory, and without both in `.`.
pub proof fn lemma_own_directory_first(session: SessionView, window: WindowView, vertical: bool)
    ensures
        new_window_line(session, window).len() == 7,
        new_window_line(session, window)[5] == "-c"@,
        new_window_line(session, window)[6] == match window.starting_dir {
            Some(d) => d,
            None => match session.starting_dir {
                Some(e) => e,
                None => "."@,
            },
        },
        split_window_line(
            session.name,
            window.name,
            window.starting_dir,
            session.starting_dir,
            vertical,
        ).len() == 6,
        split_window_line(
            session.name,
            window.name,
            window.starting_dir,
            session.starting_dir,
            vertical,
        )[3] == "-c"@,
        split_window_line(
            session.name,
            window.name,
            window.starting_dir,
            session.starting_dir,
            vertical,
        )[4] == match window.starting_dir {
            Some(d) => d,
            None => match session.starting_dir {
                Some(e) => e,
                None => "."@,
            },
        },
{
}

} // verus!
