//! A tmux session being built.
pub mod command;
pub mod query;

use crate::config::schema::{
    copy_opt_string, windows_view, PaneView, SessionSchema, SessionView, WindowSchema, WindowView,
};
use crate::text::decimal;
use crate::tmux::command::{
    new_window_line, pane_target, split_window_line, starting_dir_for, starting_dir_of, target,
    TmuxCommand, TmuxCommandError,
};
use crate::tmux::query::TmuxQueryError;
use vstd::prelude::*;

verus! {

/// Why the session could not be built.
pub enum TmuxError {
    CouldNotCreateSession(String),
    UnknownError(String),
}

impl TmuxError {
    /// The text the error is shown with.
    pub fn message(&self) -> (r: String)
        ensures
            r@ == match self {
                TmuxError::CouldNotCreateSession(s) => "Could not create session: "@ + s@,
                TmuxError::UnknownError(s) => "Unknown Error: "@ + s@,
            },
    {
        match self {
            TmuxError::CouldNotCreateSession(s) => String::from_str("Could not create session: ").concat(
                s.as_str(),
            ),
            TmuxError::UnknownError(s) => String::from_str("Unknown Error: ").concat(s.as_str()),
        }
    }
}

/// The text of a session that exists already.
pub open spec fn session_already_exists() -> Seq<char> {
    "Session already exists"@
}

/// A tmux session that has been created, with the configuration it was
/// created from.
pub struct Session {
    name: String,
    config: SessionSchema,
}

impl View for Session {
    type V = SessionView;

    closed spec fn view(&self) -> SessionView {
        self.config@
    }
}

impl Session {
    /// The session carries the name of its configuration.
    #[verifier::type_invariant]
    closed spec fn named_after_config(self) -> bool {
        self.name@ == self.config.name@
    }

    /// The first step of creating the session for `session`, given whether
    /// `tmux has-session` found it: the `new-session` command to run, in the
    /// session's directory or `.`; an error when the session exists already
    /// or tmux could not be asked.
    pub fn new(session: SessionSchema, found: Result<bool, TmuxQueryError>) -> (r: Result<
        TmuxCommand,
        TmuxError,
    >)
        ensures
            match found {
                Ok(false) => r matches Ok(c) && c@ == seq![
                    "new-session"@,
                    "-d"@,
                    "-s"@,
                    session.name@,
                    "-c"@,
                    starting_dir_for(session.starting_dir.deep_view(), None),
                ],
                Ok(true) => r matches Err(TmuxError::CouldNotCreateSession(m)) && m@
                    == session_already_exists(),
                Err(TmuxQueryError::UnknownError(e)) => r matches Err(TmuxError::UnknownError(m))
                    && m@ == "Unknown Error: "@ + e@,
            },
            found matches Ok(false) ==> r matches Ok(c) && c@.len() == 6 && c@[5] == match session.starting_dir {
                Some(d) => d@,
                None => "."@,
            },
    {
        match found {
            Ok(false) => {
                let dir = match &session.starting_dir {
                    Some(d) => d.clone(),
                    None => String::from_str("."),
                };
                Ok(crate::tmux::command::new_session(session.name, Some(dir)))
            },
            Ok(true) => Err(TmuxError::CouldNotCreateSession(String::from_str("Session already exists"))),
            Err(e) => Err(TmuxError::UnknownError(e.message())),
        }
    }

    /// The second step: the session, once its `new-session` command ran;
    /// an error when it could not be run.
    pub fn created(session: SessionSchema, outcome: Result<(), TmuxCommandError>) -> (r: Result<
        Session,
        TmuxError,
    >)
        ensures
            match outcome {
                Ok(()) => r matches Ok(s) && s@ == session@,
                Err(TmuxCommandError::CouldNotCreateSession(e)) => r matches Err(
                    TmuxError::CouldNotCreateSession(m),
                ) && m@ == "Could not create session: "@ + e@,
                Err(TmuxCommandError::UnknownError(e)) => r matches Err(
                    TmuxError::CouldNotCreateSession(m),
                ) && m@ == "Unknown Error: "@ + e@,
            },
    {
        match outcome {
            Ok(()) => Ok(Session { name: session.name.clone(), config: session }),
            Err(e) => Err(TmuxError::CouldNotCreateSession(e.message())),
        }
    }

    /// What a command of the session came to: a failure is reported as an
    /// unknown error with the command's message.
    pub fn outcome(result: Result<(), TmuxCommandError>) -> (r: Result<(), TmuxError>)
        ensures
            match result {
                Ok(()) => r is Ok,
                Err(TmuxCommandError::CouldNotCreateSession(e)) => r matches Err(
                    TmuxError::UnknownError(m),
                ) && m@ == "Could not create session: "@ + e@,
                Err(TmuxCommandError::UnknownError(e)) => r matches Err(TmuxError::UnknownError(m))
                    && m@ == "Unknown Error: "@ + e@,
            },
    {
        match result {
            Ok(()) => Ok(()),
            Err(e) => Err(TmuxError::UnknownError(e.message())),
        }
    }

    /// The command that renames the window at `index`.
    pub fn rename_window(&self, index: usize, name: &str) -> (r: TmuxCommand)
        ensures
            r@ == seq!["rename-window"@, "-t"@, target(self@.name, decimal(index as nat)), name@],
    {
        proof {
            use_type_invariant(self);
        }
        crate::tmux::command::rename_window(index, self.name.as_str(), name)
    }

    /// The command that restarts a window in `path`.
    pub fn respawn_window(&self, window_name: &str, path: &str) -> (r: TmuxCommand)
        ensures
            r@ == seq!["respawn-window"@, "-t"@, target(self@.name, window_name@), "-c"@, path@],
    {
        proof {
            use_type_invariant(self);
        }
        crate::tmux::command::respawn_window(self.name.as_str(), window_name, path)
    }

    /// The command that opens the window `config`.
    pub fn new_window(&self, config: &WindowSchema) -> (r: TmuxCommand)
        ensures
            r@ == new_window_line(self@, config@),
            r@.len() == 7,
            config.starting_dir matches Some(d) ==> r@[6] == d@,
            config.starting_dir is None ==> r@[6] == match self@.starting_dir {
                Some(e) => e,
                None => "."@,
            },
    {
        crate::tmux::command::new_window(&self.config, config)
    }

    /// The command that closes a window.
    pub fn kill_window(&self, window_id: &str) -> (r: TmuxCommand)
        ensures
            r@ == seq!["kill-window"@, "-t"@, target(self@.name, window_id@)],
    {
        crate::tmux::command::kill_window(self.config.name.as_str(), window_id)
    }

    /// The command that splits a new pane off a window, in the window's
    /// directory, else the session's, else `.`.
    pub fn split_window(&self, window_id: &str, window_sdir: Option<String>, vertical: bool) -> (r:
        TmuxCommand)
        ensures
            r@ == split_window_line(
                self@.name,
                window_id@,
                window_sdir.deep_view(),
                self@.starting_dir,
                vertical,
            ),
            r@.len() == 6,
            window_sdir matches Some(d) ==> r@[4] == d@,
            window_sdir is None ==> r@[4] == match self@.starting_dir {
                Some(e) => e,
                None => "."@,
            },
            r@[5] == if vertical {
                "-v"@
            } else {
                "-h"@
            },
    {
        proof {
            use_type_invariant(self);
        }
        crate::tmux::command::split_window(
            self.name.as_str(),
            window_id,
            crate::config::schema::copy_opt_string(&self.config.starting_dir),
            window_sdir,
            vertical,
        )
    }

    /// The command that types `keys` and Enter into a window, or into one of
    /// its panes.
    pub fn send_keys(&self, window: &WindowSchema, keys: &str, pane: Option<usize>) -> (r:
        TmuxCommand)
        ensures
            r@ == seq![
                "send-keys"@,
                "-t"@,
                pane_target(self@.name, window.name@, pane),
                keys@,
                "C-m"@,
            ],
    {
        crate::tmux::command::send_keys(self.config.name.as_str(), window.name.as_str(), keys, pane)
    }

    /// The command that gives a window the focus.
    pub fn select_window(&self, window: &WindowSchema) -> (r: TmuxCommand)
        ensures
            r@ == seq!["select-window"@, "-t"@, target(self@.name, window.name@)],
    {
        crate::tmux::command::select_window(self.config.name.as_str(), window.name.as_str())
    }
}

/// A pane split off a window starts in the directory the window was
/// opened in, and both aim at the same session.
pub proof fn lemma_panes_start_where_their_window_did(
    session: SessionView,
    window: WindowView,
    vertical: bool,
)
    ensures
        split_window_line(
            session.name,
            window.name,
            window.starting_dir,
            session.starting_dir,
            vertical,
        )[4] == new_window_line(session, window)[6],
        split_window_line(
            session.name,
            window.name,
            window.starting_dir,
            session.starting_dir,
            vertical,
        )[2] == target(new_window_line(session, window)[2], new_window_line(session, window)[4]),
{
}

/// The views of a list of commands.
pub open spec fn commands_view(cs: Seq<TmuxCommand>) -> Seq<Seq<Seq<char>>> {
    cs.map_values(|c: TmuxCommand| c@)
}

/// The arguments of `respawn-window` for the session's first window.
pub open spec fn respawn_line(session: Seq<char>, window: Seq<char>, dir: Seq<char>) -> Seq<
    Seq<char>,
> {
    seq!["respawn-window"@, "-t"@, target(session, window), "-c"@, dir]
}

/// The arguments of `rename-window` for the window at `index`.
pub open spec fn rename_line(session: Seq<char>, index: nat, name: Seq<char>) -> Seq<Seq<char>> {
    seq!["rename-window"@, "-t"@, target(session, decimal(index)), name]
}

/// The arguments of `send-keys` that type `keys` into a window.
pub open spec fn send_keys_line(session: Seq<char>, window: Seq<char>, keys: Seq<char>) -> Seq<
    Seq<char>,
> {
    seq!["send-keys"@, "-t"@, pane_target(session, window, None), keys, "C-m"@]
}

/// The arguments of `select-window` for a window.
pub open spec fn select_line(session: Seq<char>, window: Seq<char>) -> Seq<Seq<char>> {
    seq!["select-window"@, "-t"@, target(session, window)]
}

/// The commands for the pane at index `j` of window `w`: every pane after
/// the first is split off (vertically when it asks for it), then its
/// command, if any, is typed in.
pub open spec fn pane_step(s: SessionView, w: WindowView, j: int, p: PaneView) -> Seq<
    Seq<Seq<char>>,
> {
    let split: Seq<Seq<Seq<char>>> = if j != 0 {
        seq![
            split_window_line(
                s.name,
                w.name,
                w.starting_dir,
                s.starting_dir,
                p.is_vertical_split == Some(true),
            ),
        ]
    } else {
        Seq::empty()
    };
    let keys: Seq<Seq<Seq<char>>> = match p.command {
        Some(c) => seq![send_keys_line(s.name, w.name, c)],
        None => Seq::empty(),
    };
    split + keys
}

/// The commands for the panes of window `w`, in order.
pub open spec fn pane_lines(s: SessionView, w: WindowView, panes: Seq<PaneView>) -> Seq<
    Seq<Seq<char>>,
>
    decreases panes.len(),
{
    if panes.len() == 0 {
        Seq::empty()
    } else {
        pane_lines(s, w, panes.drop_last()) + pane_step(s, w, panes.len() - 1, panes.last())
    }
}

/// The commands that open the window at index `i`: the first window is
/// tmux's own initial window, restarted in the right directory and renamed;
/// every later window is a new one.
pub open spec fn window_head(s: SessionView, i: int, w: WindowView) -> Seq<Seq<Seq<char>>> {
    if i == 0 {
        seq![
            respawn_line(s.name, "0"@, starting_dir_for(w.starting_dir, s.starting_dir)),
            rename_line(s.name, 0, w.name),
        ]
    } else {
        seq![new_window_line(s, w)]
    }
}

/// All commands for the window at index `i`.
pub open spec fn window_lines(s: SessionView, i: int, w: WindowView) -> Seq<Seq<Seq<char>>> {
    window_head(s, i, w) + pane_lines(s, w, w.panes)
}

/// The commands for the windows, in order.
pub open spec fn windows_lines(s: SessionView, ws: Seq<WindowView>) -> Seq<Seq<Seq<char>>>
    decreases ws.len(),
{
    if ws.len() == 0 {
        Seq::empty()
    } else {
        windows_lines(s, ws.drop_last()) + window_lines(s, ws.len() - 1, ws.last())
    }
}

/// The index of the first window at or after `from` that asks for the focus.
pub open spec fn first_active_from(ws: Seq<WindowView>, from: int) -> Option<int>
    decreases ws.len() - from,
{
    if from < 0 || from >= ws.len() {
        None
    } else if ws[from].set_active == Some(true) {
        Some(from)
    } else {
        first_active_from(ws, from + 1)
    }
}

/// The number of windows from `from` on that ask for the focus.
pub open spec fn active_count_from(ws: Seq<WindowView>, from: int) -> nat
    decreases ws.len() - from,
{
    if from < 0 || from >= ws.len() {
        0
    } else if ws[from].set_active == Some(true) {
        1 + active_count_from(ws, from + 1)
    } else {
        active_count_from(ws, from + 1)
    }
}

/// Every command that builds the session, in order: the windows with their
/// panes, then the focus on the first window that asks for it.
pub open spec fn session_plan(s: SessionView, ws: Seq<WindowView>) -> Seq<Seq<Seq<char>>> {
    windows_lines(s, ws) + match first_active_from(ws, 0) {
        Some(i) => seq![select_line(s.name, ws[i].name)],
        None => Seq::empty(),
    }
}

/// The commands that build a session, and which window gets the focus.
pub struct SessionPlan {
    pub commands: Vec<TmuxCommand>,
    /// The index of the window that gets the focus.
    pub focused: Option<usize>,
    /// More than one window asks for the focus; the first one gets it.
    pub several_active: bool,
}

impl Session {
    /// The commands that build the session's windows and panes, to be run
    /// in order until one fails.
    pub fn plan(&self, windows: &Vec<WindowSchema>) -> (r: SessionPlan)
        ensures
            commands_view(r.commands@) == session_plan(self@, windows_view(windows@)),
            r.focused == match first_active_from(windows_view(windows@), 0) {
                Some(i) => Some(i as usize),
                None => None::<usize>,
            },
            r.several_active == (active_count_from(windows_view(windows@), 0) > 1),
    {
        proof {
            use_type_invariant(self);
        }
        let ghost s = self@;
        let ghost ws = windows_view(windows@);
        let mut commands: Vec<TmuxCommand> = Vec::new();
        let mut i: usize = 0;
        assert(ws.take(0) =~= Seq::<WindowView>::empty());
        assert(commands_view(commands@) =~= Seq::<Seq<Seq<char>>>::empty());
        while i < windows.len()
            invariant
                s == self@,
                ws == windows_view(windows@),
                ws.len() == windows@.len(),
                i <= windows@.len(),
                commands_view(commands@) == windows_lines(s, ws.take(i as int)),
            decreases windows@.len() - i,
        {
            let w = &windows[i];
            let ghost wv = w@;
            assert(ws[i as int] == wv);
            let ghost before = commands_view(commands@);
            if i == 0 {
                let dir = starting_dir_of(&w.starting_dir, &self.config.starting_dir);
                commands.push(self.respawn_window("0", dir.as_str()));
                commands.push(self.rename_window(0, w.name.as_str()));
            } else {
                commands.push(self.new_window(w));
            }
            assert(commands_view(commands@) =~= before + window_head(s, i as int, wv));
            let mut j: usize = 0;
            assert(wv.panes.take(0) =~= Seq::<PaneView>::empty());
            while j < w.panes.len()
                invariant
                    s == self@,
                    wv == w@,
                    j <= w.panes@.len(),
                    wv.panes.len() == w.panes@.len(),
                    commands_view(commands@) == before + window_head(s, i as int, wv) + pane_lines(
                        s,
                        wv,
                        wv.panes.take(j as int),
                    ),
                decreases w.panes@.len() - j,
            {
                let p = &w.panes[j];
                assert(wv.panes[j as int] == p@);
                let ghost mid = commands_view(commands@);
                if j != 0 {
                    let vertical = match p.is_vertical_split {
                        Some(v) => v,
                        None => false,
                    };
                    commands.push(
                        self.split_window(w.name.as_str(), copy_opt_string(&w.starting_dir), vertical),
                    );
                }
                match &p.command {
                    Some(c) => {
                        commands.push(self.send_keys(w, c.as_str(), None));
                    },
                    None => {},
                }
                proof {
                    assert(commands_view(commands@) =~= mid + pane_step(s, wv, j as int, p@));
                    assert(wv.panes.take(j + 1).drop_last() =~= wv.panes.take(j as int));
                    assert(wv.panes.take(j + 1).last() == p@);
                }
                j = j + 1;
            }
            proof {
                assert(wv.panes.take(j as int) =~= wv.panes);
                assert(ws.take(i + 1).drop_last() =~= ws.take(i as int));
                assert(ws.take(i + 1).last() == wv);
                assert(commands_view(commands@) =~= windows_lines(s, ws.take(i + 1)));
            }
            i = i + 1;
        }
        assert(ws.take(i as int) =~= ws);
        let mut k: usize = windows.len();
        let mut focused: Option<usize> = None;
        let mut count: usize = 0;
        while k > 0
            invariant
                ws == windows_view(windows@),
                ws.len() == windows@.len(),
                k <= windows@.len(),
                focused == match first_active_from(ws, k as int) {
                    Some(x) => Some(x as usize),
                    None => None::<usize>,
                },
                count == (if active_count_from(ws, k as int) > 1 {
                    2
                } else {
                    active_count_from(ws, k as int)
                }),
            decreases k,
        {
            k = k - 1;
            assert(ws[k as int].set_active == windows@[k as int].set_active);
            if windows[k].set_active == Some(true) {
                focused = Some(k);
                if count < 2 {
                    count = count + 1;
                }
            }
        }
        proof {
            lemma_first_active(ws, 0);
        }
        let ghost lines = commands_view(commands@);
        match focused {
            Some(f) => {
                assert(ws[f as int] == windows@[f as int]@);
                commands.push(self.select_window(&windows[f]));
                assert(commands_view(commands@) =~= lines.push(select_line(s.name, ws[f as int].name)));
            },
            None => {},
        }
        proof {
            assert(commands_view(commands@) =~= session_plan(s, ws));
        }
        SessionPlan { commands, focused, several_active: count > 1 }
    }
}

/// The window found by `first_active_from` asks for the focus.
proof fn lemma_first_active(ws: Seq<WindowView>, from: int)
    requires
        0 <= from,
    ensures
        first_active_from(ws, from) matches Some(x) ==> from <= x < ws.len() && ws[x].set_active
            == Some(true),
    decreases ws.len() - from,
{
    if from < ws.len() && ws[from].set_active != Some(true) {
        lemma_first_active(ws, from + 1);
    }
}

/// A configuration with no windows gives no commands at all; with windows,
/// the first command always restarts tmux's initial window in the first
/// window's directory.
pub proof fn lemma_plan_starts_with_initial_window(s: SessionView, ws: Seq<WindowView>)
    ensures
        ws.len() == 0 ==> session_plan(s, ws) == Seq::<Seq<Seq<char>>>::empty(),
        ws.len() > 0 ==> session_plan(s, ws)[0] == respawn_line(
            s.name,
            "0"@,
            starting_dir_for(ws[0].starting_dir, s.starting_dir),
        ),
    decreases ws.len(),
{
    if ws.len() == 0 {
        assert(session_plan(s, ws) =~= Seq::<Seq<Seq<char>>>::empty());
    } else {
        lemma_windows_lines_start(s, ws);
    }
}

proof fn lemma_windows_lines_start(s: SessionView, ws: Seq<WindowView>)
    requires
        ws.len() > 0,
    ensures
        windows_lines(s, ws).len() > 0,
        windows_lines(s, ws)[0] == respawn_line(
            s.name,
            "0"@,
            starting_dir_for(ws[0].starting_dir, s.starting_dir),
        ),
    decreases ws.len(),
{
    if ws.len() == 1 {
        assert(ws.drop_last() =~= Seq::<WindowView>::empty());
    } else {
        lemma_windows_lines_start(s, ws.drop_last());
    }
}

/// The commands of the first `m` panes come first among those of the first `n`.
proof fn lemma_pane_lines_prefix(s: SessionView, w: WindowView, panes: Seq<PaneView>, m: int, n: int)
    requires
        0 <= m <= n <= panes.len(),
    ensures
        pane_lines(s, w, panes.take(m)).len() <= pane_lines(s, w, panes.take(n)).len(),
        forall|x: int|
            0 <= x < pane_lines(s, w, panes.take(m)).len() ==> #[trigger] pane_lines(
                s,
                w,
                panes.take(n),
            )[x] == pane_lines(s, w, panes.take(m))[x],
    decreases n - m,
{
    if m < n {
        lemma_pane_lines_prefix(s, w, panes, m, n - 1);
        assert(panes.take(n).drop_last() =~= panes.take(n - 1));
    }
}

/// The commands of the first `m` windows come first among those of the first `n`.
proof fn lemma_windows_lines_prefix(s: SessionView, ws: Seq<WindowView>, m: int, n: int)
    requires
        0 <= m <= n <= ws.len(),
    ensures
        windows_lines(s, ws.take(m)).len() <= windows_lines(s, ws.take(n)).len(),
        forall|x: int|
            0 <= x < windows_lines(s, ws.take(m)).len() ==> #[trigger] windows_lines(
                s,
                ws.take(n),
            )[x] == windows_lines(s, ws.take(m))[x],
    decreases n - m,
{
    if m < n {
        lemma_windows_lines_prefix(s, ws, m, n - 1);
        assert(ws.take(n).drop_last() =~= ws.take(n - 1));
    }
}

/// Where the commands of window `i` begin in the plan, and what stands
/// there: for the first window, `respawn-window` on tmux's initial window;
/// for any later one, `new-window`; either way in the window's own
/// directory when it has one, else the session's, else `.`.
pub proof fn lemma_plan_opens_each_window(s: SessionView, ws: Seq<WindowView>, i: int)
    requires
        0 <= i < ws.len(),
    ensures
        windows_lines(s, ws.take(i)).len() < session_plan(s, ws).len(),
        session_plan(s, ws)[windows_lines(s, ws.take(i)).len() as int] == if i == 0 {
            seq![
                "respawn-window"@,
                "-t"@,
                s.name + ":"@ + "0"@,
                "-c"@,
                match ws[i].starting_dir {
                    Some(d) => d,
                    None => match s.starting_dir {
                        Some(e) => e,
                        None => "."@,
                    },
                },
            ]
        } else {
            seq![
                "new-window"@,
                "-t"@,
                s.name,
                "-n"@,
                ws[i].name,
                "-c"@,
                match ws[i].starting_dir {
                    Some(d) => d,
                    None => match s.starting_dir {
                        Some(e) => e,
                        None => "."@,
                    },
                },
            ]
        },
{
    let k = windows_lines(s, ws.take(i)).len() as int;
    lemma_windows_lines_prefix(s, ws, i + 1, ws.len() as int);
    assert(ws.take(i + 1).drop_last() =~= ws.take(i));
    assert(ws.take(i + 1).last() == ws[i]);
    assert(ws.take(ws.len() as int) =~= ws);
    let own = windows_lines(s, ws.take(i + 1));
    assert(own[k] == window_head(s, i, ws[i])[0]);
    assert(windows_lines(s, ws)[k] == own[k]);
}

/// Every pane after the first of every window is split off that window in
/// the plan: vertically (`-v`) exactly when the pane asks for a vertical
/// split, horizontally (`-h`) when it asks for none or says no, and in the
/// window's own directory when it has one, else the session's, else `.`.
/// The command stands right after those of the window's earlier panes.
pub proof fn lemma_plan_splits_each_pane(s: SessionView, ws: Seq<WindowView>, i: int, j: int)
    requires
        0 <= i < ws.len(),
        0 < j < ws[i].panes.len(),
    ensures
        windows_lines(s, ws.take(i)).len() + window_head(s, i, ws[i]).len() + pane_lines(
            s,
            ws[i],
            ws[i].panes.take(j),
        ).len() < session_plan(s, ws).len(),
        session_plan(s, ws)[(windows_lines(s, ws.take(i)).len() + window_head(s, i, ws[i]).len()
            + pane_lines(s, ws[i], ws[i].panes.take(j)).len()) as int] == seq![
            "split-window"@,
            "-t"@,
            s.name + ":"@ + ws[i].name,
            "-c"@,
            match ws[i].starting_dir {
                Some(d) => d,
                None => match s.starting_dir {
                    Some(e) => e,
                    None => "."@,
                },
            },
            if ws[i].panes[j].is_vertical_split == Some(true) {
                "-v"@
            } else {
                "-h"@
            },
        ],
{
    let w = ws[i];
    let a = windows_lines(s, ws.take(i)).len() as int;
    let h = window_head(s, i, w).len() as int;
    let b = pane_lines(s, w, w.panes.take(j)).len() as int;
    lemma_pane_lines_prefix(s, w, w.panes, j + 1, w.panes.len() as int);
    assert(w.panes.take(j + 1).drop_last() =~= w.panes.take(j));
    assert(w.panes.take(j + 1).last() == w.panes[j]);
    assert(w.panes.take(w.panes.len() as int) =~= w.panes);
    let step = pane_step(s, w, j, w.panes[j]);
    assert(step[0] == split_window_line(
        s.name,
        w.name,
        w.starting_dir,
        s.starting_dir,
        w.panes[j].is_vertical_split == Some(true),
    ));
    assert(pane_lines(s, w, w.panes.take(j + 1))[b] == step[0]);
    assert(pane_lines(s, w, w.panes)[b] == step[0]);
    lemma_windows_lines_prefix(s, ws, i + 1, ws.len() as int);
    assert(ws.take(i + 1).drop_last() =~= ws.take(i));
    assert(ws.take(i + 1).last() == w);
    assert(ws.take(ws.len() as int) =~= ws);
    let own = windows_lines(s, ws.take(i + 1));
    assert(own[a + h + b] == pane_lines(s, w, w.panes)[b]);
    assert(windows_lines(s, ws)[a + h + b] == own[a + h + b]);
}

/// Right after `respawn-window`, tmux's initial window `0` is renamed to
/// the first window's name.
pub proof fn lemma_plan_renames_initial_window(s: SessionView, ws: Seq<WindowView>)
    requires
        ws.len() > 0,
    ensures
        session_plan(s, ws).len() > 1,
        session_plan(s, ws)[1] == seq!["rename-window"@, "-t"@, s.name + ":"@ + "0"@, ws[0].name],
{
    reveal_strlit("0123456789");
    reveal_strlit("0");
    assert(decimal(0) =~= "0"@);
    lemma_windows_lines_prefix(s, ws, 1, ws.len() as int);
    assert(ws.take(1).drop_last() =~= ws.take(0));
    assert(ws.take(1).last() == ws[0]);
    assert(ws.take(ws.len() as int) =~= ws);
    assert(windows_lines(s, ws.take(0)) =~= Seq::<Seq<Seq<char>>>::empty());
    let own = windows_lines(s, ws.take(1));
    assert(own[1] == window_head(s, 0, ws[0])[1]);
    assert(windows_lines(s, ws)[1] == own[1]);
}

/// The command of every pane that has one is typed into its window: right
/// after the pane is split off, or, for the first pane, right after the
/// window is opened.
pub proof fn lemma_plan_types_each_command(s: SessionView, ws: Seq<WindowView>, i: int, j: int)
    requires
        0 <= i < ws.len(),
        0 <= j < ws[i].panes.len(),
        ws[i].panes[j].command is Some,
    ensures
        windows_lines(s, ws.take(i)).len() + window_head(s, i, ws[i]).len() + pane_lines(
            s,
            ws[i],
            ws[i].panes.take(j),
        ).len() + (if j > 0 {
            1int
        } else {
            0int
        }) < session_plan(s, ws).len(),
        session_plan(s, ws)[(windows_lines(s, ws.take(i)).len() + window_head(s, i, ws[i]).len()
            + pane_lines(s, ws[i], ws[i].panes.take(j)).len()) + (if j > 0 {
            1int
        } else {
            0int
        })] == seq![
            "send-keys"@,
            "-t"@,
            s.name + ":"@ + ws[i].name,
            ws[i].panes[j].command->0,
            "C-m"@,
        ],
{
    let w = ws[i];
    let a = windows_lines(s, ws.take(i)).len() as int;
    let h = window_head(s, i, w).len() as int;
    let b = pane_lines(s, w, w.panes.take(j)).len() as int;
    let o: int = if j > 0 {
        1
    } else {
        0
    };
    lemma_pane_lines_prefix(s, w, w.panes, j + 1, w.panes.len() as int);
    assert(w.panes.take(j + 1).drop_last() =~= w.panes.take(j));
    assert(w.panes.take(j + 1).last() == w.panes[j]);
    assert(w.panes.take(w.panes.len() as int) =~= w.panes);
    let step = pane_step(s, w, j, w.panes[j]);
    assert(step[o] == send_keys_line(s.name, w.name, w.panes[j].command->0));
    assert(pane_lines(s, w, w.panes.take(j + 1))[b + o] == step[o]);
    assert(pane_lines(s, w, w.panes)[b + o] == step[o]);
    lemma_windows_lines_prefix(s, ws, i + 1, ws.len() as int);
    assert(ws.take(i + 1).drop_last() =~= ws.take(i));
    assert(ws.take(i + 1).last() == w);
    assert(ws.take(ws.len() as int) =~= ws);
    let own = windows_lines(s, ws.take(i + 1));
    assert(own[a + h + b + o] == pane_lines(s, w, w.panes)[b + o]);
    assert(windows_lines(s, ws)[a + h + b + o] == own[a + h + b + o]);
}

/// The focus goes, last of all, to the first window that asks for it; when
/// none asks, no window is selected.
pub proof fn lemma_plan_focuses_first_active(s: SessionView, ws: Seq<WindowView>)
    ensures
        forall|f: int|
            0 <= f < ws.len() && ws[f].set_active == Some(true) && (forall|g: int|
                0 <= g < f ==> ws[g].set_active != Some(true)) ==> {
                &&& first_active_from(ws, 0) == Some(f)
                &&& session_plan(s, ws).len() == windows_lines(s, ws).len() + 1
                &&& session_plan(s, ws).last() == seq![
                    "select-window"@,
                    "-t"@,
                    s.name + ":"@ + ws[f].name,
                ]
            },
        (forall|g: int| 0 <= g < ws.len() ==> ws[g].set_active != Some(true)) ==> session_plan(
            s,
            ws,
        ) == windows_lines(s, ws),
{
    assert forall|f: int|
        0 <= f < ws.len() && ws[f].set_active == Some(true) && (forall|g: int|
            0 <= g < f ==> ws[g].set_active != Some(true)) implies first_active_from(ws, 0) == Some(
        f,
    ) by {
        lemma_first_active_is_least(ws, 0, f);
    }
    if forall|g: int| 0 <= g < ws.len() ==> ws[g].set_active != Some(true) {
        lemma_first_active(ws, 0);
        assert(session_plan(s, ws) =~= windows_lines(s, ws));
    }
}

/// `first_active_from` finds the least window from `from` on that asks for
/// the focus.
proof fn lemma_first_active_is_least(ws: Seq<WindowView>, from: int, f: int)
    requires
        0 <= from <= f < ws.len(),
        ws[f].set_active == Some(true),
        forall|g: int| from <= g < f ==> ws[g].set_active != Some(true),
    ensures
        first_active_from(ws, from) == Some(f),
    decreases f - from,
{
    if from < f {
        lemma_first_active_is_least(ws, from + 1, f);
    }
}

} // verus!
