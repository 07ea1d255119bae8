use vstd::prelude::*;

verus! {

/// One pane of a window: the command typed into it and the direction in
/// which it is split off from the pane before it.
#[derive(Debug)]
pub struct PaneSchema {
    pub command: Option<String>,
    /// Dictates the split direction: vertical when `Some(true)`.
    pub is_vertical_split: Option<bool>,
}

/// A window of the session.
#[derive(Debug)]
pub struct WindowSchema {
    pub name: String,
    pub starting_dir: Option<String>,
    pub set_active: Option<bool>,
    pub panes: Vec<PaneSchema>,
}

/// The session itself.
#[derive(Debug)]
pub struct SessionSchema {
    pub name: String,
    pub starting_dir: Option<String>,
}

/// The whole configuration file.
#[derive(Debug)]
pub struct ConfigSchema {
    pub session: SessionSchema,
    pub windows: Vec<WindowSchema>,
}

/// A pane as plain values.
pub struct PaneView {
    pub command: Option<Seq<char>>,
    pub is_vertical_split: Option<bool>,
}

/// A window as plain values.
pub struct WindowView {
    pub name: Seq<char>,
    pub starting_dir: Option<Seq<char>>,
    pub set_active: Option<bool>,
    pub panes: Seq<PaneView>,
}

/// A session as plain values.
pub struct SessionView {
    pub name: Seq<char>,
    pub starting_dir: Option<Seq<char>>,
}

/// A configuration as plain values.
pub struct ConfigView {
    pub session: SessionView,
    pub windows: Seq<WindowView>,
}

impl View for PaneSchema {
    type V = PaneView;

    open spec fn view(&self) -> PaneView {
        PaneView { command: self.command.deep_view(), is_vertical_split: self.is_vertical_split }
    }
}

/// The views of a list of panes.
pub open spec fn panes_view(panes: Seq<PaneSchema>) -> Seq<PaneView> {
    panes.map_values(|p: PaneSchema| p@)
}

/// The views of a list of windows.
pub open spec fn windows_view(windows: Seq<WindowSchema>) -> Seq<WindowView> {
    windows.map_values(|w: WindowSchema| w@)
}

impl View for WindowSchema {
    type V = WindowView;

    open spec fn view(&self) -> WindowView {
        WindowView {
            name: self.name@,
            starting_dir: self.starting_dir.deep_view(),
            set_active: self.set_active,
            panes: panes_view(self.panes@),
        }
    }
}

impl View for SessionSchema {
    type V = SessionView;

    open spec fn view(&self) -> SessionView {
        SessionView { name: self.name@, starting_dir: self.starting_dir.deep_view() }
    }
}

impl View for ConfigSchema {
    type V = ConfigView;

    open spec fn view(&self) -> ConfigView {
        ConfigView { session: self.session@, windows: windows_view(self.windows@) }
    }
}

impl ConfigSchema {
    /// A configuration made of `session` and `windows`.
    pub fn new(session: SessionSchema, windows: Vec<WindowSchema>) -> (r: ConfigSchema)
        ensures
            r.session == session,
            r.windows == windows,
            r@ == (ConfigView { session: session@, windows: windows_view(windows@) }),
    {
        ConfigSchema { session, windows }
    }
}

/// A copy of an optional string.
pub fn copy_opt_string(o: &Option<String>) -> (r: Option<String>)
    ensures
        r.deep_view() == o.deep_view(),
{
    match o {
        Some(s) => Some(s.clone()),
        None => None,
    }
}

impl PaneSchema {
    /// A copy of this pane.
    pub fn copy(&self) -> (r: PaneSchema)
        ensures
            r@ == self@,
    {
        PaneSchema { command: copy_opt_string(&self.command), is_vertical_split: self.is_vertical_split }
    }
}

/// A copy of a list of panes.
pub fn copy_panes(panes: &Vec<PaneSchema>) -> (r: Vec<PaneSchema>)
    ensures
        panes_view(r@) == panes_view(panes@),
{
    let mut out: Vec<PaneSchema> = Vec::new();
    let mut i: usize = 0;
    while i < panes.len()
        invariant
            i <= panes@.len(),
            out@.len() == i,
            forall|j: int| 0 <= j < i ==> #[trigger] out@[j]@ == panes@[j]@,
        decreases panes@.len() - i,
    {
        out.push(panes[i].copy());
        i = i + 1;
    }
    assert(panes_view(out@) =~= panes_view(panes@));
    out
}

impl WindowSchema {
    /// A copy of this window.
    pub fn copy(&self) -> (r: WindowSchema)
        ensures
            r@ == self@,
    {
        WindowSchema {
            name: self.name.clone(),
            starting_dir: copy_opt_string(&self.starting_dir),
            set_active: self.set_active,
            panes: copy_panes(&self.panes),
        }
    }
}

impl SessionSchema {
    /// A copy of this session.
    pub fn copy(&self) -> (r: SessionSchema)
        ensures
            r@ == self@,
    {
        SessionSchema { name: self.name.clone(), starting_dir: copy_opt_string(&self.starting_dir) }
    }
}

} // verus!

verus! {

/// The configuration that is written when none exists: a session named
/// after the selected directory, an editor window that gets the focus and a
/// terminal window.
pub open spec fn default_config() -> ConfigView {
    ConfigView {
        session: SessionView {
            name: "%selected_directory_short%"@,
            starting_dir: Some("%selected_directory%"@),
        },
        windows: seq![
            WindowView {
                name: "nvim"@,
                starting_dir: None,
                set_active: Some(true),
                panes: seq![PaneView { command: Some("nvim"@), is_vertical_split: None }],
            },
            WindowView {
                name: "terminal"@,
                starting_dir: None,
                set_active: None,
                panes: seq![PaneView { command: None, is_vertical_split: None }],
            },
        ],
    }
}

impl Default for ConfigSchema {
    fn default() -> (r: Self)
        ensures
            r@ == default_config(),
    {
        let r = ConfigSchema {
            session: SessionSchema {
                name: String::from_str("%selected_directory_short%"),
                starting_dir: Some(String::from_str("%selected_directory%")),
            },
            windows: vec![
                WindowSchema {
                    name: String::from_str("nvim"),
                    starting_dir: None,
                    set_active: Some(true),
                    panes: vec![
                        PaneSchema {
                            command: Some(String::from_str("nvim")),
                            is_vertical_split: None,
                        },
                    ],
                },
                WindowSchema {
                    name: String::from_str("terminal"),
                    starting_dir: None,
                    set_active: None,
                    panes: vec![PaneSchema { command: None, is_vertical_split: None }],
                },
            ],
        };
        assert(panes_view(r.windows@[0].panes@) =~= default_config().windows[0].panes);
        assert(panes_view(r.windows@[1].panes@) =~= default_config().windows[1].panes);
        assert(windows_view(r.windows@) =~= default_config().windows);
        r
    }
}

} // verus!
