//! Reading what tmux reports.
use crate::text::{lines, lines_of, parse_digits, parsed_digits, strings_view};
use vstd::prelude::*;

verus! {

/// A window as `tmux list-windows` reports it.
pub struct TmuxWindow {
    pub name: String,
    /// The window is the current one (`*`).
    pub active: bool,
    /// The window was the current one before (`-`).
    pub last: bool,
    pub panes: usize,
}

/// A session and its windows.
pub struct TmuxSession {
    pub name: String,
    pub windows: Vec<TmuxWindow>,
}

/// Why tmux could not be asked.
pub enum TmuxQueryError {
    UnknownError(String),
}

/// A `TmuxQueryError` as plain values.
pub enum QueryFailure {
    UnknownError(Seq<char>),
}

impl View for TmuxQueryError {
    type V = QueryFailure;

    open spec fn view(&self) -> QueryFailure {
        match self {
            TmuxQueryError::UnknownError(s) => QueryFailure::UnknownError(s@),
        }
    }
}

impl TmuxQueryError {
    /// The text the error is shown with.
    pub fn message(&self) -> (r: String)
        ensures
            r@ == match self {
                TmuxQueryError::UnknownError(s) => "Unknown Error: "@ + s@,
            },
    {
        match self {
            TmuxQueryError::UnknownError(s) => String::from_str("Unknown Error: ").concat(
                s.as_str(),
            ),
        }
    }
}

/// A `TmuxWindow` as plain values.
pub struct WindowInfo {
    pub name: Seq<char>,
    pub active: bool,
    pub last: bool,
    pub panes: nat,
}

impl View for TmuxWindow {
    type V = WindowInfo;

    open spec fn view(&self) -> WindowInfo {
        WindowInfo { name: self.name@, active: self.active, last: self.last, panes: self.panes as nat }
    }
}

/// Whether the session exists, from the exit code of `tmux has-session`
/// (or the text of the error that running it gave): it exists when the code
/// is 0.
pub fn session_exists(status: Result<i32, String>) -> (r: Result<bool, TmuxQueryError>)
    ensures
        match status {
            Ok(code) => r == Ok::<bool, TmuxQueryError>(code == 0),
            Err(m) => r matches Err(TmuxQueryError::UnknownError(e)) && e@ == m@,
        },
{
    match status {
        Ok(code) => Ok(code == 0),
        Err(m) => Err(TmuxQueryError::UnknownError(m)),
    }
}

#[verifier::external_type_specification]
#[verifier::external_body]
pub struct ExRegex(regex::Regex);

#[verifier::external_type_specification]
#[verifier::external_body]
pub struct ExRegexError(regex::Error);

/// Whether `regex::Regex::new` accepts the pattern.
pub uninterp spec fn regex_accepts(pattern: Seq<char>) -> bool;

/// The groups of the leftmost match of `pattern` in `haystack`, as
/// `regex::Regex::captures` finds them: `None` when there is no match, else
/// the text of each group in order, group 0 being the whole match and
/// `None` standing for a group that took no part.
pub uninterp spec fn regex_captures(pattern: Seq<char>, haystack: Seq<char>) -> Option<
    Seq<Option<Seq<char>>>,
>;

/// `regex::Regex::new`: compiles `pattern`; it fails exactly on the
/// patterns that the crate refuses.
#[verifier::external_body]
fn regex_new(pattern: &str) -> (r: Result<regex::Regex, regex::Error>)
    ensures
        r is Ok == regex_accepts(pattern@),
{
    regex::Regex::new(pattern)
}

/// A compiled pattern together with the text it was compiled from.
pub struct Pattern {
    source: String,
    compiled: regex::Regex,
}

impl View for Pattern {
    type V = Seq<char>;

    closed spec fn view(&self) -> Seq<char> {
        self.source@
    }
}

impl Pattern {
    /// Compiles `source`; `None` when the regex crate refuses it.
    pub fn new(source: &str) -> (r: Option<Pattern>)
        ensures
            r is Some == regex_accepts(source@),
            r matches Some(p) ==> p@ == source@,
    {
        match regex_new(source) {
            Ok(compiled) => Some(Pattern { source: source.to_owned(), compiled }),
            Err(_) => None,
        }
    }
}

/// `regex::Regex::captures` on the compiled pattern, each group turned
/// into its text: the result is the named `regex_captures` of the pattern's
/// text and the haystack.
#[verifier::external_body]
fn captures(p: &Pattern, haystack: &str) -> (r: Option<Vec<Option<String>>>)
    ensures
        r.deep_view() == regex_captures(p@, haystack@),
{
    p.compiled.captures(haystack).map(
        |c| c.iter().map(|m| m.map(|m| m.as_str().to_string())).collect(),
    )
}

/// The line format of `tmux list-windows`: index, name, marker and pane
/// count, as in `2: fish* (1 panes) [254x66] ...`.
pub open spec fn window_line_pattern() -> Seq<char> {
    "(?P<num>\\d): (?P<name>\\w+)(?P<indicator>\\W?)\\s\\((?P<panes>\\d+) panes\\)"@
}

/// The message for a line that does not have the window format.
pub open spec fn unparsable_line() -> Seq<char> {
    "Could not parse line"@
}

/// The message for a pane count that is not a `usize`.
pub open spec fn unparsable_panes() -> Seq<char> {
    "Could not parse pane count"@
}

/// The message for a window pattern that the regex crate refuses.
pub open spec fn unusable_pattern() -> Seq<char> {
    "Could not compile the window pattern"@
}

/// The window that the groups of a matched line describe: group 2 is the
/// name, group 3 the marker (`*` current, `-` previous), group 4 the pane
/// count.
pub open spec fn window_from_groups(groups: Option<Seq<Option<Seq<char>>>>) -> Result<
    WindowInfo,
    QueryFailure,
> {
    match groups {
        None => Err(QueryFailure::UnknownError(unparsable_line())),
        Some(g) => if g.len() < 5 || g[2] is None || g[4] is None {
            Err(QueryFailure::UnknownError(unparsable_line()))
        } else {
            let indicator = match g[3] {
                Some(t) => t,
                None => " "@,
            };
            match parsed_digits(g[4]->0) {
                None => Err(QueryFailure::UnknownError(unparsable_panes())),
                Some(n) => Ok(
                    WindowInfo {
                        name: g[2]->0,
                        active: indicator == "*"@,
                        last: indicator == "-"@,
                        panes: n,
                    },
                ),
            }
        },
    }
}

/// A window result as plain values.
pub open spec fn window_outcome_view(r: Result<TmuxWindow, TmuxQueryError>) -> Result<
    WindowInfo,
    QueryFailure,
> {
    match r {
        Ok(w) => Ok(w@),
        Err(e) => Err(e@),
    }
}

/// The window that the groups of a matched `list-windows` line describe.
pub fn window_from_captures(groups: Option<Vec<Option<String>>>) -> (r: Result<
    TmuxWindow,
    TmuxQueryError,
>)
    ensures
        window_outcome_view(r) == window_from_groups(groups.deep_view()),
{
    let g = match groups {
        Some(g) => g,
        None => {
            return Err(TmuxQueryError::UnknownError(String::from_str("Could not parse line")));
        },
    };
    if g.len() < 5 {
        return Err(TmuxQueryError::UnknownError(String::from_str("Could not parse line")));
    }
    let name = match &g[2] {
        Some(n) => n.clone(),
        None => {
            return Err(TmuxQueryError::UnknownError(String::from_str("Could not parse line")));
        },
    };
    let count = match &g[4] {
        Some(c) => c,
        None => {
            return Err(TmuxQueryError::UnknownError(String::from_str("Could not parse line")));
        },
    };
    let space = String::from_str(" ");
    let indicator = match &g[3] {
        Some(t) => t,
        None => &space,
    };
    let star = String::from_str("*");
    let dash = String::from_str("-");
    let active = *indicator == star;
    let last = *indicator == dash;
    match parse_digits(count.as_str()) {
        Some(panes) => Ok(TmuxWindow { name, active, last, panes }),
        None => Err(TmuxQueryError::UnknownError(String::from_str("Could not parse pane count"))),
    }
}

} // verus!

verus! {

/// The windows that the lines describe, in order; the first line that does
/// not describe a window gives the error.
pub open spec fn windows_from_lines(ls: Seq<Seq<char>>) -> Result<Seq<WindowInfo>, QueryFailure>
    decreases ls.len(),
{
    if ls.len() == 0 {
        Ok(Seq::empty())
    } else {
        match windows_from_lines(ls.drop_last()) {
            Err(e) => Err(e),
            Ok(init) => match window_from_groups(regex_captures(window_line_pattern(), ls.last())) {
                Err(e) => Err(e),
                Ok(w) => Ok(init.push(w)),
            },
        }
    }
}

/// What the output of `tmux list-windows` reports: one window per line.
pub open spec fn windows_reported(output: Seq<char>) -> Result<Seq<WindowInfo>, QueryFailure> {
    if lines_of(output).len() == 0 {
        Ok(Seq::empty())
    } else if !regex_accepts(window_line_pattern()) {
        Err(QueryFailure::UnknownError(unusable_pattern()))
    } else {
        windows_from_lines(lines_of(output))
    }
}

/// The views of a list of windows.
pub open spec fn window_infos(ws: Seq<TmuxWindow>) -> Seq<WindowInfo> {
    ws.map_values(|w: TmuxWindow| w@)
}

proof fn lemma_line_failure_persists(ls: Seq<Seq<char>>, i: int, e: QueryFailure, k: int)
    requires
        0 <= i < ls.len(),
        i < k <= ls.len(),
        windows_from_lines(ls.take(i)) is Ok,
        window_from_groups(regex_captures(window_line_pattern(), ls[i])) == Err::<
            WindowInfo,
            QueryFailure,
        >(e),
    ensures
        windows_from_lines(ls.take(k)) == Err::<Seq<WindowInfo>, QueryFailure>(e),
    decreases k - i,
{
    assert(ls.take(k).drop_last() =~= ls.take(k - 1));
    if k == i + 1 {
        assert(ls.take(k).last() == ls[i]);
    } else {
        lemma_line_failure_persists(ls, i, e, k - 1);
    }
}

/// Reads the output of `tmux list-windows` into its windows.
pub fn windows_from_output(output: &str) -> (r: Result<Vec<TmuxWindow>, TmuxQueryError>)
    ensures
        match r {
            Ok(ws) => windows_reported(output@) == Ok::<Seq<WindowInfo>, QueryFailure>(
                window_infos(ws@),
            ),
            Err(e) => windows_reported(output@) == Err::<Seq<WindowInfo>, QueryFailure>(e@),
        },
{
    let ls = lines(output);
    let ghost lv = strings_view(ls@);
    let mut windows: Vec<TmuxWindow> = Vec::new();
    if ls.len() == 0 {
        assert(window_infos(windows@) =~= Seq::<WindowInfo>::empty());
        return Ok(windows);
    }
    let pattern = match Pattern::new(
        "(?P<num>\\d): (?P<name>\\w+)(?P<indicator>\\W?)\\s\\((?P<panes>\\d+) panes\\)",
    ) {
        Some(p) => p,
        None => {
            return Err(
                TmuxQueryError::UnknownError(String::from_str("Could not compile the window pattern")),
            );
        },
    };
    let mut i: usize = 0;
    assert(lv.take(0) =~= Seq::<Seq<char>>::empty());
    assert(window_infos(windows@) =~= Seq::<WindowInfo>::empty());
    while i < ls.len()
        invariant
            lv == strings_view(ls@),
            lv == lines_of(output@),
            lv.len() == ls@.len(),
            lv.len() > 0,
            regex_accepts(window_line_pattern()),
            pattern@ == window_line_pattern(),
            i <= ls@.len(),
            windows_from_lines(lv.take(i as int)) == Ok::<Seq<WindowInfo>, QueryFailure>(
                window_infos(windows@),
            ),
        decreases ls@.len() - i,
    {
        let groups = captures(&pattern, ls[i].as_str());
        assert(lv[i as int] == ls@[i as int]@);
        match window_from_captures(groups) {
            Ok(w) => {
                proof {
                    assert(lv.take(i + 1).drop_last() =~= lv.take(i as int));
                    assert(lv.take(i + 1).last() == lv[i as int]);
                }
                let ghost prev = windows@;
                let ghost wview = w@;
                windows.push(w);
                proof {
                    assert(window_infos(windows@) =~= window_infos(prev).push(wview));
                }
            },
            Err(e) => {
                proof {
                    lemma_line_failure_persists(lv, i as int, e@, lv.len() as int);
                    assert(lv.take(lv.len() as int) =~= lv);
                }
                return Err(e);
            },
        }
        i = i + 1;
    }
    assert(lv.take(i as int) =~= lv);
    Ok(windows)
}

/// A reported window is never both the current and the previous one.
pub proof fn lemma_window_marks_exclusive(groups: Option<Seq<Option<Seq<char>>>>)
    ensures
        window_from_groups(groups) matches Ok(w) ==> !(w.active && w.last),
{
    reveal_strlit("*");
    reveal_strlit("-");
    assert("*"@[0] != "-"@[0]);
}

} // verus!
