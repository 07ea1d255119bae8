//! Expansion of the `%placeholder%` markers in a configuration.
use crate::config::schema::{
    copy_panes, windows_view, ConfigSchema, ConfigView,
    SessionSchema, SessionView, WindowSchema, WindowView,
};
use crate::text::{
    chars_of, ends_with_char, last_segment, last_segment_of, lemma_last_segment_after_last_slash,
    lemma_replace_whole, replace_all,
    replaced, same_text,
    str_ends_with_char,
};
use crate::Args;
use vstd::prelude::*;
use vstd::utf8::encode_utf8;

verus! {

/// A `%...%` marker found in a string: its text and where it stands
/// (byte offsets into the string, `end` exclusive).
pub struct Capture {
    pub cap: String,
    pub start: usize,
    pub end: usize,
}

/// Why a placeholder could not be expanded.
pub enum ConfigPostProcessError {
    /// The string is not a placeholder that can be expanded here.
    InvalidReplacement(String),
    /// The environment could not give the value.
    UnknownError(String),
}

/// A `ConfigPostProcessError` as plain values.
pub enum PostProcessFailure {
    InvalidReplacement(Seq<char>),
    UnknownError(Seq<char>),
}

impl View for ConfigPostProcessError {
    type V = PostProcessFailure;

    open spec fn view(&self) -> PostProcessFailure {
        match self {
            ConfigPostProcessError::InvalidReplacement(s) => PostProcessFailure::InvalidReplacement(s@),
            ConfigPostProcessError::UnknownError(s) => PostProcessFailure::UnknownError(s@),
        }
    }
}

impl ConfigPostProcessError {
    /// The text the error is shown with.
    pub fn message(&self) -> (r: String)
        ensures
            r@ == match self {
                ConfigPostProcessError::InvalidReplacement(s) => "Invalid replacement: "@ + s@,
                ConfigPostProcessError::UnknownError(s) => "Unknown Error: "@ + s@,
            },
    {
        match self {
            ConfigPostProcessError::InvalidReplacement(s) => String::from_str(
                "Invalid replacement: ",
            ).concat(s.as_str()),
            ConfigPostProcessError::UnknownError(s) => String::from_str("Unknown Error: ").concat(
                s.as_str(),
            ),
        }
    }
}

/// A string result as plain values.
pub open spec fn outcome_view(r: Result<String, ConfigPostProcessError>) -> Result<
    Seq<char>,
    PostProcessFailure,
> {
    match r {
        Ok(s) => Ok(s@),
        Err(e) => Err(e@),
    }
}

/// The current directory as the caller read it: the path, or the message of
/// the error that reading it gave.
pub open spec fn dir_view(d: &Result<String, String>) -> Result<Seq<char>, Seq<char>> {
    match d {
        Ok(s) => Ok(s@),
        Err(m) => Err(m@),
    }
}

/// The byte offset of the character at index `i` of `s` in UTF-8.
pub open spec fn byte_offset(s: Seq<char>, i: int) -> int {
    encode_utf8(s.take(i)).len() as int
}

/// The first index at or after `from` that holds a `%`.
pub open spec fn next_percent(s: Seq<char>, from: int) -> Option<int>
    decreases s.len() - from,
{
    if from < 0 || from >= s.len() {
        None
    } else if s[from] == '%' {
        Some(from)
    } else {
        next_percent(s, from + 1)
    }
}

/// Where a marker that starts at `i` ends (exclusive): a `%`, at least one
/// character that is not `%`, then the next `%`.
pub open spec fn marker_end(s: Seq<char>, i: int) -> Option<int> {
    if 0 <= i && i + 1 < s.len() && s[i] == '%' && s[i + 1] != '%' {
        match next_percent(s, i + 1) {
            Some(k) => Some(k + 1),
            None => None,
        }
    } else {
        None
    }
}

/// The leftmost marker that starts at or after `from`.
pub open spec fn first_marker_from(s: Seq<char>, from: int) -> Option<(int, int)>
    decreases s.len() - from,
{
    if from < 0 || from >= s.len() {
        None
    } else {
        match marker_end(s, from) {
            Some(e) => Some((from, e)),
            None => first_marker_from(s, from + 1),
        }
    }
}

/// The leftmost marker of `s`, as the pattern `(%[^%]+%)` finds it.
pub open spec fn first_marker(s: Seq<char>) -> Option<(int, int)> {
    first_marker_from(s, 0)
}

/// The position of the first `%` at or after `from`.
fn find_percent(sv: &Vec<char>, from: usize) -> (r: Option<usize>)
    ensures
        match r {
            Some(k) => next_percent(sv@, from as int) == Some(k as int) && from <= k < sv@.len(),
            None => next_percent(sv@, from as int) is None,
        },
{
    let mut k = from;
    while k < sv.len() && sv[k] != '%'
        invariant
            from <= k,
            k <= sv@.len() || k == from,
            next_percent(sv@, from as int) == next_percent(sv@, k as int),
        decreases sv@.len() - k,
    {
        k = k + 1;
    }
    if k < sv.len() {
        Some(k)
    } else {
        None
    }
}

/// Finds the leftmost `%...%` marker of `s`: a list with the one marker, or
/// `None` when `s` holds none.
pub fn find(s: &str) -> (r: Option<Vec<Capture>>)
    ensures
        match first_marker(s@) {
            None => r is None,
            Some((a, b)) => r matches Some(v) && v@.len() == 1 && v@[0].start == byte_offset(s@, a)
                as usize && v@[0].end == byte_offset(s@, b) as usize && v@[0].cap@ == s@.subrange(a, b),
        },
{
    let sv = chars_of(s);
    let n = sv.len();
    let mut i: usize = 0;
    while i < n
        invariant
            sv@ == s@,
            n == s@.len(),
            i <= n,
            first_marker(s@) == first_marker_from(s@, i as int),
        decreases n - i,
    {
        if i + 1 < n && sv[i] == '%' && sv[i + 1] != '%' {
            match find_percent(&sv, i + 1) {
                Some(k) => {
                    let cap = s.substring_char(i, k + 1).to_owned();
                    let head = s.substring_char(0, i);
                    let upto = s.substring_char(0, k + 1);
                    assert(head@ =~= s@.take(i as int));
                    assert(upto@ =~= s@.take(k + 1));
                    let start = head.len();
                    let end = upto.len();
                    let mut v: Vec<Capture> = Vec::new();
                    v.push(Capture { cap, start, end });
                    return Some(v);
                },
                None => {},
            }
        }
        i = i + 1;
    }
    None
}

} // verus!

verus! {

/// The placeholder for the current directory.
pub open spec fn current_directory_key() -> Seq<char> {
    "%current_directory%"@
}

/// The placeholder for the last segment of the current directory.
pub open spec fn current_directory_short_key() -> Seq<char> {
    "%current_directory_short%"@
}

/// The placeholder for the selected path.
pub open spec fn selected_directory_key() -> Seq<char> {
    "%selected_directory%"@
}

/// The placeholder for the last segment of the selected path.
pub open spec fn selected_directory_short_key() -> Seq<char> {
    "%selected_directory_short%"@
}

/// The last segment of the selected path: the one before the trailing `/`
/// when it ends with one.
pub open spec fn selected_short(c: Seq<char>) -> Seq<char> {
    if ends_with_char(c, '/') {
        last_segment(c.drop_last())
    } else {
        last_segment(c)
    }
}

/// The value that the whole string `s` stands for, when it is a placeholder:
/// `selected` is the path selected on the command line, `cwd` the current
/// directory (or the message of the error that reading it gave).
pub open spec fn replacement(
    s: Seq<char>,
    selected: Option<Seq<char>>,
    cwd: Result<Seq<char>, Seq<char>>,
) -> Result<Seq<char>, PostProcessFailure> {
    if s == current_directory_key() {
        match cwd {
            Ok(d) => Ok(d),
            Err(m) => Err(PostProcessFailure::UnknownError(m)),
        }
    } else if s == current_directory_short_key() {
        match cwd {
            Ok(d) => Ok(last_segment(d)),
            Err(m) => Err(PostProcessFailure::UnknownError(m)),
        }
    } else if s == selected_directory_key() {
        match selected {
            Some(c) => Ok(c),
            None => Err(PostProcessFailure::InvalidReplacement(s)),
        }
    } else if s == selected_directory_short_key() {
        match selected {
            Some(c) => Ok(selected_short(c)),
            None => Err(PostProcessFailure::InvalidReplacement(s)),
        }
    } else {
        Err(PostProcessFailure::InvalidReplacement(s))
    }
}

/// What `replace` gives for the string `s` and the marker text `cap`.
pub open spec fn replaced_marker(
    s: Seq<char>,
    cap: Seq<char>,
    selected: Option<Seq<char>>,
    cwd: Result<Seq<char>, Seq<char>>,
) -> Result<Seq<char>, PostProcessFailure> {
    if s == selected_directory_key() {
        match replacement(s, selected, cwd) {
            Ok(x) => Ok(replaced(s, cap, x)),
            Err(_) => replacement(current_directory_key(), selected, cwd),
        }
    } else {
        match replacement(s, selected, cwd) {
            Ok(x) => Ok(replaced(s, cap, x)),
            Err(e) => Err(e),
        }
    }
}

/// What `process` gives for `s`: `s` itself when it holds no marker, else
/// the expansion of its leftmost marker.
pub open spec fn processed(
    s: Seq<char>,
    selected: Option<Seq<char>>,
    cwd: Result<Seq<char>, Seq<char>>,
) -> Result<Seq<char>, PostProcessFailure> {
    match first_marker(s) {
        None => Ok(s),
        Some((a, b)) => replaced_marker(s, s.subrange(a, b), selected, cwd),
    }
}

/// The value of the placeholder `s`, or why there is none.
pub fn get_replacement(s: &str, args: &Args, cwd: &Result<String, String>) -> (r: Result<
    String,
    ConfigPostProcessError,
>)
    ensures
        outcome_view(r) == replacement(s@, args.config.deep_view(), dir_view(cwd)),
{
    if same_text(s, "%current_directory%") {
        match cwd {
            Ok(d) => Ok(d.clone()),
            Err(m) => Err(ConfigPostProcessError::UnknownError(m.clone())),
        }
    } else if same_text(s, "%current_directory_short%") {
        match cwd {
            Ok(d) => Ok(last_segment_of(d.as_str())),
            Err(m) => Err(ConfigPostProcessError::UnknownError(m.clone())),
        }
    } else if same_text(s, "%selected_directory%") {
        match &args.config {
            Some(c) => Ok(c.clone()),
            None => Err(ConfigPostProcessError::InvalidReplacement(s.to_owned())),
        }
    } else if same_text(s, "%selected_directory_short%") {
        match &args.config {
            Some(c) => {
                if str_ends_with_char(c.as_str(), '/') {
                    let n = c.as_str().unicode_len();
                    let head = c.as_str().substring_char(0, n - 1);
                    assert(head@ =~= c@.drop_last());
                    Ok(last_segment_of(head))
                } else {
                    Ok(last_segment_of(c.as_str()))
                }
            },
            None => Err(ConfigPostProcessError::InvalidReplacement(s.to_owned())),
        }
    } else {
        Err(ConfigPostProcessError::InvalidReplacement(s.to_owned()))
    }
}

/// Replaces the marker `c` in `s` by the value that `s` stands for.  The
/// value is looked up for the whole of `s`, so only a string that is exactly
/// a placeholder is expanded; `%selected_directory%` falls back to the
/// current directory when no path was selected.
pub fn replace(s: &str, c: &Capture, args: &Args, cwd: &Result<String, String>) -> (r: Result<
    String,
    ConfigPostProcessError,
>)
    ensures
        outcome_view(r) == replaced_marker(s@, c.cap@, args.config.deep_view(), dir_view(cwd)),
{
    let repl = if same_text(s, "%selected_directory%") {
        match get_replacement(s, args, cwd) {
            Ok(x) => x,
            Err(_) => {
                return get_replacement("%current_directory%", args, cwd);
            },
        }
    } else {
        match get_replacement(s, args, cwd) {
            Ok(x) => x,
            Err(e) => {
                return Err(e);
            },
        }
    };
    Ok(replace_all(s, c.cap.as_str(), repl.as_str()))
}

/// Expands the leftmost marker of `s`; a string without one is returned as
/// it is.
pub fn process(s: &str, args: &Args, cwd: &Result<String, String>) -> (r: Result<
    String,
    ConfigPostProcessError,
>)
    ensures
        outcome_view(r) == processed(s@, args.config.deep_view(), dir_view(cwd)),
{
    match find(s) {
        Some(c) => {
            let buf = s.to_owned();
            replace(buf.as_str(), &c[0], args, cwd)
        },
        None => Ok(s.to_owned()),
    }
}

} // verus!

verus! {

/// An optional string with its marker expanded.
pub open spec fn processed_opt(
    o: Option<Seq<char>>,
    selected: Option<Seq<char>>,
    cwd: Result<Seq<char>, Seq<char>>,
) -> Result<Option<Seq<char>>, PostProcessFailure> {
    match o {
        None => Ok(None),
        Some(d) => match processed(d, selected, cwd) {
            Ok(x) => Ok(Some(x)),
            Err(e) => Err(e),
        },
    }
}

/// A window with the markers of its name and starting directory expanded,
/// the name first.
pub open spec fn expanded_window(
    w: WindowView,
    selected: Option<Seq<char>>,
    cwd: Result<Seq<char>, Seq<char>>,
) -> Result<WindowView, PostProcessFailure> {
    match processed(w.name, selected, cwd) {
        Err(e) => Err(e),
        Ok(name) => match processed_opt(w.starting_dir, selected, cwd) {
            Err(e) => Err(e),
            Ok(d) => Ok(
                WindowView { name, starting_dir: d, set_active: w.set_active, panes: w.panes },
            ),
        },
    }
}

/// The windows expanded in order; the first window that fails gives the
/// error.
pub open spec fn expanded_windows(
    ws: Seq<WindowView>,
    selected: Option<Seq<char>>,
    cwd: Result<Seq<char>, Seq<char>>,
) -> Result<Seq<WindowView>, PostProcessFailure>
    decreases ws.len(),
{
    if ws.len() == 0 {
        Ok(Seq::empty())
    } else {
        match expanded_windows(ws.drop_last(), selected, cwd) {
            Err(e) => Err(e),
            Ok(init) => match expanded_window(ws.last(), selected, cwd) {
                Err(e) => Err(e),
                Ok(w) => Ok(init.push(w)),
            },
        }
    }
}

/// The session with its markers expanded, the name first.
pub open spec fn expanded_session(
    s: SessionView,
    selected: Option<Seq<char>>,
    cwd: Result<Seq<char>, Seq<char>>,
) -> Result<SessionView, PostProcessFailure> {
    match processed(s.name, selected, cwd) {
        Err(e) => Err(e),
        Ok(name) => match processed_opt(s.starting_dir, selected, cwd) {
            Err(e) => Err(e),
            Ok(d) => Ok(SessionView { name, starting_dir: d }),
        },
    }
}

/// What `extrapolate` gives: the session expanded, then each window in order.
pub open spec fn extrapolated(
    c: ConfigView,
    selected: Option<Seq<char>>,
    cwd: Result<Seq<char>, Seq<char>>,
) -> Result<ConfigView, PostProcessFailure> {
    match expanded_session(c.session, selected, cwd) {
        Err(e) => Err(e),
        Ok(session) => match expanded_windows(c.windows, selected, cwd) {
            Err(e) => Err(e),
            Ok(windows) => Ok(ConfigView { session, windows }),
        },
    }
}

/// A configuration result as plain values.
pub open spec fn config_outcome_view(r: Result<ConfigSchema, ConfigPostProcessError>) -> Result<
    ConfigView,
    PostProcessFailure,
> {
    match r {
        Ok(c) => Ok(c@),
        Err(e) => Err(e@),
    }
}

/// Expands the placeholders of a configuration whose every name and
/// starting directory can be expanded (see `try_extrapolate`, which tells
/// whether that is so): each that is exactly a placeholder gets its value,
/// the panes and `set_active` are kept.
pub fn extrapolate(config: ConfigSchema, args: Args, cwd: Result<String, String>) -> (r:
    ConfigSchema)
    requires
        extrapolated(config@, args.config.deep_view(), dir_view(&cwd)) is Ok,
    ensures
        extrapolated(config@, args.config.deep_view(), dir_view(&cwd)) == Ok::<
            ConfigView,
            PostProcessFailure,
        >(r@),
{
    match try_extrapolate(config, args, cwd) {
        Ok(c) => c,
        Err(_) => {
            proof {
                assert(false);
            }
            ConfigSchema::default()
        },
    }
}

/// Once a window fails, every longer prefix of the list fails with the same
/// error.
proof fn lemma_windows_failure_persists(
    ws: Seq<WindowView>,
    i: int,
    selected: Option<Seq<char>>,
    cwd: Result<Seq<char>, Seq<char>>,
    e: PostProcessFailure,
    k: int,
)
    requires
        0 <= i < ws.len(),
        i < k <= ws.len(),
        expanded_windows(ws.take(i), selected, cwd) is Ok,
        expanded_window(ws[i], selected, cwd) == Err::<WindowView, PostProcessFailure>(e),
    ensures
        expanded_windows(ws.take(k), selected, cwd) == Err::<Seq<WindowView>, PostProcessFailure>(e),
    decreases k - i,
{
    assert(ws.take(k).drop_last() =~= ws.take(k - 1));
    if k == i + 1 {
        assert(ws.take(k).last() == ws[i]);
    } else {
        lemma_windows_failure_persists(ws, i, selected, cwd, e, k - 1);
    }
}

/// An optional string with its marker expanded.
fn process_opt(o: &Option<String>, args: &Args, cwd: &Result<String, String>) -> (r: Result<
    Option<String>,
    ConfigPostProcessError,
>)
    ensures
        match r {
            Ok(x) => processed_opt(o.deep_view(), args.config.deep_view(), dir_view(cwd)) == Ok::<
                Option<Seq<char>>,
                PostProcessFailure,
            >(x.deep_view()),
            Err(e) => processed_opt(o.deep_view(), args.config.deep_view(), dir_view(cwd)) == Err::<
                Option<Seq<char>>,
                PostProcessFailure,
            >(e@),
        },
{
    match o {
        None => Ok(None),
        Some(d) => match process(d.as_str(), args, cwd) {
            Ok(x) => Ok(Some(x)),
            Err(e) => Err(e),
        },
    }
}

/// A window with its markers expanded.
fn expand_window(w: &WindowSchema, args: &Args, cwd: &Result<String, String>) -> (r: Result<
    WindowSchema,
    ConfigPostProcessError,
>)
    ensures
        match r {
            Ok(x) => expanded_window(w@, args.config.deep_view(), dir_view(cwd)) == Ok::<
                WindowView,
                PostProcessFailure,
            >(x@),
            Err(e) => expanded_window(w@, args.config.deep_view(), dir_view(cwd)) == Err::<
                WindowView,
                PostProcessFailure,
            >(e@),
        },
{
    let name = match process(w.name.as_str(), args, cwd) {
        Ok(x) => x,
        Err(e) => {
            return Err(e);
        },
    };
    let starting_dir = match process_opt(&w.starting_dir, args, cwd) {
        Ok(x) => x,
        Err(e) => {
            return Err(e);
        },
    };
    Ok(WindowSchema { name, starting_dir, set_active: w.set_active, panes: copy_panes(&w.panes) })
}

/// Expands the placeholders of the session and of every window: each name
/// and starting directory that is exactly a placeholder gets its value;
/// the panes and `set_active` are kept.  The first string that cannot be
/// expanded gives the error.  `cwd` is the current directory as the caller
/// read it, or the message of the error that reading it gave.
pub fn try_extrapolate(config: ConfigSchema, args: Args, cwd: Result<String, String>) -> (r: Result<
    ConfigSchema,
    ConfigPostProcessError,
>)
    ensures
        config_outcome_view(r) == extrapolated(config@, args.config.deep_view(), dir_view(&cwd)),
{
    let ghost sel = args.config.deep_view();
    let ghost dir = dir_view(&cwd);
    let name = match process(config.session.name.as_str(), &args, &cwd) {
        Ok(x) => x,
        Err(e) => {
            return Err(e);
        },
    };
    let starting_dir = match process_opt(&config.session.starting_dir, &args, &cwd) {
        Ok(x) => x,
        Err(e) => {
            return Err(e);
        },
    };
    let session = SessionSchema { name, starting_dir };
    let ghost wv = windows_view(config.windows@);
    let mut windows: Vec<WindowSchema> = Vec::new();
    let mut i: usize = 0;
    assert(wv.take(0) =~= Seq::<WindowView>::empty());
    assert(windows_view(windows@) =~= Seq::<WindowView>::empty());
    assert(expanded_session(config@.session, sel, dir) == Ok::<SessionView, PostProcessFailure>(
        session@,
    ));
    while i < config.windows.len()
        invariant
            expanded_session(config@.session, sel, dir) == Ok::<SessionView, PostProcessFailure>(
                session@,
            ),
            wv == windows_view(config.windows@),
            wv.len() == config.windows@.len(),
            i <= config.windows@.len(),
            sel == args.config.deep_view(),
            dir == dir_view(&cwd),
            expanded_windows(wv.take(i as int), sel, dir) == Ok::<
                Seq<WindowView>,
                PostProcessFailure,
            >(windows_view(windows@)),
        decreases config.windows@.len() - i,
    {
        match expand_window(&config.windows[i], &args, &cwd) {
            Ok(w) => {
                proof {
                    assert(wv.take(i + 1).drop_last() =~= wv.take(i as int));
                    assert(wv.take(i + 1).last() == config.windows@[i as int]@);
                }
                let ghost prev = windows@;
                let ghost wview = w@;
                windows.push(w);
                proof {
                    assert(windows_view(windows@) =~= windows_view(prev).push(wview));
                }
            },
            Err(e) => {
                proof {
                    assert(wv[i as int] == config.windows@[i as int]@);
                    lemma_windows_failure_persists(wv, i as int, sel, dir, e@, wv.len() as int);
                    assert(wv.take(wv.len() as int) =~= wv);
                }
                return Err(e);
            },
        }
        i = i + 1;
    }
    assert(wv.take(i as int) =~= wv);
    Ok(ConfigSchema { session, windows })
}

} // verus!

verus! {

/// The `%` found by `next_percent` is the first one from `from` on.
proof fn lemma_next_percent(s: Seq<char>, from: int)
    requires
        0 <= from,
    ensures
        match next_percent(s, from) {
            Some(k) => from <= k < s.len() && s[k] == '%' && forall|j: int|
                from <= j < k ==> s[j] != '%',
            None => forall|j: int| from <= j < s.len() ==> s[j] != '%',
        },
    decreases s.len() - from,
{
    if from < s.len() && s[from] != '%' {
        lemma_next_percent(s, from + 1);
    }
}

/// No marker starts anywhere in `from..to`.
pub open spec fn no_marker_between(s: Seq<char>, from: int, to: int) -> bool {
    forall|j: int| from <= j < to ==> #[trigger] marker_end(s, j) is None
}

proof fn lemma_first_marker_from(s: Seq<char>, from: int)
    requires
        0 <= from,
    ensures
        match first_marker_from(s, from) {
            Some((a, b)) => from <= a && marker_end(s, a) == Some(b) && no_marker_between(s, from, a),
            None => no_marker_between(s, from, s.len() as int),
        },
    decreases s.len() - from,
{
    if from < s.len() && marker_end(s, from) is None {
        lemma_first_marker_from(s, from + 1);
    }
    if from >= s.len() {
        assert forall|j: int| from <= j < s.len() implies #[trigger] marker_end(s, j) is None by {}
    }
}

/// The marker that `find` reports is the leftmost stretch `%`, one or more
/// characters other than `%`, `%`; when it reports none, no such stretch
/// occurs in the string.
pub proof fn lemma_first_marker_shape(s: Seq<char>)
    ensures
        match first_marker(s) {
            Some((a, b)) => {
                &&& 0 <= a
                &&& a + 3 <= b <= s.len()
                &&& s[a] == '%'
                &&& s[b - 1] == '%'
                &&& forall|j: int| a < j < b - 1 ==> s[j] != '%'
                &&& no_marker_between(s, 0, a)
            },
            None => forall|i: int, k: int|
                0 <= i && i + 1 < k < s.len() && s[i] == '%' && s[k] == '%' ==> exists|j: int|
                    i < j < k && s[j] == '%',
        },
{
    lemma_first_marker_from(s, 0);
    match first_marker(s) {
        Some((a, b)) => {
            lemma_next_percent(s, a + 1);
        },
        None => {
            assert forall|i: int, k: int|
                0 <= i && i + 1 < k < s.len() && s[i] == '%' && s[k] == '%' implies exists|j: int|
                i < j < k && s[j] == '%' by {
                assert(marker_end(s, i) is None);
                lemma_next_percent(s, i + 1);
                if s[i + 1] == '%' {
                    assert(i < i + 1 < k && s[i + 1] == '%');
                } else {
                    let m = next_percent(s, i + 1)->0;
                    assert(i < m < k && s[m] == '%');
                }
            }
        },
    }
}

/// A string without a marker comes out of `process` unchanged.
pub proof fn lemma_process_without_marker(
    s: Seq<char>,
    selected: Option<Seq<char>>,
    cwd: Result<Seq<char>, Seq<char>>,
)
    requires
        first_marker(s) is None,
    ensures
        processed(s, selected, cwd) == Ok::<Seq<char>, PostProcessFailure>(s),
{
}

/// `process` only ever changes a string that is exactly one of the four
/// placeholders: any other string comes back unchanged or is refused.
pub proof fn lemma_process_changes_only_placeholders(
    s: Seq<char>,
    selected: Option<Seq<char>>,
    cwd: Result<Seq<char>, Seq<char>>,
)
    ensures
        processed(s, selected, cwd) matches Ok(t) && t != s ==> (s == current_directory_key()
            || s == current_directory_short_key() || s == selected_directory_key()
            || s == selected_directory_short_key()),
{
}

/// Expansion keeps the layout: as many windows, in the same order, with
/// the same panes and the same `set_active`.
pub proof fn lemma_extrapolate_keeps_layout(
    c: ConfigView,
    selected: Option<Seq<char>>,
    cwd: Result<Seq<char>, Seq<char>>,
)
    ensures
        extrapolated(c, selected, cwd) matches Ok(d) ==> {
            &&& d.windows.len() == c.windows.len()
            &&& forall|i: int|
                0 <= i < c.windows.len() ==> (#[trigger] d.windows[i]).panes == c.windows[i].panes
                    && d.windows[i].set_active == c.windows[i].set_active
        },
{
    if let Ok(_) = extrapolated(c, selected, cwd) {
        lemma_windows_keep_layout(c.windows, selected, cwd);
    }
}

proof fn lemma_windows_keep_layout(
    ws: Seq<WindowView>,
    selected: Option<Seq<char>>,
    cwd: Result<Seq<char>, Seq<char>>,
)
    ensures
        expanded_windows(ws, selected, cwd) matches Ok(d) ==> {
            &&& d.len() == ws.len()
            &&& forall|i: int|
                0 <= i < ws.len() ==> (#[trigger] d[i]).panes == ws[i].panes && d[i].set_active
                    == ws[i].set_active
        },
    decreases ws.len(),
{
    if ws.len() > 0 {
        lemma_windows_keep_layout(ws.drop_last(), selected, cwd);
    }
}

/// Whether no name or starting directory of the window holds a marker.
pub open spec fn window_is_plain(w: WindowView) -> bool {
    &&& first_marker(w.name) is None
    &&& w.starting_dir matches Some(d) ==> first_marker(d) is None
}

/// Whether no name or starting directory of the configuration holds a marker.
pub open spec fn config_is_plain(c: ConfigView) -> bool {
    &&& first_marker(c.session.name) is None
    &&& c.session.starting_dir matches Some(d) ==> first_marker(d) is None
    &&& forall|i: int| 0 <= i < c.windows.len() ==> window_is_plain(#[trigger] c.windows[i])
}

proof fn lemma_plain_windows(
    ws: Seq<WindowView>,
    selected: Option<Seq<char>>,
    cwd: Result<Seq<char>, Seq<char>>,
)
    requires
        forall|i: int| 0 <= i < ws.len() ==> window_is_plain(#[trigger] ws[i]),
    ensures
        expanded_windows(ws, selected, cwd) == Ok::<Seq<WindowView>, PostProcessFailure>(ws),
    decreases ws.len(),
{
    if ws.len() > 0 {
        assert forall|i: int| 0 <= i < ws.drop_last().len() implies window_is_plain(
            #[trigger] ws.drop_last()[i],
        ) by {
            assert(ws.drop_last()[i] == ws[i]);
        }
        lemma_plain_windows(ws.drop_last(), selected, cwd);
        assert(window_is_plain(ws[ws.len() - 1]));
        assert(ws.drop_last().push(ws.last()) =~= ws);
    } else {
        assert(ws =~= Seq::<WindowView>::empty());
    }
}

/// A configuration without markers is expanded to itself.
pub proof fn lemma_extrapolate_plain_config(
    c: ConfigView,
    selected: Option<Seq<char>>,
    cwd: Result<Seq<char>, Seq<char>>,
)
    requires
        config_is_plain(c),
    ensures
        extrapolated(c, selected, cwd) == Ok::<ConfigView, PostProcessFailure>(c),
{
    lemma_plain_windows(c.windows, selected, cwd);
}

} // verus!

verus! {

/// `next_percent` from `from` finds the `%` at `k` when none stands before it.
proof fn lemma_next_percent_at(s: Seq<char>, from: int, k: int)
    requires
        0 <= from <= k < s.len(),
        s[k] == '%',
        forall|j: int| from <= j < k ==> s[j] != '%',
    ensures
        next_percent(s, from) == Some(k),
    decreases k - from,
{
    if from < k {
        lemma_next_percent_at(s, from + 1, k);
    }
}

/// A string that is one marker from end to end is its own leftmost marker.
proof fn lemma_whole_marker(s: Seq<char>)
    requires
        s.len() >= 3,
        s[0] == '%',
        s[s.len() - 1] == '%',
        forall|j: int| 0 < j < s.len() - 1 ==> s[j] != '%',
    ensures
        first_marker(s) == Some((0int, s.len() as int)),
        s.subrange(0, s.len() as int) == s,
{
    lemma_next_percent_at(s, 1, s.len() - 1);
    assert(marker_end(s, 0) == Some(s.len() as int));
    assert(s.subrange(0, s.len() as int) =~= s);
}


/// `%current_directory%` expands to the current directory, whatever it is
/// and whatever path was selected.
pub proof fn lemma_current_directory_expands(selected: Option<Seq<char>>, d: Seq<char>)
    ensures
        processed("%current_directory%"@, selected, Ok(d)) == Ok::<Seq<char>, PostProcessFailure>(
            d,
        ),
{
    reveal_strlit("%current_directory%");
    let s = "%current_directory%"@;
    assert(forall|j: int| 0 < j < s.len() - 1 ==> s[j] != '%');
    lemma_whole_marker(s);
    lemma_replace_whole(s, d);
}

/// `%current_directory_short%` expands to all of the current directory
/// after its last `/`, whatever other characters that part holds.
pub proof fn lemma_current_directory_short_expands(
    selected: Option<Seq<char>>,
    p: Seq<char>,
    q: Seq<char>,
)
    requires
        forall|i: int| 0 <= i < q.len() ==> q[i] != '/',
    ensures
        processed("%current_directory_short%"@, selected, Ok(p + seq!['/'] + q)) == Ok::<
            Seq<char>,
            PostProcessFailure,
        >(q),
{
    reveal_strlit("%current_directory_short%");
    reveal_strlit("%current_directory%");
    let s = "%current_directory_short%"@;
    assert(forall|j: int| 0 < j < s.len() - 1 ==> s[j] != '%');
    assert(s != "%current_directory%"@);
    lemma_whole_marker(s);
    lemma_last_segment_after_last_slash(p, q);
    lemma_replace_whole(s, q);
}

/// `%selected_directory_short%` expands to the part of the selected path
/// after its last `/`, or, when the path ends with `/`, to the part
/// between that `/` and the one before it; other characters, such as `.`,
/// do not cut it.
pub proof fn lemma_selected_directory_short_expands(
    p: Seq<char>,
    q: Seq<char>,
    cwd: Result<Seq<char>, Seq<char>>,
)
    requires
        q.len() > 0,
        forall|i: int| 0 <= i < q.len() ==> q[i] != '/',
    ensures
        processed("%selected_directory_short%"@, Some(p + seq!['/'] + q), cwd) == Ok::<
            Seq<char>,
            PostProcessFailure,
        >(q),
        processed("%selected_directory_short%"@, Some(p + seq!['/'] + q + seq!['/']), cwd)
            == Ok::<Seq<char>, PostProcessFailure>(q),
{
    reveal_strlit("%selected_directory_short%");
    reveal_strlit("%selected_directory%");
    reveal_strlit("%current_directory_short%");
    reveal_strlit("%current_directory%");
    let s = "%selected_directory_short%"@;
    assert(forall|j: int| 0 < j < s.len() - 1 ==> s[j] != '%');
    assert(s != "%current_directory%"@);
    assert(s != "%current_directory_short%"@);
    assert(s != "%selected_directory%"@);
    lemma_whole_marker(s);
    lemma_last_segment_after_last_slash(p, q);
    let c = p + seq!['/'] + q;
    assert(!ends_with_char(c, '/')) by {
        assert(c.last() == q.last());
    }
    assert((c + seq!['/']).drop_last() =~= c);
    lemma_replace_whole(s, q);
}

/// `%selected_directory%` expands to the selected path, or to the current
/// directory when no path was selected.
pub proof fn lemma_selected_directory_expands(c: Option<Seq<char>>, d: Seq<char>)
    ensures
        processed("%selected_directory%"@, c, Ok(d)) == Ok::<Seq<char>, PostProcessFailure>(
            match c {
                Some(x) => x,
                None => d,
            },
        ),
{
    reveal_strlit("%selected_directory%");
    reveal_strlit("%current_directory%");
    reveal_strlit("%current_directory_short%");
    let s = "%selected_directory%"@;
    assert(forall|j: int| 0 < j < s.len() - 1 ==> s[j] != '%');
    assert(s != "%current_directory%"@);
    assert(s != "%current_directory_short%"@);
    lemma_whole_marker(s);
    if let Some(x) = c {
        lemma_replace_whole(s, x);
    }
}

/// Whether `to` is what expanding the optional string `from` gives: nothing
/// for nothing, else the expansion of the string.
pub open spec fn opt_expands_to(
    from: Option<Seq<char>>,
    to: Option<Seq<char>>,
    selected: Option<Seq<char>>,
    cwd: Result<Seq<char>, Seq<char>>,
) -> bool {
    match from {
        None => to is None,
        Some(x) => to matches Some(y) && processed(x, selected, cwd) == Ok::<
            Seq<char>,
            PostProcessFailure,
        >(y),
    }
}

proof fn lemma_windows_expanded_one_by_one(
    ws: Seq<WindowView>,
    selected: Option<Seq<char>>,
    cwd: Result<Seq<char>, Seq<char>>,
)
    ensures
        expanded_windows(ws, selected, cwd) matches Ok(d) ==> {
            &&& d.len() == ws.len()
            &&& forall|i: int|
                0 <= i < ws.len() ==> expanded_window(ws[i], selected, cwd) == Ok::<
                    WindowView,
                    PostProcessFailure,
                >(#[trigger] d[i])
        },
    decreases ws.len(),
{
    if ws.len() > 0 {
        lemma_windows_expanded_one_by_one(ws.drop_last(), selected, cwd);
    }
}

/// A successful expansion expands every string of the configuration on its
/// own: the session's name and starting directory, and each window's name
/// and starting directory, are what `process` gives for them (a missing
/// starting directory stays missing); the windows keep their order.
pub proof fn lemma_extrapolate_expands_every_string(
    c: ConfigView,
    selected: Option<Seq<char>>,
    cwd: Result<Seq<char>, Seq<char>>,
)
    ensures
        extrapolated(c, selected, cwd) matches Ok(d) ==> {
            &&& processed(c.session.name, selected, cwd) == Ok::<Seq<char>, PostProcessFailure>(
                d.session.name,
            )
            &&& opt_expands_to(c.session.starting_dir, d.session.starting_dir, selected, cwd)
            &&& d.windows.len() == c.windows.len()
            &&& forall|i: int|
                0 <= i < c.windows.len() ==> {
                    &&& processed(c.windows[i].name, selected, cwd) == Ok::<
                        Seq<char>,
                        PostProcessFailure,
                    >((#[trigger] d.windows[i]).name)
                    &&& opt_expands_to(
                        c.windows[i].starting_dir,
                        d.windows[i].starting_dir,
                        selected,
                        cwd,
                    )
                }
        },
{
    if let Ok(d) = extrapolated(c, selected, cwd) {
        lemma_windows_expanded_one_by_one(c.windows, selected, cwd);
        assert forall|i: int| 0 <= i < c.windows.len() implies {
            &&& processed(c.windows[i].name, selected, cwd) == Ok::<Seq<char>, PostProcessFailure>(
                (#[trigger] d.windows[i]).name,
            )
            &&& opt_expands_to(c.windows[i].starting_dir, d.windows[i].starting_dir, selected, cwd)
        } by {
            assert(expanded_window(c.windows[i], selected, cwd) == Ok::<
                WindowView,
                PostProcessFailure,
            >(d.windows[i]));
        }
    }
}

/// A window whose starting directory is `%current_directory%` starts, once
/// the configuration is expanded, in the current directory.
pub proof fn lemma_window_in_current_directory(
    c: ConfigView,
    selected: Option<Seq<char>>,
    dir: Seq<char>,
    i: int,
)
    requires
        0 <= i < c.windows.len(),
        c.windows[i].starting_dir == Some("%current_directory%"@),
    ensures
        extrapolated(c, selected, Ok(dir)) matches Ok(d) ==> d.windows[i].starting_dir == Some(dir),
{
    lemma_extrapolate_expands_every_string(c, selected, Ok(dir));
    lemma_current_directory_expands(selected, dir);
}

/// A string that holds a marker but is not exactly one of the four
/// placeholders is refused, with the whole string as the reason.
pub proof fn lemma_process_refuses_other_markers(
    s: Seq<char>,
    selected: Option<Seq<char>>,
    cwd: Result<Seq<char>, Seq<char>>,
)
    requires
        first_marker(s) is Some,
        s != "%current_directory%"@,
        s != "%current_directory_short%"@,
        s != "%selected_directory%"@,
        s != "%selected_directory_short%"@,
    ensures
        processed(s, selected, cwd) == Err::<Seq<char>, PostProcessFailure>(
            PostProcessFailure::InvalidReplacement(s),
        ),
{
}

/// When the current directory could not be read, the placeholders that
/// need it fail with the message of that error, `%selected_directory%`
/// among them when no path was selected; `%selected_directory_short%`
/// without a selected path is refused.
pub proof fn lemma_placeholder_failures(m: Seq<char>, selected: Option<Seq<char>>, d: Seq<char>)
    ensures
        processed("%current_directory%"@, selected, Err(m)) == Err::<Seq<char>, PostProcessFailure>(
            PostProcessFailure::UnknownError(m),
        ),
        processed("%current_directory_short%"@, selected, Err(m)) == Err::<
            Seq<char>,
            PostProcessFailure,
        >(PostProcessFailure::UnknownError(m)),
        processed("%selected_directory%"@, None, Err(m)) == Err::<Seq<char>, PostProcessFailure>(
            PostProcessFailure::UnknownError(m),
        ),
        processed("%selected_directory_short%"@, None, Ok(d)) == Err::<
            Seq<char>,
            PostProcessFailure,
        >(PostProcessFailure::InvalidReplacement("%selected_directory_short%"@)),
{
    reveal_strlit("%current_directory%");
    reveal_strlit("%current_directory_short%");
    reveal_strlit("%selected_directory%");
    reveal_strlit("%selected_directory_short%");
    let a = "%current_directory%"@;
    let b = "%current_directory_short%"@;
    let c = "%selected_directory%"@;
    let e = "%selected_directory_short%"@;
    assert(forall|j: int| 0 < j < a.len() - 1 ==> a[j] != '%');
    assert(forall|j: int| 0 < j < b.len() - 1 ==> b[j] != '%');
    assert(forall|j: int| 0 < j < c.len() - 1 ==> c[j] != '%');
    assert(forall|j: int| 0 < j < e.len() - 1 ==> e[j] != '%');
    assert(a != b && a != c && a != e && b != c && b != e && c != e);
    lemma_whole_marker(a);
    lemma_whole_marker(b);
    lemma_whole_marker(c);
    lemma_whole_marker(e);
}

/// Whether the name and the starting directory of a window both expand.
pub open spec fn window_expands(
    w: WindowView,
    selected: Option<Seq<char>>,
    cwd: Result<Seq<char>, Seq<char>>,
) -> bool {
    &&& processed(w.name, selected, cwd) is Ok
    &&& w.starting_dir matches Some(x) ==> processed(x, selected, cwd) is Ok
}

proof fn lemma_windows_expand(
    ws: Seq<WindowView>,
    selected: Option<Seq<char>>,
    cwd: Result<Seq<char>, Seq<char>>,
)
    requires
        forall|i: int| 0 <= i < ws.len() ==> window_expands(#[trigger] ws[i], selected, cwd),
    ensures
        expanded_windows(ws, selected, cwd) is Ok,
    decreases ws.len(),
{
    if ws.len() > 0 {
        assert forall|i: int| 0 <= i < ws.drop_last().len() implies window_expands(
            #[trigger] ws.drop_last()[i],
            selected,
            cwd,
        ) by {
            assert(ws.drop_last()[i] == ws[i]);
        }
        lemma_windows_expand(ws.drop_last(), selected, cwd);
        assert(window_expands(ws[ws.len() - 1], selected, cwd));
    }
}

/// The expansion of a configuration fails only where some string of it
/// cannot be expanded: when the session's name and starting directory and
/// every window's name and starting directory expand, so does the whole.
pub proof fn lemma_extrapolate_succeeds_when_every_string_expands(
    c: ConfigView,
    selected: Option<Seq<char>>,
    cwd: Result<Seq<char>, Seq<char>>,
)
    requires
        processed(c.session.name, selected, cwd) is Ok,
        c.session.starting_dir matches Some(x) ==> processed(x, selected, cwd) is Ok,
        forall|i: int| 0 <= i < c.windows.len() ==> window_expands(#[trigger] c.windows[i], selected, cwd),
    ensures
        extrapolated(c, selected, cwd) is Ok,
{
    lemma_windows_expand(c.windows, selected, cwd);
}

} // verus!
