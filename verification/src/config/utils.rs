use crate::text::{
    contains_text, ends_with_char, starts_with_char, str_ends_with_char, str_starts_with_char,
};
use vstd::prelude::*;

verus! {

/// The path that `append_path` builds: `path` and `addition` joined by
/// exactly the slashes needed for one separator.
pub open spec fn appended_path(path: Seq<char>, addition: Seq<char>) -> Seq<char> {
    let ends = ends_with_char(path, '/');
    let starts = starts_with_char(addition, '/');
    if ends && starts {
        path.drop_last() + addition
    } else if ends || starts {
        path + addition
    } else {
        path + seq!['/'] + addition
    }
}

/// Joins `addition` onto `path`, with a single `/` between them.
pub fn append_path(path: &str, addition: &str) -> (r: String)
    ensures
        r@ == appended_path(path@, addition@),
{
    let ends = str_ends_with_char(path, '/');
    let starts = str_starts_with_char(addition, '/');
    if ends && starts {
        let n = path.unicode_len();
        let head = path.substring_char(0, n - 1).to_owned();
        assert(head@ == path@.drop_last());
        head.concat(addition)
    } else if ends || starts {
        path.to_owned().concat(addition)
    } else {
        proof {
            reveal_strlit("/");
        }
        path.to_owned().concat("/").concat(addition)
    }
}

} // verus!

verus! {

#[verifier::external_type_specification]
#[verifier::external_body]
pub struct ExGitRepository(git2::Repository);

#[verifier::external_type_specification]
#[verifier::external_body]
pub struct ExGitError(git2::Error);

/// `git2::Repository::discover`: opens the repository that holds `path`,
/// searching upwards from it.  What it finds depends on the file system, so
/// nothing is stated of the result.
#[verifier::external_body]
fn repository_discover(path: &str) -> (r: Result<git2::Repository, git2::Error>) {
    git2::Repository::discover(path)
}

/// `git2::Repository::workdir`: the working directory of the repository,
/// `None` for a bare repository.  libgit2 stores every working directory as
/// a directory path ending in `/` (each way of setting it goes through
/// `git_fs_path_to_dir` or `git_fs_path_prettify_dir`), and the lossy text
/// conversion keeps that final `/`; that is all that is stated, since the
/// repository is opaque here and which directory it is depends on the file
/// system.
#[verifier::external_body]
fn repository_workdir(repo: &git2::Repository) -> (r: Option<String>)
    ensures
        r matches Some(p) ==> ends_with_char(p@, '/'),
{
    repo.workdir().map(|p| p.to_string_lossy().to_string())
}

/// `<git2::Error as Display>`: the text of the error (its message, class
/// and code).  The error is opaque here, so nothing is stated of the text.
#[verifier::external_body]
fn git_error_text(e: &git2::Error) -> (r: String) {
    e.to_string()
}

/// `std::path::absolute`: `path` made absolute against the current
/// directory, without touching the file system.  Its documentation gives an
/// error only for an empty path or when the current directory cannot be
/// read, which a path that is already absolute does not need; the result is
/// an absolute path (one that starts with `/`), resolved by POSIX rules that
/// only drop `.` components and repeated slashes, so a path that is absolute
/// and has neither comes back as it is.  A relative path is joined onto the
/// current directory, so one with neither ends in `/` and the path; which
/// directory comes before depends on the process, so no more is stated of
/// it.  The error is returned as its text.
#[verifier::external_body]
fn absolute_path(path: &str) -> (r: Result<String, String>)
    ensures
        path@.len() == 0 ==> r is Err,
        starts_with_char(path@, '/') ==> r is Ok,
        r matches Ok(a) ==> starts_with_char(a@, '/') && (plain_absolute(path@) ==> a@ == path@) && (
        plain_relative(path@) ==> ends_with_text(a@, seq!['/'] + path@)),
{
    match std::path::absolute(path) {
        Ok(p) => Ok(p.to_string_lossy().to_string()),
        Err(e) => Err(e.to_string()),
    }
}

/// What looking for a git repository found.
pub enum GitFound {
    /// The working directory at the root of the repository.
    Root(String),
    /// A repository without a working directory.
    Bare,
    /// No repository: the text of the error.
    Failed(String),
}

/// A `GitFound` as plain values.
pub enum GitFoundView {
    Root(Seq<char>),
    Bare,
    Failed(Seq<char>),
}

impl View for GitFound {
    type V = GitFoundView;

    open spec fn view(&self) -> GitFoundView {
        match self {
            GitFound::Root(s) => GitFoundView::Root(s@),
            GitFound::Bare => GitFoundView::Bare,
            GitFound::Failed(s) => GitFoundView::Failed(s@),
        }
    }
}

/// The directory a git repository was looked for from, and what was found.
pub struct GitLookup {
    pub dir: String,
    pub found: GitFound,
}

/// A `GitLookup` as plain values.
pub struct GitLookupView {
    pub dir: Seq<char>,
    pub found: GitFoundView,
}

impl View for GitLookup {
    type V = GitLookupView;

    open spec fn view(&self) -> GitLookupView {
        GitLookupView { dir: self.dir@, found: self.found@ }
    }
}

/// Looks for the git repository that holds `path` and returns the root of
/// its working directory, a directory path that ends in `/`.  Whether there
/// is a repository, and where, depends on the file system.
pub fn git_path(path: &str) -> (r: GitLookup)
    ensures
        r.dir@ == path@,
        r.found matches GitFound::Root(root) ==> ends_with_char(root@, '/'),
{
    let found = match repository_discover(path) {
        Ok(repo) => match repository_workdir(&repo) {
            Some(root) => GitFound::Root(root),
            None => GitFound::Bare,
        },
        Err(e) => GitFound::Failed(git_error_text(&e)),
    };
    GitLookup { dir: path.to_owned(), found }
}

/// `path` made absolute against the current directory, or the text of the
/// error that gave.  An absolute path always succeeds, and comes back as it
/// is when it has no `.` component and no repeated slash; a relative path
/// with neither ends up after the current directory and a `/`.
pub fn path_string(path: &str) -> (r: Result<String, String>)
    ensures
        path@.len() == 0 ==> r is Err,
        starts_with_char(path@, '/') ==> r is Ok,
        r matches Ok(a) ==> starts_with_char(a@, '/') && (plain_absolute(path@) ==> a@ == path@) && (
        plain_relative(path@) ==> ends_with_text(a@, seq!['/'] + path@)),
{
    absolute_path(path)
}

/// A relative path with nothing for POSIX resolution to drop: it is not
/// empty, does not start with `/`, holds no `//` and no `.` component.
pub open spec fn plain_relative(s: Seq<char>) -> bool {
    &&& s.len() > 0
    &&& s[0] != '/'
    &&& !contains_text(s, "//"@)
    &&& !contains_text(s, "/./"@)
    &&& !(s.len() == 1 && s[0] == '.')
    &&& !(s.len() >= 2 && s[0] == '.' && s[1] == '/')
    &&& !(s.len() >= 2 && s[s.len() - 2] == '/' && s[s.len() - 1] == '.')
}

/// `s` ends with `t`.
pub open spec fn ends_with_text(s: Seq<char>, t: Seq<char>) -> bool {
    t.len() <= s.len() && s.skip(s.len() - t.len()) == t
}

/// An absolute path with nothing for POSIX resolution to drop: it starts
/// with `/`, holds no `//` and no `.` component.
pub open spec fn plain_absolute(s: Seq<char>) -> bool {
    &&& starts_with_char(s, '/')
    &&& !contains_text(s, "//"@)
    &&& !contains_text(s, "/./"@)
    &&& !(s.len() >= 2 && s[s.len() - 2] == '/' && s[s.len() - 1] == '.')
}

} // verus!

verus! {

/// `s` without one trailing `/`.
pub open spec fn without_trailing_slash(s: Seq<char>) -> Seq<char> {
    if ends_with_char(s, '/') {
        s.drop_last()
    } else {
        s
    }
}

/// `s` without one leading `/`.
pub open spec fn without_leading_slash(s: Seq<char>) -> Seq<char> {
    if starts_with_char(s, '/') {
        s.skip(1)
    } else {
        s
    }
}

/// `append_path` puts exactly one `/` between the two parts: whatever
/// slash each side brings at the join, the result is the path without its
/// trailing slash, one slash, and the addition without its leading slash.
pub proof fn lemma_append_path_single_separator(path: Seq<char>, addition: Seq<char>)
    ensures
        appended_path(path, addition) == without_trailing_slash(path) + seq!['/']
            + without_leading_slash(addition),
{
    if ends_with_char(path, '/') {
        assert(path =~= path.drop_last() + seq!['/']);
    }
    if starts_with_char(addition, '/') {
        assert(addition =~= seq!['/'] + addition.skip(1));
    }
    assert(appended_path(path, addition) =~= without_trailing_slash(path) + seq!['/']
        + without_leading_slash(addition));
}

} // verus!
