//! A chain of candidate sources for one configuration file, resolved lazily:
//! the first source that yields a path wins and later ones are never asked.
//!
//! Reading the environment and the filesystem is left to the caller. A
//! [`Resolution`] tells the caller which single question it needs answered
//! next ([`Query`]) and moves on once the answer ([`Answer`]) is handed back.
use vstd::prelude::*;

use crate::location::Location;
use crate::path::{join_spec, FilePath, PathModel};
use either::Either;

verus! {

/// One candidate source of a configuration file path.
pub enum Source {
    /// An explicit path; a relative one is taken relative to the working directory.
    File(Option<FilePath>),
    /// As `File`, but the path must name an existing file.
    FileExists(Option<FilePath>),
    /// The path held by an environment variable.
    Env(String),
    /// As `Env`, but the path must name an existing file.
    EnvExists(String),
    /// A path relative to the home directory.
    Home(FilePath),
    /// As `Home`, but the path must name an existing file.
    HomeExists(FilePath),
    /// A path relative to the working directory.
    Cwd(FilePath),
    /// As `Cwd`, but the path must name an existing file.
    CwdExists(FilePath),
    /// The first existing file found under the working directory or one of its ancestors.
    CwdAndParentsExists(FilePath),
}

/// What the process around the library can observe: environment variables
/// (already read as paths), the home and working directories, and which
/// paths name regular files.
pub struct Host {
    pub env: spec_fn(Seq<char>) -> Option<PathModel>,
    pub home: Option<PathModel>,
    pub cwd: Option<PathModel>,
    pub is_file: spec_fn(PathModel) -> bool,
}

pub open spec fn opt_view(p: Option<FilePath>) -> Option<PathModel> {
    match p {
        Some(q) => Some(q@),
        None => None,
    }
}

/// `p` when it names an existing file.
pub open spec fn existing(p: PathModel, h: Host) -> Option<PathModel> {
    if (h.is_file)(p) {
        Some(p)
    } else {
        None
    }
}

/// `rel` joined onto `dir`, or onto the nearest ancestor of `dir` under which
/// it names an existing file.
pub open spec fn search(dir: PathModel, rel: PathModel, h: Host) -> Option<PathModel>
    decreases dir.parts.len(),
{
    let candidate = join_spec(dir, rel);
    if (h.is_file)(candidate) {
        Some(candidate)
    } else if dir.parts.len() == 0 {
        None
    } else {
        search(PathModel { absolute: dir.absolute, parts: dir.parts.drop_last() }, rel, h)
    }
}

/// `rel` joined onto an optional base directory, checked for existence when asked.
pub open spec fn joined(base: Option<PathModel>, rel: PathModel, check: bool, h: Host) -> Option<
    PathModel,
> {
    match base {
        Some(b) => if check {
            existing(join_spec(b, rel), h)
        } else {
            Some(join_spec(b, rel))
        },
        None => None,
    }
}

/// What one source yields on its own.
pub open spec fn source_value(s: Source, h: Host) -> Option<PathModel> {
    match s {
        Source::File(None) => None,
        Source::FileExists(None) => None,
        Source::File(Some(p)) => if p@.absolute {
            Some(p@)
        } else {
            joined(h.cwd, p@, false, h)
        },
        Source::FileExists(Some(p)) => if p@.absolute {
            existing(p@, h)
        } else {
            joined(h.cwd, p@, true, h)
        },
        Source::Env(n) => (h.env)(n@),
        Source::EnvExists(n) => match (h.env)(n@) {
            Some(p) => existing(p, h),
            None => None,
        },
        Source::Home(rel) => joined(h.home, rel@, false, h),
        Source::HomeExists(rel) => joined(h.home, rel@, true, h),
        Source::Cwd(rel) => joined(h.cwd, rel@, false, h),
        Source::CwdExists(rel) => joined(h.cwd, rel@, true, h),
        Source::CwdAndParentsExists(rel) => match h.cwd {
            Some(c) => search(c, rel@, h),
            None => None,
        },
    }
}

/// The value of the first source that yields one.
pub open spec fn resolve_spec(sources: Seq<Source>, h: Host) -> Option<PathModel>
    decreases sources.len(),
{
    if sources.len() == 0 {
        None
    } else {
        match source_value(sources[0], h) {
            Some(p) => Some(p),
            None => resolve_spec(sources.drop_first(), h),
        }
    }
}

/// Whether a source only ever yields a path that names an existing file.
pub open spec fn is_existence_checked(s: Source) -> bool {
    match s {
        Source::FileExists(_) => true,
        Source::EnvExists(_) => true,
        Source::HomeExists(_) => true,
        Source::CwdExists(_) => true,
        Source::CwdAndParentsExists(_) => true,
        _ => false,
    }
}

proof fn lemma_search_yields_file(dir: PathModel, rel: PathModel, h: Host)
    ensures
        search(dir, rel, h) matches Some(p) ==> (h.is_file)(p),
    decreases dir.parts.len(),
{
    if dir.parts.len() > 0 {
        lemma_search_yields_file(PathModel { absolute: dir.absolute, parts: dir.parts.drop_last() }, rel, h);
    }
}

/// The first source of a chain that yields a path decides the result:
/// whatever sources follow it are never consulted.
pub proof fn lemma_first_present_source_wins(first: Seq<Source>, later: Seq<Source>, h: Host)
    requires
        resolve_spec(first, h) is Some,
    ensures
        resolve_spec(first + later, h) == resolve_spec(first, h),
    decreases first.len(),
{
    assert((first + later)[0] == first[0]);
    if source_value(first[0], h) is None {
        assert((first + later).drop_first() =~= first.drop_first() + later);
        lemma_first_present_source_wins(first.drop_first(), later, h);
    }
}

/// A source that yields nothing hands the decision to the sources after it.
pub proof fn lemma_absent_source_falls_through(s: Source, rest: Seq<Source>, h: Host)
    requires
        source_value(s, h) is None,
    ensures
        resolve_spec(seq![s] + rest, h) == resolve_spec(rest, h),
{
    assert((seq![s] + rest)[0] == s);
    assert((seq![s] + rest).drop_first() =~= rest);
}

/// An existence-checked source never yields a path that does not name an
/// existing file; where its candidate is missing, resolution falls through to
/// the next source.
pub proof fn lemma_checked_source_yields_existing_file(s: Source, rest: Seq<Source>, h: Host)
    requires
        is_existence_checked(s),
    ensures
        match source_value(s, h) {
            Some(p) => (h.is_file)(p) && resolve_spec(seq![s] + rest, h) == Some(p),
            None => resolve_spec(seq![s] + rest, h) == resolve_spec(rest, h),
        },
{
    assert((seq![s] + rest)[0] == s);
    assert((seq![s] + rest).drop_first() =~= rest);
    if let Source::CwdAndParentsExists(rel) = s {
        if let Some(c) = h.cwd {
            lemma_search_yields_file(c, rel@, h);
        }
    }
}

/// An explicit relative path resolves to the working directory joined with
/// it, and never to the relative path itself.
pub proof fn lemma_relative_file_joined_onto_cwd(
    file_path: FilePath,
    rest: Seq<Source>,
    cwd: PathModel,
    h: Host,
)
    requires
        !file_path@.absolute,
        h.cwd == Some(cwd),
    ensures
        resolve_spec(seq![Source::File(Some(file_path))] + rest, h) == Some(join_spec(cwd, file_path@)),
        cwd.absolute || cwd.parts.len() > 0 ==> resolve_spec(seq![Source::File(Some(file_path))] + rest, h)
            != Some(file_path@),
{
    assert((seq![Source::File(Some(file_path))] + rest)[0] == Source::File(Some(file_path)));
    if !cwd.absolute && cwd.parts.len() > 0 {
        assert(join_spec(cwd, file_path@).parts.len() > file_path@.parts.len());
    }
}

/// A chain led by an absolute explicit path is finished as soon as it is
/// started: nothing is asked of the host and no later source is looked at.
pub proof fn lemma_absolute_explicit_path_asks_nothing(file_path: FilePath, rest: Seq<Source>)
    requires
        file_path@.absolute,
    ensures
        settle_spec(seq![Source::File(Some(file_path))] + rest, 0) == (
        1int,
        PendingModel::Done { found: Some(file_path@) },
        ),
{
    assert((seq![Source::File(Some(file_path))] + rest)[0] == Source::File(Some(file_path)));
}

/// A chain led by a relative explicit path asks for the working directory
/// and nothing else: once it is known, the resolution is finished with the
/// joined path, and no later source is looked at.
pub proof fn lemma_relative_explicit_path_asks_only_cwd(
    file_path: FilePath,
    rest: Seq<Source>,
    cwd: FilePath,
)
    requires
        !file_path@.absolute,
    ensures
        settle_spec(seq![Source::File(Some(file_path))] + rest, 0) == (
        1int,
        PendingModel::Cwd { rel: file_path@, check: false },
        ),
        next_spec(
            PendingModel::Cwd { rel: file_path@, check: false },
            Answer::Path(Some(cwd)),
            seq![Source::File(Some(file_path))] + rest,
            1,
        ) == (1int, PendingModel::Done { found: Some(join_spec(cwd@, file_path@)) }),
{
    assert((seq![Source::File(Some(file_path))] + rest)[0] == Source::File(Some(file_path)));
}

/// Answer `a` makes the source that state `p` looks at yield a path.
pub open spec fn yields_on(p: PendingModel, a: Answer) -> bool {
    let path_known = match a {
        Answer::Path(x) => x is Some,
        Answer::IsFile(_) => false,
    };
    let is_file = match a {
        Answer::IsFile(b) => b,
        Answer::Path(_) => false,
    };
    match p {
        PendingModel::EnvValue { check, .. } => !check && path_known,
        PendingModel::Home { check, .. } => !check && path_known,
        PendingModel::Cwd { check, .. } => !check && path_known,
        PendingModel::Check { .. } => is_file,
        PendingModel::Walk { .. } => is_file,
        _ => false,
    }
}

/// Once the source being looked at has yielded its path, the resolution is
/// finished where it stands: the index is unchanged, so no later source is
/// ever looked at, and a finished resolution asks nothing more.
pub proof fn lemma_yielded_path_finishes_in_place(
    p: PendingModel,
    a: Answer,
    sources: Seq<Source>,
    next: int,
)
    requires
        yields_on(p, a),
    ensures
        next_spec(p, a, sources, next).0 == next,
        next_spec(p, a, sources, next).1 matches PendingModel::Done { found: Some(_) },
{
}

/// The walk up from the working directory finds a file that is present in the
/// grandparent directory but in neither the directory nor its parent.
pub proof fn lemma_search_finds_in_grandparent(dir: PathModel, rel: PathModel, h: Host)
    requires
        dir.parts.len() >= 2,
        !(h.is_file)(join_spec(dir, rel)),
        !(h.is_file)(join_spec(PathModel { absolute: dir.absolute, parts: dir.parts.drop_last() }, rel)),
        (h.is_file)(join_spec(
            PathModel { absolute: dir.absolute, parts: dir.parts.drop_last().drop_last() },
            rel,
        )),
    ensures
        search(dir, rel, h) == Some(
            join_spec(PathModel { absolute: dir.absolute, parts: dir.parts.drop_last().drop_last() }, rel),
        ),
{
    let parent = PathModel { absolute: dir.absolute, parts: dir.parts.drop_last() };
    let grand = PathModel { absolute: dir.absolute, parts: dir.parts.drop_last().drop_last() };
    assert(search(parent, rel, h) == search(grand, rel, h));
}

/// The walk up from a directory finds nothing when the file is present at no
/// level from that directory up to and including the root.
pub proof fn lemma_search_absent_everywhere(dir: PathModel, rel: PathModel, h: Host)
    requires
        forall|k: int|
            0 <= k <= dir.parts.len() ==> !(h.is_file)(
                #[trigger] join_spec(PathModel { absolute: dir.absolute, parts: dir.parts.subrange(0, k) }, rel),
            ),
    ensures
        search(dir, rel, h) is None,
    decreases dir.parts.len(),
{
    assert(dir.parts.subrange(0, dir.parts.len() as int) =~= dir.parts);
    assert(!(h.is_file)(
        join_spec(PathModel { absolute: dir.absolute, parts: dir.parts.subrange(0, dir.parts.len() as int) }, rel),
    ));
    if dir.parts.len() > 0 {
        let up = PathModel { absolute: dir.absolute, parts: dir.parts.drop_last() };
        assert forall|k: int| 0 <= k <= up.parts.len() implies !(h.is_file)(
            #[trigger] join_spec(PathModel { absolute: up.absolute, parts: up.parts.subrange(0, k) }, rel),
        ) by {
            assert(up.parts.subrange(0, k) =~= dir.parts.subrange(0, k));
            assert(!(h.is_file)(
                join_spec(PathModel { absolute: dir.absolute, parts: dir.parts.subrange(0, k) }, rel),
            ));
        }
        lemma_search_absent_everywhere(up, rel, h);
    }
}

/// An ordered chain of candidate sources; the first that yields a path wins.
pub enum FileLocation {
    FirstSome(Vec<Source>),
}

impl FileLocation {
    pub open spec fn sources(&self) -> Seq<Source> {
        match self {
            FileLocation::FirstSome(v) => v@,
        }
    }

    fn with(self, s: Source) -> (r: Self)
        ensures
            r.sources() == self.sources().push(s),
    {
        match self {
            FileLocation::FirstSome(mut v) => {
                v.push(s);
                FileLocation::FirstSome(v)
            },
        }
    }

    /// An empty chain, which yields no path.
    pub fn first_some_path() -> (r: Self)
        ensures
            r.sources() == Seq::<Source>::empty(),
    {
        FileLocation::FirstSome(Vec::new())
    }

    /// Adds an explicit path; a relative one is joined onto the working directory.
    pub fn from_file(self, file_path: Option<FilePath>) -> (r: Self)
        ensures
            r.sources() == self.sources().push(Source::File(file_path)),
    {
        self.with(Source::File(file_path))
    }

    /// Adds an explicit path that must name an existing file.
    pub fn from_file_exists(self, file_path: Option<FilePath>) -> (r: Self)
        ensures
            r.sources() == self.sources().push(Source::FileExists(file_path)),
    {
        self.with(Source::FileExists(file_path))
    }

    /// Adds the path held by an environment variable.
    pub fn from_env(self, env_var: String) -> (r: Self)
        ensures
            r.sources() == self.sources().push(Source::Env(env_var)),
    {
        self.with(Source::Env(env_var))
    }

    /// Adds the path held by an environment variable, if it names an existing file.
    pub fn from_env_exists(self, env_var: String) -> (r: Self)
        ensures
            r.sources() == self.sources().push(Source::EnvExists(env_var)),
    {
        self.with(Source::EnvExists(env_var))
    }

    /// Adds a path relative to the home directory.
    pub fn from_home(self, relative_path: FilePath) -> (r: Self)
        ensures
            r.sources() == self.sources().push(Source::Home(relative_path)),
    {
        self.with(Source::Home(relative_path))
    }

    /// Adds a path relative to the home directory that must name an existing file.
    pub fn from_home_exists(self, relative_path: FilePath) -> (r: Self)
        ensures
            r.sources() == self.sources().push(Source::HomeExists(relative_path)),
    {
        self.with(Source::HomeExists(relative_path))
    }

    /// Adds a path relative to the working directory.
    pub fn from_cwd(self, relative_path: FilePath) -> (r: Self)
        ensures
            r.sources() == self.sources().push(Source::Cwd(relative_path)),
    {
        self.with(Source::Cwd(relative_path))
    }

    /// Adds a path relative to the working directory that must name an existing file.
    pub fn from_cwd_exists(self, relative_path: FilePath) -> (r: Self)
        ensures
            r.sources() == self.sources().push(Source::CwdExists(relative_path)),
    {
        self.with(Source::CwdExists(relative_path))
    }

    /// Adds the first existing file found by joining `relative_path` onto the
    /// working directory and then onto each of its ancestors, up to the root.
    pub fn from_cwd_and_parents_exists(self, relative_path: FilePath) -> (r: Self)
        ensures
            r.sources() == self.sources().push(Source::CwdAndParentsExists(relative_path)),
    {
        self.with(Source::CwdAndParentsExists(relative_path))
    }

    /// Starts resolving the chain against the host.
    pub fn resolution(self) -> (r: Resolution)
        ensures
            r.wf(),
            r.chain() == self.sources(),
            (r.index(), r.state()@) == settle_spec(self.sources(), 0),
            forall|h: Host| #[trigger] r.outcome(h) == resolve_spec(self.sources(), h),
    {
        match self {
            FileLocation::FirstSome(sources) => {
                let (next, pending) = settle(&sources, 0);
                assert(sources@.subrange(0, sources.len() as int) =~= sources@);
                Resolution { sources, next, pending }
            },
        }
    }
}

/// A question about the host that a resolution needs answered.
pub enum Query {
    /// The value of the named environment variable, read as a path.
    EnvVar(String),
    /// The home directory.
    HomeDir,
    /// The current working directory.
    CurrentDir,
    /// Whether the path names a regular file.
    IsFile(FilePath),
}

/// The host's answer to a [`Query`].
pub enum Answer {
    /// For `EnvVar`, `HomeDir` and `CurrentDir`: the path, or `None` where there is none.
    Path(Option<FilePath>),
    /// For `IsFile`.
    IsFile(bool),
}

/// Where a resolution stands: waiting for one answer, or done.
pub enum Pending {
    EnvValue { name: String, check: bool },
    Home { rel: FilePath, check: bool },
    Cwd { rel: FilePath, check: bool },
    CwdWalk { rel: FilePath },
    Check { path: FilePath },
    Walk { dir: FilePath, rel: FilePath },
    Done { found: Option<FilePath> },
}

/// The mathematical value of a [`Pending`] state.
pub enum PendingModel {
    EnvValue { name: Seq<char>, check: bool },
    Home { rel: PathModel, check: bool },
    Cwd { rel: PathModel, check: bool },
    CwdWalk { rel: PathModel },
    Check { path: PathModel },
    Walk { dir: PathModel, rel: PathModel },
    Done { found: Option<PathModel> },
}

impl View for Pending {
    type V = PendingModel;

    open spec fn view(&self) -> PendingModel {
        match self {
            Pending::EnvValue { name, check } => PendingModel::EnvValue { name: name@, check: *check },
            Pending::Home { rel, check } => PendingModel::Home { rel: rel@, check: *check },
            Pending::Cwd { rel, check } => PendingModel::Cwd { rel: rel@, check: *check },
            Pending::CwdWalk { rel } => PendingModel::CwdWalk { rel: rel@ },
            Pending::Check { path } => PendingModel::Check { path: path@ },
            Pending::Walk { dir, rel } => PendingModel::Walk { dir: dir@, rel: rel@ },
            Pending::Done { found } => PendingModel::Done { found: opt_view(*found) },
        }
    }
}

/// The state in which looking at source `s` begins: `None` for a source that
/// can yield nothing, `Done` for an absolute explicit path, else the state
/// that waits for the first question about it.
pub open spec fn start_spec(s: Source) -> Option<PendingModel> {
    match s {
        Source::File(None) => None,
        Source::FileExists(None) => None,
        Source::File(Some(p)) => if p@.absolute {
            Some(PendingModel::Done { found: Some(p@) })
        } else {
            Some(PendingModel::Cwd { rel: p@, check: false })
        },
        Source::FileExists(Some(p)) => if p@.absolute {
            Some(PendingModel::Check { path: p@ })
        } else {
            Some(PendingModel::Cwd { rel: p@, check: true })
        },
        Source::Env(n) => Some(PendingModel::EnvValue { name: n@, check: false }),
        Source::EnvExists(n) => Some(PendingModel::EnvValue { name: n@, check: true }),
        Source::Home(rel) => Some(PendingModel::Home { rel: rel@, check: false }),
        Source::HomeExists(rel) => Some(PendingModel::Home { rel: rel@, check: true }),
        Source::Cwd(rel) => Some(PendingModel::Cwd { rel: rel@, check: false }),
        Source::CwdExists(rel) => Some(PendingModel::Cwd { rel: rel@, check: true }),
        Source::CwdAndParentsExists(rel) => Some(PendingModel::CwdWalk { rel: rel@ }),
    }
}

/// From source `i` on, the index after the first source that begins a state,
/// with that state; `Done` with no path once the sources run out. Sources
/// after that one are not looked at.
pub open spec fn settle_spec(sources: Seq<Source>, i: int) -> (int, PendingModel)
    decreases sources.len() - i,
{
    if 0 <= i < sources.len() {
        match start_spec(sources[i]) {
            Some(p) => (i + 1, p),
            None => settle_spec(sources, i + 1),
        }
    } else {
        (i, PendingModel::Done { found: None })
    }
}

/// The index and state that follow state `p` at index `next` on answer `a`.
/// A source that yields a path ends the resolution at once; one that yields
/// nothing hands over to the sources after it.
pub open spec fn next_spec(p: PendingModel, a: Answer, sources: Seq<Source>, next: int) -> (
    int,
    PendingModel,
) {
    match p {
        PendingModel::EnvValue { check, .. } => match a {
            Answer::Path(Some(x)) => (next, if check {
                PendingModel::Check { path: x@ }
            } else {
                PendingModel::Done { found: Some(x@) }
            }),
            _ => settle_spec(sources, next),
        },
        PendingModel::Home { rel, check } => match a {
            Answer::Path(Some(d)) => (next, if check {
                PendingModel::Check { path: join_spec(d@, rel) }
            } else {
                PendingModel::Done { found: Some(join_spec(d@, rel)) }
            }),
            _ => settle_spec(sources, next),
        },
        PendingModel::Cwd { rel, check } => match a {
            Answer::Path(Some(d)) => (next, if check {
                PendingModel::Check { path: join_spec(d@, rel) }
            } else {
                PendingModel::Done { found: Some(join_spec(d@, rel)) }
            }),
            _ => settle_spec(sources, next),
        },
        PendingModel::CwdWalk { rel } => match a {
            Answer::Path(Some(d)) => (next, PendingModel::Walk { dir: d@, rel }),
            _ => settle_spec(sources, next),
        },
        PendingModel::Check { path } => match a {
            Answer::IsFile(true) => (next, PendingModel::Done { found: Some(path) }),
            _ => settle_spec(sources, next),
        },
        PendingModel::Walk { dir, rel } => match a {
            Answer::IsFile(true) => (next, PendingModel::Done { found: Some(join_spec(dir, rel)) }),
            _ => if dir.parts.len() > 0 {
                (next, PendingModel::Walk {
                    dir: PathModel { absolute: dir.absolute, parts: dir.parts.drop_last() },
                    rel,
                })
            } else {
                settle_spec(sources, next)
            },
        },
        PendingModel::Done { .. } => (next, p),
    }
}

pub open spec fn opt_model(p: Option<Pending>) -> Option<PendingModel> {
    match p {
        Some(q) => Some(q@),
        None => None,
    }
}

/// What the source being looked at yields, once its answers are known.
pub open spec fn pending_value(p: Pending, h: Host) -> Option<PathModel> {
    match p {
        Pending::EnvValue { name, check } => match (h.env)(name@) {
            Some(q) => if check {
                existing(q, h)
            } else {
                Some(q)
            },
            None => None,
        },
        Pending::Home { rel, check } => joined(h.home, rel@, check, h),
        Pending::Cwd { rel, check } => joined(h.cwd, rel@, check, h),
        Pending::CwdWalk { rel } => match h.cwd {
            Some(c) => search(c, rel@, h),
            None => None,
        },
        Pending::Check { path } => existing(path@, h),
        Pending::Walk { dir, rel } => search(dir@, rel@, h),
        Pending::Done { found } => opt_view(found),
    }
}

/// The path that a resolution ends with on host `h`.
pub open spec fn outcome_of(p: Pending, rest: Seq<Source>, h: Host) -> Option<PathModel> {
    match p {
        Pending::Done { found } => opt_view(found),
        _ => match pending_value(p, h) {
            Some(q) => Some(q),
            None => resolve_spec(rest, h),
        },
    }
}

/// `a` is a true answer of host `h` to the question that `p` waits on.
pub open spec fn answers(h: Host, p: Pending, a: Answer) -> bool {
    match p {
        Pending::EnvValue { name, .. } => match a {
            Answer::Path(x) => opt_view(x) == (h.env)(name@),
            Answer::IsFile(_) => false,
        },
        Pending::Home { .. } => match a {
            Answer::Path(x) => opt_view(x) == h.home,
            Answer::IsFile(_) => false,
        },
        Pending::Cwd { .. } => match a {
            Answer::Path(x) => opt_view(x) == h.cwd,
            Answer::IsFile(_) => false,
        },
        Pending::CwdWalk { .. } => match a {
            Answer::Path(x) => opt_view(x) == h.cwd,
            Answer::IsFile(_) => false,
        },
        Pending::Check { path } => match a {
            Answer::IsFile(b) => b == (h.is_file)(path@),
            Answer::Path(_) => false,
        },
        Pending::Walk { dir, rel } => match a {
            Answer::IsFile(b) => b == (h.is_file)(join_spec(dir@, rel@)),
            Answer::Path(_) => false,
        },
        Pending::Done { .. } => true,
    }
}

/// `q` is the question that `p` waits on.
pub open spec fn asks(p: Pending, q: Query) -> bool {
    match p {
        Pending::EnvValue { name, .. } => match q {
            Query::EnvVar(n) => n@ == name@,
            _ => false,
        },
        Pending::Home { .. } => q is HomeDir,
        Pending::Cwd { .. } => q is CurrentDir,
        Pending::CwdWalk { .. } => q is CurrentDir,
        Pending::Check { path } => match q {
            Query::IsFile(x) => x@ == path@,
            _ => false,
        },
        Pending::Walk { dir, rel } => match q {
            Query::IsFile(x) => x@ == join_spec(dir@, rel@),
            _ => false,
        },
        Pending::Done { .. } => false,
    }
}

pub open spec fn phase(p: Pending) -> int {
    match p {
        Pending::Done { .. } => 0,
        Pending::Check { .. } => 1,
        Pending::Walk { .. } => 1,
        _ => 2,
    }
}

pub open spec fn depth(p: Pending) -> int {
    match p {
        Pending::Walk { dir, .. } => dir@.parts.len() as int,
        _ => 0,
    }
}

proof fn lemma_unfold(sources: Seq<Source>, j: int)
    requires
        0 <= j < sources.len(),
    ensures
        forall|h: Host|
            #[trigger] resolve_spec(sources.subrange(j, sources.len() as int), h) == match source_value(
                sources[j],
                h,
            ) {
                Some(p) => Some(p),
                None => resolve_spec(sources.subrange(j + 1, sources.len() as int), h),
            },
{
    let cur = sources.subrange(j, sources.len() as int);
    assert(cur.drop_first() =~= sources.subrange(j + 1, sources.len() as int));
    assert(cur[0] == sources[j]);
}

/// How the resolution of one source begins: `None` for a source that can
/// yield nothing, else the first waiting state (or the path itself).
fn start_of(s: &Source) -> (r: Option<Pending>)
    ensures
        opt_model(r) == start_spec(*s),
        match r {
            None => forall|h: Host| #[trigger] source_value(*s, h) is None,
            Some(p) => (forall|h: Host| #[trigger] pending_value(p, h) == source_value(*s, h)) && (
            p is Done ==> p->found is Some),
        },
{
    match s {
        Source::File(None) => None,
        Source::FileExists(None) => None,
        Source::File(Some(p)) => if p.is_relative() {
            Some(Pending::Cwd { rel: p.duplicate(), check: false })
        } else {
            Some(Pending::Done { found: Some(p.duplicate()) })
        },
        Source::FileExists(Some(p)) => if p.is_relative() {
            Some(Pending::Cwd { rel: p.duplicate(), check: true })
        } else {
            Some(Pending::Check { path: p.duplicate() })
        },
        Source::Env(n) => Some(Pending::EnvValue { name: n.clone(), check: false }),
        Source::EnvExists(n) => Some(Pending::EnvValue { name: n.clone(), check: true }),
        Source::Home(rel) => Some(Pending::Home { rel: rel.duplicate(), check: false }),
        Source::HomeExists(rel) => Some(Pending::Home { rel: rel.duplicate(), check: true }),
        Source::Cwd(rel) => Some(Pending::Cwd { rel: rel.duplicate(), check: false }),
        Source::CwdExists(rel) => Some(Pending::Cwd { rel: rel.duplicate(), check: true }),
        Source::CwdAndParentsExists(rel) => Some(Pending::CwdWalk { rel: rel.duplicate() }),
    }
}

/// Skips the sources from `i` on that need no answer, and stops at the first
/// that yields a path at once or needs a question answered.
fn settle(sources: &Vec<Source>, i: usize) -> (r: (usize, Pending))
    requires
        i <= sources.len(),
    ensures
        i <= r.0 <= sources.len(),
        r.0 > i || r.1 is Done,
        (r.0 as int, r.1@) == settle_spec(sources@, i as int),
        forall|h: Host|
            #[trigger] outcome_of(r.1, sources@.subrange(r.0 as int, sources.len() as int), h)
                == resolve_spec(sources@.subrange(i as int, sources.len() as int), h),
{
    let mut j: usize = i;
    while j < sources.len()
        invariant
            i <= j <= sources.len(),
            settle_spec(sources@, j as int) == settle_spec(sources@, i as int),
            forall|h: Host|
                #[trigger] resolve_spec(sources@.subrange(j as int, sources.len() as int), h)
                    == resolve_spec(sources@.subrange(i as int, sources.len() as int), h),
        decreases sources.len() - j,
    {
        proof {
            lemma_unfold(sources@, j as int);
        }
        let pending = start_of(&sources[j]);
        match pending {
            Some(p) => {
                assert forall|h: Host|
                    #[trigger] outcome_of(p, sources@.subrange(j + 1, sources.len() as int), h)
                        == resolve_spec(sources@.subrange(i as int, sources.len() as int), h) by {
                    assert(pending_value(p, h) == source_value(sources@[j as int], h));
                    assert(resolve_spec(sources@.subrange(j as int, sources.len() as int), h)
                        == resolve_spec(sources@.subrange(i as int, sources.len() as int), h));
                }
                return (j + 1, p);
            },
            None => {
                assert forall|h: Host|
                    #[trigger] resolve_spec(sources@.subrange(j + 1, sources.len() as int), h)
                        == resolve_spec(sources@.subrange(i as int, sources.len() as int), h) by {
                    assert(resolve_spec(sources@.subrange(j as int, sources.len() as int), h)
                        == resolve_spec(sources@.subrange(i as int, sources.len() as int), h));
                }
                j = j + 1;
            },
        }
    }
    (j, Pending::Done { found: None })
}

/// A chain being resolved against the host, one answer at a time.
pub struct Resolution {
    sources: Vec<Source>,
    next: usize,
    pending: Pending,
}

impl Resolution {
    pub closed spec fn wf(&self) -> bool {
        self.next <= self.sources.len()
    }

    /// The sources of the chain.
    pub closed spec fn chain(&self) -> Seq<Source> {
        self.sources@
    }

    /// The sources not looked at yet.
    pub closed spec fn remaining(&self) -> int {
        self.sources.len() - self.next
    }

    /// The index of the first source not looked at yet.
    pub closed spec fn index(&self) -> int {
        self.next as int
    }

    pub closed spec fn state(&self) -> Pending {
        self.pending
    }

    /// The path that this resolution ends with on host `h`.
    pub closed spec fn outcome(&self, h: Host) -> Option<PathModel> {
        outcome_of(self.pending, self.sources@.subrange(self.next as int, self.sources.len() as int), h)
    }

    /// `self` is strictly closer to its end than `before`.
    pub open spec fn advances(&self, before: &Resolution) -> bool {
        self.remaining() < before.remaining() || (self.remaining() == before.remaining() && (phase(
            self.state(),
        ) < phase(before.state()) || (phase(self.state()) == phase(before.state()) && depth(
            self.state(),
        ) < depth(before.state()))))
    }

    /// A finished resolution yields exactly its outcome: with the answers of
    /// host `h`, a chain started by [`FileLocation::resolution`] ends with
    /// `resolve_spec` of its sources on `h`.
    pub proof fn lemma_done_yields_outcome(&self, h: Host)
        requires
            self.state() is Done,
        ensures
            self.resolved() == self.outcome(h),
    {
    }

    /// An empty chain, finished with no path.
    pub fn empty() -> (r: Resolution)
        ensures
            r.wf(),
            r.chain() == Seq::<Source>::empty(),
            r.index() == 0,
            r.state()@ == (PendingModel::Done { found: None }),
    {
        Resolution { sources: Vec::new(), next: 0, pending: Pending::Done { found: None } }
    }

    pub fn is_done(&self) -> (r: bool)
        ensures
            r == (self.state() is Done),
    {
        match self.pending {
            Pending::Done { .. } => true,
            _ => false,
        }
    }

    /// The question to answer next, or `None` once the resolution is done.
    pub fn query(&self) -> (r: Option<Query>)
        ensures
            match r {
                Some(q) => asks(self.state(), q),
                None => self.state() is Done,
            },
    {
        match &self.pending {
            Pending::EnvValue { name, .. } => Some(Query::EnvVar(name.clone())),
            Pending::Home { .. } => Some(Query::HomeDir),
            Pending::Cwd { .. } => Some(Query::CurrentDir),
            Pending::CwdWalk { .. } => Some(Query::CurrentDir),
            Pending::Check { path } => Some(Query::IsFile(path.duplicate())),
            Pending::Walk { dir, rel } => Some(Query::IsFile(dir.join(rel))),
            Pending::Done { .. } => None,
        }
    }

    /// Moves on with the host's answer to the current question. On a true
    /// answer the outcome stays what it was, and a resolution that is not
    /// done comes strictly closer to its end.
    pub fn answer(self, a: Answer) -> (r: Resolution)
        requires
            self.wf(),
        ensures
            r.wf(),
            r.chain() == self.chain(),
            forall|h: Host| answers(h, self.state(), a) ==> #[trigger] r.outcome(h) == self.outcome(h),
            !(self.state() is Done) ==> r.advances(&self),
            self.state() is Done ==> r.state() == self.state(),
            (r.index(), r.state()@) == next_spec(self.state()@, a, self.chain(), self.index()),
    {
        let Resolution { sources, next, pending } = self;
        let ghost rest = sources@.subrange(next as int, sources.len() as int);
        match pending {
            Pending::EnvValue { name, check } => match a {
                Answer::Path(Some(p)) => if check {
                    Resolution { sources, next, pending: Pending::Check { path: p } }
                } else {
                    Resolution { sources, next, pending: Pending::Done { found: Some(p) } }
                },
                _ => {
                    let (n, p) = settle(&sources, next);
                    Resolution { sources, next: n, pending: p }
                },
            },
            Pending::Home { rel, check } => match a {
                Answer::Path(Some(d)) => {
                    let c = d.join(&rel);
                    if check {
                        Resolution { sources, next, pending: Pending::Check { path: c } }
                    } else {
                        Resolution { sources, next, pending: Pending::Done { found: Some(c) } }
                    }
                },
                _ => {
                    let (n, p) = settle(&sources, next);
                    Resolution { sources, next: n, pending: p }
                },
            },
            Pending::Cwd { rel, check } => match a {
                Answer::Path(Some(d)) => {
                    let c = d.join(&rel);
                    if check {
                        Resolution { sources, next, pending: Pending::Check { path: c } }
                    } else {
                        Resolution { sources, next, pending: Pending::Done { found: Some(c) } }
                    }
                },
                _ => {
                    let (n, p) = settle(&sources, next);
                    Resolution { sources, next: n, pending: p }
                },
            },
            Pending::CwdWalk { rel } => match a {
                Answer::Path(Some(d)) => Resolution {
                    sources,
                    next,
                    pending: Pending::Walk { dir: d, rel },
                },
                _ => {
                    let (n, p) = settle(&sources, next);
                    Resolution { sources, next: n, pending: p }
                },
            },
            Pending::Check { path } => match a {
                Answer::IsFile(true) => Resolution {
                    sources,
                    next,
                    pending: Pending::Done { found: Some(path) },
                },
                _ => {
                    let (n, p) = settle(&sources, next);
                    Resolution { sources, next: n, pending: p }
                },
            },
            Pending::Walk { dir, rel } => match a {
                Answer::IsFile(true) => {
                    let c = dir.join(&rel);
                    Resolution { sources, next, pending: Pending::Done { found: Some(c) } }
                },
                _ => match dir.parent() {
                    Some(up) => Resolution { sources, next, pending: Pending::Walk { dir: up, rel } },
                    None => {
                        let (n, p) = settle(&sources, next);
                        Resolution { sources, next: n, pending: p }
                    },
                },
            },
            Pending::Done { found } => Resolution { sources, next, pending: Pending::Done { found } },
        }
    }
}

impl Location for Resolution {
    open spec fn resolved(&self) -> Option<PathModel> {
        match self.state() {
            Pending::Done { found } => opt_view(found),
            _ => None,
        }
    }

    /// A finished resolution with a path yields it; any other gives back an
    /// empty chain, already finished with no path.
    fn try_into_path(self) -> (r: Either<FilePath, Self>)
        ensures
            match r {
                Either::Left(p) => self.state()@ == PendingModel::Done { found: Some(p@) },
                Either::Right(e) => e.chain() == Seq::<Source>::empty() && e.index() == 0 && e.state()@
                    == PendingModel::Done { found: None },
            },
    {
        let Resolution { pending, .. } = self;
        match pending {
            Pending::Done { found: Some(p) } => Either::Left(p),
            _ => Either::Right(Resolution::empty()),
        }
    }
}

} // verus!
