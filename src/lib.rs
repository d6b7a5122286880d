//! Decides, in priority order, which configuration files to register with a
//! `config` builder, and hands the builder to the application's own loading
//! logic.
use vstd::prelude::*;

use config::builder::{AsyncState, DefaultState};
use config::ConfigError;

pub use config;

pub use crate::load::Load;
pub use crate::location::file::FileLocation;
pub use crate::location::Location;
use crate::load::{
    add_async_file_source, add_file_source, new_async_builder, new_sync_builder,
    registered_async_files, registered_files, AsyncBuilder, SyncBuilder,
};
use crate::path::{text_spec, FilePath, PathModel};

pub mod load;
pub mod location;
pub mod path;

verus! {

pub open spec fn paths_of(v: Seq<FilePath>) -> Seq<PathModel> {
    v.map_values(|p: FilePath| p@)
}

/// The entries of `s` whose flag is set, in order.
pub open spec fn keep(s: Seq<PathModel>, flags: Seq<bool>) -> Seq<PathModel>
    decreases s.len(),
{
    if s.len() == 0 {
        Seq::empty()
    } else {
        let k = keep(s.drop_last(), flags.drop_last());
        if flags.last() {
            k.push(s.last())
        } else {
            k
        }
    }
}

proof fn lemma_keep_satisfies(s: Seq<PathModel>, is_file: spec_fn(PathModel) -> bool)
    ensures
        forall|j: int|
            0 <= j < keep(s, s.map_values(is_file)).len() ==> is_file(
                #[trigger] keep(s, s.map_values(is_file))[j],
            ),
    decreases s.len(),
{
    if s.len() > 0 {
        assert(s.map_values(is_file).drop_last() =~= s.drop_last().map_values(is_file));
        lemma_keep_satisfies(s.drop_last(), is_file);
        let m = s.map_values(is_file);
        let k = keep(s.drop_last(), s.drop_last().map_values(is_file));
        assert(m.last() == is_file(s.last()));
        assert(keep(s, m) == if m.last() {
            k.push(s.last())
        } else {
            k
        });
        assert forall|j: int| 0 <= j < keep(s, m).len() implies is_file(#[trigger] keep(s, m)[j]) by {
            if j < k.len() {
                assert(keep(s, m)[j] == k[j]);
            }
        }
    }
}

proof fn lemma_keep_all_satisfying(s: Seq<PathModel>, is_file: spec_fn(PathModel) -> bool)
    requires
        forall|j: int| 0 <= j < s.len() ==> is_file(#[trigger] s[j]),
    ensures
        keep(s, s.map_values(is_file)) == s,
    decreases s.len(),
{
    if s.len() > 0 {
        assert(s.map_values(is_file).drop_last() =~= s.drop_last().map_values(is_file));
        lemma_keep_all_satisfying(s.drop_last(), is_file);
        assert(s.drop_last().push(s.last()) =~= s);
    }
}

/// Excluding the paths that name no existing file is idempotent: a second
/// pass, with flags read from the same filesystem, keeps every path.
pub proof fn lemma_exclude_not_exists_idempotent(paths: Seq<PathModel>, is_file: spec_fn(PathModel) -> bool)
    ensures
        keep(keep(paths, paths.map_values(is_file)), keep(paths, paths.map_values(is_file)).map_values(
            is_file,
        )) == keep(paths, paths.map_values(is_file)),
{
    lemma_keep_satisfies(paths, is_file);
    lemma_keep_all_satisfying(keep(paths, paths.map_values(is_file)), is_file);
}

/// The outcome of building and deserialising a configuration.
pub type Result<T> = std::result::Result<T, ConfigError>;

/// An ordered list of configuration file paths, later ones taking precedence,
/// for a builder of flavour `S`.
#[derive(Debug)]
pub struct ConfigLoader<S = DefaultState> {
    config_paths: Vec<FilePath>,
    _state: std::marker::PhantomData<S>,
}

impl<S> ConfigLoader<S> {
    /// The accumulated paths, in order.
    pub closed spec fn paths(&self) -> Seq<PathModel> {
        paths_of(self.config_paths@)
    }

    /// A loader with no paths.
    pub fn new() -> (r: Self)
        ensures
            r.paths() == Seq::<PathModel>::empty(),
    {
        let r = ConfigLoader { config_paths: Vec::new(), _state: std::marker::PhantomData };
        assert(r.paths() =~= Seq::<PathModel>::empty());
        r
    }

    /// The accumulated paths, in order.
    pub fn config_paths(&self) -> (r: &Vec<FilePath>)
        ensures
            paths_of(r@) == self.paths(),
    {
        &self.config_paths
    }

    /// Appends the path of `location`, if it has one; else leaves the list as it is.
    pub fn add<L: Location>(self, location: L) -> (r: Self)
        ensures
            r.paths() == match location.resolved() {
                Some(p) => self.paths().push(p),
                None => self.paths(),
            },
    {
        let ConfigLoader { mut config_paths, _state } = self;
        let ghost before = config_paths@;
        match location.try_into_path() {
            either::Either::Left(path) => {
                config_paths.push(path);
                assert(paths_of(config_paths@) =~= paths_of(before).push(path@));
            },
            either::Either::Right(_) => {},
        }
        ConfigLoader { config_paths, _state }
    }

    /// Keeps only the paths whose flag in `exists` is set: one flag per path,
    /// telling whether it names a regular file.
    pub fn exclude_not_exists(self, exists: &Vec<bool>) -> (r: Self)
        requires
            exists.len() == self.paths().len(),
        ensures
            r.paths() == keep(self.paths(), exists@),
    {
        let ConfigLoader { config_paths, _state } = self;
        let ghost all = paths_of(config_paths@);
        let mut kept: Vec<FilePath> = Vec::new();
        let mut i: usize = 0;
        while i < config_paths.len()
            invariant
                exists.len() == all.len() == config_paths.len(),
                all == paths_of(config_paths@),
                0 <= i <= all.len(),
                paths_of(kept@) == keep(all.subrange(0, i as int), exists@.subrange(0, i as int)),
            decreases all.len() - i,
        {
            assert(all.subrange(0, i + 1).drop_last() =~= all.subrange(0, i as int));
            assert(exists@.subrange(0, i + 1).drop_last() =~= exists@.subrange(0, i as int));
            let ghost before = kept@;
            if exists[i] {
                kept.push(config_paths[i].duplicate());
                assert(paths_of(kept@) =~= paths_of(before).push(all[i as int]));
            }
            i = i + 1;
        }
        assert(all.subrange(0, i as int) =~= all);
        assert(exists@.subrange(0, i as int) =~= exists@);
        ConfigLoader { config_paths: kept, _state }
    }
}

impl<S> Clone for ConfigLoader<S> {
    fn clone(&self) -> (r: Self)
        ensures
            r.paths() == self.paths(),
    {
        let mut config_paths: Vec<FilePath> = Vec::new();
        let mut i: usize = 0;
        while i < self.config_paths.len()
            invariant
                0 <= i <= self.config_paths.len(),
                paths_of(config_paths@) == paths_of(self.config_paths@).subrange(0, i as int),
            decreases self.config_paths.len() - i,
        {
            let ghost before = config_paths@;
            config_paths.push(self.config_paths[i].duplicate());
            assert(paths_of(config_paths@) =~= paths_of(before).push(self.config_paths@[i as int]@));
            i = i + 1;
            assert(paths_of(config_paths@) =~= paths_of(self.config_paths@).subrange(0, i as int));
        }
        assert(paths_of(self.config_paths@).subrange(0, i as int) =~= paths_of(self.config_paths@));
        ConfigLoader { config_paths, _state: std::marker::PhantomData }
    }
}

impl Default for ConfigLoader<DefaultState> {
    fn default() -> (r: Self)
        ensures
            r.paths() == Seq::<PathModel>::empty(),
    {
        Self::new_default()
    }
}

impl ConfigLoader<DefaultState> {
    /// A loader with no paths, for a synchronous builder.
    pub fn new_default() -> (r: Self)
        ensures
            r.paths() == Seq::<PathModel>::empty(),
    {
        Self::new()
    }

    /// A synchronous builder with one file source per accumulated path, in order.
    pub fn builder(self) -> (r: SyncBuilder)
        ensures
            registered_files(r) == self.paths().map_values(|p: PathModel| text_spec(p)),
    {
        let ghost all = self.paths();
        let mut b = new_sync_builder();
        let mut i: usize = 0;
        let paths = &self.config_paths;
        while i < paths.len()
            invariant
                all == paths_of(paths@),
                0 <= i <= all.len(),
                registered_files(b) == all.subrange(0, i as int).map_values(|p: PathModel| text_spec(p)),
            decreases all.len() - i,
        {
            let text = paths[i].to_text();
            b = add_file_source(b, text.as_str());
            assert(paths@[i as int]@ == all[i as int]);
            i = i + 1;
            assert(registered_files(b) =~= all.subrange(0, i as int).map_values(|p: PathModel| text_spec(p)));
        }
        assert(all.subrange(0, i as int) =~= all);
        b
    }

    /// Builds as [`ConfigLoader::builder`] does and hands the builder to `T`.
    pub fn load<T: Load<SyncBuilder>>(self) -> Result<T> {
        let config_builder = self.builder();
        T::load(config_builder)
    }
}

impl ConfigLoader<AsyncState> {
    /// A loader with no paths, for an asynchronous builder.
    pub fn new_async() -> (r: Self)
        ensures
            r.paths() == Seq::<PathModel>::empty(),
    {
        Self::new()
    }

    /// An asynchronous builder with one file source per accumulated path, in order.
    pub fn builder(self) -> (r: AsyncBuilder)
        ensures
            registered_async_files(r) == self.paths().map_values(|p: PathModel| text_spec(p)),
    {
        let ghost all = self.paths();
        let mut b = new_async_builder();
        let mut i: usize = 0;
        let paths = &self.config_paths;
        while i < paths.len()
            invariant
                all == paths_of(paths@),
                0 <= i <= all.len(),
                registered_async_files(b) == all.subrange(0, i as int).map_values(|p: PathModel| text_spec(p)),
            decreases all.len() - i,
        {
            let text = paths[i].to_text();
            b = add_async_file_source(b, text.as_str());
            assert(paths@[i as int]@ == all[i as int]);
            i = i + 1;
            assert(registered_async_files(b) =~= all.subrange(0, i as int).map_values(|p: PathModel| text_spec(p)));
        }
        assert(all.subrange(0, i as int) =~= all);
        b
    }

    /// Builds as [`ConfigLoader::builder`] does and hands the builder to `T`.
    pub fn load<T: Load<AsyncBuilder>>(self) -> Result<T> {
        let config_builder = self.builder();
        T::load(config_builder)
    }
}

} // verus!
