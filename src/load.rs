//! The `config` builders that accumulated paths are handed to, and the
//! extension point that turns such a builder into a typed value.
use vstd::prelude::*;

use config::builder::{AsyncState, DefaultState};
use config::{Config, ConfigBuilder, ConfigError};

verus! {

/// Relies on `config::builder::DefaultState`: carried through unopened.
#[verifier::external_type_specification]
#[verifier::external_body]
pub struct ExDefaultState(DefaultState);

/// Relies on `config::builder::AsyncState`: carried through unopened.
#[verifier::external_type_specification]
#[verifier::external_body]
pub struct ExAsyncState(AsyncState);

/// Relies on `config::ConfigError`: carried through unopened.
#[verifier::external_type_specification]
#[verifier::external_body]
pub struct ExConfigError(ConfigError);

/// A synchronous `config` builder, held behind this type because its generic
/// bound on an outside trait cannot be declared to the verifier. Only this
/// library makes one (the private field sees to that); the application takes
/// the builder out of the public field to add its own sources and build.
#[verifier::external_body]
pub struct SyncBuilder {
    pub builder: ConfigBuilder<DefaultState>,
    sealed: (),
}

/// An asynchronous `config` builder, held as [`SyncBuilder`] is.
#[verifier::external_body]
pub struct AsyncBuilder {
    pub builder: ConfigBuilder<AsyncState>,
    sealed: (),
}

/// The file paths registered with a synchronous builder, in registration order.
pub uninterp spec fn registered_files(b: SyncBuilder) -> Seq<Seq<char>>;

/// The file paths registered with an asynchronous builder, in registration order.
pub uninterp spec fn registered_async_files(b: AsyncBuilder) -> Seq<Seq<char>>;

/// Relies on `config::Config::builder`: a fresh builder with no sources.
#[verifier::external_body]
pub(crate) fn new_sync_builder() -> (r: SyncBuilder)
    ensures
        registered_files(r) == Seq::<Seq<char>>::empty(),
{
    SyncBuilder { builder: Config::builder(), sealed: () }
}

/// Relies on `ConfigBuilder::<AsyncState>::default`: a fresh builder with no sources.
#[verifier::external_body]
pub(crate) fn new_async_builder() -> (r: AsyncBuilder)
    ensures
        registered_async_files(r) == Seq::<Seq<char>>::empty(),
{
    AsyncBuilder { builder: ConfigBuilder::<AsyncState>::default(), sealed: () }
}

/// Relies on `ConfigBuilder::<DefaultState>::add_source` with `config::File::from`:
/// the file at `path` is registered after those already there.
#[verifier::external_body]
pub(crate) fn add_file_source(b: SyncBuilder, path: &str) -> (r: SyncBuilder)
    ensures
        registered_files(r) == registered_files(b).push(path@),
{
    SyncBuilder {
        builder: b.builder.add_source(config::File::from(std::path::PathBuf::from(path))),
        sealed: (),
    }
}

/// Relies on `ConfigBuilder::<AsyncState>::add_source` with `config::File::from`:
/// the file at `path` is registered after those already there.
#[verifier::external_body]
pub(crate) fn add_async_file_source(b: AsyncBuilder, path: &str) -> (r: AsyncBuilder)
    ensures
        registered_async_files(r) == registered_async_files(b).push(path@),
{
    AsyncBuilder {
        builder: b.builder.add_source(config::File::from(std::path::PathBuf::from(path))),
        sealed: (),
    }
}

/// Turns a builder of flavour `B`, already holding the accumulated file
/// sources in priority order, into a typed value; implemented by the
/// application for its own configuration type.
pub trait Load<B = SyncBuilder>: Sized {
    fn load(config_builder: B) -> Result<Self, ConfigError>;
}

} // verus!
