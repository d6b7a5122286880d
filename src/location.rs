//! Something that stands for at most one configuration file path.
use vstd::prelude::*;

use crate::path::{FilePath, PathModel};

pub mod file;

verus! {

/// Relies on `either::Either`: an enum of two public variants, `Left(L)` and
/// `Right(R)`, read here as it is declared.
#[verifier::external_type_specification]
#[verifier::reject_recursive_types(L)]
#[verifier::reject_recursive_types(R)]
pub struct ExEither<L, R>(either::Either<L, R>);

/// A location yields its path, or, when it has none, an empty location of
/// its own kind.
pub trait Location: Sized {
    /// The path that this location stands for, if any.
    spec fn resolved(&self) -> Option<PathModel>;

    fn try_into_path(self) -> (r: either::Either<FilePath, Self>)
        ensures
            match r {
                either::Either::Left(p) => self.resolved() == Some(p@),
                either::Either::Right(e) => self.resolved() is None && e.resolved() is None,
            },
    ;
}

} // verus!
