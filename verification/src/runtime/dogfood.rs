//! Options of the dogfood snapshot of a repository.
use vstd::prelude::*;

verus! {

/// Where the dogfood snapshot reads the repository and where it writes the snapshot.
#[derive(Debug, Clone)]
pub struct DogfoodRepoSnapshotOptions {
    pub repo: String,
    pub output: Option<String>,
}

} // verus!
