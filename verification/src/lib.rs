use vstd::prelude::*;

pub mod assemble;
pub mod error;
pub mod filter;
pub mod generator;
pub mod guard;
pub mod header;
pub mod item;
pub mod pipeline;
pub mod repo;
pub mod text;

pub use assemble::AssembleError;
pub use assemble::assemble;
pub use error::DecodeError;
pub use error::Error;
pub use filter::Filter;
pub use filter::FilterType;
pub use filter::MutationOp;
pub use guard::GuardState;
pub use guard::Git;
pub use guard::InitError;
pub use guard::InitGuard;
pub use guard::VersionGuard;
pub use header::Header;
pub use item::Item;
pub use pipeline::Stage;
pub use repo::RepoInitError;
pub use repo::RepoRequest;
pub use repo::Repository;

verus! {

} // verus!
