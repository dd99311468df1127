use vstd::prelude::*;

pub mod cli;
pub mod command;
pub mod conf;
pub mod context;
pub mod error;
pub mod git;
pub mod paths;
pub mod tmux;
pub mod user;

pub use error::RedwoodError;

verus! {

pub type Result<T> = core::result::Result<T, RedwoodError>;

} // verus!
