//! Verified core of a git/cargo release helper.
//!
//! The crate carries the two subsystems with nontrivial logic: a small
//! text-pattern-matching library (substring, character-set and predicate
//! search over text) and the release/navigation engine built on it
//! (version parsing and bumping, commit-history navigation, and the
//! multi-step save workflow expressed as a state machine).  Console and
//! subprocess plumbing stays outside the library; every function here is
//! pure and fully specified.

pub mod history;
pub mod navigation;
pub mod pattern;
pub mod text;
pub mod version;
pub mod workflow;
