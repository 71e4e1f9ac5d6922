//! Retrieval, caching and submission of daily programming puzzles.
//!
//! The library holds the decisions of the tool: which puzzle is meant, how a
//! puzzle is laid out in the local cache, what a puzzle page holds, and what
//! to do next while fetching or submitting. Reading files and talking to the
//! puzzle site is left to the caller, who runs the steps that the library
//! hands out.
pub mod id;
pub mod puzzle;
pub mod scrape;
pub mod cache;
pub mod client;

pub use cache::{Cache, CacheFile, Field};
pub use client::{Client, Event, Request, State};
pub use id::{build_path, derive_id, puzzle_id_from_path, validate_puzzle_id, IdError, PuzzleId};
pub use puzzle::Puzzle;
pub use scrape::{scrape_puzzle, submission_outcome, Submit};
