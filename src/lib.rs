//! A cache-or-generate pipeline for combining two things into a third: canonical
//! keys for unordered pairs, a store of known facts, few-shot context, prompt
//! rendering, and majority-vote consensus over sampled completions.

pub mod error;
pub mod pair;
pub mod prompt;
pub mod store;
pub mod context;
pub mod consensus;
pub mod resolve;

pub use error::ResolveError;
pub use pair::{Pair, Triple};
pub use prompt::{prompt, PROMPT, PROMPT_TAIL};
pub use store::TripleStore;
pub use context::{build_context, render_examples};
pub use resolve::{resolve_in, Action, Event, Phase, Resolver};
pub use consensus::{majority, process_result, settle, Strategy, UNDEFINED};
