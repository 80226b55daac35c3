use vstd::prelude::*;

verus! {

/// Why a request could not be answered. Each variant holds a description.
#[derive(Debug)]
pub enum ResolveError {
    /// The answer could not be stored.
    Store(String),
    /// The single completion call failed.
    Oracle(String),
    /// The prompt template could not be rendered.
    Template(String),
}

impl ResolveError {
    /// The description carried by the error.
    pub fn message(&self) -> (r: String)
        ensures
            r@ == match self {
                ResolveError::Store(m) => m@,
                ResolveError::Oracle(m) => m@,
                ResolveError::Template(m) => m@,
            },
    {
        match self {
            ResolveError::Store(m) => m.clone(),
            ResolveError::Oracle(m) => m.clone(),
            ResolveError::Template(m) => m.clone(),
        }
    }
}

} // verus!
