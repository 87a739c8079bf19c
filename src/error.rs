use vstd::prelude::*;

verus! {

/// A response that lacks a field the audit cannot do without.
#[derive(Debug, Clone, Copy, PartialEq, Eq, Structural)]
pub enum ShapeError {
    /// The response carried no data payload.
    MissingData,
    /// The search result carried no node list.
    MissingNodes,
    /// A repository carried no topic node list.
    MissingTopics,
}

impl ShapeError {
    /// A short description of the error.
    pub fn message(&self) -> (r: String)
        ensures
            r@ == match self {
                ShapeError::MissingData => "missing response data"@,
                ShapeError::MissingNodes => "no nodes found"@,
                ShapeError::MissingTopics => "no repository topic list found"@,
            },
    {
        match self {
            ShapeError::MissingData => "missing response data".to_owned(),
            ShapeError::MissingNodes => "no nodes found".to_owned(),
            ShapeError::MissingTopics => "no repository topic list found".to_owned(),
        }
    }
}

} // verus!
