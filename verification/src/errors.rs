//! The failure taxonomy of the rendering pipeline.

use vstd::prelude::*;
use crate::entry::StoreError;

verus! {

/// The kind of a pipeline failure, without its message.
#[derive(PartialEq, Eq, Structural, Clone, Copy, Debug)]
pub enum ErrKind {
    /// A required setting is missing or holds an unusable value.
    Configuration,
    /// A template expression does not parse.
    TemplateCompile,
    /// A compiled template failed while rendering one entry.
    TemplateRender,
    /// The ancestor walk reported a store failure.
    Store,
}

/// The first failure the pipeline met. Everything surfaces to the command
/// boundary: there is no local recovery, retry, or per-entry skip policy.
#[derive(Debug)]
pub enum CommandError {
    /// A required setting is missing or holds an unusable value.
    Configuration(String),
    /// A template expression does not parse.
    TemplateCompile(String),
    /// A compiled template failed while rendering one entry.
    TemplateRender(String),
    /// The ancestor walk reported a store failure.
    Store(StoreError),
}

impl CommandError {
    /// The kind of this error, with the message stripped.
    pub open spec fn kind(self) -> ErrKind {
        match self {
            CommandError::Configuration(_) => ErrKind::Configuration,
            CommandError::TemplateCompile(_) => ErrKind::TemplateCompile,
            CommandError::TemplateRender(_) => ErrKind::TemplateRender,
            CommandError::Store(_) => ErrKind::Store,
        }
    }

    /// Reports which kind of failure this is.
    pub fn kind_of(&self) -> (k: ErrKind)
        ensures
            k == self.kind(),
    {
        match self {
            CommandError::Configuration(_) => ErrKind::Configuration,
            CommandError::TemplateCompile(_) => ErrKind::TemplateCompile,
            CommandError::TemplateRender(_) => ErrKind::TemplateRender,
            CommandError::Store(_) => ErrKind::Store,
        }
    }
}

} // verus!
