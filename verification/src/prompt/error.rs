//! Errors of the prompt template system.

use vstd::prelude::*;

verus! {

#[derive(Debug, Clone)]
pub enum PromptError {
    MissingVariable(String),
    InvalidType(String),
    NotFound(String),
    VersionConflict(String),
    RenderError(String),
    ValidationError(String),
}

/// A prompt error as plain values.
pub enum PromptErrorView {
    MissingVariable(Seq<char>),
    InvalidType(Seq<char>),
    NotFound(Seq<char>),
    VersionConflict(Seq<char>),
    RenderError(Seq<char>),
    ValidationError(Seq<char>),
}

impl View for PromptError {
    type V = PromptErrorView;

    open spec fn view(&self) -> PromptErrorView {
        match self {
            PromptError::MissingVariable(s) => PromptErrorView::MissingVariable(s@),
            PromptError::InvalidType(s) => PromptErrorView::InvalidType(s@),
            PromptError::NotFound(s) => PromptErrorView::NotFound(s@),
            PromptError::VersionConflict(s) => PromptErrorView::VersionConflict(s@),
            PromptError::RenderError(s) => PromptErrorView::RenderError(s@),
            PromptError::ValidationError(s) => PromptErrorView::ValidationError(s@),
        }
    }
}

/// The human-readable text of an error.
pub open spec fn prompt_error_text(e: PromptErrorView) -> Seq<char> {
    match e {
        PromptErrorView::MissingVariable(s) => "missing variable: "@ + s,
        PromptErrorView::InvalidType(s) => "invalid variable type: "@ + s,
        PromptErrorView::NotFound(s) => "template not found: "@ + s,
        PromptErrorView::VersionConflict(s) => "version conflict: "@ + s,
        PromptErrorView::RenderError(s) => "render error: "@ + s,
        PromptErrorView::ValidationError(s) => "validation error: "@ + s,
    }
}

impl PromptError {
    /// The human-readable text of the error.
    pub fn message(&self) -> (m: String)
        ensures
            m@ == prompt_error_text(self@),
    {
        let (prefix, detail) = match self {
            PromptError::MissingVariable(s) => ("missing variable: ", s),
            PromptError::InvalidType(s) => ("invalid variable type: ", s),
            PromptError::NotFound(s) => ("template not found: ", s),
            PromptError::VersionConflict(s) => ("version conflict: ", s),
            PromptError::RenderError(s) => ("render error: ", s),
            PromptError::ValidationError(s) => ("validation error: ", s),
        };
        let mut m = crate::text::owned(prefix);
        m.append(detail.as_str());
        m
    }
}

} // verus!
