//! The port interface that resilience decorators wrap, and its error.

use vstd::prelude::*;

verus! {

/// Why a port call failed.
#[derive(Debug, Clone)]
pub enum IsaError {
    /// The port `port` failed with `message`.
    Port { port: String, message: String },
    /// A circuit breaker named `name` short-circuited the call.
    CircuitOpen { name: String },
}

/// A port error as plain values.
pub enum IsaErrorView {
    Port { port: Seq<char>, message: Seq<char> },
    CircuitOpen { name: Seq<char> },
}

impl View for IsaError {
    type V = IsaErrorView;

    open spec fn view(&self) -> IsaErrorView {
        match self {
            IsaError::Port { port, message } => IsaErrorView::Port { port: port@, message: message@ },
            IsaError::CircuitOpen { name } => IsaErrorView::CircuitOpen { name: name@ },
        }
    }
}

/// The text of an error.
pub open spec fn isa_error_text(e: IsaErrorView) -> Seq<char> {
    match e {
        IsaErrorView::Port { port, message } => "port "@ + port + ": "@ + message,
        IsaErrorView::CircuitOpen { name } => "circuit open: "@ + name,
    }
}

impl IsaError {
    /// A failure of the port `port`.
    pub fn port(port: &str, message: &str) -> (e: IsaError)
        ensures
            e@ == (IsaErrorView::Port { port: port@, message: message@ }),
    {
        IsaError::Port { port: crate::text::owned(port), message: crate::text::owned(message) }
    }

    /// The text of the error.
    pub fn message(&self) -> (m: String)
        ensures
            m@ == isa_error_text(self@),
    {
        proof {
            reveal_strlit("port ");
            reveal_strlit(": ");
            reveal_strlit("circuit open: ");
        }
        match self {
            IsaError::Port { port, message } => {
                let mut m = crate::text::owned("port ");
                m.append(port.as_str());
                m.append(": ");
                m.append(message.as_str());
                m
            },
            IsaError::CircuitOpen { name } => {
                let mut m = crate::text::owned("circuit open: ");
                m.append(name.as_str());
                m
            },
        }
    }
}

/// A named operation that takes `In` and gives `Out` or fails.
///
/// Callers learn nothing of an implementation's result beyond its type:
/// every verified caller states what holds whatever the port returned.
pub trait Port<In, Out> {
    /// The port's display name.
    fn name(&self) -> &str;

    /// Runs the operation once.
    fn call(&mut self, input: In) -> Result<Out, IsaError>;
}

} // verus!
