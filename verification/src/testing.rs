//! For testing your extension.

use vstd::prelude::*;

verus! {

/// Result of an event handler
#[derive(Debug, PartialEq, Eq)]
pub enum Result<T, E> {
    /// an event has been handled and the handler is done, the value of T is the return value of the event handler
    Done(T),
    /// the handler has encountered an error, the value of T is the return value of the event handler
    Failed(E),
    /// an event is handled but the handler is not done and should receive another event
    Continue,
    /// the handler reached the specified timeout
    Timeout,
}

impl<T, E> Result<T, E> {
    /// Returns true if the result is an ok result
    pub fn is_ok(&self) -> (r: bool)
        ensures
            r == self is Done,
    {
        match self {
            Result::Done(_) => true,
            _ => false,
        }
    }

    /// Returns true if the result is an error
    pub fn is_err(&self) -> (r: bool)
        ensures
            r == self is Failed,
    {
        match self {
            Result::Failed(_) => true,
            _ => false,
        }
    }

    /// Returns true if the result is a continue result
    pub fn is_continue(&self) -> (r: bool)
        ensures
            r == self is Continue,
    {
        match self {
            Result::Continue => true,
            _ => false,
        }
    }

    /// Returns true if the result is a timeout result
    pub fn is_timeout(&self) -> (r: bool)
        ensures
            r == self is Timeout,
    {
        match self {
            Result::Timeout => true,
            _ => false,
        }
    }
}

} // verus!
