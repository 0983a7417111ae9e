//! Errors of the target metadata providers

use vstd::prelude::*;
use vstd::string::StringExecFns;

verus! {

/// An error that occurred during container metadata fetching, with the
/// description of its cause when there is one
pub struct FetchError {
    pub cause: Option<String>,
}

/// The description of a fetch error
pub open spec fn fetch_error_text(cause: Option<Seq<char>>) -> Seq<char> {
    match cause {
        None => "could not successfully fetch container metadata list"@,
        Some(c) => "could not successfully fetch container metadata list: "@ + c,
    }
}

impl FetchError {
    /// Creates a new fetch error, optionally with the description of its cause
    pub fn new(cause: Option<String>) -> (r: Self)
        ensures
            r.cause == cause,
    {
        FetchError { cause }
    }

    /// The description of the error: the fetch failure, then its cause
    pub fn message(&self) -> (r: String)
        ensures
            r@ == fetch_error_text(
                match self.cause {
                    Some(c) => Some(c@),
                    None => None,
                },
            ),
    {
        match &self.cause {
            None => "could not successfully fetch container metadata list".to_owned(),
            Some(e) => {
                let mut text = "could not successfully fetch container metadata list: ".to_owned();
                text.append(e.as_str());
                text
            },
        }
    }
}

/// An error that occurred during provider initialization/connection check,
/// including a message
pub struct InitializationError {
    pub message: String,
}

impl InitializationError {
    /// Creates a new connection error
    pub fn new(message: &str) -> (r: Self)
        ensures
            r.message@ == message@,
    {
        InitializationError { message: message.to_owned() }
    }

    /// The description of the error
    pub fn description(&self) -> (r: String)
        ensures
            r@ == "could not connect to the provider resources: "@ + self.message@,
    {
        let mut text = "could not connect to the provider resources: ".to_owned();
        text.append(self.message.as_str());
        text
    }
}

} // verus!
