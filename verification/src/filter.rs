//! The key filter: a regular expression, compiled once, that decides which
//! top-level keys take part in an operation.

use crate::bridge::{compile, is_match, pattern_fault, pattern_matches, regex_pattern};
use vstd::prelude::*;

verus! {

/// The filter that a pattern asks for: none for an absent or an empty
/// pattern, else the pattern itself.
pub open spec fn filter_of(pattern: Option<Seq<char>>) -> Option<Seq<char>> {
    match pattern {
        Some(text) if text.len() > 0 => Some(text),
        _ => None,
    }
}

/// Whether a filter lets a key through: without a pattern every key passes;
/// with one, the keys in which the pattern has a match.
pub open spec fn accepts(filter: Option<Seq<char>>, key: Seq<char>) -> bool {
    match filter {
        Some(pattern) => pattern_matches(pattern, key),
        None => true,
    }
}

/// A pattern that is not a regular expression.
#[derive(Clone, Debug, PartialEq)]
pub struct RegexCompileError {
    /// What the compiler of regular expressions said of the pattern.
    pub message: String,
}

/// A compiled key filter. Its view is the pattern it was compiled from, or
/// `None` for the filter that lets every key through.
pub struct KeyFilter {
    regex: Option<regex::Regex>,
}

impl View for KeyFilter {
    type V = Option<Seq<char>>;

    closed spec fn view(&self) -> Option<Seq<char>> {
        match self.regex {
            Some(regex) => Some(regex_pattern(regex)),
            None => None,
        }
    }
}

impl KeyFilter {
    /// The filter that lets every key through.
    pub fn accept_all() -> (filter: KeyFilter)
        ensures
            filter@ is None,
    {
        KeyFilter { regex: None }
    }

    /// Compiles a pattern. An absent or empty pattern gives the filter that
    /// lets every key through; a pattern that is not a regular expression is
    /// an error, with the compiler's message.
    pub fn compile(pattern: Option<&String>) -> (outcome: Result<KeyFilter, RegexCompileError>)
        ensures
            match outcome {
                Ok(filter) => {
                    &&& filter@ == filter_of(pattern_view(pattern))
                    &&& filter@ matches Some(text) ==> pattern_fault(text) is None
                },
                Err(error) => {
                    &&& filter_of(pattern_view(pattern)) matches Some(text)
                    &&& pattern_fault(text) == Some(error.message@)
                },
            },
    {
        match pattern {
            Some(text) => {
                if text.as_str().is_empty() {
                    Ok(KeyFilter { regex: None })
                } else {
                    match compile(text.as_str()) {
                        Ok(regex) => Ok(KeyFilter { regex: Some(regex) }),
                        Err(message) => Err(RegexCompileError { message }),
                    }
                }
            },
            None => Ok(KeyFilter { regex: None }),
        }
    }

    /// Whether the filter lets a key through.
    pub fn matches(&self, key: &str) -> (passes: bool)
        ensures
            passes == accepts(self@, key@),
    {
        match &self.regex {
            Some(regex) => is_match(regex, key),
            None => true,
        }
    }
}

/// The characters of an optional pattern.
pub open spec fn pattern_text(pattern: Option<String>) -> Option<Seq<char>> {
    match pattern {
        Some(text) => Some(text@),
        None => None,
    }
}

/// The characters of an optional pattern that is borrowed.
pub open spec fn pattern_view(pattern: Option<&String>) -> Option<Seq<char>> {
    match pattern {
        Some(text) => Some(text@),
        None => None,
    }
}

} // verus!
