//! Reading the key that an annotation holds.
//!
//! Whether the arguments of an annotation are a single string literal, and
//! which one, is decided by `syn`. Nothing is proved of that step and nothing
//! is claimed of it: the text is read by the lexer of the process at hand, so
//! what one process makes of it is no promise about another. The library
//! states what it does with every possible answer.

use crate::declaration::{Annotation, AnnotationView, Payload, PayloadView};
use vstd::prelude::*;
use vstd::string::StringExecFns;

verus! {

/// The mathematical value of a reading: the key, or the message of the
/// failure.
pub open spec fn reading_view(reading: Result<String, String>) -> Result<Seq<char>, Seq<char>> {
    match reading {
        Ok(key) => Ok(key@),
        Err(message) => Err(message@),
    }
}

/// Parses `tokens` as one string literal with `syn::parse_str::<syn::LitStr>`.
///
/// On success the result is `syn::LitStr::value` of the literal, on failure
/// the text that `syn::Error` displays. It has no contract: `syn` hands the
/// text to `proc_macro2`, which lexes it itself or leaves that to the
/// compiler, depending on the process, so no result is promised for any
/// text. Callers are proved for whatever comes back.
#[verifier::external_body]
fn parse_string_literal(tokens: &str) -> (reading: Result<String, String>) {
    match syn::parse_str::<syn::LitStr>(tokens) {
        Ok(literal) => Ok(literal.value()),
        Err(error) => Err(error.to_string()),
    }
}

impl AnnotationView {
    /// The reading that the form of the annotation fixes by itself. Without
    /// a delimited group there is nothing to parse, and the reading is the
    /// failure that shows the expected form. With arguments nothing is
    /// fixed: the parser decides.
    pub open spec fn fixed_reading(self) -> Option<Result<Seq<char>, Seq<char>>> {
        match self.payload {
            PayloadView::Arguments(_) => None,
            PayloadView::Absent => Some(
                Err("expected attribute arguments in parentheses: #["@ + self.name + "(...)]"@),
            ),
            PayloadView::Assigned => Some(
                Err("expected parentheses: #["@ + self.name + "(...)]"@),
            ),
        }
    }

    /// `reading` is one that this annotation can have: any reading where it
    /// has arguments, and else the one that its form fixes.
    pub open spec fn admits(self, reading: Result<Seq<char>, Seq<char>>) -> bool {
        match self.fixed_reading() {
            Some(fixed) => reading == fixed,
            None => true,
        }
    }
}

impl Annotation {
    /// Reads the annotation's key.
    ///
    /// Arguments are handed to `syn`, which accepts exactly one string
    /// literal; of its answer nothing is stated. An annotation without a
    /// delimited group has nothing to parse and fails with a message that
    /// shows the expected form.
    pub fn read(&self) -> (reading: Result<String, String>)
        ensures
            self@.admits(reading_view(reading)),
    {
        match &self.payload {
            Payload::Arguments(tokens) => parse_string_literal(tokens.as_str()),
            Payload::Absent => {
                let mut message = String::from_str("expected attribute arguments in parentheses: #[");
                message.append(self.name.as_str());
                message.append("(...)]");
                Err(message)
            },
            Payload::Assigned => {
                let mut message = String::from_str("expected parentheses: #[");
                message.append(self.name.as_str());
                message.append("(...)]");
                Err(message)
            },
        }
    }
}

} // verus!
