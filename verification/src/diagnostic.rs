//! What is reported when no key table can be made for a declaration.

use vstd::prelude::*;
use vstd::string::StringExecFns;

verus! {

/// One problem found in a declaration: what is wrong, where, and the message
/// to show there.
#[derive(Debug, Clone, PartialEq, Eq)]
pub enum Diagnostic {
    /// The declaration is not an enum. Belongs at the type's name.
    WrongKind { message: String },
    /// The variant at position `variant` has no `tag` annotation. Belongs at
    /// the variant.
    MissingAnnotation { variant: usize, message: String },
    /// The tag of the variant at position `variant`, its annotation number
    /// `annotation`, does not hold a single string literal. Belongs at the
    /// annotation.
    MalformedAnnotation { variant: usize, annotation: usize, message: String },
}

/// The mathematical value of a [`Diagnostic`].
pub enum DiagnosticView {
    WrongKind { message: Seq<char> },
    MissingAnnotation { variant: int, message: Seq<char> },
    MalformedAnnotation { variant: int, annotation: int, message: Seq<char> },
}

impl View for Diagnostic {
    type V = DiagnosticView;

    open spec fn view(&self) -> DiagnosticView {
        match self {
            Diagnostic::WrongKind { message } => DiagnosticView::WrongKind { message: message@ },
            Diagnostic::MissingAnnotation { variant, message } => DiagnosticView::MissingAnnotation {
                variant: *variant as int,
                message: message@,
            },
            Diagnostic::MalformedAnnotation {
                variant,
                annotation,
                message,
            } => DiagnosticView::MalformedAnnotation {
                variant: *variant as int,
                annotation: *annotation as int,
                message: message@,
            },
        }
    }
}

impl DiagnosticView {
    /// The text shown to the author.
    pub open spec fn message(self) -> Seq<char> {
        match self {
            DiagnosticView::WrongKind { message } => message,
            DiagnosticView::MissingAnnotation { message, .. } => message,
            DiagnosticView::MalformedAnnotation { message, .. } => message,
        }
    }

    /// The one diagnostic of a declaration that is not an enum.
    pub open spec fn wrong_kind() -> DiagnosticView {
        DiagnosticView::WrongKind { message: "Localized can only be derived for enums"@ }
    }

    /// The diagnostic of the variant `name`, at position `variant`, that has
    /// no tag. Its message names the variant.
    pub open spec fn missing_annotation(variant: int, name: Seq<char>) -> DiagnosticView {
        DiagnosticView::MissingAnnotation {
            variant,
            message: "Missing #[tag(\"...\")] for variant `"@ + name + "`"@,
        }
    }
}

impl Diagnostic {
    /// The text shown to the author.
    pub fn message(&self) -> (text: &str)
        ensures
            text@ == self@.message(),
    {
        match self {
            Diagnostic::WrongKind { message } => message.as_str(),
            Diagnostic::MissingAnnotation { message, .. } => message.as_str(),
            Diagnostic::MalformedAnnotation { message, .. } => message.as_str(),
        }
    }

    /// The one diagnostic of a declaration that is not an enum.
    pub fn wrong_kind() -> (diagnostic: Diagnostic)
        ensures
            diagnostic@ == DiagnosticView::wrong_kind(),
    {
        Diagnostic::WrongKind { message: String::from_str("Localized can only be derived for enums") }
    }

    /// The diagnostic of the variant `name`, at position `variant`, that has
    /// no tag.
    pub fn missing_annotation(variant: usize, name: &str) -> (diagnostic: Diagnostic)
        ensures
            diagnostic@ == DiagnosticView::missing_annotation(variant as int, name@),
    {
        let mut message = String::from_str("Missing #[tag(\"...\")] for variant `");
        message.append(name);
        message.append("`");
        Diagnostic::MissingAnnotation { variant, message }
    }
}

/// The mathematical values of a list of diagnostics, in order.
pub open spec fn diagnostic_views(diagnostics: Seq<Diagnostic>) -> Seq<DiagnosticView> {
    Seq::new(diagnostics.len(), |i: int| diagnostics[i]@)
}

} // verus!
