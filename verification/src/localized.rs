//! The interface that every enum with a key table offers.

use std::borrow::Cow;
use vstd::prelude::*;

verus! {

/// A value that stands for a message: it has a key, and a text in the
/// current language that a translator finds under that key.
///
/// The implementation made for an enum answers `key` by dispatch on the
/// variant, with the arms of its
/// [`Implementation`](crate::implementation::Implementation), and answers
/// `localize` by handing that key to the translator.
pub trait Localized {
    /// The key of this value: the literal that its variant was tagged with.
    fn key(&self) -> &'static str;

    /// The text that the translator yields for `self.key()`: borrowed where
    /// the translator hands out a literal, owned where it built the text.
    fn localize(&self) -> Cow<'static, str>;
}

} // verus!
