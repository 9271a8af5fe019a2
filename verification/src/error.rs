//! The failures that the plugin reports to its caller.
use vstd::prelude::*;

verus! {

/// A failure of a plugin call. `E` is the failure of a file operation, which is handed through
/// as it came.
#[derive(Debug)]
pub enum PluginError<E> {
    /// A failure that the plugin describes in a text of its own.
    Type(String),
    /// A failed file operation.
    Os(E),
}

/// What a [`PluginError`] says.
pub enum ErrorView<E> {
    Type(Seq<char>),
    Os(E),
}

impl<E> View for PluginError<E> {
    type V = ErrorView<E>;

    open spec fn view(&self) -> ErrorView<E> {
        match self {
            PluginError::Type(text) => ErrorView::Type(text@),
            PluginError::Os(e) => ErrorView::Os(*e),
        }
    }
}

/// What the outcome of a plugin call says.
pub open spec fn outcome<T, E>(result: Result<T, PluginError<E>>) -> Result<T, ErrorView<E>> {
    match result {
        Ok(value) => Ok(value),
        Err(e) => Err(e@),
    }
}

/// The outcome of an outside operation that describes its failure in a text.
pub open spec fn reported<T>(result: Result<T, String>) -> Result<T, Seq<char>> {
    match result {
        Ok(value) => Ok(value),
        Err(text) => Err(text@),
    }
}

/// The text of the failure of a call that comes before the configuration was read.
pub open spec fn not_initialized_text() -> Seq<char> {
    "fooocus plugin is not initialized"@
}

/// The failure of a call that comes before the configuration was read.
pub fn not_initialized<E>() -> (e: PluginError<E>)
    ensures
        e@ == ErrorView::<E>::Type(not_initialized_text()),
        e matches PluginError::Type(text) && text@ == "fooocus plugin is not initialized"@,
{
    PluginError::Type("fooocus plugin is not initialized".to_owned())
}

} // verus!
