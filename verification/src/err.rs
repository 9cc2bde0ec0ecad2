//! The uniform envelope around what a command reports, and the errors of a
//! call that could not deliver a result at all.

use vstd::prelude::*;

verus! {

/// One entry of a command's result: a decoded payload, a note or an error
/// reported by the tool, or the marker that closes the output.
///
/// An `Error` entry is data, not a failure of the call: the tool may report
/// errors among successes, and what to make of them is left to the caller.
#[derive(Debug, Clone, PartialEq, Eq)]
pub enum Item<T> {
    /// The decoded payload of one data line.
    Data(T),
    /// An advisory message from the tool.
    Info(String),
    /// A failure message from the tool.
    Error(String),
    /// The end of the output, with the overall status of the command.
    Exit { success: bool },
}

/// Mathematical model of an [`Item`].
pub ghost enum ItemView<V> {
    Data(V),
    Info(Seq<char>),
    Error(Seq<char>),
    Exit { success: bool },
}

impl<T: View> View for Item<T> {
    type V = ItemView<T::V>;

    open spec fn view(&self) -> ItemView<T::V> {
        match self {
            Item::Data(data) => ItemView::Data(data@),
            Item::Info(text) => ItemView::Info(text@),
            Item::Error(text) => ItemView::Error(text@),
            Item::Exit { success } => ItemView::Exit { success: *success },
        }
    }
}

/// Why a call delivered no result.
#[derive(Debug, Clone, Copy, PartialEq, Eq, Structural)]
pub enum ErrorKind {
    /// The process could not be started or did not complete.
    SpawnFailed,
    /// The output did not match the grammar of the command.
    ParseFailed,
}

/// A failed call: its kind, the command line that was attempted and, for a
/// spawn failure, what the operating system reported.
#[derive(Debug, Clone, PartialEq, Eq)]
pub struct P4Error {
    pub kind: ErrorKind,
    pub context: String,
    pub cause: Option<String>,
}

/// Mathematical model of a [`P4Error`].
pub ghost struct P4ErrorView {
    pub kind: ErrorKind,
    pub context: Seq<char>,
    pub cause: Option<Seq<char>>,
}

impl View for P4Error {
    type V = P4ErrorView;

    open spec fn view(&self) -> P4ErrorView {
        P4ErrorView {
            kind: self.kind,
            context: self.context@,
            cause: match self.cause {
                Some(cause) => Some(cause@),
                None => None,
            },
        }
    }
}

} // verus!
