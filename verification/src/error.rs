//! What can go wrong.

use vstd::prelude::*;

verus! {

/// Why an install stopped. What a failed operation reported of itself stays
/// with whoever carried the operation out.
#[derive(Debug, Clone)]
#[non_exhaustive]
pub enum Error {
    /// The MetaCPAN API could not be queried, or returned an error.
    Metacpan,
    /// A download failed before an HTTP status came back.
    Http,
    /// No Perl release on CPAN has the requested version.
    ReleaseNotFound(String),
    /// A download returned a non-success HTTP status.
    Download {
        /// The URL that was requested.
        url: String,
        /// The HTTP status that came back.
        status: u16,
    },
    /// A program could not be started at all: its command line.
    Spawn(String),
    /// A program ran but failed: its command line.
    Command(String),
    /// A tarball does not unpack to exactly one top-level directory: its path.
    TarballLayout(String),
    /// The fix-ups could not be applied in-process.
    PatchPerl,
    /// A filesystem operation failed.
    Io,
    /// Anything else, with a message.
    Other(String),
}

/// What an [`Error`] says.
pub enum ErrorView {
    Metacpan,
    Http,
    ReleaseNotFound(Seq<char>),
    Download { url: Seq<char>, status: u16 },
    Spawn(Seq<char>),
    Command(Seq<char>),
    TarballLayout(Seq<char>),
    PatchPerl,
    Io,
    Other(Seq<char>),
}

impl View for Error {
    type V = ErrorView;

    open spec fn view(&self) -> ErrorView {
        match self {
            Error::Metacpan => ErrorView::Metacpan,
            Error::Http => ErrorView::Http,
            Error::ReleaseNotFound(version) => ErrorView::ReleaseNotFound(version@),
            Error::Download { url, status } => ErrorView::Download { url: url@, status: *status },
            Error::Spawn(command) => ErrorView::Spawn(command@),
            Error::Command(command) => ErrorView::Command(command@),
            Error::TarballLayout(path) => ErrorView::TarballLayout(path@),
            Error::PatchPerl => ErrorView::PatchPerl,
            Error::Io => ErrorView::Io,
            Error::Other(message) => ErrorView::Other(message@),
        }
    }
}

} // verus!
