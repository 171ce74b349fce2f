//! The ways in which a playback run can fail before it is running.

use vstd::prelude::*;

verus! {

/// A fatal failure of one bootstrap step. Each names the step that failed.
#[derive(Clone, Copy, Debug, PartialEq, Eq, Structural)]
pub enum SessionError {
    /// The credentials were rejected or the identity provider was unreachable.
    Auth,
    /// The content delivery network could not be reached.
    Connection,
    /// The cache directory could not be created or opened.
    Io,
    /// The track reference is not the text form of an identifier.
    Parse,
    /// No audio output device is available.
    Device,
}

} // verus!
