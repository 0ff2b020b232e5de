use vstd::prelude::*;

verus! {

/// A collection page whose ids do not fit in an `i64`.
#[derive(Debug, Clone, Copy, PartialEq, Eq)]
pub enum ClassificationError {
    MalformedCapture,
}

/// Why a URL could not be turned into a manifest.
#[derive(Debug, Clone, Copy, PartialEq, Eq)]
pub enum ResolutionError {
    /// A short link whose request did not answer with a redirect.
    ShortLinkRedirectFailed,
    NotFound,
    Unauthorized,
    /// A manifest with no usable track.
    EmptyManifest,
}

/// The operator gave up a choice.
#[derive(Debug, Clone, Copy, PartialEq, Eq)]
pub enum SelectionError {
    Aborted,
}

/// Why a track could not be fetched.
#[derive(Debug, Clone, Copy, PartialEq, Eq)]
pub enum FetchError {
    /// The answer carried no usable content length.
    LengthUnavailable,
    /// The connection or the stream failed.
    Network,
    /// The staging file already holds the whole track: nothing to do.
    AlreadyComplete,
}

/// Why two tracks could not be merged.
#[derive(Debug, Clone, Copy, PartialEq, Eq)]
pub enum MergeError {
    /// The mux tool could not be started.
    ToolMissing,
    /// The mux tool failed, with its exit code where it had one.
    ToolFailed(Option<i32>),
}

/// No session token has been stored.
#[derive(Debug, Clone, Copy, PartialEq, Eq)]
pub enum AuthError {
    MissingToken,
}

/// An argument that is not a web URL.
#[derive(Debug, Clone, Copy, PartialEq, Eq)]
pub enum UrlError {
    NotValidUrl,
}

} // verus!
