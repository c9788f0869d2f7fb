//! The error taxonomy shared by every decoder.

use vstd::prelude::*;

verus! {

/// Why an access to the underlying byte source failed.
#[derive(Clone, Copy, Debug, PartialEq, Eq, Structural)]
pub enum IoFault {
    /// The source reported a failure while reading.
    Read,
    /// The source reported a failure while repositioning.
    Seek,
    /// A forward-only source was asked for bytes behind its read cursor.
    OutOfOrder,
}

/// A failure without location context.
#[derive(Clone, Copy, Debug, PartialEq, Eq, Structural)]
pub enum Cause {
    /// The byte source failed.
    Io(IoFault),
    /// The source ended before a request could be satisfied.
    UnexpectedEof,
    /// No known signature matched.
    UnrecognizedFormat,
    /// The container is sound but carries no metadata.
    ExifNotFound,
    /// A structural field is oversized, cyclic or inconsistent.
    CorruptData,
    /// An entry declares a data type that is not defined.
    UnsupportedValueType,
}

/// Where, in the decoding pipeline, a failure was wrapped.
#[derive(Clone, Copy, Debug, PartialEq, Eq, Structural)]
pub enum Context {
    /// While searching the top-level boxes for the movie box.
    MoovBody,
    /// While walking the boxes of a container.
    BoxTree,
    /// While scanning the segments of a JPEG stream.
    JpegSegments,
    /// While reading the RAF header.
    RafHeader,
    /// While reading the TIFF header.
    TiffHeader,
    /// While walking an image file directory.
    Ifd,
}

/// Everything that can go wrong while locating or decoding metadata.
#[derive(Clone, Copy, Debug, PartialEq, Eq, Structural)]
pub enum Error {
    /// The byte source failed.
    IoError(IoFault),
    /// The source ended before a request could be satisfied.
    UnexpectedEof,
    /// No known signature matched.
    UnrecognizedFormat,
    /// The container is sound but carries no metadata.
    ExifNotFound,
    /// A structural field is oversized, cyclic or inconsistent.
    CorruptData,
    /// An entry declares a data type that is not defined.
    UnsupportedValueType,
    /// A lower-level failure, together with the place where it surfaced.
    ParseFailed(Context, Cause),
}

impl Error {
    /// The failure at the root of this error, stripped of any context.
    pub open spec fn spec_cause(self) -> Cause {
        match self {
            Error::IoError(f) => Cause::Io(f),
            Error::UnexpectedEof => Cause::UnexpectedEof,
            Error::UnrecognizedFormat => Cause::UnrecognizedFormat,
            Error::ExifNotFound => Cause::ExifNotFound,
            Error::CorruptData => Cause::CorruptData,
            Error::UnsupportedValueType => Cause::UnsupportedValueType,
            Error::ParseFailed(_, c) => c,
        }
    }

    /// The place attached to this error, if it has been wrapped.
    pub open spec fn spec_context(self) -> Option<Context> {
        match self {
            Error::ParseFailed(c, _) => Some(c),
            _ => None,
        }
    }

    /// This error with `context` attached. An error that already carries a
    /// context keeps it, since the innermost place is the most precise; the
    /// root cause is preserved either way.
    pub open spec fn spec_in_context(self, context: Context) -> Error {
        match self {
            Error::ParseFailed(c, cause) => Error::ParseFailed(c, cause),
            _ => Error::ParseFailed(context, self.spec_cause()),
        }
    }

    /// Returns the root cause of this error.
    pub fn cause(&self) -> (c: Cause)
        ensures
            c == self.spec_cause(),
    {
        match *self {
            Error::IoError(f) => Cause::Io(f),
            Error::UnexpectedEof => Cause::UnexpectedEof,
            Error::UnrecognizedFormat => Cause::UnrecognizedFormat,
            Error::ExifNotFound => Cause::ExifNotFound,
            Error::CorruptData => Cause::CorruptData,
            Error::UnsupportedValueType => Cause::UnsupportedValueType,
            Error::ParseFailed(_, c) => c,
        }
    }

    /// Returns the place attached to this error, if any.
    pub fn context(&self) -> (c: Option<Context>)
        ensures
            c == self.spec_context(),
    {
        match *self {
            Error::ParseFailed(c, _) => Some(c),
            _ => None,
        }
    }

    /// Attaches `context` to this error, keeping its root cause.
    pub fn in_context(self, context: Context) -> (e: Error)
        ensures
            e == self.spec_in_context(context),
            e.spec_cause() == self.spec_cause(),
            e.spec_context().is_some(),
    {
        match self {
            Error::ParseFailed(c, cause) => Error::ParseFailed(c, cause),
            other => {
                let cause = other.cause();
                Error::ParseFailed(context, cause)
            },
        }
    }
}

/// Wrapping an error never changes its root cause, however often it is done.
pub proof fn lemma_context_preserves_cause(e: Error, inner: Context, outer: Context)
    ensures
        e.spec_in_context(inner).spec_cause() == e.spec_cause(),
        e.spec_in_context(inner).spec_in_context(outer) == e.spec_in_context(inner),
{
}

} // verus!
