//! The error type shared by every part of the protocol.
use vstd::prelude::*;
use vstd::string::StringExecFns;

verus! {

/// The kind of a [`PixelflutError`].
#[derive(Clone, Copy, Debug, PartialEq, Eq, Hash, PartialOrd, Ord, Structural)]
pub enum PixelflutErrorKind {
    /// The transport failed, ended in the middle of a line, or a line grew
    /// past the longest legal command.
    Io,
    /// The first token of a line names no known command.
    InvalidCommand,
    /// A known command came with the wrong number of tokens.
    WrongNumberOfArguments,
    /// A numeric or hexadecimal token, or the text of a line, is malformed.
    Parse,
    /// The peer answered with something that the exchange does not allow.
    State,
    /// The peer answered with an `ERROR` response.
    ServerError,
}

/// The text that names each kind of error.
pub open spec fn kind_text(kind: PixelflutErrorKind) -> Seq<char> {
    match kind {
        PixelflutErrorKind::Io => "io error"@,
        PixelflutErrorKind::InvalidCommand => "invalid command"@,
        PixelflutErrorKind::WrongNumberOfArguments => "wrong number of arguments"@,
        PixelflutErrorKind::Parse => "parse error"@,
        PixelflutErrorKind::State => "invalid state"@,
        PixelflutErrorKind::ServerError => "got error from server"@,
    }
}

impl PixelflutErrorKind {
    /// The text that names this kind of error.
    pub fn as_str(self) -> (r: &'static str)
        ensures
            r@ == kind_text(self),
    {
        match self {
            PixelflutErrorKind::Io => "io error",
            PixelflutErrorKind::InvalidCommand => "invalid command",
            PixelflutErrorKind::WrongNumberOfArguments => "wrong number of arguments",
            PixelflutErrorKind::Parse => "parse error",
            PixelflutErrorKind::State => "invalid state",
            PixelflutErrorKind::ServerError => "got error from server",
        }
    }

    /// An error of this kind that carries a description of what went wrong.
    pub fn with_description(self, description: &str) -> (r: PixelflutError)
        ensures
            r.spec_kind() == self,
            r.spec_description() == Some(description@),
    {
        PixelflutError { kind: self, description: Some(description.to_owned()) }
    }
}

/// An error of the protocol: a kind and an optional description.
#[derive(Clone, Debug)]
pub struct PixelflutError {
    kind: PixelflutErrorKind,
    description: Option<String>,
}

/// The result of every fallible operation of the protocol.
pub type PixelflutResult<T> = Result<T, PixelflutError>;

impl PixelflutError {
    /// The kind of this error.
    pub closed spec fn spec_kind(&self) -> PixelflutErrorKind {
        self.kind
    }

    /// The description that this error carries, if any.
    pub closed spec fn spec_description(&self) -> Option<Seq<char>> {
        match self.description {
            Some(d) => Some(d@),
            None => None,
        }
    }

    /// The text of this error: the text of its kind, followed by `": "` and
    /// its description where it has one.
    pub open spec fn spec_text(&self) -> Seq<char> {
        match self.spec_description() {
            Some(d) => kind_text(self.spec_kind()) + ": "@ + d,
            None => kind_text(self.spec_kind()),
        }
    }

    /// Returns the kind of this error.
    pub fn kind(&self) -> (r: PixelflutErrorKind)
        ensures
            r == self.spec_kind(),
    {
        self.kind
    }

    /// Returns the text of this error, as it is sent to a peer.
    pub fn to_string(&self) -> (r: String)
        ensures
            r@ == self.spec_text(),
    {
        let mut text = self.kind.as_str().to_owned();
        match &self.description {
            Some(d) => {
                text.append(": ");
                text.append(d.as_str());
            },
            None => {},
        }
        text
    }
}

impl From<PixelflutErrorKind> for PixelflutError {
    fn from(kind: PixelflutErrorKind) -> (r: PixelflutError) {
        PixelflutError { kind, description: None }
    }
}

impl vstd::std_specs::convert::FromSpecImpl<PixelflutErrorKind> for PixelflutError {
    open spec fn obeys_from_spec() -> bool {
        true
    }

    closed spec fn from_spec(kind: PixelflutErrorKind) -> PixelflutError {
        PixelflutError { kind, description: None }
    }
}

/// `r` is the outcome `s`: the same value, or an error of the same kind.
pub open spec fn outcome_is<T>(r: PixelflutResult<T>, s: Result<T, PixelflutErrorKind>) -> bool {
    match (r, s) {
        (Ok(a), Ok(b)) => a == b,
        (Err(e), Err(k)) => e.spec_kind() == k,
        _ => false,
    }
}

} // verus!
