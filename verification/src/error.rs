//! The errors shared by every stage of the build pipeline.

use vstd::prelude::*;

use crate::strings::{text_holds, texts_hold_their_pieces};

verus! {

pub type Result<T> = core::result::Result<T, Error>;

/// Coarse on purpose: callers distinguish bad input from a bad environment, not individual
/// messages.
#[derive(Debug)]
pub enum Error {
    Io {
        path: String,
        /// What the system said.
        source: String,
    },
    /// A file that is not valid JSON; `source` carries the line and column.
    ManifestParse { path: String, source: String },
    /// Valid JSON that does not describe a buildable package.
    Manifest { message: String },
    InvalidPackageName { name: String, reason: String },
    InvalidUnixName {
        /// `user` or `group`.
        kind: &'static str,
        name: String,
        reason: String,
    },
    InvalidVersion { version: String, reason: String },
    Template { template: String, reason: String },
}

/// An error as plain values.
pub enum ErrorView {
    Io { path: Seq<char>, source: Seq<char> },
    ManifestParse { path: Seq<char>, source: Seq<char> },
    Manifest { message: Seq<char> },
    InvalidPackageName { name: Seq<char>, reason: Seq<char> },
    InvalidUnixName { kind: Seq<char>, name: Seq<char>, reason: Seq<char> },
    InvalidVersion { version: Seq<char>, reason: Seq<char> },
    Template { template: Seq<char>, reason: Seq<char> },
}

impl View for Error {
    type V = ErrorView;

    open spec fn view(&self) -> ErrorView {
        match *self {
            Error::Io { path, source } => ErrorView::Io { path: path@, source: source@ },
            Error::ManifestParse { path, source } => ErrorView::ManifestParse {
                path: path@,
                source: source@,
            },
            Error::Manifest { message } => ErrorView::Manifest { message: message@ },
            Error::InvalidPackageName { name, reason } => ErrorView::InvalidPackageName {
                name: name@,
                reason: reason@,
            },
            Error::InvalidUnixName { kind, name, reason } => ErrorView::InvalidUnixName {
                kind: kind@,
                name: name@,
                reason: reason@,
            },
            Error::InvalidVersion { version, reason } => ErrorView::InvalidVersion {
                version: version@,
                reason: reason@,
            },
            Error::Template { template, reason } => ErrorView::Template {
                template: template@,
                reason: reason@,
            },
        }
    }
}

/// What a call came to, as plain values.
pub open spec fn outcome<T: View>(r: Result<T>) -> core::result::Result<T::V, ErrorView> {
    match r {
        Ok(v) => Ok(v@),
        Err(e) => Err(e@),
    }
}

/// The plain values of an optional value.
pub open spec fn opt<T: View>(o: Option<T>) -> Option<T::V> {
    match o {
        Some(v) => Some(v@),
        None => None,
    }
}

impl ErrorView {
    /// The sentence a user reads.
    pub open spec fn text(self) -> Seq<char> {
        match self {
            ErrorView::Io { path, source } => "i/o error at `"@ + path + "`"@,
            ErrorView::ManifestParse { path, source } => "failed to parse `"@ + path
                + "` as JSON"@,
            ErrorView::Manifest { message } => "manifest error: "@ + message,
            ErrorView::InvalidPackageName { name, reason } => "invalid package name `"@ + name
                + "`: "@ + reason,
            ErrorView::InvalidUnixName { kind, name, reason } => "invalid "@ + kind + " name `"@
                + name + "`: "@ + reason,
            ErrorView::InvalidVersion { version, reason } => "invalid version `"@ + version
                + "`: "@ + reason,
            ErrorView::Template { template, reason } => "template error in `"@ + template
                + "`: "@ + reason,
        }
    }
}

impl ErrorView {
    /// What lies behind the error, if anything does.
    pub open spec fn behind(self) -> Option<Seq<char>> {
        match self {
            ErrorView::Io { path, source } => Some(source),
            ErrorView::ManifestParse { path, source } => Some(source),
            _ => None,
        }
    }
}

impl Error {
    pub fn manifest(message: String) -> (e: Self)
        ensures
            e@ == (ErrorView::Manifest { message: message@ }),
    {
        Error::Manifest { message }
    }

    pub fn io(path: String, source: String) -> (e: Self)
        ensures
            e@ == (ErrorView::Io { path: path@, source: source@ }),
    {
        Error::Io { path, source }
    }

    /// The sentence a user reads.
    pub fn text(&self) -> (s: String)
        ensures
            s@ == self@.text(),
    {
        match self {
            Error::Io { path, source } => {
                let mut s = "i/o error at `".to_owned();
                s.append(path.as_str());
                s.append("`");
                s
            },
            Error::ManifestParse { path, source } => {
                let mut s = "failed to parse `".to_owned();
                s.append(path.as_str());
                s.append("` as JSON");
                s
            },
            Error::Manifest { message } => {
                let mut s = "manifest error: ".to_owned();
                s.append(message.as_str());
                s
            },
            Error::InvalidPackageName { name, reason } => {
                let mut s = "invalid package name `".to_owned();
                s.append(name.as_str());
                s.append("`: ");
                s.append(reason.as_str());
                s
            },
            Error::InvalidUnixName { kind, name, reason } => {
                let mut s = "invalid ".to_owned();
                s.append(*kind);
                s.append(" name `");
                s.append(name.as_str());
                s.append("`: ");
                s.append(reason.as_str());
                s
            },
            Error::InvalidVersion { version, reason } => {
                let mut s = "invalid version `".to_owned();
                s.append(version.as_str());
                s.append("`: ");
                s.append(reason.as_str());
                s
            },
            Error::Template { template, reason } => {
                let mut s = "template error in `".to_owned();
                s.append(template.as_str());
                s.append("`: ");
                s.append(reason.as_str());
                s
            },
        }
    }

    /// What the system or the parser said underneath, when there is such a cause.
    pub fn cause(&self) -> (c: Option<&str>)
        ensures
            opt(c) == self@.behind(),
    {
        match self {
            Error::Io { path, source } => Some(source.as_str()),
            Error::ManifestParse { path, source } => Some(source.as_str()),
            _ => None,
        }
    }
}

/// Every error names what it is about and says why; what lies behind a failure to read or to parse
/// is kept.
pub proof fn every_error_names_what_it_is_about(e: ErrorView)
    ensures
        ({
            let said = e.text();
            match e {
                ErrorView::Io { path, source } => text_holds(said, path) && e.behind() == Some(
                    source,
                ),
                ErrorView::ManifestParse { path, source } => text_holds(said, path) && e.behind()
                    == Some(source),
                ErrorView::Manifest { message } => text_holds(said, message) && e.behind() is None,
                ErrorView::InvalidPackageName { name, reason } => text_holds(said, name)
                    && text_holds(said, reason) && e.behind() is None,
                ErrorView::InvalidUnixName { kind, name, reason } => text_holds(said, kind)
                    && text_holds(said, name) && text_holds(said, reason) && e.behind() is None,
                ErrorView::InvalidVersion { version, reason } => text_holds(said, version)
                    && text_holds(said, reason) && e.behind() is None,
                ErrorView::Template { template, reason } => text_holds(said, template)
                    && text_holds(said, reason) && e.behind() is None,
            }
        }),
{
    texts_hold_their_pieces();
}

} // verus!
