//! Errors of writing an RPM package.

use vstd::prelude::*;

use crate::strings::{text_holds, texts_hold_their_pieces};

verus! {

pub type Result<T> = core::result::Result<T, Error>;

#[derive(Debug)]
pub enum Error {
    Core(crate::error::Error),
    /// The `rpm` crate refused something.
    Rpm { context: String, said: String },
    Io { path: String, source: String },
    /// A plan entry with no RPM equivalent.
    Unrepresentable { destination: String, reason: String },
}

/// An error as plain values, without what the `rpm` crate said.
pub enum ErrorView {
    Core(crate::error::ErrorView),
    Rpm { context: Seq<char> },
    Io { path: Seq<char>, source: Seq<char> },
    Unrepresentable { destination: Seq<char>, reason: Seq<char> },
}

impl View for Error {
    type V = ErrorView;

    open spec fn view(&self) -> ErrorView {
        match *self {
            Error::Core(e) => ErrorView::Core(e@),
            Error::Rpm { context, said } => ErrorView::Rpm { context: context@ },
            Error::Io { path, source } => ErrorView::Io { path: path@, source: source@ },
            Error::Unrepresentable { destination, reason } => ErrorView::Unrepresentable {
                destination: destination@,
                reason: reason@,
            },
        }
    }
}

/// What a call came to, as plain values.
pub open spec fn settled<T: View>(r: Result<T>) -> core::result::Result<T::V, ErrorView> {
    match r {
        Ok(v) => Ok(v@),
        Err(e) => Err(e@),
    }
}

impl ErrorView {
    /// The sentence a user reads.
    pub open spec fn text(self) -> Seq<char> {
        match self {
            ErrorView::Core(e) => e.text(),
            ErrorView::Rpm { context } => "rpm error: "@ + context,
            ErrorView::Io { path, source } => "i/o error at `"@ + path + "`"@,
            ErrorView::Unrepresentable { destination, reason } => "cannot package `"@ + destination
                + "`: "@ + reason,
        }
    }
}

impl Error {
    pub fn rpm(context: String, said: String) -> (e: Self)
        ensures
            e == (Error::Rpm { context, said }),
    {
        Error::Rpm { context, said }
    }

    pub fn io(path: String, source: String) -> (e: Self)
        ensures
            e@ == (ErrorView::Io { path: path@, source: source@ }),
    {
        Error::Io { path, source }
    }

    /// The sentence a user reads.
    pub fn text(&self) -> (s: String)
        ensures
            s@ == self@.text(),
    {
        match self {
            Error::Core(e) => e.text(),
            Error::Rpm { context, said } => {
                let mut s = "rpm error: ".to_owned();
                s.append(context.as_str());
                s
            },
            Error::Io { path, source } => {
                let mut s = "i/o error at `".to_owned();
                s.append(path.as_str());
                s.append("`");
                s
            },
            Error::Unrepresentable { destination, reason } => {
                let mut s = "cannot package `".to_owned();
                s.append(destination.as_str());
                s.append("`: ");
                s.append(reason.as_str());
                s
            },
        }
    }

    /// What lies behind the error, if anything does.
    pub fn cause(&self) -> (r: Option<&str>)
        ensures
            match self {
                Error::Core(e) => crate::error::opt(r) == e@.behind(),
                Error::Rpm { context, said } => r is Some && r->0@ == said@,
                Error::Io { path, source } => r is Some && r->0@ == source@,
                Error::Unrepresentable { destination, reason } => r is None,
            },
    {
        match self {
            Error::Core(e) => e.cause(),
            Error::Rpm { context, said } => Some(said.as_str()),
            Error::Io { path, source } => Some(source.as_str()),
            Error::Unrepresentable { destination, reason } => None,
        }
    }
}

/// Every error names what it is about.
pub proof fn every_error_names_what_it_is_about(e: ErrorView)
    ensures
        ({
            let said = e.text();
            match e {
                ErrorView::Core(core) => said == core.text(),
                ErrorView::Rpm { context } => text_holds(said, context),
                ErrorView::Io { path, source } => text_holds(said, path),
                ErrorView::Unrepresentable { destination, reason } => text_holds(said, destination)
                    && text_holds(said, reason),
            }
        }),
{
    texts_hold_their_pieces();
}

} // verus!
