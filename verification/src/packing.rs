//! What the archive backends share: their errors, and the bytes of the files they package.

use vstd::prelude::*;

use crate::codec::io_text;
use crate::digits::{decimal, decimal_text};
use crate::plan::{FileContent, FileContentView, PlannedFile, PlannedFileView};
use crate::strings::{text_holds, texts_hold_their_pieces};
use crate::strmap::StrMap;

verus! {

pub type Result<T> = core::result::Result<T, Error>;

/// Why a package could not be written or read.
#[derive(Debug)]
pub enum Error {
    Core(crate::error::Error),
    Io { path: String, source: String },
    /// A source edited between planning and writing must fail, not ship half-read.
    SourceChanged { path: String, planned: u64, actual: u64 },
    Archive {
        reason: String,
        /// What the archive library said, where it was asked.
        said: Option<String>,
    },
}

/// An error as plain values. Of an archive error it says whether the archive library said
/// something, not what.
pub enum ErrorView {
    Core(crate::error::ErrorView),
    Io { path: Seq<char>, source: Seq<char> },
    SourceChanged { path: Seq<char>, planned: u64, actual: u64 },
    Archive { reason: Seq<char>, told: bool },
}

impl View for Error {
    type V = ErrorView;

    open spec fn view(&self) -> ErrorView {
        match *self {
            Error::Core(e) => ErrorView::Core(e@),
            Error::Io { path, source } => ErrorView::Io { path: path@, source: source@ },
            Error::SourceChanged { path, planned, actual } => ErrorView::SourceChanged {
                path: path@,
                planned,
                actual,
            },
            Error::Archive { reason, said } => ErrorView::Archive {
                reason: reason@,
                told: said is Some,
            },
        }
    }
}

/// What a call came to, as plain values.
pub open spec fn settled<T: View>(r: Result<T>) -> core::result::Result<T::V, ErrorView> {
    match r {
        Ok(v) => Ok(v@),
        Err(e) => Err(e@),
    }
}

impl ErrorView {
    /// The sentence a user reads.
    pub open spec fn text(self) -> Seq<char> {
        match self {
            ErrorView::Core(e) => e.text(),
            ErrorView::Io { path, source } => "i/o error at `"@ + path + "`"@,
            ErrorView::SourceChanged { path, planned, actual } => "`"@ + path + "` was "@ + decimal(
                planned as nat,
            ) + " bytes when planned but "@ + decimal(actual as nat) + " bytes when read"@,
            ErrorView::Archive { reason, told } => "could not write the archive: "@ + reason,
        }
    }
}

impl Error {
    pub fn io(path: String, source: String) -> (e: Self)
        ensures
            e@ == (ErrorView::Io { path: path@, source: source@ }),
    {
        Error::Io { path, source }
    }

    /// A failure the archive library reported; what it said is carried along.
    pub fn archive(reason: String, source: &std::io::Error) -> (e: Self)
        ensures
            e@ == (ErrorView::Archive { reason: reason@, told: true }),
    {
        Error::Archive { reason, said: Some(io_text(source)) }
    }

    /// A failure with what is behind it.
    pub fn because(reason: String, cause: String) -> (e: Self)
        ensures
            e == (Error::Archive { reason, said: Some(cause) }),
    {
        Error::Archive { reason, said: Some(cause) }
    }

    /// A failure found here.
    pub fn refused(reason: String) -> (e: Self)
        ensures
            e@ == (ErrorView::Archive { reason: reason@, told: false }),
    {
        Error::Archive { reason, said: None }
    }

    /// The sentence a user reads.
    pub fn text(&self) -> (s: String)
        ensures
            s@ == self@.text(),
    {
        match self {
            Error::Core(e) => e.text(),
            Error::Io { path, source } => {
                let mut s = "i/o error at `".to_owned();
                s.append(path.as_str());
                s.append("`");
                s
            },
            Error::SourceChanged { path, planned, actual } => {
                let mut s = "`".to_owned();
                s.append(path.as_str());
                s.append("` was ");
                s.append(decimal_text(*planned).as_str());
                s.append(" bytes when planned but ");
                s.append(decimal_text(*actual).as_str());
                s.append(" bytes when read");
                s
            },
            Error::Archive { reason, said } => {
                let mut s = "could not write the archive: ".to_owned();
                s.append(reason.as_str());
                s
            },
        }
    }

    /// What lies behind the error, if anything does.
    pub fn cause(&self) -> (r: Option<&str>)
        ensures
            match self {
                Error::Core(e) => crate::error::opt(r) == e@.behind(),
                Error::Io { path, source } => r is Some && r->0@ == source@,
                Error::SourceChanged { path, planned, actual } => r is None,
                Error::Archive { reason, said } => match said {
                    Some(text) => r is Some && r->0@ == text@,
                    None => r is None,
                },
            },
    {
        match self {
            Error::Core(e) => e.cause(),
            Error::Io { path, source } => Some(source.as_str()),
            Error::SourceChanged { path, planned, actual } => None,
            Error::Archive { reason, said } => match said {
                Some(text) => Some(text.as_str()),
                None => None,
            },
        }
    }
}

// ---- sources ----------------------------------------------------------------------------

/// What was read of a source file: its bytes, and when it was last changed.
#[derive(Debug)]
pub struct SourceFile {
    pub bytes: Vec<u8>,
    pub modified: u64,
}

/// The source files read, by path, or why one could not be.
#[derive(Debug)]
pub struct Sources {
    read: StrMap<core::result::Result<SourceFile, String>>,
}

/// The bytes reading one file gave.
pub open spec fn reading(r: core::result::Result<SourceFile, String>) -> core::result::Result<
    Seq<u8>,
    Seq<char>,
> {
    match r {
        Ok(file) => Ok(file.bytes@),
        Err(reason) => Err(reason@),
    }
}

/// The bytes reading one file gave, and its time.
pub open spec fn dated_reading(
    r: core::result::Result<SourceFile, String>,
) -> core::result::Result<(Seq<u8>, u64), Seq<char>> {
    match r {
        Ok(file) => Ok((file.bytes@, file.modified)),
        Err(reason) => Err(reason@),
    }
}

impl View for Sources {
    type V = Map<Seq<char>, core::result::Result<Seq<u8>, Seq<char>>>;

    closed spec fn view(&self) -> Map<Seq<char>, core::result::Result<Seq<u8>, Seq<char>>> {
        Map::new(
            |k: Seq<char>| self.read@.dom().contains(k),
            |k: Seq<char>| reading(self.read@[k]),
        )
    }
}

impl Sources {
    /// The source files with their times.
    pub closed spec fn dated(self) -> Map<
        Seq<char>,
        core::result::Result<(Seq<u8>, u64), Seq<char>>,
    > {
        Map::new(
            |k: Seq<char>| self.read@.dom().contains(k),
            |k: Seq<char>| dated_reading(self.read@[k]),
        )
    }

    pub fn new() -> (s: Self)
        ensures
            s@ == Map::<Seq<char>, core::result::Result<Seq<u8>, Seq<char>>>::empty(),
            s.dated() == Map::<
                Seq<char>,
                core::result::Result<(Seq<u8>, u64), Seq<char>>,
            >::empty(),
    {
        let s = Sources { read: StrMap::new() };
        assert(s@ =~= Map::empty());
        assert(s.dated() =~= Map::empty());
        s
    }

    /// Adds what reading one file came to.
    pub fn with(self, path: String, read: core::result::Result<SourceFile, String>) -> (s: Self)
        ensures
            s@ == self@.insert(path@, reading(read)),
            s.dated() == self.dated().insert(path@, dated_reading(read)),
    {
        let mut all = self.read;
        all.insert(path, read);
        let s = Sources { read: all };
        assert(s@ =~= self@.insert(path@, reading(read)));
        assert(s.dated() =~= self.dated().insert(path@, dated_reading(read)));
        s
    }

    /// What reading one file came to, if it was read.
    pub fn get(&self, path: &str) -> (r: Option<&core::result::Result<SourceFile, String>>)
        ensures
            match r {
                Some(read) => self@.dom().contains(path@) && self@[path@] == reading(*read)
                    && self.dated().dom().contains(path@) && self.dated()[path@] == dated_reading(
                    *read,
                ),
                None => !self@.dom().contains(path@) && !self.dated().dom().contains(path@),
            },
    {
        self.read.get(path)
    }
}

pub open spec fn no_content(destination: Seq<char>) -> ErrorView {
    ErrorView::Archive {
        reason: "`"@ + destination
            + "` is a regular file with no content; this is a defect in the plan"@,
        told: false,
    }
}

/// The bytes of a regular entry: its own, or those read from its source, refused when there are
/// not as many as were planned.
pub open spec fn bytes_of(
    file: PlannedFileView,
    sources: Map<Seq<char>, core::result::Result<Seq<u8>, Seq<char>>>,
) -> core::result::Result<Seq<u8>, ErrorView> {
    match file.content {
        FileContentView::Inline(bytes) => Ok(bytes),
        FileContentView::FromPath { path, len } => if !sources.dom().contains(path) {
            Err(ErrorView::Io { path, source: "no bytes were read from it"@ })
        } else {
            match sources[path] {
                Err(reason) => Err(ErrorView::Io { path, source: reason }),
                Ok(bytes) => if bytes.len() == len {
                    Ok(bytes)
                } else {
                    Err(
                        ErrorView::SourceChanged { path, planned: len, actual: bytes.len() as u64 },
                    )
                },
            }
        },
        FileContentView::Absent => Err(no_content(file.destination)),
    }
}

impl Sources {
    /// The bytes of a regular entry.
    pub fn content<'a>(&'a self, file: &'a PlannedFile) -> (r: Result<&'a Vec<u8>>)
        ensures
            settled(r) == bytes_of(file@, self@),
    {
        match &file.content {
            FileContent::Inline(bytes) => Ok(bytes),
            FileContent::FromPath { path, len } => {
                match self.get(path.as_str()) {
                    None => Err(
                        Error::io(path.clone(), "no bytes were read from it".to_owned()),
                    ),
                    Some(read) => match read {
                        Err(reason) => Err(Error::io(path.clone(), reason.clone())),
                        Ok(file) => {
                            let actual: u64 = file.bytes.len() as u64;
                            if actual == *len {
                                Ok(&file.bytes)
                            } else {
                                Err(
                                    Error::SourceChanged {
                                        path: path.clone(),
                                        planned: *len,
                                        actual,
                                    },
                                )
                            }
                        },
                    },
                }
            },
            FileContent::Absent => {
                let mut m = "`".to_owned();
                m.append(file.destination.as_str());
                m.append("` is a regular file with no content; this is a defect in the plan");
                Err(Error::refused(m))
            },
        }
    }
}

// ---- laws -----------------------------------------------------------------------------

/// What is packaged of a file is what was planned of it: the bytes it was given, or those read
/// from its source, as many as were planned; anything else is refused.
pub proof fn what_is_packaged_is_what_was_planned(
    file: PlannedFileView,
    sources: Map<Seq<char>, core::result::Result<Seq<u8>, Seq<char>>>,
)
    ensures
        file.content matches FileContentView::Inline(bytes) ==> bytes_of(file, sources) == Ok::<
            Seq<u8>,
            ErrorView,
        >(bytes),
        file.content matches FileContentView::FromPath { path, len } ==> (bytes_of(file, sources)
            is Ok <==> sources.dom().contains(path) && (sources[path] matches Ok(bytes)
            && bytes.len() == len)),
        file.content matches FileContentView::FromPath { path, len } ==> (bytes_of(
            file,
            sources,
        ) matches Ok(bytes) ==> sources[path] == Ok::<Seq<u8>, Seq<char>>(bytes)),
        file.content is Absent ==> bytes_of(file, sources) is Err,
{
}

/// Every error names what it is about; one of a file that changed gives both lengths.
pub proof fn every_error_names_what_it_is_about(e: ErrorView)
    ensures
        ({
            let said = e.text();
            match e {
                ErrorView::Core(core) => said == core.text(),
                ErrorView::Io { path, source } => text_holds(said, path),
                ErrorView::SourceChanged { path, planned, actual } => text_holds(said, path)
                    && text_holds(said, decimal(planned as nat) + " bytes when planned"@)
                    && text_holds(said, decimal(actual as nat) + " bytes when read"@),
                ErrorView::Archive { reason, told } => text_holds(said, reason),
            }
        }),
{
    texts_hold_their_pieces();
    if let ErrorView::SourceChanged { path, planned, actual } = e {
        let p = decimal(planned as nat);
        let a = decimal(actual as nat);
        reveal_strlit(" bytes when planned but ");
        reveal_strlit(" bytes when planned");
        reveal_strlit(" but ");
        assert(" bytes when planned but "@ =~= " bytes when planned"@ + " but "@);
        assert(e.text() =~= "`"@ + path + "` was "@ + (p + " bytes when planned"@) + " but "@ + (a
            + " bytes when read"@));
    }
}

} // verus!
