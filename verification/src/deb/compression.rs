//! Compressors Debian accepts for the archive members.

use vstd::prelude::*;

use crate::codec::{
    gunzip, gunzipped, gzip, gzip_image, unxz, unxzed, unzstd, unzstded, xz, xz_image, zstd,
    zstd_image, xz_takes, zstd_takes,
};
use crate::packing::{settled, Error, ErrorView, Result};
use crate::plan::copy_bytes;
use crate::strings::same;

verus! {

#[derive(Debug, Clone, Copy, PartialEq, Eq, Structural)]
pub enum Compression {
    Gzip,
    /// The default: what Debian's own archive uses and what policy accepts.
    Xz,
    /// Fastest by far but not the default: policy does not name it for archive members. Needs
    /// a recent dpkg.
    Zstd,
    /// Not compressed; spelled `none`.
    Stored,
}

pub const XZ_LEVEL: u32 = 6;

/// Highest level within the ordinary window; what dpkg uses for its own high-compression
/// builds.
pub const ZSTD_LEVEL: i32 = 19;

impl Default for Compression {
    fn default() -> (c: Self)
        ensures
            c == Compression::Xz,
    {
        Compression::Xz
    }
}

impl View for Compression {
    type V = Compression;

    open spec fn view(&self) -> Compression {
        *self
    }
}

/// The compressor a name stands for, as `dpkg-deb` spells it.
pub open spec fn compressor_named(name: Seq<char>) -> core::result::Result<
    Compression,
    ErrorView,
> {
    if name == "gzip"@ || name == "gz"@ {
        Ok(Compression::Gzip)
    } else if name == "xz"@ {
        Ok(Compression::Xz)
    } else if name == "zstd"@ || name == "zst"@ {
        Ok(Compression::Zstd)
    } else if name == "none"@ {
        Ok(Compression::Stored)
    } else {
        Err(
            ErrorView::Archive {
                reason: "unknown compressor `"@ + name
                    + "`; accepted: gzip, xz, zstd, none"@,
                told: false,
            },
        )
    }
}

/// The failure of a compressor.
pub open spec fn compression_failure() -> ErrorView {
    ErrorView::Archive { reason: "compression failed"@, told: true }
}

impl Compression {
    pub open spec fn suffix(self) -> Seq<char> {
        match self {
            Compression::Gzip => "gz"@,
            Compression::Xz => "xz"@,
            Compression::Zstd => "zst"@,
            Compression::Stored => ""@,
        }
    }

    pub fn extension(self) -> (s: &'static str)
        ensures
            s@ == self.suffix(),
    {
        match self {
            Compression::Gzip => "gz",
            Compression::Xz => "xz",
            Compression::Zstd => "zst",
            Compression::Stored => "",
        }
    }

    /// The full member name for a tarball, such as `data.tar.zst`.
    pub open spec fn named_member(self, stem: Seq<char>) -> Seq<char> {
        match self {
            Compression::Stored => stem + ".tar"@,
            _ => stem + ".tar."@ + self.suffix(),
        }
    }

    /// The full member name for a tarball, such as `data.tar.zst`.
    pub fn member_name(self, stem: &str) -> (s: String)
        ensures
            s@ == self.named_member(stem@),
    {
        let mut s = stem.to_owned();
        if self == Compression::Stored {
            s.append(".tar");
        } else {
            s.append(".tar.");
            s.append(self.extension());
        }
        s
    }

    /// Parses a compressor name as `dpkg-deb` spells it.
    pub fn parse(name: &str) -> (r: Result<Self>)
        ensures
            settled(r) == compressor_named(name@),
    {
        if same(name, "gzip") || same(name, "gz") {
            Ok(Compression::Gzip)
        } else if same(name, "xz") {
            Ok(Compression::Xz)
        } else if same(name, "zstd") || same(name, "zst") {
            Ok(Compression::Zstd)
        } else if same(name, "none") {
            Ok(Compression::Stored)
        } else {
            let mut m = "unknown compressor `".to_owned();
            m.append(name);
            m.append("`; accepted: gzip, xz, zstd, none");
            Err(Error::refused(m))
        }
    }

    /// What compressing some bytes gives.
    pub open spec fn compressed(self, input: Seq<u8>) -> Seq<u8> {
        match self {
            Compression::Gzip => gzip_image(input),
            Compression::Xz => xz_image(input, XZ_LEVEL),
            Compression::Zstd => zstd_image(input, ZSTD_LEVEL),
            Compression::Stored => input,
        }
    }

    /// Whether some bytes can be compressed.
    pub open spec fn takes(self, input: Seq<u8>) -> bool {
        match self {
            Compression::Xz => xz_takes(input, XZ_LEVEL),
            Compression::Zstd => zstd_takes(input, ZSTD_LEVEL),
            Compression::Gzip | Compression::Stored => true,
        }
    }

    /// What decompressing some bytes gives, if they can be.
    pub open spec fn decompressed(self, image: Seq<u8>) -> Option<Seq<u8>> {
        match self {
            Compression::Gzip => gunzipped(image),
            Compression::Xz => unxzed(image),
            Compression::Zstd => unzstded(image),
            Compression::Stored => Some(image),
        }
    }

    /// What compressing some bytes comes to.
    pub open spec fn compressing(self, input: Seq<u8>) -> core::result::Result<Seq<u8>, ErrorView> {
        if self.takes(input) {
            Ok(self.compressed(input))
        } else {
            Err(compression_failure())
        }
    }

    /// Compresses a whole image in memory. Bytes that are stored as they are, and bytes for
    /// gzip, always are; the decoder gives back what was compressed.
    pub fn compress(self, image: &Vec<u8>) -> (r: Result<Vec<u8>>)
        ensures
            settled(r) == self.compressing(image@),
            r is Ok ==> self.decompressing(r->Ok_0@) == Ok::<Seq<u8>, ErrorView>(image@),
            self is Stored ==> r is Ok && r->Ok_0@ == image@,
    {
        let done = match self {
            Compression::Stored => {
                return Ok(copy_bytes(image));
            },
            Compression::Gzip => gzip(image.as_slice()),
            Compression::Xz => xz(image.as_slice(), XZ_LEVEL),
            Compression::Zstd => zstd(image.as_slice(), ZSTD_LEVEL),
        };
        match done {
            Ok(bytes) => Ok(bytes),
            Err(e) => Err(Error::archive("compression failed".to_owned(), &e)),
        }
    }

    /// The name of the decoder, for the message when it fails.
    pub open spec fn decoder_failure(self) -> ErrorView {
        ErrorView::Archive {
            reason: match self {
                Compression::Gzip => "gzip decompression failed"@,
                Compression::Xz => "xz decompression failed"@,
                Compression::Zstd => "zstd decompression failed"@,
                Compression::Stored => ""@,
            },
            told: true,
        }
    }

    /// What decompressing some bytes comes to.
    pub open spec fn decompressing(self, image: Seq<u8>) -> core::result::Result<
        Seq<u8>,
        ErrorView,
    > {
        match self.decompressed(image) {
            Some(bytes) => Ok(bytes),
            None => Err(self.decoder_failure()),
        }
    }

    /// Decompresses a whole image in memory.
    pub fn decompress(self, image: &Vec<u8>) -> (r: Result<Vec<u8>>)
        ensures
            settled(r) == self.decompressing(image@),
    {
        match self {
            Compression::Stored => Ok(copy_bytes(image)),
            Compression::Gzip => match gunzip(image.as_slice()) {
                Ok(bytes) => Ok(bytes),
                Err(e) => Err(Error::archive("gzip decompression failed".to_owned(), &e)),
            },
            Compression::Xz => match unxz(image.as_slice()) {
                Ok(bytes) => Ok(bytes),
                Err(e) => Err(Error::archive("xz decompression failed".to_owned(), &e)),
            },
            Compression::Zstd => match unzstd(image.as_slice()) {
                Ok(bytes) => Ok(bytes),
                Err(e) => Err(Error::archive("zstd decompression failed".to_owned(), &e)),
            },
        }
    }
}

// ---- laws -----------------------------------------------------------------------------

/// A compression is known by its name and by the ending of what it compresses, and by nothing
/// else.
pub proof fn compressions_are_known_by_name(name: Seq<char>)
    ensures
        compressor_named(name) == Ok::<Compression, ErrorView>(Compression::Gzip) <==> name
            == "gzip"@ || name == "gz"@,
        compressor_named(name) == Ok::<Compression, ErrorView>(Compression::Xz) <==> name == "xz"@,
        compressor_named(name) == Ok::<Compression, ErrorView>(Compression::Zstd) <==> name
            == "zstd"@ || name == "zst"@,
        compressor_named(name) == Ok::<Compression, ErrorView>(Compression::Stored) <==> name
            == "none"@,
{
    reveal_strlit("gzip");
    reveal_strlit("gz");
    reveal_strlit("xz");
    reveal_strlit("zstd");
    reveal_strlit("zst");
    reveal_strlit("none");
    assert("gzip"@.len() == 4 && "gzip"@[0] == 'g');
    assert("gz"@.len() == 2 && "gz"@[0] == 'g');
    assert("xz"@.len() == 2 && "xz"@[0] == 'x');
    assert("zstd"@.len() == 4 && "zstd"@[0] == 'z');
    assert("zst"@.len() == 3);
    assert("none"@.len() == 4 && "none"@[0] == 'n');
}

/// A compressed archive is named after its contents and its compression.
pub proof fn archives_are_named_after_their_compression(stem: Seq<char>)
    ensures
        Compression::Gzip.named_member(stem) == stem + ".tar."@ + "gz"@,
        Compression::Xz.named_member(stem) == stem + ".tar."@ + "xz"@,
        Compression::Zstd.named_member(stem) == stem + ".tar."@ + "zst"@,
        Compression::Stored.named_member(stem) == stem + ".tar"@,
{
}

/// Bytes are compressed by the compression that was asked for, at its usual level, and stored
/// ones stay as they are.
pub proof fn each_compression_is_its_own(input: Seq<u8>)
    ensures
        Compression::Stored.compressing(input) == Ok::<Seq<u8>, ErrorView>(input),
        Compression::Gzip.compressing(input) == Ok::<Seq<u8>, ErrorView>(gzip_image(input)),
        xz_takes(input, 6) ==> Compression::Xz.compressing(input) == Ok::<Seq<u8>, ErrorView>(
            xz_image(input, 6),
        ),
        !xz_takes(input, 6) ==> Compression::Xz.compressing(input) is Err,
        zstd_takes(input, 19) ==> Compression::Zstd.compressing(input) == Ok::<Seq<u8>, ErrorView>(
            zstd_image(input, 19),
        ),
        !zstd_takes(input, 19) ==> Compression::Zstd.compressing(input) is Err,
        Compression::Stored.decompressing(input) == Ok::<Seq<u8>, ErrorView>(input),
        gunzipped(input) matches Some(b) ==> Compression::Gzip.decompressing(input) == Ok::<
            Seq<u8>,
            ErrorView,
        >(b),
        unxzed(input) matches Some(b) ==> Compression::Xz.decompressing(input) == Ok::<
            Seq<u8>,
            ErrorView,
        >(b),
        unzstded(input) matches Some(b) ==> Compression::Zstd.decompressing(input) == Ok::<
            Seq<u8>,
            ErrorView,
        >(b),
        gunzipped(input) is None ==> Compression::Gzip.decompressing(input) is Err,
        unxzed(input) is None ==> Compression::Xz.decompressing(input) is Err,
        unzstded(input) is None ==> Compression::Zstd.decompressing(input) is Err,
{
}

} // verus!
