//! The documentation Debian policy requires of every package: `copyright` and a changelog.

use vstd::prelude::*;
use vstd::string::StrSliceExecFns;
use vstd::utf8::encode_utf8;

use crate::codec::{gzip, gzip_image};
use crate::destination::destination_of;
use crate::packing::{Error, ErrorView, Result};
use crate::plan::{
    BuildPlan, BuildPlanView, Destination, EntryKindView, FileContentView, PlannedFile,
    PlannedFileView,
};
use crate::strings::{clean_line, lines_of, lines_of_unlines, unlines, views};

verus! {

pub const DOC_DIR: &'static str = "/usr/share/doc/";

/// Where the project comes from, where that is known.
pub open spec fn source_line(homepage: Option<Seq<char>>) -> Seq<char> {
    match homepage {
        Some(at) => "Source: "@ + at + "\n"@,
        None => Seq::empty(),
    }
}

/// The machine-readable copyright file.
pub open spec fn copyright_text(p: BuildPlanView) -> Seq<char> {
    "Format: https://www.debian.org/doc/packaging-manuals/copyright-format/1.0/\nUpstream-Name: "@
        + p.identity.package_name + "\n"@ + source_line(p.identity.homepage)
        + "\nFiles: *\nCopyright: "@ + p.identity.maintainer + "\nLicense: "@ + (match p.identity.license {
        Some(license) => license,
        None => "unspecified"@,
    }) + "\n"@
}

/// The changelog, one entry for this version.
pub open spec fn changelog_text(p: BuildPlanView) -> Seq<char> {
    p.identity.package_name + " ("@ + p.identity.version_deb
        + ") unstable; urgency=medium\n\n  * Packaged by "@ + p.metadata.generator + " "@
        + p.metadata.generator_version + ".\n\n -- "@ + p.identity.maintainer + "\n"@
}

/// A documentation entry.
pub open spec fn doc_entry(destination: Seq<char>, bytes: Seq<u8>) -> PlannedFileView {
    PlannedFileView {
        destination,
        kind: EntryKindView::Regular,
        content: FileContentView::Inline(bytes),
        mode: PlannedFile::MODE_REGULAR,
        is_config: false,
    }
}

/// The documentation entries of a package, given its compressed changelog.
pub open spec fn doc_entries_with(p: BuildPlanView, changelog: Seq<u8>) -> core::result::Result<
    Seq<PlannedFileView>,
    ErrorView,
> {
    let dir = DOC_DIR@ + p.identity.package_name;
    match destination_of(dir + "/copyright"@) {
        Err(e) => Err(ErrorView::Core(e)),
        Ok(first) => match destination_of(dir + "/changelog.gz"@) {
            Err(e) => Err(ErrorView::Core(e)),
            Ok(second) => Ok(
                seq![
                    doc_entry(first, encode_utf8(copyright_text(p))),
                    doc_entry(second, changelog),
                ],
            ),
        },
    }
}

/// The documentation entries of a package.
pub open spec fn doc_entries(p: BuildPlanView) -> core::result::Result<
    Seq<PlannedFileView>,
    ErrorView,
> {
    doc_entries_with(p, gzip_image(encode_utf8(changelog_text(p))))
}

fn copyright(plan: &BuildPlan) -> (s: String)
    ensures
        s@ == copyright_text(plan@),
{
    let mut s =
        "Format: https://www.debian.org/doc/packaging-manuals/copyright-format/1.0/\nUpstream-Name: ".to_owned();
    s.append(plan.identity.package_name.as_str());
    s.append("\n");
    let mut source = String::new();
    match &plan.identity.homepage {
        Some(at) => {
            source = "Source: ".to_owned();
            source.append(at.as_str());
            source.append("\n");
        },
        None => {
            assert(source@ =~= Seq::empty());
        },
    }
    s.append(source.as_str());
    s.append("\nFiles: *\nCopyright: ");
    s.append(plan.identity.maintainer.as_str());
    s.append("\nLicense: ");
    match &plan.identity.license {
        Some(license) => {
            s.append(license.as_str());
        },
        None => {
            s.append("unspecified");
        },
    }
    s.append("\n");
    s
}

fn changelog(plan: &BuildPlan) -> (s: String)
    ensures
        s@ == changelog_text(plan@),
{
    let mut s = plan.identity.package_name.clone();
    s.append(" (");
    s.append(plan.identity.version_deb.as_str());
    s.append(") unstable; urgency=medium\n\n  * Packaged by ");
    s.append(plan.metadata.generator.as_str());
    s.append(" ");
    s.append(plan.metadata.generator_version.as_str());
    s.append(".\n\n -- ");
    s.append(plan.identity.maintainer.as_str());
    s.append("\n");
    s
}

/// The documentation entries of a package, given its compressed changelog.
pub fn entries_with(plan: &BuildPlan, changelog: Vec<u8>) -> (r: Result<Vec<PlannedFile>>)
    ensures
        match r {
            Ok(files) => doc_entries_with(plan@, changelog@) == Ok::<
                Seq<PlannedFileView>,
                ErrorView,
            >(views(files@)),
            Err(e) => doc_entries_with(plan@, changelog@) == Err::<
                Seq<PlannedFileView>,
                ErrorView,
            >(e@),
        },
{
    let mut dir = DOC_DIR.to_owned();
    dir.append(plan.identity.package_name.as_str());
    let mut first = dir.clone();
    first.append("/copyright");
    let mut second = dir;
    second.append("/changelog.gz");
    let at = match Destination::new(first.as_str()) {
        Err(e) => {
            return Err(Error::Core(e));
        },
        Ok(d) => d,
    };
    let log = match Destination::new(second.as_str()) {
        Err(e) => {
            return Err(Error::Core(e));
        },
        Ok(d) => d,
    };
    let bytes = copyright(plan).as_str().as_bytes_vec();
    let ghost expected = doc_entries_with(plan@, changelog@)->Ok_0;
    let mut files: Vec<PlannedFile> = Vec::new();
    files.push(PlannedFile::inline(at, bytes, PlannedFile::MODE_REGULAR));
    files.push(PlannedFile::inline(log, changelog, PlannedFile::MODE_REGULAR));
    assert(views(files@) =~= expected);
    Ok(files)
}

/// The documentation entries of a package.
pub fn entries(plan: &BuildPlan) -> (r: Result<Vec<PlannedFile>>)
    ensures
        match r {
            Ok(files) => doc_entries(plan@) == Ok::<Seq<PlannedFileView>, ErrorView>(
                views(files@),
            ),
            Err(e) => doc_entries(plan@) == Err::<Seq<PlannedFileView>, ErrorView>(e@),
        },
{
    let text = changelog(plan).as_str().as_bytes_vec();
    match gzip(text.as_slice()) {
        Err(e) => Err(Error::archive("could not compress the changelog".to_owned(), &e)),
        Ok(packed) => entries_with(plan, packed),
    }
}

// ---- laws -----------------------------------------------------------------------------

/// A package documents itself under its own name: its copyright as text and its changelog as it
/// was compressed, both readable by everyone.
pub proof fn a_package_documents_itself(p: BuildPlanView, changelog: Seq<u8>)
    requires
        doc_entries_with(p, changelog) is Ok,
    ensures
        ({
            let docs = doc_entries_with(p, changelog)->Ok_0;
            let name = p.identity.package_name;
            &&& docs.len() == 2
            &&& destination_of("/usr/share/doc/"@ + name + "/copyright"@) == Ok::<
                Seq<char>,
                crate::error::ErrorView,
            >(docs[0].destination)
            &&& docs[0].content == FileContentView::Inline(encode_utf8(copyright_text(p)))
            &&& destination_of("/usr/share/doc/"@ + name + "/changelog.gz"@) == Ok::<
                Seq<char>,
                crate::error::ErrorView,
            >(docs[1].destination)
            &&& docs[1].content == FileContentView::Inline(changelog)
            &&& forall|i: int|
                0 <= i < 2 ==> (#[trigger] docs[i]).kind is Regular && docs[i].mode == 0o644
                    && !docs[i].is_config
        }),
{
}

proof fn ended(lines: Seq<Seq<char>>, line: Seq<char>)
    ensures
        unlines(lines.push(line)) == unlines(lines) + line + "\n"@,
{
    assert(lines.push(line).drop_last() =~= lines);
}

proof fn copyright_opens(name: Seq<char>)
    ensures
        "Format: https://www.debian.org/doc/packaging-manuals/copyright-format/1.0/\nUpstream-Name: "@
            + name + "\n"@ == unlines(
            seq![
                "Format: https://www.debian.org/doc/packaging-manuals/copyright-format/1.0/"@,
                "Upstream-Name: "@ + name,
            ],
        ),
{
    reveal_strlit(
        "Format: https://www.debian.org/doc/packaging-manuals/copyright-format/1.0/\nUpstream-Name: ",
    );
    reveal_strlit("Format: https://www.debian.org/doc/packaging-manuals/copyright-format/1.0/");
    reveal_strlit("Upstream-Name: ");
    reveal_strlit("\n");
    let a = "Format: https://www.debian.org/doc/packaging-manuals/copyright-format/1.0/"@;
    let b = "Upstream-Name: "@ + name;
    let none = Seq::<Seq<char>>::empty();
    ended(none, a);
    ended(none.push(a), b);
    assert(unlines(none) =~= Seq::<char>::empty());
    assert(seq![a, b] =~= none.push(a).push(b));
    assert("Format: https://www.debian.org/doc/packaging-manuals/copyright-format/1.0/\nUpstream-Name: "@
        =~= a + "\n"@ + "Upstream-Name: "@);
    assert(a + "\n"@ + "Upstream-Name: "@ + name + "\n"@ =~= Seq::<char>::empty() + a + "\n"@ + b
        + "\n"@);
}

proof fn copyright_closes(before: Seq<Seq<char>>, holder: Seq<char>, license: Seq<char>)
    ensures
        unlines(before) + "\nFiles: *\nCopyright: "@ + holder + "\nLicense: "@ + license + "\n"@
            == unlines(
            before.push(Seq::empty()).push("Files: *"@).push("Copyright: "@ + holder).push(
                "License: "@ + license,
            ),
        ),
{
    reveal_strlit("\nFiles: *\nCopyright: ");
    reveal_strlit("Files: *");
    reveal_strlit("Copyright: ");
    reveal_strlit("\nLicense: ");
    reveal_strlit("License: ");
    reveal_strlit("\n");
    let a = before.push(Seq::empty());
    let b = a.push("Files: *"@);
    let c = b.push("Copyright: "@ + holder);
    ended(before, Seq::empty());
    ended(a, "Files: *"@);
    ended(b, "Copyright: "@ + holder);
    ended(c, "License: "@ + license);
    let text = unlines(before);
    assert("\nFiles: *\nCopyright: "@ =~= "\n"@ + "Files: *"@ + "\n"@ + "Copyright: "@);
    assert("\nLicense: "@ =~= "\n"@ + "License: "@);
    assert(unlines(c) =~= text + "\nFiles: *\nCopyright: "@ + holder + "\n"@);
    assert(unlines(c) + ("License: "@ + license) + "\n"@ =~= text + "\nFiles: *\nCopyright: "@
        + holder + "\nLicense: "@ + license + "\n"@);
}

/// A field and its value on one line.
proof fn field_is_clean(key: Seq<char>, value: Seq<char>)
    requires
        key.len() > 0,
        !key.contains('\n'),
        key.last() != '\r',
        clean_line(value),
    ensures
        clean_line(key + value),
{
    let line = key + value;
    assert forall|i: int| 0 <= i < line.len() implies #[trigger] line[i] != '\n' by {
        if i < key.len() {
            assert(key.contains(key[i]));
        } else {
            assert(value.contains(value[i - key.len()]));
        }
    }
}

/// The copyright has a line that names the package, one for its holder and one for its license,
/// `unspecified` where there is none, and one for where the project comes from exactly where
/// that is known.
pub proof fn the_copyright_names_its_holder(p: BuildPlanView)
    requires
        clean_line(p.identity.package_name),
        clean_line(p.identity.maintainer),
        p.identity.homepage matches Some(at) ==> clean_line(at),
        p.identity.license matches Some(text) ==> clean_line(text),
    ensures
        ({
            let lines = lines_of(copyright_text(p));
            let after = 2 + (if p.identity.homepage is Some {
                1int
            } else {
                0
            });
            &&& lines.len() == after + 4
            &&& lines[1] == "Upstream-Name: "@ + p.identity.package_name
            &&& p.identity.homepage matches Some(at) ==> lines[2] == "Source: "@ + at
            &&& lines[after + 2] == "Copyright: "@ + p.identity.maintainer
            &&& lines[after + 3] == "License: "@ + (match p.identity.license {
                Some(text) => text,
                None => "unspecified"@,
            })
        }),
{
    let id = p.identity;
    let license = match id.license {
        Some(text) => text,
        None => "unspecified"@,
    };
    let opening = seq![
        "Format: https://www.debian.org/doc/packaging-manuals/copyright-format/1.0/"@,
        "Upstream-Name: "@ + id.package_name,
    ];
    let before = match id.homepage {
        Some(at) => opening.push("Source: "@ + at),
        None => opening,
    };
    copyright_opens(id.package_name);
    if id.homepage is Some {
        ended(opening, "Source: "@ + id.homepage->0);
        assert(unlines(opening) + source_line(id.homepage) =~= unlines(before));
    } else {
        assert(unlines(opening) + source_line(id.homepage) =~= unlines(before));
    }
    copyright_closes(before, id.maintainer, license);
    let lines = before.push(Seq::empty()).push("Files: *"@).push(
        "Copyright: "@ + id.maintainer,
    ).push("License: "@ + license);
    assert(copyright_text(p) == unlines(lines));
    reveal_strlit("Format: https://www.debian.org/doc/packaging-manuals/copyright-format/1.0/");
    reveal_strlit("Upstream-Name: ");
    reveal_strlit("Source: ");
    reveal_strlit("Files: *");
    reveal_strlit("Copyright: ");
    reveal_strlit("License: ");
    reveal_strlit("unspecified");
    field_is_clean("Upstream-Name: "@, id.package_name);
    field_is_clean("Copyright: "@, id.maintainer);
    assert(clean_line(license));
    field_is_clean("License: "@, license);
    if id.homepage is Some {
        field_is_clean("Source: "@, id.homepage->0);
    }
    assert(clean_line(
        "Format: https://www.debian.org/doc/packaging-manuals/copyright-format/1.0/"@,
    ));
    assert(clean_line("Files: *"@));
    assert(clean_line(Seq::<char>::empty()));
    assert forall|i: int| 0 <= i < lines.len() implies clean_line(#[trigger] lines[i]) by {
        if i < before.len() {
            assert(lines[i] == before[i]);
            if i < 2 {
                assert(before[i] == opening[i]);
            }
        }
    }
    lines_of_unlines(lines);
}

/// The changelog opens with the package and its version, says what packaged it, and is signed by
/// the maintainer.
pub proof fn the_changelog_is_signed(p: BuildPlanView)
    ensures
        (p.identity.package_name + " ("@ + p.identity.version_deb
            + ") unstable; urgency=medium\n"@).is_prefix_of(changelog_text(p)),
        (" -- "@ + p.identity.maintainer + "\n"@).is_suffix_of(changelog_text(p)),
        changelog_text(p).len() == (p.identity.package_name + " ("@ + p.identity.version_deb
            + ") unstable; urgency=medium\n"@).len() + ("\n  * Packaged by "@
            + p.metadata.generator + " "@ + p.metadata.generator_version + ".\n\n"@).len() + (
        " -- "@ + p.identity.maintainer + "\n"@).len(),
{
    reveal_strlit(" (");
    reveal_strlit(") unstable; urgency=medium\n\n  * Packaged by ");
    reveal_strlit(") unstable; urgency=medium\n");
    reveal_strlit("\n  * Packaged by ");
    reveal_strlit(" ");
    reveal_strlit(".\n\n -- ");
    reveal_strlit(".\n\n");
    reveal_strlit(" -- ");
    reveal_strlit("\n");
    let head = p.identity.package_name + " ("@ + p.identity.version_deb
        + ") unstable; urgency=medium\n"@;
    let body = "\n  * Packaged by "@ + p.metadata.generator + " "@ + p.metadata.generator_version
        + ".\n\n"@;
    let tail = " -- "@ + p.identity.maintainer + "\n"@;
    assert(") unstable; urgency=medium\n\n  * Packaged by "@ =~= ") unstable; urgency=medium\n"@
        + "\n  * Packaged by "@);
    assert(".\n\n -- "@ =~= ".\n\n"@ + " -- "@);
    assert(changelog_text(p) =~= head + body + tail);
}

} // verus!
