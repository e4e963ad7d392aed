//! RPM packages, assembled by the `rpm` crate.

use vstd::prelude::*;

use crate::destination::destination_form;

verus! {

/// A package being assembled: an `rpm::PackageBuilder`.
#[verifier::external_body]
pub struct RpmWriter {
    inner: ::rpm::PackageBuilder,
}

/// What an entry is.
pub enum RpmEntryKind {
    File { mode: u16, config: bool, bytes: Seq<u8> },
    Directory { mode: u16 },
    Symlink { target: Seq<char> },
}

/// An entry, and the date it was added under.
pub struct RpmEntryView {
    pub kind: RpmEntryKind,
    pub modified: u32,
}

/// Everything a package is assembled from.
pub struct RecipeView {
    pub name: Seq<char>,
    pub version: Seq<char>,
    pub license: Seq<char>,
    pub arch: Seq<char>,
    pub summary: Seq<char>,
    pub source_date: Option<u32>,
    pub release: Seq<char>,
    pub description: Option<Seq<char>>,
    pub packager: Option<Seq<char>>,
    pub epoch: Option<u32>,
    pub url: Option<Seq<char>>,
    /// The packages required, each with whether it must be there before installing starts.
    pub requires: Seq<(Seq<char>, bool)>,
    pub entries: Map<Seq<char>, RpmEntryView>,
    pub pre: Option<Seq<char>>,
    pub post: Option<Seq<char>>,
    pub preun: Option<Seq<char>>,
    pub postun: Option<Seq<char>>,
}

/// What has been put into a package so far.
pub uninterp spec fn rpm_recipe(w: RpmWriter) -> RecipeView;

/// Whether `rpm::PackageBuilder::build` accepts a recipe.
pub uninterp spec fn rpm_accepts(recipe: RecipeView) -> bool;

/// The image `rpm::PackageBuilder::build` and `rpm::Package::write` make of a recipe, stamped with
/// a build time.
pub uninterp spec fn rpm_image(recipe: RecipeView, built: u32) -> Seq<u8>;

/// `image` bears a build time, and no package built at another is the same.
pub open spec fn bears(image: Seq<u8>, built: u32) -> bool {
    forall|other: RecipeView, at: u32|
        rpm_accepts(other) && #[trigger] rpm_image(other, at) == image ==> at == built
}

/// `image` is that of a recipe built at some time. The date of the recipe is the build time
/// unless it lies ahead of the clock; then the clock's is.
pub open spec fn stamped(recipe: RecipeView, built: u32, image: Seq<u8>) -> bool {
    built <= recipe.source_date->0 && image == rpm_image(recipe, built) && bears(image, built)
}

/// `image` is that of a recipe.
pub open spec fn rpm_assembles(recipe: RecipeView, image: Seq<u8>) -> bool {
    exists|built: u32| #[trigger] stamped(recipe, built, image)
}

/// What a new package is assembled from.
pub open spec fn new_recipe(
    name: Seq<char>,
    version: Seq<char>,
    license: Seq<char>,
    arch: Seq<char>,
    summary: Seq<char>,
) -> RecipeView {
    RecipeView {
        name,
        version,
        license,
        arch,
        summary,
        source_date: None,
        release: "1"@,
        description: None,
        packager: None,
        epoch: None,
        url: None,
        requires: Seq::empty(),
        entries: Map::empty(),
        pre: None,
        post: None,
        preun: None,
        postun: None,
    }
}

/// A recipe with one more entry.
pub open spec fn with_entry(recipe: RecipeView, destination: Seq<char>, kind: RpmEntryKind) -> RecipeView {
    RecipeView {
        entries: recipe.entries.insert(
            destination,
            RpmEntryView { kind, modified: recipe.source_date->0 },
        ),
        ..recipe
    }
}

/// What went wrong while a package was finished, in the `rpm` crate's words.
#[derive(Debug)]
pub enum FinishFault {
    Assemble(String),
    Serialise(String),
}

impl RpmWriter {
    /// `rpm::PackageBuilder::new`.
    #[verifier::external_body]
    pub(crate) fn new(name: &str, version: &str, license: &str, arch: &str, summary: &str) -> (w:
        Self)
        ensures
            rpm_recipe(w) == new_recipe(name@, version@, license@, arch@, summary@),
    {
        RpmWriter { inner: ::rpm::PackageBuilder::new(name, version, license, arch, summary) }
    }

    /// `rpm::PackageBuilder::using_config` with the default configuration and a source date,
    /// which is the date of the package and of the entries added while it is set.
    #[verifier::external_body]
    pub(crate) fn set_source_date(&mut self, date: u32)
        ensures
            rpm_recipe(*final(self)) == (RecipeView {
                source_date: Some(date),
                ..rpm_recipe(*old(self))
            }),
    {
        self.inner.using_config(::rpm::BuildConfig::default().source_date(date));
    }

    /// `rpm::PackageBuilder::release`.
    #[verifier::external_body]
    pub(crate) fn set_release(&mut self, release: &str)
        ensures
            rpm_recipe(*final(self)) == (RecipeView {
                release: release@,
                ..rpm_recipe(*old(self))
            }),
    {
        self.inner.release(release);
    }

    /// `rpm::PackageBuilder::description`.
    #[verifier::external_body]
    pub(crate) fn set_description(&mut self, text: String)
        ensures
            rpm_recipe(*final(self)) == (RecipeView {
                description: Some(text@),
                ..rpm_recipe(*old(self))
            }),
    {
        self.inner.description(text);
    }

    /// `rpm::PackageBuilder::packager`.
    #[verifier::external_body]
    pub(crate) fn set_packager(&mut self, name: &str)
        ensures
            rpm_recipe(*final(self)) == (RecipeView {
                packager: Some(name@),
                ..rpm_recipe(*old(self))
            }),
    {
        self.inner.packager(name);
    }

    /// `rpm::PackageBuilder::epoch`.
    #[verifier::external_body]
    pub(crate) fn set_epoch(&mut self, epoch: u32)
        ensures
            rpm_recipe(*final(self)) == (RecipeView {
                epoch: Some(epoch),
                ..rpm_recipe(*old(self))
            }),
    {
        self.inner.epoch(epoch);
    }

    /// `rpm::PackageBuilder::url`.
    #[verifier::external_body]
    pub(crate) fn set_url(&mut self, url: &str)
        ensures
            rpm_recipe(*final(self)) == (RecipeView { url: Some(url@), ..rpm_recipe(*old(self)) }),
    {
        self.inner.url(url);
    }

    /// `rpm::PackageBuilder::requires` with any version of a package.
    #[verifier::external_body]
    pub(crate) fn add_requirement(&mut self, name: &str)
        ensures
            rpm_recipe(*final(self)) == (RecipeView {
                requires: rpm_recipe(*old(self)).requires.push((name@, false)),
                ..rpm_recipe(*old(self))
            }),
    {
        self.inner.requires(::rpm::Dependency::any(name));
    }

    /// `rpm::PackageBuilder::requires` with any version of a package, marked as `Requires(pre)`.
    #[verifier::external_body]
    pub(crate) fn add_early_requirement(&mut self, name: &str)
        ensures
            rpm_recipe(*final(self)) == (RecipeView {
                requires: rpm_recipe(*old(self)).requires.push((name@, true)),
                ..rpm_recipe(*old(self))
            }),
    {
        self.inner.requires(::rpm::Dependency {
            name: name.to_owned(),
            flags: ::rpm::DependencyFlags::SCRIPT_PRE,
            version: String::new(),
        });
    }

    /// `rpm::PackageBuilder::with_symlink`. An empty target and a path that is there already are
    /// refused.
    #[verifier::external_body]
    pub(crate) fn add_symlink(&mut self, destination: &str, target: &str) -> (r: core::result::Result<
        (),
        String,
    >)
        requires
            destination_form(destination@),
            rpm_recipe(*old(self)).source_date is Some,
        ensures
            (r is Err) == (target@.len() == 0 || rpm_recipe(*old(self)).entries.dom().contains(
                destination@,
            )),
            r is Ok ==> rpm_recipe(*final(self)) == with_entry(
                rpm_recipe(*old(self)),
                destination@,
                RpmEntryKind::Symlink { target: target@ },
            ),
    {
        self.inner.with_symlink(::rpm::FileOptions::symlink(destination, target)).map(|_| ()).map_err(|e| e.to_string())
    }

    /// `rpm::PackageBuilder::with_dir_entry`. A path that is there already is refused.
    #[verifier::external_body]
    pub(crate) fn add_directory(&mut self, destination: &str, mode: u16) -> (r: core::result::Result<
        (),
        String,
    >)
        requires
            destination_form(destination@),
            mode <= 0o7777,
            rpm_recipe(*old(self)).source_date is Some,
        ensures
            (r is Err) == rpm_recipe(*old(self)).entries.dom().contains(destination@),
            r is Ok ==> rpm_recipe(*final(self)) == with_entry(
                rpm_recipe(*old(self)),
                destination@,
                RpmEntryKind::Directory { mode },
            ),
    {
        let options = ::rpm::FileOptions::dir(destination).mode(::rpm::FileMode::dir(mode));
        self.inner.with_dir_entry(options).map(|_| ()).map_err(|e| e.to_string())
    }

    /// `rpm::PackageBuilder::with_file_contents`. A path that is there already is refused.
    #[verifier::external_body]
    pub(crate) fn add_file(&mut self, destination: &str, mode: u16, bytes: Vec<u8>) -> (r:
        core::result::Result<(), String>)
        requires
            destination_form(destination@),
            mode <= 0o7777,
            rpm_recipe(*old(self)).source_date is Some,
        ensures
            (r is Err) == rpm_recipe(*old(self)).entries.dom().contains(destination@),
            r is Ok ==> rpm_recipe(*final(self)) == with_entry(
                rpm_recipe(*old(self)),
                destination@,
                RpmEntryKind::File { mode, config: false, bytes: bytes@ },
            ),
    {
        let options = ::rpm::FileOptions::new(destination).mode(::rpm::FileMode::regular(mode));
        self.inner.with_file_contents(bytes, options).map(|_| ()).map_err(|e| e.to_string())
    }

    /// `rpm::PackageBuilder::with_file_contents` with `config` and `noreplace` set. A path that
    /// is there already is refused.
    #[verifier::external_body]
    pub(crate) fn add_config(&mut self, destination: &str, mode: u16, bytes: Vec<u8>) -> (r:
        core::result::Result<(), String>)
        requires
            destination_form(destination@),
            mode <= 0o7777,
            rpm_recipe(*old(self)).source_date is Some,
        ensures
            (r is Err) == rpm_recipe(*old(self)).entries.dom().contains(destination@),
            r is Ok ==> rpm_recipe(*final(self)) == with_entry(
                rpm_recipe(*old(self)),
                destination@,
                RpmEntryKind::File { mode, config: true, bytes: bytes@ },
            ),
    {
        let options = ::rpm::FileOptions::new(destination).mode(::rpm::FileMode::regular(mode));
        self.inner.with_file_contents(bytes, options.config().noreplace()).map(|_| ()).map_err(|e| e.to_string())
    }

    /// `rpm::PackageBuilder::pre_install_script`.
    #[verifier::external_body]
    pub(crate) fn set_pre(&mut self, script: String)
        ensures
            rpm_recipe(*final(self)) == (RecipeView { pre: Some(script@), ..rpm_recipe(*old(self)) }),
    {
        self.inner.pre_install_script(script);
    }

    /// `rpm::PackageBuilder::post_install_script`.
    #[verifier::external_body]
    pub(crate) fn set_post(&mut self, script: String)
        ensures
            rpm_recipe(*final(self)) == (RecipeView {
                post: Some(script@),
                ..rpm_recipe(*old(self))
            }),
    {
        self.inner.post_install_script(script);
    }

    /// `rpm::PackageBuilder::pre_uninstall_script`.
    #[verifier::external_body]
    pub(crate) fn set_preun(&mut self, script: String)
        ensures
            rpm_recipe(*final(self)) == (RecipeView {
                preun: Some(script@),
                ..rpm_recipe(*old(self))
            }),
    {
        self.inner.pre_uninstall_script(script);
    }

    /// `rpm::PackageBuilder::post_uninstall_script`.
    #[verifier::external_body]
    pub(crate) fn set_postun(&mut self, script: String)
        ensures
            rpm_recipe(*final(self)) == (RecipeView {
                postun: Some(script@),
                ..rpm_recipe(*old(self))
            }),
    {
        self.inner.post_uninstall_script(script);
    }

    /// `rpm::PackageBuilder::build`, then `rpm::Package::write` into a vector, which cannot fail
    /// there. What is accepted depends on the recipe alone, and the bytes on the recipe and the
    /// build time, which is the recipe's date or, where that lies ahead of the clock, the
    /// clock's. The build time stands in the header, so images with different ones differ.
    #[verifier::external_body]
    pub(crate) fn finish(self) -> (r: core::result::Result<Vec<u8>, FinishFault>)
        requires
            rpm_recipe(self).source_date is Some,
        ensures
            (r is Ok) == rpm_accepts(rpm_recipe(self)),
            r is Err ==> r->Err_0 is Assemble,
            r is Ok ==> exists|built: u32|
                built <= rpm_recipe(self).source_date->0 && #[trigger] rpm_image(
                    rpm_recipe(self),
                    built,
                ) == r->Ok_0@ && bears(r->Ok_0@, built),
    {
        let mut builder = self.inner;
        let package = builder.build().map_err(|e| FinishFault::Assemble(e.to_string()))?;
        let mut bytes = Vec::with_capacity(1 << 16);
        package.write(&mut bytes).map_err(|e| FinishFault::Serialise(e.to_string()))?;
        Ok(bytes)
    }
}

} // verus!
