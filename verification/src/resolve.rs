//! The single precedence chain that turns the settings plus overrides into a validated
//! configuration. Highest first:
//!
//! 1. command-line overrides
//! 2. the `.nativepkg` settings
//! 3. the manifest's own fields, where it has one, and built-in defaults
//!
//! Stated once, in [`pick`], and applied to every field.

use vstd::prelude::*;

use crate::architecture::{architecture_named, Architecture};
use crate::chars::{control, whitespace};
use crate::error::{opt, outcome, Error, ErrorView, Result};
use crate::name::{
    derived_account_name, entry_point_of, executable_name_of, install_dir_of,
    normalised_package_name, strict_account_name, strict_package_name, EntryPoint, ExecutableName,
    InstallDir, PackageName, UnixName,
};
use crate::npm::{
    binary_of, command_binary, prefixes, suggested_setting, InitSystem, InstallStrategy, Manifest,
    ManifestView, Settings, SettingsView, Templates, TemplatesView,
};
use crate::plan::copy_text;
use crate::strings::{same, text_holds, texts_hold_their_pieces, views, views_push};
use crate::text::{
    printable, printable_check, single_line, single_line_check, single_line_holds_no_control,
    texts_hold_what_their_place_allows, token, token_check,
};
use crate::version::{
    mapped_version_of, version_spec_of, MappedVersion, MappedVersionView, VersionSpec,
};

verus! {

/// Values supplied on the command line; absent means "defer".
#[derive(Debug)]
pub struct Overrides {
    pub package_name: Option<String>,
    pub version: Option<String>,
    pub epoch: Option<u32>,
    pub description: Option<String>,
    pub maintainer: Option<String>,
    pub architecture: Option<String>,
    pub dependencies: Option<String>,
    pub install_dir: Option<String>,
    pub user: Option<String>,
    pub group: Option<String>,
    pub executable_name: Option<String>,
    pub output_deb_name: Option<String>,
    pub extra_files: Option<String>,
    pub triggers_file: Option<String>,
    pub daemon_entrypoint: Option<String>,
    pub cli_entrypoint: Option<String>,
    pub init: Option<InitSystem>,
    pub install_strategy: Option<InstallStrategy>,
    pub install_command: Option<String>,
    pub install_binary: Option<String>,
    pub include_nodejs: bool,
}

pub struct OverridesView {
    pub package_name: Option<Seq<char>>,
    pub version: Option<Seq<char>>,
    pub epoch: Option<u32>,
    pub description: Option<Seq<char>>,
    pub maintainer: Option<Seq<char>>,
    pub architecture: Option<Seq<char>>,
    pub dependencies: Option<Seq<char>>,
    pub install_dir: Option<Seq<char>>,
    pub user: Option<Seq<char>>,
    pub group: Option<Seq<char>>,
    pub executable_name: Option<Seq<char>>,
    pub output_deb_name: Option<Seq<char>>,
    pub extra_files: Option<Seq<char>>,
    pub triggers_file: Option<Seq<char>>,
    pub daemon_entrypoint: Option<Seq<char>>,
    pub cli_entrypoint: Option<Seq<char>>,
    pub init: Option<InitSystem>,
    pub install_strategy: Option<InstallStrategy>,
    pub install_command: Option<Seq<char>>,
    pub install_binary: Option<Seq<char>>,
    pub include_nodejs: bool,
}

impl View for Overrides {
    type V = OverridesView;

    open spec fn view(&self) -> OverridesView {
        OverridesView {
            package_name: opt(self.package_name),
            version: opt(self.version),
            epoch: self.epoch,
            description: opt(self.description),
            maintainer: opt(self.maintainer),
            architecture: opt(self.architecture),
            dependencies: opt(self.dependencies),
            install_dir: opt(self.install_dir),
            user: opt(self.user),
            group: opt(self.group),
            executable_name: opt(self.executable_name),
            output_deb_name: opt(self.output_deb_name),
            extra_files: opt(self.extra_files),
            triggers_file: opt(self.triggers_file),
            daemon_entrypoint: opt(self.daemon_entrypoint),
            cli_entrypoint: opt(self.cli_entrypoint),
            init: self.init,
            install_strategy: self.install_strategy,
            install_command: opt(self.install_command),
            install_binary: opt(self.install_binary),
            include_nodejs: self.include_nodejs,
        }
    }
}

impl Default for Overrides {
    fn default() -> (o: Self)
        ensures
            o@ == (OverridesView {
                package_name: None,
                version: None,
                epoch: None,
                description: None,
                maintainer: None,
                architecture: None,
                dependencies: None,
                install_dir: None,
                user: None,
                group: None,
                executable_name: None,
                output_deb_name: None,
                extra_files: None,
                triggers_file: None,
                daemon_entrypoint: None,
                cli_entrypoint: None,
                init: None,
                install_strategy: None,
                install_command: None,
                install_binary: None,
                include_nodejs: false,
            }),
    {
        Overrides {
            package_name: None,
            version: None,
            epoch: None,
            description: None,
            maintainer: None,
            architecture: None,
            dependencies: None,
            install_dir: None,
            user: None,
            group: None,
            executable_name: None,
            output_deb_name: None,
            extra_files: None,
            triggers_file: None,
            daemon_entrypoint: None,
            cli_entrypoint: None,
            init: None,
            install_strategy: None,
            install_command: None,
            install_binary: None,
            include_nodejs: false,
        }
    }
}

/// A fully resolved, validated configuration; downstream stages do not re-validate.
#[derive(Debug)]
pub struct ResolvedConfig {
    pub package_name: PackageName,
    pub version: MappedVersion,
    /// As written by the user; splitting into synopsis and body is a control-file concern.
    pub description: String,
    pub maintainer: String,
    /// As supplied; see [`ResolvedConfig::architecture_parsed`].
    pub architecture: String,
    /// npm workspace roots, relative to the project root. Only these may be materialised when
    /// linked into `node_modules`; anything else a dependency links to is refused.
    pub workspace_roots: Vec<String>,
    pub homepage: Option<String>,
    pub license: Option<String>,
    pub dependencies: Option<String>,
    pub install_dir: InstallDir,
    pub user: UnixName,
    pub group: UnixName,
    pub executable_name: ExecutableName,
    pub init: InitSystem,
    pub install_strategy: InstallStrategy,
    /// The resolved install-at-unpack command, and the binary its guard checks for.
    pub install_command: String,
    pub install_binary: String,
    /// Directory copied verbatim to the filesystem root.
    pub extra_files: Option<String>,
    pub triggers_file: Option<String>,
    pub output_deb_name: Option<String>,
    /// Required unless there is no service.
    pub daemon_entrypoint: Option<EntryPoint>,
    /// Defaults to the daemon entrypoint.
    pub cli_entrypoint: Option<EntryPoint>,
    pub templates: Templates,
}

pub struct ResolvedConfigView {
    pub package_name: Seq<char>,
    pub version: MappedVersionView,
    pub description: Seq<char>,
    pub maintainer: Seq<char>,
    pub architecture: Seq<char>,
    pub workspace_roots: Seq<Seq<char>>,
    pub homepage: Option<Seq<char>>,
    pub license: Option<Seq<char>>,
    pub dependencies: Option<Seq<char>>,
    pub install_dir: Seq<char>,
    pub user: Seq<char>,
    pub group: Seq<char>,
    pub executable_name: Seq<char>,
    pub init: InitSystem,
    pub install_strategy: InstallStrategy,
    pub install_command: Seq<char>,
    pub install_binary: Seq<char>,
    pub extra_files: Option<Seq<char>>,
    pub triggers_file: Option<Seq<char>>,
    pub output_deb_name: Option<Seq<char>>,
    pub daemon_entrypoint: Option<Seq<char>>,
    pub cli_entrypoint: Option<Seq<char>>,
    pub templates: TemplatesView,
}

impl View for ResolvedConfig {
    type V = ResolvedConfigView;

    open spec fn view(&self) -> ResolvedConfigView {
        ResolvedConfigView {
            package_name: self.package_name@,
            version: self.version@,
            description: self.description@,
            maintainer: self.maintainer@,
            architecture: self.architecture@,
            workspace_roots: views(self.workspace_roots@),
            homepage: opt(self.homepage),
            license: opt(self.license),
            dependencies: opt(self.dependencies),
            install_dir: self.install_dir@,
            user: self.user@,
            group: self.group@,
            executable_name: self.executable_name@,
            init: self.init,
            install_strategy: self.install_strategy,
            install_command: self.install_command@,
            install_binary: self.install_binary@,
            extra_files: opt(self.extra_files),
            triggers_file: opt(self.triggers_file),
            output_deb_name: opt(self.output_deb_name),
            daemon_entrypoint: opt(self.daemon_entrypoint),
            cli_entrypoint: opt(self.cli_entrypoint),
            templates: self.templates@,
        }
    }
}

impl ResolvedConfig {
    /// Parses the architecture for a backend to render. Never defaulted: an unknown
    /// architecture is an error, not a package claiming to run where it cannot.
    pub fn architecture_parsed(&self) -> (r: Result<Architecture>)
        ensures
            outcome(r) == architecture_named(self@.architecture),
    {
        Architecture::parse(self.architecture.as_str())
    }
}

/// A non-fatal condition worth telling the user about. Returned rather than logged, so tests
/// can assert on it and the crate imposes no logging framework.
#[derive(Debug, PartialEq, Eq)]
pub enum Warning {
    PackageNameNormalised { original: String, normalised: String },
    /// Not semver, so no `~` mapping was applied.
    VersionNotMapped { version: String },
    /// A `-` inside a semver identifier was rewritten to `.`. Carries only the version as
    /// supplied: the rewritten form differs per format.
    VersionHyphensRewritten { original: String },
    /// Reported rather than ignored: a typo would otherwise produce a build that quietly did
    /// not honour the settings.
    UnknownSettingKey { key: String, suggestion: Option<&'static str>, object: &'static str },
    DependenciesExcluded { reason: String },
    DependenciesMayIncludeDevelopmentPackages,
    DependenciesInstalledAtInstallTime,
    CompiledAddonsInArchitectureIndependentPackage { example: String },
    UnixNameDerived { kind: &'static str, source: String, derived: String },
}

pub enum WarningView {
    PackageNameNormalised { original: Seq<char>, normalised: Seq<char> },
    VersionNotMapped { version: Seq<char> },
    VersionHyphensRewritten { original: Seq<char> },
    UnknownSettingKey { key: Seq<char>, suggestion: Option<Seq<char>>, object: Seq<char> },
    DependenciesExcluded { reason: Seq<char> },
    DependenciesMayIncludeDevelopmentPackages,
    DependenciesInstalledAtInstallTime,
    CompiledAddonsInArchitectureIndependentPackage { example: Seq<char> },
    UnixNameDerived { kind: Seq<char>, source: Seq<char>, derived: Seq<char> },
}

impl View for Warning {
    type V = WarningView;

    open spec fn view(&self) -> WarningView {
        match *self {
            Warning::PackageNameNormalised { original, normalised } =>
                WarningView::PackageNameNormalised {
                original: original@,
                normalised: normalised@,
            },
            Warning::VersionNotMapped { version } => WarningView::VersionNotMapped {
                version: version@,
            },
            Warning::VersionHyphensRewritten { original } => WarningView::VersionHyphensRewritten {
                original: original@,
            },
            Warning::UnknownSettingKey { key, suggestion, object } =>
                WarningView::UnknownSettingKey {
                key: key@,
                suggestion: opt(suggestion),
                object: object@,
            },
            Warning::DependenciesExcluded { reason } => WarningView::DependenciesExcluded {
                reason: reason@,
            },
            Warning::DependenciesMayIncludeDevelopmentPackages =>
                WarningView::DependenciesMayIncludeDevelopmentPackages,
            Warning::DependenciesInstalledAtInstallTime =>
                WarningView::DependenciesInstalledAtInstallTime,
            Warning::CompiledAddonsInArchitectureIndependentPackage { example } =>
                WarningView::CompiledAddonsInArchitectureIndependentPackage { example: example@ },
            Warning::UnixNameDerived { kind, source, derived } => WarningView::UnixNameDerived {
                kind: kind@,
                source: source@,
                derived: derived@,
            },
        }
    }
}

impl WarningView {
    /// The sentence a user reads.
    pub open spec fn text(self) -> Seq<char> {
        match self {
            WarningView::PackageNameNormalised { original, normalised } => "package name `"@
                + original + "` is not valid for native packaging; using `"@ + normalised + "`"@,
            WarningView::VersionNotMapped { version } => "version `"@ + version
                + "` is not semver; using it verbatim without pre-release mapping"@,
            WarningView::VersionHyphensRewritten { original } => "version `"@ + original
                + "` contains `-` inside an identifier, which no native package version can carry; it was rewritten for the target format"@,
            WarningView::UnknownSettingKey { key, suggestion, object } => match suggestion {
                Some(near) => "`"@ + object + "."@ + key
                    + "` is not a setting and was ignored; did you mean `"@ + near + "`?"@,
                None => "`"@ + object + "."@ + key + "` is not a setting and was ignored"@,
            },
            WarningView::DependenciesExcluded { reason } => "`node_modules` was not included: "@
                + reason,
            WarningView::DependenciesInstalledAtInstallTime =>
                "the install-time strategy was selected: installing this package will require network access and will run third-party install scripts as root on the target machine. The default strategy vendors dependencies at build time instead"@,
            WarningView::CompiledAddonsInArchitectureIndependentPackage { example } =>
                "the vendored dependencies contain a compiled addon (`"@ + example
                + "`) but the package declares architecture `all`. Compiled addons are specific to an architecture and to a Node.js ABI, so this package will not work everywhere it claims to; set an explicit architecture, or build on the target platform"@,
            WarningView::DependenciesMayIncludeDevelopmentPackages =>
                "the vendored `node_modules` is packaged as it exists on disk and may contain development dependencies; run `npm ci --omit=dev` before packaging to avoid shipping them"@,
            WarningView::UnixNameDerived { kind, source, derived } => "`"@ + source
                + "` is not a valid "@ + kind + " name; using `"@ + derived + "`"@,
        }
    }
}

impl Warning {
    /// The sentence a user reads.
    pub fn text(&self) -> (s: String)
        ensures
            s@ == self@.text(),
    {
        match self {
            Warning::PackageNameNormalised { original, normalised } => {
                let mut s = "package name `".to_owned();
                s.append(original.as_str());
                s.append("` is not valid for native packaging; using `");
                s.append(normalised.as_str());
                s.append("`");
                s
            },
            Warning::VersionNotMapped { version } => {
                let mut s = "version `".to_owned();
                s.append(version.as_str());
                s.append("` is not semver; using it verbatim without pre-release mapping");
                s
            },
            Warning::VersionHyphensRewritten { original } => {
                let mut s = "version `".to_owned();
                s.append(original.as_str());
                s.append(
                    "` contains `-` inside an identifier, which no native package version can carry; it was rewritten for the target format",
                );
                s
            },
            Warning::UnknownSettingKey { key, suggestion, object } => {
                let mut s = "`".to_owned();
                s.append(*object);
                s.append(".");
                s.append(key.as_str());
                match suggestion {
                    Some(near) => {
                        s.append("` is not a setting and was ignored; did you mean `");
                        s.append(*near);
                        s.append("`?");
                    },
                    None => {
                        s.append("` is not a setting and was ignored");
                    },
                }
                s
            },
            Warning::DependenciesExcluded { reason } => {
                let mut s = "`node_modules` was not included: ".to_owned();
                s.append(reason.as_str());
                s
            },
            Warning::DependenciesInstalledAtInstallTime =>
                "the install-time strategy was selected: installing this package will require network access and will run third-party install scripts as root on the target machine. The default strategy vendors dependencies at build time instead".to_owned(),
            Warning::CompiledAddonsInArchitectureIndependentPackage { example } => {
                let mut s = "the vendored dependencies contain a compiled addon (`".to_owned();
                s.append(example.as_str());
                s.append(
                    "`) but the package declares architecture `all`. Compiled addons are specific to an architecture and to a Node.js ABI, so this package will not work everywhere it claims to; set an explicit architecture, or build on the target platform",
                );
                s
            },
            Warning::DependenciesMayIncludeDevelopmentPackages =>
                "the vendored `node_modules` is packaged as it exists on disk and may contain development dependencies; run `npm ci --omit=dev` before packaging to avoid shipping them".to_owned(),
            Warning::UnixNameDerived { kind, source, derived } => {
                let mut s = "`".to_owned();
                s.append(source.as_str());
                s.append("` is not a valid ");
                s.append(*kind);
                s.append(" name; using `");
                s.append(derived.as_str());
                s.append("`");
                s
            },
        }
    }
}

// ---- precedence -----------------------------------------------------------------------

/// The entire precedence rule: command line, then settings, then the manifest's own field.
pub open spec fn pick<T>(cli: Option<T>, setting: Option<T>, manifest: Option<T>) -> Option<T> {
    match cli {
        Some(v) => Some(v),
        None => match setting {
            Some(v) => Some(v),
            None => manifest,
        },
    }
}

pub open spec fn or_else(o: Option<Seq<char>>, fallback: Seq<char>) -> Seq<char> {
    match o {
        Some(v) => v,
        None => fallback,
    }
}

/// The settings layer; absent, it sets nothing.
pub open spec fn settings_layer(m: ManifestView) -> SettingsView {
    match m.nativepkg {
        Some(s) => s,
        None => SettingsView::none(),
    }
}

fn pick_text(
    cli: &Option<String>,
    setting: &Option<String>,
    manifest: &Option<String>,
) -> (r: Option<String>)
    ensures
        opt(r) == pick(opt(*cli), opt(*setting), opt(*manifest)),
{
    match cli {
        Some(v) => Some(v.clone()),
        None => match setting {
            Some(v) => Some(v.clone()),
            None => copy_text(manifest),
        },
    }
}

/// For a field that exists only in the settings and on the command line.
fn pick_setting(cli: &Option<String>, setting: &Option<String>) -> (r: Option<String>)
    ensures
        opt(r) == pick(opt(*cli), opt(*setting), None),
{
    match cli {
        Some(v) => Some(v.clone()),
        None => copy_text(setting),
    }
}

fn text_or(o: Option<String>, fallback: &str) -> (r: String)
    ensures
        r@ == or_else(opt(o), fallback@),
{
    match o {
        Some(v) => v,
        None => fallback.to_owned(),
    }
}

pub open spec fn missing_error(what: Seq<char>) -> ErrorView {
    ErrorView::Manifest {
        message: "no "@ + what
            + " could be resolved; set it on the command line or in the `.nativepkg` config"@,
    }
}

/// The error for a required field that no layer supplied.
fn missing(what: &str) -> (e: Error)
    ensures
        e@ == missing_error(what@),
{
    let mut m = "no ".to_owned();
    m.append(what);
    m.append(" could be resolved; set it on the command line or in the `.nativepkg` config");
    Error::manifest(m)
}

// ---- the install command --------------------------------------------------------------

/// The install-at-unpack command when nothing sets one: plain npm, the one manager present
/// wherever `nodejs` is.
pub open spec fn default_install_command() -> Seq<char> {
    "npm install --omit=dev --ignore-scripts --no-audit --no-fund"@
}

/// The command and the binary its guard checks, both fit for one line of a script.
pub open spec fn install_of(o: OverridesView, s: SettingsView) -> core::result::Result<
    (Seq<char>, Seq<char>),
    ErrorView,
> {
    let command = or_else(
        pick(o.install_command, s.install_command, None),
        default_install_command(),
    );
    let binary = or_else(
        pick(o.install_binary, s.install_binary, None),
        or_else(binary_of(command), "npm"@),
    );
    match single_line_check("install_command"@, command) {
        Err(e) => Err(e),
        Ok(_) => match token_check("install_binary"@, binary) {
            Err(e) => Err(e),
            Ok(_) => Ok((command, binary)),
        },
    }
}

fn resolve_install(o: &Overrides, s: &Settings) -> (r: Result<(String, String)>)
    ensures
        match r {
            Ok((command, binary)) => install_of(o@, s@) == Ok::<(Seq<char>, Seq<char>), ErrorView>(
                (command@, binary@),
            ),
            Err(e) => install_of(o@, s@) == Err::<(Seq<char>, Seq<char>), ErrorView>(e@),
        },
{
    let command = text_or(
        pick_setting(&o.install_command, &s.install_command),
        "npm install --omit=dev --ignore-scripts --no-audit --no-fund",
    );
    match single_line("install_command", command.as_str()) {
        Err(e) => {
            return Err(e);
        },
        Ok(()) => {},
    }
    let derived = text_or(command_binary(command.as_str()), "npm");
    let binary = text_or(pick_setting(&o.install_binary, &s.install_binary), derived.as_str());
    match token("install_binary", binary.as_str()) {
        Err(e) => {
            return Err(e);
        },
        Ok(()) => {},
    }
    Ok((command, binary))
}

// ---- identity -------------------------------------------------------------------------

/// Explicit names are validated strictly; only the npm name is normalised, with a warning when
/// that changed it.
pub open spec fn package_name_of(
    o: OverridesView,
    s: SettingsView,
    m: ManifestView,
) -> core::result::Result<(Seq<char>, Seq<WarningView>), ErrorView> {
    match pick(o.package_name, s.package_name, None) {
        Some(name) => match strict_package_name(name) {
            Ok(n) => Ok((n, Seq::empty())),
            Err(e) => Err(e),
        },
        None => match m.name {
            None => Err(missing_error("package name"@)),
            Some(npm) => match normalised_package_name(npm) {
                Err(e) => Err(e),
                Ok(n) => if n == npm {
                    Ok((n, Seq::empty()))
                } else {
                    Ok(
                        (
                            n,
                            seq![
                                WarningView::PackageNameNormalised { original: npm, normalised: n },
                            ],
                        ),
                    )
                },
            },
        },
    }
}

fn resolve_package_name(
    o: &Overrides,
    s: &Settings,
    m: &Manifest,
    warnings: &mut Vec<Warning>,
) -> (r: Result<PackageName>)
    ensures
        match package_name_of(o@, s@, m@) {
            Ok(found) => r is Ok && r->Ok_0@ == found.0 && views(final(warnings)@) == views(
                old(warnings)@,
            ) + found.1,
            Err(e) => r is Err && r->Err_0@ == e,
        },
{
    let ghost before = views(warnings@);
    assert(before + Seq::<WarningView>::empty() =~= before);
    match pick_setting(&o.package_name, &s.package_name) {
        Some(name) => PackageName::parse_strict(name.as_str()),
        None => match &m.name {
            None => Err(missing("package name")),
            Some(npm) => match PackageName::normalize(npm.as_str()) {
                Err(e) => Err(e),
                Ok(name) => {
                    if !same(name.as_str(), npm.as_str()) {
                        let w = Warning::PackageNameNormalised {
                            original: npm.clone(),
                            normalised: name.as_str().to_owned(),
                        };
                        proof {
                            views_push(warnings@, w);
                            assert(before.push(w@) =~= before + seq![w@]);
                        }
                        warnings.push(w);
                    }
                    Ok(name)
                },
            },
        },
    }
}

/// The version every layer agrees on, mapped; with warnings for a literal and for a rewritten
/// hyphen.
pub open spec fn version_of(
    o: OverridesView,
    s: SettingsView,
    m: ManifestView,
) -> core::result::Result<(MappedVersionView, Seq<WarningView>), ErrorView> {
    match pick(o.version, s.version, m.version) {
        None => Err(missing_error("version"@)),
        Some(raw) => match version_spec_of(raw) {
            Err(e) => Err(e),
            Ok(parsed) => match mapped_version_of(parsed, pick(o.epoch, s.epoch, None)) {
                Err(e) => Err(e),
                Ok(mapped) => {
                    let literal = if parsed is Literal {
                        seq![WarningView::VersionNotMapped { version: raw }]
                    } else {
                        Seq::empty()
                    };
                    let rewritten = if mapped.hyphens_rewritten {
                        seq![WarningView::VersionHyphensRewritten { original: raw }]
                    } else {
                        Seq::empty()
                    };
                    Ok((mapped, literal + rewritten))
                },
            },
        },
    }
}

fn resolve_version(
    o: &Overrides,
    s: &Settings,
    m: &Manifest,
    warnings: &mut Vec<Warning>,
) -> (r: Result<MappedVersion>)
    ensures
        match version_of(o@, s@, m@) {
            Ok(found) => r is Ok && r->Ok_0@ == found.0 && views(final(warnings)@) == views(
                old(warnings)@,
            ) + found.1,
            Err(e) => r is Err && r->Err_0@ == e,
        },
{
    let ghost before = views(warnings@);
    let raw = match pick_text(&o.version, &s.version, &m.version) {
        Some(raw) => raw,
        None => {
            return Err(missing("version"));
        },
    };
    let parsed = match VersionSpec::parse(raw.as_str()) {
        Ok(parsed) => parsed,
        Err(e) => {
            return Err(e);
        },
    };
    let ghost literal = if parsed@ is Literal {
        seq![WarningView::VersionNotMapped { version: raw@ }]
    } else {
        Seq::empty()
    };
    if parsed.is_literal() {
        let w = Warning::VersionNotMapped { version: raw.clone() };
        proof {
            views_push(warnings@, w);
        }
        warnings.push(w);
    }
    assert(views(warnings@) =~= before + literal);
    let epoch = match o.epoch {
        Some(e) => Some(e),
        None => s.epoch,
    };
    let mapped = match MappedVersion::new(&parsed, epoch) {
        Ok(mapped) => mapped,
        Err(e) => {
            return Err(e);
        },
    };
    let ghost rewritten = if mapped@.hyphens_rewritten {
        seq![WarningView::VersionHyphensRewritten { original: raw@ }]
    } else {
        Seq::empty()
    };
    if mapped.hyphens_rewritten() {
        let w = Warning::VersionHyphensRewritten { original: raw };
        proof {
            views_push(warnings@, w);
        }
        warnings.push(w);
    }
    assert(views(warnings@) =~= before + (literal + rewritten));
    Ok(mapped)
}

// ---- placement ------------------------------------------------------------------------

/// Strict when explicit, derived from the package name otherwise, with a warning when that
/// changed it.
pub open spec fn account_of(
    kind: Seq<char>,
    explicit: Option<Seq<char>>,
    fallback: Seq<char>,
) -> core::result::Result<(Seq<char>, Seq<WarningView>), ErrorView> {
    match explicit {
        Some(name) => match strict_account_name(kind, name) {
            Ok(n) => Ok((n, Seq::empty())),
            Err(e) => Err(e),
        },
        None => match derived_account_name(kind, fallback) {
            Err(e) => Err(e),
            Ok(n) => if n == fallback {
                Ok((n, Seq::empty()))
            } else {
                Ok(
                    (
                        n,
                        seq![WarningView::UnixNameDerived { kind, source: fallback, derived: n }],
                    ),
                )
            },
        },
    }
}

fn resolve_account(
    kind: &'static str,
    explicit: Option<String>,
    fallback_source: &str,
    warnings: &mut Vec<Warning>,
) -> (r: Result<UnixName>)
    ensures
        match account_of(kind@, opt(explicit), fallback_source@) {
            Ok(found) => r is Ok && r->Ok_0@ == found.0 && views(final(warnings)@) == views(
                old(warnings)@,
            ) + found.1,
            Err(e) => r is Err && r->Err_0@ == e,
        },
{
    let ghost before = views(warnings@);
    assert(before + Seq::<WarningView>::empty() =~= before);
    match explicit {
        Some(name) => UnixName::parse_strict(kind, name.as_str()),
        None => match UnixName::derive_from(kind, fallback_source) {
            Err(e) => Err(e),
            Ok(derived) => {
                if !same(derived.as_str(), fallback_source) {
                    let w = Warning::UnixNameDerived {
                        kind,
                        source: fallback_source.to_owned(),
                        derived: derived.as_str().to_owned(),
                    };
                    proof {
                        views_push(warnings@, w);
                        assert(before.push(w@) =~= before + seq![w@]);
                    }
                    warnings.push(w);
                }
                Ok(derived)
            },
        },
    }
}

/// Where the package lands and who runs it.
struct Placement {
    architecture: String,
    install_dir: InstallDir,
    user: UnixName,
    group: UnixName,
    executable_name: ExecutableName,
}

pub struct PlacementView {
    pub architecture: Seq<char>,
    pub install_dir: Seq<char>,
    pub user: Seq<char>,
    pub group: Seq<char>,
    pub executable_name: Seq<char>,
}

impl View for Placement {
    type V = PlacementView;

    closed spec fn view(&self) -> PlacementView {
        PlacementView {
            architecture: self.architecture@,
            install_dir: self.install_dir@,
            user: self.user@,
            group: self.group@,
            executable_name: self.executable_name@,
        }
    }
}

/// Architecture, install root and the service account. The group follows the user.
pub open spec fn placement_of(
    o: OverridesView,
    s: SettingsView,
    package_name: Seq<char>,
) -> core::result::Result<(PlacementView, Seq<WarningView>), ErrorView> {
    match account_of("user"@, pick(o.user, s.user, None), package_name) {
        Err(e) => Err(e),
        Ok((user, warnings)) => {
            let group = match pick(o.group, s.group, None) {
                Some(explicit) => strict_account_name("group"@, explicit),
                None => Ok(user),
            };
            match group {
                Err(e) => Err(e),
                Ok(group) => match install_dir_of(
                    or_else(pick(o.install_dir, s.install_dir, None), "/usr/lib"@),
                ) {
                    Err(e) => Err(e),
                    Ok(install_dir) => match executable_name_of(
                        or_else(pick(o.executable_name, s.executable_name, None), package_name),
                    ) {
                        Err(e) => Err(e),
                        Ok(executable_name) => Ok(
                            (
                                PlacementView {
                                    architecture: or_else(
                                        pick(o.architecture, s.architecture, None),
                                        "all"@,
                                    ),
                                    install_dir,
                                    user,
                                    group,
                                    executable_name,
                                },
                                warnings,
                            ),
                        ),
                    },
                },
            }
        },
    }
}

fn resolve_placement(
    o: &Overrides,
    s: &Settings,
    package_name: &PackageName,
    warnings: &mut Vec<Warning>,
) -> (r: Result<Placement>)
    ensures
        match placement_of(o@, s@, package_name@) {
            Ok(found) => r is Ok && r->Ok_0@ == found.0 && views(final(warnings)@) == views(
                old(warnings)@,
            ) + found.1,
            Err(e) => r is Err && r->Err_0@ == e,
        },
{
    let architecture = text_or(pick_setting(&o.architecture, &s.architecture), "all");
    let install_dir = text_or(pick_setting(&o.install_dir, &s.install_dir), "/usr/lib");
    let user = match resolve_account(
        "user",
        pick_setting(&o.user, &s.user),
        package_name.as_str(),
        warnings,
    ) {
        Ok(user) => user,
        Err(e) => {
            return Err(e);
        },
    };
    let group = match pick_setting(&o.group, &s.group) {
        Some(explicit) => match UnixName::parse_strict("group", explicit.as_str()) {
            Ok(group) => group,
            Err(e) => {
                return Err(e);
            },
        },
        // The user name is already valid, so no derivation or warning.
        None => user.clone(),
    };
    let executable_name = text_or(
        pick_setting(&o.executable_name, &s.executable_name),
        package_name.as_str(),
    );
    let install_dir = match InstallDir::parse(install_dir.as_str()) {
        Ok(dir) => dir,
        Err(e) => {
            return Err(e);
        },
    };
    let executable_name = match ExecutableName::parse(executable_name.as_str()) {
        Ok(name) => name,
        Err(e) => {
            return Err(e);
        },
    };
    Ok(Placement { architecture, install_dir, user, group, executable_name })
}

// ---- runtime --------------------------------------------------------------------------

/// How the package behaves once installed.
struct Runtime {
    init: InitSystem,
    install_strategy: InstallStrategy,
    daemon_entrypoint: Option<EntryPoint>,
    cli_entrypoint: Option<EntryPoint>,
}

pub struct RuntimeView {
    pub init: InitSystem,
    pub install_strategy: InstallStrategy,
    pub daemon_entrypoint: Option<Seq<char>>,
    pub cli_entrypoint: Option<Seq<char>>,
}

impl View for Runtime {
    type V = RuntimeView;

    closed spec fn view(&self) -> RuntimeView {
        RuntimeView {
            init: self.init,
            install_strategy: self.install_strategy,
            daemon_entrypoint: opt(self.daemon_entrypoint),
            cli_entrypoint: opt(self.cli_entrypoint),
        }
    }
}

pub open spec fn optional_entry(entry: Option<Seq<char>>) -> core::result::Result<
    Option<Seq<char>>,
    ErrorView,
> {
    match entry {
        None => Ok(None),
        Some(e) => match entry_point_of(e) {
            Ok(p) => Ok(Some(p)),
            Err(e) => Err(e),
        },
    }
}

pub open spec fn daemon_required() -> ErrorView {
    ErrorView::Manifest {
        message:
            "a daemon entrypoint is required unless `init` is `none`; pass `--daemon <file>` or set `entrypoints.daemon` in `.nativepkg`"@,
    }
}

/// Init integration, dependency strategy and entry points. A service needs a daemon; the
/// command runs the daemon unless told otherwise.
pub open spec fn runtime_of(o: OverridesView, s: SettingsView) -> core::result::Result<
    RuntimeView,
    ErrorView,
> {
    let init = match pick(o.init, s.init, None) {
        Some(i) => i,
        None => InitSystem::Auto,
    };
    let install_strategy = match pick(o.install_strategy, s.install_strategy, None) {
        Some(i) => i,
        None => InstallStrategy::Auto,
    };
    let daemon = pick(
        o.daemon_entrypoint,
        match s.entrypoints {
            Some(e) => e.daemon,
            None => None,
        },
        None,
    );
    let cli = pick(
        o.cli_entrypoint,
        match s.entrypoints {
            Some(e) => e.cli,
            None => None,
        },
        daemon,
    );
    if init != InitSystem::NoInit && daemon is None {
        Err(daemon_required())
    } else {
        match optional_entry(daemon) {
            Err(e) => Err(e),
            Ok(daemon_entrypoint) => match optional_entry(cli) {
                Err(e) => Err(e),
                Ok(cli_entrypoint) => Ok(
                    RuntimeView { init, install_strategy, daemon_entrypoint, cli_entrypoint },
                ),
            },
        }
    }
}

fn parse_entry(entry: &Option<String>) -> (r: Result<Option<EntryPoint>>)
    ensures
        match optional_entry(opt(*entry)) {
            Ok(p) => r is Ok && opt(r->Ok_0) == p,
            Err(e) => r is Err && r->Err_0@ == e,
        },
{
    match entry {
        None => Ok(None),
        Some(text) => match EntryPoint::parse(text.as_str()) {
            Ok(p) => Ok(Some(p)),
            Err(e) => Err(e),
        },
    }
}

fn resolve_runtime(o: &Overrides, s: &Settings) -> (r: Result<Runtime>)
    ensures
        outcome(r) == runtime_of(o@, s@),
{
    let init = match o.init {
        Some(i) => i,
        None => match s.init {
            Some(i) => i,
            None => InitSystem::Auto,
        },
    };
    let install_strategy = match o.install_strategy {
        Some(i) => i,
        None => match s.install_strategy {
            Some(i) => i,
            None => InstallStrategy::Auto,
        },
    };
    let (set_daemon, set_cli) = match &s.entrypoints {
        Some(e) => (copy_text(&e.daemon), copy_text(&e.cli)),
        None => (None, None),
    };
    let daemon = pick_setting(&o.daemon_entrypoint, &set_daemon);
    let cli = pick_text(&o.cli_entrypoint, &set_cli, &daemon);
    if init != InitSystem::NoInit && daemon.is_none() {
        return Err(
            Error::manifest(
                "a daemon entrypoint is required unless `init` is `none`; pass `--daemon <file>` or set `entrypoints.daemon` in `.nativepkg`".to_owned(),
            ),
        );
    }
    let daemon_entrypoint = match parse_entry(&daemon) {
        Ok(p) => p,
        Err(e) => {
            return Err(e);
        },
    };
    let cli_entrypoint = match parse_entry(&cli) {
        Ok(p) => p,
        Err(e) => {
            return Err(e);
        },
    };
    Ok(Runtime { init, install_strategy, daemon_entrypoint, cli_entrypoint })
}

/// The package depends on exactly what the caller declares; `nodejs` comes first when asked for.
pub open spec fn dependencies_of(user: Option<Seq<char>>, include_nodejs: bool) -> Option<
    Seq<char>,
> {
    if include_nodejs {
        match user {
            Some(user) => Some("nodejs, "@ + user),
            None => Some("nodejs"@),
        }
    } else {
        user
    }
}

fn resolve_dependencies(user_supplied: Option<String>, include_nodejs: bool) -> (r: Option<String>)
    ensures
        opt(r) == dependencies_of(opt(user_supplied), include_nodejs),
{
    if include_nodejs {
        match user_supplied {
            Some(user) => {
                let mut s = "nodejs, ".to_owned();
                s.append(user.as_str());
                Some(s)
            },
            None => Some("nodejs".to_owned()),
        }
    } else {
        user_supplied
    }
}

// ---- everything -----------------------------------------------------------------------

/// A warning for each key that is no setting, in key order.
pub open spec fn unknown_warnings(unknown: Seq<Seq<char>>) -> Seq<WarningView> {
    Seq::new(
        unknown.len(),
        |i: int|
            WarningView::UnknownSettingKey {
                key: unknown[i],
                suggestion: suggested_setting(unknown[i]),
                object: "nativepkg"@,
            },
    )
}

/// The free text every package carries.
#[derive(Debug)]
pub struct Texts {
    pub description: String,
    pub maintainer: String,
    pub homepage: Option<String>,
    pub license: Option<String>,
    pub dependencies: Option<String>,
}

pub struct TextsView {
    pub description: Seq<char>,
    pub maintainer: Seq<char>,
    pub homepage: Option<Seq<char>>,
    pub license: Option<Seq<char>>,
    pub dependencies: Option<Seq<char>>,
}

impl View for Texts {
    type V = TextsView;

    open spec fn view(&self) -> TextsView {
        TextsView {
            description: self.description@,
            maintainer: self.maintainer@,
            homepage: opt(self.homepage),
            license: opt(self.license),
            dependencies: opt(self.dependencies),
        }
    }
}

pub open spec fn optional_single_line(field: Seq<char>, value: Option<Seq<char>>) -> core::result::Result<
    (),
    ErrorView,
> {
    match value {
        Some(v) => single_line_check(field, v),
        None => Ok(()),
    }
}

pub open spec fn optional_token(field: Seq<char>, value: Option<Seq<char>>) -> core::result::Result<
    (),
    ErrorView,
> {
    match value {
        Some(v) => token_check(field, v),
        None => Ok(()),
    }
}

/// The checks on the texts, in order; the first refusal counts.
pub open spec fn texts_fault(t: TextsView) -> Option<ErrorView> {
    if let Err(e) = printable_check("description"@, t.description) {
        Some(e)
    } else if let Err(e) = single_line_check("maintainer"@, t.maintainer) {
        Some(e)
    } else if let Err(e) = optional_token("homepage"@, t.homepage) {
        Some(e)
    } else if let Err(e) = optional_single_line("license"@, t.license) {
        Some(e)
    } else if let Err(e) = optional_single_line("dependencies"@, t.dependencies) {
        Some(e)
    } else {
        None
    }
}

/// The texts, required ones present, all of them fit for metadata.
pub open spec fn texts_of(o: OverridesView, s: SettingsView, m: ManifestView) -> core::result::Result<
    TextsView,
    ErrorView,
> {
    let author = match m.author {
        Some(a) => Some(a.maintainer()),
        None => None,
    };
    match pick(o.description, s.description, m.description) {
        None => Err(missing_error("description"@)),
        Some(description) => match pick(o.maintainer, s.maintainer, author) {
            None => Err(missing_error("maintainer"@)),
            Some(maintainer) => {
                let t = TextsView {
                    description,
                    maintainer,
                    homepage: pick(None, s.homepage, m.homepage),
                    license: pick(None, s.license, m.license),
                    dependencies: dependencies_of(
                        pick(o.dependencies, s.dependencies, None),
                        o.include_nodejs,
                    ),
                };
                match texts_fault(t) {
                    Some(e) => Err(e),
                    None => Ok(t),
                }
            },
        },
    }
}

fn resolve_texts(o: &Overrides, s: &Settings, m: &Manifest) -> (r: Result<Texts>)
    ensures
        outcome(r) == texts_of(o@, s@, m@),
{
    let description = match pick_text(&o.description, &s.description, &m.description) {
        Some(text) => text,
        None => {
            return Err(missing("description"));
        },
    };
    let author = match &m.author {
        Some(a) => Some(a.to_maintainer()),
        None => None,
    };
    let maintainer = match pick_text(&o.maintainer, &s.maintainer, &author) {
        Some(text) => text,
        None => {
            return Err(missing("maintainer"));
        },
    };
    let nothing: Option<String> = None;
    let homepage = pick_text(&nothing, &s.homepage, &m.homepage);
    let license = pick_text(&nothing, &s.license, &m.license);
    let dependencies = resolve_dependencies(
        pick_setting(&o.dependencies, &s.dependencies),
        o.include_nodejs,
    );
    let ghost t = TextsView {
        description: description@,
        maintainer: maintainer@,
        homepage: opt(homepage),
        license: opt(license),
        dependencies: opt(dependencies),
    };
    match printable("description", description.as_str()) {
        Err(e) => {
            return Err(e);
        },
        Ok(()) => {},
    }
    match single_line("maintainer", maintainer.as_str()) {
        Err(e) => {
            return Err(e);
        },
        Ok(()) => {},
    }
    match &homepage {
        Some(text) => match token("homepage", text.as_str()) {
            Err(e) => {
                return Err(e);
            },
            Ok(()) => {},
        },
        None => {},
    }
    match &license {
        Some(text) => match single_line("license", text.as_str()) {
            Err(e) => {
                return Err(e);
            },
            Ok(()) => {},
        },
        None => {},
    }
    match &dependencies {
        Some(text) => match single_line("dependencies", text.as_str()) {
            Err(e) => {
                return Err(e);
            },
            Ok(()) => {},
        },
        None => {},
    }
    assert(texts_fault(t) is None);
    Ok(Texts { description, maintainer, homepage, license, dependencies })
}

/// What resolution comes to: the configuration and its warnings, or the first refusal.
pub open spec fn resolved(m: ManifestView, o: OverridesView) -> core::result::Result<
    (ResolvedConfigView, Seq<WarningView>),
    ErrorView,
> {
    let s = settings_layer(m);
    match install_of(o, s) {
        Err(e) => Err(e),
        Ok((install_command, install_binary)) => match package_name_of(o, s, m) {
            Err(e) => Err(e),
            Ok((package_name, naming)) => match version_of(o, s, m) {
                Err(e) => Err(e),
                Ok((version, versioning)) => match placement_of(o, s, package_name) {
                    Err(e) => Err(e),
                    Ok((placement, placing)) => match runtime_of(o, s) {
                        Err(e) => Err(e),
                        Ok(runtime) => match texts_of(o, s, m) {
                            Err(e) => Err(e),
                            Ok(texts) => Ok(
                                (
                                    ResolvedConfigView {
                                        package_name,
                                        version,
                                        description: texts.description,
                                        maintainer: texts.maintainer,
                                        architecture: placement.architecture,
                                        workspace_roots: match m.workspaces {
                                            Some(w) => prefixes(w.patterns()),
                                            None => Seq::empty(),
                                        },
                                        homepage: texts.homepage,
                                        license: texts.license,
                                        dependencies: texts.dependencies,
                                        install_dir: placement.install_dir,
                                        user: placement.user,
                                        group: placement.group,
                                        executable_name: placement.executable_name,
                                        init: runtime.init,
                                        install_strategy: runtime.install_strategy,
                                        install_command,
                                        install_binary,
                                        extra_files: pick(o.extra_files, s.extra_files, None),
                                        triggers_file: pick(
                                            o.triggers_file,
                                            s.triggers_file,
                                            None,
                                        ),
                                        output_deb_name: pick(
                                            o.output_deb_name,
                                            s.output_deb_name,
                                            None,
                                        ),
                                        daemon_entrypoint: runtime.daemon_entrypoint,
                                        cli_entrypoint: runtime.cli_entrypoint,
                                        templates: match s.templates {
                                            Some(t) => t,
                                            None => TemplatesView::none(),
                                        },
                                    },
                                    unknown_warnings(s.unknown) + naming + versioning + placing,
                                ),
                            ),
                        },
                    },
                },
            },
        },
    }
}

fn report_unknown(s: &Settings) -> (warnings: Vec<Warning>)
    ensures
        views(warnings@) == unknown_warnings(s@.unknown),
{
    let keys = s.unknown_keys();
    let ghost all = s@.unknown;
    let mut warnings: Vec<Warning> = Vec::new();
    let mut i: usize = 0;
    while i < keys.len()
        invariant
            i <= keys@.len(),
            keys@.len() == all.len(),
            forall|j: int|
                0 <= j < keys@.len() ==> (#[trigger] keys@[j]).0@ == all[j] && opt(keys@[j].1)
                    == suggested_setting(all[j]),
            views(warnings@) == unknown_warnings(all).take(i as int),
        decreases keys@.len() - i,
    {
        let entry = &keys[i];
        let w = Warning::UnknownSettingKey {
            key: entry.0.clone(),
            suggestion: entry.1,
            object: "nativepkg",
        };
        proof {
            assert(keys@[i as int].0@ == all[i as int]);
            views_push(warnings@, w);
            assert(unknown_warnings(all).take(i + 1) =~= unknown_warnings(all).take(i as int).push(
                w@,
            ));
        }
        warnings.push(w);
        i = i + 1;
    }
    assert(unknown_warnings(all).take(i as int) =~= unknown_warnings(all));
    warnings
}

/// Resolves a manifest and command-line overrides into a validated configuration plus any
/// non-fatal warnings.
pub fn resolve(manifest: &Manifest, overrides: &Overrides) -> (r: Result<
    (ResolvedConfig, Vec<Warning>),
>)
    ensures
        match r {
            Ok((config, warnings)) => resolved(manifest@, overrides@) == Ok::<
                (ResolvedConfigView, Seq<WarningView>),
                ErrorView,
            >((config@, views(warnings@))),
            Err(e) => resolved(manifest@, overrides@) == Err::<
                (ResolvedConfigView, Seq<WarningView>),
                ErrorView,
            >(e@),
        },
{
    let empty = Settings::default();
    let settings = match &manifest.nativepkg {
        Some(s) => s,
        None => &empty,
    };
    assert(settings@ == settings_layer(manifest@));
    let (install_command, install_binary) = match resolve_install(overrides, settings) {
        Ok(found) => found,
        Err(e) => {
            return Err(e);
        },
    };
    let mut warnings = report_unknown(settings);
    let package_name = match resolve_package_name(overrides, settings, manifest, &mut warnings) {
        Ok(name) => name,
        Err(e) => {
            return Err(e);
        },
    };
    let version = match resolve_version(overrides, settings, manifest, &mut warnings) {
        Ok(version) => version,
        Err(e) => {
            return Err(e);
        },
    };
    let placement = match resolve_placement(overrides, settings, &package_name, &mut warnings) {
        Ok(placement) => placement,
        Err(e) => {
            return Err(e);
        },
    };
    let runtime = match resolve_runtime(overrides, settings) {
        Ok(runtime) => runtime,
        Err(e) => {
            return Err(e);
        },
    };
    let texts = match resolve_texts(overrides, settings, manifest) {
        Ok(texts) => texts,
        Err(e) => {
            return Err(e);
        },
    };
    let workspace_roots = match &manifest.workspaces {
        Some(w) => w.directory_prefixes(),
        None => {
            let none: Vec<String> = Vec::new();
            assert(views(none@) =~= Seq::empty());
            none
        },
    };
    let templates = match &settings.templates {
        Some(t) => t.clone(),
        None => Templates::default(),
    };
    Ok(
        (
            ResolvedConfig {
                package_name,
                version,
                description: texts.description,
                maintainer: texts.maintainer,
                architecture: placement.architecture,
                workspace_roots,
                homepage: texts.homepage,
                license: texts.license,
                dependencies: texts.dependencies,
                install_dir: placement.install_dir,
                user: placement.user,
                group: placement.group,
                executable_name: placement.executable_name,
                init: runtime.init,
                install_strategy: runtime.install_strategy,
                install_command,
                install_binary,
                extra_files: pick_setting(&overrides.extra_files, &settings.extra_files),
                triggers_file: pick_setting(&overrides.triggers_file, &settings.triggers_file),
                output_deb_name: pick_setting(
                    &overrides.output_deb_name,
                    &settings.output_deb_name,
                ),
                daemon_entrypoint: runtime.daemon_entrypoint,
                cli_entrypoint: runtime.cli_entrypoint,
                templates,
            },
            warnings,
        ),
    )
}

// ---- laws -----------------------------------------------------------------------------

/// A value given on the command line always wins over the settings, and over the manifest where
/// that can carry one.
pub proof fn precedence_holds(m: ManifestView, o: OverridesView)
    requires
        resolved(m, o) is Ok,
    ensures
        o.description matches Some(d) ==> resolved(m, o)->Ok_0.0.description == d,
        o.description is None ==> (settings_layer(m).description matches Some(d) ==> resolved(
            m,
            o,
        )->Ok_0.0.description == d),
        o.maintainer matches Some(t) ==> resolved(m, o)->Ok_0.0.maintainer == t,
        o.install_dir matches Some(d) ==> install_dir_of(d) == Ok::<Seq<char>, ErrorView>(
            resolved(m, o)->Ok_0.0.install_dir,
        ),
        o.init matches Some(i) ==> resolved(m, o)->Ok_0.0.init == i,
        o.init is None ==> (settings_layer(m).init matches Some(i) ==> resolved(m, o)->Ok_0.0.init
            == i),
        o.epoch is Some ==> resolved(m, o)->Ok_0.0.version.epoch == o.epoch,
        o.architecture matches Some(a) ==> resolved(m, o)->Ok_0.0.architecture == a,
        o.install_strategy matches Some(x) ==> resolved(m, o)->Ok_0.0.install_strategy == x,
        o.install_command matches Some(x) ==> resolved(m, o)->Ok_0.0.install_command == x,
        o.install_binary matches Some(x) ==> resolved(m, o)->Ok_0.0.install_binary == x,
        o.user matches Some(x) ==> resolved(m, o)->Ok_0.0.user == x,
        o.group matches Some(x) ==> resolved(m, o)->Ok_0.0.group == x,
        o.executable_name matches Some(x) ==> resolved(m, o)->Ok_0.0.executable_name == x,
        o.output_deb_name is Some ==> resolved(m, o)->Ok_0.0.output_deb_name == o.output_deb_name,
        o.extra_files is Some ==> resolved(m, o)->Ok_0.0.extra_files == o.extra_files,
        o.triggers_file is Some ==> resolved(m, o)->Ok_0.0.triggers_file == o.triggers_file,
        o.daemon_entrypoint is Some ==> optional_entry(o.daemon_entrypoint) == Ok::<
            Option<Seq<char>>,
            ErrorView,
        >(resolved(m, o)->Ok_0.0.daemon_entrypoint),
        o.cli_entrypoint is Some ==> optional_entry(o.cli_entrypoint) == Ok::<
            Option<Seq<char>>,
            ErrorView,
        >(resolved(m, o)->Ok_0.0.cli_entrypoint),
        o.package_name matches Some(x) ==> resolved(m, o)->Ok_0.0.package_name == x,
        o.version matches Some(x) ==> version_spec_of(x) is Ok && mapped_version_of(
            version_spec_of(x)->Ok_0,
            pick(o.epoch, settings_layer(m).epoch, None),
        ) == Ok::<MappedVersionView, ErrorView>(resolved(m, o)->Ok_0.0.version),
        o.dependencies is Some ==> resolved(m, o)->Ok_0.0.dependencies == dependencies_of(
            o.dependencies,
            o.include_nodejs,
        ),
{
}

/// Where no flag is given, a setting of the settings file is the value that counts, in every
/// field that has one.
pub proof fn settings_count_where_no_flag_is_given(m: ManifestView, o: OverridesView, s: SettingsView)
    requires
        m.nativepkg == Some(s),
        resolved(m, o) is Ok,
    ensures
        ({
            let c = resolved(m, o)->Ok_0.0;
            &&& o.package_name is None ==> (s.package_name matches Some(x) ==> c.package_name == x)
            &&& o.epoch is None && s.epoch is Some ==> c.version.epoch == s.epoch
            &&& o.description is None ==> (s.description matches Some(x) ==> c.description == x)
            &&& o.maintainer is None ==> (s.maintainer matches Some(x) ==> c.maintainer == x)
            &&& o.architecture is None ==> (s.architecture matches Some(x) ==> c.architecture == x)
            &&& s.homepage is Some ==> c.homepage == s.homepage
            &&& s.license is Some ==> c.license == s.license
            &&& o.install_dir is None ==> (s.install_dir matches Some(x) ==> install_dir_of(x)
                == Ok::<Seq<char>, ErrorView>(c.install_dir))
            &&& o.user is None ==> (s.user matches Some(x) ==> c.user == x)
            &&& o.group is None ==> (s.group matches Some(x) ==> c.group == x)
            &&& o.executable_name is None ==> (s.executable_name matches Some(x)
                ==> c.executable_name == x)
            &&& o.init is None ==> (s.init matches Some(x) ==> c.init == x)
            &&& o.install_strategy is None ==> (s.install_strategy matches Some(x)
                ==> c.install_strategy == x)
            &&& o.install_command is None ==> (s.install_command matches Some(x)
                ==> c.install_command == x)
            &&& o.install_binary is None ==> (s.install_binary matches Some(x) ==> c.install_binary
                == x)
            &&& o.extra_files is None ==> c.extra_files == s.extra_files
            &&& o.triggers_file is None ==> c.triggers_file == s.triggers_file
            &&& o.output_deb_name is None ==> c.output_deb_name == s.output_deb_name
            &&& s.templates matches Some(t) ==> c.templates == t
        }),
        o.version is None ==> (s.version matches Some(x) ==> version_spec_of(x) is Ok
            && resolved(m, o)->Ok_0.0.version.rpm_version == version_spec_of(x)->Ok_0.base()),
        o.dependencies is None ==> (s.dependencies matches Some(x) ==> resolved(
            m,
            o,
        )->Ok_0.0.dependencies == Some(
            if o.include_nodejs {
                "nodejs, "@ + x
            } else {
                x
            },
        )),
        o.daemon_entrypoint is None ==> (s.entrypoints matches Some(e) ==> (e.daemon matches Some(
            x,
        ) ==> entry_point_of(x) is Ok && resolved(m, o)->Ok_0.0.daemon_entrypoint == Some(
            entry_point_of(x)->Ok_0,
        ))),
        o.cli_entrypoint is None ==> (s.entrypoints matches Some(e) ==> (e.cli matches Some(x)
            ==> entry_point_of(x) is Ok && resolved(m, o)->Ok_0.0.cli_entrypoint == Some(
            entry_point_of(x)->Ok_0,
        ))),
{
}

/// What a flag says is what the package holds, spelled out for the fields that are put in normal
/// form or completed on the way.
pub proof fn flags_reach_the_configuration(m: ManifestView, o: OverridesView)
    requires
        resolved(m, o) is Ok,
    ensures
        o.daemon_entrypoint matches Some(x) ==> entry_point_of(x) is Ok && resolved(
            m,
            o,
        )->Ok_0.0.daemon_entrypoint == Some(entry_point_of(x)->Ok_0),
        o.cli_entrypoint matches Some(x) ==> entry_point_of(x) is Ok && resolved(
            m,
            o,
        )->Ok_0.0.cli_entrypoint == Some(entry_point_of(x)->Ok_0),
        o.version matches Some(x) ==> version_spec_of(x) is Ok && resolved(
            m,
            o,
        )->Ok_0.0.version.rpm_version == version_spec_of(x)->Ok_0.base(),
        o.dependencies matches Some(x) ==> resolved(m, o)->Ok_0.0.dependencies == Some(
            if o.include_nodejs {
                "nodejs, "@ + x
            } else {
                x
            },
        ),
{
}

/// Where neither a flag nor a setting is given, the manifest's own field counts where it has one,
/// and the documented default elsewhere.
pub proof fn defaults_count_where_nothing_is_given(m: ManifestView, o: OverridesView)
    requires
        resolved(m, o) is Ok,
    ensures
        ({
            let s = settings_layer(m);
            let c = resolved(m, o)->Ok_0.0;
            &&& m.nativepkg is None ==> s == SettingsView::none()
            &&& o.package_name is None && s.package_name is None ==> m.name is Some
                && normalised_package_name(m.name->0) == Ok::<Seq<char>, ErrorView>(c.package_name)
            &&& o.version is None && s.version is None ==> m.version is Some && version_spec_of(
                m.version->0,
            ) is Ok && c.version.rpm_version == version_spec_of(m.version->0)->Ok_0.base()
            &&& o.epoch is None && s.epoch is None ==> c.version.epoch is None
            &&& o.description is None && s.description is None ==> m.description == Some(
                c.description,
            )
            &&& o.maintainer is None && s.maintainer is None ==> m.author is Some
                && m.author->0.maintainer() == c.maintainer
            &&& s.homepage is None ==> c.homepage == m.homepage
            &&& s.license is None ==> c.license == m.license
            &&& o.architecture is None && s.architecture is None ==> c.architecture == "all"@
            &&& o.install_dir is None && s.install_dir is None ==> install_dir_of("/usr/lib"@)
                == Ok::<Seq<char>, ErrorView>(c.install_dir)
            &&& o.user is None && s.user is None ==> derived_account_name("user"@, c.package_name)
                == Ok::<Seq<char>, ErrorView>(c.user)
            &&& o.group is None && s.group is None ==> c.group == c.user
            &&& o.executable_name is None && s.executable_name is None ==> c.executable_name
                == c.package_name
            &&& o.dependencies is None && s.dependencies is None ==> c.dependencies == (
            if o.include_nodejs {
                Some("nodejs"@)
            } else {
                None
            })
            &&& o.init is None && s.init is None ==> c.init == InitSystem::Auto
            &&& o.install_strategy is None && s.install_strategy is None ==> c.install_strategy
                == InstallStrategy::Auto
            &&& o.install_command is None && s.install_command is None ==> c.install_command
                == "npm install --omit=dev --ignore-scripts --no-audit --no-fund"@
            &&& o.install_binary is None && s.install_binary is None ==> (match binary_of(
                c.install_command,
            ) {
                Some(b) => c.install_binary == b,
                None => c.install_binary == "npm"@,
            })
            &&& o.extra_files is None && s.extra_files is None ==> c.extra_files is None
            &&& o.triggers_file is None && s.triggers_file is None ==> c.triggers_file is None
            &&& o.output_deb_name is None && s.output_deb_name is None ==> c.output_deb_name is None
            &&& s.templates is None ==> c.templates == TemplatesView::none()
            &&& m.workspaces is None ==> c.workspace_roots.len() == 0
            &&& o.daemon_entrypoint is None && (s.entrypoints is None || s.entrypoints->0.daemon
                is None) ==> c.daemon_entrypoint is None && c.init == InitSystem::NoInit
            &&& o.cli_entrypoint is None && (s.entrypoints is None || s.entrypoints->0.cli is None)
                ==> c.cli_entrypoint == c.daemon_entrypoint
        }),
{
}

/// Whatever the fields of the other two layers hold, a flag decides alone: two manifests that
/// both resolve agree on what the flags fix.
pub proof fn flags_decide_alone(a: ManifestView, b: ManifestView, o: OverridesView)
    requires
        resolved(a, o) is Ok,
        resolved(b, o) is Ok,
    ensures
        ({
            let x = resolved(a, o)->Ok_0.0;
            let y = resolved(b, o)->Ok_0.0;
            &&& o.package_name is Some ==> x.package_name == y.package_name
            &&& o.version is Some && o.epoch is Some ==> x.version == y.version
            &&& o.description is Some ==> x.description == y.description
            &&& o.maintainer is Some ==> x.maintainer == y.maintainer
            &&& o.architecture is Some ==> x.architecture == y.architecture
            &&& o.dependencies is Some ==> x.dependencies == y.dependencies
            &&& o.install_dir is Some ==> x.install_dir == y.install_dir
            &&& o.user is Some ==> x.user == y.user
            &&& o.group is Some ==> x.group == y.group
            &&& o.executable_name is Some ==> x.executable_name == y.executable_name
            &&& o.output_deb_name is Some ==> x.output_deb_name == y.output_deb_name
            &&& o.extra_files is Some ==> x.extra_files == y.extra_files
            &&& o.triggers_file is Some ==> x.triggers_file == y.triggers_file
            &&& o.daemon_entrypoint is Some ==> x.daemon_entrypoint == y.daemon_entrypoint
            &&& o.cli_entrypoint is Some ==> x.cli_entrypoint == y.cli_entrypoint
            &&& o.init is Some ==> x.init == y.init
            &&& o.install_strategy is Some ==> x.install_strategy == y.install_strategy
            &&& o.install_command is Some ==> x.install_command == y.install_command
            &&& o.install_binary is Some ==> x.install_binary == y.install_binary
        }),
{
}

/// What stops resolution: a name, a version, a description or a maintainer that no layer gives,
/// and a service without a daemon.
pub proof fn what_no_layer_gives_is_missed(m: ManifestView, o: OverridesView)
    ensures
        ({
            let s = settings_layer(m);
            &&& o.package_name is None && s.package_name is None && m.name is None ==> resolved(
                m,
                o,
            ) is Err
            &&& o.version is None && s.version is None && m.version is None ==> resolved(m, o)
                is Err
            &&& o.description is None && s.description is None && m.description is None
                ==> resolved(m, o) is Err
            &&& o.maintainer is None && s.maintainer is None && m.author is None ==> resolved(m, o)
                is Err
            &&& o.daemon_entrypoint is None && s.entrypoints is None && o.init
                != Some(InitSystem::NoInit) && (o.init is Some || s.init != Some(
                InitSystem::NoInit,
            )) ==> resolved(m, o) is Err
        }),
{
}

/// Resolution warns of exactly what it changed or could not use: each unknown key, a package name
/// it normalised, a version it could not map, a hyphen it rewrote and an account name it derived.
pub proof fn what_was_changed_is_warned_of(m: ManifestView, o: OverridesView)
    requires
        resolved(m, o) is Ok,
    ensures
        ({
            let s = settings_layer(m);
            let (c, told) = resolved(m, o)->Ok_0;
            &&& forall|i: int|
                0 <= i < s.unknown.len() ==> told.contains(
                    WarningView::UnknownSettingKey {
                        key: #[trigger] s.unknown[i],
                        suggestion: suggested_setting(s.unknown[i]),
                        object: "nativepkg"@,
                    },
                )
            &&& o.package_name is None && s.package_name is None && m.name != Some(c.package_name)
                ==> told.contains(
                WarningView::PackageNameNormalised {
                    original: m.name->0,
                    normalised: c.package_name,
                },
            )
            &&& o.user is None && s.user is None && c.user != c.package_name ==> told.contains(
                WarningView::UnixNameDerived {
                    kind: "user"@,
                    source: c.package_name,
                    derived: c.user,
                },
            )
        }),
        ({
            let s = settings_layer(m);
            let (c, told) = resolved(m, o)->Ok_0;
            let raw = pick(o.version, s.version, m.version)->0;
            &&& version_spec_of(raw)->Ok_0 is Literal ==> told.contains(
                WarningView::VersionNotMapped { version: raw },
            )
            &&& c.version.hyphens_rewritten ==> told.contains(
                WarningView::VersionHyphensRewritten { original: raw },
            )
        }),
        ({
            let s = settings_layer(m);
            let (c, told) = resolved(m, o)->Ok_0;
            s.unknown.len() == 0 && (o.package_name is Some || s.package_name is Some || m.name
                == Some(c.package_name)) && !(version_spec_of(
                pick(o.version, s.version, m.version)->0,
            )->Ok_0 is Literal) && !c.version.hyphens_rewritten && (o.user is Some || s.user is Some
                || c.user == c.package_name) ==> told.len() == 0
        }),
{
    let s = settings_layer(m);
    let (c, told) = resolved(m, o)->Ok_0;
    let (package_name, naming) = package_name_of(o, s, m)->Ok_0;
    let (version, versioning) = version_of(o, s, m)->Ok_0;
    let (placement, placing) = placement_of(o, s, package_name)->Ok_0;
    let unknown = unknown_warnings(s.unknown);
    assert(told == unknown + naming + versioning + placing);
    assert forall|i: int| 0 <= i < s.unknown.len() implies told.contains(
        WarningView::UnknownSettingKey {
            key: #[trigger] s.unknown[i],
            suggestion: suggested_setting(s.unknown[i]),
            object: "nativepkg"@,
        },
    ) by {
        assert(told[i] == unknown[i]);
    }
    let u = unknown.len() as int;
    let n = naming.len() as int;
    let v = versioning.len() as int;
    if n > 0 {
        assert(told[u] == naming[0]);
    }
    if v > 0 {
        assert(told[u + n] == versioning[0]);
        assert(told[u + n + v - 1] == versioning[v - 1]);
    }
    if placing.len() > 0 {
        assert(told[u + n + v] == placing[0]);
    }
}

/// Every text of a resolved configuration is fit for package metadata: the description holds no
/// control character but line breaks and tabs, the home page neither a control character nor
/// whitespace, the license and the dependencies no control character at all.
pub proof fn resolved_texts_are_fit_for_metadata(m: ManifestView, o: OverridesView, i: int)
    requires
        resolved(m, o) is Ok,
    ensures
        ({
            let c = resolved(m, o)->Ok_0.0;
            &&& 0 <= i < c.description.len() ==> c.description[i] == '\n' || c.description[i] == '\t'
                || !control(c.description[i])
            &&& 0 <= i < c.maintainer.len() ==> !control(c.maintainer[i])
            &&& c.homepage matches Some(text) ==> (0 <= i < text.len() ==> !control(text[i])
                && !whitespace(text[i]))
            &&& c.license matches Some(text) ==> (0 <= i < text.len() ==> !control(text[i]))
            &&& c.dependencies matches Some(text) ==> (0 <= i < text.len() ==> !control(text[i]))
            &&& 0 <= i < c.install_command.len() ==> !control(c.install_command[i])
            &&& 0 <= i < c.install_binary.len() ==> !control(c.install_binary[i]) && !whitespace(
                c.install_binary[i],
            )
        }),
{
    let c = resolved(m, o)->Ok_0.0;
    texts_hold_what_their_place_allows("description"@, c.description);
    single_line_holds_no_control("maintainer"@, c.maintainer);
    single_line_holds_no_control("install_command"@, c.install_command);
    texts_hold_what_their_place_allows("install_binary"@, c.install_binary);
    if c.homepage is Some {
        texts_hold_what_their_place_allows("homepage"@, c.homepage->0);
    }
    if c.license is Some {
        single_line_holds_no_control("license"@, c.license->0);
    }
    if c.dependencies is Some {
        single_line_holds_no_control("dependencies"@, c.dependencies->0);
    }
}

/// Everything a resolved configuration holds is fit for where it goes: names satisfy their
/// grammars, one-line fields hold no control character, and a service has its daemon.
pub proof fn resolved_configurations_are_valid(m: ManifestView, o: OverridesView)
    requires
        resolved(m, o) is Ok,
    ensures
        ({
            let c = resolved(m, o)->Ok_0.0;
            &&& crate::name::valid_package_name(c.package_name)
            &&& crate::name::valid_account_name(c.user)
            &&& crate::name::valid_account_name(c.group)
            &&& crate::version::valid_upstream(c.version.rpm_version)
            &&& single_line_check("maintainer"@, c.maintainer) is Ok
            &&& single_line_check("install_command"@, c.install_command) is Ok
            &&& token_check("install_binary"@, c.install_binary) is Ok
            &&& c.init != InitSystem::NoInit ==> c.daemon_entrypoint is Some
            &&& c.daemon_entrypoint is Some ==> c.cli_entrypoint is Some
        }),
{
    let s = settings_layer(m);
    let c = resolved(m, o)->Ok_0.0;
    crate::name::package_name_fault_exact(c.package_name);
    crate::name::account_name_fault_exact(c.user);
    crate::name::account_name_fault_exact(c.group);
    crate::version::upstream_fault_exact(c.version.rpm_version);
}

/// Every warning names what it is about.
pub proof fn every_warning_names_what_it_is_about(w: WarningView)
    ensures
        ({
            let said = w.text();
            match w {
                WarningView::PackageNameNormalised { original, normalised } => text_holds(
                    said,
                    original,
                ) && text_holds(said, normalised),
                WarningView::VersionNotMapped { version } => text_holds(said, version),
                WarningView::VersionHyphensRewritten { original } => text_holds(said, original),
                WarningView::UnknownSettingKey { key, suggestion, object } => text_holds(said, key)
                    && text_holds(said, object) && (suggestion matches Some(near) ==> text_holds(
                    said,
                    near,
                )),
                WarningView::DependenciesExcluded { reason } => text_holds(said, reason),
                WarningView::CompiledAddonsInArchitectureIndependentPackage { example } => text_holds(
                    said,
                    example,
                ),
                WarningView::UnixNameDerived { kind, source, derived } => text_holds(said, kind)
                    && text_holds(said, source) && text_holds(said, derived),
                _ => true,
            }
        }),
{
    texts_hold_their_pieces();
}

} // verus!
