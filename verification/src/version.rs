//! Mapping semantic versions onto native package versions that sort correctly.
//!
//! npm separates a pre-release with `-`, but in a Debian version `-` starts the revision, which
//! sorts *above* no revision: `1.2.3-beta.1` verbatim tells `apt` the beta is newer than
//! `1.2.3`, and a machine on the pre-release never upgrades. Both Debian and RPM sort `~` below
//! the empty string, so one mapping serves both:
//!
//! | npm | Debian / RPM `Version` |
//! |---|---|
//! | `1.2.3` | `1.2.3` |
//! | `1.2.3-beta.1` | `1.2.3~beta.1` |
//! | `1.2.3-rc.1+build.5` | `1.2.3~rc.1+build.5` |

use vstd::prelude::*;

use crate::chars::{alphanumeric, digit, is_digit};
use crate::digits::{
    all_digits, decimal, decimal_is_injective, decimal_reads_back, decimal_text,
};
use crate::error::{outcome, Error, ErrorView, Result};
use crate::strings::{chars_of, contains_char, split_at_char, string_of};
use crate::text::{find_in, first_in, first_in_exact, in_class, CharClass};

verus! {

/// A semantic version, taken apart.
#[derive(Debug)]
pub struct Semver {
    pub major: u64,
    pub minor: u64,
    pub patch: u64,
    /// The pre-release identifiers, empty when there are none.
    pub pre: String,
    /// The build metadata, empty when there is none.
    pub build: String,
}

/// A semantic version as plain values.
pub struct SemverView {
    pub major: u64,
    pub minor: u64,
    pub patch: u64,
    pub pre: Seq<char>,
    pub build: Seq<char>,
}

impl View for Semver {
    type V = SemverView;

    open spec fn view(&self) -> SemverView {
        SemverView {
            major: self.major,
            minor: self.minor,
            patch: self.patch,
            pre: self.pre@,
            build: self.build@,
        }
    }
}

/// One identifier: letters, digits and hyphens; with `strict`, a number has no leading zero.
pub open spec fn identifier(s: Seq<char>, strict: bool) -> bool {
    &&& s.len() > 0
    &&& forall|i: int| 0 <= i < s.len() ==> alphanumeric(#[trigger] s[i]) || s[i] == '-'
    &&& strict && s.len() > 1 && all_digits(s) ==> s[0] != '0'
}

/// Identifiers with dots between them.
pub open spec fn identifiers(s: Seq<char>, strict: bool) -> bool {
    forall|i: int|
        0 <= i < split_at_char(s, '.').len() ==> identifier(
            #[trigger] split_at_char(s, '.')[i],
            strict,
        )
}

impl SemverView {
    /// The grammar's conditions on the two optional parts.
    pub open spec fn valid(self) -> bool {
        &&& self.pre.len() == 0 || identifiers(self.pre, true)
        &&& self.build.len() == 0 || identifiers(self.build, false)
    }

    /// `major.minor.patch`.
    pub open spec fn release_text(self) -> Seq<char> {
        decimal(self.major as nat) + "."@ + decimal(self.minor as nat) + "."@ + decimal(
            self.patch as nat,
        )
    }

    /// The version as written.
    pub open spec fn text(self) -> Seq<char> {
        let base = self.release_text();
        let with_pre = if self.pre.len() > 0 {
            base + "-"@ + self.pre
        } else {
            base
        };
        if self.build.len() > 0 {
            with_pre + "+"@ + self.build
        } else {
            with_pre
        }
    }

    /// The version as a native package carries it: `~` for a pre-release, hyphens as dots.
    pub open spec fn mapped(self) -> Seq<char> {
        let base = self.release_text();
        let with_pre = if self.pre.len() > 0 {
            base + "~"@ + dotted(self.pre)
        } else {
            base
        };
        if self.build.len() > 0 {
            with_pre + "+"@ + dotted(self.build)
        } else {
            with_pre
        }
    }
}

/// `s` with every hyphen turned into a dot.
pub open spec fn dotted(s: Seq<char>) -> Seq<char> {
    Seq::new(
        s.len(),
        |i: int|
            if s[i] == '-' {
                '.'
            } else {
                s[i]
            },
    )
}

/// The semantic version a text spells, if it spells one.
pub open spec fn semver_of(s: Seq<char>) -> Option<SemverView> {
    if exists|v: SemverView| v.valid() && #[trigger] v.text() == s {
        Some(choose|v: SemverView| v.valid() && #[trigger] v.text() == s)
    } else {
        None
    }
}

/// `semver::Version::parse`. It accepts a text exactly when it is the text of a valid version
/// with 64-bit numbers, and takes it apart.
#[verifier::external_body]
fn parse_semver(input: &str) -> (r: Option<Semver>)
    ensures
        match r {
            Some(v) => v@.valid() && v@.text() == input@,
            None => forall|v: SemverView| v.valid() ==> #[trigger] v.text() != input@,
        },
{
    match semver::Version::parse(input) {
        Ok(v) => Some(Semver {
            major: v.major,
            minor: v.minor,
            patch: v.patch,
            pre: v.pre.as_str().to_owned(),
            build: v.build.as_str().to_owned(),
        }),
        Err(_) => None,
    }
}

// ---- a text spells at most one version ------------------------------------------------

/// Two texts that agree up to a first `c` agree on what is before and after it.
proof fn cut_is_unique(a: Seq<char>, x: Seq<char>, b: Seq<char>, y: Seq<char>, c: char)
    requires
        !a.contains(c),
        !b.contains(c),
        a + seq![c] + x == b + seq![c] + y,
    ensures
        a == b,
        x == y,
{
    let l = a + seq![c] + x;
    let r = b + seq![c] + y;
    if a.len() < b.len() {
        assert(l[a.len() as int] == c);
        assert(r[a.len() as int] == b[a.len() as int]);
        assert(b.contains(c));
    }
    if b.len() < a.len() {
        assert(r[b.len() as int] == c);
        assert(l[b.len() as int] == a[b.len() as int]);
        assert(a.contains(c));
    }
    assert(a =~= l.take(a.len() as int));
    assert(b =~= r.take(b.len() as int));
    assert(x =~= l.skip(a.len() as int + 1));
    assert(y =~= r.skip(b.len() as int + 1));
}

/// Digits followed by something that does not start with a digit split one way only.
proof fn digits_end_once(a: Seq<char>, x: Seq<char>, b: Seq<char>, y: Seq<char>)
    requires
        all_digits(a),
        all_digits(b),
        x.len() > 0 ==> !digit(x[0]),
        y.len() > 0 ==> !digit(y[0]),
        a + x == b + y,
    ensures
        a == b,
        x == y,
{
    let l = a + x;
    let r = b + y;
    if a.len() < b.len() {
        assert(r[a.len() as int] == b[a.len() as int]);
        assert(digit(b[a.len() as int]));
        assert(l[a.len() as int] == x[0]);
    }
    if b.len() < a.len() {
        assert(l[b.len() as int] == a[b.len() as int]);
        assert(digit(a[b.len() as int]));
        assert(r[b.len() as int] == y[0]);
    }
    assert(a =~= l.take(a.len() as int));
    assert(b =~= r.take(b.len() as int));
    assert(x =~= l.skip(a.len() as int));
    assert(y =~= r.skip(b.len() as int));
}

/// What follows the patch number.
spec fn suffix(v: SemverView) -> Seq<char> {
    let pre = if v.pre.len() > 0 {
        seq!['-'] + v.pre
    } else {
        Seq::empty()
    };
    let build = if v.build.len() > 0 {
        seq!['+'] + v.build
    } else {
        Seq::empty()
    };
    pre + build
}

proof fn text_in_parts(v: SemverView)
    ensures
        v.text() == decimal(v.major as nat) + seq!['.'] + (decimal(v.minor as nat) + seq!['.'] + (
        decimal(v.patch as nat) + suffix(v))),
{
    reveal_strlit(".");
    reveal_strlit("-");
    reveal_strlit("+");
    assert("."@ =~= seq!['.']);
    assert("-"@ =~= seq!['-']);
    assert("+"@ =~= seq!['+']);
    assert(v.text() =~= decimal(v.major as nat) + seq!['.'] + (decimal(v.minor as nat) + seq!['.']
        + (decimal(v.patch as nat) + suffix(v))));
}

proof fn digits_hold_no_dot(s: Seq<char>)
    requires
        all_digits(s),
    ensures
        !s.contains('.'),
{
    if s.contains('.') {
        let i = s.index_of('.');
        assert(digit(s[i]));
    }
}

/// Identifiers hold letters, digits, hyphens and dots.
pub proof fn identifiers_alphabet(s: Seq<char>, strict: bool)
    requires
        identifiers(s, strict),
    ensures
        forall|i: int|
            0 <= i < s.len() ==> alphanumeric(#[trigger] s[i]) || s[i] == '-' || s[i] == '.',
    decreases s.len(),
{
    assert forall|i: int| 0 <= i < s.len() implies alphanumeric(#[trigger] s[i]) || s[i] == '-'
        || s[i] == '.' by {
        prefix_alphabet(s, i + 1, strict);
    }
}

proof fn prefix_alphabet(s: Seq<char>, k: int, strict: bool)
    requires
        identifiers(s, strict),
        0 < k <= s.len(),
    ensures
        alphanumeric(s[k - 1]) || s[k - 1] == '-' || s[k - 1] == '.',
{
    crate::strings::split_joins_back(s, '.');
    pieces_alphabet(split_at_char(s, '.'), k - 1);
}

proof fn pieces_alphabet(parts: Seq<Seq<char>>, k: int)
    requires
        forall|i: int|
            0 <= i < parts.len() ==> forall|j: int|
                0 <= j < (#[trigger] parts[i]).len() ==> alphanumeric(#[trigger] parts[i][j])
                    || parts[i][j] == '-',
        0 <= k < crate::strings::joined(parts, seq!['.']).len(),
    ensures
        ({
            let c = crate::strings::joined(parts, seq!['.'])[k];
            alphanumeric(c) || c == '-' || c == '.'
        }),
    decreases parts.len(),
{
    let whole = crate::strings::joined(parts, seq!['.']);
    if parts.len() == 1 {
        assert(whole == parts[0]);
        assert(whole[k] == parts[0][k]);
    } else if parts.len() > 1 {
        let init = parts.drop_last();
        let head = crate::strings::joined(init, seq!['.']);
        assert(whole == head + seq!['.'] + parts.last());
        if k < head.len() {
            assert forall|i: int| 0 <= i < init.len() implies forall|j: int|
                0 <= j < (#[trigger] init[i]).len() ==> alphanumeric(#[trigger] init[i][j])
                    || init[i][j] == '-' by {
                assert(init[i] == parts[i]);
            }
            pieces_alphabet(init, k);
            assert(whole[k] == head[k]);
        } else if k > head.len() {
            let last = parts[parts.len() - 1];
            let j = k - head.len() - 1;
            assert(whole[k] == last[j]);
            assert(alphanumeric(last[j]) || last[j] == '-');
        }
    }
}

/// A text is the text of at most one valid version.
pub proof fn semver_text_is_injective(a: SemverView, b: SemverView)
    requires
        a.valid(),
        b.valid(),
        a.text() == b.text(),
    ensures
        a == b,
{
    text_in_parts(a);
    text_in_parts(b);
    decimal_reads_back(a.major as nat);
    decimal_reads_back(b.major as nat);
    decimal_reads_back(a.minor as nat);
    decimal_reads_back(b.minor as nat);
    decimal_reads_back(a.patch as nat);
    decimal_reads_back(b.patch as nat);
    let (a3, b3) = (decimal(a.patch as nat) + suffix(a), decimal(b.patch as nat) + suffix(b));
    let (a2, b2) = (
        decimal(a.minor as nat) + seq!['.'] + a3,
        decimal(b.minor as nat) + seq!['.'] + b3,
    );
    digits_hold_no_dot(decimal(a.major as nat));
    digits_hold_no_dot(decimal(b.major as nat));
    digits_hold_no_dot(decimal(a.minor as nat));
    digits_hold_no_dot(decimal(b.minor as nat));
    cut_is_unique(decimal(a.major as nat), a2, decimal(b.major as nat), b2, '.');
    cut_is_unique(decimal(a.minor as nat), a3, decimal(b.minor as nat), b3, '.');
    digits_end_once(decimal(a.patch as nat), suffix(a), decimal(b.patch as nat), suffix(b));
    decimal_is_injective(a.major as nat, b.major as nat);
    decimal_is_injective(a.minor as nat, b.minor as nat);
    decimal_is_injective(a.patch as nat, b.patch as nat);
    suffix_is_injective(a, b);
}

proof fn no_plus(s: Seq<char>)
    requires
        s.len() == 0 || identifiers(s, true),
    ensures
        !s.contains('+'),
{
    if s.len() > 0 {
        identifiers_alphabet(s, true);
        if s.contains('+') {
            let i = s.index_of('+');
            assert(alphanumeric(s[i]) || s[i] == '-' || s[i] == '.');
        }
    }
}

proof fn suffix_is_injective(a: SemverView, b: SemverView)
    requires
        a.valid(),
        b.valid(),
        suffix(a) == suffix(b),
    ensures
        a.pre == b.pre,
        a.build == b.build,
{
    no_plus(a.pre);
    no_plus(b.pre);
    let (sa, sb) = (suffix(a), suffix(b));
    if a.pre.len() > 0 {
        assert(sa[0] == '-');
    } else if a.build.len() > 0 {
        assert(sa[0] == '+');
    }
    if b.pre.len() > 0 {
        assert(sb[0] == '-');
    } else if b.build.len() > 0 {
        assert(sb[0] == '+');
    }
    let pa = if a.pre.len() > 0 { seq!['-'] + a.pre } else { Seq::<char>::empty() };
    let pb = if b.pre.len() > 0 { seq!['-'] + b.pre } else { Seq::<char>::empty() };
    assert(!pa.contains('+')) by {
        if pa.contains('+') {
            let i = pa.index_of('+');
            assert(pa[i] == a.pre[i - 1]);
            assert(a.pre.contains('+'));
        }
    }
    assert(!pb.contains('+')) by {
        if pb.contains('+') {
            let i = pb.index_of('+');
            assert(pb[i] == b.pre[i - 1]);
            assert(b.pre.contains('+'));
        }
    }
    if a.build.len() > 0 && b.build.len() > 0 {
        assert(sa =~= pa + seq!['+'] + a.build);
        assert(sb =~= pb + seq!['+'] + b.build);
        cut_is_unique(pa, a.build, pb, b.build, '+');
    } else if a.build.len() > 0 {
        assert(sb =~= pb);
        assert(sa[pa.len() as int] == '+');
        assert(pb.contains('+'));
    } else if b.build.len() > 0 {
        assert(sa =~= pa);
        assert(sb[pb.len() as int] == '+');
        assert(pa.contains('+'));
    } else {
        assert(sa =~= pa);
        assert(sb =~= pb);
        assert(a.build =~= b.build);
    }
    assert(pa == pb);
    if a.pre.len() > 0 {
        assert(a.pre =~= pa.skip(1));
        assert(b.pre =~= pb.skip(1));
    } else {
        assert(a.pre =~= b.pre);
    }
}

// ---- specifications -------------------------------------------------------------------

/// Debian policy 5.6.12's upstream-version grammar, minus `-` (native packages have no
/// revision, and a stray `-` would create one) and `:` (the epoch is applied separately).
pub open spec fn valid_upstream(s: Seq<char>) -> bool {
    &&& s.len() > 0
    &&& digit(s[0])
    &&& forall|i: int| 1 <= i < s.len() ==> !in_class(#[trigger] s[i], CharClass::NotVersion)
}

/// Why a version is refused, if it is.
pub open spec fn upstream_fault(s: Seq<char>) -> Option<Seq<char>> {
    if s.len() == 0 {
        Some("version is empty"@)
    } else if !digit(s[0]) {
        Some("version must start with a digit"@)
    } else {
        match first_in(s.skip(1), CharClass::NotVersion) {
            Some(c) => Some(
                "version contains `"@ + seq![c]
                    + "`; only alphanumerics, `.`, `+` and `~` are allowed"@,
            ),
            None => None,
        }
    }
}

/// A version is refused exactly when the grammar does not take it.
pub proof fn upstream_fault_exact(s: Seq<char>)
    ensures
        upstream_fault(s) is None <==> valid_upstream(s),
{
    if s.len() > 0 {
        first_in_exact(s.skip(1), CharClass::NotVersion);
        if first_in(s.skip(1), CharClass::NotVersion) is None {
            assert forall|i: int| 1 <= i < s.len() implies !in_class(
                #[trigger] s[i],
                CharClass::NotVersion,
            ) by {
                assert(s.skip(1)[i - 1] == s[i]);
            }
        } else {
            let c = first_in(s.skip(1), CharClass::NotVersion)->0;
            let k = s.skip(1).index_of(c);
            assert(s.skip(1)[k] == c);
            assert(s[k + 1] == c);
        }
    }
}

fn validate_upstream(candidate: &str) -> (r: Option<String>)
    ensures
        crate::error::opt(r) == upstream_fault(candidate@),
{
    let v = chars_of(candidate);
    if v.len() == 0 {
        return Some("version is empty".to_owned());
    }
    if !is_digit(v[0]) {
        return Some("version must start with a digit".to_owned());
    }
    let rest = string_of(&v, 1, v.len());
    assert(rest@ =~= candidate@.skip(1));
    match find_in(rest.as_str(), CharClass::NotVersion) {
        Some(c) => {
            let mut m = "version contains `".to_owned();
            m.push(c);
            assert(m@ =~= "version contains `"@ + seq![c]);
            m.append("`; only alphanumerics, `.`, `+` and `~` are allowed");
            Some(m)
        },
        None => None,
    }
}

/// A version before mapping. An explicit override may be a version the distribution already
/// dictates rather than semver; modelling both keeps that escape hatch without silently
/// mapping or refusing it.
#[derive(Debug)]
pub enum VersionSpec {
    Semver(Semver),
    /// Not semver but already valid for the target formats; passed through untouched.
    Literal(String),
}

pub enum VersionSpecView {
    Semver(SemverView),
    Literal(Seq<char>),
}

impl View for VersionSpec {
    type V = VersionSpecView;

    open spec fn view(&self) -> VersionSpecView {
        match *self {
            VersionSpec::Semver(v) => VersionSpecView::Semver(v@),
            VersionSpec::Literal(s) => VersionSpecView::Literal(s@),
        }
    }
}

impl VersionSpecView {
    /// The version as written.
    pub open spec fn text(self) -> Seq<char> {
        match self {
            VersionSpecView::Semver(v) => v.text(),
            VersionSpecView::Literal(s) => s,
        }
    }

    /// The version without an epoch, as a native package carries it.
    pub open spec fn base(self) -> Seq<char> {
        match self {
            VersionSpecView::Semver(v) => v.mapped(),
            VersionSpecView::Literal(s) => s,
        }
    }

    /// Whether mapping turned a hyphen into a dot.
    pub open spec fn rewrites(self) -> bool {
        match self {
            VersionSpecView::Semver(v) => v.pre.contains('-') || v.build.contains('-'),
            VersionSpecView::Literal(s) => false,
        }
    }
}

/// What parsing comes to: semver when it is semver, else a literal the grammar takes.
pub open spec fn version_spec_of(s: Seq<char>) -> core::result::Result<
    VersionSpecView,
    ErrorView,
> {
    match semver_of(s) {
        Some(v) => Ok(VersionSpecView::Semver(v)),
        None => match upstream_fault(s) {
            Some(reason) => Err(ErrorView::InvalidVersion { version: s, reason }),
            None => Ok(VersionSpecView::Literal(s)),
        },
    }
}

impl VersionSpec {
    /// Parses a version, preferring semver and falling back to a literal.
    pub fn parse(input: &str) -> (r: Result<Self>)
        ensures
            outcome(r) == version_spec_of(input@),
    {
        match parse_semver(input) {
            Some(v) => {
                proof {
                    let chosen = semver_of(input@)->0;
                    assert(v@.valid() && v@.text() == input@);
                    semver_text_is_injective(v@, chosen);
                }
                Ok(VersionSpec::Semver(v))
            },
            None => match validate_upstream(input) {
                Some(reason) => Err(Error::InvalidVersion { version: input.to_owned(), reason }),
                None => Ok(VersionSpec::Literal(input.to_owned())),
            },
        }
    }

    /// Whether this version passes through without mapping, so the caller can warn.
    pub fn is_literal(&self) -> (b: bool)
        ensures
            b == (self@ is Literal),
    {
        match self {
            VersionSpec::Semver(_) => false,
            VersionSpec::Literal(_) => true,
        }
    }

    /// The version as written.
    pub fn text(&self) -> (s: String)
        ensures
            s@ == self@.text(),
    {
        match self {
            VersionSpec::Semver(v) => {
                let mut s = release_text(v);
                if !v.pre.as_str().is_empty() {
                    s.append("-");
                    s.append(v.pre.as_str());
                }
                if !v.build.as_str().is_empty() {
                    s.append("+");
                    s.append(v.build.as_str());
                }
                s
            },
            VersionSpec::Literal(s) => s.clone(),
        }
    }
}

fn release_text(v: &Semver) -> (s: String)
    ensures
        s@ == v@.release_text(),
{
    let mut s = decimal_text(v.major);
    s.append(".");
    s.append(decimal_text(v.minor).as_str());
    s.append(".");
    s.append(decimal_text(v.patch).as_str());
    s
}

fn hyphens_to_dots(s: &str) -> (r: String)
    ensures
        r@ == dotted(s@),
{
    let v = chars_of(s);
    let mut out = String::new();
    let mut i: usize = 0;
    while i < v.len()
        invariant
            v@ == s@,
            i <= v@.len(),
            out@ == dotted(v@.take(i as int)),
        decreases v@.len() - i,
    {
        let c = v[i];
        if c == '-' {
            out.push('.');
        } else {
            out.push(c);
        }
        i = i + 1;
        assert(out@ =~= dotted(v@.take(i as int)));
    }
    assert(v@.take(i as int) =~= s@);
    out
}

/// Renders a semver with `~` for pre-release and `+` for build metadata. Semver permits `-`
/// inside an identifier but neither format can carry it in a revision-less version, so it
/// becomes `.`: lossy, hence the flag.
fn map_semver(v: &Semver) -> (r: (String, bool))
    ensures
        r.0@ == v@.mapped(),
        r.1 == (v.pre@.contains('-') || v.build@.contains('-')),
{
    let mut out = release_text(v);
    if !v.pre.as_str().is_empty() {
        out.append("~");
        out.append(hyphens_to_dots(v.pre.as_str()).as_str());
    }
    if !v.build.as_str().is_empty() {
        out.append("+");
        out.append(hyphens_to_dots(v.build.as_str()).as_str());
    }
    let rewritten = contains_char(v.pre.as_str(), '-') || contains_char(v.build.as_str(), '-');
    (out, rewritten)
}

/// A version rendered for every target format. Debian carries the epoch inside the version
/// (`1:1.2.3`), RPM in a separate tag: [`MappedVersion::deb`] is epoch-prefixed and
/// [`MappedVersion::rpm_version`] is not.
#[derive(Debug)]
pub struct MappedVersion {
    epoch: Option<u32>,
    deb: String,
    rpm_version: String,
    rpm_release: String,
    hyphens_rewritten: bool,
}

/// A mapped version as plain values.
pub struct MappedVersionView {
    pub epoch: Option<u32>,
    pub deb: Seq<char>,
    pub rpm_version: Seq<char>,
    pub rpm_release: Seq<char>,
    pub hyphens_rewritten: bool,
}

impl View for MappedVersion {
    type V = MappedVersionView;

    closed spec fn view(&self) -> MappedVersionView {
        MappedVersionView {
            epoch: self.epoch,
            deb: self.deb@,
            rpm_version: self.rpm_version@,
            rpm_release: self.rpm_release@,
            hyphens_rewritten: self.hyphens_rewritten,
        }
    }
}

/// The Debian spelling: the epoch, when there is one, before a colon.
pub open spec fn with_epoch(base: Seq<char>, epoch: Option<u32>) -> Seq<char> {
    match epoch {
        Some(e) => decimal(e as nat) + ":"@ + base,
        None => base,
    }
}

/// What mapping comes to.
pub open spec fn mapped_version_of(
    spec_: VersionSpecView,
    epoch: Option<u32>,
) -> core::result::Result<MappedVersionView, ErrorView> {
    let base = spec_.base();
    match upstream_fault(base) {
        Some(reason) => Err(
            ErrorView::InvalidVersion {
                version: spec_.text(),
                reason: reason + " (after mapping to `"@ + base + "`)"@,
            },
        ),
        None => Ok(
            MappedVersionView {
                epoch,
                deb: with_epoch(base, epoch),
                rpm_version: base,
                rpm_release: "1"@,
                hyphens_rewritten: spec_.rewrites(),
            },
        ),
    }
}

impl MappedVersion {
    /// Default RPM release for a package built from source we control.
    const DEFAULT_RPM_RELEASE: &'static str = "1";

    /// Maps a [`VersionSpec`] onto every target format.
    pub fn new(spec_: &VersionSpec, epoch: Option<u32>) -> (r: Result<Self>)
        ensures
            outcome(r) == mapped_version_of(spec_@, epoch),
    {
        let (base, hyphens_rewritten) = match spec_ {
            VersionSpec::Semver(v) => map_semver(v),
            VersionSpec::Literal(s) => (s.clone(), false),
        };
        match validate_upstream(base.as_str()) {
            Some(reason) => {
                let mut m = reason;
                m.append(" (after mapping to `");
                m.append(base.as_str());
                m.append("`)");
                return Err(Error::InvalidVersion { version: spec_.text(), reason: m });
            },
            None => {},
        }
        let deb = match epoch {
            Some(e) => {
                let mut s = decimal_text(e as u64);
                s.append(":");
                s.append(base.as_str());
                s
            },
            None => base.clone(),
        };
        Ok(
            MappedVersion {
                epoch,
                deb,
                rpm_version: base,
                rpm_release: Self::DEFAULT_RPM_RELEASE.to_owned(),
                hyphens_rewritten,
            },
        )
    }

    pub fn deb(&self) -> (s: &str)
        ensures
            s@ == self@.deb,
    {
        self.deb.as_str()
    }

    pub fn rpm_version(&self) -> (s: &str)
        ensures
            s@ == self@.rpm_version,
    {
        self.rpm_version.as_str()
    }

    pub fn rpm_release(&self) -> (s: &str)
        ensures
            s@ == self@.rpm_release,
    {
        self.rpm_release.as_str()
    }

    pub fn epoch(&self) -> (e: Option<u32>)
        ensures
            e == self@.epoch,
    {
        self.epoch
    }

    /// Whether a `-` inside a semver identifier was rewritten to `.`; callers warn, since
    /// `alpha-1` and `alpha.1` collide.
    pub fn hyphens_rewritten(&self) -> (b: bool)
        ensures
            b == self@.hyphens_rewritten,
    {
        self.hyphens_rewritten
    }
}

impl Clone for MappedVersion {
    fn clone(&self) -> (r: Self)
        ensures
            r@ == self@,
    {
        MappedVersion {
            epoch: self.epoch,
            deb: self.deb.clone(),
            rpm_version: self.rpm_version.clone(),
            rpm_release: self.rpm_release.clone(),
            hyphens_rewritten: self.hyphens_rewritten,
        }
    }
}

// ---- laws -----------------------------------------------------------------------------

proof fn dotted_alphabet(s: Seq<char>, strict: bool)
    requires
        s.len() == 0 || identifiers(s, strict),
    ensures
        forall|i: int|
            0 <= i < dotted(s).len() ==> !in_class(#[trigger] dotted(s)[i], CharClass::NotVersion),
{
    if s.len() > 0 {
        identifiers_alphabet(s, strict);
        assert forall|i: int| 0 <= i < dotted(s).len() implies !in_class(
            #[trigger] dotted(s)[i],
            CharClass::NotVersion,
        ) by {
            assert(alphanumeric(s[i]) || s[i] == '-' || s[i] == '.');
        }
    }
}

/// What a native version may hold anywhere.
spec fn version_alphabet(s: Seq<char>) -> bool {
    forall|i: int| 0 <= i < s.len() ==> !in_class(#[trigger] s[i], CharClass::NotVersion)
}

proof fn alphabet_append(a: Seq<char>, b: Seq<char>)
    requires
        version_alphabet(a),
        version_alphabet(b),
    ensures
        version_alphabet(a + b),
{
    assert forall|i: int| 0 <= i < (a + b).len() implies !in_class(
        #[trigger] (a + b)[i],
        CharClass::NotVersion,
    ) by {
        if i < a.len() {
            assert((a + b)[i] == a[i]);
        } else {
            assert((a + b)[i] == b[i - a.len()]);
        }
    }
}

proof fn release_alphabet(v: SemverView)
    ensures
        version_alphabet(v.release_text()),
        v.release_text().len() > 0,
        digit(v.release_text()[0]),
{
    reveal_strlit(".");
    decimal_reads_back(v.major as nat);
    decimal_reads_back(v.minor as nat);
    decimal_reads_back(v.patch as nat);
    let (a, b, c) = (decimal(v.major as nat), decimal(v.minor as nat), decimal(v.patch as nat));
    assert(version_alphabet(a));
    assert(version_alphabet(b));
    assert(version_alphabet(c));
    assert(version_alphabet("."@));
    alphabet_append(a, "."@);
    alphabet_append(a + "."@, b);
    alphabet_append(a + "."@ + b, "."@);
    alphabet_append(a + "."@ + b + "."@, c);
    assert(digit(a[0]));
    assert(v.release_text()[0] == a[0]);
}

/// Mapping is total on semantic versions: what it produces always satisfies the native
/// grammar, so it never holds a hyphen or a colon, and [`MappedVersion::new`] never refuses it.
pub proof fn mapping_is_total(v: SemverView, epoch: Option<u32>)
    requires
        v.valid(),
    ensures
        valid_upstream(v.mapped()),
        mapped_version_of(VersionSpecView::Semver(v), epoch) is Ok,
{
    reveal_strlit("~");
    reveal_strlit("+");
    release_alphabet(v);
    dotted_alphabet(v.pre, true);
    dotted_alphabet(v.build, false);
    let base = v.release_text();
    assert(version_alphabet("~"@));
    assert(version_alphabet("+"@));
    let with_pre = if v.pre.len() > 0 {
        base + "~"@ + dotted(v.pre)
    } else {
        base
    };
    if v.pre.len() > 0 {
        alphabet_append(base, "~"@);
        alphabet_append(base + "~"@, dotted(v.pre));
        assert(with_pre[0] == base[0]);
    }
    if v.build.len() > 0 {
        alphabet_append(with_pre, "+"@);
        alphabet_append(with_pre + "+"@, dotted(v.build));
        assert(v.mapped()[0] == with_pre[0]);
    }
    assert(version_alphabet(v.mapped()));
    upstream_fault_exact(v.mapped());
}

/// A native version never carries a hyphen, which would start a revision.
pub proof fn native_versions_hold_no_hyphen(s: Seq<char>)
    requires
        valid_upstream(s),
    ensures
        !s.contains('-'),
        !s.contains(':'),
{
    if s.contains('-') {
        let i = s.index_of('-');
        assert(s[i] == '-');
        assert(i == 0 || in_class(s[i], CharClass::NotVersion));
    }
    if s.contains(':') {
        let i = s.index_of(':');
        assert(s[i] == ':');
        assert(i == 0 || in_class(s[i], CharClass::NotVersion));
    }
}

/// A version the grammar takes is mapped to itself unless it is semver; and the epoch shows in
/// the Debian spelling only.
pub proof fn epoch_shows_in_debian_only(spec_: VersionSpecView, epoch: u32)
    requires
        mapped_version_of(spec_, Some(epoch)) is Ok,
    ensures
        mapped_version_of(spec_, Some(epoch))->Ok_0.deb == decimal(epoch as nat) + ":"@
            + mapped_version_of(spec_, None)->Ok_0.deb,
        mapped_version_of(spec_, Some(epoch))->Ok_0.rpm_version == mapped_version_of(
            spec_,
            None,
        )->Ok_0.rpm_version,
{
}

/// A pre-release is spelled as its release, a `~`, and the rest; the release itself holds no
/// `~`. Both Debian and RPM sort `~` below everything, the end of a version too, so a
/// pre-release sorts below its release.
pub proof fn a_pre_release_is_its_release_and_a_tilde(v: SemverView, release: SemverView)
    requires
        v.pre.len() > 0,
        release == (SemverView { pre: Seq::empty(), build: Seq::empty(), ..v }),
    ensures
        release.mapped().is_prefix_of(v.mapped()),
        v.mapped().len() > release.mapped().len(),
        v.mapped()[release.mapped().len() as int] == '~',
        !release.mapped().contains('~'),
{
    reveal_strlit("~");
    reveal_strlit("+");
    reveal_strlit(".");
    let base = v.release_text();
    assert(release.mapped() == base);
    assert(base.is_prefix_of(v.mapped()));
    assert(v.mapped()[base.len() as int] == '~');
    decimal_reads_back(v.major as nat);
    decimal_reads_back(v.minor as nat);
    decimal_reads_back(v.patch as nat);
    assert forall|i: int| 0 <= i < base.len() implies base[i] != '~' by {
        let major = decimal(v.major as nat);
        let minor = decimal(v.minor as nat);
        let patch = decimal(v.patch as nat);
        let (a, b) = (major.len(), major.len() + 1 + minor.len());
        if i < a {
            assert(base[i] == major[i]);
        } else if i == a {
            assert(base[i] == '.');
        } else if i < b {
            assert(base[i] == minor[i - a - 1]);
        } else if i == b {
            assert(base[i] == '.');
        } else {
            assert(base[i] == patch[i - b - 1]);
        }
    }
}

/// A version written in full is read as what it says.
pub proof fn versions_read_back(v: SemverView)
    requires
        v.valid(),
    ensures
        version_spec_of(v.text()) == Ok::<VersionSpecView, ErrorView>(VersionSpecView::Semver(v)),
{
    let chosen = semver_of(v.text())->0;
    assert(chosen.valid() && chosen.text() == v.text());
    semver_text_is_injective(chosen, v);
}

/// Mapping a version touches hyphens alone: the one that leads into the pre-release becomes a
/// tilde, every other a dot, and all else stays where it is.
pub proof fn mapping_touches_hyphens_alone(v: SemverView)
    ensures
        v.mapped().len() == v.text().len(),
        forall|i: int|
            0 <= i < v.text().len() ==> #[trigger] v.mapped()[i] == (if v.text()[i] != '-' {
                v.text()[i]
            } else if i == v.release_text().len() {
                '~'
            } else {
                '.'
            }),
{
    reveal_strlit("-");
    reveal_strlit("~");
    reveal_strlit("+");
    reveal_strlit(".");
    let base = v.release_text();
    decimal_reads_back(v.major as nat);
    decimal_reads_back(v.minor as nat);
    decimal_reads_back(v.patch as nat);
    assert forall|i: int| 0 <= i < base.len() implies #[trigger] base[i] != '-' by {
        assert(digit(base[i]) || base[i] == '.');
    }
}

/// A text that is no version in full, but that packages accept as one, is kept as it is. Every
/// package is the first of its version, and Debian's spelling is that version, with the epoch in
/// front where there is one.
pub proof fn literal_versions_stay(s: Seq<char>, epoch: Option<u32>)
    requires
        semver_of(s) is None,
    ensures
        version_spec_of(s) is Ok <==> {
            &&& s.len() > 0
            &&& '0' <= s[0] <= '9'
            &&& forall|i: int|
                1 <= i < s.len() ==> 'a' <= #[trigger] s[i] <= 'z' || 'A' <= s[i] <= 'Z' || '0'
                    <= s[i] <= '9' || s[i] == '.' || s[i] == '+' || s[i] == '~'
        },
        version_spec_of(s) matches Ok(parsed) ==> parsed == VersionSpecView::Literal(s)
            && mapped_version_of(parsed, epoch) is Ok && mapped_version_of(
            parsed,
            epoch,
        )->Ok_0.rpm_version == s && !mapped_version_of(parsed, epoch)->Ok_0.hyphens_rewritten,
{
    upstream_fault_exact(s);
    if valid_upstream(s) {
        assert forall|i: int| 1 <= i < s.len() implies 'a' <= #[trigger] s[i] <= 'z' || 'A' <= s[i]
            <= 'Z' || '0' <= s[i] <= '9' || s[i] == '.' || s[i] == '+' || s[i] == '~' by {
            assert(!in_class(s[i], CharClass::NotVersion));
        }
    }
}

/// The spellings of one mapped version agree: Debian's is RPM's where there is no epoch, the
/// release is always the first, the epoch is the one that was given, and a rewritten hyphen is
/// reported exactly where one was turned into a dot.
pub proof fn spellings_of_a_version_agree(spec_: VersionSpecView, epoch: Option<u32>)
    requires
        mapped_version_of(spec_, epoch) is Ok,
    ensures
        ({
            let m = mapped_version_of(spec_, epoch)->Ok_0;
            &&& m.rpm_version == spec_.base()
            &&& m.rpm_release == "1"@
            &&& m.epoch == epoch
            &&& epoch is None ==> m.deb == m.rpm_version
            &&& m.hyphens_rewritten <==> (spec_ matches VersionSpecView::Semver(v) && (
            v.pre.contains('-') || v.build.contains('-')))
        }),
{
}

/// Numbers in a pre-release are written without leading zeros; in build metadata they may have
/// them. Anything but letters, digits and hyphens stands in neither, and nothing empty does.
pub proof fn identifiers_are_plain(s: Seq<char>, strict: bool)
    ensures
        s.len() == 0 ==> !identifier(s, strict),
        s.len() > 1 && s[0] == '0' && all_digits(s) ==> !identifier(s, true) && identifier(
            s,
            false,
        ),
        s.len() > 0 && all_digits(s) && s[0] != '0' ==> identifier(s, true) && identifier(s, false),
        (exists|i: int|
            0 <= i < s.len() && !('a' <= #[trigger] s[i] <= 'z' || 'A' <= s[i] <= 'Z' || '0' <= s[i]
                <= '9' || s[i] == '-')) ==> !identifier(s, strict),
{
    if all_digits(s) {
        assert forall|i: int| 0 <= i < s.len() implies alphanumeric(#[trigger] s[i]) || s[i]
            == '-' by {
            assert(digit(s[i]));
        }
    }
}

} // verus!
