//! Names that are valid by construction: the only way to obtain one is through a validating
//! constructor, so no downstream code builds a path or a script from a name the packaging
//! tools will reject.

use vstd::prelude::*;

use crate::chars::{alphanumeric, digit, is_alphanumeric, is_digit, is_lower, lower, lowered, to_lower};
use crate::digits::{decimal, decimal_wide};
use crate::error::{outcome, Error, ErrorView, Result};
use crate::strings::{
    ascii_byte_len, byte_len, bytes_in, chars_of, contains_char, join, join_splits_back, joined,
    same, split, split_at_char, split_concat, split_joins_back, string_of, strip, strip_end,
    stripped, stripped_end, stripped_end_is_prefix, stripped_is_inner, stripped_start,
    stripped_unchanged, views, views_push,
};
use crate::text::{find_in, first_in, first_in_exact, in_class, CharClass};

verus! {

// ---- package names --------------------------------------------------------------------

/// The grammar `^[a-z0-9][a-z0-9+.-]+$`.
pub open spec fn valid_package_name(s: Seq<char>) -> bool {
    &&& s.len() >= 2
    &&& lower(s[0]) || digit(s[0])
    &&& forall|i: int| 1 <= i < s.len() ==> !in_class(#[trigger] s[i], CharClass::NotPackage)
}

/// Why a package name is refused, if it is.
pub open spec fn package_name_fault(s: Seq<char>) -> Option<Seq<char>> {
    if s.len() == 0 {
        Some("name is empty"@)
    } else if byte_len(s) < 2 {
        Some("name must be at least two characters"@)
    } else if !(lower(s[0]) || digit(s[0])) {
        Some("name must start with an ASCII lowercase letter or a digit"@)
    } else {
        match first_in(s.skip(1), CharClass::NotPackage) {
            Some(c) => Some(
                "name contains `"@ + seq![c]
                    + "`; only lowercase letters, digits, `+`, `-` and `.` are allowed"@,
            ),
            None => None,
        }
    }
}

/// A name is refused exactly when the grammar does not take it.
pub proof fn package_name_fault_exact(s: Seq<char>)
    ensures
        package_name_fault(s) is None <==> valid_package_name(s),
{
    first_in_exact(s.skip(1), CharClass::NotPackage);
    if s.len() == 1 {
        assert(s.drop_last() =~= Seq::empty());
        assert(byte_len(s.drop_last()) == 0);
    }
    if valid_package_name(s) {
        assert forall|i: int| 0 <= i < s.len() implies (#[trigger] s[i] as int) < 0x80 by {
            if i > 0 {
                assert(!in_class(s[i], CharClass::NotPackage));
            }
        }
        ascii_byte_len(s);
        assert forall|i: int| 0 <= i < s.skip(1).len() implies !in_class(
            #[trigger] s.skip(1)[i],
            CharClass::NotPackage,
        ) by {
            assert(s.skip(1)[i] == s[i + 1]);
        }
    } else if package_name_fault(s) is None {
        assert forall|i: int| 1 <= i < s.len() implies !in_class(
            #[trigger] s[i],
            CharClass::NotPackage,
        ) by {
            assert(s.skip(1)[i - 1] == s[i]);
        }
        if s.len() == 1 {
            assert(false);
        }
    }
}

/// The characters a scoped or free-form name turns into separators.
pub open spec fn separator(c: char) -> bool {
    c == '/' || c == '_' || c == '-' || c == ' '
}

/// Separators become single hyphens, letters are lowered, `+` and `.` stay, the rest goes.
pub open spec fn flattened(s: Seq<char>) -> Seq<char>
    decreases s.len(),
{
    if s.len() == 0 {
        Seq::empty()
    } else {
        let out = flattened(s.drop_last());
        let c = s.last();
        if separator(c) {
            if out.len() > 0 && out.last() == '-' {
                out
            } else {
                out.push('-')
            }
        } else if alphanumeric(c) {
            out.push(lowered(c))
        } else if c == '+' || c == '.' {
            out.push(c)
        } else {
            out
        }
    }
}

/// What an npm name becomes: no leading `@`, flattened, no hyphen at either end.
pub open spec fn normalised(s: Seq<char>) -> Seq<char> {
    let bare = if s.len() > 0 && s[0] == '@' {
        s.skip(1)
    } else {
        s
    };
    stripped(flattened(bare), '-')
}

/// What strict parsing comes to.
pub open spec fn strict_package_name(s: Seq<char>) -> core::result::Result<Seq<char>, ErrorView> {
    match package_name_fault(s) {
        Some(reason) => Err(ErrorView::InvalidPackageName { name: s, reason }),
        None => Ok(s),
    }
}

/// What normalising comes to.
pub open spec fn normalised_package_name(s: Seq<char>) -> core::result::Result<
    Seq<char>,
    ErrorView,
> {
    if package_name_fault(normalised(s)) is Some {
        Err(
            ErrorView::InvalidPackageName {
                name: s,
                reason: "normalised to `"@ + normalised(s)
                    + "`, which is not a valid package name; pass an explicit name to override"@,
            },
        )
    } else {
        Ok(normalised(s))
    }
}

/// A package name satisfying `^[a-z0-9][a-z0-9+.-]+$`. [`PackageName::normalize`] is
/// forgiving, for names from `package.json`; [`PackageName::parse_strict`] is exact, for
/// names the user typed.
#[derive(Debug, PartialEq, Eq)]
pub struct PackageName {
    text: String,
}

impl View for PackageName {
    type V = Seq<char>;

    closed spec fn view(&self) -> Seq<char> {
        self.text@
    }
}

impl PackageName {
    #[verifier::type_invariant]
    spec fn valid(self) -> bool {
        valid_package_name(self.text@)
    }

    /// Validates without transforming: if the user typed it, they meant it.
    pub fn parse_strict(input: &str) -> (r: Result<Self>)
        ensures
            outcome(r) == strict_package_name(input@),
    {
        match Self::fault(input) {
            Some(reason) => Err(Error::InvalidPackageName { name: input.to_owned(), reason }),
            None => {
                proof {
                    package_name_fault_exact(input@);
                }
                Ok(PackageName { text: input.to_owned() })
            },
        }
    }

    /// Drops a leading `@`, maps `/` and `_` to `-`, lowercases, collapses `-` runs and trims.
    /// Callers compare the result with the input and warn, because flattening a scope is
    /// lossy: `@a/b-c` and `@a-b/c` both become `a-b-c`.
    pub fn normalize(input: &str) -> (r: Result<Self>)
        ensures
            outcome(r) == normalised_package_name(input@),
    {
        let v = chars_of(input);
        let mut start: usize = 0;
        if v.len() > 0 && v[0] == '@' {
            start = 1;
        }
        let ghost bare = if start == 1 { input@.skip(1) } else { input@ };
        assert(bare =~= v@.skip(start as int));
        let mut out = String::new();
        let mut hyphen = false;
        let mut i: usize = start;
        assert(bare.take(0) =~= Seq::empty());
        while i < v.len()
            invariant
                start <= i <= v@.len(),
                bare == v@.skip(start as int),
                out@ == flattened(bare.take(i - start)),
                hyphen == (out@.len() > 0 && out@.last() == '-'),
            decreases v@.len() - i,
        {
            let c = v[i];
            proof {
                assert(bare.take(i + 1 - start).drop_last() =~= bare.take(i - start));
                assert(bare.take(i + 1 - start).last() == c);
            }
            if c == '/' || c == '_' || c == '-' || c == ' ' {
                if !hyphen {
                    out.push('-');
                    hyphen = true;
                }
            } else if is_alphanumeric(c) {
                out.push(to_lower(c));
                hyphen = false;
            } else if c == '+' || c == '.' {
                out.push(c);
                hyphen = false;
            }
            i = i + 1;
        }
        assert(bare.take(i - start) =~= bare);
        let trimmed = strip(out.as_str(), '-');
        match Self::fault(trimmed.as_str()) {
            Some(_) => {
                let mut reason = "normalised to `".to_owned();
                reason.append(trimmed.as_str());
                reason.append(
                    "`, which is not a valid package name; pass an explicit name to override",
                );
                Err(Error::InvalidPackageName { name: input.to_owned(), reason })
            },
            None => {
                proof {
                    package_name_fault_exact(trimmed@);
                }
                Ok(PackageName { text: trimmed })
            },
        }
    }

    pub fn as_str(&self) -> (s: &str)
        ensures
            s@ == self@,
            valid_package_name(s@),
    {
        proof {
            use_type_invariant(self);
        }
        self.text.as_str()
    }

    pub fn into_string(self) -> (s: String)
        ensures
            s@ == self@,
            valid_package_name(s@),
    {
        proof {
            use_type_invariant(&self);
        }
        self.text
    }

    fn fault(candidate: &str) -> (r: Option<String>)
        ensures
            crate::error::opt(r) == package_name_fault(candidate@),
    {
        let v = chars_of(candidate);
        if v.len() == 0 {
            return Some("name is empty".to_owned());
        }
        if bytes_in(candidate) < 2 {
            return Some("name must be at least two characters".to_owned());
        }
        if !(is_lower(v[0]) || is_digit(v[0])) {
            return Some("name must start with an ASCII lowercase letter or a digit".to_owned());
        }
        let rest = string_of(&v, 1, v.len());
        assert(rest@ =~= candidate@.skip(1));
        match find_in(rest.as_str(), CharClass::NotPackage) {
            Some(c) => {
                let mut m = "name contains `".to_owned();
                m.push(c);
                assert(m@ =~= "name contains `"@ + seq![c]);
                m.append("`; only lowercase letters, digits, `+`, `-` and `.` are allowed");
                Some(m)
            },
            None => None,
        }
    }
}

impl Clone for PackageName {
    fn clone(&self) -> (r: Self)
        ensures
            r@ == self@,
    {
        proof {
            use_type_invariant(self);
        }
        PackageName { text: self.text.clone() }
    }
}

// ---- account names --------------------------------------------------------------------

/// The grammar `^[a-z_][a-z0-9_-]*$`, at most [`UnixName::MAX_LEN`] characters.
pub open spec fn valid_account_name(s: Seq<char>) -> bool {
    &&& 1 <= s.len() <= UnixName::MAX_LEN
    &&& lower(s[0]) || s[0] == '_'
    &&& forall|i: int| 1 <= i < s.len() ==> !in_class(#[trigger] s[i], CharClass::NotAccount)
}

/// Why an account name is refused, if it is.
pub open spec fn account_name_fault(s: Seq<char>) -> Option<Seq<char>> {
    if s.len() == 0 {
        Some("name is empty"@)
    } else if byte_len(s) > UnixName::MAX_LEN {
        Some(
            "name is "@ + decimal(byte_len(s)) + " characters; the maximum is "@ + decimal(
                UnixName::MAX_LEN as nat,
            ),
        )
    } else if !(lower(s[0]) || s[0] == '_') {
        Some("name must start with a lowercase letter or an underscore"@)
    } else {
        match first_in(s.skip(1), CharClass::NotAccount) {
            Some(c) => Some(
                "name contains `"@ + seq![c]
                    + "`; only lowercase letters, digits, `_` and `-` are allowed"@,
            ),
            None => None,
        }
    }
}

proof fn rest_clean(s: Seq<char>, class: CharClass)
    requires
        s.len() > 0,
    ensures
        first_in(s.skip(1), class) is None <==> forall|i: int|
            1 <= i < s.len() ==> !in_class(#[trigger] s[i], class),
{
    first_in_exact(s.skip(1), class);
    if first_in(s.skip(1), class) is None {
        assert forall|i: int| 1 <= i < s.len() implies !in_class(#[trigger] s[i], class) by {
            assert(s.skip(1)[i - 1] == s[i]);
        }
    } else {
        let c = first_in(s.skip(1), class)->0;
        let k = s.skip(1).index_of(c);
        assert(s.skip(1)[k] == c);
        assert(s[k + 1] == c);
    }
}

/// An account name is refused exactly when the grammar does not take it.
pub proof fn account_name_fault_exact(s: Seq<char>)
    ensures
        account_name_fault(s) is None <==> valid_account_name(s),
{
    if s.len() > 0 {
        rest_clean(s, CharClass::NotAccount);
        if (lower(s[0]) || s[0] == '_') && first_in(s.skip(1), CharClass::NotAccount) is None {
            assert forall|i: int| 0 <= i < s.len() implies (#[trigger] s[i] as int) < 0x80 by {
                if i > 0 {
                    assert(!in_class(s[i], CharClass::NotAccount));
                }
            }
            ascii_byte_len(s);
        }
    }
}

/// Letters are lowered, digits and underscores stay, every other run becomes one hyphen.
pub open spec fn account_characters(s: Seq<char>) -> Seq<char>
    decreases s.len(),
{
    if s.len() == 0 {
        Seq::empty()
    } else {
        let out = account_characters(s.drop_last());
        let c = s.last();
        if alphanumeric(c) {
            out.push(lowered(c))
        } else if c == '_' {
            out.push('_')
        } else if out.len() > 0 && out.last() == '-' {
            out
        } else {
            out.push('-')
        }
    }
}

/// What a package name becomes as an account name: trimmed, an underscore before a leading
/// digit, at most [`UnixName::MAX_LEN`] characters, no trailing hyphen.
pub open spec fn derived_account(source: Seq<char>) -> Seq<char> {
    let core = stripped(account_characters(source), '-');
    let led = if core.len() > 0 && digit(core[0]) {
        seq!['_'] + core
    } else {
        core
    };
    let cut = if led.len() > UnixName::MAX_LEN {
        led.take(UnixName::MAX_LEN as int)
    } else {
        led
    };
    stripped_end(cut, '-')
}

pub open spec fn strict_account_name(kind: Seq<char>, s: Seq<char>) -> core::result::Result<
    Seq<char>,
    ErrorView,
> {
    match account_name_fault(s) {
        Some(reason) => Err(ErrorView::InvalidUnixName { kind, name: s, reason }),
        None => Ok(s),
    }
}

pub open spec fn derived_account_name(kind: Seq<char>, source: Seq<char>) -> core::result::Result<
    Seq<char>,
    ErrorView,
> {
    if account_name_fault(derived_account(source)) is Some {
        Err(
            ErrorView::InvalidUnixName {
                kind,
                name: source,
                reason: "derived `"@ + derived_account(source) + "`, which is not a valid "@ + kind
                    + " name; set the "@ + kind + " explicitly to override"@,
            },
        )
    } else {
        Ok(derived_account(source))
    }
}

/// A Unix account name accepted by `adduser --system`. It is interpolated into maintainer
/// scripts and units, so the character class is enforced here.
#[derive(Debug, PartialEq, Eq)]
pub struct UnixName {
    text: String,
}

impl View for UnixName {
    type V = Seq<char>;

    closed spec fn view(&self) -> Seq<char> {
        self.text@
    }
}

impl UnixName {
    /// Not a hard `useradd` limit (it documents 256); 32 is the `utmp` convention, kept as the
    /// conservative choice.
    pub const MAX_LEN: usize = 32;

    #[verifier::type_invariant]
    spec fn valid(self) -> bool {
        valid_account_name(self.text@)
    }

    /// Validates `input` without transforming it.
    pub fn parse_strict(kind: &'static str, input: &str) -> (r: Result<Self>)
        ensures
            outcome(r) == strict_account_name(kind@, input@),
    {
        match Self::fault(input) {
            Some(reason) => Err(Error::InvalidUnixName { kind, name: input.to_owned(), reason }),
            None => {
                proof {
                    account_name_fault_exact(input@);
                }
                Ok(UnixName { text: input.to_owned() })
            },
        }
    }

    /// Lowercases, maps anything outside the grammar to `-`, collapses, trims, truncates to
    /// [`UnixName::MAX_LEN`], and prefixes `_` when the result would start with a digit: the
    /// Debian convention for system accounts.
    pub fn derive_from(kind: &'static str, source: &str) -> (r: Result<Self>)
        ensures
            outcome(r) == derived_account_name(kind@, source@),
    {
        let v = chars_of(source);
        let mut out = String::new();
        let mut hyphen = false;
        let mut i: usize = 0;
        while i < v.len()
            invariant
                v@ == source@,
                i <= v@.len(),
                out@ == account_characters(v@.take(i as int)),
                hyphen == (out@.len() > 0 && out@.last() == '-'),
            decreases v@.len() - i,
        {
            let c = v[i];
            assert(v@.take(i + 1).drop_last() =~= v@.take(i as int));
            if is_alphanumeric(c) {
                out.push(to_lower(c));
                hyphen = false;
            } else if c == '_' {
                out.push('_');
                hyphen = false;
            } else if !hyphen {
                out.push('-');
                hyphen = true;
            }
            i = i + 1;
        }
        assert(v@.take(i as int) =~= source@);
        let trimmed = strip(out.as_str(), '-');
        let core = chars_of(trimmed.as_str());
        let mut led = String::new();
        if core.len() > 0 && is_digit(core[0]) {
            led.push('_');
        }
        led.append(trimmed.as_str());
        assert(led@ =~= (if core@.len() > 0 && digit(core@[0]) { seq!['_'] + core@ } else { core@ }));
        let full = chars_of(led.as_str());
        let mut end: usize = full.len();
        if end > Self::MAX_LEN {
            end = Self::MAX_LEN;
        }
        let cut = string_of(&full, 0, end);
        assert(cut@ =~= (if led@.len() > Self::MAX_LEN {
            led@.take(Self::MAX_LEN as int)
        } else {
            led@
        }));
        let derived = strip_end(cut.as_str(), '-');
        match Self::fault(derived.as_str()) {
            Some(_) => {
                let mut reason = "derived `".to_owned();
                reason.append(derived.as_str());
                reason.append("`, which is not a valid ");
                reason.append(kind);
                reason.append(" name; set the ");
                reason.append(kind);
                reason.append(" explicitly to override");
                Err(Error::InvalidUnixName { kind, name: source.to_owned(), reason })
            },
            None => {
                proof {
                    account_name_fault_exact(derived@);
                }
                Ok(UnixName { text: derived })
            },
        }
    }

    pub fn as_str(&self) -> (s: &str)
        ensures
            s@ == self@,
            valid_account_name(s@),
    {
        proof {
            use_type_invariant(self);
        }
        self.text.as_str()
    }

    fn fault(candidate: &str) -> (r: Option<String>)
        ensures
            crate::error::opt(r) == account_name_fault(candidate@),
    {
        let v = chars_of(candidate);
        if v.len() == 0 {
            return Some("name is empty".to_owned());
        }
        let length = bytes_in(candidate);
        if length > Self::MAX_LEN as u128 {
            let mut m = "name is ".to_owned();
            m.append(decimal_wide(length).as_str());
            m.append(" characters; the maximum is ");
            m.append(decimal_wide(Self::MAX_LEN as u128).as_str());
            return Some(m);
        }
        if !(is_lower(v[0]) || v[0] == '_') {
            return Some("name must start with a lowercase letter or an underscore".to_owned());
        }
        let rest = string_of(&v, 1, v.len());
        assert(rest@ =~= candidate@.skip(1));
        match find_in(rest.as_str(), CharClass::NotAccount) {
            Some(c) => {
                let mut m = "name contains `".to_owned();
                m.push(c);
                assert(m@ =~= "name contains `"@ + seq![c]);
                m.append("`; only lowercase letters, digits, `_` and `-` are allowed");
                Some(m)
            },
            None => None,
        }
    }
}

impl Clone for UnixName {
    fn clone(&self) -> (r: Self)
        ensures
            r@ == self@,
    {
        proof {
            use_type_invariant(self);
        }
        UnixName { text: self.text.clone() }
    }
}

// ---- paths without quoting ------------------------------------------------------------

/// The pieces that hold something.
pub open spec fn nonempty_parts(parts: Seq<Seq<char>>) -> Seq<Seq<char>>
    decreases parts.len(),
{
    if parts.len() == 0 {
        Seq::empty()
    } else if parts.last().len() == 0 {
        nonempty_parts(parts.drop_last())
    } else {
        nonempty_parts(parts.drop_last()).push(parts.last())
    }
}

/// Why one component of a path is refused, if it is.
pub open spec fn segment_fault(kind: Seq<char>, value: Seq<char>, segment: Seq<char>) -> Option<
    ErrorView,
> {
    if segment == "."@ || segment == ".."@ {
        Some(
            ErrorView::Manifest {
                message: kind + " `"@ + value + "` contains `"@ + segment
                    + "` as a path component"@,
            },
        )
    } else {
        match first_in(segment, CharClass::NotPath) {
            Some(c) => Some(
                ErrorView::Manifest {
                    message: kind + " `"@ + value + "` contains `"@ + seq![c]
                        + "`; only letters, digits, `.`, `_`, `+` and `-` and `/` are allowed"@,
                },
            ),
            None => None,
        }
    }
}

/// The first refusal among the components from `i` on.
pub open spec fn first_segment_fault(
    kind: Seq<char>,
    value: Seq<char>,
    segments: Seq<Seq<char>>,
    i: int,
) -> Option<ErrorView>
    decreases segments.len() - i,
{
    if i < 0 || i >= segments.len() {
        None
    } else {
        match segment_fault(kind, value, segments[i]) {
            Some(e) => Some(e),
            None => first_segment_fault(kind, value, segments, i + 1),
        }
    }
}

/// What an install directory comes to: absolute, `//` collapsed, no trailing slash.
pub open spec fn install_dir_of(input: Seq<char>) -> core::result::Result<Seq<char>, ErrorView> {
    let segments = nonempty_parts(split_at_char(input, '/'));
    if !(input.len() > 0 && input[0] == '/') {
        Err(
            ErrorView::Manifest {
                message: "install_dir `"@ + input + "` must be an absolute path"@,
            },
        )
    } else if segments.len() == 0 {
        Err(ErrorView::Manifest { message: "install_dir must not be the filesystem root"@ })
    } else {
        match first_segment_fault("install_dir"@, input, segments, 0) {
            Some(e) => Err(e),
            None => Ok("/"@ + joined(segments, "/"@)),
        }
    }
}

/// What an executable name comes to: one component, unchanged.
pub open spec fn executable_name_of(input: Seq<char>) -> core::result::Result<
    Seq<char>,
    ErrorView,
> {
    if input.len() == 0 {
        Err(ErrorView::Manifest { message: "executable_name is empty"@ })
    } else if input.contains('/') {
        Err(
            ErrorView::Manifest {
                message: "executable_name `"@ + input
                    + "` contains `/`; it is a single name placed on /usr/bin"@,
            },
        )
    } else {
        match segment_fault("executable_name"@, input, input) {
            Some(e) => Err(e),
            None => Ok(input),
        }
    }
}

/// The components an entry point keeps: neither empty nor `.`.
pub open spec fn entry_parts(parts: Seq<Seq<char>>) -> Seq<Seq<char>>
    decreases parts.len(),
{
    if parts.len() == 0 {
        Seq::empty()
    } else if parts.last().len() == 0 || parts.last() == "."@ {
        entry_parts(parts.drop_last())
    } else {
        entry_parts(parts.drop_last()).push(parts.last())
    }
}

pub open spec fn first_entry_fault(input: Seq<char>, segments: Seq<Seq<char>>, i: int) -> Option<
    ErrorView,
>
    decreases segments.len() - i,
{
    if i < 0 || i >= segments.len() {
        None
    } else if segments[i] == ".."@ {
        Some(
            ErrorView::Manifest {
                message: "entrypoint `"@ + input
                    + "` contains `..`; it must stay inside the project"@,
            },
        )
    } else {
        match first_in(segments[i], CharClass::NotEntry) {
            Some(c) => Some(
                ErrorView::Manifest {
                    message: "entrypoint `"@ + input + "` contains `"@ + seq![c]
                        + "`; only letters, digits, `.`, `_`, `+` and `-`, `@` and `/` are allowed"@,
                },
            ),
            None => first_entry_fault(input, segments, i + 1),
        }
    }
}

/// What an entry point comes to: relative, without `.` and empty components.
pub open spec fn entry_point_of(input: Seq<char>) -> core::result::Result<Seq<char>, ErrorView> {
    let segments = entry_parts(split_at_char(input, '/'));
    if input.len() > 0 && input[0] == '/' {
        Err(
            ErrorView::Manifest {
                message: "entrypoint `"@ + input + "` must be relative to the project"@,
            },
        )
    } else if segments.len() == 0 {
        Err(ErrorView::Manifest { message: "entrypoint `"@ + input + "` names no file"@ })
    } else {
        match first_entry_fault(input, segments, 0) {
            Some(e) => Err(e),
            None => Ok(joined(segments, "/"@)),
        }
    }
}

fn check_segment(kind: &str, value: &str, segment: &str) -> (r: Result<()>)
    ensures
        match segment_fault(kind@, value@, segment@) {
            Some(e) => r is Err && r->Err_0@ == e,
            None => r is Ok,
        },
{
    if same(segment, ".") || same(segment, "..") {
        let mut m = kind.to_owned();
        m.append(" `");
        m.append(value);
        m.append("` contains `");
        m.append(segment);
        m.append("` as a path component");
        return Err(Error::manifest(m));
    }
    match find_in(segment, CharClass::NotPath) {
        Some(c) => {
            let mut m = kind.to_owned();
            m.append(" `");
            m.append(value);
            m.append("` contains `");
            let ghost head = m@;
            m.push(c);
            assert(m@ =~= head + seq![c]);
            m.append("`; only letters, digits, `.`, `_`, `+` and `-` and `/` are allowed");
            Err(Error::manifest(m))
        },
        None => Ok(()),
    }
}

/// The pieces that hold something; with `skip_dot`, not `.` either.
fn kept_parts(parts: &Vec<String>, skip_dot: bool) -> (r: Vec<String>)
    ensures
        views(r@) == (if skip_dot {
            entry_parts(views(parts@))
        } else {
            nonempty_parts(views(parts@))
        }),
{
    let mut out: Vec<String> = Vec::new();
    let mut i: usize = 0;
    assert(views(parts@).take(0) =~= Seq::empty());
    assert(views(out@) =~= Seq::empty());
    while i < parts.len()
        invariant
            i <= parts@.len(),
            views(out@) == (if skip_dot {
                entry_parts(views(parts@).take(i as int))
            } else {
                nonempty_parts(views(parts@).take(i as int))
            }),
        decreases parts@.len() - i,
    {
        let ghost next = views(parts@).take(i + 1);
        proof {
            assert(next.drop_last() =~= views(parts@).take(i as int));
            assert(next.last() == parts@[i as int]@);
        }
        let part = parts[i].as_str();
        if !part.is_empty() && !(skip_dot && same(part, ".")) {
            let kept = part.to_owned();
            proof {
                views_push(out@, kept);
            }
            out.push(kept);
        }
        i = i + 1;
    }
    assert(views(parts@).take(i as int) =~= views(parts@));
    out
}

fn is_absolute(input: &str) -> (b: bool)
    ensures
        b == (input@.len() > 0 && input@[0] == '/'),
{
    let v = chars_of(input);
    v.len() > 0 && v[0] == '/'
}

/// Where a package installs: an absolute path of characters that need no quoting. It goes
/// unquoted into `ExecStart=` and the `/usr/bin` wrapper, and single-quoted into maintainer
/// scripts that run as root; the grammar is what makes that safe.
#[derive(Debug, PartialEq, Eq)]
pub struct InstallDir {
    text: String,
}

impl View for InstallDir {
    type V = Seq<char>;

    closed spec fn view(&self) -> Seq<char> {
        self.text@
    }
}

impl InstallDir {
    /// Parses and normalises (`//` collapsed, no trailing slash).
    pub fn parse(input: &str) -> (r: Result<Self>)
        ensures
            outcome(r) == install_dir_of(input@),
    {
        if !is_absolute(input) {
            let mut m = "install_dir `".to_owned();
            m.append(input);
            m.append("` must be an absolute path");
            return Err(Error::manifest(m));
        }
        let parts = split(input, '/');
        let segments = kept_parts(&parts, false);
        if segments.len() == 0 {
            return Err(Error::manifest("install_dir must not be the filesystem root".to_owned()));
        }
        let ghost names = views(segments@);
        let mut i: usize = 0;
        while i < segments.len()
            invariant
                i <= segments@.len(),
                names == views(segments@),
                names == nonempty_parts(split_at_char(input@, '/')),
                names.len() > 0,
                input@.len() > 0 && input@[0] == '/',
                first_segment_fault("install_dir"@, input@, names, 0) == first_segment_fault(
                    "install_dir"@,
                    input@,
                    names,
                    i as int,
                ),
            decreases segments@.len() - i,
        {
            assert(names[i as int] == segments@[i as int]@);
            match check_segment("install_dir", input, segments[i].as_str()) {
                Err(e) => {
                    return Err(e);
                },
                Ok(()) => {},
            }
            i = i + 1;
        }
        let mut text = "/".to_owned();
        text.append(join(&segments, "/").as_str());
        Ok(InstallDir { text })
    }

    pub fn as_str(&self) -> (s: &str)
        ensures
            s@ == self@,
    {
        self.text.as_str()
    }
}

impl Clone for InstallDir {
    fn clone(&self) -> (r: Self)
        ensures
            r@ == self@,
    {
        InstallDir { text: self.text.clone() }
    }
}

/// The command placed on `/usr/bin`: one path component, so it cannot name a file anywhere
/// else, and made of characters that need no quoting.
#[derive(Debug, PartialEq, Eq)]
pub struct ExecutableName {
    text: String,
}

impl View for ExecutableName {
    type V = Seq<char>;

    closed spec fn view(&self) -> Seq<char> {
        self.text@
    }
}

impl ExecutableName {
    pub fn parse(input: &str) -> (r: Result<Self>)
        ensures
            outcome(r) == executable_name_of(input@),
    {
        if input.is_empty() {
            return Err(Error::manifest("executable_name is empty".to_owned()));
        }
        if contains_char(input, '/') {
            let mut m = "executable_name `".to_owned();
            m.append(input);
            m.append("` contains `/`; it is a single name placed on /usr/bin");
            return Err(Error::manifest(m));
        }
        match check_segment("executable_name", input, input) {
            Err(e) => Err(e),
            Ok(()) => Ok(ExecutableName { text: input.to_owned() }),
        }
    }

    pub fn as_str(&self) -> (s: &str)
        ensures
            s@ == self@,
    {
        self.text.as_str()
    }
}

impl Clone for ExecutableName {
    fn clone(&self) -> (r: Self)
        ensures
            r@ == self@,
    {
        ExecutableName { text: self.text.clone() }
    }
}

/// A script inside the shipped application, relative to its root. It lands unquoted in
/// `ExecStart=` and inside shell strings in init scripts, so it gets the path grammar plus `@`
/// for scoped-package layouts. A leading `./` is dropped.
#[derive(Debug, PartialEq, Eq)]
pub struct EntryPoint {
    text: String,
}

impl View for EntryPoint {
    type V = Seq<char>;

    closed spec fn view(&self) -> Seq<char> {
        self.text@
    }
}

impl EntryPoint {
    pub fn parse(input: &str) -> (r: Result<Self>)
        ensures
            outcome(r) == entry_point_of(input@),
    {
        if is_absolute(input) {
            let mut m = "entrypoint `".to_owned();
            m.append(input);
            m.append("` must be relative to the project");
            return Err(Error::manifest(m));
        }
        let parts = split(input, '/');
        let segments = kept_parts(&parts, true);
        if segments.len() == 0 {
            let mut m = "entrypoint `".to_owned();
            m.append(input);
            m.append("` names no file");
            return Err(Error::manifest(m));
        }
        let ghost names = views(segments@);
        let mut i: usize = 0;
        while i < segments.len()
            invariant
                i <= segments@.len(),
                names == views(segments@),
                names == entry_parts(split_at_char(input@, '/')),
                names.len() > 0,
                !(input@.len() > 0 && input@[0] == '/'),
                first_entry_fault(input@, names, 0) == first_entry_fault(input@, names, i as int),
            decreases segments@.len() - i,
        {
            let segment = segments[i].as_str();
            assert(names[i as int] == segment@);
            if same(segment, "..") {
                let mut m = "entrypoint `".to_owned();
                m.append(input);
                m.append("` contains `..`; it must stay inside the project");
                return Err(Error::manifest(m));
            }
            match find_in(segment, CharClass::NotEntry) {
                Some(c) => {
                    let mut m = "entrypoint `".to_owned();
                    m.append(input);
                    m.append("` contains `");
                    let ghost head = m@;
                    m.push(c);
                    assert(m@ =~= head + seq![c]);
                    m.append(
                        "`; only letters, digits, `.`, `_`, `+` and `-`, `@` and `/` are allowed",
                    );
                    return Err(Error::manifest(m));
                },
                None => {},
            }
            i = i + 1;
        }
        Ok(EntryPoint { text: join(&segments, "/") })
    }

    pub fn as_str(&self) -> (s: &str)
        ensures
            s@ == self@,
    {
        self.text.as_str()
    }
}

impl Clone for EntryPoint {
    fn clone(&self) -> (r: Self)
        ensures
            r@ == self@,
    {
        EntryPoint { text: self.text.clone() }
    }
}

// ---- laws -----------------------------------------------------------------------------

/// What normalising keeps: lowered names with single hyphens.
spec fn tidy(s: Seq<char>) -> bool {
    &&& forall|i: int| 0 <= i < s.len() ==> !in_class(#[trigger] s[i], CharClass::NotPackage)
    &&& forall|i: int| 0 < i < s.len() ==> !(#[trigger] s[i] == '-' && s[i - 1] == '-')
}

proof fn flattened_is_tidy(s: Seq<char>)
    ensures
        tidy(flattened(s)),
    decreases s.len(),
{
    if s.len() > 0 {
        flattened_is_tidy(s.drop_last());
    }
}

proof fn tidy_is_flat(s: Seq<char>)
    requires
        tidy(s),
    ensures
        flattened(s) == s,
    decreases s.len(),
{
    if s.len() == 0 {
        assert(flattened(s) =~= s);
    } else {
        let head = s.drop_last();
        assert forall|i: int| 0 <= i < head.len() implies !in_class(
            #[trigger] head[i],
            CharClass::NotPackage,
        ) by {
            assert(head[i] == s[i]);
        }
        assert forall|i: int| 0 < i < head.len() implies !(#[trigger] head[i] == '-' && head[i - 1]
            == '-') by {
            assert(head[i] == s[i]);
        }
        tidy_is_flat(head);
        let c = s.last();
        assert(c == s[s.len() - 1]);
        assert(!in_class(s[s.len() - 1], CharClass::NotPackage));
        if c == '-' && head.len() > 0 {
            assert(head.last() == s[s.len() - 2]);
        }
        assert(head.push(c) =~= s);
    }
}

proof fn inner_is_tidy(s: Seq<char>, a: int, b: int)
    requires
        tidy(s),
        0 <= a <= b <= s.len(),
    ensures
        tidy(s.subrange(a, b)),
{
    let t = s.subrange(a, b);
    assert forall|i: int| 0 <= i < t.len() implies !in_class(
        #[trigger] t[i],
        CharClass::NotPackage,
    ) by {
        assert(t[i] == s[a + i]);
    }
    assert forall|i: int| 0 < i < t.len() implies !(#[trigger] t[i] == '-' && t[i - 1] == '-') by {
        assert(t[i] == s[a + i]);
        assert(t[i - 1] == s[a + i - 1]);
    }
}

/// Normalising a name that normalising produced changes nothing.
pub proof fn normalising_is_idempotent(s: Seq<char>)
    ensures
        normalised(normalised(s)) == normalised(s),
{
    let bare = if s.len() > 0 && s[0] == '@' {
        s.skip(1)
    } else {
        s
    };
    flattened_is_tidy(bare);
    let (a, b) = stripped_is_inner(flattened(bare), '-');
    let n = normalised(s);
    inner_is_tidy(flattened(bare), a, b);
    if n.len() > 0 {
        assert(!in_class(n[0], CharClass::NotPackage));
    }
    tidy_is_flat(n);
    stripped_unchanged(n, '-');
}

/// Every normalised name satisfies the strict grammar, and strict parsing takes it as it is.
pub proof fn normalised_names_are_strict(s: Seq<char>)
    requires
        normalised_package_name(s) is Ok,
    ensures
        valid_package_name(normalised_package_name(s)->Ok_0),
        strict_package_name(normalised_package_name(s)->Ok_0) == normalised_package_name(s),
{
    package_name_fault_exact(normalised(s));
}

/// What derivation keeps: the account alphabet.
spec fn account_alphabet(s: Seq<char>) -> bool {
    forall|i: int| 0 <= i < s.len() ==> !in_class(#[trigger] s[i], CharClass::NotAccount)
}

proof fn account_characters_alphabet(s: Seq<char>)
    ensures
        account_alphabet(account_characters(s)),
    decreases s.len(),
{
    if s.len() > 0 {
        account_characters_alphabet(s.drop_last());
    }
}

/// A derived account name is valid whenever anything is left of the source: derivation fails
/// on nothing else.
pub proof fn derived_names_are_strict(kind: Seq<char>, source: Seq<char>)
    ensures
        derived_account_name(kind, source) is Ok <==> derived_account(source).len() > 0,
        derived_account_name(kind, source) matches Ok(name) ==> valid_account_name(name)
            && strict_account_name(kind, name) == Ok::<Seq<char>, ErrorView>(name),
{
    account_characters_alphabet(source);
    let all = account_characters(source);
    let (a, b) = stripped_is_inner(all, '-');
    let core = stripped(all, '-');
    assert forall|i: int| 0 <= i < core.len() implies !in_class(
        #[trigger] core[i],
        CharClass::NotAccount,
    ) by {
        assert(core[i] == all[a + i]);
    }
    let led = if core.len() > 0 && digit(core[0]) {
        seq!['_'] + core
    } else {
        core
    };
    assert forall|i: int| 0 <= i < led.len() implies !in_class(
        #[trigger] led[i],
        CharClass::NotAccount,
    ) by {
        if core.len() > 0 && digit(core[0]) {
            if i > 0 {
                assert(led[i] == core[i - 1]);
            }
        } else {
            assert(led[i] == core[i]);
        }
    }
    let cut = if led.len() > UnixName::MAX_LEN {
        led.take(UnixName::MAX_LEN as int)
    } else {
        led
    };
    let k = stripped_end_is_prefix(cut, '-');
    let d = derived_account(source);
    assert forall|i: int| 0 <= i < d.len() implies #[trigger] d[i] == led[i] by {
        assert(d[i] == cut[i]);
    }
    if d.len() > 0 {
        assert(d[0] == led[0]);
        assert(!in_class(led[0], CharClass::NotAccount));
        assert forall|i: int| 1 <= i < d.len() implies !in_class(
            #[trigger] d[i],
            CharClass::NotAccount,
        ) by {
            assert(d[i] == led[i]);
        }
        assert(valid_account_name(d));
    }
    account_name_fault_exact(d);
}

proof fn nonempty_parts_kept(parts: Seq<Seq<char>>)
    ensures
        forall|i: int|
            0 <= i < nonempty_parts(parts).len() ==> (#[trigger] nonempty_parts(parts)[i]).len() > 0
                && parts.contains(nonempty_parts(parts)[i]),
    decreases parts.len(),
{
    if parts.len() > 0 {
        let init = parts.drop_last();
        nonempty_parts_kept(init);
        let kept = nonempty_parts(parts);
        assert forall|i: int| 0 <= i < kept.len() implies (#[trigger] kept[i]).len() > 0
            && parts.contains(kept[i]) by {
            if i < nonempty_parts(init).len() {
                assert(kept[i] == nonempty_parts(init)[i]);
                let j = init.index_of(kept[i]);
                assert(parts[j] == kept[i]);
            } else {
                assert(parts[parts.len() - 1] == kept[i]);
            }
        }
    }
}

proof fn nonempty_parts_all(parts: Seq<Seq<char>>)
    requires
        forall|i: int| 0 <= i < parts.len() ==> (#[trigger] parts[i]).len() > 0,
    ensures
        nonempty_parts(parts) == parts,
        nonempty_parts(seq![Seq::<char>::empty()] + parts) == parts,
    decreases parts.len(),
{
    let led = seq![Seq::<char>::empty()] + parts;
    if parts.len() > 0 {
        let init = parts.drop_last();
        assert forall|i: int| 0 <= i < init.len() implies (#[trigger] init[i]).len() > 0 by {
            assert(init[i] == parts[i]);
        }
        nonempty_parts_all(init);
        assert(parts[parts.len() - 1].len() > 0);
        assert(init.push(parts.last()) =~= parts);
        assert(led.drop_last() =~= seq![Seq::<char>::empty()] + init);
    } else {
        assert(led.drop_last() =~= Seq::empty());
        assert(nonempty_parts(led.drop_last()) =~= Seq::empty());
        assert(parts =~= Seq::empty());
    }
}

/// Joining with a leading empty piece puts the separator in front.
pub proof fn joined_with_lead(parts: Seq<Seq<char>>, sep: Seq<char>)
    requires
        parts.len() > 0,
    ensures
        joined(seq![Seq::<char>::empty()] + parts, sep) == sep + joined(parts, sep),
    decreases parts.len(),
{
    let led = seq![Seq::<char>::empty()] + parts;
    assert(led.drop_last() =~= seq![Seq::<char>::empty()] + parts.drop_last());
    if parts.len() == 1 {
        assert(led.drop_last() =~= seq![Seq::<char>::empty()]);
        assert(joined(led.drop_last(), sep) =~= Seq::<char>::empty());
        assert(led.last() == parts[0]);
        assert(joined(led, sep) =~= sep + joined(parts, sep));
    } else {
        joined_with_lead(parts.drop_last(), sep);
        assert(joined(led, sep) =~= sep + joined(parts, sep));
    }
}

/// The path `/a/b` splits into an empty piece and its components.
pub proof fn absolute_splits(parts: Seq<Seq<char>>)
    requires
        parts.len() > 0,
        forall|i: int| 0 <= i < parts.len() ==> !(#[trigger] parts[i]).contains('/'),
    ensures
        split_at_char("/"@ + joined(parts, "/"@), '/') == seq![Seq::<char>::empty()] + parts,
{
    reveal_strlit("/");
    assert("/"@ =~= seq!['/']);
    let led = seq![Seq::<char>::empty()] + parts;
    joined_with_lead(parts, seq!['/']);
    assert forall|i: int| 0 <= i < led.len() implies !(#[trigger] led[i]).contains('/') by {
        if i > 0 {
            assert(led[i] == parts[i - 1]);
        }
    }
    join_splits_back(led, '/');
}

/// Parsing an install directory that parsing produced changes nothing.
pub proof fn install_dir_is_normal(input: Seq<char>)
    requires
        install_dir_of(input) is Ok,
    ensures
        nonempty_parts(split_at_char(install_dir_of(input)->Ok_0, '/')) == nonempty_parts(
            split_at_char(input, '/'),
        ),
        install_dir_of(input)->Ok_0[0] == '/',
{
    let segments = nonempty_parts(split_at_char(input, '/'));
    split_joins_back(input, '/');
    nonempty_parts_kept(split_at_char(input, '/'));
    assert forall|i: int| 0 <= i < segments.len() implies !(#[trigger] segments[i]).contains(
        '/',
    ) by {
        let all = split_at_char(input, '/');
        let j = all.index_of(segments[i]);
        assert(all[j] == segments[i]);
    }
    absolute_splits(segments);
    nonempty_parts_all(segments);
    reveal_strlit("/");
}

/// What each kind of name may hold, character by character. A package name starts with a lowercase
/// letter or a digit and goes on with those, `+`, `-` and `.`; an account name starts with a
/// lowercase letter or `_`, goes on with those, digits and `-`, and has at most 32 characters.
/// What is accepted is taken as it is.
pub proof fn names_keep_to_their_alphabets(kind: Seq<char>, s: Seq<char>)
    ensures
        strict_package_name(s) is Ok <==> {
            &&& s.len() >= 2
            &&& 'a' <= s[0] <= 'z' || '0' <= s[0] <= '9'
            &&& forall|i: int|
                1 <= i < s.len() ==> 'a' <= #[trigger] s[i] <= 'z' || '0' <= s[i] <= '9' || s[i]
                    == '+' || s[i] == '-' || s[i] == '.'
        },
        strict_package_name(s) matches Ok(n) ==> n == s,
        strict_account_name(kind, s) is Ok <==> {
            &&& 1 <= s.len() <= 32
            &&& 'a' <= s[0] <= 'z' || s[0] == '_'
            &&& forall|i: int|
                1 <= i < s.len() ==> 'a' <= #[trigger] s[i] <= 'z' || '0' <= s[i] <= '9' || s[i]
                    == '_' || s[i] == '-'
        },
        strict_account_name(kind, s) matches Ok(n) ==> n == s,
{
    package_name_fault_exact(s);
    account_name_fault_exact(s);
    if valid_package_name(s) {
        assert forall|i: int| 1 <= i < s.len() implies 'a' <= #[trigger] s[i] <= 'z' || '0' <= s[i]
            <= '9' || s[i] == '+' || s[i] == '-' || s[i] == '.' by {
            assert(!in_class(s[i], CharClass::NotPackage));
        }
    }
    if valid_account_name(s) {
        assert forall|i: int| 1 <= i < s.len() implies 'a' <= #[trigger] s[i] <= 'z' || '0' <= s[i]
            <= '9' || s[i] == '_' || s[i] == '-' by {
            assert(!in_class(s[i], CharClass::NotAccount));
        }
    }
}

/// The letters, digits, `+` and `.` of a text, the letters lowered.
pub open spec fn essence(s: Seq<char>) -> Seq<char>
    decreases s.len(),
{
    if s.len() == 0 {
        Seq::empty()
    } else {
        let c = s.last();
        if alphanumeric(c) {
            essence(s.drop_last()).push(lowered(c))
        } else if c == '+' || c == '.' {
            essence(s.drop_last()).push(c)
        } else {
            essence(s.drop_last())
        }
    }
}

proof fn essence_of_both(a: Seq<char>, b: Seq<char>)
    ensures
        essence(a + b) == essence(a) + essence(b),
    decreases b.len(),
{
    if b.len() == 0 {
        assert(a + b =~= a);
        assert(essence(a) + essence(b) =~= essence(a));
    } else {
        let t = b.drop_last();
        essence_of_both(a, t);
        assert((a + b).drop_last() =~= a + t);
        assert((a + b).last() == b.last());
        let c = b.last();
        assert(essence(a) + essence(t).push(c) =~= (essence(a) + essence(t)).push(c));
        assert(essence(a) + essence(t).push(lowered(c)) =~= (essence(a) + essence(t)).push(
            lowered(c),
        ));
    }
}

proof fn flattening_keeps_the_essence(s: Seq<char>)
    ensures
        essence(flattened(s)) == essence(s),
    decreases s.len(),
{
    if s.len() > 0 {
        let init = s.drop_last();
        let out = flattened(init);
        let c = s.last();
        flattening_keeps_the_essence(init);
        assert(out.push('-').drop_last() =~= out);
        assert(out.push(c).drop_last() =~= out);
        assert(out.push(lowered(c)).drop_last() =~= out);
    }
}

proof fn hyphens_are_not_essential(s: Seq<char>)
    requires
        forall|i: int| 0 <= i < s.len() ==> #[trigger] s[i] == '-',
    ensures
        essence(s).len() == 0,
    decreases s.len(),
{
    if s.len() > 0 {
        hyphens_are_not_essential(s.drop_last());
    }
}

proof fn stripping_takes_hyphens(s: Seq<char>)
    ensures
        essence(stripped_start(s, '-')) == essence(s),
        essence(stripped_end(s, '-')) == essence(s),
    decreases s.len(),
{
    if s.len() > 0 && s[0] == '-' {
        stripping_takes_hyphens(s.drop_first());
        assert(s =~= seq!['-'] + s.drop_first());
        essence_of_both(seq!['-'], s.drop_first());
        hyphens_are_not_essential(seq!['-']);
        assert(essence(seq!['-']) + essence(s.drop_first()) =~= essence(s.drop_first()));
    }
    if s.len() > 0 && s.last() == '-' {
        stripping_takes_hyphens(s.drop_last());
    }
}

/// Normalising loses no letter, no digit, no `+` and no `.`, and adds none: only what stands
/// between them changes. Two names that differ in case or in their separators alone, or in a
/// leading `@`, still have the same essence.
pub proof fn normalising_keeps_the_essence(s: Seq<char>)
    ensures
        essence(normalised(s)) == essence(s),
{
    let bare = if s.len() > 0 && s[0] == '@' {
        s.skip(1)
    } else {
        s
    };
    flattening_keeps_the_essence(bare);
    stripping_takes_hyphens(flattened(bare));
    stripping_takes_hyphens(stripped_start(flattened(bare), '-'));
    if s.len() > 0 && s[0] == '@' {
        assert(s =~= seq!['@'] + bare);
        essence_of_both(seq!['@'], bare);
        reveal_with_fuel(essence, 2);
        assert(essence(seq!['@']) =~= Seq::empty());
        assert(essence(seq!['@']) + essence(bare) =~= essence(bare));
    }
}

/// A text that needs no normalising: lowercase letters, digits, `+`, `.` and single hyphens
/// between them.
pub open spec fn neat(s: Seq<char>) -> bool {
    &&& forall|i: int|
        0 <= i < s.len() ==> 'a' <= #[trigger] s[i] <= 'z' || '0' <= s[i] <= '9' || s[i] == '+'
            || s[i] == '.' || (s[i] == '-' && 0 < i < s.len() - 1 && s[i - 1] != '-')
}

proof fn neat_is_tidy(s: Seq<char>)
    requires
        neat(s),
    ensures
        tidy(s),
{
    assert forall|i: int| 0 <= i < s.len() implies !in_class(#[trigger] s[i], CharClass::NotPackage) by {
        assert('a' <= s[i] <= 'z' || '0' <= s[i] <= '9' || s[i] == '+' || s[i] == '.' || s[i]
            == '-');
    }
}

/// A neat name is its own normal form, and the name of a scoped package is its scope and its
/// name with a hyphen between them.
pub proof fn neat_names_stay(scope: Seq<char>, name: Seq<char>)
    requires
        neat(scope),
        neat(name),
        scope.len() > 0,
        name.len() > 0,
    ensures
        normalised(name) == name,
        normalised("@"@ + scope + "/"@ + name) == scope + "-"@ + name,
{
    neat_is_tidy(name);
    neat_is_tidy(scope);
    tidy_is_flat(name);
    tidy_is_flat(scope);
    assert(name[0] != '-' && name[0] != '@');
    assert(name[name.len() - 1] != '-');
    assert(scope[0] != '-');
    assert(scope[scope.len() - 1] != '-');
    stripped_unchanged(name, '-');
    reveal_strlit("@");
    reveal_strlit("/");
    reveal_strlit("-");
    let whole = "@"@ + scope + "/"@ + name;
    let wanted = scope + "-"@ + name;
    assert(whole[0] == '@');
    assert(whole.skip(1) =~= scope.push('/') + name);
    assert(wanted =~= scope.push('-') + name);
    flattening_goes_on(scope, name, 0);
    assert(scope.push('/') + name.take(0) =~= scope.push('/'));
    assert(scope.push('/').drop_last() =~= scope);
    assert(flattened(scope.push('/')) =~= scope.push('-'));
    flattening_goes_on(scope, name, name.len() as int);
    assert(name.take(name.len() as int) =~= name);
    assert(wanted.last() == name.last());
    stripped_unchanged(wanted, '-');
}

proof fn flattening_goes_on(scope: Seq<char>, name: Seq<char>, n: int)
    requires
        neat(name),
        flattened(scope) == scope,
        scope.len() > 0,
        scope.last() != '-',
        0 <= n <= name.len(),
    ensures
        flattened(scope.push('/') + name.take(n)) == scope.push('-') + name.take(n),
    decreases n,
{
    let whole = scope.push('/') + name.take(n);
    if n == 0 {
        assert(whole =~= scope.push('/'));
        assert(scope.push('/').drop_last() =~= scope);
        assert(scope.push('-') + name.take(0) =~= scope.push('-'));
    } else {
        flattening_goes_on(scope, name, n - 1);
        assert(whole.drop_last() =~= scope.push('/') + name.take(n - 1));
        let c = name[n - 1];
        assert(whole.last() == c);
        let out = scope.push('-') + name.take(n - 1);
        if n > 1 {
            assert(out.last() == name[n - 2]);
        }
        assert(out.push(c) =~= scope.push('-') + name.take(n));
    }
}

proof fn account_alphabet_stays(s: Seq<char>)
    requires
        forall|i: int|
            0 <= i < s.len() ==> 'a' <= #[trigger] s[i] <= 'z' || '0' <= s[i] <= '9' || s[i] == '_'
                || (s[i] == '-' && 0 < i && s[i - 1] != '-'),
    ensures
        account_characters(s) == s,
    decreases s.len(),
{
    if s.len() == 0 {
        assert(account_characters(s) =~= s);
    } else {
        let init = s.drop_last();
        assert forall|i: int| 0 <= i < init.len() implies 'a' <= #[trigger] init[i] <= 'z' || '0'
            <= init[i] <= '9' || init[i] == '_' || (init[i] == '-' && 0 < i && init[i - 1] != '-') by {
            assert(init[i] == s[i]);
        }
        account_alphabet_stays(init);
        let c = s[s.len() - 1];
        if init.len() > 0 {
            assert(init.last() == s[s.len() - 2]);
        }
        assert(init.push(c) =~= s);
    }
}

/// A name that is fit for an account is used as it is.
pub proof fn fit_account_names_stay(kind: Seq<char>, s: Seq<char>)
    requires
        1 <= s.len() <= 32,
        'a' <= s[0] <= 'z' || s[0] == '_',
        s.last() != '-',
        forall|i: int|
            0 <= i < s.len() ==> 'a' <= #[trigger] s[i] <= 'z' || '0' <= s[i] <= '9' || s[i] == '_'
                || (s[i] == '-' && 0 < i && s[i - 1] != '-'),
    ensures
        derived_account_name(kind, s) == Ok::<Seq<char>, ErrorView>(s),
{
    account_alphabet_stays(s);
    stripped_unchanged(s, '-');
    derived_names_are_strict(kind, s);
}

/// A path component that may stand unquoted: letters, digits, `.`, `_`, `+` and `-`, and not one
/// that leads elsewhere.
pub open spec fn plain_segment(s: Seq<char>) -> bool {
    &&& s.len() > 0
    &&& s != "."@
    &&& s != ".."@
    &&& forall|i: int|
        0 <= i < s.len() ==> 'a' <= #[trigger] s[i] <= 'z' || 'A' <= s[i] <= 'Z' || '0' <= s[i]
            <= '9' || s[i] == '.' || s[i] == '_' || s[i] == '+' || s[i] == '-'
}

proof fn plain_segments_hold(kind: Seq<char>, value: Seq<char>, s: Seq<char>)
    ensures
        plain_segment(s) <==> s.len() > 0 && segment_fault(kind, value, s) is None,
        plain_segment(s) ==> !s.contains('/'),
{
    first_in_exact(s, CharClass::NotPath);
    if s.len() > 0 && segment_fault(kind, value, s) is None {
        assert forall|i: int| 0 <= i < s.len() implies 'a' <= #[trigger] s[i] <= 'z' || 'A' <= s[i]
            <= 'Z' || '0' <= s[i] <= '9' || s[i] == '.' || s[i] == '_' || s[i] == '+' || s[i]
            == '-' by {
            assert(!in_class(s[i], CharClass::NotPath));
        }
    }
}

proof fn segments_hold(kind: Seq<char>, value: Seq<char>, parts: Seq<Seq<char>>, i: int)
    requires
        0 <= i <= parts.len(),
    ensures
        first_segment_fault(kind, value, parts, i) is None <==> forall|k: int|
            i <= k < parts.len() ==> segment_fault(kind, value, #[trigger] parts[k]) is None,
    decreases parts.len() - i,
{
    if i < parts.len() {
        segments_hold(kind, value, parts, i + 1);
    }
}

/// An absolute path of plain components is an install directory as it is. One that is relative,
/// is the root, or has a component that is not plain is refused.
pub proof fn plain_install_directories_stay(parts: Seq<Seq<char>>, input: Seq<char>)
    ensures
        parts.len() > 0 && (forall|i: int|
            0 <= i < parts.len() ==> plain_segment(#[trigger] parts[i])) ==> install_dir_of(
            "/"@ + joined(parts, "/"@),
        ) == Ok::<Seq<char>, ErrorView>("/"@ + joined(parts, "/"@)),
        !(input.len() > 0 && input[0] == '/') ==> install_dir_of(input) is Err,
        install_dir_of("/"@) is Err,
        install_dir_of(input) is Ok ==> forall|i: int|
            0 <= i < split_at_char(input, '/').len() ==> (#[trigger] split_at_char(
                input,
                '/',
            )[i]).len() == 0 || plain_segment(split_at_char(input, '/')[i]),
{
    reveal_strlit("/");
    if parts.len() > 0 && (forall|i: int|
        0 <= i < parts.len() ==> plain_segment(#[trigger] parts[i])) {
        let text = "/"@ + joined(parts, "/"@);
        assert forall|i: int| 0 <= i < parts.len() implies !(#[trigger] parts[i]).contains('/')
            && segment_fault("install_dir"@, text, parts[i]) is None by {
            plain_segments_hold("install_dir"@, text, parts[i]);
        }
        absolute_splits(parts);
        assert forall|i: int| 0 <= i < parts.len() implies (#[trigger] parts[i]).len() > 0 by {
            assert(plain_segment(parts[i]));
        }
        nonempty_parts_all(parts);
        segments_hold("install_dir"@, text, parts, 0);
    }
    let empty = Seq::<char>::empty();
    assert("/"@ =~= empty.push('/') + empty);
    split_concat(empty, empty, '/');
    let two = split_at_char("/"@, '/');
    assert(two.drop_last().drop_last() =~= Seq::empty());
    reveal_with_fuel(nonempty_parts, 3);
    assert(two.last().len() == 0 && two.drop_last().last().len() == 0);
    if install_dir_of(input) is Ok {
        let all = split_at_char(input, '/');
        let kept = nonempty_parts(all);
        segments_hold("install_dir"@, input, kept, 0);
        assert forall|i: int| 0 <= i < all.len() implies (#[trigger] all[i]).len() == 0
            || plain_segment(all[i]) by {
            if all[i].len() > 0 {
                nonempty_parts_hold(all, i);
                let k = kept.index_of(all[i]);
                assert(segment_fault("install_dir"@, input, kept[k]) is None);
                plain_segments_hold("install_dir"@, input, all[i]);
            }
        }
    }
}

proof fn nonempty_parts_hold(parts: Seq<Seq<char>>, i: int)
    requires
        0 <= i < parts.len(),
        parts[i].len() > 0,
    ensures
        nonempty_parts(parts).contains(parts[i]),
    decreases parts.len(),
{
    let init = parts.drop_last();
    if i == parts.len() - 1 {
        let kept = nonempty_parts(parts);
        assert(kept[kept.len() - 1] == parts[i]);
    } else {
        nonempty_parts_hold(init, i);
        let before = nonempty_parts(init);
        let k = before.index_of(init[i]);
        assert(nonempty_parts(parts)[k] == parts[i]);
    }
}

/// An executable name is one plain path component, and is taken as it is.
pub proof fn executable_names_are_plain(s: Seq<char>)
    ensures
        executable_name_of(s) is Ok <==> plain_segment(s),
        executable_name_of(s) matches Ok(n) ==> n == s,
{
    plain_segments_hold("executable_name"@, s, s);
}

/// A component of an entry point: what a path component may hold, and `@`.
pub open spec fn entry_segment(s: Seq<char>) -> bool {
    &&& s.len() > 0
    &&& s != "."@
    &&& s != ".."@
    &&& forall|i: int|
        0 <= i < s.len() ==> 'a' <= #[trigger] s[i] <= 'z' || 'A' <= s[i] <= 'Z' || '0' <= s[i]
            <= '9' || s[i] == '.' || s[i] == '_' || s[i] == '+' || s[i] == '-' || s[i] == '@'
}

proof fn entry_parts_all(parts: Seq<Seq<char>>)
    requires
        forall|i: int| 0 <= i < parts.len() ==> entry_segment(#[trigger] parts[i]),
    ensures
        entry_parts(parts) == parts,
        entry_parts(seq!["."@] + parts) == parts,
    decreases parts.len(),
{
    let led = seq!["."@] + parts;
    if parts.len() > 0 {
        let init = parts.drop_last();
        assert forall|i: int| 0 <= i < init.len() implies entry_segment(#[trigger] init[i]) by {
            assert(init[i] == parts[i]);
        }
        entry_parts_all(init);
        assert(entry_segment(parts[parts.len() - 1]));
        assert(init.push(parts.last()) =~= parts);
        assert(led.drop_last() =~= seq!["."@] + init);
    } else {
        assert(led.drop_last() =~= Seq::empty());
        assert(entry_parts(led.drop_last()) =~= Seq::empty());
        assert(parts =~= Seq::empty());
    }
}

proof fn entry_segments_hold(input: Seq<char>, parts: Seq<Seq<char>>, i: int)
    requires
        0 <= i <= parts.len(),
        forall|k: int| 0 <= k < parts.len() ==> entry_segment(#[trigger] parts[k]),
    ensures
        first_entry_fault(input, parts, i) is None,
    decreases parts.len() - i,
{
    if i < parts.len() {
        first_in_exact(parts[i], CharClass::NotEntry);
        assert(entry_segment(parts[i]));
        assert forall|k: int| 0 <= k < parts[i].len() implies !in_class(
            #[trigger] parts[i][k],
            CharClass::NotEntry,
        ) by {}
        entry_segments_hold(input, parts, i + 1);
    }
}

/// A relative path of plain components is an entry point as it is, and the same with `./` in
/// front. An absolute path is refused.
pub proof fn plain_entry_points_stay(parts: Seq<Seq<char>>, input: Seq<char>)
    requires
        parts.len() > 0,
        forall|i: int| 0 <= i < parts.len() ==> entry_segment(#[trigger] parts[i]),
    ensures
        entry_point_of(joined(parts, "/"@)) == Ok::<Seq<char>, ErrorView>(joined(parts, "/"@)),
        entry_point_of(joined(seq!["."@] + parts, "/"@)) == Ok::<Seq<char>, ErrorView>(
            joined(parts, "/"@),
        ),
        input.len() > 0 && input[0] == '/' ==> entry_point_of(input) is Err,
{
    reveal_strlit("/");
    reveal_strlit(".");
    assert("/"@ =~= seq!['/']);
    let led = seq!["."@] + parts;
    assert forall|i: int| 0 <= i < led.len() implies !(#[trigger] led[i]).contains('/') by {
        if i > 0 {
            assert(led[i] == parts[i - 1]);
            assert(entry_segment(parts[i - 1]));
            let part = parts[i - 1];
            assert forall|k: int| 0 <= k < part.len() implies #[trigger] part[k] != '/' by {}
        }
    }
    assert forall|i: int| 0 <= i < parts.len() implies !(#[trigger] parts[i]).contains('/') by {
        assert(led[i + 1] == parts[i]);
    }
    join_splits_back(parts, '/');
    join_splits_back(led, '/');
    entry_parts_all(parts);
    entry_segments_hold(joined(parts, "/"@), parts, 0);
    entry_segments_hold(joined(led, "/"@), parts, 0);
    starts_with_its_first(parts);
    starts_with_its_first(led);
    assert(entry_segment(parts[0]));
}

proof fn starts_with_its_first(parts: Seq<Seq<char>>)
    requires
        parts.len() > 0,
        parts[0].len() > 0,
    ensures
        joined(parts, "/"@).len() > 0,
        joined(parts, "/"@)[0] == parts[0][0],
    decreases parts.len(),
{
    if parts.len() > 1 {
        assert(parts.drop_last()[0] == parts[0]);
        starts_with_its_first(parts.drop_last());
    }
}

proof fn climbing_is_found(input: Seq<char>, parts: Seq<Seq<char>>, i: int, k: int)
    requires
        0 <= i <= k < parts.len(),
        parts[k] == ".."@,
    ensures
        first_entry_fault(input, parts, i) is Some,
    decreases k - i,
{
    if i < k {
        climbing_is_found(input, parts, i + 1, k);
    }
}

proof fn climbing_stays(parts: Seq<Seq<char>>, k: int) -> (m: int)
    requires
        0 <= k < parts.len(),
        parts[k] == ".."@,
    ensures
        0 <= m < entry_parts(parts).len(),
        entry_parts(parts)[m] == ".."@,
    decreases parts.len(),
{
    reveal_strlit("..");
    reveal_strlit(".");
    assert(".."@.len() == 2 && "."@.len() == 1);
    if k == parts.len() - 1 {
        entry_parts(parts).len() - 1
    } else {
        assert(parts.drop_last()[k] == parts[k]);
        climbing_stays(parts.drop_last(), k)
    }
}

/// An entry point that climbs with `..` is refused, wherever in the path it does.
pub proof fn entry_points_do_not_climb(input: Seq<char>)
    requires
        split_at_char(input, '/').contains(".."@),
    ensures
        entry_point_of(input) is Err,
{
    let all = split_at_char(input, '/');
    let k = all.index_of(".."@);
    let m = climbing_stays(all, k);
    climbing_is_found(input, entry_parts(all), 0, m);
}

} // verus!
