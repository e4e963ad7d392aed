//! Target architecture, parsed once and rendered per format: Debian says `amd64` and `all`
//! where RPM says `x86_64` and `noarch`.

use vstd::prelude::*;

use crate::error::{outcome, Error, ErrorView, Result};
use crate::strings::{join, joined, lowercase, same, to_lowercase, views, views_push};

verus! {

/// A target architecture. Both the Debian and the GNU spelling are accepted on input.
#[derive(Debug, Clone, Copy, PartialEq, Eq, Hash, Structural)]
pub enum Architecture {
    /// Architecture-independent content.
    Any,
    Amd64,
    Arm64,
    I386,
    Armhf,
    Ppc64le,
    S390x,
    Riscv64,
}

impl View for Architecture {
    type V = Architecture;

    open spec fn view(&self) -> Architecture {
        *self
    }
}

/// Every accepted spelling. Used by both parsing and the error message, so the two cannot
/// disagree.
pub open spec fn spelling_table() -> Seq<(Seq<char>, Architecture)> {
    seq![
        ("all"@, Architecture::Any),
        ("any"@, Architecture::Any),
        ("noarch"@, Architecture::Any),
        ("amd64"@, Architecture::Amd64),
        ("x86_64"@, Architecture::Amd64),
        ("arm64"@, Architecture::Arm64),
        ("aarch64"@, Architecture::Arm64),
        ("i386"@, Architecture::I386),
        ("i686"@, Architecture::I386),
        ("x86"@, Architecture::I386),
        ("armhf"@, Architecture::Armhf),
        ("armv7"@, Architecture::Armhf),
        ("armv7hl"@, Architecture::Armhf),
        ("ppc64el"@, Architecture::Ppc64le),
        ("ppc64le"@, Architecture::Ppc64le),
        ("s390x"@, Architecture::S390x),
        ("riscv64"@, Architecture::Riscv64),
    ]
}

/// The first entry from `i` on whose spelling is `key`.
pub open spec fn lookup(
    table: Seq<(Seq<char>, Architecture)>,
    key: Seq<char>,
    i: int,
) -> Option<Architecture>
    decreases table.len() - i,
{
    if i < 0 || i >= table.len() {
        None
    } else if table[i].0 == key {
        Some(table[i].1)
    } else {
        lookup(table, key, i + 1)
    }
}

/// The accepted spellings, in table order.
pub open spec fn spellings_of(table: Seq<(Seq<char>, Architecture)>) -> Seq<Seq<char>> {
    Seq::new(table.len(), |i: int| table[i].0)
}

/// The architecture a spelling names, whatever its case.
pub open spec fn architecture_named(input: Seq<char>) -> core::result::Result<
    Architecture,
    ErrorView,
> {
    match lookup(spelling_table(), lowercase(input), 0) {
        Some(arch) => Ok(arch),
        None => Err(
            ErrorView::Manifest {
                message: "unknown architecture `"@ + input + "`; accepted spellings: "@ + joined(
                    spellings_of(spelling_table()),
                    ", "@,
                ),
            },
        ),
    }
}

pub fn spellings() -> (table: Vec<(&'static str, Architecture)>)
    ensures
        table@.len() == spelling_table().len(),
        forall|i: int|
            0 <= i < table@.len() ==> (#[trigger] table@[i]).0@ == spelling_table()[i].0
                && table@[i].1 == spelling_table()[i].1,
{
    vec![
        ("all", Architecture::Any),
        ("any", Architecture::Any),
        ("noarch", Architecture::Any),
        ("amd64", Architecture::Amd64),
        ("x86_64", Architecture::Amd64),
        ("arm64", Architecture::Arm64),
        ("aarch64", Architecture::Arm64),
        ("i386", Architecture::I386),
        ("i686", Architecture::I386),
        ("x86", Architecture::I386),
        ("armhf", Architecture::Armhf),
        ("armv7", Architecture::Armhf),
        ("armv7hl", Architecture::Armhf),
        ("ppc64el", Architecture::Ppc64le),
        ("ppc64le", Architecture::Ppc64le),
        ("s390x", Architecture::S390x),
        ("riscv64", Architecture::Riscv64),
    ]
}

impl Architecture {
    /// The Debian spelling.
    pub open spec fn deb_spelling(self) -> Seq<char> {
        match self {
            Architecture::Any => "all"@,
            Architecture::Amd64 => "amd64"@,
            Architecture::Arm64 => "arm64"@,
            Architecture::I386 => "i386"@,
            Architecture::Armhf => "armhf"@,
            Architecture::Ppc64le => "ppc64el"@,
            Architecture::S390x => "s390x"@,
            Architecture::Riscv64 => "riscv64"@,
        }
    }

    /// The RPM spelling.
    pub open spec fn rpm_spelling(self) -> Seq<char> {
        match self {
            Architecture::Any => "noarch"@,
            Architecture::Amd64 => "x86_64"@,
            Architecture::Arm64 => "aarch64"@,
            Architecture::I386 => "i686"@,
            Architecture::Armhf => "armv7hl"@,
            Architecture::Ppc64le => "ppc64le"@,
            Architecture::S390x => "s390x"@,
            Architecture::Riscv64 => "riscv64"@,
        }
    }

    /// The Arch Linux spelling.
    pub open spec fn arch_linux_spelling(self) -> Seq<char> {
        match self {
            Architecture::Any => "any"@,
            Architecture::Amd64 => "x86_64"@,
            Architecture::Arm64 => "aarch64"@,
            Architecture::I386 => "i686"@,
            Architecture::Armhf => "armv7h"@,
            Architecture::Ppc64le => "powerpc64le"@,
            Architecture::S390x => "s390x"@,
            Architecture::Riscv64 => "riscv64"@,
        }
    }

    /// Parses any accepted spelling. Never silently defaulted: that would produce a package
    /// claiming to run somewhere it cannot.
    pub fn parse(input: &str) -> (r: Result<Self>)
        ensures
            outcome(r) == architecture_named(input@),
    {
        let lowered = to_lowercase(input);
        let table = spellings();
        let mut accepted: Vec<String> = Vec::new();
        let mut i: usize = 0;
        while i < table.len()
            invariant
                i <= table@.len(),
                table@.len() == spelling_table().len(),
                forall|k: int|
                    0 <= k < table@.len() ==> (#[trigger] table@[k]).0@ == spelling_table()[k].0
                        && table@[k].1 == spelling_table()[k].1,
                lowered@ == lowercase(input@),
                lookup(spelling_table(), lowered@, 0) == lookup(
                    spelling_table(),
                    lowered@,
                    i as int,
                ),
                views(accepted@) == spellings_of(spelling_table()).take(i as int),
            decreases table@.len() - i,
        {
            let (spelling, arch) = table[i];
            assert(table@[i as int].0@ == spelling_table()[i as int].0);
            if same(spelling, lowered.as_str()) {
                return Ok(arch);
            }
            let name = spelling.to_owned();
            proof {
                views_push(accepted@, name);
                assert(spellings_of(spelling_table()).take(i + 1) =~= spellings_of(
                    spelling_table(),
                ).take(i as int).push(name@));
            }
            accepted.push(name);
            i = i + 1;
        }
        assert(spellings_of(spelling_table()).take(i as int) =~= spellings_of(spelling_table()));
        let mut m = "unknown architecture `".to_owned();
        m.append(input);
        m.append("`; accepted spellings: ");
        m.append(join(&accepted, ", ").as_str());
        Err(Error::manifest(m))
    }

    /// The Debian spelling, for a `control` file's `Architecture` field.
    pub fn deb(self) -> (s: &'static str)
        ensures
            s@ == self.deb_spelling(),
    {
        match self {
            Architecture::Any => "all",
            Architecture::Amd64 => "amd64",
            Architecture::Arm64 => "arm64",
            Architecture::I386 => "i386",
            Architecture::Armhf => "armhf",
            Architecture::Ppc64le => "ppc64el",
            Architecture::S390x => "s390x",
            Architecture::Riscv64 => "riscv64",
        }
    }

    /// The RPM spelling, for the header's architecture tag.
    pub fn rpm(self) -> (s: &'static str)
        ensures
            s@ == self.rpm_spelling(),
    {
        match self {
            Architecture::Any => "noarch",
            Architecture::Amd64 => "x86_64",
            Architecture::Arm64 => "aarch64",
            Architecture::I386 => "i686",
            Architecture::Armhf => "armv7hl",
            Architecture::Ppc64le => "ppc64le",
            Architecture::S390x => "s390x",
            Architecture::Riscv64 => "riscv64",
        }
    }

    /// The Arch Linux spelling, for `.PKGINFO`'s `arch` field.
    pub fn arch_linux(self) -> (s: &'static str)
        ensures
            s@ == self.arch_linux_spelling(),
    {
        match self {
            Architecture::Any => "any",
            Architecture::Amd64 => "x86_64",
            Architecture::Arm64 => "aarch64",
            Architecture::I386 => "i686",
            Architecture::Armhf => "armv7h",
            Architecture::Ppc64le => "powerpc64le",
            Architecture::S390x => "s390x",
            Architecture::Riscv64 => "riscv64",
        }
    }

    pub fn is_any(self) -> (b: bool)
        ensures
            b == (self == Architecture::Any),
    {
        self == Architecture::Any
    }
}

impl Default for Architecture {
    /// Architecture-independent unless something says otherwise.
    fn default() -> (a: Self)
        ensures
            a == Architecture::Any,
    {
        Architecture::Any
    }
}

/// What the table's literals hold, as far as telling them apart needs.
proof fn literals()
    ensures
        forall|i: int, j: int|
            0 <= i < j < spelling_table().len() ==> (#[trigger] spelling_table()[i]).0 != (
            #[trigger] spelling_table()[j]).0,
        forall|i: int|
            0 <= i < spelling_table().len() ==> lowercase((#[trigger] spelling_table()[i]).0)
                == spelling_table()[i].0,
{
    reveal_strlit("all");
    reveal_strlit("any");
    reveal_strlit("noarch");
    reveal_strlit("amd64");
    reveal_strlit("x86_64");
    reveal_strlit("arm64");
    reveal_strlit("aarch64");
    reveal_strlit("i386");
    reveal_strlit("i686");
    reveal_strlit("x86");
    reveal_strlit("armhf");
    reveal_strlit("armv7");
    reveal_strlit("armv7hl");
    reveal_strlit("ppc64el");
    reveal_strlit("ppc64le");
    reveal_strlit("s390x");
    reveal_strlit("riscv64");
    assert forall|i: int, j: int| 0 <= i < j < spelling_table().len() implies (
    #[trigger] spelling_table()[i]).0 != (#[trigger] spelling_table()[j]).0 by {
        let a = spelling_table()[i].0;
        let b = spelling_table()[j].0;
        assert(a.len() != b.len() || a[0] != b[0] || a[1] != b[1] || a[3] != b[3] || a[5] != b[5]);
    }
    assert forall|i: int| 0 <= i < spelling_table().len() implies lowercase(
        (#[trigger] spelling_table()[i]).0,
    ) == spelling_table()[i].0 by {
        assert(lowercase(spelling_table()[i].0) =~= spelling_table()[i].0);
    }
}

proof fn found(k: int, from: int)
    requires
        0 <= from <= k < spelling_table().len(),
    ensures
        lookup(spelling_table(), spelling_table()[k].0, from) == Some(spelling_table()[k].1),
    decreases k - from,
{
    literals();
    if from < k {
        assert(spelling_table()[from].0 != spelling_table()[k].0);
        found(k, from + 1);
    }
}

/// Every spelling in the table parses to the architecture beside it.
pub proof fn every_spelling_parses(k: int)
    requires
        0 <= k < spelling_table().len(),
    ensures
        architecture_named(spelling_table()[k].0) == Ok::<Architecture, ErrorView>(
            spelling_table()[k].1,
        ),
{
    literals();
    found(k, 0);
}

/// What Debian and RPM metadata spell parses back to the architecture it spells.
pub proof fn spellings_parse_back(arch: Architecture)
    ensures
        architecture_named(arch.deb_spelling()) == Ok::<Architecture, ErrorView>(arch),
        architecture_named(arch.rpm_spelling()) == Ok::<Architecture, ErrorView>(arch),
{
    let (d, r) = match arch {
        Architecture::Any => (0int, 2int),
        Architecture::Amd64 => (3int, 4int),
        Architecture::Arm64 => (5int, 6int),
        Architecture::I386 => (7int, 8int),
        Architecture::Armhf => (10int, 12int),
        Architecture::Ppc64le => (13int, 14int),
        Architecture::S390x => (15int, 15int),
        Architecture::Riscv64 => (16int, 16int),
    };
    every_spelling_parses(d);
    every_spelling_parses(r);
    assert(spelling_table()[d] == (arch.deb_spelling(), arch));
    assert(spelling_table()[r] == (arch.rpm_spelling(), arch));
}

/// Each machine is named by its spellings, in any case, and by nothing else.
#[verifier::spinoff_prover]
pub proof fn each_machine_has_its_spellings(input: Seq<char>)
    ensures
        ({
            let s = lowercase(input);
            let named = architecture_named(input);
            &&& named == Ok::<Architecture, ErrorView>(Architecture::Any) <==> s == "all"@ || s
                == "any"@ || s == "noarch"@
            &&& named == Ok::<Architecture, ErrorView>(Architecture::Amd64) <==> s == "amd64"@ || s
                == "x86_64"@
            &&& named == Ok::<Architecture, ErrorView>(Architecture::Arm64) <==> s == "arm64"@ || s
                == "aarch64"@
            &&& named == Ok::<Architecture, ErrorView>(Architecture::I386) <==> s == "i386"@ || s
                == "i686"@ || s == "x86"@
            &&& named == Ok::<Architecture, ErrorView>(Architecture::Armhf) <==> s == "armhf"@ || s
                == "armv7"@ || s == "armv7hl"@
            &&& named == Ok::<Architecture, ErrorView>(Architecture::Ppc64le) <==> s == "ppc64el"@
                || s == "ppc64le"@
            &&& named == Ok::<Architecture, ErrorView>(Architecture::S390x) <==> s == "s390x"@
            &&& named == Ok::<Architecture, ErrorView>(Architecture::Riscv64) <==> s == "riscv64"@
        }),
{
    reveal_strlit("all");
    reveal_strlit("any");
    reveal_strlit("noarch");
    reveal_strlit("amd64");
    reveal_strlit("x86_64");
    reveal_strlit("arm64");
    reveal_strlit("aarch64");
    reveal_strlit("i386");
    reveal_strlit("i686");
    reveal_strlit("x86");
    reveal_strlit("armhf");
    reveal_strlit("armv7");
    reveal_strlit("armv7hl");
    reveal_strlit("ppc64el");
    reveal_strlit("ppc64le");
    reveal_strlit("s390x");
    reveal_strlit("riscv64");
    assert("all"@.len() == 3 && "all"@[1] == 'l');
    assert("any"@.len() == 3 && "any"@[1] == 'n');
    assert("x86"@.len() == 3 && "x86"@[1] == '8');
    assert("noarch"@.len() == 6 && "noarch"@[0] == 'n');
    assert("x86_64"@.len() == 6 && "x86_64"@[0] == 'x');
    assert("amd64"@.len() == 5 && "amd64"@[0] == 'a' && "amd64"@[1] == 'm');
    assert("arm64"@.len() == 5 && "arm64"@[0] == 'a' && "arm64"@[1] == 'r' && "arm64"@[3] == '6');
    assert("armhf"@.len() == 5 && "armhf"@[0] == 'a' && "armhf"@[1] == 'r' && "armhf"@[3] == 'h');
    assert("armv7"@.len() == 5 && "armv7"@[0] == 'a' && "armv7"@[1] == 'r' && "armv7"@[3] == 'v');
    assert("s390x"@.len() == 5 && "s390x"@[0] == 's');
    assert("i386"@.len() == 4 && "i386"@[1] == '3');
    assert("i686"@.len() == 4 && "i686"@[1] == '6');
    assert("aarch64"@.len() == 7 && "aarch64"@[0] == 'a' && "aarch64"@[1] == 'a');
    assert("armv7hl"@.len() == 7 && "armv7hl"@[0] == 'a' && "armv7hl"@[1] == 'r');
    assert("ppc64el"@.len() == 7 && "ppc64el"@[0] == 'p' && "ppc64el"@[5] == 'e');
    assert("ppc64le"@.len() == 7 && "ppc64le"@[0] == 'p' && "ppc64le"@[5] == 'l');
    assert("riscv64"@.len() == 7 && "riscv64"@[0] == 'r');
    let table = spelling_table();
    let s = lowercase(input);
    assert(lookup(table, s, 17) is None);
    assert(lookup(table, s, 16) is Some <==> s == "riscv64"@);
    reveal_with_fuel(lookup, 18);
}

/// Each distribution spells a machine its own way.
pub proof fn distributions_spell_machines_their_own_way()
    ensures
        Architecture::Any.deb_spelling() == "all"@,
        Architecture::Any.rpm_spelling() == "noarch"@,
        Architecture::Any.arch_linux_spelling() == "any"@,
        Architecture::Amd64.deb_spelling() == "amd64"@,
        Architecture::Amd64.rpm_spelling() == "x86_64"@,
        Architecture::Amd64.arch_linux_spelling() == "x86_64"@,
        Architecture::Arm64.deb_spelling() == "arm64"@,
        Architecture::Arm64.rpm_spelling() == "aarch64"@,
        Architecture::Arm64.arch_linux_spelling() == "aarch64"@,
        Architecture::I386.deb_spelling() == "i386"@,
        Architecture::I386.rpm_spelling() == "i686"@,
        Architecture::I386.arch_linux_spelling() == "i686"@,
        Architecture::Armhf.deb_spelling() == "armhf"@,
        Architecture::Armhf.rpm_spelling() == "armv7hl"@,
        Architecture::Armhf.arch_linux_spelling() == "armv7h"@,
        Architecture::Ppc64le.deb_spelling() == "ppc64el"@,
        Architecture::Ppc64le.rpm_spelling() == "ppc64le"@,
        Architecture::Ppc64le.arch_linux_spelling() == "powerpc64le"@,
        Architecture::S390x.deb_spelling() == "s390x"@,
        Architecture::S390x.rpm_spelling() == "s390x"@,
        Architecture::S390x.arch_linux_spelling() == "s390x"@,
        Architecture::Riscv64.deb_spelling() == "riscv64"@,
        Architecture::Riscv64.rpm_spelling() == "riscv64"@,
        Architecture::Riscv64.arch_linux_spelling() == "riscv64"@,
{
}

} // verus!
