//! The `.PKGINFO` member: what a package is, one `key = value` a line.

use vstd::prelude::*;

use crate::dependencies::{dependency_names, named_dependencies};
use crate::digits::{decimal, decimal_text, decimal_wide};
use crate::payload::relative;
use crate::plan::{
    config_entries, configuration_files_are_the_marked_ones, BuildPlan, BuildPlanView,
    PlannedFileView,
};
use crate::strings::{
    clean_line, end_lines, lines, lines_of, lines_of_unlines, same, split_first,
    split_first_keyed, split_once, unlines, views, views_push,
};

verus! {

/// `[epoch:]version-release`.
pub open spec fn pkgver_of(version: Seq<char>, release: Seq<char>, epoch: Option<u32>) -> Seq<char> {
    match epoch {
        Some(n) => decimal(n as nat) + ":"@ + version + "-"@ + release,
        None => version + "-"@ + release,
    }
}

/// The full version of a package: `[epoch:]version-release`. The hyphen is the field's own
/// separator, which is why a version may not contain one.
pub fn pkgver(version: &str, release: &str, epoch: Option<u32>) -> (s: String)
    ensures
        s@ == pkgver_of(version@, release@, epoch),
{
    match epoch {
        Some(n) => {
            let mut s = decimal_text(n as u64);
            s.append(":");
            s.append(version);
            s.append("-");
            s.append(release);
            s
        },
        None => {
            let mut s = version.to_owned();
            s.append("-");
            s.append(release);
            s
        },
    }
}

/// The bytes of the regular files.
pub open spec fn payload_bytes(files: Seq<PlannedFileView>) -> nat
    decreases files.len(),
{
    if files.len() == 0 {
        0
    } else {
        payload_bytes(files.drop_last()) + (if files.last().kind is Regular {
            files.last().content.length()
        } else {
            0
        })
    }
}

/// One field.
pub open spec fn entry_line(key: Seq<char>, value: Seq<char>) -> Seq<char> {
    key + " = "@ + value
}

/// The fields that name a value of a list, in order.
pub open spec fn repeated(key: Seq<char>, values: Seq<Seq<char>>) -> Seq<(Seq<char>, Seq<char>)> {
    values.map_values(|v: Seq<char>| (key, v))
}

pub open spec fn optional(key: Seq<char>, value: Option<Seq<char>>) -> Seq<(Seq<char>, Seq<char>)> {
    match value {
        Some(v) => seq![(key, v)],
        None => Seq::empty(),
    }
}

/// The configuration files, without their leading separators.
pub open spec fn backup_paths(p: BuildPlanView) -> Seq<Seq<char>> {
    config_entries(p.files).map_values(|f: PlannedFileView| relative(f.destination))
}

/// The fields of a package, in the order `makepkg` writes them.
pub open spec fn info_fields(p: BuildPlanView) -> Seq<(Seq<char>, Seq<char>)> {
    let id = p.identity;
    seq![
        ("pkgname"@, id.package_name),
        ("pkgbase"@, id.package_name),
        ("xdata"@, "pkgtype=pkg"@),
        ("pkgver"@, pkgver_of(id.version_rpm, id.release_rpm, id.epoch)),
        ("pkgdesc"@, id.description.synopsis),
    ] + optional("url"@, id.homepage) + seq![
        ("builddate"@, decimal(p.timestamp as nat)),
        ("packager"@, id.maintainer),
        ("size"@, decimal(payload_bytes(p.files))),
        ("arch"@, id.architecture.arch_linux_spelling()),
    ] + optional("license"@, id.license) + repeated(
        "depend"@,
        named_dependencies(id.dependencies),
    ) + repeated("backup"@, backup_paths(p))
}

pub open spec fn field_lines(fields: Seq<(Seq<char>, Seq<char>)>) -> Seq<Seq<char>> {
    fields.map_values(|f: (Seq<char>, Seq<char>)| entry_line(f.0, f.1))
}

/// The lines of `.PKGINFO`: what generated it, then the fields.
pub open spec fn info_lines(p: BuildPlanView, generator: Seq<char>) -> Seq<Seq<char>> {
    seq!["# Generated by "@ + generator] + field_lines(info_fields(p))
}

/// Adds a field.
fn add_entry(out: &mut Vec<String>, key: &str, value: &str)
    ensures
        views(final(out)@) == views(old(out)@).push(entry_line(key@, value@)),
{
    let mut line = key.to_owned();
    line.append(" = ");
    line.append(value);
    proof {
        views_push(out@, line);
    }
    out.push(line);
}

/// Adds a field where there is a value.
fn add_optional(out: &mut Vec<String>, key: &str, value: &Option<String>)
    ensures
        views(final(out)@) == views(old(out)@) + field_lines(
            optional(key@, crate::error::opt(*value)),
        ),
{
    match value {
        Some(text) => {
            add_entry(out, key, text.as_str());
        },
        None => {},
    }
    assert(views(out@) =~= views(old(out)@) + field_lines(
        optional(key@, crate::error::opt(*value)),
    ));
}

/// Adds a field for every value of a list.
fn add_repeated(out: &mut Vec<String>, key: &str, values: &Vec<String>)
    ensures
        views(final(out)@) == views(old(out)@) + field_lines(repeated(key@, views(values@))),
{
    let ghost before = views(out@);
    let ghost all = field_lines(repeated(key@, views(values@)));
    let mut i: usize = 0;
    assert(views(out@) =~= before + all.take(0));
    while i < values.len()
        invariant
            i <= values@.len(),
            all == field_lines(repeated(key@, views(values@))),
            views(out@) == before + all.take(i as int),
        decreases values@.len() - i,
    {
        add_entry(out, key, values[i].as_str());
        proof {
            assert(all[i as int] == entry_line(key@, values@[i as int]@));
            assert(before + all.take(i + 1) =~= (before + all.take(i as int)).push(all[i as int]));
        }
        i = i + 1;
    }
    assert(all.take(i as int) =~= all);
}

/// The bytes of the regular files. No count of files reaches what their lengths would need to
/// overflow.
fn installed_bytes(plan: &BuildPlan) -> (n: u128)
    ensures
        n == payload_bytes(plan@.files),
{
    let ghost files = plan@.files;
    let count: usize = plan.files.len();
    let mut n: u128 = 0;
    let mut i: usize = 0;
    assert(files.take(0) =~= Seq::empty());
    while i < count
        invariant
            i <= count,
            count == plan.files@.len(),
            files == plan@.files,
            n == payload_bytes(files.take(i as int)),
            n <= i * 0xffff_ffff_ffff_ffff,
        decreases count - i,
    {
        let file = &plan.files[i];
        proof {
            assert(files.take(i + 1).drop_last() =~= files.take(i as int));
            assert(files.take(i + 1).last() == file@);
            assert(i * 0xffff_ffff_ffff_ffff <= 0xffff_ffff_ffff_ffff * 0xffff_ffff_ffff_ffff)
                by (nonlinear_arith)
                requires
                    i <= 0xffff_ffff_ffff_ffff,
            ;
            assert((i + 1) * 0xffff_ffff_ffff_ffff == i * 0xffff_ffff_ffff_ffff
                + 0xffff_ffff_ffff_ffff) by (nonlinear_arith);
        }
        if file.is_regular() {
            n = n + file.content.len() as u128;
        }
        i = i + 1;
    }
    assert(files.take(i as int) =~= files);
    n
}

fn backups(plan: &BuildPlan) -> (r: Vec<String>)
    ensures
        views(r@) == backup_paths(plan@),
{
    let config = plan.config_files();
    let ghost all = backup_paths(plan@);
    let mut r: Vec<String> = Vec::new();
    let mut i: usize = 0;
    assert(views(r@) =~= all.take(0));
    while i < config.len()
        invariant
            i <= config@.len(),
            views(config@) == config_entries(plan@.files),
            all == backup_paths(plan@),
            views(r@) == all.take(i as int),
        decreases config@.len() - i,
    {
        let path = config[i].destination.relative_str().to_owned();
        proof {
            assert(config_entries(plan@.files)[i as int] == config@[i as int]@);
            assert(path@ == all[i as int]);
            views_push(r@, path);
            assert(all.take(i + 1) =~= all.take(i as int).push(path@));
        }
        r.push(path);
        i = i + 1;
    }
    assert(all.take(i as int) =~= all);
    r
}

/// Renders `.PKGINFO`.
pub fn render(plan: &BuildPlan, generator: &str) -> (s: String)
    ensures
        s@ == unlines(info_lines(plan@, generator@)),
{
    let identity = &plan.identity;
    let mut out: Vec<String> = Vec::new();
    let mut first = "# Generated by ".to_owned();
    first.append(generator);
    proof {
        views_push(out@, first);
        assert(views(out@) =~= Seq::empty());
    }
    out.push(first);
    add_entry(&mut out, "pkgname", identity.package_name.as_str());
    add_entry(&mut out, "pkgbase", identity.package_name.as_str());
    add_entry(&mut out, "xdata", "pkgtype=pkg");
    let version = pkgver(
        identity.version_rpm.as_str(),
        identity.release_rpm.as_str(),
        identity.epoch,
    );
    add_entry(&mut out, "pkgver", version.as_str());
    add_entry(&mut out, "pkgdesc", identity.description.synopsis.as_str());
    add_optional(&mut out, "url", &identity.homepage);
    add_entry(&mut out, "builddate", decimal_text(plan.timestamp.as_secs()).as_str());
    add_entry(&mut out, "packager", identity.maintainer.as_str());
    add_entry(&mut out, "size", decimal_wide(installed_bytes(plan)).as_str());
    add_entry(&mut out, "arch", identity.architecture.arch_linux());
    add_optional(&mut out, "license", &identity.license);
    let depends = match &identity.dependencies {
        Some(text) => dependency_names(Some(text.as_str())),
        None => dependency_names(None),
    };
    add_repeated(&mut out, "depend", &depends);
    add_repeated(&mut out, "backup", &backups(plan));
    assert(views(out@) =~= info_lines(plan@, generator@));
    end_lines(&out)
}

/// The values of the lines that give `key` one, in order.
pub open spec fn values_in(lines: Seq<Seq<char>>, key: Seq<char>) -> Seq<Seq<char>>
    decreases lines.len(),
{
    if lines.len() == 0 {
        Seq::empty()
    } else {
        let before = values_in(lines.drop_last(), key);
        match split_first(lines.last(), " = "@) {
            Some(pair) => if pair.0 == key {
                before.push(pair.1)
            } else {
                before
            },
            None => before,
        }
    }
}

/// Every value a rendered `.PKGINFO` gives a key, in order.
pub fn values(text: &str, key: &str) -> (r: Vec<String>)
    ensures
        views(r@) == values_in(lines_of(text@), key@),
{
    let all = lines(text);
    let ghost every = lines_of(text@);
    let mut r: Vec<String> = Vec::new();
    let mut i: usize = 0;
    assert(every.take(0) =~= Seq::empty());
    assert(views(r@) =~= Seq::empty());
    while i < all.len()
        invariant
            i <= all@.len(),
            views(all@) == every,
            views(r@) == values_in(every.take(i as int), key@),
        decreases all@.len() - i,
    {
        assert(every.take(i + 1).drop_last() =~= every.take(i as int));
        assert(every.take(i + 1).last() == all@[i as int]@);
        match split_once(all[i].as_str(), " = ") {
            Some((name, value)) => {
                if same(name.as_str(), key) {
                    proof {
                        views_push(r@, value);
                    }
                    r.push(value);
                }
            },
            None => {},
        }
        i = i + 1;
    }
    assert(every.take(i as int) =~= every);
    r
}

// ---- reading back ---------------------------------------------------------------------------

/// The values some fields give a key, in order.
pub open spec fn given(fields: Seq<(Seq<char>, Seq<char>)>, key: Seq<char>) -> Seq<Seq<char>>
    decreases fields.len(),
{
    if fields.len() == 0 {
        Seq::empty()
    } else if fields.last().0 == key {
        given(fields.drop_last(), key).push(fields.last().1)
    } else {
        given(fields.drop_last(), key)
    }
}

spec fn plain_key(key: Seq<char>) -> bool {
    !key.contains(' ') && clean_line(key)
}

proof fn field_line_reads(key: Seq<char>, value: Seq<char>)
    requires
        plain_key(key),
    ensures
        split_first(entry_line(key, value), " = "@) == Some((key, value)),
        clean_line(value) ==> clean_line(entry_line(key, value)),
{
    reveal_strlit(" = ");
    split_first_keyed(key, " = "@, value);
    let line = entry_line(key, value);
    if clean_line(value) {
        assert forall|j: int| 0 <= j < line.len() implies line[j] != '\n' by {
            if j < key.len() {
                assert(key.contains(line[j]));
            } else if j >= key.len() + 3 {
                assert(value.contains(line[j]));
            }
        }
        if value.len() > 0 {
            assert(line.last() == value.last());
        } else {
            assert(line.last() == ' ');
        }
    }
}

proof fn field_lines_read(
    head: Seq<Seq<char>>,
    fields: Seq<(Seq<char>, Seq<char>)>,
    key: Seq<char>,
)
    requires
        forall|i: int| 0 <= i < fields.len() ==> plain_key((#[trigger] fields[i]).0),
        values_in(head, key) == Seq::<Seq<char>>::empty(),
    ensures
        values_in(head + field_lines(fields), key) == given(fields, key),
    decreases fields.len(),
{
    let all = head + field_lines(fields);
    if fields.len() == 0 {
        assert(all =~= head);
    } else {
        let init = fields.drop_last();
        assert(all.drop_last() =~= head + field_lines(init));
        assert forall|i: int| 0 <= i < init.len() implies plain_key((#[trigger] init[i]).0) by {
            assert(init[i] == fields[i]);
        }
        field_lines_read(head, init, key);
        let last = fields[fields.len() - 1];
        assert(plain_key(last.0));
        field_line_reads(last.0, last.1);
        assert(all.last() == entry_line(last.0, last.1));
    }
}

/// The values stand on one line each, and the comment cannot be taken for a field.
pub open spec fn one_line_fields(p: BuildPlanView, generator: Seq<char>) -> bool {
    &&& clean_line(generator)
    &&& split_first("# Generated by "@ + generator, " = "@) is None
    &&& forall|i: int|
        0 <= i < info_fields(p).len() ==> clean_line((#[trigger] info_fields(p)[i]).1)
}

proof fn info_keys_are_plain(p: BuildPlanView)
    ensures
        forall|i: int| 0 <= i < info_fields(p).len() ==> plain_key((#[trigger] info_fields(p)[i]).0),
{
    reveal_strlit("pkgname");
    reveal_strlit("pkgbase");
    reveal_strlit("xdata");
    reveal_strlit("pkgver");
    reveal_strlit("pkgdesc");
    reveal_strlit("url");
    reveal_strlit("builddate");
    reveal_strlit("packager");
    reveal_strlit("size");
    reveal_strlit("arch");
    reveal_strlit("license");
    reveal_strlit("depend");
    reveal_strlit("backup");
    assert(plain_key("pkgname"@));
    assert(plain_key("pkgbase"@));
    assert(plain_key("xdata"@));
    assert(plain_key("pkgver"@));
    assert(plain_key("pkgdesc"@));
    assert(plain_key("url"@));
    assert(plain_key("builddate"@));
    assert(plain_key("packager"@));
    assert(plain_key("size"@));
    assert(plain_key("arch"@));
    assert(plain_key("license"@));
    assert(plain_key("depend"@));
    assert(plain_key("backup"@));
}

/// Reading `.PKGINFO` gives every key the values that were written for it, in order.
pub proof fn information_reads_back(p: BuildPlanView, generator: Seq<char>, key: Seq<char>)
    requires
        one_line_fields(p, generator),
    ensures
        values_in(lines_of(unlines(info_lines(p, generator))), key) == given(info_fields(p), key),
{
    let lines = info_lines(p, generator);
    let fields = info_fields(p);
    info_keys_are_plain(p);
    let head = seq!["# Generated by "@ + generator];
    assert(values_in(head, key) =~= Seq::empty()) by {
        assert(head.drop_last() =~= Seq::empty());
        assert(values_in(head.drop_last(), key) =~= Seq::empty());
    }
    field_lines_read(head, fields, key);
    assert forall|i: int| 0 <= i < lines.len() implies clean_line(#[trigger] lines[i]) by {
        if i == 0 {
            reveal_strlit("# Generated by ");
            let line = lines[0];
            assert forall|j: int| 0 <= j < line.len() implies line[j] != '\n' by {
                if j >= 15 {
                    assert(generator.contains(line[j]));
                }
            }
            if generator.len() > 0 {
                assert(line.last() == generator.last());
            }
        } else {
            assert(clean_line(fields[i - 1].1) && plain_key(fields[i - 1].0));
            field_line_reads(fields[i - 1].0, fields[i - 1].1);
            assert(lines[i] == entry_line(fields[i - 1].0, fields[i - 1].1));
        }
    }
    lines_of_unlines(lines);
}

/// An Arch version is the version and its release, with the epoch in front where there is one.
pub proof fn versions_carry_their_release(version: Seq<char>, release: Seq<char>, epoch: u32)
    ensures
        pkgver_of(version, release, None) == version + "-"@ + release,
        pkgver_of(version, release, Some(epoch)) == decimal(epoch as nat) + ":"@ + version + "-"@
            + release,
{
}

/// The size of a payload is the length of its regular files, summed; links and directories have
/// none.
pub proof fn the_payload_is_its_files_summed(
    a: Seq<PlannedFileView>,
    b: Seq<PlannedFileView>,
    f: PlannedFileView,
)
    ensures
        payload_bytes(Seq::empty()) == 0,
        payload_bytes(seq![f]) == (if f.kind is Regular {
            f.content.length()
        } else {
            0
        }),
        payload_bytes(a + b) == payload_bytes(a) + payload_bytes(b),
    decreases b.len(),
{
    assert(seq![f].drop_last() =~= Seq::empty());
    assert(payload_bytes(seq![f].drop_last()) == 0);
    if b.len() == 0 {
        assert(a + b =~= a);
    } else {
        the_payload_is_its_files_summed(a, b.drop_last(), f);
        assert((a + b).drop_last() =~= a + b.drop_last());
        assert((a + b).last() == b.last());
    }
}

proof fn given_in_both(
    a: Seq<(Seq<char>, Seq<char>)>,
    b: Seq<(Seq<char>, Seq<char>)>,
    key: Seq<char>,
)
    ensures
        given(a + b, key) == given(a, key) + given(b, key),
    decreases b.len(),
{
    if b.len() == 0 {
        assert(a + b =~= a);
        assert(given(a, key) + given(b, key) =~= given(a, key));
    } else {
        let init = b.drop_last();
        given_in_both(a, init, key);
        assert((a + b).drop_last() =~= a + init);
        assert((a + b).last() == b.last());
        assert((given(a, key) + given(init, key)).push(b.last().1) =~= given(a, key) + given(
            init,
            key,
        ).push(b.last().1));
    }
}

proof fn given_one(name: Seq<char>, value: Seq<char>, key: Seq<char>)
    ensures
        given(seq![(name, value)], key) == (if name == key {
            seq![value]
        } else {
            Seq::empty()
        }),
{
    let one = seq![(name, value)];
    assert(one.drop_last() =~= Seq::empty());
    assert(given(one.drop_last(), key) =~= Seq::empty());
    assert(given(one, key) =~= (if name == key {
        seq![value]
    } else {
        Seq::empty()
    }));
}

proof fn given_repeated(name: Seq<char>, values: Seq<Seq<char>>, key: Seq<char>)
    ensures
        given(repeated(name, values), key) == (if name == key {
            values
        } else {
            Seq::empty()
        }),
    decreases values.len(),
{
    let all = repeated(name, values);
    if values.len() == 0 {
        assert(given(all, key) =~= Seq::empty());
        assert(values =~= Seq::empty());
    } else {
        given_repeated(name, values.drop_last(), key);
        assert(all.drop_last() =~= repeated(name, values.drop_last()));
        assert(all.last() == (name, values.last()));
        assert(values.drop_last().push(values.last()) =~= values);
    }
}

/// The fields under a key, part by part.
proof fn given_part_by_part(p: BuildPlanView, key: Seq<char>)
    ensures
        ({
            let id = p.identity;
            let none = Seq::<Seq<char>>::empty();
            given(info_fields(p), key) == (if key == "pkgname"@ {
                seq![id.package_name]
            } else {
                none
            }) + (if key == "pkgbase"@ {
                seq![id.package_name]
            } else {
                none
            }) + (if key == "xdata"@ {
                seq!["pkgtype=pkg"@]
            } else {
                none
            }) + (if key == "pkgver"@ {
                seq![pkgver_of(id.version_rpm, id.release_rpm, id.epoch)]
            } else {
                none
            }) + (if key == "pkgdesc"@ {
                seq![id.description.synopsis]
            } else {
                none
            }) + (if key == "url"@ && id.homepage is Some {
                seq![id.homepage->0]
            } else {
                none
            }) + (if key == "builddate"@ {
                seq![decimal(p.timestamp as nat)]
            } else {
                none
            }) + (if key == "packager"@ {
                seq![id.maintainer]
            } else {
                none
            }) + (if key == "size"@ {
                seq![decimal(payload_bytes(p.files))]
            } else {
                none
            }) + (if key == "arch"@ {
                seq![id.architecture.arch_linux_spelling()]
            } else {
                none
            }) + (if key == "license"@ && id.license is Some {
                seq![id.license->0]
            } else {
                none
            }) + (if key == "depend"@ {
                named_dependencies(id.dependencies)
            } else {
                none
            }) + (if key == "backup"@ {
                backup_paths(p)
            } else {
                none
            })
        }),
{
    let id = p.identity;
    let a = seq![("pkgname"@, id.package_name)];
    let b = seq![("pkgbase"@, id.package_name)];
    let c = seq![("xdata"@, "pkgtype=pkg"@)];
    let d = seq![("pkgver"@, pkgver_of(id.version_rpm, id.release_rpm, id.epoch))];
    let e = seq![("pkgdesc"@, id.description.synopsis)];
    let f = optional("url"@, id.homepage);
    let g = seq![("builddate"@, decimal(p.timestamp as nat))];
    let h = seq![("packager"@, id.maintainer)];
    let i = seq![("size"@, decimal(payload_bytes(p.files)))];
    let j = seq![("arch"@, id.architecture.arch_linux_spelling())];
    let k = optional("license"@, id.license);
    let l = repeated("depend"@, named_dependencies(id.dependencies));
    let m = repeated("backup"@, backup_paths(p));
    let all = a + b + c + d + e + f + g + h + i + j + k + l + m;
    assert(info_fields(p) =~= all);
    given_in_both(a + b + c + d + e + f + g + h + i + j + k + l, m, key);
    given_in_both(a + b + c + d + e + f + g + h + i + j + k, l, key);
    given_in_both(a + b + c + d + e + f + g + h + i + j, k, key);
    given_in_both(a + b + c + d + e + f + g + h + i, j, key);
    given_in_both(a + b + c + d + e + f + g + h, i, key);
    given_in_both(a + b + c + d + e + f + g, h, key);
    given_in_both(a + b + c + d + e + f, g, key);
    given_in_both(a + b + c + d + e, f, key);
    given_in_both(a + b + c + d, e, key);
    given_in_both(a + b + c, d, key);
    given_in_both(a + b, c, key);
    given_in_both(a, b, key);
    given_one("pkgname"@, id.package_name, key);
    given_one("pkgbase"@, id.package_name, key);
    given_one("xdata"@, "pkgtype=pkg"@, key);
    given_one("pkgver"@, pkgver_of(id.version_rpm, id.release_rpm, id.epoch), key);
    given_one("pkgdesc"@, id.description.synopsis, key);
    given_one("builddate"@, decimal(p.timestamp as nat), key);
    given_one("packager"@, id.maintainer, key);
    given_one("size"@, decimal(payload_bytes(p.files)), key);
    given_one("arch"@, id.architecture.arch_linux_spelling(), key);
    given_repeated("depend"@, named_dependencies(id.dependencies), key);
    given_repeated("backup"@, backup_paths(p), key);
    if id.homepage is Some {
        given_one("url"@, id.homepage->0, key);
    }
    if id.license is Some {
        given_one("license"@, id.license->0, key);
    }
}

/// Each field says what it is named after, once, and those that may be left out are there where
/// the package has them.
#[verifier::spinoff_prover]
pub proof fn each_field_says_what_it_is_named_after(p: BuildPlanView)
    ensures
        ({
            let id = p.identity;
            let fields = info_fields(p);
            &&& given(fields, "pkgname"@) == seq![id.package_name]
            &&& given(fields, "pkgbase"@) == seq![id.package_name]
            &&& given(fields, "xdata"@) == seq!["pkgtype=pkg"@]
            &&& given(fields, "pkgver"@) == seq![
                pkgver_of(id.version_rpm, id.release_rpm, id.epoch),
            ]
            &&& given(fields, "pkgdesc"@) == seq![id.description.synopsis]
            &&& given(fields, "url"@) == (match id.homepage {
                Some(v) => seq![v],
                None => Seq::empty(),
            })
            &&& given(fields, "builddate"@) == seq![decimal(p.timestamp as nat)]
            &&& given(fields, "packager"@) == seq![id.maintainer]
            &&& given(fields, "size"@) == seq![decimal(payload_bytes(p.files))]
            &&& given(fields, "arch"@) == seq![id.architecture.arch_linux_spelling()]
            &&& given(fields, "license"@) == (match id.license {
                Some(v) => seq![v],
                None => Seq::empty(),
            })
            &&& given(fields, "depend"@) == named_dependencies(id.dependencies)
            &&& given(fields, "backup"@) == backup_paths(p)
        }),
{
    reveal_strlit("pkgname");
    reveal_strlit("pkgbase");
    reveal_strlit("xdata");
    reveal_strlit("pkgver");
    reveal_strlit("pkgdesc");
    reveal_strlit("url");
    reveal_strlit("builddate");
    reveal_strlit("packager");
    reveal_strlit("size");
    reveal_strlit("arch");
    reveal_strlit("license");
    reveal_strlit("depend");
    reveal_strlit("backup");
    assert("pkgname"@.len() == 7 && "pkgname"@[3] == 'n');
    assert("pkgbase"@.len() == 7 && "pkgbase"@[3] == 'b');
    assert("pkgdesc"@.len() == 7 && "pkgdesc"@[3] == 'd');
    assert("license"@.len() == 7 && "license"@[3] == 'e');
    assert("xdata"@.len() == 5);
    assert("pkgver"@.len() == 6 && "pkgver"@[0] == 'p');
    assert("depend"@.len() == 6 && "depend"@[0] == 'd');
    assert("backup"@.len() == 6 && "backup"@[0] == 'b');
    assert("url"@.len() == 3);
    assert("builddate"@.len() == 9);
    assert("packager"@.len() == 8);
    assert("size"@.len() == 4 && "size"@[0] == 's');
    assert("arch"@.len() == 4 && "arch"@[0] == 'a');
    given_part_by_part(p, "pkgname"@);
    given_part_by_part(p, "pkgbase"@);
    given_part_by_part(p, "xdata"@);
    given_part_by_part(p, "pkgver"@);
    given_part_by_part(p, "pkgdesc"@);
    given_part_by_part(p, "url"@);
    given_part_by_part(p, "builddate"@);
    given_part_by_part(p, "packager"@);
    given_part_by_part(p, "size"@);
    given_part_by_part(p, "arch"@);
    given_part_by_part(p, "license"@);
    given_part_by_part(p, "depend"@);
    given_part_by_part(p, "backup"@);
    let none = Seq::<Seq<char>>::empty();
    assert(none + none =~= none);
    assert forall|s: Seq<Seq<char>>| #[trigger] (none + s) == s by {
        assert(none + s =~= s);
    }
    assert forall|s: Seq<Seq<char>>| #[trigger] (s + none) == s by {
        assert(s + none =~= s);
    }
}

/// A package lists each of its configuration files for backup, by the path it has in the archive.
pub proof fn every_configuration_file_is_backed_up(p: BuildPlanView, f: PlannedFileView)
    requires
        p.files.contains(f),
        f.is_config,
    ensures
        backup_paths(p).contains(f.destination.skip(1)),
{
    configuration_files_are_the_marked_ones(p.files, Seq::empty(), f);
    let i = config_entries(p.files).index_of(f);
    assert(backup_paths(p)[i] == f.destination.skip(1));
}

} // verus!
