//! What reading a package gives back of the plan it was built from.

use vstd::prelude::*;
use vstd::utf8::{
    decode_utf8, encode_utf8, encode_utf8_decode_utf8, encode_utf8_valid_utf8,
    is_ascii_chars_encode_utf8, valid_utf8,
};

use crate::chars::{control as control_char, whitespace};
use crate::container::{
    ar_step, plain_member, plain_name, step_readable, steps_of, ArStepView,
};
use crate::deb::archive::{
    control_added, control_member, data_members, md5_digest, ControlMemberView,
};
use crate::deb::compression::Compression;
use crate::deb::control::{
    control_lines, depends_value, description_lines, field, folded, head_lines, DEFAULT_PRIORITY,
    DEFAULT_SECTION,
};
use crate::deb::error::ErrorView;
use crate::deb::read::{
    compressor_for, control_entry, control_fields, control_from, field_step, fields_after, flushed,
    control_read, data_entry, data_from, empty_package, listed_path, md5_entries, package_read,
    members_from, sorted_texts, without_dots, EntryKind, EntryView, FieldsView, PackageView,
};
use crate::deb::{
    conffiles_text, control_members, md5_lines, package_members, stored, text_member,
    MaintainerScriptView, OptionsView,
};
use crate::destination::{
    destination_form, normal_part, one_component, parts_of,
};
use crate::digits::{decimal, digit_char, hex_bytes};
use crate::packing::bytes_of;
use crate::payload::{
    entries_added, entries_added_exactly, entry_member, entry_paths_are_plain, packaged_bytes,
    readable_entry, relative, MEMBER_PREFIX,
};
use crate::plan::{
    config_entries, dests, size_kib, BuildPlanView, EntryKindView, PlannedFile, PlannedFileView,
};
use crate::strings::{
    ascending, begins_with, clean_line, less, less_irreflexive, lines_of, lines_of_unlines, listed,
    lists, split_at_char, split_first_keyed, split_prefix, split_step, stripped_end, stripped_start,
    trimmed, trimmed_end, unlines, without_cr,
};
use crate::tarball::{
    faithful, member_path, reads_as, reads_back, tar_content, tar_header, tar_image,
};

verus! {

type Read = Map<Seq<char>, core::result::Result<Seq<u8>, Seq<char>>>;

// ---- paths ------------------------------------------------------------------------------

/// A destination without its leading separator neither begins with `./` nor ends with `/`.
proof fn relative_is_plain(d: Seq<char>)
    requires
        destination_form(d),
    ensures
        relative(d).len() > 0,
        relative(d).last() != '/',
        without_dots(relative(d)) == relative(d),
        without_dots(relative(d) + "/"@) == relative(d) + "/"@,
        d == "/"@ + relative(d),
{
    reveal_strlit("/");
    reveal_strlit(".");
    let rel = relative(d);
    let parts = parts_of(d);
    let all = split_at_char(d, '/');
    assert(parts.len() > 0);
    assert(normal_part(parts[parts.len() - 1]));
    assert(parts.last() == all.last());
    if d.last() == '/' {
        assert(all.last().len() == 0);
    }
    assert(d =~= "/"@ + rel);
    if rel.len() >= 2 && rel[0] == '.' && rel[1] == '/' {
        let head = seq!['/', '.'];
        assert(d =~= head.push('/') + d.skip(3));
        split_prefix(head, d.skip(3), '/');
        first_dot();
        assert(all[1] == seq!['.']);
        assert(parts[0] == all[1]);
        assert(normal_part(parts[0]));
        assert("."@ =~= seq!['.']);
    }
    if rel.len() == 1 && rel[0] == '.' {
        assert(d =~= seq!['/', '.']);
        first_dot();
        assert(parts[0] == seq!['.']);
        assert(normal_part(parts[0]));
        assert("."@ =~= seq!['.']);
    }
}

proof fn first_dot()
    ensures
        split_at_char(seq!['/', '.'], '/') == seq![Seq::<char>::empty(), seq!['.']],
{
    let s0 = Seq::<char>::empty();
    split_step(s0, '/', '/');
    split_step(s0.push('/'), '.', '/');
    assert(s0.push('/').push('.') =~= seq!['/', '.']);
    assert(split_at_char(seq!['/', '.'], '/') =~= seq![Seq::<char>::empty(), seq!['.']]);
}

/// A member path reads as the destination it was made from.
proof fn paths_read_back(d: Seq<char>, path: Seq<char>, read: Seq<char>)
    requires
        destination_form(d),
        path == "."@ + d || path == "."@ + d + "/"@,
        read == path || "./"@ + read == path,
    ensures
        listed_path(read) == relative(d),
        path == "."@ + d ==> without_dots(read) == relative(d),
{
    reveal_strlit("/");
    reveal_strlit(".");
    reveal_strlit("./");
    relative_is_plain(d);
    let rel = relative(d);
    let tail = if path == "."@ + d {
        rel
    } else {
        rel + "/"@
    };
    assert(path =~= "./"@ + tail);
    assert(without_dots(tail) == tail);
    if read == path {
        assert(read.skip(2) =~= tail);
        assert(read[0] == '.' && read[1] == '/');
        assert(without_dots(read) == tail);
    } else {
        assert(read =~= path.skip(2));
        assert(path.skip(2) =~= tail);
        assert(without_dots(read) == tail);
    }
    assert(stripped_end(rel, '/') == rel);
    assert((rel + "/"@).drop_last() =~= rel);
    assert((rel + "/"@).last() == '/');
    assert(stripped_end(rel + "/"@, '/') == rel);
}

// ---- the control tarball --------------------------------------------------------------------

/// A control member that is read back: its name is one path component or more, its mode fits,
/// its bytes are text.
pub open spec fn readable_control(m: ControlMemberView) -> bool {
    &&& destination_form("/"@ + m.name)
    &&& m.mode < 0o10000000
    &&& valid_utf8(m.bytes)
}

/// What the first `n` control members add to a package.
pub open spec fn controls_applied(members: Seq<ControlMemberView>, n: int, p: PackageView) -> PackageView
    decreases n,
{
    if n <= 0 {
        p
    } else {
        control_entry(
            controls_applied(members, n - 1, p),
            members[n - 1].name,
            decode_utf8(members[n - 1].bytes),
        )
    }
}

proof fn control_added_exactly(members: Seq<ControlMemberView>, mtime: u64)
    requires
        control_added(members, mtime) is Ok,
    ensures
        control_added(members, mtime)->Ok_0.len() == members.len(),
        forall|k: int|
            0 <= k < members.len() ==> #[trigger] control_added(members, mtime)->Ok_0[k]
                == control_member(members[k], mtime),
    decreases members.len(),
{
    if members.len() > 0 {
        control_added_exactly(members.drop_last(), mtime);
        let before = control_added(members.drop_last(), mtime)->Ok_0;
        assert forall|k: int| 0 <= k < members.len() implies #[trigger] control_added(
            members,
            mtime,
        )->Ok_0[k] == control_member(members[k], mtime) by {
            if k < members.len() - 1 {
                assert(before[k] == control_member(members.drop_last()[k], mtime));
            }
        }
    }
}

proof fn control_reads(
    image: Seq<u8>,
    members: Seq<ControlMemberView>,
    mtime: u64,
    i: int,
    p: PackageView,
)
    requires
        control_added(members, mtime) is Ok,
        reads_back(control_added(members, mtime)->Ok_0, image),
        forall|k: int| 0 <= k < members.len() ==> readable_control(#[trigger] members[k]),
        0 <= i <= members.len(),
    ensures
        control_from(image, i as nat, controls_applied(members, i, p)) == Ok::<
            PackageView,
            ErrorView,
        >(controls_applied(members, members.len() as int, p)),
    decreases members.len() - i,
{
    control_added_exactly(members, mtime);
    let written = control_added(members, mtime)->Ok_0;
    if i < members.len() {
        let m = members[i];
        assert(readable_control(m));
        assert(written[i] == control_member(m, mtime));
        let path = MEMBER_PREFIX@ + m.name;
        assert(path == "."@ + ("/"@ + m.name)) by {
            reveal_strlit("./");
            reveal_strlit(".");
            reveal_strlit("/");
            assert(path =~= "."@ + ("/"@ + m.name));
        }
        assert(member_path(path));
        assert(faithful(written[i]));
        let h = tar_header(image, i as nat)->0->0;
        assert(reads_as(written[i], h));
        paths_read_back("/"@ + m.name, path, h.path);
        assert(relative("/"@ + m.name) =~= m.name) by {
            reveal_strlit("/");
        }
        assert(tar_content(image, i as nat) == Some(written[i].bytes));
        control_reads(image, members, mtime, i + 1, p);
    }
}

// ---- the data tarball -----------------------------------------------------------------------

/// What reading gives back of an entry.
pub open spec fn entry_back(file: PlannedFileView, sources: Read, mtime: u64) -> EntryView {
    let bytes = packaged_bytes(file, sources);
    EntryView {
        kind: match file.kind {
            EntryKindView::Regular => EntryKind::Regular,
            EntryKindView::Directory => EntryKind::Directory,
            EntryKindView::Symlink { target } => EntryKind::Symlink,
        },
        mode: match file.kind {
            EntryKindView::Symlink { target } => PlannedFile::MODE_SYMLINK,
            _ => file.mode,
        },
        mtime,
        uid: 0,
        gid: 0,
        size: bytes.len() as u64,
        link_target: match file.kind {
            EntryKindView::Symlink { target } => Some(target),
            _ => None,
        },
        content: match file.kind {
            EntryKindView::Regular => Some(bytes),
            _ => None,
        },
    }
}

/// What the first `n` entries add to a package.
pub open spec fn data_applied(
    files: Seq<PlannedFileView>,
    sources: Read,
    mtime: u64,
    n: int,
    p: PackageView,
) -> PackageView
    decreases n,
{
    if n <= 0 {
        p
    } else {
        data_entry(
            data_applied(files, sources, mtime, n - 1, p),
            relative(files[n - 1].destination),
            entry_back(files[n - 1], sources, mtime),
        )
    }
}

proof fn data_reads(
    image: Seq<u8>,
    files: Seq<PlannedFileView>,
    sources: Read,
    mtime: u64,
    digest: spec_fn(Seq<u8>) -> Seq<u8>,
    i: int,
    p: PackageView,
)
    requires
        entries_added(files, sources, mtime, digest, files.len() as int) is Ok,
        reads_back(
            entries_added(files, sources, mtime, digest, files.len() as int)->Ok_0.0,
            image,
        ),
        forall|k: int| 0 <= k < files.len() ==> readable_entry(#[trigger] files[k]),
        0 <= i <= files.len(),
    ensures
        data_from(image, i as nat, data_applied(files, sources, mtime, i, p)) == Ok::<
            PackageView,
            ErrorView,
        >(data_applied(files, sources, mtime, files.len() as int, p)),
    decreases files.len() - i,
{
    let n = files.len() as int;
    entries_added_exactly(files, sources, mtime, digest, n);
    let written = entries_added(files, sources, mtime, digest, n)->Ok_0.0;
    if i < n {
        let file = files[i];
        assert(readable_entry(file));
        let m = entry_member(file, mtime, packaged_bytes(file, sources));
        assert(written[i] == m);
        entry_paths_are_plain(file, mtime, packaged_bytes(file, sources));
        let d = file.destination;
        assert(m.path == "."@ + d || m.path == "."@ + d + "/"@) by {
            reveal_strlit("./");
            reveal_strlit(".");
            reveal_strlit("/");
            assert(MEMBER_PREFIX@ + relative(d) =~= "."@ + d);
        }
        assert(faithful(written[i]));
        let h = tar_header(image, i as nat)->0->0;
        assert(reads_as(m, h));
        paths_read_back(d, m.path, h.path);
        assert(tar_content(image, i as nat) == Some(written[i].bytes));
        data_reads(image, files, sources, mtime, digest, i + 1, p);
    }
}


// ---- digests --------------------------------------------------------------------------------

/// Every character of a text stands in one of its pieces or separates two.
proof fn characters_are_in_pieces(s: Seq<char>, i: int)
    requires
        0 <= i < s.len(),
        forall|j: int|
            0 <= j < split_at_char(s, '/').len() ==> no_control(#[trigger] split_at_char(s, '/')[j]),
    ensures
        !control_char(s[i]),
    decreases s.len(),
{
    let init = s.drop_last();
    let last = s.last();
    split_step(init, last, '/');
    assert(init.push(last) =~= s);
    let all = split_at_char(s, '/');
    let before = split_at_char(init, '/');
    if i < init.len() {
        assert forall|j: int| 0 <= j < before.len() implies no_control(#[trigger] before[j]) by {
            assert(no_control(all[j]));
            if last != '/' && j == before.len() - 1 {
                assert(all[j] == before[j].push(last));
                assert forall|k: int| 0 <= k < before[j].len() implies !control_char(
                    #[trigger] before[j][k],
                ) by {
                    assert(all[j][k] == before[j][k]);
                }
            }
        }
        characters_are_in_pieces(init, i);
        assert(init[i] == s[i]);
    } else if last != '/' {
        let k = all.len() - 1;
        assert(no_control(all[k]));
        assert(all[k][all[k].len() - 1] == last);
    }
}

spec fn no_control(s: Seq<char>) -> bool {
    forall|i: int| 0 <= i < s.len() ==> !control_char(#[trigger] s[i])
}

/// A destination holds no control character.
proof fn destinations_are_one_line(d: Seq<char>)
    requires
        destination_form(d),
    ensures
        clean_line(d),
        clean_line(relative(d)),
        relative(d).len() > 0,
{
    relative_is_plain(d);
    let all = split_at_char(d, '/');
    assert forall|j: int| 0 <= j < all.len() implies no_control(#[trigger] all[j]) by {
        if j == 0 {
            reveal_strlit("/");
            split_step(Seq::empty(), '/', '/');
            assert(Seq::<char>::empty().push('/') =~= "/"@);
            assert(d =~= Seq::<char>::empty().push('/') + relative(d));
            split_prefix(Seq::empty(), relative(d), '/');
            assert(all[0].len() == 0);
        } else {
            assert(normal_part(parts_of(d)[j - 1]));
            assert(parts_of(d)[j - 1] == all[j]);
        }
    }
    assert forall|i: int| 0 <= i < d.len() implies !control_char(#[trigger] d[i]) by {
        characters_are_in_pieces(d, i);
    }
    let r = relative(d);
    assert forall|i: int| 0 <= i < r.len() implies !control_char(#[trigger] r[i]) by {
        assert(r[i] == d[i + 1]);
    }
}

/// A hexadecimal text holds digits and letters alone.
proof fn hex_is_one_word(bytes: Seq<u8>)
    ensures
        forall|i: int|
            0 <= i < hex_bytes(bytes).len() ==> #[trigger] hex_bytes(bytes)[i] != ' '
                && hex_bytes(bytes)[i] != '\n' && hex_bytes(bytes)[i] != '\r',
    decreases bytes.len(),
{
    if bytes.len() > 0 {
        let init = hex_bytes(bytes.drop_last());
        hex_is_one_word(bytes.drop_last());
        let high = bytes.last() as int / 16;
        let low = bytes.last() as int % 16;
        assert(0 <= high < 16 && 0 <= low < 16);
        let text = hex_bytes(bytes);
        assert(text == init.push(digit_char(high, 'a')).push(digit_char(low, 'a')));
        assert(digit_char(high, 'a') as int >= 48);
        assert(digit_char(low, 'a') as int >= 48);
        assert forall|i: int| 0 <= i < text.len() implies #[trigger] text[i] != ' ' && text[i]
            != '\n' && text[i] != '\r' by {
            if i < init.len() {
                assert(text[i] == init[i]);
            }
        }
    }
}

/// The paths of the regular files among the first `n`, without their leading separators.
spec fn regular_paths(files: Seq<PlannedFileView>, n: int) -> Seq<Seq<char>>
    decreases n,
{
    if n <= 0 {
        Seq::empty()
    } else if files[n - 1].kind is Regular {
        regular_paths(files, n - 1).push(relative(files[n - 1].destination))
    } else {
        regular_paths(files, n - 1)
    }
}

spec fn is_regular_path(files: Seq<PlannedFileView>, n: int, path: Seq<char>) -> bool {
    exists|k: int|
        0 <= k < n && (#[trigger] files[k]).kind is Regular && relative(files[k].destination)
            == path
}

/// The digests are those of the regular files, which are listed in order.
proof fn digests_exactly(
    files: Seq<PlannedFileView>,
    sources: Read,
    mtime: u64,
    digest: spec_fn(Seq<u8>) -> Seq<u8>,
    n: int,
)
    requires
        0 <= n <= files.len(),
        entries_added(files, sources, mtime, digest, n) is Ok,
        forall|k: int| 0 <= k < files.len() ==> readable_entry(#[trigger] files[k]),
        ascending(dests(files)),
    ensures
        lists(
            regular_paths(files, n),
            entries_added(files, sources, mtime, digest, n)->Ok_0.1.dom(),
        ),
        forall|i: int|
            0 <= i < regular_paths(files, n).len() ==> is_regular_path(
                files,
                n,
                #[trigger] regular_paths(files, n)[i],
            ),
        forall|path: Seq<char>| #[trigger]
            entries_added(files, sources, mtime, digest, n)->Ok_0.1.dom().contains(path) ==> exists|
                bytes: Seq<u8>,
            |
                entries_added(files, sources, mtime, digest, n)->Ok_0.1[path] == #[trigger] hex_bytes(
                    bytes,
                ),
    decreases n,
{
    if n > 0 {
        digests_exactly(files, sources, mtime, digest, n - 1);
        let before = entries_added(files, sources, mtime, digest, n - 1)->Ok_0.1;
        let now = entries_added(files, sources, mtime, digest, n)->Ok_0.1;
        let list = regular_paths(files, n - 1);
        let longer = regular_paths(files, n);
        let file = files[n - 1];
        let path = relative(file.destination);
        assert forall|i: int| 0 <= i < longer.len() implies is_regular_path(
            files,
            n,
            #[trigger] longer[i],
        ) by {
            if i < list.len() {
                assert(longer[i] == list[i]);
                assert(is_regular_path(files, n - 1, list[i]));
                let k = choose|k: int|
                    0 <= k < n - 1 && (#[trigger] files[k]).kind is Regular && relative(
                        files[k].destination,
                    ) == list[i];
                assert(files[k].kind is Regular);
            } else {
                assert(files[n - 1].kind is Regular);
            }
        }
        if file.kind is Regular {
            assert(longer == list.push(path));
            assert(now == before.insert(path, hex_bytes(digest(bytes_of(file, sources)->Ok_0))));
            assert forall|i: int, j: int| 0 <= i < j < longer.len() implies less(
                #[trigger] longer[i],
                #[trigger] longer[j],
            ) by {
                if j < list.len() {
                    assert(list[i] == longer[i] && list[j] == longer[j]);
                } else {
                    assert(longer[i] == list[i]);
                    assert(is_regular_path(files, n - 1, list[i]));
                    let k = choose|k: int|
                        0 <= k < n - 1 && (#[trigger] files[k]).kind is Regular && relative(
                            files[k].destination,
                        ) == list[i];
                    assert(less(dests(files)[k], dests(files)[n - 1]));
                    assert(readable_entry(files[k]));
                    assert(readable_entry(files[n - 1]));
                    assert(files[k].destination.drop_first() =~= list[i]);
                    assert(file.destination.drop_first() =~= path);
                }
            }
            assert forall|k: Seq<char>| #[trigger] longer.contains(k) <==> now.dom().contains(
                k,
            ) by {
                if longer.contains(k) {
                    let i = longer.index_of(k);
                    if i < list.len() {
                        assert(list[i] == k);
                        assert(list.contains(k));
                    }
                }
                if now.dom().contains(k) {
                    if k == path {
                        assert(longer[list.len() as int] == k);
                    } else {
                        assert(before.dom().contains(k));
                        assert(list.contains(k));
                        let i = list.index_of(k);
                        assert(longer[i] == k);
                    }
                }
            }
            assert forall|k: Seq<char>| #[trigger] now.dom().contains(k) implies exists|
                bytes: Seq<u8>,
            | now[k] == #[trigger] hex_bytes(bytes) by {
                if k != path {
                    assert(before.dom().contains(k));
                    let bytes = choose|bytes: Seq<u8>| before[k] == #[trigger] hex_bytes(bytes);
                    assert(now[k] == hex_bytes(bytes));
                }
            }
        }
    } else {
        assert(regular_paths(files, n) =~= Seq::empty());
    }
}

/// `got` is what `digests` says of the paths listed.
spec fn restricts(
    got: Map<Seq<char>, Seq<char>>,
    list: Seq<Seq<char>>,
    digests: Map<Seq<char>, Seq<char>>,
) -> bool {
    &&& forall|k: Seq<char>| list.contains(k) <==> #[trigger] got.dom().contains(k)
    &&& forall|k: Seq<char>| list.contains(k) ==> #[trigger] got[k] == digests[k]
}

/// Lines of one digest and one path each read back as the digests.
proof fn md5_lines_read(list: Seq<Seq<char>>, digests: Map<Seq<char>, Seq<char>>)
    requires
        forall|i: int|
            0 <= i < list.len() ==> !(#[trigger] digests[list[i]]).contains(' '),
    ensures
        restricts(
            md5_entries(list.map_values(|path: Seq<char>| digests[path] + "  "@ + path)),
            list,
            digests,
        ),
    decreases list.len(),
{
    let f = |path: Seq<char>| digests[path] + "  "@ + path;
    let lines = list.map_values(f);
    if list.len() > 0 {
        let init = list.drop_last();
        let last = list.last();
        assert(lines.drop_last() =~= init.map_values(f));
        assert(lines.last() == digests[last] + "  "@ + last);
        reveal_strlit("  ");
        assert(!digests[list[list.len() - 1]].contains(' '));
        split_first_keyed(digests[last], "  "@, last);
        assert forall|i: int| 0 <= i < init.len() implies !(#[trigger] digests[init[i]]).contains(
            ' ',
        ) by {
            assert(init[i] == list[i]);
            assert(!digests[list[i]].contains(' '));
        }
        md5_lines_read(init, digests);
        let fewer = md5_entries(init.map_values(f));
        assert(restricts(fewer, init, digests));
        let got = md5_entries(lines);
        assert(got == fewer.insert(last, digests[last]));
        assert forall|k: Seq<char>| list.contains(k) <==> #[trigger] got.dom().contains(k) by {
            if list.contains(k) && k != last {
                let i = list.index_of(k);
                assert(init[i] == k);
                assert(init.contains(k));
                assert(fewer.dom().contains(k));
            }
            if got.dom().contains(k) {
                if k == last {
                    assert(list[list.len() - 1] == k);
                } else {
                    assert(fewer.dom().contains(k));
                    assert(init.contains(k));
                    let i = init.index_of(k);
                    assert(list[i] == k);
                }
            }
        }
        assert forall|k: Seq<char>| list.contains(k) implies #[trigger] got[k] == digests[k] by {
            if k != last {
                let i = list.index_of(k);
                assert(init[i] == k);
                assert(init.contains(k));
                assert(fewer[k] == digests[k]);
            }
        }
    }
}

/// The digests written to `md5sums` are read back from it.
proof fn md5sums_read_back(
    files: Seq<PlannedFileView>,
    sources: Read,
    mtime: u64,
    digest: spec_fn(Seq<u8>) -> Seq<u8>,
)
    requires
        entries_added(files, sources, mtime, digest, files.len() as int) is Ok,
        forall|k: int| 0 <= k < files.len() ==> readable_entry(#[trigger] files[k]),
        ascending(dests(files)),
    ensures
        ({
            let digests = entries_added(files, sources, mtime, digest, files.len() as int)->Ok_0.1;
            md5_entries(lines_of(unlines(md5_lines(digests)))) == digests
        }),
{
    let n = files.len() as int;
    let digests = entries_added(files, sources, mtime, digest, n)->Ok_0.1;
    digests_exactly(files, sources, mtime, digest, n);
    let list = regular_paths(files, n);
    listed(list, digests.dom());
    let lines = md5_lines(digests);
    assert forall|i: int| 0 <= i < list.len() implies !(#[trigger] digests[list[i]]).contains(
        ' ',
    ) && clean_line(lines[i]) by {
        let path = list[i];
        assert(list.contains(path));
        assert(digests.dom().contains(path));
        let bytes = choose|bytes: Seq<u8>| digests[path] == #[trigger] hex_bytes(bytes);
        hex_is_one_word(bytes);
        assert(is_regular_path(files, n, path));
        let k = choose|k: int|
            0 <= k < n && (#[trigger] files[k]).kind is Regular && relative(files[k].destination)
                == path;
        assert(readable_entry(files[k]));
        destinations_are_one_line(files[k].destination);
        reveal_strlit("  ");
        assert(lines[i] == digests[path] + "  "@ + path);
        assert(lines[i].last() == path.last());
        assert forall|j: int| 0 <= j < lines[i].len() implies lines[i][j] != '\n' by {
            let d = digests[path].len();
            if j >= d + 2 {
                assert(lines[i][j] == path[j - d - 2]);
                assert(path.contains(path[j - d - 2]));
            }
        }
    }
    assert forall|i: int| 0 <= i < lines.len() implies clean_line(#[trigger] lines[i]) by {
        assert(!digests[list[i]].contains(' '));
    }
    lines_of_unlines(lines);
    md5_lines_read(list, digests);
    let got = md5_entries(lines);
    assert(got =~= digests) by {
        assert forall|k: Seq<char>| got.dom().contains(k) == digests.dom().contains(k) by {
            assert(list.contains(k) <==> digests.dom().contains(k));
        }
    }
}


// ---- a whole package ------------------------------------------------------------------------

/// Options that are read back: each script names one path of its own other than those of the
/// other control members, and the scripts and triggers are text.
pub open spec fn readable_options(options: OptionsView) -> bool {
    &&& forall|k: int|
        0 <= k < options.maintainer_scripts.len() ==> readable_script(
            #[trigger] options.maintainer_scripts[k],
        )
    &&& options.triggers matches Some(bytes) ==> valid_utf8(bytes)
}

pub open spec fn readable_script(s: MaintainerScriptView) -> bool {
    &&& destination_form("/"@ + s.name)
    &&& s.name != "control"@
    &&& s.name != "md5sums"@
    &&& s.name != "conffiles"@
    &&& valid_utf8(s.bytes)
}

/// The control members beside the control file, the digests and the list of configuration
/// files.
pub open spec fn extra_members(options: OptionsView) -> Seq<ControlMemberView> {
    options.maintainer_scripts.map_values(
        |s: MaintainerScriptView| ControlMemberView { name: s.name, bytes: s.bytes, mode: 0o755 },
    ) + (match options.triggers {
        Some(bytes) => seq![ControlMemberView { name: "triggers"@, bytes, mode: 0o644 }],
        None => Seq::empty(),
    })
}

/// A package whose container fields are wide enough: the time, and the sizes of the two
/// compressed tarballs.
pub open spec fn fits_container(p: BuildPlanView, options: OptionsView, sources: Read) -> bool {
    let members = package_members(p, options, sources)->Ok_0;
    &&& p.timestamp < 1_000_000_000_000
    &&& members[1].bytes.len() < 10_000_000_000
    &&& members[2].bytes.len() < 10_000_000_000
}

spec fn is_extra(m: ControlMemberView) -> bool {
    m.name != "control"@ && m.name != "md5sums"@ && m.name != "conffiles"@
}

/// The extra members add themselves to the scripts and nothing else.
proof fn extras_applied(members: Seq<ControlMemberView>, from: int, n: int, p: PackageView)
    requires
        0 <= from <= n <= members.len(),
        forall|k: int| from <= k < n ==> is_extra(#[trigger] members[k]),
    ensures
        ({
            let base = controls_applied(members, from, p);
            let done = controls_applied(members, n, p);
            &&& done.scripts == base.scripts + members.subrange(from, n).map_values(
                |m: ControlMemberView| m.name,
            )
            &&& done == (PackageView {
                scripts: done.scripts,
                script_bodies: done.script_bodies,
                ..base
            })
        }),
    decreases n,
{
    if from < n {
        extras_applied(members, from, n - 1, p);
        assert(is_extra(members[n - 1]));
        let names = |m: ControlMemberView| m.name;
        assert(members.subrange(from, n).map_values(names) =~= members.subrange(
            from,
            n - 1,
        ).map_values(names).push(members[n - 1].name));
    } else {
        assert(members.subrange(from, n).map_values(|m: ControlMemberView| m.name) =~= Seq::empty());
        assert(controls_applied(members, from, p).scripts + Seq::<Seq<char>>::empty()
            =~= controls_applied(members, from, p).scripts);
    }
}

/// Whether no later member up to `n` has the name of the one at `k`.
spec fn last_of_its_name(members: Seq<ControlMemberView>, k: int, n: int) -> bool {
    forall|j: int| k < j < n ==> (#[trigger] members[j]).name != members[k].name
}

/// The text of a script is that of the last member of its name.
proof fn bodies_applied(members: Seq<ControlMemberView>, k: int, n: int, p: PackageView)
    requires
        0 <= k < n <= members.len(),
        is_extra(members[k]),
        last_of_its_name(members, k, n),
    ensures
        controls_applied(members, n, p).script_bodies.dom().contains(members[k].name),
        controls_applied(members, n, p).script_bodies[members[k].name] == decode_utf8(
            members[k].bytes,
        ),
    decreases n,
{
    if k < n - 1 {
        bodies_applied(members, k, n - 1, p);
        assert(members[n - 1].name != members[k].name);
    }
}

/// Entries add their paths in order, and each path its entry.
proof fn entries_applied(
    files: Seq<PlannedFileView>,
    sources: Read,
    mtime: u64,
    n: int,
    p: PackageView,
)
    requires
        0 <= n <= files.len(),
        ascending(dests(files)),
        forall|k: int| 0 <= k < files.len() ==> readable_entry(#[trigger] files[k]),
    ensures
        ({
            let done = data_applied(files, sources, mtime, n, p);
            &&& done == (PackageView { data: done.data, data_order: done.data_order, ..p })
            &&& done.data_order == p.data_order + files.take(n).map_values(
                |f: PlannedFileView| relative(f.destination),
            )
            &&& forall|k: int|
                #![trigger files[k]]
                0 <= k < n ==> done.data.dom().contains(relative(files[k].destination))
                    && done.data[relative(files[k].destination)] == entry_back(
                    files[k],
                    sources,
                    mtime,
                )
        }),
    decreases n,
{
    let paths = |f: PlannedFileView| relative(f.destination);
    if n > 0 {
        entries_applied(files, sources, mtime, n - 1, p);
        assert(files.take(n).map_values(paths) =~= files.take(n - 1).map_values(paths).push(
            relative(files[n - 1].destination),
        ));
        let done = data_applied(files, sources, mtime, n, p);
        let before = data_applied(files, sources, mtime, n - 1, p);
        assert forall|k: int| #![trigger files[k]] 0 <= k < n implies done.data.dom().contains(
            relative(files[k].destination),
        ) && done.data[relative(files[k].destination)] == entry_back(files[k], sources, mtime) by {
            if k < n - 1 {
                assert(less(dests(files)[k], dests(files)[n - 1]));
                less_irreflexive(dests(files)[k]);
                assert(readable_entry(files[k]) && readable_entry(files[n - 1]));
                relative_is_plain(files[k].destination);
                relative_is_plain(files[n - 1].destination);
            }
        }
    } else {
        assert(files.take(n).map_values(paths) =~= Seq::empty());
        assert(p.data_order + Seq::<Seq<char>>::empty() =~= p.data_order);
    }
}

/// What the control file of a package reads as.
pub open spec fn control_back(p: BuildPlanView, options: OptionsView) -> Seq<char> {
    unlines(control_lines(p, options.section))
}

/// The configuration files of a plan.
pub open spec fn config_paths(p: BuildPlanView) -> Seq<Seq<char>> {
    config_entries(p.files).map_values(|f: PlannedFileView| f.destination)
}

proof fn config_entries_are_entries(files: Seq<PlannedFileView>)
    requires
        forall|k: int| 0 <= k < files.len() ==> readable_entry(#[trigger] files[k]),
    ensures
        forall|k: int|
            0 <= k < config_entries(files).len() ==> destination_form(
                (#[trigger] config_entries(files)[k]).destination,
            ),
    decreases files.len(),
{
    if files.len() > 0 {
        let init = files.drop_last();
        assert forall|k: int| 0 <= k < init.len() implies readable_entry(#[trigger] init[k]) by {
            assert(init[k] == files[k]);
        }
        config_entries_are_entries(init);
        assert(readable_entry(files[files.len() - 1]));
    }
}


proof fn control_names()
    ensures
        destination_form("/"@ + "control"@),
        destination_form("/"@ + "md5sums"@),
        destination_form("/"@ + "conffiles"@),
        destination_form("/"@ + "triggers"@),
        "control"@ != "md5sums"@,
        "control"@ != "conffiles"@,
        "md5sums"@ != "conffiles"@,
        "triggers"@ != "control"@,
        "triggers"@ != "md5sums"@,
        "triggers"@ != "conffiles"@,
{
    reveal_strlit("control");
    reveal_strlit("md5sums");
    reveal_strlit("conffiles");
    reveal_strlit("triggers");
    reveal_strlit(".");
    reveal_strlit("..");
    assert("control"@[0] == 'c' && "md5sums"@[0] == 'm' && "triggers"@[0] == 't');
    one_component("control"@);
    one_component("md5sums"@);
    let conffiles = "conffiles"@;
    assert(conffiles.len() == 9);
    assert forall|i: int| 0 <= i < conffiles.len() implies !control_char(#[trigger] conffiles[i])
        && conffiles[i] != '/' by {
        assert(i == 0 || i == 1 || i == 2 || i == 3 || i == 4 || i == 5 || i == 6 || i == 7 || i
            == 8);
    }
    one_component(conffiles);
    one_component("triggers"@);
}

/// The control members in their two parts.
proof fn control_members_in_parts(
    p: BuildPlanView,
    options: OptionsView,
    digests: Map<Seq<char>, Seq<char>>,
) -> (h: int)
    ensures
        h == (if conffiles_text(p) is Some {
            3int
        } else {
            2
        }),
        control_members(p, options, digests).len() == h + extra_members(options).len(),
        control_members(p, options, digests)[0] == text_member("control"@, control_back(p, options)),
        control_members(p, options, digests)[1] == text_member(
            "md5sums"@,
            unlines(md5_lines(digests)),
        ),
        h == 3 ==> control_members(p, options, digests)[2] == text_member(
            "conffiles"@,
            conffiles_text(p)->0,
        ),
        control_members(p, options, digests).skip(h) == extra_members(options),
{
    let members = control_members(p, options, digests);
    let h = if conffiles_text(p) is Some {
        3int
    } else {
        2
    };
    assert(members.skip(h) =~= extra_members(options));
    h
}

proof fn extras_are_readable(options: OptionsView, k: int)
    requires
        readable_options(options),
        0 <= k < extra_members(options).len(),
    ensures
        is_extra(extra_members(options)[k]),
        readable_control(extra_members(options)[k]),
{
    control_names();
    if k < options.maintainer_scripts.len() {
        assert(readable_script(options.maintainer_scripts[k]));
    }
}

/// The control members, applied to a package that has none of them yet.
proof fn controls_exactly(
    p: BuildPlanView,
    options: OptionsView,
    digests: Map<Seq<char>, Seq<char>>,
    before: PackageView,
)
    requires
        readable_options(options),
        forall|k: int| 0 <= k < p.files.len() ==> readable_entry(#[trigger] p.files[k]),
        before.scripts == Seq::<Seq<char>>::empty(),
        before.conffiles == Seq::<Seq<char>>::empty(),
    ensures
        forall|k: int|
            0 <= k < control_members(p, options, digests).len() ==> readable_control(
                #[trigger] control_members(p, options, digests)[k],
            ),
        ({
            let members = control_members(p, options, digests);
            let done = controls_applied(members, members.len() as int, before);
            done == (PackageView {
                control: control_fields(control_back(p, options)),
                control_text: control_back(p, options),
                md5sums: md5_entries(lines_of(unlines(md5_lines(digests)))),
                conffiles: config_paths(p),
                scripts: extra_members(options).map_values(|m: ControlMemberView| m.name),
                script_bodies: done.script_bodies,
                ..before
            })
        }),
{
    let members = control_members(p, options, digests);
    let n = members.len() as int;
    let h = control_members_in_parts(p, options, digests);
    let extras = extra_members(options);
    control_names();
    let text = control_back(p, options);
    let sums = unlines(md5_lines(digests));
    encode_utf8_valid_utf8(text);
    encode_utf8_decode_utf8(text);
    encode_utf8_valid_utf8(sums);
    encode_utf8_decode_utf8(sums);
    if h == 3 {
        encode_utf8_valid_utf8(conffiles_text(p)->0);
        encode_utf8_decode_utf8(conffiles_text(p)->0);
    }
    assert forall|k: int| h <= k < n implies is_extra(#[trigger] members[k]) && readable_control(
        members[k],
    ) by {
        assert(members.skip(h)[k - h] == members[k]);
        extras_are_readable(options, k - h);
    }
    assert forall|k: int| 0 <= k < n implies readable_control(#[trigger] members[k]) by {
        if k >= h {
            assert(is_extra(members[k]));
        }
    }
    let one = controls_applied(members, 1, before);
    assert(one == control_entry(before, "control"@, text)) by {
        reveal_with_fuel(controls_applied, 2);
    }
    let two = controls_applied(members, 2, before);
    assert(two == control_entry(one, "md5sums"@, sums));
    let head = controls_applied(members, h, before);
    let config = config_paths(p);
    if h == 3 {
        assert(head == control_entry(two, "conffiles"@, conffiles_text(p)->0));
        config_entries_are_entries(p.files);
        assert forall|k: int| 0 <= k < config.len() implies clean_line(#[trigger] config[k]) by {
            assert(destination_form(config_entries(p.files)[k].destination));
            destinations_are_one_line(config[k]);
        }
        lines_of_unlines(config);
        assert(head.conffiles == config);
    } else {
        assert(config =~= Seq::empty());
    }
    extras_applied(members, h, n, before);
    assert(members.subrange(h, n) =~= extras);
    let names = extras.map_values(|m: ControlMemberView| m.name);
    assert(head.scripts + names =~= names);
}


/// The names of the members, and what each is taken for.
proof fn member_names(c: Compression)
    ensures
        plain_name("debian-binary"@),
        plain_name(c.named_member("control"@)),
        plain_name(c.named_member("data"@)),
        !begins_with("debian-binary"@, "control.tar"@),
        !begins_with("debian-binary"@, "data.tar"@),
        begins_with(c.named_member("control"@), "control.tar"@),
        !begins_with(c.named_member("data"@), "control.tar"@),
        begins_with(c.named_member("data"@), "data.tar"@),
        compressor_for(c.named_member("control"@).skip("control.tar"@.len() as int)) == Ok::<
            Compression,
            ErrorView,
        >(c),
        compressor_for(c.named_member("data"@).skip("data.tar"@.len() as int)) == Ok::<
            Compression,
            ErrorView,
        >(c),
{
    reveal_strlit("debian-binary");
    reveal_strlit("control");
    reveal_strlit("data");
    reveal_strlit(".tar");
    reveal_strlit(".tar.");
    reveal_strlit("gz");
    reveal_strlit("xz");
    reveal_strlit("zst");
    reveal_strlit("");
    reveal_strlit(".gz");
    reveal_strlit(".xz");
    reveal_strlit(".zst");
    reveal_strlit("control.tar");
    reveal_strlit("data.tar");
    assert("debian-binary"@[2] == 'b' && "data.tar"@[2] == 't');
    assert("control.tar"@[0] == 'c' && "debian-binary"@[0] == 'd' && "data"@[0] == 'd');
    let control = c.named_member("control"@);
    let data = c.named_member("data"@);
    assert(begins_with(control, "control.tar"@)) by {
        assert(control.take(11) =~= "control.tar"@);
    }
    assert(begins_with(data, "data.tar"@)) by {
        assert(data.take(8) =~= "data.tar"@);
    }
    assert(data[0] == 'd');
    assert(!begins_with(data, "control.tar"@)) by {
        if begins_with(data, "control.tar"@) {
            assert(data.take(11)[0] == 'c');
        }
    }
    assert(!begins_with("debian-binary"@, "control.tar"@)) by {
        if begins_with("debian-binary"@, "control.tar"@) {
            assert("debian-binary"@.take(11)[0] == 'c');
        }
    }
    assert(!begins_with("debian-binary"@, "data.tar"@)) by {
        if begins_with("debian-binary"@, "data.tar"@) {
            assert("debian-binary"@.take(8)[2] == 't');
        }
    }
    match c {
        Compression::Gzip => {
            assert(control.skip(11) =~= ".gz"@);
            assert(data.skip(8) =~= ".gz"@);
        },
        Compression::Xz => {
            assert(control.skip(11) =~= ".xz"@);
            assert(data.skip(8) =~= ".xz"@);
            assert(".xz"@[1] == 'x' && ".gz"@[1] == 'g');
        },
        Compression::Zstd => {
            assert(control.skip(11) =~= ".zst"@);
            assert(data.skip(8) =~= ".zst"@);
        },
        Compression::Stored => {
            assert(control.skip(11) =~= ""@);
            assert(data.skip(8) =~= ""@);
        },
    }
}

/// Every layer of a package reads back, so reading it gives the control members applied and
/// then the entries.
proof fn layers_read_back(p: BuildPlanView, options: OptionsView, sources: Read, image: Seq<u8>)
    requires
        stored(p, options, sources, image),
        fits_container(p, options, sources),
        readable_options(options),
        forall|k: int| 0 <= k < p.files.len() ==> readable_entry(#[trigger] p.files[k]),
    ensures
        ({
            let c = options.compression;
            let members = control_members(p, options, data_members(p, sources)->Ok_0.1);
            let started = PackageView {
                members: seq!["debian-binary"@, c.named_member("control"@)],
                ..empty_package()
            };
            let controlled = controls_applied(members, members.len() as int, started);
            let sorted = PackageView {
                members: seq![
                    "debian-binary"@,
                    c.named_member("control"@),
                    c.named_member("data"@),
                ],
                scripts: sorted_texts(controlled.scripts),
                ..controlled
            };
            package_read(image) == Ok::<PackageView, ErrorView>(
                data_applied(p.files, sources, p.timestamp, p.files.len() as int, sorted),
            )
        }),
{
    let c = options.compression;
    let data = data_members(p, sources)->Ok_0;
    let controls = control_members(p, options, data.1);
    let control_tar = control_added(controls, p.timestamp)->Ok_0;
    let n = controls.len() as int;
    let ms = package_members(p, options, sources)->Ok_0;
    member_names(c);
    let version = encode_utf8("2.0\n"@);
    assert(version.len() == 4) by {
        reveal_strlit("2.0\n");
        is_ascii_chars_encode_utf8("2.0\n"@);
    }
    assert forall|i: int| 0 <= i < ms.len() implies plain_member(#[trigger] ms[i]) by {
        assert(i == 0 || i == 1 || i == 2);
    }
    let steps = steps_of(ms);
    assert(step_readable(image, 0) && step_readable(image, 1) && step_readable(image, 2)
        && step_readable(image, 3));
    assert(steps.len() == 3);
    assert(steps[0] == (ArStepView::Member { name: "debian-binary"@, bytes: version }));
    assert(steps[1] == (ArStepView::Member {
        name: c.named_member("control"@),
        bytes: c.compressed(tar_image(control_tar)),
    }));
    assert(steps[2] == (ArStepView::Member {
        name: c.named_member("data"@),
        bytes: c.compressed(tar_image(data.0)),
    }));
    let first = PackageView { members: seq!["debian-binary"@], ..empty_package() };
    assert(ar_step(image, 0) == Some(steps[0]) && ar_step(image, 1) == Some(steps[1]) && ar_step(
        image,
        2,
    ) == Some(steps[2]));
    assert(package_read(image) == members_from(image, 1, first)) by {
        assert(empty_package().members.push("debian-binary"@) =~= seq!["debian-binary"@]);
    }
    let started = PackageView {
        members: seq!["debian-binary"@, c.named_member("control"@)],
        ..empty_package()
    };
    assert(first.members.push(c.named_member("control"@)) =~= started.members);
    controls_exactly(p, options, data.1, started);
    control_reads(tar_image(control_tar), controls, p.timestamp, 0, started);
    let controlled = controls_applied(controls, n, started);
    let after = PackageView { scripts: sorted_texts(controlled.scripts), ..controlled };
    assert(control_read(tar_image(control_tar), started) == Ok::<PackageView, ErrorView>(after));
    assert(members_from(image, 1, first) == members_from(image, 2, after));
    let sorted = PackageView {
        members: seq!["debian-binary"@, c.named_member("control"@), c.named_member("data"@)],
        ..after
    };
    assert(after.members.push(c.named_member("data"@)) =~= sorted.members);
    data_reads(tar_image(data.0), p.files, sources, p.timestamp, md5_digest(), 0, sorted);
    let whole = data_from(tar_image(data.0), 0, sorted)->Ok_0;
    assert(members_from(image, 2, after) == members_from(image, 3, whole));
    assert(members_from(image, 3, whole) == Ok::<PackageView, ErrorView>(whole));
}

/// Reading a package gives back what it was built from: the three members in order, the control
/// file, the digest of every regular file by its path, the configuration files, the names of
/// the scripts, sorted, and every entry of the plan in order, with its kind, its mode, its time,
/// its owner, its link target and its bytes.
pub proof fn a_package_reads_back(
    p: BuildPlanView,
    options: OptionsView,
    sources: Read,
    image: Seq<u8>,
)
    requires
        stored(p, options, sources, image),
        fits_container(p, options, sources),
        readable_options(options),
        forall|k: int| 0 <= k < p.files.len() ==> readable_entry(#[trigger] p.files[k]),
        ascending(dests(p.files)),
    ensures
        package_read(image) is Ok,
        ({
            let c = options.compression;
            let back = package_read(image)->Ok_0;
            &&& back.members == seq![
                "debian-binary"@,
                c.named_member("control"@),
                c.named_member("data"@),
            ]
            &&& back.control_text == control_back(p, options)
            &&& back.control == control_fields(control_back(p, options))
            &&& back.md5sums == data_members(p, sources)->Ok_0.1
            &&& back.conffiles == config_paths(p)
            &&& back.scripts == sorted_texts(
                extra_members(options).map_values(|m: ControlMemberView| m.name),
            )
            &&& back.data_order == p.files.map_values(
                |f: PlannedFileView| relative(f.destination),
            )
            &&& forall|k: int|
                #![trigger p.files[k]]
                0 <= k < p.files.len() ==> back.data.dom().contains(
                    relative(p.files[k].destination),
                ) && back.data[relative(p.files[k].destination)] == entry_back(
                    p.files[k],
                    sources,
                    p.timestamp,
                )
        }),
{
    let c = options.compression;
    let digests = data_members(p, sources)->Ok_0.1;
    let members = control_members(p, options, digests);
    let started = PackageView {
        members: seq!["debian-binary"@, c.named_member("control"@)],
        ..empty_package()
    };
    layers_read_back(p, options, sources, image);
    controls_exactly(p, options, digests, started);
    md5sums_read_back(p.files, sources, p.timestamp, md5_digest());
    let controlled = controls_applied(members, members.len() as int, started);
    let sorted = PackageView {
        members: seq!["debian-binary"@, c.named_member("control"@), c.named_member("data"@)],
        scripts: sorted_texts(controlled.scripts),
        ..controlled
    };
    let n = p.files.len() as int;
    entries_applied(p.files, sources, p.timestamp, n, sorted);
    let paths = |f: PlannedFileView| relative(f.destination);
    assert(p.files.take(n) =~= p.files);
    assert(sorted.data_order + p.files.map_values(paths) =~= p.files.map_values(paths));
}

/// A plan that differs in its date alone gives other bytes.
pub proof fn another_date_gives_another_package(
    p: BuildPlanView,
    date: u64,
    options: OptionsView,
    sources: Read,
    image: Seq<u8>,
    other: Seq<u8>,
)
    requires
        date != p.timestamp,
        p.files.len() > 0,
        stored(p, options, sources, image),
        stored(BuildPlanView { timestamp: date, ..p }, options, sources, other),
        fits_container(p, options, sources),
        fits_container(BuildPlanView { timestamp: date, ..p }, options, sources),
        readable_options(options),
        forall|k: int| 0 <= k < p.files.len() ==> readable_entry(#[trigger] p.files[k]),
        ascending(dests(p.files)),
    ensures
        image != other,
{
    let q = BuildPlanView { timestamp: date, ..p };
    a_package_reads_back(p, options, sources, image);
    a_package_reads_back(q, options, sources, other);
    let path = relative(p.files[0].destination);
    assert(q.files[0] == p.files[0]);
    assert(package_read(image)->Ok_0.data[path].mtime == p.timestamp);
    assert(package_read(other)->Ok_0.data[path].mtime == date);
}


/// A maintainer script whose name no other script and no trigger file shares is read back
/// unchanged.
pub proof fn a_script_reads_back(
    p: BuildPlanView,
    options: OptionsView,
    sources: Read,
    image: Seq<u8>,
    k: int,
)
    requires
        stored(p, options, sources, image),
        fits_container(p, options, sources),
        readable_options(options),
        forall|j: int| 0 <= j < p.files.len() ==> readable_entry(#[trigger] p.files[j]),
        ascending(dests(p.files)),
        0 <= k < options.maintainer_scripts.len(),
        forall|j: int|
            0 <= j < options.maintainer_scripts.len() && j != k ==> (
            #[trigger] options.maintainer_scripts[j]).name != options.maintainer_scripts[k].name,
        options.triggers is Some ==> options.maintainer_scripts[k].name != "triggers"@,
    ensures
        package_read(image) is Ok,
        ({
            let back = package_read(image)->Ok_0;
            let script = options.maintainer_scripts[k];
            back.script_bodies.dom().contains(script.name) && back.script_bodies[script.name]
                == decode_utf8(script.bytes)
        }),
{
    let c = options.compression;
    let digests = data_members(p, sources)->Ok_0.1;
    let members = control_members(p, options, digests);
    let n = members.len() as int;
    let started = PackageView {
        members: seq!["debian-binary"@, c.named_member("control"@)],
        ..empty_package()
    };
    layers_read_back(p, options, sources, image);
    let controlled = controls_applied(members, n, started);
    let sorted = PackageView {
        members: seq!["debian-binary"@, c.named_member("control"@), c.named_member("data"@)],
        scripts: sorted_texts(controlled.scripts),
        ..controlled
    };
    entries_applied(p.files, sources, p.timestamp, p.files.len() as int, sorted);
    let h = control_members_in_parts(p, options, digests);
    let extras = extra_members(options);
    extras_are_readable(options, k);
    assert(members.skip(h)[k] == members[h + k]);
    assert forall|j: int| h + k < j < n implies (#[trigger] members[j]).name != members[h
        + k].name by {
        assert(members.skip(h)[j - h] == members[j]);
        assert(extras[j - h].name != extras[k].name) by {
            if j - h < options.maintainer_scripts.len() {
                assert(options.maintainer_scripts[j - h].name
                    != options.maintainer_scripts[k].name);
            }
        }
    }
    bodies_applied(members, h + k, n, started);
}


// ---- control fields -------------------------------------------------------------------------

/// The fields before the description.
pub open spec fn head_fields(p: BuildPlanView, section: Option<Seq<char>>) -> Seq<
    (Seq<char>, Seq<char>),
> {
    let id = p.identity;
    seq![
        ("Package"@, id.package_name),
        ("Version"@, id.version_deb),
        ("Architecture"@, id.architecture.deb_spelling()),
        ("Maintainer"@, id.maintainer),
        ("Installed-Size"@, decimal(size_kib(p.files))),
    ] + (match id.homepage {
        Some(v) => seq![("Homepage"@, v)],
        None => Seq::empty(),
    }) + seq![
        (
            "Section"@,
            match section {
                Some(s) => s,
                None => DEFAULT_SECTION@,
            },
        ),
        ("Priority"@, DEFAULT_PRIORITY@),
    ] + (match depends_value(id.dependencies) {
        Some(v) => seq![("Depends"@, v)],
        None => Seq::empty(),
    })
}

/// The values of some fields by name, the last one of a name.
pub open spec fn by_name(fields: Seq<(Seq<char>, Seq<char>)>) -> Map<Seq<char>, Seq<char>>
    decreases fields.len(),
{
    if fields.len() == 0 {
        Map::empty()
    } else {
        by_name(fields.drop_last()).insert(fields.last().0, fields.last().1)
    }
}

/// A value with the lines that continue it, each without its indentation.
pub open spec fn continued(value: Seq<char>, lines: Seq<Seq<char>>) -> Seq<char>
    decreases lines.len(),
{
    if lines.len() == 0 {
        value
    } else {
        continued(value, lines.drop_last()) + "\n"@ + stripped_start(lines.last(), ' ')
    }
}

/// The values of a control file that stand on one line each do.
pub open spec fn one_line_values(p: BuildPlanView, section: Option<Seq<char>>) -> bool {
    &&& forall|i: int|
        0 <= i < head_fields(p, section).len() ==> clean_line(
            (#[trigger] head_fields(p, section)[i]).1,
        )
    &&& clean_line(p.identity.description.synopsis)
}

spec fn plain_key(key: Seq<char>) -> bool {
    key.len() > 0 && key[0] != ' ' && !key.contains(':') && clean_line(key)
}

proof fn field_line_read(f: FieldsView, key: Seq<char>, value: Seq<char>)
    requires
        plain_key(key),
    ensures
        field_step(f, field(key, value)) == (FieldsView {
            done: flushed(f),
            current: Some((key, value)),
        }),
        clean_line(value) ==> clean_line(field(key, value)),
{
    reveal_strlit(": ");
    reveal_strlit(" ");
    let line = field(key, value);
    assert(line[0] == key[0]);
    assert(!begins_with(line, " "@)) by {
        if begins_with(line, " "@) {
            assert(line.take(1)[0] == ' ');
        }
    }
    split_first_keyed(key, ": "@, value);
    if clean_line(value) {
        assert forall|j: int| 0 <= j < line.len() implies line[j] != '\n' by {
            if j < key.len() {
                assert(key.contains(line[j]));
            } else if j >= key.len() + 2 {
                assert(value.contains(line[j]));
            }
        }
        if value.len() > 0 {
            assert(line.last() == value.last());
        } else {
            assert(line.last() == ' ');
        }
    }
}

/// Field lines are read as their fields.
proof fn field_lines_read(fields: Seq<(Seq<char>, Seq<char>)>)
    requires
        forall|i: int| 0 <= i < fields.len() ==> plain_key((#[trigger] fields[i]).0),
    ensures
        flushed(
            fields_after(fields.map_values(|f: (Seq<char>, Seq<char>)| field(f.0, f.1))),
        ) == by_name(fields),
    decreases fields.len(),
{
    let lines = fields.map_values(|f: (Seq<char>, Seq<char>)| field(f.0, f.1));
    if fields.len() > 0 {
        let init = fields.drop_last();
        assert(lines.drop_last() =~= init.map_values(
            |f: (Seq<char>, Seq<char>)| field(f.0, f.1),
        ));
        assert forall|i: int| 0 <= i < init.len() implies plain_key((#[trigger] init[i]).0) by {
            assert(init[i] == fields[i]);
        }
        field_lines_read(init);
        assert(plain_key(fields[fields.len() - 1].0));
        field_line_read(fields_after(lines.drop_last()), fields.last().0, fields.last().1);
    }
}

/// Indented lines continue the field before them.
proof fn folded_lines_read(head: Seq<Seq<char>>, body: Seq<Seq<char>>)
    requires
        fields_after(head).current is Some,
        forall|i: int| 0 <= i < body.len() ==> begins_with(#[trigger] body[i], " "@),
    ensures
        ({
            let (key, value) = fields_after(head).current->0;
            fields_after(head + body) == (FieldsView {
                done: fields_after(head).done,
                current: Some((key, continued(value, body))),
            })
        }),
    decreases body.len(),
{
    if body.len() == 0 {
        assert(head + body =~= head);
    } else {
        let init = body.drop_last();
        assert((head + body).drop_last() =~= head + init);
        assert forall|i: int| 0 <= i < init.len() implies begins_with(#[trigger] init[i], " "@) by {
            assert(init[i] == body[i]);
        }
        folded_lines_read(head, init);
        assert(begins_with(body[body.len() - 1], " "@));
    }
}

proof fn head_keys_are_plain(p: BuildPlanView, section: Option<Seq<char>>)
    ensures
        forall|i: int|
            0 <= i < head_fields(p, section).len() ==> plain_key(
                (#[trigger] head_fields(p, section)[i]).0,
            ),
        plain_key("Description"@),
{
    reveal_strlit("Package");
    reveal_strlit("Version");
    reveal_strlit("Architecture");
    reveal_strlit("Maintainer");
    reveal_strlit("Installed-Size");
    reveal_strlit("Homepage");
    reveal_strlit("Section");
    reveal_strlit("Priority");
    reveal_strlit("Depends");
    reveal_strlit("Description");
    assert(plain_key("Package"@));
    assert(plain_key("Version"@));
    assert(plain_key("Architecture"@));
    assert(plain_key("Maintainer"@));
    assert(plain_key("Installed-Size"@));
    assert(plain_key("Homepage"@));
    assert(plain_key("Section"@));
    assert(plain_key("Priority"@));
    assert(plain_key("Depends"@));
    assert(plain_key("Description"@));
}


proof fn trimmed_end_is_prefix(s: Seq<char>) -> (k: int)
    ensures
        0 <= k <= s.len(),
        trimmed_end(s) == s.take(k),
        k > 0 ==> !whitespace(s[k - 1]),
    decreases s.len(),
{
    if s.len() > 0 && whitespace(s.last()) {
        let k = trimmed_end_is_prefix(s.drop_last());
        assert(s.drop_last().take(k) =~= s.take(k));
        k
    } else {
        assert(s.take(s.len() as int) =~= s);
        s.len() as int
    }
}

/// The pieces of a split text hold no separator.
proof fn pieces_hold_no_separator(s: Seq<char>, sep: char)
    ensures
        forall|i: int|
            0 <= i < split_at_char(s, sep).len() ==> !(#[trigger] split_at_char(s, sep)[i]).contains(
                sep,
            ),
    decreases s.len(),
{
    if s.len() > 0 {
        let init = s.drop_last();
        split_step(init, s.last(), sep);
        assert(init.push(s.last()) =~= s);
        pieces_hold_no_separator(init, sep);
        let all = split_at_char(s, sep);
        let before = split_at_char(init, sep);
        assert forall|i: int| 0 <= i < all.len() implies !(#[trigger] all[i]).contains(sep) by {
            if i < before.len() {
                assert(!before[i].contains(sep));
                if all[i].contains(sep) {
                    let j = all[i].index_of(sep);
                    if j < before[i].len() {
                        assert(before[i][j] == sep);
                        assert(before[i].contains(sep));
                    }
                }
            }
        }
    }
}

proof fn folded_line_is_clean(line: Seq<char>)
    requires
        !line.contains('\n'),
    ensures
        clean_line(folded(line)),
        begins_with(folded(line), " "@),
{
    reveal_strlit(" ");
    reveal_strlit(" .");
    let k = trimmed_end_is_prefix(line);
    let text = folded(line);
    assert(text.take(1) =~= " "@);
    if trimmed_end(line).len() > 0 {
        assert(text.last() == line[k - 1]);
        assert forall|j: int| 0 <= j < text.len() implies text[j] != '\n' by {
            if j > 0 {
                assert(text[j] == line[j - 1]);
            }
        }
    }
}

/// The body lines of a description are clean and indented.
proof fn body_lines_are_folded(p: BuildPlanView)
    requires
        clean_line(p.identity.package_name),
    ensures
        forall|i: int|
            1 <= i < description_lines(p).len() ==> clean_line(#[trigger] description_lines(p)[i])
                && begins_with(description_lines(p)[i], " "@),
{
    let d = p.identity.description;
    let lines = description_lines(p);
    if trimmed(d.body).len() == 0 {
        reveal_strlit(" ");
        reveal_strlit(" This package installs the ");
        reveal_strlit(" application");
        reveal_strlit(" together with the service integration for the target's");
        reveal_strlit(" init system. Add a longer `description` to the project");
        reveal_strlit(" manifest to replace this text.");
        let name = p.identity.package_name;
        let first = " This package installs the "@ + name + " application"@;
        assert forall|j: int| 0 <= j < first.len() implies first[j] != '\n' by {
            if 27 <= j < 27 + name.len() {
                assert(name.contains(first[j]));
            }
        }
        assert(first.last() == 'n');
        assert(first.take(1) =~= " "@);
        assert(lines[1] == first);
        let second = " together with the service integration for the target's"@;
        assert(second.take(1) =~= " "@);
        assert(clean_line(second));
        let third = " init system. Add a longer `description` to the project"@;
        assert(third.take(1) =~= " "@);
        assert(clean_line(third));
        let fourth = " manifest to replace this text."@;
        assert(fourth.take(1) =~= " "@);
        assert(clean_line(fourth));
    } else {
        let body = lines_of(d.body);
        pieces_hold_no_separator(d.body, '\n');
        assert forall|i: int| 1 <= i < lines.len() implies clean_line(#[trigger] lines[i])
            && begins_with(lines[i], " "@) by {
            assert(lines[i] == folded(body[i - 1]));
            line_holds_no_break(d.body, i - 1);
            folded_line_is_clean(body[i - 1]);
        }
    }
}

proof fn line_holds_no_break(s: Seq<char>, i: int)
    requires
        0 <= i < lines_of(s).len(),
    ensures
        !lines_of(s)[i].contains('\n'),
{
    pieces_hold_no_separator(s, '\n');
    let piece = split_at_char(s, '\n')[i];
    assert(!piece.contains('\n'));
    let line = lines_of(s)[i];
    assert(line == without_cr(piece) || line == piece);
    if line.contains('\n') {
        let j = line.index_of('\n');
        assert(piece[j] == '\n');
    }
}

/// The control file gives back its fields: each value that stands on one line by its name, and
/// the description as its synopsis followed by the body, a line each.
pub proof fn control_fields_read_back(p: BuildPlanView, options: OptionsView)
    requires
        one_line_values(p, options.section),
    ensures
        control_fields(control_back(p, options)) == by_name(
            head_fields(p, options.section),
        ).insert(
            "Description"@,
            continued(p.identity.description.synopsis, description_lines(p).skip(1)),
        ),
{
    let section = options.section;
    let fields = head_fields(p, section);
    let head = head_lines(p, section);
    let lines = control_lines(p, section);
    let synopsis = p.identity.description.synopsis;
    head_keys_are_plain(p, section);
    assert(head =~= fields.map_values(|f: (Seq<char>, Seq<char>)| field(f.0, f.1)));
    field_lines_read(fields);
    assert(fields[0] == ("Package"@, p.identity.package_name));
    body_lines_are_folded(p);
    let described = head.push(field("Description"@, synopsis));
    assert(described.drop_last() =~= head);
    field_line_read(fields_after(head), "Description"@, synopsis);
    let body = description_lines(p).skip(1);
    assert(lines =~= described + body);
    assert forall|i: int| 0 <= i < body.len() implies begins_with(#[trigger] body[i], " "@) by {
        assert(body[i] == description_lines(p)[i + 1]);
    }
    folded_lines_read(described, body);
    assert forall|i: int| 0 <= i < lines.len() implies clean_line(#[trigger] lines[i]) by {
        if i < head.len() {
            assert(clean_line(fields[i].1) && plain_key(fields[i].0));
            field_line_read(fields_after(head), fields[i].0, fields[i].1);
            assert(lines[i] == head[i]);
        } else if i == head.len() {
            assert(lines[i] == field("Description"@, synopsis));
        } else {
            assert(lines[i] == description_lines(p)[i - head.len()]);
        }
    }
    lines_of_unlines(lines);
}

/// What each field of a control file says.
pub proof fn control_values_read_back(p: BuildPlanView, options: OptionsView)
    requires
        one_line_values(p, options.section),
    ensures
        ({
            let back = control_fields(control_back(p, options));
            let id = p.identity;
            &&& back["Package"@] == id.package_name
            &&& back["Version"@] == id.version_deb
            &&& back["Architecture"@] == id.architecture.deb_spelling()
            &&& back["Maintainer"@] == id.maintainer
            &&& back["Installed-Size"@] == decimal(size_kib(p.files))
            &&& back.dom().contains("Homepage"@) == (id.homepage is Some)
            &&& id.homepage is Some ==> back["Homepage"@] == id.homepage->0
            &&& options.section is Some ==> back["Section"@] == options.section->0
            &&& options.section is None ==> back["Section"@] == DEFAULT_SECTION@
            &&& back["Priority"@] == DEFAULT_PRIORITY@
            &&& back.dom().contains("Depends"@) == (depends_value(id.dependencies) is Some)
            &&& depends_value(id.dependencies) is Some ==> back["Depends"@] == depends_value(
                id.dependencies,
            )->0
        }),
{
    control_fields_read_back(p, options);
    reveal_strlit("Package");
    reveal_strlit("Version");
    reveal_strlit("Architecture");
    reveal_strlit("Maintainer");
    reveal_strlit("Installed-Size");
    reveal_strlit("Homepage");
    reveal_strlit("Section");
    reveal_strlit("Priority");
    reveal_strlit("Depends");
    reveal_strlit("Description");
    assert("Package"@[0] == 'P' && "Version"@[0] == 'V' && "Section"@[0] == 'S' && "Depends"@[0]
        == 'D' && "Homepage"@[0] == 'H' && "Priority"@[0] == 'P');
    let fields = head_fields(p, options.section);
    let n = fields.len() as int;
    values_by_name(fields, n);
    assert(fields.take(n) =~= fields);
    assert(fields[0].0 == "Package"@ && fields[1].0 == "Version"@ && fields[2].0
        == "Architecture"@ && fields[3].0 == "Maintainer"@ && fields[4].0 == "Installed-Size"@);
    let s = if p.identity.homepage is Some {
        6int
    } else {
        5
    };
    assert(s == 6 ==> fields[5].0 == "Homepage"@);
    assert(fields[s].0 == "Section"@ && fields[s + 1].0 == "Priority"@);
    assert(depends_value(p.identity.dependencies) is Some ==> fields[s + 2].0 == "Depends"@);
    assert forall|i: int, j: int| 0 <= i < j < n implies (#[trigger] fields[i]).0 != (
    #[trigger] fields[j]).0 by {}
}

/// Fields of different names each keep their value.
proof fn values_by_name(fields: Seq<(Seq<char>, Seq<char>)>, n: int)
    requires
        0 <= n <= fields.len(),
    ensures
        (forall|i: int, j: int|
            0 <= i < j < n ==> (#[trigger] fields[i]).0 != (#[trigger] fields[j]).0) ==> (forall|
            i: int,
        |
            #![trigger fields[i]]
            0 <= i < n ==> by_name(fields.take(n)).dom().contains(fields[i].0) && by_name(
                fields.take(n),
            )[fields[i].0] == fields[i].1),
        forall|k: Seq<char>| #[trigger]
            by_name(fields.take(n)).dom().contains(k) ==> exists|i: int|
                0 <= i < n && (#[trigger] fields[i]).0 == k,
    decreases n,
{
    if n > 0 {
        values_by_name(fields, n - 1);
        assert(fields.take(n).drop_last() =~= fields.take(n - 1));
        assert(fields.take(n).last() == fields[n - 1]);
        assert forall|k: Seq<char>| #[trigger]
            by_name(fields.take(n)).dom().contains(k) implies exists|i: int|
            0 <= i < n && (#[trigger] fields[i]).0 == k by {
            if k == fields[n - 1].0 {
                assert(fields[n - 1].0 == k);
            } else {
                assert(by_name(fields.take(n - 1)).dom().contains(k));
                let i = choose|i: int| 0 <= i < n - 1 && (#[trigger] fields[i]).0 == k;
                assert(fields[i].0 == k);
            }
        }
    }
}

} // verus!
