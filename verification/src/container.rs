//! `ar` containers, written and read by the `ar` crate.

use vstd::prelude::*;

use crate::codec::{decoded, text_between};
use crate::digits::{octal_of, parse_octal, parse_unsigned, unsigned_of};
use crate::error::opt;
use crate::strings::{same, trim_end, trimmed_end};

verus! {

/// One member of a container, as it is handed over to be written.
#[derive(Debug)]
pub struct ArMember {
    pub name: String,
    pub mode: u32,
    pub mtime: u64,
    pub uid: u32,
    pub gid: u32,
    pub bytes: Vec<u8>,
}

pub struct ArMemberView {
    pub name: Seq<char>,
    pub mode: u32,
    pub mtime: u64,
    pub uid: u32,
    pub gid: u32,
    pub bytes: Seq<u8>,
}

impl View for ArMember {
    type V = ArMemberView;

    open spec fn view(&self) -> ArMemberView {
        ArMemberView {
            name: self.name@,
            mode: self.mode,
            mtime: self.mtime,
            uid: self.uid,
            gid: self.gid,
            bytes: self.bytes@,
        }
    }
}

/// A container being written: an `ar::Builder` into memory.
#[verifier::external_body]
pub struct ArWriter {
    inner: ar::Builder<Vec<u8>>,
}

/// The members written so far.
pub uninterp spec fn ar_members(w: ArWriter) -> Seq<ArMemberView>;

/// The image `ar::Builder` makes of some members.
pub uninterp spec fn ar_image(members: Seq<ArMemberView>) -> Seq<u8>;

/// A container being read: an `ar::Archive` over memory.
#[verifier::external_body]
pub struct ArReader {
    inner: ar::Archive<std::io::Cursor<Vec<u8>>>,
}

/// What one step of reading a container gives.
#[derive(Debug)]
pub enum ArStep {
    /// A member and its bytes.
    Member { name: String, bytes: Vec<u8> },
    /// A member whose bytes could not be read.
    Unreadable { name: String, error: std::io::Error },
    /// A header that could not be read.
    Failed { error: std::io::Error },
}

pub enum ArStepView {
    Member { name: Seq<char>, bytes: Seq<u8> },
    Unreadable { name: Seq<char> },
    Failed,
}

impl View for ArStep {
    type V = ArStepView;

    open spec fn view(&self) -> ArStepView {
        match *self {
            ArStep::Member { name, bytes } => ArStepView::Member { name: name@, bytes: bytes@ },
            ArStep::Unreadable { name, error } => ArStepView::Unreadable { name: name@ },
            ArStep::Failed { error } => ArStepView::Failed,
        }
    }
}

/// The image a reader is over, and how many steps it has taken through it.
pub uninterp spec fn ar_place(r: ArReader) -> (Seq<u8>, nat);

/// What the step at a position gives, as `ar::Archive` takes them through an image: nothing past
/// the last member or behind an error.
pub uninterp spec fn ar_step(image: Seq<u8>, index: nat) -> Option<ArStepView>;

// ---- what the reader takes --------------------------------------------------------------

pub const GLOBAL_HEADER_LEN: usize = 8;

pub const MEMBER_HEADER_LEN: usize = 60;

/// Where a reader stands between two headers: at which byte, whether it has met the GNU dialect,
/// and behind a name table of how many bytes.
pub struct Walk {
    pub at: nat,
    pub gnu: bool,
    pub names: nat,
}

/// What reading one header comes to.
pub enum Stride {
    /// Reading ends here, at the end of the container or with an error, or goes on where nothing
    /// makes the reader panic.
    Ends,
    /// The reader panics.
    Panics,
    /// There may be another header. The one just read may be that of a table, not of a member.
    Goes { next: Walk, whole: bool },
}

/// The text of a header field without the blanks behind it.
pub open spec fn field_text(field: Seq<u8>) -> Option<Seq<char>> {
    match decoded(field) {
        Some(text) => Some(trimmed_end(text)),
        None => None,
    }
}

pub open spec fn field_number(field: Seq<u8>) -> Option<nat> {
    match field_text(field) {
        Some(text) => unsigned_of(text),
        None => None,
    }
}

pub open spec fn owner_field(field: Seq<u8>, gnu: bool) -> bool {
    field_number(field) is Some || (gnu && field_text(field) == Some(Seq::<char>::empty()))
}

/// Whether the time, owner, group and mode of a header can be read.
pub open spec fn fields_read(h: Seq<u8>, gnu: bool) -> bool {
    &&& field_number(h.subrange(16, 28)) is Some
    &&& owner_field(h.subrange(28, 34), gnu)
    &&& owner_field(h.subrange(34, 40), gnu)
    &&& match field_text(h.subrange(40, 48)) {
        Some(text) => octal_of(text) is Some,
        None => false,
    }
}

pub open spec fn blank(h: Seq<u8>, from: int, to: int) -> bool {
    forall|i: int| from <= i < to ==> #[trigger] h[i] == 0x20
}

/// Whether the name in a header, without the spaces behind it, ends in a separator.
pub open spec fn slash_ends(h: Seq<u8>) -> bool {
    exists|i: int| 0 <= i < 16 && #[trigger] h[i] == 0x2f && blank(h, i + 1, 16)
}

/// To the header behind `size` bytes of content and their padding, which is a newline.
pub open spec fn past(image: Seq<u8>, from: nat, size: nat, w: Walk, whole: bool) -> Stride {
    let end = from + size;
    if size % 2 == 1 && end < image.len() && image[end as int] != 0x0a {
        Stride::Ends
    } else {
        Stride::Goes { next: Walk { at: end + size % 2, ..w }, whole }
    }
}

/// The largest size a header can tell.
pub const LARGEST: u64 = 9_999_999_999;

/// What reading the header at a position comes to. A GNU name index past the name table makes
/// the reader panic, and so does a name table that no vector can hold. Behind a name in front
/// of the content, the BSD dialect, nothing does where a vector can hold any such name.
pub open spec fn stride(image: Seq<u8>, w: Walk) -> Stride {
    let from = w.at + MEMBER_HEADER_LEN as nat;
    let h = image.subrange(w.at as int, from as int);
    if from > image.len() {
        Stride::Ends
    } else {
        match field_number(h.subrange(48, 58)) {
            None => Stride::Ends,
            Some(size) => if h[0] == 0x2f {
                let met = Walk { gnu: true, ..w };
                if blank(h, 1, 16) {
                    past(image, from, size, met, false)
                } else if h[1] == 0x2f && blank(h, 2, 16) {
                    if size > isize::MAX {
                        Stride::Panics
                    } else if from + size > image.len() {
                        Stride::Ends
                    } else {
                        past(image, from, size, Walk { names: size, ..met }, false)
                    }
                } else {
                    match field_number(h.subrange(1, 16)) {
                        None => Stride::Ends,
                        Some(index) => if index > w.names {
                            Stride::Panics
                        } else if !fields_read(h, true) {
                            Stride::Ends
                        } else {
                            past(image, from, size, met, true)
                        },
                    }
                }
            } else {
                let gnu = w.gnu || slash_ends(h);
                if !fields_read(h, gnu) {
                    Stride::Ends
                } else if !gnu && h[0] == 0x23 && h[1] == 0x31 && h[2] == 0x2f {
                    if LARGEST > isize::MAX {
                        Stride::Panics
                    } else {
                        Stride::Ends
                    }
                } else {
                    past(image, from, size, Walk { gnu, ..w }, true)
                }
            },
        }
    }
}

/// Whether the next `n` members from a position on are read without a panic, as far as there are
/// so many.
pub open spec fn ar_members_readable(image: Seq<u8>, w: Walk, n: nat) -> bool
    decreases
            if w.at < image.len() {
                image.len() - w.at
            } else {
                0int
            },
{
    n == 0 || match stride(image, w) {
        Stride::Ends => true,
        Stride::Panics => false,
        Stride::Goes { next, whole } => ar_members_readable(
            image,
            next,
            if whole {
                (n - 1) as nat
            } else {
                n
            },
        ),
    }
}

pub open spec fn first_member() -> Walk {
    Walk { at: GLOBAL_HEADER_LEN as nat, gnu: false, names: 0 }
}

/// What every container begins with: `!<arch>` and a newline.
pub open spec fn global_header() -> Seq<u8> {
    seq![0x21u8, 0x3c, 0x61, 0x72, 0x63, 0x68, 0x3e, 0x0a]
}

/// Whether the step at a position, and those before it, are taken without a panic.
pub open spec fn step_readable(image: Seq<u8>, index: nat) -> bool {
    image.len() >= GLOBAL_HEADER_LEN && image.take(GLOBAL_HEADER_LEN as int) == global_header()
        ==> ar_members_readable(image, first_member(), index + 1)
}

/// A name that stands in a header as it is.
pub open spec fn plain_name(name: Seq<char>) -> bool {
    &&& 1 <= name.len() <= 16
    &&& forall|i: int|
        0 <= i < name.len() ==> 0x21 <= (#[trigger] name[i] as int) <= 0x7e && name[i] != '/'
            && name[i] != '#'
}

/// A member whose header fields all fit.
pub open spec fn plain_member(m: ArMemberView) -> bool {
    &&& plain_name(m.name)
    &&& m.mode < 0o100000000
    &&& m.mtime < 1_000_000_000_000
    &&& m.uid < 1_000_000
    &&& m.gid < 1_000_000
    &&& m.bytes.len() < 10_000_000_000
}

/// The steps that read some members back.
pub open spec fn steps_of(members: Seq<ArMemberView>) -> Seq<ArStepView> {
    members.map_values(
        |m: ArMemberView| ArStepView::Member { name: m.name, bytes: m.bytes },
    )
}

/// Reading an image of plain members, at least one, gives them back in order and nothing after
/// them. Every member takes a header of the image.
pub open spec fn ar_reads_back(members: Seq<ArMemberView>, image: Seq<u8>) -> bool {
    members.len() > 0 && (forall|i: int| 0 <= i < members.len() ==> plain_member(#[trigger] members[i]))
        ==> {
        &&& members.len() < image.len()
        &&& forall|i: nat| #[trigger] step_readable(image, i)
        &&& forall|i: int|
            0 <= i < members.len() ==> ar_step(image, i as nat) == Some(
                #[trigger] steps_of(members)[i],
            )
        &&& ar_step(image, members.len()) is None
    }
}

impl ArWriter {
    /// `ar::Builder::new` into an empty vector.
    #[verifier::external_body]
    pub(crate) fn new() -> (w: Self)
        ensures
            ar_members(w) == Seq::<ArMemberView>::empty(),
    {
        ArWriter { inner: ar::Builder::new(Vec::new()) }
    }

    /// `ar::Builder::append` with a header of the given fields and the size of the bytes, which
    /// cannot fail in memory.
    #[verifier::external_body]
    pub(crate) fn append(&mut self, member: &ArMember) -> (r: core::result::Result<
        (),
        std::io::Error,
    >)
        ensures
            r is Ok,
            ar_members(*final(self)) == ar_members(*old(self)).push(member@),
    {
        let size = member.bytes.len() as u64;
        let mut header = ar::Header::new(member.name.as_bytes().to_vec(), size);
        header.set_mode(member.mode);
        header.set_mtime(member.mtime);
        header.set_uid(member.uid);
        header.set_gid(member.gid);
        self.inner.append(&header, &member.bytes[..])
    }

    /// `ar::Builder::into_inner`, which cannot fail. The image depends on the members alone, and
    /// `ar::Archive` reads plain members back from it.
    #[verifier::external_body]
    pub(crate) fn finish(self) -> (r: core::result::Result<Vec<u8>, std::io::Error>)
        ensures
            r is Ok,
            r->Ok_0@ == ar_image(ar_members(self)),
            ar_reads_back(ar_members(self), r->Ok_0@),
    {
        self.inner.into_inner()
    }
}

impl ArReader {
    /// `ar::Archive::new` over a copy of the bytes.
    #[verifier::external_body]
    pub(crate) fn new(image: &[u8]) -> (r: Self)
        ensures
            ar_place(r) == (image@, 0nat),
    {
        ArReader { inner: ar::Archive::new(std::io::Cursor::new(image.to_vec())) }
    }

    /// `ar::Archive::next_entry`, and the bytes of the member it finds, where the reader gets
    /// there without a panic.
    #[verifier::external_body]
    pub(crate) fn next(&mut self) -> (r: Option<ArStep>)
        requires
            step_readable(ar_place(*old(self)).0, ar_place(*old(self)).1),
        ensures
            opt(r) == ar_step(ar_place(*old(self)).0, ar_place(*old(self)).1),
            ar_place(*final(self)) == (ar_place(*old(self)).0, ar_place(*old(self)).1 + 1),
    {
        let mut entry = match self.inner.next_entry()? {
            Ok(entry) => entry,
            Err(error) => return Some(ArStep::Failed { error }),
        };
        let name = String::from_utf8_lossy(entry.header().identifier()).into_owned();
        let mut bytes = Vec::new();
        match std::io::Read::read_to_end(&mut entry, &mut bytes) {
            Ok(_) => Some(ArStep::Member { name, bytes }),
            Err(error) => Some(ArStep::Unreadable { name, error }),
        }
    }
}

/// The text of a header field without the blanks behind it.
fn text_of_field(image: &[u8], from: usize, to: usize) -> (r: Option<String>)
    requires
        from <= to <= image@.len(),
    ensures
        opt(r) == field_text(image@.subrange(from as int, to as int)),
{
    match text_between(image, from, to) {
        Some(text) => Some(trim_end(text.as_str())),
        None => None,
    }
}

fn number_of_field(image: &[u8], from: usize, to: usize) -> (r: Option<u64>)
    requires
        from <= to <= image@.len(),
    ensures
        match r {
            Some(n) => field_number(image@.subrange(from as int, to as int)) == Some(n as nat),
            None => field_number(image@.subrange(from as int, to as int)) is None,
        },
{
    match text_of_field(image, from, to) {
        Some(text) => parse_unsigned(text.as_str()),
        None => None,
    }
}

fn is_owner_field(image: &[u8], from: usize, to: usize, gnu: bool) -> (b: bool)
    requires
        from <= to <= image@.len(),
    ensures
        b == owner_field(image@.subrange(from as int, to as int), gnu),
{
    match text_of_field(image, from, to) {
        Some(text) => {
            if parse_unsigned(text.as_str()).is_some() {
                true
            } else {
                let empty = same(text.as_str(), "");
                proof {
                    reveal_strlit("");
                    assert(""@ =~= Seq::<char>::empty());
                }
                gnu && empty
            }
        },
        None => false,
    }
}

fn are_fields_read(image: &[u8], at: usize, gnu: bool) -> (b: bool)
    requires
        at + MEMBER_HEADER_LEN <= image@.len(),
    ensures
        b == fields_read(image@.subrange(at as int, at + MEMBER_HEADER_LEN), gnu),
{
    let ghost h = image@.subrange(at as int, at + MEMBER_HEADER_LEN);
    let len: usize = image.len();
    assert(h.subrange(16, 28) =~= image@.subrange(at + 16, at + 28));
    assert(h.subrange(28, 34) =~= image@.subrange(at + 28, at + 34));
    assert(h.subrange(34, 40) =~= image@.subrange(at + 34, at + 40));
    assert(h.subrange(40, 48) =~= image@.subrange(at + 40, at + 48));
    if number_of_field(image, at + 16, at + 28).is_none() {
        return false;
    }
    if !is_owner_field(image, at + 28, at + 34, gnu) || !is_owner_field(
        image,
        at + 34,
        at + 40,
        gnu,
    ) {
        return false;
    }
    match text_of_field(image, at + 40, at + 48) {
        Some(text) => parse_octal(text.as_str()).is_some(),
        None => false,
    }
}

fn is_blank(image: &[u8], at: usize, from: usize, to: usize) -> (b: bool)
    requires
        from <= to <= MEMBER_HEADER_LEN,
        at + MEMBER_HEADER_LEN <= image@.len(),
    ensures
        b == blank(
            image@.subrange(at as int, at + MEMBER_HEADER_LEN),
            from as int,
            to as int,
        ),
{
    let ghost h = image@.subrange(at as int, at + MEMBER_HEADER_LEN);
    let len: usize = image.len();
    let mut i: usize = from;
    while i < to
        invariant
            from <= i <= to <= MEMBER_HEADER_LEN,
            at + MEMBER_HEADER_LEN <= len == image@.len(),
            h == image@.subrange(at as int, at + MEMBER_HEADER_LEN),
            blank(h, from as int, i as int),
        decreases to - i,
    {
        assert(h[i as int] == image@[at + i]);
        if image[at + i] != 0x20 {
            return false;
        }
        i = i + 1;
    }
    true
}

fn is_slash_ended(image: &[u8], at: usize) -> (b: bool)
    requires
        at + MEMBER_HEADER_LEN <= image@.len(),
    ensures
        b == slash_ends(image@.subrange(at as int, at + MEMBER_HEADER_LEN)),
{
    let ghost h = image@.subrange(at as int, at + MEMBER_HEADER_LEN);
    let len: usize = image.len();
    let mut end: usize = 16;
    while end > 0
        invariant
            end <= 16,
            at + MEMBER_HEADER_LEN <= len == image@.len(),
            h == image@.subrange(at as int, at + MEMBER_HEADER_LEN),
            blank(h, end as int, 16),
        decreases end,
    {
        assert(h[end - 1] == image@[at + end - 1]);
        if image[at + (end - 1)] == 0x2f {
            assert(h[end - 1] == 0x2f && blank(h, (end - 1) + 1, 16));
            return true;
        }
        if image[at + (end - 1)] != 0x20 {
            proof {
                let last = (end - 1) as int;
                assert(h[last] != 0x20);
                assert forall|i: int| 0 <= i < 16 && #[trigger] h[i] == 0x2f implies !blank(
                    h,
                    i + 1,
                    16,
                ) by {
                    if i < last {
                        assert(h[last] != 0x20);
                    }
                }
            }
            return false;
        }
        end = end - 1;
    }
    assert(forall|i: int| 0 <= i < 16 ==> #[trigger] h[i] == 0x20);
    false
}

/// Whether and how reading goes on behind a header.
enum Pace {
    Ends,
    Panics,
    Goes { at: u128, gnu: bool, names: u64, whole: bool },
}

spec fn stride_of(p: Pace) -> Stride {
    match p {
        Pace::Ends => Stride::Ends,
        Pace::Panics => Stride::Panics,
        Pace::Goes { at, gnu, names, whole } => Stride::Goes {
            next: Walk { at: at as nat, gnu, names: names as nat },
            whole,
        },
    }
}

fn pace_past(image: &[u8], from: u128, size: u64, gnu: bool, names: u64, whole: bool) -> (p: Pace)
    requires
        from <= u64::MAX,
    ensures
        stride_of(p) == past(
            image@,
            from as nat,
            size as nat,
            Walk { at: 0, gnu, names: names as nat },
            whole,
        ),
        p matches Pace::Goes { at, .. } ==> from <= at <= 2 * u64::MAX + 1,
{
    let end: u128 = from + size as u128;
    if size % 2 == 1 && end < image.len() as u128 && image[end as usize] != 0x0a {
        Pace::Ends
    } else {
        Pace::Goes { at: end + (size % 2) as u128, gnu, names, whole }
    }
}

/// What reading the header at a position comes to.
fn pace(image: &[u8], at: usize, gnu: bool, names: u64) -> (p: Pace)
    requires
        at + MEMBER_HEADER_LEN <= image@.len(),
    ensures
        stride_of(p) == stride(image@, Walk { at: at as nat, gnu, names: names as nat }),
        p matches Pace::Goes { at: next, .. } ==> at < next <= 2 * u64::MAX + 1,
{
    let ghost h = image@.subrange(at as int, at + MEMBER_HEADER_LEN);
    let len: u128 = image.len() as u128;
    let from: u128 = at as u128 + 60;
    let limit: u64 = isize::MAX as u64;
    assert(h.subrange(48, 58) =~= image@.subrange(at + 48, at + 58));
    assert(h.subrange(1, 16) =~= image@.subrange(at + 1, at + 16));
    assert(h[0] == image@[at as int] && h[1] == image@[at + 1] && h[2] == image@[at + 2]);
    let size: u64 = match number_of_field(image, at + 48, at + 58) {
        None => {
            return Pace::Ends;
        },
        Some(size) => size,
    };
    if image[at] == 0x2f {
        if is_blank(image, at, 1, 16) {
            return pace_past(image, from, size, true, names, false);
        }
        if image[at + 1] == 0x2f && is_blank(image, at, 2, 16) {
            return if size > limit {
                Pace::Panics
            } else if from + size as u128 > len {
                Pace::Ends
            } else {
                pace_past(image, from, size, true, size, false)
            };
        }
        return match number_of_field(image, at + 1, at + 16) {
            None => Pace::Ends,
            Some(index) => if index > names {
                Pace::Panics
            } else if !are_fields_read(image, at, true) {
                Pace::Ends
            } else {
                pace_past(image, from, size, true, names, true)
            },
        };
    }
    let gnu = gnu || is_slash_ended(image, at);
    if !are_fields_read(image, at, gnu) {
        return Pace::Ends;
    }
    if !gnu && image[at] == 0x23 && image[at + 1] == 0x31 && image[at + 2] == 0x2f {
        return if LARGEST > limit {
            Pace::Panics
        } else {
            Pace::Ends
        };
    }
    pace_past(image, from, size, gnu, names, true)
}

/// Whether the step at a position, and those before it, are taken without a panic.
pub fn is_step_readable(image: &[u8], index: usize) -> (b: bool)
    ensures
        b == step_readable(image@, index as nat),
{
    let len: usize = image.len();
    if len < 8 {
        return true;
    }
    let ghost begins = image@.take(8);
    if image[0] != 0x21 || image[1] != 0x3c || image[2] != 0x61 || image[3] != 0x72 || image[4]
        != 0x63 || image[5] != 0x68 || image[6] != 0x3e || image[7] != 0x0a {
        proof {
            let magic = global_header();
            assert(begins[0] != magic[0] || begins[1] != magic[1] || begins[2] != magic[2]
                || begins[3] != magic[3] || begins[4] != magic[4] || begins[5] != magic[5]
                || begins[6] != magic[6] || begins[7] != magic[7]);
        }
        return true;
    }
    assert(begins =~= global_header());
    let mut left: u128 = index as u128 + 1;
    let mut at: u128 = 8;
    let mut gnu = false;
    let mut names: u64 = 0;
    while left > 0 && at + 60 <= len as u128
        invariant
            len == image@.len(),
            at <= 2 * u64::MAX + 1,
            left <= index + 1,
            step_readable(image@, index as nat) == ar_members_readable(
                image@,
                Walk { at: at as nat, gnu, names: names as nat },
                left as nat,
            ),
        decreases 2 * u64::MAX + 1 - at,
    {
        match pace(image, at as usize, gnu, names) {
            Pace::Ends => {
                return true;
            },
            Pace::Panics => {
                return false;
            },
            Pace::Goes { at: next, gnu: met, names: table, whole } => {
                at = next;
                gnu = met;
                names = table;
                if whole {
                    left = left - 1;
                }
            },
        }
    }
    true
}

} // verus!
