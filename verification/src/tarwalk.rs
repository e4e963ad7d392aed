//! How far `tar::Archive` reads a tarball.
//!
//! Its reader follows the headers block by block. It panics where the extension headers of a
//! sparse member carry the position of the next header past what 64 bits hold, and where the
//! bytes of a sparse member, its holes filled, are more than any vector holds.

use vstd::prelude::*;

use crate::codec::{decoded, text_between};
use crate::digits::{octal_of, parse_octal, parse_unsigned, unsigned_of};
use crate::strings::{trim, trimmed};

verus! {

pub const BLOCK_LEN: usize = 512;

/// Where a reader stands between two headers: at which byte, and behind which extended header
/// records.
pub struct TarWalk {
    pub at: nat,
    pub records: Option<(nat, nat)>,
}

/// What reading one header comes to.
pub enum TarStride {
    /// Reading ends here, at the end of the tarball or with an error.
    Ends,
    /// The reader panics.
    Panics,
    /// There may be another header. The one just read may belong to the member behind it.
    Goes { next: TarWalk, whole: bool },
}

// ---- fields -----------------------------------------------------------------------------

pub open spec fn first_nul(field: Seq<u8>, from: int) -> int
    decreases field.len() - from,
{
    if from >= field.len() || field[from] == 0 {
        from
    } else {
        first_nul(field, from + 1)
    }
}

/// Eight bytes, the most significant first.
pub open spec fn big_endian(b: Seq<u8>) -> nat {
    (b[0] * 0x100_0000_0000_0000 + b[1] * 0x1_0000_0000_0000 + b[2] * 0x100_0000_0000 + b[3]
        * 0x1_0000_0000 + b[4] * 0x100_0000 + b[5] * 0x1_0000 + b[6] * 0x100 + b[7]) as nat
}

/// The number in a field of twelve bytes: octal digits up to a zero byte, or, marked by its
/// first bit, the last eight bytes as they are.
pub open spec fn size_field(field: Seq<u8>) -> Option<nat> {
    if field[0] >= 0x80 {
        Some(big_endian(field.subrange(4, 12)))
    } else {
        match decoded(field.subrange(0, first_nul(field, 0))) {
            Some(text) => octal_of(trimmed(text)),
            None => None,
        }
    }
}

pub open spec fn gnu_header(h: Seq<u8>) -> bool {
    h.subrange(257, 265) == seq![0x75u8, 0x73, 0x74, 0x61, 0x72, 0x20, 0x20, 0x00]
}

pub open spec fn ustar_header(h: Seq<u8>) -> bool {
    h.subrange(257, 265) == seq![0x75u8, 0x73, 0x74, 0x61, 0x72, 0x00, 0x30, 0x30]
}

pub open spec fn blank_block(h: Seq<u8>) -> bool {
    forall|i: int| 0 <= i < h.len() ==> #[trigger] h[i] == 0
}

// ---- extended header records ---------------------------------------------------------------

/// The first `byte` from a position on, or the end.
pub open spec fn first_byte(data: Seq<u8>, from: int, to: int, byte: u8) -> int
    decreases to - from,
{
    if from >= to || data[from] == byte {
        from
    } else {
        first_byte(data, from + 1, to, byte)
    }
}

pub open spec fn number_in(bytes: Seq<u8>) -> Option<nat> {
    match decoded(bytes) {
        Some(text) => unsigned_of(text),
        None => None,
    }
}

/// What one record says of the size of the member it belongs to.
pub enum RecordSays {
    /// It is malformed, or it gives no number.
    Nothing,
    /// It is about something else.
    Other,
    Size(nat),
}

/// A record: its length, a space, a key, an equals sign and a value.
pub open spec fn record_says(data: Seq<u8>, from: int, to: int) -> RecordSays {
    let space = first_byte(data, from, to, 0x20);
    let equals = first_byte(data, space + 1, to, 0x3d);
    if space >= to || number_in(data.subrange(from, space)) != Some((to - from + 1) as nat)
        || equals >= to {
        RecordSays::Nothing
    } else if data.subrange(space + 1, equals) != seq![0x73u8, 0x69, 0x7a, 0x65] {
        RecordSays::Other
    } else {
        match number_in(data.subrange(equals + 1, to)) {
            Some(n) => RecordSays::Size(n),
            None => RecordSays::Nothing,
        }
    }
}

/// The size some extended header records give, from a position on: what the first of them that
/// is about the size says.
pub open spec fn recorded_size(data: Seq<u8>, from: int, to: int) -> Option<nat>
    decreases to - from,
{
    let end = first_byte(data, from, to, 0x0a);
    if from >= to || end <= from {
        None
    } else {
        match record_says(data, from, end) {
            RecordSays::Nothing => None,
            RecordSays::Size(n) => Some(n),
            RecordSays::Other => if end < to {
                recorded_size(data, end + 1, to)
            } else {
                None
            },
        }
    }
}

// ---- headers ------------------------------------------------------------------------------

/// How many extension headers a sparse member has from a position on, if they are all there.
pub open spec fn extensions(image: Seq<u8>, at: nat) -> Option<nat>
    decreases image.len() - at,
{
    if at + BLOCK_LEN > image.len() {
        None
    } else if image[at as int + 504] == 1 {
        match extensions(image, at + BLOCK_LEN as nat) {
            Some(k) => Some(k + 1),
            None => None,
        }
    } else {
        Some(1)
    }
}

/// The bytes of whole blocks that hold `size` bytes.
pub open spec fn in_blocks(size: nat) -> nat {
    (size + 511) / 512 * 512
}

/// The size of a member: what the records before it say, if it is not a header extension
/// itself, or else what its own header says.
pub open spec fn member_size(image: Seq<u8>, w: TarWalk, kind: u8, own: nat) -> nat {
    if kind == 0x4b || kind == 0x4c || kind == 0x67 || kind == 0x78 {
        own
    } else {
        match w.records {
            Some(records) => match recorded_size(image, records.0 as int, records.1 as int) {
                Some(n) => n,
                None => own,
            },
            None => own,
        }
    }
}

/// Whether the bytes of a sparse member are more than a vector holds: its holes, and what there
/// is of its data from a position on.
pub open spec fn outsized(h: Seq<u8>, size: nat, left: nat) -> bool {
    match size_field(h.subrange(483, 495)) {
        Some(filled) => filled >= size && filled - size + (if size < left {
            size
        } else {
            left
        }) > isize::MAX,
        None => false,
    }
}

/// What reading the header of a sparse member comes to. Where extension headers are missing the
/// reader panics or gives an error.
pub open spec fn sparse_stride(image: Seq<u8>, h: Seq<u8>, data: nat, size: nat) -> TarStride {
    let next = data + in_blocks(size);
    let more = if h[482] == 1 {
        extensions(image, data)
    } else {
        Some(0nat)
    };
    match more {
        None => if next + image.len() > u64::MAX {
            TarStride::Panics
        } else {
            TarStride::Ends
        },
        Some(k) => {
            let from = data + BLOCK_LEN as nat * k;
            let at = next + BLOCK_LEN as nat * k;
            if at > u64::MAX || outsized(h, size, (image.len() - from) as nat) {
                TarStride::Panics
            } else {
                TarStride::Goes { next: TarWalk { at, records: None }, whole: true }
            }
        },
    }
}

/// What reading the header at a position comes to.
pub open spec fn tar_stride(image: Seq<u8>, w: TarWalk) -> TarStride {
    let data = w.at + BLOCK_LEN as nat;
    let h = image.subrange(w.at as int, data as int);
    let kind = h[156];
    let known = gnu_header(h) || ustar_header(h);
    if data > image.len() || blank_block(h) {
        TarStride::Ends
    } else {
        match size_field(h.subrange(124, 136)) {
            None => TarStride::Ends,
            Some(own) => {
                let size = member_size(image, w, kind, own);
                let next = data + in_blocks(size);
                if size + 511 > u64::MAX || next > u64::MAX {
                    TarStride::Ends
                } else if known && kind == 0x78 {
                    if w.records is Some {
                        TarStride::Ends
                    } else {
                        let end = if data + size < image.len() {
                            data + size
                        } else {
                            image.len()
                        };
                        TarStride::Goes {
                            next: TarWalk { at: next, records: Some((data, end)) },
                            whole: false,
                        }
                    }
                } else if known && (kind == 0x4b || kind == 0x4c) {
                    TarStride::Goes {
                        next: TarWalk { at: next, records: w.records },
                        whole: false,
                    }
                } else if kind == 0x53 {
                    if gnu_header(h) {
                        sparse_stride(image, h, data, size)
                    } else {
                        TarStride::Ends
                    }
                } else {
                    TarStride::Goes { next: TarWalk { at: next, records: None }, whole: true }
                }
            },
        }
    }
}

/// Whether the next `n` members from a position on are read without a panic, as far as there are
/// so many.
pub open spec fn members_readable(image: Seq<u8>, w: TarWalk, n: nat) -> bool
    decreases
            if w.at < image.len() {
                image.len() - w.at
            } else {
                0int
            },
{
    n == 0 || match tar_stride(image, w) {
        TarStride::Ends => true,
        TarStride::Panics => false,
        TarStride::Goes { next, whole } => members_readable(
            image,
            next,
            if whole {
                (n - 1) as nat
            } else {
                n
            },
        ),
    }
}

/// Whether the member at a position, and those before it, are read without a panic.
pub open spec fn member_readable(image: Seq<u8>, index: nat) -> bool {
    members_readable(image, TarWalk { at: 0, records: None }, index + 1)
}

// ---- the test -------------------------------------------------------------------------------

fn find_byte(data: &[u8], from: usize, to: usize, byte: u8) -> (r: usize)
    requires
        from <= to <= data@.len(),
    ensures
        r == first_byte(data@, from as int, to as int, byte),
        from <= r <= to,
{
    let mut i: usize = from;
    while i < to && data[i] != byte
        invariant
            from <= i <= to <= data@.len(),
            first_byte(data@, from as int, to as int, byte) == first_byte(
                data@,
                i as int,
                to as int,
                byte,
            ),
        decreases to - i,
    {
        i = i + 1;
    }
    i
}

fn number_between(data: &[u8], from: usize, to: usize) -> (r: Option<u64>)
    requires
        from <= to <= data@.len(),
    ensures
        match r {
            Some(n) => number_in(data@.subrange(from as int, to as int)) == Some(n as nat),
            None => number_in(data@.subrange(from as int, to as int)) is None,
        },
{
    match text_between(data, from, to) {
        Some(text) => parse_unsigned(text.as_str()),
        None => None,
    }
}

/// The number in the field of twelve bytes at a position.
fn size_at(image: &[u8], at: usize) -> (r: Option<u64>)
    requires
        at + 12 <= image@.len(),
    ensures
        match r {
            Some(n) => size_field(image@.subrange(at as int, at + 12)) == Some(n as nat),
            None => size_field(image@.subrange(at as int, at + 12)) is None,
        },
{
    let len: usize = image.len();
    let ghost field = image@.subrange(at as int, at + 12);
    assert(field[0] == image@[at as int]);
    if image[at] >= 0x80 {
        assert(field.subrange(4, 12) =~= image@.subrange(at + 4, at + 12));
        let ghost b = field.subrange(4, 12);
        assert(b[0] == image@[at + 4] && b[1] == image@[at + 5] && b[2] == image@[at + 6] && b[3]
            == image@[at + 7] && b[4] == image@[at + 8] && b[5] == image@[at + 9] && b[6]
            == image@[at + 10] && b[7] == image@[at + 11]);
        let n: u64 = image[at + 4] as u64 * 0x100_0000_0000_0000 + image[at + 5] as u64
            * 0x1_0000_0000_0000 + image[at + 6] as u64 * 0x100_0000_0000 + image[at + 7] as u64
            * 0x1_0000_0000 + image[at + 8] as u64 * 0x100_0000 + image[at + 9] as u64 * 0x1_0000
            + image[at + 10] as u64 * 0x100 + image[at + 11] as u64;
        return Some(n);
    }
    let mut end: usize = at;
    while end < at + 12 && image[end] != 0
        invariant
            at <= end <= at + 12 <= len == image@.len(),
            field == image@.subrange(at as int, at + 12),
            first_nul(field, 0) == first_nul(field, end - at),
        decreases at + 12 - end,
    {
        assert(field[end - at] == image@[end as int]);
        end = end + 1;
    }
    proof {
        if end < at + 12 {
            assert(field[end - at] == image@[end as int]);
        }
        assert(field.subrange(0, end - at) =~= image@.subrange(at as int, end as int));
    }
    match text_between(image, at, end) {
        Some(text) => parse_octal(trim(text.as_str()).as_str()),
        None => None,
    }
}

/// Whether the header at a position bears one of the two marks.
fn has_mark(image: &[u8], at: usize, gnu: bool) -> (b: bool)
    requires
        at + BLOCK_LEN <= image@.len(),
    ensures
        b == (if gnu {
            gnu_header(image@.subrange(at as int, at + BLOCK_LEN))
        } else {
            ustar_header(image@.subrange(at as int, at + BLOCK_LEN))
        }),
{
    let len: usize = image.len();
    let ghost h = image@.subrange(at as int, at + BLOCK_LEN);
    let ghost mark = h.subrange(257, 265);
    let ghost wanted = if gnu {
        seq![0x75u8, 0x73, 0x74, 0x61, 0x72, 0x20, 0x20, 0x00]
    } else {
        seq![0x75u8, 0x73, 0x74, 0x61, 0x72, 0x00, 0x30, 0x30]
    };
    let (a, b, c): (u8, u8, u8) = if gnu {
        (0x20, 0x20, 0x00)
    } else {
        (0x00, 0x30, 0x30)
    };
    let found = image[at + 257] == 0x75 && image[at + 258] == 0x73 && image[at + 259] == 0x74
        && image[at + 260] == 0x61 && image[at + 261] == 0x72 && image[at + 262] == a && image[at
        + 263] == b && image[at + 264] == c;
    proof {
        assert(mark.len() == 8 && wanted.len() == 8);
        assert(mark[0] == image@[at + 257] && mark[1] == image@[at + 258] && mark[2] == image@[at
            + 259] && mark[3] == image@[at + 260] && mark[4] == image@[at + 261] && mark[5]
            == image@[at + 262] && mark[6] == image@[at + 263] && mark[7] == image@[at + 264]);
        if found {
            assert(mark =~= wanted);
        } else {
            assert(mark[0] != wanted[0] || mark[1] != wanted[1] || mark[2] != wanted[2] || mark[3]
                != wanted[3] || mark[4] != wanted[4] || mark[5] != wanted[5] || mark[6]
                != wanted[6] || mark[7] != wanted[7]);
        }
    }
    found
}

fn is_blank_block(image: &[u8], at: usize) -> (b: bool)
    requires
        at + BLOCK_LEN <= image@.len(),
    ensures
        b == blank_block(image@.subrange(at as int, at + BLOCK_LEN)),
{
    let len: usize = image.len();
    let ghost h = image@.subrange(at as int, at + BLOCK_LEN);
    let mut i: usize = 0;
    while i < 512
        invariant
            i <= 512,
            at + BLOCK_LEN <= len == image@.len(),
            h == image@.subrange(at as int, at + BLOCK_LEN),
            forall|k: int| 0 <= k < i ==> #[trigger] h[k] == 0,
        decreases 512 - i,
    {
        assert(h[i as int] == image@[at + i]);
        if image[at + i] != 0 {
            return false;
        }
        i = i + 1;
    }
    true
}

fn size_recorded(data: &[u8], from: usize, to: usize) -> (r: Option<u64>)
    requires
        from <= to <= data@.len(),
    ensures
        match r {
            Some(n) => recorded_size(data@, from as int, to as int) == Some(n as nat),
            None => recorded_size(data@, from as int, to as int) is None,
        },
{
    let mut at: usize = from;
    while at < to
        invariant
            at <= to <= data@.len(),
            recorded_size(data@, from as int, to as int) == recorded_size(
                data@,
                at as int,
                to as int,
            ),
        decreases to - at,
    {
        let end = find_byte(data, at, to, 0x0a);
        if end == at {
            return None;
        }
        let space = find_byte(data, at, end, 0x20);
        if space == end {
            return None;
        }
        match number_between(data, at, space) {
            Some(n) => if n as u128 != (end - at) as u128 + 1 {
                return None;
            },
            None => {
                return None;
            },
        }
        let equals = find_byte(data, space + 1, end, 0x3d);
        if equals == end {
            return None;
        }
        let ghost key = data@.subrange(space + 1, equals as int);
        let ghost size = seq![0x73u8, 0x69, 0x7a, 0x65];
        let about = equals - space == 5 && data[space + 1] == 0x73 && data[space + 2] == 0x69
            && data[space + 3] == 0x7a && data[space + 4] == 0x65;
        proof {
            if about {
                assert(key =~= size);
            } else if equals - space == 5 {
                assert(key[0] != size[0] || key[1] != size[1] || key[2] != size[2] || key[3]
                    != size[3]);
            } else {
                assert(key.len() != size.len());
            }
        }
        if about {
            return number_between(data, equals + 1, end);
        }
        if end == to {
            return None;
        }
        at = end + 1;
    }
    None
}

fn count_extensions(image: &[u8], from: usize) -> (r: Option<usize>)
    requires
        from <= image@.len(),
    ensures
        match r {
            Some(k) => extensions(image@, from as nat) == Some(k as nat) && k * 512 <= image@.len()
                - from,
            None => extensions(image@, from as nat) is None,
        },
{
    let len: usize = image.len();
    let mut at: usize = from;
    let mut k: usize = 0;
    while len - at >= 512
        invariant
            from <= at <= len == image@.len(),
            k * 512 == at - from,
            extensions(image@, from as nat) == (match extensions(image@, at as nat) {
                Some(rest) => Some(rest + k as nat),
                None => None,
            }),
        decreases len - at,
    {
        if image[at + 504] != 1 {
            return Some(k + 1);
        }
        k = k + 1;
        at = at + 512;
    }
    None
}

/// Where a reader goes from a header, if reading goes on.
enum TarPace {
    Ends,
    Panics,
    Goes { at: u128, records: Option<(usize, usize)>, whole: bool },
}

spec fn within(records: Option<(usize, usize)>, len: nat) -> bool {
    match records {
        Some((from, to)) => from <= to <= len,
        None => true,
    }
}

spec fn walk_of(at: nat, records: Option<(usize, usize)>) -> TarWalk {
    TarWalk {
        at,
        records: match records {
            Some(found) => Some((found.0 as nat, found.1 as nat)),
            None => None,
        },
    }
}

spec fn tar_stride_of(p: TarPace) -> TarStride {
    match p {
        TarPace::Ends => TarStride::Ends,
        TarPace::Panics => TarStride::Panics,
        TarPace::Goes { at, records, whole } => TarStride::Goes {
            next: walk_of(at as nat, records),
            whole,
        },
    }
}

fn size_of_member(image: &[u8], records: Option<(usize, usize)>, kind: u8, own: u64) -> (n: u64)
    requires
        within(records, image@.len()),
    ensures
        n == member_size(image@, walk_of(0, records), kind, own as nat),
{
    if kind == 0x4b || kind == 0x4c || kind == 0x67 || kind == 0x78 {
        return own;
    }
    match records {
        Some((from, to)) => match size_recorded(image, from, to) {
            Some(n) => n,
            None => own,
        },
        None => own,
    }
}

fn tar_pace(image: &[u8], at: usize, records: Option<(usize, usize)>) -> (p: TarPace)
    requires
        at + BLOCK_LEN <= image@.len(),
        within(records, image@.len()),
    ensures
        tar_stride_of(p) == tar_stride(image@, walk_of(at as nat, records)),
        p matches TarPace::Goes { at: next, records: found, whole } ==> next > at && next
            <= u64::MAX && within(found, image@.len()),
{
    let len: usize = image.len();
    let data: usize = at + 512;
    let ghost h = image@.subrange(at as int, data as int);
    assert(h[156] == image@[at + 156] && h[482] == image@[at + 482]);
    assert(h.subrange(124, 136) =~= image@.subrange(at + 124, at + 136));
    assert(h.subrange(483, 495) =~= image@.subrange(at + 483, at + 495));
    if is_blank_block(image, at) {
        return TarPace::Ends;
    }
    let own: u64 = match size_at(image, at + 124) {
        None => {
            return TarPace::Ends;
        },
        Some(own) => own,
    };
    let kind: u8 = image[at + 156];
    let size: u64 = size_of_member(image, records, kind, own);
    if size > u64::MAX - 511 {
        return TarPace::Ends;
    }
    let whole: u64 = (size + 511) / 512 * 512;
    assert(whole == in_blocks(size as nat));
    let next: u128 = data as u128 + whole as u128;
    if next > u64::MAX as u128 {
        return TarPace::Ends;
    }
    let gnu = has_mark(image, at, true);
    let known = gnu || has_mark(image, at, false);
    if known && kind == 0x78 {
        if records.is_some() {
            return TarPace::Ends;
        }
        let end: usize = if size < (len - data) as u64 {
            data + size as usize
        } else {
            len
        };
        return TarPace::Goes { at: next, records: Some((data, end)), whole: false };
    }
    if known && (kind == 0x4b || kind == 0x4c) {
        return TarPace::Goes { at: next, records, whole: false };
    }
    if kind == 0x53 {
        return if gnu {
            sparse_pace(image, at, size, next)
        } else {
            TarPace::Ends
        };
    }
    TarPace::Goes { at: next, records: None, whole: true }
}

/// What reading the header of a sparse member comes to.
fn sparse_pace(image: &[u8], at: usize, size: u64, next: u128) -> (p: TarPace)
    requires
        at + BLOCK_LEN <= image@.len(),
        next == at + BLOCK_LEN + in_blocks(size as nat),
        next <= u64::MAX,
    ensures
        tar_stride_of(p) == sparse_stride(
            image@,
            image@.subrange(at as int, at + BLOCK_LEN),
            (at + BLOCK_LEN) as nat,
            size as nat,
        ),
        p matches TarPace::Goes { at: to, records: found, whole } ==> to > at && to <= u64::MAX
            && found is None,
{
    let len: usize = image.len();
    let data: usize = at + 512;
    let ghost h = image@.subrange(at as int, data as int);
    assert(h[482] == image@[at + 482]);
    assert(h.subrange(483, 495) =~= image@.subrange(at + 483, at + 495));
    let mut k: usize = 0;
    if image[at + 482] == 1 {
        match count_extensions(image, data) {
            None => {
                return if next + len as u128 > u64::MAX as u128 {
                    TarPace::Panics
                } else {
                    TarPace::Ends
                };
            },
            Some(found) => {
                k = found;
            },
        }
    }
    let to: u128 = next + 512 * k as u128;
    if to > u64::MAX as u128 {
        return TarPace::Panics;
    }
    let left: u128 = (len - data - 512 * k) as u128;
    let there: u128 = if (size as u128) < left {
        size as u128
    } else {
        left
    };
    match size_at(image, at + 483) {
        Some(filled) => if filled >= size && (filled - size) as u128 + there > isize::MAX as u128 {
            return TarPace::Panics;
        },
        None => {},
    }
    TarPace::Goes { at: to, records: None, whole: true }
}

/// Whether the member at a position, and those before it, are read without a panic.
pub fn is_member_readable(image: &[u8], index: usize) -> (b: bool)
    ensures
        b == member_readable(image@, index as nat),
{
    let len: usize = image.len();
    let mut left: u128 = index as u128 + 1;
    let mut at: u128 = 0;
    let mut records: Option<(usize, usize)> = None;
    while left > 0 && at + 512 <= len as u128
        invariant
            len == image@.len(),
            at <= u64::MAX,
            within(records, len as nat),
            left <= index + 1,
            member_readable(image@, index as nat) == members_readable(
                image@,
                walk_of(at as nat, records),
                left as nat,
            ),
        decreases u64::MAX - at,
    {
        match tar_pace(image, at as usize, records) {
            TarPace::Ends => {
                return true;
            },
            TarPace::Panics => {
                return false;
            },
            TarPace::Goes { at: next, records: found, whole } => {
                at = next;
                records = found;
                if whole {
                    left = left - 1;
                }
            },
        }
    }
    true
}

} // verus!
