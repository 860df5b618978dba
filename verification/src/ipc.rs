//! The framing of a columnar stream, checked before the stream is decoded.
//!
//! A stream is a run of messages, each a length, a metadata table and a
//! body. The metadata of a record batch, and of the data of a dictionary
//! batch, lists the buffers of the batch as pairs of an offset into the body
//! and a length. The decoder cuts the buffers out of the body by these pairs
//! and does not return where a pair points past the body. So a stream goes
//! to the decoder only once every pair of every message is known to lie
//! inside the body it belongs to.
//!
//! Numbers are little-endian. A table starts with the distance back to its
//! list of fields; the list gives, for each field, its distance from the
//! start of the table, or nothing where the field is left out.

use vstd::prelude::*;

verus! {

/// Where a field of a table stands.
#[derive(Debug, Clone, Copy)]
pub enum Slot {
    /// The table cannot be read.
    Broken,
    /// The table leaves the field out.
    Absent,
    /// The field stands at this position.
    At(usize),
}

/// The two bytes at `at` as a number; `None` where they are not there.
pub open spec fn le_u16(b: Seq<u8>, at: int) -> Option<int> {
    if 0 <= at && at + 2 <= b.len() {
        Some(b[at] as int + 256 * (b[at + 1] as int))
    } else {
        None
    }
}

/// The four bytes at `at` as a number; `None` where they are not there.
pub open spec fn le_u32(b: Seq<u8>, at: int) -> Option<int> {
    if 0 <= at && at + 4 <= b.len() {
        Some(
            b[at] as int + 256 * (b[at + 1] as int) + 65536 * (b[at + 2] as int) + 16777216 * (b[at
                + 3] as int),
        )
    } else {
        None
    }
}

/// The eight bytes at `at` as a number without sign; `None` where they are
/// not there.
pub open spec fn le_u64(b: Seq<u8>, at: int) -> Option<int> {
    match (le_u32(b, at), le_u32(b, at + 4)) {
        (Some(low), Some(high)) => Some(low + 4294967296 * high),
        _ => None,
    }
}

/// Whether what was read is the number `s`, or nothing where `s` is nothing.
pub open spec fn read_as(r: Option<usize>, s: Option<int>) -> bool {
    match r {
        Some(v) => s == Some(v as int),
        None => s is None,
    }
}

/// The position that the reference at `place` points to: as far behind
/// `place` as the four bytes there say, and inside the stream.
pub open spec fn target(b: Seq<u8>, place: int) -> Option<int> {
    match le_u32(b, place) {
        Some(distance) => if place + distance <= b.len() {
            Some(place + distance)
        } else {
            None
        },
        None => None,
    }
}

/// Where the field with the number `index` of the table at `table` stands.
pub open spec fn slot(b: Seq<u8>, table: int, index: int) -> Slot {
    match le_u32(b, table) {
        None => Slot::Broken,
        Some(raw) => {
            // The distance back to the list of fields is a signed number.
            let fields = if raw < 0x8000_0000 {
                table - raw
            } else {
                table + (0x1_0000_0000 - raw)
            };
            match le_u16(b, fields) {
                None => Slot::Broken,
                Some(size) => if 4 + 2 * index + 2 > size {
                    Slot::Absent
                } else {
                    match le_u16(b, fields + 4 + 2 * index) {
                        None => Slot::Broken,
                        Some(distance) => if distance == 0 {
                            Slot::Absent
                        } else if table + distance > b.len() {
                            Slot::Broken
                        } else {
                            Slot::At((table + distance) as usize)
                        },
                    }
                },
            }
        },
    }
}

/// Whether the pair of offset and length at `at` lies inside a body of
/// `body_len` bytes: neither is negative, and together they do not pass the
/// end of the body.
pub open spec fn pair_inside(b: Seq<u8>, at: int, body_len: int) -> bool {
    match (le_u64(b, at), le_u64(b, at + 8)) {
        (Some(offset), Some(length)) => offset < 0x8000_0000_0000_0000 && length
            < 0x8000_0000_0000_0000 && offset + length <= body_len,
        _ => false,
    }
}

/// Whether the pair with the number `i` of the list at `start` lies inside
/// the body.
pub open spec fn listed_pair_inside(b: Seq<u8>, start: int, i: int, body_len: int) -> bool {
    pair_inside(b, start + 16 * i, body_len)
}

/// Whether every one of the `count` pairs listed from `start` on lies
/// inside the body.
pub open spec fn pairs_inside(b: Seq<u8>, start: int, count: int, body_len: int) -> bool {
    forall|i: int| 0 <= i < count ==> #[trigger] listed_pair_inside(b, start, i, body_len)
}

/// Whether the buffers of the batch whose table stands at `record` lie
/// inside a body of `body_len` bytes. A batch that lists no buffers has
/// none to cut out.
pub open spec fn batch_sound(b: Seq<u8>, record: int, body_len: int) -> bool {
    match slot(b, record, 2) {
        Slot::Broken => false,
        Slot::Absent => true,
        Slot::At(place) => match target(b, place as int) {
            None => false,
            Some(list) => match le_u32(b, list) {
                None => false,
                Some(count) => pairs_inside(b, list + 4, count, body_len),
            },
        },
    }
}

/// The length of the body that the message at `table` declares: nothing
/// where it declares none, no length at all where the number cannot be read
/// or is negative.
pub open spec fn body_length(b: Seq<u8>, table: int) -> Option<int> {
    match slot(b, table, 3) {
        Slot::Broken => None,
        Slot::Absent => Some(0),
        Slot::At(place) => match le_u64(b, place as int) {
            Some(length) => if length < 0x8000_0000_0000_0000 {
                Some(length)
            } else {
                None
            },
            None => None,
        },
    }
}

/// The kind of the message at `table`: 2 for a dictionary batch, 3 for a
/// record batch.
pub open spec fn header_kind(b: Seq<u8>, table: int) -> Option<int> {
    match slot(b, table, 1) {
        Slot::Broken => None,
        Slot::Absent => Some(0),
        Slot::At(place) => if place < b.len() {
            Some(b[place as int] as int)
        } else {
            None
        },
    }
}

/// The table that the field with the number `index` of the table at
/// `table` refers to.
pub open spec fn referred(b: Seq<u8>, table: int, index: int) -> Slot {
    match slot(b, table, index) {
        Slot::Broken => Slot::Broken,
        Slot::Absent => Slot::Absent,
        Slot::At(place) => match target(b, place as int) {
            Some(to) => Slot::At(to as usize),
            None => Slot::Broken,
        },
    }
}

/// Whether the buffers that the message at `table` lists lie inside its
/// body. Only a record batch and the data of a dictionary batch list any.
pub open spec fn header_sound(b: Seq<u8>, table: int, body_len: int) -> bool {
    match header_kind(b, table) {
        None => false,
        Some(kind) => if kind == 3 {
            referred(b, table, 2) matches Slot::At(record) && batch_sound(
                b,
                record as int,
                body_len,
            )
        } else if kind == 2 {
            match referred(b, table, 2) {
                Slot::At(dictionary) => match referred(b, dictionary as int, 1) {
                    Slot::Broken => false,
                    Slot::Absent => true,
                    Slot::At(record) => batch_sound(b, record as int, body_len),
                },
                _ => false,
            }
        } else {
            true
        },
    }
}

/// Where the message ends whose metadata stands at `start` and is `len`
/// bytes long; `None` where the message is refused: its table cannot be
/// read, its body is not all there, or one of its buffers does not lie
/// inside its body.
pub open spec fn message_end(b: Seq<u8>, start: int, len: int) -> Option<int> {
    match target(b, start) {
        None => None,
        Some(table) => match body_length(b, table) {
            None => None,
            Some(body_len) => if start + len + body_len <= b.len() && header_sound(
                b,
                table,
                body_len,
            ) {
                Some(start + len + body_len)
            } else {
                None
            },
        },
    }
}

/// The metadata of the message that begins at `at`: its position and its
/// length. `None` where the stream ends at `at`: fewer than four bytes are
/// left, the length is not positive, or the metadata is not all there. A
/// length may be preceded by four bytes that are all ones.
pub open spec fn metadata_at(b: Seq<u8>, at: int) -> Option<(int, int)> {
    match le_u32(b, at) {
        None => None,
        Some(first) => if first == 0xFFFF_FFFF {
            match le_u32(b, at + 4) {
                None => None,
                Some(second) => measured(b, at + 8, second),
            }
        } else {
            measured(b, at + 4, first)
        },
    }
}

/// Metadata of `len` bytes at `start`, where that length is positive and
/// the bytes are there.
pub open spec fn measured(b: Seq<u8>, start: int, len: int) -> Option<(int, int)> {
    if 0 < len < 0x8000_0000 && start + len <= b.len() {
        Some((start, len))
    } else {
        None
    }
}

/// Whether every message from `at` on is sound.
pub open spec fn sound_from(b: Seq<u8>, at: int) -> bool
    decreases b.len() - at,
{
    match metadata_at(b, at) {
        None => true,
        Some((start, len)) => match message_end(b, start, len) {
            None => false,
            Some(next) => if at < next <= b.len() {
                sound_from(b, next)
            } else {
                false
            },
        },
    }
}

/// Whether a stream can be handed to the decoder: every buffer of every
/// message lies inside the body of its message.
pub open spec fn sound_stream(b: Seq<u8>) -> bool {
    sound_from(b, 0)
}

/// Reads the two bytes at `at`.
pub fn read_u16(b: &[u8], at: usize) -> (r: Option<usize>)
    ensures
        read_as(r, le_u16(b@, at as int)),
        r is Some ==> at + 2 <= b@.len(),
        r matches Some(v) ==> v < 0x1_0000,
{
    if at <= b.len() && b.len() - at >= 2 {
        let low = b[at] as usize;
        let high = b[at + 1] as usize;
        Some(low + 256 * high)
    } else {
        None
    }
}

/// Reads the four bytes at `at`.
pub fn read_u32(b: &[u8], at: usize) -> (r: Option<u32>)
    ensures
        match r {
            Some(v) => le_u32(b@, at as int) == Some(v as int),
            None => le_u32(b@, at as int) is None,
        },
        r is Some ==> at + 4 <= b@.len(),
{
    if at <= b.len() && b.len() - at >= 4 {
        let b0 = b[at] as u32;
        let b1 = b[at + 1] as u32;
        let b2 = b[at + 2] as u32;
        let b3 = b[at + 3] as u32;
        Some(b0 + 256 * b1 + 65536 * b2 + 16777216 * b3)
    } else {
        None
    }
}

/// Reads the eight bytes at `at`.
pub fn read_u64(b: &[u8], at: usize) -> (r: Option<u64>)
    ensures
        match r {
            Some(v) => le_u64(b@, at as int) == Some(v as int),
            None => le_u64(b@, at as int) is None,
        },
        r is Some ==> at + 8 <= b@.len(),
{
    if at <= b.len() && b.len() - at >= 8 {
        match (read_u32(b, at), read_u32(b, at + 4)) {
            (Some(low), Some(high)) => Some(low as u64 + 4294967296 * (high as u64)),
            _ => None,
        }
    } else {
        None
    }
}

/// Follows the reference at `place`.
pub fn follow(b: &[u8], place: usize) -> (r: Option<usize>)
    ensures
        read_as(r, target(b@, place as int)),
        r matches Some(to) ==> to <= b@.len(),
{
    match read_u32(b, place) {
        Some(distance) => {
            if distance as u64 <= (b.len() - place) as u64 {
                Some(place + distance as usize)
            } else {
                None
            }
        },
        None => None,
    }
}

/// Looks up the field with the number `index` in the table at `table`.
pub fn find(b: &[u8], table: usize, index: usize) -> (r: Slot)
    ensures
        r == slot(b@, table as int, index as int),
        r matches Slot::At(place) ==> place <= b@.len(),
{
    let raw = match read_u32(b, table) {
        Some(raw) => raw,
        None => {
            return Slot::Broken;
        },
    };
    let fields: usize = if raw < 0x8000_0000 {
        if raw as u64 > table as u64 {
            return Slot::Broken;
        }
        table - raw as usize
    } else {
        let forward: u64 = 0x1_0000_0000u64 - raw as u64;
        if forward > (b.len() - table) as u64 {
            return Slot::Broken;
        }
        table + forward as usize
    };
    let size = match read_u16(b, fields) {
        Some(size) => size,
        None => {
            return Slot::Broken;
        },
    };
    // A list of fields is shorter than 65536 bytes.
    if index >= 0x8000 || 4 + 2 * index + 2 > size {
        return Slot::Absent;
    }
    if b.len() - fields < 4 + 2 * index + 2 {
        return Slot::Broken;
    }
    let distance = match read_u16(b, fields + 4 + 2 * index) {
        Some(distance) => distance,
        None => {
            return Slot::Broken;
        },
    };
    if distance == 0 {
        Slot::Absent
    } else if distance > b.len() - table {
        Slot::Broken
    } else {
        Slot::At(table + distance)
    }
}

/// Looks up the table that a field of a table refers to.
pub fn find_table(b: &[u8], table: usize, index: usize) -> (r: Slot)
    ensures
        r == referred(b@, table as int, index as int),
        r matches Slot::At(place) ==> place <= b@.len(),
{
    match find(b, table, index) {
        Slot::Broken => Slot::Broken,
        Slot::Absent => Slot::Absent,
        Slot::At(place) => match follow(b, place) {
            Some(to) => Slot::At(to),
            None => Slot::Broken,
        },
    }
}

/// Checks the pair of offset and length at `at` against the body.
pub fn check_pair(b: &[u8], at: usize, body_len: u64) -> (r: bool)
    requires
        body_len < 0x8000_0000_0000_0000,
    ensures
        r == pair_inside(b@, at as int, body_len as int),
        r ==> at + 16 <= b@.len(),
{
    if at > b.len() || b.len() - at < 16 {
        return false;
    }
    match (read_u64(b, at), read_u64(b, at + 8)) {
        (Some(offset), Some(length)) => offset < 0x8000_0000_0000_0000 && length
            < 0x8000_0000_0000_0000 && offset + length <= body_len,
        _ => false,
    }
}

/// Checks the buffers of the batch at `record` against the body.
pub fn check_batch(b: &[u8], record: usize, body_len: u64) -> (r: bool)
    requires
        body_len < 0x8000_0000_0000_0000,
    ensures
        r == batch_sound(b@, record as int, body_len as int),
{
    let place = match find(b, record, 2) {
        Slot::Broken => {
            return false;
        },
        Slot::Absent => {
            return true;
        },
        Slot::At(place) => place,
    };
    let list = match follow(b, place) {
        Some(list) => list,
        None => {
            return false;
        },
    };
    let count = match read_u32(b, list) {
        Some(count) => count,
        None => {
            return false;
        },
    };
    let n = b.len();
    let start = list + 4;
    let mut i: u32 = 0;
    let mut at: usize = start;
    while i < count
        invariant
            n == b@.len(),
            i <= count,
            body_len < 0x8000_0000_0000_0000,
            at == start + 16 * i,
            at <= b@.len(),
            batch_sound(b@, record as int, body_len as int) == pairs_inside(
                b@,
                start as int,
                count as int,
                body_len as int,
            ),
            forall|j: int|
                0 <= j < i ==> #[trigger] listed_pair_inside(b@, start as int, j, body_len as int),
        decreases count - i,
    {
        if !check_pair(b, at, body_len) {
            assert(!listed_pair_inside(b@, start as int, i as int, body_len as int));
            return false;
        }
        assert(listed_pair_inside(b@, start as int, i as int, body_len as int));
        at = at + 16;
        i = i + 1;
    }
    true
}

/// Checks the buffers that the message at `table` lists against its body.
pub fn check_header(b: &[u8], table: usize, body_len: u64) -> (r: bool)
    requires
        body_len < 0x8000_0000_0000_0000,
    ensures
        r == header_sound(b@, table as int, body_len as int),
{
    let kind = match find(b, table, 1) {
        Slot::Broken => {
            return false;
        },
        Slot::Absent => 0u8,
        Slot::At(place) => {
            if place < b.len() {
                b[place]
            } else {
                return false;
            }
        },
    };
    if kind == 3 {
        match find_table(b, table, 2) {
            Slot::At(record) => check_batch(b, record, body_len),
            _ => false,
        }
    } else if kind == 2 {
        match find_table(b, table, 2) {
            Slot::At(dictionary) => match find_table(b, dictionary, 1) {
                Slot::Broken => false,
                Slot::Absent => true,
                Slot::At(record) => check_batch(b, record, body_len),
            },
            _ => false,
        }
    } else {
        true
    }
}

/// Finds the end of the message whose metadata stands at `start`, where
/// the message is sound.
pub fn check_message(b: &[u8], start: usize, len: usize) -> (r: Option<usize>)
    requires
        start + len <= b@.len(),
    ensures
        read_as(r, message_end(b@, start as int, len as int)),
        r matches Some(next) ==> start + len <= next <= b@.len(),
{
    let table = match follow(b, start) {
        Some(table) => table,
        None => {
            return None;
        },
    };
    let body_len: u64 = match find(b, table, 3) {
        Slot::Broken => {
            return None;
        },
        Slot::Absent => 0,
        Slot::At(place) => match read_u64(b, place) {
            Some(length) => {
                if length < 0x8000_0000_0000_0000 {
                    length
                } else {
                    return None;
                }
            },
            None => {
                return None;
            },
        },
    };
    let left = b.len() - (start + len);
    if body_len > left as u64 {
        return None;
    }
    if check_header(b, table, body_len) {
        Some(start + len + body_len as usize)
    } else {
        None
    }
}

/// Finds the metadata of the message that begins at `at`.
pub fn find_metadata(b: &[u8], at: usize) -> (r: Option<(usize, usize)>)
    ensures
        match r {
            Some((start, len)) => metadata_at(b@, at as int) == Some((start as int, len as int))
                && at < start && len > 0 && start + len <= b@.len(),
            None => metadata_at(b@, at as int) is None,
        },
{
    let n = b.len();
    let first = match read_u32(b, at) {
        Some(first) => first,
        None => {
            return None;
        },
    };
    let (start, len) = if first == 0xFFFF_FFFF {
        match read_u32(b, at + 4) {
            Some(second) => (at + 8, second),
            None => {
                return None;
            },
        }
    } else {
        (at + 4, first)
    };
    if 0 < len && len < 0x8000_0000 && len as u64 <= (n - start) as u64 {
        Some((start, len as usize))
    } else {
        None
    }
}

/// Says whether a stream can be handed to the decoder.
pub fn is_sound_stream(b: &[u8]) -> (r: bool)
    ensures
        r == sound_stream(b@),
{
    let mut at: usize = 0;
    loop
        invariant
            at <= b@.len(),
            sound_stream(b@) == sound_from(b@, at as int),
        decreases b@.len() - at,
    {
        let (start, len) = match find_metadata(b, at) {
            Some(found) => found,
            None => {
                return true;
            },
        };
        match check_message(b, start, len) {
            Some(next) => {
                at = next;
            },
            None => {
                return false;
            },
        }
    }
}

} // verus!
