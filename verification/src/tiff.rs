//! How the image of a TIFF file is cut into strips or tiles.
//!
//! A file begins with the order of its bytes, its version, and the place of a
//! directory. The entries of the directory give the size of the image and that
//! of its strips or tiles. What is read here decides whether the file may be
//! handed to the decoder of the `image` crate.

use vstd::arithmetic::div_mod::*;
use vstd::arithmetic::mul::*;
use vstd::prelude::*;

verus! {

pub const IMAGE_WIDTH: u16 = 256;

pub const IMAGE_LENGTH: u16 = 257;

pub const STRIP_OFFSETS: u16 = 273;

pub const SAMPLES_PER_PIXEL: u16 = 277;

pub const ROWS_PER_STRIP: u16 = 278;

pub const PLANAR_CONFIGURATION: u16 = 284;

pub const TILE_WIDTH: u16 = 322;

pub const TILE_LENGTH: u16 = 323;

pub const TILE_OFFSETS: u16 = 324;

// ---------------------------------------------------------------------------
// Numbers
// ---------------------------------------------------------------------------

/// The number in two bytes. With `big`, the most significant byte comes first.
pub open spec fn word16(data: Seq<u8>, big: bool, at: int) -> int {
    if big {
        data[at] * 0x100 + data[at + 1]
    } else {
        data[at + 1] * 0x100 + data[at]
    }
}

/// The number in four bytes.
pub open spec fn word32(data: Seq<u8>, big: bool, at: int) -> int {
    if big {
        word16(data, big, at) * 0x1_0000 + word16(data, big, at + 2)
    } else {
        word16(data, big, at + 2) * 0x1_0000 + word16(data, big, at)
    }
}

/// The number in eight bytes.
pub open spec fn word64(data: Seq<u8>, big: bool, at: int) -> int {
    if big {
        word32(data, big, at) * 0x1_0000_0000 + word32(data, big, at + 4)
    } else {
        word32(data, big, at + 4) * 0x1_0000_0000 + word32(data, big, at)
    }
}

/// With the most significant byte first, a number is what its bytes in reverse are
/// with the least significant first.
pub proof fn law_byte_orders_mirror_each_other(a: Seq<u8>, b: Seq<u8>)
    requires
        a.len() == 8,
        b == a.reverse(),
    ensures
        word16(a, true, 0) == word16(b, false, 6),
        word32(a, true, 0) == word32(b, false, 4),
        word64(a, true, 0) == word64(b, false, 0),
        word16(a, false, 0) == a[0] + 0x100 * a[1],
        word32(a, false, 0) == crate::bytes::u32_at(a, 0),
        word64(a, false, 0) == crate::bytes::u64_at(a, 0),
{
}

fn read16(data: &[u8], big: bool, at: usize) -> (r: u16)
    requires
        at + 2 <= data.len(),
    ensures
        r == word16(data@, big, at as int),
{
    if big {
        data[at] as u16 * 0x100 + data[at + 1] as u16
    } else {
        data[at + 1] as u16 * 0x100 + data[at] as u16
    }
}

fn read32(data: &[u8], big: bool, at: usize) -> (r: u32)
    requires
        at + 4 <= data.len(),
    ensures
        r == word32(data@, big, at as int),
{
    let (first, second): (u16, u16) = (read16(data, big, at), read16(data, big, at + 2));
    if big {
        first as u32 * 0x1_0000 + second as u32
    } else {
        second as u32 * 0x1_0000 + first as u32
    }
}

fn read64(data: &[u8], big: bool, at: usize) -> (r: u64)
    requires
        at + 8 <= data.len(),
    ensures
        r == word64(data@, big, at as int),
{
    let (first, second): (u32, u32) = (read32(data, big, at), read32(data, big, at + 4));
    if big {
        first as u64 * 0x1_0000_0000 + second as u64
    } else {
        second as u64 * 0x1_0000_0000 + first as u64
    }
}

// ---------------------------------------------------------------------------
// Directory
// ---------------------------------------------------------------------------

/// How the numbers of a file are written: the order of their bytes, and whether
/// places and counts take eight bytes.
#[derive(Debug, Clone, Copy, PartialEq, Eq, Structural)]
pub struct Encoding {
    pub big: bool,
    pub large: bool,
}

/// The encoding of a file and the place of its first directory; none where the
/// file does not begin as a TIFF file does.
pub open spec fn header(data: Seq<u8>) -> Option<(Encoding, int)> {
    let big = data[0] == 0x4D;
    if data.len() < 8 || data[0] != data[1] || (data[0] != 0x49 && data[0] != 0x4D) {
        None
    } else if word16(data, big, 2) == 42 {
        Some((Encoding { big, large: false }, word32(data, big, 4)))
    } else if data.len() >= 16 && word16(data, big, 2) == 43 && word16(data, big, 4) == 8 && word16(
        data,
        big,
        6,
    ) == 0 {
        Some((Encoding { big, large: true }, word64(data, big, 8)))
    } else {
        None
    }
}

/// A TIFF file begins with two equal letters, `I` for the least significant byte
/// first or `M` for the most significant, and the number 42, or 43 where places
/// take eight bytes.
pub proof fn law_tiff_files_begin_alike(data: Seq<u8>)
    ensures
        header(data) matches Some((e, at)) ==> {
            &&& data.len() >= 8
            &&& data[0] == data[1]
            &&& e.big ==> data[0] == 0x4D && data[2] == 0 && (data[3] == 42 || data[3] == 43)
            &&& !e.big ==> data[0] == 0x49 && data[3] == 0 && (data[2] == 42 || data[2] == 43)
            &&& e.large <==> data[2] == 43 || data[3] == 43
            &&& !e.large ==> at == word32(data, e.big, 4)
            &&& e.large ==> at == word64(data, e.big, 8) && data.len() >= 16
        },
        data.len() >= 8 && data[0] == 0x49 && data[1] == 0x49 && data[2] == 42 && data[3] == 0
            ==> header(data) is Some,
        data.len() >= 8 && data[0] == 0x4D && data[1] == 0x4D && data[2] == 0 && data[3] == 42
            ==> header(data) is Some,
{
}

fn read_header(data: &[u8]) -> (r: Option<(Encoding, u64)>)
    ensures
        match r {
            Some((e, at)) => header(data@) == Some((e, at as int)),
            None => header(data@) is None,
        },
{
    if data.len() < 8 || data[0] != data[1] || (data[0] != 0x49 && data[0] != 0x4D) {
        return None;
    }
    let big: bool = data[0] == 0x4D;
    let version: u16 = read16(data, big, 2);
    if version == 42 {
        Some((Encoding { big, large: false }, read32(data, big, 4) as u64))
    } else if data.len() >= 16 && version == 43 && read16(data, big, 4) == 8 && read16(data, big, 6)
        == 0 {
        Some((Encoding { big, large: true }, read64(data, big, 8)))
    } else {
        None
    }
}

/// There is a type of values with this number.
pub open spec fn is_type(ty: int) -> bool {
    1 <= ty <= 13 || 16 <= ty <= 18
}

/// The bytes of an entry. One of an unknown type takes twelve in any file.
pub open spec fn entry_size(e: Encoding, ty: int) -> int {
    if e.large && is_type(ty) {
        20
    } else {
        12
    }
}

/// The places of those of `count` entries from `at` on whose types are known;
/// none where the file ends before them.
pub open spec fn entries(data: Seq<u8>, e: Encoding, at: int, count: int) -> Option<Seq<int>>
    decreases count,
{
    if count <= 0 {
        Some(Seq::empty())
    } else if at + 12 > data.len() {
        None
    } else {
        let ty = word16(data, e.big, at + 2);
        if at + entry_size(e, ty) > data.len() {
            None
        } else {
            match entries(data, e, at + entry_size(e, ty), count - 1) {
                None => None,
                Some(rest) => Some(
                    if is_type(ty) {
                        seq![at] + rest
                    } else {
                        rest
                    },
                ),
            }
        }
    }
}

/// The entries of the directory at a place.
pub open spec fn directory(data: Seq<u8>, e: Encoding, at: int) -> Option<Seq<int>> {
    if e.large {
        if at + 8 > data.len() {
            None
        } else {
            entries(data, e, at + 8, word64(data, e.big, at))
        }
    } else {
        if at + 2 > data.len() {
            None
        } else {
            entries(data, e, at + 2, word16(data, e.big, at))
        }
    }
}

/// The places of entries lie in the file.
pub open spec fn in_file(data: Seq<u8>, e: Encoding, places: Seq<int>) -> bool {
    forall|i: int|
        0 <= i < places.len() ==> 0 <= #[trigger] places[i] && places[i] + (if e.large {
            20int
        } else {
            12
        }) <= data.len()
}

/// The first entry of a directory lies where the directory begins, and each next
/// one right behind it. Entries of an unknown type are passed over, and in a file
/// that ends before its directory does there are none.
pub proof fn law_entries_follow_each_other(data: Seq<u8>, e: Encoding, at: int, count: int)
    requires
        count > 0,
    ensures
        entries(data, e, at, 0) == Some(Seq::<int>::empty()),
        at + 12 > data.len() ==> entries(data, e, at, count) is None,
        at + 12 <= data.len() && !e.large ==> {
            let ty = word16(data, e.big, at + 2);
            let rest = entries(data, e, at + 12, count - 1);
            &&& rest is None ==> entries(data, e, at, count) is None
            &&& rest is Some && (1 <= ty <= 13 || 16 <= ty <= 18) ==> entries(data, e, at, count)
                is Some && (entries(data, e, at, count)->0)[0] == at && (entries(
                data,
                e,
                at,
                count,
            )->0).skip(1) == rest->0
            &&& rest is Some && !(1 <= ty <= 13 || 16 <= ty <= 18) ==> entries(data, e, at, count)
                == rest
        },
        at + 20 <= data.len() && e.large && is_type(word16(data, e.big, at + 2)) ==> {
            let rest = entries(data, e, at + 20, count - 1);
            &&& rest is None ==> entries(data, e, at, count) is None
            &&& rest is Some ==> entries(data, e, at, count) is Some && (entries(
                data,
                e,
                at,
                count,
            )->0)[0] == at && (entries(data, e, at, count)->0).skip(1) == rest->0
        },
{
    let rest = entries(data, e, at + 12, count - 1);
    if rest is Some {
        assert((seq![at] + rest->0).skip(1) =~= rest->0);
    }
    let wide = entries(data, e, at + 20, count - 1);
    if wide is Some {
        assert((seq![at] + wide->0).skip(1) =~= wide->0);
    }
}

/// A directory begins with the number of its entries, in two bytes or in eight.
pub proof fn law_directories_count_their_entries(data: Seq<u8>, e: Encoding, at: int)
    ensures
        !e.large && at + 2 <= data.len() ==> directory(data, e, at) == entries(
            data,
            e,
            at + 2,
            word16(data, e.big, at),
        ),
        e.large && at + 8 <= data.len() ==> directory(data, e, at) == entries(
            data,
            e,
            at + 8,
            word64(data, e.big, at),
        ),
        at + 2 > data.len() ==> directory(data, e, at) is None,
{
}

fn read_entries(data: &[u8], e: Encoding, at: usize, count: u64) -> (r: Option<Vec<usize>>)
    ensures
        match r {
            Some(places) => {
                &&& entries(data@, e, at as int, count as int) == Some(
                    places@.map_values(|p: usize| p as int),
                )
                &&& in_file(data@, e, places@.map_values(|p: usize| p as int))
            },
            None => entries(data@, e, at as int, count as int) is None,
        },
{
    let mut places: Vec<usize> = Vec::new();
    let mut next: usize = at;
    let mut left: u64 = count;
    let ghost all = entries(data@, e, at as int, count as int);
    proof {
        if let Some(rest) = all {
            assert(Seq::<int>::empty() + rest =~= rest);
        }
        assert(places@.map_values(|p: usize| p as int) =~= Seq::<int>::empty());
    }
    while left > 0
        invariant
            all == entries(data@, e, at as int, count as int),
            all == (match entries(data@, e, next as int, left as int) {
                None => None,
                Some(rest) => Some(places@.map_values(|p: usize| p as int) + rest),
            }),
            in_file(data@, e, places@.map_values(|p: usize| p as int)),
        decreases left,
    {
        if data.len() < 12 || next > data.len() - 12 {
            return None;
        }
        let ty: u16 = read16(data, e.big, next + 2);
        let known: bool = (1 <= ty && ty <= 13) || (16 <= ty && ty <= 18);
        let size: usize = if e.large && known {
            20
        } else {
            12
        };
        if data.len() < size || next > data.len() - size {
            return None;
        }
        let ghost before = places@.map_values(|p: usize| p as int);
        let ghost rest = entries(data@, e, next + size, left - 1);
        if known {
            places.push(next);
            proof {
                assert(places@.map_values(|p: usize| p as int) =~= before.push(next as int));
                if let Some(rest) = rest {
                    assert(before + (seq![next as int] + rest) =~= before.push(next as int) + rest);
                }
            }
        }
        next = next + size;
        left = left - 1;
    }
    proof {
        let found = places@.map_values(|p: usize| p as int);
        assert(found + Seq::<int>::empty() =~= found);
    }
    Some(places)
}

fn read_directory(data: &[u8], e: Encoding, at: u64) -> (r: Option<Vec<usize>>)
    ensures
        match r {
            Some(places) => {
                &&& directory(data@, e, at as int) == Some(places@.map_values(|p: usize| p as int))
                &&& in_file(data@, e, places@.map_values(|p: usize| p as int))
            },
            None => directory(data@, e, at as int) is None,
        },
{
    let head: usize = if e.large {
        8
    } else {
        2
    };
    if data.len() < head || at > (data.len() - head) as u64 {
        return None;
    }
    let place: usize = at as usize;
    let count: u64 = if e.large {
        read64(data, e.big, place)
    } else {
        read16(data, e.big, place) as u64
    };
    read_entries(data, e, place + head, count)
}

/// The entry with a tag; the last one counts.
pub open spec fn tag_entry(data: Seq<u8>, e: Encoding, places: Seq<int>, tag: u16) -> Option<int>
    decreases places.len(),
{
    if places.len() == 0 {
        None
    } else if word16(data, e.big, places.last()) == tag {
        Some(places.last())
    } else {
        tag_entry(data, e, places.drop_last(), tag)
    }
}

/// A tag is found where some entry has it, and of several the last one is found.
pub proof fn law_the_last_entry_of_a_tag_counts(
    data: Seq<u8>,
    e: Encoding,
    places: Seq<int>,
    tag: u16,
)
    ensures
        tag_entry(data, e, places, tag) is None ==> forall|i: int|
            0 <= i < places.len() ==> word16(data, e.big, #[trigger] places[i]) != tag,
        tag_entry(data, e, places, tag) matches Some(p) ==> exists|i: int|
            0 <= i < places.len() && #[trigger] places[i] == p && word16(data, e.big, p) == tag && (
            forall|j: int|
                i < j < places.len() ==> word16(data, e.big, #[trigger] places[j]) != tag),
    decreases places.len(),
{
    if places.len() > 0 {
        let init = places.drop_last();
        law_the_last_entry_of_a_tag_counts(data, e, init, tag);
        let last = places.len() - 1;
        assert(places[last] == places.last());
        if word16(data, e.big, places.last()) != tag {
            if tag_entry(data, e, init, tag) is Some {
                let p = tag_entry(data, e, init, tag)->0;
                let i = choose|i: int|
                    0 <= i < init.len() && #[trigger] init[i] == p && word16(data, e.big, p) == tag
                        && (forall|j: int|
                        i < j < init.len() ==> word16(data, e.big, #[trigger] init[j]) != tag);
                assert(places[i] == p);
                assert forall|j: int| i < j < places.len() implies word16(
                    data,
                    e.big,
                    #[trigger] places[j],
                ) != tag by {
                    if j < last {
                        assert(init[j] == places[j]);
                    }
                }
            } else {
                assert forall|i: int| 0 <= i < places.len() implies word16(
                    data,
                    e.big,
                    #[trigger] places[i],
                ) != tag by {
                    if i < last {
                        assert(init[i] == places[i]);
                    }
                }
            }
        }
    }
}

fn find_tag(data: &[u8], e: Encoding, places: &Vec<usize>, tag: u16) -> (r: Option<usize>)
    requires
        in_file(data@, e, places@.map_values(|p: usize| p as int)),
    ensures
        match r {
            Some(p) => {
                &&& tag_entry(data@, e, places@.map_values(|p: usize| p as int), tag) == Some(
                    p as int,
                )
                &&& p + (if e.large {
                    20int
                } else {
                    12
                }) <= data@.len()
            },
            None => tag_entry(data@, e, places@.map_values(|p: usize| p as int), tag) is None,
        },
{
    let ghost all = places@.map_values(|p: usize| p as int);
    let mut i: usize = places.len();
    assert(all.take(i as int) =~= all);
    while i > 0
        invariant
            i <= places@.len(),
            all == places@.map_values(|p: usize| p as int),
            in_file(data@, e, all),
            tag_entry(data@, e, all, tag) == tag_entry(data@, e, all.take(i as int), tag),
        decreases i,
    {
        let place: usize = places[i - 1];
        assert(all.take(i as int).last() == all[i - 1] == place);
        assert(all.take(i as int).drop_last() =~= all.take(i - 1));
        if read16(data, e.big, place) == tag {
            return Some(place);
        }
        i = i - 1;
    }
    None
}

/// The number that an entry gives, where it gives one that fits 32 bits. A
/// number of eight bytes is elsewhere in a file with short places.
pub open spec fn entry_number(data: Seq<u8>, e: Encoding, at: int) -> Option<int> {
    let ty = word16(data, e.big, at + 2);
    let count = if e.large {
        word64(data, e.big, at + 4)
    } else {
        word32(data, e.big, at + 4)
    };
    let value = if e.large {
        at + 12
    } else {
        at + 8
    };
    let place = word32(data, e.big, value);
    let number = if ty == 1 || ty == 7 {
        data[value] as int
    } else if ty == 3 {
        word16(data, e.big, value)
    } else if ty == 4 || ty == 13 {
        word32(data, e.big, value)
    } else if e.large {
        word64(data, e.big, value)
    } else {
        word64(data, e.big, place)
    };
    let is_number = ty == 1 || ty == 7 || ty == 3 || ty == 4 || ty == 13 || ty == 16 || ty == 18;
    let is_elsewhere = (ty == 16 || ty == 18) && !e.large;
    if count != 1 || !is_number || (is_elsewhere && place + 8 > data.len()) || number > u32::MAX {
        None
    } else {
        Some(number)
    }
}

/// An entry of one number gives the number that stands behind its count, as wide
/// as its type says, and behind a count of eight bytes in a file with long
/// places; other counts, and other types, give none.
pub proof fn law_entries_give_their_numbers(data: Seq<u8>, e: Encoding, at: int)
    ensures
        ({
            let ty = word16(data, e.big, at + 2);
            let count = if e.large {
                word64(data, e.big, at + 4)
            } else {
                word32(data, e.big, at + 4)
            };
            let value = at + (if e.large {
                12int
            } else {
                8
            });
            let n = entry_number(data, e, at);
            &&& count != 1 ==> n is None
            &&& count == 1 && (ty == 1 || ty == 7) ==> n == Some(data[value] as int)
            &&& count == 1 && ty == 3 ==> n == Some(word16(data, e.big, value))
            &&& count == 1 && (ty == 4 || ty == 13) ==> n == Some(word32(data, e.big, value))
            &&& count == 1 && (ty == 16 || ty == 18) && e.large ==> {
                &&& n is Some ==> n == Some(word64(data, e.big, value))
                &&& n is None ==> word64(data, e.big, value) > 0xffff_ffff
            }
            &&& count == 1 && (ty == 16 || ty == 18) && !e.large && n is Some ==> n == Some(
                word64(data, e.big, word32(data, e.big, value)),
            )
            &&& ty == 2 || ty == 5 || ty == 6 || ty >= 8 && ty <= 12 || ty == 17 ==> n is None
        }),
{
}

fn read_number(data: &[u8], e: Encoding, at: usize) -> (r: Option<u32>)
    requires
        at + (if e.large {
            20int
        } else {
            12
        }) <= data.len(),
    ensures
        match r {
            Some(n) => entry_number(data@, e, at as int) == Some(n as int),
            None => entry_number(data@, e, at as int) is None,
        },
{
    let ty: u16 = read16(data, e.big, at + 2);
    let count: u64 = if e.large {
        read64(data, e.big, at + 4)
    } else {
        read32(data, e.big, at + 4) as u64
    };
    let value: usize = if e.large {
        at + 12
    } else {
        at + 8
    };
    if count != 1 {
        return None;
    }
    if ty == 1 || ty == 7 {
        return Some(data[value] as u32);
    }
    if ty == 3 {
        return Some(read16(data, e.big, value) as u32);
    }
    if ty == 4 || ty == 13 {
        return Some(read32(data, e.big, value));
    }
    if ty != 16 && ty != 18 {
        return None;
    }
    let number: u64 = if e.large {
        read64(data, e.big, value)
    } else {
        let place: u32 = read32(data, e.big, value);
        if data.len() < 8 || place as u64 > (data.len() - 8) as u64 {
            return None;
        }
        read64(data, e.big, place as usize)
    };
    if number > u32::MAX as u64 {
        None
    } else {
        Some(number as u32)
    }
}

/// The number under a tag, or a default where the tag is missing.
pub open spec fn tag_number(
    data: Seq<u8>,
    e: Encoding,
    places: Seq<int>,
    tag: u16,
    default: Option<int>,
) -> Option<int> {
    match tag_entry(data, e, places, tag) {
        Some(p) => entry_number(data, e, p),
        None => default,
    }
}

/// A tag that is there gives the number of its entry, whatever the default is; a
/// missing one gives the default.
pub proof fn law_defaults_stand_for_missing_tags(
    data: Seq<u8>,
    e: Encoding,
    places: Seq<int>,
    tag: u16,
    a: Option<int>,
    b: Option<int>,
)
    ensures
        tag_entry(data, e, places, tag) is None ==> tag_number(data, e, places, tag, a) == a,
        tag_entry(data, e, places, tag) matches Some(p) ==> tag_number(data, e, places, tag, a)
            == tag_number(data, e, places, tag, b) && tag_number(data, e, places, tag, a)
            == entry_number(data, e, p),
{
}

fn number_of_tag(
    data: &[u8],
    e: Encoding,
    places: &Vec<usize>,
    tag: u16,
    default: Option<u32>,
) -> (r: Option<u32>)
    requires
        in_file(data@, e, places@.map_values(|p: usize| p as int)),
    ensures
        as_int(r) == tag_number(
            data@,
            e,
            places@.map_values(|p: usize| p as int),
            tag,
            as_int(default),
        ),
{
    match find_tag(data, e, places, tag) {
        Some(p) => read_number(data, e, p),
        None => default,
    }
}

pub open spec fn as_int(n: Option<u32>) -> Option<int> {
    match n {
        Some(n) => Some(n as int),
        None => None,
    }
}

// ---------------------------------------------------------------------------
// Strips and tiles
// ---------------------------------------------------------------------------

/// The number of parts of a length, the last of which may be shorter.
pub open spec fn parts(length: int, part: int) -> int {
    (length + part - 1) / part
}

/// As many parts as a length has cover it, and one part less does not.
pub proof fn law_parts_cover_the_length(length: int, part: int)
    requires
        part > 0,
        length > 0,
    ensures
        parts(length, part) > 0,
        (parts(length, part) - 1) * part < length <= parts(length, part) * part,
{
    let n = parts(length, part);
    vstd::arithmetic::div_mod::lemma_fundamental_div_mod(length + part - 1, part);
    vstd::arithmetic::div_mod::lemma_mod_bound(length + part - 1, part);
    assert(n * part == part * n) by (nonlinear_arith);
    assert((n - 1) * part == n * part - part) by (nonlinear_arith);
    assert(n > 0) by (nonlinear_arith)
        requires
            n * part >= length,
            length > 0,
            part > 0,
    ;
}

/// An image in parts of `part_width` by `part_height` can be decoded: the number
/// of parts of all planes is one of 32 bits, the samples of a row of a part, of
/// four bytes each, fit in memory, and tiles of more than one plane end with the
/// image.
pub open spec fn parts_fit(
    width: int,
    height: int,
    part_width: int,
    part_height: int,
    samples: int,
    planes: int,
    tiled: bool,
) -> bool {
    part_width > 0 && part_height > 0 ==> {
        &&& parts(height, part_height) * parts(width, part_width) * planes <= u32::MAX
        &&& part_width * samples * 4 <= isize::MAX
        &&& tiled && planes > 1 ==> height % part_height == 0
    }
}

/// What a directory says of strips and tiles can be decoded. Where a number is
/// missing or is none, the decoder reports it.
pub open spec fn directory_fits(data: Seq<u8>, e: Encoding, places: Seq<int>) -> bool {
    let width = tag_number(data, e, places, IMAGE_WIDTH, None);
    let height = tag_number(data, e, places, IMAGE_LENGTH, None);
    let samples = tag_number(data, e, places, SAMPLES_PER_PIXEL, Some(1));
    let planar = tag_number(data, e, places, PLANAR_CONFIGURATION, Some(1));
    let rows = tag_number(data, e, places, ROWS_PER_STRIP, height);
    let tile_width = tag_number(data, e, places, TILE_WIDTH, None);
    let tile_length = tag_number(data, e, places, TILE_LENGTH, None);
    let planes = if planar == Some(2int) {
        samples->0
    } else {
        1
    };
    width is Some && height is Some && samples is Some ==> {
        &&& tag_entry(data, e, places, STRIP_OFFSETS) is Some && rows is Some ==> parts_fit(
            width->0,
            height->0,
            width->0,
            rows->0,
            samples->0,
            planes,
            false,
        )
        &&& tag_entry(data, e, places, TILE_OFFSETS) is Some && tile_width is Some && tile_length is Some
            ==> parts_fit(
            width->0,
            height->0,
            tile_width->0,
            tile_length->0,
            samples->0,
            planes,
            true,
        )
    }
}

/// The strips and tiles that the first directory of a file gives can be decoded.
/// That of a file which does not begin as a TIFF file does gives none.
pub open spec fn chunks_fit(data: Seq<u8>) -> bool {
    match header(data) {
        Some((e, at)) => match directory(data, e, at) {
            Some(places) => directory_fits(data, e, places),
            None => true,
        },
        None => true,
    }
}

fn count_parts(length: u32, part: u32) -> (r: u64)
    requires
        part > 0,
    ensures
        r == parts(length as int, part as int),
        r <= length,
{
    proof {
        let (l, p) = (length as int, part as int);
        lemma_div_is_ordered(0, l + p - 1, p);
        assert((l + p - 1) / p <= l) by (nonlinear_arith)
            requires
                l >= 0,
                p > 0,
        ;
    }
    (length as u64 + part as u64 - 1) / part as u64
}

fn do_parts_fit(
    width: u32,
    height: u32,
    part_width: u32,
    part_height: u32,
    samples: u32,
    planes: u32,
    tiled: bool,
) -> (r: bool)
    ensures
        r == parts_fit(
            width as int,
            height as int,
            part_width as int,
            part_height as int,
            samples as int,
            planes as int,
            tiled,
        ),
{
    if part_width == 0 || part_height == 0 {
        return true;
    }
    let down: u64 = count_parts(height, part_height);
    let across: u64 = count_parts(width, part_width);
    proof {
        lemma_mul_upper_bound(down as int, 0xFFFF_FFFF, across as int, 0xFFFF_FFFF);
        lemma_mul_nonnegative(down as int, across as int);
        lemma_mul_upper_bound(
            down * across,
            0xFFFF_FFFFint * 0xFFFF_FFFFint,
            planes as int,
            0xFFFF_FFFF,
        );
        lemma_mul_nonnegative(down * across, planes as int);
        lemma_mul_upper_bound(part_width as int, 0xFFFF_FFFF, samples as int, 0xFFFF_FFFF);
        lemma_mul_nonnegative(part_width as int, samples as int);
    }
    let count: u128 = down as u128 * across as u128 * planes as u128;
    let row: u128 = part_width as u128 * samples as u128 * 4;
    count <= u32::MAX as u128 && row <= isize::MAX as u128 && (!tiled || planes <= 1 || height
        % part_height == 0)
}

/// Whether the strips and tiles that the first directory of a file gives can be
/// decoded.
pub fn tiff_chunks_fit(data: &[u8]) -> (r: bool)
    ensures
        r == chunks_fit(data@),
{
    let (e, at): (Encoding, u64) = match read_header(data) {
        Some(h) => h,
        None => {
            return true;
        },
    };
    let places: Vec<usize> = match read_directory(data, e, at) {
        Some(places) => places,
        None => {
            return true;
        },
    };
    let width: u32 = match number_of_tag(data, e, &places, IMAGE_WIDTH, None) {
        Some(n) => n,
        None => {
            return true;
        },
    };
    let height: u32 = match number_of_tag(data, e, &places, IMAGE_LENGTH, None) {
        Some(n) => n,
        None => {
            return true;
        },
    };
    let samples: u32 = match number_of_tag(data, e, &places, SAMPLES_PER_PIXEL, Some(1)) {
        Some(n) => n,
        None => {
            return true;
        },
    };
    let planar: Option<u32> = number_of_tag(data, e, &places, PLANAR_CONFIGURATION, Some(1));
    let planes: u32 = match planar {
        Some(2) => samples,
        _ => 1,
    };
    let strips: bool = match (
        find_tag(data, e, &places, STRIP_OFFSETS),
        number_of_tag(data, e, &places, ROWS_PER_STRIP, Some(height)),
    ) {
        (Some(_), Some(rows)) => do_parts_fit(width, height, width, rows, samples, planes, false),
        _ => true,
    };
    let tiles: bool = match (
        find_tag(data, e, &places, TILE_OFFSETS),
        number_of_tag(data, e, &places, TILE_WIDTH, None),
        number_of_tag(data, e, &places, TILE_LENGTH, None),
    ) {
        (Some(_), Some(w), Some(l)) => do_parts_fit(width, height, w, l, samples, planes, true),
        _ => true,
    };
    strips && tiles
}

} // verus!
