//! Player housing: house ids, chunk addressing of house files, and the
//! validation of a house's rooms.
//!
//! Houses are stored as `{base_dir}/r±XX_±ZZ/{house_id}.json`, where the
//! chunk name is the same `r±XX_±ZZ` form as terrain regions and house ids
//! are `r±XX_±ZZ_{n}`.
use vstd::prelude::*;

use crate::terrain::{join_path, join_spec, region_dir_spec};
use crate::text::{
    chars_of, dec_digits, decimal_digits, extend_chars, extend_str, index_of_char,
    index_of_char_from, occurs_at_exec, parse_i32_chars, parse_i32_spec, parse_u32_chars,
    lemma_index_of_char, lemma_parse_signed_padded, lemma_parse_u32_dec, parse_u32_spec,
    signed_padded, slice_chars, string_of,
};

verus! {

/// Smallest room side, in cells.
pub const MIN_ROOM_SIZE: u8 = 3;
/// Largest room side, in cells.
pub const MAX_ROOM_SIZE: u8 = 6;

/// The parts of a room that validation reads: its placement relative to
/// the house origin, its size in cells and its floor.
#[derive(Debug, Clone, Copy, PartialEq, Eq)]
pub struct RoomSpec {
    pub local_x: i16,
    pub local_z: i16,
    pub size_x: u8,
    pub size_z: u8,
    pub floor_level: u8,
}

/// Why a house was refused.
#[derive(Debug, PartialEq, Eq)]
pub enum HouseError {
    NoRooms,
    RoomSizeX { room: usize, size: u8 },
    RoomSizeZ { room: usize, size: u8 },
    RoomWallHeight { room: usize },
    RoomsOverlap { first: usize, second: usize },
}

/// Whether two rooms of one house overlap: their footprints intersect and
/// they are on the same floor.
pub open spec fn rooms_overlap_spec(a: RoomSpec, b: RoomSpec) -> bool {
    &&& (a.local_x as int) < b.local_x + b.size_x
    &&& a.local_x + a.size_x > (b.local_x as int)
    &&& (a.local_z as int) < b.local_z + b.size_z
    &&& a.local_z + a.size_z > (b.local_z as int)
    &&& a.floor_level == b.floor_level
}

/// Whether a room side is within the allowed size.
pub open spec fn size_ok(s: u8) -> bool {
    MIN_ROOM_SIZE <= s <= MAX_ROOM_SIZE
}

/// The first failing per-room check among rooms `0..n`, if any.
pub open spec fn first_room_error(rooms: Seq<RoomSpec>, wall_ok: Seq<bool>, n: int) -> Option<HouseError>
    decreases n,
{
    if n <= 0 {
        None
    } else {
        match first_room_error(rooms, wall_ok, n - 1) {
            Some(e) => Some(e),
            None => {
                let r = rooms[n - 1];
                if !size_ok(r.size_x) {
                    Some(HouseError::RoomSizeX { room: (n - 1) as usize, size: r.size_x })
                } else if !size_ok(r.size_z) {
                    Some(HouseError::RoomSizeZ { room: (n - 1) as usize, size: r.size_z })
                } else if !wall_ok[n - 1] {
                    Some(HouseError::RoomWallHeight { room: (n - 1) as usize })
                } else {
                    None
                }
            },
        }
    }
}

/// Whether pair `(i, j)` comes before pair `(k, l)` in the order the
/// overlap check visits pairs.
pub open spec fn pair_before(i: int, j: int, k: int, l: int) -> bool {
    i < k || (i == k && j < l)
}

/// Validate the rooms of a house (placed at its own origin). There must be
/// at least one room; each room, in order, must have sides of 3 to 6 cells
/// and a valid wall height (`wall_height_ok[i]`, which holds when room i's
/// wall height is in (0, 10]); finally no two rooms may overlap, the first
/// overlapping pair in `(i, j)` order being reported.
pub fn validate_rooms(rooms: &Vec<RoomSpec>, wall_height_ok: &Vec<bool>) -> (r: Result<(), HouseError>)
    requires
        wall_height_ok@.len() == rooms@.len(),
    ensures
        rooms@.len() == 0 ==> r == Err::<(), HouseError>(HouseError::NoRooms),
        rooms@.len() > 0 && first_room_error(rooms@, wall_height_ok@, rooms@.len() as int).is_some()
            ==> r == Err::<(), HouseError>(first_room_error(rooms@, wall_height_ok@, rooms@.len() as int).unwrap()),
        rooms@.len() > 0 && first_room_error(rooms@, wall_height_ok@, rooms@.len() as int).is_none() ==> match r {
            Ok(()) => forall|i: int, j: int| 0 <= i < j < rooms@.len() ==> !rooms_overlap_spec(rooms@[i], rooms@[j]),
            Err(HouseError::RoomsOverlap { first, second }) => {
                &&& first < second < rooms@.len()
                &&& rooms_overlap_spec(rooms@[first as int], rooms@[second as int])
                &&& forall|i: int, j: int| 0 <= i < j < rooms@.len() && pair_before(i, j, first as int, second as int)
                    ==> !rooms_overlap_spec(rooms@[i], rooms@[j])
            },
            Err(_) => false,
        },
{
    if rooms.len() == 0 {
        return Err(HouseError::NoRooms);
    }
    let mut k: usize = 0;
    while k < rooms.len()
        invariant
            k <= rooms@.len(),
            wall_height_ok@.len() == rooms@.len(),
            first_room_error(rooms@, wall_height_ok@, k as int).is_none(),
        decreases rooms.len() - k,
    {
        let room = rooms[k];
        if room.size_x < MIN_ROOM_SIZE || room.size_x > MAX_ROOM_SIZE {
            proof {
                lemma_first_room_error_stable(rooms@, wall_height_ok@, k as int + 1, rooms@.len() as int);
            }
            return Err(HouseError::RoomSizeX { room: k, size: room.size_x });
        }
        if room.size_z < MIN_ROOM_SIZE || room.size_z > MAX_ROOM_SIZE {
            proof {
                lemma_first_room_error_stable(rooms@, wall_height_ok@, k as int + 1, rooms@.len() as int);
            }
            return Err(HouseError::RoomSizeZ { room: k, size: room.size_z });
        }
        if !wall_height_ok[k] {
            proof {
                lemma_first_room_error_stable(rooms@, wall_height_ok@, k as int + 1, rooms@.len() as int);
            }
            return Err(HouseError::RoomWallHeight { room: k });
        }
        k = k + 1;
    }
    let n = rooms.len();
    let mut i: usize = 0;
    while i < n
        invariant
            i <= n,
            n == rooms@.len(),
            first_room_error(rooms@, wall_height_ok@, rooms@.len() as int).is_none(),
            forall|a: int, b: int| 0 <= a < b < n && a < i ==> !rooms_overlap_spec(rooms@[a], rooms@[b]),
        decreases n - i,
    {
        let mut j: usize = i + 1;
        while j < n
            invariant
                i < n,
                i + 1 <= j <= n,
                n == rooms@.len(),
                first_room_error(rooms@, wall_height_ok@, rooms@.len() as int).is_none(),
                forall|a: int, b: int| 0 <= a < b < n && a < i ==> !rooms_overlap_spec(rooms@[a], rooms@[b]),
                forall|b: int| i < b < j ==> !rooms_overlap_spec(rooms@[i as int], rooms@[b]),
            decreases n - j,
        {
            if rooms_overlap(&rooms[i], &rooms[j]) {
                return Err(HouseError::RoomsOverlap { first: i, second: j });
            }
            j = j + 1;
        }
        i = i + 1;
    }
    Ok(())
}

proof fn lemma_first_room_error_stable(rooms: Seq<RoomSpec>, wall_ok: Seq<bool>, k: int, n: int)
    requires
        0 <= k <= n,
        first_room_error(rooms, wall_ok, k).is_some(),
    ensures
        first_room_error(rooms, wall_ok, n) == first_room_error(rooms, wall_ok, k),
    decreases n - k,
{
    if n > k {
        lemma_first_room_error_stable(rooms, wall_ok, k, n - 1);
    }
}

/// Whether two rooms of one house overlap.
pub fn rooms_overlap(a: &RoomSpec, b: &RoomSpec) -> (r: bool)
    ensures
        r == rooms_overlap_spec(*a, *b),
{
    let ax = a.local_x as i32;
    let az = a.local_z as i32;
    let bx = b.local_x as i32;
    let bz = b.local_z as i32;
    ax < bx + b.size_x as i32 && ax + a.size_x as i32 > bx && az < bz + b.size_z as i32
        && az + a.size_z as i32 > bz && a.floor_level == b.floor_level
}

impl HouseError {
    /// The message the client is shown; `wall_height_text` is the offending
    /// wall height as the caller renders it (used by `RoomWallHeight` only).
    pub fn message(&self, wall_height_text: &str) -> (r: String)
        ensures
            match *self {
                HouseError::NoRooms => r@ == "House must have at least one room"@,
                HouseError::RoomSizeX { room, size } => r@ == "Room "@ + dec_digits(room as nat) + " size_x ("@
                    + dec_digits(size as nat) + ") must be 3-6"@,
                HouseError::RoomSizeZ { room, size } => r@ == "Room "@ + dec_digits(room as nat) + " size_z ("@
                    + dec_digits(size as nat) + ") must be 3-6"@,
                HouseError::RoomWallHeight { room } => r@ == "Room "@ + dec_digits(room as nat) + " wall_height ("@
                    + wall_height_text@ + ") must be 0-10"@,
                HouseError::RoomsOverlap { first, second } => r@ == "Rooms "@ + dec_digits(first as nat) + " and "@
                    + dec_digits(second as nat) + " overlap"@,
            },
    {
        let mut v: Vec<char> = Vec::new();
        match self {
            HouseError::NoRooms => {
                extend_str(&mut v, "House must have at least one room");
            },
            HouseError::RoomSizeX { room, size } => {
                extend_str(&mut v, "Room ");
                extend_chars(&mut v, &decimal_digits(*room as u64));
                extend_str(&mut v, " size_x (");
                extend_chars(&mut v, &decimal_digits(*size as u64));
                extend_str(&mut v, ") must be 3-6");
            },
            HouseError::RoomSizeZ { room, size } => {
                extend_str(&mut v, "Room ");
                extend_chars(&mut v, &decimal_digits(*room as u64));
                extend_str(&mut v, " size_z (");
                extend_chars(&mut v, &decimal_digits(*size as u64));
                extend_str(&mut v, ") must be 3-6");
            },
            HouseError::RoomWallHeight { room } => {
                extend_str(&mut v, "Room ");
                extend_chars(&mut v, &decimal_digits(*room as u64));
                extend_str(&mut v, " wall_height (");
                extend_str(&mut v, wall_height_text);
                extend_str(&mut v, ") must be 0-10");
            },
            HouseError::RoomsOverlap { first, second } => {
                extend_str(&mut v, "Rooms ");
                extend_chars(&mut v, &decimal_digits(*first as u64));
                extend_str(&mut v, " and ");
                extend_chars(&mut v, &decimal_digits(*second as u64));
                extend_str(&mut v, " overlap");
            },
        }
        let r = string_of(&v);
        proof {
            match *self {
                HouseError::NoRooms => {
                    assert(r@ =~= "House must have at least one room"@);
                },
                HouseError::RoomSizeX { room, size } => {
                    assert(r@ =~= "Room "@ + dec_digits(room as nat) + " size_x ("@ + dec_digits(size as nat) + ") must be 3-6"@);
                },
                HouseError::RoomSizeZ { room, size } => {
                    assert(r@ =~= "Room "@ + dec_digits(room as nat) + " size_z ("@ + dec_digits(size as nat) + ") must be 3-6"@);
                },
                HouseError::RoomWallHeight { room } => {
                    assert(r@ =~= "Room "@ + dec_digits(room as nat) + " wall_height ("@ + wall_height_text@ + ") must be 0-10"@);
                },
                HouseError::RoomsOverlap { first, second } => {
                    assert(r@ =~= "Rooms "@ + dec_digits(first as nat) + " and "@ + dec_digits(second as nat) + " overlap"@);
                },
            }
        }
        r
    }
}

/// Chunk coordinates encoded in a house id `r±X_±Z_n`: the text after `r`
/// up to the first `_`, and from there up to the next `_` (or the end),
/// each parsed as an `i32`.
pub open spec fn parse_chunk_spec(id: Seq<char>) -> Option<(i32, i32)> {
    if id.len() == 0 || id[0] != 'r' {
        None
    } else {
        let s = id.drop_first();
        let i1 = index_of_char(s, '_');
        if i1 < 0 {
            None
        } else {
            match parse_i32_spec(s.subrange(0, i1)) {
                None => None,
                Some(cx) => {
                    let rest = s.subrange(i1 + 1, s.len() as int);
                    let i2 = index_of_char(rest, '_');
                    let p2 = if i2 < 0 { rest } else { rest.subrange(0, i2) };
                    match parse_i32_spec(p2) {
                        None => None,
                        Some(cz) => Some((cx, cz)),
                    }
                },
            }
        }
    }
}

/// Parse chunk coordinates from a house id (e.g. `r-24_+07_1` gives
/// `(-24, 7)`).
pub fn parse_chunk_from_id(id: &str) -> (r: Option<(i32, i32)>)
    ensures
        r == parse_chunk_spec(id@),
{
    let v = chars_of(id);
    if v.len() == 0 || v[0] != 'r' {
        return None;
    }
    let ghost s = v@.drop_first();
    proof {
        assert(v@.subrange(1, v@.len() as int) =~= s);
    }
    let i1 = match index_of_char_from(&v, '_', 1) {
        Some(i) => i,
        None => return None,
    };
    let p1 = slice_chars(&v, 1, i1);
    proof {
        assert(p1@ =~= s.subrange(0, i1 - 1));
    }
    let cx = match parse_i32_chars(&p1) {
        Some(x) => x,
        None => return None,
    };
    let ghost rest = s.subrange(i1 - 1 + 1, s.len() as int);
    proof {
        assert(v@.subrange(i1 + 1, v@.len() as int) =~= rest);
    }
    let end = match index_of_char_from(&v, '_', i1 + 1) {
        Some(i2) => i2,
        None => v.len(),
    };
    let p2 = slice_chars(&v, i1 + 1, end);
    proof {
        let i2 = index_of_char(rest, '_');
        if i2 < 0 {
            assert(p2@ =~= rest);
        } else {
            assert(p2@ =~= rest.subrange(0, i2));
        }
    }
    let cz = match parse_i32_chars(&p2) {
        Some(z) => z,
        None => return None,
    };
    Some((cx, cz))
}

/// The house number of `id` under `prefix`, when `id` is the prefix
/// followed by a `u32`.
pub open spec fn house_number(id: Seq<char>, prefix: Seq<char>) -> Option<u32> {
    if id.len() >= prefix.len() && id.subrange(0, prefix.len() as int) == prefix {
        parse_u32_spec(id.subrange(prefix.len() as int, id.len() as int))
    } else {
        None
    }
}

/// The largest house number under `prefix` among `ids` (0 when none).
pub open spec fn max_house_number(ids: Seq<Seq<char>>, prefix: Seq<char>) -> int
    decreases ids.len(),
{
    if ids.len() == 0 {
        0
    } else {
        let m = max_house_number(ids.drop_last(), prefix);
        match house_number(ids.last(), prefix) {
            Some(n) => if n > m { n as int } else { m },
            None => m,
        }
    }
}

/// `r±XX_±ZZ`: the name of a chunk.
fn chunk_prefix(cx: i32, cz: i32) -> (r: Vec<char>)
    ensures
        r@ == region_dir_spec(cx as int, cz as int),
{
    let mut r: Vec<char> = Vec::new();
    r.push('r');
    extend_chars(&mut r, &crate::text::signed_padded_chars(cx, 3));
    r.push('_');
    extend_chars(&mut r, &crate::text::signed_padded_chars(cz, 3));
    proof {
        assert(r@ =~= region_dir_spec(cx as int, cz as int));
    }
    r
}

/// Every house number under `prefix` among `ids` is at most their maximum.
proof fn lemma_max_house_number_ge(ids: Seq<Seq<char>>, prefix: Seq<char>, k: int)
    requires
        0 <= k < ids.len(),
    ensures
        match house_number(ids[k], prefix) {
            Some(n) => n <= max_house_number(ids, prefix),
            None => true,
        },
    decreases ids.len(),
{
    if k < ids.len() - 1 {
        lemma_max_house_number_ge(ids.drop_last(), prefix, k);
        assert(ids.drop_last()[k] == ids[k]);
    }
}

/// The id `next_house_id` makes for a chunk is new: no existing id has
/// it, since its number exceeds every number used under the chunk.
pub proof fn lemma_next_house_id_is_fresh(ids: Seq<Seq<char>>, cx: i32, cz: i32, k: int)
    requires
        0 <= k < ids.len(),
        max_house_number(ids, region_dir_spec(cx as int, cz as int) + seq!['_']) < u32::MAX,
    ensures
        ids[k] != region_dir_spec(cx as int, cz as int) + seq!['_'] + dec_digits(
            (max_house_number(ids, region_dir_spec(cx as int, cz as int) + seq!['_']) + 1) as nat,
        ),
{
    let prefix = region_dir_spec(cx as int, cz as int) + seq!['_'];
    let m = max_house_number(ids, prefix);
    lemma_max_house_number_bound(ids, prefix);
    let next = (m + 1) as u32;
    let id = prefix + dec_digits(next as nat);
    if ids[k] == id {
        assert(id.subrange(0, prefix.len() as int) =~= prefix);
        assert(id.subrange(prefix.len() as int, id.len() as int) =~= dec_digits(next as nat));
        lemma_parse_u32_dec(next);
        assert(house_number(ids[k], prefix) == Some(next));
        lemma_max_house_number_ge(ids, prefix, k);
        assert(false);
    }
}

/// A house id made for a chunk names that chunk: `parse_chunk_from_id`
/// reads back the coordinates `next_house_id` was given.
pub proof fn lemma_house_id_names_its_chunk(cx: i32, cz: i32, n: nat)
    ensures
        parse_chunk_spec(region_dir_spec(cx as int, cz as int) + seq!['_'] + dec_digits(n)) == Some((cx, cz)),
{
    let a = signed_padded(cx as int, 3);
    let b = signed_padded(cz as int, 3);
    let d = dec_digits(n);
    let id = region_dir_spec(cx as int, cz as int) + seq!['_'] + d;
    lemma_parse_signed_padded(cx as int, 3);
    lemma_parse_signed_padded(cz as int, 3);
    let s = id.drop_first();
    assert(s =~= a + seq!['_'] + b + seq!['_'] + d);
    assert forall|j: int| 0 <= j < a.len() implies s[j] != '_' by {
        assert(s[j] == a[j]);
    }
    lemma_index_of_char(s, '_', a.len() as int);
    assert(s.subrange(0, a.len() as int) =~= a);
    let rest = s.subrange(a.len() as int + 1, s.len() as int);
    assert(rest =~= b + seq!['_'] + d);
    assert forall|j: int| 0 <= j < b.len() implies rest[j] != '_' by {
        assert(rest[j] == b[j]);
    }
    lemma_index_of_char(rest, '_', b.len() as int);
    assert(rest.subrange(0, b.len() as int) =~= b);
}

proof fn lemma_max_house_number_bound(ids: Seq<Seq<char>>, prefix: Seq<char>)
    ensures
        0 <= max_house_number(ids, prefix) <= u32::MAX,
    decreases ids.len(),
{
    if ids.len() > 0 {
        lemma_max_house_number_bound(ids.drop_last(), prefix);
    }
}

/// The next house id in a chunk: `r±XX_±ZZ_{n}` with `n` one more than
/// the largest house number already used in that chunk (1 for an empty
/// chunk).
pub fn next_house_id(cx: i32, cz: i32, existing_ids: &Vec<String>) -> (r: String)
    requires
        max_house_number(existing_ids@.map_values(|s: String| s@), region_dir_spec(cx as int, cz as int) + seq!['_'])
            < u32::MAX,
    ensures
        r@ == region_dir_spec(cx as int, cz as int) + seq!['_'] + dec_digits(
            (max_house_number(existing_ids@.map_values(|s: String| s@), region_dir_spec(cx as int, cz as int) + seq!['_']) + 1) as nat,
        ),
{
    let mut prefix = chunk_prefix(cx, cz);
    prefix.push('_');
    let ghost ids = existing_ids@.map_values(|s: String| s@);
    let mut max_n: u32 = 0;
    let mut i: usize = 0;
    while i < existing_ids.len()
        invariant
            i <= existing_ids@.len(),
            ids == existing_ids@.map_values(|s: String| s@),
            prefix@ == region_dir_spec(cx as int, cz as int) + seq!['_'],
            max_n as int == max_house_number(ids.take(i as int), prefix@),
        decreases existing_ids.len() - i,
    {
        let id = chars_of(existing_ids[i].as_str());
        let n: Option<u32> = if occurs_at_exec(&id, &prefix, 0) {
            let rest = slice_chars(&id, prefix.len(), id.len());
            parse_u32_chars(&rest)
        } else {
            None
        };
        proof {
            assert(ids.take(i + 1).drop_last() =~= ids.take(i as int));
            assert(ids.take(i + 1).last() == id@);
            assert(n == house_number(id@, prefix@));
        }
        if let Some(k) = n {
            if k > max_n {
                max_n = k;
            }
        }
        i = i + 1;
    }
    proof {
        assert(ids.take(existing_ids@.len() as int) =~= ids);
    }
    let mut r = prefix;
    extend_chars(&mut r, &decimal_digits(max_n as u64 + 1));
    string_of(&r)
}

/// File-based housing storage, organized by terrain chunk.
#[derive(Debug, Clone)]
pub struct HousingIO {
    pub base_dir: String,
}

impl HousingIO {
    /// Storage rooted at `base_dir`.
    pub fn new(base_dir: String) -> (r: HousingIO)
        ensures
            r.base_dir@ == base_dir@,
    {
        HousingIO { base_dir }
    }

    /// Directory of a chunk's house files.
    pub fn chunk_dir(&self, cx: i32, cz: i32) -> (r: String)
        ensures
            r@ == join_spec(self.base_dir@, region_dir_spec(cx as int, cz as int)),
    {
        let base = chars_of(self.base_dir.as_str());
        let p = join_path(&base, &chunk_prefix(cx, cz));
        string_of(&p)
    }

    /// Path of a house file.
    pub fn house_path(&self, cx: i32, cz: i32, house_id: &str) -> (r: String)
        ensures
            r@ == join_spec(join_spec(self.base_dir@, region_dir_spec(cx as int, cz as int)), house_id@ + ".json"@),
    {
        let base = chars_of(self.base_dir.as_str());
        let dir = join_path(&base, &chunk_prefix(cx, cz));
        let mut file = chars_of(house_id);
        extend_str(&mut file, ".json");
        let p = join_path(&dir, &file);
        string_of(&p)
    }
}

/// Whether a room's footprint covers the cell at `(x, z)`.
pub open spec fn covers_cell(r: RoomSpec, x: int, z: int) -> bool {
    &&& r.local_x <= x < r.local_x + r.size_x
    &&& r.local_z <= z < r.local_z + r.size_z
}

/// Two rooms (of positive size, as validation requires before rooms are
/// compared) overlap exactly when they are on one floor and some cell lies
/// inside both footprints: rooms that only share an edge or a corner do
/// not overlap.
pub proof fn lemma_overlap_is_shared_cell(a: RoomSpec, b: RoomSpec)
    requires
        a.size_x > 0 && a.size_z > 0,
        b.size_x > 0 && b.size_z > 0,
    ensures
        rooms_overlap_spec(a, b) <==> (a.floor_level == b.floor_level
            && exists|x: int, z: int| covers_cell(a, x, z) && covers_cell(b, x, z)),
{
    if rooms_overlap_spec(a, b) {
        let x: int = if a.local_x >= b.local_x { a.local_x as int } else { b.local_x as int };
        let z: int = if a.local_z >= b.local_z { a.local_z as int } else { b.local_z as int };
        assert(covers_cell(a, x, z) && covers_cell(b, x, z));
    }
}

/// Rooms side by side (one ending where the other begins, along x or
/// along z) never overlap.
pub proof fn lemma_touching_rooms_do_not_overlap(a: RoomSpec, b: RoomSpec)
    requires
        a.size_x > 0 && a.size_z > 0,
        b.size_x > 0 && b.size_z > 0,
        a.local_x + a.size_x == b.local_x || a.local_z + a.size_z == b.local_z,
    ensures
        !rooms_overlap_spec(a, b),
        !rooms_overlap_spec(b, a),
{
    lemma_overlap_is_shared_cell(a, b);
    lemma_overlap_is_shared_cell(b, a);
}

} // verus!
