//! Terrain tile addressing and the default contents of missing tiles.
//!
//! Tiles are 64x64 world cells; 16x16 tiles form a region. Heightmaps are
//! stored as `{base}/height/r±RR_±RR/h_±TTTT_±TTTT.bin`, splatmaps under
//! `splat/`, and region metadata as `{base}/meta/r±RR_±RR.json`.
use vstd::prelude::*;

use crate::text::{
    chars_of, extend_chars, extend_str, is_digit, lemma_parse_signed_padded, signed_padded, signed_padded_chars, string_of,
};

verus! {

/// Cells along one side of a tile.
pub const TILE_DIM: usize = 64;

/// Heightmap vertices along one side of a tile (adjacent tiles share one).
pub const VERTS_PER_SIDE: usize = 65;

/// Heightmap size in bytes: 65x65 little-endian `u16` samples.
pub const HEIGHTMAP_SIZE: usize = 8450;

/// Splatmap size in bytes: 64x64 RGBA cells.
pub const SPLATMAP_SIZE: usize = 16384;

/// Raw height sample for sea level (0.0 m).
pub const DEFAULT_HEIGHT_VALUE: u16 = 10000;

/// Euclidean (floor) division by 16.
pub open spec fn floor_div16(t: int) -> int {
    t / 16
}

/// `Path::join` for a relative segment: the segment itself after an empty
/// base, otherwise the base and the segment separated by exactly one `/`.
pub open spec fn join_spec(base: Seq<char>, rel: Seq<char>) -> Seq<char> {
    if base.len() == 0 {
        rel
    } else if base.last() == '/' {
        base + rel
    } else {
        base + seq!['/'] + rel
    }
}

/// `r±RR_±RR`: a region directory name.
pub open spec fn region_dir_spec(rx: int, rz: int) -> Seq<char> {
    seq!['r'] + signed_padded(rx, 3) + seq!['_'] + signed_padded(rz, 3)
}

/// `{prefix}_±TTTT_±TTTT{ext}`: a tile file name.
pub open spec fn tile_file_spec(prefix: char, tx: int, tz: int, ext: Seq<char>) -> Seq<char> {
    seq![prefix, '_'] + signed_padded(tx, 5) + seq!['_'] + signed_padded(tz, 5) + ext
}

/// Path of a tile file of the given kind (`height`/`h` or `splat`/`s`).
pub open spec fn tile_path_spec(base: Seq<char>, kind: Seq<char>, prefix: char, tx: int, tz: int) -> Seq<char> {
    join_spec(
        join_spec(join_spec(base, kind), region_dir_spec(floor_div16(tx), floor_div16(tz))),
        tile_file_spec(prefix, tx, tz, seq!['.', 'b', 'i', 'n']),
    )
}

/// A `{:+0W}` rendering followed by a fixed text can be split off the end
/// of a string in only one way.
proof fn lemma_split_signed(p1: Seq<char>, v1: int, p2: Seq<char>, v2: int, w: nat, t: Seq<char>)
    requires
        i32::MIN <= v1 <= i32::MAX,
        i32::MIN <= v2 <= i32::MAX,
        p1 + signed_padded(v1, w) + t == p2 + signed_padded(v2, w) + t,
    ensures
        v1 == v2,
        p1 == p2,
{
    let s1 = signed_padded(v1, w);
    let s2 = signed_padded(v2, w);
    lemma_parse_signed_padded(v1, w);
    lemma_parse_signed_padded(v2, w);
    let x = p1 + s1;
    let y = p2 + s2;
    assert(x + t == y + t);
    assert((x + t).len() == x.len() + t.len());
    assert((y + t).len() == y.len() + t.len());
    assert(x =~= (x + t).subrange(0, x.len() as int));
    assert(y =~= (y + t).subrange(0, y.len() as int));
    assert(x.len() == y.len());
    assert(x == y);
    if s1.len() < s2.len() {
        let q = x.len() - s1.len();
        assert(x[q] == s1[0]);
        assert(y[q] == s2[s2.len() - s1.len()]);
        assert(is_digit(s2[s2.len() - s1.len()]));
        assert(false);
    }
    if s2.len() < s1.len() {
        let q = y.len() - s2.len();
        assert(y[q] == s2[0]);
        assert(x[q] == s1[s1.len() - s2.len()]);
        assert(is_digit(s1[s1.len() - s2.len()]));
        assert(false);
    }
    assert(s1 =~= x.subrange(p1.len() as int, x.len() as int));
    assert(s2 =~= y.subrange(p2.len() as int, y.len() as int));
    assert(p1 =~= x.subrange(0, p1.len() as int));
    assert(p2 =~= y.subrange(0, p2.len() as int));
}

/// The directory part of a tile path, before the file name.
proof fn lemma_tile_path_parts(base: Seq<char>, kind: Seq<char>, prefix: char, tx: int, tz: int)
    requires
        i32::MIN <= tx <= i32::MAX,
        i32::MIN <= tz <= i32::MAX,
    ensures
        ({
            let dir = join_spec(join_spec(base, kind), region_dir_spec(floor_div16(tx), floor_div16(tz)));
            tile_path_spec(base, kind, prefix, tx, tz)
                == dir + seq!['/', prefix, '_'] + signed_padded(tx, 5) + seq!['_'] + signed_padded(tz, 5) + seq!['.', 'b', 'i', 'n']
        }),
{
    let rx = floor_div16(tx);
    let rz = floor_div16(tz);
    let region = region_dir_spec(rx, rz);
    let dir = join_spec(join_spec(base, kind), region);
    lemma_parse_signed_padded(rz, 3);
    let srz = signed_padded(rz, 3);
    assert(srz.len() >= 2);
    assert(region.last() == srz.last());
    assert(is_digit(srz[srz.len() - 1]));
    assert(dir.len() > 0 && dir.last() == region.last());
    assert(tile_path_spec(base, kind, prefix, tx, tz)
        =~= dir + seq!['/', prefix, '_'] + signed_padded(tx, 5) + seq!['_'] + signed_padded(tz, 5) + seq!['.', 'b', 'i', 'n']);
}

/// Distinct tiles never share a file: a tile's path determines the tile.
pub proof fn lemma_tile_path_injective(base: Seq<char>, kind: Seq<char>, prefix: char, tx1: i32, tz1: i32, tx2: i32, tz2: i32)
    requires
        tile_path_spec(base, kind, prefix, tx1 as int, tz1 as int) == tile_path_spec(base, kind, prefix, tx2 as int, tz2 as int),
    ensures
        tx1 == tx2,
        tz1 == tz2,
{
    lemma_tile_path_parts(base, kind, prefix, tx1 as int, tz1 as int);
    lemma_tile_path_parts(base, kind, prefix, tx2 as int, tz2 as int);
    let d1 = join_spec(join_spec(base, kind), region_dir_spec(floor_div16(tx1 as int), floor_div16(tz1 as int)));
    let d2 = join_spec(join_spec(base, kind), region_dir_spec(floor_div16(tx2 as int), floor_div16(tz2 as int)));
    let head1 = d1 + seq!['/', prefix, '_'];
    let head2 = d2 + seq!['/', prefix, '_'];
    let bin = seq!['.', 'b', 'i', 'n'];
    let under = seq!['_'];
    assert(head1 + signed_padded(tx1 as int, 5) + under + signed_padded(tz1 as int, 5) + bin
        == (head1 + signed_padded(tx1 as int, 5) + under) + signed_padded(tz1 as int, 5) + bin);
    lemma_split_signed(head1 + signed_padded(tx1 as int, 5) + under, tz1 as int,
        head2 + signed_padded(tx2 as int, 5) + under, tz2 as int, 5, bin);
    lemma_split_signed(head1, tx1 as int, head2, tx2 as int, 5, under);
}

/// Convert a tile coordinate to its region coordinate (regions are 16x16
/// tiles; negative coordinates round toward negative infinity).
pub fn tile_to_region(tile: i32) -> (r: i32)
    ensures
        r as int == floor_div16(tile as int),
{
    if tile >= 0 {
        tile / 16
    } else {
        let up: i64 = (-(tile as i64) + 15) / 16;
        (-up) as i32
    }
}

/// `Path::join` of a relative segment onto a base path.
pub fn join_path(base: &Vec<char>, rel: &Vec<char>) -> (r: Vec<char>)
    ensures
        r@ == join_spec(base@, rel@),
{
    let mut r = base.clone();
    proof {
        assert(r@ == base@);
    }
    if base.len() > 0 && base[base.len() - 1] != '/' {
        r.push('/');
    }
    extend_chars(&mut r, rel);
    proof {
        if base@.len() > 0 && base@.last() != '/' {
            assert(r@ =~= base@ + seq!['/'] + rel@);
        }
    }
    r
}

/// Region directory name, e.g. `r+00_+00` or `r-01_+02`.
fn region_dir_name(rx: i32, rz: i32) -> (r: Vec<char>)
    ensures
        r@ == region_dir_spec(rx as int, rz as int),
{
    let mut r: Vec<char> = Vec::new();
    r.push('r');
    let a = signed_padded_chars(rx, 3);
    extend_chars(&mut r, &a);
    r.push('_');
    let b = signed_padded_chars(rz, 3);
    extend_chars(&mut r, &b);
    proof {
        assert(r@ =~= region_dir_spec(rx as int, rz as int));
    }
    r
}

fn tile_file_name(prefix: char, tx: i32, tz: i32) -> (r: Vec<char>)
    ensures
        r@ == tile_file_spec(prefix, tx as int, tz as int, seq!['.', 'b', 'i', 'n']),
{
    let mut r: Vec<char> = Vec::new();
    r.push(prefix);
    r.push('_');
    let a = signed_padded_chars(tx, 5);
    extend_chars(&mut r, &a);
    r.push('_');
    let b = signed_padded_chars(tz, 5);
    extend_chars(&mut r, &b);
    r.push('.');
    r.push('b');
    r.push('i');
    r.push('n');
    proof {
        assert(r@ =~= tile_file_spec(prefix, tx as int, tz as int, seq!['.', 'b', 'i', 'n']));
    }
    r
}

fn tile_path(base: &str, kind: &str, prefix: char, tx: i32, tz: i32) -> (r: String)
    ensures
        r@ == tile_path_spec(base@, kind@, prefix, tx as int, tz as int),
{
    let b = chars_of(base);
    let k = chars_of(kind);
    let p1 = join_path(&b, &k);
    let rx = tile_to_region(tx);
    let rz = tile_to_region(tz);
    let dir = region_dir_name(rx, rz);
    let p2 = join_path(&p1, &dir);
    let file = tile_file_name(prefix, tx, tz);
    let p3 = join_path(&p2, &file);
    string_of(&p3)
}

/// Filesystem path of a heightmap tile file.
#[verifier::rlimit(40)]
pub fn heightmap_path(base: &str, tx: i32, tz: i32) -> (r: String)
    ensures
        r@ == tile_path_spec(base@, seq!['h', 'e', 'i', 'g', 'h', 't'], 'h', tx as int, tz as int),
{
    proof {
        reveal_strlit("height");
    }
    tile_path(base, "height", 'h', tx, tz)
}

/// Filesystem path of a splatmap tile file.
pub fn splatmap_path(base: &str, tx: i32, tz: i32) -> (r: String)
    ensures
        r@ == tile_path_spec(base@, seq!['s', 'p', 'l', 'a', 't'], 's', tx as int, tz as int),
{
    proof {
        reveal_strlit("splat");
    }
    tile_path(base, "splat", 's', tx, tz)
}

/// Filesystem path of a region metadata JSON file.
pub fn meta_path(base: &str, rx: i32, rz: i32) -> (r: String)
    ensures
        r@ == join_spec(
            join_spec(base@, seq!['m', 'e', 't', 'a']),
            region_dir_spec(rx as int, rz as int) + seq!['.', 'j', 's', 'o', 'n'],
        ),
{
    let b = chars_of(base);
    let mut k: Vec<char> = Vec::new();
    k.push('m');
    k.push('e');
    k.push('t');
    k.push('a');
    let p1 = join_path(&b, &k);
    let mut file = region_dir_name(rx, rz);
    extend_str(&mut file, ".json");
    proof {
        reveal_strlit(".json");
        assert(k@ =~= seq!['m', 'e', 't', 'a']);
        assert(file@ =~= region_dir_spec(rx as int, rz as int) + seq!['.', 'j', 's', 'o', 'n']);
    }
    let p2 = join_path(&p1, &file);
    string_of(&p2)
}

/// A flat heightmap at sea level: every sample is `DEFAULT_HEIGHT_VALUE`,
/// stored little-endian.
pub fn default_heightmap() -> (buf: Vec<u8>)
    ensures
        buf.len() == HEIGHTMAP_SIZE,
        forall|i: int| 0 <= i < buf.len() && i % 2 == 0 ==> buf[i] == DEFAULT_HEIGHT_VALUE % 256,
        forall|i: int| 0 <= i < buf.len() && i % 2 == 1 ==> buf[i] == DEFAULT_HEIGHT_VALUE / 256,
{
    let lo: u8 = (DEFAULT_HEIGHT_VALUE % 256) as u8;
    let hi: u8 = (DEFAULT_HEIGHT_VALUE / 256) as u8;
    let mut buf: Vec<u8> = Vec::new();
    let mut k: usize = 0;
    while k < VERTS_PER_SIDE * VERTS_PER_SIDE
        invariant
            k <= VERTS_PER_SIDE * VERTS_PER_SIDE,
            buf.len() == 2 * k,
            lo == DEFAULT_HEIGHT_VALUE % 256,
            hi == DEFAULT_HEIGHT_VALUE / 256,
            forall|i: int| 0 <= i < buf.len() && i % 2 == 0 ==> buf[i] == lo,
            forall|i: int| 0 <= i < buf.len() && i % 2 == 1 ==> buf[i] == hi,
        decreases VERTS_PER_SIDE * VERTS_PER_SIDE - k,
    {
        buf.push(lo);
        buf.push(hi);
        k = k + 1;
    }
    buf
}

/// A splatmap that is 100% the first layer: R = 255, G = B = A = 0.
pub fn default_splatmap() -> (buf: Vec<u8>)
    ensures
        buf.len() == SPLATMAP_SIZE,
        forall|i: int| 0 <= i < buf.len() ==> buf[i] == (if i % 4 == 0 { 255u8 } else { 0u8 }),
{
    let mut buf: Vec<u8> = Vec::new();
    let mut k: usize = 0;
    while k < TILE_DIM * TILE_DIM
        invariant
            k <= TILE_DIM * TILE_DIM,
            buf.len() == 4 * k,
            forall|i: int| 0 <= i < buf.len() ==> buf[i] == (if i % 4 == 0 { 255u8 } else { 0u8 }),
        decreases TILE_DIM * TILE_DIM - k,
    {
        buf.push(255);
        buf.push(0);
        buf.push(0);
        buf.push(0);
        k = k + 1;
    }
    buf
}

} // verus!
