//! Key codec: the byte form of coordinates and of the composite primary key.

use vstd::prelude::*;
use vstd::string::StringSliceAdditionalSpecFns;
use vstd::utf8::{decode_utf8, encode_utf8, encode_utf8_decode_utf8};

verus! {

/// A location on the three-dimensional grid.
#[derive(Clone, Copy, Debug, PartialEq, Eq, Structural)]
pub struct Coordinates {
    pub x: i64,
    pub y: i64,
    pub z: i64,
}

impl View for Coordinates {
    type V = (i64, i64, i64);

    open spec fn view(&self) -> (i64, i64, i64) {
        (self.x, self.y, self.z)
    }
}

/// The eight bytes of `v` in two's complement, most significant byte first.
pub open spec fn be_bytes(v: i64) -> Seq<u8> {
    let u = v as u64;
    seq![
        ((u >> 56) & 0xff) as u8,
        ((u >> 48) & 0xff) as u8,
        ((u >> 40) & 0xff) as u8,
        ((u >> 32) & 0xff) as u8,
        ((u >> 24) & 0xff) as u8,
        ((u >> 16) & 0xff) as u8,
        ((u >> 8) & 0xff) as u8,
        (u & 0xff) as u8,
    ]
}

/// The fixed-width encoding of a location: `x`, `y`, `z`, eight bytes each.
pub open spec fn coordinate_bytes(c: (i64, i64, i64)) -> Seq<u8> {
    be_bytes(c.0) + be_bytes(c.1) + be_bytes(c.2)
}

/// The composite primary key: the author's UTF-8 bytes, then the location.
pub open spec fn key_bytes(author: Seq<char>, c: (i64, i64, i64)) -> Seq<u8> {
    encode_utf8(author) + coordinate_bytes(c)
}

/// Trusted: `collectxyz::nft::Coordinates::to_bytes`, which concatenates the
/// `to_be_bytes` of `x`, `y` and `z`. The contract claims exactly that layout.
#[verifier::external_body]
pub(crate) fn coordinates_to_bytes(c: Coordinates) -> (r: Vec<u8>)
    ensures
        r@ == coordinate_bytes(c@),
{
    collectxyz::nft::Coordinates { x: c.x, y: c.y, z: c.z }.to_bytes()
}

/// Builds the composite primary key of an entry.
pub fn entries_key(author_xyz_id: String, coordinates: Coordinates) -> (key: Vec<u8>)
    ensures
        key@ == key_bytes(author_xyz_id@, coordinates@),
{
    let mut key: Vec<u8> = Vec::new();
    key.extend_from_slice(author_xyz_id.as_str().as_bytes());
    let tail = coordinates_to_bytes(coordinates);
    key.extend_from_slice(tail.as_slice());
    proof {
        assert(key@ =~= key_bytes(author_xyz_id@, coordinates@));
    }
    key
}

/// An encoded location is always 24 bytes long.
pub proof fn lemma_coordinate_bytes_len(c: (i64, i64, i64))
    ensures
        coordinate_bytes(c).len() == 24,
{
}

/// Distinct integers have distinct big-endian forms.
pub proof fn lemma_be_bytes_injective(a: i64, b: i64)
    requires
        be_bytes(a) == be_bytes(b),
    ensures
        a == b,
{
    assert(be_bytes(a)[0] == be_bytes(b)[0]);
    assert(be_bytes(a)[1] == be_bytes(b)[1]);
    assert(be_bytes(a)[2] == be_bytes(b)[2]);
    assert(be_bytes(a)[3] == be_bytes(b)[3]);
    assert(be_bytes(a)[4] == be_bytes(b)[4]);
    assert(be_bytes(a)[5] == be_bytes(b)[5]);
    assert(be_bytes(a)[6] == be_bytes(b)[6]);
    assert(be_bytes(a)[7] == be_bytes(b)[7]);
    assert(a == b) by (bit_vector)
        requires
            (((a as u64) >> 56) & 0xff) as u8 == (((b as u64) >> 56) & 0xff) as u8,
            (((a as u64) >> 48) & 0xff) as u8 == (((b as u64) >> 48) & 0xff) as u8,
            (((a as u64) >> 40) & 0xff) as u8 == (((b as u64) >> 40) & 0xff) as u8,
            (((a as u64) >> 32) & 0xff) as u8 == (((b as u64) >> 32) & 0xff) as u8,
            (((a as u64) >> 24) & 0xff) as u8 == (((b as u64) >> 24) & 0xff) as u8,
            (((a as u64) >> 16) & 0xff) as u8 == (((b as u64) >> 16) & 0xff) as u8,
            (((a as u64) >> 8) & 0xff) as u8 == (((b as u64) >> 8) & 0xff) as u8,
            ((a as u64) & 0xff) as u8 == ((b as u64) & 0xff) as u8,
    ;
}

/// Distinct locations have distinct encodings.
pub proof fn lemma_coordinate_bytes_injective(c: (i64, i64, i64), d: (i64, i64, i64))
    requires
        coordinate_bytes(c) == coordinate_bytes(d),
    ensures
        c == d,
{
    let p = coordinate_bytes(c);
    let q = coordinate_bytes(d);
    assert(p.subrange(0, 8) =~= be_bytes(c.0));
    assert(q.subrange(0, 8) =~= be_bytes(d.0));
    assert(p.subrange(8, 16) =~= be_bytes(c.1));
    assert(q.subrange(8, 16) =~= be_bytes(d.1));
    assert(p.subrange(16, 24) =~= be_bytes(c.2));
    assert(q.subrange(16, 24) =~= be_bytes(d.2));
    lemma_be_bytes_injective(c.0, d.0);
    lemma_be_bytes_injective(c.1, d.1);
    lemma_be_bytes_injective(c.2, d.2);
}

/// No two distinct pairs of author and location share a primary key.
pub proof fn lemma_key_bytes_injective(
    a: Seq<char>,
    c: (i64, i64, i64),
    b: Seq<char>,
    d: (i64, i64, i64),
)
    requires
        key_bytes(a, c) == key_bytes(b, d),
    ensures
        a == b,
        c == d,
{
    let k = key_bytes(a, c);
    let n = k.len() - 24;
    assert(encode_utf8(a).len() == n);
    assert(encode_utf8(b).len() == n);
    assert(k.subrange(0, n) =~= encode_utf8(a));
    assert(k.subrange(0, n) =~= encode_utf8(b));
    assert(k.subrange(n, k.len() as int) =~= coordinate_bytes(c));
    assert(k.subrange(n, k.len() as int) =~= coordinate_bytes(d));
    lemma_coordinate_bytes_injective(c, d);
    encode_utf8_decode_utf8(a);
    encode_utf8_decode_utf8(b);
    assert(decode_utf8(encode_utf8(a)) == a);
    assert(decode_utf8(encode_utf8(b)) == b);
}

} // verus!
