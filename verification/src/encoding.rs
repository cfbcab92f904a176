//! The byte encoding of field elements and points.
//!
//! A field element is written as the 32 bytes of its residue, least
//! significant byte first. A point is written as its two coordinates and
//! one more byte, which is 1 for the identity and 0 otherwise. A
//! ciphertext is written as its point and then its field element. A
//! message is written as its items, one after the other.
use crate::curve::{on_curve, Point, PointView};
use crate::field::{fq_modulus, Fq};
use crate::pvw::{Ciphertext, CiphertextView};
use vstd::prelude::*;
use vstd::slice::slice_subrange;

verus! {

/// The number of bytes of an encoded field element.
pub const FIELD_BYTES: usize = 32;

/// The number of bytes of an encoded point.
pub const POINT_BYTES: usize = 65;

/// The number of bytes of an encoded ciphertext.
pub const CIPHERTEXT_BYTES: usize = 97;

/// The 64-bit number written by the eight bytes from `at` on, least
/// significant first.
pub open spec fn limb_at(bytes: Seq<u8>, at: int) -> nat {
    (bytes[at] + bytes[at + 1] * 0x100 + bytes[at + 2] * 0x1_0000 + bytes[at + 3] * 0x100_0000
        + bytes[at + 4] * 0x1_0000_0000 + bytes[at + 5] * 0x100_0000_0000 + bytes[at + 6]
        * 0x1_0000_0000_0000 + bytes[at + 7] * 0x100_0000_0000_0000) as nat
}

/// The number written by the 32 bytes from `at` on, least significant
/// first.
pub open spec fn bytes_value(bytes: Seq<u8>, at: int) -> nat {
    (limb_at(bytes, at) + limb_at(bytes, at + 8) * 0x1_0000_0000_0000_0000int + limb_at(
        bytes,
        at + 16,
    ) * 0x1_0000_0000_0000_0000_0000_0000_0000_0000int + limb_at(bytes, at + 24)
        * 0x1_0000_0000_0000_0000_0000_0000_0000_0000_0000_0000_0000_0000int) as nat
}

/// What an encoded field element decodes to, if to anything.
pub open spec fn decode_element_spec(bytes: Seq<u8>) -> Option<nat> {
    if bytes.len() == FIELD_BYTES && bytes_value(bytes, 0) < fq_modulus() {
        Some(bytes_value(bytes, 0))
    } else {
        None
    }
}

/// What an encoded point decodes to, if to anything: the view of the point.
#[verifier::opaque]
pub open spec fn decode_point_spec(bytes: Seq<u8>) -> Option<PointView> {
    let x = bytes_value(bytes, 0);
    let y = bytes_value(bytes, 32);
    if bytes.len() != POINT_BYTES || x >= fq_modulus() || y >= fq_modulus() {
        None
    } else if bytes[64] == 1 && x == 0 && y == 0 {
        Some((0nat, 0nat, true))
    } else if bytes[64] == 0 && on_curve(x, y) {
        Some((x, y, false))
    } else {
        None
    }
}

/// The number written from `at` on depends on the 32 bytes there alone.
proof fn lemma_bytes_value_local(a: Seq<u8>, b: Seq<u8>, at: int)
    requires
        forall|i: int| at <= i < at + 32 ==> a[i] == b[i],
    ensures
        bytes_value(a, at) == bytes_value(b, at),
{
    assert(limb_at(a, at) == limb_at(b, at));
    assert(limb_at(a, at + 8) == limb_at(b, at + 8));
    assert(limb_at(a, at + 16) == limb_at(b, at + 16));
    assert(limb_at(a, at + 24) == limb_at(b, at + 24));
}

/// Appends the eight bytes of a limb, least significant first.
fn push_limb(out: &mut Vec<u8>, limb: u64)
    ensures
        final(out)@.len() == old(out)@.len() + 8,
        forall|i: int| 0 <= i < old(out)@.len() ==> final(out)@[i] == old(out)@[i],
        limb_at(final(out)@, old(out)@.len() as int) == limb,
{
    let mut rest = limb;
    let b0 = (rest % 0x100) as u8;
    rest = rest / 0x100;
    let b1 = (rest % 0x100) as u8;
    rest = rest / 0x100;
    let b2 = (rest % 0x100) as u8;
    rest = rest / 0x100;
    let b3 = (rest % 0x100) as u8;
    rest = rest / 0x100;
    let b4 = (rest % 0x100) as u8;
    rest = rest / 0x100;
    let b5 = (rest % 0x100) as u8;
    rest = rest / 0x100;
    let b6 = (rest % 0x100) as u8;
    rest = rest / 0x100;
    let b7 = (rest % 0x100) as u8;
    out.push(b0);
    out.push(b1);
    out.push(b2);
    out.push(b3);
    out.push(b4);
    out.push(b5);
    out.push(b6);
    out.push(b7);
}

/// Reads the limb written by the eight bytes from `at` on.
fn read_limb(bytes: &[u8], at: usize) -> (limb: u64)
    requires
        at + 8 <= bytes@.len() <= usize::MAX,
    ensures
        limb == limb_at(bytes@, at as int),
{
    let b0 = bytes[at] as u64;
    let b1 = bytes[at + 1] as u64;
    let b2 = bytes[at + 2] as u64;
    let b3 = bytes[at + 3] as u64;
    let b4 = bytes[at + 4] as u64;
    let b5 = bytes[at + 5] as u64;
    let b6 = bytes[at + 6] as u64;
    let b7 = bytes[at + 7] as u64;
    b0 + b1 * 0x100 + b2 * 0x1_0000 + b3 * 0x100_0000 + b4 * 0x1_0000_0000 + b5
        * 0x100_0000_0000 + b6 * 0x1_0000_0000_0000 + b7 * 0x100_0000_0000_0000
}

/// Appends the 32 bytes of a field element.
fn push_element(out: &mut Vec<u8>, x: &Fq)
    ensures
        final(out)@.len() == old(out)@.len() + 32,
        forall|i: int| 0 <= i < old(out)@.len() ==> final(out)@[i] == old(out)@[i],
        bytes_value(final(out)@, old(out)@.len() as int) == x@,
        x@ < fq_modulus(),
{
    let ghost start = out@.len() as int;
    let (l0, l1, l2, l3) = x.limbs();
    push_limb(out, l0);
    let ghost s0 = out@;
    push_limb(out, l1);
    let ghost s1 = out@;
    push_limb(out, l2);
    let ghost s2 = out@;
    push_limb(out, l3);
    proof {
        assert(limb_at(out@, start) == limb_at(s0, start));
        assert(limb_at(out@, start + 8) == limb_at(s1, start + 8));
        assert(limb_at(out@, start + 16) == limb_at(s2, start + 16));
    }
}

/// Reads the field element written by the 32 bytes from `at` on, if they
/// write a residue.
fn read_element(bytes: &[u8], at: usize) -> (r: Option<Fq>)
    requires
        at + 32 <= bytes@.len() <= usize::MAX,
    ensures
        r.is_some() <==> bytes_value(bytes@, at as int) < fq_modulus(),
        r matches Some(x) ==> x@ == bytes_value(bytes@, at as int),
{
    let l0 = read_limb(bytes, at);
    let l1 = read_limb(bytes, at + 8);
    let l2 = read_limb(bytes, at + 16);
    let l3 = read_limb(bytes, at + 24);
    Fq::from_limbs(l0, l1, l2, l3)
}

/// The encoding of a field element.
pub fn element_to_bytes(x: &Fq) -> (r: Vec<u8>)
    ensures
        r@.len() == FIELD_BYTES,
        decode_element_spec(r@) == Some(x@),
{
    let mut out: Vec<u8> = Vec::new();
    push_element(&mut out, x);
    out
}

/// The field element that the bytes encode, if they encode one.
pub fn element_from_bytes(bytes: &[u8]) -> (r: Option<Fq>)
    ensures
        r.is_some() <==> decode_element_spec(bytes@).is_some(),
        r matches Some(x) ==> decode_element_spec(bytes@) == Some(x@),
{
    if bytes.len() != FIELD_BYTES {
        return None;
    }
    read_element(bytes, 0)
}

/// The encoding of a point.
pub fn point_to_bytes(p: &Point) -> (r: Vec<u8>)
    ensures
        r@.len() == POINT_BYTES,
        decode_point_spec(r@) == Some(p@),
{
    reveal(decode_point_spec);
    let (x, y, infinity) = p.coords();
    let mut out: Vec<u8> = Vec::new();
    push_element(&mut out, &x);
    let ghost with_x = out@;
    push_element(&mut out, &y);
    let ghost with_y = out@;
    out.push(if infinity { 1u8 } else { 0u8 });
    proof {
        lemma_bytes_value_local(with_x, with_y, 0);
        lemma_bytes_value_local(with_y, out@, 0);
        lemma_bytes_value_local(with_y, out@, 32);
    }
    out
}

/// The point that the bytes encode, if they encode one.
pub fn point_from_bytes(bytes: &[u8]) -> (r: Option<Point>)
    ensures
        r.is_some() <==> decode_point_spec(bytes@).is_some(),
        r matches Some(p) ==> decode_point_spec(bytes@) == Some(p@),
{
    reveal(decode_point_spec);
    if bytes.len() != POINT_BYTES {
        return None;
    }
    let x = match read_element(bytes, 0) {
        Some(x) => x,
        None => {
            return None;
        },
    };
    let y = match read_element(bytes, 32) {
        Some(y) => y,
        None => {
            return None;
        },
    };
    if bytes[64] == 1 {
        if x.equals(&Fq::zero()) && y.equals(&Fq::zero()) {
            Some(Point::identity())
        } else {
            None
        }
    } else if bytes[64] == 0 {
        Point::from_coords(x, y)
    } else {
        None
    }
}

/// What an encoded ciphertext decodes to, if to anything: a point, then a
/// field element.
#[verifier::opaque]
pub open spec fn decode_ciphertext_spec(bytes: Seq<u8>) -> Option<CiphertextView> {
    if bytes.len() != CIPHERTEXT_BYTES {
        None
    } else {
        match (
            decode_point_spec(bytes.subrange(0, 65)),
            decode_element_spec(bytes.subrange(65, 97)),
        ) {
            (Some(u), Some(v)) => Some((u, v)),
            _ => None,
        }
    }
}

/// The `i`-th piece of a message cut into pieces of `width` bytes.
pub open spec fn chunk(bytes: Seq<u8>, width: int, i: int) -> Seq<u8> {
    bytes.subrange(width * i, width * i + width)
}

/// Appending one piece to a message leaves the pieces before it as they
/// were and makes the appended piece the last one.
proof fn lemma_chunks_after_append(before: Seq<u8>, added: Seq<u8>, width: int, n: int)
    requires
        width > 0,
        n >= 0,
        before.len() == width * n,
        added.len() == width,
    ensures
        chunk(before + added, width, n) == added,
        forall|j: int| 0 <= j < n ==> #[trigger] chunk(before + added, width, j) == chunk(before, width, j),
{
    assert(chunk(before + added, width, n) =~= added);
    assert forall|j: int| 0 <= j < n implies #[trigger] chunk(before + added, width, j) == chunk(
        before,
        width,
        j,
    ) by {
        assert(width * j + width <= width * n) by (nonlinear_arith)
            requires
                0 <= j < n,
                width > 0,
        ;
        assert(0 <= width * j) by (nonlinear_arith)
            requires
                0 <= j,
                width > 0,
        ;
        assert(chunk(before + added, width, j) =~= chunk(before, width, j));
    }
}

/// The encoding of a ciphertext.
pub fn ciphertext_to_bytes(ct: &Ciphertext) -> (r: Vec<u8>)
    ensures
        r@.len() == CIPHERTEXT_BYTES,
        decode_ciphertext_spec(r@) == Some(ct@),
{
    reveal(decode_ciphertext_spec);
    let mut out = point_to_bytes(&ct.u());
    let mut tail = element_to_bytes(&ct.v());
    let ghost head = out@;
    let ghost rest = tail@;
    out.append(&mut tail);
    proof {
        assert(out@.subrange(0, 65) =~= head);
        assert(out@.subrange(65, 97) =~= rest);
    }
    out
}

/// The ciphertext that the bytes encode, if they encode one.
pub fn ciphertext_from_bytes(bytes: &[u8]) -> (r: Option<Ciphertext>)
    ensures
        r.is_some() <==> decode_ciphertext_spec(bytes@).is_some(),
        r matches Some(ct) ==> decode_ciphertext_spec(bytes@) == Some(ct@),
{
    reveal(decode_ciphertext_spec);
    if bytes.len() != CIPHERTEXT_BYTES {
        return None;
    }
    let u = match point_from_bytes(slice_subrange(bytes, 0, 65)) {
        Some(u) => u,
        None => {
            return None;
        },
    };
    match element_from_bytes(slice_subrange(bytes, 65, 97)) {
        Some(v) => Some(Ciphertext::new(u, v)),
        None => None,
    }
}

/// The encoding of a message of field elements: the encodings of the
/// elements, one after the other.
pub fn encode_elements(xs: &Vec<Fq>) -> (r: Vec<u8>)
    requires
        xs@.len() * FIELD_BYTES <= usize::MAX,
    ensures
        r@.len() == xs@.len() * FIELD_BYTES,
        forall|i: int|
            0 <= i < xs@.len() ==> decode_element_spec(#[trigger] chunk(r@, 32, i)) == Some(
                xs@[i]@,
            ),
{
    let mut out: Vec<u8> = Vec::new();
    let mut i: usize = 0;
    while i < xs.len()
        invariant
            i <= xs@.len(),
            xs@.len() * 32 <= usize::MAX,
            out@.len() == 32 * i,
            forall|j: int|
                0 <= j < i ==> decode_element_spec(#[trigger] chunk(out@, 32, j)) == Some(
                    xs@[j]@,
                ),
        decreases xs@.len() - i,
    {
        let mut piece = element_to_bytes(&xs[i]);
        let ghost before = out@;
        let ghost added = piece@;
        out.append(&mut piece);
        proof {
            lemma_chunks_after_append(before, added, 32, i as int);
        }
        i = i + 1;
    }
    out
}

/// The field elements that a message encodes, if it is made of encoded
/// field elements.
pub fn decode_elements(bytes: &[u8]) -> (r: Option<Vec<Fq>>)
    ensures
        r.is_some() <==> bytes@.len() % 32 == 0 && forall|i: int|
            0 <= i < bytes@.len() / 32 ==> decode_element_spec(
                #[trigger] chunk(bytes@, 32, i),
            ).is_some(),
        r matches Some(xs) ==> {
            &&& xs@.len() == bytes@.len() / 32
            &&& forall|i: int|
                0 <= i < xs@.len() ==> decode_element_spec(#[trigger] chunk(bytes@, 32, i))
                    == Some(xs@[i]@)
        },
{
    if bytes.len() % FIELD_BYTES != 0 {
        return None;
    }
    let n = bytes.len() / FIELD_BYTES;
    let mut out: Vec<Fq> = Vec::new();
    let mut i: usize = 0;
    while i < n
        invariant
            i <= n,
            bytes@.len() == 32 * n,
            bytes@.len() <= usize::MAX,
            out@.len() == i,
            forall|j: int|
                0 <= j < i ==> decode_element_spec(#[trigger] chunk(bytes@, 32, j)) == Some(
                    out@[j]@,
                ),
        decreases n - i,
    {
        let piece = slice_subrange(bytes, 32 * i, 32 * i + 32);
        match element_from_bytes(piece) {
            Some(x) => {
                out.push(x);
            },
            None => {
                assert(decode_element_spec(chunk(bytes@, 32, i as int)).is_none());
                return None;
            },
        }
        i = i + 1;
    }
    Some(out)
}

/// The encoding of a message of points: the encodings of the points, one
/// after the other.
pub fn encode_points(ps: &Vec<Point>) -> (r: Vec<u8>)
    requires
        ps@.len() * POINT_BYTES <= usize::MAX,
    ensures
        r@.len() == ps@.len() * POINT_BYTES,
        forall|i: int|
            0 <= i < ps@.len() ==> decode_point_spec(#[trigger] chunk(r@, 65, i)) == Some(
                ps@[i]@,
            ),
{
    let mut out: Vec<u8> = Vec::new();
    let mut i: usize = 0;
    while i < ps.len()
        invariant
            i <= ps@.len(),
            ps@.len() * 65 <= usize::MAX,
            out@.len() == 65 * i,
            forall|j: int|
                0 <= j < i ==> decode_point_spec(#[trigger] chunk(out@, 65, j)) == Some(
                    ps@[j]@,
                ),
        decreases ps@.len() - i,
    {
        let mut piece = point_to_bytes(&ps[i]);
        let ghost before = out@;
        let ghost added = piece@;
        out.append(&mut piece);
        proof {
            lemma_chunks_after_append(before, added, 65, i as int);
        }
        i = i + 1;
    }
    out
}

/// The points that a message encodes, if it is made of encoded points.
pub fn decode_points(bytes: &[u8]) -> (r: Option<Vec<Point>>)
    ensures
        r.is_some() <==> bytes@.len() % 65 == 0 && forall|i: int|
            0 <= i < bytes@.len() / 65 ==> decode_point_spec(
                #[trigger] chunk(bytes@, 65, i),
            ).is_some(),
        r matches Some(ps) ==> {
            &&& ps@.len() == bytes@.len() / 65
            &&& forall|i: int|
                0 <= i < ps@.len() ==> decode_point_spec(#[trigger] chunk(bytes@, 65, i))
                    == Some(ps@[i]@)
        },
{
    if bytes.len() % POINT_BYTES != 0 {
        return None;
    }
    let n = bytes.len() / POINT_BYTES;
    let mut out: Vec<Point> = Vec::new();
    let mut i: usize = 0;
    while i < n
        invariant
            i <= n,
            bytes@.len() == 65 * n,
            bytes@.len() <= usize::MAX,
            out@.len() == i,
            forall|j: int|
                0 <= j < i ==> decode_point_spec(#[trigger] chunk(bytes@, 65, j)) == Some(
                    out@[j]@,
                ),
        decreases n - i,
    {
        let piece = slice_subrange(bytes, 65 * i, 65 * i + 65);
        match point_from_bytes(piece) {
            Some(p) => {
                out.push(p);
            },
            None => {
                assert(decode_point_spec(chunk(bytes@, 65, i as int)).is_none());
                return None;
            },
        }
        i = i + 1;
    }
    Some(out)
}

/// The encoding of a message of ciphertexts: the encodings of the
/// ciphertexts, one after the other.
pub fn encode_ciphertexts(cts: &Vec<Ciphertext>) -> (r: Vec<u8>)
    requires
        cts@.len() * CIPHERTEXT_BYTES <= usize::MAX,
    ensures
        r@.len() == cts@.len() * CIPHERTEXT_BYTES,
        forall|i: int|
            0 <= i < cts@.len() ==> decode_ciphertext_spec(#[trigger] chunk(r@, 97, i)) == Some(
                cts@[i]@,
            ),
{
    let mut out: Vec<u8> = Vec::new();
    let mut i: usize = 0;
    while i < cts.len()
        invariant
            i <= cts@.len(),
            cts@.len() * 97 <= usize::MAX,
            out@.len() == 97 * i,
            forall|j: int|
                0 <= j < i ==> decode_ciphertext_spec(#[trigger] chunk(out@, 97, j)) == Some(
                    cts@[j]@,
                ),
        decreases cts@.len() - i,
    {
        let mut piece = ciphertext_to_bytes(&cts[i]);
        let ghost before = out@;
        let ghost added = piece@;
        out.append(&mut piece);
        proof {
            lemma_chunks_after_append(before, added, 97, i as int);
        }
        i = i + 1;
    }
    out
}

/// The ciphertexts that a message encodes, if it is made of encoded
/// ciphertexts.
pub fn decode_ciphertexts(bytes: &[u8]) -> (r: Option<Vec<Ciphertext>>)
    ensures
        r.is_some() <==> bytes@.len() % 97 == 0 && forall|i: int|
            0 <= i < bytes@.len() / 97 ==> decode_ciphertext_spec(
                #[trigger] chunk(bytes@, 97, i),
            ).is_some(),
        r matches Some(cts) ==> {
            &&& cts@.len() == bytes@.len() / 97
            &&& forall|i: int|
                0 <= i < cts@.len() ==> decode_ciphertext_spec(#[trigger] chunk(bytes@, 97, i))
                    == Some(cts@[i]@)
        },
{
    if bytes.len() % CIPHERTEXT_BYTES != 0 {
        return None;
    }
    let n = bytes.len() / CIPHERTEXT_BYTES;
    let mut out: Vec<Ciphertext> = Vec::new();
    let mut i: usize = 0;
    while i < n
        invariant
            i <= n,
            bytes@.len() == 97 * n,
            bytes@.len() <= usize::MAX,
            out@.len() == i,
            forall|j: int|
                0 <= j < i ==> decode_ciphertext_spec(#[trigger] chunk(bytes@, 97, j)) == Some(
                    out@[j]@,
                ),
        decreases n - i,
    {
        let piece = slice_subrange(bytes, 97 * i, 97 * i + 97);
        match ciphertext_from_bytes(piece) {
            Some(ct) => {
                out.push(ct);
            },
            None => {
                assert(decode_ciphertext_spec(chunk(bytes@, 97, i as int)).is_none());
                return None;
            },
        }
        i = i + 1;
    }
    Some(out)
}

} // verus!
