//! Laws of the codec, stated over the mathematical encoder and decoder.
//!
//! The verify/unpack agreement law needs no lemma of its own: both
//! [`crate::codec::unpack`] and [`crate::codec::verify`] are specified
//! against the one decoder [`dec_of`], so they succeed on exactly the same
//! buffers, report the same error kind, and leave the cursor at the same
//! position.

use vstd::prelude::*;

use crate::codec::Error;
use crate::dec::{can_read, dec};
use crate::desc::{FieldDef, NamedDef, Shape, TypeDesc, VariantDef};
use crate::enc::{enc, enc_of, le_bytes, le_val, lemma_le_bytes_len, p256, s_of_u, u_of_s};
use crate::value::{GValue, vmatch, vmatch_b};

verus! {

/// Union bounds: a discriminant at or above the declared variant count is
/// invalid, and decoding such a buffer yields exactly `BadEnumIndex`.
pub proof fn lemma_union_bad_discriminant(
    rs: Seq<NamedDef>,
    i: usize,
    variants: Vec<VariantDef>,
    s: Seq<u8>,
    pos: int,
    b: int,
)
    requires
        0 <= i < rs.len(),
        rs[i as int].shape == (Shape::Union { variants }),
        can_read(s, pos, 5),
        s[pos] as int >= variants@.len(),
    ensures
        dec(rs, TypeDesc::Named(i), s, pos, b) == Err::<(GValue, int), Error>(Error::BadEnumIndex),
{
}

/// Frozen vs extensible: two struct types with the same field list,
/// differing only in the `definitionWillNotChange` annotation, encode any
/// one value to byte strings that differ exactly by the 2-byte heap-size
/// prefix, so their lengths differ by exactly 2.
pub proof fn lemma_frozen_vs_extensible(
    rs: Seq<NamedDef>,
    i: usize,
    j: usize,
    fields: Vec<FieldDef>,
    cj1: bool,
    cj2: bool,
    v: GValue,
)
    requires
        0 <= i < rs.len(),
        0 <= j < rs.len(),
        rs[i as int].shape == (Shape::Struct { fields, frozen: true, custom_json: cj1 }),
        rs[j as int].shape == (Shape::Struct { fields, frozen: false, custom_json: cj2 }),
        vmatch(rs, TypeDesc::Named(i), v),
    ensures
        enc_of(rs, TypeDesc::Named(j), v) == le_bytes(rs[j as int].fixed as int, 2) + enc_of(
            rs,
            TypeDesc::Named(i),
            v,
        ),
        enc_of(rs, TypeDesc::Named(j), v).len() == enc_of(rs, TypeDesc::Named(i), v).len() + 2,
{
    lemma_le_bytes_len(rs[j as int].fixed as int, 2);
    match v {
        GValue::List(vs) => {
            assert(enc_of(rs, TypeDesc::Named(i), v) =~= Seq::<u8>::empty() + crate::enc::enc_slots(
                rs,
                crate::desc::struct_tys(fields@),
                vs,
                0,
                0,
            ) + crate::enc::enc_heaps(rs, crate::desc::struct_tys(fields@), vs, 0));
            assert(enc_of(rs, TypeDesc::Named(j), v) =~= le_bytes(rs[j as int].fixed as int, 2)
                + crate::enc::enc_slots(rs, crate::desc::struct_tys(fields@), vs, 0, 0)
                + crate::enc::enc_heaps(rs, crate::desc::struct_tys(fields@), vs, 0));
            assert(enc_of(rs, TypeDesc::Named(j), v) =~= le_bytes(rs[j as int].fixed as int, 2)
                + enc_of(rs, TypeDesc::Named(i), v));
        },
        _ => {
            assert(false);
        },
    }
}

/// Schema determinism: the document the builder emits is the pure function
/// [`crate::schema::gdefs`] of the registry and the root descriptor -- the
/// builder's own contract -- so two invocations on the same root type
/// produce identical schema documents: the same definitions, in the same
/// order, with no duplicate entry (at most one definition per registry
/// entry, by the builder's length bound), and a finite document even on a
/// self-referential type graph (the builder's termination is proved).
pub proof fn lemma_schema_deterministic(
    rs: Seq<NamedDef>,
    t: TypeDesc,
    s1: crate::schema::Schema,
    s2: crate::schema::Schema,
)
    requires
        s1@ == crate::schema::gdefs(rs, t),
        s2@ == crate::schema::gdefs(rs, t),
    ensures
        s1@ == s2@,
{
}


/// Heap accounting, pack half: the 2-byte heap-size prefix that packing an
/// extensible struct writes is exactly the declared byte length of the
/// struct's fixed region (the sum of the fields' inline footprints).  The
/// decoder uses the prefix as read -- the heap region starts exactly
/// `prefix` bytes after it -- so a decoder for an older version of the
/// struct skips fields added later instead of rejecting them.
pub proof fn lemma_pack_heap_size_prefix(
    rs: Seq<NamedDef>,
    i: usize,
    fields: Vec<FieldDef>,
    cj: bool,
    v: GValue,
)
    requires
        0 <= i < rs.len(),
        rs[i as int].shape == (Shape::Struct { fields, frozen: false, custom_json: cj }),
        vmatch(rs, TypeDesc::Named(i), v),
    ensures
        enc_of(rs, TypeDesc::Named(i), v).len() >= 2,
        le_val(enc_of(rs, TypeDesc::Named(i), v), 0, 2) == rs[i as int].fixed,
{
    let e = enc_of(rs, TypeDesc::Named(i), v);
    lemma_le_bytes_len(rs[i as int].fixed as int, 2);
    match v {
        GValue::List(vs) => {
            let body = crate::enc::enc_slots(rs, crate::desc::struct_tys(fields@), vs, 0, 0)
                + crate::enc::enc_heaps(rs, crate::desc::struct_tys(fields@), vs, 0);
            assert(e =~= le_bytes(rs[i as int].fixed as int, 2) + body);
            assert(e.subrange(0, 2) =~= le_bytes(rs[i as int].fixed as int, 2));
            crate::codec::lemma_p256_vals(2);
            lemma_le_roundtrip(rs[i as int].fixed as int, 2, e, 0);
        },
        _ => {
            assert(false);
        },
    }
}

/// Little-endian inversion: reading back `w` bytes written for a value in
/// range recovers exactly that value.
pub proof fn lemma_le_roundtrip(x: int, w: nat, s: Seq<u8>, pos: int)
    requires
        0 <= x < p256(w),
        can_read(s, pos, w as int),
        s.subrange(pos, pos + w) == le_bytes(x, w),
    ensures
        le_val(s, pos, w) == x,
    decreases w,
{
    lemma_le_bytes_len(x, w);
    if w > 0 {
        assert(s.subrange(pos, pos + w)[0] == s[pos]);
        assert(le_bytes(x, w)[0] == (x % 256) as u8);
        assert(s.subrange(pos + 1, pos + w) =~= le_bytes(x / 256, (w - 1) as nat)) by {
            lemma_le_bytes_len(x / 256, (w - 1) as nat);
            assert forall|j: int| 0 <= j < w - 1 implies #[trigger] s.subrange(pos + 1, pos + w)[j]
                == le_bytes(x / 256, (w - 1) as nat)[j] by {
                assert(s.subrange(pos, pos + w)[j + 1] == s[pos + 1 + j]);
                assert(le_bytes(x, w)[j + 1] == le_bytes(x / 256, (w - 1) as nat)[j]);
            }
        };
        assert(x / 256 < p256((w - 1) as nat)) by {
            assert(p256(w) == 256 * p256((w - 1) as nat));
            assert(x < 256 * p256((w - 1) as nat));
        };
        lemma_le_roundtrip(x / 256, (w - 1) as nat, s, pos + 1);
        assert(le_val(s, pos, w) == s[pos] + 256 * le_val(s, pos + 1, (w - 1) as nat));
        assert(s[pos] == (x % 256) as u8);
        assert(x == 256 * (x / 256) + x % 256);
    }
}

/// Two's complement inversion: decoding the wire form of a signed value in
/// range recovers exactly that value.
pub proof fn lemma_signed_roundtrip(x: int, m: int)
    requires
        m >= 2,
        -m <= 2 * x < m,
    ensures
        s_of_u(u_of_s(x, m), m) == x,
{
}

/// Round-trip for the scalar and byte-string shapes: a buffer that carries
/// the encoding of a boolean, integer or byte string decodes to exactly the
/// value that was packed, consuming exactly the encoding's bytes.  The
/// composite shapes are exercised value by value through
/// [`crate::codec::pack`] and [`crate::codec::unpack`], whose contracts pin
/// every byte against [`enc`] and [`dec`].
pub proof fn lemma_scalar_round_trip(
    rs: Seq<NamedDef>,
    t: TypeDesc,
    v: GValue,
    s: Seq<u8>,
    pos: int,
    b: int,
)
    requires
        t is Bool || t is U8 || t is U16 || t is U32 || t is U64 || t is I32 || t is I64
            || t is Str,
        vmatch_b(rs, t, v, b),
        can_read(s, pos, enc(rs, t, v, b).len() as int),
        s.subrange(pos, pos + enc(rs, t, v, b).len()) == enc(rs, t, v, b),
    ensures
        dec(rs, t, s, pos, b) == Ok::<(GValue, int), Error>(
            (v, pos + enc(rs, t, v, b).len()),
        ),
{
    let e = enc(rs, t, v, b);
    match t {
        TypeDesc::Bool => {
            assert(s.subrange(pos, pos + 1)[0] == s[pos]);
        },
        TypeDesc::U8 => {
            let x = v->U8_0;
            lemma_le_bytes_len(x as int, 1);
            assert(s.subrange(pos, pos + 1)[0] == s[pos]);
            assert(le_bytes(x as int, 1)[0] == (x as int % 256) as u8);
        },
        TypeDesc::U16 => {
            let x = v->U16_0;
            lemma_le_bytes_len(x as int, 2);
            crate::codec::lemma_p256_vals(2);
            lemma_le_roundtrip(x as int, 2, s, pos);
        },
        TypeDesc::U32 => {
            let x = v->U32_0;
            lemma_le_bytes_len(x as int, 4);
            crate::codec::lemma_p256_vals(4);
            lemma_le_roundtrip(x as int, 4, s, pos);
        },
        TypeDesc::U64 => {
            let x = v->U64_0;
            lemma_le_bytes_len(x as int, 8);
            crate::codec::lemma_p256_vals(8);
            lemma_le_roundtrip(x as int, 8, s, pos);
        },
        TypeDesc::I32 => {
            let x = v->I32_0;
            lemma_le_bytes_len(u_of_s(x as int, 0x1_0000_0000), 4);
            crate::codec::lemma_p256_vals(4);
            lemma_le_roundtrip(u_of_s(x as int, 0x1_0000_0000), 4, s, pos);
            lemma_signed_roundtrip(x as int, 0x1_0000_0000);
        },
        TypeDesc::I64 => {
            let x = v->I64_0;
            lemma_le_bytes_len(u_of_s(x as int, 0x1_0000_0000_0000_0000), 8);
            crate::codec::lemma_p256_vals(8);
            lemma_le_roundtrip(u_of_s(x as int, 0x1_0000_0000_0000_0000), 8, s, pos);
            lemma_signed_roundtrip(x as int, 0x1_0000_0000_0000_0000);
        },
        TypeDesc::Str => {
            let bs = v->Str_0;
            let n = bs.len() as int;
            lemma_le_bytes_len(n, 4);
            crate::codec::lemma_p256_vals(4);
            assert(s.subrange(pos, pos + 4) =~= le_bytes(n, 4)) by {
                assert forall|j: int| 0 <= j < 4 implies #[trigger] s.subrange(pos, pos + 4)[j]
                    == le_bytes(n, 4)[j] by {
                    assert(s.subrange(pos, pos + e.len())[j] == s[pos + j]);
                    assert(e[j] == le_bytes(n, 4)[j]);
                }
            };
            lemma_le_roundtrip(n, 4, s, pos);
            assert(s.subrange(pos + 4, pos + 4 + n) =~= bs) by {
                assert forall|j: int| 0 <= j < n implies #[trigger] s.subrange(pos + 4, pos + 4
                    + n)[j] == bs[j] by {
                    assert(s.subrange(pos, pos + e.len())[4 + j] == s[pos + 4 + j]);
                    assert(e[4 + j] == bs[j]);
                }
            };
        },
        _ => {},
    }
}

} // verus!
