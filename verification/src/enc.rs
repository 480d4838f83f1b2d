//! The mathematical wire encoding.
//!
//! [`enc_of`] maps a registry, a descriptor and a matching value to the
//! exact byte sequence of its encoding, little-endian throughout.  A
//! composite encoding is the concatenation of an optional heap-size prefix,
//! the fixed region ([`enc_slots`]: one slot per field, inline bytes or a
//! 4-byte relative offset) and the heap region ([`enc_heaps`]: the
//! variable-length payloads in field order).  Offsets are relative: slot
//! `k`'s offset is the distance from the slot to its payload, namely the
//! rest of the fixed region plus the heap payloads of the earlier fields.

use vstd::prelude::*;

use crate::desc::{NamedDef, Shape, TypeDesc, chase, fsum, sfixed, struct_tys, svar, svar_any,
    lemma_fsum_nonneg, lemma_sfixed_nonneg, wf_def, wf_reg, wf_tys, wf_ty};
use crate::value::{GValue, vmatch, vmatch_b, vmatch_fields};

verus! {

/// 256 to the power `w`: the number of values a `w`-byte field can carry.
pub open spec fn p256(w: nat) -> int
    decreases w,
{
    if w == 0 {
        1
    } else {
        256 * p256((w - 1) as nat)
    }
}

/// The `w`-byte little-endian encoding of `x` (of `x % p256(w)` if `x` is
/// out of range).
pub open spec fn le_bytes(x: int, w: nat) -> Seq<u8>
    decreases w,
{
    if w == 0 {
        Seq::empty()
    } else {
        seq![(x % 256) as u8] + le_bytes(x / 256, (w - 1) as nat)
    }
}

/// The value of the `w` bytes of `s` starting at `pos`, read little-endian.
pub open spec fn le_val(s: Seq<u8>, pos: int, w: nat) -> int
    decreases w,
{
    if w == 0 {
        0
    } else {
        s[pos] + 256 * le_val(s, pos + 1, (w - 1) as nat)
    }
}

/// The unsigned wire representation of a signed value, two's complement in
/// a field of `m` values.
pub open spec fn u_of_s(x: int, m: int) -> int {
    if x >= 0 {
        x
    } else {
        x + m
    }
}

/// The signed value of an unsigned wire representation, two's complement
/// in a field of `m` values.
pub open spec fn s_of_u(u: int, m: int) -> int {
    if 2 * u < m {
        u
    } else {
        u - m
    }
}

/// `n` copies of descriptor `t`: the element descriptors of a vector or
/// array of length `n`.
pub open spec fn rep(t: TypeDesc, n: nat) -> Seq<TypeDesc> {
    Seq::new(n, |j: int| t)
}

/// The encoding of `v` at type `t`.  `b` bounds the registry entries
/// reachable through alias chains, as in `vmatch_b`; entry points use
/// `rs.len()`.  On a value that does not match `t` the result is arbitrary
/// bytes, never relied on.
pub open spec fn enc(rs: Seq<NamedDef>, t: TypeDesc, v: GValue, b: int) -> Seq<u8>
    decreases v, b, t, 0int,
{
    match t {
        TypeDesc::Bool => match v {
            GValue::Bool(x) => seq![if x { 1u8 } else { 0u8 }],
            _ => Seq::empty(),
        },
        TypeDesc::U8 => match v {
            GValue::U8(x) => le_bytes(x as int, 1),
            _ => Seq::empty(),
        },
        TypeDesc::U16 => match v {
            GValue::U16(x) => le_bytes(x as int, 2),
            _ => Seq::empty(),
        },
        TypeDesc::U32 => match v {
            GValue::U32(x) => le_bytes(x as int, 4),
            _ => Seq::empty(),
        },
        TypeDesc::U64 => match v {
            GValue::U64(x) => le_bytes(x as int, 8),
            _ => Seq::empty(),
        },
        TypeDesc::I32 => match v {
            GValue::I32(x) => le_bytes(u_of_s(x as int, 0x1_0000_0000), 4),
            _ => Seq::empty(),
        },
        TypeDesc::I64 => match v {
            GValue::I64(x) => le_bytes(u_of_s(x as int, 0x1_0000_0000_0000_0000), 8),
            _ => Seq::empty(),
        },
        TypeDesc::Str => match v {
            GValue::Str(bs) => le_bytes(bs.len() as int, 4) + bs,
            _ => Seq::empty(),
        },
        TypeDesc::Vector(inner) => match v {
            GValue::List(vs) => le_bytes(vs.len() as int, 4) + enc_slots(
                rs,
                rep(*inner, vs.len()),
                vs,
                0,
                0,
            ) + enc_heaps(rs, rep(*inner, vs.len()), vs, 0),
            _ => Seq::empty(),
        },
        TypeDesc::Optional(inner) => match v {
            GValue::OptNone => le_bytes(1, 4),
            GValue::OptSome(bx) => le_bytes(4, 4) + enc(rs, *inner, *bx, rs.len() as int),
            _ => Seq::empty(),
        },
        TypeDesc::Array(inner, n) => match v {
            GValue::List(vs) => enc_slots(rs, rep(*inner, vs.len()), vs, 0, 0) + enc_heaps(
                rs,
                rep(*inner, vs.len()),
                vs,
                0,
            ),
            _ => Seq::empty(),
        },
        TypeDesc::Tuple(items) => match v {
            GValue::List(vs) => enc_slots(rs, items@, vs, 0, 0) + enc_heaps(rs, items@, vs, 0),
            _ => Seq::empty(),
        },
        TypeDesc::Named(i) => if 0 <= i < rs.len() {
            match rs[i as int].shape {
                Shape::Struct { fields, frozen, .. } => match v {
                    GValue::List(vs) => (if frozen {
                        Seq::<u8>::empty()
                    } else {
                        le_bytes(rs[i as int].fixed as int, 2)
                    }) + enc_slots(rs, struct_tys(fields@), vs, 0, 0) + enc_heaps(
                        rs,
                        struct_tys(fields@),
                        vs,
                        0,
                    ),
                    _ => Seq::empty(),
                },
                Shape::Union { variants } => match v {
                    GValue::Variant(d, vs) => if d < variants@.len() {
                        let p = enc_payload(rs, variants@[d as int].tys@, vs);
                        le_bytes(d as int, 1) + le_bytes(p.len() as int, 4) + p
                    } else {
                        Seq::empty()
                    },
                    _ => Seq::empty(),
                },
                Shape::Alias { inner } => if 0 <= i < b {
                    enc(rs, inner, v, i as int)
                } else {
                    Seq::empty()
                },
            }
        } else {
            Seq::empty()
        },
    }
}

/// A union variant's payload: a single field is encoded directly, several
/// fields are encoded as an unnamed tuple (fixed region plus heap, no
/// prefix).
pub open spec fn enc_payload(rs: Seq<NamedDef>, ts: Seq<TypeDesc>, vs: Seq<GValue>) -> Seq<u8>
    decreases vs, 1int, ts, 0int,
{
    if ts.len() == 1 && vs.len() >= 1 {
        enc(rs, ts[0], vs[0], rs.len() as int)
    } else {
        enc_slots(rs, ts, vs, 0, 0) + enc_heaps(rs, ts, vs, 0)
    }
}

/// The heap payload a value contributes to its parent's heap region: empty
/// for a fixed-size field and for an absent optional, the inner value's
/// encoding for a present optional, the value's whole encoding otherwise.
/// Named aliases are transparent here: a field whose type renames an
/// optional embeds exactly as the optional itself does.
pub open spec fn heap_bytes(rs: Seq<NamedDef>, t: TypeDesc, v: GValue, b: int) -> Seq<u8>
    decreases v, b, t, 1int,
{
    if !svar(rs, t) {
        Seq::empty()
    } else {
        match chase(rs, t, rs.len() as int) {
            TypeDesc::Optional(inner) => match v {
                GValue::OptNone => Seq::empty(),
                GValue::OptSome(bx) => enc(rs, *inner, *bx, rs.len() as int),
                _ => Seq::empty(),
            },
            _ => enc(rs, t, v, b),
        }
    }
}

/// One fixed-region slot: the inline encoding for a fixed-size field, the
/// absent-optional sentinel 1, or the relative offset `off` to the field's
/// heap payload.  Named aliases are transparent here, as in
/// [`heap_bytes`].
pub open spec fn slot_bytes(rs: Seq<NamedDef>, t: TypeDesc, v: GValue, off: int) -> Seq<u8>
    decreases v, rs.len() + 1, t, 0int,
{
    if !svar(rs, t) {
        enc(rs, t, v, rs.len() as int)
    } else if (chase(rs, t, rs.len() as int) is Optional) && (v is OptNone) {
        le_bytes(1, 4)
    } else {
        le_bytes(off, 4)
    }
}

/// The fixed region of a composite value, from field `k` on: inline bytes
/// for fixed-size fields, 4-byte offsets for variable-size ones.  `pend` is
/// the number of heap bytes contributed by fields before `k`; slot `k`'s
/// offset is the rest of the fixed region plus `pend`.
pub open spec fn enc_slots(
    rs: Seq<NamedDef>,
    ts: Seq<TypeDesc>,
    vs: Seq<GValue>,
    k: int,
    pend: int,
) -> Seq<u8>
    decreases vs, 0int, ts, ts.len() - k,
{
    if k < 0 || k >= ts.len() || k >= vs.len() {
        Seq::empty()
    } else {
        slot_bytes(rs, ts[k], vs[k], fsum(rs, ts, k) + pend) + enc_slots(
            rs,
            ts,
            vs,
            k + 1,
            pend + heap_bytes(rs, ts[k], vs[k], rs.len() as int).len(),
        )
    }
}

/// The heap region of a composite value, from field `k` on: the heap
/// payloads of the fields, in field order.
pub open spec fn enc_heaps(rs: Seq<NamedDef>, ts: Seq<TypeDesc>, vs: Seq<GValue>, k: int) -> Seq<u8>
    decreases vs, 0int, ts, ts.len() - k,
{
    if k < 0 || k >= ts.len() || k >= vs.len() {
        Seq::empty()
    } else {
        heap_bytes(rs, ts[k], vs[k], rs.len() as int) + enc_heaps(rs, ts, vs, k + 1)
    }
}

/// The encoding of `v` at root type `t`.
pub open spec fn enc_of(rs: Seq<NamedDef>, t: TypeDesc, v: GValue) -> Seq<u8> {
    enc(rs, t, v, rs.len() as int)
}

/// A little-endian encoding is exactly `w` bytes long.
pub proof fn lemma_le_bytes_len(x: int, w: nat)
    ensures
        le_bytes(x, w).len() == w,
    decreases w,
{
    if w > 0 {
        lemma_le_bytes_len(x / 256, (w - 1) as nat);
    }
}

/// The fixed footprint of `n` repeated descriptors, from position `k` on.
pub proof fn lemma_fsum_rep(rs: Seq<NamedDef>, t: TypeDesc, n: nat, k: int)
    requires
        0 <= k <= n,
    ensures
        fsum(rs, rep(t, n), k) == (n - k) * sfixed(rs, t),
    decreases n - k,
{
    let s = sfixed(rs, t);
    if k < n {
        lemma_fsum_rep(rs, t, n, k + 1);
        assert(rep(t, n)[k] == t);
        assert(fsum(rs, rep(t, n), k) == s + fsum(rs, rep(t, n), k + 1));
        assert(fsum(rs, rep(t, n), k + 1) == (n - (k + 1)) * s);
        assert((n - k) * s == s + (n - (k + 1)) * s) by (nonlinear_arith);
        assert(fsum(rs, rep(t, n), k) == (n - k) * s);
    } else {
        assert(rep(t, n).len() == n);
        assert(fsum(rs, rep(t, n), k) == 0);
        assert((n - k) * s == 0) by (nonlinear_arith)
            requires
                k == n,
        ;
    }
}

/// Repeated descriptors are all well-formed when the descriptor is.
pub proof fn lemma_wf_tys_rep(rs: Seq<NamedDef>, b: int, t: TypeDesc, n: nat, k: int)
    requires
        wf_ty(rs, b, t),
        0 <= k,
    ensures
        wf_tys(rs, b, rep(t, n), k),
    decreases n - k,
{
    if k < n {
        lemma_wf_tys_rep(rs, b, t, n, k + 1);
    }
}

/// A sequence of fixed-size fields contributes no heap bytes.
pub proof fn lemma_heaps_len_zero(rs: Seq<NamedDef>, ts: Seq<TypeDesc>, vs: Seq<GValue>, k: int)
    requires
        0 <= k,
        !svar_any(rs, ts, k),
    ensures
        enc_heaps(rs, ts, vs, k).len() == 0,
    decreases ts.len() - k,
{
    if k < ts.len() && k < vs.len() {
        assert(!svar(rs, ts[k]));
        assert(heap_bytes(rs, ts[k], vs[k], rs.len() as int).len() == 0);
        lemma_heaps_len_zero(rs, ts, vs, k + 1);
        assert(enc_heaps(rs, ts, vs, k) == heap_bytes(rs, ts[k], vs[k], rs.len() as int)
            + enc_heaps(rs, ts, vs, k + 1));
    }
}

/// The encoding of a fixed-size value is exactly its inline footprint.
pub proof fn lemma_enc_len_fixed(rs: Seq<NamedDef>, b: int, t: TypeDesc, v: GValue)
    requires
        wf_reg(rs),
        wf_ty(rs, b, t),
        vmatch_b(rs, t, v, b),
        b <= rs.len(),
        !svar(rs, t),
    ensures
        enc(rs, t, v, b).len() == sfixed(rs, t),
    decreases v, b, t, 0int,
{
    match t {
        TypeDesc::Bool => {},
        TypeDesc::U8 => lemma_le_bytes_len(v->U8_0 as int, 1),
        TypeDesc::U16 => lemma_le_bytes_len(v->U16_0 as int, 2),
        TypeDesc::U32 => lemma_le_bytes_len(v->U32_0 as int, 4),
        TypeDesc::U64 => lemma_le_bytes_len(v->U64_0 as int, 8),
        TypeDesc::I32 => lemma_le_bytes_len(u_of_s(v->I32_0 as int, 0x1_0000_0000), 4),
        TypeDesc::I64 => lemma_le_bytes_len(u_of_s(v->I64_0 as int, 0x1_0000_0000_0000_0000), 8),
        TypeDesc::Array(inner, n) => {
            let vs = v->List_0;
            lemma_wf_tys_rep(rs, b, *inner, vs.len(), 0);
            lemma_slots_len(rs, b, rep(*inner, vs.len()), vs, 0, 0);
            lemma_fsum_rep(rs, *inner, vs.len(), 0);
            lemma_svar_any_rep(rs, *inner, vs.len(), 0);
            lemma_heaps_len_zero(rs, rep(*inner, vs.len()), vs, 0);
            assert(vs.len() as int * sfixed(rs, *inner) == n * sfixed(rs, *inner));
        },
        TypeDesc::Tuple(items) => {
            let vs = v->List_0;
            lemma_slots_len(rs, b, items@, vs, 0, 0);
            lemma_heaps_len_zero(rs, items@, vs, 0);
        },
        TypeDesc::Named(i) => {
            match rs[i as int].shape {
                Shape::Struct { fields, frozen, .. } => {
                    assert(wf_def(rs, i as int));
                    let ts = struct_tys(fields@);
                    let vs = v->List_0;
                    lemma_slots_len(rs, i as int, ts, vs, 0, 0);
                    lemma_heaps_len_zero(rs, ts, vs, 0);
                },
                Shape::Union { .. } => {
                    assert(wf_def(rs, i as int));
                },
                Shape::Alias { inner } => {
                    assert(wf_def(rs, i as int));
                    lemma_enc_len_fixed(rs, i as int, inner, v);
                },
            }
        },
        _ => {},
    }
}

/// No repeated descriptor is variable-size when the descriptor is not.
pub proof fn lemma_svar_any_rep(rs: Seq<NamedDef>, t: TypeDesc, n: nat, k: int)
    requires
        !svar(rs, t),
        0 <= k,
    ensures
        !svar_any(rs, rep(t, n), k),
    decreases n - k,
{
    if k < n {
        lemma_svar_any_rep(rs, t, n, k + 1);
    }
}

/// The fixed region of a composite value is exactly the sum of its fields'
/// inline footprints, whatever heap bytes came before.
pub proof fn lemma_slots_len(
    rs: Seq<NamedDef>,
    b: int,
    ts: Seq<TypeDesc>,
    vs: Seq<GValue>,
    k: int,
    pend: int,
)
    requires
        wf_reg(rs),
        wf_tys(rs, b, ts, k),
        vmatch_fields(rs, ts, vs, k),
        b <= rs.len(),
        0 <= k,
    ensures
        enc_slots(rs, ts, vs, k, pend).len() == fsum(rs, ts, k),
    decreases vs, 0int, ts, ts.len() - k,
{
    if k < ts.len() {
        assert(k < vs.len());
        assert(vmatch_b(rs, ts[k], vs[k], rs.len() as int));
        let sb = slot_bytes(rs, ts[k], vs[k], fsum(rs, ts, k) + pend);
        if !svar(rs, ts[k]) {
            lemma_wf_ty_widen_here(rs, b, ts[k]);
            lemma_enc_len_fixed(rs, rs.len() as int, ts[k], vs[k]);
            assert(sb.len() == sfixed(rs, ts[k]));
        } else {
            lemma_le_bytes_len(1, 4);
            lemma_le_bytes_len(fsum(rs, ts, k) + pend, 4);
            assert(sb.len() == 4);
            assert(sfixed(rs, ts[k]) == 4);
        }
        lemma_slots_len(rs, b, ts, vs, k + 1, pend + heap_bytes(
            rs,
            ts[k],
            vs[k],
            rs.len() as int,
        ).len());
    }
}

/// Widening helper: a descriptor well-formed under bound `b` is well-formed
/// under the full registry bound.
pub proof fn lemma_wf_ty_widen_here(rs: Seq<NamedDef>, b: int, t: TypeDesc)
    requires
        wf_ty(rs, b, t),
        b <= rs.len(),
    ensures
        wf_ty(rs, rs.len() as int, t),
{
    crate::desc::lemma_wf_ty_widen(rs, b, rs.len() as int, t);
}

} // verus!
