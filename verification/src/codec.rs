//! The executable codec: pack, unpack and verify.
//!
//! [`pack`] writes the encoding [`enc_of`] of a value; [`unpack`] and
//! [`verify`] are both specified against the mathematical decoder
//! [`crate::dec::dec`], so they succeed on exactly the same buffers and
//! report the same error kind.  Packing follows the format's two-region
//! protocol: the fixed region is written slot by slot while the heap
//! payloads are collected aside, then the heap region is appended.

use vstd::prelude::*;

use crate::desc::{FieldDef, NamedDef, Registry, Shape, TypeDesc, chase, chase_of, fixed_of, fsum, fsum_of,
    lemma_fsum_nonneg, lemma_sfixed_nonneg, lemma_wf_tys_widen, sfixed,
    struct_tys, svar, var_of, wf_def, wf_reg, wf_root, wf_tys, wf_ty};
use crate::dec::{can_read, dec, dec_elems, dec_fields, dec_of, dec_slot, fsum_nn, hcl, sfixed_nn, srem};
use crate::enc::{enc, enc_heaps, enc_of, enc_payload, enc_slots, heap_bytes, le_bytes, le_val, p256, s_of_u,
    lemma_enc_len_fixed, lemma_fsum_rep, lemma_le_bytes_len, lemma_slots_len, lemma_wf_tys_rep,
    rep, slot_bytes, u_of_s};
use crate::value::{GValue, Value, lemma_vmatch_chase, lemma_vviews_index, lemma_vviews_len, vmatch, vmatch_b, vmatch_fields, vviews};

verus! {

broadcast use lemma_vviews_index, lemma_vviews_len;

/// The wire limit on offsets, counts and payload sizes: they travel in
/// 32-bit fields.
pub const WIRE_MAX: u64 = 0xFFFF_FFFF;

/// The codec's error kinds.  The first five arise while decoding untrusted
/// bytes; `TooLarge` arises while packing a value whose encoding cannot
/// carry its own offsets or sizes in 32-bit fields.
#[derive(Debug, Clone, Copy, PartialEq, Eq, Structural)]
pub enum Error {
    /// A read would pass the end of the input.
    ReadPastEnd,
    /// An offset or heap-size prefix disagrees with the position the tight
    /// encoding demands, or a computed heap position would precede the
    /// fixed region.
    BadOffset,
    /// A union's declared payload length disagrees with the bytes its
    /// payload actually consumes.
    BadSize,
    /// A union discriminant at or above the declared variant count.
    BadEnumIndex,
    /// A byte that is not a valid encoding of a scalar (a boolean other
    /// than 0 or 1).
    BadScalar,
    /// The value's encoding exceeds a 32-bit offset or size field.
    TooLarge,
}

/// Appends the `w`-byte little-endian encoding of `x`.
fn push_le(out: &mut Vec<u8>, x: u64, w: usize)
    ensures
        final(out)@ == old(out)@ + le_bytes(x as int, w as nat),
    decreases w,
{
    if w == 0 {
        proof {
            assert(out@ =~= old(out)@ + le_bytes(x as int, 0));
        }
    } else {
        let ghost pre = out@;
        let b: u8 = (x % 256) as u8;
        out.push(b);
        push_le(out, x / 256, w - 1);
        proof {
            assert(le_bytes(x as int, w as nat) == seq![b] + le_bytes(
                x as int / 256,
                (w - 1) as nat,
            ));
            assert(out@ =~= pre + le_bytes(x as int, w as nat));
        }
    }
}

/// Appends the bytes `bs[k..]`.
fn push_bytes(out: &mut Vec<u8>, bs: &Vec<u8>, k: usize)
    requires
        k <= bs.len(),
    ensures
        final(out)@ == old(out)@ + bs@.skip(k as int),
    decreases bs.len() - k,
{
    if k == bs.len() {
        proof {
            assert(out@ =~= old(out)@ + bs@.skip(k as int));
        }
    } else {
        let ghost pre = out@;
        out.push(bs[k]);
        push_bytes(out, bs, k + 1);
        proof {
            assert(bs@.skip(k as int) =~= seq![bs@[k as int]] + bs@.skip(k as int + 1));
            assert(out@ =~= pre + bs@.skip(k as int));
        }
    }
}

/// Packs one embedded field: writes its fixed-region slot (inline bytes,
/// the absent-optional sentinel, or the offset `off`) to `out` and its heap
/// payload to `heaps`.
fn pack_elem(
    reg: &Registry,
    t: &TypeDesc,
    v: &Value,
    off: u64,
    out: &mut Vec<u8>,
    heaps: &mut Vec<u8>,
) -> (r: Result<(), Error>)
    requires
        wf_reg(reg@),
        wf_ty(reg@, reg@.len() as int, *t),
        vmatch_b(reg@, *t, v@, reg@.len() as int),
    ensures
        r is Ok ==> final(out)@ == old(out)@ + slot_bytes(reg@, *t, v@, off as int) && final(heaps)@ == old(
            heaps,
        )@ + heap_bytes(reg@, *t, v@, reg@.len() as int),
        (slot_bytes(reg@, *t, v@, off as int).len() <= WIRE_MAX && heap_bytes(
            reg@,
            *t,
            v@,
            reg@.len() as int,
        ).len() <= WIRE_MAX && off <= WIRE_MAX) ==> r is Ok,
        r is Err ==> r->Err_0 == Error::TooLarge,
    decreases *v, reg@.len() + 1, *t, 0int,
{
    let ghost rs = reg@;
    if !var_of(reg, t) {
        let res = pack_b(reg, t, v, Ghost(reg@.len() as int));
        match res {
            Ok(mut bv) => {
                out.append(&mut bv);
                proof {
                    assert(heaps@ =~= old(heaps)@ + heap_bytes(rs, *t, v@, rs.len() as int));
                }
                Ok(())
            },
            Err(e) => Err(e),
        }
    } else {
        let ct = chase_of(reg, t, Ghost(reg@.len() as int));
        proof {
            lemma_vmatch_chase(rs, *t, v@, rs.len() as int);
        }
        match ct {
            TypeDesc::Optional(inner) => {
                match v {
                    Value::OptNone => {
                        push_le(out, 1, 4);
                        proof {
                            assert(heaps@ =~= old(heaps)@ + heap_bytes(
                                rs,
                                *t,
                                v@,
                                rs.len() as int,
                            ));
                        }
                        Ok(())
                    },
                    Value::OptSome(bx) => {
                        if off > WIRE_MAX {
                            return Err(Error::TooLarge);
                        }
                        push_le(out, off, 4);
                        let res = pack_b(reg, &**inner, &**bx, Ghost(reg@.len() as int));
                        match res {
                            Ok(mut hb) => {
                                heaps.append(&mut hb);
                                Ok(())
                            },
                            Err(e) => Err(e),
                        }
                    },
                    _ => {
                        proof {
                            assert(false);
                        }
                        Err(Error::TooLarge)
                    },
                }
            },
            _ => {
                if off > WIRE_MAX {
                    return Err(Error::TooLarge);
                }
                push_le(out, off, 4);
                let res = pack_b(reg, t, v, Ghost(reg@.len() as int));
                match res {
                    Ok(mut hb) => {
                        heaps.append(&mut hb);
                        Ok(())
                    },
                    Err(e) => Err(e),
                }
            },
        }
    }
}

/// Packs the fields `vs[k..]` of a vector or array of element type `inner`:
/// fixed slots to `out`, heap payloads to `heaps`.  `rest` is the fixed
/// footprint still to write, `pend` the heap bytes already collected.
fn pack_group_rep(
    reg: &Registry,
    inner: &TypeDesc,
    vs: &Vec<Value>,
    k: usize,
    rest: u64,
    pend: u64,
    out: &mut Vec<u8>,
    heaps: &mut Vec<u8>,
) -> (r: Result<(), Error>)
    requires
        wf_reg(reg@),
        wf_ty(reg@, reg@.len() as int, *inner),
        vmatch_fields(reg@, rep(*inner, vviews(vs@).len()), vviews(vs@), k as int),
        k <= vs.len(),
        rest == fsum(reg@, rep(*inner, vviews(vs@).len()), k as int),
        rest <= 0xFFFF_FFFF_FFFF,
        pend <= WIRE_MAX,
    ensures
        r is Ok ==> final(out)@ == old(out)@ + enc_slots(
            reg@,
            rep(*inner, vviews(vs@).len()),
            vviews(vs@),
            k as int,
            pend as int,
        ) && final(heaps)@ == old(heaps)@ + enc_heaps(
            reg@,
            rep(*inner, vviews(vs@).len()),
            vviews(vs@),
            k as int,
        ),
        (fsum(reg@, rep(*inner, vviews(vs@).len()), k as int) + pend + enc_heaps(
            reg@,
            rep(*inner, vviews(vs@).len()),
            vviews(vs@),
            k as int,
        ).len() <= WIRE_MAX) ==> r is Ok,
        r is Err ==> r->Err_0 == Error::TooLarge,
    decreases vs@, 0int, *inner, vs@.len() - k,
{
    let ghost rs = reg@;
    let ghost ts = rep(*inner, vviews(vs@).len());
    let ghost gvs = vviews(vs@);
    if k == vs.len() {
        proof {
            assert(out@ =~= old(out)@ + enc_slots(rs, ts, gvs, k as int, pend as int));
            assert(heaps@ =~= old(heaps)@ + enc_heaps(rs, ts, gvs, k as int));
        }
        Ok(())
    } else {
        proof {
            assert(ts[k as int] == *inner);
            lemma_sfixed_nonneg(rs, *inner);
            lemma_fsum_nonneg(rs, ts, k as int + 1);
            lemma_heap_le_heaps(rs, ts, gvs, k as int);
        }
        let ghost opre = out@;
        let ghost hpre_s = heaps@;
        let hpre = heaps.len();
        let res = pack_elem(reg, inner, &vs[k], rest + pend, out, heaps);
        match res {
            Ok(()) => {},
            Err(e) => {
                proof {
                    lemma_slot_len_small(rs, *inner, gvs[k as int], rest as int + pend);
                }
                return Err(e);
            },
        }
        let hlen = heaps.len() - hpre;
        if hlen > WIRE_MAX as usize || pend + hlen as u64 > WIRE_MAX {
            return Err(Error::TooLarge);
        }
        let fe = fixed_of(reg, inner);
        let r2 = pack_group_rep(reg, inner, vs, k + 1, rest - fe as u64, pend + hlen as u64, out,
            heaps);
        proof {
            if r2 is Ok {
                assert(out@ =~= opre + enc_slots(rs, ts, gvs, k as int, pend as int));
                assert(heaps@ =~= hpre_s + enc_heaps(rs, ts, gvs, k as int));
            }
        }
        r2
    }
}

/// Packs the fields `vs[k..]` against the descriptors `ts[k..]`.
fn pack_group_tys(
    reg: &Registry,
    ts: &Vec<TypeDesc>,
    vs: &Vec<Value>,
    k: usize,
    rest: u64,
    pend: u64,
    out: &mut Vec<u8>,
    heaps: &mut Vec<u8>,
) -> (r: Result<(), Error>)
    requires
        wf_reg(reg@),
        wf_tys(reg@, reg@.len() as int, ts@, k as int),
        vmatch_fields(reg@, ts@, vviews(vs@), k as int),
        k <= ts.len(),
        ts.len() == vs.len(),
        rest == fsum(reg@, ts@, k as int),
        rest <= 0xFFFF_FFFF_FFFF,
        pend <= WIRE_MAX,
    ensures
        r is Ok ==> final(out)@ == old(out)@ + enc_slots(reg@, ts@, vviews(vs@), k as int, pend as int) && final(heaps)@
            == old(heaps)@ + enc_heaps(reg@, ts@, vviews(vs@), k as int),
        (fsum(reg@, ts@, k as int) + pend + enc_heaps(reg@, ts@, vviews(vs@), k as int).len() <= WIRE_MAX)
            ==> r is Ok,
        r is Err ==> r->Err_0 == Error::TooLarge,
    decreases vs@, 0int, ts@, vs@.len() - k,
{
    let ghost rs = reg@;
    let ghost gvs = vviews(vs@);
    if k == ts.len() {
        proof {
            assert(out@ =~= old(out)@ + enc_slots(rs, ts@, gvs, k as int, pend as int));
            assert(heaps@ =~= old(heaps)@ + enc_heaps(rs, ts@, gvs, k as int));
        }
        Ok(())
    } else {
        proof {
            lemma_sfixed_nonneg(rs, ts@[k as int]);
            lemma_fsum_nonneg(rs, ts@, k as int + 1);
            lemma_heap_le_heaps(rs, ts@, gvs, k as int);
        }
        let ghost opre = out@;
        let ghost hpre_s = heaps@;
        let hpre = heaps.len();
        let res = pack_elem(reg, &ts[k], &vs[k], rest + pend, out, heaps);
        match res {
            Ok(()) => {},
            Err(e) => {
                proof {
                    lemma_slot_len_small(rs, ts@[k as int], gvs[k as int], rest as int + pend);
                }
                return Err(e);
            },
        }
        let hlen = heaps.len() - hpre;
        if hlen > WIRE_MAX as usize || pend + hlen as u64 > WIRE_MAX {
            return Err(Error::TooLarge);
        }
        let fe = fixed_of(reg, &ts[k]);
        let r2 = pack_group_tys(reg, ts, vs, k + 1, rest - fe as u64, pend + hlen as u64, out,
            heaps);
        proof {
            if r2 is Ok {
                assert(out@ =~= opre + enc_slots(rs, ts@, gvs, k as int, pend as int));
                assert(heaps@ =~= hpre_s + enc_heaps(rs, ts@, gvs, k as int));
            }
        }
        r2
    }
}

/// Packs the struct fields `vs[k..]` against the field list `fields[k..]`.
fn pack_group_fields(
    reg: &Registry,
    fields: &Vec<FieldDef>,
    vs: &Vec<Value>,
    k: usize,
    rest: u64,
    pend: u64,
    out: &mut Vec<u8>,
    heaps: &mut Vec<u8>,
) -> (r: Result<(), Error>)
    requires
        wf_reg(reg@),
        wf_tys(reg@, reg@.len() as int, struct_tys(fields@), k as int),
        vmatch_fields(reg@, struct_tys(fields@), vviews(vs@), k as int),
        k <= fields.len(),
        fields.len() == vs.len(),
        rest == fsum(reg@, struct_tys(fields@), k as int),
        rest <= 0xFFFF_FFFF_FFFF,
        pend <= WIRE_MAX,
    ensures
        r is Ok ==> final(out)@ == old(out)@ + enc_slots(
            reg@,
            struct_tys(fields@),
            vviews(vs@),
            k as int,
            pend as int,
        ) && final(heaps)@ == old(heaps)@ + enc_heaps(
            reg@,
            struct_tys(fields@),
            vviews(vs@),
            k as int,
        ),
        (fsum(reg@, struct_tys(fields@), k as int) + pend + enc_heaps(
            reg@,
            struct_tys(fields@),
            vviews(vs@),
            k as int,
        ).len() <= WIRE_MAX) ==> r is Ok,
        r is Err ==> r->Err_0 == Error::TooLarge,
    decreases vs@, 0int, struct_tys(fields@), vs@.len() - k,
{
    let ghost rs = reg@;
    let ghost ts = struct_tys(fields@);
    let ghost gvs = vviews(vs@);
    if k == fields.len() {
        proof {
            assert(out@ =~= old(out)@ + enc_slots(rs, ts, gvs, k as int, pend as int));
            assert(heaps@ =~= old(heaps)@ + enc_heaps(rs, ts, gvs, k as int));
        }
        Ok(())
    } else {
        proof {
            assert(ts[k as int] == fields@[k as int].ty);
            lemma_sfixed_nonneg(rs, ts[k as int]);
            lemma_fsum_nonneg(rs, ts, k as int + 1);
            lemma_heap_le_heaps(rs, ts, gvs, k as int);
        }
        let ghost opre = out@;
        let ghost hpre_s = heaps@;
        let hpre = heaps.len();
        let res = pack_elem(reg, &fields[k].ty, &vs[k], rest + pend, out, heaps);
        match res {
            Ok(()) => {},
            Err(e) => {
                proof {
                    lemma_slot_len_small(rs, ts[k as int], gvs[k as int], rest as int + pend);
                }
                return Err(e);
            },
        }
        let hlen = heaps.len() - hpre;
        if hlen > WIRE_MAX as usize || pend + hlen as u64 > WIRE_MAX {
            return Err(Error::TooLarge);
        }
        let fe = fixed_of(reg, &fields[k].ty);
        let r2 = pack_group_fields(reg, fields, vs, k + 1, rest - fe as u64, pend + hlen as u64,
            out, heaps);
        proof {
            if r2 is Ok {
                assert(out@ =~= opre + enc_slots(rs, ts, gvs, k as int, pend as int));
                assert(heaps@ =~= hpre_s + enc_heaps(rs, ts, gvs, k as int));
            }
        }
        r2
    }
}

/// Packs a union variant's payload.
fn pack_payload(reg: &Registry, tys: &Vec<TypeDesc>, vs: &Vec<Value>) -> (r: Result<
    Vec<u8>,
    Error,
>)
    requires
        wf_reg(reg@),
        wf_tys(reg@, reg@.len() as int, tys@, 0),
        fsum(reg@, tys@, 0) <= 0xFFFF,
        vmatch_fields(reg@, tys@, vviews(vs@), 0),
        tys.len() == vs.len(),
        tys.len() >= 1,
    ensures
        r is Ok ==> r->Ok_0@ == enc_payload(reg@, tys@, vviews(vs@)),
        enc_payload(reg@, tys@, vviews(vs@)).len() <= WIRE_MAX ==> r is Ok,
        r is Err ==> r->Err_0 == Error::TooLarge,
    decreases vs@, 1int, tys@, 0int,
{
    let ghost rs = reg@;
    if tys.len() == 1 {
        proof {
            assert(wf_ty(rs, rs.len() as int, tys@[0]));
            assert(vmatch_b(rs, tys@[0], vviews(vs@)[0], rs.len() as int));
        }
        pack_b(reg, &tys[0], &vs[0], Ghost(reg@.len() as int))
    } else {
        let rest = fsum_of(reg, tys, 0);
        let mut out: Vec<u8> = Vec::new();
        let mut heaps: Vec<u8> = Vec::new();
        proof {
            lemma_slots_len(rs, rs.len() as int, tys@, vviews(vs@), 0, 0);
            lemma_fsum_nonneg(rs, tys@, 0);
        }
        let res = pack_group_tys(reg, tys, vs, 0, rest as u64, 0, &mut out, &mut heaps);
        match res {
            Ok(()) => {},
            Err(e) => {
                return Err(e);
            },
        }
        out.append(&mut heaps);
        proof {
            assert(out@ =~= enc_payload(rs, tys@, vviews(vs@)));
        }
        Ok(out)
    }
}

/// The recursive packer; `b` is the ghost alias bound of [`enc`].
#[verifier::rlimit(80)]
fn pack_b(reg: &Registry, t: &TypeDesc, v: &Value, b: Ghost<int>) -> (r: Result<Vec<u8>, Error>)
    requires
        wf_reg(reg@),
        wf_ty(reg@, b@, *t),
        vmatch_b(reg@, *t, v@, b@),
        b@ <= reg@.len(),
    ensures
        r is Ok ==> r->Ok_0@ == enc(reg@, *t, v@, b@),
        enc(reg@, *t, v@, b@).len() <= WIRE_MAX ==> r is Ok,
        r is Err ==> r->Err_0 == Error::TooLarge,
    decreases *v, b@, *t, 0int,
{
    let ghost rs = reg@;
    let mut out: Vec<u8> = Vec::new();
    match t {
        TypeDesc::Bool => {
            match v {
                Value::Bool(x) => {
                    out.push(if *x { 1 } else { 0 });
                    proof {
                        assert(out@ =~= enc(rs, *t, v@, b@));
                    }
                    Ok(out)
                },
                _ => {
                    proof {
                        assert(false);
                    }
                    Err(Error::TooLarge)
                },
            }
        },
        TypeDesc::U8 => {
            match v {
                Value::U8(x) => {
                    push_le(&mut out, *x as u64, 1);
                    Ok(out)
                },
                _ => {
                    proof {
                        assert(false);
                    }
                    Err(Error::TooLarge)
                },
            }
        },
        TypeDesc::U16 => {
            match v {
                Value::U16(x) => {
                    push_le(&mut out, *x as u64, 2);
                    Ok(out)
                },
                _ => {
                    proof {
                        assert(false);
                    }
                    Err(Error::TooLarge)
                },
            }
        },
        TypeDesc::U32 => {
            match v {
                Value::U32(x) => {
                    push_le(&mut out, *x as u64, 4);
                    Ok(out)
                },
                _ => {
                    proof {
                        assert(false);
                    }
                    Err(Error::TooLarge)
                },
            }
        },
        TypeDesc::U64 => {
            match v {
                Value::U64(x) => {
                    push_le(&mut out, *x, 8);
                    Ok(out)
                },
                _ => {
                    proof {
                        assert(false);
                    }
                    Err(Error::TooLarge)
                },
            }
        },
        TypeDesc::I32 => {
            match v {
                Value::I32(x) => {
                    let u: u32 = if *x >= 0 {
                        *x as u32
                    } else {
                        ((*x as i64) + 0x1_0000_0000i64) as u32
                    };
                    proof {
                        assert(u as int == u_of_s(*x as int, 0x1_0000_0000));
                    }
                    push_le(&mut out, u as u64, 4);
                    Ok(out)
                },
                _ => {
                    proof {
                        assert(false);
                    }
                    Err(Error::TooLarge)
                },
            }
        },
        TypeDesc::I64 => {
            match v {
                Value::I64(x) => {
                    let u: u64 = if *x >= 0 {
                        *x as u64
                    } else {
                        ((*x as i128) + 0x1_0000_0000_0000_0000i128) as u64
                    };
                    proof {
                        assert(u as int == u_of_s(*x as int, 0x1_0000_0000_0000_0000));
                    }
                    push_le(&mut out, u, 8);
                    Ok(out)
                },
                _ => {
                    proof {
                        assert(false);
                    }
                    Err(Error::TooLarge)
                },
            }
        },
        TypeDesc::Str => {
            match v {
                Value::Str(bs) => {
                    push_le(&mut out, bs.len() as u64, 4);
                    push_bytes(&mut out, bs, 0);
                    proof {
                        assert(bs@.skip(0) =~= bs@);
                        assert(out@ =~= enc(rs, *t, v@, b@));
                    }
                    Ok(out)
                },
                _ => {
                    proof {
                        assert(false);
                    }
                    Err(Error::TooLarge)
                },
            }
        },
        TypeDesc::Vector(inner) => {
            match v {
                Value::List(vs) => {
                    let ghost ts = rep(**inner, vs@.len());
                    push_le(&mut out, vs.len() as u64, 4);
                    let fe = fixed_of(reg, &**inner);
                    proof {
                        assert(vviews(vs@).len() < 0x1_0000_0000);
                        assert((vs@.len() as int) * (fe as int) < 0x1_0000_0000_0000i64)
                            by (nonlinear_arith)
                            requires
                                vs@.len() < 0x1_0000_0000,
                                0 <= fe <= 0xFFFF,
                        ;
                        lemma_fsum_rep(rs, **inner, vviews(vs@).len(), 0);
                        lemma_wf_tys_rep(rs, rs.len() as int, **inner, vviews(vs@).len(), 0);
                        lemma_slots_len(rs, rs.len() as int, ts, vviews(vs@), 0, 0);
                        lemma_le_bytes_len(vs@.len() as int, 4);
                        lemma_fsum_nonneg(rs, ts, 0);
                    }
                    let rest: u64 = (vs.len() as u64) * (fe as u64);
                    let mut heaps: Vec<u8> = Vec::new();
                    let res = pack_group_rep(reg, &**inner, vs, 0, rest, 0, &mut out, &mut heaps);
                    match res {
                        Ok(()) => {},
                        Err(e) => {
                            return Err(e);
                        },
                    }
                    out.append(&mut heaps);
                    proof {
                        assert(out@ =~= enc(rs, *t, v@, b@));
                    }
                    Ok(out)
                },
                _ => {
                    proof {
                        assert(false);
                    }
                    Err(Error::TooLarge)
                },
            }
        },
        TypeDesc::Optional(inner) => {
            match v {
                Value::OptNone => {
                    push_le(&mut out, 1, 4);
                    Ok(out)
                },
                Value::OptSome(bx) => {
                    push_le(&mut out, 4, 4);
                    proof {
                        lemma_le_bytes_len(4, 4);
                    }
                    let res = pack_b(reg, &**inner, &**bx, Ghost(reg@.len() as int));
                    match res {
                        Ok(mut ib) => {
                            out.append(&mut ib);
                            Ok(out)
                        },
                        Err(e) => Err(e),
                    }
                },
                _ => {
                    proof {
                        assert(false);
                    }
                    Err(Error::TooLarge)
                },
            }
        },
        TypeDesc::Array(inner, n) => {
            match v {
                Value::List(vs) => {
                    let ghost ts = rep(**inner, vs@.len());
                    proof {
                        crate::desc::lemma_wf_ty_widen(rs, b@, rs.len() as int, **inner);
                    }
                    let fe = fixed_of(reg, &**inner);
                    proof {
                        assert(vviews(vs@).len() == *n as int);
                        assert((vs@.len() as int) * (fe as int) < 0x1_0000_0000_0000i64)
                            by (nonlinear_arith)
                            requires
                                vs@.len() < 0x1_0000_0000,
                                0 <= fe <= 0xFFFF,
                        ;
                        lemma_fsum_rep(rs, **inner, vviews(vs@).len(), 0);
                        lemma_wf_tys_rep(rs, rs.len() as int, **inner, vviews(vs@).len(), 0);
                        lemma_slots_len(rs, rs.len() as int, ts, vviews(vs@), 0, 0);
                        lemma_fsum_nonneg(rs, ts, 0);
                    }
                    let rest: u64 = (vs.len() as u64) * (fe as u64);
                    let mut heaps: Vec<u8> = Vec::new();
                    let res = pack_group_rep(reg, &**inner, vs, 0, rest, 0, &mut out, &mut heaps);
                    match res {
                        Ok(()) => {},
                        Err(e) => {
                            return Err(e);
                        },
                    }
                    out.append(&mut heaps);
                    proof {
                        assert(out@ =~= enc(rs, *t, v@, b@));
                    }
                    Ok(out)
                },
                _ => {
                    proof {
                        assert(false);
                    }
                    Err(Error::TooLarge)
                },
            }
        },
        TypeDesc::Tuple(items) => {
            match v {
                Value::List(vs) => {
                    proof {
                        lemma_wf_tys_widen(rs, b@, rs.len() as int, items@, 0);
                        lemma_slots_len(rs, b@, items@, vviews(vs@), 0, 0);
                        lemma_fsum_nonneg(rs, items@, 0);
                    }
                    let rest = fsum_of(reg, items, 0);
                    let mut heaps: Vec<u8> = Vec::new();
                    let res = pack_group_tys(reg, items, vs, 0, rest as u64, 0, &mut out,
                        &mut heaps);
                    match res {
                        Ok(()) => {},
                        Err(e) => {
                            return Err(e);
                        },
                    }
                    out.append(&mut heaps);
                    proof {
                        assert(out@ =~= enc(rs, *t, v@, b@));
                    }
                    Ok(out)
                },
                _ => {
                    proof {
                        assert(false);
                    }
                    Err(Error::TooLarge)
                },
            }
        },
        TypeDesc::Named(i) => {
            let d = &reg.defs[*i];
            proof {
                assert(wf_def(rs, *i as int));
            }
            match &d.shape {
                Shape::Struct { fields, frozen, .. } => {
                    match v {
                        Value::List(vs) => {
                            let ghost ts = struct_tys(fields@);
                            if !*frozen {
                                push_le(&mut out, d.fixed as u64, 2);
                            }
                            proof {
                                lemma_wf_tys_widen(
                                    rs,
                                    if *frozen {
                                        *i as int
                                    } else {
                                        rs.len() as int
                                    },
                                    rs.len() as int,
                                    ts,
                                    0,
                                );
                                lemma_slots_len(rs, rs.len() as int, ts, vviews(vs@), 0, 0);
                                lemma_le_bytes_len(d.fixed as int, 2);
                                lemma_fsum_nonneg(rs, ts, 0);
                            }
                            let mut heaps: Vec<u8> = Vec::new();
                            let res = pack_group_fields(reg, fields, vs, 0, d.fixed as u64, 0,
                                &mut out, &mut heaps);
                            match res {
                                Ok(()) => {},
                                Err(e) => {
                                    return Err(e);
                                },
                            }
                            out.append(&mut heaps);
                            proof {
                                assert(out@ =~= enc(rs, *t, v@, b@));
                            }
                            Ok(out)
                        },
                        _ => {
                            proof {
                                assert(false);
                            }
                            Err(Error::TooLarge)
                        },
                    }
                },
                Shape::Union { variants } => {
                    match v {
                        Value::Variant(dd, vs) => {
                            let var = &variants[*dd as usize];
                            proof {
                                assert(crate::desc::wf_variant(rs, variants@[*dd as int]));
                                assert(v@ == GValue::Variant(*dd, vviews(vs@)));
                            }
                            let res = pack_payload(reg, &var.tys, vs);
                            let mut p = match res {
                                Ok(p) => p,
                                Err(e) => {
                                    proof {
                                        lemma_le_bytes_len(*dd as int, 1);
                                        lemma_le_bytes_len(
                                            enc_payload(rs, var.tys@, vviews(vs@)).len() as int,
                                            4,
                                        );
                                    }
                                    return Err(e);
                                },
                            };
                            if p.len() > WIRE_MAX as usize {
                                proof {
                                    lemma_le_bytes_len(*dd as int, 1);
                                    lemma_le_bytes_len(p@.len() as int, 4);
                                }
                                return Err(Error::TooLarge);
                            }
                            push_le(&mut out, *dd as u64, 1);
                            push_le(&mut out, p.len() as u64, 4);
                            out.append(&mut p);
                            proof {
                                lemma_le_bytes_len(*dd as int, 1);
                                assert(out@ =~= enc(rs, *t, v@, b@));
                            }
                            Ok(out)
                        },
                        _ => {
                            proof {
                                assert(false);
                            }
                            Err(Error::TooLarge)
                        },
                    }
                },
                Shape::Alias { inner } => {
                    pack_b(reg, inner, v, Ghost(*i as int))
                },
            }
        },
    }
}

/// Packs `v` at type `t`, returning its encoding.  Succeeds on every value
/// whose encoding fits the format's 32-bit offset and size fields; a larger
/// value yields `TooLarge`.
pub fn pack(reg: &Registry, t: &TypeDesc, v: &Value) -> (r: Result<Vec<u8>, Error>)
    requires
        wf_reg(reg@),
        wf_root(reg@, *t),
        vmatch(reg@, *t, v@),
    ensures
        r is Ok ==> r->Ok_0@ == enc_of(reg@, *t, v@),
        enc_of(reg@, *t, v@).len() <= WIRE_MAX ==> r is Ok,
        r is Err ==> r->Err_0 == Error::TooLarge,
{
    pack_b(reg, t, v, Ghost(reg@.len() as int))
}

/// Packs `v` at type `t`, appending the encoding to `dest`; on an error
/// `dest` is unchanged.
pub fn pack_into(reg: &Registry, t: &TypeDesc, v: &Value, dest: &mut Vec<u8>) -> (r: Result<
    (),
    Error,
>)
    requires
        wf_reg(reg@),
        wf_root(reg@, *t),
        vmatch(reg@, *t, v@),
    ensures
        r is Ok ==> final(dest)@ == old(dest)@ + enc_of(reg@, *t, v@),
        r is Err ==> final(dest)@ == old(dest)@ && r->Err_0 == Error::TooLarge,
        enc_of(reg@, *t, v@).len() <= WIRE_MAX ==> r is Ok,
{
    let res = pack(reg, t, v);
    match res {
        Ok(mut b) => {
            dest.append(&mut b);
            Ok(())
        },
        Err(e) => Err(e),
    }
}

/// A field's heap payload is no longer than the whole remaining heap
/// region.
pub proof fn lemma_heap_le_heaps(rs: Seq<NamedDef>, ts: Seq<TypeDesc>, vs: Seq<GValue>, k: int)
    requires
        0 <= k < ts.len(),
        k < vs.len(),
    ensures
        heap_bytes(rs, ts[k], vs[k], rs.len() as int).len() <= enc_heaps(rs, ts, vs, k).len(),
{
    assert(enc_heaps(rs, ts, vs, k) == heap_bytes(rs, ts[k], vs[k], rs.len() as int) + enc_heaps(
        rs,
        ts,
        vs,
        k + 1,
    ));
}

/// A fixed-region slot is never longer than the 16-bit fixed-footprint
/// bound, hence always fits a 32-bit size.
pub proof fn lemma_slot_len_small(rs: Seq<NamedDef>, t: TypeDesc, v: GValue, off: int)
    requires
        wf_reg(rs),
        wf_ty(rs, rs.len() as int, t),
        vmatch_b(rs, t, v, rs.len() as int),
    ensures
        slot_bytes(rs, t, v, off).len() <= 0xFFFF,
{
    if !svar(rs, t) {
        lemma_enc_len_fixed(rs, rs.len() as int, t, v);
        crate::desc::lemma_sfixed_bound(rs, rs.len() as int, t);
    } else {
        lemma_le_bytes_len(1, 4);
        lemma_le_bytes_len(off, 4);
    }
}


/// Exact small powers of 256.
pub proof fn lemma_p256_vals(w: nat)
    ensures
        w == 0 ==> p256(w) == 1,
        w == 1 ==> p256(w) == 0x100,
        w == 2 ==> p256(w) == 0x1_0000,
        w == 3 ==> p256(w) == 0x100_0000,
        w == 4 ==> p256(w) == 0x1_0000_0000,
        w == 5 ==> p256(w) == 0x100_0000_0000,
        w == 6 ==> p256(w) == 0x1_0000_0000_0000,
        w == 7 ==> p256(w) == 0x100_0000_0000_0000,
        w == 8 ==> p256(w) == 0x1_0000_0000_0000_0000,
    decreases w,
{
    if w > 0 && w <= 8 {
        lemma_p256_vals((w - 1) as nat);
    }
}

/// Reads the `w`-byte little-endian value at `pos`.
fn read_le(s: &[u8], pos: u64, w: usize) -> (r: u64)
    requires
        pos + w <= s@.len(),
        w <= 8,
    ensures
        r as int == le_val(s@, pos as int, w as nat),
        r < p256(w as nat),
    decreases w,
{
    if w == 0 {
        0
    } else {
        let byte = s[pos as usize];
        let rest = read_le(s, pos + 1, w - 1);
        proof {
            lemma_p256_vals(w as nat);
            lemma_p256_vals((w - 1) as nat);
        }
        byte as u64 + 256 * rest
    }
}

/// Copies the `n` bytes at `pos` out of the buffer.
fn read_vec(s: &[u8], pos: u64, n: u64) -> (r: Vec<u8>)
    requires
        pos + n <= s@.len(),
        s@.len() <= 0xFFFF_FFFF,
    ensures
        r@ == s@.subrange(pos as int, pos as int + n as int),
    decreases n,
{
    let mut out: Vec<u8> = Vec::new();
    let mut k: u64 = 0;
    while k < n
        invariant
            0 <= k <= n,
            pos + n <= s@.len(),
            s@.len() <= 0xFFFF_FFFF,
            out@ == s@.subrange(pos as int, pos as int + k as int),
        decreases n - k,
    {
        out.push(s[(pos + k) as usize]);
        proof {
            assert(out@ =~= s@.subrange(pos as int, pos as int + k as int + 1));
        }
        k = k + 1;
    }
    proof {
        assert(out@ =~= s@.subrange(pos as int, pos as int + n as int));
    }
    out
}

/// The recursive decoder; mirrors [`dec`] exactly.
#[verifier::rlimit(100)]
#[verifier::spinoff_prover]
fn unpack_b(reg: &Registry, t: &TypeDesc, s: &[u8], pos: u64, b: Ghost<int>) -> (r: Result<
    (Value, u64),
    Error,
>)
    requires
        wf_reg(reg@),
        wf_ty(reg@, b@, *t),
        b@ <= reg@.len(),
        s@.len() <= WIRE_MAX,
        pos <= s@.len() + 1,
    ensures
        r is Ok ==> dec(reg@, *t, s@, pos as int, b@) == Ok::<(GValue, int), Error>(
            (r->Ok_0.0@, r->Ok_0.1 as int),
        ) && r->Ok_0.1 <= s@.len() + 1,
        r is Err ==> dec(reg@, *t, s@, pos as int, b@) == Err::<(GValue, int), Error>(r->Err_0),
    decreases srem(s@, pos as int), b@, *t, 0int,
{
    let ghost rs = reg@;
    let len: u64 = s.len() as u64;
    match t {
        TypeDesc::Bool => {
            if pos + 1 > len {
                Err(Error::ReadPastEnd)
            } else {
                let byte = s[pos as usize];
                if byte == 0 {
                    Ok((Value::Bool(false), pos + 1))
                } else if byte == 1 {
                    Ok((Value::Bool(true), pos + 1))
                } else {
                    Err(Error::BadScalar)
                }
            }
        },
        TypeDesc::U8 => {
            if pos + 1 > len {
                Err(Error::ReadPastEnd)
            } else {
                let x = s[pos as usize];
                proof {
                    assert(le_val(s@, pos as int, 1) == x as int + 256 * le_val(
                        s@,
                        pos as int + 1,
                        0,
                    ));
                }
                Ok((Value::U8(x), pos + 1))
            }
        },
        TypeDesc::U16 => {
            if pos + 2 > len {
                Err(Error::ReadPastEnd)
            } else {
                let x = read_le(s, pos, 2);
                proof {
                    lemma_p256_vals(2);
                }
                Ok((Value::U16(x as u16), pos + 2))
            }
        },
        TypeDesc::U32 => {
            if pos + 4 > len {
                Err(Error::ReadPastEnd)
            } else {
                let x = read_le(s, pos, 4);
                proof {
                    lemma_p256_vals(4);
                }
                Ok((Value::U32(x as u32), pos + 4))
            }
        },
        TypeDesc::U64 => {
            if pos + 8 > len {
                Err(Error::ReadPastEnd)
            } else {
                let x = read_le(s, pos, 8);
                Ok((Value::U64(x), pos + 8))
            }
        },
        TypeDesc::I32 => {
            if pos + 4 > len {
                Err(Error::ReadPastEnd)
            } else {
                let x = read_le(s, pos, 4);
                proof {
                    lemma_p256_vals(4);
                }
                let v: i32 = if x < 0x8000_0000 {
                    x as i32
                } else {
                    ((x as i64) - 0x1_0000_0000i64) as i32
                };
                proof {
                    assert(v as int == s_of_u(le_val(s@, pos as int, 4), 0x1_0000_0000));
                }
                Ok((Value::I32(v), pos + 4))
            }
        },
        TypeDesc::I64 => {
            if pos + 8 > len {
                Err(Error::ReadPastEnd)
            } else {
                let x = read_le(s, pos, 8);
                proof {
                    lemma_p256_vals(8);
                }
                let v: i64 = if x < 0x8000_0000_0000_0000 {
                    x as i64
                } else {
                    ((x as i128) - 0x1_0000_0000_0000_0000i128) as i64
                };
                proof {
                    assert(v as int == s_of_u(
                        le_val(s@, pos as int, 8),
                        0x1_0000_0000_0000_0000,
                    ));
                }
                Ok((Value::I64(v), pos + 8))
            }
        },
        TypeDesc::Str => {
            if pos + 4 > len {
                Err(Error::ReadPastEnd)
            } else {
                let n = read_le(s, pos, 4);
                proof {
                    lemma_p256_vals(4);
                }
                if pos + 4 + n > len {
                    Err(Error::ReadPastEnd)
                } else {
                    let bs = read_vec(s, pos + 4, n);
                    Ok((Value::Str(bs), pos + 4 + n))
                }
            }
        },
        TypeDesc::Vector(inner) => {
            if pos + 4 > len {
                Err(Error::ReadPastEnd)
            } else {
                let n = read_le(s, pos, 4);
                let fe = fixed_of(reg, &**inner);
                proof {
                    lemma_p256_vals(4);
                    assert((n as int) * (fe as int) <= 0xFFFF_FFFF * 0xFFFFint)
                        by (nonlinear_arith)
                        requires
                            0 <= n <= 0xFFFF_FFFF,
                            0 <= fe <= 0xFFFF,
                    ;
                    crate::desc::lemma_sfixed_nonneg(rs, **inner);
                }
                let hraw: u64 = pos + 4 + n * fe as u64;
                let hstart: u64 = if hraw > len {
                    len + 1
                } else {
                    hraw
                };
                let res = unpack_elems(reg, &**inner, n, s, pos + 4, hstart, Ghost(
                    rs.len() as int,
                ));
                match res {
                    Ok((vs, end)) => Ok((Value::List(vs), end)),
                    Err(e) => Err(e),
                }
            }
        },
        TypeDesc::Optional(inner) => {
            if pos + 4 > len {
                Err(Error::ReadPastEnd)
            } else {
                let off = read_le(s, pos, 4);
                if off == 1 {
                    Ok((Value::OptNone, pos + 4))
                } else if off == 4 {
                    let res = unpack_b(reg, &**inner, s, pos + 4, Ghost(rs.len() as int));
                    match res {
                        Ok((v, end)) => Ok((Value::OptSome(Box::new(v)), end)),
                        Err(e) => Err(e),
                    }
                } else {
                    Err(Error::BadOffset)
                }
            }
        },
        TypeDesc::Array(inner, n) => {
            proof {
                crate::desc::lemma_wf_ty_widen(rs, b@, rs.len() as int, **inner);
                crate::desc::lemma_sfixed_nonneg(rs, **inner);
            }
            let fe = fixed_of(reg, &**inner);
            proof {
                assert((*n as int) * (fe as int) <= 0xFFFF_FFFF * 0xFFFFint) by (nonlinear_arith)
                    requires
                        0 <= *n <= 0xFFFF_FFFF,
                        0 <= fe <= 0xFFFF,
                ;
            }
            let hraw: u64 = pos + (*n as u64) * (fe as u64);
            let hstart: u64 = if hraw > len {
                len + 1
            } else {
                hraw
            };
            let res = unpack_elems(reg, &**inner, *n as u64, s, pos, hstart, b);
            match res {
                Ok((vs, end)) => Ok((Value::List(vs), end)),
                Err(e) => Err(e),
            }
        },
        TypeDesc::Tuple(items) => {
            proof {
                lemma_wf_tys_widen(rs, b@, rs.len() as int, items@, 0);
                lemma_fsum_nonneg(rs, items@, 0);
            }
            let fs = fsum_of(reg, items, 0);
            let hraw: u64 = pos + fs as u64;
            let hstart: u64 = if hraw > len {
                len + 1
            } else {
                hraw
            };
            let res = unpack_fields_tys(reg, items, s, 0, pos, hstart, b);
            match res {
                Ok((vs, end)) => Ok((Value::List(vs), end)),
                Err(e) => Err(e),
            }
        },
        TypeDesc::Named(i) => {
            let d = &reg.defs[*i];
            proof {
                assert(wf_def(rs, *i as int));
            }
            match &d.shape {
                Shape::Struct { fields, frozen, .. } => {
                    if *frozen {
                        let hraw: u64 = pos + d.fixed as u64;
                        let hstart: u64 = if hraw > len {
                            len + 1
                        } else {
                            hraw
                        };
                        let res = unpack_fields_defs(reg, fields, s, 0, pos, hstart, Ghost(
                            *i as int,
                        ));
                        match res {
                            Ok((vs, end)) => Ok((Value::List(vs), end)),
                            Err(e) => Err(e),
                        }
                    } else {
                        if pos + 2 > len {
                            Err(Error::ReadPastEnd)
                        } else {
                            let hs = read_le(s, pos, 2);
                            proof {
                                lemma_p256_vals(2);
                            }
                            let hraw: u64 = pos + 2 + hs;
                            let hstart: u64 = if hraw > len {
                                len + 1
                            } else {
                                hraw
                            };
                            let res = unpack_fields_defs(reg, fields, s, 0, pos + 2, hstart,
                                Ghost(rs.len() as int));
                            match res {
                                Ok((vs, end)) => Ok((Value::List(vs), end)),
                                Err(e) => Err(e),
                            }
                        }
                    }
                },
                Shape::Union { variants } => {
                    if pos + 5 > len {
                        Err(Error::ReadPastEnd)
                    } else {
                        let dd = s[pos as usize];
                        let size = read_le(s, pos + 1, 4);
                        proof {
                            lemma_p256_vals(4);
                        }
                        if dd as usize >= variants.len() {
                            Err(Error::BadEnumIndex)
                        } else {
                            let var = &variants[dd as usize];
                            proof {
                                assert(crate::desc::wf_variant(rs, variants@[dd as int]));
                            }
                            let body: Result<(Vec<Value>, u64), Error> = if var.tys.len() == 1 {
                                let r0 = unpack_b(reg, &var.tys[0], s, pos + 5, Ghost(
                                    rs.len() as int,
                                ));
                                match r0 {
                                    Ok((v, end)) => {
                                        let mut vs: Vec<Value> = Vec::new();
                                        vs.push(v);
                                        proof {
                                            assert(vviews(vs@) =~= seq![v@]);
                                        }
                                        Ok((vs, end))
                                    },
                                    Err(e) => Err(e),
                                }
                            } else {
                                proof {
                                    lemma_fsum_nonneg(rs, var.tys@, 0);
                                }
                                let fs = fsum_of(reg, &var.tys, 0);
                                let hraw: u64 = pos + 5 + fs as u64;
                                let hstart: u64 = if hraw > len {
                                    len + 1
                                } else {
                                    hraw
                                };
                                unpack_fields_tys(reg, &var.tys, s, 0, pos + 5, hstart, Ghost(
                                    rs.len() as int,
                                ))
                            };
                            match body {
                                Ok((vs, end)) => {
                                    if end != pos + 5 + size {
                                        Err(Error::BadSize)
                                    } else {
                                        Ok((Value::Variant(dd, vs), end))
                                    }
                                },
                                Err(e) => Err(e),
                            }
                        }
                    }
                },
                Shape::Alias { inner } => unpack_b(reg, inner, s, pos, Ghost(*i as int)),
            }
        },
    }
}

/// Decodes one embedded field; mirrors [`dec_slot`].
#[verifier::rlimit(80)]
fn unpack_slot(reg: &Registry, t: &TypeDesc, s: &[u8], fpos: u64, hpos: u64, b: Ghost<int>) -> (r:
    Result<(Value, u64), Error>)
    requires
        wf_reg(reg@),
        wf_ty(reg@, b@, *t),
        b@ <= reg@.len(),
        s@.len() <= WIRE_MAX,
        fpos <= s@.len() + 1,
        hpos <= s@.len() + 1,
    ensures
        r is Ok ==> dec_slot(reg@, *t, s@, fpos as int, hpos as int, b@) == Ok::<
            (GValue, int),
            Error,
        >((r->Ok_0.0@, r->Ok_0.1 as int)) && r->Ok_0.1 <= s@.len() + 1,
        r is Err ==> dec_slot(reg@, *t, s@, fpos as int, hpos as int, b@) == Err::<
            (GValue, int),
            Error,
        >(r->Err_0),
    decreases srem(s@, fpos as int), b@, *t, 1int,
{
    let ghost rs = reg@;
    let len: u64 = s.len() as u64;
    proof {
        crate::desc::lemma_wf_ty_widen(rs, b@, rs.len() as int, *t);
    }
    if !var_of(reg, t) {
        let res = unpack_b(reg, t, s, fpos, b);
        match res {
            Ok((v, _end)) => Ok((v, hpos)),
            Err(e) => Err(e),
        }
    } else if fpos + 4 > len {
        Err(Error::ReadPastEnd)
    } else {
        let off = read_le(s, fpos, 4);
        proof {
            lemma_p256_vals(4);
        }
        let ct = chase_of(reg, t, Ghost(rs.len() as int));
        let is_opt = match ct {
            TypeDesc::Optional(_) => true,
            _ => false,
        };
        if is_opt && off == 1 {
            Ok((Value::OptNone, hpos))
        } else if off < 4 || fpos + off != hpos {
            Err(Error::BadOffset)
        } else {
            match ct {
                TypeDesc::Optional(inner) => {
                    let res = unpack_b(reg, &**inner, s, hpos, Ghost(rs.len() as int));
                    match res {
                        Ok((v, end)) => Ok((Value::OptSome(Box::new(v)), end)),
                        Err(e) => Err(e),
                    }
                },
                _ => {
                    let res = unpack_b(reg, t, s, hpos, Ghost(rs.len() as int));
                    match res {
                        Ok((v, end)) => Ok((v, end)),
                        Err(e) => Err(e),
                    }
                },
            }
        }
    }
}

/// Decodes the fields `ts[k..]`; mirrors [`dec_fields`].
fn unpack_fields_tys(
    reg: &Registry,
    ts: &Vec<TypeDesc>,
    s: &[u8],
    k: usize,
    fpos: u64,
    hpos: u64,
    b: Ghost<int>,
) -> (r: Result<(Vec<Value>, u64), Error>)
    requires
        wf_reg(reg@),
        wf_tys(reg@, b@, ts@, k as int),
        b@ <= reg@.len(),
        k <= ts.len(),
        s@.len() <= WIRE_MAX,
        fpos <= s@.len() + 1,
        hpos <= s@.len() + 1,
    ensures
        r is Ok ==> dec_fields(reg@, ts@, s@, k as int, fpos as int, hpos as int, b@) == Ok::<
            (Seq<GValue>, int),
            Error,
        >((vviews(r->Ok_0.0@), r->Ok_0.1 as int)) && r->Ok_0.1 <= s@.len() + 1,
        r is Err ==> dec_fields(reg@, ts@, s@, k as int, fpos as int, hpos as int, b@) == Err::<
            (Seq<GValue>, int),
            Error,
        >(r->Err_0),
    decreases srem(s@, fpos as int), b@, ts@, ts@.len() - k + 2,
{
    let ghost rs = reg@;
    let len: u64 = s.len() as u64;
    if k >= ts.len() {
        let out: Vec<Value> = Vec::new();
        proof {
            assert(vviews(out@) =~= Seq::<GValue>::empty());
        }
        Ok((out, hpos))
    } else {
        let res = unpack_slot(reg, &ts[k], s, fpos, hpos, b);
        match res {
            Ok((v, hpos2)) => {
                proof {
                    crate::desc::lemma_wf_ty_widen(rs, b@, rs.len() as int, ts@[k as int]);
                    crate::desc::lemma_sfixed_nonneg(rs, ts@[k as int]);
                }
                let fe = fixed_of(reg, &ts[k]);
                let fraw: u64 = fpos + fe as u64;
                let fpos2: u64 = if fraw > len {
                    len + 1
                } else {
                    fraw
                };
                let res2 = unpack_fields_tys(reg, ts, s, k + 1, fpos2, hpos2, b);
                match res2 {
                    Ok((mut vs, end)) => {
                        let ghost tailseq = vs@;
                        vs.insert(0, v);
                        proof {
                            assert(vs@.drop_first() =~= tailseq);
                            assert(vs@[0] == v);
                            assert(vviews(vs@) =~= seq![v@] + vviews(tailseq));
                        }
                        Ok((vs, end))
                    },
                    Err(e) => Err(e),
                }
            },
            Err(e) => Err(e),
        }
    }
}

/// Decodes the struct fields `fields[k..]`; mirrors [`dec_fields`] over the
/// field list's descriptors.
fn unpack_fields_defs(
    reg: &Registry,
    fields: &Vec<FieldDef>,
    s: &[u8],
    k: usize,
    fpos: u64,
    hpos: u64,
    b: Ghost<int>,
) -> (r: Result<(Vec<Value>, u64), Error>)
    requires
        wf_reg(reg@),
        wf_tys(reg@, b@, struct_tys(fields@), k as int),
        b@ <= reg@.len(),
        k <= fields.len(),
        s@.len() <= WIRE_MAX,
        fpos <= s@.len() + 1,
        hpos <= s@.len() + 1,
    ensures
        r is Ok ==> dec_fields(
            reg@,
            struct_tys(fields@),
            s@,
            k as int,
            fpos as int,
            hpos as int,
            b@,
        ) == Ok::<(Seq<GValue>, int), Error>((vviews(r->Ok_0.0@), r->Ok_0.1 as int)) && r->Ok_0.1
            <= s@.len() + 1,
        r is Err ==> dec_fields(
            reg@,
            struct_tys(fields@),
            s@,
            k as int,
            fpos as int,
            hpos as int,
            b@,
        ) == Err::<(Seq<GValue>, int), Error>(r->Err_0),
    decreases srem(s@, fpos as int), b@, struct_tys(fields@), struct_tys(fields@).len() - k + 2,
{
    let ghost rs = reg@;
    let ghost gts = struct_tys(fields@);
    let len: u64 = s.len() as u64;
    if k >= fields.len() {
        let out: Vec<Value> = Vec::new();
        proof {
            assert(vviews(out@) =~= Seq::<GValue>::empty());
        }
        Ok((out, hpos))
    } else {
        proof {
            assert(gts[k as int] == fields@[k as int].ty);
        }
        let res = unpack_slot(reg, &fields[k].ty, s, fpos, hpos, b);
        match res {
            Ok((v, hpos2)) => {
                proof {
                    crate::desc::lemma_wf_ty_widen(rs, b@, rs.len() as int, gts[k as int]);
                    crate::desc::lemma_sfixed_nonneg(rs, gts[k as int]);
                }
                let fe = fixed_of(reg, &fields[k].ty);
                let fraw: u64 = fpos + fe as u64;
                let fpos2: u64 = if fraw > len {
                    len + 1
                } else {
                    fraw
                };
                let res2 = unpack_fields_defs(reg, fields, s, k + 1, fpos2, hpos2, b);
                match res2 {
                    Ok((mut vs, end)) => {
                        let ghost tailseq = vs@;
                        vs.insert(0, v);
                        proof {
                            assert(vs@.drop_first() =~= tailseq);
                            assert(vs@[0] == v);
                            assert(vviews(vs@) =~= seq![v@] + vviews(tailseq));
                        }
                        Ok((vs, end))
                    },
                    Err(e) => Err(e),
                }
            },
            Err(e) => Err(e),
        }
    }
}

/// Decodes `cnt` elements of type `inner`; mirrors [`dec_elems`].
fn unpack_elems(
    reg: &Registry,
    inner: &TypeDesc,
    cnt: u64,
    s: &[u8],
    fpos: u64,
    hpos: u64,
    b: Ghost<int>,
) -> (r: Result<(Vec<Value>, u64), Error>)
    requires
        wf_reg(reg@),
        wf_ty(reg@, b@, *inner),
        b@ <= reg@.len(),
        s@.len() <= WIRE_MAX,
        fpos <= s@.len() + 1,
        hpos <= s@.len() + 1,
    ensures
        r is Ok ==> dec_elems(reg@, *inner, cnt as int, s@, fpos as int, hpos as int, b@) == Ok::<
            (Seq<GValue>, int),
            Error,
        >((vviews(r->Ok_0.0@), r->Ok_0.1 as int)) && r->Ok_0.1 <= s@.len() + 1,
        r is Err ==> dec_elems(reg@, *inner, cnt as int, s@, fpos as int, hpos as int, b@)
            == Err::<(Seq<GValue>, int), Error>(r->Err_0),
    decreases srem(s@, fpos as int), b@, *inner, cnt + 2,
{
    let ghost rs = reg@;
    let len: u64 = s.len() as u64;
    if cnt == 0 {
        let out: Vec<Value> = Vec::new();
        proof {
            assert(vviews(out@) =~= Seq::<GValue>::empty());
        }
        Ok((out, hpos))
    } else {
        let res = unpack_slot(reg, inner, s, fpos, hpos, b);
        match res {
            Ok((v, hpos2)) => {
                proof {
                    crate::desc::lemma_wf_ty_widen(rs, b@, rs.len() as int, *inner);
                    crate::desc::lemma_sfixed_nonneg(rs, *inner);
                }
                let fe = fixed_of(reg, inner);
                let fraw: u64 = fpos + fe as u64;
                let fpos2: u64 = if fraw > len {
                    len + 1
                } else {
                    fraw
                };
                let res2 = unpack_elems(reg, inner, cnt - 1, s, fpos2, hpos2, b);
                match res2 {
                    Ok((mut vs, end)) => {
                        let ghost tailseq = vs@;
                        vs.insert(0, v);
                        proof {
                            assert(vs@.drop_first() =~= tailseq);
                            assert(vs@[0] == v);
                            assert(vviews(vs@) =~= seq![v@] + vviews(tailseq));
                        }
                        Ok((vs, end))
                    },
                    Err(e) => Err(e),
                }
            },
            Err(e) => Err(e),
        }
    }
}

/// Unpacks the value of type `t` at `*pos`, advancing `*pos` past the bytes
/// the value consumed.  The result is exactly what the mathematical decoder
/// [`dec_of`] yields, error kind included.
pub fn unpack(reg: &Registry, t: &TypeDesc, src: &[u8], pos: &mut u32) -> (r: Result<Value, Error>)
    requires
        wf_reg(reg@),
        wf_root(reg@, *t),
        src@.len() < WIRE_MAX,
    ensures
        *old(pos) as int > src@.len() ==> r == Err::<Value, Error>(Error::ReadPastEnd)
            && *final(pos) == *old(pos),
        *old(pos) as int <= src@.len() && r is Ok ==> dec_of(
            reg@,
            *t,
            src@,
            *old(pos) as int,
        ) == Ok::<(GValue, int), Error>((r->Ok_0@, *final(pos) as int)),
        *old(pos) as int <= src@.len() && r is Err ==> dec_of(
            reg@,
            *t,
            src@,
            *old(pos) as int,
        ) == Err::<(GValue, int), Error>(r->Err_0) && *final(pos) == *old(pos),
{
    let p: u64 = *pos as u64;
    if p > src.len() as u64 {
        return Err(Error::ReadPastEnd);
    }
    let res = unpack_b(reg, t, src, p, Ghost(reg@.len() as int));
    match res {
        Ok((v, end)) => {
            *pos = end as u32;
            Ok(v)
        },
        Err(e) => Err(e),
    }
}


/// The recursive validator: the traversal of [`unpack_b`] without
/// materializing any value.  Returns the end position on success.
#[verifier::rlimit(100)]
#[verifier::spinoff_prover]
fn verify_b(reg: &Registry, t: &TypeDesc, s: &[u8], pos: u64, b: Ghost<int>) -> (r: Result<
    u64,
    Error,
>)
    requires
        wf_reg(reg@),
        wf_ty(reg@, b@, *t),
        b@ <= reg@.len(),
        s@.len() <= WIRE_MAX,
        pos <= s@.len() + 1,
    ensures
        r is Ok ==> dec(reg@, *t, s@, pos as int, b@) is Ok && dec(
            reg@,
            *t,
            s@,
            pos as int,
            b@,
        )->Ok_0.1 == r->Ok_0 as int && r->Ok_0 <= s@.len() + 1,
        r is Err ==> dec(reg@, *t, s@, pos as int, b@) == Err::<(GValue, int), Error>(r->Err_0),
    decreases srem(s@, pos as int), b@, *t, 0int,
{
    let ghost rs = reg@;
    let len: u64 = s.len() as u64;
    match t {
        TypeDesc::Bool => {
            if pos + 1 > len {
                Err(Error::ReadPastEnd)
            } else {
                let byte = s[pos as usize];
                if byte == 0 || byte == 1 {
                    Ok(pos + 1)
                } else {
                    Err(Error::BadScalar)
                }
            }
        },
        TypeDesc::U8 => {
            if pos + 1 > len {
                Err(Error::ReadPastEnd)
            } else {
                Ok(pos + 1)
            }
        },
        TypeDesc::U16 => {
            if pos + 2 > len {
                Err(Error::ReadPastEnd)
            } else {
                Ok(pos + 2)
            }
        },
        TypeDesc::U32 => {
            if pos + 4 > len {
                Err(Error::ReadPastEnd)
            } else {
                Ok(pos + 4)
            }
        },
        TypeDesc::U64 => {
            if pos + 8 > len {
                Err(Error::ReadPastEnd)
            } else {
                Ok(pos + 8)
            }
        },
        TypeDesc::I32 => {
            if pos + 4 > len {
                Err(Error::ReadPastEnd)
            } else {
                Ok(pos + 4)
            }
        },
        TypeDesc::I64 => {
            if pos + 8 > len {
                Err(Error::ReadPastEnd)
            } else {
                Ok(pos + 8)
            }
        },
        TypeDesc::Str => {
            if pos + 4 > len {
                Err(Error::ReadPastEnd)
            } else {
                let n = read_le(s, pos, 4);
                proof {
                    lemma_p256_vals(4);
                }
                if pos + 4 + n > len {
                    Err(Error::ReadPastEnd)
                } else {
                    Ok(pos + 4 + n)
                }
            }
        },
        TypeDesc::Vector(inner) => {
            if pos + 4 > len {
                Err(Error::ReadPastEnd)
            } else {
                let n = read_le(s, pos, 4);
                let fe = fixed_of(reg, &**inner);
                proof {
                    lemma_p256_vals(4);
                    assert((n as int) * (fe as int) <= 0xFFFF_FFFF * 0xFFFFint)
                        by (nonlinear_arith)
                        requires
                            0 <= n <= 0xFFFF_FFFF,
                            0 <= fe <= 0xFFFF,
                    ;
                    crate::desc::lemma_sfixed_nonneg(rs, **inner);
                }
                let hraw: u64 = pos + 4 + n * fe as u64;
                let hstart: u64 = if hraw > len {
                    len + 1
                } else {
                    hraw
                };
                verify_elems(reg, &**inner, n, s, pos + 4, hstart, Ghost(rs.len() as int))
            }
        },
        TypeDesc::Optional(inner) => {
            if pos + 4 > len {
                Err(Error::ReadPastEnd)
            } else {
                let off = read_le(s, pos, 4);
                if off == 1 {
                    Ok(pos + 4)
                } else if off == 4 {
                    verify_b(reg, &**inner, s, pos + 4, Ghost(rs.len() as int))
                } else {
                    Err(Error::BadOffset)
                }
            }
        },
        TypeDesc::Array(inner, n) => {
            proof {
                crate::desc::lemma_wf_ty_widen(rs, b@, rs.len() as int, **inner);
                crate::desc::lemma_sfixed_nonneg(rs, **inner);
            }
            let fe = fixed_of(reg, &**inner);
            proof {
                assert((*n as int) * (fe as int) <= 0xFFFF_FFFF * 0xFFFFint) by (nonlinear_arith)
                    requires
                        0 <= *n <= 0xFFFF_FFFF,
                        0 <= fe <= 0xFFFF,
                ;
            }
            let hraw: u64 = pos + (*n as u64) * (fe as u64);
            let hstart: u64 = if hraw > len {
                len + 1
            } else {
                hraw
            };
            verify_elems(reg, &**inner, *n as u64, s, pos, hstart, b)
        },
        TypeDesc::Tuple(items) => {
            proof {
                lemma_wf_tys_widen(rs, b@, rs.len() as int, items@, 0);
                lemma_fsum_nonneg(rs, items@, 0);
            }
            let fs = fsum_of(reg, items, 0);
            let hraw: u64 = pos + fs as u64;
            let hstart: u64 = if hraw > len {
                len + 1
            } else {
                hraw
            };
            verify_fields_tys(reg, items, s, 0, pos, hstart, b)
        },
        TypeDesc::Named(i) => {
            let d = &reg.defs[*i];
            proof {
                assert(wf_def(rs, *i as int));
            }
            match &d.shape {
                Shape::Struct { fields, frozen, .. } => {
                    if *frozen {
                        let hraw: u64 = pos + d.fixed as u64;
                        let hstart: u64 = if hraw > len {
                            len + 1
                        } else {
                            hraw
                        };
                        verify_fields_defs(reg, fields, s, 0, pos, hstart, Ghost(*i as int))
                    } else {
                        if pos + 2 > len {
                            Err(Error::ReadPastEnd)
                        } else {
                            let hs = read_le(s, pos, 2);
                            proof {
                                lemma_p256_vals(2);
                            }
                            let hraw: u64 = pos + 2 + hs;
                            let hstart: u64 = if hraw > len {
                                len + 1
                            } else {
                                hraw
                            };
                            verify_fields_defs(reg, fields, s, 0, pos + 2, hstart, Ghost(
                                rs.len() as int,
                            ))
                        }
                    }
                },
                Shape::Union { variants } => {
                    if pos + 5 > len {
                        Err(Error::ReadPastEnd)
                    } else {
                        let dd = s[pos as usize];
                        let size = read_le(s, pos + 1, 4);
                        proof {
                            lemma_p256_vals(4);
                        }
                        if dd as usize >= variants.len() {
                            Err(Error::BadEnumIndex)
                        } else {
                            let var = &variants[dd as usize];
                            proof {
                                assert(crate::desc::wf_variant(rs, variants@[dd as int]));
                            }
                            let body: Result<u64, Error> = if var.tys.len() == 1 {
                                verify_b(reg, &var.tys[0], s, pos + 5, Ghost(rs.len() as int))
                            } else {
                                proof {
                                    lemma_fsum_nonneg(rs, var.tys@, 0);
                                }
                                let fs = fsum_of(reg, &var.tys, 0);
                                let hraw: u64 = pos + 5 + fs as u64;
                                let hstart: u64 = if hraw > len {
                                    len + 1
                                } else {
                                    hraw
                                };
                                verify_fields_tys(reg, &var.tys, s, 0, pos + 5, hstart, Ghost(
                                    rs.len() as int,
                                ))
                            };
                            match body {
                                Ok(end) => {
                                    if end != pos + 5 + size {
                                        Err(Error::BadSize)
                                    } else {
                                        Ok(end)
                                    }
                                },
                                Err(e) => Err(e),
                            }
                        }
                    }
                },
                Shape::Alias { inner } => verify_b(reg, inner, s, pos, Ghost(*i as int)),
            }
        },
    }
}

/// Validates one embedded field; mirrors [`dec_slot`].
#[verifier::rlimit(80)]
fn verify_slot(reg: &Registry, t: &TypeDesc, s: &[u8], fpos: u64, hpos: u64, b: Ghost<int>) -> (r:
    Result<u64, Error>)
    requires
        wf_reg(reg@),
        wf_ty(reg@, b@, *t),
        b@ <= reg@.len(),
        s@.len() <= WIRE_MAX,
        fpos <= s@.len() + 1,
        hpos <= s@.len() + 1,
    ensures
        r is Ok ==> dec_slot(reg@, *t, s@, fpos as int, hpos as int, b@) is Ok && dec_slot(
            reg@,
            *t,
            s@,
            fpos as int,
            hpos as int,
            b@,
        )->Ok_0.1 == r->Ok_0 as int && r->Ok_0 <= s@.len() + 1,
        r is Err ==> dec_slot(reg@, *t, s@, fpos as int, hpos as int, b@) == Err::<
            (GValue, int),
            Error,
        >(r->Err_0),
    decreases srem(s@, fpos as int), b@, *t, 1int,
{
    let ghost rs = reg@;
    let len: u64 = s.len() as u64;
    proof {
        crate::desc::lemma_wf_ty_widen(rs, b@, rs.len() as int, *t);
    }
    if !var_of(reg, t) {
        let res = verify_b(reg, t, s, fpos, b);
        match res {
            Ok(_end) => Ok(hpos),
            Err(e) => Err(e),
        }
    } else if fpos + 4 > len {
        Err(Error::ReadPastEnd)
    } else {
        let off = read_le(s, fpos, 4);
        proof {
            lemma_p256_vals(4);
        }
        let ct = chase_of(reg, t, Ghost(rs.len() as int));
        let is_opt = match ct {
            TypeDesc::Optional(_) => true,
            _ => false,
        };
        if is_opt && off == 1 {
            Ok(hpos)
        } else if off < 4 || fpos + off != hpos {
            Err(Error::BadOffset)
        } else {
            match ct {
                TypeDesc::Optional(inner) => verify_b(reg, &**inner, s, hpos, Ghost(
                    rs.len() as int,
                )),
                _ => verify_b(reg, t, s, hpos, Ghost(rs.len() as int)),
            }
        }
    }
}

/// Validates the fields `ts[k..]`; mirrors [`dec_fields`].
fn verify_fields_tys(
    reg: &Registry,
    ts: &Vec<TypeDesc>,
    s: &[u8],
    k: usize,
    fpos: u64,
    hpos: u64,
    b: Ghost<int>,
) -> (r: Result<u64, Error>)
    requires
        wf_reg(reg@),
        wf_tys(reg@, b@, ts@, k as int),
        b@ <= reg@.len(),
        k <= ts.len(),
        s@.len() <= WIRE_MAX,
        fpos <= s@.len() + 1,
        hpos <= s@.len() + 1,
    ensures
        r is Ok ==> dec_fields(reg@, ts@, s@, k as int, fpos as int, hpos as int, b@) is Ok
            && dec_fields(reg@, ts@, s@, k as int, fpos as int, hpos as int, b@)->Ok_0.1 == r->Ok_0
            as int && r->Ok_0 <= s@.len() + 1,
        r is Err ==> dec_fields(reg@, ts@, s@, k as int, fpos as int, hpos as int, b@) == Err::<
            (Seq<GValue>, int),
            Error,
        >(r->Err_0),
    decreases srem(s@, fpos as int), b@, ts@, ts@.len() - k + 2,
{
    let ghost rs = reg@;
    let len: u64 = s.len() as u64;
    if k >= ts.len() {
        Ok(hpos)
    } else {
        let res = verify_slot(reg, &ts[k], s, fpos, hpos, b);
        match res {
            Ok(hpos2) => {
                proof {
                    crate::desc::lemma_wf_ty_widen(rs, b@, rs.len() as int, ts@[k as int]);
                    crate::desc::lemma_sfixed_nonneg(rs, ts@[k as int]);
                }
                let fe = fixed_of(reg, &ts[k]);
                let fraw: u64 = fpos + fe as u64;
                let fpos2: u64 = if fraw > len {
                    len + 1
                } else {
                    fraw
                };
                verify_fields_tys(reg, ts, s, k + 1, fpos2, hpos2, b)
            },
            Err(e) => Err(e),
        }
    }
}

/// Validates the struct fields `fields[k..]`; mirrors [`dec_fields`].
fn verify_fields_defs(
    reg: &Registry,
    fields: &Vec<FieldDef>,
    s: &[u8],
    k: usize,
    fpos: u64,
    hpos: u64,
    b: Ghost<int>,
) -> (r: Result<u64, Error>)
    requires
        wf_reg(reg@),
        wf_tys(reg@, b@, struct_tys(fields@), k as int),
        b@ <= reg@.len(),
        k <= fields.len(),
        s@.len() <= WIRE_MAX,
        fpos <= s@.len() + 1,
        hpos <= s@.len() + 1,
    ensures
        r is Ok ==> dec_fields(
            reg@,
            struct_tys(fields@),
            s@,
            k as int,
            fpos as int,
            hpos as int,
            b@,
        ) is Ok && dec_fields(
            reg@,
            struct_tys(fields@),
            s@,
            k as int,
            fpos as int,
            hpos as int,
            b@,
        )->Ok_0.1 == r->Ok_0 as int && r->Ok_0 <= s@.len() + 1,
        r is Err ==> dec_fields(
            reg@,
            struct_tys(fields@),
            s@,
            k as int,
            fpos as int,
            hpos as int,
            b@,
        ) == Err::<(Seq<GValue>, int), Error>(r->Err_0),
    decreases srem(s@, fpos as int), b@, struct_tys(fields@), struct_tys(fields@).len() - k + 2,
{
    let ghost rs = reg@;
    let ghost gts = struct_tys(fields@);
    let len: u64 = s.len() as u64;
    if k >= fields.len() {
        Ok(hpos)
    } else {
        proof {
            assert(gts[k as int] == fields@[k as int].ty);
        }
        let res = verify_slot(reg, &fields[k].ty, s, fpos, hpos, b);
        match res {
            Ok(hpos2) => {
                proof {
                    crate::desc::lemma_wf_ty_widen(rs, b@, rs.len() as int, gts[k as int]);
                    crate::desc::lemma_sfixed_nonneg(rs, gts[k as int]);
                }
                let fe = fixed_of(reg, &fields[k].ty);
                let fraw: u64 = fpos + fe as u64;
                let fpos2: u64 = if fraw > len {
                    len + 1
                } else {
                    fraw
                };
                verify_fields_defs(reg, fields, s, k + 1, fpos2, hpos2, b)
            },
            Err(e) => Err(e),
        }
    }
}

/// Validates `cnt` elements of type `inner`; mirrors [`dec_elems`].
fn verify_elems(
    reg: &Registry,
    inner: &TypeDesc,
    cnt: u64,
    s: &[u8],
    fpos: u64,
    hpos: u64,
    b: Ghost<int>,
) -> (r: Result<u64, Error>)
    requires
        wf_reg(reg@),
        wf_ty(reg@, b@, *inner),
        b@ <= reg@.len(),
        s@.len() <= WIRE_MAX,
        fpos <= s@.len() + 1,
        hpos <= s@.len() + 1,
    ensures
        r is Ok ==> dec_elems(reg@, *inner, cnt as int, s@, fpos as int, hpos as int, b@) is Ok
            && dec_elems(reg@, *inner, cnt as int, s@, fpos as int, hpos as int, b@)->Ok_0.1
            == r->Ok_0 as int && r->Ok_0 <= s@.len() + 1,
        r is Err ==> dec_elems(reg@, *inner, cnt as int, s@, fpos as int, hpos as int, b@)
            == Err::<(Seq<GValue>, int), Error>(r->Err_0),
    decreases srem(s@, fpos as int), b@, *inner, cnt + 2,
{
    let ghost rs = reg@;
    let len: u64 = s.len() as u64;
    if cnt == 0 {
        Ok(hpos)
    } else {
        let res = verify_slot(reg, inner, s, fpos, hpos, b);
        match res {
            Ok(hpos2) => {
                proof {
                    crate::desc::lemma_wf_ty_widen(rs, b@, rs.len() as int, *inner);
                    crate::desc::lemma_sfixed_nonneg(rs, *inner);
                }
                let fe = fixed_of(reg, inner);
                let fraw: u64 = fpos + fe as u64;
                let fpos2: u64 = if fraw > len {
                    len + 1
                } else {
                    fraw
                };
                verify_elems(reg, inner, cnt - 1, s, fpos2, hpos2, b)
            },
            Err(e) => Err(e),
        }
    }
}

/// Validates the value of type `t` at `*pos` without materializing it,
/// advancing `*pos` past the bytes the value occupies.  It succeeds on
/// exactly the buffers [`unpack`] succeeds on, with the same error kind and
/// the same final position: both are specified against [`dec_of`].
pub fn verify(reg: &Registry, t: &TypeDesc, src: &[u8], pos: &mut u32) -> (r: Result<(), Error>)
    requires
        wf_reg(reg@),
        wf_root(reg@, *t),
        src@.len() < WIRE_MAX,
    ensures
        *old(pos) as int > src@.len() ==> r == Err::<(), Error>(Error::ReadPastEnd) && *final(pos)
            == *old(pos),
        *old(pos) as int <= src@.len() && r is Ok ==> dec_of(
            reg@,
            *t,
            src@,
            *old(pos) as int,
        ) is Ok && dec_of(reg@, *t, src@, *old(pos) as int)->Ok_0.1 == *final(pos) as int,
        *old(pos) as int <= src@.len() && r is Err ==> dec_of(
            reg@,
            *t,
            src@,
            *old(pos) as int,
        ) == Err::<(GValue, int), Error>(r->Err_0) && *final(pos) == *old(pos),
{
    let p: u64 = *pos as u64;
    if p > src.len() as u64 {
        return Err(Error::ReadPastEnd);
    }
    let res = verify_b(reg, t, src, p, Ghost(reg@.len() as int));
    match res {
        Ok(end) => {
            *pos = end as u32;
            Ok(())
        },
        Err(e) => Err(e),
    }
}

} // verus!
