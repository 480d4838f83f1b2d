//! The mathematical decoder.
//!
//! [`dec`] is the ground truth both [`crate::codec::unpack`] and
//! [`crate::codec::verify`] are proved against: a total function from a
//! buffer and a position to either the decoded value with its end position,
//! or the error the codec reports.  Offsets and union size fields are
//! checked strictly against the positions the encoding demands.  The
//! heap-size prefix of an extensible struct is used as read, not compared
//! to the declared fixed-region size: a buffer written for an extended
//! version of the struct carries a larger prefix, and a decoder for the old
//! version must still walk its known fields and skip to the heap the prefix
//! names -- the forward compatibility the prefix exists for.

use vstd::prelude::*;

use crate::codec::Error;
use crate::desc::{NamedDef, Shape, TypeDesc, chase, fsum, sfixed, struct_tys, svar, wf_tys};
use crate::enc::{le_val, s_of_u};
use crate::value::GValue;

verus! {

/// The bytes remaining after `pos`, clamped to zero outside the buffer.
pub open spec fn srem(s: Seq<u8>, pos: int) -> int {
    if pos <= s.len() {
        s.len() - pos
    } else {
        0
    }
}

/// Whether `w` bytes can be read at `pos`.
pub open spec fn can_read(s: Seq<u8>, pos: int, w: int) -> bool {
    0 <= pos && pos + w <= s.len()
}

/// A position clamped to just past the buffer: a heap cursor that would
/// start beyond the buffer can never be consumed from, so all such cursors
/// are identified with `s.len() + 1`.
pub open spec fn hcl(s: Seq<u8>, x: int) -> int {
    if x <= s.len() {
        x
    } else {
        s.len() as int + 1
    }
}

/// A non-negative fixed footprint, clamping the (never actually negative)
/// spec value so cursor arithmetic stays monotone.
pub open spec fn sfixed_nn(rs: Seq<NamedDef>, t: TypeDesc) -> int {
    if sfixed(rs, t) >= 0 {
        sfixed(rs, t)
    } else {
        0
    }
}

/// A non-negative total fixed footprint, as [`sfixed_nn`].
pub open spec fn fsum_nn(rs: Seq<NamedDef>, ts: Seq<TypeDesc>, k: int) -> int {
    if fsum(rs, ts, k) >= 0 {
        fsum(rs, ts, k)
    } else {
        0
    }
}

/// Decodes the value of type `t` at `pos`, returning it with its end
/// position.  `b` bounds the registry entries reachable through alias
/// chains and frozen-struct fields at the same position; entry points use
/// `rs.len()`.
pub open spec fn dec(rs: Seq<NamedDef>, t: TypeDesc, s: Seq<u8>, pos: int, b: int) -> Result<
    (GValue, int),
    Error,
>
    decreases srem(s, pos), b, t, 0int,
{
    match t {
        TypeDesc::Bool => if !can_read(s, pos, 1) {
            Err(Error::ReadPastEnd)
        } else if s[pos] == 0 {
            Ok((GValue::Bool(false), pos + 1))
        } else if s[pos] == 1 {
            Ok((GValue::Bool(true), pos + 1))
        } else {
            Err(Error::BadScalar)
        },
        TypeDesc::U8 => if !can_read(s, pos, 1) {
            Err(Error::ReadPastEnd)
        } else {
            Ok((GValue::U8(s[pos]), pos + 1))
        },
        TypeDesc::U16 => if !can_read(s, pos, 2) {
            Err(Error::ReadPastEnd)
        } else {
            Ok((GValue::U16(le_val(s, pos, 2) as u16), pos + 2))
        },
        TypeDesc::U32 => if !can_read(s, pos, 4) {
            Err(Error::ReadPastEnd)
        } else {
            Ok((GValue::U32(le_val(s, pos, 4) as u32), pos + 4))
        },
        TypeDesc::U64 => if !can_read(s, pos, 8) {
            Err(Error::ReadPastEnd)
        } else {
            Ok((GValue::U64(le_val(s, pos, 8) as u64), pos + 8))
        },
        TypeDesc::I32 => if !can_read(s, pos, 4) {
            Err(Error::ReadPastEnd)
        } else {
            Ok((GValue::I32(s_of_u(le_val(s, pos, 4), 0x1_0000_0000) as i32), pos + 4))
        },
        TypeDesc::I64 => if !can_read(s, pos, 8) {
            Err(Error::ReadPastEnd)
        } else {
            Ok(
                (
                    GValue::I64(s_of_u(le_val(s, pos, 8), 0x1_0000_0000_0000_0000) as i64),
                    pos + 8,
                ),
            )
        },
        TypeDesc::Str => if !can_read(s, pos, 4) {
            Err(Error::ReadPastEnd)
        } else {
            let n = le_val(s, pos, 4);
            if !can_read(s, pos + 4, n) {
                Err(Error::ReadPastEnd)
            } else {
                Ok((GValue::Str(s.subrange(pos + 4, pos + 4 + n)), pos + 4 + n))
            }
        },
        TypeDesc::Vector(inner) => if !can_read(s, pos, 4) {
            Err(Error::ReadPastEnd)
        } else {
            let n = le_val(s, pos, 4);
            let hstart = hcl(s, pos + 4 + n * sfixed_nn(rs, *inner));
            match dec_elems(rs, *inner, n, s, pos + 4, hstart, rs.len() as int) {
                Err(e) => Err(e),
                Ok((vs, end)) => Ok((GValue::List(vs), end)),
            }
        },
        TypeDesc::Optional(inner) => if !can_read(s, pos, 4) {
            Err(Error::ReadPastEnd)
        } else {
            let off = le_val(s, pos, 4);
            if off == 1 {
                Ok((GValue::OptNone, pos + 4))
            } else if off == 4 {
                match dec(rs, *inner, s, pos + 4, rs.len() as int) {
                    Err(e) => Err(e),
                    Ok((v, end)) => Ok((GValue::OptSome(Box::new(v)), end)),
                }
            } else {
                Err(Error::BadOffset)
            }
        },
        TypeDesc::Array(inner, n) => {
            let hstart = hcl(s, pos + (n as int) * sfixed_nn(rs, *inner));
            match dec_elems(rs, *inner, n as int, s, pos, hstart, b) {
                Err(e) => Err(e),
                Ok((vs, end)) => Ok((GValue::List(vs), end)),
            }
        },
        TypeDesc::Tuple(items) => {
            let hstart = hcl(s, pos + fsum_nn(rs, items@, 0));
            match dec_fields(rs, items@, s, 0, pos, hstart, b) {
                Err(e) => Err(e),
                Ok((vs, end)) => Ok((GValue::List(vs), end)),
            }
        },
        TypeDesc::Named(i) => if !(0 <= i < rs.len()) {
            Err(Error::BadOffset)
        } else {
            match rs[i as int].shape {
                Shape::Struct { fields, frozen, .. } => {
                    let ts = struct_tys(fields@);
                    if frozen {
                        if 0 <= i < b {
                            let hstart = hcl(s, pos + rs[i as int].fixed);
                            match dec_fields(rs, ts, s, 0, pos, hstart, i as int) {
                                Err(e) => Err(e),
                                Ok((vs, end)) => Ok((GValue::List(vs), end)),
                            }
                        } else {
                            Err(Error::BadOffset)
                        }
                    } else {
                        if !can_read(s, pos, 2) {
                            Err(Error::ReadPastEnd)
                        } else {
                            let hs = le_val(s, pos, 2);
                            let hstart = hcl(s, pos + 2 + hs);
                            match dec_fields(rs, ts, s, 0, pos + 2, hstart, rs.len() as int) {
                                Err(e) => Err(e),
                                Ok((vs, end)) => Ok((GValue::List(vs), end)),
                            }
                        }
                    }
                },
                Shape::Union { variants } => if !can_read(s, pos, 5) {
                    Err(Error::ReadPastEnd)
                } else {
                    let d = s[pos];
                    let size = le_val(s, pos + 1, 4);
                    if d >= variants.len() {
                        Err(Error::BadEnumIndex)
                    } else {
                        let tys = variants[d as int].tys@;
                        let body = if tys.len() == 1 {
                            match dec(rs, tys[0], s, pos + 5, rs.len() as int) {
                                Err(e) => Err(e),
                                Ok((v, end)) => Ok((seq![v], end)),
                            }
                        } else {
                            let hstart = hcl(s, pos + 5 + fsum_nn(rs, tys, 0));
                            dec_fields(rs, tys, s, 0, pos + 5, hstart, rs.len() as int)
                        };
                        match body {
                            Err(e) => Err(e),
                            Ok((vs, end)) => if end != pos + 5 + size {
                                Err(Error::BadSize)
                            } else {
                                Ok((GValue::Variant(d, vs), end))
                            },
                        }
                    }
                },
                Shape::Alias { inner } => if 0 <= i < b {
                    dec(rs, inner, s, pos, i as int)
                } else {
                    Err(Error::BadOffset)
                },
            }
        },
    }
}

/// Decodes one embedded field whose slot is at `fpos` while the heap cursor
/// stands at `hpos`; returns the value and the advanced heap cursor.
/// Named aliases are transparent here: a field whose type renames an
/// optional is decoded exactly as the optional itself would be.
pub open spec fn dec_slot(
    rs: Seq<NamedDef>,
    t: TypeDesc,
    s: Seq<u8>,
    fpos: int,
    hpos: int,
    b: int,
) -> Result<(GValue, int), Error>
    decreases srem(s, fpos), b, t, 1int,
{
    if !svar(rs, t) {
        match dec(rs, t, s, fpos, b) {
            Err(e) => Err(e),
            Ok((v, _end)) => Ok((v, hpos)),
        }
    } else if !can_read(s, fpos, 4) {
        Err(Error::ReadPastEnd)
    } else {
        let off = le_val(s, fpos, 4);
        if (chase(rs, t, rs.len() as int) is Optional) && off == 1 {
            Ok((GValue::OptNone, hpos))
        } else if off < 4 || fpos + off != hpos {
            Err(Error::BadOffset)
        } else {
            match chase(rs, t, rs.len() as int) {
                TypeDesc::Optional(inner) => match dec(rs, *inner, s, hpos, rs.len() as int) {
                    Err(e) => Err(e),
                    Ok((v, end)) => Ok((GValue::OptSome(Box::new(v)), end)),
                },
                _ => match dec(rs, t, s, hpos, rs.len() as int) {
                    Err(e) => Err(e),
                    Ok((v, end)) => Ok((v, end)),
                },
            }
        }
    }
}

/// Decodes the fields `ts[k..]` of a composite value: fixed slots walk from
/// `fpos`, heap payloads consume from `hpos`.  Returns the field values and
/// the final heap cursor, which is the composite value's end position.
pub open spec fn dec_fields(
    rs: Seq<NamedDef>,
    ts: Seq<TypeDesc>,
    s: Seq<u8>,
    k: int,
    fpos: int,
    hpos: int,
    b: int,
) -> Result<(Seq<GValue>, int), Error>
    decreases srem(s, fpos), b, ts, ts.len() - k + 2,
{
    if k < 0 || k >= ts.len() {
        Ok((Seq::empty(), hpos))
    } else {
        match dec_slot(rs, ts[k], s, fpos, hpos, b) {
            Err(e) => Err(e),
            Ok((v, hpos2)) => {
                match dec_fields(rs, ts, s, k + 1, hcl(s, fpos + sfixed_nn(rs, ts[k])), hpos2, b) {
                    Err(e) => Err(e),
                    Ok((vs, end)) => Ok((seq![v] + vs, end)),
                }
            },
        }
    }
}

/// Decodes `cnt` elements of type `inner`, as [`dec_fields`] does for a
/// heterogeneous field list.
pub open spec fn dec_elems(
    rs: Seq<NamedDef>,
    inner: TypeDesc,
    cnt: int,
    s: Seq<u8>,
    fpos: int,
    hpos: int,
    b: int,
) -> Result<(Seq<GValue>, int), Error>
    decreases srem(s, fpos), b, inner, cnt + 2,
{
    if cnt <= 0 {
        Ok((Seq::empty(), hpos))
    } else {
        match dec_slot(rs, inner, s, fpos, hpos, b) {
            Err(e) => Err(e),
            Ok((v, hpos2)) => {
                match dec_elems(rs, inner, cnt - 1, s, hcl(s, fpos + sfixed_nn(rs, inner)), hpos2, b) {
                    Err(e) => Err(e),
                    Ok((vs, end)) => Ok((seq![v] + vs, end)),
                }
            },
        }
    }
}

/// Decodes a value of root type `t` at `pos`.
pub open spec fn dec_of(rs: Seq<NamedDef>, t: TypeDesc, s: Seq<u8>, pos: int) -> Result<
    (GValue, int),
    Error,
> {
    dec(rs, t, s, pos, rs.len() as int)
}

} // verus!
