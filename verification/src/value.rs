//! Dynamic values, their mathematical mirror, and the
//! value-matches-descriptor relation.
//!
//! A [`Value`] is the runtime form a codec call packs or unpacks; its view
//! is a [`GValue`], the ghost mirror over `Seq` that all specifications
//! speak of.  The spec predicate [`vmatch`] says when a value has the shape
//! a descriptor demands; it also carries the wire format's representability
//! bounds (a sequence's length must fit the 32-bit count, a union
//! discriminant must select a declared variant).

use vstd::prelude::*;

use crate::desc::{NamedDef, Shape, TypeDesc, chase, struct_tys, wf_def, wf_reg, wf_ty};

verus! {

/// A dynamic value, the runtime counterpart of a [`TypeDesc`].
#[derive(Debug, PartialEq, Eq)]
pub enum Value {
    Bool(bool),
    U8(u8),
    U16(u16),
    U32(u32),
    U64(u64),
    I32(i32),
    I64(i64),
    /// A byte string (`Str` descriptor).  Strings travel as raw bytes on
    /// the wire; whether the bytes are valid UTF-8 is the caller's concern,
    /// not the codec's.
    Str(Vec<u8>),
    /// The fields of a struct or tuple, or the elements of a vector or
    /// array, in order.
    List(Vec<Value>),
    /// An absent optional.
    OptNone,
    /// A present optional.
    OptSome(Box<Value>),
    /// A union value: discriminant and the active variant's fields.
    Variant(u8, Vec<Value>),
}

/// The mathematical mirror of [`Value`], over `Seq` instead of `Vec`.
pub enum GValue {
    Bool(bool),
    U8(u8),
    U16(u16),
    U32(u32),
    U64(u64),
    I32(i32),
    I64(i64),
    Str(Seq<u8>),
    List(Seq<GValue>),
    OptNone,
    OptSome(Box<GValue>),
    Variant(u8, Seq<GValue>),
}

/// The mathematical value of a runtime value.
pub open spec fn vview(v: Value) -> GValue
    decreases v, 0int,
{
    match v {
        Value::Bool(x) => GValue::Bool(x),
        Value::U8(x) => GValue::U8(x),
        Value::U16(x) => GValue::U16(x),
        Value::U32(x) => GValue::U32(x),
        Value::U64(x) => GValue::U64(x),
        Value::I32(x) => GValue::I32(x),
        Value::I64(x) => GValue::I64(x),
        Value::Str(bs) => GValue::Str(bs@),
        Value::List(vs) => GValue::List(vviews(vs@)),
        Value::OptNone => GValue::OptNone,
        Value::OptSome(bx) => GValue::OptSome(Box::new(vview(*bx))),
        Value::Variant(d, vs) => GValue::Variant(d, vviews(vs@)),
    }
}

/// The mathematical values of a sequence of runtime values.
pub open spec fn vviews(s: Seq<Value>) -> Seq<GValue>
    decreases s, 1int,
{
    if s.len() == 0 {
        Seq::empty()
    } else {
        seq![vview(s[0])] + vviews(s.drop_first())
    }
}

impl View for Value {
    type V = GValue;

    open spec fn view(&self) -> GValue {
        vview(*self)
    }
}

/// `vviews` maps element by element.
pub broadcast proof fn lemma_vviews_len(s: Seq<Value>)
    ensures
        (#[trigger] vviews(s)).len() == s.len(),
    decreases s.len(),
{
    if s.len() > 0 {
        lemma_vviews_len(s.drop_first());
    }
}

/// The view of element `i` of a sequence is element `i` of the views.
pub broadcast proof fn lemma_vviews_index(s: Seq<Value>, i: int)
    requires
        0 <= i < s.len(),
    ensures
        #[trigger] vviews(s)[i] == vview(s[i]),
    decreases i,
{
    lemma_vviews_len(s);
    if i > 0 {
        lemma_vviews_index(s.drop_first(), i - 1);
    }
}

/// Whether `v` has the shape that descriptor `t` demands.  `b` bounds the
/// registry entries reachable through alias chains without consuming any
/// value structure; entry points use `rs.len()`.
pub open spec fn vmatch_b(rs: Seq<NamedDef>, t: TypeDesc, v: GValue, b: int) -> bool
    decreases v, b, t, 0int,
{
    match t {
        TypeDesc::Bool => v is Bool,
        TypeDesc::U8 => v is U8,
        TypeDesc::U16 => v is U16,
        TypeDesc::U32 => v is U32,
        TypeDesc::U64 => v is U64,
        TypeDesc::I32 => v is I32,
        TypeDesc::I64 => v is I64,
        TypeDesc::Str => match v {
            GValue::Str(bs) => bs.len() < 0x1_0000_0000,
            _ => false,
        },
        TypeDesc::Vector(inner) => match v {
            GValue::List(vs) => vs.len() < 0x1_0000_0000 && vmatch_fields(
                rs,
                Seq::new(vs.len(), |j: int| *inner),
                vs,
                0,
            ),
            _ => false,
        },
        TypeDesc::Optional(inner) => match v {
            GValue::OptNone => true,
            GValue::OptSome(bx) => vmatch_b(rs, *inner, *bx, rs.len() as int),
            _ => false,
        },
        TypeDesc::Array(inner, n) => match v {
            GValue::List(vs) => vs.len() == n && vmatch_fields(
                rs,
                Seq::new(vs.len(), |j: int| *inner),
                vs,
                0,
            ),
            _ => false,
        },
        TypeDesc::Tuple(items) => match v {
            GValue::List(vs) => vs.len() == items@.len() && vmatch_fields(rs, items@, vs, 0),
            _ => false,
        },
        TypeDesc::Named(i) => 0 <= i < rs.len() && match rs[i as int].shape {
            Shape::Struct { fields, .. } => match v {
                GValue::List(vs) => vs.len() == fields@.len() && vmatch_fields(
                    rs,
                    struct_tys(fields@),
                    vs,
                    0,
                ),
                _ => false,
            },
            Shape::Union { variants } => match v {
                GValue::Variant(d, vs) => d < variants@.len() && vs.len()
                    == variants@[d as int].tys@.len() && vmatch_fields(
                    rs,
                    variants@[d as int].tys@,
                    vs,
                    0,
                ),
                _ => false,
            },
            Shape::Alias { inner } => if 0 <= i < b {
                vmatch_b(rs, inner, v, i as int)
            } else {
                false
            },
        },
    }
}

/// Whether each value in `vs[k..]` matches the corresponding descriptor.
pub open spec fn vmatch_fields(
    rs: Seq<NamedDef>,
    ts: Seq<TypeDesc>,
    vs: Seq<GValue>,
    k: int,
) -> bool
    decreases vs, 0int, ts, ts.len() - k,
{
    if k < 0 || k >= ts.len() {
        true
    } else {
        &&& k < vs.len()
        &&& vmatch_b(rs, ts[k], vs[k], rs.len() as int)
        &&& vmatch_fields(rs, ts, vs, k + 1)
    }
}

/// Whether `v` has the shape that descriptor `t` demands.
pub open spec fn vmatch(rs: Seq<NamedDef>, t: TypeDesc, v: GValue) -> bool {
    vmatch_b(rs, t, v, rs.len() as int)
}

/// A value that matches a type also matches the type behind its alias
/// chain: aliases are transparent to values.
pub proof fn lemma_vmatch_chase(rs: Seq<NamedDef>, t: TypeDesc, v: GValue, b: int)
    requires
        wf_reg(rs),
        wf_ty(rs, b, t),
        b <= rs.len(),
        vmatch_b(rs, t, v, b),
    ensures
        vmatch_b(rs, chase(rs, t, b), v, rs.len() as int),
    decreases b, t,
{
    match t {
        TypeDesc::Named(i) => {
            assert(wf_def(rs, i as int));
            match rs[i as int].shape {
                Shape::Alias { inner } => {
                    lemma_vmatch_chase(rs, inner, v, i as int);
                },
                _ => {
                    assert(vmatch_b(rs, t, v, rs.len() as int) == vmatch_b(rs, t, v, b));
                },
            }
        },
        _ => {
            assert(vmatch_b(rs, t, v, rs.len() as int) == vmatch_b(rs, t, v, b));
        },
    }
}

} // verus!
