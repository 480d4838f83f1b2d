//! Mapping plain Rust types to descriptors.
//!
//! A type that implements [`Reflect`] can describe its own wire shape; the
//! descriptor it yields is closed (it names no registry entry), so it is
//! well-formed over every registry.  Named composite types are described
//! through a [`crate::desc::Registry`] instead.

use std::rc::Rc;
use std::sync::Arc;
use vstd::prelude::*;

use crate::desc::{NamedDef, TypeDesc, wf_ty};

verus! {

/// A descriptor that names no registry entry: such a descriptor is
/// well-formed over every registry and under every inline bound.
pub open spec fn closed_ty(t: TypeDesc) -> bool
    decreases t,
{
    match t {
        TypeDesc::Vector(inner) => closed_ty(*inner),
        TypeDesc::Optional(inner) => closed_ty(*inner),
        TypeDesc::Array(_, _) => false,
        TypeDesc::Tuple(_) => false,
        TypeDesc::Named(_) => false,
        _ => true,
    }
}

/// A closed descriptor is well-formed over every registry.
pub proof fn lemma_closed_wf(rs: Seq<NamedDef>, b: int, t: TypeDesc)
    requires
        closed_ty(t),
    ensures
        wf_ty(rs, b, t),
    decreases t,
{
    match t {
        TypeDesc::Vector(inner) => lemma_closed_wf(rs, rs.len() as int, *inner),
        TypeDesc::Optional(inner) => lemma_closed_wf(rs, rs.len() as int, *inner),
        _ => {},
    }
}

/// A type that knows its own wire shape.
pub trait Reflect {
    /// The descriptor of this type, as a specification value.
    spec fn sdesc() -> TypeDesc;

    /// The descriptor of this type.
    fn descriptor() -> (r: TypeDesc)
        ensures
            r == Self::sdesc(),
            closed_ty(Self::sdesc()),
    ;
}

impl Reflect for bool {
    open spec fn sdesc() -> TypeDesc {
        TypeDesc::Bool
    }

    fn descriptor() -> TypeDesc {
        TypeDesc::Bool
    }
}

impl Reflect for u8 {
    open spec fn sdesc() -> TypeDesc {
        TypeDesc::U8
    }

    fn descriptor() -> TypeDesc {
        TypeDesc::U8
    }
}

impl Reflect for u16 {
    open spec fn sdesc() -> TypeDesc {
        TypeDesc::U16
    }

    fn descriptor() -> TypeDesc {
        TypeDesc::U16
    }
}

impl Reflect for u32 {
    open spec fn sdesc() -> TypeDesc {
        TypeDesc::U32
    }

    fn descriptor() -> TypeDesc {
        TypeDesc::U32
    }
}

impl Reflect for u64 {
    open spec fn sdesc() -> TypeDesc {
        TypeDesc::U64
    }

    fn descriptor() -> TypeDesc {
        TypeDesc::U64
    }
}

impl Reflect for i32 {
    open spec fn sdesc() -> TypeDesc {
        TypeDesc::I32
    }

    fn descriptor() -> TypeDesc {
        TypeDesc::I32
    }
}

impl Reflect for i64 {
    open spec fn sdesc() -> TypeDesc {
        TypeDesc::I64
    }

    fn descriptor() -> TypeDesc {
        TypeDesc::I64
    }
}

impl Reflect for String {
    open spec fn sdesc() -> TypeDesc {
        TypeDesc::Str
    }

    fn descriptor() -> TypeDesc {
        TypeDesc::Str
    }
}

impl<'a, T: Reflect> Reflect for &'a T {
    open spec fn sdesc() -> TypeDesc {
        T::sdesc()
    }

    fn descriptor() -> TypeDesc {
        T::descriptor()
    }
}

impl<T: Reflect> Reflect for Box<T> {
    open spec fn sdesc() -> TypeDesc {
        T::sdesc()
    }

    fn descriptor() -> TypeDesc {
        T::descriptor()
    }
}

impl<T: Reflect> Reflect for Rc<T> {
    open spec fn sdesc() -> TypeDesc {
        T::sdesc()
    }

    fn descriptor() -> TypeDesc {
        T::descriptor()
    }
}

impl<T: Reflect> Reflect for Arc<T> {
    open spec fn sdesc() -> TypeDesc {
        T::sdesc()
    }

    fn descriptor() -> TypeDesc {
        T::descriptor()
    }
}

impl<'a> Reflect for &'a str {
    open spec fn sdesc() -> TypeDesc {
        TypeDesc::Str
    }

    fn descriptor() -> TypeDesc {
        TypeDesc::Str
    }
}

impl<T: Reflect> Reflect for Vec<T> {
    open spec fn sdesc() -> TypeDesc {
        TypeDesc::Vector(Box::new(T::sdesc()))
    }

    fn descriptor() -> TypeDesc {
        TypeDesc::Vector(Box::new(T::descriptor()))
    }
}

impl<T: Reflect> Reflect for Option<T> {
    open spec fn sdesc() -> TypeDesc {
        TypeDesc::Optional(Box::new(T::sdesc()))
    }

    fn descriptor() -> TypeDesc {
        TypeDesc::Optional(Box::new(T::descriptor()))
    }
}

} // verus!
