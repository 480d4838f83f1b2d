//! Type descriptors: an in-memory tagged-variant representation of the shape
//! of an encodable type, plus a registry of named composite types.
//!
//! A descriptor is either a builtin, a container (vector, optional, array,
//! tuple) or a reference (`Named`) into a [`Registry`], whose entries carry a
//! struct, tagged-union or alias shape.  Each registry entry stores the
//! entry's wire metadata (`variable`, `fixed`); well-formedness
//! ([`wf_reg`]) requires the stored metadata to be consistent with the
//! entry's shape, all `Named` indices to be in bounds, fixed regions to fit
//! the 16-bit heap-size prefix, and inline references (through aliases,
//! frozen-struct fields, arrays and tuples) to point only at earlier
//! entries, which makes every traversal of a well-formed registry finite.

use vstd::prelude::*;

verus! {

/// The shape of an encodable type.
pub enum TypeDesc {
    Bool,
    U8,
    U16,
    U32,
    U64,
    I32,
    I64,
    /// A length-prefixed byte string.
    Str,
    /// A length-prefixed homogeneous sequence.
    Vector(Box<TypeDesc>),
    /// A present-or-absent value, encoded through an offset sentinel.
    Optional(Box<TypeDesc>),
    /// A fixed-length homogeneous sequence; the length is part of the type.
    Array(Box<TypeDesc>, u32),
    /// A fixed heterogeneous sequence of unnamed fields.
    Tuple(Vec<TypeDesc>),
    /// A reference to a named composite type in the registry.
    Named(usize),
}

/// A named struct field.
pub struct FieldDef {
    pub name: String,
    pub ty: TypeDesc,
}

/// One variant of a tagged union; the wire discriminant is the variant's
/// 0-based position in the union's variant list.
///
/// A variant with exactly one descriptor in `tys` packs that field's
/// encoding directly as its payload.  A variant whose single field should
/// travel as a one-element tuple instead (a struct-like variant with one
/// named field) is modeled with `tys = [Tuple([...])]`: the two layouts
/// differ when the field is variable-size.
pub struct VariantDef {
    pub name: String,
    pub tys: Vec<TypeDesc>,
}

/// The shape of a registry entry.
pub enum Shape {
    /// An ordered list of named fields.  A frozen struct
    /// (`definition_will_not_change`) omits the 2-byte heap-size prefix.
    Struct { fields: Vec<FieldDef>, frozen: bool, custom_json: bool },
    /// A tagged union with one byte of discriminant on the wire.
    Union { variants: Vec<VariantDef> },
    /// A transparent rename of another type.
    Alias { inner: TypeDesc },
}

/// A named composite type with its stored wire metadata.
pub struct NamedDef {
    pub name: String,
    pub shape: Shape,
    /// Whether instances may need heap space (`VARIABLE_SIZE`).
    pub variable: bool,
    /// For a struct: the byte length of its fixed region; for an alias: the
    /// inline footprint of the renamed type; 0 for a union.
    pub fixed: u16,
}

/// The set of named composite types a descriptor may refer to.
pub struct Registry {
    pub defs: Vec<NamedDef>,
}

impl View for Registry {
    type V = Seq<NamedDef>;

    open spec fn view(&self) -> Seq<NamedDef> {
        self.defs@
    }
}

/// Whether instances of `t` may need heap space when embedded in a
/// composite value (`VARIABLE_SIZE` of the type).
pub open spec fn svar(rs: Seq<NamedDef>, t: TypeDesc) -> bool
    decreases t, 0int, 0int,
{
    match t {
        TypeDesc::Bool => false,
        TypeDesc::U8 => false,
        TypeDesc::U16 => false,
        TypeDesc::U32 => false,
        TypeDesc::U64 => false,
        TypeDesc::I32 => false,
        TypeDesc::I64 => false,
        TypeDesc::Str => true,
        TypeDesc::Vector(_) => true,
        TypeDesc::Optional(_) => true,
        TypeDesc::Array(inner, _) => svar(rs, *inner),
        TypeDesc::Tuple(items) => svar_any(rs, items@, 0),
        TypeDesc::Named(i) => 0 <= i < rs.len() && rs[i as int].variable,
    }
}

/// Whether any descriptor in `ts[k..]` is variable-size.
pub open spec fn svar_any(rs: Seq<NamedDef>, ts: Seq<TypeDesc>, k: int) -> bool
    decreases ts, 1int, ts.len() - k,
{
    if k < 0 || k >= ts.len() {
        false
    } else {
        svar(rs, ts[k]) || svar_any(rs, ts, k + 1)
    }
}

/// The inline footprint of `t` in a composite value's fixed region
/// (`FIXED_SIZE` of the type): 4 bytes of relative offset for a
/// variable-size type, the full inline encoding otherwise.
pub open spec fn sfixed(rs: Seq<NamedDef>, t: TypeDesc) -> int
    decreases t, 0int, 0int,
{
    match t {
        TypeDesc::Bool => 1,
        TypeDesc::U8 => 1,
        TypeDesc::U16 => 2,
        TypeDesc::U32 => 4,
        TypeDesc::U64 => 8,
        TypeDesc::I32 => 4,
        TypeDesc::I64 => 8,
        TypeDesc::Str => 4,
        TypeDesc::Vector(_) => 4,
        TypeDesc::Optional(_) => 4,
        TypeDesc::Array(inner, n) => if svar(rs, *inner) {
            4
        } else {
            n * sfixed(rs, *inner)
        },
        TypeDesc::Tuple(items) => if svar_any(rs, items@, 0) {
            4
        } else {
            fsum(rs, items@, 0)
        },
        TypeDesc::Named(i) => if 0 <= i < rs.len() {
            if rs[i as int].variable {
                4
            } else {
                rs[i as int].fixed as int
            }
        } else {
            0
        },
    }
}

/// The total fixed-region footprint of the descriptors `ts[k..]`.
pub open spec fn fsum(rs: Seq<NamedDef>, ts: Seq<TypeDesc>, k: int) -> int
    decreases ts, 1int, ts.len() - k,
{
    if k < 0 || k >= ts.len() {
        0
    } else {
        sfixed(rs, ts[k]) + fsum(rs, ts, k + 1)
    }
}

/// Well-formedness of a descriptor.  `b` bounds the entries that may be
/// referred to from an inline position (a position decoded at the same
/// buffer offset as `t` itself); positions behind a length prefix or an
/// offset may refer to any entry.
pub open spec fn wf_ty(rs: Seq<NamedDef>, b: int, t: TypeDesc) -> bool
    decreases t, 0int, 0int,
{
    match t {
        TypeDesc::Bool => true,
        TypeDesc::U8 => true,
        TypeDesc::U16 => true,
        TypeDesc::U32 => true,
        TypeDesc::U64 => true,
        TypeDesc::I32 => true,
        TypeDesc::I64 => true,
        TypeDesc::Str => true,
        TypeDesc::Vector(inner) => wf_ty(rs, rs.len() as int, *inner),
        TypeDesc::Optional(inner) => wf_ty(rs, rs.len() as int, *inner),
        TypeDesc::Array(inner, n) => wf_ty(rs, b, *inner) && (svar(rs, *inner) || n * sfixed(
            rs,
            *inner,
        ) <= 0xFFFF),
        TypeDesc::Tuple(items) => wf_tys(rs, b, items@, 0) && fsum(rs, items@, 0) <= 0xFFFF,
        TypeDesc::Named(i) => 0 <= i < b && i < rs.len(),
    }
}

/// Well-formedness of every descriptor in `ts[k..]` under inline bound `b`.
pub open spec fn wf_tys(rs: Seq<NamedDef>, b: int, ts: Seq<TypeDesc>, k: int) -> bool
    decreases ts, 1int, ts.len() - k,
{
    if k < 0 || k >= ts.len() {
        true
    } else {
        wf_ty(rs, b, ts[k]) && wf_tys(rs, b, ts, k + 1)
    }
}

/// The field descriptors of a struct's field list, in declaration order.
pub open spec fn struct_tys(fields: Seq<FieldDef>) -> Seq<TypeDesc> {
    fields.map_values(|f: FieldDef| f.ty)
}

/// Well-formedness of one union variant: at least one field, all fields
/// well-formed, and a fixed region that fits the format's 16-bit bound.
pub open spec fn wf_variant(rs: Seq<NamedDef>, v: VariantDef) -> bool {
    &&& v.tys.len() >= 1
    &&& wf_tys(rs, rs.len() as int, v.tys@, 0)
    &&& fsum(rs, v.tys@, 0) <= 0xFFFF
}

/// Well-formedness of registry entry `i`: shape-specific descriptor
/// well-formedness (inline references only to earlier entries), and stored
/// metadata consistent with the shape.
pub open spec fn wf_def(rs: Seq<NamedDef>, i: int) -> bool {
    match rs[i].shape {
        Shape::Struct { fields, frozen, .. } => {
            let ts = struct_tys(fields@);
            &&& wf_tys(rs, if frozen { i } else { rs.len() as int }, ts, 0)
            &&& fsum(rs, ts, 0) <= 0xFFFF
            &&& rs[i].fixed == fsum(rs, ts, 0)
            &&& rs[i].variable == (!frozen || svar_any(rs, ts, 0))
        },
        Shape::Union { variants } => {
            &&& variants.len() <= 255
            &&& forall|k: int| 0 <= k < variants.len() ==> wf_variant(rs, variants[k])
            &&& rs[i].variable == true
            &&& rs[i].fixed == 0
        },
        Shape::Alias { inner } => {
            &&& wf_ty(rs, i, inner)
            &&& rs[i].variable == svar(rs, inner)
            &&& rs[i].fixed == sfixed(rs, inner)
        },
    }
}

/// Well-formedness of a whole registry.
pub open spec fn wf_reg(rs: Seq<NamedDef>) -> bool {
    forall|i: int| 0 <= i < rs.len() ==> #[trigger] wf_def(rs, i)
}

/// A descriptor that is well-formed as a root type over a registry.
pub open spec fn wf_root(rs: Seq<NamedDef>, t: TypeDesc) -> bool {
    wf_ty(rs, rs.len() as int, t)
}

/// Fixed footprints are non-negative.
pub proof fn lemma_sfixed_nonneg(rs: Seq<NamedDef>, t: TypeDesc)
    ensures
        sfixed(rs, t) >= 0,
    decreases t, 0int, 0int,
{
    match t {
        TypeDesc::Array(inner, n) => {
            lemma_sfixed_nonneg(rs, *inner);
        },
        TypeDesc::Tuple(items) => {
            lemma_fsum_nonneg(rs, items@, 0);
        },
        _ => {},
    }
}

/// Sums of fixed footprints are non-negative.
pub proof fn lemma_fsum_nonneg(rs: Seq<NamedDef>, ts: Seq<TypeDesc>, k: int)
    ensures
        fsum(rs, ts, k) >= 0,
    decreases ts, 1int, ts.len() - k,
{
    if 0 <= k < ts.len() {
        lemma_sfixed_nonneg(rs, ts[k]);
        lemma_fsum_nonneg(rs, ts, k + 1);
    }
}

/// Under well-formedness, every inline footprint fits the 16-bit bound.
pub proof fn lemma_sfixed_bound(rs: Seq<NamedDef>, b: int, t: TypeDesc)
    requires
        wf_ty(rs, b, t),
    ensures
        0 <= sfixed(rs, t) <= 0xFFFF,
    decreases t, 0int, 0int,
{
    lemma_sfixed_nonneg(rs, t);
    match t {
        TypeDesc::Array(inner, n) => {
            lemma_sfixed_nonneg(rs, *inner);
        },
        _ => {},
    }
}

/// A descriptor well-formed under an inline bound stays well-formed under
/// any larger bound.
pub proof fn lemma_wf_ty_widen(rs: Seq<NamedDef>, b1: int, b2: int, t: TypeDesc)
    requires
        wf_ty(rs, b1, t),
        b1 <= b2,
    ensures
        wf_ty(rs, b2, t),
    decreases t, 0int, 0int,
{
    match t {
        TypeDesc::Array(inner, n) => {
            lemma_wf_ty_widen(rs, b1, b2, *inner);
        },
        TypeDesc::Tuple(items) => {
            lemma_wf_tys_widen(rs, b1, b2, items@, 0);
        },
        _ => {},
    }
}

/// Sequence form of [`lemma_wf_ty_widen`].
pub proof fn lemma_wf_tys_widen(rs: Seq<NamedDef>, b1: int, b2: int, ts: Seq<TypeDesc>, k: int)
    requires
        wf_tys(rs, b1, ts, k),
        b1 <= b2,
    ensures
        wf_tys(rs, b2, ts, k),
    decreases ts, 1int, ts.len() - k,
{
    if 0 <= k < ts.len() {
        lemma_wf_ty_widen(rs, b1, b2, ts[k]);
        lemma_wf_tys_widen(rs, b1, b2, ts, k + 1);
    }
}

impl Registry {
    /// An empty registry: descriptors built purely from builtins and
    /// containers need no named entries.
    pub fn new() -> (r: Registry)
        ensures
            r@ =~= Seq::<NamedDef>::empty(),
            wf_reg(r@),
    {
        Registry { defs: Vec::new() }
    }
}

/// Executable mirror of [`svar`].
pub fn var_of(reg: &Registry, t: &TypeDesc) -> (r: bool)
    ensures
        r == svar(reg@, *t),
    decreases *t, 0int, 0int,
{
    match t {
        TypeDesc::Bool => false,
        TypeDesc::U8 => false,
        TypeDesc::U16 => false,
        TypeDesc::U32 => false,
        TypeDesc::U64 => false,
        TypeDesc::I32 => false,
        TypeDesc::I64 => false,
        TypeDesc::Str => true,
        TypeDesc::Vector(_) => true,
        TypeDesc::Optional(_) => true,
        TypeDesc::Array(inner, _) => var_of(reg, &**inner),
        TypeDesc::Tuple(items) => var_any_of(reg, items, 0),
        TypeDesc::Named(i) => {
            if *i < reg.defs.len() {
                reg.defs[*i].variable
            } else {
                false
            }
        },
    }
}

/// Executable mirror of [`svar_any`].
pub fn var_any_of(reg: &Registry, ts: &Vec<TypeDesc>, k: usize) -> (r: bool)
    requires
        k <= ts.len(),
    ensures
        r == svar_any(reg@, ts@, k as int),
    decreases ts@, 1int, ts@.len() - k,
{
    if k >= ts.len() {
        false
    } else {
        if var_of(reg, &ts[k]) {
            true
        } else {
            var_any_of(reg, ts, k + 1)
        }
    }
}

/// Executable mirror of [`sfixed`].
pub fn fixed_of(reg: &Registry, t: &TypeDesc) -> (r: u16)
    requires
        wf_ty(reg@, reg@.len() as int, *t),
    ensures
        r as int == sfixed(reg@, *t),
    decreases *t, 0int, 0int,
{
    match t {
        TypeDesc::Bool => 1,
        TypeDesc::U8 => 1,
        TypeDesc::U16 => 2,
        TypeDesc::U32 => 4,
        TypeDesc::U64 => 8,
        TypeDesc::I32 => 4,
        TypeDesc::I64 => 8,
        TypeDesc::Str => 4,
        TypeDesc::Vector(_) => 4,
        TypeDesc::Optional(_) => 4,
        TypeDesc::Array(inner, n) => {
            if var_of(reg, &**inner) {
                4
            } else {
                proof {
                    lemma_sfixed_nonneg(reg@, **inner);
                }
                let e = fixed_of(reg, &**inner);
                (*n as u64 * e as u64) as u16
            }
        },
        TypeDesc::Tuple(items) => {
            if var_any_of(reg, items, 0) {
                4
            } else {
                fsum_of(reg, items, 0)
            }
        },
        TypeDesc::Named(i) => {
            let d = &reg.defs[*i];
            if d.variable {
                4
            } else {
                d.fixed
            }
        },
    }
}

/// Executable mirror of [`fsum`]; requires the sum to fit the 16-bit bound.
pub fn fsum_of(reg: &Registry, ts: &Vec<TypeDesc>, k: usize) -> (r: u16)
    requires
        wf_tys(reg@, reg@.len() as int, ts@, k as int),
        k <= ts.len(),
        fsum(reg@, ts@, k as int) <= 0xFFFF,
    ensures
        r as int == fsum(reg@, ts@, k as int),
    decreases ts@, 1int, ts@.len() - k,
{
    if k >= ts.len() {
        0
    } else {
        proof {
            lemma_sfixed_nonneg(reg@, ts@[k as int]);
            lemma_fsum_nonneg(reg@, ts@, k as int + 1);
        }
        let e = fixed_of(reg, &ts[k]);
        let rest = fsum_of(reg, ts, k + 1);
        e + rest
    }
}

/// The descriptor behind any chain of named aliases: what a field of type
/// `t` embeds as.  `b` bounds the alias entries the chain may pass, as in
/// [`wf_ty`]; a reference the bound refuses resolves to itself.
pub open spec fn chase(rs: Seq<NamedDef>, t: TypeDesc, b: int) -> TypeDesc
    decreases b, t,
{
    match t {
        TypeDesc::Named(i) => if 0 <= i < b && i < rs.len() {
            match rs[i as int].shape {
                Shape::Alias { inner } => chase(rs, inner, i as int),
                _ => t,
            }
        } else {
            t
        },
        _ => t,
    }
}

/// Executable mirror of [`chase`].
pub fn chase_of<'a>(reg: &'a Registry, t: &'a TypeDesc, b: Ghost<int>) -> (r: &'a TypeDesc)
    requires
        wf_reg(reg@),
        wf_ty(reg@, b@, *t),
        b@ <= reg@.len(),
    ensures
        *r == chase(reg@, *t, b@),
        wf_ty(reg@, b@, *r),
    decreases b@, *t,
{
    match t {
        TypeDesc::Named(i) => {
            proof {
                assert(wf_def(reg@, *i as int));
            }
            let d = &reg.defs[*i];
            match &d.shape {
                Shape::Alias { inner } => {
                    let r = chase_of(reg, inner, Ghost(*i as int));
                    proof {
                        lemma_wf_ty_widen(reg@, *i as int, b@, *r);
                    }
                    r
                },
                _ => t,
            }
        },
        _ => t,
    }
}

/// The structural size of a descriptor tree, used as a termination measure
/// by the schema builder.
pub open spec fn dsize(t: TypeDesc) -> nat
    decreases t, 0int,
{
    match t {
        TypeDesc::Vector(inner) => 1 + dsize(*inner),
        TypeDesc::Optional(inner) => 1 + dsize(*inner),
        TypeDesc::Array(inner, _) => 1 + dsize(*inner),
        TypeDesc::Tuple(items) => 1 + dsize_seq(items@, 0),
        _ => 1,
    }
}

/// The structural size of the descriptors `ts[k..]`, each counted with one
/// extra unit so the sum strictly shrinks as `k` grows.
pub open spec fn dsize_seq(ts: Seq<TypeDesc>, k: int) -> nat
    decreases ts, 1int, ts.len() - k,
{
    if k < 0 || k >= ts.len() {
        0
    } else {
        1 + dsize(ts[k]) + dsize_seq(ts, k + 1)
    }
}

/// The structural size of the struct field lists `fs[k..]`.
pub open spec fn dsize_fields(fs: Seq<FieldDef>, k: int) -> nat
    decreases fs.len() - k,
{
    if k < 0 || k >= fs.len() {
        0
    } else {
        1 + dsize(fs[k].ty) + dsize_fields(fs, k + 1)
    }
}

/// The structural size of the variant field lists `vs[k..]`.
pub open spec fn dsize_vars(vs: Seq<VariantDef>, k: int) -> nat
    decreases vs.len() - k,
{
    if k < 0 || k >= vs.len() {
        0
    } else {
        1 + dsize_seq(vs[k].tys@, 0) + dsize_vars(vs, k + 1)
    }
}

/// The number of `false` entries in `s[k..]`: the unvisited count of the
/// schema builder's cache.
pub open spec fn cfalse(s: Seq<bool>, k: int) -> int
    decreases s.len() - k,
{
    if k < 0 || k >= s.len() {
        0
    } else {
        (if s[k] {
            0int
        } else {
            1int
        }) + cfalse(s, k + 1)
    }
}

/// Unvisited counts are non-negative.
pub proof fn lemma_cfalse_nonneg(s: Seq<bool>, k: int)
    ensures
        cfalse(s, k) >= 0,
    decreases s.len() - k,
{
    if 0 <= k < s.len() {
        lemma_cfalse_nonneg(s, k + 1);
    }
}

/// Marking one unvisited entry decreases the unvisited count by one.
pub proof fn lemma_cfalse_update(s: Seq<bool>, i: int, k: int)
    requires
        0 <= i < s.len(),
        !s[i],
        0 <= k <= s.len(),
    ensures
        cfalse(s.update(i, true), k) == cfalse(s, k) - (if k <= i {
            1int
        } else {
            0int
        }),
    decreases s.len() - k,
{
    if k < s.len() {
        lemma_cfalse_update(s, i, k + 1);
        assert(s.update(i, true).len() == s.len());
        if k != i {
            assert(s.update(i, true)[k] == s[k]);
        }
    }
}


/// The fixed footprint of `t`, clamped just above the format's 16-bit
/// bound: the exact value when it is small enough to matter, the sentinel
/// `0x1_0000` otherwise.
pub open spec fn sfixed_cap(rs: Seq<NamedDef>, t: TypeDesc) -> int {
    if sfixed(rs, t) <= 0x1_0000 {
        sfixed(rs, t)
    } else {
        0x1_0000
    }
}

/// The total fixed footprint of `ts[k..]`, clamped as [`sfixed_cap`].
pub open spec fn fsum_cap_s(rs: Seq<NamedDef>, ts: Seq<TypeDesc>, k: int) -> int {
    if fsum(rs, ts, k) <= 0x1_0000 {
        fsum(rs, ts, k)
    } else {
        0x1_0000
    }
}

/// Executable mirror of [`sfixed_cap`]: needs no well-formedness, so it can
/// serve validation itself.
fn fixed_cap(reg: &Registry, t: &TypeDesc) -> (r: u64)
    ensures
        r == sfixed_cap(reg@, *t),
    decreases *t, 0int, 0int,
{
    let ghost rs = reg@;
    match t {
        TypeDesc::Bool => 1,
        TypeDesc::U8 => 1,
        TypeDesc::U16 => 2,
        TypeDesc::U32 => 4,
        TypeDesc::U64 => 8,
        TypeDesc::I32 => 4,
        TypeDesc::I64 => 8,
        TypeDesc::Str => 4,
        TypeDesc::Vector(_) => 4,
        TypeDesc::Optional(_) => 4,
        TypeDesc::Array(inner, n) => {
            if var_of(reg, &**inner) {
                4
            } else {
                let e = fixed_cap(reg, &**inner);
                proof {
                    lemma_sfixed_nonneg(rs, **inner);
                    let x = sfixed(rs, **inner);
                    if x > 0x1_0000 && *n as int >= 1 {
                        assert((*n as int) * x >= x) by (nonlinear_arith)
                            requires
                                *n as int >= 1,
                                x >= 0,
                        ;
                        assert((*n as int) * 0x1_0000 >= 0x1_0000) by (nonlinear_arith)
                            requires
                                *n as int >= 1,
                        ;
                    }
                    if *n == 0 {
                        assert((*n as int) * x == 0) by (nonlinear_arith)
                            requires
                                *n as int == 0,
                        ;
                        assert((*n as int) * (e as int) == 0) by (nonlinear_arith)
                            requires
                                *n as int == 0,
                        ;
                    }
                }
                proof {
                    assert((*n as int) * (e as int) <= 0xFFFF_FFFFi64 * 0x1_0000i64)
                        by (nonlinear_arith)
                        requires
                            0 <= *n <= 0xFFFF_FFFF,
                            0 <= e <= 0x1_0000,
                    ;
                }
                let p: u64 = (*n as u64) * e;
                if p > 0x1_0000 {
                    0x1_0000
                } else {
                    p
                }
            }
        },
        TypeDesc::Tuple(items) => {
            if var_any_of(reg, items, 0) {
                4
            } else {
                fsum_cap(reg, items, 0)
            }
        },
        TypeDesc::Named(i) => {
            if *i < reg.defs.len() {
                let d = &reg.defs[*i];
                if d.variable {
                    4
                } else {
                    d.fixed as u64
                }
            } else {
                0
            }
        },
    }
}

/// Executable mirror of [`fsum_cap_s`].
fn fsum_cap(reg: &Registry, ts: &Vec<TypeDesc>, k: usize) -> (r: u64)
    requires
        k <= ts.len(),
    ensures
        r == fsum_cap_s(reg@, ts@, k as int),
    decreases ts@, 1int, ts@.len() - k,
{
    if k >= ts.len() {
        0
    } else {
        let e = fixed_cap(reg, &ts[k]);
        let rest = fsum_cap(reg, ts, k + 1);
        proof {
            lemma_sfixed_nonneg(reg@, ts@[k as int]);
            lemma_fsum_nonneg(reg@, ts@, k as int + 1);
        }
        let sum: u64 = e + rest;
        if sum > 0x1_0000 {
            0x1_0000
        } else {
            sum
        }
    }
}

/// Executable mirror of [`fsum_cap_s`] over a struct's field list.
fn fsum_fields_cap(reg: &Registry, fields: &Vec<FieldDef>, k: usize) -> (r: u64)
    requires
        k <= fields.len(),
    ensures
        r == fsum_cap_s(reg@, struct_tys(fields@), k as int),
    decreases fields@.len() - k,
{
    let ghost gts = struct_tys(fields@);
    if k >= fields.len() {
        0
    } else {
        proof {
            assert(gts[k as int] == fields@[k as int].ty);
        }
        let e = fixed_cap(reg, &fields[k].ty);
        let rest = fsum_fields_cap(reg, fields, k + 1);
        proof {
            lemma_sfixed_nonneg(reg@, gts[k as int]);
            lemma_fsum_nonneg(reg@, gts, k as int + 1);
        }
        let sum: u64 = e + rest;
        if sum > 0x1_0000 {
            0x1_0000
        } else {
            sum
        }
    }
}

/// Whether any field of `fields[k..]` is variable-size.
fn var_any_fields(reg: &Registry, fields: &Vec<FieldDef>, k: usize) -> (r: bool)
    requires
        k <= fields.len(),
    ensures
        r == svar_any(reg@, struct_tys(fields@), k as int),
    decreases fields@.len() - k,
{
    let ghost gts = struct_tys(fields@);
    if k >= fields.len() {
        false
    } else {
        proof {
            assert(gts[k as int] == fields@[k as int].ty);
        }
        if var_of(reg, &fields[k].ty) {
            true
        } else {
            var_any_fields(reg, fields, k + 1)
        }
    }
}

/// Executable mirror of [`wf_ty`]: needs no well-formedness itself.
fn check_ty(reg: &Registry, b: usize, t: &TypeDesc) -> (r: bool)
    ensures
        r == wf_ty(reg@, b as int, *t),
    decreases *t, 0int, 0int,
{
    let ghost rs = reg@;
    match t {
        TypeDesc::Bool => true,
        TypeDesc::U8 => true,
        TypeDesc::U16 => true,
        TypeDesc::U32 => true,
        TypeDesc::U64 => true,
        TypeDesc::I32 => true,
        TypeDesc::I64 => true,
        TypeDesc::Str => true,
        TypeDesc::Vector(inner) => check_ty(reg, reg.defs.len(), &**inner),
        TypeDesc::Optional(inner) => check_ty(reg, reg.defs.len(), &**inner),
        TypeDesc::Array(inner, n) => {
            if !check_ty(reg, b, &**inner) {
                false
            } else if var_of(reg, &**inner) {
                true
            } else {
                let e = fixed_cap(reg, &**inner);
                proof {
                    lemma_sfixed_nonneg(rs, **inner);
                    let x = sfixed(rs, **inner);
                    if x > 0x1_0000 && *n as int >= 1 {
                        assert((*n as int) * x >= x) by (nonlinear_arith)
                            requires
                                *n as int >= 1,
                                x >= 0,
                        ;
                        assert((*n as int) * 0x1_0000 >= 0x1_0000) by (nonlinear_arith)
                            requires
                                *n as int >= 1,
                        ;
                    }
                    if *n == 0 {
                        assert((*n as int) * x == 0) by (nonlinear_arith)
                            requires
                                *n as int == 0,
                        ;
                        assert((*n as int) * (e as int) == 0) by (nonlinear_arith)
                            requires
                                *n as int == 0,
                        ;
                    }
                }
                proof {
                    assert((*n as int) * (e as int) <= 0xFFFF_FFFFi64 * 0x1_0000i64)
                        by (nonlinear_arith)
                        requires
                            0 <= *n <= 0xFFFF_FFFF,
                            0 <= e <= 0x1_0000,
                    ;
                }
                let p: u64 = (*n as u64) * e;
                p <= 0xFFFF
            }
        },
        TypeDesc::Tuple(items) => {
            if !check_tys(reg, b, items, 0) {
                false
            } else {
                let fs = fsum_cap(reg, items, 0);
                fs <= 0xFFFF
            }
        },
        TypeDesc::Named(i) => *i < b && *i < reg.defs.len(),
    }
}

/// Executable mirror of [`wf_tys`].
fn check_tys(reg: &Registry, b: usize, ts: &Vec<TypeDesc>, k: usize) -> (r: bool)
    requires
        k <= ts.len(),
    ensures
        r == wf_tys(reg@, b as int, ts@, k as int),
    decreases ts@, 1int, ts@.len() - k,
{
    if k >= ts.len() {
        true
    } else {
        check_ty(reg, b, &ts[k]) && check_tys(reg, b, ts, k + 1)
    }
}

/// Executable mirror of [`wf_tys`] over a struct's field list.
fn check_fields(reg: &Registry, b: usize, fields: &Vec<FieldDef>, k: usize) -> (r: bool)
    requires
        k <= fields.len(),
    ensures
        r == wf_tys(reg@, b as int, struct_tys(fields@), k as int),
    decreases fields@.len() - k,
{
    let ghost gts = struct_tys(fields@);
    if k >= fields.len() {
        true
    } else {
        proof {
            assert(gts[k as int] == fields@[k as int].ty);
        }
        check_ty(reg, b, &fields[k].ty) && check_fields(reg, b, fields, k + 1)
    }
}

/// Whether every variant of `variants[k..]` is well-formed.
fn check_variants(reg: &Registry, variants: &Vec<VariantDef>, k: usize) -> (r: bool)
    requires
        k <= variants.len(),
    ensures
        r == (forall|j: int|
            k <= j < variants@.len() ==> #[trigger] wf_variant(reg@, variants@[j])),
    decreases variants@.len() - k,
{
    if k >= variants.len() {
        true
    } else {
        let var = &variants[k];
        let head = var.tys.len() >= 1 && check_tys(reg, reg.defs.len(), &var.tys, 0) && {
            let fs = fsum_cap(reg, &var.tys, 0);
            fs <= 0xFFFF
        };
        proof {
            lemma_fsum_nonneg(reg@, variants@[k as int].tys@, 0);
            assert(head == wf_variant(reg@, variants@[k as int]));
        }
        if !head {
            false
        } else {
            let rest = check_variants(reg, variants, k + 1);
            proof {
                if rest {
                    assert forall|j: int|
                        k <= j < variants@.len() implies #[trigger] wf_variant(
                        reg@,
                        variants@[j],
                    ) by {
                        if j == k {
                        } else {
                            assert(k as int + 1 <= j < variants@.len());
                        }
                    }
                }
            }
            rest
        }
    }
}

/// Executable mirror of [`wf_def`] for entry `i`.
fn check_def(reg: &Registry, i: usize) -> (r: bool)
    requires
        i < reg.defs.len(),
    ensures
        r == wf_def(reg@, i as int),
{
    let ghost rs = reg@;
    let d = &reg.defs[i];
    match &d.shape {
        Shape::Struct { fields, frozen, .. } => {
            let b = if *frozen {
                i
            } else {
                reg.defs.len()
            };
            if !check_fields(reg, b, fields, 0) {
                return false;
            }
            let fs = fsum_fields_cap(reg, fields, 0);
            proof {
                lemma_fsum_nonneg(rs, struct_tys(fields@), 0);
            }
            if fs > 0xFFFF {
                return false;
            }
            if d.fixed as u64 != fs {
                return false;
            }
            let anyvar = var_any_fields(reg, fields, 0);
            d.variable == (!*frozen || anyvar)
        },
        Shape::Union { variants } => {
            if variants.len() > 255 {
                return false;
            }
            if !check_variants(reg, variants, 0) {
                return false;
            }
            d.variable && d.fixed == 0
        },
        Shape::Alias { inner } => {
            if !check_ty(reg, i, inner) {
                return false;
            }
            let v = var_of(reg, inner);
            if d.variable != v {
                return false;
            }
            let fc = fixed_cap(reg, inner);
            proof {
                lemma_sfixed_nonneg(rs, *inner);
            }
            d.fixed as u64 == fc
        },
    }
}

impl Registry {
    /// Checks the whole registry's well-formedness, turning every violated
    /// constraint -- in particular a fixed region too large for the 16-bit
    /// heap-size prefix -- into the typed error `TooLarge` instead of an
    /// assertion or an unstated assumption.
    pub fn validate(&self) -> (r: Result<(), crate::codec::Error>)
        ensures
            r is Ok <==> wf_reg(self@),
            r is Err ==> r->Err_0 == crate::codec::Error::TooLarge,
    {
        let mut i: usize = 0;
        while i < self.defs.len()
            invariant
                i <= self.defs@.len(),
                forall|j: int| 0 <= j < i ==> #[trigger] wf_def(self@, j),
            decreases self.defs@.len() - i,
        {
            if !check_def(self, i) {
                return Err(crate::codec::Error::TooLarge);
            }
            i = i + 1;
        }
        Ok(())
    }
}

} // verus!
