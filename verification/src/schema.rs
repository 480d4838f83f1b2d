//! The schema document model and the schema builder.
//!
//! [`build_schema`] walks a root descriptor's type graph and emits a
//! [`Schema`]: a deduplicated, insertion-ordered list of named type
//! [`Definition`]s, each field typed by a [`TypeRef`].  A named type's
//! reference and cache entry are established before its fields are visited,
//! so a self-referential or mutually-referential type graph yields a finite
//! schema.  The reference produced for a descriptor is the pure function
//! [`gt_of`], so every visit of a type yields the same `TypeRef`.

use vstd::prelude::*;

use crate::desc::{FieldDef, NamedDef, Registry, Shape, TypeDesc, VariantDef, cfalse, dsize,
    dsize_fields, dsize_seq, dsize_vars, lemma_cfalse_nonneg, lemma_cfalse_update};

verus! {

/// A reference to a type in a schema document.
#[derive(Debug, PartialEq, Eq)]
#[allow(non_camel_case_types)]
pub enum TypeRef {
    builtinType(String),
    userType(String),
    vector(Box<TypeRef>),
    optional(Box<TypeRef>),
    tuple(Vec<TypeRef>),
    array(Box<TypeRef>, u32),
}

/// A named, typed member of a definition.
#[derive(Debug, PartialEq, Eq)]
pub struct Field {
    pub name: String,
    pub ty: TypeRef,
}

/// A method of an interface definition.
#[derive(Debug, PartialEq, Eq)]
pub struct Method {
    pub name: String,
    pub returns: TypeRef,
    pub args: Vec<Field>,
}

/// One named user type of a schema document.
#[derive(Debug, PartialEq, Eq)]
#[allow(non_snake_case)]
pub struct Definition {
    pub name: String,
    pub alias: Option<TypeRef>,
    pub structFields: Option<Vec<Field>>,
    pub unionFields: Option<Vec<Field>>,
    pub customJson: Option<bool>,
    pub definitionWillNotChange: Option<bool>,
    pub methods: Option<Vec<Method>>,
}

/// A schema document: the named user types of one type graph, in
/// registration order.
#[derive(Debug, PartialEq, Eq)]
#[allow(non_snake_case)]
pub struct Schema {
    pub userTypes: Vec<Definition>,
}

/// The mathematical mirror of [`TypeRef`].
pub enum GTypeRef {
    Builtin(Seq<char>),
    User(Seq<char>),
    Vector(Box<GTypeRef>),
    Optional(Box<GTypeRef>),
    Tuple(Seq<GTypeRef>),
    Array(Box<GTypeRef>, u32),
}

/// The mathematical value of a type reference.
pub open spec fn trview(r: TypeRef) -> GTypeRef
    decreases r, 0int,
{
    match r {
        TypeRef::builtinType(n) => GTypeRef::Builtin(n@),
        TypeRef::userType(n) => GTypeRef::User(n@),
        TypeRef::vector(inner) => GTypeRef::Vector(Box::new(trview(*inner))),
        TypeRef::optional(inner) => GTypeRef::Optional(Box::new(trview(*inner))),
        TypeRef::tuple(items) => GTypeRef::Tuple(trviews(items@)),
        TypeRef::array(inner, n) => GTypeRef::Array(Box::new(trview(*inner)), n),
    }
}

/// The mathematical values of a sequence of type references.
pub open spec fn trviews(s: Seq<TypeRef>) -> Seq<GTypeRef>
    decreases s, 1int,
{
    if s.len() == 0 {
        Seq::empty()
    } else {
        seq![trview(s[0])] + trviews(s.drop_first())
    }
}

impl View for TypeRef {
    type V = GTypeRef;

    open spec fn view(&self) -> GTypeRef {
        trview(*self)
    }
}

/// The wire name of a builtin descriptor; empty for non-builtins.
pub open spec fn builtin_name(t: TypeDesc) -> Seq<char> {
    match t {
        TypeDesc::Bool => "bool"@,
        TypeDesc::U8 => "u8"@,
        TypeDesc::U16 => "u16"@,
        TypeDesc::U32 => "u32"@,
        TypeDesc::U64 => "u64"@,
        TypeDesc::I32 => "i32"@,
        TypeDesc::I64 => "i64"@,
        TypeDesc::Str => "string"@,
        _ => Seq::empty(),
    }
}

/// The type reference a descriptor maps to: a pure function of the
/// descriptor and the registry's names, so a type visited twice always
/// yields the same reference.
pub open spec fn gt_of(rs: Seq<NamedDef>, t: TypeDesc) -> GTypeRef
    decreases t, 0int,
{
    match t {
        TypeDesc::Vector(inner) => GTypeRef::Vector(Box::new(gt_of(rs, *inner))),
        TypeDesc::Optional(inner) => GTypeRef::Optional(Box::new(gt_of(rs, *inner))),
        TypeDesc::Array(inner, n) => GTypeRef::Array(Box::new(gt_of(rs, *inner)), n),
        TypeDesc::Tuple(items) => GTypeRef::Tuple(gts_of(rs, items@, 0)),
        TypeDesc::Named(i) => if 0 <= i < rs.len() {
            GTypeRef::User(rs[i as int].name@)
        } else {
            GTypeRef::User(""@)
        },
        _ => GTypeRef::Builtin(builtin_name(t)),
    }
}

/// The type references of the descriptors `ts[k..]`.
pub open spec fn gts_of(rs: Seq<NamedDef>, ts: Seq<TypeDesc>, k: int) -> Seq<GTypeRef>
    decreases ts, 1int, ts.len() - k,
{
    if k < 0 || k >= ts.len() {
        Seq::empty()
    } else {
        seq![gt_of(rs, ts[k])] + gts_of(rs, ts, k + 1)
    }
}

/// Executable mirror of [`gt_of`]: the reference for one descriptor.
pub fn type_ref_of(reg: &Registry, t: &TypeDesc) -> (r: TypeRef)
    ensures
        r@ == gt_of(reg@, *t),
    decreases *t, 0int,
{
    match t {
        TypeDesc::Bool => TypeRef::builtinType(string_of("bool")),
        TypeDesc::U8 => TypeRef::builtinType(string_of("u8")),
        TypeDesc::U16 => TypeRef::builtinType(string_of("u16")),
        TypeDesc::U32 => TypeRef::builtinType(string_of("u32")),
        TypeDesc::U64 => TypeRef::builtinType(string_of("u64")),
        TypeDesc::I32 => TypeRef::builtinType(string_of("i32")),
        TypeDesc::I64 => TypeRef::builtinType(string_of("i64")),
        TypeDesc::Str => TypeRef::builtinType(string_of("string")),
        TypeDesc::Vector(inner) => TypeRef::vector(Box::new(type_ref_of(reg, &**inner))),
        TypeDesc::Optional(inner) => TypeRef::optional(Box::new(type_ref_of(reg, &**inner))),
        TypeDesc::Array(inner, n) => TypeRef::array(Box::new(type_ref_of(reg, &**inner)), *n),
        TypeDesc::Tuple(items) => {
            let refs = type_refs_of(reg, items, 0);
            TypeRef::tuple(refs)
        },
        TypeDesc::Named(i) => {
            if *i < reg.defs.len() {
                TypeRef::userType(reg.defs[*i].name.clone())
            } else {
                TypeRef::userType(string_of(""))
            }
        },
    }
}

/// Executable mirror of [`gts_of`].
pub fn type_refs_of(reg: &Registry, ts: &Vec<TypeDesc>, k: usize) -> (r: Vec<TypeRef>)
    requires
        k <= ts.len(),
    ensures
        trviews(r@) == gts_of(reg@, ts@, k as int),
    decreases ts@, 1int, ts@.len() - k,
{
    if k >= ts.len() {
        let out: Vec<TypeRef> = Vec::new();
        proof {
            assert(trviews(out@) =~= gts_of(reg@, ts@, k as int));
        }
        out
    } else {
        let head = type_ref_of(reg, &ts[k]);
        let mut rest = type_refs_of(reg, ts, k + 1);
        let ghost tailseq = rest@;
        rest.insert(0, head);
        proof {
            assert(rest@.drop_first() =~= tailseq);
            assert(rest@[0] == head);
            assert(trviews(rest@) =~= seq![trview(head)] + trviews(tailseq));
            assert(trviews(rest@) =~= gts_of(reg@, ts@, k as int));
        }
        rest
    }
}


/// The mathematical mirror of [`Field`].
pub struct GField {
    pub name: Seq<char>,
    pub ty: GTypeRef,
}

/// The mathematical mirror of [`Method`].
pub struct GMethod {
    pub name: Seq<char>,
    pub returns: GTypeRef,
    pub args: Seq<GField>,
}

/// The mathematical mirror of [`Definition`].
pub struct GDef {
    pub name: Seq<char>,
    pub alias: Option<GTypeRef>,
    pub struct_fields: Option<Seq<GField>>,
    pub union_fields: Option<Seq<GField>>,
    pub custom_json: Option<bool>,
    pub definition_will_not_change: Option<bool>,
    pub methods: Option<Seq<GMethod>>,
}

/// The mathematical value of a schema field.
pub open spec fn fview(f: Field) -> GField {
    GField { name: f.name@, ty: trview(f.ty) }
}

/// The mathematical values of a sequence of schema fields.
pub open spec fn fviews(s: Seq<Field>) -> Seq<GField>
    decreases s,
{
    if s.len() == 0 {
        Seq::empty()
    } else {
        seq![fview(s[0])] + fviews(s.drop_first())
    }
}

/// The mathematical value of a method.
pub open spec fn mview(m: Method) -> GMethod {
    GMethod { name: m.name@, returns: trview(m.returns), args: fviews(m.args@) }
}

/// The mathematical values of a sequence of methods.
pub open spec fn mviews(s: Seq<Method>) -> Seq<GMethod>
    decreases s,
{
    if s.len() == 0 {
        Seq::empty()
    } else {
        seq![mview(s[0])] + mviews(s.drop_first())
    }
}

/// The mathematical value of a definition.
pub open spec fn dview(d: Definition) -> GDef {
    GDef {
        name: d.name@,
        alias: match d.alias {
            Option::None => Option::<GTypeRef>::None,
            Option::Some(r) => Option::Some(trview(r)),
        },
        struct_fields: match d.structFields {
            Option::None => Option::<Seq<GField>>::None,
            Option::Some(fs) => Option::Some(fviews(fs@)),
        },
        union_fields: match d.unionFields {
            Option::None => Option::<Seq<GField>>::None,
            Option::Some(fs) => Option::Some(fviews(fs@)),
        },
        custom_json: d.customJson,
        definition_will_not_change: d.definitionWillNotChange,
        methods: match d.methods {
            Option::None => Option::<Seq<GMethod>>::None,
            Option::Some(ms) => Option::Some(mviews(ms@)),
        },
    }
}

/// The mathematical values of a sequence of definitions.
pub open spec fn dviews(s: Seq<Definition>) -> Seq<GDef>
    decreases s,
{
    if s.len() == 0 {
        Seq::empty()
    } else {
        seq![dview(s[0])] + dviews(s.drop_first())
    }
}

impl View for Field {
    type V = GField;

    open spec fn view(&self) -> GField {
        fview(*self)
    }
}

impl View for Definition {
    type V = GDef;

    open spec fn view(&self) -> GDef {
        dview(*self)
    }
}

impl View for Schema {
    type V = Seq<GDef>;

    open spec fn view(&self) -> Seq<GDef> {
        dviews(self.userTypes@)
    }
}

/// Appending a definition appends its view.
pub proof fn lemma_dviews_push(s: Seq<Definition>, d: Definition)
    ensures
        dviews(s.push(d)) == dviews(s) + seq![dview(d)],
    decreases s,
{
    if s.len() == 0 {
        assert(s.push(d)[0] == d);
        assert(s.push(d).drop_first() =~= Seq::<Definition>::empty());
        assert(dviews(Seq::<Definition>::empty()) == Seq::<GDef>::empty());
        assert(dviews(s) == Seq::<GDef>::empty());
        assert(dviews(s.push(d)) == seq![dview(d)] + dviews(s.push(d).drop_first()));
        assert(dviews(s.push(d)) =~= dviews(s) + seq![dview(d)]);
    } else {
        assert(s.push(d)[0] == s[0]);
        assert(s.push(d).drop_first() =~= s.drop_first().push(d));
        lemma_dviews_push(s.drop_first(), d);
        assert(dviews(s.push(d)) =~= dviews(s) + seq![dview(d)]);
    }
}

/// The schema fields of the struct fields `fields[k..]`.
pub open spec fn gfields_of(rs: Seq<NamedDef>, fields: Seq<FieldDef>, k: int) -> Seq<GField>
    decreases fields.len() - k,
{
    if k < 0 || k >= fields.len() {
        Seq::empty()
    } else {
        seq![GField { name: fields[k].name@, ty: gt_of(rs, fields[k].ty) }] + gfields_of(
            rs,
            fields,
            k + 1,
        )
    }
}

/// The schema type of one union variant: a single field is referenced
/// directly, several fields as an unnamed tuple.
pub open spec fn gvariant_ty(rs: Seq<NamedDef>, tys: Seq<TypeDesc>) -> GTypeRef {
    if tys.len() == 1 {
        gt_of(rs, tys[0])
    } else {
        GTypeRef::Tuple(gts_of(rs, tys, 0))
    }
}

/// The schema fields of the union variants `variants[k..]`, one field per
/// variant in declaration order.
pub open spec fn gunion_fields(rs: Seq<NamedDef>, variants: Seq<VariantDef>, k: int) -> Seq<GField>
    decreases variants.len() - k,
{
    if k < 0 || k >= variants.len() {
        Seq::empty()
    } else {
        seq![GField { name: variants[k].name@, ty: gvariant_ty(rs, variants[k].tys@) }]
            + gunion_fields(rs, variants, k + 1)
    }
}

/// The definition the builder emits for registry entry `i`: the entry's
/// name with its fields, union variants or alias target, and the
/// `customJson` / `definitionWillNotChange` annotations of a struct.
pub open spec fn gdef_of(rs: Seq<NamedDef>, i: int) -> GDef {
    match rs[i].shape {
        Shape::Struct { fields, frozen, custom_json } => GDef {
            name: rs[i].name@,
            alias: Option::None,
            struct_fields: Option::Some(gfields_of(rs, fields@, 0)),
            union_fields: Option::None,
            custom_json: if custom_json {
                Option::Some(true)
            } else {
                Option::None
            },
            definition_will_not_change: if frozen {
                Option::Some(true)
            } else {
                Option::None
            },
            methods: Option::None,
        },
        Shape::Union { variants } => GDef {
            name: rs[i].name@,
            alias: Option::None,
            struct_fields: Option::None,
            union_fields: Option::Some(gunion_fields(rs, variants@, 0)),
            custom_json: Option::None,
            definition_will_not_change: Option::None,
            methods: Option::None,
        },
        Shape::Alias { inner } => GDef {
            name: rs[i].name@,
            alias: Option::Some(gt_of(rs, inner)),
            struct_fields: Option::None,
            union_fields: Option::None,
            custom_json: Option::None,
            definition_will_not_change: Option::None,
            methods: Option::None,
        },
    }
}

/// The definitions the builder emits while walking `t`, and the cache it
/// leaves behind.  An unvisited named type is marked before its fields are
/// walked (so a cycle resolves to the cached reference) and its definition
/// is appended after its dependencies' definitions.  `fuel` bounds the
/// entries that can still be marked; callers pass at least the number of
/// unvisited entries, so the bound is never the deciding guard.
pub open spec fn gwalk(rs: Seq<NamedDef>, t: TypeDesc, vis: Seq<bool>, fuel: int) -> (
    Seq<GDef>,
    Seq<bool>,
)
    decreases fuel, dsize(t), 0int,
{
    match t {
        TypeDesc::Vector(inner) => gwalk(rs, *inner, vis, fuel),
        TypeDesc::Optional(inner) => gwalk(rs, *inner, vis, fuel),
        TypeDesc::Array(inner, _) => gwalk(rs, *inner, vis, fuel),
        TypeDesc::Tuple(items) => gwalk_tys(rs, items@, 0, vis, fuel),
        TypeDesc::Named(i) => if 0 <= i < rs.len() && i < vis.len() && !vis[i as int] && fuel > 0 {
            let vis1 = vis.update(i as int, true);
            let sub = match rs[i as int].shape {
                Shape::Struct { fields, .. } => gwalk_fields(rs, fields@, 0, vis1, fuel - 1),
                Shape::Union { variants } => gwalk_vars(rs, variants@, 0, vis1, fuel - 1),
                Shape::Alias { inner } => gwalk(rs, inner, vis1, fuel - 1),
            };
            (sub.0 + seq![gdef_of(rs, i as int)], sub.1)
        } else {
            (Seq::empty(), vis)
        },
        _ => (Seq::empty(), vis),
    }
}

/// [`gwalk`] over the descriptors `ts[k..]`, threading the cache.
pub open spec fn gwalk_tys(
    rs: Seq<NamedDef>,
    ts: Seq<TypeDesc>,
    k: int,
    vis: Seq<bool>,
    fuel: int,
) -> (Seq<GDef>, Seq<bool>)
    decreases fuel, dsize_seq(ts, k), 1int,
{
    if k < 0 || k >= ts.len() {
        (Seq::empty(), vis)
    } else {
        let one = gwalk(rs, ts[k], vis, fuel);
        let rest = gwalk_tys(rs, ts, k + 1, one.1, fuel);
        (one.0 + rest.0, rest.1)
    }
}

/// [`gwalk`] over the struct fields `fields[k..]`.
pub open spec fn gwalk_fields(
    rs: Seq<NamedDef>,
    fields: Seq<FieldDef>,
    k: int,
    vis: Seq<bool>,
    fuel: int,
) -> (Seq<GDef>, Seq<bool>)
    decreases fuel, dsize_fields(fields, k), 2int,
{
    if k < 0 || k >= fields.len() {
        (Seq::empty(), vis)
    } else {
        let one = gwalk(rs, fields[k].ty, vis, fuel);
        let rest = gwalk_fields(rs, fields, k + 1, one.1, fuel);
        (one.0 + rest.0, rest.1)
    }
}

/// [`gwalk`] over the variant field lists `variants[k..]`.
pub open spec fn gwalk_vars(
    rs: Seq<NamedDef>,
    variants: Seq<VariantDef>,
    k: int,
    vis: Seq<bool>,
    fuel: int,
) -> (Seq<GDef>, Seq<bool>)
    decreases fuel, dsize_vars(variants, k), 2int,
{
    if k < 0 || k >= variants.len() {
        (Seq::empty(), vis)
    } else {
        let one = gwalk_tys(rs, variants[k].tys@, 0, vis, fuel);
        let rest = gwalk_vars(rs, variants, k + 1, one.1, fuel);
        (one.0 + rest.0, rest.1)
    }
}

/// The definition list of the schema of the type graph rooted at `t`: what
/// [`build_schema`] emits.
pub open spec fn gdefs(rs: Seq<NamedDef>, t: TypeDesc) -> Seq<GDef> {
    gwalk(rs, t, Seq::new(rs.len(), |j: int| false), rs.len() as int).0
}

/// Builds the schema fields of the struct fields `fields[k..]`.
fn make_fields(reg: &Registry, fields: &Vec<FieldDef>, k: usize) -> (r: Vec<Field>)
    requires
        k <= fields.len(),
    ensures
        fviews(r@) == gfields_of(reg@, fields@, k as int),
    decreases fields@.len() - k,
{
    if k >= fields.len() {
        let out: Vec<Field> = Vec::new();
        proof {
            assert(fviews(out@) =~= gfields_of(reg@, fields@, k as int));
        }
        out
    } else {
        let head = Field { name: fields[k].name.clone(), ty: type_ref_of(reg, &fields[k].ty) };
        let mut rest = make_fields(reg, fields, k + 1);
        let ghost tailseq = rest@;
        rest.insert(0, head);
        proof {
            assert(rest@.drop_first() =~= tailseq);
            assert(rest@[0] == head);
            assert(fviews(rest@) =~= seq![fview(head)] + fviews(tailseq));
            assert(fviews(rest@) =~= gfields_of(reg@, fields@, k as int));
        }
        rest
    }
}

/// Builds the schema fields of the union variants `variants[k..]`.
fn make_union_fields(reg: &Registry, variants: &Vec<VariantDef>, k: usize) -> (r: Vec<Field>)
    requires
        k <= variants.len(),
    ensures
        fviews(r@) == gunion_fields(reg@, variants@, k as int),
    decreases variants@.len() - k,
{
    if k >= variants.len() {
        let out: Vec<Field> = Vec::new();
        proof {
            assert(fviews(out@) =~= gunion_fields(reg@, variants@, k as int));
        }
        out
    } else {
        let var = &variants[k];
        let ty = if var.tys.len() == 1 {
            type_ref_of(reg, &var.tys[0])
        } else {
            TypeRef::tuple(type_refs_of(reg, &var.tys, 0))
        };
        let head = Field { name: var.name.clone(), ty };
        proof {
            assert(fview(head).ty == gvariant_ty(reg@, variants@[k as int].tys@));
        }
        let mut rest = make_union_fields(reg, variants, k + 1);
        let ghost tailseq = rest@;
        rest.insert(0, head);
        proof {
            assert(rest@.drop_first() =~= tailseq);
            assert(rest@[0] == head);
            assert(fviews(rest@) =~= seq![fview(head)] + fviews(tailseq));
            assert(fviews(rest@) =~= gunion_fields(reg@, variants@, k as int));
        }
        rest
    }
}

/// Emits the definition of registry entry `i`, whose dependencies have
/// already been walked.
fn make_definition(reg: &Registry, i: usize) -> (r: Definition)
    requires
        i < reg.defs.len(),
    ensures
        r@ == gdef_of(reg@, i as int),
{
    let d = &reg.defs[i];
    match &d.shape {
        Shape::Struct { fields, frozen, custom_json } => {
            let fs = make_fields(reg, fields, 0);
            Definition {
                name: d.name.clone(),
                alias: None,
                structFields: Some(fs),
                unionFields: None,
                customJson: if *custom_json {
                    Some(true)
                } else {
                    None
                },
                definitionWillNotChange: if *frozen {
                    Some(true)
                } else {
                    None
                },
                methods: None,
            }
        },
        Shape::Union { variants } => {
            let fs = make_union_fields(reg, variants, 0);
            Definition {
                name: d.name.clone(),
                alias: None,
                structFields: None,
                unionFields: Some(fs),
                customJson: None,
                definitionWillNotChange: None,
                methods: None,
            }
        },
        Shape::Alias { inner } => {
            Definition {
                name: d.name.clone(),
                alias: Some(type_ref_of(reg, inner)),
                structFields: None,
                unionFields: None,
                customJson: None,
                definitionWillNotChange: None,
                methods: None,
            }
        },
    }
}

/// Walks one descriptor, registering the definitions of every named type it
/// reaches that is not already in the cache: exactly what [`gwalk`] says.
fn walk(
    reg: &Registry,
    t: &TypeDesc,
    visited: &mut Vec<bool>,
    defs: &mut Vec<Definition>,
    fuel: Ghost<int>,
)
    requires
        old(visited)@.len() == reg.defs@.len(),
        fuel@ >= cfalse(old(visited)@, 0),
    ensures
        final(visited)@.len() == reg.defs@.len(),
        cfalse(final(visited)@, 0) <= cfalse(old(visited)@, 0),
        final(defs)@.len() - old(defs)@.len() <= cfalse(old(visited)@, 0) - cfalse(
            final(visited)@,
            0,
        ),
        final(visited)@ == gwalk(reg@, *t, old(visited)@, fuel@).1,
        dviews(final(defs)@) == dviews(old(defs)@) + gwalk(reg@, *t, old(visited)@, fuel@).0,
    decreases fuel@, dsize(*t), 0int,
{
    let ghost gres = gwalk(reg@, *t, old(visited)@, fuel@);
    match t {
        TypeDesc::Vector(inner) => {
            walk(reg, &**inner, visited, defs, fuel);
        },
        TypeDesc::Optional(inner) => {
            walk(reg, &**inner, visited, defs, fuel);
        },
        TypeDesc::Array(inner, _) => {
            walk(reg, &**inner, visited, defs, fuel);
        },
        TypeDesc::Tuple(items) => {
            walk_tys(reg, items, 0, visited, defs, fuel);
        },
        TypeDesc::Named(i) => {
            if *i < reg.defs.len() && !visited[*i] {
                let ghost pre = visited@;
                let ghost dpre = dviews(defs@);
                visited.set(*i, true);
                proof {
                    lemma_cfalse_update(pre, *i as int, 0);
                    lemma_cfalse_nonneg(visited@, 0);
                }
                let d = &reg.defs[*i];
                match &d.shape {
                    Shape::Struct { fields, .. } => {
                        walk_fields(reg, fields, 0, visited, defs, Ghost(fuel@ - 1));
                    },
                    Shape::Union { variants } => {
                        walk_vars(reg, variants, 0, visited, defs, Ghost(fuel@ - 1));
                    },
                    Shape::Alias { inner } => {
                        walk(reg, inner, visited, defs, Ghost(fuel@ - 1));
                    },
                }
                let def = make_definition(reg, *i);
                let ghost dmid = defs@;
                defs.push(def);
                proof {
                    lemma_dviews_push(dmid, def);
                    assert(dviews(defs@) =~= dpre + gres.0);
                }
            } else {
                proof {
                    assert(visited@ =~= gwalk(reg@, *t, old(visited)@, fuel@).1);
                    assert(dviews(defs@) =~= dviews(old(defs)@) + gres.0);
                }
            }
        },
        _ => {
            proof {
                assert(visited@ =~= gwalk(reg@, *t, old(visited)@, fuel@).1);
                assert(dviews(defs@) =~= dviews(old(defs)@) + gres.0);
            }
        },
    }
}

/// Walks the descriptors `ts[k..]`.
fn walk_tys(
    reg: &Registry,
    ts: &Vec<TypeDesc>,
    k: usize,
    visited: &mut Vec<bool>,
    defs: &mut Vec<Definition>,
    fuel: Ghost<int>,
)
    requires
        old(visited)@.len() == reg.defs@.len(),
        k <= ts.len(),
        fuel@ >= cfalse(old(visited)@, 0),
    ensures
        final(visited)@.len() == reg.defs@.len(),
        cfalse(final(visited)@, 0) <= cfalse(old(visited)@, 0),
        final(defs)@.len() - old(defs)@.len() <= cfalse(old(visited)@, 0) - cfalse(
            final(visited)@,
            0,
        ),
        final(visited)@ == gwalk_tys(reg@, ts@, k as int, old(visited)@, fuel@).1,
        dviews(final(defs)@) == dviews(old(defs)@) + gwalk_tys(
            reg@,
            ts@,
            k as int,
            old(visited)@,
            fuel@,
        ).0,
    decreases fuel@, dsize_seq(ts@, k as int), 1int,
{
    if k < ts.len() {
        let ghost dpre = dviews(defs@);
        walk(reg, &ts[k], visited, defs, fuel);
        proof {
            assert(dsize_seq(ts@, k as int) == 1 + dsize(ts@[k as int]) + dsize_seq(
                ts@,
                k as int + 1,
            ));
            assert(cfalse(visited@, 0) <= cfalse(old(visited)@, 0));
            lemma_cfalse_nonneg(visited@, 0);
        }
        walk_tys(reg, ts, k + 1, visited, defs, fuel);
        proof {
            assert(dviews(defs@) =~= dpre + gwalk_tys(
                reg@,
                ts@,
                k as int,
                old(visited)@,
                fuel@,
            ).0);
        }
    } else {
        proof {
            assert(dviews(defs@) =~= dviews(old(defs)@) + gwalk_tys(
                reg@,
                ts@,
                k as int,
                old(visited)@,
                fuel@,
            ).0);
        }
    }
}

/// Walks the struct fields `fields[k..]`.
fn walk_fields(
    reg: &Registry,
    fields: &Vec<FieldDef>,
    k: usize,
    visited: &mut Vec<bool>,
    defs: &mut Vec<Definition>,
    fuel: Ghost<int>,
)
    requires
        old(visited)@.len() == reg.defs@.len(),
        k <= fields.len(),
        fuel@ >= cfalse(old(visited)@, 0),
    ensures
        final(visited)@.len() == reg.defs@.len(),
        cfalse(final(visited)@, 0) <= cfalse(old(visited)@, 0),
        final(defs)@.len() - old(defs)@.len() <= cfalse(old(visited)@, 0) - cfalse(
            final(visited)@,
            0,
        ),
        final(visited)@ == gwalk_fields(reg@, fields@, k as int, old(visited)@, fuel@).1,
        dviews(final(defs)@) == dviews(old(defs)@) + gwalk_fields(
            reg@,
            fields@,
            k as int,
            old(visited)@,
            fuel@,
        ).0,
    decreases fuel@, dsize_fields(fields@, k as int), 2int,
{
    if k < fields.len() {
        let ghost dpre = dviews(defs@);
        walk(reg, &fields[k].ty, visited, defs, fuel);
        proof {
            assert(dsize_fields(fields@, k as int) == 1 + dsize(fields@[k as int].ty)
                + dsize_fields(fields@, k as int + 1));
            assert(cfalse(visited@, 0) <= cfalse(old(visited)@, 0));
            lemma_cfalse_nonneg(visited@, 0);
        }
        walk_fields(reg, fields, k + 1, visited, defs, fuel);
        proof {
            assert(dviews(defs@) =~= dpre + gwalk_fields(
                reg@,
                fields@,
                k as int,
                old(visited)@,
                fuel@,
            ).0);
        }
    } else {
        proof {
            assert(dviews(defs@) =~= dviews(old(defs)@) + gwalk_fields(
                reg@,
                fields@,
                k as int,
                old(visited)@,
                fuel@,
            ).0);
        }
    }
}

/// Walks the variant field lists `variants[k..]`.
fn walk_vars(
    reg: &Registry,
    variants: &Vec<VariantDef>,
    k: usize,
    visited: &mut Vec<bool>,
    defs: &mut Vec<Definition>,
    fuel: Ghost<int>,
)
    requires
        old(visited)@.len() == reg.defs@.len(),
        k <= variants.len(),
        fuel@ >= cfalse(old(visited)@, 0),
    ensures
        final(visited)@.len() == reg.defs@.len(),
        cfalse(final(visited)@, 0) <= cfalse(old(visited)@, 0),
        final(defs)@.len() - old(defs)@.len() <= cfalse(old(visited)@, 0) - cfalse(
            final(visited)@,
            0,
        ),
        final(visited)@ == gwalk_vars(reg@, variants@, k as int, old(visited)@, fuel@).1,
        dviews(final(defs)@) == dviews(old(defs)@) + gwalk_vars(
            reg@,
            variants@,
            k as int,
            old(visited)@,
            fuel@,
        ).0,
    decreases fuel@, dsize_vars(variants@, k as int), 2int,
{
    if k < variants.len() {
        let ghost dpre = dviews(defs@);
        walk_tys(reg, &variants[k].tys, 0, visited, defs, fuel);
        proof {
            assert(dsize_vars(variants@, k as int) == 1 + dsize_seq(variants@[k as int].tys@, 0)
                + dsize_vars(variants@, k as int + 1));
            assert(cfalse(visited@, 0) <= cfalse(old(visited)@, 0));
            lemma_cfalse_nonneg(visited@, 0);
        }
        walk_vars(reg, variants, k + 1, visited, defs, fuel);
        proof {
            assert(dviews(defs@) =~= dpre + gwalk_vars(
                reg@,
                variants@,
                k as int,
                old(visited)@,
                fuel@,
            ).0);
        }
    } else {
        proof {
            assert(dviews(defs@) =~= dviews(old(defs)@) + gwalk_vars(
                reg@,
                variants@,
                k as int,
                old(visited)@,
                fuel@,
            ).0);
        }
    }
}

/// Builds the schema of the type graph rooted at `root`: the definition of
/// every named type reachable from `root`, dependency-first and
/// deduplicated, exactly the sequence the specification [`gdefs`] names.
/// The document stays finite on cyclic type graphs: it never holds more
/// definitions than the registry has entries.
pub fn build_schema(reg: &Registry, root: &TypeDesc) -> (r: Schema)
    ensures
        r@ == gdefs(reg@, *root),
        r.userTypes@.len() <= reg.defs@.len(),
{
    let mut visited: Vec<bool> = Vec::new();
    let mut k: usize = 0;
    while k < reg.defs.len()
        invariant
            k <= reg.defs@.len(),
            visited@.len() == k,
            cfalse(visited@, 0) == k,
            visited@ =~= Seq::new(k as nat, |j: int| false),
        decreases reg.defs@.len() - k,
    {
        let ghost pre = visited@;
        visited.push(false);
        proof {
            lemma_cfalse_push(pre, false);
            assert(visited@ =~= Seq::new((k + 1) as nat, |j: int| false));
        }
        k = k + 1;
    }
    let mut defs: Vec<Definition> = Vec::new();
    proof {
        assert(visited@ =~= Seq::new(reg.defs@.len(), |j: int| false));
    }
    walk(reg, root, &mut visited, &mut defs, Ghost(reg.defs@.len() as int));
    proof {
        lemma_cfalse_nonneg(visited@, 0);
        assert(dviews(Seq::<Definition>::empty()) =~= Seq::<GDef>::empty());
        assert(dviews(defs@) =~= gdefs(reg@, *root));
    }
    Schema { userTypes: defs }
}

/// Appending an unvisited entry adds one to the unvisited count.
pub proof fn lemma_cfalse_push(s: Seq<bool>, x: bool)
    ensures
        cfalse(s.push(x), 0) == cfalse(s, 0) + (if x {
            0int
        } else {
            1int
        }),
{
    lemma_cfalse_push_from(s, x, 0);
}

/// Generalisation of [`lemma_cfalse_push`] over the start position.
pub proof fn lemma_cfalse_push_from(s: Seq<bool>, x: bool, k: int)
    requires
        0 <= k <= s.len(),
    ensures
        cfalse(s.push(x), k) == cfalse(s, k) + (if x {
            0int
        } else {
            1int
        }),
    decreases s.len() - k,
{
    if k < s.len() {
        assert(s.push(x)[k] == s[k]);
        lemma_cfalse_push_from(s, x, k + 1);
    } else {
        assert(s.push(x)[k] == x);
        assert(cfalse(s.push(x), k) == (if x { 0int } else { 1int }) + cfalse(s.push(x), k + 1));
    }
}

/// Builds the schema of a type that describes itself through
/// [`crate::reflect::Reflect`].  Such a type is built from builtins and
/// containers alone, so its schema carries no user-type definitions.
pub fn create_schema<T: crate::reflect::Reflect>() -> (r: Schema)
    ensures
        r@ == gdefs(Seq::<NamedDef>::empty(), T::sdesc()),
        r.userTypes@.len() == 0,
{
    let reg = Registry::new();
    let t = T::descriptor();
    build_schema(&reg, &t)
}

/// Makes an owned copy of a string literal.
fn string_of(s: &str) -> (r: String)
    ensures
        r@ == s@,
{
    s.to_owned()
}

} // verus!
