use fracpack::desc::{FieldDef, NamedDef, Registry, Shape, TypeDesc, VariantDef};
use fracpack::schema::{build_schema, create_schema, Definition, Field, TypeRef};

fn point_registry() -> Registry {
    Registry {
        defs: vec![NamedDef {
            name: "Point".to_string(),
            shape: Shape::Struct {
                fields: vec![
                    FieldDef { name: "x".to_string(), ty: TypeDesc::I32 },
                    FieldDef { name: "y".to_string(), ty: TypeDesc::I32 },
                ],
                frozen: false,
                custom_json: false,
            },
            variable: true,
            fixed: 8,
        }],
    }
}

#[test]
fn point_schema_definition() {
    let reg = point_registry();
    let schema = build_schema(&reg, &TypeDesc::Named(0));
    let expected = Definition {
        name: "Point".to_string(),
        alias: None,
        structFields: Some(vec![
            Field {
                name: "x".to_string(),
                ty: TypeRef::builtinType("i32".to_string()),
            },
            Field {
                name: "y".to_string(),
                ty: TypeRef::builtinType("i32".to_string()),
            },
        ]),
        unionFields: None,
        customJson: None,
        definitionWillNotChange: None,
        methods: None,
    };
    assert_eq!(schema.userTypes, vec![expected]);
}

#[test]
fn schema_builder_is_deterministic() {
    let reg = point_registry();
    let s1 = build_schema(&reg, &TypeDesc::Named(0));
    let s2 = build_schema(&reg, &TypeDesc::Named(0));
    assert_eq!(s1, s2);
}

#[test]
fn self_referential_schema_is_finite() {
    // struct Node { val: i32, next: Option<Node> }
    let reg = Registry {
        defs: vec![NamedDef {
            name: "Node".to_string(),
            shape: Shape::Struct {
                fields: vec![
                    FieldDef { name: "val".to_string(), ty: TypeDesc::I32 },
                    FieldDef {
                        name: "next".to_string(),
                        ty: TypeDesc::Optional(Box::new(TypeDesc::Named(0))),
                    },
                ],
                frozen: false,
                custom_json: false,
            },
            variable: true,
            fixed: 8,
        }],
    };
    let schema = build_schema(&reg, &TypeDesc::Named(0));
    assert_eq!(schema.userTypes.len(), 1);
    assert_eq!(schema.userTypes[0].name, "Node");
    let fields = schema.userTypes[0].structFields.as_ref().unwrap();
    assert_eq!(
        fields[1].ty,
        TypeRef::optional(Box::new(TypeRef::userType("Node".to_string())))
    );
}

#[test]
fn union_schema_definition() {
    let reg = Registry {
        defs: vec![NamedDef {
            name: "E".to_string(),
            shape: Shape::Union {
                variants: vec![
                    VariantDef { name: "A".to_string(), tys: vec![TypeDesc::I32] },
                    VariantDef {
                        name: "B".to_string(),
                        tys: vec![TypeDesc::I32, TypeDesc::Str],
                    },
                ],
            },
            variable: true,
            fixed: 0,
        }],
    };
    let schema = build_schema(&reg, &TypeDesc::Named(0));
    assert_eq!(schema.userTypes.len(), 1);
    let fields = schema.userTypes[0].unionFields.as_ref().unwrap();
    assert_eq!(fields[0].name, "A");
    assert_eq!(fields[0].ty, TypeRef::builtinType("i32".to_string()));
    assert_eq!(fields[1].name, "B");
    assert_eq!(
        fields[1].ty,
        TypeRef::tuple(vec![
            TypeRef::builtinType("i32".to_string()),
            TypeRef::builtinType("string".to_string()),
        ])
    );
}

#[test]
fn alias_schema_definition() {
    let reg = Registry {
        defs: vec![
            NamedDef {
                name: "Point".to_string(),
                shape: Shape::Struct {
                    fields: vec![
                        FieldDef { name: "x".to_string(), ty: TypeDesc::I32 },
                        FieldDef { name: "y".to_string(), ty: TypeDesc::I32 },
                    ],
                    frozen: false,
                    custom_json: false,
                },
                variable: true,
                fixed: 8,
            },
            NamedDef {
                name: "Wrapper".to_string(),
                shape: Shape::Alias { inner: TypeDesc::Named(0) },
                variable: true,
                fixed: 4,
            },
        ],
    };
    let schema = build_schema(&reg, &TypeDesc::Named(1));
    // Dependencies first, then the alias definition.
    assert_eq!(schema.userTypes.len(), 2);
    assert_eq!(schema.userTypes[0].name, "Point");
    assert_eq!(schema.userTypes[1].name, "Wrapper");
    assert_eq!(
        schema.userTypes[1].alias,
        Some(TypeRef::userType("Point".to_string()))
    );
}

#[test]
fn vector_and_container_type_refs() {
    let reg = point_registry();
    let schema = build_schema(
        &reg,
        &TypeDesc::Vector(Box::new(TypeDesc::Named(0))),
    );
    // A container contributes no definition of its own, only its element.
    assert_eq!(schema.userTypes.len(), 1);
    assert_eq!(schema.userTypes[0].name, "Point");
}

#[test]
fn create_schema_for_builtin_graph() {
    let schema = create_schema::<Vec<Option<i32>>>();
    assert_eq!(schema.userTypes.len(), 0);
}
