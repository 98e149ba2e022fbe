//! Golden declaration outputs.

use tsify::attrs::TypeGenerationConfig;
use tsify::input::{ContainerData, DeriveInput, FieldDef, MetaItem, RustType, SerdeAttrs, Style, TagType, VariantDef};

fn cfg(js: bool) -> TypeGenerationConfig {
    TypeGenerationConfig {
        js,
        type_prefix: None,
        type_suffix: None,
        missing_as_null: false,
        hashmap_as_object: false,
        large_number_types_as_bigints: false,
    }
}

#[allow(dead_code)]
fn named(name: &str, args: Vec<RustType>) -> RustType {
    RustType::Named { name: name.to_string(), args, fn_output: None }
}

#[allow(dead_code)]
fn path(name: &str) -> RustType {
    named(name, vec![])
}

#[allow(dead_code)]
fn strs(v: &[&str]) -> Vec<String> {
    v.iter().map(|c| c.to_string()).collect()
}

#[allow(dead_code)]
fn field(name: &str, ty: RustType, comments: &[&str]) -> FieldDef {
    FieldDef {
        name: name.to_string(),
        rename: None,
        ty,
        skip_serializing: false,
        skip_deserializing: false,
        flatten: false,
        default: false,
        skip_serializing_if: None,
        metas: vec![],
        comments: strs(comments),
    }
}

#[allow(dead_code)]
fn serde_plain() -> SerdeAttrs {
    SerdeAttrs {
        rename: None,
        rename_all: None,
        rename_all_fields: None,
        tag: TagType::External,
        default: false,
        transparent: false,
    }
}

#[allow(dead_code)]
fn variant(name: &str, style: Style, fields: Vec<FieldDef>, comments: &[&str]) -> VariantDef {
    VariantDef {
        name: name.to_string(),
        rename: None,
        rename_all_fields: None,
        style,
        fields,
        skip_serializing: false,
        skip_deserializing: false,
        comments: strs(comments),
    }
}

#[allow(dead_code)]
fn input(
    ident: &str,
    generics: &[&str],
    data: ContainerData,
    metas: Vec<MetaItem>,
    serde_attrs: SerdeAttrs,
    comments: &[&str],
) -> DeriveInput {
    DeriveInput {
        ident: ident.to_string(),
        generics: strs(generics),
        data,
        metas,
        serde_attrs,
        comments: strs(comments),
    }
}

#[allow(dead_code)]
fn meta(k: &str) -> MetaItem {
    MetaItem { key: k.to_string(), value: None, span: 0 }
}

#[allow(dead_code)]
fn meta_v(k: &str, v: &str) -> MetaItem {
    MetaItem { key: k.to_string(), value: Some(v.to_string()), span: 0 }
}

#[allow(dead_code)]
fn decl(input: DeriveInput, js: bool) -> String {
    tsify::decl_string(input, js).unwrap()
}


#[test]
fn test_generic_struct() {
    let mut c = field("c", RustType::Wrapped { elem: Box::new(path("C")) }, &[" Comment for c"]);
    c.skip_serializing = true;
    c.skip_deserializing = true;
    let i = input(
        "GenericStruct",
        &["A", "B", "C", "D"],
        ContainerData::StructData {
            style: Style::Struct,
            fields: vec![
                field("a", path("A"), &[" Comment for a"]),
                field("b", path("B"), &[" Comment for b"]),
                c,
                field("d", path("D"), &[" Comment for d"]),
            ],
        },
        vec![],
        serde_plain(),
        &[" Comment for GenericStruct"],
    );
    assert_eq!(decl(i, false), "/**\n * Comment for GenericStruct\n */\nexport interface GenericStruct<A, B, D> {\n    /**\n     * Comment for a\n     */\n    a: A;\n    /**\n     * Comment for b\n     */\n    b: B;\n    /**\n     * Comment for d\n     */\n    d: D;\n}");

    let i = input(
        "GenericNewtype",
        &["T"],
        ContainerData::StructData {
            style: Style::Newtype,
            fields: vec![field("0", path("T"), &[])],
        },
        vec![],
        serde_plain(),
        &[" Comment for GenericNewtype"],
    );
    assert_eq!(decl(i, false), "/**\n * Comment for GenericNewtype\n */\nexport type GenericNewtype<T> = T;");

    let mut b = field("1", RustType::Wrapped { elem: Box::new(path("B")) }, &[]);
    b.skip_serializing = true;
    b.skip_deserializing = true;
    let i = input(
        "GenericTuple",
        &["A", "B", "C", "D"],
        ContainerData::StructData {
            style: Style::Tuple,
            fields: vec![
                field("0", path("A"), &[]),
                b,
                field("2", path("C"), &[]),
                field("3", path("D"), &[]),
            ],
        },
        vec![],
        serde_plain(),
        &[" Comment for GenericTuple"],
    );
    assert_eq!(decl(i, false), "/**\n * Comment for GenericTuple\n */\nexport type GenericTuple<A, C, D> = [A, C, D];");
}

fn generic_enum_variants(comments: bool) -> Vec<VariantDef> {
    let mut vs = vec![
        variant("Unit", Style::Unit, vec![], &[" Comment for Unit"]),
        variant(
            "NewType",
            Style::Newtype,
            vec![field("0", path("T"), &[])],
            &[" Comment for NewType"],
        ),
        variant(
            "Seq",
            Style::Tuple,
            vec![field("0", path("T"), &[]), field("1", path("U"), &[])],
            &[" Comment for Seq"],
        ),
        variant(
            "Map",
            Style::Struct,
            vec![field("x", path("T"), &[]), field("y", path("U"), &[])],
            &[" Comment for Map"],
        ),
    ];
    if !comments {
        for v in vs.iter_mut() {
            v.comments = vec![];
        }
    }
    vs
}

#[test]
fn test_generic_enum() {
    let i = input(
        "GenericEnum",
        &["T", "U"],
        ContainerData::EnumData { variants: generic_enum_variants(false) },
        vec![],
        serde_plain(),
        &[" Comment for GenericEnum"],
    );
    assert_eq!(decl(i, false), "/**\n * Comment for GenericEnum\n */\nexport type GenericEnum<T, U> = \"Unit\" | { NewType: T } | { Seq: [T, U] } | { Map: { x: T; y: U } };");
}

#[test]
fn test_generic_enum_with_namespace() {
    let i = input(
        "GenericEnum",
        &["T", "U"],
        ContainerData::EnumData { variants: generic_enum_variants(true) },
        vec![meta("namespace")],
        serde_plain(),
        &[" Comment for GenericEnum"],
    );
    assert_eq!(decl(i, false), "/**\n * Comment for GenericEnum\n */\ndeclare namespace GenericEnum {\n    /**\n     * Comment for Unit\n     */\n    export type Unit = \"Unit\";\n    /**\n     * Comment for NewType\n     */\n    export type NewType<T> = { NewType: T };\n    /**\n     * Comment for Seq\n     */\n    export type Seq<T, U> = { Seq: [T, U] };\n    /**\n     * Comment for Map\n     */\n    export type Map<T, U> = { Map: { x: T; y: U } };\n}\n\n/**\n * Comment for GenericEnum\n */\nexport type GenericEnum<T, U> = \"Unit\" | { NewType: T } | { Seq: [T, U] } | { Map: { x: T; y: U } };");
}

#[test]
fn test_generics_with_default_params() {
    let tuple3 = |name: &str| {
        input(
            name,
            &["A", "B", "C"],
            ContainerData::StructData {
                style: Style::Tuple,
                fields: vec![
                    field("0", path("A"), &[]),
                    field("1", path("B"), &[]),
                    field("2", path("C"), &[]),
                ],
            },
            vec![],
            serde_plain(),
            &[],
        )
    };
    assert_eq!(decl(tuple3("SerNamedTuple"), false), "export type SerNamedTuple<A, B, C> = [A, B, C];");

    let map3 = |name: &str| {
        input(
            name,
            &["A", "B", "C"],
            ContainerData::StructData {
                style: Style::Struct,
                fields: vec![
                    field("a", path("A"), &[]),
                    field("b", path("B"), &[]),
                    field("c", path("C"), &[]),
                ],
            },
            vec![],
            serde_plain(),
            &[],
        )
    };
    assert_eq!(decl(map3("SerNamedMap"), false), "export interface SerNamedMap<A, B, C> {\n    a: A;\n    b: B;\n    c: C;\n}");
    assert_eq!(decl(map3("DeNamedMap"), false), "export interface DeNamedMap<A, B, C> {\n    a: A;\n    b: B;\n    c: C;\n}");

    let en = |name: &str| {
        input(
            name,
            &["A", "B", "C"],
            ContainerData::EnumData {
                variants: vec![
                    variant("Unit", Style::Unit, vec![], &[]),
                    variant("NewType", Style::Newtype, vec![field("0", path("A"), &[])], &[]),
                    variant(
                        "Seq",
                        Style::Tuple,
                        vec![field("0", path("i8"), &[]), field("1", path("B"), &[])],
                        &[],
                    ),
                    variant(
                        "Map",
                        Style::Struct,
                        vec![
                            field("a", path("i8"), &[]),
                            field("b", path("B"), &[]),
                            field("c", path("C"), &[]),
                        ],
                        &[],
                    ),
                ],
            },
            vec![],
            serde_plain(),
            &[],
        )
    };
    assert_eq!(decl(en("SerEnum"), false), "export type SerEnum<A, B, C> = \"Unit\" | { NewType: A } | { Seq: [number, B] } | { Map: { a: number; b: B; c: C } };");
    assert_eq!(decl(en("DeEnum"), false), "export type DeEnum<A, B, C> = \"Unit\" | { NewType: A } | { Seq: [number, B] } | { Map: { a: number; b: B; c: C } };");
}
