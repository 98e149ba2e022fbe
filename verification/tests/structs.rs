//! Golden declaration outputs.

use tsify::attrs::TypeGenerationConfig;
use tsify::input::{ContainerData, DeriveInput, FieldDef, MetaItem, RustType, SerdeAttrs, Style, TagType, VariantDef};

fn cfg(js: bool) -> TypeGenerationConfig {
    TypeGenerationConfig {
        js,
        type_prefix: None,
        type_suffix: None,
        missing_as_null: false,
        hashmap_as_object: false,
        large_number_types_as_bigints: false,
    }
}

#[allow(dead_code)]
fn named(name: &str, args: Vec<RustType>) -> RustType {
    RustType::Named { name: name.to_string(), args, fn_output: None }
}

#[allow(dead_code)]
fn path(name: &str) -> RustType {
    named(name, vec![])
}

#[allow(dead_code)]
fn strs(v: &[&str]) -> Vec<String> {
    v.iter().map(|c| c.to_string()).collect()
}

#[allow(dead_code)]
fn field(name: &str, ty: RustType, comments: &[&str]) -> FieldDef {
    FieldDef {
        name: name.to_string(),
        rename: None,
        ty,
        skip_serializing: false,
        skip_deserializing: false,
        flatten: false,
        default: false,
        skip_serializing_if: None,
        metas: vec![],
        comments: strs(comments),
    }
}

#[allow(dead_code)]
fn serde_plain() -> SerdeAttrs {
    SerdeAttrs {
        rename: None,
        rename_all: None,
        rename_all_fields: None,
        tag: TagType::External,
        default: false,
        transparent: false,
    }
}

#[allow(dead_code)]
fn variant(name: &str, style: Style, fields: Vec<FieldDef>, comments: &[&str]) -> VariantDef {
    VariantDef {
        name: name.to_string(),
        rename: None,
        rename_all_fields: None,
        style,
        fields,
        skip_serializing: false,
        skip_deserializing: false,
        comments: strs(comments),
    }
}

#[allow(dead_code)]
fn input(
    ident: &str,
    generics: &[&str],
    data: ContainerData,
    metas: Vec<MetaItem>,
    serde_attrs: SerdeAttrs,
    comments: &[&str],
) -> DeriveInput {
    DeriveInput {
        ident: ident.to_string(),
        generics: strs(generics),
        data,
        metas,
        serde_attrs,
        comments: strs(comments),
    }
}

#[allow(dead_code)]
fn meta(k: &str) -> MetaItem {
    MetaItem { key: k.to_string(), value: None, span: 0 }
}

#[allow(dead_code)]
fn meta_v(k: &str, v: &str) -> MetaItem {
    MetaItem { key: k.to_string(), value: Some(v.to_string()), span: 0 }
}

#[allow(dead_code)]
fn decl(input: DeriveInput, js: bool) -> String {
    tsify::decl_string(input, js).unwrap()
}


#[test]
fn struct_test_unit() {
    let mk = || input(
        "Unit",
        &[],
        ContainerData::StructData { style: Style::Unit, fields: vec![] },
        vec![],
        serde_plain(),
        &[" Comment for Unit"],
    );
    assert_eq!(decl(mk(), true), "/**\n * Comment for Unit\n */\nexport type Unit = undefined;");
    assert_eq!(decl(mk(), false), "/**\n * Comment for Unit\n */\nexport type Unit = null;");
}

#[test]
fn struct_test_named_fields() {
    let mk = || input(
        "A",
        &[],
        ContainerData::StructData {
            style: Style::Struct,
            fields: vec![
                field("a", RustType::TupleTy { elems: vec![path("usize"), path("u64")] }, &[" Comment for a"]),
                field("b", named("HashMap", vec![path("String"), path("i128")]), &[" Comment for b"]),
            ],
        },
        vec![],
        serde_plain(),
        &[" Comment for Struct"],
    );
    assert_eq!(decl(mk(), true), "/**\n * Comment for Struct\n */\nexport interface A {\n    /**\n     * Comment for a\n     */\n    a: [number, number];\n    /**\n     * Comment for b\n     */\n    b: Map<string, bigint>;\n}");
    assert_eq!(decl(mk(), false), "/**\n * Comment for Struct\n */\nexport interface A {\n    /**\n     * Comment for a\n     */\n    a: [number, number];\n    /**\n     * Comment for b\n     */\n    b: Record<string, number>;\n}");
}

#[test]
fn struct_test_newtype_struct() {
    let i = input(
        "Newtype",
        &[],
        ContainerData::StructData { style: Style::Newtype, fields: vec![field("0", path("i32"), &[])] },
        vec![],
        serde_plain(),
        &[" Comment for Newtype"],
    );
    assert_eq!(decl(i, false), "/**\n * Comment for Newtype\n */\nexport type Newtype = number;");
}

#[test]
fn struct_test_tuple_struct() {
    let t = input(
        "Tuple",
        &[],
        ContainerData::StructData {
            style: Style::Tuple,
            fields: vec![field("0", path("i32"), &[]), field("1", path("String"), &[])],
        },
        vec![],
        serde_plain(),
        &[" Comment for Tuple"],
    );
    assert_eq!(decl(t, false), "/**\n * Comment for Tuple\n */\nexport type Tuple = [number, string];");
    let e = input(
        "EmptyTuple",
        &[],
        ContainerData::StructData { style: Style::Tuple, fields: vec![] },
        vec![],
        serde_plain(),
        &[" Comment for EmptyTuple"],
    );
    assert_eq!(decl(e, false), "/**\n * Comment for EmptyTuple\n */\nexport type EmptyTuple = [];");
}

#[test]
fn struct_test_nested_struct() {
    let b = input(
        "B",
        &[],
        ContainerData::StructData {
            style: Style::Struct,
            fields: vec![field("a", path("A"), &[" Comment for a"])],
        },
        vec![],
        serde_plain(),
        &[" Comment for B"],
    );
    assert_eq!(decl(b, false), "/**\n * Comment for B\n */\nexport interface B {\n    /**\n     * Comment for a\n     */\n    a: A;\n}");
}

#[test]
fn struct_test_struct_with_borrowed_fields() {
    let b = input(
        "Borrow",
        &[],
        ContainerData::StructData {
            style: Style::Struct,
            fields: vec![
                field("raw", RustType::Wrapped { elem: Box::new(path("str")) }, &[" Comment for raw"]),
                field("cow", named("Cow", vec![path("str")]), &[" Comment for cow"]),
            ],
        },
        vec![],
        serde_plain(),
        &[" Comment for Borrow"],
    );
    assert_eq!(decl(b, false), "/**\n * Comment for Borrow\n */\nexport interface Borrow {\n    /**\n     * Comment for raw\n     */\n    raw: string;\n    /**\n     * Comment for cow\n     */\n    cow: string;\n}");
}

#[test]
fn struct_test_tagged_struct() {
    let mut serde_attrs = serde_plain();
    serde_attrs.tag = TagType::Internal { tag: "type".to_string() };
    let t = input(
        "TaggedStruct",
        &[],
        ContainerData::StructData {
            style: Style::Struct,
            fields: vec![
                field("x", path("i32"), &[" Comment for x"]),
                field("y", path("i32"), &[" Comment for y"]),
            ],
        },
        vec![],
        serde_attrs,
        &[" Comment for TaggedStruct"],
    );
    assert_eq!(decl(t, false), "/**\n * Comment for TaggedStruct\n */\nexport interface TaggedStruct {\n    type: \"TaggedStruct\";\n    /**\n     * Comment for x\n     */\n    x: number;\n    /**\n     * Comment for y\n     */\n    y: number;\n}");
}
