//! Golden declaration outputs.

use tsify::attrs::TypeGenerationConfig;
use tsify::input::{ContainerData, DeriveInput, FieldDef, MetaItem, RustType, SerdeAttrs, Style, TagType, VariantDef};

fn cfg(js: bool) -> TypeGenerationConfig {
    TypeGenerationConfig {
        js,
        type_prefix: None,
        type_suffix: None,
        missing_as_null: false,
        hashmap_as_object: false,
        large_number_types_as_bigints: false,
    }
}

#[allow(dead_code)]
fn named(name: &str, args: Vec<RustType>) -> RustType {
    RustType::Named { name: name.to_string(), args, fn_output: None }
}

#[allow(dead_code)]
fn path(name: &str) -> RustType {
    named(name, vec![])
}

#[allow(dead_code)]
fn strs(v: &[&str]) -> Vec<String> {
    v.iter().map(|c| c.to_string()).collect()
}

#[allow(dead_code)]
fn field(name: &str, ty: RustType, comments: &[&str]) -> FieldDef {
    FieldDef {
        name: name.to_string(),
        rename: None,
        ty,
        skip_serializing: false,
        skip_deserializing: false,
        flatten: false,
        default: false,
        skip_serializing_if: None,
        metas: vec![],
        comments: strs(comments),
    }
}

#[allow(dead_code)]
fn serde_plain() -> SerdeAttrs {
    SerdeAttrs {
        rename: None,
        rename_all: None,
        rename_all_fields: None,
        tag: TagType::External,
        default: false,
        transparent: false,
    }
}

#[allow(dead_code)]
fn variant(name: &str, style: Style, fields: Vec<FieldDef>, comments: &[&str]) -> VariantDef {
    VariantDef {
        name: name.to_string(),
        rename: None,
        rename_all_fields: None,
        style,
        fields,
        skip_serializing: false,
        skip_deserializing: false,
        comments: strs(comments),
    }
}

#[allow(dead_code)]
fn input(
    ident: &str,
    generics: &[&str],
    data: ContainerData,
    metas: Vec<MetaItem>,
    serde_attrs: SerdeAttrs,
    comments: &[&str],
) -> DeriveInput {
    DeriveInput {
        ident: ident.to_string(),
        generics: strs(generics),
        data,
        metas,
        serde_attrs,
        comments: strs(comments),
    }
}

#[allow(dead_code)]
fn meta(k: &str) -> MetaItem {
    MetaItem { key: k.to_string(), value: None, span: 0 }
}

#[allow(dead_code)]
fn meta_v(k: &str, v: &str) -> MetaItem {
    MetaItem { key: k.to_string(), value: Some(v.to_string()), span: 0 }
}

#[allow(dead_code)]
fn decl(input: DeriveInput, js: bool) -> String {
    tsify::decl_string(input, js).unwrap()
}


#[test]
fn transparent_test_transparent() {
    let mut serde_attrs = serde_plain();
    serde_attrs.transparent = true;
    let mut skipped = field("1", path("f64"), &[]);
    skipped.skip_serializing = true;
    skipped.skip_deserializing = true;
    let a = input(
        "A",
        &[],
        ContainerData::StructData {
            style: Style::Tuple,
            fields: vec![field("0", path("String"), &[]), skipped],
        },
        vec![],
        serde_attrs,
        &[" Comment for A"],
    );
    assert_eq!(decl(a, false), "/**\n * Comment for A\n */\nexport type A = string;");

    let mut serde_attrs = serde_plain();
    serde_attrs.transparent = true;
    let mut skipped = field("x", path("String"), &[" Comment for x"]);
    skipped.skip_serializing = true;
    skipped.skip_deserializing = true;
    let b = input(
        "B",
        &[],
        ContainerData::StructData {
            style: Style::Struct,
            fields: vec![skipped, field("y", path("f64"), &[" Comment for y"])],
        },
        vec![],
        serde_attrs,
        &[" Comment for B"],
    );
    assert_eq!(decl(b, false), "/**\n * Comment for B\n */\nexport type B = number;");
}

#[test]
fn options_test_transparent() {
    let i = input(
        "Optional",
        &[],
        ContainerData::StructData {
            style: Style::Struct,
            fields: vec![field("a", named("Option", vec![path("u32")]), &[])],
        },
        vec![meta("missing_as_null")],
        serde_plain(),
        &[],
    );
    assert_eq!(decl(i, true), "export interface Optional {\n    a: number | null;\n}");

    let i = input(
        "MapWrap",
        &[],
        ContainerData::StructData {
            style: Style::Struct,
            fields: vec![field("a", named("HashMap", vec![path("u32"), path("u32")]), &[])],
        },
        vec![meta("hashmap_as_object")],
        serde_plain(),
        &[],
    );
    assert_eq!(decl(i, true), "export interface MapWrap {\n    a: Record<number, number>;\n}");
}

#[test]
fn test_skip() {
    let mut b = field("b", path("i32"), &[" Comment for b"]);
    b.skip_serializing = true;
    b.skip_deserializing = true;
    let mut c = field("c", path("i32"), &[" Comment for c"]);
    c.skip_serializing = true;
    let mut d = field("d", path("i32"), &[" Comment for d"]);
    d.skip_deserializing = true;
    let i = input(
        "Struct",
        &[],
        ContainerData::StructData {
            style: Style::Struct,
            fields: vec![field("a", path("i32"), &[" Comment for a"]), b, c, d],
        },
        vec![],
        serde_plain(),
        &[" Comment for Struct"],
    );
    assert_eq!(decl(i, false), "/**\n * Comment for Struct\n */\nexport interface Struct {\n    /**\n     * Comment for a\n     */\n    a: number;\n}");

    let mut s0 = field("0", path("String"), &[]);
    s0.skip_serializing = true;
    s0.skip_deserializing = true;
    let i = input(
        "Tuple",
        &[],
        ContainerData::StructData {
            style: Style::Tuple,
            fields: vec![s0, field("1", path("i32"), &[])],
        },
        vec![],
        serde_plain(),
        &[" Comment for Tuple"],
    );
    assert_eq!(decl(i, false), "/**\n * Comment for Tuple\n */\nexport type Tuple = [number];");

    let mut a = variant("A", Style::Unit, vec![], &[" Comment for A"]);
    a.skip_serializing = true;
    a.skip_deserializing = true;
    let mut b = variant("B", Style::Unit, vec![], &[" Comment for B"]);
    b.skip_serializing = true;
    let mut c = variant("C", Style::Unit, vec![], &[" Comment for C"]);
    c.skip_deserializing = true;
    let d = variant("D", Style::Unit, vec![], &[" Comment for D"]);
    let i = input(
        "Enum",
        &[],
        ContainerData::EnumData { variants: vec![a, b, c, d] },
        vec![meta("namespace")],
        serde_plain(),
        &[" Comment for Enum"],
    );
    assert_eq!(decl(i, false), "/**\n * Comment for Enum\n */\ndeclare namespace Enum {\n    /**\n     * Comment for D\n     */\n    export type D = \"D\";\n}\n\n/**\n * Comment for Enum\n */\nexport type Enum = \"D\";");
}

#[test]
fn test_quote() {
    let qf = |name: &str, rename: &str| {
        let mut f = field(name, path("i32"), &[]);
        f.rename = Some(rename.to_string());
        f.metas = vec![meta("quote")];
        f
    };
    let i = input(
        "QuotedStruct",
        &[],
        ContainerData::StructData {
            style: Style::Struct,
            fields: vec![
                qf("with_spaces", "with spaces"),
                qf("with_hyphen", "with-hyphen"),
                qf("invalid_ident", "@invalid!ident"),
            ],
        },
        vec![],
        serde_plain(),
        &[],
    );
    assert_eq!(decl(i, false), "export interface QuotedStruct {\n    \"with spaces\": number;\n    \"with-hyphen\": number;\n    \"@invalid!ident\": number;\n}");
}

#[test]
fn test_reference_rename() {
    let bar = input(
        "Bar",
        &[],
        ContainerData::StructData {
            style: Style::Struct,
            fields: vec![field("foo", path("Foo"), &[])],
        },
        vec![],
        serde_plain(),
        &[],
    );
    assert_eq!(decl(bar, false), "export interface Bar {\n    foo: Foo;\n}");

    let mut serde_attrs = serde_plain();
    serde_attrs.rename = Some("foo".to_string());
    let foo = input(
        "Foo",
        &[],
        ContainerData::StructData {
            style: Style::Struct,
            fields: vec![field("x", path("i32"), &[])],
        },
        vec![],
        serde_attrs,
        &[],
    );
    assert_eq!(decl(foo, false), "export interface Foo {\n    x: number;\n}");
}
