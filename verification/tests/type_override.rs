//! Golden declaration outputs.

use tsify::attrs::TypeGenerationConfig;
use tsify::input::{ContainerData, DeriveInput, FieldDef, MetaItem, RustType, SerdeAttrs, Style, TagType, VariantDef};

fn cfg(js: bool) -> TypeGenerationConfig {
    TypeGenerationConfig {
        js,
        type_prefix: None,
        type_suffix: None,
        missing_as_null: false,
        hashmap_as_object: false,
        large_number_types_as_bigints: false,
    }
}

#[allow(dead_code)]
fn named(name: &str, args: Vec<RustType>) -> RustType {
    RustType::Named { name: name.to_string(), args, fn_output: None }
}

#[allow(dead_code)]
fn path(name: &str) -> RustType {
    named(name, vec![])
}

#[allow(dead_code)]
fn strs(v: &[&str]) -> Vec<String> {
    v.iter().map(|c| c.to_string()).collect()
}

#[allow(dead_code)]
fn field(name: &str, ty: RustType, comments: &[&str]) -> FieldDef {
    FieldDef {
        name: name.to_string(),
        rename: None,
        ty,
        skip_serializing: false,
        skip_deserializing: false,
        flatten: false,
        default: false,
        skip_serializing_if: None,
        metas: vec![],
        comments: strs(comments),
    }
}

#[allow(dead_code)]
fn serde_plain() -> SerdeAttrs {
    SerdeAttrs {
        rename: None,
        rename_all: None,
        rename_all_fields: None,
        tag: TagType::External,
        default: false,
        transparent: false,
    }
}

#[allow(dead_code)]
fn variant(name: &str, style: Style, fields: Vec<FieldDef>, comments: &[&str]) -> VariantDef {
    VariantDef {
        name: name.to_string(),
        rename: None,
        rename_all_fields: None,
        style,
        fields,
        skip_serializing: false,
        skip_deserializing: false,
        comments: strs(comments),
    }
}

#[allow(dead_code)]
fn input(
    ident: &str,
    generics: &[&str],
    data: ContainerData,
    metas: Vec<MetaItem>,
    serde_attrs: SerdeAttrs,
    comments: &[&str],
) -> DeriveInput {
    DeriveInput {
        ident: ident.to_string(),
        generics: strs(generics),
        data,
        metas,
        serde_attrs,
        comments: strs(comments),
    }
}

#[allow(dead_code)]
fn meta(k: &str) -> MetaItem {
    MetaItem { key: k.to_string(), value: None, span: 0 }
}

#[allow(dead_code)]
fn meta_v(k: &str, v: &str) -> MetaItem {
    MetaItem { key: k.to_string(), value: Some(v.to_string()), span: 0 }
}

#[allow(dead_code)]
fn decl(input: DeriveInput, js: bool) -> String {
    tsify::decl_string(input, js).unwrap()
}


fn ofield(name: &str, ty: RustType, over: &str, comments: &[&str]) -> FieldDef {
    let mut f = field(name, ty, comments);
    f.metas = vec![meta_v("type", over)];
    f
}

#[test]
fn test_struct_with_type_override() {
    let i = input(
        "Struct",
        &[],
        ContainerData::StructData {
            style: Style::Struct,
            fields: vec![
                field("a", path("i32"), &[" Comment for a"]),
                ofield("b", path("i32"), "0 | 1 | 2", &[" Comment for b"]),
                ofield("c", path("Unsupported"), "string | null", &[" Comment for c"]),
            ],
        },
        vec![],
        serde_plain(),
        &[" Comment for Struct"],
    );
    assert_eq!(decl(i, false), "/**\n * Comment for Struct\n */\nexport interface Struct {\n    /**\n     * Comment for a\n     */\n    a: number;\n    /**\n     * Comment for b\n     */\n    b: 0 | 1 | 2;\n    /**\n     * Comment for c\n     */\n    c: string | null;\n}");

    let i = input(
        "Newtype",
        &[],
        ContainerData::StructData {
            style: Style::Newtype,
            fields: vec![ofield("0", path("Unsupported"), "string | null", &[])],
        },
        vec![],
        serde_plain(),
        &[" Comment for Newtype"],
    );
    assert_eq!(decl(i, false), "/**\n * Comment for Newtype\n */\nexport type Newtype = string | null;");
}

#[test]
fn test_enum_with_type_override() {
    let vs = vec![
        variant(
            "Struct",
            Style::Struct,
            vec![
                ofield("x", path("String"), "`tpl_lit_${string}`", &[" Comment for x"]),
                ofield("y", path("i32"), "0 | 1 | 2", &[" Comment for y"]),
            ],
            &[" Comment for Struct"],
        ),
        variant(
            "Tuple",
            Style::Tuple,
            vec![
                ofield("0", path("String"), "`tpl_lit_${string}`", &[]),
                ofield("1", path("i32"), "0 | 1 | 2", &[]),
            ],
            &[" Comment for Tuple"],
        ),
        variant(
            "Newtype",
            Style::Newtype,
            vec![ofield("0", path("Unsupported"), "number", &[])],
            &[" Comment for Newtype"],
        ),
    ];
    let i = input(
        "Enum",
        &[],
        ContainerData::EnumData { variants: vs },
        vec![],
        serde_plain(),
        &[" Comment for Enum"],
    );
    assert_eq!(decl(i, false), "/**\n * Comment for Enum\n */\nexport type Enum = { Struct: { x: `tpl_lit_${string}`; y: 0 | 1 | 2 } } | { Tuple: [`tpl_lit_${string}`, 0 | 1 | 2] } | { Newtype: number };");
}

#[test]
fn test_generic_struct_with_type_override() {
    let i = input(
        "Foo",
        &["T"],
        ContainerData::StructData {
            style: Style::Struct,
            fields: vec![ofield(
                "bar",
                named("Vec", vec![path("T")]),
                "[T, ...T[]]",
                &[" Comment for bar"],
            )],
        },
        vec![],
        serde_plain(),
        &[" Comment for Foo"],
    );
    assert_eq!(decl(i, false), "/**\n * Comment for Foo\n */\nexport interface Foo<T> {\n    /**\n     * Comment for bar\n     */\n    bar: [T, ...T[]];\n}");
}
