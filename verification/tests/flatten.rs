//! Golden declaration outputs.

use tsify::attrs::TypeGenerationConfig;
use tsify::input::CaseRule;
use tsify::input::{ContainerData, DeriveInput, FieldDef, MetaItem, RustType, SerdeAttrs, Style, TagType, VariantDef};

fn cfg(js: bool) -> TypeGenerationConfig {
    TypeGenerationConfig {
        js,
        type_prefix: None,
        type_suffix: None,
        missing_as_null: false,
        hashmap_as_object: false,
        large_number_types_as_bigints: false,
    }
}

#[allow(dead_code)]
fn named(name: &str, args: Vec<RustType>) -> RustType {
    RustType::Named { name: name.to_string(), args, fn_output: None }
}

#[allow(dead_code)]
fn path(name: &str) -> RustType {
    named(name, vec![])
}

#[allow(dead_code)]
fn strs(v: &[&str]) -> Vec<String> {
    v.iter().map(|c| c.to_string()).collect()
}

#[allow(dead_code)]
fn field(name: &str, ty: RustType, comments: &[&str]) -> FieldDef {
    FieldDef {
        name: name.to_string(),
        rename: None,
        ty,
        skip_serializing: false,
        skip_deserializing: false,
        flatten: false,
        default: false,
        skip_serializing_if: None,
        metas: vec![],
        comments: strs(comments),
    }
}

#[allow(dead_code)]
fn serde_plain() -> SerdeAttrs {
    SerdeAttrs {
        rename: None,
        rename_all: None,
        rename_all_fields: None,
        tag: TagType::External,
        default: false,
        transparent: false,
    }
}

#[allow(dead_code)]
fn variant(name: &str, style: Style, fields: Vec<FieldDef>, comments: &[&str]) -> VariantDef {
    VariantDef {
        name: name.to_string(),
        rename: None,
        rename_all_fields: None,
        style,
        fields,
        skip_serializing: false,
        skip_deserializing: false,
        comments: strs(comments),
    }
}

#[allow(dead_code)]
fn input(
    ident: &str,
    generics: &[&str],
    data: ContainerData,
    metas: Vec<MetaItem>,
    serde_attrs: SerdeAttrs,
    comments: &[&str],
) -> DeriveInput {
    DeriveInput {
        ident: ident.to_string(),
        generics: strs(generics),
        data,
        metas,
        serde_attrs,
        comments: strs(comments),
    }
}

#[allow(dead_code)]
fn meta(k: &str) -> MetaItem {
    MetaItem { key: k.to_string(), value: None, span: 0 }
}

#[allow(dead_code)]
fn meta_v(k: &str, v: &str) -> MetaItem {
    MetaItem { key: k.to_string(), value: Some(v.to_string()), span: 0 }
}

#[allow(dead_code)]
fn decl(input: DeriveInput, js: bool) -> String {
    tsify::decl_string(input, js).unwrap()
}


#[test]
fn test_flatten() {
    let mut extra = field("extra", path("A"), &[" Comment for extra"]);
    extra.flatten = true;
    let i = input(
        "B",
        &[],
        ContainerData::StructData {
            style: Style::Struct,
            fields: vec![extra, field("c", path("i32"), &[" Comment for c"])],
        },
        vec![],
        serde_plain(),
        &[" Comment for B"],
    );
    assert_eq!(decl(i, false), "/**\n * Comment for B\n */\nexport interface B extends A {\n    /**\n     * Comment for c\n     */\n    c: number;\n}");
}

#[test]
fn test_flatten_option() {
    let mut extra = field("extra", named("Option", vec![path("A")]), &[" Comment for extra"]);
    extra.flatten = true;
    let i = input(
        "B",
        &[],
        ContainerData::StructData {
            style: Style::Struct,
            fields: vec![extra, field("c", path("i32"), &[" Comment for c"])],
        },
        vec![],
        serde_plain(),
        &[" Comment for B"],
    );
    assert_eq!(decl(i, false), "/**\n * Comment for B\n */\nexport type B = { c: number } & (A | {});");
}
