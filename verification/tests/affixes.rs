//! Golden declaration outputs.

use tsify::attrs::TypeGenerationConfig;
use tsify::input::CaseRule;
use tsify::input::{ContainerData, DeriveInput, FieldDef, MetaItem, RustType, SerdeAttrs, Style, TagType, VariantDef};

fn cfg(js: bool) -> TypeGenerationConfig {
    TypeGenerationConfig {
        js,
        type_prefix: None,
        type_suffix: None,
        missing_as_null: false,
        hashmap_as_object: false,
        large_number_types_as_bigints: false,
    }
}

#[allow(dead_code)]
fn named(name: &str, args: Vec<RustType>) -> RustType {
    RustType::Named { name: name.to_string(), args, fn_output: None }
}

#[allow(dead_code)]
fn path(name: &str) -> RustType {
    named(name, vec![])
}

#[allow(dead_code)]
fn strs(v: &[&str]) -> Vec<String> {
    v.iter().map(|c| c.to_string()).collect()
}

#[allow(dead_code)]
fn field(name: &str, ty: RustType, comments: &[&str]) -> FieldDef {
    FieldDef {
        name: name.to_string(),
        rename: None,
        ty,
        skip_serializing: false,
        skip_deserializing: false,
        flatten: false,
        default: false,
        skip_serializing_if: None,
        metas: vec![],
        comments: strs(comments),
    }
}

#[allow(dead_code)]
fn serde_plain() -> SerdeAttrs {
    SerdeAttrs {
        rename: None,
        rename_all: None,
        rename_all_fields: None,
        tag: TagType::External,
        default: false,
        transparent: false,
    }
}

#[allow(dead_code)]
fn variant(name: &str, style: Style, fields: Vec<FieldDef>, comments: &[&str]) -> VariantDef {
    VariantDef {
        name: name.to_string(),
        rename: None,
        rename_all_fields: None,
        style,
        fields,
        skip_serializing: false,
        skip_deserializing: false,
        comments: strs(comments),
    }
}

#[allow(dead_code)]
fn input(
    ident: &str,
    generics: &[&str],
    data: ContainerData,
    metas: Vec<MetaItem>,
    serde_attrs: SerdeAttrs,
    comments: &[&str],
) -> DeriveInput {
    DeriveInput {
        ident: ident.to_string(),
        generics: strs(generics),
        data,
        metas,
        serde_attrs,
        comments: strs(comments),
    }
}

#[allow(dead_code)]
fn meta(k: &str) -> MetaItem {
    MetaItem { key: k.to_string(), value: None, span: 0 }
}

#[allow(dead_code)]
fn meta_v(k: &str, v: &str) -> MetaItem {
    MetaItem { key: k.to_string(), value: Some(v.to_string()), span: 0 }
}

#[allow(dead_code)]
fn decl(input: DeriveInput, js: bool) -> String {
    tsify::decl_string(input, js).unwrap()
}


fn affix_struct(name: &str, metas: Vec<MetaItem>) -> DeriveInput {
    input(
        name,
        &[],
        ContainerData::StructData {
            style: Style::Struct,
            fields: vec![field("x", path("u32"), &[]), field("y", path("MyType"), &[])],
        },
        metas,
        serde_plain(),
        &[],
    )
}

fn affix_enum(name: &str, metas: Vec<MetaItem>) -> DeriveInput {
    input(
        name,
        &[],
        ContainerData::EnumData {
            variants: vec![
                variant("VariantA", Style::Newtype, vec![field("0", path("MyType"), &[])], &[]),
                variant("VariantB", Style::Newtype, vec![field("0", path("u32"), &[])], &[]),
            ],
        },
        metas,
        serde_plain(),
        &[],
    )
}

#[test]
fn test_prefix() {
    let s = affix_struct("PrefixedStruct", vec![meta_v("type_prefix", "Special")]);
    assert_eq!(decl(s, false), "export interface SpecialPrefixedStruct {\n    x: number;\n    y: SpecialMyType;\n}");
    let e = affix_enum("PrefixedEnum", vec![meta_v("type_prefix", "Special")]);
    assert_eq!(decl(e, false), "export type SpecialPrefixedEnum = { VariantA: SpecialMyType } | { VariantB: number };");
}

#[test]
fn test_suffix() {
    let s = affix_struct("SuffixedStruct", vec![meta_v("type_suffix", "Special")]);
    assert_eq!(decl(s, false), "export interface SuffixedStructSpecial {\n    x: number;\n    y: MyTypeSpecial;\n}");
    let e = affix_enum("SuffixedEnum", vec![meta_v("type_suffix", "Special")]);
    assert_eq!(decl(e, false), "export type SuffixedEnumSpecial = { VariantA: MyTypeSpecial } | { VariantB: number };");
}

#[test]
fn test_prefix_suffix() {
    let s = affix_struct(
        "DoubleAffixedStruct",
        vec![meta_v("type_prefix", "Pre"), meta_v("type_suffix", "Suf")],
    );
    assert_eq!(decl(s, false), "export interface PreDoubleAffixedStructSuf {\n    x: number;\n    y: PreMyTypeSuf;\n}");
    let e = affix_enum(
        "DoubleAffixedEnum",
        vec![meta_v("type_prefix", "Pre"), meta_v("type_suffix", "Suf")],
    );
    assert_eq!(decl(e, false), "export type PreDoubleAffixedEnumSuf = { VariantA: PreMyTypeSuf } | { VariantB: number };");
}
