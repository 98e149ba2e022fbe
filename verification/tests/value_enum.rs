//! Golden declaration outputs.

use tsify::attrs::TypeGenerationConfig;
use tsify::input::CaseRule;
use tsify::input::{ContainerData, DeriveInput, FieldDef, MetaItem, RustType, SerdeAttrs, Style, TagType, VariantDef};

fn cfg(js: bool) -> TypeGenerationConfig {
    TypeGenerationConfig {
        js,
        type_prefix: None,
        type_suffix: None,
        missing_as_null: false,
        hashmap_as_object: false,
        large_number_types_as_bigints: false,
    }
}

#[allow(dead_code)]
fn named(name: &str, args: Vec<RustType>) -> RustType {
    RustType::Named { name: name.to_string(), args, fn_output: None }
}

#[allow(dead_code)]
fn path(name: &str) -> RustType {
    named(name, vec![])
}

#[allow(dead_code)]
fn strs(v: &[&str]) -> Vec<String> {
    v.iter().map(|c| c.to_string()).collect()
}

#[allow(dead_code)]
fn field(name: &str, ty: RustType, comments: &[&str]) -> FieldDef {
    FieldDef {
        name: name.to_string(),
        rename: None,
        ty,
        skip_serializing: false,
        skip_deserializing: false,
        flatten: false,
        default: false,
        skip_serializing_if: None,
        metas: vec![],
        comments: strs(comments),
    }
}

#[allow(dead_code)]
fn serde_plain() -> SerdeAttrs {
    SerdeAttrs {
        rename: None,
        rename_all: None,
        rename_all_fields: None,
        tag: TagType::External,
        default: false,
        transparent: false,
    }
}

#[allow(dead_code)]
fn variant(name: &str, style: Style, fields: Vec<FieldDef>, comments: &[&str]) -> VariantDef {
    VariantDef {
        name: name.to_string(),
        rename: None,
        rename_all_fields: None,
        style,
        fields,
        skip_serializing: false,
        skip_deserializing: false,
        comments: strs(comments),
    }
}

#[allow(dead_code)]
fn input(
    ident: &str,
    generics: &[&str],
    data: ContainerData,
    metas: Vec<MetaItem>,
    serde_attrs: SerdeAttrs,
    comments: &[&str],
) -> DeriveInput {
    DeriveInput {
        ident: ident.to_string(),
        generics: strs(generics),
        data,
        metas,
        serde_attrs,
        comments: strs(comments),
    }
}

#[allow(dead_code)]
fn meta(k: &str) -> MetaItem {
    MetaItem { key: k.to_string(), value: None, span: 0 }
}

#[allow(dead_code)]
fn meta_v(k: &str, v: &str) -> MetaItem {
    MetaItem { key: k.to_string(), value: Some(v.to_string()), span: 0 }
}

#[allow(dead_code)]
fn decl(input: DeriveInput, js: bool) -> String {
    tsify::decl_string(input, js).unwrap()
}


fn unit_variants(names: &[&str]) -> Vec<VariantDef> {
    let cs = [" Comment for Struct", " Comment for EmptyStruct", " Comment for Tuple"];
    names
        .iter()
        .enumerate()
        .map(|(i, n)| variant(n, Style::Unit, vec![], &[cs[i]]))
        .collect()
}

#[test]
fn value_enum() {
    let i = input(
        "External",
        &[],
        ContainerData::EnumData { variants: unit_variants(&["Alpha", "Beta", "Gamma"]) },
        vec![meta("value_enum")],
        serde_plain(),
        &[" Comment for External"],
    );
    assert_eq!(decl(i, false), "export enum External {\n    /**\n     * Comment for Struct\n     */\n    Alpha = \"Alpha\",\n    /**\n     * Comment for EmptyStruct\n     */\n    Beta = \"Beta\",\n    /**\n     * Comment for Tuple\n     */\n    Gamma = \"Gamma\",\n}");
}

#[test]
fn value_enum_renamed() {
    let mut serde_attrs = serde_plain();
    serde_attrs.rename_all = Some(CaseRule::Camel);
    let i = input(
        "External",
        &[],
        ContainerData::EnumData { variants: unit_variants(&["Alpha", "Beta", "GammaDelta"]) },
        vec![meta("value_enum")],
        serde_attrs,
        &[" Comment for External"],
    );
    assert_eq!(decl(i, false), "export enum External {\n    /**\n     * Comment for Struct\n     */\n    alpha = \"alpha\",\n    /**\n     * Comment for EmptyStruct\n     */\n    beta = \"beta\",\n    /**\n     * Comment for Tuple\n     */\n    gammaDelta = \"gammaDelta\",\n}");
}

#[test]
fn value_enum_renamed_variants() {
    let mut serde_attrs = serde_plain();
    serde_attrs.rename_all = Some(CaseRule::Kebab);
    let i = input(
        "External",
        &[],
        ContainerData::EnumData { variants: unit_variants(&["Alpha", "Beta", "GammaDelta"]) },
        vec![meta("value_enum"), meta("rename_variants")],
        serde_attrs,
        &[" Comment for External"],
    );
    assert_eq!(decl(i, false), "export enum External {\n    /**\n     * Comment for Struct\n     */\n    Alpha = \"alpha\",\n    /**\n     * Comment for EmptyStruct\n     */\n    Beta = \"beta\",\n    /**\n     * Comment for Tuple\n     */\n    GammaDelta = \"gamma-delta\",\n}");
}
