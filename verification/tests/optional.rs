//! Golden declaration outputs.

use tsify::attrs::TypeGenerationConfig;
use tsify::input::CaseRule;
use tsify::input::{ContainerData, DeriveInput, FieldDef, MetaItem, RustType, SerdeAttrs, Style, TagType, VariantDef};

fn cfg(js: bool) -> TypeGenerationConfig {
    TypeGenerationConfig {
        js,
        type_prefix: None,
        type_suffix: None,
        missing_as_null: false,
        hashmap_as_object: false,
        large_number_types_as_bigints: false,
    }
}

#[allow(dead_code)]
fn named(name: &str, args: Vec<RustType>) -> RustType {
    RustType::Named { name: name.to_string(), args, fn_output: None }
}

#[allow(dead_code)]
fn path(name: &str) -> RustType {
    named(name, vec![])
}

#[allow(dead_code)]
fn strs(v: &[&str]) -> Vec<String> {
    v.iter().map(|c| c.to_string()).collect()
}

#[allow(dead_code)]
fn field(name: &str, ty: RustType, comments: &[&str]) -> FieldDef {
    FieldDef {
        name: name.to_string(),
        rename: None,
        ty,
        skip_serializing: false,
        skip_deserializing: false,
        flatten: false,
        default: false,
        skip_serializing_if: None,
        metas: vec![],
        comments: strs(comments),
    }
}

#[allow(dead_code)]
fn serde_plain() -> SerdeAttrs {
    SerdeAttrs {
        rename: None,
        rename_all: None,
        rename_all_fields: None,
        tag: TagType::External,
        default: false,
        transparent: false,
    }
}

#[allow(dead_code)]
fn variant(name: &str, style: Style, fields: Vec<FieldDef>, comments: &[&str]) -> VariantDef {
    VariantDef {
        name: name.to_string(),
        rename: None,
        rename_all_fields: None,
        style,
        fields,
        skip_serializing: false,
        skip_deserializing: false,
        comments: strs(comments),
    }
}

#[allow(dead_code)]
fn input(
    ident: &str,
    generics: &[&str],
    data: ContainerData,
    metas: Vec<MetaItem>,
    serde_attrs: SerdeAttrs,
    comments: &[&str],
) -> DeriveInput {
    DeriveInput {
        ident: ident.to_string(),
        generics: strs(generics),
        data,
        metas,
        serde_attrs,
        comments: strs(comments),
    }
}

#[allow(dead_code)]
fn meta(k: &str) -> MetaItem {
    MetaItem { key: k.to_string(), value: None, span: 0 }
}

#[allow(dead_code)]
fn meta_v(k: &str, v: &str) -> MetaItem {
    MetaItem { key: k.to_string(), value: Some(v.to_string()), span: 0 }
}

#[allow(dead_code)]
fn decl(input: DeriveInput, js: bool) -> String {
    tsify::decl_string(input, js).unwrap()
}


#[test]
fn test_optional() {
    let mk = || {
        let mut a = field("a", named("Option", vec![path("i32")]), &[" Comment for a"]);
        a.metas = vec![meta("optional")];
        let mut b = field("b", named("Option", vec![path("String")]), &[" Comment for b"]);
        b.skip_serializing_if = Some("Option::is_none".to_string());
        let mut c = field("c", path("i32"), &[" Comment for c"]);
        c.default = true;
        let mut d = field("d", named("Option", vec![path("String")]), &[" Comment for d"]);
        d.default = true;
        input(
            "Optional",
            &[],
            ContainerData::StructData { style: Style::Struct, fields: vec![a, b, c, d] },
            vec![],
            serde_plain(),
            &[" Comment for Optional"],
        )
    };
    assert_eq!(decl(mk(), true), "/**\n * Comment for Optional\n */\nexport interface Optional {\n    /**\n     * Comment for a\n     */\n    a?: number;\n    /**\n     * Comment for b\n     */\n    b?: string;\n    /**\n     * Comment for c\n     */\n    c?: number;\n    /**\n     * Comment for d\n     */\n    d?: string | undefined;\n}");
    assert_eq!(decl(mk(), false), "/**\n * Comment for Optional\n */\nexport interface Optional {\n    /**\n     * Comment for a\n     */\n    a?: number;\n    /**\n     * Comment for b\n     */\n    b?: string;\n    /**\n     * Comment for c\n     */\n    c?: number;\n    /**\n     * Comment for d\n     */\n    d?: string | null;\n}");

    let mk = || {
        let mut serde_attrs = serde_plain();
        serde_attrs.default = true;
        input(
            "OptionalAll",
            &[],
            ContainerData::StructData {
                style: Style::Struct,
                fields: vec![
                    field("a", path("i32"), &[" Comment for a"]),
                    field("b", path("i32"), &[" Comment for b"]),
                    field("c", named("Option", vec![path("i32")]), &[" Comment for c"]),
                ],
            },
            vec![],
            serde_attrs,
            &[" Comment for OptionalAll"],
        )
    };
    assert_eq!(decl(mk(), true), "/**\n * Comment for OptionalAll\n */\nexport interface OptionalAll {\n    /**\n     * Comment for a\n     */\n    a?: number;\n    /**\n     * Comment for b\n     */\n    b?: number;\n    /**\n     * Comment for c\n     */\n    c?: number | undefined;\n}");
    assert_eq!(decl(mk(), false), "/**\n * Comment for OptionalAll\n */\nexport interface OptionalAll {\n    /**\n     * Comment for a\n     */\n    a?: number;\n    /**\n     * Comment for b\n     */\n    b?: number;\n    /**\n     * Comment for c\n     */\n    c?: number | null;\n}");
}
