//! Golden declaration outputs.

use tsify::attrs::TypeGenerationConfig;
use tsify::input::CaseRule;
use tsify::input::{ContainerData, DeriveInput, FieldDef, MetaItem, RustType, SerdeAttrs, Style, TagType, VariantDef};

fn cfg(js: bool) -> TypeGenerationConfig {
    TypeGenerationConfig {
        js,
        type_prefix: None,
        type_suffix: None,
        missing_as_null: false,
        hashmap_as_object: false,
        large_number_types_as_bigints: false,
    }
}

#[allow(dead_code)]
fn named(name: &str, args: Vec<RustType>) -> RustType {
    RustType::Named { name: name.to_string(), args, fn_output: None }
}

#[allow(dead_code)]
fn path(name: &str) -> RustType {
    named(name, vec![])
}

#[allow(dead_code)]
fn strs(v: &[&str]) -> Vec<String> {
    v.iter().map(|c| c.to_string()).collect()
}

#[allow(dead_code)]
fn field(name: &str, ty: RustType, comments: &[&str]) -> FieldDef {
    FieldDef {
        name: name.to_string(),
        rename: None,
        ty,
        skip_serializing: false,
        skip_deserializing: false,
        flatten: false,
        default: false,
        skip_serializing_if: None,
        metas: vec![],
        comments: strs(comments),
    }
}

#[allow(dead_code)]
fn serde_plain() -> SerdeAttrs {
    SerdeAttrs {
        rename: None,
        rename_all: None,
        rename_all_fields: None,
        tag: TagType::External,
        default: false,
        transparent: false,
    }
}

#[allow(dead_code)]
fn variant(name: &str, style: Style, fields: Vec<FieldDef>, comments: &[&str]) -> VariantDef {
    VariantDef {
        name: name.to_string(),
        rename: None,
        rename_all_fields: None,
        style,
        fields,
        skip_serializing: false,
        skip_deserializing: false,
        comments: strs(comments),
    }
}

#[allow(dead_code)]
fn input(
    ident: &str,
    generics: &[&str],
    data: ContainerData,
    metas: Vec<MetaItem>,
    serde_attrs: SerdeAttrs,
    comments: &[&str],
) -> DeriveInput {
    DeriveInput {
        ident: ident.to_string(),
        generics: strs(generics),
        data,
        metas,
        serde_attrs,
        comments: strs(comments),
    }
}

#[allow(dead_code)]
fn meta(k: &str) -> MetaItem {
    MetaItem { key: k.to_string(), value: None, span: 0 }
}

#[allow(dead_code)]
fn meta_v(k: &str, v: &str) -> MetaItem {
    MetaItem { key: k.to_string(), value: Some(v.to_string()), span: 0 }
}

#[allow(dead_code)]
fn decl(input: DeriveInput, js: bool) -> String {
    tsify::decl_string(input, js).unwrap()
}


fn rfield(name: &str, rename: &str, ty: RustType, comments: &[&str]) -> FieldDef {
    let mut f = field(name, ty, comments);
    f.rename = Some(rename.to_string());
    f
}

#[test]
fn test_rename() {
    let i = input(
        "RenamedStruct",
        &[],
        ContainerData::StructData {
            style: Style::Struct,
            fields: vec![
                rfield("x", "X", path("i32"), &[" Comment for X"]),
                rfield("y", "Y", path("i32"), &[" Comment for Y"]),
            ],
        },
        vec![],
        serde_plain(),
        &[" Comment for RenamedStruct"],
    );
    assert_eq!(decl(i, false), "/**\n * Comment for RenamedStruct\n */\nexport interface RenamedStruct {\n    /**\n     * Comment for X\n     */\n    X: number;\n    /**\n     * Comment for Y\n     */\n    Y: number;\n}");
    let mut a = variant("A", Style::Newtype, vec![field("0", path("bool"), &[])], &[" Comment for X"]);
    a.rename = Some("X".to_string());
    let mut b = variant("B", Style::Newtype, vec![field("0", path("i64"), &[])], &[" Comment for Y"]);
    b.rename = Some("Y".to_string());
    let mut c = variant("C", Style::Newtype, vec![field("0", path("String"), &[])], &[" Comment for Z"]);
    c.rename = Some("Z".to_string());
    let mut d = variant("D", Style::Newtype, vec![field("0", path("i32"), &[])], &[" Comment for D"]);
    d.skip_serializing = true;
    d.skip_deserializing = true;
    let i = input(
        "RenamedEnum",
        &[],
        ContainerData::EnumData { variants: vec![a, b, c, d] },
        vec![],
        serde_plain(),
        &[" Comment for RenamedEnum"],
    );
    assert_eq!(decl(i, false), "/**\n * Comment for RenamedEnum\n */\nexport type RenamedEnum = { X: boolean } | { Y: number } | { Z: string };");
}

#[test]
fn test_rename_all() {
    let boolf = |n: &str| field(n, path("bool"), &[]);
    let mk = |name: &str, rule: Option<CaseRule>, c: &str| {
        let mut v = variant(
            name,
            Style::Struct,
            vec![boolf("foo"), boolf("foo_bar")],
            &[c],
        );
        v.rename_all_fields = rule;
        v
    };
    let mut serde_attrs = serde_plain();
    serde_attrs.rename_all = Some(CaseRule::Snake);
    let i = input(
        "Enum",
        &[],
        ContainerData::EnumData {
            variants: vec![
                mk("SnakeCase", None, " Comment for snake_case"),
                mk("CamelCase", Some(CaseRule::Camel), " Comment for camel_case"),
                mk("KebabCase", Some(CaseRule::Kebab), " Comment for kebab_case"),
                mk(
                    "ScreamingSnakeCase",
                    Some(CaseRule::ScreamingSnake),
                    " Comment for screaming_snake_case",
                ),
            ],
        },
        vec![meta("namespace")],
        serde_attrs,
        &[" Comment for Enum"],
    );
    assert_eq!(decl(i, false), "/**\n * Comment for Enum\n */\ndeclare namespace Enum {\n    /**\n     * Comment for snake_case\n     */\n    export type snake_case = { snake_case: { foo: boolean; foo_bar: boolean } };\n    /**\n     * Comment for camel_case\n     */\n    export type camel_case = { camel_case: { foo: boolean; fooBar: boolean } };\n    /**\n     * Comment for kebab_case\n     */\n    export type kebab_case = { kebab_case: { foo: boolean; \"foo-bar\": boolean } };\n    /**\n     * Comment for screaming_snake_case\n     */\n    export type screaming_snake_case = { screaming_snake_case: { FOO: boolean; FOO_BAR: boolean } };\n}\n\n/**\n * Comment for Enum\n */\nexport type Enum = { snake_case: { foo: boolean; foo_bar: boolean } } | { camel_case: { foo: boolean; fooBar: boolean } } | { kebab_case: { foo: boolean; \"foo-bar\": boolean } } | { screaming_snake_case: { FOO: boolean; FOO_BAR: boolean } };");

    let mut serde_attrs = serde_plain();
    serde_attrs.rename_all = Some(CaseRule::Pascal);
    let i = input(
        "PascalCase",
        &[],
        ContainerData::StructData {
            style: Style::Struct,
            fields: vec![
                field("foo", path("bool"), &[" Comment for Foo"]),
                field("foo_bar", path("bool"), &[" Comment for FooBar"]),
            ],
        },
        vec![],
        serde_attrs,
        &[" Comment for PascalCase"],
    );
    assert_eq!(decl(i, false), "/**\n * Comment for PascalCase\n */\nexport interface PascalCase {\n    /**\n     * Comment for Foo\n     */\n    Foo: boolean;\n    /**\n     * Comment for FooBar\n     */\n    FooBar: boolean;\n}");

    let mut serde_attrs = serde_plain();
    serde_attrs.rename_all = Some(CaseRule::ScreamingKebab);
    let i = input(
        "ScreamingKebab",
        &[],
        ContainerData::StructData {
            style: Style::Struct,
            fields: vec![
                field("foo", path("bool"), &[" Comment for FOO"]),
                field("foo_bar", path("bool"), &[" Comment for FOO-BAR"]),
            ],
        },
        vec![],
        serde_attrs,
        &[" Comment for ScreamingKebab"],
    );
    assert_eq!(decl(i, false), "/**\n * Comment for ScreamingKebab\n */\nexport interface ScreamingKebab {\n    /**\n     * Comment for FOO\n     */\n    FOO: boolean;\n    /**\n     * Comment for FOO-BAR\n     */\n    \"FOO-BAR\": boolean;\n}");
}

#[test]
fn test_quote_non_identifiers() {
    let i = input(
        "NonIdentifierRenameStruct",
        &[],
        ContainerData::StructData {
            style: Style::Struct,
            fields: vec![
                rfield("x", "1", path("i32"), &[]),
                rfield("y", "1x", path("i32"), &[]),
                rfield("z", "-", path("i32"), &[]),
                rfield("w", " ", path("i32"), &[]),
                rfield("q", "#", path("i32"), &[]),
                rfield("p", "should_not_quote", path("i32"), &[]),
                rfield("r", "should$not$quote", path("i32"), &[]),
            ],
        },
        vec![],
        serde_plain(),
        &[],
    );
    assert_eq!(decl(i, false), "export interface NonIdentifierRenameStruct {\n    \"1\": number;\n    \"1x\": number;\n    \"-\": number;\n    \" \": number;\n    \"#\": number;\n    should_not_quote: number;\n    should$not$quote: number;\n}");

    let mut a = variant("A", Style::Newtype, vec![field("0", path("bool"), &[])], &[]);
    a.rename = Some("hello-world".to_string());
    let mut b = variant("B", Style::Newtype, vec![field("0", path("i64"), &[])], &[]);
    b.rename = Some("hel#&*world".to_string());
    let mut c = variant("C", Style::Newtype, vec![field("0", path("String"), &[])], &[]);
    c.rename = Some("hello world".to_string());
    let mut d = variant("D", Style::Newtype, vec![field("0", path("i32"), &[])], &[]);
    d.rename = Some("".to_string());
    let mut e = variant("E", Style::Newtype, vec![field("0", path("String"), &[])], &[]);
    e.rename = Some("should_not_quote".to_string());
    let i = input(
        "NonIdentifierRenameEnum",
        &[],
        ContainerData::EnumData { variants: vec![a, b, c, d, e] },
        vec![],
        serde_plain(),
        &[],
    );
    assert_eq!(decl(i, false), "export type NonIdentifierRenameEnum = { \"hello-world\": boolean } | { \"hel#&*world\": number } | { \"hello world\": string } | { \"\": number } | { should_not_quote: string };");
}
