//! Golden declaration outputs.

use tsify::attrs::TypeGenerationConfig;
use tsify::input::{ContainerData, DeriveInput, FieldDef, MetaItem, RustType, SerdeAttrs, Style, TagType, VariantDef};

fn cfg(js: bool) -> TypeGenerationConfig {
    TypeGenerationConfig {
        js,
        type_prefix: None,
        type_suffix: None,
        missing_as_null: false,
        hashmap_as_object: false,
        large_number_types_as_bigints: false,
    }
}

#[allow(dead_code)]
fn named(name: &str, args: Vec<RustType>) -> RustType {
    RustType::Named { name: name.to_string(), args, fn_output: None }
}

#[allow(dead_code)]
fn path(name: &str) -> RustType {
    named(name, vec![])
}

#[allow(dead_code)]
fn strs(v: &[&str]) -> Vec<String> {
    v.iter().map(|c| c.to_string()).collect()
}

#[allow(dead_code)]
fn field(name: &str, ty: RustType, comments: &[&str]) -> FieldDef {
    FieldDef {
        name: name.to_string(),
        rename: None,
        ty,
        skip_serializing: false,
        skip_deserializing: false,
        flatten: false,
        default: false,
        skip_serializing_if: None,
        metas: vec![],
        comments: strs(comments),
    }
}

#[allow(dead_code)]
fn serde_plain() -> SerdeAttrs {
    SerdeAttrs {
        rename: None,
        rename_all: None,
        rename_all_fields: None,
        tag: TagType::External,
        default: false,
        transparent: false,
    }
}

#[allow(dead_code)]
fn variant(name: &str, style: Style, fields: Vec<FieldDef>, comments: &[&str]) -> VariantDef {
    VariantDef {
        name: name.to_string(),
        rename: None,
        rename_all_fields: None,
        style,
        fields,
        skip_serializing: false,
        skip_deserializing: false,
        comments: strs(comments),
    }
}

#[allow(dead_code)]
fn input(
    ident: &str,
    generics: &[&str],
    data: ContainerData,
    metas: Vec<MetaItem>,
    serde_attrs: SerdeAttrs,
    comments: &[&str],
) -> DeriveInput {
    DeriveInput {
        ident: ident.to_string(),
        generics: strs(generics),
        data,
        metas,
        serde_attrs,
        comments: strs(comments),
    }
}

#[allow(dead_code)]
fn meta(k: &str) -> MetaItem {
    MetaItem { key: k.to_string(), value: None, span: 0 }
}

#[allow(dead_code)]
fn meta_v(k: &str, v: &str) -> MetaItem {
    MetaItem { key: k.to_string(), value: Some(v.to_string()), span: 0 }
}

#[allow(dead_code)]
fn decl(input: DeriveInput, js: bool) -> String {
    tsify::decl_string(input, js).unwrap()
}

fn six_variants() -> Vec<VariantDef> {
    vec![
        variant(
            "Struct",
            Style::Struct,
            vec![field("x", path("String"), &[]), field("y", path("i32"), &[])],
            &[" Comment for Struct"],
        ),
        variant("EmptyStruct", Style::Struct, vec![], &[" Comment for EmptyStruct"]),
        variant(
            "Tuple",
            Style::Tuple,
            vec![field("0", path("i32"), &[]), field("1", path("String"), &[])],
            &[" Comment for Tuple"],
        ),
        variant("EmptyTuple", Style::Tuple, vec![], &[" Comment for EmptyTuple"]),
        variant("Newtype", Style::Newtype, vec![field("0", path("Foo"), &[])], &[" Comment for Newtype"]),
        variant("Unit", Style::Unit, vec![], &[" Comment for Unit"]),
    ]
}

fn four_variants() -> Vec<VariantDef> {
    vec![
        variant(
            "Struct",
            Style::Struct,
            vec![field("x", path("String"), &[]), field("y", path("i32"), &[])],
            &[" Comment for Struct"],
        ),
        variant("EmptyStruct", Style::Struct, vec![], &[" Comment for EmptyStruct"]),
        variant("Newtype", Style::Newtype, vec![field("0", path("Foo"), &[])], &[" Comment for Newtype"]),
        variant("Unit", Style::Unit, vec![], &[" Comment for Unit"]),
    ]
}

#[test]
fn test_externally_tagged_enum() {
    let i = input(
        "External",
        &[],
        ContainerData::EnumData { variants: six_variants() },
        vec![],
        serde_plain(),
        &[" Comment for External"],
    );
    assert_eq!(decl(i, false), "/**\n * Comment for External\n */\nexport type External = { Struct: { x: string; y: number } } | { EmptyStruct: {} } | { Tuple: [number, string] } | { EmptyTuple: [] } | { Newtype: Foo } | \"Unit\";");
}

#[test]
fn test_externally_tagged_enum_with_namespace() {
    let i = input(
        "External",
        &[],
        ContainerData::EnumData { variants: six_variants() },
        vec![meta("namespace")],
        serde_plain(),
        &[" Comment for External"],
    );
    assert_eq!(decl(i, false), "type __ExternalFoo = Foo;\n/**\n * Comment for External\n */\ndeclare namespace External {\n    /**\n     * Comment for Struct\n     */\n    export type Struct = { Struct: { x: string; y: number } };\n    /**\n     * Comment for EmptyStruct\n     */\n    export type EmptyStruct = { EmptyStruct: {} };\n    /**\n     * Comment for Tuple\n     */\n    export type Tuple = { Tuple: [number, string] };\n    /**\n     * Comment for EmptyTuple\n     */\n    export type EmptyTuple = { EmptyTuple: [] };\n    /**\n     * Comment for Newtype\n     */\n    export type Newtype = { Newtype: __ExternalFoo };\n    /**\n     * Comment for Unit\n     */\n    export type Unit = \"Unit\";\n}\n\n/**\n * Comment for External\n */\nexport type External = { Struct: { x: string; y: number } } | { EmptyStruct: {} } | { Tuple: [number, string] } | { EmptyTuple: [] } | { Newtype: Foo } | \"Unit\";");
}

#[test]
fn test_internally_tagged_enum() {
    let mut serde_attrs = serde_plain();
    serde_attrs.tag = TagType::Internal { tag: "t".to_string() };
    let i = input(
        "Internal",
        &[],
        ContainerData::EnumData { variants: four_variants() },
        vec![],
        serde_attrs,
        &[" Comment for Internal"],
    );
    assert_eq!(decl(i, false), "/**\n * Comment for Internal\n */\nexport type Internal = { t: \"Struct\"; x: string; y: number } | { t: \"EmptyStruct\" } | ({ t: \"Newtype\" } & Foo) | { t: \"Unit\" };");
}

#[test]
fn test_internally_tagged_enum_with_namespace() {
    let mut serde_attrs = serde_plain();
    serde_attrs.tag = TagType::Internal { tag: "t".to_string() };
    let i = input(
        "Internal",
        &[],
        ContainerData::EnumData { variants: four_variants() },
        vec![meta("namespace")],
        serde_attrs,
        &[" Comment for Internal"],
    );
    assert_eq!(decl(i, false), "type __InternalFoo = Foo;\n/**\n * Comment for Internal\n */\ndeclare namespace Internal {\n    /**\n     * Comment for Struct\n     */\n    export type Struct = { t: \"Struct\"; x: string; y: number };\n    /**\n     * Comment for EmptyStruct\n     */\n    export type EmptyStruct = { t: \"EmptyStruct\" };\n    /**\n     * Comment for Newtype\n     */\n    export type Newtype = { t: \"Newtype\" } & __InternalFoo;\n    /**\n     * Comment for Unit\n     */\n    export type Unit = { t: \"Unit\" };\n}\n\n/**\n * Comment for Internal\n */\nexport type Internal = { t: \"Struct\"; x: string; y: number } | { t: \"EmptyStruct\" } | ({ t: \"Newtype\" } & Foo) | { t: \"Unit\" };");
}

#[test]
fn test_adjacently_tagged_enum() {
    let mut serde_attrs = serde_plain();
    serde_attrs.tag = TagType::Adjacent { tag: "t".to_string(), content: "c".to_string() };
    let i = input(
        "Adjacent",
        &[],
        ContainerData::EnumData { variants: six_variants() },
        vec![],
        serde_attrs,
        &[" Comment for Adjacent"],
    );
    assert_eq!(decl(i, false), "/**\n * Comment for Adjacent\n */\nexport type Adjacent = { t: \"Struct\"; c: { x: string; y: number } } | { t: \"EmptyStruct\"; c: {} } | { t: \"Tuple\"; c: [number, string] } | { t: \"EmptyTuple\"; c: [] } | { t: \"Newtype\"; c: Foo } | { t: \"Unit\" };");
}

#[test]
fn test_adjacently_tagged_enum_with_namespace() {
    let mut serde_attrs = serde_plain();
    serde_attrs.tag = TagType::Adjacent { tag: "t".to_string(), content: "c".to_string() };
    let i = input(
        "Adjacent",
        &[],
        ContainerData::EnumData { variants: six_variants() },
        vec![meta("namespace")],
        serde_attrs,
        &[" Comment for Adjacent"],
    );
    assert_eq!(decl(i, false), "type __AdjacentFoo = Foo;\n/**\n * Comment for Adjacent\n */\ndeclare namespace Adjacent {\n    /**\n     * Comment for Struct\n     */\n    export type Struct = { t: \"Struct\"; c: { x: string; y: number } };\n    /**\n     * Comment for EmptyStruct\n     */\n    export type EmptyStruct = { t: \"EmptyStruct\"; c: {} };\n    /**\n     * Comment for Tuple\n     */\n    export type Tuple = { t: \"Tuple\"; c: [number, string] };\n    /**\n     * Comment for EmptyTuple\n     */\n    export type EmptyTuple = { t: \"EmptyTuple\"; c: [] };\n    /**\n     * Comment for Newtype\n     */\n    export type Newtype = { t: \"Newtype\"; c: __AdjacentFoo };\n    /**\n     * Comment for Unit\n     */\n    export type Unit = { t: \"Unit\" };\n}\n\n/**\n * Comment for Adjacent\n */\nexport type Adjacent = { t: \"Struct\"; c: { x: string; y: number } } | { t: \"EmptyStruct\"; c: {} } | { t: \"Tuple\"; c: [number, string] } | { t: \"EmptyTuple\"; c: [] } | { t: \"Newtype\"; c: Foo } | { t: \"Unit\" };");
}

#[test]
fn enum_test_untagged_enum() {
    let mk = || {
        let mut serde_attrs = serde_plain();
        serde_attrs.tag = TagType::Untagged;
        input(
            "Untagged",
            &[],
            ContainerData::EnumData { variants: six_variants() },
            vec![],
            serde_attrs,
            &[" Comment for Untagged"],
        )
    };
    assert_eq!(decl(mk(), true), "/**\n * Comment for Untagged\n */\nexport type Untagged = { x: string; y: number } | {} | [number, string] | [] | Foo | undefined;");
    assert_eq!(decl(mk(), false), "/**\n * Comment for Untagged\n */\nexport type Untagged = { x: string; y: number } | {} | [number, string] | [] | Foo | null;");
}

#[test]
fn enum_test_untagged_enum_with_namespace() {
    let mk = || {
        let mut serde_attrs = serde_plain();
        serde_attrs.tag = TagType::Untagged;
        input(
            "Untagged",
            &[],
            ContainerData::EnumData { variants: six_variants() },
            vec![meta("namespace")],
            serde_attrs,
            &[" Comment for Untagged"],
        )
    };
    assert_eq!(decl(mk(), true), "type __UntaggedFoo = Foo;\n/**\n * Comment for Untagged\n */\ndeclare namespace Untagged {\n    /**\n     * Comment for Struct\n     */\n    export type Struct = { x: string; y: number };\n    /**\n     * Comment for EmptyStruct\n     */\n    export type EmptyStruct = {};\n    /**\n     * Comment for Tuple\n     */\n    export type Tuple = [number, string];\n    /**\n     * Comment for EmptyTuple\n     */\n    export type EmptyTuple = [];\n    /**\n     * Comment for Newtype\n     */\n    export type Newtype = __UntaggedFoo;\n    /**\n     * Comment for Unit\n     */\n    export type Unit = undefined;\n}\n\n/**\n * Comment for Untagged\n */\nexport type Untagged = { x: string; y: number } | {} | [number, string] | [] | Foo | undefined;");
    assert_eq!(decl(mk(), false), "type __UntaggedFoo = Foo;\n/**\n * Comment for Untagged\n */\ndeclare namespace Untagged {\n    /**\n     * Comment for Struct\n     */\n    export type Struct = { x: string; y: number };\n    /**\n     * Comment for EmptyStruct\n     */\n    export type EmptyStruct = {};\n    /**\n     * Comment for Tuple\n     */\n    export type Tuple = [number, string];\n    /**\n     * Comment for EmptyTuple\n     */\n    export type EmptyTuple = [];\n    /**\n     * Comment for Newtype\n     */\n    export type Newtype = __UntaggedFoo;\n    /**\n     * Comment for Unit\n     */\n    export type Unit = null;\n}\n\n/**\n * Comment for Untagged\n */\nexport type Untagged = { x: string; y: number } | {} | [number, string] | [] | Foo | null;");
}

#[test]
fn test_module_reimport_enum() {
    let mut vs = six_variants();
    vs.insert(
        5,
        variant(
            "Newtype2",
            Style::Newtype,
            vec![field("0", path("Foo"), &[])],
            &[" Comment for Newtype2"],
        ),
    );
    let i = input(
        "Internal",
        &[],
        ContainerData::EnumData { variants: vs },
        vec![meta("namespace")],
        serde_plain(),
        &[" Comment for Internal"],
    );
    assert_eq!(decl(i, false), "type __InternalFoo = Foo;\n/**\n * Comment for Internal\n */\ndeclare namespace Internal {\n    /**\n     * Comment for Struct\n     */\n    export type Struct = { Struct: { x: string; y: number } };\n    /**\n     * Comment for EmptyStruct\n     */\n    export type EmptyStruct = { EmptyStruct: {} };\n    /**\n     * Comment for Tuple\n     */\n    export type Tuple = { Tuple: [number, string] };\n    /**\n     * Comment for EmptyTuple\n     */\n    export type EmptyTuple = { EmptyTuple: [] };\n    /**\n     * Comment for Newtype\n     */\n    export type Newtype = { Newtype: __InternalFoo };\n    /**\n     * Comment for Newtype2\n     */\n    export type Newtype2 = { Newtype2: __InternalFoo };\n    /**\n     * Comment for Unit\n     */\n    export type Unit = \"Unit\";\n}\n\n/**\n * Comment for Internal\n */\nexport type Internal = { Struct: { x: string; y: number } } | { EmptyStruct: {} } | { Tuple: [number, string] } | { EmptyTuple: [] } | { Newtype: Foo } | { Newtype2: Foo } | \"Unit\";");
}

#[test]
fn test_module_template_enum() {
    let vs = vec![
        variant(
            "Newtype",
            Style::Newtype,
            vec![field("0", named("Test", vec![path("T")]), &[])],
            &[" Comment for Newtype"],
        ),
        variant(
            "NewtypeF",
            Style::Newtype,
            vec![field("0", named("Test", vec![path("Foo")]), &[])],
            &[" Comment for NewtypeF"],
        ),
        variant(
            "NewtypeL",
            Style::Newtype,
            vec![field("0", named("Test", vec![path("Foo")]), &[])],
            &[" Comment for NewtypeL"],
        ),
        variant("Unit", Style::Unit, vec![], &[" Comment for Unit"]),
    ];
    let i = input(
        "Internal",
        &["T"],
        ContainerData::EnumData { variants: vs },
        vec![meta("namespace")],
        serde_plain(),
        &[" Comment for Internal"],
    );
    assert_eq!(decl(i, false), "type __InternalFoo = Foo;\ntype __InternalTest<A> = Test<A>;\n/**\n * Comment for Internal\n */\ndeclare namespace Internal {\n    /**\n     * Comment for Newtype\n     */\n    export type Newtype<T> = { Newtype: __InternalTest<T> };\n    /**\n     * Comment for NewtypeF\n     */\n    export type NewtypeF = { NewtypeF: __InternalTest<__InternalFoo> };\n    /**\n     * Comment for NewtypeL\n     */\n    export type NewtypeL = { NewtypeL: __InternalTest<__InternalFoo> };\n    /**\n     * Comment for Unit\n     */\n    export type Unit = \"Unit\";\n}\n\n/**\n * Comment for Internal\n */\nexport type Internal<T> = { Newtype: Test<T> } | { NewtypeF: Test<Foo> } | { NewtypeL: Test<Foo> } | \"Unit\";");
}

#[test]
fn test_module_template_enum_inner() {
    let vs = vec![
        variant(
            "Newtype",
            Style::Newtype,
            vec![field("0", named("Test", vec![path("Foo")]), &[])],
            &[" Comment for Newtype"],
        ),
        variant("Unit", Style::Unit, vec![], &[" Comment for Unit"]),
    ];
    let i = input(
        "Internal",
        &[],
        ContainerData::EnumData { variants: vs },
        vec![meta("namespace")],
        serde_plain(),
        &[" Comment for Internal"],
    );
    assert_eq!(decl(i, false), "type __InternalFoo = Foo;\ntype __InternalTest<A> = Test<A>;\n/**\n * Comment for Internal\n */\ndeclare namespace Internal {\n    /**\n     * Comment for Newtype\n     */\n    export type Newtype = { Newtype: __InternalTest<__InternalFoo> };\n    /**\n     * Comment for Unit\n     */\n    export type Unit = \"Unit\";\n}\n\n/**\n * Comment for Internal\n */\nexport type Internal = { Newtype: Test<Foo> } | \"Unit\";");
}
