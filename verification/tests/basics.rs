//! The built-in type mapping, checked against its rendered text.

use tsify::typescript::ts_type::TsType;

use tsify::attrs::TypeGenerationConfig;
use tsify::input::{ContainerData, DeriveInput, FieldDef, MetaItem, RustType, SerdeAttrs, Style, TagType, VariantDef};

fn cfg(js: bool) -> TypeGenerationConfig {
    TypeGenerationConfig {
        js,
        type_prefix: None,
        type_suffix: None,
        missing_as_null: false,
        hashmap_as_object: false,
        large_number_types_as_bigints: false,
    }
}

fn named(name: &str, args: Vec<RustType>) -> RustType {
    RustType::Named { name: name.to_string(), args, fn_output: None }
}

fn path(name: &str) -> RustType {
    named(name, vec![])
}

fn named_fn(name: &str, args: Vec<RustType>, out: Option<RustType>) -> RustType {
    RustType::Named { name: name.to_string(), args, fn_output: out.map(Box::new) }
}

fn text(c: &TypeGenerationConfig, t: &RustType) -> String {
    TsType::from_source_type(c, t).to_text()
}

#[test]
fn test_basic_types() {
    let js = cfg(true);
    let json = cfg(false);

    let unit = RustType::TupleTy { elems: vec![] };
    assert_eq!(text(&js, &unit), "undefined");
    let unit = RustType::TupleTy { elems: vec![] };
    assert_eq!(text(&json, &unit), "null");

    for n in ["u128", "i128"] {
        assert_eq!(text(&js, &path(n)), "bigint");
        assert_eq!(text(&json, &path(n)), "number");
    }

    for n in ["HashMap", "BTreeMap"] {
        let m = named(n, vec![path("String"), path("i32")]);
        assert_eq!(text(&js, &m), "Map<string, number>");
        let m = named(n, vec![path("String"), path("i32")]);
        assert_eq!(text(&json, &m), "Record<string, number>");
    }

    let opt = named("Option", vec![path("i32")]);
    assert_eq!(text(&js, &opt), "number | undefined");
    let opt = named("Option", vec![path("i32")]);
    assert_eq!(text(&json, &opt), "number | null");

    for n in ["Vec", "VecDeque", "LinkedList"] {
        let v = named(n, vec![named("Option", vec![path("T")])]);
        assert_eq!(text(&js, &v), "(T | undefined)[]");
        let v = named(n, vec![named("Option", vec![path("T")])]);
        assert_eq!(text(&json, &v), "(T | null)[]");
    }
    let sl = RustType::Wrapped {
        elem: Box::new(RustType::Slice {
            elem: Box::new(named("Option", vec![path("T")])),
        }),
    };
    assert_eq!(text(&js, &sl), "(T | undefined)[]");
    let sl = RustType::Wrapped {
        elem: Box::new(RustType::Slice {
            elem: Box::new(named("Option", vec![path("T")])),
        }),
    };
    assert_eq!(text(&json, &sl), "(T | null)[]");

    assert_eq!(text(&json, &path("ByteBuf")), "number[]");
    assert_eq!(text(&js, &path("ByteBuf")), "Uint8Array");

    for n in [
        "u8", "u16", "u32", "u64", "usize", "i8", "i16", "i32", "i64", "isize", "f32", "f64",
    ] {
        assert_eq!(text(&json, &path(n)), "number");
    }
    for n in ["String", "str", "char", "Path", "PathBuf"] {
        assert_eq!(text(&json, &path(n)), "string");
    }
    assert_eq!(text(&json, &path("bool")), "boolean");
    for n in ["Box", "Rc", "Arc", "Cell", "RefCell", "Cow"] {
        assert_eq!(text(&json, &named(n, vec![path("i32")])), "number");
    }
    for n in ["Vec", "VecDeque", "LinkedList"] {
        assert_eq!(text(&json, &named(n, vec![path("i32")])), "number[]");
    }
    let sl = RustType::Wrapped {
        elem: Box::new(RustType::Slice { elem: Box::new(path("i32")) }),
    };
    assert_eq!(text(&json, &sl), "number[]");
    for n in ["HashSet", "BTreeSet"] {
        assert_eq!(text(&json, &named(n, vec![path("i32")])), "number[]");
    }

    let res = named("Result", vec![path("i32"), path("String")]);
    assert_eq!(text(&json, &res), "{\n    Ok: number;\n} | {\n    Err: string;\n}");

    for n in ["Fn", "FnOnce", "FnMut"] {
        let f = RustType::TraitBounds {
            bounds: vec![named_fn(n, vec![path("String"), path("f64")], None)],
        };
        assert_eq!(text(&json, &f), "(arg0: string, arg1: number) => void");
        let f = RustType::TraitBounds {
            bounds: vec![named_fn(n, vec![path("String")], Some(path("i32")))],
        };
        assert_eq!(text(&json, &f), "(arg0: string) => number");
    }

    let paren = RustType::Wrapped { elem: Box::new(path("i32")) };
    assert_eq!(text(&json, &paren), "number");
    let tup = RustType::TupleTy { elems: vec![path("i32"), path("String"), path("bool")] };
    assert_eq!(text(&json, &tup), "[number, string, boolean]");

    let a4 = RustType::FixedArray { elem: Box::new(path("i32")), len: Some(4) };
    assert_eq!(text(&json, &a4), "[number, number, number, number]");
    let a16 = RustType::FixedArray { elem: Box::new(path("i32")), len: Some(16) };
    let mut expected16 = String::from("[");
    for i in 0..16 {
        if i > 0 {
            expected16.push_str(", ");
        }
        expected16.push_str("number");
    }
    expected16.push_str("]");
    assert_eq!(text(&json, &a16), expected16);
    let a17 = RustType::FixedArray { elem: Box::new(path("i32")), len: Some(17) };
    assert_eq!(text(&json, &a17), "number[]");
    let asym = RustType::FixedArray { elem: Box::new(path("i32")), len: None };
    assert_eq!(text(&json, &asym), "number[]");

    assert_eq!(
        text(&json, &path("Duration")),
        "{\n    secs: number;\n    nanos: number;\n}"
    );
    assert_eq!(
        text(&json, &path("SystemTime")),
        "{\n    secs_since_epoch: number;\n    nanos_since_epoch: number;\n}"
    );
    assert_eq!(
        text(&json, &named("Range", vec![path("i32")])),
        "{\n    start: number;\n    end: number;\n}"
    );
    let rs = named(
        "Range",
        vec![RustType::Wrapped { elem: Box::new(path("str")) }],
    );
    assert_eq!(text(&json, &rs), "{\n    start: string;\n    end: string;\n}");
    assert_eq!(
        text(&json, &named("RangeInclusive", vec![path("usize")])),
        "{\n    start: number;\n    end: number;\n}"
    );
}
