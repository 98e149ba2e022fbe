//! Translation of Rust type expressions into TypeScript type nodes: the
//! built-in name table and the recursive shape walker.

use vstd::prelude::*;

use crate::attrs::{spec_format_name, TypeGenerationConfig};
use crate::input::RustType;
use crate::typescript::basic::{
    spec_null_type, KeyM, NullType, TsKeywordTypeKind, TsTypeElement, TsTypeElementKey, TsTypeLit,
};
use crate::typescript::ts_type::{lemma_members_view, lemma_tys_view, tys_view, MemberM, TsType, TyM};

verus! {

/// A one-member model object `{ key: t }` without comments.
pub open spec fn lit_member(key: Seq<char>, t: TyM) -> MemberM {
    MemberM { key: KeyM::Lit(key), type_ann: t, optional: false, comments: Seq::empty() }
}


/// Size of a type expression, the termination measure of the walker.
pub open spec fn rt_size(t: RustType) -> nat
    decreases t,
{
    match t {
        RustType::Named { args, fn_output, .. } => rts_size(args@) + opt_size(fn_output) + 2,
        RustType::FixedArray { elem, .. } => rt_size(*elem) + 1,
        RustType::Slice { elem } => rt_size(*elem) + 1,
        RustType::Wrapped { elem } => rt_size(*elem) + 1,
        RustType::BareFn { params, output } => rts_size(params@) + opt_size(output) + 1,
        RustType::TupleTy { elems } => rts_size(elems@) + 1,
        RustType::TraitBounds { bounds } => rts_size(bounds@) + 1,
        RustType::Unsupported => 1,
    }
}

/// Size of a list of type expressions.
pub open spec fn rts_size(ts: Seq<RustType>) -> nat
    decreases ts,
{
    if ts.len() == 0 {
        0
    } else {
        rts_size(ts.drop_last()) + rt_size(ts.last()) + 1
    }
}

/// Size of an optional boxed type expression.
pub open spec fn opt_size(t: Option<Box<RustType>>) -> nat
    decreases t,
{
    match t {
        Some(b) => rt_size(*b) + 1,
        None => 0,
    }
}

pub proof fn lemma_rts_size(ts: Seq<RustType>)
    ensures
        forall|i: int| 0 <= i < ts.len() ==> rt_size(#[trigger] ts[i]) < rts_size(ts),
    decreases ts.len(),
{
    if ts.len() > 0 {
        lemma_rts_size(ts.drop_last());
        assert forall|i: int| 0 <= i < ts.len() implies rt_size(#[trigger] ts[i]) < rts_size(
            ts,
        ) by {
            if i < ts.len() - 1 {
                assert(ts.drop_last()[i] == ts[i]);
            }
        }
    }
}

/// The models of a list of type expressions, element by element.
pub open spec fn spec_from_list(cfg: &TypeGenerationConfig, ts: Seq<RustType>) -> Seq<TyM>
    decreases rts_size(ts), 1int,
{
    if ts.len() == 0 {
        Seq::empty()
    } else {
        spec_from_list(cfg, ts.drop_last()).push(spec_from_source(cfg, ts.last()))
    }
}

pub proof fn lemma_spec_from_list(cfg: &TypeGenerationConfig, ts: Seq<RustType>)
    ensures
        spec_from_list(cfg, ts).len() == ts.len(),
        forall|i: int|
            0 <= i < ts.len() ==> spec_from_list(cfg, ts)[i] == spec_from_source(
                cfg,
                #[trigger] ts[i],
            ),
    decreases ts.len(),
{
    if ts.len() > 0 {
        lemma_spec_from_list(cfg, ts.drop_last());
        assert forall|i: int|
            0 <= i < ts.len() implies spec_from_list(cfg, ts)[i] == spec_from_source(
            cfg,
            #[trigger] ts[i],
        ) by {
            if i < ts.len() - 1 {
                assert(ts.drop_last()[i] == ts[i]);
            }
        }
    }
}

/// The model of the translation of one Rust type expression.
///
/// Well-known names map to their TypeScript counterparts, unknown names
/// become plain references, and unsupported shapes become `never`.
pub open spec fn spec_from_source(cfg: &TypeGenerationConfig, t: RustType) -> TyM
    decreases rt_size(t), 0int,
    via spec_from_source_decreases
{
    match t {
        RustType::Named { name, args, fn_output } => spec_from_name_table(
            cfg,
            name@,
            args,
            fn_output,
        ),
        RustType::FixedArray { elem, len } => {
            let e = spec_from_source(cfg, *elem);
            match len {
                Some(n) => if n <= 16 {
                    TyM::Tuple(Seq::new(n as nat, |i: int| e))
                } else {
                    TyM::Array(Box::new(e))
                },
                None => TyM::Array(Box::new(e)),
            }
        },
        RustType::Slice { elem } => TyM::Array(Box::new(spec_from_source(cfg, *elem))),
        RustType::Wrapped { elem } => spec_from_source(cfg, *elem),
        RustType::BareFn { params, output } => TyM::Func {
            params: spec_from_list(cfg, params@),
            type_ann: Box::new(
                match output {
                    Some(b) => spec_from_source(cfg, *b),
                    None => TyM::Keyword(TsKeywordTypeKind::Void),
                },
            ),
        },
        RustType::TupleTy { elems } => if elems@.len() == 0 {
            TyM::Keyword(spec_null_type(cfg).spec_kind())
        } else {
            TyM::Tuple(spec_from_list(cfg, elems@))
        },
        RustType::TraitBounds { bounds } => TyM::Intersection(spec_from_list(cfg, bounds@)),
        RustType::Unsupported => TyM::Keyword(TsKeywordTypeKind::Never),
    }
}

#[via_fn]
proof fn spec_from_source_decreases(cfg: &TypeGenerationConfig, t: RustType) {
    match t {
        RustType::BareFn { params, output } => {
            match output {
                Some(b) => {
                    assert(opt_size(Some(b)) == rt_size(*b) + 1);
                },
                None => {},
            }
        },
        _ => {},
    }
}

/// The model of the built-in name table applied to a terminal path segment.
pub open spec fn spec_from_name_table(
    cfg: &TypeGenerationConfig,
    nm: Seq<char>,
    args: Vec<RustType>,
    fn_output: Option<Box<RustType>>,
) -> TyM
    decreases rts_size(args@) + opt_size(fn_output) + 1, 0int,
    via spec_from_name_table_decreases
{
    if nm == "u8"@ || nm == "u16"@ || nm == "u32"@ || nm == "i8"@ || nm == "i16"@ || nm == "i32"@
        || nm == "f64"@ || nm == "f32"@ {
        TyM::Keyword(TsKeywordTypeKind::Number)
    } else if nm == "usize"@ || nm == "isize"@ || nm == "u64"@ || nm == "i64"@ {
        if cfg.js && cfg.large_number_types_as_bigints {
            TyM::Keyword(TsKeywordTypeKind::Bigint)
        } else {
            TyM::Keyword(TsKeywordTypeKind::Number)
        }
    } else if nm == "u128"@ || nm == "i128"@ {
        if cfg.js {
            TyM::Keyword(TsKeywordTypeKind::Bigint)
        } else {
            TyM::Keyword(TsKeywordTypeKind::Number)
        }
    } else if nm == "String"@ || nm == "str"@ || nm == "char"@ || nm == "Path"@ || nm
        == "PathBuf"@ {
        TyM::Keyword(TsKeywordTypeKind::StringKind)
    } else if nm == "bool"@ {
        TyM::Keyword(TsKeywordTypeKind::Boolean)
    } else if (nm == "Box"@ || nm == "Cow"@ || nm == "Rc"@ || nm == "Arc"@ || nm == "Cell"@ || nm
        == "RefCell"@) && args@.len() == 1 {
        spec_from_source(cfg, args@[0])
    } else if (nm == "Vec"@ || nm == "VecDeque"@ || nm == "LinkedList"@) && args@.len() == 1 {
        TyM::Array(Box::new(spec_from_source(cfg, args@[0])))
    } else if (nm == "HashMap"@ || nm == "BTreeMap"@) && args@.len() == 2 {
        TyM::Ref {
            name: if cfg.js && !cfg.hashmap_as_object {
                "Map"@
            } else {
                "Record"@
            },
            type_params: spec_from_list(cfg, args@),
        }
    } else if (nm == "HashSet"@ || nm == "BTreeSet"@) && args@.len() == 1 {
        TyM::Array(Box::new(spec_from_source(cfg, args@[0])))
    } else if nm == "Option"@ && args@.len() == 1 {
        TyM::Optional(Box::new(spec_from_source(cfg, args@[0])), spec_null_type(cfg))
    } else if nm == "ByteBuf"@ {
        if cfg.js {
            TyM::Ref { name: "Uint8Array"@, type_params: Seq::empty() }
        } else {
            TyM::Array(Box::new(TyM::Keyword(TsKeywordTypeKind::Number)))
        }
    } else if nm == "Result"@ && args@.len() == 2 {
        TyM::Union(
            seq![
                TyM::TypeLit(seq![lit_member("Ok"@, spec_from_source(cfg, args@[0]))]),
                TyM::TypeLit(seq![lit_member("Err"@, spec_from_source(cfg, args@[1]))]),
            ],
        )
    } else if nm == "Duration"@ {
        TyM::TypeLit(
            seq![
                lit_member("secs"@, TyM::Keyword(TsKeywordTypeKind::Number)),
                lit_member("nanos"@, TyM::Keyword(TsKeywordTypeKind::Number)),
            ],
        )
    } else if nm == "SystemTime"@ {
        TyM::TypeLit(
            seq![
                lit_member("secs_since_epoch"@, TyM::Keyword(TsKeywordTypeKind::Number)),
                lit_member("nanos_since_epoch"@, TyM::Keyword(TsKeywordTypeKind::Number)),
            ],
        )
    } else if (nm == "Range"@ || nm == "RangeInclusive"@) && args@.len() == 1 {
        let e = spec_from_source(cfg, args@[0]);
        TyM::TypeLit(seq![lit_member("start"@, e), lit_member("end"@, e)])
    } else if nm == "Fn"@ || nm == "FnOnce"@ || nm == "FnMut"@ {
        TyM::Func {
            params: spec_from_list(cfg, args@),
            type_ann: Box::new(
                match fn_output {
                    Some(b) => spec_from_source(cfg, *b),
                    None => TyM::Keyword(TsKeywordTypeKind::Void),
                },
            ),
        }
    } else {
        TyM::Ref { name: spec_format_name(cfg, nm), type_params: spec_from_list(cfg, args@) }
    }
}

#[via_fn]
proof fn spec_from_name_table_decreases(
    cfg: &TypeGenerationConfig,
    nm: Seq<char>,
    args: Vec<RustType>,
    fn_output: Option<Box<RustType>>,
) {
    lemma_rts_size(args@);
}

/// Builds an uncommented, non-optional member `key: ty`.
fn plain_member(k: &str, ty: TsType) -> (m: TsTypeElement)
    ensures
        m@ == lit_member(k@, ty@),
{
    let m = TsTypeElement {
        key: TsTypeElementKey::Lit(String::from_str(k)),
        type_ann: ty,
        optional: false,
        comments: Vec::new(),
    };
    proof {
        assert(m@.comments =~= Seq::<Seq<char>>::empty());
    }
    m
}

/// Decides whether `n` holds exactly the text of `lit`.
fn name_is(n: &String, lit: &str) -> (r: bool)
    ensures
        r == (n@ == lit@),
{
    let t = String::from_str(lit);
    n.eq(&t)
}

/// Translates the elements of a list of type expressions.
fn from_list(cfg: &TypeGenerationConfig, ts: &Vec<RustType>) -> (r: Vec<TsType>)
    ensures
        tys_view(r@) == spec_from_list(cfg, ts@),
    decreases rts_size(ts@), 1int,
{
    let mut r: Vec<TsType> = Vec::new();
    let n = ts.len();
    let mut i: usize = 0;
    while i < n
        invariant
            0 <= i <= n == ts@.len(),
            r@.len() == i,
            forall|j: int| 0 <= j < i ==> (#[trigger] r@[j])@ == spec_from_source(cfg, ts@[j]),
        decreases n - i,
    {
        proof {
            lemma_rts_size(ts@);
        }
        let e = TsType::from_source_type(cfg, &ts[i]);
        r.push(e);
        i += 1;
    }
    proof {
        lemma_tys_view(r@);
        lemma_spec_from_list(cfg, ts@);
        assert(tys_view(r@) =~= spec_from_list(cfg, ts@));
    }
    r
}

impl TsType {
    /// Translates one Rust type expression into a TypeScript type node.
    #[verifier::rlimit(100)]
    pub fn from_source_type(config: &TypeGenerationConfig, t: &RustType) -> (r: TsType)
        ensures
            r@ == spec_from_source(config, *t),
        decreases rt_size(*t), 0int,
    {
        match t {
            RustType::Named { name, args, fn_output } => {
                let r = Self::from_name_table(config, name, args, fn_output);
                proof {
                    assert(spec_from_source(config, *t) == spec_from_name_table(
                        config,
                        name@,
                        *args,
                        *fn_output,
                    ));
                }
                r
            },
            RustType::FixedArray { elem, len } => {
                let e = Self::from_source_type(config, &**elem);
                match len {
                    Some(n) => {
                        if *n <= 16 {
                            let ghost em = e@;
                            let count = *n as usize;
                            let mut v: Vec<TsType> = Vec::new();
                            let mut i: usize = 0;
                            while i < count
                                invariant
                                    0 <= i <= count,
                                    em == e@,
                                    v@.len() == i,
                                    forall|j: int| 0 <= j < i ==> (#[trigger] v@[j])@ == em,
                                decreases count - i,
                            {
                                v.push(e.duplicate());
                                i += 1;
                            }
                            let r = TsType::Tuple(v);
                            proof {
                                lemma_tys_view(r->Tuple_0@);
                                assert(tys_view(r->Tuple_0@) =~= Seq::new(
                                    count as nat,
                                    |i: int| em,
                                ));
                            }
                            r
                        } else {
                            TsType::Array(Box::new(e))
                        }
                    },
                    None => TsType::Array(Box::new(e)),
                }
            },
            RustType::Slice { elem } => TsType::Array(
                Box::new(Self::from_source_type(config, &**elem)),
            ),
            RustType::Wrapped { elem } => Self::from_source_type(config, &**elem),
            RustType::BareFn { params, output } => {
                let ps = from_list(config, params);
                let ret = match output {
                    Some(b) => {
                        proof {
                            assert(opt_size(*output) == rt_size(**b) + 1);
                        }
                        Self::from_source_type(config, &**b)
                    },
                    None => TsType::Keyword(TsKeywordTypeKind::Void),
                };
                proof {
                    assert(ret@ == match *output {
                        Some(b) => spec_from_source(config, *b),
                        None => TyM::Keyword(TsKeywordTypeKind::Void),
                    });
                }
                TsType::Func { params: ps, type_ann: Box::new(ret) }
            },
            RustType::TupleTy { elems } => {
                if elems.len() == 0 {
                    TsType::nullish(config)
                } else {
                    TsType::Tuple(from_list(config, elems))
                }
            },
            RustType::TraitBounds { bounds } => TsType::Intersection(from_list(config, bounds)),
            RustType::Unsupported => TsType::Keyword(TsKeywordTypeKind::Never),
        }
    }

    /// Applies the built-in name table to a terminal path segment.
    #[verifier::rlimit(100)]
    pub fn from_name_table(
        config: &TypeGenerationConfig,
        name: &String,
        args: &Vec<RustType>,
        fn_output: &Option<Box<RustType>>,
    ) -> (r: TsType)
        ensures
            r@ == spec_from_name_table(config, name@, *args, *fn_output),
        decreases rts_size(args@) + opt_size(*fn_output) + 1, 0int,
    {
        proof {
            lemma_rts_size(args@);
        }
        if name_is(name, "u8") || name_is(name, "u16") || name_is(name, "u32") || name_is(
            name,
            "i8",
        ) || name_is(name, "i16") || name_is(name, "i32") || name_is(name, "f64") || name_is(
            name,
            "f32",
        ) {
            let r = TsType::Keyword(TsKeywordTypeKind::Number);
            proof {
                assert(r@ == spec_from_name_table(config, name@, *args, *fn_output));
            }
            r
        } else if name_is(name, "usize") || name_is(name, "isize") || name_is(name, "u64")
            || name_is(name, "i64") {
            if config.js && config.large_number_types_as_bigints {
                TsType::Keyword(TsKeywordTypeKind::Bigint)
            } else {
                TsType::Keyword(TsKeywordTypeKind::Number)
            }
        } else if name_is(name, "u128") || name_is(name, "i128") {
            if config.js {
                TsType::Keyword(TsKeywordTypeKind::Bigint)
            } else {
                TsType::Keyword(TsKeywordTypeKind::Number)
            }
        } else if name_is(name, "String") || name_is(name, "str") || name_is(name, "char")
            || name_is(name, "Path") || name_is(name, "PathBuf") {
            TsType::Keyword(TsKeywordTypeKind::StringKind)
        } else if name_is(name, "bool") {
            TsType::Keyword(TsKeywordTypeKind::Boolean)
        } else if (name_is(name, "Box") || name_is(name, "Cow") || name_is(name, "Rc") || name_is(
            name,
            "Arc",
        ) || name_is(name, "Cell") || name_is(name, "RefCell")) && args.len() == 1 {
            TsType::from_source_type(config, &args[0])
        } else if (name_is(name, "Vec") || name_is(name, "VecDeque") || name_is(
            name,
            "LinkedList",
        )) && args.len() == 1 {
            let r = TsType::Array(Box::new(TsType::from_source_type(config, &args[0])));
            proof {
                assert(r@ == spec_from_name_table(config, name@, *args, *fn_output));
            }
            r
        } else if (name_is(name, "HashMap") || name_is(name, "BTreeMap")) && args.len() == 2 {
            let map_name = if config.js && !config.hashmap_as_object {
                String::from_str("Map")
            } else {
                String::from_str("Record")
            };
            TsType::Ref { name: map_name, type_params: from_list(config, args) }
        } else if (name_is(name, "HashSet") || name_is(name, "BTreeSet")) && args.len() == 1 {
            TsType::Array(Box::new(TsType::from_source_type(config, &args[0])))
        } else if name_is(name, "Option") && args.len() == 1 {
            TsType::Optional(
                Box::new(TsType::from_source_type(config, &args[0])),
                NullType::new(config),
            )
        } else if name_is(name, "ByteBuf") {
            if config.js {
                let r = TsType::Ref {
                    name: String::from_str("Uint8Array"),
                    type_params: Vec::new(),
                };
                proof {
                    reveal_with_fuel(crate::typescript::ts_type::ty_view, 3);
                    reveal_with_fuel(crate::typescript::ts_type::tys_view, 3);
                    assert(r@ == spec_from_name_table(config, name@, *args, *fn_output));
                }
                r
            } else {
                let r = TsType::Array(Box::new(TsType::Keyword(TsKeywordTypeKind::Number)));
                proof {
                    reveal_with_fuel(crate::typescript::ts_type::ty_view, 3);
                    assert(r@ == spec_from_name_table(config, name@, *args, *fn_output));
                }
                r
            }
        } else if name_is(name, "Result") && args.len() == 2 {
            let ok_member = plain_member("Ok", TsType::from_source_type(config, &args[0]));
            let err_member = plain_member("Err", TsType::from_source_type(config, &args[1]));
            let ghost okv = ok_member@;
            let ghost errv = err_member@;
            let ok_lit = TsType::TypeLit(TsTypeLit { members: vec![ok_member] });
            let err_lit = TsType::TypeLit(TsTypeLit { members: vec![err_member] });
            let ghost okl = ok_lit@;
            let ghost errl = err_lit@;
            let r = TsType::Union(vec![ok_lit, err_lit]);
            proof {
                lemma_members_view(r->Union_0@[0]->TypeLit_0.members@);
                lemma_members_view(r->Union_0@[1]->TypeLit_0.members@);
                lemma_tys_view(r->Union_0@);
                assert(okl->TypeLit_0 =~= seq![okv]);
                assert(errl->TypeLit_0 =~= seq![errv]);
                assert(tys_view(r->Union_0@) =~= seq![okl, errl]);
            }
            r
        } else if name_is(name, "Duration") {
            Self::two_member_lit(config, "secs", "nanos")
        } else if name_is(name, "SystemTime") {
            Self::two_member_lit(config, "secs_since_epoch", "nanos_since_epoch")
        } else if (name_is(name, "Range") || name_is(name, "RangeInclusive")) && args.len() == 1 {
            let start = TsType::from_source_type(config, &args[0]);
            let end = start.duplicate();
            let sm = plain_member("start", start);
            let em = plain_member("end", end);
            let ghost smv = sm@;
            let ghost emv = em@;
            let r = TsType::TypeLit(TsTypeLit { members: vec![sm, em] });
            proof {
                lemma_members_view(r->TypeLit_0.members@);
                assert(r@->TypeLit_0 =~= seq![smv, emv]);
            }
            r
        } else if name_is(name, "Fn") || name_is(name, "FnOnce") || name_is(name, "FnMut") {
            let ps = from_list(config, args);
            let ret = match fn_output {
                Some(b) => {
                    proof {
                        assert(opt_size(*fn_output) == rt_size(**b) + 1);
                    }
                    TsType::from_source_type(config, &**b)
                },
                None => TsType::Keyword(TsKeywordTypeKind::Void),
            };
            proof {
                assert(ret@ == match *fn_output {
                    Some(b) => spec_from_source(config, *b),
                    None => TyM::Keyword(TsKeywordTypeKind::Void),
                });
            }
            TsType::Func { params: ps, type_ann: Box::new(ret) }
        } else {
            TsType::Ref {
                name: config.format_name(name),
                type_params: from_list(config, args),
            }
        }
    }

    /// A two-member object literal whose members are `number`.
    fn two_member_lit(config: &TypeGenerationConfig, k1: &str, k2: &str) -> (r: TsType)
        ensures
            r@ == TyM::TypeLit(
                seq![
                    lit_member(k1@, TyM::Keyword(TsKeywordTypeKind::Number)),
                    lit_member(k2@, TyM::Keyword(TsKeywordTypeKind::Number)),
                ],
            ),
    {
        let m1 = plain_member(k1, TsType::Keyword(TsKeywordTypeKind::Number));
        let m2 = plain_member(k2, TsType::Keyword(TsKeywordTypeKind::Number));
        let ghost v1 = m1@;
        let ghost v2 = m2@;
        let r = TsType::TypeLit(TsTypeLit { members: vec![m1, m2] });
        proof {
            lemma_members_view(r->TypeLit_0.members@);
            assert(r@->TypeLit_0 =~= seq![v1, v2]);
        }
        r
    }

    /// Translates a stringified Rust identifier with its type arguments.
    pub fn from_name(
        config: &TypeGenerationConfig,
        name: String,
        args: Vec<RustType>,
        fn_output: Option<Box<RustType>>,
    ) -> (r: TsType)
        ensures
            r@ == spec_from_name_table(config, name@, args, fn_output),
    {
        Self::from_name_table(config, &name, &args, &fn_output)
    }
}

} // verus!
