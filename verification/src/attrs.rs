//! Configuration parsed from container and field annotations.

use vstd::prelude::*;

use crate::error_tracker::{ErrM, ErrorTracker};
use crate::input::{ContainerData, DeriveInput, FieldDef, MetaItem};

verus! {

/// Switches that affect how TypeScript types are generated for one container.
///
/// The `js` flag selects the JavaScript-runtime flavour of the output
/// (missing values default to `undefined`, maps to `Map`, wide integers may
/// become `bigint`); with `js` false the JSON flavour is used.
#[derive(Debug)]
pub struct TypeGenerationConfig {
    /// Whether the JavaScript-runtime flavour of the output is selected.
    pub js: bool,
    /// Universal prefix for generated type names.
    pub type_prefix: Option<String>,
    /// Universal suffix for generated type names.
    pub type_suffix: Option<String>,
    /// Whether missing fields are represented as `null` instead of `undefined`.
    pub missing_as_null: bool,
    /// Whether a hash map is represented as an object (`Record`) instead of `Map`.
    pub hashmap_as_object: bool,
    /// Whether 64-bit-and-wider integer types are represented as `bigint`.
    pub large_number_types_as_bigints: bool,
}

/// The name `format_name` gives to `name` under configuration `cfg`.
pub open spec fn spec_format_name(cfg: &TypeGenerationConfig, name: Seq<char>) -> Seq<char> {
    let p = match cfg.type_prefix {
        Some(ref p) => p@,
        None => Seq::<char>::empty(),
    };
    let s = match cfg.type_suffix {
        Some(ref s) => s@,
        None => Seq::<char>::empty(),
    };
    p + name + s
}

impl TypeGenerationConfig {
    /// A configuration with every switch off, as used when no annotation is given.
    pub fn new_default(js: bool) -> (r: Self)
        ensures
            r.js == js,
            r.type_prefix is None,
            r.type_suffix is None,
            !r.missing_as_null,
            !r.hashmap_as_object,
            !r.large_number_types_as_bigints,
    {
        TypeGenerationConfig {
            js,
            type_prefix: None,
            type_suffix: None,
            missing_as_null: false,
            hashmap_as_object: false,
            large_number_types_as_bigints: false,
        }
    }

    /// Format a type name, adding the configured prefix and suffix if set.
    pub fn format_name(&self, name: &String) -> (r: String)
        ensures
            r@ == spec_format_name(self, name@),
    {
        let mut out = String::new();
        match self.type_prefix {
            Some(ref p) => out.append(p.as_str()),
            None => (),
        }
        out.append(name.as_str());
        match self.type_suffix {
            Some(ref s) => out.append(s.as_str()),
            None => (),
        }
        proof {
            assert(out@ =~= spec_format_name(self, name@));
        }
        out
    }
}


/// Mathematical model of a generation configuration.
pub struct CfgM {
    pub js: bool,
    pub type_prefix: Option<Seq<char>>,
    pub type_suffix: Option<Seq<char>>,
    pub missing_as_null: bool,
    pub hashmap_as_object: bool,
    pub large_number_types_as_bigints: bool,
}

impl View for TypeGenerationConfig {
    type V = CfgM;

    open spec fn view(&self) -> CfgM {
        CfgM {
            js: self.js,
            type_prefix: match self.type_prefix {
                Some(ref p) => Some(p@),
                None => None,
            },
            type_suffix: match self.type_suffix {
                Some(ref p) => Some(p@),
                None => None,
            },
            missing_as_null: self.missing_as_null,
            hashmap_as_object: self.hashmap_as_object,
            large_number_types_as_bigints: self.large_number_types_as_bigints,
        }
    }
}

/// Container-level annotations of one derived type.
#[derive(Debug)]
pub struct TsifyContainerAttrs {
    /// Whether conversion glue into the foreign runtime is requested.
    pub into_wasm_abi: bool,
    /// Whether conversion glue from the foreign runtime is requested.
    pub from_wasm_abi: bool,
    /// Whether the enum's variant aliases are wrapped in a namespace.
    pub namespace: bool,
    /// Whether a companion discriminant enum is generated.
    pub discriminants: bool,
    /// An explicit name for the discriminant enum.
    pub discriminant_name: Option<String>,
    /// Whether value-enum member names keep the variant's written name.
    pub rename_variants: bool,
    /// Whether a unit-variant enum is emitted as a flat value enum.
    pub value_enum: bool,
    /// Whether a named-field struct is emitted as a type alias.
    pub type_alias: bool,
    /// The type-generation switches.
    pub ty_config: TypeGenerationConfig,
}

/// Mathematical model of container-level annotations.
pub struct CAttrsM {
    pub into_wasm_abi: bool,
    pub from_wasm_abi: bool,
    pub namespace: bool,
    pub discriminants: bool,
    pub discriminant_name: Option<Seq<char>>,
    pub rename_variants: bool,
    pub value_enum: bool,
    pub type_alias: bool,
    pub ty_config: CfgM,
}

impl View for TsifyContainerAttrs {
    type V = CAttrsM;

    open spec fn view(&self) -> CAttrsM {
        CAttrsM {
            into_wasm_abi: self.into_wasm_abi,
            from_wasm_abi: self.from_wasm_abi,
            namespace: self.namespace,
            discriminants: self.discriminants,
            discriminant_name: match self.discriminant_name {
                Some(ref p) => Some(p@),
                None => None,
            },
            rename_variants: self.rename_variants,
            value_enum: self.value_enum,
            type_alias: self.type_alias,
            ty_config: self.ty_config@,
        }
    }
}

/// The container annotations before any item is read.
pub open spec fn init_cattrs(js: bool) -> CAttrsM {
    CAttrsM {
        into_wasm_abi: false,
        from_wasm_abi: false,
        namespace: false,
        discriminants: false,
        discriminant_name: None,
        rename_variants: false,
        value_enum: false,
        type_alias: false,
        ty_config: CfgM {
            js,
            type_prefix: None,
            type_suffix: None,
            missing_as_null: false,
            hashmap_as_object: false,
            large_number_types_as_bigints: false,
        },
    }
}


/// The effect of one annotation item on the generation configuration
/// alone, as the exact configuration value.
pub open spec fn step_cfg(st: TypeGenerationConfig, m: MetaItem, js: bool) -> TypeGenerationConfig {
    let k = m.key@;
    if k == "into_wasm_abi"@ || k == "from_wasm_abi"@ || k == "namespace"@ || k
        == "discriminants"@ || k == "rename_variants"@ || k == "value_enum"@ || k
        == "type_alias"@ {
        st
    } else if k == "type_prefix"@ {
        match m.value {
            Some(v) => if st.type_prefix is Some {
                st
            } else {
                TypeGenerationConfig { type_prefix: Some(v), ..st }
            },
            None => st,
        }
    } else if k == "type_suffix"@ {
        match m.value {
            Some(v) => if st.type_suffix is Some {
                st
            } else {
                TypeGenerationConfig { type_suffix: Some(v), ..st }
            },
            None => st,
        }
    } else if k == "missing_as_null"@ {
        if js && !st.missing_as_null {
            TypeGenerationConfig { missing_as_null: true, ..st }
        } else {
            st
        }
    } else if k == "hashmap_as_object"@ {
        if js && !st.hashmap_as_object {
            TypeGenerationConfig { hashmap_as_object: true, ..st }
        } else {
            st
        }
    } else if k == "large_number_types_as_bigints"@ {
        if js && !st.large_number_types_as_bigints {
            TypeGenerationConfig { large_number_types_as_bigints: true, ..st }
        } else {
            st
        }
    } else {
        st
    }
}

/// The exact generation configuration read from an annotation list.
pub open spec fn spec_cfg(metas: Seq<MetaItem>, js: bool) -> TypeGenerationConfig
    decreases metas.len(),
{
    if metas.len() == 0 {
        TypeGenerationConfig {
            js,
            type_prefix: None,
            type_suffix: None,
            missing_as_null: false,
            hashmap_as_object: false,
            large_number_types_as_bigints: false,
        }
    } else {
        step_cfg(spec_cfg(metas.drop_last(), js), metas.last(), js)
    }
}

/// A duplicate-annotation error.
pub open spec fn dup_err(span: u64) -> ErrM {
    ErrM { span, message: "duplicate attribute"@ }
}

/// The effect of one container annotation item on the accumulated state.
pub open spec fn step_cattr(
    st: CAttrsM,
    es: Seq<ErrM>,
    m: MetaItem,
    is_enum: bool,
    js: bool,
) -> (CAttrsM, Seq<ErrM>) {
    let k = m.key@;
    if k == "into_wasm_abi"@ {
        if st.into_wasm_abi {
            (st, es.push(dup_err(m.span)))
        } else {
            (CAttrsM { into_wasm_abi: true, ..st }, es)
        }
    } else if k == "from_wasm_abi"@ {
        if st.from_wasm_abi {
            (st, es.push(dup_err(m.span)))
        } else {
            (CAttrsM { from_wasm_abi: true, ..st }, es)
        }
    } else if k == "namespace"@ {
        if !is_enum {
            (
                st,
                es.push(
                    ErrM {
                        span: m.span,
                        message: "#[tsify(namespace)] can only be used on enums"@,
                    },
                ),
            )
        } else if st.namespace {
            (st, es.push(dup_err(m.span)))
        } else {
            (CAttrsM { namespace: true, ..st }, es)
        }
    } else if k == "discriminants"@ {
        if !is_enum {
            (
                st,
                es.push(
                    ErrM {
                        span: m.span,
                        message: "#[tsify(discriminants)] can only be used on enums"@,
                    },
                ),
            )
        } else if st.discriminants {
            (st, es.push(dup_err(m.span)))
        } else {
            (
                CAttrsM {
                    discriminants: true,
                    discriminant_name: match m.value {
                        Some(ref v) => Some(v@),
                        None => None,
                    },
                    ..st
                },
                es,
            )
        }
    } else if k == "rename_variants"@ {
        if !is_enum {
            (
                st,
                es.push(
                    ErrM {
                        span: m.span,
                        message: "#[tsify(rename_variants)] can only be used on enums"@,
                    },
                ),
            )
        } else if st.rename_variants {
            (st, es.push(dup_err(m.span)))
        } else {
            (CAttrsM { rename_variants: true, ..st }, es)
        }
    } else if k == "value_enum"@ {
        if !is_enum {
            (
                st,
                es.push(
                    ErrM {
                        span: m.span,
                        message: "#[tsify(value_enum)] can only be used on enums"@,
                    },
                ),
            )
        } else if st.value_enum {
            (st, es.push(dup_err(m.span)))
        } else {
            (CAttrsM { value_enum: true, ..st }, es)
        }
    } else if k == "type_alias"@ {
        if st.type_alias {
            (st, es.push(dup_err(m.span)))
        } else {
            (CAttrsM { type_alias: true, ..st }, es)
        }
    } else if k == "type_prefix"@ {
        match m.value {
            Some(ref v) => if st.ty_config.type_prefix is Some {
                (st, es.push(dup_err(m.span)))
            } else {
                (
                    CAttrsM {
                        ty_config: CfgM { type_prefix: Some(v@), ..st.ty_config },
                        ..st
                    },
                    es,
                )
            },
            None => (
                st,
                es.push(ErrM { span: m.span, message: "expected a string value"@ }),
            ),
        }
    } else if k == "type_suffix"@ {
        match m.value {
            Some(ref v) => if st.ty_config.type_suffix is Some {
                (st, es.push(dup_err(m.span)))
            } else {
                (
                    CAttrsM {
                        ty_config: CfgM { type_suffix: Some(v@), ..st.ty_config },
                        ..st
                    },
                    es,
                )
            },
            None => (
                st,
                es.push(ErrM { span: m.span, message: "expected a string value"@ }),
            ),
        }
    } else if k == "missing_as_null"@ {
        if !js {
            (
                st,
                es.push(
                    ErrM {
                        span: m.span,
                        message: "#[tsify(missing_as_null)] requires the `js` feature"@,
                    },
                ),
            )
        } else if st.ty_config.missing_as_null {
            (st, es.push(dup_err(m.span)))
        } else {
            (CAttrsM { ty_config: CfgM { missing_as_null: true, ..st.ty_config }, ..st }, es)
        }
    } else if k == "hashmap_as_object"@ {
        if !js {
            (
                st,
                es.push(
                    ErrM {
                        span: m.span,
                        message: "#[tsify(hashmap_as_object)] requires the `js` feature"@,
                    },
                ),
            )
        } else if st.ty_config.hashmap_as_object {
            (st, es.push(dup_err(m.span)))
        } else {
            (CAttrsM { ty_config: CfgM { hashmap_as_object: true, ..st.ty_config }, ..st }, es)
        }
    } else if k == "large_number_types_as_bigints"@ {
        if !js {
            (
                st,
                es.push(
                    ErrM {
                        span: m.span,
                        message: "#[tsify(large_number_types_as_bigints)] requires the `js` feature"@,
                    },
                ),
            )
        } else if st.ty_config.large_number_types_as_bigints {
            (st, es.push(dup_err(m.span)))
        } else {
            (
                CAttrsM {
                    ty_config: CfgM {
                        large_number_types_as_bigints: true,
                        ..st.ty_config
                    },
                    ..st
                },
                es,
            )
        }
    } else {
        (
            st,
            es.push(
                ErrM {
                    span: m.span,
                    message: "unsupported tsify attribute, expected one of `into_wasm_abi`, `from_wasm_abi`, `namespace`, `discriminants`, `rename_variants`, `value_enum`, `type_alias`, `type_prefix`, `type_suffix`, `missing_as_null`, `hashmap_as_object`, `large_number_types_as_bigints`"@,
                },
            ),
        )
    }
}

/// The accumulated container annotations and errors of an item list.
pub open spec fn fold_cattrs(metas: Seq<MetaItem>, is_enum: bool, js: bool) -> (
    CAttrsM,
    Seq<ErrM>,
)
    decreases metas.len(),
{
    if metas.len() == 0 {
        (init_cattrs(js), Seq::empty())
    } else {
        let prev = fold_cattrs(metas.drop_last(), is_enum, js);
        step_cattr(prev.0, prev.1, metas.last(), is_enum, js)
    }
}

/// Decides whether `n` holds exactly the text of `lit`.
fn key_is(n: &String, lit: &str) -> (r: bool)
    ensures
        r == (n@ == lit@),
{
    let t = String::from_str(lit);
    n.eq(&t)
}

/// Applies one container annotation item to the accumulated state,
/// recording any error it raises.
#[verifier::rlimit(100)]
fn apply_cattr(
    attrs: &mut TsifyContainerAttrs,
    errors: &mut ErrorTracker,
    m: &MetaItem,
    is_enum: bool,
    js: bool,
)
    ensures
        final(attrs)@ == step_cattr(old(attrs)@, old(errors)@, *m, is_enum, js).0,
        final(errors)@ == step_cattr(old(attrs)@, old(errors)@, *m, is_enum, js).1,
        final(attrs).ty_config == step_cfg(old(attrs).ty_config, *m, js),
{
    if key_is(&m.key, "into_wasm_abi") {
        if attrs.into_wasm_abi {
            errors.add_error(m.span, "duplicate attribute");
        } else {
            attrs.into_wasm_abi = true;
        }
    } else if key_is(&m.key, "from_wasm_abi") {
        if attrs.from_wasm_abi {
            errors.add_error(m.span, "duplicate attribute");
        } else {
            attrs.from_wasm_abi = true;
        }
    } else if key_is(&m.key, "namespace") {
        if !is_enum {
            errors.add_error(m.span, "#[tsify(namespace)] can only be used on enums");
        } else if attrs.namespace {
            errors.add_error(m.span, "duplicate attribute");
        } else {
            attrs.namespace = true;
        }
    } else if key_is(&m.key, "discriminants") {
        if !is_enum {
            errors.add_error(m.span, "#[tsify(discriminants)] can only be used on enums");
        } else if attrs.discriminants {
            errors.add_error(m.span, "duplicate attribute");
        } else {
            attrs.discriminants = true;
            attrs.discriminant_name = match &m.value {
                Some(v) => Some(v.clone()),
                None => None,
            };
        }
    } else if key_is(&m.key, "rename_variants") {
        if !is_enum {
            errors.add_error(m.span, "#[tsify(rename_variants)] can only be used on enums");
        } else if attrs.rename_variants {
            errors.add_error(m.span, "duplicate attribute");
        } else {
            attrs.rename_variants = true;
        }
    } else if key_is(&m.key, "value_enum") {
        if !is_enum {
            errors.add_error(m.span, "#[tsify(value_enum)] can only be used on enums");
        } else if attrs.value_enum {
            errors.add_error(m.span, "duplicate attribute");
        } else {
            attrs.value_enum = true;
        }
    } else if key_is(&m.key, "type_alias") {
        if attrs.type_alias {
            errors.add_error(m.span, "duplicate attribute");
        } else {
            attrs.type_alias = true;
        }
    } else if key_is(&m.key, "type_prefix") {
        match &m.value {
            Some(v) => {
                if attrs.ty_config.type_prefix.is_some() {
                    errors.add_error(m.span, "duplicate attribute");
                } else {
                    attrs.ty_config.type_prefix = Some(v.clone());
                }
            },
            None => {
                errors.add_error(m.span, "expected a string value");
            },
        }
    } else if key_is(&m.key, "type_suffix") {
        match &m.value {
            Some(v) => {
                if attrs.ty_config.type_suffix.is_some() {
                    errors.add_error(m.span, "duplicate attribute");
                } else {
                    attrs.ty_config.type_suffix = Some(v.clone());
                }
            },
            None => {
                errors.add_error(m.span, "expected a string value");
            },
        }
    } else if key_is(&m.key, "missing_as_null") {
        if !js {
            errors.add_error(m.span, "#[tsify(missing_as_null)] requires the `js` feature");
        } else if attrs.ty_config.missing_as_null {
            errors.add_error(m.span, "duplicate attribute");
        } else {
            attrs.ty_config.missing_as_null = true;
        }
    } else if key_is(&m.key, "hashmap_as_object") {
        if !js {
            errors.add_error(m.span, "#[tsify(hashmap_as_object)] requires the `js` feature");
        } else if attrs.ty_config.hashmap_as_object {
            errors.add_error(m.span, "duplicate attribute");
        } else {
            attrs.ty_config.hashmap_as_object = true;
        }
    } else if key_is(&m.key, "large_number_types_as_bigints") {
        if !js {
            errors.add_error(
                m.span,
                "#[tsify(large_number_types_as_bigints)] requires the `js` feature",
            );
        } else if attrs.ty_config.large_number_types_as_bigints {
            errors.add_error(m.span, "duplicate attribute");
        } else {
            attrs.ty_config.large_number_types_as_bigints = true;
        }
    } else {
        errors.add_error(
            m.span,
            "unsupported tsify attribute, expected one of `into_wasm_abi`, `from_wasm_abi`, `namespace`, `discriminants`, `rename_variants`, `value_enum`, `type_alias`, `type_prefix`, `type_suffix`, `missing_as_null`, `hashmap_as_object`, `large_number_types_as_bigints`",
        );
    }
}

impl TsifyContainerAttrs {
    /// Reads and validates the container annotations of one description.
    /// Invalid items are recorded in `errors`; reading continues so that
    /// every mistake is reported at once.
    pub fn from_derive_input(input: &DeriveInput, js: bool, errors: &mut ErrorTracker) -> (r:
        TsifyContainerAttrs)
        requires
            old(errors)@ == Seq::<ErrM>::empty(),
        ensures
            r@ == fold_cattrs(input.metas@, spec_is_enum(input), js).0,
            final(errors)@ == fold_cattrs(input.metas@, spec_is_enum(input), js).1,
            r.ty_config == spec_cfg(input.metas@, js),
    {
        let is_enum = match &input.data {
            ContainerData::EnumData { .. } => true,
            _ => false,
        };
        let mut attrs = TsifyContainerAttrs {
            into_wasm_abi: false,
            from_wasm_abi: false,
            namespace: false,
            discriminants: false,
            discriminant_name: None,
            rename_variants: false,
            value_enum: false,
            type_alias: false,
            ty_config: TypeGenerationConfig::new_default(js),
        };
        let n = input.metas.len();
        let mut i: usize = 0;
        while i < n
            invariant
                0 <= i <= n == input.metas@.len(),
                is_enum == spec_is_enum(input),
                attrs@ == fold_cattrs(input.metas@.take(i as int), is_enum, js).0,
                errors@ == fold_cattrs(input.metas@.take(i as int), is_enum, js).1,
                attrs.ty_config == spec_cfg(input.metas@.take(i as int), js),
            decreases n - i,
        {
            apply_cattr(&mut attrs, errors, &input.metas[i], is_enum, js);
            proof {
                assert(input.metas@.take(i + 1).drop_last() =~= input.metas@.take(i as int));
                assert(input.metas@.take(i + 1).last() == input.metas@[i as int]);
            }
            i += 1;
        }
        proof {
            assert(input.metas@.take(n as int) =~= input.metas@);
        }
        attrs
    }
}

/// Whether a description is of an enum.
pub open spec fn spec_is_enum(input: &DeriveInput) -> bool {
    input.data is EnumData
}


/// Field-level annotations of one field.
#[derive(Debug)]
pub struct TsifyFieldAttrs {
    /// A raw type text override for the emitted member type.
    pub type_override: Option<String>,
    /// Explicit generic parameters named by the override text.
    pub type_params: Vec<String>,
    /// Whether the member is optional.
    pub optional: bool,
    /// Whether the member key is always quoted.
    pub quote: bool,
}

/// Mathematical model of field-level annotations.
pub struct FAttrsM {
    pub type_override: Option<Seq<char>>,
    pub type_params: Seq<Seq<char>>,
    pub optional: bool,
    pub quote: bool,
}

impl View for TsifyFieldAttrs {
    type V = FAttrsM;

    open spec fn view(&self) -> FAttrsM {
        FAttrsM {
            type_override: match self.type_override {
                Some(ref p) => Some(p@),
                None => None,
            },
            type_params: self.type_params.deep_view(),
            optional: self.optional,
            quote: self.quote,
        }
    }
}

/// The field annotations before any item is read.
pub open spec fn init_fattrs() -> FAttrsM {
    FAttrsM { type_override: None, type_params: Seq::empty(), optional: false, quote: false }
}

/// The effect of one field annotation item on the accumulated state.
pub open spec fn step_fattr(st: FAttrsM, es: Seq<ErrM>, m: MetaItem) -> (FAttrsM, Seq<ErrM>) {
    let k = m.key@;
    if k == "type"@ {
        match m.value {
            Some(ref v) => if st.type_override is Some {
                (st, es.push(dup_err(m.span)))
            } else {
                (FAttrsM { type_override: Some(v@), ..st }, es)
            },
            None => (
                st,
                es.push(ErrM { span: m.span, message: "expected a string value"@ }),
            ),
        }
    } else if k == "type_params"@ {
        match m.value {
            Some(ref v) => (FAttrsM { type_params: st.type_params.push(v@), ..st }, es),
            None => (
                st,
                es.push(ErrM { span: m.span, message: "expected a string value"@ }),
            ),
        }
    } else if k == "optional"@ {
        if st.optional {
            (st, es.push(dup_err(m.span)))
        } else {
            (FAttrsM { optional: true, ..st }, es)
        }
    } else if k == "quote"@ {
        if st.quote {
            (st, es.push(dup_err(m.span)))
        } else {
            (FAttrsM { quote: true, ..st }, es)
        }
    } else {
        (
            st,
            es.push(
                ErrM {
                    span: m.span,
                    message: "unsupported tsify attribute, expected one of `type`, `type_params`, `optional` or `quote`"@,
                },
            ),
        )
    }
}

/// The accumulated field annotations and errors of an item list.
pub open spec fn fold_fattrs(metas: Seq<MetaItem>, es0: Seq<ErrM>) -> (FAttrsM, Seq<ErrM>)
    decreases metas.len(),
{
    if metas.len() == 0 {
        (init_fattrs(), es0)
    } else {
        let prev = fold_fattrs(metas.drop_last(), es0);
        step_fattr(prev.0, prev.1, metas.last())
    }
}

/// Whether the field's `skip_serializing_if` hint marks a missing value.
pub open spec fn spec_sso_optional(f: &FieldDef) -> bool {
    match f.skip_serializing_if {
        Some(ref p) => p@ == "Option::is_none"@,
        None => false,
    }
}

/// The resolved field annotations: the parsed items, with the optional
/// marker also inferred from `skip_serializing_if = "Option::is_none"`.
pub open spec fn spec_field_attrs(f: &FieldDef, es0: Seq<ErrM>) -> (FAttrsM, Seq<ErrM>) {
    let r = fold_fattrs(f.metas@, es0);
    (FAttrsM { optional: r.0.optional || spec_sso_optional(f), ..r.0 }, r.1)
}

/// Applies one field annotation item to the accumulated state.
#[verifier::rlimit(100)]
fn apply_fattr(attrs: &mut TsifyFieldAttrs, errors: &mut ErrorTracker, m: &MetaItem)
    ensures
        final(attrs)@ == step_fattr(old(attrs)@, old(errors)@, *m).0,
        final(errors)@ == step_fattr(old(attrs)@, old(errors)@, *m).1,
{
    if key_is(&m.key, "type") {
        match &m.value {
            Some(v) => {
                if attrs.type_override.is_some() {
                    errors.add_error(m.span, "duplicate attribute");
                } else {
                    attrs.type_override = Some(v.clone());
                }
            },
            None => {
                errors.add_error(m.span, "expected a string value");
            },
        }
    } else if key_is(&m.key, "type_params") {
        match &m.value {
            Some(v) => {
                let ghost before = attrs.type_params.deep_view();
                attrs.type_params.push(v.clone());
                proof {
                    assert(attrs.type_params.deep_view() =~= before.push(v@));
                }
            },
            None => {
                errors.add_error(m.span, "expected a string value");
            },
        }
    } else if key_is(&m.key, "optional") {
        if attrs.optional {
            errors.add_error(m.span, "duplicate attribute");
        } else {
            attrs.optional = true;
        }
    } else if key_is(&m.key, "quote") {
        if attrs.quote {
            errors.add_error(m.span, "duplicate attribute");
        } else {
            attrs.quote = true;
        }
    } else {
        errors.add_error(
            m.span,
            "unsupported tsify attribute, expected one of `type`, `type_params`, `optional` or `quote`",
        );
    }
}

impl TsifyFieldAttrs {
    /// Reads and validates the annotations of one field; invalid items are
    /// recorded in `errors` and reading continues.
    pub fn from_serde_field(field: &FieldDef, errors: &mut ErrorTracker) -> (r: TsifyFieldAttrs)
        ensures
            r@ == spec_field_attrs(field, old(errors)@).0,
            final(errors)@ == spec_field_attrs(field, old(errors)@).1,
    {
        let mut attrs = TsifyFieldAttrs {
            type_override: None,
            type_params: Vec::new(),
            optional: false,
            quote: false,
        };
        proof {
            assert(attrs@.type_params =~= Seq::<Seq<char>>::empty());
        }
        let n = field.metas.len();
        let mut i: usize = 0;
        while i < n
            invariant
                0 <= i <= n == field.metas@.len(),
                attrs@ == fold_fattrs(field.metas@.take(i as int), old(errors)@).0,
                errors@ == fold_fattrs(field.metas@.take(i as int), old(errors)@).1,
            decreases n - i,
        {
            apply_fattr(&mut attrs, errors, &field.metas[i]);
            proof {
                assert(field.metas@.take(i + 1).drop_last() =~= field.metas@.take(i as int));
                assert(field.metas@.take(i + 1).last() == field.metas@[i as int]);
            }
            i += 1;
        }
        proof {
            assert(field.metas@.take(n as int) =~= field.metas@);
        }
        let sso = match &field.skip_serializing_if {
            Some(p) => key_is(p, "Option::is_none"),
            None => false,
        };
        if sso {
            attrs.optional = true;
        }
        attrs
    }
}


pub proof fn lemma_fold_fattrs_base(metas: Seq<MetaItem>, es0: Seq<ErrM>)
    ensures
        fold_fattrs(metas, es0).0 == fold_fattrs(metas, Seq::empty()).0,
        fold_fattrs(metas, es0).1 == es0 + fold_fattrs(metas, Seq::empty()).1,
    decreases metas.len(),
{
    if metas.len() == 0 {
        assert(fold_fattrs(metas, es0).1 =~= es0 + fold_fattrs(metas, Seq::empty()).1);
    } else {
        lemma_fold_fattrs_base(metas.drop_last(), es0);
        let a = fold_fattrs(metas.drop_last(), es0);
        let b = fold_fattrs(metas.drop_last(), Seq::empty());
        let m = metas.last();
        assert(a.1 == es0 + b.1);
        assert(step_fattr(a.0, a.1, m).1 =~= es0 + step_fattr(b.0, b.1, m).1) by {
            assert(a.0 == b.0);
            assert((es0 + b.1).push(dup_err(m.span)) =~= es0 + b.1.push(dup_err(m.span)));
            assert((es0 + b.1).push(ErrM { span: m.span, message: "expected a string value"@ })
                =~= es0 + b.1.push(ErrM { span: m.span, message: "expected a string value"@ }));
            assert((es0 + b.1).push(
                ErrM {
                    span: m.span,
                    message: "unsupported tsify attribute, expected one of `type`, `type_params`, `optional` or `quote`"@,
                },
            ) =~= es0 + b.1.push(
                ErrM {
                    span: m.span,
                    message: "unsupported tsify attribute, expected one of `type`, `type_params`, `optional` or `quote`"@,
                },
            ));
        }
    }
}

} // verus!
