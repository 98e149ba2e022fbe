//! The structural description of a Rust data type that the translation
//! engine consumes: type expressions, fields, variants and the resolved
//! serde-style attributes, all as plain values.

use vstd::prelude::*;

verus! {

/// A Rust type expression, reduced to the shape the translation reads.
#[derive(Debug)]
pub enum RustType {
    /// A path type, reduced to its terminal segment: a name, its type
    /// arguments, and the return type of a parenthesized `Fn(..) -> R` form.
    Named { name: String, args: Vec<RustType>, fn_output: Option<Box<RustType>> },
    /// A fixed-size array `[T; N]`; the length is present only when it was
    /// written as a literal integer.
    FixedArray { elem: Box<RustType>, len: Option<u64> },
    /// A slice `[T]`.
    Slice { elem: Box<RustType> },
    /// A reference, parenthesis or group wrapper, carrying no structure.
    Wrapped { elem: Box<RustType> },
    /// A bare function type `fn(..) -> R`.
    BareFn { params: Vec<RustType>, output: Option<Box<RustType>> },
    /// A tuple type `(A, B, ..)`.
    TupleTy { elems: Vec<RustType> },
    /// A trait object or `impl Trait`, reduced to its trait bounds;
    /// lifetime bounds are already dropped.
    TraitBounds { bounds: Vec<RustType> },
    /// Any shape the translation does not recognize.
    Unsupported,
}

/// The serde tagging discipline of a container.
#[derive(Debug, Clone)]
pub enum TagType {
    /// Externally tagged: `{ Variant: payload }`.
    External,
    /// Internally tagged: the tag is a member of the payload object.
    Internal { tag: String },
    /// Adjacently tagged: `{ tag; content }`.
    Adjacent { tag: String, content: String },
    /// Untagged: the payload stands alone.
    Untagged,
}

/// The shape of a struct or of one enum variant.
#[derive(Debug, Clone, Copy, PartialEq, Eq, Structural)]
pub enum Style {
    /// Named fields.
    Struct,
    /// One unnamed field.
    Newtype,
    /// Several unnamed fields.
    Tuple,
    /// No fields.
    Unit,
}

/// One of the seven recognized case-conversion rules.
#[derive(Debug, Clone, Copy, PartialEq, Eq, Structural)]
pub enum CaseRule {
    /// Keep the name as written.
    Unchanged,
    /// `foo_bar`
    Snake,
    /// `fooBar`
    Camel,
    /// `foo-bar`
    Kebab,
    /// `FooBar`
    Pascal,
    /// `FOO_BAR`
    ScreamingSnake,
    /// `FOO-BAR`
    ScreamingKebab,
}

/// One key of a container or field annotation, with an optional string
/// value, as handed over by the front door.
#[derive(Debug)]
pub struct MetaItem {
    /// The annotation key, e.g. `namespace` or `type_prefix`.
    pub key: String,
    /// The string value after `=`, when one was written.
    pub value: Option<String>,
    /// An opaque marker of the token's source position, echoed in errors.
    pub span: u64,
}

/// One field of a struct or enum variant.
#[derive(Debug)]
pub struct FieldDef {
    /// The field name as written; positional fields carry their index text.
    pub name: String,
    /// A serde rename of this field, already resolved.
    pub rename: Option<String>,
    /// The field's type expression.
    pub ty: RustType,
    /// Whether serde skips the field when serializing.
    pub skip_serializing: bool,
    /// Whether serde skips the field when deserializing.
    pub skip_deserializing: bool,
    /// Whether the field is flattened into the container.
    pub flatten: bool,
    /// Whether the field carries a serde `default`.
    pub default: bool,
    /// The path given to `skip_serializing_if`, when present.
    pub skip_serializing_if: Option<String>,
    /// The field's own annotation items.
    pub metas: Vec<MetaItem>,
    /// Doc comment lines of the field.
    pub comments: Vec<String>,
}

/// One variant of an enum.
#[derive(Debug)]
pub struct VariantDef {
    /// The variant name as written.
    pub name: String,
    /// A serde rename of this variant, already resolved.
    pub rename: Option<String>,
    /// A variant-level rename rule for the variant's fields.
    pub rename_all_fields: Option<CaseRule>,
    /// The variant's shape.
    pub style: Style,
    /// The variant's fields.
    pub fields: Vec<FieldDef>,
    /// Whether serde skips the variant when serializing.
    pub skip_serializing: bool,
    /// Whether serde skips the variant when deserializing.
    pub skip_deserializing: bool,
    /// Doc comment lines of the variant.
    pub comments: Vec<String>,
}

/// The data of a container: a struct shape or a list of variants.
#[derive(Debug)]
pub enum ContainerData {
    /// A struct with the given shape and fields.
    StructData { style: Style, fields: Vec<FieldDef> },
    /// An enum with the given variants.
    EnumData { variants: Vec<VariantDef> },
}

/// The serde-level attributes of a container, already resolved.
#[derive(Debug)]
pub struct SerdeAttrs {
    /// A serde rename of the container.
    pub rename: Option<String>,
    /// The rename rule for fields of a struct, or for variants of an enum.
    pub rename_all: Option<CaseRule>,
    /// The rename rule for the fields of every variant of an enum.
    pub rename_all_fields: Option<CaseRule>,
    /// The tagging discipline.
    pub tag: TagType,
    /// Whether the container carries a serde `default`.
    pub default: bool,
    /// Whether the container is `transparent`.
    pub transparent: bool,
}

/// The structural description of one annotated type.
#[derive(Debug)]
pub struct DeriveInput {
    /// The type name as written.
    pub ident: String,
    /// The names of the type's generic type parameters, in order.
    pub generics: Vec<String>,
    /// The container's data.
    pub data: ContainerData,
    /// The container's own annotation items.
    pub metas: Vec<MetaItem>,
    /// The resolved serde attributes.
    pub serde_attrs: SerdeAttrs,
    /// Doc comment lines of the container.
    pub comments: Vec<String>,
}

impl DeriveInput {
    /// Whether the description is structurally sound: a newtype shape has
    /// exactly one field, a unit shape none, and a tuple shape is not
    /// named. The front door always hands over sound descriptions.
    pub open spec fn wf(&self) -> bool {
        match self.data {
            ContainerData::StructData { style, ref fields } => style_fields_wf(
                style,
                fields@.len(),
            ),
            ContainerData::EnumData { ref variants } => forall|i: int|
                0 <= i < variants@.len() ==> style_fields_wf(
                    #[trigger] variants@[i].style,
                    variants@[i].fields@.len(),
                ),
        }
    }
}

/// The field count allowed by a shape.
pub open spec fn style_fields_wf(style: Style, n: nat) -> bool {
    match style {
        Style::Newtype => n == 1,
        Style::Unit => n == 0,
        _ => true,
    }
}

/// Decides whether `v` holds a string equal to `name`.
pub fn strings_contain(v: &Vec<String>, name: &String) -> (r: bool)
    ensures
        r == v.deep_view().contains(name@),
{
    let n = v.len();
    let mut i: usize = 0;
    while i < n
        invariant
            0 <= i <= n == v@.len(),
            forall|j: int| 0 <= j < i ==> v.deep_view()[j] != name@,
        decreases n - i,
    {
        if v[i].eq(name) {
            proof {
                assert(v.deep_view()[i as int] == name@);
            }
            return true;
        }
        proof {
            assert(v.deep_view()[i as int] != name@);
        }
        i += 1;
    }
    false
}

} // verus!
