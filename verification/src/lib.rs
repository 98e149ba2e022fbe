//! Translation of Rust data-type descriptions into TypeScript declarations.
//!
//! The crate models a structural description of a Rust struct or enum
//! (container name, generics, fields, variants, serde-style attributes) and
//! translates it into a TypeScript declaration tree, which renders to the
//! exact declaration text.

pub mod attrs;
pub mod comments;
pub mod container;
pub mod decl;
pub mod error_tracker;
pub mod input;
pub mod laws;
pub mod parser;
pub mod rename;
pub mod typescript;

use vstd::prelude::*;

use crate::attrs::{fold_cattrs, spec_cfg, spec_is_enum};
use crate::container::{spec_container_name, Container};
use crate::decl::{decl_text, DeclM};
use crate::error_tracker::{errors_view, ErrM, ErrorTracker, TsError};
use crate::input::DeriveInput;
use crate::parser::{spec_data_errors, spec_decl_core, Parser};

verus! {

/// Runtime serialization switches mirrored by the generated glue code.
pub struct SerializationConfig {
    pub missing_as_null: bool,
    pub hashmap_as_object: bool,
    pub large_number_types_as_bigints: bool,
}

/// The declaration that a description translates to.
pub open spec fn spec_parse(input: &DeriveInput, js: bool) -> DeclM {
    spec_decl_core(
        &spec_cfg(input.metas@, js),
        fold_cattrs(input.metas@, spec_is_enum(input), js).0,
        input,
        crate::attrs::spec_format_name(&spec_cfg(input.metas@, js), input.ident@),
        spec_container_name(input, js),
    )
}

/// Every configuration error that a description raises, in the order the
/// annotations are read.
pub open spec fn spec_all_errors(input: &DeriveInput, js: bool) -> Seq<ErrM> {
    fold_cattrs(input.metas@, spec_is_enum(input), js).1 + spec_data_errors(
        fold_cattrs(input.metas@, spec_is_enum(input), js).0,
        input,
    )
}

/// Translates one structural description into its rendered declaration.
///
/// Succeeds exactly when the description raises no configuration error;
/// otherwise every recorded error is handed back combined.
pub fn decl_string(input: DeriveInput, js: bool) -> (r: Result<String, Vec<TsError>>)
    requires
        input.wf(),
    ensures
        (spec_all_errors(&input, js).len() == 0) <==> r is Ok,
        r is Ok ==> r->Ok_0@ == decl_text(spec_parse(&input, js)),
        r is Err ==> errors_view(r->Err_0@) == spec_all_errors(&input, js),
{
    let mut errors = ErrorTracker::new();
    let container = Container::new(input, js, &mut errors);
    let parser = Parser::new(&container);
    let decl = parser.parse(&mut errors);
    let text = decl.text();
    match errors.check() {
        Ok(()) => Ok(text),
        Err(es) => Err(es),
    }
}

} // verus!
