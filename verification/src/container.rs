//! One annotated container under translation: the structural description
//! together with its validated annotations and resolved names.

use vstd::prelude::*;

use crate::attrs::{
    fold_cattrs, spec_cfg, spec_format_name, spec_is_enum, TsifyContainerAttrs,
};
use crate::error_tracker::{ErrM, ErrorTracker};
use crate::input::{ContainerData, DeriveInput};

verus! {

/// The serialized name of a container: its serde rename when given, else
/// its written name.
pub open spec fn spec_serde_name(input: &DeriveInput) -> Seq<char> {
    match input.serde_attrs.rename {
        Some(ref r) => r@,
        None => input.ident@,
    }
}

/// The emitted name of a container, with the configured affixes applied.
pub open spec fn spec_container_name(input: &DeriveInput, js: bool) -> Seq<char> {
    spec_format_name(&spec_cfg(input.metas@, js), spec_serde_name(input))
}

/// One container under translation.
#[derive(Debug)]
pub struct Container {
    /// The validated annotations.
    pub attrs: TsifyContainerAttrs,
    /// The structural description.
    pub input: DeriveInput,
    /// The emitted type name, affixes applied.
    pub name: String,
    /// The written type name, affixes applied.
    pub ident_str: String,
}

impl Container {
    /// Builds a container: reads and validates the annotations, recording
    /// every error, and resolves the emitted name.
    pub fn new(input: DeriveInput, js: bool, errors: &mut ErrorTracker) -> (r: Container)
        requires
            old(errors)@ == Seq::<ErrM>::empty(),
        ensures
            r.input == input,
            r.attrs@ == fold_cattrs(input.metas@, spec_is_enum(&input), js).0,
            r.attrs.ty_config == spec_cfg(input.metas@, js),
            final(errors)@ == fold_cattrs(input.metas@, spec_is_enum(&input), js).1,
            r.name@ == spec_container_name(&input, js),
            r.ident_str@ == spec_format_name(&spec_cfg(input.metas@, js), input.ident@),
    {
        let attrs = TsifyContainerAttrs::from_derive_input(&input, js, errors);
        let serde_name = match &input.serde_attrs.rename {
            Some(r) => r.clone(),
            None => input.ident.clone(),
        };
        let name = attrs.ty_config.format_name(&serde_name);
        let ident_str = attrs.ty_config.format_name(&input.ident);
        Container { attrs, input, name, ident_str }
    }

    /// Whether serde marks this container as transparent.
    pub fn transparent(&self) -> (r: bool)
        ensures
            r == self.input.serde_attrs.transparent,
    {
        self.input.serde_attrs.transparent
    }

    /// The emitted name of the container.
    pub fn name(&self) -> (r: String)
        ensures
            r@ == self.name@,
    {
        self.name.clone()
    }

    /// The written name of the container, affixes applied.
    pub fn ident_str(&self) -> (r: String)
        ensures
            r@ == self.ident_str@,
    {
        self.ident_str.clone()
    }

    /// The names of the container's generic type parameters.
    pub fn generics(&self) -> (r: &Vec<String>)
        ensures
            r == &self.input.generics,
    {
        &self.input.generics
    }

    /// The container's data.
    pub fn serde_data(&self) -> (r: &ContainerData)
        ensures
            r == &self.input.data,
    {
        &self.input.data
    }
}

} // verus!
