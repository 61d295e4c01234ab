//! The registry: the composite types that are known, each under a handle.
//!
//! A descriptor is registered once and never changes. Its fields may name
//! primitives and types registered before it, so no type contains itself.

use crate::descriptor::{
    lemma_unnamed_field_types, spec_derive_error, spec_derive_ok, spec_field_types,
    CodecRef, Data, DeriveInput, Field, Fields, Shape, TypeDescriptor, Variant,
};
use crate::error::BytecodeError;
use crate::wire::{
    spec_descriptor_ok, spec_rank, spec_refs_within, spec_variants_within, spec_wf, UNKNOWN_TYPE,
};
use vstd::prelude::*;

verus! {

/// The registered descriptors. A type's handle is its position.
pub struct Registry {
    types: Vec<TypeDescriptor>,
}

impl View for Registry {
    type V = Seq<TypeDescriptor>;

    closed spec fn view(&self) -> Seq<TypeDescriptor> {
        self.types@
    }
}

/// Whether every field type that a declaration names is a primitive or a
/// handle below `bound`.
pub open spec fn spec_refs_known(data: Data, bound: nat) -> bool {
    match data {
        Data::Enum(variants) => spec_variants_within(variants@, bound),
        Data::Struct(fields) => spec_refs_within(fields.spec_types(), bound),
        Data::Union => true,
    }
}

/// Whether a reference is a primitive or a handle below `bound`.
pub fn ref_within(r: CodecRef, bound: usize) -> (b: bool)
    ensures
        b == (spec_rank(r) <= bound),
{
    match r {
        CodecRef::Primitive(_) => true,
        CodecRef::Composite(handle) => handle < bound,
    }
}

/// Whether all of `refs` are primitives or handles below `bound`.
pub fn refs_within(refs: &Vec<CodecRef>, bound: usize) -> (b: bool)
    ensures
        b == spec_refs_within(refs@, bound as nat),
{
    let mut i: usize = 0;
    while i < refs.len()
        invariant
            i <= refs@.len(),
            spec_refs_within(refs@.take(i as int), bound as nat),
        decreases refs@.len() - i,
    {
        if !ref_within(refs[i], bound) {
            return false;
        }
        i = i + 1;
    }
    assert(refs@.take(i as int) =~= refs@);
    true
}

/// Whether the types of all of `fields` are primitives or handles below
/// `bound`.
pub fn fields_within(fields: &Vec<Field>, bound: usize) -> (b: bool)
    ensures
        b == spec_refs_within(spec_field_types(fields@), bound as nat),
{
    let ghost refs = spec_field_types(fields@);
    let mut i: usize = 0;
    while i < fields.len()
        invariant
            i <= fields@.len(),
            refs == spec_field_types(fields@),
            spec_refs_within(refs.take(i as int), bound as nat),
        decreases fields@.len() - i,
    {
        if !ref_within(fields[i].ty, bound) {
            assert(refs[i as int] == fields@[i as int].ty);
            return false;
        }
        i = i + 1;
    }
    assert(refs.take(i as int) =~= refs);
    true
}

/// Whether the field types of all of `variants` are primitives or handles
/// below `bound`.
pub fn variants_within(variants: &Vec<Variant>, bound: usize) -> (b: bool)
    ensures
        b == spec_variants_within(variants@, bound as nat),
{
    let mut i: usize = 0;
    while i < variants.len()
        invariant
            i <= variants@.len(),
            spec_variants_within(variants@.take(i as int), bound as nat),
        decreases variants@.len() - i,
    {
        let within = match &variants[i].fields {
            Fields::Unit => true,
            Fields::Unnamed(refs) => refs_within(refs, bound),
            Fields::Named(fields) => fields_within(fields, bound),
        };
        if !within {
            return false;
        }
        i = i + 1;
    }
    assert(variants@.take(i as int) =~= variants@);
    true
}

impl Registry {
    #[verifier::type_invariant]
    spec fn inv(&self) -> bool {
        spec_wf(self.types@)
    }

    /// Whether the registry is well formed: every product has a field, every
    /// sum has between 1 and 32768 variants, and every field's type is a
    /// primitive or was registered before the type that holds it.
    ///
    /// This holds of every registry there is; see [`Registry::well_formed`].
    pub open spec fn wf(&self) -> bool {
        spec_wf(self@)
    }

    /// Makes known to the caller that the registry is well formed.
    pub fn well_formed(&self)
        ensures
            self.wf(),
    {
        proof {
            use_type_invariant(self);
        }
    }

    /// A registry without types.
    pub fn new() -> (r: Registry)
        ensures
            r@ == Seq::<TypeDescriptor>::empty(),
            r.wf(),
    {
        Registry { types: Vec::new() }
    }

    /// The number of registered types.
    pub fn len(&self) -> (n: usize)
        ensures
            n == self@.len(),
    {
        self.types.len()
    }

    /// The descriptor registered under `handle`, if there is one.
    pub fn get(&self, handle: usize) -> (d: Option<&TypeDescriptor>)
        ensures
            match d {
                Some(found) => handle < self@.len() && *found == self@[handle as int],
                None => handle >= self@.len(),
            },
    {
        if handle < self.types.len() {
            Some(&self.types[handle])
        } else {
            None
        }
    }

    /// Builds the descriptor of a declared type and registers it; gives the
    /// new type's handle.
    ///
    /// Fails, and leaves the registry as it was, when no descriptor can be
    /// built from the declaration, or when a field names a type that is not
    /// registered yet.
    pub fn register(&mut self, input: DeriveInput) -> (r: Result<usize, BytecodeError>)
        ensures
            final(self).wf(),
            match r {
                Ok(handle) => {
                    &&& spec_derive_ok(input.data)
                    &&& spec_refs_known(input.data, old(self)@.len())
                    &&& handle == old(self)@.len()
                    &&& final(self)@.len() == handle + 1
                    &&& final(self)@.take(handle as int) == old(self)@
                    &&& final(self)@[handle as int].spec_describes(input)
                },
                Err(e) => {
                    &&& final(self)@ == old(self)@
                    &&& if !spec_derive_ok(input.data) {
                        e == spec_derive_error(input.data)
                    } else {
                        !spec_refs_known(input.data, old(self)@.len()) && e
                            == BytecodeError::Other(UNKNOWN_TYPE)
                    }
                },
            },
    {
        proof {
            use_type_invariant(&*self);
        }
        let handle: usize = self.types.len();
        let ghost declared = input.data;
        let d = match crate::descriptor::derive(input) {
            Ok(d) => d,
            Err(e) => {
                return Err(e);
            },
        };
        let known = match &d.shape {
            Shape::Product(fields) => fields_within(fields, handle),
            Shape::Sum(variants) => variants_within(variants, handle),
        };
        proof {
            if let Data::Struct(Fields::Unnamed(refs)) = declared {
                lemma_unnamed_field_types(refs@);
            }
        }
        if !known {
            return Err(BytecodeError::Other(UNKNOWN_TYPE));
        }
        let mut types: Vec<TypeDescriptor> = Vec::new();
        core::mem::swap(&mut self.types, &mut types);
        types.push(d);
        assert(types@.take(handle as int) =~= old(self)@);
        assert(spec_descriptor_ok(types@[handle as int], handle as nat));
        core::mem::swap(&mut self.types, &mut types);
        Ok(handle)
    }

    /// The registered descriptors, in the order of their handles.
    pub(crate) fn types(&self) -> (types: &Vec<TypeDescriptor>)
        ensures
            types@ == self@,
    {
        &self.types
    }
}

} // verus!
