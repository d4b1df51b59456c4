//! The enum compiler: an enumeration declaration becomes an enum descriptor.

use vstd::prelude::*;
use crate::attr::{opt_view, copy_opt, exposed_name, resolved_name, OptionsView};
use crate::model::{CompileError, EnumDescriptor, EnumError, ExposureOptions, VariantDescriptor};

verus! {

/// A variant as declared: its name and whether it carries associated data.
#[derive(Clone, Debug, PartialEq, Eq)]
pub struct VariantDecl {
    pub name: String,
    pub has_payload: bool,
}

#[derive(Clone, Debug, PartialEq, Eq)]
pub struct EnumDecl {
    pub name: String,
    pub doc: String,
    pub variants: Vec<VariantDecl>,
}

/// The variant at `i` has the name of an earlier variant.
pub open spec fn variant_repeated(vs: Seq<VariantDecl>, i: int) -> bool {
    exists|k: int| 0 <= k < i && (#[trigger] vs[k]).name@ == vs[i].name@
}

/// What is wrong with the variant at `i`: it carries data, or repeats a name.
pub open spec fn variant_fault(vs: Seq<VariantDecl>, i: int) -> bool {
    vs[i].has_payload || variant_repeated(vs, i)
}

pub open spec fn variants_ok(vs: Seq<VariantDecl>) -> bool {
    forall|i: int| 0 <= i < vs.len() ==> !#[trigger] variant_fault(vs, i)
}

/// What compiling `d` under `options` returns: every variant is kept, in
/// declaration order and numbered by position, under distinct names; the first
/// variant that carries data or repeats a name refuses the whole.
pub open spec fn enum_outcome(
    d: EnumDecl,
    options: OptionsView,
    r: Result<EnumDescriptor, CompileError>,
) -> bool {
    let vs = d.variants@;
    &&& (r is Ok <==> variants_ok(vs))
    &&& (r matches Ok(ed) ==> {
        &&& ed.exposed_name@ == resolved_name(d.name@, options)
        &&& opt_view(ed.module) == options.module
        &&& ed.doc == d.doc
        &&& ed.variants@.len() == vs.len()
        &&& forall|i: int|
            0 <= i < vs.len() ==> (#[trigger] ed.variants@[i]).name == vs[i].name
                && ed.variants@[i].value == i
        &&& forall|i: int, j: int|
            0 <= i < vs.len() && 0 <= j < vs.len() && i != j ==> (#[trigger] ed.variants@[i]).name@
                != (#[trigger] ed.variants@[j]).name@
    })
    &&& (r matches Err(e) ==> exists|i: int|
        0 <= i < vs.len() && #[trigger] variant_fault(vs, i) && (forall|k: int|
            0 <= k < i ==> !#[trigger] variant_fault(vs, k)) && e == if vs[i].has_payload {
            CompileError::Enum(EnumError::PayloadVariant(vs[i].name))
        } else {
            CompileError::Enum(EnumError::DuplicateVariant(vs[i].name))
        })
}

/// Compiles an enumeration under options already decoded.
#[verifier::loop_isolation(false)]
pub fn compile_enum(d: &EnumDecl, options: &ExposureOptions) -> (r: Result<
    EnumDescriptor,
    CompileError,
>)
    ensures
        enum_outcome(*d, options@, r),
{
    let vs = &d.variants;
    let mut variants: Vec<VariantDescriptor> = Vec::new();
    let mut i: usize = 0;
    while i < vs.len()
        invariant
            i <= vs@.len(),
            forall|k: int| 0 <= k < i ==> !#[trigger] variant_fault(vs@, k),
            variants@.len() == i,
            forall|k: int|
                0 <= k < i ==> (#[trigger] variants@[k]).name == vs@[k].name && variants@[k].value == k,
        decreases vs@.len() - i,
    {
        let v = &vs[i];
        if v.has_payload {
            assert(variant_fault(vs@, i as int));
            return Err(CompileError::Enum(EnumError::PayloadVariant(v.name.clone())));
        }
        let mut k: usize = 0;
        while k < i
            invariant
                k <= i < vs@.len(),
                v == vs@[i as int],
                forall|m: int| 0 <= m < k ==> (#[trigger] vs@[m]).name@ != v.name@,
            decreases i - k,
        {
            if vs[k].name == v.name {
                assert(variant_repeated(vs@, i as int));
                assert(variant_fault(vs@, i as int));
                return Err(CompileError::Enum(EnumError::DuplicateVariant(v.name.clone())));
            }
            k += 1;
        }
        assert(!variant_repeated(vs@, i as int));
        variants.push(VariantDescriptor { name: v.name.clone(), value: i });
        i += 1;
    }
    proof {
        assert forall|a: int, b: int|
            0 <= a < vs@.len() && 0 <= b < vs@.len() && a != b implies (#[trigger] variants@[a]).name@
            != (#[trigger] variants@[b]).name@ by {
            if a < b {
                assert(!variant_fault(vs@, b));
                assert(!variant_repeated(vs@, b));
                assert(vs@[a].name@ != vs@[b].name@);
            } else {
                assert(!variant_fault(vs@, a));
                assert(!variant_repeated(vs@, a));
                assert(vs@[b].name@ != vs@[a].name@);
            }
        }
    }
    Ok(
        EnumDescriptor {
            exposed_name: exposed_name(&d.name, options),
            module: copy_opt(&options.module),
            variants,
            doc: d.doc.clone(),
        },
    )
}

} // verus!
