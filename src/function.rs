//! The function compiler: a free function becomes a function descriptor, built
//! from its own signature and then given the placement its options ask for.

use vstd::prelude::*;
use crate::attr::{opt_view, resolved_name, OptionsView};
use crate::model::{CallableDescriptor, CompileError, ExposureOptions, FunctionDescriptor};
use crate::signature::{
    callable_of, compile_callable, reports_fault, signature_valid, CallableDecl,
};

verus! {

/// The descriptor built from the function's own declaration, before any option
/// is applied: exposed under its own name, with no module.
pub fn function_base(d: &CallableDecl) -> (r: Result<FunctionDescriptor, CompileError>)
    ensures
        r is Ok <==> signature_valid(d.params@),
        r matches Ok(f) ==> f.callable@ == callable_of(*d) && f.module is None,
        r matches Err(e) ==> e matches CompileError::Signature(se) && reports_fault(
            d.params@,
            se,
        ),
{
    match compile_callable(d) {
        Ok(callable) => Ok(FunctionDescriptor { callable, module: None }),
        Err(e) => Err(CompileError::Signature(e)),
    }
}

/// Returns `base` with the options' name and module in place of its own where
/// the options give them; parameters, return type and documentation are kept.
pub fn apply_overrides(base: FunctionDescriptor, options: &ExposureOptions) -> (r:
    FunctionDescriptor)
    ensures
        r.callable@.name == resolved_name(base.callable@.name, options@),
        r.callable.parameters == base.callable.parameters,
        r.callable.return_type == base.callable.return_type,
        r.callable.doc == base.callable.doc,
        opt_view(r.module) == match options@.module {
            Some(m) => Some(m),
            None => opt_view(base.module),
        },
{
    let FunctionDescriptor { callable, module } = base;
    let CallableDescriptor { name, parameters, return_type, doc } = callable;
    let name = match &options.renamed_name {
        Some(n) => n.clone(),
        None => name,
    };
    let module = match &options.module {
        Some(m) => Some(m.clone()),
        None => module,
    };
    FunctionDescriptor { callable: CallableDescriptor { name, parameters, return_type, doc }, module }
}

/// What compiling the free function `d` under `options` returns: its own
/// signature, then the options' name and module.
pub open spec fn function_outcome(
    d: CallableDecl,
    options: OptionsView,
    r: Result<FunctionDescriptor, CompileError>,
) -> bool {
    &&& (r is Ok <==> signature_valid(d.params@))
    &&& (r matches Ok(f) ==> {
        &&& f.callable@.name == resolved_name(d.name@, options)
        &&& f.callable@.parameters == callable_of(d).parameters
        &&& f.callable@.return_type == d.return_type@
        &&& f.callable@.doc == d.doc@
        &&& opt_view(f.module) == options.module
    })
    &&& (r matches Err(e) ==> e matches CompileError::Signature(se) && reports_fault(
        d.params@,
        se,
    ))
}

/// Compiles a free function under options already decoded.
pub fn compile_function(d: &CallableDecl, options: &ExposureOptions) -> (r: Result<
    FunctionDescriptor,
    CompileError,
>)
    ensures
        function_outcome(*d, options@, r),
{
    let base = function_base(d)?;
    Ok(apply_overrides(base, options))
}

} // verus!
