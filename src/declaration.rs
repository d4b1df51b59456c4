//! The entry points: one per declaration shape, each decoding the exposure tag's
//! arguments and compiling the declaration under them.

use vstd::prelude::*;
use crate::attr::{options_of, options_valid, parse_options, reports_bad_arg, AttrArg, OptionsView};
use crate::class::{class_outcome, compile_class, StructDecl};
use crate::enumeration::{compile_enum, enum_outcome, EnumDecl};
use crate::function::{apply_overrides, compile_function, function_base, function_outcome};
use crate::methods::{compile_methods, methods_outcome, ImplDecl};
use crate::model::{
    ClassDescriptor, CompileError, Descriptor, EnumDescriptor, ExposureOptions, FunctionDescriptor,
    MethodsBlockDescriptor,
};
use crate::signature::{reports_fault, signature_valid, CallableDecl};

verus! {

/// Compiles a class tagged with arguments `args`. Refused arguments fail before
/// the declaration is looked at.
pub fn pyclass(d: &StructDecl, args: &Vec<AttrArg>) -> (r: Result<ClassDescriptor, CompileError>)
    ensures
        !options_valid(args@) ==> (r matches Err(e) && reports_bad_arg(args@, e)),
        options_valid(args@) ==> class_outcome(*d, options_of(args@), r),
{
    let options = parse_options(args)?;
    compile_class(d, &options)
}

/// Compiles an enumeration tagged with arguments `args`.
pub fn pyclass_enum(d: &EnumDecl, args: &Vec<AttrArg>) -> (r: Result<EnumDescriptor, CompileError>)
    ensures
        !options_valid(args@) ==> (r matches Err(e) && reports_bad_arg(args@, e)),
        options_valid(args@) ==> enum_outcome(*d, options_of(args@), r),
{
    let options = parse_options(args)?;
    compile_enum(d, &options)
}

/// Compiles an implementation block.
pub fn pymethods(d: &ImplDecl) -> (r: Result<MethodsBlockDescriptor, CompileError>)
    ensures
        methods_outcome(*d, r),
{
    compile_methods(d)
}

/// Compiles a free function tagged with arguments `args`, in two phases: the
/// descriptor is built from the function's own signature, then the arguments are
/// decoded and their name and module put in place.
pub fn pyfunction(args: &Vec<AttrArg>, d: &CallableDecl) -> (r: Result<FunctionDescriptor, CompileError>)
    ensures
        !signature_valid(d.params@) ==> (r matches Err(e) && (e matches CompileError::Signature(se)
            && reports_fault(d.params@, se))),
        signature_valid(d.params@) && !options_valid(args@) ==> (r matches Err(e) && reports_bad_arg(
            args@,
            e,
        )),
        options_valid(args@) ==> function_outcome(*d, options_of(args@), r),
{
    let base = function_base(d)?;
    let options = parse_options(args)?;
    Ok(apply_overrides(base, &options))
}

/// One declaration of any of the four shapes.
#[derive(Clone, Debug, PartialEq, Eq)]
pub enum Declaration {
    Class(StructDecl),
    Enum(EnumDecl),
    Methods(ImplDecl),
    Function(CallableDecl),
}

/// What compiling `decl` under `options` returns: the descriptor of its own
/// shape, as that shape's compiler gives it.
pub open spec fn descriptor_outcome(
    decl: Declaration,
    options: OptionsView,
    r: Result<Descriptor, CompileError>,
) -> bool {
    match decl {
        Declaration::Class(d) => match r {
            Ok(Descriptor::Class(c)) => class_outcome(d, options, Ok(c)),
            Ok(_) => false,
            Err(e) => class_outcome(d, options, Err(e)),
        },
        Declaration::Enum(d) => match r {
            Ok(Descriptor::Enum(c)) => enum_outcome(d, options, Ok(c)),
            Ok(_) => false,
            Err(e) => enum_outcome(d, options, Err(e)),
        },
        Declaration::Methods(d) => match r {
            Ok(Descriptor::Methods(c)) => methods_outcome(d, Ok(c)),
            Ok(_) => false,
            Err(e) => methods_outcome(d, Err(e)),
        },
        Declaration::Function(d) => match r {
            Ok(Descriptor::Function(c)) => function_outcome(d, options, Ok(c)),
            Ok(_) => false,
            Err(e) => function_outcome(d, options, Err(e)),
        },
    }
}

/// Compiles one declaration under options already decoded. A methods block
/// takes no options.
pub fn compile(decl: &Declaration, options: &ExposureOptions) -> (r: Result<Descriptor, CompileError>)
    ensures
        descriptor_outcome(*decl, options@, r),
{
    match decl {
        Declaration::Class(d) => match compile_class(d, options) {
            Ok(c) => Ok(Descriptor::Class(c)),
            Err(e) => Err(e),
        },
        Declaration::Enum(d) => match compile_enum(d, options) {
            Ok(c) => Ok(Descriptor::Enum(c)),
            Err(e) => Err(e),
        },
        Declaration::Methods(d) => match compile_methods(d) {
            Ok(c) => Ok(Descriptor::Methods(c)),
            Err(e) => Err(e),
        },
        Declaration::Function(d) => match compile_function(d, options) {
            Ok(c) => Ok(Descriptor::Function(c)),
            Err(e) => Err(e),
        },
    }
}

} // verus!
