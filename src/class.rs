//! The class compiler: a data-bearing declaration becomes a class descriptor.

use vstd::prelude::*;
use crate::attr::{opt_view, copy_opt, exposed_name, has_flag, resolved_name, OptionsView};
use crate::member::{
    extract_members, fields_ok, lemma_members_count_visible_fields, members_of, members_view,
    reports_field_fault, visible_count, member_names_distinct, field_fault, name_repeated, FieldDecl,
};
use crate::model::{errors_agree, ClassDescriptor, CompileError, ExposureOptions, Flag, MemberError};
use crate::signature::{
    callable_of, compile_callable, lemma_reports_agree, reports_fault, signature_valid,
    CallableDecl,
};

verus! {

/// A data-bearing declaration: its own name, documentation, fields, and the
/// constructor among its associated callables, if there is one.
#[derive(Clone, Debug, PartialEq, Eq)]
pub struct StructDecl {
    pub name: String,
    pub doc: String,
    pub fields: Vec<FieldDecl>,
    pub constructor: Option<CallableDecl>,
}

pub open spec fn get_all(options: OptionsView) -> bool {
    options.flags.contains(Flag::GetAll)
}

pub open spec fn set_all(options: OptionsView) -> bool {
    options.flags.contains(Flag::SetAll)
}

pub open spec fn constructor_valid(d: StructDecl) -> bool {
    d.constructor matches Some(c) ==> signature_valid(c.params@)
}

/// What compiling `d` under `options` returns: the fields are checked first,
/// then the constructor's parameter list.
pub open spec fn class_outcome(
    d: StructDecl,
    options: OptionsView,
    r: Result<ClassDescriptor, CompileError>,
) -> bool {
    let ga = get_all(options);
    let sa = set_all(options);
    &&& (r is Ok <==> fields_ok(d.fields@, ga, sa) && constructor_valid(d))
    &&& (r matches Ok(c) ==> {
        &&& c.exposed_name@ == resolved_name(d.name@, options)
        &&& opt_view(c.module) == options.module
        &&& members_view(c.members@) == members_of(d.fields@, d.fields@.len() as int, ga, sa)
        &&& member_names_distinct(c.members@)
        &&& match (c.constructor, d.constructor) {
            (Some(k), Some(dc)) => k@ == callable_of(dc),
            (None, None) => true,
            _ => false,
        }
        &&& c.doc == d.doc
        &&& c.source_identity == d.name
    })
    &&& (r matches Err(e) ==> if !fields_ok(d.fields@, ga, sa) {
        e matches CompileError::Member(me) && reports_field_fault(d.fields@, ga, sa, me)
    } else {
        d.constructor matches Some(dc) && (e matches CompileError::Signature(se)
            && reports_fault(dc.params@, se))
    })
}

/// Compiles a data-bearing declaration under options already decoded.
pub fn compile_class(d: &StructDecl, options: &ExposureOptions) -> (r: Result<
    ClassDescriptor,
    CompileError,
>)
    ensures
        class_outcome(*d, options@, r),
{
    let ga = has_flag(options, Flag::GetAll);
    let sa = has_flag(options, Flag::SetAll);
    let members = match extract_members(&d.fields, ga, sa) {
        Ok(ms) => ms,
        Err(e) => {
            return Err(CompileError::Member(e));
        },
    };
    let constructor = match &d.constructor {
        Some(dc) => match compile_callable(dc) {
            Ok(k) => Some(k),
            Err(e) => {
                return Err(CompileError::Signature(e));
            },
        },
        None => None,
    };
    Ok(
        ClassDescriptor {
            exposed_name: exposed_name(&d.name, options),
            module: copy_opt(&options.module),
            members,
            constructor,
            doc: d.doc.clone(),
            source_identity: d.name.clone(),
        },
    )
}

/// A class whose fields are in order, and whose constructor, if it has one, has
/// a valid parameter list, compiles, with exactly one member for each field that
/// carries a visibility marker (its own, or the declaration's `get_all` /
/// `set_all`).
pub proof fn lemma_class_members_counted(
    d: StructDecl,
    options: OptionsView,
    r: Result<ClassDescriptor, CompileError>,
)
    requires
        class_outcome(d, options, r),
        fields_ok(d.fields@, get_all(options), set_all(options)),
        constructor_valid(d),
    ensures
        r is Ok,
        r->Ok_0.members@.len() == visible_count(
            d.fields@,
            d.fields@.len() as int,
            get_all(options),
            set_all(options),
        ),
{
    lemma_members_count_visible_fields(
        d.fields@,
        d.fields@.len() as int,
        get_all(options),
        set_all(options),
    );
    assert(members_view(r->Ok_0.members@).len() == r->Ok_0.members@.len());
}

/// Compiling one declaration under one set of options twice gives the same
/// outcome: both succeed with the same members, name, module and
/// documentation, or both fail with the same diagnostic.
pub proof fn lemma_class_compile_repeatable(
    d: StructDecl,
    options: OptionsView,
    r1: Result<ClassDescriptor, CompileError>,
    r2: Result<ClassDescriptor, CompileError>,
)
    requires
        class_outcome(d, options, r1),
        class_outcome(d, options, r2),
    ensures
        r1 is Ok <==> r2 is Ok,
        r1 is Ok ==> {
            &&& members_view(r1->Ok_0.members@) == members_view(r2->Ok_0.members@)
            &&& r1->Ok_0.exposed_name@ == r2->Ok_0.exposed_name@
            &&& opt_view(r1->Ok_0.module) == opt_view(r2->Ok_0.module)
            &&& r1->Ok_0.doc == r2->Ok_0.doc
        },
        r1 is Err ==> errors_agree(r1->Err_0, r2->Err_0),
{
    let ga = get_all(options);
    let sa = set_all(options);
    if r1 is Err {
        let e1 = r1->Err_0;
        let e2 = r2->Err_0;
        if !fields_ok(d.fields@, ga, sa) {
            let f = d.fields@;
            let m1 = e1->Member_0;
            let m2 = e2->Member_0;
            let i1 = choose|i: int|
                0 <= i < f.len() && #[trigger] field_fault(f, i, ga, sa) && (forall|k: int|
                    0 <= k < i ==> !#[trigger] field_fault(f, k, ga, sa)) && m1 == if name_repeated(
                    f,
                    i,
                ) {
                    MemberError::DuplicateName(f[i].name)
                } else {
                    MemberError::MissingType(f[i].name)
                };
            let i2 = choose|i: int|
                0 <= i < f.len() && #[trigger] field_fault(f, i, ga, sa) && (forall|k: int|
                    0 <= k < i ==> !#[trigger] field_fault(f, k, ga, sa)) && m2 == if name_repeated(
                    f,
                    i,
                ) {
                    MemberError::DuplicateName(f[i].name)
                } else {
                    MemberError::MissingType(f[i].name)
                };
            if i1 < i2 {
                assert(!field_fault(f, i1, ga, sa));
            } else if i2 < i1 {
                assert(!field_fault(f, i2, ga, sa));
            }
        } else {
            let dc = d.constructor->Some_0;
            lemma_reports_agree(dc.params@, e1->Signature_0, e2->Signature_0);
        }
    }
}

} // verus!
