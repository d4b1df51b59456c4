//! The descriptor model produced by the declaration compilers, and their errors.

use vstd::prelude::*;

verus! {

/// A boolean option that an exposure tag may carry.
#[derive(Clone, Copy, Debug, PartialEq, Eq, Structural)]
pub enum Flag {
    Mapping,
    Sequence,
    Frozen,
    GetAll,
    SetAll,
    Eq,
    Ord,
    Hash,
    Str,
    Constructor,
}

/// The options record decoded from an exposure tag's arguments.
#[derive(Clone, Debug, PartialEq, Eq)]
pub struct ExposureOptions {
    pub renamed_name: Option<String>,
    pub module: Option<String>,
    pub flags: Vec<Flag>,
}

/// How a parameter may be passed.
#[derive(Clone, Copy, Debug, PartialEq, Eq, Structural)]
pub enum PassingKind {
    PositionalOnly,
    PositionalOrKeyword,
    KeywordOnly,
    VarPositional,
    VarKeyword,
}

#[derive(Clone, Debug, PartialEq, Eq)]
pub struct ParameterDescriptor {
    pub name: String,
    pub type_signature: String,
    pub passing_kind: PassingKind,
    pub has_default: bool,
    pub default_repr: Option<String>,
}

#[derive(Clone, Debug, PartialEq, Eq)]
pub struct CallableDescriptor {
    pub name: String,
    pub parameters: Vec<ParameterDescriptor>,
    pub return_type: String,
    pub doc: String,
}

#[derive(Clone, Debug, PartialEq, Eq)]
pub struct MemberDescriptor {
    pub name: String,
    pub type_signature: String,
    pub readable: bool,
    pub writable: bool,
}

#[derive(Clone, Debug, PartialEq, Eq)]
pub struct ClassDescriptor {
    pub exposed_name: String,
    pub module: Option<String>,
    pub members: Vec<MemberDescriptor>,
    pub constructor: Option<CallableDescriptor>,
    pub doc: String,
    pub source_identity: String,
}

#[derive(Clone, Debug, PartialEq, Eq)]
pub struct VariantDescriptor {
    pub name: String,
    pub value: usize,
}

#[derive(Clone, Debug, PartialEq, Eq)]
pub struct EnumDescriptor {
    pub exposed_name: String,
    pub module: Option<String>,
    pub variants: Vec<VariantDescriptor>,
    pub doc: String,
}

/// The role of a callable inside a methods block.
#[derive(Clone, Copy, Debug, PartialEq, Eq, Structural)]
pub enum MethodKind {
    Instance,
    Static,
    Class,
    Getter,
    Setter,
    New,
}

#[derive(Clone, Debug, PartialEq, Eq)]
pub struct MethodDescriptor {
    pub kind: MethodKind,
    pub callable: CallableDescriptor,
}

#[derive(Clone, Debug, PartialEq, Eq)]
pub struct MethodsBlockDescriptor {
    pub target_identity: String,
    pub methods: Vec<MethodDescriptor>,
    pub properties: Vec<MemberDescriptor>,
}

#[derive(Clone, Debug, PartialEq, Eq)]
pub struct FunctionDescriptor {
    pub callable: CallableDescriptor,
    pub module: Option<String>,
}

/// What one declaration compiles to.
#[derive(Clone, Debug, PartialEq, Eq)]
pub enum Descriptor {
    Class(ClassDescriptor),
    Enum(EnumDescriptor),
    Methods(MethodsBlockDescriptor),
    Function(FunctionDescriptor),
}

#[derive(Clone, Debug, PartialEq, Eq)]
pub enum SignatureError {
    DuplicateName(String),
    OrderingViolation(String),
    DefaultOrderingViolation(String),
}

#[derive(Clone, Debug, PartialEq, Eq)]
pub enum MemberError {
    MissingType(String),
    DuplicateName(String),
}

#[derive(Clone, Debug, PartialEq, Eq)]
pub enum EnumError {
    PayloadVariant(String),
    DuplicateVariant(String),
}

#[derive(Clone, Debug, PartialEq, Eq)]
pub enum MethodError {
    SetterWithoutGetter(String),
    DuplicateName(String),
}

/// The single diagnostic that a failed compilation reports.
#[derive(Clone, Debug, PartialEq, Eq)]
pub enum CompileError {
    UnrecognizedOption(String),
    DuplicateOption(String),
    Signature(SignatureError),
    Member(MemberError),
    Enum(EnumError),
    Method(MethodError),
}

/// Two signature errors of one kind that cite the same name.
pub open spec fn signature_errors_agree(a: SignatureError, b: SignatureError) -> bool {
    match (a, b) {
        (SignatureError::DuplicateName(x), SignatureError::DuplicateName(y)) => x@ == y@,
        (SignatureError::OrderingViolation(x), SignatureError::OrderingViolation(y)) => x@ == y@,
        (
            SignatureError::DefaultOrderingViolation(x),
            SignatureError::DefaultOrderingViolation(y),
        ) => x@ == y@,
        _ => false,
    }
}

/// Two diagnostics of one kind that cite the same name.
pub open spec fn errors_agree(a: CompileError, b: CompileError) -> bool {
    match (a, b) {
        (CompileError::Signature(x), CompileError::Signature(y)) => signature_errors_agree(x, y),
        _ => a == b,
    }
}

/// Whether `s` holds exactly the characters of `w`.
pub fn is_word(s: &String, w: &str) -> (r: bool)
    ensures
        r == (s@ == w@),
{
    let o = w.to_owned();
    *s == o
}

} // verus!
