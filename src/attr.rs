//! Decoding of an exposure tag's arguments into an options record.

use vstd::prelude::*;
use crate::model::{is_word, CompileError, ExposureOptions, Flag};

verus! {

/// One raw argument of an exposure tag: a bare flag (`frozen`) or `key = "literal"`.
#[derive(Clone, Debug, PartialEq, Eq)]
pub struct AttrArg {
    pub key: String,
    pub value: Option<String>,
}

/// The flag that a bare key names, if any.
pub open spec fn flag_of(k: Seq<char>) -> Option<Flag> {
    if k == "mapping"@ {
        Some(Flag::Mapping)
    } else if k == "sequence"@ {
        Some(Flag::Sequence)
    } else if k == "frozen"@ {
        Some(Flag::Frozen)
    } else if k == "get_all"@ {
        Some(Flag::GetAll)
    } else if k == "set_all"@ {
        Some(Flag::SetAll)
    } else if k == "eq"@ {
        Some(Flag::Eq)
    } else if k == "ord"@ {
        Some(Flag::Ord)
    } else if k == "hash"@ {
        Some(Flag::Hash)
    } else if k == "str"@ {
        Some(Flag::Str)
    } else if k == "constructor"@ {
        Some(Flag::Constructor)
    } else {
        None
    }
}

/// Keys that take a string literal.
pub open spec fn is_string_key(k: Seq<char>) -> bool {
    k == "name"@ || k == "module"@
}

/// An argument of the accepted vocabulary, in the accepted form.
pub open spec fn recognized(a: AttrArg) -> bool {
    if is_string_key(a.key@) {
        a.value.is_some()
    } else {
        flag_of(a.key@).is_some() && a.value.is_none()
    }
}

/// Whether a key equal to `k` occurs among the first `n` arguments.
pub open spec fn key_before(args: Seq<AttrArg>, n: int, k: Seq<char>) -> bool {
    exists|j: int| 0 <= j < n && #[trigger] args[j].key@ == k
}

/// The argument at `i` is refused, given the ones before it.
pub open spec fn bad_arg(args: Seq<AttrArg>, i: int) -> bool {
    !recognized(args[i]) || key_before(args, i, args[i].key@)
}

/// Whether some argument among the first `n` is refused.
pub open spec fn any_bad_arg(args: Seq<AttrArg>, n: int) -> bool {
    exists|k: int| 0 <= k < n && #[trigger] bad_arg(args, k)
}

/// The literal given to key `k` among the first `n` arguments (the last one).
pub open spec fn string_option(args: Seq<AttrArg>, n: int, k: Seq<char>) -> Option<Seq<char>>
    decreases n,
{
    if n <= 0 {
        None
    } else if args[n - 1].key@ == k && args[n - 1].value.is_some() {
        Some(args[n - 1].value.unwrap()@)
    } else {
        string_option(args, n - 1, k)
    }
}

/// The flags set by the first `n` arguments, in order.
pub open spec fn flags_of(args: Seq<AttrArg>, n: int) -> Seq<Flag>
    decreases n,
{
    if n <= 0 {
        Seq::empty()
    } else {
        match flag_of(args[n - 1].key@) {
            Some(f) => flags_of(args, n - 1).push(f),
            None => flags_of(args, n - 1),
        }
    }
}

/// What an options record holds, as mathematical values.
pub struct OptionsView {
    pub renamed_name: Option<Seq<char>>,
    pub module: Option<Seq<char>>,
    pub flags: Seq<Flag>,
}

impl View for ExposureOptions {
    type V = OptionsView;

    open spec fn view(&self) -> OptionsView {
        OptionsView {
            renamed_name: opt_view(self.renamed_name),
            module: opt_view(self.module),
            flags: self.flags@,
        }
    }
}

/// The options that a list of accepted arguments sets.
pub open spec fn options_of(args: Seq<AttrArg>) -> OptionsView {
    OptionsView {
        renamed_name: string_option(args, args.len() as int, "name"@),
        module: string_option(args, args.len() as int, "module"@),
        flags: flags_of(args, args.len() as int),
    }
}

pub open spec fn options_valid(args: Seq<AttrArg>) -> bool {
    !any_bad_arg(args, args.len() as int)
}

/// `e` reports the first refused argument of `args`.
pub open spec fn reports_bad_arg(args: Seq<AttrArg>, e: CompileError) -> bool {
    exists|i: int|
        0 <= i < args.len() && !any_bad_arg(args, i) && #[trigger] bad_arg(args, i) && (if !recognized(
            args[i],
        ) {
            e == CompileError::UnrecognizedOption(args[i].key)
        } else {
            e == CompileError::DuplicateOption(args[i].key)
        })
}

pub open spec fn opt_view(o: Option<String>) -> Option<Seq<char>> {
    match o {
        Some(s) => Some(s@),
        None => None,
    }
}

/// Decodes the arguments of an exposure tag. The first refused argument decides
/// the error: a key outside the vocabulary, or in the wrong form, is
/// `UnrecognizedOption`; a key given twice is `DuplicateOption`.
#[verifier::loop_isolation(false)]
pub fn parse_options(args: &Vec<AttrArg>) -> (r: Result<ExposureOptions, CompileError>)
    ensures
        r is Ok <==> options_valid(args@),
        r matches Ok(o) ==> o@ == options_of(args@),
        r matches Err(e) ==> reports_bad_arg(args@, e),
{
    let mut renamed_name: Option<String> = None;
    let mut module: Option<String> = None;
    let mut flags: Vec<Flag> = Vec::new();
    let mut i: usize = 0;
    while i < args.len()
        invariant
            i <= args@.len(),
            !any_bad_arg(args@, i as int),
            opt_view(renamed_name) == string_option(args@, i as int, "name"@),
            opt_view(module) == string_option(args@, i as int, "module"@),
            flags@ == flags_of(args@, i as int),
        decreases args@.len() - i,
    {
        let a = &args[i];
        let ok = if is_word(&a.key, "name") || is_word(&a.key, "module") {
            a.value.is_some()
        } else {
            flag_for(&a.key).is_some() && a.value.is_none()
        };
        if !ok {
            assert(bad_arg(args@, i as int));
            return Err(CompileError::UnrecognizedOption(a.key.clone()));
        }
        let mut j: usize = 0;
        while j < i
            invariant
                j <= i < args@.len(),
                a == args@[i as int],
                !key_before(args@, j as int, a.key@),
            decreases i - j,
        {
            if args[j].key == a.key {
                assert(key_before(args@, i as int, a.key@));
                assert(bad_arg(args@, i as int));
                return Err(CompileError::DuplicateOption(a.key.clone()));
            }
            j += 1;
        }
        proof {
            reveal_strlit("name");
            reveal_strlit("module");
            assert("name"@.len() == 4 && "module"@.len() == 6);
            assert("name"@ != "module"@);
        }
        if is_word(&a.key, "name") {
            renamed_name = match &a.value {
                Some(v) => Some(v.clone()),
                None => None,
            };
        } else if is_word(&a.key, "module") {
            module = match &a.value {
                Some(v) => Some(v.clone()),
                None => None,
            };
        }
        match flag_for(&a.key) {
            Some(f) => flags.push(f),
            None => {},
        }
        i += 1;
    }
    Ok(ExposureOptions { renamed_name, module, flags })
}

/// Whether the options carry flag `f`.
pub fn has_flag(options: &ExposureOptions, f: Flag) -> (r: bool)
    ensures
        r == options.flags@.contains(f),
{
    let mut i: usize = 0;
    while i < options.flags.len()
        invariant
            i <= options.flags@.len(),
            forall|k: int| 0 <= k < i ==> options.flags@[k] != f,
        decreases options.flags@.len() - i,
    {
        if options.flags[i] == f {
            return true;
        }
        i += 1;
    }
    false
}

/// The name a declaration is exposed under: the renamed one, else its own.
pub open spec fn resolved_name(own: Seq<char>, options: OptionsView) -> Seq<char> {
    match options.renamed_name {
        Some(n) => n,
        None => own,
    }
}

/// Resolves the exposed name of a declaration named `own`.
pub fn exposed_name(own: &String, options: &ExposureOptions) -> (r: String)
    ensures
        r@ == resolved_name(own@, options@),
{
    match &options.renamed_name {
        Some(n) => n.clone(),
        None => own.clone(),
    }
}

/// A copy of an optional string.
pub fn copy_opt(o: &Option<String>) -> (r: Option<String>)
    ensures
        r == *o,
{
    match o {
        Some(s) => Some(s.clone()),
        None => None,
    }
}

/// The flag that a bare key names, if any.
pub fn flag_for(k: &String) -> (r: Option<Flag>)
    ensures
        r == flag_of(k@),
{
    if is_word(k, "mapping") {
        Some(Flag::Mapping)
    } else if is_word(k, "sequence") {
        Some(Flag::Sequence)
    } else if is_word(k, "frozen") {
        Some(Flag::Frozen)
    } else if is_word(k, "get_all") {
        Some(Flag::GetAll)
    } else if is_word(k, "set_all") {
        Some(Flag::SetAll)
    } else if is_word(k, "eq") {
        Some(Flag::Eq)
    } else if is_word(k, "ord") {
        Some(Flag::Ord)
    } else if is_word(k, "hash") {
        Some(Flag::Hash)
    } else if is_word(k, "str") {
        Some(Flag::Str)
    } else if is_word(k, "constructor") {
        Some(Flag::Constructor)
    } else {
        None
    }
}

} // verus!
