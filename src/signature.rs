//! Classification of a callable's declared parameters into parameter descriptors.

use vstd::prelude::*;
use crate::model::{is_word, signature_errors_agree, CallableDescriptor, ParameterDescriptor, PassingKind, SignatureError};

verus! {

/// A parameter's default as written in the declaration.
#[derive(Clone, Debug, PartialEq, Eq)]
pub enum DefaultValue {
    /// A default that can be shown verbatim.
    Literal(String),
    /// A default too complex to show; it is rendered as `...`.
    Expression,
}

/// One entry of a declared parameter list, in the order written.
#[derive(Clone, Debug, PartialEq, Eq)]
pub enum SigItem {
    Param { name: String, type_signature: String, default: Option<DefaultValue> },
    /// `/`: the parameters before it are positional-only.
    PositionalOnlyMarker,
    /// A bare `*`: the parameters after it are keyword-only.
    KeywordOnlyMarker,
    /// `*name`
    VarArgs { name: String, type_signature: String },
    /// `**name`
    VarKwargs { name: String, type_signature: String },
}

/// What a parameter descriptor holds, as mathematical values.
pub struct ParamView {
    pub name: Seq<char>,
    pub type_signature: Seq<char>,
    pub passing_kind: PassingKind,
    pub has_default: bool,
    pub default_repr: Option<Seq<char>>,
}

impl View for ParameterDescriptor {
    type V = ParamView;

    open spec fn view(&self) -> ParamView {
        ParamView {
            name: self.name@,
            type_signature: self.type_signature@,
            passing_kind: self.passing_kind,
            has_default: self.has_default,
            default_repr: match self.default_repr {
                Some(d) => Some(d@),
                None => None,
            },
        }
    }
}

pub open spec fn params_view(ps: Seq<ParameterDescriptor>) -> Seq<ParamView> {
    ps.map_values(|p: ParameterDescriptor| p@)
}

/// The kinds of fault that refuse a parameter list.
pub enum SigFault {
    DuplicateName,
    Ordering,
    DefaultOrdering,
}

/// The name that an entry declares, if it declares one.
pub open spec fn item_name(it: SigItem) -> Option<Seq<char>> {
    match it {
        SigItem::Param { name, .. } => Some(name@),
        SigItem::VarArgs { name, .. } => Some(name@),
        SigItem::VarKwargs { name, .. } => Some(name@),
        _ => None,
    }
}

/// The name that a diagnostic about an entry cites.
pub open spec fn cited_name(it: SigItem) -> Seq<char> {
    match it {
        SigItem::PositionalOnlyMarker => "/"@,
        SigItem::KeywordOnlyMarker => "*"@,
        _ => item_name(it).unwrap(),
    }
}

pub open spec fn is_slash(it: SigItem) -> bool {
    it is PositionalOnlyMarker
}

/// A bare `*` or `*args`: what starts the keyword-only group.
pub open spec fn is_star(it: SigItem) -> bool {
    it is KeywordOnlyMarker || it is VarArgs
}

pub open spec fn is_defaulted(it: SigItem) -> bool {
    it is Param && it->Param_default.is_some()
}

pub open spec fn star_before(items: Seq<SigItem>, i: int) -> bool {
    exists|k: int| 0 <= k < i && is_star(#[trigger] items[k])
}

pub open spec fn slash_before(items: Seq<SigItem>, i: int) -> bool {
    exists|k: int| 0 <= k < i && is_slash(#[trigger] items[k])
}

pub open spec fn kwargs_before(items: Seq<SigItem>, i: int) -> bool {
    exists|k: int| 0 <= k < i && (#[trigger] items[k]) is VarKwargs
}

pub open spec fn param_before(items: Seq<SigItem>, i: int) -> bool {
    exists|k: int| 0 <= k < i && (#[trigger] items[k]) is Param
}

pub open spec fn slash_after(items: Seq<SigItem>, i: int) -> bool {
    exists|k: int| i < k < items.len() && is_slash(#[trigger] items[k])
}

pub open spec fn name_before(items: Seq<SigItem>, i: int, n: Seq<char>) -> bool {
    exists|k: int| 0 <= k < i && item_name(#[trigger] items[k]) == Some(n)
}

/// A defaulted parameter before `i` in the positional group (`kw` false) or in
/// the keyword-only group (`kw` true).
pub open spec fn default_before(items: Seq<SigItem>, i: int, kw: bool) -> bool {
    exists|k: int| 0 <= k < i && is_defaulted(#[trigger] items[k]) && star_before(items, k) == kw
}

/// The passing kind of the entry at `i`.
pub open spec fn kind_at(items: Seq<SigItem>, i: int) -> PassingKind {
    match items[i] {
        SigItem::VarArgs { .. } => PassingKind::VarPositional,
        SigItem::VarKwargs { .. } => PassingKind::VarKeyword,
        _ => if slash_after(items, i) {
            PassingKind::PositionalOnly
        } else if star_before(items, i) {
            PassingKind::KeywordOnly
        } else {
            PassingKind::PositionalOrKeyword
        },
    }
}

/// Whether the entry at `i` is out of place.
pub open spec fn misplaced(items: Seq<SigItem>, i: int) -> bool {
    match items[i] {
        SigItem::PositionalOnlyMarker => slash_before(items, i) || star_before(items, i)
            || kwargs_before(items, i) || !param_before(items, i),
        SigItem::KeywordOnlyMarker => star_before(items, i) || kwargs_before(items, i),
        SigItem::VarArgs { .. } => star_before(items, i) || kwargs_before(items, i),
        _ => kwargs_before(items, i),
    }
}

/// Whether the entry at `i` has the fault `kind`.
pub open spec fn has_fault(items: Seq<SigItem>, i: int, kind: SigFault) -> bool {
    match kind {
        SigFault::DuplicateName => item_name(items[i]) is Some && name_before(
            items,
            i,
            item_name(items[i]).unwrap(),
        ),
        SigFault::DefaultOrdering => items[i] is Param && !is_defaulted(items[i]) && default_before(
            items,
            i,
            star_before(items, i),
        ),
        SigFault::Ordering => misplaced(items, i),
    }
}

pub open spec fn none_before(items: Seq<SigItem>, n: int, kind: SigFault) -> bool {
    forall|k: int| 0 <= k < n ==> !#[trigger] has_fault(items, k, kind)
}

pub open spec fn any_fault(items: Seq<SigItem>, kind: SigFault) -> bool {
    exists|i: int| 0 <= i < items.len() && #[trigger] has_fault(items, i, kind)
}

pub open spec fn signature_valid(items: Seq<SigItem>) -> bool {
    !any_fault(items, SigFault::DuplicateName) && !any_fault(items, SigFault::DefaultOrdering)
        && !any_fault(items, SigFault::Ordering)
}

/// The kind of fault that is reported when a list has several: a repeated name
/// first, then a required parameter after a defaulted one of its group, then an
/// entry out of place.
pub open spec fn ruling_fault(items: Seq<SigItem>) -> SigFault {
    if any_fault(items, SigFault::DuplicateName) {
        SigFault::DuplicateName
    } else if any_fault(items, SigFault::DefaultOrdering) {
        SigFault::DefaultOrdering
    } else {
        SigFault::Ordering
    }
}

/// The error that reports `fault` on the entry `it`.
pub open spec fn reports(e: SignatureError, fault: SigFault, it: SigItem) -> bool {
    match fault {
        SigFault::DuplicateName => e is DuplicateName && e->DuplicateName_0@ == cited_name(it),
        SigFault::Ordering => e is OrderingViolation && e->OrderingViolation_0@ == cited_name(it),
        SigFault::DefaultOrdering => e is DefaultOrderingViolation
            && e->DefaultOrderingViolation_0@ == cited_name(it),
    }
}

/// `e` reports the ruling kind of fault, on the first entry that has it.
pub open spec fn reports_fault(items: Seq<SigItem>, e: SignatureError) -> bool {
    exists|i: int|
        0 <= i < items.len() && #[trigger] has_fault(items, i, ruling_fault(items)) && none_before(
            items,
            i,
            ruling_fault(items),
        ) && reports(e, ruling_fault(items), items[i])
}

/// The descriptor of the named entry at `i`.
pub open spec fn param_at(items: Seq<SigItem>, i: int) -> ParamView {
    let (ty, default) = match items[i] {
        SigItem::Param { type_signature, default, .. } => (type_signature@, default),
        SigItem::VarArgs { type_signature, .. } => (type_signature@, None),
        SigItem::VarKwargs { type_signature, .. } => (type_signature@, None),
        _ => (Seq::empty(), None),
    };
    ParamView {
        name: item_name(items[i]).unwrap(),
        type_signature: ty,
        passing_kind: kind_at(items, i),
        has_default: default is Some,
        default_repr: match default {
            Some(DefaultValue::Literal(s)) => Some(s@),
            Some(DefaultValue::Expression) => Some("..."@),
            None => None,
        },
    }
}

/// The descriptors of the named entries among the first `n`, in order.
pub open spec fn params_of(items: Seq<SigItem>, n: int) -> Seq<ParamView>
    decreases n,
{
    if n <= 0 {
        Seq::empty()
    } else if item_name(items[n - 1]) is Some {
        params_of(items, n - 1).push(param_at(items, n - 1))
    } else {
        params_of(items, n - 1)
    }
}

/// Analyzes a declared parameter list. On a valid list the result holds one
/// descriptor per named entry, in declaration order; otherwise the ruling kind
/// of fault is reported on the first entry that has it.
#[verifier::loop_isolation(false)]
pub fn analyze_signature(items: &Vec<SigItem>) -> (r: Result<Vec<ParameterDescriptor>, SignatureError>)
    ensures
        r is Ok <==> signature_valid(items@),
        r matches Ok(ps) ==> params_view(ps@) == params_of(items@, items@.len() as int),
        r matches Err(e) ==> reports_fault(items@, e),
{
    let n = items.len();
    // Repeated names.
    let mut i: usize = 0;
    while i < n
        invariant
            i <= n == items@.len(),
            none_before(items@, i as int, SigFault::DuplicateName),
        decreases n - i,
    {
        let name: Option<&String> = match &items[i] {
            SigItem::Param { name, .. } => Some(name),
            SigItem::VarArgs { name, .. } => Some(name),
            SigItem::VarKwargs { name, .. } => Some(name),
            _ => None,
        };
        if let Some(nm) = name {
            let mut k: usize = 0;
            while k < i
                invariant
                    k <= i,
                    forall|m: int| 0 <= m < k ==> item_name(#[trigger] items@[m]) != Some(nm@),
                decreases i - k,
            {
                let same = match &items[k] {
                    SigItem::Param { name, .. } => *name == *nm,
                    SigItem::VarArgs { name, .. } => *name == *nm,
                    SigItem::VarKwargs { name, .. } => *name == *nm,
                    _ => false,
                };
                if same {
                    assert(name_before(items@, i as int, nm@));
                    assert(has_fault(items@, i as int, SigFault::DuplicateName));
                    assert(ruling_fault(items@) == SigFault::DuplicateName);
                    return Err(SignatureError::DuplicateName(nm.clone()));
                }
                k += 1;
            }
            assert(!name_before(items@, i as int, nm@));
        }
        assert(!has_fault(items@, i as int, SigFault::DuplicateName));
        i += 1;
    }
    assert(!any_fault(items@, SigFault::DuplicateName));
    // Required parameters after defaulted ones of their group.
    let mut seen_star = false;
    let mut pos_default = false;
    let mut kw_default = false;
    let mut i: usize = 0;
    while i < n
        invariant
            i <= n == items@.len(),
            !any_fault(items@, SigFault::DuplicateName),
            none_before(items@, i as int, SigFault::DefaultOrdering),
            seen_star == star_before(items@, i as int),
            pos_default == default_before(items@, i as int, false),
            kw_default == default_before(items@, i as int, true),
        decreases n - i,
    {
        match &items[i] {
            SigItem::Param { name, default, .. } => {
                if default.is_none() && (if seen_star { kw_default } else { pos_default }) {
                    assert(has_fault(items@, i as int, SigFault::DefaultOrdering));
                    assert(ruling_fault(items@) == SigFault::DefaultOrdering);
                    return Err(SignatureError::DefaultOrderingViolation(name.clone()));
                }
                if default.is_some() {
                    if seen_star {
                        kw_default = true;
                    } else {
                        pos_default = true;
                    }
                }
            },
            SigItem::VarArgs { .. } => {
                seen_star = true;
            },
            SigItem::KeywordOnlyMarker => {
                seen_star = true;
            },
            _ => {},
        }
        assert(!has_fault(items@, i as int, SigFault::DefaultOrdering));
        i += 1;
    }
    assert(!any_fault(items@, SigFault::DefaultOrdering));
    // One past the last `/`, or zero.
    let mut slash_end: usize = 0;
    let mut j: usize = 0;
    while j < n
        invariant
            j <= n == items@.len(),
            slash_end <= j,
            slash_end == 0 || is_slash(items@[slash_end - 1]),
            forall|k: int| slash_end <= k < j ==> !is_slash(#[trigger] items@[k]),
        decreases n - j,
    {
        if let SigItem::PositionalOnlyMarker = &items[j] {
            slash_end = j + 1;
        }
        j += 1;
    }
    // Entries out of place; the descriptors.
    let mut seen_slash = false;
    let mut seen_star = false;
    let mut seen_kwargs = false;
    let mut seen_param = false;
    let mut out: Vec<ParameterDescriptor> = Vec::new();
    let mut i: usize = 0;
    while i < n
        invariant
            i <= n == items@.len(),
            !any_fault(items@, SigFault::DuplicateName),
            !any_fault(items@, SigFault::DefaultOrdering),
            none_before(items@, i as int, SigFault::Ordering),
            seen_slash == slash_before(items@, i as int),
            seen_star == star_before(items@, i as int),
            seen_kwargs == kwargs_before(items@, i as int),
            seen_param == param_before(items@, i as int),
            params_view(out@) == params_of(items@, i as int),
        decreases n - i,
    {
        let it = &items[i];
        let misplaced = match it {
            SigItem::PositionalOnlyMarker => seen_slash || seen_star || seen_kwargs || !seen_param,
            SigItem::KeywordOnlyMarker => seen_star || seen_kwargs,
            SigItem::VarArgs { .. } => seen_star || seen_kwargs,
            _ => seen_kwargs,
        };
        if misplaced {
            assert(has_fault(items@, i as int, SigFault::Ordering));
            assert(ruling_fault(items@) == SigFault::Ordering);
            let cited = match it {
                SigItem::PositionalOnlyMarker => "/".to_owned(),
                SigItem::KeywordOnlyMarker => "*".to_owned(),
                SigItem::Param { name, .. } => name.clone(),
                SigItem::VarArgs { name, .. } => name.clone(),
                SigItem::VarKwargs { name, .. } => name.clone(),
            };
            return Err(SignatureError::OrderingViolation(cited));
        }
        proof {
            assert(slash_after(items@, i as int) == (i + 1 < slash_end)) by {
                if i + 1 < slash_end {
                    assert(is_slash(items@[slash_end - 1]));
                }
            }
        }
        match it {
            SigItem::Param { name, type_signature, default } => {
                let kind = if i + 1 < slash_end {
                    PassingKind::PositionalOnly
                } else if seen_star {
                    PassingKind::KeywordOnly
                } else {
                    PassingKind::PositionalOrKeyword
                };
                let default_repr = match default {
                    Some(DefaultValue::Literal(s)) => Some(s.clone()),
                    Some(DefaultValue::Expression) => Some("...".to_owned()),
                    None => None,
                };
                out.push(ParameterDescriptor {
                    name: name.clone(),
                    type_signature: type_signature.clone(),
                    passing_kind: kind,
                    has_default: default.is_some(),
                    default_repr,
                });
                seen_param = true;
            },
            SigItem::VarArgs { name, type_signature } => {
                out.push(ParameterDescriptor {
                    name: name.clone(),
                    type_signature: type_signature.clone(),
                    passing_kind: PassingKind::VarPositional,
                    has_default: false,
                    default_repr: None,
                });
                seen_star = true;
            },
            SigItem::VarKwargs { name, type_signature } => {
                out.push(ParameterDescriptor {
                    name: name.clone(),
                    type_signature: type_signature.clone(),
                    passing_kind: PassingKind::VarKeyword,
                    has_default: false,
                    default_repr: None,
                });
                seen_kwargs = true;
            },
            SigItem::PositionalOnlyMarker => {
                seen_slash = true;
            },
            SigItem::KeywordOnlyMarker => {
                seen_star = true;
            },
        }
        assert(!has_fault(items@, i as int, SigFault::Ordering));
        i += 1;
    }
    assert(!any_fault(items@, SigFault::Ordering));
    Ok(out)
}

/// A callable as declared: its name, parameter list, return type and documentation.
#[derive(Clone, Debug, PartialEq, Eq)]
pub struct CallableDecl {
    pub name: String,
    pub params: Vec<SigItem>,
    pub return_type: String,
    pub doc: String,
}

/// What a callable descriptor holds, as mathematical values.
pub struct CallableView {
    pub name: Seq<char>,
    pub parameters: Seq<ParamView>,
    pub return_type: Seq<char>,
    pub doc: Seq<char>,
}

impl View for CallableDescriptor {
    type V = CallableView;

    open spec fn view(&self) -> CallableView {
        CallableView {
            name: self.name@,
            parameters: params_view(self.parameters@),
            return_type: self.return_type@,
            doc: self.doc@,
        }
    }
}

/// The descriptor of a callable whose parameter list is valid.
pub open spec fn callable_of(d: CallableDecl) -> CallableView {
    CallableView {
        name: d.name@,
        parameters: params_of(d.params@, d.params@.len() as int),
        return_type: d.return_type@,
        doc: d.doc@,
    }
}

/// Compiles a declared callable; fails exactly where its parameter list does.
pub fn compile_callable(d: &CallableDecl) -> (r: Result<CallableDescriptor, SignatureError>)
    ensures
        r is Ok <==> signature_valid(d.params@),
        r matches Ok(c) ==> c@ == callable_of(*d),
        r matches Err(e) ==> reports_fault(d.params@, e),
{
    let parameters = analyze_signature(&d.params)?;
    Ok(CallableDescriptor {
        name: d.name.clone(),
        parameters,
        return_type: d.return_type.clone(),
        doc: d.doc.clone(),
    })
}

/// One entry of an explicit signature list, as written: `/`, `*` or `*name`,
/// `**name`, and `name` or `name = default`.
#[derive(Clone, Debug, PartialEq, Eq)]
pub enum SigEntry {
    Slash,
    Star(Option<String>),
    DoubleStar(String),
    Named { name: String, default: Option<DefaultValue> },
}

/// A parameter of the underlying function, with its type.
#[derive(Clone, Debug, PartialEq, Eq)]
pub struct TypedArg {
    pub name: String,
    pub type_signature: String,
}

/// `e` is the entry that the tokens `t` of one comma-separated piece of a
/// signature list write: `/`; `*` alone or `*name`; `**name`; else `name`, with a
/// default shown as written where it is one token after `=`, and as `...` where
/// it is longer.
pub open spec fn entry_written(t: Seq<String>, e: SigEntry) -> bool {
    if t.len() == 1 && t[0]@ == "/"@ {
        e is Slash
    } else if t.len() >= 1 && t[0]@ == "*"@ && !(t.len() >= 2 && t[1]@ == "*"@) {
        if t.len() == 1 {
            e == SigEntry::Star(None)
        } else {
            e == SigEntry::Star(Some(t[1]))
        }
    } else if t.len() >= 3 && t[0]@ == "*"@ && t[1]@ == "*"@ {
        e == SigEntry::DoubleStar(t[2])
    } else {
        &&& e is Named
        &&& e->Named_name@ == if t.len() == 0 {
            Seq::<char>::empty()
        } else {
            t[0]@
        }
        &&& e->Named_default == if t.len() == 3 && t[1]@ == "="@ {
            Some(DefaultValue::Literal(t[2]))
        } else if t.len() > 1 {
            Some(DefaultValue::Expression)
        } else {
            None
        }
    }
}

/// Reads one comma-separated piece of a signature list.
pub fn sig_entry_of(tokens: &Vec<String>) -> (r: SigEntry)
    ensures
        entry_written(tokens@, r),
{
    let n = tokens.len();
    if n == 0 {
        return SigEntry::Named { name: String::new(), default: None };
    }
    let star0 = is_word(&tokens[0], "*");
    let star1 = n >= 2 && is_word(&tokens[1], "*");
    if n == 1 && is_word(&tokens[0], "/") {
        SigEntry::Slash
    } else if star0 && !star1 {
        if n == 1 {
            SigEntry::Star(None)
        } else {
            SigEntry::Star(Some(tokens[1].clone()))
        }
    } else if n >= 3 && star0 && star1 {
        SigEntry::DoubleStar(tokens[2].clone())
    } else {
        let default = if n == 3 && is_word(&tokens[1], "=") {
            Some(DefaultValue::Literal(tokens[2].clone()))
        } else if n > 1 {
            Some(DefaultValue::Expression)
        } else {
            None
        };
        SigEntry::Named { name: tokens[0].clone(), default }
    }
}

/// The pieces finished and the piece begun after reading the first `n` tokens
/// of a signature list: a comma ends a piece, and empty pieces are dropped.
pub open spec fn split_state(t: Seq<String>, n: int) -> (Seq<Seq<String>>, Seq<String>)
    decreases n,
{
    if n <= 0 {
        (Seq::empty(), Seq::empty())
    } else {
        let (done, cur) = split_state(t, n - 1);
        if t[n - 1]@ == ","@ {
            if cur.len() > 0 {
                (done.push(cur), Seq::empty())
            } else {
                (done, Seq::empty())
            }
        } else {
            (done, cur.push(t[n - 1]))
        }
    }
}

/// The non-empty comma-separated pieces of a signature list, in order.
pub open spec fn pieces_of(t: Seq<String>) -> Seq<Seq<String>> {
    let (done, cur) = split_state(t, t.len() as int);
    if cur.len() > 0 {
        done.push(cur)
    } else {
        done
    }
}

/// Reads a signature list, given as its tokens: one entry for each non-empty
/// comma-separated piece, in order.
pub fn signature_entries_of(tokens: &Vec<String>) -> (r: Vec<SigEntry>)
    ensures
        r@.len() == pieces_of(tokens@).len(),
        forall|i: int| 0 <= i < r@.len() ==> entry_written(pieces_of(tokens@)[i], #[trigger] r@[i]),
{
    let mut out: Vec<SigEntry> = Vec::new();
    let mut cur: Vec<String> = Vec::new();
    let mut i: usize = 0;
    while i < tokens.len()
        invariant
            i <= tokens@.len(),
            split_state(tokens@, i as int).1 == cur@,
            out@.len() == split_state(tokens@, i as int).0.len(),
            forall|k: int|
                0 <= k < out@.len() ==> entry_written(split_state(tokens@, i as int).0[k], #[trigger] out@[k]),
        decreases tokens@.len() - i,
    {
        if is_word(&tokens[i], ",") {
            if cur.len() > 0 {
                let e = sig_entry_of(&cur);
                out.push(e);
            }
            cur = Vec::new();
        } else {
            cur.push(tokens[i].clone());
        }
        proof {
            let (d0, c0) = split_state(tokens@, i as int);
            let (d1, c1) = split_state(tokens@, i + 1);
            assert(forall|k: int| 0 <= k < d0.len() ==> d1[k] == d0[k]);
        }
        i += 1;
    }
    if cur.len() > 0 {
        let e = sig_entry_of(&cur);
        out.push(e);
    }
    out
}

/// The type of the first parameter named `n`; a name that none has is untyped.
pub open spec fn declared_type(typed: Seq<TypedArg>, n: Seq<char>) -> Seq<char>
    decreases typed.len(),
{
    if typed.len() == 0 {
        "typing.Any"@
    } else if typed[0].name@ == n {
        typed[0].type_signature@
    } else {
        declared_type(typed.drop_first(), n)
    }
}

/// The entry `e` of an explicit signature is written as the item `it`.
pub open spec fn entry_gives(e: SigEntry, typed: Seq<TypedArg>, it: SigItem) -> bool {
    match e {
        SigEntry::Slash => it is PositionalOnlyMarker,
        SigEntry::Star(None) => it is KeywordOnlyMarker,
        SigEntry::Star(Some(n)) => it is VarArgs && it->VarArgs_name == n
            && it->VarArgs_type_signature@ == declared_type(typed, n@),
        SigEntry::DoubleStar(n) => it is VarKwargs && it->VarKwargs_name == n
            && it->VarKwargs_type_signature@ == declared_type(typed, n@),
        SigEntry::Named { name, default } => it is Param && it->Param_name == name
            && it->Param_default == default && it->Param_type_signature@ == declared_type(
            typed,
            name@,
        ),
    }
}

/// Looks up the type of the parameter named `n`.
pub fn type_of_param(typed: &Vec<TypedArg>, n: &String) -> (r: String)
    ensures
        r@ == declared_type(typed@, n@),
{
    assert(typed@.subrange(0, typed@.len() as int) =~= typed@);
    let mut i: usize = 0;
    while i < typed.len()
        invariant
            i <= typed@.len(),
            declared_type(typed@, n@) == declared_type(typed@.subrange(i as int, typed@.len() as int), n@),
        decreases typed@.len() - i,
    {
        assert(typed@.subrange(i as int, typed@.len() as int).drop_first() =~= typed@.subrange(
            i + 1,
            typed@.len() as int,
        ));
        if typed[i].name == *n {
            return typed[i].type_signature.clone();
        }
        i += 1;
    }
    "typing.Any".to_owned()
}

fn copy_default(d: &Option<DefaultValue>) -> (r: Option<DefaultValue>)
    ensures
        r == *d,
{
    match d {
        Some(DefaultValue::Literal(s)) => Some(DefaultValue::Literal(s.clone())),
        Some(DefaultValue::Expression) => Some(DefaultValue::Expression),
        None => None,
    }
}

/// The parameter list that an explicit signature declares, each name typed by
/// the underlying function's parameter of that name.
pub fn signature_from_entries(entries: &Vec<SigEntry>, typed: &Vec<TypedArg>) -> (r: Vec<SigItem>)
    ensures
        r@.len() == entries@.len(),
        forall|i: int| 0 <= i < entries@.len() ==> entry_gives(#[trigger] entries@[i], typed@, r@[i]),
{
    let mut out: Vec<SigItem> = Vec::new();
    let mut i: usize = 0;
    while i < entries.len()
        invariant
            i <= entries@.len(),
            out@.len() == i,
            forall|k: int| 0 <= k < i ==> entry_gives(#[trigger] entries@[k], typed@, out@[k]),
        decreases entries@.len() - i,
    {
        let it = match &entries[i] {
            SigEntry::Slash => SigItem::PositionalOnlyMarker,
            SigEntry::Star(None) => SigItem::KeywordOnlyMarker,
            SigEntry::Star(Some(n)) => SigItem::VarArgs {
                name: n.clone(),
                type_signature: type_of_param(typed, n),
            },
            SigEntry::DoubleStar(n) => SigItem::VarKwargs {
                name: n.clone(),
                type_signature: type_of_param(typed, n),
            },
            SigEntry::Named { name, default } => SigItem::Param {
                name: name.clone(),
                type_signature: type_of_param(typed, name),
                default: copy_default(default),
            },
        };
        out.push(it);
        i += 1;
    }
    out
}

/// The parameter list of a function without an explicit signature: each of its
/// parameters in order, positional-or-keyword and without a default.
pub fn signature_from_params(typed: &Vec<TypedArg>) -> (r: Vec<SigItem>)
    ensures
        r@.len() == typed@.len(),
        forall|i: int|
            0 <= i < typed@.len() ==> (#[trigger] r@[i]) is Param && r@[i]->Param_name == typed@[i].name
                && r@[i]->Param_type_signature == typed@[i].type_signature && r@[i]->Param_default is None,
{
    let mut out: Vec<SigItem> = Vec::new();
    let mut i: usize = 0;
    while i < typed.len()
        invariant
            i <= typed@.len(),
            out@.len() == i,
            forall|k: int|
                0 <= k < i ==> (#[trigger] out@[k]) is Param && out@[k]->Param_name == typed@[k].name
                    && out@[k]->Param_type_signature == typed@[k].type_signature
                    && out@[k]->Param_default is None,
        decreases typed@.len() - i,
    {
        out.push(
            SigItem::Param {
                name: typed[i].name.clone(),
                type_signature: typed[i].type_signature.clone(),
                default: None,
            },
        );
        i += 1;
    }
    out
}

/// Two reports of the faults of one list agree.
pub proof fn lemma_reports_agree(items: Seq<SigItem>, e1: SignatureError, e2: SignatureError)
    requires
        reports_fault(items, e1),
        reports_fault(items, e2),
    ensures
        signature_errors_agree(e1, e2),
{
    let f = ruling_fault(items);
    let i1 = choose|i: int|
        0 <= i < items.len() && #[trigger] has_fault(items, i, f) && none_before(items, i, f)
            && reports(e1, f, items[i]);
    let i2 = choose|i: int|
        0 <= i < items.len() && #[trigger] has_fault(items, i, f) && none_before(items, i, f)
            && reports(e2, f, items[i]);
    if i1 < i2 {
        assert(!has_fault(items, i1, f));
    } else if i2 < i1 {
        assert(!has_fault(items, i2, f));
    }
}

/// How many of the first `n` entries declare a name.
pub open spec fn named_count(items: Seq<SigItem>, n: int) -> nat
    decreases n,
{
    if n <= 0 {
        0
    } else {
        named_count(items, n - 1) + if item_name(items[n - 1]) is Some {
            1nat
        } else {
            0nat
        }
    }
}

/// The analyzed parameters correspond one for one to the named entries of the
/// declaration, in the order in which they were declared: the entry at `i` gives
/// the parameter at position `named_count(items, i)`, under its own name.
pub proof fn lemma_params_follow_declaration(items: Seq<SigItem>, n: int)
    requires
        0 <= n <= items.len(),
    ensures
        params_of(items, n).len() == named_count(items, n),
        forall|i: int|
            0 <= i < n && (#[trigger] item_name(items[i])) is Some ==> {
                &&& named_count(items, i) < named_count(items, n)
                &&& params_of(items, n)[named_count(items, i) as int] == param_at(items, i)
                &&& param_at(items, i).name == item_name(items[i]).unwrap()
            },
    decreases n,
{
    if n > 0 {
        lemma_params_follow_declaration(items, n - 1);
    }
}

/// A parameter list in which a required positional-or-keyword parameter follows a
/// defaulted one of the same group is refused, and where no name in it is
/// repeated the error is a default-ordering violation, citing the first
/// parameter that is required after a defaulted one of its group.
pub proof fn lemma_required_after_default_refused(items: Seq<SigItem>, i: int, j: int)
    requires
        0 <= i < j < items.len(),
        items[i] is Param,
        items[j] is Param,
        is_defaulted(items[i]),
        !is_defaulted(items[j]),
        kind_at(items, i) == PassingKind::PositionalOrKeyword,
        kind_at(items, j) == PassingKind::PositionalOrKeyword,
    ensures
        !signature_valid(items),
        !any_fault(items, SigFault::DuplicateName) ==> ruling_fault(items) == SigFault::DefaultOrdering,
        !any_fault(items, SigFault::DuplicateName) ==> forall|e: SignatureError|
            reports_fault(items, e) ==> e is DefaultOrderingViolation,
{
    assert(!star_before(items, i));
    assert(default_before(items, j, false));
    assert(has_fault(items, j, SigFault::DefaultOrdering));
    assert(any_fault(items, SigFault::DefaultOrdering));
}

} // verus!
