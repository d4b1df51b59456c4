//! The methods-block compiler: the callables of an implementation block become
//! method descriptors, and getters and setters are merged into properties.

use vstd::prelude::*;
use crate::member::{members_view, MemberView};
use crate::model::{
    is_word, CompileError, MemberDescriptor, MethodDescriptor, MethodError, MethodKind,
    MethodsBlockDescriptor,
};
use crate::signature::{
    compile_callable, params_of, reports_fault, signature_valid, CallableDecl, CallableView,
    TypedArg,
};
use vstd::string::StrSliceExecFns;

verus! {

/// The role marker written on a callable of the block, if any.
#[derive(Clone, Copy, Debug, PartialEq, Eq, Structural)]
pub enum MethodMarker {
    Plain,
    ClassMethod,
    Getter,
    Setter,
    New,
}

/// A callable of the block: its declaration, whether it takes a receiver, its
/// marker, and the name its marker gives it explicitly (`#[getter(x)]`), if any.
#[derive(Clone, Debug, PartialEq, Eq)]
pub struct MethodDecl {
    pub callable: CallableDecl,
    pub has_receiver: bool,
    pub marker: MethodMarker,
    pub explicit_name: Option<String>,
}

/// An implementation block: the type it belongs to and its callables.
#[derive(Clone, Debug, PartialEq, Eq)]
pub struct ImplDecl {
    pub target: String,
    pub methods: Vec<MethodDecl>,
}

/// The marker that an attribute name writes, if it is one.
pub open spec fn marker_named(a: Seq<char>) -> Option<MethodMarker> {
    if a == "new"@ {
        Some(MethodMarker::New)
    } else if a == "getter"@ {
        Some(MethodMarker::Getter)
    } else if a == "setter"@ {
        Some(MethodMarker::Setter)
    } else if a == "classmethod"@ {
        Some(MethodMarker::ClassMethod)
    } else {
        None
    }
}

/// The marker of a callable whose attributes are named `names`, in order: the
/// first that is a marker decides, and a callable with none is plain.
pub open spec fn marker_of(names: Seq<String>) -> MethodMarker
    decreases names.len(),
{
    if names.len() == 0 {
        MethodMarker::Plain
    } else {
        match marker_named(names[0]@) {
            Some(m) => m,
            None => marker_of(names.drop_first()),
        }
    }
}

/// Reads the marker of a callable from the names of its attributes.
pub fn marker_for(names: &Vec<String>) -> (r: MethodMarker)
    ensures
        r == marker_of(names@),
{
    assert(names@.subrange(0, names@.len() as int) =~= names@);
    let mut i: usize = 0;
    while i < names.len()
        invariant
            i <= names@.len(),
            marker_of(names@) == marker_of(names@.subrange(i as int, names@.len() as int)),
        decreases names@.len() - i,
    {
        assert(names@.subrange(i as int, names@.len() as int).drop_first() =~= names@.subrange(
            i + 1,
            names@.len() as int,
        ));
        let a = &names[i];
        if is_word(a, "new") {
            return MethodMarker::New;
        } else if is_word(a, "getter") {
            return MethodMarker::Getter;
        } else if is_word(a, "setter") {
            return MethodMarker::Setter;
        } else if is_word(a, "classmethod") {
            return MethodMarker::ClassMethod;
        }
        i += 1;
    }
    MethodMarker::Plain
}

/// The parameters a callable declares in Python: a class method's first Rust
/// parameter is the class itself and is dropped.
pub fn callable_params(typed: Vec<TypedArg>, marker: MethodMarker) -> (r: Vec<TypedArg>)
    ensures
        r@ == if marker is ClassMethod && typed@.len() > 0 {
            typed@.drop_first()
        } else {
            typed@
        },
{
    let ghost given = typed@;
    let mut typed = typed;
    if marker == MethodMarker::ClassMethod && typed.len() > 0 {
        typed.remove(0);
        assert(typed@ =~= given.drop_first());
    }
    typed
}

/// The role of a callable, from its marker and its shape.
pub open spec fn method_kind(m: MethodDecl) -> MethodKind {
    match m.marker {
        MethodMarker::New => MethodKind::New,
        MethodMarker::Getter => MethodKind::Getter,
        MethodMarker::Setter => MethodKind::Setter,
        MethodMarker::ClassMethod => MethodKind::Class,
        MethodMarker::Plain => if m.has_receiver {
            MethodKind::Instance
        } else {
            MethodKind::Static
        },
    }
}

pub open spec fn signatures_valid(ms: Seq<MethodDecl>) -> bool {
    forall|i: int| 0 <= i < ms.len() ==> signature_valid((#[trigger] ms[i]).callable.params@)
}

/// `n` without the leading `p`, where it starts with `p`.
pub open spec fn without_prefix(n: Seq<char>, p: Seq<char>) -> Seq<char> {
    if p.len() <= n.len() && n.subrange(0, p.len() as int) == p {
        n.subrange(p.len() as int, n.len() as int)
    } else {
        n
    }
}

/// The name a callable is exposed under: the name its marker gives explicitly;
/// else, for a getter or a setter, its function name without a leading `get_` or
/// `set_`; else its function name.
pub open spec fn exposed_name_of(m: MethodDecl) -> Seq<char> {
    match m.explicit_name {
        Some(n) => n@,
        None => match m.marker {
            MethodMarker::Getter => without_prefix(m.callable.name@, "get_"@),
            MethodMarker::Setter => without_prefix(m.callable.name@, "set_"@),
            _ => m.callable.name@,
        },
    }
}

/// Removes a leading `p` from `s`.
pub fn strip_prefix(s: &String, p: &str) -> (r: String)
    ensures
        r@ == without_prefix(s@, p@),
{
    let n = s.as_str().unicode_len();
    let k = p.unicode_len();
    if k <= n {
        let head = s.as_str().substring_char(0, k).to_owned();
        if head == p.to_owned() {
            return s.as_str().substring_char(k, n).to_owned();
        }
    }
    s.clone()
}

/// The name the callable `m` is exposed under.
pub fn method_name(m: &MethodDecl) -> (r: String)
    ensures
        r@ == exposed_name_of(*m),
{
    match &m.explicit_name {
        Some(n) => n.clone(),
        None => match m.marker {
            MethodMarker::Getter => strip_prefix(&m.callable.name, "get_"),
            MethodMarker::Setter => strip_prefix(&m.callable.name, "set_"),
            _ => m.callable.name.clone(),
        },
    }
}

/// A getter and a setter, in either order: the one pair that may share a name.
pub open spec fn accessor_pair(a: MethodMarker, b: MethodMarker) -> bool {
    (a is Getter && b is Setter) || (a is Setter && b is Getter)
}

fn is_accessor_pair(a: MethodMarker, b: MethodMarker) -> (r: bool)
    ensures
        r == accessor_pair(a, b),
{
    (a == MethodMarker::Getter && b == MethodMarker::Setter) || (a == MethodMarker::Setter && b
        == MethodMarker::Getter)
}

/// The callables at `i` and `j` are exposed under one name, and are not a
/// getter and a setter.
pub open spec fn clash(ms: Seq<MethodDecl>, i: int, j: int) -> bool {
    exposed_name_of(ms[i]) == exposed_name_of(ms[j]) && !accessor_pair(ms[i].marker, ms[j].marker)
}

pub open spec fn clash_before(ms: Seq<MethodDecl>, j: int) -> bool {
    exists|i: int| 0 <= i < j && #[trigger] clash(ms, i, j)
}

pub open spec fn names_distinct(ms: Seq<MethodDecl>) -> bool {
    forall|j: int| 0 <= j < ms.len() ==> !#[trigger] clash_before(ms, j)
}

pub open spec fn getter_named(ms: Seq<MethodDecl>, n: Seq<char>) -> bool {
    exists|k: int| 0 <= k < ms.len() && (#[trigger] ms[k]).marker is Getter && exposed_name_of(ms[k]) == n
}

pub open spec fn setter_named(ms: Seq<MethodDecl>, n: Seq<char>) -> bool {
    exists|k: int| 0 <= k < ms.len() && (#[trigger] ms[k]).marker is Setter && exposed_name_of(ms[k]) == n
}

pub open spec fn unpaired_setter(ms: Seq<MethodDecl>, i: int) -> bool {
    ms[i].marker is Setter && !getter_named(ms, exposed_name_of(ms[i]))
}

pub open spec fn setters_paired(ms: Seq<MethodDecl>) -> bool {
    forall|i: int| 0 <= i < ms.len() ==> !#[trigger] unpaired_setter(ms, i)
}

/// The property that the getter at `g` gives: readable, and writable when a
/// setter of the same name exists.
pub open spec fn property_of(ms: Seq<MethodDecl>, g: int) -> MemberView {
    MemberView {
        name: exposed_name_of(ms[g]),
        type_signature: ms[g].callable.return_type@,
        readable: true,
        writable: setter_named(ms, exposed_name_of(ms[g])),
    }
}

/// The properties given by the getters among the first `n` callables, in order.
pub open spec fn properties_of(ms: Seq<MethodDecl>, n: int) -> Seq<MemberView>
    decreases n,
{
    if n <= 0 {
        Seq::empty()
    } else if ms[n - 1].marker is Getter {
        properties_of(ms, n - 1).push(property_of(ms, n - 1))
    } else {
        properties_of(ms, n - 1)
    }
}

/// The descriptor of a callable with a valid parameter list, under its exposed name.
pub open spec fn method_view(m: MethodDecl) -> CallableView {
    CallableView {
        name: exposed_name_of(m),
        parameters: params_of(m.callable.params@, m.callable.params@.len() as int),
        return_type: m.callable.return_type@,
        doc: m.callable.doc@,
    }
}

/// A getter or a setter: listed among the properties rather than the methods.
pub open spec fn is_accessor(m: MethodDecl) -> bool {
    m.marker is Getter || m.marker is Setter
}

/// The method entries of the first `n` callables: each one that is not a getter
/// or a setter, in order, with its role and descriptor.
pub open spec fn method_entries_of(ms: Seq<MethodDecl>, n: int) -> Seq<(MethodKind, CallableView)>
    decreases n,
{
    if n <= 0 {
        Seq::empty()
    } else if !is_accessor(ms[n - 1]) {
        method_entries_of(ms, n - 1).push((method_kind(ms[n - 1]), method_view(ms[n - 1])))
    } else {
        method_entries_of(ms, n - 1)
    }
}

pub open spec fn entries_view(v: Seq<MethodDescriptor>) -> Seq<(MethodKind, CallableView)> {
    v.map_values(|m: MethodDescriptor| (m.kind, m.callable@))
}

/// Whether one of `ms` has marker `marker` and is exposed under `n`.
fn has_marked(ms: &Vec<MethodDecl>, names: &Vec<String>, marker: MethodMarker, n: &String) -> (r:
    bool)
    requires
        names@.len() == ms@.len(),
        forall|k: int| 0 <= k < ms@.len() ==> (#[trigger] names@[k])@ == exposed_name_of(ms@[k]),
    ensures
        r == exists|k: int|
            0 <= k < ms@.len() && (#[trigger] ms@[k]).marker == marker && exposed_name_of(ms@[k]) == n@,
{
    let mut k: usize = 0;
    while k < ms.len()
        invariant
            k <= ms@.len(),
            names@.len() == ms@.len(),
            forall|k: int| 0 <= k < ms@.len() ==> (#[trigger] names@[k])@ == exposed_name_of(ms@[k]),
            forall|j: int|
                0 <= j < k ==> !((#[trigger] ms@[j]).marker == marker && exposed_name_of(ms@[j]) == n@),
        decreases ms@.len() - k,
    {
        assert(names@[k as int]@ == exposed_name_of(ms@[k as int]));
        if ms[k].marker == marker && names[k] == *n {
            return true;
        }
        k += 1;
    }
    false
}

/// What compiling the implementation block `d` returns. Every callable's
/// parameter list is analyzed in order, the first refusal deciding the error;
/// then no two callables may be exposed under one name, but for a getter and a
/// setter; then every setter must have a getter of its name. Each callable that
/// is not a getter or a setter is listed among the methods under its exposed
/// name, and each getter gives a property, merged with the setter of its name.
pub open spec fn methods_outcome(d: ImplDecl, r: Result<MethodsBlockDescriptor, CompileError>) -> bool {
    let ms = d.methods@;
    &&& (r is Ok <==> signatures_valid(ms) && names_distinct(ms) && setters_paired(ms))
    &&& (r matches Ok(b) ==> {
        &&& b.target_identity == d.target
        &&& entries_view(b.methods@) == method_entries_of(ms, ms.len() as int)
        &&& forall|a: int, c: int|
            0 <= a < b.methods@.len() && 0 <= c < b.methods@.len() && a != c ==> (
            #[trigger] b.methods@[a]).callable@.name != (#[trigger] b.methods@[c]).callable@.name
        &&& members_view(b.properties@) == properties_of(ms, ms.len() as int)
        &&& forall|a: int, c: int|
            0 <= a < b.properties@.len() && 0 <= c < b.properties@.len() && a != c ==> (
            #[trigger] b.properties@[a]).name@ != (#[trigger] b.properties@[c]).name@
    })
    &&& (r matches Err(e) ==> if !signatures_valid(ms) {
        exists|i: int|
            0 <= i < ms.len() && signatures_valid(ms.take(i)) && !signature_valid(
                (#[trigger] ms[i]).callable.params@,
            ) && (e matches CompileError::Signature(se) && reports_fault(
                ms[i].callable.params@,
                se,
            ))
    } else if !names_distinct(ms) {
        exists|j: int|
            0 <= j < ms.len() && #[trigger] clash_before(ms, j) && (forall|k: int|
                0 <= k < j ==> !#[trigger] clash_before(ms, k)) && (e matches CompileError::Method(
                MethodError::DuplicateName(n),
            ) && n@ == exposed_name_of(ms[j]))
    } else {
        exists|i: int|
            0 <= i < ms.len() && #[trigger] unpaired_setter(ms, i) && (forall|k: int|
                0 <= k < i ==> !#[trigger] unpaired_setter(ms, k)) && (e matches CompileError::Method(
                MethodError::SetterWithoutGetter(n),
            ) && n@ == exposed_name_of(ms[i]))
    })
}

/// Compiles an implementation block.
#[verifier::loop_isolation(false)]
#[verifier::rlimit(60)]
pub fn compile_methods(d: &ImplDecl) -> (r: Result<MethodsBlockDescriptor, CompileError>)
    ensures
        methods_outcome(*d, r),
{
    let ms = &d.methods;
    let mut methods: Vec<MethodDescriptor> = Vec::new();
    let mut names: Vec<String> = Vec::new();
    let mut i: usize = 0;
    while i < ms.len()
        invariant
            i <= ms@.len(),
            signatures_valid(ms@.take(i as int)),
            names@.len() == i,
            entries_view(methods@) == method_entries_of(ms@, i as int),
            forall|k: int| 0 <= k < i ==> (#[trigger] names@[k])@ == exposed_name_of(ms@[k]),
        decreases ms@.len() - i,
    {
        let m = &ms[i];
        let mut callable = match compile_callable(&m.callable) {
            Ok(c) => c,
            Err(e) => {
                proof {
                    assert(!signatures_valid(ms@)) by {
                        assert(ms@[i as int] == m);
                    }
                }
                return Err(CompileError::Signature(e));
            },
        };
        let name = method_name(m);
        callable.name = name.clone();
        let kind = match m.marker {
            MethodMarker::New => MethodKind::New,
            MethodMarker::Getter => MethodKind::Getter,
            MethodMarker::Setter => MethodKind::Setter,
            MethodMarker::ClassMethod => MethodKind::Class,
            MethodMarker::Plain => if m.has_receiver {
                MethodKind::Instance
            } else {
                MethodKind::Static
            },
        };
        if !(m.marker == MethodMarker::Getter || m.marker == MethodMarker::Setter) {
            methods.push(MethodDescriptor { kind, callable });
        }
        names.push(name);
        proof {
            assert(entries_view(methods@) =~= method_entries_of(ms@, i + 1));
        }
        proof {
            assert forall|k: int| 0 <= k < i + 1 implies signature_valid(
                (#[trigger] ms@.take(i + 1)[k]).callable.params@,
            ) by {
                if k < i {
                    assert(ms@.take(i + 1)[k] == ms@.take(i as int)[k]);
                }
            }
        }
        i += 1;
    }
    proof {
        assert(ms@.take(i as int) =~= ms@);
    }
    let mut j: usize = 0;
    while j < ms.len()
        invariant
            j <= ms@.len(),
            signatures_valid(ms@),
            forall|k: int| 0 <= k < j ==> !#[trigger] clash_before(ms@, k),
        decreases ms@.len() - j,
    {
        let mut i2: usize = 0;
        while i2 < j
            invariant
                i2 <= j < ms@.len(),
                forall|k: int| 0 <= k < i2 ==> !#[trigger] clash(ms@, k, j as int),
            decreases j - i2,
        {
            assert(names@[i2 as int]@ == exposed_name_of(ms@[i2 as int]));
            assert(names@[j as int]@ == exposed_name_of(ms@[j as int]));
            if names[i2] == names[j] && !is_accessor_pair(ms[i2].marker, ms[j].marker) {
                assert(clash(ms@, i2 as int, j as int));
                assert(clash_before(ms@, j as int));
                assert(!names_distinct(ms@));
                return Err(CompileError::Method(MethodError::DuplicateName(names[j].clone())));
            }
            i2 += 1;
        }
        j += 1;
    }
    let mut j: usize = 0;
    while j < ms.len()
        invariant
            j <= ms@.len(),
            signatures_valid(ms@),
            names_distinct(ms@),
            forall|k: int| 0 <= k < j ==> !#[trigger] unpaired_setter(ms@, k),
        decreases ms@.len() - j,
    {
        let m = &ms[j];
        assert(names@[j as int]@ == exposed_name_of(ms@[j as int]));
        if m.marker == MethodMarker::Setter && !has_marked(ms, &names, MethodMarker::Getter, &names[j]) {
            proof {
                assert(ms@[j as int] == m);
                assert(!getter_named(ms@, exposed_name_of(*m))) by {
                    if getter_named(ms@, exposed_name_of(*m)) {
                        let k = choose|k: int|
                            0 <= k < ms@.len() && (#[trigger] ms@[k]).marker is Getter
                                && exposed_name_of(ms@[k]) == exposed_name_of(*m);
                        assert(ms@[k].marker == MethodMarker::Getter);
                    }
                }
                assert(unpaired_setter(ms@, j as int));
            }
            return Err(CompileError::Method(MethodError::SetterWithoutGetter(names[j].clone())));
        }
        j += 1;
    }
    let mut properties: Vec<MemberDescriptor> = Vec::new();
    let mut p: usize = 0;
    while p < ms.len()
        invariant
            p <= ms@.len(),
            members_view(properties@) == properties_of(ms@, p as int),
        decreases ms@.len() - p,
    {
        let m = &ms[p];
        assert(names@[p as int]@ == exposed_name_of(ms@[p as int]));
        if m.marker == MethodMarker::Getter {
            let writable = has_marked(ms, &names, MethodMarker::Setter, &names[p]);
            properties.push(
                MemberDescriptor {
                    name: names[p].clone(),
                    type_signature: m.callable.return_type.clone(),
                    readable: true,
                    writable,
                },
            );
        }
        proof {
            assert(members_view(properties@) =~= properties_of(ms@, p + 1));
        }
        p += 1;
    }
    proof {
        lemma_method_names_distinct(ms@, ms@.len() as int);
        assert forall|a: int, c: int|
            0 <= a < methods@.len() && 0 <= c < methods@.len() && a != c implies (
            #[trigger] methods@[a]).callable@.name != (#[trigger] methods@[c]).callable@.name by {
            assert(entries_view(methods@)[a].1.name == methods@[a].callable@.name);
            assert(entries_view(methods@)[c].1.name == methods@[c].callable@.name);
        }
    }
    proof {
        lemma_property_names_distinct(ms@, ms@.len() as int);
        assert forall|a: int, c: int|
            0 <= a < properties@.len() && 0 <= c < properties@.len() && a != c implies (
            #[trigger] properties@[a]).name@ != (#[trigger] properties@[c]).name@ by {
            assert(members_view(properties@)[a].name == properties@[a].name@);
            assert(members_view(properties@)[c].name == properties@[c].name@);
        }
    }
    Ok(MethodsBlockDescriptor { target_identity: d.target.clone(), methods, properties })
}

/// Some callable among the first `n` that is not a getter or a setter is exposed
/// under `name`.
pub open spec fn listed_among(ms: Seq<MethodDecl>, n: int, name: Seq<char>) -> bool {
    exists|k: int| 0 <= k < n && !is_accessor(#[trigger] ms[k]) && exposed_name_of(ms[k]) == name
}

/// Where no two callables clash, the method entries have distinct names, each
/// that of a callable among the first `n` that is not a getter or a setter.
proof fn lemma_method_names_distinct(ms: Seq<MethodDecl>, n: int)
    requires
        0 <= n <= ms.len(),
        names_distinct(ms),
    ensures
        forall|a: int|
            0 <= a < method_entries_of(ms, n).len() ==> listed_among(
                ms,
                n,
                (#[trigger] method_entries_of(ms, n)[a]).1.name,
            ),
        forall|a: int, c: int|
            0 <= a < method_entries_of(ms, n).len() && 0 <= c < method_entries_of(ms, n).len() && a
                != c ==> (#[trigger] method_entries_of(ms, n)[a]).1.name != (#[trigger] method_entries_of(
                ms,
                n,
            )[c]).1.name,
    decreases n,
{
    if n > 0 {
        lemma_method_names_distinct(ms, n - 1);
        let prev = method_entries_of(ms, n - 1);
        let cur = method_entries_of(ms, n);
        assert forall|a: int| 0 <= a < prev.len() implies listed_among(ms, n, #[trigger] prev[a].1.name) by {
            assert(listed_among(ms, n - 1, prev[a].1.name));
            let k = choose|k: int|
                0 <= k < n - 1 && !is_accessor(#[trigger] ms[k]) && exposed_name_of(ms[k])
                    == prev[a].1.name;
            assert(0 <= k < n && !is_accessor(ms[k]));
        }
        if !is_accessor(ms[n - 1]) {
            assert forall|a: int| 0 <= a < prev.len() implies cur[a].1.name != exposed_name_of(
                ms[n - 1],
            ) by {
                assert(cur[a] == prev[a]);
                assert(listed_among(ms, n - 1, prev[a].1.name));
                let k = choose|k: int|
                    0 <= k < n - 1 && !is_accessor(#[trigger] ms[k]) && exposed_name_of(ms[k])
                        == prev[a].1.name;
                if exposed_name_of(ms[k]) == exposed_name_of(ms[n - 1]) {
                    assert(clash(ms, k, n - 1));
                    assert(clash_before(ms, n - 1));
                }
            }
            assert forall|a: int| 0 <= a < cur.len() implies listed_among(ms, n, #[trigger] cur[a].1.name) by {
                if a < prev.len() {
                    assert(cur[a] == prev[a]);
                } else {
                    assert(cur[a].1 == method_view(ms[n - 1]));
                }
            }
            assert forall|a: int, c: int|
                0 <= a < cur.len() && 0 <= c < cur.len() && a != c implies (#[trigger] cur[a]).1.name
                    != (#[trigger] cur[c]).1.name by {
                if a < prev.len() && c < prev.len() {
                    assert(cur[a] == prev[a] && cur[c] == prev[c]);
                    assert(prev[a].1.name != prev[c].1.name);
                } else if a < prev.len() {
                    assert(cur[c].1 == method_view(ms[n - 1]));
                } else {
                    assert(cur[a].1 == method_view(ms[n - 1]));
                }
            }
        } else {
            assert(cur == prev);
        }
    }
}

/// Some getter among the first `n` callables is exposed under `name`.
pub open spec fn getter_among(ms: Seq<MethodDecl>, n: int, name: Seq<char>) -> bool {
    exists|k: int| 0 <= k < n && (#[trigger] ms[k]).marker is Getter && exposed_name_of(ms[k]) == name
}

/// Where no two callables clash, the getters' properties have distinct names,
/// each that of a getter among the first `n` callables.
proof fn lemma_property_names_distinct(ms: Seq<MethodDecl>, n: int)
    requires
        0 <= n <= ms.len(),
        names_distinct(ms),
    ensures
        forall|a: int|
            0 <= a < properties_of(ms, n).len() ==> getter_among(
                ms,
                n,
                (#[trigger] properties_of(ms, n)[a]).name,
            ),
        forall|a: int, c: int|
            0 <= a < properties_of(ms, n).len() && 0 <= c < properties_of(ms, n).len() && a != c
                ==> (#[trigger] properties_of(ms, n)[a]).name != (#[trigger] properties_of(ms, n)[c]).name,
    decreases n,
{
    if n > 0 {
        lemma_property_names_distinct(ms, n - 1);
        let prev = properties_of(ms, n - 1);
        let cur = properties_of(ms, n);
        assert forall|a: int| 0 <= a < prev.len() implies getter_among(ms, n, #[trigger] prev[a].name) by {
            assert(getter_among(ms, n - 1, prev[a].name));
            let k = choose|k: int|
                0 <= k < n - 1 && (#[trigger] ms[k]).marker is Getter && exposed_name_of(ms[k])
                    == prev[a].name;
            assert(0 <= k < n && ms[k].marker is Getter);
        }
        if ms[n - 1].marker is Getter {
            assert forall|a: int| 0 <= a < prev.len() implies cur[a].name != exposed_name_of(ms[n - 1]) by {
                assert(cur[a] == prev[a]);
                assert(getter_among(ms, n - 1, prev[a].name));
                let k = choose|k: int|
                    0 <= k < n - 1 && (#[trigger] ms[k]).marker is Getter && exposed_name_of(ms[k])
                        == prev[a].name;
                if exposed_name_of(ms[k]) == exposed_name_of(ms[n - 1]) {
                    assert(clash(ms, k, n - 1));
                    assert(clash_before(ms, n - 1));
                }
            }
            assert forall|a: int| 0 <= a < cur.len() implies getter_among(ms, n, #[trigger] cur[a].name) by {
                if a < prev.len() {
                    assert(cur[a] == prev[a]);
                } else {
                    assert(cur[a] == property_of(ms, n - 1));
                    assert(ms[n - 1].marker is Getter);
                }
            }
            assert forall|a: int, c: int|
                0 <= a < cur.len() && 0 <= c < cur.len() && a != c implies (#[trigger] cur[a]).name
                    != (#[trigger] cur[c]).name by {
                if a < prev.len() && c < prev.len() {
                    assert(cur[a] == prev[a] && cur[c] == prev[c]);
                    assert(prev[a].name != prev[c].name);
                } else if a < prev.len() {
                    assert(cur[c] == property_of(ms, n - 1));
                } else {
                    assert(cur[a] == property_of(ms, n - 1));
                }
            }
        } else {
            assert(cur == prev);
        }
    }
}

/// The getter at `g` gives a property among the first `n` callables' properties.
proof fn lemma_getter_gives_property(ms: Seq<MethodDecl>, g: int, n: int)
    requires
        0 <= g < n <= ms.len(),
        ms[g].marker is Getter,
    ensures
        properties_of(ms, n).contains(property_of(ms, g)),
    decreases n,
{
    if n == g + 1 {
        assert(properties_of(ms, n).last() == property_of(ms, g));
    } else {
        lemma_getter_gives_property(ms, g, n - 1);
        let j = choose|j: int|
            0 <= j < properties_of(ms, n - 1).len() && #[trigger] properties_of(ms, n - 1)[j] == property_of(
                ms,
                g,
            );
        assert(properties_of(ms, n)[j] == property_of(ms, g));
    }
}

/// A getter and a setter exposed under one name merge into one property of that
/// name, both readable and writable.
pub proof fn lemma_getter_setter_merge(ms: Seq<MethodDecl>, g: int, s: int)
    requires
        0 <= g < ms.len(),
        0 <= s < ms.len(),
        ms[g].marker is Getter,
        ms[s].marker is Setter,
        exposed_name_of(ms[g]) == exposed_name_of(ms[s]),
    ensures
        exists|j: int|
            0 <= j < properties_of(ms, ms.len() as int).len() && {
                let p = #[trigger] properties_of(ms, ms.len() as int)[j];
                p.name == exposed_name_of(ms[g]) && p.readable && p.writable
            },
{
    lemma_getter_gives_property(ms, g, ms.len() as int);
    assert(setter_named(ms, exposed_name_of(ms[g])));
}

/// A setter with no getter exposed under its name is refused.
pub proof fn lemma_setter_needs_getter(ms: Seq<MethodDecl>, s: int)
    requires
        0 <= s < ms.len(),
        ms[s].marker is Setter,
        !getter_named(ms, exposed_name_of(ms[s])),
    ensures
        !setters_paired(ms),
{
    assert(unpaired_setter(ms, s));
}

} // verus!
