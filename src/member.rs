//! Selection of the externally visible fields of a data-bearing declaration.

use vstd::prelude::*;
use crate::model::{is_word, MemberDescriptor, MemberError};

verus! {

/// A field as declared, with its visibility markers.
#[derive(Clone, Debug, PartialEq, Eq)]
pub struct FieldDecl {
    pub name: String,
    pub type_signature: Option<String>,
    pub get: bool,
    pub set: bool,
}

/// What a member descriptor holds, as mathematical values.
pub struct MemberView {
    pub name: Seq<char>,
    pub type_signature: Seq<char>,
    pub readable: bool,
    pub writable: bool,
}

impl View for MemberDescriptor {
    type V = MemberView;

    open spec fn view(&self) -> MemberView {
        MemberView {
            name: self.name@,
            type_signature: self.type_signature@,
            readable: self.readable,
            writable: self.writable,
        }
    }
}

pub open spec fn has_key(keys: Seq<String>, w: Seq<char>) -> bool {
    exists|k: int| 0 <= k < keys.len() && (#[trigger] keys[k])@ == w
}

/// Reads a field's visibility markers from the keys of its tag: whether `get`
/// and whether `set` is among them.
pub fn field_markers(keys: &Vec<String>) -> (r: (bool, bool))
    ensures
        r.0 == has_key(keys@, "get"@),
        r.1 == has_key(keys@, "set"@),
{
    let mut get = false;
    let mut set = false;
    let mut i: usize = 0;
    while i < keys.len()
        invariant
            i <= keys@.len(),
            get == has_key(keys@.take(i as int), "get"@),
            set == has_key(keys@.take(i as int), "set"@),
        decreases keys@.len() - i,
    {
        let ghost before = keys@.take(i as int);
        assert(keys@.take(i + 1) =~= before.push(keys@[i as int]));
        if is_word(&keys[i], "get") {
            get = true;
        }
        if is_word(&keys[i], "set") {
            set = true;
        }
        proof {
            let after = keys@.take(i + 1);
            assert(forall|k: int| 0 <= k < i ==> after[k] == before[k]);
            if get && !has_key(before, "get"@) {
                assert(after[i as int]@ == "get"@);
            }
            if set && !has_key(before, "set"@) {
                assert(after[i as int]@ == "set"@);
            }
        }
        i += 1;
    }
    assert(keys@.take(i as int) =~= keys@);
    (get, set)
}

pub open spec fn members_view(ms: Seq<MemberDescriptor>) -> Seq<MemberView> {
    ms.map_values(|m: MemberDescriptor| m@)
}

/// The type shown for a readable field declared without one.
pub open spec fn untyped() -> Seq<char> {
    "typing.Any"@
}

pub open spec fn readable(f: FieldDecl, get_all: bool) -> bool {
    f.get || get_all
}

pub open spec fn writable(f: FieldDecl, set_all: bool) -> bool {
    f.set || set_all
}

/// A field is visible when some marker, its own or the declaration's, exposes it.
pub open spec fn visible(f: FieldDecl, get_all: bool, set_all: bool) -> bool {
    readable(f, get_all) || writable(f, set_all)
}

/// A write-only field must name its type.
pub open spec fn missing_type(f: FieldDecl, get_all: bool, set_all: bool) -> bool {
    !readable(f, get_all) && writable(f, set_all) && f.type_signature is None
}

pub open spec fn member_of(f: FieldDecl, get_all: bool, set_all: bool) -> MemberView {
    MemberView {
        name: f.name@,
        type_signature: match f.type_signature {
            Some(t) => t@,
            None => untyped(),
        },
        readable: readable(f, get_all),
        writable: writable(f, set_all),
    }
}

/// The members that the first `n` fields give, in declaration order.
pub open spec fn members_of(fields: Seq<FieldDecl>, n: int, get_all: bool, set_all: bool) -> Seq<
    MemberView,
>
    decreases n,
{
    if n <= 0 {
        Seq::empty()
    } else if visible(fields[n - 1], get_all, set_all) {
        members_of(fields, n - 1, get_all, set_all).push(member_of(fields[n - 1], get_all, set_all))
    } else {
        members_of(fields, n - 1, get_all, set_all)
    }
}

/// How many of the first `n` fields carry a visibility marker.
pub open spec fn visible_count(fields: Seq<FieldDecl>, n: int, get_all: bool, set_all: bool) -> nat
    decreases n,
{
    if n <= 0 {
        0
    } else {
        visible_count(fields, n - 1, get_all, set_all) + if visible(fields[n - 1], get_all, set_all) {
            1nat
        } else {
            0nat
        }
    }
}

/// The field at `i` has the name of an earlier field.
pub open spec fn name_repeated(fields: Seq<FieldDecl>, i: int) -> bool {
    exists|k: int| 0 <= k < i && (#[trigger] fields[k]).name@ == fields[i].name@
}

/// What is wrong with the field at `i`: a repeated name, or no type for a
/// write-only field.
pub open spec fn field_fault(fields: Seq<FieldDecl>, i: int, get_all: bool, set_all: bool) -> bool {
    name_repeated(fields, i) || missing_type(fields[i], get_all, set_all)
}

pub open spec fn fields_ok(fields: Seq<FieldDecl>, get_all: bool, set_all: bool) -> bool {
    forall|i: int| 0 <= i < fields.len() ==> !#[trigger] field_fault(fields, i, get_all, set_all)
}

/// `e` reports the first faulty field.
pub open spec fn reports_field_fault(
    fields: Seq<FieldDecl>,
    get_all: bool,
    set_all: bool,
    e: MemberError,
) -> bool {
    exists|i: int|
        0 <= i < fields.len() && #[trigger] field_fault(fields, i, get_all, set_all) && (forall|k: int|
            0 <= k < i ==> !#[trigger] field_fault(fields, k, get_all, set_all)) && e == if name_repeated(
            fields,
            i,
        ) {
            MemberError::DuplicateName(fields[i].name)
        } else {
            MemberError::MissingType(fields[i].name)
        }
}

pub open spec fn member_names_distinct(ms: Seq<MemberDescriptor>) -> bool {
    forall|a: int, b: int|
        0 <= a < ms.len() && 0 <= b < ms.len() && a != b ==> (#[trigger] ms[a]).name@ != (
        #[trigger] ms[b]).name@
}

/// Extracts the visible fields as members, in declaration order. `get_all` and
/// `set_all` mark every field readable or writable. The members' names are
/// distinct: a repeated field name is refused.
#[verifier::loop_isolation(false)]
pub fn extract_members(fields: &Vec<FieldDecl>, get_all: bool, set_all: bool) -> (r: Result<
    Vec<MemberDescriptor>,
    MemberError,
>)
    ensures
        r is Ok <==> fields_ok(fields@, get_all, set_all),
        r matches Ok(ms) ==> members_view(ms@) == members_of(
            fields@,
            fields@.len() as int,
            get_all,
            set_all,
        ) && member_names_distinct(ms@),
        r matches Err(e) ==> reports_field_fault(fields@, get_all, set_all, e),
{
    let mut out: Vec<MemberDescriptor> = Vec::new();
    let mut i: usize = 0;
    while i < fields.len()
        invariant
            i <= fields@.len(),
            forall|k: int| 0 <= k < i ==> !#[trigger] field_fault(fields@, k, get_all, set_all),
            members_view(out@) == members_of(fields@, i as int, get_all, set_all),
            member_names_distinct(out@),
            forall|a: int|
                0 <= a < out@.len() ==> exists|k: int|
                    0 <= k < i && (#[trigger] fields@[k]).name@ == (#[trigger] out@[a]).name@,
        decreases fields@.len() - i,
    {
        let f = &fields[i];
        let mut k: usize = 0;
        while k < i
            invariant
                k <= i < fields@.len(),
                f == fields@[i as int],
                forall|m: int| 0 <= m < k ==> (#[trigger] fields@[m]).name@ != f.name@,
            decreases i - k,
        {
            if fields[k].name == f.name {
                assert(name_repeated(fields@, i as int));
                assert(field_fault(fields@, i as int, get_all, set_all));
                return Err(MemberError::DuplicateName(f.name.clone()));
            }
            k += 1;
        }
        assert(!name_repeated(fields@, i as int));
        let can_read = f.get || get_all;
        let can_write = f.set || set_all;
        if !can_read && can_write && f.type_signature.is_none() {
            assert(field_fault(fields@, i as int, get_all, set_all));
            return Err(MemberError::MissingType(f.name.clone()));
        }
        if can_read || can_write {
            let type_signature = match &f.type_signature {
                Some(t) => t.clone(),
                None => "typing.Any".to_owned(),
            };
            let ghost old_out = out@;
            out.push(
                MemberDescriptor {
                    name: f.name.clone(),
                    type_signature,
                    readable: can_read,
                    writable: can_write,
                },
            );
            proof {
                assert forall|a: int| 0 <= a < old_out.len() implies (#[trigger] out@[a]).name@
                    != f.name@ by {
                    assert(out@[a] == old_out[a]);
                    let k = choose|k: int|
                        0 <= k < i && (#[trigger] fields@[k]).name@ == old_out[a].name@;
                }
                assert forall|a: int| 0 <= a < out@.len() implies exists|k: int|
                    0 <= k < i + 1 && (#[trigger] fields@[k]).name@ == (#[trigger] out@[a]).name@ by {
                    if a < old_out.len() {
                        assert(out@[a] == old_out[a]);
                        let k = choose|k: int|
                            0 <= k < i && (#[trigger] fields@[k]).name@ == old_out[a].name@;
                        assert(fields@[k].name@ == out@[a].name@);
                    } else {
                        assert(fields@[i as int].name@ == out@[a].name@);
                    }
                }
            }
        }
        proof {
            assert(members_view(out@) =~= members_of(fields@, i + 1, get_all, set_all));
        }
        i += 1;
    }
    Ok(out)
}

/// The members extracted from a declaration are exactly its fields that carry a
/// visibility marker: one member for each such field and none for the others.
pub proof fn lemma_members_count_visible_fields(
    fields: Seq<FieldDecl>,
    n: int,
    get_all: bool,
    set_all: bool,
)
    requires
        0 <= n <= fields.len(),
    ensures
        members_of(fields, n, get_all, set_all).len() == visible_count(fields, n, get_all, set_all),
    decreases n,
{
    if n > 0 {
        lemma_members_count_visible_fields(fields, n - 1, get_all, set_all);
    }
}

} // verus!
