use vstd::prelude::*;

verus! {

/// Layer and extension names as the bytes before their terminating NUL.
pub open spec fn names_view(names: Seq<Vec<u8>>) -> Seq<Seq<u8>> {
    names.map_values(|n: Vec<u8>| n@)
}

/// Every required name occurs among the available ones.
pub open spec fn all_present(required: Seq<Seq<u8>>, available: Seq<Seq<u8>>) -> bool {
    forall|i: int| 0 <= i < required.len() ==> available.contains(#[trigger] required[i])
}

pub fn same_name(a: &Vec<u8>, b: &Vec<u8>) -> (r: bool)
    ensures
        r == (a@ == b@),
{
    if a.len() != b.len() {
        return false;
    }
    let mut i: usize = 0;
    while i < a.len()
        invariant
            a@.len() == b@.len(),
            0 <= i <= a@.len(),
            forall|j: int| 0 <= j < i ==> a@[j] == b@[j],
        decreases a@.len() - i,
    {
        if a[i] != b[i] {
            return false;
        }
        i += 1;
    }
    assert(a@ =~= b@);
    true
}

pub fn contains_name(names: &Vec<Vec<u8>>, name: &Vec<u8>) -> (r: bool)
    ensures
        r == names_view(names@).contains(name@),
{
    let mut i: usize = 0;
    while i < names.len()
        invariant
            0 <= i <= names@.len(),
            forall|j: int| 0 <= j < i ==> names@[j]@ != name@,
        decreases names@.len() - i,
    {
        if same_name(&names[i], name) {
            assert(names_view(names@)[i as int] == name@);
            return true;
        }
        i += 1;
    }
    assert(!names_view(names@).contains(name@)) by {
        if names_view(names@).contains(name@) {
            let k = choose|k: int| 0 <= k < names_view(names@).len() && names_view(names@)[k] == name@;
            assert(names@[k]@ == name@);
        }
    }
    false
}

/// Whether every required layer or extension name is among the available ones.
pub fn all_names_present(required: &Vec<Vec<u8>>, available: &Vec<Vec<u8>>) -> (r: bool)
    ensures
        r == all_present(names_view(required@), names_view(available@)),
{
    let mut i: usize = 0;
    while i < required.len()
        invariant
            0 <= i <= required@.len(),
            forall|j: int|
                0 <= j < i ==> names_view(available@).contains(#[trigger] names_view(required@)[j]),
        decreases required@.len() - i,
    {
        if !contains_name(available, &required[i]) {
            assert(!names_view(available@).contains(names_view(required@)[i as int]));
            return false;
        }
        i += 1;
    }
    true
}

} // verus!
