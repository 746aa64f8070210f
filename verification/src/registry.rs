//! Lookups in the small tables the platform registry keeps: lists of
//! (key, value) entries searched front to back.
use vstd::prelude::*;

verus! {

/// The first index of an entry named `name`, if any.
pub fn find_name(v: &Vec<(String, u64)>, name: &String) -> (r: Option<usize>)
    ensures
        r matches Some(i) ==> i < v@.len() && v@[i as int].0@ == name@ && forall|j: int|
            0 <= j < i ==> #[trigger] v@[j].0@ != name@,
        r is None ==> forall|j: int| 0 <= j < v@.len() ==> #[trigger] v@[j].0@ != name@,
{
    let mut i: usize = 0;
    while i < v.len()
        invariant
            0 <= i <= v@.len(),
            forall|j: int| 0 <= j < i ==> #[trigger] v@[j].0@ != name@,
        decreases v@.len() - i,
    {
        if v[i].0 == *name {
            return Some(i);
        }
        i = i + 1;
    }
    None
}

/// The first index of an entry keyed `key`, if any.
pub fn find_key(v: &Vec<(u64, u64)>, key: u64) -> (r: Option<usize>)
    ensures
        r matches Some(i) ==> i < v@.len() && v@[i as int].0 == key && forall|j: int|
            0 <= j < i ==> #[trigger] v@[j].0 != key,
        r is None ==> forall|j: int| 0 <= j < v@.len() ==> #[trigger] v@[j].0 != key,
{
    let mut i: usize = 0;
    while i < v.len()
        invariant
            0 <= i <= v@.len(),
            forall|j: int| 0 <= j < i ==> #[trigger] v@[j].0 != key,
        decreases v@.len() - i,
    {
        if v[i].0 == key {
            return Some(i);
        }
        i = i + 1;
    }
    None
}

/// The first index of `x`, if any.
pub fn find_id(v: &Vec<u64>, x: u64) -> (r: Option<usize>)
    ensures
        r matches Some(i) ==> i < v@.len() && v@[i as int] == x && forall|j: int|
            0 <= j < i ==> #[trigger] v@[j] != x,
        r is None ==> !v@.contains(x),
{
    let mut i: usize = 0;
    while i < v.len()
        invariant
            0 <= i <= v@.len(),
            forall|j: int| 0 <= j < i ==> v@[j] != x,
        decreases v@.len() - i,
    {
        if v[i] == x {
            return Some(i);
        }
        i = i + 1;
    }
    None
}

/// The first index of an entry keyed by the pair `(a, b)`, if any.
pub fn find_pair(v: &Vec<((String, String), u64)>, a: &String, b: &String) -> (r: Option<usize>)
    ensures
        r matches Some(i) ==> i < v@.len() && v@[i as int].0.0@ == a@ && v@[i as int].0.1@ == b@
            && forall|j: int| 0 <= j < i ==> !(#[trigger] v@[j].0.0@ == a@ && v@[j].0.1@ == b@),
        r is None ==> forall|j: int|
            0 <= j < v@.len() ==> !(#[trigger] v@[j].0.0@ == a@ && v@[j].0.1@ == b@),
{
    let mut i: usize = 0;
    while i < v.len()
        invariant
            0 <= i <= v@.len(),
            forall|j: int| 0 <= j < i ==> !(#[trigger] v@[j].0.0@ == a@ && v@[j].0.1@ == b@),
        decreases v@.len() - i,
    {
        if v[i].0.0 == *a && v[i].0.1 == *b {
            return Some(i);
        }
        i = i + 1;
    }
    None
}

/// The first index of an entry whose first string is `name`, if any.
pub fn find_first(v: &Vec<(String, String)>, name: &String) -> (r: Option<usize>)
    ensures
        r matches Some(i) ==> i < v@.len() && v@[i as int].0@ == name@ && forall|j: int|
            0 <= j < i ==> #[trigger] v@[j].0@ != name@,
        r is None ==> forall|j: int| 0 <= j < v@.len() ==> #[trigger] v@[j].0@ != name@,
{
    let mut i: usize = 0;
    while i < v.len()
        invariant
            0 <= i <= v@.len(),
            forall|j: int| 0 <= j < i ==> #[trigger] v@[j].0@ != name@,
        decreases v@.len() - i,
    {
        if v[i].0 == *name {
            return Some(i);
        }
        i = i + 1;
    }
    None
}

} // verus!
