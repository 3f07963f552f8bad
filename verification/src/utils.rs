//! Small helpers.

use vstd::prelude::*;

verus! {

/// A vector of `size` empty slots.
pub fn create_vec<T>(size: usize) -> (r: Vec<Option<T>>)
    ensures
        r.len() == size,
        forall|i: int| 0 <= i < size ==> (#[trigger] r[i]) is None,
{
    let mut vec: Vec<Option<T>> = Vec::with_capacity(size);
    let mut i: usize = 0;
    while i < size
        invariant
            i <= size,
            vec.len() == i,
            forall|j: int| 0 <= j < i ==> (#[trigger] vec[j]) is None,
        decreases size - i,
    {
        vec.push(None);
        i += 1;
    }
    vec
}

/// An empty vector with room for `size` slots.
pub fn create_vec_capacity<T>(size: usize) -> (r: Vec<Option<T>>)
    ensures
        r.len() == 0,
{
    Vec::with_capacity(size)
}

/// Whether `string` reads the same as one of the entries of `array`.
pub fn is_string_in_array(string: &str, array: &[&'static str]) -> (found: bool)
    ensures
        found <==> exists|i: int| 0 <= i < array.len() && array[i]@ == string@,
{
    let mut i: usize = 0;
    while i < array.len()
        invariant
            i <= array.len(),
            forall|j: int| 0 <= j < i ==> array[j]@ != string@,
        decreases array.len() - i,
    {
        if array[i].eq(string) {
            return true;
        }
        i += 1;
    }
    false
}

/// Two layers of `Option` folded into one.
pub trait Flatten<T> {
    /// What `flatten` returns.
    spec fn flat(self) -> Option<T>;

    fn flatten(self) -> (r: Option<T>)
        ensures
            r == self.flat(),
    ;
}

impl<T> Flatten<T> for Option<Option<T>> {
    open spec fn flat(self) -> Option<T> {
        match self {
            None => None,
            Some(inner) => inner,
        }
    }

    fn flatten(self) -> (r: Option<T>) {
        match self {
            None => None,
            Some(v) => v,
        }
    }
}

} // verus!
