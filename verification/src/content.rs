//! Values that are compared and copied by what they hold.
use vstd::prelude::*;

use crate::text::text_equal;

verus! {

/// A value that can be compared with another one and copied, by its view.
pub trait Content: View + Sized {
    /// Whether both hold the same.
    fn same(&self, other: &Self) -> (r: bool)
        ensures
            r == (self@ == other@),
    ;

    /// Another value that holds the same.
    fn copy(&self) -> (r: Self)
        ensures
            r@ == self@,
    ;
}

/// What the values of a list hold.
pub open spec fn views<T: View>(values: Seq<T>) -> Seq<T::V> {
    Seq::new(values.len(), |i: int| values[i]@)
}

/// What an optional value holds.
pub open spec fn optional_view<T: View>(value: Option<T>) -> Option<T::V> {
    match value {
        Some(v) => Some(v@),
        None => None,
    }
}

/// Whether two lists hold the same.
pub fn same_list<T: Content>(a: &Vec<T>, b: &Vec<T>) -> (r: bool)
    ensures
        r == (views(a@) == views(b@)),
{
    if a.len() != b.len() {
        assert(views(a@).len() != views(b@).len());
        return false;
    }
    let mut i: usize = 0;
    while i < a.len()
        invariant
            i <= a.len(),
            a.len() == b.len(),
            forall|j: int| 0 <= j < i ==> (#[trigger] a@[j])@ == b@[j]@,
        decreases a.len() - i,
    {
        if !a[i].same(&b[i]) {
            assert(views(a@)[i as int] != views(b@)[i as int]);
            return false;
        }
        i += 1;
    }
    assert(views(a@) =~= views(b@));
    true
}

/// Whether two optional values hold the same.
pub fn same_option<T: Content>(a: &Option<T>, b: &Option<T>) -> (r: bool)
    ensures
        r == (optional_view(*a) == optional_view(*b)),
{
    match a {
        Some(x) => match b {
            Some(y) => x.same(y),
            None => false,
        },
        None => b.is_none(),
    }
}

/// A list that holds the same.
pub fn copy_list<T: Content>(list: &Vec<T>) -> (r: Vec<T>)
    ensures
        views(r@) == views(list@),
{
    let mut r: Vec<T> = Vec::new();
    let mut i: usize = 0;
    while i < list.len()
        invariant
            i <= list.len(),
            r.len() == i,
            forall|j: int| 0 <= j < i ==> (#[trigger] r@[j])@ == list@[j]@,
        decreases list.len() - i,
    {
        r.push(list[i].copy());
        i += 1;
    }
    assert(views(r@) =~= views(list@));
    r
}

/// An optional value that holds the same.
pub fn copy_option<T: Content>(value: &Option<T>) -> (r: Option<T>)
    ensures
        optional_view(r) == optional_view(*value),
{
    match value {
        Some(v) => Some(v.copy()),
        None => None,
    }
}

impl Content for String {
    fn same(&self, other: &Self) -> (r: bool) {
        text_equal(self.as_str(), other.as_str())
    }

    fn copy(&self) -> (r: Self) {
        self.clone()
    }
}

impl Content for u8 {
    fn same(&self, other: &Self) -> (r: bool) {
        *self == *other
    }

    fn copy(&self) -> (r: Self) {
        *self
    }
}

} // verus!
