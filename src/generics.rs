//! Small generic helpers: the largest of a list, the longer of two strings,
//! and points whose coordinates may have different types.
use vstd::prelude::*;
use vstd::string::StringSliceAdditionalSpecFns;

verus! {

/// The largest value of a non-empty list.
pub fn largest(list: &[i32]) -> (r: i32)
    requires
        list@.len() > 0,
    ensures
        list@.contains(r),
        forall|i: int| 0 <= i < list@.len() ==> list@[i] <= r,
{
    let mut largest = list[0];
    let mut i: usize = 1;
    while i < list.len()
        invariant
            1 <= i <= list@.len(),
            list@.contains(largest),
            forall|j: int| 0 <= j < i ==> list@[j] <= largest,
        decreases list@.len() - i,
    {
        if list[i] > largest {
            largest = list[i];
        }
        i = i + 1;
    }
    largest
}

/// A reference to the first occurrence of the largest value of a non-empty
/// list.
pub fn largest_ref(list: &[i32]) -> (r: &i32)
    requires
        list@.len() > 0,
    ensures
        list@.contains(*r),
        forall|i: int| 0 <= i < list@.len() ==> list@[i] <= *r,
{
    let mut largest = &list[0];
    let mut i: usize = 1;
    while i < list.len()
        invariant
            1 <= i <= list@.len(),
            list@.contains(*largest),
            forall|j: int| 0 <= j < i ==> list@[j] <= *largest,
        decreases list@.len() - i,
    {
        if list[i] > *largest {
            largest = &list[i];
        }
        i = i + 1;
    }
    largest
}

/// The longer of two strings by length in bytes; `y` when they are equally
/// long.
pub fn longest<'a>(x: &'a str, y: &'a str) -> (r: &'a str)
    ensures
        r == if x.spec_bytes().len() > y.spec_bytes().len() {
            x
        } else {
            y
        },
{
    if x.as_bytes().len() > y.as_bytes().len() {
        x
    } else {
        y
    }
}

/// A point with both coordinates of one type.
pub struct Point<T> {
    pub x: T,
    pub y: T,
}

impl<T> Point<T> {
    /// The first coordinate.
    pub fn x(&self) -> (r: &T)
        ensures
            *r == self.x,
    {
        &self.x
    }
}

/// A point whose coordinates may have different types.
pub struct Point2<T, U> {
    pub x: T,
    pub y: U,
}

impl<T, U> Point2<T, U> {
    /// A point with this point's first coordinate and `other`'s second.
    pub fn mixup<V, W>(self, other: Point2<V, W>) -> (r: Point2<T, W>)
        ensures
            r.x == self.x,
            r.y == other.y,
    {
        Point2 { x: self.x, y: other.y }
    }
}

/// A part of some text, borrowed from it.
pub struct ImportantExcerpt<'a> {
    pub part: &'a str,
}

impl<'a> ImportantExcerpt<'a> {
    /// The excerpt's level, always 3.
    pub fn level(&self) -> (r: i32)
        ensures
            r == 3,
    {
        3
    }

    /// The excerpt, handed out after an announcement has been made.
    pub fn announce_and_return_part(&self, announcement: &str) -> (r: &'a str)
        ensures
            r == self.part,
    {
        self.part
    }
}

} // verus!
