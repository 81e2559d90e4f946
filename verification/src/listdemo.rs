//! A cons list and access to its tail.

use vstd::prelude::*;

verus! {

/// A singly linked list of integers.
pub enum List {
    Cons(i32, Box<List>),
    Nil,
}

impl List {
    /// The rest of the list after the first element, if any.
    pub fn tail(&self) -> (r: Option<&Box<List>>)
        ensures
            match *self {
                List::Cons(_, ref rest) => r matches Some(t) && *t == rest,
                List::Nil => r is None,
            },
    {
        match self {
            List::Cons(_, item) => Some(item),
            List::Nil => None,
        }
    }
}

} // verus!
