//! Finding the first item that carries a given name.

use vstd::prelude::*;

verus! {

/// The value behind an optional reference.
pub open spec fn referent<T>(item: Option<&T>) -> Option<T> {
    match item {
        Some(x) => Some(*x),
        None => None,
    }
}

/// An item that is found by its name.
pub trait Named {
    /// The name the item is found by.
    spec fn name_view(&self) -> Seq<char>;

    fn is_named(&self, name: &str) -> (r: bool)
        ensures
            r == (self.name_view() == name@),
    ;
}

/// The index of the first item at or after `from` that carries `name`.
pub open spec fn first_named_from<T: Named>(items: Seq<T>, name: Seq<char>, from: int) -> Option<
    int,
>
    decreases items.len() - from,
{
    if from < 0 || from >= items.len() {
        None
    } else if items[from].name_view() == name {
        Some(from)
    } else {
        first_named_from(items, name, from + 1)
    }
}

/// The index of the first item that carries `name`.
pub open spec fn first_named<T: Named>(items: Seq<T>, name: Seq<char>) -> Option<int> {
    first_named_from(items, name, 0)
}

/// The first item that carries `name`.
pub open spec fn find_named<T: Named>(items: Seq<T>, name: Seq<char>) -> Option<T> {
    match first_named(items, name) {
        Some(i) => Some(items[i]),
        None => None,
    }
}

/// The index of the first item of `items` that carries `name`.
pub fn position_named<T: Named>(items: &Vec<T>, name: &str) -> (r: Option<usize>)
    ensures
        match r {
            Some(i) => first_named(items@, name@) == Some(i as int) && i < items@.len(),
            None => first_named(items@, name@) is None,
        },
{
    let mut i: usize = 0;
    while i < items.len()
        invariant
            i <= items@.len(),
            first_named(items@, name@) == first_named_from(items@, name@, i as int),
        decreases items@.len() - i,
    {
        if items[i].is_named(name) {
            return Some(i);
        }
        i += 1;
    }
    None
}

/// The first item of `items` that carries `name`.
pub fn get_named<'a, T: Named>(items: &'a Vec<T>, name: &str) -> (r: Option<&'a T>)
    ensures
        match r {
            Some(item) => find_named(items@, name@) == Some(*item),
            None => find_named(items@, name@) is None,
        },
{
    match position_named(items, name) {
        Some(i) => Some(&items[i]),
        None => None,
    }
}

} // verus!
