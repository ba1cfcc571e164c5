//! The name-list example record and the one operation the application
//! performs on it. Serialization to and from the wire lives with the
//! caller; the library holds the plain values and the change made to them.

use vstd::prelude::*;

verus! {

/// A first and a last name.
pub struct Name {
    pub first: String,
    pub last: String,
}

/// A list of names.
pub struct Names(pub Vec<Name>);

/// Appends the fixed example name to the list, keeping every existing
/// entry in place.
pub fn post_json_example(names: Names) -> (r: Names)
    ensures
        r.0@.len() == names.0@.len() + 1,
        forall|i: int| 0 <= i < names.0@.len() ==> r.0@[i] == names.0@[i],
        r.0@.last().first@ == "Rachel"@,
        r.0@.last().last@ == "Matthews"@,
{
    let mut names = names;
    names.0.push(Name { first: "Rachel".to_owned(), last: "Matthews".to_owned() });
    names
}

} // verus!
