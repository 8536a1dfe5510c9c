//! Schools and how to find one in the portal's list.

use crate::utils::text::text_eq;
use crate::Error;
use vstd::prelude::*;

verus! {

/// A school as the portal lists it.
#[derive(Clone, Eq, PartialEq, Ord, PartialOrd, Hash, Debug)]
pub struct School {
    pub id: i32,
    pub name: String,
    pub city: String,
}

/// Whether the school at `index` has the given name and city.
pub open spec fn is_named(schools: Seq<School>, index: int, name: Seq<char>, city: Seq<char>) -> bool {
    0 <= index < schools.len() && schools[index].city@ == city && schools[index].name@ == name
}

/// Whether the school at `index` has the given id.
pub open spec fn has_id(schools: Seq<School>, index: int, id: i32) -> bool {
    0 <= index < schools.len() && schools[index].id == id
}

/// The id of the first school in the list with the given name and city, or
/// -1 where the list has none.
pub fn get_school_id(name: &str, city: &str, schools: &Vec<School>) -> (id: i32)
    ensures
        (exists|i: int| is_named(schools@, i, name@, city@)) ==> exists|i: int|
            is_named(schools@, i, name@, city@) && id == schools@[i].id && forall|j: int|
                0 <= j < i ==> !is_named(schools@, j, name@, city@),
        (forall|i: int| !is_named(schools@, i, name@, city@)) ==> id == -1,
{
    let mut index: usize = 0;
    while index < schools.len()
        invariant
            index <= schools.len(),
            forall|j: int| 0 <= j < index ==> !is_named(schools@, j, name@, city@),
        decreases schools.len() - index,
    {
        let school = &schools[index];
        if text_eq(school.city.as_str(), city) {
            if text_eq(school.name.as_str(), name) {
                assert(is_named(schools@, index as int, name@, city@));
                return school.id;
            }
        }
        index += 1;
    }
    -1
}

/// The first school in the list with the given id, or `SchoolNotFound`
/// where the list has none.
pub fn get_school(id: &i32, schools: &Vec<School>) -> (found: Result<School, Error>)
    ensures
        match found {
            Ok(school) => exists|i: int|
                has_id(schools@, i, *id) && school.id == schools@[i].id && school.name
                    == schools@[i].name && school.city == schools@[i].city && forall|j: int|
                    0 <= j < i ==> !has_id(schools@, j, *id),
            Err(error) => error is SchoolNotFound && forall|i: int| !has_id(schools@, i, *id),
        },
{
    let mut index: usize = 0;
    while index < schools.len()
        invariant
            index <= schools.len(),
            forall|j: int| 0 <= j < index ==> !has_id(schools@, j, *id),
        decreases schools.len() - index,
    {
        let school = &schools[index];
        if school.id == *id {
            assert(has_id(schools@, index as int, *id));
            return Ok(
                School { id: school.id, name: school.name.clone(), city: school.city.clone() },
            );
        }
        index += 1;
    }
    let mut message = "No school with id ".to_owned();
    let number = id.to_string();
    message.append(number.as_str());
    message.append(" found");
    Err(Error::SchoolNotFound(message))
}

} // verus!
