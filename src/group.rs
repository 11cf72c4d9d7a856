use vstd::prelude::*;

verus! {

/// A group of users who share expenses.
#[derive(Debug, Clone)]
pub struct Group {
    pub id: i32,
    pub groupname: String,
}

impl Group {
    pub fn new(id: i32, groupname: String) -> (r: Group)
        ensures
            r.id == id,
            r.groupname@ == groupname@,
    {
        Group { id, groupname }
    }

    pub fn groupname(&self) -> (r: &str)
        ensures
            r@ == self.groupname@,
    {
        self.groupname.as_str()
    }

    pub fn id(&self) -> (r: i32)
        ensures
            r == self.id,
    {
        self.id
    }
}

} // verus!
