use vstd::prelude::*;

verus! {

/// A notification delivered to a user.
#[derive(Debug, Clone)]
pub struct Notification {
    pub id: i32,
    pub message: String,
}

impl Notification {
    pub fn new(id: i32, message: String) -> (r: Notification)
        ensures
            r.id == id,
            r.message@ == message@,
    {
        Notification { id, message }
    }

    pub fn id(&self) -> (r: i32)
        ensures
            r == self.id,
    {
        self.id
    }

    pub fn message(&self) -> (r: &str)
        ensures
            r@ == self.message@,
    {
        self.message.as_str()
    }
}

} // verus!
