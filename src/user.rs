use vstd::prelude::*;

verus! {

/// A registered user as the rest of the application sees it.
#[derive(Debug, Clone)]
pub struct User {
    pub id: i32,
    pub username: String,
    pub email: String,
    pub loyal_payer: bool,
}

impl User {
    /// A user who is not (yet) a loyal payer.
    pub fn new(id: i32, username: String, email: String) -> (r: User)
        ensures
            r.id == id,
            r.username@ == username@,
            r.email@ == email@,
            !r.loyal_payer,
    {
        User { id, username, email, loyal_payer: false }
    }

    pub fn from_loyal_payer(id: i32, username: String, email: String, loyal_payer: bool) -> (r: User)
        ensures
            r.id == id,
            r.username@ == username@,
            r.email@ == email@,
            r.loyal_payer == loyal_payer,
    {
        User { id, username, email, loyal_payer }
    }

    pub fn id(&self) -> (r: i32)
        ensures
            r == self.id,
    {
        self.id
    }

    pub fn username(&self) -> (r: &str)
        ensures
            r@ == self.username@,
    {
        self.username.as_str()
    }

    pub fn email(&self) -> (r: &str)
        ensures
            r@ == self.email@,
    {
        self.email.as_str()
    }

    pub fn is_loyal_payer(&self) -> (r: bool)
        ensures
            r == self.loyal_payer,
    {
        self.loyal_payer
    }
}

} // verus!
