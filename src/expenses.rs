use vstd::prelude::*;

verus! {

/// An unsettled balance as listed to one of its parties: the other party's
/// name, the amount in hundredths, the group's name, the due date and the
/// description.
#[derive(Debug, Clone)]
pub struct Expenses {
    pub id: i32,
    pub username: String,
    pub amount: u64,
    pub group_name: String,
    pub due_date: String,
    pub description: String,
}

pub struct EntryView {
    pub id: int,
    pub username: Seq<char>,
    pub amount: nat,
    pub group_name: Seq<char>,
    pub due: Seq<char>,
    pub desc: Seq<char>,
}

impl View for Expenses {
    type V = EntryView;

    open spec fn view(&self) -> EntryView {
        EntryView {
            id: self.id as int,
            username: self.username@,
            amount: self.amount as nat,
            group_name: self.group_name@,
            due: self.due_date@,
            desc: self.description@,
        }
    }
}

impl Expenses {
    pub fn new(id: i32, username: String, amount: u64, group_name: String, due_date: String, description: String) -> (r: Expenses)
        ensures
            r.id == id,
            r.username@ == username@,
            r.amount == amount,
            r.group_name@ == group_name@,
            r.due_date@ == due_date@,
            r.description@ == description@,
    {
        Expenses { id, username, amount, group_name, due_date, description }
    }

    pub fn id(&self) -> (r: i32)
        ensures
            r == self.id,
    {
        self.id
    }

    pub fn username(&self) -> (r: &str)
        ensures
            r@ == self.username@,
    {
        self.username.as_str()
    }

    pub fn amount(&self) -> (r: u64)
        ensures
            r == self.amount,
    {
        self.amount
    }

    pub fn group_name(&self) -> (r: &str)
        ensures
            r@ == self.group_name@,
    {
        self.group_name.as_str()
    }

    pub fn due_date(&self) -> (r: &str)
        ensures
            r@ == self.due_date@,
    {
        self.due_date.as_str()
    }

    pub fn description(&self) -> (r: &str)
        ensures
            r@ == self.description@,
    {
        self.description.as_str()
    }
}

} // verus!
