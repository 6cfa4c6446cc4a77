//! Members.
use vstd::prelude::*;

verus! {

/// A member of the library.  The e-mail address cannot be changed once the
/// member exists.
#[derive(Debug)]
pub struct Member {
    pub id: u32,
    pub name: String,
    email: String,
    pub active: bool,
}

/// What a `Member` says.
pub struct MemberModel {
    pub id: u32,
    pub name: Seq<char>,
    pub email: Seq<char>,
    pub active: bool,
}

impl View for Member {
    type V = MemberModel;

    closed spec fn view(&self) -> MemberModel {
        MemberModel { id: self.id, name: self.name@, email: self.email@, active: self.active }
    }
}

impl Member {
    /// An active member.
    pub fn new(id: u32, name: String, email: String) -> (member: Member)
        ensures
            member@ == (MemberModel { id, name: name@, email: email@, active: true }),
    {
        Member { id, name, email, active: true }
    }

    /// The member's e-mail address.
    pub fn email(&self) -> (email: &str)
        ensures
            email@ == self@.email,
    {
        self.email.as_str()
    }

    /// The member's number.
    pub fn id(&self) -> (id: u32)
        ensures
            id == self@.id,
    {
        self.id
    }

    /// Whether the member may borrow.
    pub fn is_active(&self) -> (active: bool)
        ensures
            active == self@.active,
    {
        self.active
    }

    /// Makes the member inactive.  An inactive member cannot borrow.
    pub fn deactivate(&mut self)
        ensures
            final(self)@ == (MemberModel { active: false, ..old(self)@ }),
    {
        self.active = false;
    }
}

} // verus!
