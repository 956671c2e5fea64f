//! What is known of clans and their members.

use vstd::prelude::*;

verus! {

/// What `LeftMember::get_name` gives for a member without a name.
pub const NAME_SPACER: &'static str = "<unnamed>";

/// What kind of answer a request asks for.
#[derive(Clone, Copy, Debug, PartialEq, Eq, Structural)]
pub enum HeaderType {
    /// A page for people.
    Html,
    /// Data for scripts.
    Ajax,
}

/// Clan data structure
#[derive(Debug, PartialEq, PartialOrd)]
pub struct Clan {
    pub members: u8,
    pub wins: u16,
    pub losses: u16,
    pub draws: u16,
}

/// Member data structure
#[derive(Debug, PartialEq, PartialOrd, Clone)]
pub struct Member {
    pub name: String,
    pub id: i32,
    pub exp: i32,
    pub contribution: i32,
}

/// Left member data structure
#[derive(Debug, PartialEq, PartialOrd)]
pub struct LeftMember {
    pub id: i32,
    /// The account name, which is missing if the member joined and left on the same day.
    pub name: Option<String>,
    /// The number of the membership that can be closed.
    pub membership_nr: Option<i32>,
}

impl LeftMember {
    /// The name by which the member is spoken of.
    pub open spec fn shown_name(self) -> Seq<char> {
        match self.name {
            Some(name) => name@,
            None => NAME_SPACER@,
        }
    }

    /// Return account-name of member or spacer if no name found
    pub fn get_name(&self) -> (name: &str)
        ensures
            name@ == self.shown_name(),
            self.name matches Some(own) ==> name@ == own@,
            self.name is None ==> name@ == "<unnamed>"@,
    {
        match &self.name {
            Some(v) => v.as_str(),
            None => NAME_SPACER,
        }
    }
}

} // verus!
