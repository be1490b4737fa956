//! Profile records, the fields a caller supplies, and the byte encoding under
//! which a record is stored.

use vstd::prelude::*;

verus! {

/// The largest encoding, in bytes, that the store accepts for one record.
pub const MAX_RECORD_SIZE: usize = 512;

/// One profile record.
#[derive(Debug, Clone, PartialEq, Eq)]
pub struct User {
    pub id: u64,
    pub name: String,
    pub email: String,
    pub phonenumber: String,
    pub industry: String,
    pub skills: String,
    pub joined_date: u64,
}

/// A record as contracts see it: the strings by their characters.
pub ghost struct UserView {
    pub id: u64,
    pub name: Seq<char>,
    pub email: Seq<char>,
    pub phonenumber: Seq<char>,
    pub industry: Seq<char>,
    pub skills: Seq<char>,
    pub joined_date: u64,
}

impl View for User {
    type V = UserView;

    open spec fn view(&self) -> UserView {
        UserView {
            id: self.id,
            name: self.name@,
            email: self.email@,
            phonenumber: self.phonenumber@,
            industry: self.industry@,
            skills: self.skills@,
            joined_date: self.joined_date,
        }
    }
}

/// The fields of a new profile.
#[derive(Debug, Clone, PartialEq, Eq)]
pub struct UserPayload {
    pub name: String,
    pub email: String,
    pub phonenumber: String,
    pub industry: String,
    pub skills: String,
}

/// The fields that replace those of the profile `userid`.
#[derive(Debug, Clone, PartialEq, Eq)]
pub struct UserUpdatePayload {
    pub name: String,
    pub email: String,
    pub phonenumber: String,
    pub industry: String,
    pub skills: String,
    pub userid: u64,
}

/// Names the profile to look up.
#[derive(Debug, Clone, Copy, PartialEq, Eq)]
pub struct SearchPayload {
    pub userid: u64,
}

/// Names the profile to delete.
#[derive(Debug, Clone, Copy, PartialEq, Eq)]
pub struct DeleteUserPayload {
    pub userid: u64,
}

/// The five replaceable fields, as contracts see them.
pub ghost struct FieldsView {
    pub name: Seq<char>,
    pub email: Seq<char>,
    pub phonenumber: Seq<char>,
    pub industry: Seq<char>,
    pub skills: Seq<char>,
}

impl FieldsView {
    /// Five empty fields.
    pub open spec fn empty() -> FieldsView {
        FieldsView {
            name: Seq::empty(),
            email: Seq::empty(),
            phonenumber: Seq::empty(),
            industry: Seq::empty(),
            skills: Seq::empty(),
        }
    }
}

impl View for UserPayload {
    type V = FieldsView;

    open spec fn view(&self) -> FieldsView {
        FieldsView {
            name: self.name@,
            email: self.email@,
            phonenumber: self.phonenumber@,
            industry: self.industry@,
            skills: self.skills@,
        }
    }
}

impl UserUpdatePayload {
    /// The replaceable fields that this payload carries.
    pub open spec fn fields(&self) -> FieldsView {
        FieldsView {
            name: self.name@,
            email: self.email@,
            phonenumber: self.phonenumber@,
            industry: self.industry@,
            skills: self.skills@,
        }
    }
}

/// The record with identity `id` and `joined_date` and the given fields.
pub open spec fn record_of(id: u64, fields: FieldsView, joined_date: u64) -> UserView {
    UserView {
        id,
        name: fields.name,
        email: fields.email,
        phonenumber: fields.phonenumber,
        industry: fields.industry,
        skills: fields.skills,
        joined_date,
    }
}

/// Why an operation on the store gave no result.
#[derive(Debug, PartialEq, Eq, Clone, Copy, Structural)]
pub enum StoreError {
    /// One of the required fields is empty.
    EmptyFields,
    /// The email address holds no `@`.
    InvalidFormat,
    /// A stored profile already has this email address.
    EmailExists,
    /// A stored profile already has this name.
    NameExists,
    /// No profile is stored under the identifier.
    NotFound,
    /// The store holds no profile at all.
    NoRecords,
    /// The identifier generator has reached its last value.
    IdentifiersExhausted,
    /// The record could not be encoded.
    Encoding,
    /// The record's encoding is longer than `MAX_RECORD_SIZE`.
    RecordTooLarge,
    /// Stored bytes do not decode to a record.
    Corrupt,
}

impl Default for User {
    /// The record with identifier 0, creation time 0 and empty fields.
    fn default() -> (user: User)
        ensures
            user@ == record_of(0, FieldsView::empty(), 0),
    {
        User {
            id: 0,
            name: String::new(),
            email: String::new(),
            phonenumber: String::new(),
            industry: String::new(),
            skills: String::new(),
            joined_date: 0,
        }
    }
}

impl Default for UserPayload {
    /// The payload with empty fields.
    fn default() -> (payload: UserPayload)
        ensures
            payload@ == FieldsView::empty(),
    {
        UserPayload {
            name: String::new(),
            email: String::new(),
            phonenumber: String::new(),
            industry: String::new(),
            skills: String::new(),
        }
    }
}

impl Default for UserUpdatePayload {
    /// The payload with empty fields for the profile 0.
    fn default() -> (payload: UserUpdatePayload)
        ensures
            payload.fields() == FieldsView::empty(),
            payload.userid == 0,
    {
        UserUpdatePayload {
            name: String::new(),
            email: String::new(),
            phonenumber: String::new(),
            industry: String::new(),
            skills: String::new(),
            userid: 0,
        }
    }
}

impl Default for SearchPayload {
    fn default() -> (payload: SearchPayload)
        ensures
            payload.userid == 0,
    {
        SearchPayload { userid: 0 }
    }
}

impl Default for DeleteUserPayload {
    fn default() -> (payload: DeleteUserPayload)
        ensures
            payload.userid == 0,
    {
        DeleteUserPayload { userid: 0 }
    }
}

impl User {
    /// A copy of this record.
    pub fn duplicate(&self) -> (copy: User)
        ensures
            copy@ == self@,
    {
        User {
            id: self.id,
            name: self.name.clone(),
            email: self.email.clone(),
            phonenumber: self.phonenumber.clone(),
            industry: self.industry.clone(),
            skills: self.skills.clone(),
            joined_date: self.joined_date,
        }
    }
}

} // verus!
