//! The stored form of a record: its seven fields as a Candid argument list.

use vstd::prelude::*;
use crate::record::{StoreError, User, UserView};

verus! {

/// Candid's error type, carried from the two calls below to the functions
/// that turn it into a `StoreError`.
#[verifier::external_type_specification]
#[verifier::external_body]
pub struct ExCandidError(candid::Error);

/// The bytes that Candid writes for a record's seven fields, taken as an
/// argument list of a `nat64`, five `text`s and a `nat64`; `None` where it
/// reports an error.
pub uninterp spec fn candid_encoding(user: UserView) -> Option<Seq<u8>>;

/// The record that Candid reads from `bytes` as such an argument list; `None`
/// where it reports an error.
pub uninterp spec fn candid_decoding(bytes: Seq<u8>) -> Option<UserView>;

/// Trusted: `candid::encode_args` on the record's fields in declaration order.
/// The result is a function of the fields alone, and Candid reads the same
/// fields back from the bytes it wrote.
#[verifier::external_body]
fn candid_encode(user: &User) -> (bytes: Result<Vec<u8>, candid::Error>)
    ensures
        bytes is Ok <==> candid_encoding(user@) is Some,
        bytes is Ok ==> candid_encoding(user@) == Some(bytes->Ok_0@),
        bytes is Ok ==> candid_decoding(bytes->Ok_0@) == Some(user@),
{
    candid::encode_args((
        &user.id,
        &user.name,
        &user.email,
        &user.phonenumber,
        &user.industry,
        &user.skills,
        &user.joined_date,
    ))
}

/// Trusted: `candid::decode_args` into a `u64`, five `String`s and a `u64`.
/// The result is a function of the bytes alone.
#[verifier::external_body]
fn candid_decode(bytes: &Vec<u8>) -> (user: Result<User, candid::Error>)
    ensures
        user is Ok <==> candid_decoding(bytes@) is Some,
        user is Ok ==> candid_decoding(bytes@) == Some(user->Ok_0@),
{
    let (id, name, email, phonenumber, industry, skills, joined_date) =
        candid::decode_args::<(u64, String, String, String, String, String, u64)>(bytes)?;
    Ok(User { id, name, email, phonenumber, industry, skills, joined_date })
}

impl User {
    /// The stored form of this record. Decoding the bytes of an `Ok` gives the
    /// record back.
    pub fn to_bytes(&self) -> (bytes: Result<Vec<u8>, StoreError>)
        ensures
            match bytes {
                Ok(b) => candid_encoding(self@) == Some(b@) && candid_decoding(b@) == Some(self@),
                Err(e) => candid_encoding(self@) is None && e == StoreError::Encoding,
            },
    {
        match candid_encode(self) {
            Ok(b) => Ok(b),
            Err(_) => Err(StoreError::Encoding),
        }
    }

    /// The record that `bytes` is the stored form of.
    pub fn from_bytes(bytes: &Vec<u8>) -> (user: Result<User, StoreError>)
        ensures
            match user {
                Ok(u) => candid_decoding(bytes@) == Some(u@),
                Err(e) => candid_decoding(bytes@) is None && e == StoreError::Corrupt,
            },
    {
        match candid_decode(bytes) {
            Ok(u) => Ok(u),
            Err(_) => Err(StoreError::Corrupt),
        }
    }
}

} // verus!
