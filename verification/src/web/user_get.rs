//! Looking a user up by identifier.

use vstd::prelude::*;
use crate::order::UserUuid;

verus! {

/// The body of a request for a user.
#[derive(Clone, Copy, Debug, PartialEq, Eq, Structural)]
pub struct UserGet {
    pub id: UserUuid,
}

/// Why a request for a user fails.
#[derive(Clone, Copy, Debug, PartialEq, Eq, Structural)]
pub enum UserGetError {
    /// No user has the identifier.
    UserNotFound,
    /// The store of users failed.
    Sqlx,
}

/// A user as the store holds it.
#[derive(Debug)]
pub struct UserRecord {
    pub id: UserUuid,
    pub name: String,
    pub email: String,
}

/// A user as a caller is told of it, the identifier written out.
#[derive(Debug)]
pub struct UserInfo {
    pub id: String,
    pub name: String,
    pub email: String,
}

/// The character of a hexadecimal digit, in lower case.
pub open spec fn hex_digit(v: nat) -> char
    recommends
        v < 16,
{
    "0123456789abcdef"@[v as int]
}

/// The last `width` hexadecimal digits of `n`, most significant first.
pub open spec fn hex_text(n: nat, width: nat) -> Seq<char>
    decreases width,
{
    if width == 0 {
        Seq::empty()
    } else {
        hex_text(n / 16, (width - 1) as nat).push(hex_digit(n % 16))
    }
}

/// An identifier written out as a UUID: its 32 hexadecimal digits in lower
/// case, most significant first, in groups of 8, 4, 4, 4 and 12 with a
/// hyphen between them.
pub open spec fn hyphenated(id: u128) -> Seq<char> {
    let h = hex_text(id as nat, 32);
    h.subrange(0, 8) + seq!['-'] + h.subrange(8, 12) + seq!['-'] + h.subrange(12, 16) + seq!['-']
        + h.subrange(16, 20) + seq!['-'] + h.subrange(20, 32)
}

/// What a request for a user comes to, given what the store found.
pub open spec fn looked_up(found: Option<UserRecord>, info: Result<UserInfo, UserGetError>)
    -> bool {
    match found {
        Some(rec) => info is Ok && info->Ok_0.id@ == hyphenated(rec.id.0) && info->Ok_0.name@
            == rec.name@ && info->Ok_0.email@ == rec.email@,
        None => info == Err::<UserInfo, UserGetError>(UserGetError::UserNotFound),
    }
}

/// `uuid::Uuid::to_string` of the UUID that `uuid::Uuid::from_u128` makes of
/// `id`: the hyphenated form in lower case, the most significant byte first.
#[verifier::external_body]
fn uuid_text(id: u128) -> (text: String)
    ensures
        text@ == hyphenated(id),
{
    uuid::Uuid::from_u128(id).to_string()
}

/// What a caller is told of a user that the store holds.
pub fn user_info(record: UserRecord) -> (info: UserInfo)
    ensures
        info.id@ == hyphenated(record.id.0),
        info.name@ == record.name@,
        info.email@ == record.email@,
{
    UserInfo { id: uuid_text(record.id.0), name: record.name, email: record.email }
}

/// What a request for a user comes to: the user if the store found one,
/// else that there is none.
pub fn found_user(found: Option<UserRecord>) -> (info: Result<UserInfo, UserGetError>)
    ensures
        looked_up(found, info),
{
    match found {
        Some(rec) => Ok(user_info(rec)),
        None => Err(UserGetError::UserNotFound),
    }
}

impl UserGetError {
    /// The HTTP status of the failure: 404 for a user that is not there, 500
    /// for a store that failed.
    pub fn status_code(&self) -> (code: u16)
        ensures
            code == (match *self {
                UserGetError::UserNotFound => 404u16,
                UserGetError::Sqlx => 500u16,
            }),
    {
        match self {
            UserGetError::UserNotFound => 404,
            UserGetError::Sqlx => 500,
        }
    }

    /// The text that goes with the failure; none for a store that failed.
    pub fn message(&self) -> (m: &'static str)
        ensures
            m@ == match *self {
                UserGetError::UserNotFound => "user not found"@,
                UserGetError::Sqlx => ""@,
            },
    {
        match self {
            UserGetError::UserNotFound => "user not found",
            UserGetError::Sqlx => "",
        }
    }
}

} // verus!
