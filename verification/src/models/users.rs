//! Users, and the user behind a request.

use crate::text::{opt_bytes, opt_chars, opt_texts};
use crate::time::Timestamp;
use vstd::prelude::*;

verus! {

/// A user as the store holds it. `profile_picture` is a document that names
/// where the picture is kept.
#[derive(Debug)]
pub struct User {
    pub id: i32,
    pub salt: Option<String>,
    pub hash: Option<Vec<u8>>,
    pub username: String,
    pub email: String,
    pub role: String,
    pub real_name: Option<String>,
    pub school: Option<String>,
    pub student_number: Option<String>,
    pub profile_picture: String,
    pub reset_password_token_hash: Option<Vec<u8>>,
    pub reset_password_token_expiration_time: Option<Timestamp>,
}

/// The row written when a user is made.
#[derive(Debug)]
pub struct InsertableUser {
    pub salt: Option<String>,
    pub hash: Option<Vec<u8>>,
    pub username: String,
    pub email: String,
    pub role: String,
    pub real_name: Option<String>,
    pub school: Option<String>,
    pub student_number: Option<String>,
    pub profile_picture: String,
    pub reset_password_token_hash: Option<Vec<u8>>,
    pub reset_password_token_expiration_time: Option<Timestamp>,
}

/// An `InsertableUser` with its texts as sequences of characters.
pub struct InsertableUserView {
    pub salt: Option<Seq<char>>,
    pub hash: Option<Seq<u8>>,
    pub username: Seq<char>,
    pub email: Seq<char>,
    pub role: Seq<char>,
    pub real_name: Option<Seq<char>>,
    pub school: Option<Seq<char>>,
    pub student_number: Option<Seq<char>>,
    pub profile_picture: Seq<char>,
    pub reset_password_token_hash: Option<Seq<u8>>,
    pub reset_password_token_expiration_time: Option<Timestamp>,
}

impl View for InsertableUser {
    type V = InsertableUserView;

    open spec fn view(&self) -> InsertableUserView {
        InsertableUserView {
            salt: opt_chars(self.salt),
            hash: opt_bytes(self.hash),
            username: self.username@,
            email: self.email@,
            role: self.role@,
            real_name: opt_chars(self.real_name),
            school: opt_chars(self.school),
            student_number: opt_chars(self.student_number),
            profile_picture: self.profile_picture@,
            reset_password_token_hash: opt_bytes(self.reset_password_token_hash),
            reset_password_token_expiration_time: self.reset_password_token_expiration_time,
        }
    }
}

/// Where the picture of a user is kept, and where to ask for its removal.
#[derive(Debug)]
pub struct ProfilePicture {
    pub url: Option<String>,
    pub delete_url: Option<String>,
}

/// A user as others see it.
#[derive(Debug)]
pub struct OutUser {
    pub id: i32,
    pub username: String,
    pub email: String,
    pub role: String,
    pub real_name: Option<String>,
    pub school: Option<String>,
    pub student_number: Option<String>,
    pub profile_picture_url: Option<String>,
}

/// An `OutUser` with its texts as sequences of characters.
pub struct OutUserView {
    pub id: i32,
    pub username: Seq<char>,
    pub email: Seq<char>,
    pub role: Seq<char>,
    pub real_name: Option<Seq<char>>,
    pub school: Option<Seq<char>>,
    pub student_number: Option<Seq<char>>,
    pub profile_picture_url: Option<Seq<char>>,
}

impl View for OutUser {
    type V = OutUserView;

    open spec fn view(&self) -> OutUserView {
        OutUserView {
            id: self.id,
            username: self.username@,
            email: self.email@,
            role: self.role@,
            real_name: opt_chars(self.real_name),
            school: opt_chars(self.school),
            student_number: opt_chars(self.student_number),
            profile_picture_url: opt_chars(self.profile_picture_url),
        }
    }
}

impl OutUser {
    /// The user as others see it. `picture` is what the document
    /// `user.profile_picture` reads as.
    pub fn from_user(user: User, picture: ProfilePicture) -> (out: OutUser)
        ensures
            out@ == (OutUserView {
                id: user.id,
                username: user.username@,
                email: user.email@,
                role: user.role@,
                real_name: opt_chars(user.real_name),
                school: opt_chars(user.school),
                student_number: opt_chars(user.student_number),
                profile_picture_url: opt_chars(picture.url),
            }),
    {
        OutUser {
            id: user.id,
            username: user.username,
            email: user.email,
            role: user.role,
            real_name: user.real_name,
            school: user.school,
            student_number: user.student_number,
            profile_picture_url: picture.url,
        }
    }
}

/// The changes to make to a user; `None` leaves a column as it is.
#[derive(Debug)]
pub struct UserForm {
    pub salt: Option<String>,
    pub hash: Option<Vec<u8>>,
    pub username: Option<String>,
    pub email: Option<String>,
    pub role: Option<String>,
    pub real_name: Option<String>,
    pub school: Option<String>,
    pub student_number: Option<String>,
}

/// What a session remembers of a user: the id and the role.
#[derive(Debug)]
pub struct SlimUser {
    pub id: i32,
    pub role: String,
}

impl Clone for SlimUser {
    fn clone(&self) -> (u: SlimUser)
        ensures
            u.id == self.id,
            u.role@ == self.role@,
    {
        SlimUser { id: self.id, role: self.role.clone() }
    }
}

impl From<User> for SlimUser {
    fn from(user: User) -> (slim: SlimUser) {
        SlimUser { id: user.id, role: user.role }
    }
}

impl vstd::std_specs::convert::FromSpecImpl<User> for SlimUser {
    open spec fn obeys_from_spec() -> bool {
        true
    }

    open spec fn from_spec(user: User) -> SlimUser {
        SlimUser { id: user.id, role: user.role }
    }
}

/// The user behind a request, if the request came with a session.
#[derive(Debug)]
pub struct LoggedUser(pub Option<SlimUser>);

impl LoggedUser {
    /// The id of the user, if there is one.
    pub open spec fn user_id(self) -> Option<i32> {
        match self.0 {
            Some(user) => Some(user.id),
            None => None,
        }
    }

    /// The role of the user, if there is one.
    pub open spec fn role(self) -> Option<Seq<char>> {
        match self.0 {
            Some(user) => Some(user.role@),
            None => None,
        }
    }
}

impl Default for LoggedUser {
    fn default() -> (u: LoggedUser)
        ensures
            u.0 is None,
    {
        LoggedUser(None)
    }
}

impl Clone for LoggedUser {
    fn clone(&self) -> (u: LoggedUser)
        ensures
            u.user_id() == self.user_id(),
            u.role() == self.role(),
    {
        match &self.0 {
            Some(user) => LoggedUser(Some(user.clone())),
            None => LoggedUser(None),
        }
    }
}

impl From<SlimUser> for LoggedUser {
    fn from(slim_user: SlimUser) -> (u: LoggedUser) {
        LoggedUser(Some(slim_user))
    }
}

impl vstd::std_specs::convert::FromSpecImpl<SlimUser> for LoggedUser {
    open spec fn obeys_from_spec() -> bool {
        true
    }

    open spec fn from_spec(slim_user: SlimUser) -> LoggedUser {
        LoggedUser(Some(slim_user))
    }
}

/// Which methods each role may use on one path; `None` stands for none.
#[derive(Debug)]
pub struct AuthConfig {
    pub sup: Option<Vec<String>>,
    pub admin: Option<Vec<String>>,
    pub teacher: Option<Vec<String>>,
    pub student: Option<Vec<String>>,
    pub net_friend: Option<Vec<String>>,
    pub others: Option<Vec<String>>,
}

/// An `AuthConfig` with its texts as sequences of characters.
pub struct AuthConfigView {
    pub sup: Option<Seq<Seq<char>>>,
    pub admin: Option<Seq<Seq<char>>>,
    pub teacher: Option<Seq<Seq<char>>>,
    pub student: Option<Seq<Seq<char>>>,
    pub net_friend: Option<Seq<Seq<char>>>,
    pub others: Option<Seq<Seq<char>>>,
}

impl View for AuthConfig {
    type V = AuthConfigView;

    open spec fn view(&self) -> AuthConfigView {
        AuthConfigView {
            sup: opt_texts(self.sup),
            admin: opt_texts(self.admin),
            teacher: opt_texts(self.teacher),
            student: opt_texts(self.student),
            net_friend: opt_texts(self.net_friend),
            others: opt_texts(self.others),
        }
    }
}

/// How often a user has submitted and been accepted, in all and by the
/// difficulty of the problems.
#[derive(Debug, Clone, Copy, PartialEq, Eq, Structural)]
pub struct UserSubmissionCount {
    pub total_submit_times: i32,
    pub total_accept_times: i32,
    pub navie_submit_times: i32,
    pub navie_accept_times: i32,
    pub easy_submit_times: i32,
    pub easy_accept_times: i32,
    pub middle_submit_times: i32,
    pub middle_accept_times: i32,
    pub hard_submit_times: i32,
    pub hard_accept_times: i32,
}

/// How often a user has submitted on one day. `date` counts the days from
/// the day of the epoch.
#[derive(Debug, Clone, Copy, PartialEq, Eq, Structural)]
pub struct UserSubmissionTime {
    pub date: i64,
    pub count: i32,
}

/// One student of a batch of users to be made.
#[derive(Debug)]
pub struct BatchCreateUserBody {
    pub student_number: String,
    pub real_name: String,
}

impl InsertableUser {
    /// The row of a student made in a batch: the student number serves as
    /// user name and as e-mail address, the role is `student`, the school is
    /// fixed. `salt` and `hash` are those of the first password, which is the
    /// student number; `profile_picture` is the document of a user without a
    /// picture.
    pub fn from_batch(body: BatchCreateUserBody, salt: String, hash: Vec<u8>, profile_picture: String) -> (row:
        InsertableUser)
        ensures
            row@ == (InsertableUserView {
                salt: Some(salt@),
                hash: Some(hash@),
                username: body.student_number@,
                email: body.student_number@,
                role: "student"@,
                real_name: Some(body.real_name@),
                school: Some("上海大学"@),
                student_number: Some(body.student_number@),
                profile_picture: profile_picture@,
                reset_password_token_hash: None,
                reset_password_token_expiration_time: None,
            }),
    {
        let username = body.student_number.clone();
        let email = body.student_number.clone();
        InsertableUser {
            salt: Some(salt),
            hash: Some(hash),
            username,
            email,
            role: "student".to_owned(),
            real_name: Some(body.real_name),
            school: Some("上海大学".to_owned()),
            student_number: Some(body.student_number),
            profile_picture,
            reset_password_token_hash: None,
            reset_password_token_expiration_time: None,
        }
    }
}

} // verus!
