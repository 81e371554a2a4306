use vstd::prelude::*;
use vstd::string::*;

use crate::error::ApiError;
use crate::password::{argon2_accepts, hash_password, phc_parses, verify_password};

verus! {

/// A registered user.
pub struct Model {
    pub id: u128,
    pub email: String,
    /// The Argon2 PHC string of the password.
    pub password: String,
    pub username: Option<String>,
    pub phone_number: Option<String>,
}

/// Credentials of a registration or a login.
pub struct AuthParams {
    pub email: String,
    pub password: String,
}

/// Changes to a user's profile.
pub struct UpdateUserParams {
    pub username: Option<String>,
    pub phone_number: Option<String>,
}

/// The caller of a request, once authenticated.
pub struct AuthUser {
    pub user: Model,
}

/// Maps a password check to a login outcome: a rejected password is
/// Unauthorized, an error stays as it is.
pub fn credentials_outcome(verified: Result<bool, ApiError>) -> (r: Result<(), ApiError>)
    ensures
        r == (match verified {
            Ok(true) => Ok(()),
            Ok(false) => Err(ApiError::Unauthorized),
            Err(e) => Err(e),
        }),
{
    match verified {
        Ok(true) => Ok(()),
        Ok(false) => Err(ApiError::Unauthorized),
        Err(e) => Err(e),
    }
}

/// Whether some user is registered under `email`.
pub open spec fn email_taken(users: Seq<Model>, email: Seq<char>) -> bool {
    exists|k: int| 0 <= k < users.len() && (#[trigger] users[k]).email@ == email
}

/// Whether some user is registered under `email`.
pub fn find_by_email(users: &Vec<Model>, email: &String) -> (r: Option<usize>)
    ensures
        r is None <==> !email_taken(users@, email@),
        r matches Some(k) ==> k < users@.len() && users@[k as int].email@ == email@,
{
    let mut i: usize = 0;
    while i < users.len()
        invariant
            i <= users.len(),
            forall|k: int| 0 <= k < i ==> (#[trigger] users@[k]).email@ != email@,
        decreases users.len() - i,
    {
        if users[i].email == *email {
            return Some(i);
        }
        i = i + 1;
    }
    None
}

impl Model {
    /// Registers a user: the password must have at least three characters,
    /// the email must be free, and the password is stored as an Argon2 hash.
    pub fn create_with_password(users: &Vec<Model>, id: u128, params: &AuthParams) -> (r: Result<Model, ApiError>)
        ensures
            params.password@.len() < 3 ==> r == Err::<Model, ApiError>(ApiError::ValidationFailed),
            params.password@.len() >= 3 && email_taken(users@, params.email@) ==> r == Err::<Model, ApiError>(
                ApiError::DuplicateEntry,
            ),
            params.password@.len() >= 3 && !email_taken(users@, params.email@) ==> (r is Ok || r
                == Err::<Model, ApiError>(ApiError::InternalServerError)),
            r matches Ok(m) ==> m.id == id && m.email@ == params.email@ && m.username is None
                && m.phone_number is None && phc_parses(m.password@) && argon2_accepts(
                params.password@,
                m.password@,
            ),
    {
        if params.password.as_str().unicode_len() < 3 {
            return Err(ApiError::ValidationFailed);
        }
        if find_by_email(users, &params.email).is_some() {
            return Err(ApiError::DuplicateEntry);
        }
        let hash = hash_password(params.password.as_str())?;
        Ok(Model { id, email: params.email.clone(), password: hash, username: None, phone_number: None })
    }

    /// Checks a password against the user's stored hash: Unauthorized when
    /// it does not match, an internal error when the stored hash is
    /// unreadable.
    pub fn validate_password(&self, password: String) -> (r: Result<(), ApiError>)
        ensures
            !phc_parses(self.password@) ==> r == Err::<(), ApiError>(ApiError::InternalServerError),
            phc_parses(self.password@) && argon2_accepts(password@, self.password@) ==> r is Ok,
            phc_parses(self.password@) && !argon2_accepts(password@, self.password@) ==> r == Err::<
                (),
                ApiError,
            >(ApiError::Unauthorized),
    {
        credentials_outcome(verify_password(password, self.password.clone()))
    }
}

} // verus!
