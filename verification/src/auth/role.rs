//! What a role may do.
//!
//! The roles `sup` and `admin` run the site. Most changes are theirs alone;
//! some are also open to the user whom they concern.

use crate::errors::{outcome, ErrorView, ServiceError, ServiceResult};
use crate::models::users::LoggedUser;
use crate::text::is_word;
use vstd::prelude::*;

verus! {

/// What is answered to a user whose role does not allow what was asked.
pub open spec fn no_permission() -> ErrorView {
    ErrorView::BadRequest("No permission."@)
}

/// The role runs the site.
pub open spec fn is_staff(role: Seq<char>) -> bool {
    role == "sup"@ || role == "admin"@
}

/// The answer to someone who must be logged in.
pub open spec fn login_required(user: LoggedUser) -> Result<(), ErrorView> {
    if user.0 is None {
        Err(ErrorView::Unauthorized)
    } else {
        Ok(())
    }
}

/// The answer to someone who must run the site.
pub open spec fn staff_required(user: LoggedUser) -> Result<(), ErrorView> {
    match user.role() {
        None => Err(ErrorView::Unauthorized),
        Some(role) => if is_staff(role) {
            Ok(())
        } else {
            Err(no_permission())
        },
    }
}

/// The answer to someone who must be the user `id` or run the site.
pub open spec fn self_or_staff_required(user: LoggedUser, id: i32) -> Result<(), ErrorView> {
    match user.0 {
        None => Err(ErrorView::Unauthorized),
        Some(slim) => if slim.id == id || is_staff(slim.role@) {
            Ok(())
        } else {
            Err(no_permission())
        },
    }
}

/// Whether `role` runs the site.
pub fn runs_site(role: &String) -> (b: bool)
    ensures
        b == is_staff(role@),
{
    is_word(role, "sup") || is_word(role, "admin")
}

/// Passes whoever is logged in.
pub fn require_login(user: &LoggedUser) -> (res: ServiceResult<()>)
    ensures
        outcome(res) == login_required(*user),
{
    match &user.0 {
        Some(_) => Ok(()),
        None => Err(ServiceError::Unauthorized),
    }
}

/// Passes whoever runs the site.
pub fn require_staff(user: &LoggedUser) -> (res: ServiceResult<()>)
    ensures
        outcome(res) == staff_required(*user),
{
    match &user.0 {
        None => Err(ServiceError::Unauthorized),
        Some(slim) => {
            if runs_site(&slim.role) {
                Ok(())
            } else {
                Err(ServiceError::bad_request("No permission."))
            }
        },
    }
}

/// Passes the user `id` and whoever runs the site.
pub fn require_self_or_staff(user: &LoggedUser, id: i32) -> (res: ServiceResult<()>)
    ensures
        outcome(res) == self_or_staff_required(*user, id),
{
    match &user.0 {
        None => Err(ServiceError::Unauthorized),
        Some(slim) => {
            if slim.id == id || runs_site(&slim.role) {
                Ok(())
            } else {
                Err(ServiceError::bad_request("No permission."))
            }
        },
    }
}

/// Who may make a user with the role `new_role`: anyone, unless the new user
/// is to run the site; such a user only `sup` may make.
pub open spec fn create_user_allowed(user: LoggedUser, new_role: Seq<char>) -> Result<(), ErrorView> {
    if is_staff(new_role) {
        match user.role() {
            None => Err(ErrorView::Unauthorized),
            Some(role) => if role == "sup"@ {
                Ok(())
            } else {
                Err(no_permission())
            },
        }
    } else {
        Ok(())
    }
}

/// Decides whether `user` may make a user with the role `new_role`.
pub fn may_create_user(user: &LoggedUser, new_role: &String) -> (res: ServiceResult<()>)
    ensures
        outcome(res) == create_user_allowed(*user, new_role@),
{
    if runs_site(new_role) {
        match &user.0 {
            None => {
                return Err(ServiceError::Unauthorized);
            },
            Some(slim) => {
                if !is_word(&slim.role, "sup") {
                    return Err(ServiceError::bad_request("No permission."));
                }
            },
        }
    }
    Ok(())
}

/// Who may change the user `id`: that user and whoever runs the site; but a
/// role that runs the site only `sup` may give.
pub open spec fn update_user_allowed(user: LoggedUser, id: i32, new_role: Option<Seq<char>>) -> Result<
    (),
    ErrorView,
> {
    match self_or_staff_required(user, id) {
        Err(e) => Err(e),
        Ok(_) => if new_role is Some && is_staff(new_role->Some_0) && user.role() != Some("sup"@) {
            Err(no_permission())
        } else {
            Ok(())
        },
    }
}

/// Decides whether `user` may change the user `id`, giving the role
/// `new_role` if one is named.
pub fn may_update_user(user: &LoggedUser, id: i32, new_role: Option<&String>) -> (res: ServiceResult<()>)
    ensures
        outcome(res) == update_user_allowed(
            *user,
            id,
            match new_role {
                Some(r) => Some(r@),
                None => None,
            },
        ),
{
    match require_self_or_staff(user, id) {
        Err(e) => {
            return Err(e);
        },
        Ok(_) => {},
    }
    if let Some(role) = new_role {
        if runs_site(role) {
            match &user.0 {
                Some(slim) => {
                    if !is_word(&slim.role, "sup") {
                        return Err(ServiceError::bad_request("No permission."));
                    }
                },
                None => {},
            }
        }
    }
    Ok(())
}

/// Who may read the submission that `owner` made: its owner, and the roles
/// `super` and `admin`.
pub open spec fn read_submission_allowed(user: LoggedUser, owner: i32) -> Result<(), ErrorView> {
    match user.0 {
        None => Err(ErrorView::Unauthorized),
        Some(slim) => if slim.id == owner || slim.role@ == "super"@ || slim.role@ == "admin"@ {
            Ok(())
        } else {
            Err(no_permission())
        },
    }
}

/// Decides whether `user` may read the submission that `owner` made.
pub fn may_read_submission(user: &LoggedUser, owner: i32) -> (res: ServiceResult<()>)
    ensures
        outcome(res) == read_submission_allowed(*user, owner),
{
    match &user.0 {
        None => Err(ServiceError::Unauthorized),
        Some(slim) => {
            if slim.id != owner && !is_word(&slim.role, "super") && !is_word(&slim.role, "admin") {
                Err(ServiceError::bad_request("No permission."))
            } else {
                Ok(())
            }
        },
    }
}

/// Who may list announcements: anyone those that are released; all of them,
/// only whoever runs the site.
pub open spec fn list_announcements_allowed(user: LoggedUser, released_only: bool) -> Result<
    (),
    ErrorView,
> {
    if released_only {
        Ok(())
    } else {
        staff_required(user)
    }
}

/// Decides whether `user` may list announcements, the released ones only or
/// all of them.
pub fn may_list_announcements(user: &LoggedUser, released_only: bool) -> (res: ServiceResult<()>)
    ensures
        outcome(res) == list_announcements_allowed(*user, released_only),
{
    if released_only {
        Ok(())
    } else {
        require_staff(user)
    }
}

/// Who may set a new password for the user `id` by giving the old one: that
/// user alone.
pub open spec fn reset_by_old_password_allowed(user: LoggedUser, id: i32) -> Result<(), ErrorView> {
    match user.user_id() {
        None => Err(ErrorView::Unauthorized),
        Some(own) => if own == id {
            Ok(())
        } else {
            Err(no_permission())
        },
    }
}

/// Decides whether `user` may set a new password for the user `id` by giving
/// the old one.
pub fn may_reset_by_old_password(user: &LoggedUser, id: i32) -> (res: ServiceResult<()>)
    ensures
        outcome(res) == reset_by_old_password_allowed(*user, id),
{
    match &user.0 {
        None => Err(ServiceError::Unauthorized),
        Some(slim) => {
            if slim.id != id {
                Err(ServiceError::bad_request("No permission."))
            } else {
                Ok(())
            }
        },
    }
}

} // verus!
