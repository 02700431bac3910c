//! User accounts and profiles.

use vstd::prelude::*;

verus! {

/// A registry user account. Only the first five fields are chosen by the
/// caller; the rest are filled in by the registry.
#[derive(Debug)]
pub struct User {
    pub email: String,
    pub username: String,
    pub realname: String,
    pub password: String,
    pub comment: Option<String>,
    pub update_time: Option<String>,
    pub user_id: Option<i64>,
    pub deleted: Option<bool>,
    pub creation_time: Option<String>,
    pub role_id: Option<i64>,
    pub has_admin_role: Option<bool>,
    pub role_name: Option<String>,
    pub reset_uuid: Option<String>,
    pub password_version: Option<String>,
}

/// One row of a user search result.
#[derive(Debug)]
pub struct UserSearch {
    pub username: String,
    pub user_id: i64,
}

/// One permission of the current user.
#[derive(Debug)]
pub struct Permission {
    pub action: String,
    pub resource: String,
}

/// The editable profile of a user.
#[derive(Debug)]
pub struct UserProfile {
    pub comment: String,
    pub email: String,
    pub realname: String,
}

impl User {
    /// A fresh account to create: the caller's five fields, everything
    /// registry-assigned still unset.
    pub fn new(
        email: String,
        username: String,
        realname: String,
        password: String,
        comment: Option<String>,
    ) -> (r: User)
        ensures
            r.email == email,
            r.username == username,
            r.realname == realname,
            r.password == password,
            r.comment == comment,
            r.update_time is None,
            r.user_id is None,
            r.deleted is None,
            r.creation_time is None,
            r.role_id is None,
            r.has_admin_role is None,
            r.role_name is None,
            r.reset_uuid is None,
            r.password_version is None,
    {
        User {
            email,
            username,
            realname,
            password,
            comment,
            update_time: None,
            user_id: None,
            deleted: None,
            creation_time: None,
            role_id: None,
            has_admin_role: None,
            role_name: None,
            reset_uuid: None,
            password_version: None,
        }
    }

    /// The editable profile of this account: its comment (empty when
    /// unset), email and real name.
    pub fn get_user_profile(&self) -> (r: UserProfile)
        ensures
            r.comment@ == (match self.comment {
                Some(c) => c@,
                None => Seq::<char>::empty(),
            }),
            r.email@ == self.email@,
            r.realname@ == self.realname@,
    {
        let comment: String = match &self.comment {
            Some(c) => c.clone(),
            None => String::new(),
        };
        UserProfile { comment, email: self.email.clone(), realname: self.realname.clone() }
    }
}

} // verus!
