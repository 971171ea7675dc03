//! Accounts.

use vstd::prelude::*;
use crate::text::clone_text;

verus! {

/// An account as it is kept.
#[derive(Debug, PartialEq, Eq)]
pub struct User {
    pub id: i32,
    pub username: String,
    pub email: String,
    pub password_hash: String,
    pub first_name: Option<String>,
    pub last_name: Option<String>,
    pub phone_number: Option<String>,
    pub address: Option<String>,
}

impl Clone for User {
    fn clone(&self) -> (r: Self)
        ensures
            r == *self,
    {
        User {
            id: self.id,
            username: self.username.clone(),
            email: self.email.clone(),
            password_hash: self.password_hash.clone(),
            first_name: clone_text(&self.first_name),
            last_name: clone_text(&self.last_name),
            phone_number: clone_text(&self.phone_number),
            address: clone_text(&self.address),
        }
    }
}

/// An account as it is asked for, before it is activated.
#[derive(Debug, PartialEq, Eq)]
pub struct TempUser {
    pub username: String,
    pub email: String,
    pub password: String,
    pub first_name: Option<String>,
    pub last_name: Option<String>,
    pub phone_number: Option<String>,
    pub address: Option<String>,
}

impl Clone for TempUser {
    fn clone(&self) -> (r: Self)
        ensures
            r == *self,
    {
        TempUser {
            username: self.username.clone(),
            email: self.email.clone(),
            password: self.password.clone(),
            first_name: clone_text(&self.first_name),
            last_name: clone_text(&self.last_name),
            phone_number: clone_text(&self.phone_number),
            address: clone_text(&self.address),
        }
    }
}

/// What an account shows of itself.
#[derive(Debug, PartialEq, Eq)]
pub struct UserProfile {
    pub username: String,
    pub email: String,
    pub first_name: String,
    pub last_name: String,
    pub phone_number: String,
    pub address: String,
}

impl Clone for UserProfile {
    fn clone(&self) -> (r: Self)
        ensures
            r == *self,
    {
        UserProfile {
            username: self.username.clone(),
            email: self.email.clone(),
            first_name: self.first_name.clone(),
            last_name: self.last_name.clone(),
            phone_number: self.phone_number.clone(),
            address: self.address.clone(),
        }
    }
}

} // verus!
