//! The backend's users and items, as the routes take and return them.

use vstd::prelude::*;

verus! {

/// A stored user; `password_hash` is a hash record, never sent out.
pub struct User {
    pub id: i64,
    pub username: String,
    pub email: String,
    pub password_hash: String,
    pub is_active: bool,
    pub is_admin: bool,
    pub created_at: String,
    pub updated_at: String,
}

pub struct CreateUserRequest {
    pub username: String,
    pub email: String,
    pub password: String,
    pub is_admin: Option<bool>,
}

pub struct UpdateUserRequest {
    pub username: Option<String>,
    pub email: Option<String>,
    pub password: Option<String>,
    pub is_active: Option<bool>,
    pub is_admin: Option<bool>,
}

/// A user as the routes return it.
pub struct UserResponse {
    pub id: i64,
    pub username: String,
    pub email: String,
    pub is_active: bool,
    pub is_admin: bool,
    pub created_at: String,
    pub updated_at: String,
}

impl View for UserResponse {
    type V = (i64, Seq<char>, Seq<char>, bool, bool, Seq<char>, Seq<char>);

    open spec fn view(&self) -> Self::V {
        (
            self.id,
            self.username@,
            self.email@,
            self.is_active,
            self.is_admin,
            self.created_at@,
            self.updated_at@,
        )
    }
}

pub struct UserListResponse {
    pub users: Vec<UserResponse>,
    pub total: usize,
}

pub struct AuthRequest {
    pub username: String,
    pub password: String,
}

pub struct AuthResponse {
    pub access_token: String,
    pub token_type: String,
    pub expires_in: i64,
    pub user: UserResponse,
}

pub struct Item {
    pub id: i64,
    pub name: String,
    pub description: Option<String>,
    pub user_id: i64,
    pub created_at: String,
    pub updated_at: String,
}

pub struct CreateItemRequest {
    pub name: String,
    pub description: Option<String>,
    pub user_id: i64,
}

pub struct UpdateItemRequest {
    pub name: Option<String>,
    pub description: Option<String>,
    pub user_id: Option<i64>,
}

/// An item as the routes return it.
pub struct ItemResponse {
    pub id: i64,
    pub name: String,
    pub description: Option<String>,
    pub user_id: i64,
    pub created_at: String,
    pub updated_at: String,
}

pub open spec fn optional_text(t: &Option<String>) -> Option<Seq<char>> {
    match t {
        Some(v) => Some(v@),
        None => None,
    }
}

impl View for ItemResponse {
    type V = (i64, Seq<char>, Option<Seq<char>>, i64, Seq<char>, Seq<char>);

    open spec fn view(&self) -> Self::V {
        (
            self.id,
            self.name@,
            optional_text(&self.description),
            self.user_id,
            self.created_at@,
            self.updated_at@,
        )
    }
}

pub struct ItemListResponse {
    pub items: Vec<ItemResponse>,
    pub total: usize,
}

} // verus!
