//! The users and items that the backend serves until it has a store: two of
//! each, fixed. Creating answers with the next id; updating merges the
//! request into the fixed record; nothing is kept.

use vstd::prelude::*;
use crate::models::{
    UserResponse, CreateUserRequest, UpdateUserRequest, ItemResponse, CreateItemRequest,
    UpdateItemRequest, optional_text,
};
use crate::password::{PasswordError, hash_password};

verus! {

/// The timestamp of every record created or updated.
pub const CHANGED_AT: &'static str = "2023-01-03T00:00:00Z";

/// The id that a created user or item gets.
pub const NEXT_ID: i64 = 3;

/// Whether `id` names one of the fixed records.
pub open spec fn is_known(id: i64) -> bool {
    id == 1 || id == 2
}

pub open spec fn created_at_of(id: i64) -> Seq<char> {
    if id == 1 {
        "2023-01-01T00:00:00Z"@
    } else {
        "2023-01-02T00:00:00Z"@
    }
}

pub open spec fn username_of(id: i64) -> Seq<char> {
    if id == 1 {
        "admin"@
    } else {
        "user"@
    }
}

pub open spec fn email_of(id: i64) -> Seq<char> {
    if id == 1 {
        "admin@example.com"@
    } else {
        "user@example.com"@
    }
}

/// The fixed user `id` (1 is the administrator).
pub open spec fn known_user(id: i64) -> (i64, Seq<char>, Seq<char>, bool, bool, Seq<char>, Seq<char>) {
    (id, username_of(id), email_of(id), true, id == 1, created_at_of(id), created_at_of(id))
}

pub open spec fn item_name_of(id: i64) -> Seq<char> {
    if id == 1 {
        "Item 1"@
    } else {
        "Item 2"@
    }
}

pub open spec fn item_description_of(id: i64) -> Seq<char> {
    if id == 1 {
        "Description for Item 1"@
    } else {
        "Description for Item 2"@
    }
}

/// The fixed item `id`, owned by the user with the same id.
pub open spec fn known_item(id: i64) -> (i64, Seq<char>, Option<Seq<char>>, i64, Seq<char>, Seq<char>) {
    (id, item_name_of(id), Some(item_description_of(id)), id, created_at_of(id), created_at_of(id))
}

fn text_or(value: &Option<String>, default: &str) -> (r: String)
    ensures
        r@ == match value {
            Some(v) => v@,
            None => default@,
        },
{
    match value {
        Some(v) => v.clone(),
        None => String::from_str(default),
    }
}

fn optional_clone(value: &Option<String>) -> (r: Option<String>)
    ensures
        optional_text(&r) == optional_text(value),
{
    match value {
        Some(v) => Some(v.clone()),
        None => None,
    }
}

fn known_created_at(id: i64) -> (r: String)
    ensures
        r@ == created_at_of(id),
{
    if id == 1 {
        String::from_str("2023-01-01T00:00:00Z")
    } else {
        String::from_str("2023-01-02T00:00:00Z")
    }
}

/// The fixed user `id`, if there is one.
pub fn find_user(id: i64) -> (r: Option<UserResponse>)
    ensures
        match r {
            Some(u) => is_known(id) && u@ == known_user(id),
            None => !is_known(id),
        },
{
    if !(id == 1 || id == 2) {
        return None;
    }
    let (username, email) = if id == 1 {
        (String::from_str("admin"), String::from_str("admin@example.com"))
    } else {
        (String::from_str("user"), String::from_str("user@example.com"))
    };
    Some(UserResponse {
        id,
        username,
        email,
        is_active: true,
        is_admin: id == 1,
        created_at: known_created_at(id),
        updated_at: known_created_at(id),
    })
}

/// All fixed users, in id order.
pub fn list_users() -> (r: Vec<UserResponse>)
    ensures
        r@.len() == 2,
        r@[0]@ == known_user(1),
        r@[1]@ == known_user(2),
{
    let mut users: Vec<UserResponse> = Vec::new();
    match find_user(1) {
        Some(u) => users.push(u),
        None => {},
    }
    match find_user(2) {
        Some(u) => users.push(u),
        None => {},
    }
    users
}

/// The user that a registration answers with, under the next id.
pub open spec fn registered_user(request: &CreateUserRequest) -> (
    i64,
    Seq<char>,
    Seq<char>,
    bool,
    bool,
    Seq<char>,
    Seq<char>,
) {
    (
        NEXT_ID,
        request.username@,
        request.email@,
        true,
        request.is_admin == Some(true),
        CHANGED_AT@,
        CHANGED_AT@,
    )
}

/// Registers a user: hashes the password (the hash is not kept), and answers
/// with the new user under the next id, or with the hashing error.
pub fn create_user(request: &CreateUserRequest) -> (r: Result<UserResponse, PasswordError>)
    ensures
        match r {
            Ok(u) => u@ == registered_user(request),
            Err(e) => e == PasswordError::RandomnessUnavailable,
        },
{
    let hashed = hash_password(request.password.as_str());
    created_user(request, hashed)
}

/// The answer to a registration once its password was hashed: the hashing
/// error as it came, or the new user.
pub fn created_user(request: &CreateUserRequest, hashed: Result<String, PasswordError>) -> (r:
    Result<UserResponse, PasswordError>)
    ensures
        hashed matches Err(e) ==> r == Err::<UserResponse, _>(e),
        hashed is Ok ==> (r matches Ok(u) && u@ == registered_user(request)),
{
    match hashed {
        Err(e) => Err(e),
        Ok(_hash) => Ok(UserResponse {
            id: NEXT_ID,
            username: request.username.clone(),
            email: request.email.clone(),
            is_active: true,
            is_admin: match request.is_admin {
                Some(a) => a,
                None => false,
            },
            created_at: String::from_str(CHANGED_AT),
            updated_at: String::from_str(CHANGED_AT),
        }),
    }
}

/// The fixed user `id` with the fields that `request` gives replaced.
pub fn update_user(id: i64, request: &UpdateUserRequest) -> (r: Option<UserResponse>)
    ensures
        match r {
            Some(u) => is_known(id) && u@ == (
                id,
                match request.username {
                    Some(v) => v@,
                    None => username_of(id),
                },
                match request.email {
                    Some(v) => v@,
                    None => email_of(id),
                },
                match request.is_active {
                    Some(a) => a,
                    None => true,
                },
                match request.is_admin {
                    Some(a) => a,
                    None => id == 1,
                },
                created_at_of(id),
                CHANGED_AT@,
            ),
            None => !is_known(id),
        },
{
    if !(id == 1 || id == 2) {
        return None;
    }
    let (username_default, email_default) = if id == 1 {
        ("admin", "admin@example.com")
    } else {
        ("user", "user@example.com")
    };
    Some(UserResponse {
        id,
        username: text_or(&request.username, username_default),
        email: text_or(&request.email, email_default),
        is_active: match request.is_active {
            Some(a) => a,
            None => true,
        },
        is_admin: match request.is_admin {
            Some(a) => a,
            None => id == 1,
        },
        created_at: known_created_at(id),
        updated_at: String::from_str(CHANGED_AT),
    })
}

/// Whether user `id` can be deleted: only a fixed user can.
pub fn delete_user(id: i64) -> (r: bool)
    ensures
        r == is_known(id),
{
    id == 1 || id == 2
}

/// The fixed item `id`, if there is one.
pub fn find_item(id: i64) -> (r: Option<ItemResponse>)
    ensures
        match r {
            Some(item) => is_known(id) && item@ == known_item(id),
            None => !is_known(id),
        },
{
    if !(id == 1 || id == 2) {
        return None;
    }
    let (name, description) = if id == 1 {
        (String::from_str("Item 1"), String::from_str("Description for Item 1"))
    } else {
        (String::from_str("Item 2"), String::from_str("Description for Item 2"))
    };
    Some(ItemResponse {
        id,
        name,
        description: Some(description),
        user_id: id,
        created_at: known_created_at(id),
        updated_at: known_created_at(id),
    })
}

/// All fixed items, in id order.
pub fn list_items() -> (r: Vec<ItemResponse>)
    ensures
        r@.len() == 2,
        r@[0]@ == known_item(1),
        r@[1]@ == known_item(2),
{
    let mut items: Vec<ItemResponse> = Vec::new();
    match find_item(1) {
        Some(item) => items.push(item),
        None => {},
    }
    match find_item(2) {
        Some(item) => items.push(item),
        None => {},
    }
    items
}

/// Answers a creation with the new item under the next id.
pub fn create_item(request: &CreateItemRequest) -> (r: ItemResponse)
    ensures
        r@ == (
            NEXT_ID,
            request.name@,
            optional_text(&request.description),
            request.user_id,
            CHANGED_AT@,
            CHANGED_AT@,
        ),
{
    ItemResponse {
        id: NEXT_ID,
        name: request.name.clone(),
        description: optional_clone(&request.description),
        user_id: request.user_id,
        created_at: String::from_str(CHANGED_AT),
        updated_at: String::from_str(CHANGED_AT),
    }
}

/// The fixed item `id` with the fields that `request` gives replaced.
pub fn update_item(id: i64, request: &UpdateItemRequest) -> (r: Option<ItemResponse>)
    ensures
        match r {
            Some(item) => is_known(id) && item@ == (
                id,
                match request.name {
                    Some(v) => v@,
                    None => item_name_of(id),
                },
                match request.description {
                    Some(v) => Some(v@),
                    None => Some(item_description_of(id)),
                },
                match request.user_id {
                    Some(u) => u,
                    None => id,
                },
                created_at_of(id),
                CHANGED_AT@,
            ),
            None => !is_known(id),
        },
{
    if !(id == 1 || id == 2) {
        return None;
    }
    let (name_default, description_default) = if id == 1 {
        ("Item 1", "Description for Item 1")
    } else {
        ("Item 2", "Description for Item 2")
    };
    Some(ItemResponse {
        id,
        name: text_or(&request.name, name_default),
        description: Some(text_or(&request.description, description_default)),
        user_id: match request.user_id {
            Some(u) => u,
            None => id,
        },
        created_at: known_created_at(id),
        updated_at: String::from_str(CHANGED_AT),
    })
}

/// Whether item `id` can be deleted: only a fixed item can.
pub fn delete_item(id: i64) -> (r: bool)
    ensures
        r == is_known(id),
{
    id == 1 || id == 2
}

} // verus!
