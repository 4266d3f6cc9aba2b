use authcore::catalog::{
    create_item, create_user, created_user, delete_item, delete_user, find_item, find_user, list_items,
    list_users, update_item, update_user,
};
use authcore::password::PasswordError;
use authcore::models::{CreateItemRequest, CreateUserRequest, UpdateItemRequest, UpdateUserRequest};

#[test]
fn fixed_users_are_listed() {
    let users = list_users();
    assert_eq!(users.len(), 2);
    assert_eq!(users[0].id, 1);
    assert_eq!(users[0].username, "admin");
    assert_eq!(users[0].email, "admin@example.com");
    assert!(users[0].is_admin);
    assert_eq!(users[0].created_at, "2023-01-01T00:00:00Z");
    assert_eq!(users[1].username, "user");
    assert!(!users[1].is_admin);
    assert_eq!(users[1].updated_at, "2023-01-02T00:00:00Z");
}

#[test]
fn unknown_user_is_not_found() {
    assert!(find_user(3).is_none());
    assert!(find_user(0).is_none());
    assert_eq!(find_user(2).unwrap().email, "user@example.com");
}

#[test]
fn created_user_gets_next_id() {
    let request = CreateUserRequest {
        username: "carol".to_string(),
        email: "carol@example.com".to_string(),
        password: "pw".to_string(),
        is_admin: None,
    };
    let user = create_user(&request).unwrap();
    assert_eq!(user.id, 3);
    assert_eq!(user.username, "carol");
    assert!(user.is_active);
    assert!(!user.is_admin);
    assert_eq!(user.created_at, "2023-01-03T00:00:00Z");
}

#[test]
fn update_merges_into_fixed_user() {
    let request = UpdateUserRequest {
        username: Some("root".to_string()),
        email: None,
        password: None,
        is_active: Some(false),
        is_admin: None,
    };
    let user = update_user(1, &request).unwrap();
    assert_eq!(user.username, "root");
    assert_eq!(user.email, "admin@example.com");
    assert!(!user.is_active);
    assert!(user.is_admin);
    assert_eq!(user.created_at, "2023-01-01T00:00:00Z");
    assert_eq!(user.updated_at, "2023-01-03T00:00:00Z");
    assert!(update_user(5, &request).is_none());
}

#[test]
fn only_fixed_users_and_items_delete() {
    assert!(delete_user(1));
    assert!(!delete_user(3));
    assert!(delete_item(2));
    assert!(!delete_item(-1));
}

#[test]
fn fixed_items_are_listed() {
    let items = list_items();
    assert_eq!(items.len(), 2);
    assert_eq!(items[0].name, "Item 1");
    assert_eq!(items[1].description.as_deref(), Some("Description for Item 2"));
    assert_eq!(items[1].user_id, 2);
    assert!(find_item(7).is_none());
}

#[test]
fn created_and_updated_items() {
    let created = create_item(&CreateItemRequest {
        name: "Lamp".to_string(),
        description: None,
        user_id: 2,
    });
    assert_eq!(created.id, 3);
    assert_eq!(created.name, "Lamp");
    assert!(created.description.is_none());
    let updated = update_item(
        2,
        &UpdateItemRequest { name: None, description: Some("New".to_string()), user_id: None },
    )
    .unwrap();
    assert_eq!(updated.name, "Item 2");
    assert_eq!(updated.description.as_deref(), Some("New"));
    assert_eq!(updated.user_id, 2);
    assert!(update_item(3, &UpdateItemRequest { name: None, description: None, user_id: None })
        .is_none());
}

#[test]
fn hashing_error_reaches_the_caller() {
    let request = CreateUserRequest {
        username: "dave".to_string(),
        email: "dave@example.com".to_string(),
        password: "pw".to_string(),
        is_admin: Some(true),
    };
    assert!(matches!(
        created_user(&request, Err(PasswordError::RandomnessUnavailable)),
        Err(PasswordError::RandomnessUnavailable)
    ));
    let user = created_user(&request, Ok("1:AQID:aGk=".to_string())).unwrap();
    assert_eq!(user.id, 3);
    assert_eq!(user.username, "dave");
    assert!(user.is_admin);
    assert_eq!(user.updated_at, "2023-01-03T00:00:00Z");
}
