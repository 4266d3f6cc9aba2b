use authcore::auth::{AuthDecision, Authentication};
use authcore::frontend::{
    about_page, authorization_value, check_status, home_page, items_page, users_page, Config, Item, User,
};

fn settings() -> Config {
    Config::from_settings(Some("staging".to_string()), None, None, None, None, None)
}

#[test]
fn home_and_about_pages() {
    let home = home_page(&settings());
    assert_eq!(home.title, "Home");
    assert_eq!(home.description.as_deref(), Some("Welcome to My App"));
    assert_eq!(home.environment, "staging");
    let about = about_page(&settings());
    assert_eq!(about.title, "About");
    assert_eq!(about.description.as_deref(), Some("About My App"));
}

#[test]
fn users_page_shows_fetched_users_or_none() {
    let user = User {
        id: 1,
        username: "admin".to_string(),
        email: "admin@example.com".to_string(),
        is_active: true,
        is_admin: true,
        created_at: "2023-01-01T00:00:00Z".to_string(),
        updated_at: "2023-01-01T00:00:00Z".to_string(),
    };
    let page = users_page(&settings(), Some(vec![user]));
    assert_eq!(page.page.title, "Users");
    assert_eq!(page.page.description.as_deref(), Some("User management"));
    assert_eq!(page.users.len(), 1);
    assert_eq!(page.users[0].username, "admin");
    assert!(users_page(&settings(), None).users.is_empty());
}

#[test]
fn items_page_shows_fetched_items_or_none() {
    let item = Item {
        id: 2,
        name: "Item 2".to_string(),
        description: None,
        user_id: 2,
        created_at: "2023-01-02T00:00:00Z".to_string(),
        updated_at: "2023-01-02T00:00:00Z".to_string(),
    };
    let page = items_page(&settings(), Some(vec![item]));
    assert_eq!(page.page.title, "Items");
    assert_eq!(page.page.environment, "staging");
    assert_eq!(page.items[0].name, "Item 2");
    assert!(items_page(&settings(), None).items.is_empty());
}

#[test]
fn client_header_passes_the_backend_check() {
    let token = settings().api_token;
    let header = authorization_value(&token);
    let guard = Authentication::new();
    assert_eq!(
        guard.decide("/api/users", Some(header.as_bytes()), &token),
        AuthDecision::Forward
    );
}

#[test]
fn backend_status_mapping() {
    assert_eq!(check_status(200, None), Ok(()));
    assert_eq!(check_status(204, Some("x".to_string())), Ok(()));
    assert_eq!(check_status(404, Some("gone".to_string())), Err((404, "gone".to_string())));
    assert_eq!(check_status(500, None), Err((500, "Unknown error".to_string())));
    assert_eq!(check_status(199, None), Err((199, "Unknown error".to_string())));
}
