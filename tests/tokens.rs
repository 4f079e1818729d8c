use ecows::tokens::{Role, Tokens};

#[test]
fn tokens_added_in_order_are_found() {
    let mut t = Tokens::new();
    t.add(Role::User, "abc".to_string());
    t.add(Role::User, "def".to_string());
    t.add(Role::Admin, "root".to_string());
    t.add(Role::Admin, "su".to_string());
    assert!(t.is_web_token("abc"));
    assert!(t.is_web_token("def"));
    assert!(t.is_admin_token("root"));
    assert!(t.is_admin_token("su"));
    assert!(!t.is_web_token("root"));
    assert!(!t.is_admin_token("abc"));
    assert!(!t.is_web_token("xyz"));
    assert!(!t.is_admin_token("admin"));
}

#[test]
fn tokens_added_out_of_order_are_found() {
    let mut t = Tokens::new();
    t.add(Role::User, "zeta".to_string());
    t.add(Role::User, "alpha".to_string());
    t.add(Role::User, "mu".to_string());
    assert!(t.is_web_token("alpha"));
    assert!(t.is_web_token("mu"));
    assert!(t.is_web_token("zeta"));
    assert!(!t.is_web_token("beta"));
    assert!(!t.is_web_token(""));
}

#[test]
fn warn_insecure_once() {
    let mut t = Tokens::default();
    assert!(t.check_warn_insecure());
    assert!(!t.check_warn_insecure());
    assert!(!t.check_warn_insecure());
    t.add(Role::Admin, "secret".to_string());
    assert!(!t.check_warn_insecure());
    assert!(!t.check_warn_insecure());
}

#[test]
fn warn_insecure_silent_with_admin_token() {
    let mut t = Tokens::new();
    t.add(Role::Admin, "secret".to_string());
    assert!(!t.check_warn_insecure());
}

#[test]
fn default_admin_token_without_admin_tokens() {
    let mut t = Tokens::new();
    assert!(t.is_admin_token("admin"));
    assert!(!t.is_admin_token("anything-else"));
    assert!(!t.is_admin_token("Admin"));
    assert!(!t.is_admin_token(""));
    t.add(Role::User, "admin2".to_string());
    assert!(t.is_admin_token("admin"));
}

#[test]
fn role_names() {
    assert_eq!(Role::User.as_str(), "User");
    assert_eq!(Role::Admin.as_str(), "Admin");
}

