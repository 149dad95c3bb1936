use rustganizer::platform::user::{
    windows_users_with_home, MacUserProvider, UnixUserProvider, UserProvider, WindowsUserProvider,
};

#[test]
fn test_windows_users_with_home_filters_accounts_without_home() {
    // On this machine no account owns a folder under either Windows user
    // root, so every candidate account is filtered out.
    let accounts = vec!["alpha".to_string(), "beta".to_string()];
    assert!(windows_users_with_home(&accounts).is_empty());
}

#[test]
fn test_list_users_windows() {
    let provider = WindowsUserProvider;
    let users = provider.list_users();
    // Should not panic and should return a Vec
    assert!(users.is_empty() || users.iter().all(|u| !u.is_empty()));
}

#[test]
fn test_user_home_windows() {
    let provider = WindowsUserProvider;
    // Should return None for a non-existent user
    assert_eq!(provider.user_home("nonexistent_user_xyz"), None);
}

#[test]
fn test_user_home_existing_windows() {
    let provider = WindowsUserProvider;
    let users = provider.list_users();
    if let Some(user) = users.first() {
        let home = provider.user_home(user);
        assert!(home.is_some());
        let path = home.unwrap();
        assert!(std::path::Path::new(&path).exists());
    }
}

#[test]
fn test_list_users_macos() {
    let provider = MacUserProvider;
    let users = provider.list_users();
    // Should not panic and should return a Vec
    assert!(users.is_empty() || users.iter().all(|u| !u.is_empty()));
}

#[test]
fn test_user_home_macos() {
    let provider = MacUserProvider;
    // Should return None for a non-existent user
    assert_eq!(provider.user_home("nonexistent_user_xyz"), None);
}

#[test]
fn test_user_home_existing_macos() {
    let provider = MacUserProvider;
    let users = provider.list_users();
    if let Some(user) = users.first() {
        let home = provider.user_home(user);
        assert!(home.is_some());
        let path = home.unwrap();
        assert!(std::path::Path::new(&path).exists());
    }
}

#[test]
fn test_list_users_unix() {
    let provider = UnixUserProvider;
    let users = provider.list_users();
    // Should not panic and should return a Vec
    assert!(users.is_empty() || users.iter().all(|u| !u.is_empty()));
}

#[test]
fn test_user_home_unix() {
    let provider = UnixUserProvider;
    // Should return None for a non-existent user
    assert_eq!(provider.user_home("nonexistent_user_xyz"), None);
}

#[test]
fn test_user_home_existing_unix() {
    let provider = UnixUserProvider;
    let users = provider.list_users();
    if let Some(user) = users.first() {
        let home = provider.user_home(user);
        assert!(home.is_some());
        let path = home.unwrap();
        assert!(std::path::Path::new(&path).exists());
    }
}
