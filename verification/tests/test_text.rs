use rustganizer::text::{extension_of, join_path, replace_username, str_eq};

#[test]
fn test_extension_of() {
    assert_eq!(extension_of("song.mp3"), Some("mp3"));
    assert_eq!(extension_of("archive.tar.gz"), Some("gz"));
    assert_eq!(extension_of("noext"), None);
    assert_eq!(extension_of(".bashrc"), None);
    assert_eq!(extension_of(".hidden.txt"), Some("txt"));
    assert_eq!(extension_of("trailing."), Some(""));
}

#[test]
fn test_replace_username() {
    assert_eq!(replace_username("User {username} not found.", "sam"), "User sam not found.");
    assert_eq!(replace_username("{username}{username}", "ab"), "abab");
    assert_eq!(replace_username("no placeholder", "sam"), "no placeholder");
    assert_eq!(replace_username("", "sam"), "");
}

#[test]
fn test_str_eq() {
    assert!(str_eq("abc", "abc"));
    assert!(!str_eq("abc", "abd"));
    assert!(!str_eq("abc", "ab"));
    assert!(str_eq("", ""));
    assert!(str_eq("Música", "Música"));
}

#[test]
fn test_join_path() {
    assert_eq!(join_path("/home/u", "Downloads"), "/home/u/Downloads");
    assert_eq!(join_path("C:/Users", "alex"), "C:/Users/alex");
}
