use rustganizer::config::Config;

#[test]
fn test_default_config() {
    let config = Config::default();

    // Test English directories
    let downloads = config.get_localized_dir("en", "Downloads");
    assert_eq!(downloads, "Downloads");

    let spanish_downloads = config.get_localized_dir("es", "Downloads");
    assert_eq!(spanish_downloads, "Descargas");
}

#[test]
fn test_file_extensions() {
    let config = Config::default();
    let extensions = config.get_file_extensions();

    assert!(extensions.music.contains(&"mp3"));
    assert!(extensions.videos.contains(&"mp4"));
    assert!(extensions.images.contains(&"png"));
    assert!(extensions.docs.contains(&"pdf"));
}

#[test]
fn test_file_category_detection() {
    let config = Config::default();

    assert_eq!(config.get_file_category("mp3"), Some("music"));
    assert_eq!(config.get_file_category("mp4"), Some("video"));
    assert_eq!(config.get_file_category("png"), Some("image"));
    assert_eq!(config.get_file_category("pdf"), Some("docs"));
    assert_eq!(config.get_file_category("unknown"), None);
}

#[test]
fn test_error_messages() {
    let config = Config::default();

    let empty_msg = config.get_error_message("en", "empty_username", "");
    assert_eq!(empty_msg, "Empty username. Please enter a valid username.");

    let not_found_msg = config.get_error_message("es", "user_not_found", "testuser");
    assert!(not_found_msg.contains("testuser"));
}

#[test]
fn test_every_default_extension_classifies() {
    let config = Config::default();
    for ext in ["mp3", "ogg", "wav", "flac"] {
        assert_eq!(config.get_file_category(ext), Some("music"));
    }
    for ext in ["mp4", "avi", "mkv", "mov"] {
        assert_eq!(config.get_file_category(ext), Some("video"));
    }
    for ext in ["png", "jpg", "jpeg", "gif"] {
        assert_eq!(config.get_file_category(ext), Some("image"));
    }
    for ext in ["pdf", "txt", "epub"] {
        assert_eq!(config.get_file_category(ext), Some("docs"));
    }
    // Archive and code extensions are outside the four categories:
    // uncategorized, and the files stay where they are.
    for ext in ["zip", "rar", "7z", "rs", "py", "js"] {
        assert_eq!(config.get_file_category(ext), None);
    }
}

#[test]
fn test_classification_is_case_insensitive() {
    let config = Config::default();
    assert_eq!(config.get_file_category("MP3"), Some("music"));
    assert_eq!(config.get_file_category("Mp4"), Some("video"));
    assert_eq!(config.get_file_category("PNG"), Some("image"));
    assert_eq!(config.get_file_category("PdF"), Some("docs"));
}

#[test]
fn test_localized_dir_falls_back_for_unknown_language() {
    let config = Config::default();
    assert_eq!(config.get_localized_dir("fr", "Downloads"), "Downloads");
    assert_eq!(config.get_localized_dir("fr", "Documents"), "Documents");
    assert_eq!(config.get_localized_dir("de", "Pictures"), "Pictures");
}

#[test]
fn test_error_message_unknown_language_falls_back_to_english() {
    let config = Config::default();
    let msg = config.get_error_message("fr", "user_not_found", "alex");
    assert_eq!(msg, "User alex not found. Please enter a valid username.");
}

#[test]
fn test_error_message_unknown_key() {
    let config = Config::default();
    let msg = config.get_error_message("en", "mystery", "alex");
    assert_eq!(msg, "Unknown error");
}

#[test]
fn test_error_message_substitutes_every_placeholder() {
    let config = Config::default();
    let msg = config.get_error_message("en", "user_not_found", "sam");
    assert_eq!(msg, "User sam not found. Please enter a valid username.");
    let msg_es = config.get_error_message("es", "user_not_found", "sam");
    assert_eq!(
        msg_es,
        "Usuario sam no encontrado. Por favor, ingrese un nombre de usuario válido."
    );
}
