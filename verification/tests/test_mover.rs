use rustganizer::config::Config;
use rustganizer::organizer::mover::{prepare_organize, split_children};
use rustganizer::organizer::types::DirEntry;
use rustganizer::platform::user::UnixUserProvider;

#[test]
fn test_config_localized_dirs_en() {
    let config = Config::default();
    assert_eq!(config.get_localized_dir("en", "Downloads"), "Downloads");
    assert_eq!(config.get_localized_dir("en", "Desktop"), "Desktop");
    assert_eq!(config.get_localized_dir("en", "Music"), "Music");
    assert_eq!(config.get_localized_dir("en", "Videos"), "Videos");
    assert_eq!(config.get_localized_dir("en", "Pictures"), "Pictures");
    assert_eq!(config.get_localized_dir("en", "Documents"), "Documents");
}

#[test]
fn test_config_localized_dirs_es() {
    let config = Config::default();
    assert_eq!(config.get_localized_dir("es", "Downloads"), "Descargas");
    assert_eq!(config.get_localized_dir("es", "Desktop"), "Escritorio");
    assert_eq!(config.get_localized_dir("es", "Music"), "Música");
    assert_eq!(config.get_localized_dir("es", "Videos"), "Vídeos");
    assert_eq!(config.get_localized_dir("es", "Pictures"), "Imágenes");
    assert_eq!(config.get_localized_dir("es", "Documents"), "Documentos");
}

#[test]
fn test_prepare_organize_empty_username() {
    let config = Config::default();
    let result = prepare_organize(&UnixUserProvider, "", "en", &config);
    assert_eq!(
        result.unwrap_err(),
        "Empty username. Please enter a valid username."
    );
}

#[test]
fn test_prepare_organize_whitespace_username() {
    let config = Config::default();
    let result = prepare_organize(&UnixUserProvider, "   ", "en", &config);
    assert_eq!(
        result.unwrap_err(),
        "Empty username. Please enter a valid username."
    );
}

#[test]
fn test_prepare_organize_invalid_user_en() {
    let username = "nonexistent_user_xyz";
    let config = Config::default();
    let result = prepare_organize(&UnixUserProvider, username, "en", &config);
    assert_eq!(
        result.unwrap_err(),
        format!("User {username} not found. Please enter a valid username.")
    );
}

#[test]
fn test_prepare_organize_invalid_user_es() {
    let username = "nonexistent_user_xyz";
    let config = Config::default();
    let result = prepare_organize(&UnixUserProvider, username, "es", &config);
    assert_eq!(
        result.unwrap_err(),
        format!("Usuario {username} no encontrado. Por favor, ingrese un nombre de usuario válido.")
    );
}

#[test]
fn test_prepare_organize_trims_username_in_message() {
    let config = Config::default();
    let result = prepare_organize(&UnixUserProvider, "  ghost_user_q  ", "en", &config);
    assert_eq!(
        result.unwrap_err(),
        "User ghost_user_q not found. Please enter a valid username."
    );
}

#[test]
fn test_prepare_organize_special_characters() {
    let config = Config::default();
    let result = prepare_organize(&UnixUserProvider, "!@#$%^&*()", "en", &config);
    assert!(result.is_err());
}

#[test]
fn test_prepare_organize_long_username() {
    let config = Config::default();
    let long_username = "a".repeat(256);
    let result = prepare_organize(&UnixUserProvider, &long_username, "en", &config);
    assert!(result.is_err());
}

#[test]
fn test_prepare_organize_non_ascii_username() {
    let config = Config::default();
    let result = prepare_organize(&UnixUserProvider, "测试用户", "en", &config);
    assert!(result.is_err());
}

fn file_entry(name: &str, len: u64) -> DirEntry {
    DirEntry { name: name.to_string(), is_dir: false, is_file: true, len: Some(len) }
}

fn dir_entry(name: &str) -> DirEntry {
    DirEntry { name: name.to_string(), is_dir: true, is_file: false, len: None }
}

#[test]
fn test_split_children_downloads_root() {
    let entries = vec![
        dir_entry("Trip"),
        file_entry("song.mp3", 100),
        file_entry("empty.dat", 0),
        file_entry("movie.mp4", 5000),
    ];
    let (folders, files, empties) = split_children(&entries, true);
    assert_eq!(folders.len(), 1);
    assert_eq!(folders[0].name, "Trip");
    assert_eq!(files.len(), 2);
    assert_eq!(files[0].name, "song.mp3");
    assert_eq!(files[1].name, "movie.mp4");
    assert_eq!(empties.len(), 1);
    assert_eq!(empties[0].name, "empty.dat");
}

#[test]
fn test_split_children_desktop_root_keeps_folders_in_place() {
    let entries = vec![dir_entry("Projects"), file_entry("note.txt", 9)];
    let (folders, files, empties) = split_children(&entries, false);
    assert_eq!(folders.len(), 0);
    assert_eq!(files.len(), 1);
    assert_eq!(empties.len(), 0);
}

#[test]
fn test_split_children_zero_byte_file_is_housekeeping_only() {
    let entries = vec![file_entry("noise.bin", 0)];
    let (folders, files, empties) = split_children(&entries, true);
    assert!(folders.is_empty());
    assert!(files.is_empty());
    assert_eq!(empties.len(), 1);
    assert_eq!(empties[0].name, "noise.bin");
}
