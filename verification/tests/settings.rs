use scratchpad::settings_labels::{
    AppThemeMode, PathComponent, ThemeModeSelection, path_tail_from_components, path_tail_text,
    selected_theme_mode, theme_mode_for_selection,
};

#[test]
fn long_paths_keep_their_last_components() {
    let components = vec![
        PathComponent::RootDir,
        PathComponent::Normal("home".to_owned()),
        PathComponent::Normal("me".to_owned()),
        PathComponent::Normal("notes.txt".to_owned()),
    ];

    assert_eq!(path_tail_from_components(&components, "/home/me/notes.txt", 2, '/'), ".../me/notes.txt");
    assert_eq!(path_tail_from_components(&components, "/home/me/notes.txt", 3, '/'), "/home/me/notes.txt");
    assert_eq!(path_tail_from_components(&components, "/home/me/notes.txt", 1, '\\'), "...\\notes.txt");
}

#[test]
fn path_tail_text_uses_the_platform_split() {
    let separator = std::path::MAIN_SEPARATOR;
    let path = format!("{separator}srv{separator}data{separator}file.txt");

    assert_eq!(path_tail_text(&path, 2), format!("...{separator}data{separator}file.txt"));
    assert_eq!(path_tail_text("file.txt", 2), "file.txt");
}

#[test]
fn path_tail_text_of_a_slash_separated_path_keeps_its_last_names() {
    let separator = std::path::MAIN_SEPARATOR;
    assert_eq!(path_tail_text("a/b/c", 1), format!("...{separator}c"));
    assert_eq!(path_tail_text("/a/b/c", 2), format!("...{separator}b{separator}c"));
    assert_eq!(path_tail_text("/a/b", 2), "/a/b");
}

#[test]
fn custom_palette_selects_custom_theme() {
    assert_eq!(selected_theme_mode(true, AppThemeMode::Dark), ThemeModeSelection::Custom);
    assert_eq!(selected_theme_mode(false, AppThemeMode::Light), ThemeModeSelection::Light);
    assert_eq!(theme_mode_for_selection(ThemeModeSelection::Custom), None);
    assert_eq!(theme_mode_for_selection(ThemeModeSelection::Dark), Some(AppThemeMode::Dark));
}
