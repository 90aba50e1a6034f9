use abagames_util::paths::Paths;

#[test]
fn test_install_layout_detection() {
    assert!(Paths::is_install_layout(&"bin".to_owned()));
    assert!(!Paths::is_install_layout(&"build".to_owned()));
    assert!(!Paths::is_install_layout(&"Bin".to_owned()));
    assert!(!Paths::is_install_layout(&"".to_owned()));
}

#[test]
fn test_paths_from_build() {
    let paths = Paths::from_build("/src/game".to_owned());
    assert_eq!(paths.config_dir, "/src/game");
    assert_eq!(paths.data_dir, "/src/game");
}

#[test]
fn test_paths_new_picks_layout() {
    let source = "/src/game".to_owned();
    let config = "/home/player/.local/share/game/data".to_owned();
    let data = "/home/player/.config/game".to_owned();

    let installed = Paths::new(&source, &"bin".to_owned(), &config, &data);
    assert_eq!(installed.config_dir, config);
    assert_eq!(installed.data_dir, data);

    let in_tree = Paths::new(&source, &"debug".to_owned(), &config, &data);
    assert_eq!(in_tree.config_dir, source);
    assert_eq!(in_tree.data_dir, source);
}
