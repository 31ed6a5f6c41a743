use tungsten_workspace::assets::{AssetError, Assets, EmbeddedFile};

fn file(path: &str, data: &[u8]) -> EmbeddedFile {
    EmbeddedFile { path: path.to_string(), data: data.to_vec() }
}

fn assets() -> Assets {
    Assets {
        files: vec![
            file("fonts/plex/IBMPlexSans-Regular.ttf", b"font-a"),
            file("icons/close.svg", b"<svg/>"),
            file("fonts/LICENSE.txt", b"license"),
            file("fonts/zed-mono.ttf", b"font-b"),
            file("README.md", b"# readme"),
        ],
    }
}

#[test]
fn load_returns_the_bytes_at_a_path() {
    let a = assets();
    assert_eq!(a.load(&"icons/close.svg".to_string()), Ok(b"<svg/>".to_vec()));
}

#[test]
fn load_of_a_missing_path_is_not_found() {
    let a = assets();
    assert_eq!(a.load(&"icons/open.svg".to_string()), Err(AssetError::NotFound));
}

#[test]
fn list_keeps_paths_with_the_prefix_in_order() {
    let a = assets();
    assert_eq!(
        a.list(&"fonts".to_string()),
        vec![
            "fonts/plex/IBMPlexSans-Regular.ttf".to_string(),
            "fonts/LICENSE.txt".to_string(),
            "fonts/zed-mono.ttf".to_string(),
        ]
    );
    assert_eq!(a.list(&"".to_string()).len(), 5);
    assert!(a.list(&"sounds".to_string()).is_empty());
}

#[test]
fn font_paths_are_the_ttf_files_under_fonts() {
    let a = assets();
    assert_eq!(
        a.font_paths(),
        vec!["fonts/plex/IBMPlexSans-Regular.ttf".to_string(), "fonts/zed-mono.ttf".to_string()]
    );
}
